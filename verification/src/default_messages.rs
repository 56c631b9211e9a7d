//! The command set: one spec builder per command type, each a
//! declarative field table handed to the codec engine. Every
//! builder is proved to yield a well-formed spec with exactly the
//! declared name and fields.

use vstd::prelude::*;

use crate::codec::{
    spec_fields_error, spec_one_prefix, spec_one_trailing, spec_optional_suffix,
    spec_separators_nonempty, spec_space_list_last, CommandSpec, CommandSpecView,
    ConfigurationError, FieldRole, FieldRoleView, FieldSpec, FieldSpecView,
};

verus! {

/// Builds a spec from fields already known to be well formed.
fn build_spec(name: &str, fields: Vec<FieldSpec>) -> (r: CommandSpec)
    requires
        spec_fields_error(fields.deep_view()) is None,
    ensures
        r@ == (CommandSpecView { name: name@, fields: fields.deep_view() }),
        r@.wf(),
{
    match CommandSpec::new(name.to_owned(), fields) {
        Ok(s) => s,
        Err(_) => unreached(),
    }
}

/// The `ADMIN` command: target (optional).
pub fn admin_spec() -> (r: CommandSpec)
    ensures
        r@.wf(),
        r@ == (CommandSpecView { name: "ADMIN"@, fields: seq![
            FieldSpecView { id: "target"@, role: FieldRoleView::PositionalArg, optional: true },
        ] }),
{
    let mut fields: Vec<FieldSpec> = Vec::new();
    fields.push(FieldSpec { id: "target".to_owned(), role: FieldRole::PositionalArg, optional: true });
    proof {
        let dv = fields.deep_view();
        assert(dv =~= seq![
            FieldSpecView { id: "target"@, role: FieldRoleView::PositionalArg, optional: true },
        ]);
        assert(spec_one_prefix(dv));
        assert(spec_one_trailing(dv));
        assert(spec_separators_nonempty(dv));
        assert(spec_space_list_last(dv));
        assert(spec_optional_suffix(dv));
    }
    build_spec("ADMIN", fields)
}

/// The `AWAY` command: message (optional).
pub fn away_spec() -> (r: CommandSpec)
    ensures
        r@.wf(),
        r@ == (CommandSpecView { name: "AWAY"@, fields: seq![
            FieldSpecView { id: "message"@, role: FieldRoleView::PositionalArg, optional: true },
        ] }),
{
    let mut fields: Vec<FieldSpec> = Vec::new();
    fields.push(FieldSpec { id: "message".to_owned(), role: FieldRole::PositionalArg, optional: true });
    proof {
        let dv = fields.deep_view();
        assert(dv =~= seq![
            FieldSpecView { id: "message"@, role: FieldRoleView::PositionalArg, optional: true },
        ]);
        assert(spec_one_prefix(dv));
        assert(spec_one_trailing(dv));
        assert(spec_separators_nonempty(dv));
        assert(spec_space_list_last(dv));
        assert(spec_optional_suffix(dv));
    }
    build_spec("AWAY", fields)
}

/// The `CNOTICE` command: nickname, channel, message.
pub fn cnotice_spec() -> (r: CommandSpec)
    ensures
        r@.wf(),
        r@ == (CommandSpecView { name: "CNOTICE"@, fields: seq![
            FieldSpecView { id: "nickname"@, role: FieldRoleView::PositionalArg, optional: false },
            FieldSpecView { id: "channel"@, role: FieldRoleView::PositionalArg, optional: false },
            FieldSpecView { id: "message"@, role: FieldRoleView::Trailing, optional: false },
        ] }),
{
    let mut fields: Vec<FieldSpec> = Vec::new();
    fields.push(FieldSpec { id: "nickname".to_owned(), role: FieldRole::PositionalArg, optional: false });
    fields.push(FieldSpec { id: "channel".to_owned(), role: FieldRole::PositionalArg, optional: false });
    fields.push(FieldSpec { id: "message".to_owned(), role: FieldRole::Trailing, optional: false });
    proof {
        let dv = fields.deep_view();
        assert(dv =~= seq![
            FieldSpecView { id: "nickname"@, role: FieldRoleView::PositionalArg, optional: false },
            FieldSpecView { id: "channel"@, role: FieldRoleView::PositionalArg, optional: false },
            FieldSpecView { id: "message"@, role: FieldRoleView::Trailing, optional: false },
        ]);
        assert(spec_one_prefix(dv));
        assert(spec_one_trailing(dv));
        assert(spec_separators_nonempty(dv));
        assert(spec_space_list_last(dv));
        assert(spec_optional_suffix(dv));
    }
    build_spec("CNOTICE", fields)
}

/// The `CPRIVMESSAGE` command: nickname, channel, message.
pub fn cprivmessage_spec() -> (r: CommandSpec)
    ensures
        r@.wf(),
        r@ == (CommandSpecView { name: "CPRIVMESSAGE"@, fields: seq![
            FieldSpecView { id: "nickname"@, role: FieldRoleView::PositionalArg, optional: false },
            FieldSpecView { id: "channel"@, role: FieldRoleView::PositionalArg, optional: false },
            FieldSpecView { id: "message"@, role: FieldRoleView::Trailing, optional: false },
        ] }),
{
    let mut fields: Vec<FieldSpec> = Vec::new();
    fields.push(FieldSpec { id: "nickname".to_owned(), role: FieldRole::PositionalArg, optional: false });
    fields.push(FieldSpec { id: "channel".to_owned(), role: FieldRole::PositionalArg, optional: false });
    fields.push(FieldSpec { id: "message".to_owned(), role: FieldRole::Trailing, optional: false });
    proof {
        let dv = fields.deep_view();
        assert(dv =~= seq![
            FieldSpecView { id: "nickname"@, role: FieldRoleView::PositionalArg, optional: false },
            FieldSpecView { id: "channel"@, role: FieldRoleView::PositionalArg, optional: false },
            FieldSpecView { id: "message"@, role: FieldRoleView::Trailing, optional: false },
        ]);
        assert(spec_one_prefix(dv));
        assert(spec_one_trailing(dv));
        assert(spec_separators_nonempty(dv));
        assert(spec_space_list_last(dv));
        assert(spec_optional_suffix(dv));
    }
    build_spec("CPRIVMESSAGE", fields)
}

/// The `CONNECT` command: target_server, port, remote_server (optional).
pub fn connect_spec() -> (r: CommandSpec)
    ensures
        r@.wf(),
        r@ == (CommandSpecView { name: "CONNECT"@, fields: seq![
            FieldSpecView { id: "target_server"@, role: FieldRoleView::PositionalArg, optional: false },
            FieldSpecView { id: "port"@, role: FieldRoleView::PositionalArg, optional: false },
            FieldSpecView { id: "remote_server"@, role: FieldRoleView::PositionalArg, optional: true },
        ] }),
{
    let mut fields: Vec<FieldSpec> = Vec::new();
    fields.push(FieldSpec { id: "target_server".to_owned(), role: FieldRole::PositionalArg, optional: false });
    fields.push(FieldSpec { id: "port".to_owned(), role: FieldRole::PositionalArg, optional: false });
    fields.push(FieldSpec { id: "remote_server".to_owned(), role: FieldRole::PositionalArg, optional: true });
    proof {
        let dv = fields.deep_view();
        assert(dv =~= seq![
            FieldSpecView { id: "target_server"@, role: FieldRoleView::PositionalArg, optional: false },
            FieldSpecView { id: "port"@, role: FieldRoleView::PositionalArg, optional: false },
            FieldSpecView { id: "remote_server"@, role: FieldRoleView::PositionalArg, optional: true },
        ]);
        assert(spec_one_prefix(dv));
        assert(spec_one_trailing(dv));
        assert(spec_separators_nonempty(dv));
        assert(spec_space_list_last(dv));
        assert(spec_optional_suffix(dv));
    }
    build_spec("CONNECT", fields)
}

/// The `DIE` command: no fields.
pub fn die_spec() -> (r: CommandSpec)
    ensures
        r@.wf(),
        r@ == (CommandSpecView { name: "DIE"@, fields: Seq::<FieldSpecView>::empty() }),
{
    let fields: Vec<FieldSpec> = Vec::new();
    proof {
        let dv = fields.deep_view();
        assert(dv =~= Seq::<FieldSpecView>::empty());
        assert(spec_one_prefix(dv));
        assert(spec_one_trailing(dv));
        assert(spec_separators_nonempty(dv));
        assert(spec_space_list_last(dv));
        assert(spec_optional_suffix(dv));
    }
    build_spec("DIE", fields)
}

/// The `ENCAP` command: source, destination, parameters.
pub fn encap_spec() -> (r: CommandSpec)
    ensures
        r@.wf(),
        r@ == (CommandSpecView { name: "ENCAP"@, fields: seq![
            FieldSpecView { id: "source"@, role: FieldRoleView::Prefix, optional: false },
            FieldSpecView { id: "destination"@, role: FieldRoleView::PositionalArg, optional: false },
            FieldSpecView { id: "parameters"@, role: FieldRoleView::PositionalArg, optional: false },
        ] }),
{
    let mut fields: Vec<FieldSpec> = Vec::new();
    fields.push(FieldSpec { id: "source".to_owned(), role: FieldRole::Prefix, optional: false });
    fields.push(FieldSpec { id: "destination".to_owned(), role: FieldRole::PositionalArg, optional: false });
    fields.push(FieldSpec { id: "parameters".to_owned(), role: FieldRole::PositionalArg, optional: false });
    proof {
        let dv = fields.deep_view();
        assert(dv =~= seq![
            FieldSpecView { id: "source"@, role: FieldRoleView::Prefix, optional: false },
            FieldSpecView { id: "destination"@, role: FieldRoleView::PositionalArg, optional: false },
            FieldSpecView { id: "parameters"@, role: FieldRoleView::PositionalArg, optional: false },
        ]);
        assert(spec_one_prefix(dv));
        assert(spec_one_trailing(dv));
        assert(spec_separators_nonempty(dv));
        assert(spec_space_list_last(dv));
        assert(spec_optional_suffix(dv));
    }
    build_spec("ENCAP", fields)
}

/// The `ERROR` command: error_message.
pub fn error_spec() -> (r: CommandSpec)
    ensures
        r@.wf(),
        r@ == (CommandSpecView { name: "ERROR"@, fields: seq![
            FieldSpecView { id: "error_message"@, role: FieldRoleView::PositionalArg, optional: false },
        ] }),
{
    let mut fields: Vec<FieldSpec> = Vec::new();
    fields.push(FieldSpec { id: "error_message".to_owned(), role: FieldRole::PositionalArg, optional: false });
    proof {
        let dv = fields.deep_view();
        assert(dv =~= seq![
            FieldSpecView { id: "error_message"@, role: FieldRoleView::PositionalArg, optional: false },
        ]);
        assert(spec_one_prefix(dv));
        assert(spec_one_trailing(dv));
        assert(spec_separators_nonempty(dv));
        assert(spec_space_list_last(dv));
        assert(spec_optional_suffix(dv));
    }
    build_spec("ERROR", fields)
}

/// The `HELP` command: no fields.
pub fn help_spec() -> (r: CommandSpec)
    ensures
        r@.wf(),
        r@ == (CommandSpecView { name: "HELP"@, fields: Seq::<FieldSpecView>::empty() }),
{
    let fields: Vec<FieldSpec> = Vec::new();
    proof {
        let dv = fields.deep_view();
        assert(dv =~= Seq::<FieldSpecView>::empty());
        assert(spec_one_prefix(dv));
        assert(spec_one_trailing(dv));
        assert(spec_separators_nonempty(dv));
        assert(spec_space_list_last(dv));
        assert(spec_optional_suffix(dv));
    }
    build_spec("HELP", fields)
}

/// The `INFO` command: target (optional).
pub fn info_spec() -> (r: CommandSpec)
    ensures
        r@.wf(),
        r@ == (CommandSpecView { name: "INFO"@, fields: seq![
            FieldSpecView { id: "target"@, role: FieldRoleView::PositionalArg, optional: true },
        ] }),
{
    let mut fields: Vec<FieldSpec> = Vec::new();
    fields.push(FieldSpec { id: "target".to_owned(), role: FieldRole::PositionalArg, optional: true });
    proof {
        let dv = fields.deep_view();
        assert(dv =~= seq![
            FieldSpecView { id: "target"@, role: FieldRoleView::PositionalArg, optional: true },
        ]);
        assert(spec_one_prefix(dv));
        assert(spec_one_trailing(dv));
        assert(spec_separators_nonempty(dv));
        assert(spec_space_list_last(dv));
        assert(spec_optional_suffix(dv));
    }
    build_spec("INFO", fields)
}

/// The `INVITE` command: nickname, channel.
pub fn invite_spec() -> (r: CommandSpec)
    ensures
        r@.wf(),
        r@ == (CommandSpecView { name: "INVITE"@, fields: seq![
            FieldSpecView { id: "nickname"@, role: FieldRoleView::PositionalArg, optional: false },
            FieldSpecView { id: "channel"@, role: FieldRoleView::PositionalArg, optional: false },
        ] }),
{
    let mut fields: Vec<FieldSpec> = Vec::new();
    fields.push(FieldSpec { id: "nickname".to_owned(), role: FieldRole::PositionalArg, optional: false });
    fields.push(FieldSpec { id: "channel".to_owned(), role: FieldRole::PositionalArg, optional: false });
    proof {
        let dv = fields.deep_view();
        assert(dv =~= seq![
            FieldSpecView { id: "nickname"@, role: FieldRoleView::PositionalArg, optional: false },
            FieldSpecView { id: "channel"@, role: FieldRoleView::PositionalArg, optional: false },
        ]);
        assert(spec_one_prefix(dv));
        assert(spec_one_trailing(dv));
        assert(spec_separators_nonempty(dv));
        assert(spec_space_list_last(dv));
        assert(spec_optional_suffix(dv));
    }
    build_spec("INVITE", fields)
}

/// The `ISON` command: nicknames.
pub fn ison_spec() -> (r: CommandSpec)
    ensures
        r@.wf(),
        r@ == (CommandSpecView { name: "ISON"@, fields: seq![
            FieldSpecView { id: "nicknames"@, role: FieldRoleView::SeparatedList(" "@), optional: false },
        ] }),
{
    let mut fields: Vec<FieldSpec> = Vec::new();
    fields.push(FieldSpec { id: "nicknames".to_owned(), role: FieldRole::SeparatedList(" ".to_owned()), optional: false });
    proof {
        reveal_strlit(" ");
        assert(" "@ =~= seq![' ']);
        let dv = fields.deep_view();
        assert(dv =~= seq![
            FieldSpecView { id: "nicknames"@, role: FieldRoleView::SeparatedList(" "@), optional: false },
        ]);
        assert(spec_one_prefix(dv));
        assert(spec_one_trailing(dv));
        assert(spec_separators_nonempty(dv));
        assert(spec_space_list_last(dv));
        assert(spec_optional_suffix(dv));
    }
    build_spec("ISON", fields)
}

/// The `JOIN` command: channels, keys (optional).
pub fn join_spec() -> (r: CommandSpec)
    ensures
        r@.wf(),
        r@ == (CommandSpecView { name: "JOIN"@, fields: seq![
            FieldSpecView { id: "channels"@, role: FieldRoleView::SeparatedList(","@), optional: false },
            FieldSpecView { id: "keys"@, role: FieldRoleView::SeparatedList(","@), optional: true },
        ] }),
{
    let mut fields: Vec<FieldSpec> = Vec::new();
    fields.push(FieldSpec { id: "channels".to_owned(), role: FieldRole::SeparatedList(",".to_owned()), optional: false });
    fields.push(FieldSpec { id: "keys".to_owned(), role: FieldRole::SeparatedList(",".to_owned()), optional: true });
    proof {
        reveal_strlit(",");
        assert(","@.len() == 1 && ","@[0] == ',');
        assert(","@ != seq![' ']) by {
            if ","@ == seq![' '] {
                assert(","@[0] == ' ');
            }
        }
        let dv = fields.deep_view();
        assert(dv =~= seq![
            FieldSpecView { id: "channels"@, role: FieldRoleView::SeparatedList(","@), optional: false },
            FieldSpecView { id: "keys"@, role: FieldRoleView::SeparatedList(","@), optional: true },
        ]);
        assert(spec_one_prefix(dv));
        assert(spec_one_trailing(dv));
        assert(spec_separators_nonempty(dv));
        assert(spec_space_list_last(dv));
        assert(spec_optional_suffix(dv));
    }
    build_spec("JOIN", fields)
}

/// The `KICK` command: channel, client, message (optional).
pub fn kick_spec() -> (r: CommandSpec)
    ensures
        r@.wf(),
        r@ == (CommandSpecView { name: "KICK"@, fields: seq![
            FieldSpecView { id: "channel"@, role: FieldRoleView::PositionalArg, optional: false },
            FieldSpecView { id: "client"@, role: FieldRoleView::PositionalArg, optional: false },
            FieldSpecView { id: "message"@, role: FieldRoleView::Trailing, optional: true },
        ] }),
{
    let mut fields: Vec<FieldSpec> = Vec::new();
    fields.push(FieldSpec { id: "channel".to_owned(), role: FieldRole::PositionalArg, optional: false });
    fields.push(FieldSpec { id: "client".to_owned(), role: FieldRole::PositionalArg, optional: false });
    fields.push(FieldSpec { id: "message".to_owned(), role: FieldRole::Trailing, optional: true });
    proof {
        let dv = fields.deep_view();
        assert(dv =~= seq![
            FieldSpecView { id: "channel"@, role: FieldRoleView::PositionalArg, optional: false },
            FieldSpecView { id: "client"@, role: FieldRoleView::PositionalArg, optional: false },
            FieldSpecView { id: "message"@, role: FieldRoleView::Trailing, optional: true },
        ]);
        assert(spec_one_prefix(dv));
        assert(spec_one_trailing(dv));
        assert(spec_separators_nonempty(dv));
        assert(spec_space_list_last(dv));
        assert(spec_optional_suffix(dv));
    }
    build_spec("KICK", fields)
}

/// The `KILL` command: client, comment.
pub fn kill_spec() -> (r: CommandSpec)
    ensures
        r@.wf(),
        r@ == (CommandSpecView { name: "KILL"@, fields: seq![
            FieldSpecView { id: "client"@, role: FieldRoleView::PositionalArg, optional: false },
            FieldSpecView { id: "comment"@, role: FieldRoleView::PositionalArg, optional: false },
        ] }),
{
    let mut fields: Vec<FieldSpec> = Vec::new();
    fields.push(FieldSpec { id: "client".to_owned(), role: FieldRole::PositionalArg, optional: false });
    fields.push(FieldSpec { id: "comment".to_owned(), role: FieldRole::PositionalArg, optional: false });
    proof {
        let dv = fields.deep_view();
        assert(dv =~= seq![
            FieldSpecView { id: "client"@, role: FieldRoleView::PositionalArg, optional: false },
            FieldSpecView { id: "comment"@, role: FieldRoleView::PositionalArg, optional: false },
        ]);
        assert(spec_one_prefix(dv));
        assert(spec_one_trailing(dv));
        assert(spec_separators_nonempty(dv));
        assert(spec_space_list_last(dv));
        assert(spec_optional_suffix(dv));
    }
    build_spec("KILL", fields)
}

/// The `KNOCK` command: channel, message (optional).
pub fn knock_spec() -> (r: CommandSpec)
    ensures
        r@.wf(),
        r@ == (CommandSpecView { name: "KNOCK"@, fields: seq![
            FieldSpecView { id: "channel"@, role: FieldRoleView::PositionalArg, optional: false },
            FieldSpecView { id: "message"@, role: FieldRoleView::PositionalArg, optional: true },
        ] }),
{
    let mut fields: Vec<FieldSpec> = Vec::new();
    fields.push(FieldSpec { id: "channel".to_owned(), role: FieldRole::PositionalArg, optional: false });
    fields.push(FieldSpec { id: "message".to_owned(), role: FieldRole::PositionalArg, optional: true });
    proof {
        let dv = fields.deep_view();
        assert(dv =~= seq![
            FieldSpecView { id: "channel"@, role: FieldRoleView::PositionalArg, optional: false },
            FieldSpecView { id: "message"@, role: FieldRoleView::PositionalArg, optional: true },
        ]);
        assert(spec_one_prefix(dv));
        assert(spec_one_trailing(dv));
        assert(spec_separators_nonempty(dv));
        assert(spec_space_list_last(dv));
        assert(spec_optional_suffix(dv));
    }
    build_spec("KNOCK", fields)
}

/// The `LINKS` command: remote_server (optional), server_mask (optional).
pub fn links_spec() -> (r: CommandSpec)
    ensures
        r@.wf(),
        r@ == (CommandSpecView { name: "LINKS"@, fields: seq![
            FieldSpecView { id: "remote_server"@, role: FieldRoleView::PositionalArg, optional: true },
            FieldSpecView { id: "server_mask"@, role: FieldRoleView::PositionalArg, optional: true },
        ] }),
{
    let mut fields: Vec<FieldSpec> = Vec::new();
    fields.push(FieldSpec { id: "remote_server".to_owned(), role: FieldRole::PositionalArg, optional: true });
    fields.push(FieldSpec { id: "server_mask".to_owned(), role: FieldRole::PositionalArg, optional: true });
    proof {
        let dv = fields.deep_view();
        assert(dv =~= seq![
            FieldSpecView { id: "remote_server"@, role: FieldRoleView::PositionalArg, optional: true },
            FieldSpecView { id: "server_mask"@, role: FieldRoleView::PositionalArg, optional: true },
        ]);
        assert(spec_one_prefix(dv));
        assert(spec_one_trailing(dv));
        assert(spec_separators_nonempty(dv));
        assert(spec_space_list_last(dv));
        assert(spec_optional_suffix(dv));
    }
    build_spec("LINKS", fields)
}

/// The `LIST` command: channels (optional), server (optional).
pub fn list_spec() -> (r: CommandSpec)
    ensures
        r@.wf(),
        r@ == (CommandSpecView { name: "LIST"@, fields: seq![
            FieldSpecView { id: "channels"@, role: FieldRoleView::SeparatedList(","@), optional: true },
            FieldSpecView { id: "server"@, role: FieldRoleView::PositionalArg, optional: true },
        ] }),
{
    let mut fields: Vec<FieldSpec> = Vec::new();
    fields.push(FieldSpec { id: "channels".to_owned(), role: FieldRole::SeparatedList(",".to_owned()), optional: true });
    fields.push(FieldSpec { id: "server".to_owned(), role: FieldRole::PositionalArg, optional: true });
    proof {
        reveal_strlit(",");
        assert(","@.len() == 1 && ","@[0] == ',');
        assert(","@ != seq![' ']) by {
            if ","@ == seq![' '] {
                assert(","@[0] == ' ');
            }
        }
        let dv = fields.deep_view();
        assert(dv =~= seq![
            FieldSpecView { id: "channels"@, role: FieldRoleView::SeparatedList(","@), optional: true },
            FieldSpecView { id: "server"@, role: FieldRoleView::PositionalArg, optional: true },
        ]);
        assert(spec_one_prefix(dv));
        assert(spec_one_trailing(dv));
        assert(spec_separators_nonempty(dv));
        assert(spec_space_list_last(dv));
        assert(spec_optional_suffix(dv));
    }
    build_spec("LIST", fields)
}

/// The `LUSERS` command: mask (optional), server (optional).
pub fn lusers_spec() -> (r: CommandSpec)
    ensures
        r@.wf(),
        r@ == (CommandSpecView { name: "LUSERS"@, fields: seq![
            FieldSpecView { id: "mask"@, role: FieldRoleView::PositionalArg, optional: true },
            FieldSpecView { id: "server"@, role: FieldRoleView::PositionalArg, optional: true },
        ] }),
{
    let mut fields: Vec<FieldSpec> = Vec::new();
    fields.push(FieldSpec { id: "mask".to_owned(), role: FieldRole::PositionalArg, optional: true });
    fields.push(FieldSpec { id: "server".to_owned(), role: FieldRole::PositionalArg, optional: true });
    proof {
        let dv = fields.deep_view();
        assert(dv =~= seq![
            FieldSpecView { id: "mask"@, role: FieldRoleView::PositionalArg, optional: true },
            FieldSpecView { id: "server"@, role: FieldRoleView::PositionalArg, optional: true },
        ]);
        assert(spec_one_prefix(dv));
        assert(spec_one_trailing(dv));
        assert(spec_separators_nonempty(dv));
        assert(spec_space_list_last(dv));
        assert(spec_optional_suffix(dv));
    }
    build_spec("LUSERS", fields)
}

/// The `USERMODE` command: nickname, flags, user.
pub fn usermode_spec() -> (r: CommandSpec)
    ensures
        r@.wf(),
        r@ == (CommandSpecView { name: "USERMODE"@, fields: seq![
            FieldSpecView { id: "nickname"@, role: FieldRoleView::PositionalArg, optional: false },
            FieldSpecView { id: "flags"@, role: FieldRoleView::PositionalArg, optional: false },
            FieldSpecView { id: "user"@, role: FieldRoleView::PositionalArg, optional: false },
        ] }),
{
    let mut fields: Vec<FieldSpec> = Vec::new();
    fields.push(FieldSpec { id: "nickname".to_owned(), role: FieldRole::PositionalArg, optional: false });
    fields.push(FieldSpec { id: "flags".to_owned(), role: FieldRole::PositionalArg, optional: false });
    fields.push(FieldSpec { id: "user".to_owned(), role: FieldRole::PositionalArg, optional: false });
    proof {
        let dv = fields.deep_view();
        assert(dv =~= seq![
            FieldSpecView { id: "nickname"@, role: FieldRoleView::PositionalArg, optional: false },
            FieldSpecView { id: "flags"@, role: FieldRoleView::PositionalArg, optional: false },
            FieldSpecView { id: "user"@, role: FieldRoleView::PositionalArg, optional: false },
        ]);
        assert(spec_one_prefix(dv));
        assert(spec_one_trailing(dv));
        assert(spec_separators_nonempty(dv));
        assert(spec_space_list_last(dv));
        assert(spec_optional_suffix(dv));
    }
    build_spec("USERMODE", fields)
}

/// The `CHANNELMODE` command: channel, flags, args (optional).
pub fn channelmode_spec() -> (r: CommandSpec)
    ensures
        r@.wf(),
        r@ == (CommandSpecView { name: "CHANNELMODE"@, fields: seq![
            FieldSpecView { id: "channel"@, role: FieldRoleView::PositionalArg, optional: false },
            FieldSpecView { id: "flags"@, role: FieldRoleView::PositionalArg, optional: false },
            FieldSpecView { id: "args"@, role: FieldRoleView::PositionalArg, optional: true },
        ] }),
{
    let mut fields: Vec<FieldSpec> = Vec::new();
    fields.push(FieldSpec { id: "channel".to_owned(), role: FieldRole::PositionalArg, optional: false });
    fields.push(FieldSpec { id: "flags".to_owned(), role: FieldRole::PositionalArg, optional: false });
    fields.push(FieldSpec { id: "args".to_owned(), role: FieldRole::PositionalArg, optional: true });
    proof {
        let dv = fields.deep_view();
        assert(dv =~= seq![
            FieldSpecView { id: "channel"@, role: FieldRoleView::PositionalArg, optional: false },
            FieldSpecView { id: "flags"@, role: FieldRoleView::PositionalArg, optional: false },
            FieldSpecView { id: "args"@, role: FieldRoleView::PositionalArg, optional: true },
        ]);
        assert(spec_one_prefix(dv));
        assert(spec_one_trailing(dv));
        assert(spec_separators_nonempty(dv));
        assert(spec_space_list_last(dv));
        assert(spec_optional_suffix(dv));
    }
    build_spec("CHANNELMODE", fields)
}

/// The `MOTD` command: server (optional).
pub fn motd_spec() -> (r: CommandSpec)
    ensures
        r@.wf(),
        r@ == (CommandSpecView { name: "MOTD"@, fields: seq![
            FieldSpecView { id: "server"@, role: FieldRoleView::PositionalArg, optional: true },
        ] }),
{
    let mut fields: Vec<FieldSpec> = Vec::new();
    fields.push(FieldSpec { id: "server".to_owned(), role: FieldRole::PositionalArg, optional: true });
    proof {
        let dv = fields.deep_view();
        assert(dv =~= seq![
            FieldSpecView { id: "server"@, role: FieldRoleView::PositionalArg, optional: true },
        ]);
        assert(spec_one_prefix(dv));
        assert(spec_one_trailing(dv));
        assert(spec_separators_nonempty(dv));
        assert(spec_space_list_last(dv));
        assert(spec_optional_suffix(dv));
    }
    build_spec("MOTD", fields)
}

/// The `NAMES` command: channels (optional), server (optional).
pub fn names_spec() -> (r: CommandSpec)
    ensures
        r@.wf(),
        r@ == (CommandSpecView { name: "NAMES"@, fields: seq![
            FieldSpecView { id: "channels"@, role: FieldRoleView::SeparatedList(","@), optional: true },
            FieldSpecView { id: "server"@, role: FieldRoleView::PositionalArg, optional: true },
        ] }),
{
    let mut fields: Vec<FieldSpec> = Vec::new();
    fields.push(FieldSpec { id: "channels".to_owned(), role: FieldRole::SeparatedList(",".to_owned()), optional: true });
    fields.push(FieldSpec { id: "server".to_owned(), role: FieldRole::PositionalArg, optional: true });
    proof {
        reveal_strlit(",");
        assert(","@.len() == 1 && ","@[0] == ',');
        assert(","@ != seq![' ']) by {
            if ","@ == seq![' '] {
                assert(","@[0] == ' ');
            }
        }
        let dv = fields.deep_view();
        assert(dv =~= seq![
            FieldSpecView { id: "channels"@, role: FieldRoleView::SeparatedList(","@), optional: true },
            FieldSpecView { id: "server"@, role: FieldRoleView::PositionalArg, optional: true },
        ]);
        assert(spec_one_prefix(dv));
        assert(spec_one_trailing(dv));
        assert(spec_separators_nonempty(dv));
        assert(spec_space_list_last(dv));
        assert(spec_optional_suffix(dv));
    }
    build_spec("NAMES", fields)
}

/// The `PROTOCTL NAMESX` command: no fields.
pub fn namesx_spec() -> (r: CommandSpec)
    ensures
        r@.wf(),
        r@ == (CommandSpecView { name: "PROTOCTL NAMESX"@, fields: Seq::<FieldSpecView>::empty() }),
{
    let fields: Vec<FieldSpec> = Vec::new();
    proof {
        let dv = fields.deep_view();
        assert(dv =~= Seq::<FieldSpecView>::empty());
        assert(spec_one_prefix(dv));
        assert(spec_one_trailing(dv));
        assert(spec_separators_nonempty(dv));
        assert(spec_space_list_last(dv));
        assert(spec_optional_suffix(dv));
    }
    build_spec("PROTOCTL NAMESX", fields)
}

/// The `NICK` command: nickname.
pub fn nick_spec() -> (r: CommandSpec)
    ensures
        r@.wf(),
        r@ == (CommandSpecView { name: "NICK"@, fields: seq![
            FieldSpecView { id: "nickname"@, role: FieldRoleView::PositionalArg, optional: false },
        ] }),
{
    let mut fields: Vec<FieldSpec> = Vec::new();
    fields.push(FieldSpec { id: "nickname".to_owned(), role: FieldRole::PositionalArg, optional: false });
    proof {
        let dv = fields.deep_view();
        assert(dv =~= seq![
            FieldSpecView { id: "nickname"@, role: FieldRoleView::PositionalArg, optional: false },
        ]);
        assert(spec_one_prefix(dv));
        assert(spec_one_trailing(dv));
        assert(spec_separators_nonempty(dv));
        assert(spec_space_list_last(dv));
        assert(spec_optional_suffix(dv));
    }
    build_spec("NICK", fields)
}

/// The `NOTICE` command: target, message.
pub fn notice_spec() -> (r: CommandSpec)
    ensures
        r@.wf(),
        r@ == (CommandSpecView { name: "NOTICE"@, fields: seq![
            FieldSpecView { id: "target"@, role: FieldRoleView::PositionalArg, optional: false },
            FieldSpecView { id: "message"@, role: FieldRoleView::PositionalArg, optional: false },
        ] }),
{
    let mut fields: Vec<FieldSpec> = Vec::new();
    fields.push(FieldSpec { id: "target".to_owned(), role: FieldRole::PositionalArg, optional: false });
    fields.push(FieldSpec { id: "message".to_owned(), role: FieldRole::PositionalArg, optional: false });
    proof {
        let dv = fields.deep_view();
        assert(dv =~= seq![
            FieldSpecView { id: "target"@, role: FieldRoleView::PositionalArg, optional: false },
            FieldSpecView { id: "message"@, role: FieldRoleView::PositionalArg, optional: false },
        ]);
        assert(spec_one_prefix(dv));
        assert(spec_one_trailing(dv));
        assert(spec_separators_nonempty(dv));
        assert(spec_space_list_last(dv));
        assert(spec_optional_suffix(dv));
    }
    build_spec("NOTICE", fields)
}

/// The `OPER` command: username, password.
pub fn oper_spec() -> (r: CommandSpec)
    ensures
        r@.wf(),
        r@ == (CommandSpecView { name: "OPER"@, fields: seq![
            FieldSpecView { id: "username"@, role: FieldRoleView::PositionalArg, optional: false },
            FieldSpecView { id: "password"@, role: FieldRoleView::PositionalArg, optional: false },
        ] }),
{
    let mut fields: Vec<FieldSpec> = Vec::new();
    fields.push(FieldSpec { id: "username".to_owned(), role: FieldRole::PositionalArg, optional: false });
    fields.push(FieldSpec { id: "password".to_owned(), role: FieldRole::PositionalArg, optional: false });
    proof {
        let dv = fields.deep_view();
        assert(dv =~= seq![
            FieldSpecView { id: "username"@, role: FieldRoleView::PositionalArg, optional: false },
            FieldSpecView { id: "password"@, role: FieldRoleView::PositionalArg, optional: false },
        ]);
        assert(spec_one_prefix(dv));
        assert(spec_one_trailing(dv));
        assert(spec_separators_nonempty(dv));
        assert(spec_space_list_last(dv));
        assert(spec_optional_suffix(dv));
    }
    build_spec("OPER", fields)
}

/// The `PART` command: channels, message (optional).
pub fn part_spec() -> (r: CommandSpec)
    ensures
        r@.wf(),
        r@ == (CommandSpecView { name: "PART"@, fields: seq![
            FieldSpecView { id: "channels"@, role: FieldRoleView::SeparatedList(","@), optional: false },
            FieldSpecView { id: "message"@, role: FieldRoleView::PositionalArg, optional: true },
        ] }),
{
    let mut fields: Vec<FieldSpec> = Vec::new();
    fields.push(FieldSpec { id: "channels".to_owned(), role: FieldRole::SeparatedList(",".to_owned()), optional: false });
    fields.push(FieldSpec { id: "message".to_owned(), role: FieldRole::PositionalArg, optional: true });
    proof {
        reveal_strlit(",");
        assert(","@.len() == 1 && ","@[0] == ',');
        assert(","@ != seq![' ']) by {
            if ","@ == seq![' '] {
                assert(","@[0] == ' ');
            }
        }
        let dv = fields.deep_view();
        assert(dv =~= seq![
            FieldSpecView { id: "channels"@, role: FieldRoleView::SeparatedList(","@), optional: false },
            FieldSpecView { id: "message"@, role: FieldRoleView::PositionalArg, optional: true },
        ]);
        assert(spec_one_prefix(dv));
        assert(spec_one_trailing(dv));
        assert(spec_separators_nonempty(dv));
        assert(spec_space_list_last(dv));
        assert(spec_optional_suffix(dv));
    }
    build_spec("PART", fields)
}

/// The `PASS` command: password.
pub fn pass_spec() -> (r: CommandSpec)
    ensures
        r@.wf(),
        r@ == (CommandSpecView { name: "PASS"@, fields: seq![
            FieldSpecView { id: "password"@, role: FieldRoleView::PositionalArg, optional: false },
        ] }),
{
    let mut fields: Vec<FieldSpec> = Vec::new();
    fields.push(FieldSpec { id: "password".to_owned(), role: FieldRole::PositionalArg, optional: false });
    proof {
        let dv = fields.deep_view();
        assert(dv =~= seq![
            FieldSpecView { id: "password"@, role: FieldRoleView::PositionalArg, optional: false },
        ]);
        assert(spec_one_prefix(dv));
        assert(spec_one_trailing(dv));
        assert(spec_separators_nonempty(dv));
        assert(spec_space_list_last(dv));
        assert(spec_optional_suffix(dv));
    }
    build_spec("PASS", fields)
}

/// The `PING` command: server1, server2 (optional).
pub fn ping_spec() -> (r: CommandSpec)
    ensures
        r@.wf(),
        r@ == (CommandSpecView { name: "PING"@, fields: seq![
            FieldSpecView { id: "server1"@, role: FieldRoleView::PositionalArg, optional: false },
            FieldSpecView { id: "server2"@, role: FieldRoleView::PositionalArg, optional: true },
        ] }),
{
    let mut fields: Vec<FieldSpec> = Vec::new();
    fields.push(FieldSpec { id: "server1".to_owned(), role: FieldRole::PositionalArg, optional: false });
    fields.push(FieldSpec { id: "server2".to_owned(), role: FieldRole::PositionalArg, optional: true });
    proof {
        let dv = fields.deep_view();
        assert(dv =~= seq![
            FieldSpecView { id: "server1"@, role: FieldRoleView::PositionalArg, optional: false },
            FieldSpecView { id: "server2"@, role: FieldRoleView::PositionalArg, optional: true },
        ]);
        assert(spec_one_prefix(dv));
        assert(spec_one_trailing(dv));
        assert(spec_separators_nonempty(dv));
        assert(spec_space_list_last(dv));
        assert(spec_optional_suffix(dv));
    }
    build_spec("PING", fields)
}

/// The `PONG` command: server1, server2 (optional).
pub fn pong_spec() -> (r: CommandSpec)
    ensures
        r@.wf(),
        r@ == (CommandSpecView { name: "PONG"@, fields: seq![
            FieldSpecView { id: "server1"@, role: FieldRoleView::PositionalArg, optional: false },
            FieldSpecView { id: "server2"@, role: FieldRoleView::PositionalArg, optional: true },
        ] }),
{
    let mut fields: Vec<FieldSpec> = Vec::new();
    fields.push(FieldSpec { id: "server1".to_owned(), role: FieldRole::PositionalArg, optional: false });
    fields.push(FieldSpec { id: "server2".to_owned(), role: FieldRole::PositionalArg, optional: true });
    proof {
        let dv = fields.deep_view();
        assert(dv =~= seq![
            FieldSpecView { id: "server1"@, role: FieldRoleView::PositionalArg, optional: false },
            FieldSpecView { id: "server2"@, role: FieldRoleView::PositionalArg, optional: true },
        ]);
        assert(spec_one_prefix(dv));
        assert(spec_one_trailing(dv));
        assert(spec_separators_nonempty(dv));
        assert(spec_space_list_last(dv));
        assert(spec_optional_suffix(dv));
    }
    build_spec("PONG", fields)
}

/// The `PRIVMSG` command: target, message.
pub fn privmsg_spec() -> (r: CommandSpec)
    ensures
        r@.wf(),
        r@ == (CommandSpecView { name: "PRIVMSG"@, fields: seq![
            FieldSpecView { id: "target"@, role: FieldRoleView::PositionalArg, optional: false },
            FieldSpecView { id: "message"@, role: FieldRoleView::PositionalArg, optional: false },
        ] }),
{
    let mut fields: Vec<FieldSpec> = Vec::new();
    fields.push(FieldSpec { id: "target".to_owned(), role: FieldRole::PositionalArg, optional: false });
    fields.push(FieldSpec { id: "message".to_owned(), role: FieldRole::PositionalArg, optional: false });
    proof {
        let dv = fields.deep_view();
        assert(dv =~= seq![
            FieldSpecView { id: "target"@, role: FieldRoleView::PositionalArg, optional: false },
            FieldSpecView { id: "message"@, role: FieldRoleView::PositionalArg, optional: false },
        ]);
        assert(spec_one_prefix(dv));
        assert(spec_one_trailing(dv));
        assert(spec_separators_nonempty(dv));
        assert(spec_space_list_last(dv));
        assert(spec_optional_suffix(dv));
    }
    build_spec("PRIVMSG", fields)
}

/// The `QUIT` command: message (optional).
pub fn quit_spec() -> (r: CommandSpec)
    ensures
        r@.wf(),
        r@ == (CommandSpecView { name: "QUIT"@, fields: seq![
            FieldSpecView { id: "message"@, role: FieldRoleView::PositionalArg, optional: true },
        ] }),
{
    let mut fields: Vec<FieldSpec> = Vec::new();
    fields.push(FieldSpec { id: "message".to_owned(), role: FieldRole::PositionalArg, optional: true });
    proof {
        let dv = fields.deep_view();
        assert(dv =~= seq![
            FieldSpecView { id: "message"@, role: FieldRoleView::PositionalArg, optional: true },
        ]);
        assert(spec_one_prefix(dv));
        assert(spec_one_trailing(dv));
        assert(spec_separators_nonempty(dv));
        assert(spec_space_list_last(dv));
        assert(spec_optional_suffix(dv));
    }
    build_spec("QUIT", fields)
}

/// The `REHASH` command: no fields.
pub fn rehash_spec() -> (r: CommandSpec)
    ensures
        r@.wf(),
        r@ == (CommandSpecView { name: "REHASH"@, fields: Seq::<FieldSpecView>::empty() }),
{
    let fields: Vec<FieldSpec> = Vec::new();
    proof {
        let dv = fields.deep_view();
        assert(dv =~= Seq::<FieldSpecView>::empty());
        assert(spec_one_prefix(dv));
        assert(spec_one_trailing(dv));
        assert(spec_separators_nonempty(dv));
        assert(spec_space_list_last(dv));
        assert(spec_optional_suffix(dv));
    }
    build_spec("REHASH", fields)
}

/// The `RESTART` command: no fields.
pub fn restart_spec() -> (r: CommandSpec)
    ensures
        r@.wf(),
        r@ == (CommandSpecView { name: "RESTART"@, fields: Seq::<FieldSpecView>::empty() }),
{
    let fields: Vec<FieldSpec> = Vec::new();
    proof {
        let dv = fields.deep_view();
        assert(dv =~= Seq::<FieldSpecView>::empty());
        assert(spec_one_prefix(dv));
        assert(spec_one_trailing(dv));
        assert(spec_separators_nonempty(dv));
        assert(spec_space_list_last(dv));
        assert(spec_optional_suffix(dv));
    }
    build_spec("RESTART", fields)
}

/// The `RULES` command: no fields.
pub fn rules_spec() -> (r: CommandSpec)
    ensures
        r@.wf(),
        r@ == (CommandSpecView { name: "RULES"@, fields: Seq::<FieldSpecView>::empty() }),
{
    let fields: Vec<FieldSpec> = Vec::new();
    proof {
        let dv = fields.deep_view();
        assert(dv =~= Seq::<FieldSpecView>::empty());
        assert(spec_one_prefix(dv));
        assert(spec_one_trailing(dv));
        assert(spec_separators_nonempty(dv));
        assert(spec_space_list_last(dv));
        assert(spec_optional_suffix(dv));
    }
    build_spec("RULES", fields)
}

/// The `SERVER` command: server, hopcount, info.
pub fn server_spec() -> (r: CommandSpec)
    ensures
        r@.wf(),
        r@ == (CommandSpecView { name: "SERVER"@, fields: seq![
            FieldSpecView { id: "server"@, role: FieldRoleView::PositionalArg, optional: false },
            FieldSpecView { id: "hopcount"@, role: FieldRoleView::PositionalArg, optional: false },
            FieldSpecView { id: "info"@, role: FieldRoleView::PositionalArg, optional: false },
        ] }),
{
    let mut fields: Vec<FieldSpec> = Vec::new();
    fields.push(FieldSpec { id: "server".to_owned(), role: FieldRole::PositionalArg, optional: false });
    fields.push(FieldSpec { id: "hopcount".to_owned(), role: FieldRole::PositionalArg, optional: false });
    fields.push(FieldSpec { id: "info".to_owned(), role: FieldRole::PositionalArg, optional: false });
    proof {
        let dv = fields.deep_view();
        assert(dv =~= seq![
            FieldSpecView { id: "server"@, role: FieldRoleView::PositionalArg, optional: false },
            FieldSpecView { id: "hopcount"@, role: FieldRoleView::PositionalArg, optional: false },
            FieldSpecView { id: "info"@, role: FieldRoleView::PositionalArg, optional: false },
        ]);
        assert(spec_one_prefix(dv));
        assert(spec_one_trailing(dv));
        assert(spec_separators_nonempty(dv));
        assert(spec_space_list_last(dv));
        assert(spec_optional_suffix(dv));
    }
    build_spec("SERVER", fields)
}

/// The `SERVICE` command: nickname, reserved1, distribution, service_type, reserved2, info.
pub fn service_spec() -> (r: CommandSpec)
    ensures
        r@.wf(),
        r@ == (CommandSpecView { name: "SERVICE"@, fields: seq![
            FieldSpecView { id: "nickname"@, role: FieldRoleView::PositionalArg, optional: false },
            FieldSpecView { id: "reserved1"@, role: FieldRoleView::PositionalArg, optional: false },
            FieldSpecView { id: "distribution"@, role: FieldRoleView::PositionalArg, optional: false },
            FieldSpecView { id: "service_type"@, role: FieldRoleView::PositionalArg, optional: false },
            FieldSpecView { id: "reserved2"@, role: FieldRoleView::PositionalArg, optional: false },
            FieldSpecView { id: "info"@, role: FieldRoleView::PositionalArg, optional: false },
        ] }),
{
    let mut fields: Vec<FieldSpec> = Vec::new();
    fields.push(FieldSpec { id: "nickname".to_owned(), role: FieldRole::PositionalArg, optional: false });
    fields.push(FieldSpec { id: "reserved1".to_owned(), role: FieldRole::PositionalArg, optional: false });
    fields.push(FieldSpec { id: "distribution".to_owned(), role: FieldRole::PositionalArg, optional: false });
    fields.push(FieldSpec { id: "service_type".to_owned(), role: FieldRole::PositionalArg, optional: false });
    fields.push(FieldSpec { id: "reserved2".to_owned(), role: FieldRole::PositionalArg, optional: false });
    fields.push(FieldSpec { id: "info".to_owned(), role: FieldRole::PositionalArg, optional: false });
    proof {
        let dv = fields.deep_view();
        assert(dv =~= seq![
            FieldSpecView { id: "nickname"@, role: FieldRoleView::PositionalArg, optional: false },
            FieldSpecView { id: "reserved1"@, role: FieldRoleView::PositionalArg, optional: false },
            FieldSpecView { id: "distribution"@, role: FieldRoleView::PositionalArg, optional: false },
            FieldSpecView { id: "service_type"@, role: FieldRoleView::PositionalArg, optional: false },
            FieldSpecView { id: "reserved2"@, role: FieldRoleView::PositionalArg, optional: false },
            FieldSpecView { id: "info"@, role: FieldRoleView::PositionalArg, optional: false },
        ]);
        assert(spec_one_prefix(dv));
        assert(spec_one_trailing(dv));
        assert(spec_separators_nonempty(dv));
        assert(spec_space_list_last(dv));
        assert(spec_optional_suffix(dv));
    }
    build_spec("SERVICE", fields)
}

/// The `SERVLIST` command: mask (optional), service_type (optional).
pub fn servlist_spec() -> (r: CommandSpec)
    ensures
        r@.wf(),
        r@ == (CommandSpecView { name: "SERVLIST"@, fields: seq![
            FieldSpecView { id: "mask"@, role: FieldRoleView::PositionalArg, optional: true },
            FieldSpecView { id: "service_type"@, role: FieldRoleView::PositionalArg, optional: true },
        ] }),
{
    let mut fields: Vec<FieldSpec> = Vec::new();
    fields.push(FieldSpec { id: "mask".to_owned(), role: FieldRole::PositionalArg, optional: true });
    fields.push(FieldSpec { id: "service_type".to_owned(), role: FieldRole::PositionalArg, optional: true });
    proof {
        let dv = fields.deep_view();
        assert(dv =~= seq![
            FieldSpecView { id: "mask"@, role: FieldRoleView::PositionalArg, optional: true },
            FieldSpecView { id: "service_type"@, role: FieldRoleView::PositionalArg, optional: true },
        ]);
        assert(spec_one_prefix(dv));
        assert(spec_one_trailing(dv));
        assert(spec_separators_nonempty(dv));
        assert(spec_space_list_last(dv));
        assert(spec_optional_suffix(dv));
    }
    build_spec("SERVLIST", fields)
}

/// The `SQUERY` command: service, text.
pub fn squery_spec() -> (r: CommandSpec)
    ensures
        r@.wf(),
        r@ == (CommandSpecView { name: "SQUERY"@, fields: seq![
            FieldSpecView { id: "service"@, role: FieldRoleView::PositionalArg, optional: false },
            FieldSpecView { id: "text"@, role: FieldRoleView::PositionalArg, optional: false },
        ] }),
{
    let mut fields: Vec<FieldSpec> = Vec::new();
    fields.push(FieldSpec { id: "service".to_owned(), role: FieldRole::PositionalArg, optional: false });
    fields.push(FieldSpec { id: "text".to_owned(), role: FieldRole::PositionalArg, optional: false });
    proof {
        let dv = fields.deep_view();
        assert(dv =~= seq![
            FieldSpecView { id: "service"@, role: FieldRoleView::PositionalArg, optional: false },
            FieldSpecView { id: "text"@, role: FieldRoleView::PositionalArg, optional: false },
        ]);
        assert(spec_one_prefix(dv));
        assert(spec_one_trailing(dv));
        assert(spec_separators_nonempty(dv));
        assert(spec_space_list_last(dv));
        assert(spec_optional_suffix(dv));
    }
    build_spec("SQUERY", fields)
}

/// The `SQUIT` command: server, comment.
pub fn squit_spec() -> (r: CommandSpec)
    ensures
        r@.wf(),
        r@ == (CommandSpecView { name: "SQUIT"@, fields: seq![
            FieldSpecView { id: "server"@, role: FieldRoleView::PositionalArg, optional: false },
            FieldSpecView { id: "comment"@, role: FieldRoleView::PositionalArg, optional: false },
        ] }),
{
    let mut fields: Vec<FieldSpec> = Vec::new();
    fields.push(FieldSpec { id: "server".to_owned(), role: FieldRole::PositionalArg, optional: false });
    fields.push(FieldSpec { id: "comment".to_owned(), role: FieldRole::PositionalArg, optional: false });
    proof {
        let dv = fields.deep_view();
        assert(dv =~= seq![
            FieldSpecView { id: "server"@, role: FieldRoleView::PositionalArg, optional: false },
            FieldSpecView { id: "comment"@, role: FieldRoleView::PositionalArg, optional: false },
        ]);
        assert(spec_one_prefix(dv));
        assert(spec_one_trailing(dv));
        assert(spec_separators_nonempty(dv));
        assert(spec_space_list_last(dv));
        assert(spec_optional_suffix(dv));
    }
    build_spec("SQUIT", fields)
}

/// The `SETNAME` command: name.
pub fn setname_spec() -> (r: CommandSpec)
    ensures
        r@.wf(),
        r@ == (CommandSpecView { name: "SETNAME"@, fields: seq![
            FieldSpecView { id: "name"@, role: FieldRoleView::PositionalArg, optional: false },
        ] }),
{
    let mut fields: Vec<FieldSpec> = Vec::new();
    fields.push(FieldSpec { id: "name".to_owned(), role: FieldRole::PositionalArg, optional: false });
    proof {
        let dv = fields.deep_view();
        assert(dv =~= seq![
            FieldSpecView { id: "name"@, role: FieldRoleView::PositionalArg, optional: false },
        ]);
        assert(spec_one_prefix(dv));
        assert(spec_one_trailing(dv));
        assert(spec_separators_nonempty(dv));
        assert(spec_space_list_last(dv));
        assert(spec_optional_suffix(dv));
    }
    build_spec("SETNAME", fields)
}

/// The `STATS` command: query, server (optional).
pub fn stats_spec() -> (r: CommandSpec)
    ensures
        r@.wf(),
        r@ == (CommandSpecView { name: "STATS"@, fields: seq![
            FieldSpecView { id: "query"@, role: FieldRoleView::PositionalArg, optional: false },
            FieldSpecView { id: "server"@, role: FieldRoleView::PositionalArg, optional: true },
        ] }),
{
    let mut fields: Vec<FieldSpec> = Vec::new();
    fields.push(FieldSpec { id: "query".to_owned(), role: FieldRole::PositionalArg, optional: false });
    fields.push(FieldSpec { id: "server".to_owned(), role: FieldRole::PositionalArg, optional: true });
    proof {
        let dv = fields.deep_view();
        assert(dv =~= seq![
            FieldSpecView { id: "query"@, role: FieldRoleView::PositionalArg, optional: false },
            FieldSpecView { id: "server"@, role: FieldRoleView::PositionalArg, optional: true },
        ]);
        assert(spec_one_prefix(dv));
        assert(spec_one_trailing(dv));
        assert(spec_separators_nonempty(dv));
        assert(spec_space_list_last(dv));
        assert(spec_optional_suffix(dv));
    }
    build_spec("STATS", fields)
}

/// The `SUMMON` command: user, server (optional), channel (optional).
pub fn summon_spec() -> (r: CommandSpec)
    ensures
        r@.wf(),
        r@ == (CommandSpecView { name: "SUMMON"@, fields: seq![
            FieldSpecView { id: "user"@, role: FieldRoleView::PositionalArg, optional: false },
            FieldSpecView { id: "server"@, role: FieldRoleView::PositionalArg, optional: true },
            FieldSpecView { id: "channel"@, role: FieldRoleView::PositionalArg, optional: true },
        ] }),
{
    let mut fields: Vec<FieldSpec> = Vec::new();
    fields.push(FieldSpec { id: "user".to_owned(), role: FieldRole::PositionalArg, optional: false });
    fields.push(FieldSpec { id: "server".to_owned(), role: FieldRole::PositionalArg, optional: true });
    fields.push(FieldSpec { id: "channel".to_owned(), role: FieldRole::PositionalArg, optional: true });
    proof {
        let dv = fields.deep_view();
        assert(dv =~= seq![
            FieldSpecView { id: "user"@, role: FieldRoleView::PositionalArg, optional: false },
            FieldSpecView { id: "server"@, role: FieldRoleView::PositionalArg, optional: true },
            FieldSpecView { id: "channel"@, role: FieldRoleView::PositionalArg, optional: true },
        ]);
        assert(spec_one_prefix(dv));
        assert(spec_one_trailing(dv));
        assert(spec_separators_nonempty(dv));
        assert(spec_space_list_last(dv));
        assert(spec_optional_suffix(dv));
    }
    build_spec("SUMMON", fields)
}

/// The `TIME` command: server (optional).
pub fn time_spec() -> (r: CommandSpec)
    ensures
        r@.wf(),
        r@ == (CommandSpecView { name: "TIME"@, fields: seq![
            FieldSpecView { id: "server"@, role: FieldRoleView::PositionalArg, optional: true },
        ] }),
{
    let mut fields: Vec<FieldSpec> = Vec::new();
    fields.push(FieldSpec { id: "server".to_owned(), role: FieldRole::PositionalArg, optional: true });
    proof {
        let dv = fields.deep_view();
        assert(dv =~= seq![
            FieldSpecView { id: "server"@, role: FieldRoleView::PositionalArg, optional: true },
        ]);
        assert(spec_one_prefix(dv));
        assert(spec_one_trailing(dv));
        assert(spec_separators_nonempty(dv));
        assert(spec_space_list_last(dv));
        assert(spec_optional_suffix(dv));
    }
    build_spec("TIME", fields)
}

/// The `TOPIC` command: channel, topic (optional).
pub fn topic_spec() -> (r: CommandSpec)
    ensures
        r@.wf(),
        r@ == (CommandSpecView { name: "TOPIC"@, fields: seq![
            FieldSpecView { id: "channel"@, role: FieldRoleView::PositionalArg, optional: false },
            FieldSpecView { id: "topic"@, role: FieldRoleView::PositionalArg, optional: true },
        ] }),
{
    let mut fields: Vec<FieldSpec> = Vec::new();
    fields.push(FieldSpec { id: "channel".to_owned(), role: FieldRole::PositionalArg, optional: false });
    fields.push(FieldSpec { id: "topic".to_owned(), role: FieldRole::PositionalArg, optional: true });
    proof {
        let dv = fields.deep_view();
        assert(dv =~= seq![
            FieldSpecView { id: "channel"@, role: FieldRoleView::PositionalArg, optional: false },
            FieldSpecView { id: "topic"@, role: FieldRoleView::PositionalArg, optional: true },
        ]);
        assert(spec_one_prefix(dv));
        assert(spec_one_trailing(dv));
        assert(spec_separators_nonempty(dv));
        assert(spec_space_list_last(dv));
        assert(spec_optional_suffix(dv));
    }
    build_spec("TOPIC", fields)
}

/// The `TRACE` command: target (optional).
pub fn trace_spec() -> (r: CommandSpec)
    ensures
        r@.wf(),
        r@ == (CommandSpecView { name: "TRACE"@, fields: seq![
            FieldSpecView { id: "target"@, role: FieldRoleView::PositionalArg, optional: true },
        ] }),
{
    let mut fields: Vec<FieldSpec> = Vec::new();
    fields.push(FieldSpec { id: "target".to_owned(), role: FieldRole::PositionalArg, optional: true });
    proof {
        let dv = fields.deep_view();
        assert(dv =~= seq![
            FieldSpecView { id: "target"@, role: FieldRoleView::PositionalArg, optional: true },
        ]);
        assert(spec_one_prefix(dv));
        assert(spec_one_trailing(dv));
        assert(spec_separators_nonempty(dv));
        assert(spec_space_list_last(dv));
        assert(spec_optional_suffix(dv));
    }
    build_spec("TRACE", fields)
}

/// The `PROTOCTL UHNAMES` command: no fields.
pub fn uhnames_spec() -> (r: CommandSpec)
    ensures
        r@.wf(),
        r@ == (CommandSpecView { name: "PROTOCTL UHNAMES"@, fields: Seq::<FieldSpecView>::empty() }),
{
    let fields: Vec<FieldSpec> = Vec::new();
    proof {
        let dv = fields.deep_view();
        assert(dv =~= Seq::<FieldSpecView>::empty());
        assert(spec_one_prefix(dv));
        assert(spec_one_trailing(dv));
        assert(spec_separators_nonempty(dv));
        assert(spec_space_list_last(dv));
        assert(spec_optional_suffix(dv));
    }
    build_spec("PROTOCTL UHNAMES", fields)
}

/// The `USER` command: user, mode, unused, realname.
pub fn user_spec() -> (r: CommandSpec)
    ensures
        r@.wf(),
        r@ == (CommandSpecView { name: "USER"@, fields: seq![
            FieldSpecView { id: "user"@, role: FieldRoleView::PositionalArg, optional: false },
            FieldSpecView { id: "mode"@, role: FieldRoleView::PositionalArg, optional: false },
            FieldSpecView { id: "unused"@, role: FieldRoleView::PositionalArg, optional: false },
            FieldSpecView { id: "realname"@, role: FieldRoleView::PositionalArg, optional: false },
        ] }),
{
    let mut fields: Vec<FieldSpec> = Vec::new();
    fields.push(FieldSpec { id: "user".to_owned(), role: FieldRole::PositionalArg, optional: false });
    fields.push(FieldSpec { id: "mode".to_owned(), role: FieldRole::PositionalArg, optional: false });
    fields.push(FieldSpec { id: "unused".to_owned(), role: FieldRole::PositionalArg, optional: false });
    fields.push(FieldSpec { id: "realname".to_owned(), role: FieldRole::PositionalArg, optional: false });
    proof {
        let dv = fields.deep_view();
        assert(dv =~= seq![
            FieldSpecView { id: "user"@, role: FieldRoleView::PositionalArg, optional: false },
            FieldSpecView { id: "mode"@, role: FieldRoleView::PositionalArg, optional: false },
            FieldSpecView { id: "unused"@, role: FieldRoleView::PositionalArg, optional: false },
            FieldSpecView { id: "realname"@, role: FieldRoleView::PositionalArg, optional: false },
        ]);
        assert(spec_one_prefix(dv));
        assert(spec_one_trailing(dv));
        assert(spec_separators_nonempty(dv));
        assert(spec_space_list_last(dv));
        assert(spec_optional_suffix(dv));
    }
    build_spec("USER", fields)
}

/// The `USERHOST` command: nickname, extra_nicknames (optional).
pub fn userhost_spec() -> (r: CommandSpec)
    ensures
        r@.wf(),
        r@ == (CommandSpecView { name: "USERHOST"@, fields: seq![
            FieldSpecView { id: "nickname"@, role: FieldRoleView::PositionalArg, optional: false },
            FieldSpecView { id: "extra_nicknames"@, role: FieldRoleView::SeparatedList(" "@), optional: true },
        ] }),
{
    let mut fields: Vec<FieldSpec> = Vec::new();
    fields.push(FieldSpec { id: "nickname".to_owned(), role: FieldRole::PositionalArg, optional: false });
    fields.push(FieldSpec { id: "extra_nicknames".to_owned(), role: FieldRole::SeparatedList(" ".to_owned()), optional: true });
    proof {
        reveal_strlit(" ");
        assert(" "@ =~= seq![' ']);
        let dv = fields.deep_view();
        assert(dv =~= seq![
            FieldSpecView { id: "nickname"@, role: FieldRoleView::PositionalArg, optional: false },
            FieldSpecView { id: "extra_nicknames"@, role: FieldRoleView::SeparatedList(" "@), optional: true },
        ]);
        assert(spec_one_prefix(dv));
        assert(spec_one_trailing(dv));
        assert(spec_separators_nonempty(dv));
        assert(spec_space_list_last(dv));
        assert(spec_optional_suffix(dv));
    }
    build_spec("USERHOST", fields)
}

/// The `USERIP` command: nickname.
pub fn userip_spec() -> (r: CommandSpec)
    ensures
        r@.wf(),
        r@ == (CommandSpecView { name: "USERIP"@, fields: seq![
            FieldSpecView { id: "nickname"@, role: FieldRoleView::PositionalArg, optional: false },
        ] }),
{
    let mut fields: Vec<FieldSpec> = Vec::new();
    fields.push(FieldSpec { id: "nickname".to_owned(), role: FieldRole::PositionalArg, optional: false });
    proof {
        let dv = fields.deep_view();
        assert(dv =~= seq![
            FieldSpecView { id: "nickname"@, role: FieldRoleView::PositionalArg, optional: false },
        ]);
        assert(spec_one_prefix(dv));
        assert(spec_one_trailing(dv));
        assert(spec_separators_nonempty(dv));
        assert(spec_space_list_last(dv));
        assert(spec_optional_suffix(dv));
    }
    build_spec("USERIP", fields)
}

/// The `USERS` command: server (optional).
pub fn users_spec() -> (r: CommandSpec)
    ensures
        r@.wf(),
        r@ == (CommandSpecView { name: "USERS"@, fields: seq![
            FieldSpecView { id: "server"@, role: FieldRoleView::PositionalArg, optional: true },
        ] }),
{
    let mut fields: Vec<FieldSpec> = Vec::new();
    fields.push(FieldSpec { id: "server".to_owned(), role: FieldRole::PositionalArg, optional: true });
    proof {
        let dv = fields.deep_view();
        assert(dv =~= seq![
            FieldSpecView { id: "server"@, role: FieldRoleView::PositionalArg, optional: true },
        ]);
        assert(spec_one_prefix(dv));
        assert(spec_one_trailing(dv));
        assert(spec_separators_nonempty(dv));
        assert(spec_space_list_last(dv));
        assert(spec_optional_suffix(dv));
    }
    build_spec("USERS", fields)
}

/// The `VERSION` command: server (optional).
pub fn version_spec() -> (r: CommandSpec)
    ensures
        r@.wf(),
        r@ == (CommandSpecView { name: "VERSION"@, fields: seq![
            FieldSpecView { id: "server"@, role: FieldRoleView::PositionalArg, optional: true },
        ] }),
{
    let mut fields: Vec<FieldSpec> = Vec::new();
    fields.push(FieldSpec { id: "server".to_owned(), role: FieldRole::PositionalArg, optional: true });
    proof {
        let dv = fields.deep_view();
        assert(dv =~= seq![
            FieldSpecView { id: "server"@, role: FieldRoleView::PositionalArg, optional: true },
        ]);
        assert(spec_one_prefix(dv));
        assert(spec_one_trailing(dv));
        assert(spec_separators_nonempty(dv));
        assert(spec_space_list_last(dv));
        assert(spec_optional_suffix(dv));
    }
    build_spec("VERSION", fields)
}

/// The `WALLOPS` command: message.
pub fn wallops_spec() -> (r: CommandSpec)
    ensures
        r@.wf(),
        r@ == (CommandSpecView { name: "WALLOPS"@, fields: seq![
            FieldSpecView { id: "message"@, role: FieldRoleView::PositionalArg, optional: false },
        ] }),
{
    let mut fields: Vec<FieldSpec> = Vec::new();
    fields.push(FieldSpec { id: "message".to_owned(), role: FieldRole::PositionalArg, optional: false });
    proof {
        let dv = fields.deep_view();
        assert(dv =~= seq![
            FieldSpecView { id: "message"@, role: FieldRoleView::PositionalArg, optional: false },
        ]);
        assert(spec_one_prefix(dv));
        assert(spec_one_trailing(dv));
        assert(spec_separators_nonempty(dv));
        assert(spec_space_list_last(dv));
        assert(spec_optional_suffix(dv));
    }
    build_spec("WALLOPS", fields)
}

/// The `WHOWAS` command: nickname, count (optional), server (optional).
pub fn whowas_spec() -> (r: CommandSpec)
    ensures
        r@.wf(),
        r@ == (CommandSpecView { name: "WHOWAS"@, fields: seq![
            FieldSpecView { id: "nickname"@, role: FieldRoleView::PositionalArg, optional: false },
            FieldSpecView { id: "count"@, role: FieldRoleView::PositionalArg, optional: true },
            FieldSpecView { id: "server"@, role: FieldRoleView::PositionalArg, optional: true },
        ] }),
{
    let mut fields: Vec<FieldSpec> = Vec::new();
    fields.push(FieldSpec { id: "nickname".to_owned(), role: FieldRole::PositionalArg, optional: false });
    fields.push(FieldSpec { id: "count".to_owned(), role: FieldRole::PositionalArg, optional: true });
    fields.push(FieldSpec { id: "server".to_owned(), role: FieldRole::PositionalArg, optional: true });
    proof {
        let dv = fields.deep_view();
        assert(dv =~= seq![
            FieldSpecView { id: "nickname"@, role: FieldRoleView::PositionalArg, optional: false },
            FieldSpecView { id: "count"@, role: FieldRoleView::PositionalArg, optional: true },
            FieldSpecView { id: "server"@, role: FieldRoleView::PositionalArg, optional: true },
        ]);
        assert(spec_one_prefix(dv));
        assert(spec_one_trailing(dv));
        assert(spec_separators_nonempty(dv));
        assert(spec_space_list_last(dv));
        assert(spec_optional_suffix(dv));
    }
    build_spec("WHOWAS", fields)
}

/// The `WHOIS` command as its record declares it: an optional
/// server before the required nickname list. An optional positional
/// field ahead of a required one has no defined decode semantics,
/// so building this spec reports the configuration error.
pub fn who_is_spec() -> (r: Result<CommandSpec, ConfigurationError>)
    ensures
        r == Err::<CommandSpec, ConfigurationError>(ConfigurationError::OptionalBeforeRequired),
{
    let mut fields: Vec<FieldSpec> = Vec::new();
    fields.push(FieldSpec { id: "server".to_owned(), role: FieldRole::PositionalArg, optional: true });
    fields.push(FieldSpec { id: "nicknames".to_owned(), role: FieldRole::SeparatedList(",".to_owned()), optional: false });
    proof {
        reveal_strlit(",");
        assert(","@.len() == 1 && ","@[0] == ',');
        let dv = fields.deep_view();
        assert(dv =~= seq![
            FieldSpecView { id: "server"@, role: FieldRoleView::PositionalArg, optional: true },
            FieldSpecView { id: "nicknames"@, role: FieldRoleView::SeparatedList(","@), optional: false },
        ]);
        assert(spec_one_prefix(dv));
        assert(spec_one_trailing(dv));
        assert(spec_separators_nonempty(dv));
        assert(spec_space_list_last(dv));
        assert(!spec_optional_suffix(dv)) by {
            assert(crate::codec::is_positional_field(dv[0]) && crate::codec::is_positional_field(dv[1]));
        }
    }
    CommandSpec::new("WHOIS".to_owned(), fields)
}

} // verus!
