//! The protocol-agnostic message data model: a parsed line is a
//! `BaseMessage` holding an optional sender prefix, the command
//! token, and the parameter list.

use vstd::prelude::*;

use crate::error::IrcCommandError;

verus! {

/// The capability every command type offers its callers: decoding
/// a parsed message into the typed record, and encoding the record
/// back into wire text.
pub trait IrcMessage {
    /// Decodes a parsed message into this command type.
    fn parse_message(message: BaseMessage) -> Result<Self, IrcCommandError> where Self: Sized;

    /// Encodes this record back into wire text.
    fn create_message(&self) -> String;
}

/// A sender given as nickname with optional user and host parts.
#[derive(Debug)]
pub struct UserPrefix {
    pub nickname: String,
    pub user: Option<String>,
    pub host: Option<String>,
}

/// Mathematical form of a `UserPrefix`.
pub struct UserPrefixView {
    pub nickname: Seq<char>,
    pub user: Option<Seq<char>>,
    pub host: Option<Seq<char>>,
}

impl View for UserPrefix {
    type V = UserPrefixView;

    open spec fn view(&self) -> UserPrefixView {
        UserPrefixView {
            nickname: self.nickname@,
            user: self.user.deep_view(),
            host: self.host.deep_view(),
        }
    }
}

/// The optional sender annotation at the start of a message: either
/// a bare server name or a nickname with optional user and host.
#[derive(Debug)]
pub enum Prefix {
    ServerName(String),
    UserName(UserPrefix),
}

/// Mathematical form of a `Prefix`.
pub enum PrefixView {
    ServerName(Seq<char>),
    UserName(UserPrefixView),
}

impl View for Prefix {
    type V = PrefixView;

    open spec fn view(&self) -> PrefixView {
        match self {
            Prefix::ServerName(s) => PrefixView::ServerName(s@),
            Prefix::UserName(u) => PrefixView::UserName(u@),
        }
    }
}

/// The command token of a message: an alphabetic command word, or a
/// three-digit numeric reply code. Case is preserved as parsed.
#[derive(Debug)]
pub enum Command {
    IrcCommand(String),
    IrcResponse(String),
}

/// Mathematical form of a `Command`.
pub enum CommandView {
    IrcCommand(Seq<char>),
    IrcResponse(Seq<char>),
}

impl View for Command {
    type V = CommandView;

    open spec fn view(&self) -> CommandView {
        match self {
            Command::IrcCommand(s) => CommandView::IrcCommand(s@),
            Command::IrcResponse(s) => CommandView::IrcResponse(s@),
        }
    }
}

/// The parameter list of a message: the space-delimited middle
/// parameters, and the optional trailing parameter, which may
/// contain spaces and colons.
#[derive(Debug)]
pub struct Parameters {
    pub middle: Vec<String>,
    pub trailing: Option<String>,
}

/// Mathematical form of `Parameters`.
pub struct ParametersView {
    pub middle: Seq<Seq<char>>,
    pub trailing: Option<Seq<char>>,
}

impl View for Parameters {
    type V = ParametersView;

    open spec fn view(&self) -> ParametersView {
        ParametersView { middle: self.middle.deep_view(), trailing: self.trailing.deep_view() }
    }
}

/// One parsed protocol line: optional prefix, command, and optional
/// parameter list.
#[derive(Debug)]
pub struct BaseMessage {
    pub prefix: Option<Prefix>,
    pub command: Command,
    pub parameters: Option<Parameters>,
}

/// Mathematical form of a `BaseMessage`.
pub struct BaseMessageView {
    pub prefix: Option<PrefixView>,
    pub command: CommandView,
    pub parameters: Option<ParametersView>,
}

impl View for BaseMessage {
    type V = BaseMessageView;

    open spec fn view(&self) -> BaseMessageView {
        BaseMessageView {
            prefix: match &self.prefix {
                Some(p) => Some(p@),
                None => None,
            },
            command: self.command@,
            parameters: match &self.parameters {
                Some(p) => Some(p@),
                None => None,
            },
        }
    }
}

/// The textual form of a user prefix: the nickname, then `!user` if
/// both user and host are present, then `@host` if the host is
/// present. A user without a host is left out.
pub open spec fn spec_user_prefix_text(p: UserPrefixView) -> Seq<char> {
    match p.host {
        Some(h) => match p.user {
            Some(u) => p.nickname + seq!['!'] + u + seq!['@'] + h,
            None => p.nickname + seq!['@'] + h,
        },
        None => p.nickname,
    }
}

/// The textual form of a prefix: the server name itself, or the
/// textual form of the user prefix.
pub open spec fn spec_prefix_text(p: PrefixView) -> Seq<char> {
    match p {
        PrefixView::ServerName(s) => s,
        PrefixView::UserName(u) => spec_user_prefix_text(u),
    }
}

/// The text of a command token, as parsed.
pub open spec fn spec_command_text(c: CommandView) -> Seq<char> {
    match c {
        CommandView::IrcCommand(s) => s,
        CommandView::IrcResponse(s) => s,
    }
}

/// The middle parameters joined by single spaces.
pub open spec fn spec_middles_text(middle: Seq<Seq<char>>) -> Seq<char>
    decreases middle.len(),
{
    if middle.len() == 0 {
        Seq::empty()
    } else if middle.len() == 1 {
        middle[0]
    } else {
        middle[0] + seq![' '] + spec_middles_text(middle.drop_first())
    }
}

/// The textual form of a parameter list: the middle parameters
/// joined by spaces, then ` :` and the trailing parameter if one is
/// present.
pub open spec fn spec_parameters_text(p: ParametersView) -> Seq<char> {
    match p.trailing {
        Some(t) => spec_middles_text(p.middle) + seq![' ', ':'] + t,
        None => spec_middles_text(p.middle),
    }
}

/// The textual form of a whole message: prefix and a space if one is
/// present, the command, and a space and the parameter text if
/// parameters are present.
pub open spec fn spec_message_text(m: BaseMessageView) -> Seq<char> {
    let cmd_part = match m.prefix {
        Some(p) => spec_prefix_text(p) + seq![' '] + spec_command_text(m.command),
        None => spec_command_text(m.command),
    };
    match m.parameters {
        Some(ps) => cmd_part + seq![' '] + spec_parameters_text(ps),
        None => cmd_part,
    }
}

impl UserPrefix {
    /// Builds the textual form of this user prefix.
    pub fn to_text(&self) -> (r: String)
        ensures
            r@ == spec_user_prefix_text(self@),
    {
        let mut out = self.nickname.clone();
        match &self.host {
            Some(h) => {
                match &self.user {
                    Some(u) => {
                        out.append("!");
                        out.append(u.as_str());
                        proof {
                            reveal_strlit("!");
                            assert(out@ =~= self.nickname@ + seq!['!'] + u@);
                        }
                    },
                    None => {},
                }
                out.append("@");
                out.append(h.as_str());
                proof {
                    reveal_strlit("@");
                    assert(out@ =~= spec_user_prefix_text(self@));
                }
            },
            None => {},
        }
        out
    }
}

impl Prefix {
    /// Builds the textual form of this prefix.
    pub fn to_text(&self) -> (r: String)
        ensures
            r@ == spec_prefix_text(self@),
    {
        match self {
            Prefix::ServerName(s) => s.clone(),
            Prefix::UserName(u) => u.to_text(),
        }
    }
}

impl Command {
    /// Returns the command text, as parsed.
    pub fn to_text(&self) -> (r: String)
        ensures
            r@ == spec_command_text(self@),
    {
        match self {
            Command::IrcCommand(s) => s.clone(),
            Command::IrcResponse(s) => s.clone(),
        }
    }
}

impl Parameters {
    /// Builds the textual form of this parameter list.
    pub fn to_text(&self) -> (r: String)
        ensures
            r@ == spec_parameters_text(self@),
    {
        let mut out = String::new();
        let mut i: usize = 0;
        while i < self.middle.len()
            invariant
                i <= self.middle.len(),
                out@ == spec_middles_text(self.middle.deep_view().take(i as int)),
                i < self.middle.len() ==> (i == 0 <==> out@.len() == 0) || true,
            decreases self.middle.len() - i,
        {
            if i > 0 {
                out.append(" ");
                proof {
                    reveal_strlit(" ");
                }
            }
            out.append(self.middle[i].as_str());
            proof {
                lemma_middles_text_take(self.middle.deep_view(), i as int);
            }
            i = i + 1;
        }
        proof {
            assert(self.middle.deep_view().take(self.middle.len() as int)
                =~= self.middle.deep_view());
        }
        match &self.trailing {
            Some(t) => {
                out.append(" :");
                out.append(t.as_str());
                proof {
                    reveal_strlit(" :");
                    assert(out@ =~= spec_parameters_text(self@));
                }
            },
            None => {},
        }
        out
    }
}

/// Appending one more middle parameter to the joined text appends a
/// space (when the text is not the first) and the parameter.
proof fn lemma_middles_text_take(middle: Seq<Seq<char>>, i: int)
    requires
        0 <= i < middle.len(),
    ensures
        i == 0 ==> spec_middles_text(middle.take(i + 1)) =~= middle[0],
        i > 0 ==> spec_middles_text(middle.take(i + 1)) =~= spec_middles_text(middle.take(i))
            + seq![' '] + middle[i],
    decreases i,
{
    if i == 0 {
        assert(middle.take(1).len() == 1);
        assert(middle.take(1)[0] == middle[0]);
    } else {
        lemma_middles_text_take(middle.drop_first(), i - 1);
        assert(middle.take(i + 1).drop_first() =~= middle.drop_first().take(i));
        assert(middle.take(i).drop_first() =~= middle.drop_first().take(i - 1));
        assert(middle.take(i + 1)[0] == middle[0]);
        assert(middle.take(i)[0] == middle[0]);
        if i == 1 {
            assert(spec_middles_text(middle.take(2)) == middle[0] + seq![' ']
                + spec_middles_text(middle.take(2).drop_first()));
            assert(spec_middles_text(middle.drop_first().take(1)) == middle.drop_first()[0]);
        } else {
            assert(spec_middles_text(middle.take(i + 1)) == middle[0] + seq![' ']
                + spec_middles_text(middle.drop_first().take(i)));
            assert(spec_middles_text(middle.take(i)) == middle[0] + seq![' ']
                + spec_middles_text(middle.drop_first().take(i - 1)));
        }
    }
}

impl BaseMessage {
    /// Builds the textual form of this whole message.
    pub fn to_text(&self) -> (r: String)
        ensures
            r@ == spec_message_text(self@),
    {
        let mut out = String::new();
        match &self.prefix {
            Some(p) => {
                let ptext = p.to_text();
                out.append(ptext.as_str());
                out.append(" ");
                proof {
                    reveal_strlit(" ");
                }
            },
            None => {},
        }
        let ctext = self.command.to_text();
        out.append(ctext.as_str());
        match &self.parameters {
            Some(ps) => {
                out.append(" ");
                let pstext = ps.to_text();
                out.append(pstext.as_str());
                proof {
                    reveal_strlit(" ");
                    assert(out@ =~= spec_message_text(self@));
                }
            },
            None => {
                proof {
                    assert(out@ =~= spec_message_text(self@));
                }
            },
        }
        out
    }
}

} // verus!
