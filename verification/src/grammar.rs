//! The grammar parser: turns one raw protocol line into a
//! `BaseMessage`. The grammar is
//!
//! ```text
//! message   = [ ":" prefix SPACE ] command [ params ] [CRLF]
//! prefix    = servername / ( nickname [ "!" user ] [ "@" host ] )
//! command   = 1*letter / 3digit
//! params    = *14( SPACE middle ) [ SPACE ":" trailing ]
//! middle    = 1*nospcrlfcl *( ":" / nospcrlfcl )
//! trailing  = *( ":" / " " / nospcrlfcl )
//! ```
//!
//! where `nospcrlfcl` is any character other than NUL, CR, LF,
//! space and `:`. A server name is a prefix token without `!` or
//! `@`. The spec-level parser `spec_parse` is the reference meaning
//! of the grammar; `BaseMessage::from_str` is proved to return
//! exactly its result.

use vstd::prelude::*;

use crate::error::SyntaxError;
use crate::text::{find_char, lemma_find_props, spec_find};
use crate::message::{
    BaseMessage, BaseMessageView, Command, CommandView, Parameters, ParametersView, Prefix,
    PrefixView, UserPrefix, UserPrefixView,
};

verus! {

/// A character that may appear anywhere in a message body: anything
/// but NUL, CR and LF.
pub open spec fn is_line_char(c: char) -> bool {
    c != '\u{0}' && c != '\r' && c != '\n'
}

/// An ASCII letter.
pub open spec fn is_letter(c: char) -> bool {
    (65 <= c as u32 && c as u32 <= 90) || (97 <= c as u32 && c as u32 <= 122)
}

/// An ASCII digit.
pub open spec fn is_digit(c: char) -> bool {
    48 <= c as u32 && c as u32 <= 57
}

/// A textual command: one or more letters.
pub open spec fn is_text_command(s: Seq<char>) -> bool {
    s.len() >= 1 && forall|i: int| 0 <= i < s.len() ==> is_letter(#[trigger] s[i])
}

/// A numeric reply code: exactly three digits.
pub open spec fn is_numeric_command(s: Seq<char>) -> bool {
    s.len() == 3 && forall|i: int| 0 <= i < s.len() ==> is_digit(#[trigger] s[i])
}

/// Strips one trailing CRLF, or one bare LF, from a raw line.
pub open spec fn spec_strip_crlf(s: Seq<char>) -> Seq<char> {
    if s.len() >= 2 && s[s.len() - 2] == '\r' && s[s.len() - 1] == '\n' {
        s.take(s.len() - 2)
    } else if s.len() >= 1 && s[s.len() - 1] == '\n' {
        s.take(s.len() - 1)
    } else {
        s
    }
}

/// Parses the prefix token (the text between the leading `:` and
/// the first space). A token without `!` and `@` is a server name;
/// otherwise the token is split into nickname, optional user after
/// `!`, and optional host after `@`, each of which must be
/// non-empty.
pub open spec fn spec_parse_prefix(p: Seq<char>) -> Option<PrefixView> {
    let bang = spec_find(p, 0, '!');
    let at = spec_find(p, 0, '@');
    if p.len() == 0 {
        None
    } else if bang == p.len() && at == p.len() {
        Some(PrefixView::ServerName(p))
    } else if bang < at {
        // nickname "!" user [ "@" host ]
        let at2 = spec_find(p, bang + 1, '@');
        if bang == 0 {
            None
        } else if at2 == p.len() {
            if bang + 1 == p.len() {
                None
            } else {
                Some(PrefixView::UserName(UserPrefixView {
                    nickname: p.take(bang),
                    user: Some(p.subrange(bang + 1, p.len() as int)),
                    host: None,
                }))
            }
        } else {
            if at2 == bang + 1 || at2 + 1 == p.len() {
                None
            } else {
                Some(PrefixView::UserName(UserPrefixView {
                    nickname: p.take(bang),
                    user: Some(p.subrange(bang + 1, at2)),
                    host: Some(p.subrange(at2 + 1, p.len() as int)),
                }))
            }
        }
    } else {
        // nickname "@" host, with no "!" before the "@"
        if at == 0 || at + 1 == p.len() {
            None
        } else {
            Some(PrefixView::UserName(UserPrefixView {
                nickname: p.take(at),
                user: None,
                host: Some(p.subrange(at + 1, p.len() as int)),
            }))
        }
    }
}

/// The command token as a `Command`: letters make a textual
/// command, exactly three digits make a numeric reply, and anything
/// else is rejected.
pub open spec fn spec_command_of(s: Seq<char>) -> Option<CommandView> {
    if is_text_command(s) {
        Some(CommandView::IrcCommand(s))
    } else if is_numeric_command(s) {
        Some(CommandView::IrcResponse(s))
    } else {
        None
    }
}

/// Parses the parameter part of the body starting at position `p`,
/// which must hold a space, with `n` middle parameters already
/// taken. A parameter starting with `:` is the trailing parameter
/// and takes the rest of the line; otherwise the text up to the
/// next space is one more middle parameter, of which at most 14 are
/// allowed.
pub open spec fn spec_parse_params(body: Seq<char>, p: int, n: int) -> Option<ParametersView>
    decreases body.len() - p,
    via spec_parse_params_decreases
{
    if p < 0 {
        None
    } else if p + 1 >= body.len() {
        // a trailing space with nothing after it matches no parameter
        None
    } else if body[p + 1] == ':' {
        Some(ParametersView { middle: Seq::empty(), trailing: Some(body.subrange(p + 2, body.len() as int)) })
    } else if body[p + 1] == ' ' {
        // an empty middle parameter is not allowed
        None
    } else if n >= 14 {
        None
    } else {
        let e = spec_find(body, p + 1, ' ');
        let tok = body.subrange(p + 1, e);
        if e >= body.len() {
            Some(ParametersView { middle: seq![tok], trailing: None })
        } else {
            match spec_parse_params(body, e, n + 1) {
                Some(rest) => Some(ParametersView {
                    middle: seq![tok] + rest.middle,
                    trailing: rest.trailing,
                }),
                None => None,
            }
        }
    }
}

#[via_fn]
proof fn spec_parse_params_decreases(body: Seq<char>, p: int, n: int) {
    if 0 <= p && p + 1 < body.len() && body[p + 1] != ':' && body[p + 1] != ' ' && n < 14 {
        lemma_find_props(body, p + 1, ' ');
    }
}

/// Parses the command and parameters of the body from position
/// `cs`, and joins them with an already parsed prefix.
pub open spec fn spec_parse_rest(body: Seq<char>, cs: int, pfx: Option<PrefixView>) -> Option<
    BaseMessageView,
> {
    let ce = spec_find(body, cs, ' ');
    match spec_command_of(body.subrange(cs, ce)) {
        None => None,
        Some(c) => {
            if ce >= body.len() {
                Some(BaseMessageView { prefix: pfx, command: c, parameters: None })
            } else {
                match spec_parse_params(body, ce, 0) {
                    Some(ps) => Some(BaseMessageView {
                        prefix: pfx,
                        command: c,
                        parameters: Some(ps),
                    }),
                    None => None,
                }
            }
        },
    }
}

/// The meaning of the message grammar: the parse of one raw line,
/// or `None` where the line does not match the grammar.
pub open spec fn spec_parse(line: Seq<char>) -> Option<BaseMessageView> {
    let body = spec_strip_crlf(line);
    if exists|i: int| 0 <= i < body.len() && !is_line_char(#[trigger] body[i]) {
        None
    } else if body.len() > 0 && body[0] == ':' {
        let sp = spec_find(body, 0, ' ');
        if sp >= body.len() {
            None
        } else {
            match spec_parse_prefix(body.subrange(1, sp)) {
                Some(pfx) => spec_parse_rest(body, sp + 1, Some(pfx)),
                None => None,
            }
        }
    } else {
        spec_parse_rest(body, 0, None)
    }
}

/// A middle parameter as the grammar admits it: non-empty, no
/// leading colon, and free of NUL, CR, LF and space.
pub open spec fn is_middle_token(s: Seq<char>) -> bool {
    s.len() >= 1 && s[0] != ':' && forall|i: int|
        0 <= i < s.len() ==> is_line_char(#[trigger] s[i]) && s[i] != ' '
}

/// Text free of NUL, CR, LF and space, as prefix components are.
pub open spec fn is_token_text(s: Seq<char>) -> bool {
    forall|i: int| 0 <= i < s.len() ==> is_line_char(#[trigger] s[i]) && s[i] != ' '
}

/// Text free of NUL, CR and LF, as the trailing parameter is.
pub open spec fn is_free_text(s: Seq<char>) -> bool {
    forall|i: int| 0 <= i < s.len() ==> is_line_char(#[trigger] s[i])
}

/// The shape of every prefix the parser can produce: non-empty
/// components free of space and line breaks, no `!` or `@` inside a
/// server name or nickname, and no `@` inside a user part.
pub open spec fn spec_prefix_sane(p: PrefixView) -> bool {
    match p {
        PrefixView::ServerName(s) => s.len() >= 1 && is_token_text(s) && forall|i: int|
            0 <= i < s.len() ==> #[trigger] s[i] != '!' && s[i] != '@',
        PrefixView::UserName(u) => {
            &&& u.nickname.len() >= 1
            &&& is_token_text(u.nickname)
            &&& forall|i: int|
                0 <= i < u.nickname.len() ==> #[trigger] u.nickname[i] != '!' && u.nickname[i]
                    != '@'
            &&& match u.user {
                Some(us) => us.len() >= 1 && is_token_text(us) && forall|i: int|
                    0 <= i < us.len() ==> #[trigger] us[i] != '@',
                None => true,
            }
            &&& match u.host {
                Some(h) => h.len() >= 1 && is_token_text(h),
                None => true,
            }
        },
    }
}

/// A command token that matches its constructor: letters in a
/// textual command, three digits in a numeric reply.
pub open spec fn spec_command_sane(c: CommandView) -> bool {
    match c {
        CommandView::IrcCommand(s) => is_text_command(s),
        CommandView::IrcResponse(s) => is_numeric_command(s),
    }
}

/// The shape of every parameter list the parser can produce: at
/// most 14 middle parameters, each a middle token, and a trailing
/// parameter free of line breaks.
pub open spec fn spec_params_sane(ps: ParametersView) -> bool {
    &&& ps.middle.len() <= 14
    &&& forall|i: int| 0 <= i < ps.middle.len() ==> is_middle_token(#[trigger] ps.middle[i])
    &&& match ps.trailing {
        Some(t) => is_free_text(t),
        None => true,
    }
}

/// The shape of every message the parser can produce.
pub open spec fn spec_message_sane(m: BaseMessageView) -> bool {
    &&& match m.prefix {
        Some(p) => spec_prefix_sane(p),
        None => true,
    }
    &&& spec_command_sane(m.command)
    &&& match m.parameters {
        Some(ps) => spec_params_sane(ps),
        None => true,
    }
}

/// Every prefix parsed from a space-free token of line characters
/// is sane.
proof fn lemma_parse_prefix_sane(p: Seq<char>, pv: PrefixView)
    requires
        spec_parse_prefix(p) == Some(pv),
        is_token_text(p),
    ensures
        spec_prefix_sane(pv),
{
    lemma_find_props(p, 0, '!');
    lemma_find_props(p, 0, '@');
    let bang = spec_find(p, 0, '!');
    let at = spec_find(p, 0, '@');
    if bang == p.len() && at == p.len() {
    } else if bang < at {
        lemma_find_props(p, bang + 1, '@');
    } else {
    }
}

/// Every parameter list parsed from a body of line characters is
/// sane, and leaves room for the middle parameters already taken.
proof fn lemma_parse_params_sane(body: Seq<char>, p: int, n: int, ps: ParametersView)
    requires
        spec_parse_params(body, p, n) == Some(ps),
        0 <= n <= 14,
        forall|i: int| 0 <= i < body.len() ==> is_line_char(#[trigger] body[i]),
    ensures
        ps.middle.len() + n <= 14,
        forall|i: int| 0 <= i < ps.middle.len() ==> is_middle_token(#[trigger] ps.middle[i]),
        match ps.trailing {
            Some(t) => is_free_text(t),
            None => true,
        },
    decreases body.len() - p,
{
    if body[p + 1] == ':' {
    } else {
        lemma_find_props(body, p + 1, ' ');
        let e = spec_find(body, p + 1, ' ');
        let tok = body.subrange(p + 1, e);
        assert(is_middle_token(tok)) by {
            assert(e > p + 1) by {
                if e == p + 1 {
                    assert(e < body.len());
                    assert(body[e] == ' ');
                }
            }
            assert(tok[0] == body[p + 1]);
            assert(forall|i: int| 0 <= i < tok.len() ==> #[trigger] tok[i] == body[p + 1 + i]);
        }
        if e >= body.len() {
            assert(ps.middle =~= seq![tok]);
        } else {
            let rest = spec_parse_params(body, e, n + 1).unwrap();
            lemma_parse_params_sane(body, e, n + 1, rest);
            assert(ps.middle == seq![tok] + rest.middle);
            assert forall|i: int| 0 <= i < ps.middle.len() implies is_middle_token(
                #[trigger] ps.middle[i],
            ) by {
                if i > 0 {
                    assert(ps.middle[i] == rest.middle[i - 1]);
                }
            }
        }
    }
}

/// Every message the parser produces is sane: its tokens have the
/// shapes the grammar admits.
pub proof fn lemma_parse_sane(line: Seq<char>, m: BaseMessageView)
    requires
        spec_parse(line) == Some(m),
    ensures
        spec_message_sane(m),
{
    let body = spec_strip_crlf(line);
    assert(forall|i: int| 0 <= i < body.len() ==> is_line_char(#[trigger] body[i]));
    let cs: int = if body.len() > 0 && body[0] == ':' {
        let sp = spec_find(body, 0, ' ');
        lemma_find_props(body, 0, ' ');
        let ptok = body.subrange(1, sp);
        assert(is_token_text(ptok)) by {
            assert(forall|i: int| 0 <= i < ptok.len() ==> #[trigger] ptok[i] == body[1 + i]);
        }
        lemma_parse_prefix_sane(ptok, spec_parse_prefix(ptok).unwrap());
        sp + 1
    } else {
        0
    };
    lemma_find_props(body, cs, ' ');
    let ce = spec_find(body, cs, ' ');
    assert(spec_command_sane(m.command)) by {
        let ctok = body.subrange(cs, ce);
        assert(spec_command_of(ctok) == Some(m.command));
    }
    if ce < body.len() {
        lemma_parse_params_sane(body, ce, 0, spec_parse_params(body, ce, 0).unwrap());
    }
}

/// Reports whether the body holds a character that no message may
/// hold (NUL, CR or LF).
fn has_illegal_char(s: &str) -> (r: bool)
    ensures
        r == exists|i: int| 0 <= i < s@.len() && !is_line_char(#[trigger] s@[i]),
{
    let n = s.unicode_len();
    let mut i: usize = 0;
    while i < n
        invariant
            i <= n,
            n == s@.len(),
            forall|j: int| 0 <= j < i ==> is_line_char(#[trigger] s@[j]),
        decreases n - i,
    {
        let c = s.get_char(i);
        if c == '\u{0}' || c == '\r' || c == '\n' {
            return true;
        }
        i = i + 1;
    }
    false
}

/// Parses the prefix token between the leading `:` and the first
/// space.
fn parse_prefix(p: &str) -> (r: Option<Prefix>)
    ensures
        match r {
            Some(x) => spec_parse_prefix(p@) == Some(x@),
            None => spec_parse_prefix(p@) is None,
        },
{
    let n = p.unicode_len();
    if n == 0 {
        return None;
    }
    let bang = find_char(p, 0, '!');
    let at = find_char(p, 0, '@');
    if bang == n && at == n {
        return Some(Prefix::ServerName(p.to_owned()));
    }
    if bang < at {
        if bang == 0 {
            return None;
        }
        let nickname = p.substring_char(0, bang).to_owned();
        let at2 = find_char(p, bang + 1, '@');
        if at2 == n {
            if bang + 1 == n {
                return None;
            }
            let user = p.substring_char(bang + 1, n).to_owned();
            let built = UserPrefix { nickname, user: Some(user), host: None };
            proof {
                assert(built@.nickname =~= p@.take(bang as int));
            }
            Some(Prefix::UserName(built))
        } else {
            if at2 == bang + 1 || at2 + 1 == n {
                return None;
            }
            let user = p.substring_char(bang + 1, at2).to_owned();
            let host = p.substring_char(at2 + 1, n).to_owned();
            let built = UserPrefix { nickname, user: Some(user), host: Some(host) };
            proof {
                assert(built@.nickname =~= p@.take(bang as int));
            }
            Some(Prefix::UserName(built))
        }
    } else {
        // the first special character is '@'
        if at == 0 || at + 1 == n {
            return None;
        }
        let nickname = p.substring_char(0, at).to_owned();
        let host = p.substring_char(at + 1, n).to_owned();
        let built = UserPrefix { nickname, user: None, host: Some(host) };
        proof {
            assert(built@.nickname =~= p@.take(at as int));
        }
        Some(Prefix::UserName(built))
    }
}

/// Classifies the command token as a textual command or a numeric
/// reply.
fn parse_command_token(s: &str) -> (r: Option<Command>)
    ensures
        match r {
            Some(c) => spec_command_of(s@) == Some(c@),
            None => spec_command_of(s@) is None,
        },
{
    let n = s.unicode_len();
    let mut all_letters = n >= 1;
    let mut i: usize = 0;
    while i < n
        invariant
            i <= n,
            n == s@.len(),
            all_letters == (n >= 1 && forall|j: int| 0 <= j < i ==> is_letter(#[trigger] s@[j])),
        decreases n - i,
    {
        let c = s.get_char(i);
        let u = c as u32;
        if !((65 <= u && u <= 90) || (97 <= u && u <= 122)) {
            all_letters = false;
        }
        i = i + 1;
    }
    if all_letters {
        return Some(Command::IrcCommand(s.to_owned()));
    }
    if n == 3 {
        let mut all_digits = true;
        let mut k: usize = 0;
        while k < n
            invariant
                k <= n,
                n == s@.len(),
                all_digits == forall|j: int| 0 <= j < k ==> is_digit(#[trigger] s@[j]),
            decreases n - k,
        {
            let u = s.get_char(k) as u32;
            if !(48 <= u && u <= 57) {
                all_digits = false;
            }
            k = k + 1;
        }
        if all_digits {
            return Some(Command::IrcResponse(s.to_owned()));
        }
    }
    None
}

/// Parses the parameter list beginning at the space at `start`.
fn parse_params(body: &str, start: usize) -> (r: Option<Parameters>)
    requires
        start < body@.len(),
        body@[start as int] == ' ',
    ensures
        match r {
            Some(ps) => spec_parse_params(body@, start as int, 0) == Some(ps@),
            None => spec_parse_params(body@, start as int, 0) is None,
        },
{
    let n = body.unicode_len();
    let mut middle: Vec<String> = Vec::new();
    let mut p = start;
    loop
        invariant
            p < n,
            n == body@.len(),
            body@[p as int] == ' ',
            middle@.len() <= 14,
            forall|ps: ParametersView|
                spec_parse_params(body@, p as int, middle@.len() as int) == Some(ps)
                    ==> spec_parse_params(body@, start as int, 0) == Some(
                    ParametersView {
                        middle: middle.deep_view() + ps.middle,
                        trailing: ps.trailing,
                    },
                ),
            spec_parse_params(body@, p as int, middle@.len() as int) is None
                ==> spec_parse_params(body@, start as int, 0) is None,
        decreases n - p,
    {
        if p + 1 == n {
            return None;
        }
        let c1 = body.get_char(p + 1);
        if c1 == ':' {
            let t = body.substring_char(p + 2, n).to_owned();
            let result = Parameters { middle, trailing: Some(t) };
            proof {
                let ghost ps = spec_parse_params(body@, p as int, result.middle@.len() as int).unwrap();
                assert(result@.middle =~= result.middle.deep_view() + ps.middle);
            }
            return Some(result);
        }
        if c1 == ' ' {
            return None;
        }
        if middle.len() >= 14 {
            return None;
        }
        let e = find_char(body, p + 1, ' ');
        let tok = body.substring_char(p + 1, e).to_owned();
        proof {
            assert(tok@ =~= body@.subrange(p + 1 as int, spec_find(body@, p + 1 as int, ' ')));
        }
        let ghost old_mid = middle.deep_view();
        let ghost old_len = middle@.len() as int;
        middle.push(tok);
        proof {
            assert(middle.deep_view() =~= old_mid.push(tok@));
        }
        if e == n {
            let result = Parameters { middle, trailing: None };
            proof {
                let ghost ps = spec_parse_params(body@, p as int, old_len).unwrap();
                assert(ps.middle =~= seq![tok@]);
                assert(result@.middle =~= old_mid + ps.middle);
            }
            return Some(result);
        }
        proof {
            let ghost inner = spec_parse_params(body@, e as int, old_len + 1);
            if inner is Some {
                let ghost ps0 = spec_parse_params(body@, p as int, old_len).unwrap();
                assert(ps0.middle =~= seq![tok@] + inner.unwrap().middle);
                assert(old_mid + ps0.middle =~= middle.deep_view() + inner.unwrap().middle);
            }
        }
        p = e;
    }
}

impl BaseMessage {
    /// Parses one raw protocol line, with its optional CRLF or LF
    /// terminator, into a `BaseMessage`. The result is exactly the
    /// meaning that `spec_parse` gives the line; a line outside the
    /// grammar is refused with a `SyntaxError` and no partial
    /// result.
    pub fn from_str(line: &str) -> (r: Result<BaseMessage, SyntaxError>)
        ensures
            match r {
                Ok(m) => spec_parse(line@) == Some(m@),
                Err(e) => spec_parse(line@) is None && e@.len() > 0,
            },
    {
        let len = line.unicode_len();
        let body_end = if len >= 2 && line.get_char(len - 2) == '\r' && line.get_char(len - 1)
            == '\n' {
            len - 2
        } else if len >= 1 && line.get_char(len - 1) == '\n' {
            len - 1
        } else {
            len
        };
        let body = line.substring_char(0, body_end);
        proof {
            assert(body@ =~= spec_strip_crlf(line@));
        }
        let blen = body.unicode_len();
        if has_illegal_char(body) {
            let e = SyntaxError::new("line holds NUL, CR or LF");
            proof {
                reveal_strlit("line holds NUL, CR or LF");
            }
            return Err(e);
        }
        let mut prefix: Option<Prefix> = None;
        let mut cs: usize = 0;
        if blen > 0 && body.get_char(0) == ':' {
            let sp = find_char(body, 0, ' ');
            if sp == blen {
                let e = SyntaxError::new("prefix is not followed by a command");
                proof {
                    reveal_strlit("prefix is not followed by a command");
                }
                return Err(e);
            }
            let ptok = body.substring_char(1, sp);
            proof {
                assert(ptok@ =~= body@.subrange(1, spec_find(body@, 0, ' ')));
            }
            match parse_prefix(ptok) {
                Some(pfx) => {
                    prefix = Some(pfx);
                },
                None => {
                    let e = SyntaxError::new("malformed prefix");
                    proof {
                        reveal_strlit("malformed prefix");
                    }
                    return Err(e);
                },
            }
            cs = sp + 1;
        }
        let ce = find_char(body, cs, ' ');
        let ctok = body.substring_char(cs, ce);
        let command = match parse_command_token(ctok) {
            Some(c) => c,
            None => {
                let e = SyntaxError::new("command is not letters or three digits");
                proof {
                    reveal_strlit("command is not letters or three digits");
                }
                return Err(e);
            },
        };
        let parameters = if ce == blen {
            None
        } else {
            match parse_params(body, ce) {
                Some(ps) => Some(ps),
                None => {
                    let e = SyntaxError::new("malformed parameter list");
                    proof {
                        reveal_strlit("malformed parameter list");
                    }
                    return Err(e);
                },
            }
        };
        Ok(BaseMessage { prefix, command, parameters })
    }
}

} // verus!
