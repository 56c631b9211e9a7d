//! The laws the codec obeys, stated over the spec-level parse,
//! decode and encode functions and proved once and for all.

use vstd::prelude::*;

use crate::codec::{
    is_positional_field, spec_bind_field, spec_decode, spec_decode_entries, spec_msg_middles,
    spec_msg_trailing, spec_positional_count, spec_record_wf, spec_required_count,
    CommandSpecView, FieldRoleView, FieldSpecView, FieldValueView, RecordEntryView,
};
use crate::grammar::{
    is_digit, is_free_text, is_letter, is_line_char, is_middle_token, is_numeric_command,
    is_text_command, is_token_text, spec_parse, spec_parse_params, spec_parse_prefix,
    spec_parse_rest, spec_strip_crlf,
};
use crate::message::{spec_command_text, BaseMessageView, CommandView, ParametersView};
use crate::text::{lemma_find_at, spec_find, spec_join, str_eq_ci, upper_code};

verus! {

/// The wire text of a middle parameter sequence: each parameter
/// preceded by one space.
spec fn spec_middles_wire(mids: Seq<Seq<char>>) -> Seq<char>
    decreases mids.len(),
{
    if mids.len() == 0 {
        Seq::empty()
    } else {
        seq![' '] + mids[0] + spec_middles_wire(mids.drop_first())
    }
}

/// The wire text of an optional trailing parameter: a space, a
/// colon and the text.
spec fn spec_trailing_wire(tr: Option<Seq<char>>) -> Seq<char> {
    match tr {
        Some(t) => seq![' ', ':'] + t,
        None => Seq::empty(),
    }
}

/// One whole wire line: optional `:prefix `, the command, the
/// middle parameters, and the optional trailing part.
spec fn spec_wire_line(
    pfx: Option<Seq<char>>,
    cmd: Seq<char>,
    mids: Seq<Seq<char>>,
    tr: Option<Seq<char>>,
) -> Seq<char> {
    (match pfx {
        Some(p) => seq![':'] + p + seq![' '],
        None => Seq::empty(),
    }) + cmd + spec_middles_wire(mids) + spec_trailing_wire(tr)
}

/// Spacing middle parameters is joining them with single spaces,
/// after one leading space.
proof fn lemma_middles_wire_join(mids: Seq<Seq<char>>)
    requires
        mids.len() >= 1,
    ensures
        spec_middles_wire(mids) =~= seq![' '] + spec_join(mids, seq![' ']),
    decreases mids.len(),
{
    if mids.len() == 1 {
        assert(spec_middles_wire(mids.drop_first()) =~= Seq::<char>::empty());
        assert(spec_join(mids, seq![' ']) == mids[0]);
    } else {
        lemma_middles_wire_join(mids.drop_first());
        assert(spec_join(mids, seq![' ']) == mids[0] + seq![' '] + spec_join(
            mids.drop_first(),
            seq![' '],
        ));
    }
}

/// The wire text of middle tokens holds only line characters.
proof fn lemma_middles_wire_chars(mids: Seq<Seq<char>>)
    requires
        forall|i: int| 0 <= i < mids.len() ==> is_middle_token(#[trigger] mids[i]),
    ensures
        forall|i: int|
            0 <= i < spec_middles_wire(mids).len() ==> is_line_char(
                #[trigger] spec_middles_wire(mids)[i],
            ),
    decreases mids.len(),
{
    if mids.len() > 0 {
        lemma_middles_wire_chars(mids.drop_first());
        let mw = spec_middles_wire(mids);
        let rest = spec_middles_wire(mids.drop_first());
        assert forall|i: int| 0 <= i < mw.len() implies is_line_char(#[trigger] mw[i]) by {
            if i == 0 {
                assert(mw[0] == ' ');
            } else if i < 1 + mids[0].len() {
                assert(mw[i] == mids[0][i - 1]);
            } else {
                assert(mw[i] == rest[i - 1 - mids[0].len()]);
            }
        }
    }
}

/// Parsing the parameter region of a built wire line gives back
/// exactly the middle parameters and the trailing part.
proof fn lemma_parse_params_of_wire(
    w: Seq<char>,
    p: int,
    mids: Seq<Seq<char>>,
    tr: Option<Seq<char>>,
    n: int,
)
    requires
        0 <= p < w.len(),
        0 <= n,
        mids.len() + n <= 14,
        mids.len() >= 1 || tr is Some,
        w.subrange(p, w.len() as int) == spec_middles_wire(mids) + spec_trailing_wire(tr),
        forall|i: int| 0 <= i < mids.len() ==> is_middle_token(#[trigger] mids[i]),
    ensures
        spec_parse_params(w, p, n) == Some(ParametersView { middle: mids, trailing: tr }),
    decreases mids.len(),
{
    let region = w.subrange(p, w.len() as int);
    if mids.len() == 0 {
        let t = tr.unwrap();
        assert(region == seq![' ', ':'] + t);
        assert(region.len() == 2 + t.len());
        assert(w[p + 1] == region[1]);
        assert(w[p + 1] == ':');
        assert(w.subrange(p + 2, w.len() as int) =~= t) by {
            assert forall|i: int| 0 <= i < t.len() implies w.subrange(p + 2, w.len() as int)[i]
                == t[i] by {
                assert(w.subrange(p + 2, w.len() as int)[i] == region[2 + i]);
            }
        }
        assert(spec_parse_params(w, p, n) == Some(
            ParametersView { middle: Seq::<Seq<char>>::empty(), trailing: Some(t) },
        ));
        assert(Seq::<Seq<char>>::empty() =~= mids);
    } else {
        let m0 = mids[0];
        let restw = spec_middles_wire(mids.drop_first()) + spec_trailing_wire(tr);
        assert(region =~= seq![' '] + m0 + restw);
        assert(region.len() == 1 + m0.len() + restw.len());
        assert forall|j: int| 0 <= j < m0.len() implies w[p + 1 + j] == m0[j] by {
            assert(w[p + 1 + j] == region[1 + j]);
        }
        assert(w[p + 1] == m0[0]);
        assert(m0[0] != ':' && m0[0] != ' ');
        let k = p + 1 + m0.len() as int;
        assert(k <= w.len());
        if k < w.len() {
            assert(w[k] == region[1 + m0.len() as int]);
            assert(region[1 + m0.len() as int] == restw[0]);
            if mids.drop_first().len() >= 1 {
                assert(restw[0] == ' ');
            } else {
                assert(spec_middles_wire(mids.drop_first()) =~= Seq::<char>::empty());
                assert(tr is Some) by {
                    if tr is None {
                        assert(restw =~= Seq::<char>::empty());
                    }
                }
                assert(restw[0] == ' ');
            }
        }
        assert forall|j: int| p + 1 <= j < k implies w[j] != ' ' by {
            assert(w[j] == m0[j - p - 1]);
        }
        lemma_find_at(w, p + 1, ' ', k);
        let tok = w.subrange(p + 1, k);
        assert(tok =~= m0);
        assert(n < 14);
        if k >= w.len() {
            assert(restw.len() == 0);
            assert(mids.drop_first().len() == 0) by {
                if mids.drop_first().len() >= 1 {
                    assert(spec_middles_wire(mids.drop_first()).len() >= 1 + mids.drop_first()[0].len());
                }
            }
            assert(tr is None) by {
                if tr is Some {
                    assert(spec_trailing_wire(tr).len() >= 2);
                }
            }
            assert(seq![tok] =~= mids);
            assert(spec_parse_params(w, p, n) == Some(
                ParametersView { middle: seq![tok], trailing: None },
            ));
        } else {
            assert(w.subrange(k, w.len() as int) =~= restw) by {
                assert forall|i: int| 0 <= i < restw.len() implies w.subrange(
                    k,
                    w.len() as int,
                )[i] == restw[i] by {
                    assert(w.subrange(k, w.len() as int)[i] == region[1 + m0.len() as int + i]);
                }
            }
            assert(mids.drop_first().len() >= 1 || tr is Some) by {
                if mids.drop_first().len() == 0 && tr is None {
                    assert(restw =~= Seq::<char>::empty());
                }
            }
            lemma_parse_params_of_wire(w, k, mids.drop_first(), tr, n + 1);
            assert(spec_parse_params(w, p, n) == Some(
                ParametersView { middle: seq![tok] + mids.drop_first(), trailing: tr },
            ));
            assert(seq![tok] + mids.drop_first() =~= mids);
        }
    }
}

/// Parsing a built wire line from the command position on gives
/// back the command, the middle parameters and the trailing part.
proof fn lemma_parse_rest_of_wire(
    w: Seq<char>,
    cs: int,
    pfxv: Option<crate::message::PrefixView>,
    cmd: Seq<char>,
    mids: Seq<Seq<char>>,
    tr: Option<Seq<char>>,
)
    requires
        0 <= cs <= w.len(),
        w.subrange(cs, w.len() as int) == cmd + spec_middles_wire(mids) + spec_trailing_wire(tr),
        is_text_command(cmd) || is_numeric_command(cmd),
        mids.len() <= 14,
        forall|i: int| 0 <= i < mids.len() ==> is_middle_token(#[trigger] mids[i]),
    ensures
        spec_parse_rest(w, cs, pfxv) == Some(
            BaseMessageView {
                prefix: pfxv,
                command: if is_text_command(cmd) {
                    CommandView::IrcCommand(cmd)
                } else {
                    CommandView::IrcResponse(cmd)
                },
                parameters: if mids.len() == 0 && tr is None {
                    None
                } else {
                    Some(ParametersView { middle: mids, trailing: tr })
                },
            },
        ),
{
    let region = w.subrange(cs, w.len() as int);
    let mwire = spec_middles_wire(mids);
    let twire = spec_trailing_wire(tr);
    let clen = cmd.len() as int;
    assert(region.len() == clen + mwire.len() + twire.len());
    assert forall|j: int| 0 <= j < clen implies w[cs + j] == cmd[j] by {
        assert(w[cs + j] == region[j]);
    }
    assert forall|j: int| cs <= j < cs + clen implies w[j] != ' ' by {
        assert(w[j] == cmd[j - cs]);
        assert(is_letter(cmd[j - cs]) || is_digit(cmd[j - cs]));
        if cmd[j - cs] == ' ' {
            assert(cmd[j - cs] as u32 == 32);
        }
    }
    let k = cs + clen;
    if k < w.len() {
        assert(w[k] == region[clen]);
        if mids.len() >= 1 {
            assert(region[clen] == mwire[0]);
            assert(mwire[0] == ' ');
        } else {
            assert(mwire =~= Seq::<char>::empty());
            assert(tr is Some) by {
                if tr is None {
                    assert(twire =~= Seq::<char>::empty());
                }
            }
            assert(region[clen] == twire[0]);
            assert(twire[0] == ' ');
        }
    }
    lemma_find_at(w, cs, ' ', k);
    assert(w.subrange(cs, k) =~= cmd) by {
        assert forall|j: int| 0 <= j < clen implies w.subrange(cs, k)[j] == cmd[j] by {
            assert(w.subrange(cs, k)[j] == w[cs + j]);
        }
    }
    if k >= w.len() {
        assert(mids.len() == 0) by {
            if mids.len() >= 1 {
                assert(mwire.len() >= 1 + mids[0].len());
            }
        }
        assert(tr is None) by {
            if tr is Some {
                assert(twire.len() >= 2);
            }
        }
    } else {
        assert(w.subrange(k, w.len() as int) =~= mwire + twire) by {
            assert forall|i: int| 0 <= i < mwire.len() + twire.len() implies w.subrange(
                k,
                w.len() as int,
            )[i] == (mwire + twire)[i] by {
                assert(w.subrange(k, w.len() as int)[i] == region[clen + i]);
                assert(region[clen + i] == (mwire + twire)[i]);
            }
        }
        assert(mids.len() >= 1 || tr is Some) by {
            if mids.len() == 0 && tr is None {
                assert(mwire + twire =~= Seq::<char>::empty());
            }
        }
        lemma_parse_params_of_wire(w, k, mids, tr, 0);
    }
}

/// Parsing a whole built wire line gives back its parts: the parsed
/// prefix, the command under its constructor, and the parameters.
#[verifier::rlimit(60)]
proof fn lemma_parse_wire_line(
    pfx: Option<Seq<char>>,
    cmd: Seq<char>,
    mids: Seq<Seq<char>>,
    tr: Option<Seq<char>>,
)
    requires
        match pfx {
            Some(p) => p.len() >= 1 && is_token_text(p) && spec_parse_prefix(p) is Some,
            None => true,
        },
        is_text_command(cmd) || is_numeric_command(cmd),
        mids.len() <= 14,
        forall|i: int| 0 <= i < mids.len() ==> is_middle_token(#[trigger] mids[i]),
        match tr {
            Some(t) => is_free_text(t),
            None => true,
        },
    ensures
        spec_parse(spec_wire_line(pfx, cmd, mids, tr)) == Some(
            BaseMessageView {
                prefix: match pfx {
                    Some(p) => Some(spec_parse_prefix(p).unwrap()),
                    None => None,
                },
                command: if is_text_command(cmd) {
                    CommandView::IrcCommand(cmd)
                } else {
                    CommandView::IrcResponse(cmd)
                },
                parameters: if mids.len() == 0 && tr is None {
                    None
                } else {
                    Some(ParametersView { middle: mids, trailing: tr })
                },
            },
        ),
{
    let w = spec_wire_line(pfx, cmd, mids, tr);
    let pp = match pfx {
        Some(p) => seq![':'] + p + seq![' '],
        None => Seq::<char>::empty(),
    };
    let mwire = spec_middles_wire(mids);
    let twire = spec_trailing_wire(tr);
    let plen = pp.len() as int;
    let clen = cmd.len() as int;
    lemma_middles_wire_chars(mids);
    assert(w == pp + cmd + mwire + twire);
    assert(w.len() == plen + clen + mwire.len() + twire.len());
    assert forall|i: int| 0 <= i < w.len() implies is_line_char(#[trigger] w[i]) by {
        if i < plen {
            let p = pfx.unwrap();
            assert(w[i] == pp[i]);
            if i == 0 {
                assert(pp[0] == ':');
            } else if i <= p.len() {
                assert(pp[i] == p[i - 1]);
            } else {
                assert(pp[i] == ' ');
            }
        } else if i < plen + clen {
            assert(w[i] == cmd[i - plen]);
            let c = cmd[i - plen];
            assert(is_letter(c) || is_digit(c));
            if c == '\u{0}' {
                assert(c as u32 == 0);
            }
            if c == '\r' {
                assert(c as u32 == 13);
            }
            if c == '\n' {
                assert(c as u32 == 10);
            }
        } else if i < plen + clen + mwire.len() {
            assert(w[i] == mwire[i - plen - clen]);
        } else {
            let t_i = i - plen - clen - mwire.len();
            assert(w[i] == twire[t_i]);
            let t = tr.unwrap();
            if t_i == 0 {
                assert(twire[0] == ' ');
            } else if t_i == 1 {
                assert(twire[1] == ':');
            } else {
                assert(twire[t_i] == t[t_i - 2]);
            }
        }
    }
    assert(clen >= 1);
    assert(w.len() >= 1);
    assert(spec_strip_crlf(w) == w) by {
        assert(is_line_char(w[w.len() - 1]));
        if w[w.len() - 1] == '\n' {
            assert(!is_line_char('\n'));
        }
    }
    assert(!(exists|i: int| 0 <= i < w.len() && !is_line_char(#[trigger] w[i])));
    match pfx {
        Some(p) => {
            assert(w[0] == pp[0]);
            assert(w[0] == ':');
            assert forall|j: int| 0 <= j < p.len() + 1 implies w[j] != ' ' by {
                assert(w[j] == pp[j]);
                if j > 0 {
                    assert(pp[j] == p[j - 1]);
                }
            }
            assert(w[p.len() as int + 1] == pp[p.len() as int + 1]);
            assert(w[p.len() as int + 1] == ' ');
            lemma_find_at(w, 0, ' ', p.len() as int + 1);
            let sp = p.len() as int + 1;
            assert(sp < w.len());
            assert(w.subrange(1, sp as int) =~= p) by {
                assert forall|j: int| 0 <= j < p.len() implies w.subrange(1, sp as int)[j]
                    == p[j] by {
                    assert(w.subrange(1, sp as int)[j] == w[1 + j]);
                    assert(w[1 + j] == pp[1 + j]);
                }
            }
            assert(w.subrange(plen, w.len() as int) =~= cmd + mwire + twire) by {
                assert forall|i: int| 0 <= i < clen + mwire.len() + twire.len() implies w.subrange(
                    plen,
                    w.len() as int,
                )[i] == (cmd + mwire + twire)[i] by {
                    assert(w.subrange(plen, w.len() as int)[i] == w[plen + i]);
                }
            }
            lemma_parse_rest_of_wire(
                w,
                plen,
                Some(spec_parse_prefix(p).unwrap()),
                cmd,
                mids,
                tr,
            );
        },
        None => {
            assert(plen == 0);
            if w.len() > 0 && w[0] == ':' {
                assert(w[0] == cmd[0]);
                assert(is_letter(cmd[0]) || is_digit(cmd[0]));
                assert((':') as u32 == 58);
            }
            assert(w.subrange(0, w.len() as int) =~= cmd + mwire + twire);
            lemma_parse_rest_of_wire(w, 0, None, cmd, mids, tr);
        },
    }
}

/// The textual form of a sane prefix is a non-empty space-free
/// token that parses back as a prefix.
proof fn lemma_prefix_text_reparses(pv: crate::message::PrefixView)
    requires
        crate::grammar::spec_prefix_sane(pv),
    ensures
        crate::message::spec_prefix_text(pv).len() >= 1,
        is_token_text(crate::message::spec_prefix_text(pv)),
        spec_parse_prefix(crate::message::spec_prefix_text(pv)) is Some,
{
    let p = crate::message::spec_prefix_text(pv);
    match pv {
        crate::message::PrefixView::ServerName(s) => {
            assert(p == s);
            lemma_find_at(p, 0, '!', p.len() as int);
            lemma_find_at(p, 0, '@', p.len() as int);
        },
        crate::message::PrefixView::UserName(u) => {
            let nick = u.nickname;
            match u.host {
                None => {
                    assert(p == nick);
                    lemma_find_at(p, 0, '!', p.len() as int);
                    lemma_find_at(p, 0, '@', p.len() as int);
                },
                Some(h) => {
                    match u.user {
                        Some(us) => {
                            assert(p == nick + seq!['!'] + us + seq!['@'] + h);
                            let bang = nick.len() as int;
                            let at = nick.len() as int + 1 + us.len() as int;
                            assert(p.len() == nick.len() + us.len() + h.len() + 2);
                            assert(is_token_text(p)) by {
                                assert forall|i: int| 0 <= i < p.len() implies is_line_char(
                                    #[trigger] p[i],
                                ) && p[i] != ' ' by {
                                    if i < bang {
                                        assert(p[i] == nick[i]);
                                    } else if i == bang {
                                        assert(p[i] == '!');
                                    } else if i < at {
                                        assert(p[i] == us[i - bang - 1]);
                                    } else if i == at {
                                        assert(p[i] == '@');
                                    } else {
                                        assert(p[i] == h[i - at - 1]);
                                    }
                                }
                            }
                            assert(p[bang] == '!');
                            assert forall|j: int| 0 <= j < bang implies p[j] != '!' by {
                                assert(p[j] == nick[j]);
                            }
                            lemma_find_at(p, 0, '!', bang);
                            assert(p[at] == '@');
                            assert forall|j: int| 0 <= j < at implies p[j] != '@' by {
                                if j < bang {
                                    assert(p[j] == nick[j]);
                                } else if j == bang {
                                    assert(p[j] == '!');
                                } else {
                                    assert(p[j] == us[j - bang - 1]);
                                }
                            }
                            lemma_find_at(p, 0, '@', at);
                            assert forall|j: int| bang + 1 <= j < at implies p[j] != '@' by {
                                assert(p[j] == us[j - bang - 1]);
                            }
                            lemma_find_at(p, bang + 1, '@', at);
                            assert(spec_find(p, 0, '!') == bang);
                            assert(spec_find(p, 0, '@') == at);
                            assert(bang < at);
                            assert(bang > 0);
                            assert(spec_find(p, bang + 1, '@') == at);
                            assert(at != p.len() && at != bang + 1 && at + 1 != p.len());
                        },
                        None => {
                            assert(p == nick + seq!['@'] + h);
                            let at = nick.len() as int;
                            assert(p.len() == nick.len() + h.len() + 1);
                            assert(is_token_text(p)) by {
                                assert forall|i: int| 0 <= i < p.len() implies is_line_char(
                                    #[trigger] p[i],
                                ) && p[i] != ' ' by {
                                    if i < at {
                                        assert(p[i] == nick[i]);
                                    } else if i == at {
                                        assert(p[i] == '@');
                                    } else {
                                        assert(p[i] == h[i - at - 1]);
                                    }
                                }
                            }
                            assert(p[at] == '@');
                            assert forall|j: int| 0 <= j < at implies p[j] != '@' by {
                                assert(p[j] == nick[j]);
                            }
                            lemma_find_at(p, 0, '@', at);
                            assert forall|j: int| 0 <= j < at + 1 implies p[j] != '!' by {
                                if j < at {
                                    assert(p[j] == nick[j]);
                                } else {
                                    assert(p[j] == '@');
                                }
                            }
                            let bang = spec_find(p, 0, '!');
                            crate::text::lemma_find_props(p, 0, '!');
                            assert(bang > at) by {
                                if bang <= at {
                                    assert(p[bang] == '!');
                                }
                            }
                            assert(!(bang == p.len() && spec_find(p, 0, '@') == p.len()));
                            assert(!(bang < spec_find(p, 0, '@')));
                            assert(at != 0 && at + 1 != p.len());
                        },
                    }
                },
            }
        },
    }
}

/// A command token equal to another up to ASCII case has the same
/// shape: letters stay letters and digits stay digits.
proof fn lemma_ci_command_shape(c: Seq<char>, name: Seq<char>)
    requires
        str_eq_ci(c, name),
    ensures
        is_text_command(c) ==> is_text_command(name),
        is_numeric_command(c) ==> is_numeric_command(name),
{
    if is_text_command(c) {
        assert forall|i: int| 0 <= i < name.len() implies is_letter(#[trigger] name[i]) by {
            assert(upper_code(c[i]) == upper_code(name[i]));
            assert(is_letter(c[i]));
        }
    }
    if is_numeric_command(c) {
        assert forall|i: int| 0 <= i < name.len() implies is_digit(#[trigger] name[i]) by {
            assert(upper_code(c[i]) == upper_code(name[i]));
            assert(is_digit(c[i]));
        }
    }
}

/// Some field from `i` on has the prefix role.
pub open spec fn has_prefix_from(fields: Seq<FieldSpecView>, i: int) -> bool {
    exists|t: int| i <= t < fields.len() && (#[trigger] fields[t].role) is Prefix
}

/// Some field from `i` on has the trailing role.
pub open spec fn has_trailing_from(fields: Seq<FieldSpecView>, i: int) -> bool {
    exists|t: int| i <= t < fields.len() && (#[trigger] fields[t].role) is Trailing
}

/// Some field from `i` on is a list with a single-space separator.
pub open spec fn has_space_list_from(fields: Seq<FieldSpecView>, i: int) -> bool {
    exists|t: int|
        i <= t < fields.len() && #[trigger] fields[t].role == FieldRoleView::SeparatedList(
            seq![' '],
        )
}

/// A spec that covers a message: a trailing parameter only where a
/// trailing field is declared, and middle parameters that the
/// positional fields consume in full (enough positional fields, or
/// a single-space list that takes the rest).
pub open spec fn spec_covers(sp: CommandSpecView, m: BaseMessageView) -> bool {
    &&& (spec_msg_trailing(m) is Some ==> has_trailing_from(sp.fields, 0))
    &&& (spec_msg_middles(m).len() <= spec_positional_count(sp.fields) || has_space_list_from(
        sp.fields,
        0,
    ))
}

/// The prefix part of an encoded record decoded from `m`: `:`, the
/// prefix text and a space where a prefix field is declared from
/// `i` on and `m` has a prefix, and nothing otherwise.
proof fn lemma_prefix_part_decode(
    sp: CommandSpecView,
    m: BaseMessageView,
    entries: Seq<RecordEntryView>,
    i: int,
)
    requires
        0 <= i <= sp.fields.len(),
        entries == spec_decode_entries(sp, m),
    ensures
        crate::codec::spec_prefix_part(sp.fields, entries, i) == if has_prefix_from(sp.fields, i)
            && m.prefix is Some {
            seq![':'] + crate::message::spec_prefix_text(m.prefix.unwrap()) + seq![' ']
        } else {
            Seq::<char>::empty()
        },
    decreases sp.fields.len() - i,
{
    if i == sp.fields.len() {
    } else if sp.fields[i].role is Prefix {
        assert(entries[i].value == spec_bind_field(
            sp.fields[i],
            spec_positional_count(sp.fields.take(i)),
            m,
        ));
        assert(has_prefix_from(sp.fields, i));
    } else {
        lemma_prefix_part_decode(sp, m, entries, i + 1);
        assert(has_prefix_from(sp.fields, i) == has_prefix_from(sp.fields, i + 1)) by {
            if has_prefix_from(sp.fields, i) {
                let t = choose|t: int|
                    i <= t < sp.fields.len() && (#[trigger] sp.fields[t].role) is Prefix;
                assert(t >= i + 1);
                assert(has_prefix_from(sp.fields, i + 1));
            }
        }
    }
}

/// The trailing part of an encoded record decoded from `m`: a
/// space, `:` and the trailing text where a trailing field is
/// declared from `i` on and `m` has a trailing parameter, and
/// nothing otherwise.
proof fn lemma_trailing_part_decode(
    sp: CommandSpecView,
    m: BaseMessageView,
    entries: Seq<RecordEntryView>,
    i: int,
)
    requires
        0 <= i <= sp.fields.len(),
        entries == spec_decode_entries(sp, m),
    ensures
        crate::codec::spec_trailing_part(sp.fields, entries, i) == if has_trailing_from(
            sp.fields,
            i,
        ) && spec_msg_trailing(m) is Some {
            seq![' ', ':'] + spec_msg_trailing(m).unwrap()
        } else {
            Seq::<char>::empty()
        },
    decreases sp.fields.len() - i,
{
    if i == sp.fields.len() {
    } else if sp.fields[i].role is Trailing {
        assert(entries[i].value == spec_bind_field(
            sp.fields[i],
            spec_positional_count(sp.fields.take(i)),
            m,
        ));
        assert(has_trailing_from(sp.fields, i));
    } else {
        lemma_trailing_part_decode(sp, m, entries, i + 1);
        assert(has_trailing_from(sp.fields, i) == has_trailing_from(sp.fields, i + 1)) by {
            if has_trailing_from(sp.fields, i) {
                let t = choose|t: int|
                    i <= t < sp.fields.len() && (#[trigger] sp.fields[t].role) is Trailing;
                assert(t >= i + 1);
                assert(has_trailing_from(sp.fields, i + 1));
            }
        }
    }
}

/// Once the middle parameters have run out, the positional fields
/// from `i` on emit nothing.
proof fn lemma_positional_part_ran_out(
    sp: CommandSpecView,
    m: BaseMessageView,
    entries: Seq<RecordEntryView>,
    i: int,
)
    requires
        0 <= i <= sp.fields.len(),
        entries == spec_decode_entries(sp, m),
        spec_positional_count(sp.fields.take(i)) >= spec_msg_middles(m).len(),
    ensures
        crate::codec::spec_positional_part(sp.fields, entries, i) =~= Seq::<char>::empty(),
    decreases sp.fields.len() - i,
{
    if i < sp.fields.len() {
        assert(entries[i].value == spec_bind_field(
            sp.fields[i],
            spec_positional_count(sp.fields.take(i)),
            m,
        ));
        assert(sp.fields.take(i + 1).drop_last() =~= sp.fields.take(i));
        assert(sp.fields.take(i + 1).last() == sp.fields[i]);
        lemma_positional_part_ran_out(sp, m, entries, i + 1);
        assert(crate::codec::spec_positional_emit(sp.fields[i], entries[i].value)
            =~= Seq::<char>::empty());
    }
}

/// Fields from `i` on that are none of them positional emit
/// nothing.
proof fn lemma_positional_part_no_positional(
    sp: CommandSpecView,
    entries: Seq<RecordEntryView>,
    i: int,
)
    requires
        0 <= i <= sp.fields.len(),
        entries.len() == sp.fields.len(),
        forall|t: int| i <= t < sp.fields.len() ==> !is_positional_field(#[trigger] sp.fields[t]),
    ensures
        crate::codec::spec_positional_part(sp.fields, entries, i) =~= Seq::<char>::empty(),
    decreases sp.fields.len() - i,
{
    if i < sp.fields.len() {
        lemma_positional_part_no_positional(sp, entries, i + 1);
        assert(crate::codec::spec_positional_emit(sp.fields[i], entries[i].value)
            =~= Seq::<char>::empty());
    }
}

/// Positional and required counts are never negative.
proof fn lemma_counts_nonneg(fields: Seq<FieldSpecView>)
    ensures
        spec_positional_count(fields) >= 0,
        spec_required_count(fields) >= 0,
    decreases fields.len(),
{
    if fields.len() > 0 {
        lemma_counts_nonneg(fields.drop_last());
    }
}

/// Where the positional parts from `i` end in the middle parameter
/// list: everything where a single-space list follows, otherwise as
/// many as there are positional fields.
spec fn spec_pos_end(fields: Seq<FieldSpecView>, i: int, alen: int) -> int {
    if has_space_list_from(fields, i) {
        alen
    } else if alen <= spec_positional_count(fields) {
        alen
    } else {
        spec_positional_count(fields)
    }
}

/// The positional fields from `i` on emit exactly the middle
/// parameters they consumed, one space before each.
proof fn lemma_positional_part_decode(
    sp: CommandSpecView,
    m: BaseMessageView,
    entries: Seq<RecordEntryView>,
    i: int,
)
    requires
        sp.wf(),
        entries == spec_decode_entries(sp, m),
        0 <= i <= sp.fields.len(),
        spec_positional_count(sp.fields.take(i)) <= spec_msg_middles(m).len(),
    ensures
        crate::codec::spec_positional_part(sp.fields, entries, i) == spec_middles_wire(
            spec_msg_middles(m).subrange(
                spec_positional_count(sp.fields.take(i)),
                spec_pos_end(sp.fields, i, spec_msg_middles(m).len() as int),
            ),
        ),
    decreases sp.fields.len() - i,
{
    let a = spec_msg_middles(m);
    let alen = a.len() as int;
    let j = spec_positional_count(sp.fields.take(i));
    let x = spec_pos_end(sp.fields, i, alen);
    lemma_counts_nonneg(sp.fields.take(i));
    assert(j >= 0);
    assert(spec_positional_count(sp.fields) >= j && spec_positional_count(sp.fields)
        >= spec_positional_count(sp.fields.take(sp.fields.len() as int))) by {
        lemma_positional_count_monotone(sp.fields, i, sp.fields.len() as int);
        assert(sp.fields.take(sp.fields.len() as int) =~= sp.fields);
    }
    if i == sp.fields.len() {
        assert(sp.fields.take(i) =~= sp.fields);
        assert(j == spec_positional_count(sp.fields));
        assert(x == j);
        assert(a.subrange(j, j) =~= Seq::<Seq<char>>::empty());
    } else {
        let f = sp.fields[i];
        assert(entries[i].value == spec_bind_field(f, j, m));
        assert(sp.fields.take(i + 1).drop_last() =~= sp.fields.take(i));
        assert(sp.fields.take(i + 1).last() == f);
        let emit = crate::codec::spec_positional_emit(f, entries[i].value);
        if !is_positional_field(f) {
            assert(emit =~= Seq::<char>::empty());
            assert(spec_positional_count(sp.fields.take(i + 1)) == j);
            lemma_positional_part_decode(sp, m, entries, i + 1);
            assert(has_space_list_from(sp.fields, i) == has_space_list_from(sp.fields, i + 1))
                by {
                if has_space_list_from(sp.fields, i) {
                    let t = choose|t: int|
                        i <= t < sp.fields.len() && #[trigger] sp.fields[t].role
                            == FieldRoleView::SeparatedList(seq![' ']);
                    assert(!(f.role is SeparatedList));
                    assert(t >= i + 1);
                    assert(has_space_list_from(sp.fields, i + 1));
                }
            }
            assert(crate::codec::spec_positional_part(sp.fields, entries, i) =~= emit
                + crate::codec::spec_positional_part(sp.fields, entries, i + 1));
            assert(emit + spec_middles_wire(a.subrange(j, x)) =~= spec_middles_wire(
                a.subrange(j, x),
            ));
        } else if j == alen {
            lemma_positional_part_ran_out(sp, m, entries, i);
            assert(x == j) by {
                if has_space_list_from(sp.fields, i) {
                } else {
                    assert(spec_positional_count(sp.fields) >= j);
                }
            }
            assert(a.subrange(j, j) =~= Seq::<Seq<char>>::empty());
        } else {
            // a positional field with a middle parameter to take
            assert(j < alen);
            assert(spec_positional_count(sp.fields.take(i + 1)) == j + 1);
            assert(spec_positional_count(sp.fields) >= j + 1) by {
                lemma_positional_count_monotone(sp.fields, i + 1, sp.fields.len() as int);
                assert(sp.fields.take(sp.fields.len() as int) =~= sp.fields);
            }
            if f.role == FieldRoleView::SeparatedList(seq![' ']) {
                // the single-space list takes the whole remaining suffix
                assert(entries[i].value == FieldValueView::List(a.subrange(j, alen)));
                assert(has_space_list_from(sp.fields, i));
                assert(x == alen);
                let l = a.subrange(j, alen);
                assert(l.len() >= 1);
                lemma_middles_wire_join(l);
                assert(emit == seq![' '] + spec_join(l, seq![' ']));
                assert forall|t: int|
                    i + 1 <= t < sp.fields.len() implies !is_positional_field(
                    #[trigger] sp.fields[t],
                ) by {
                    assert(sp.fields[i].role == FieldRoleView::SeparatedList(seq![' ']));
                }
                lemma_positional_part_no_positional(sp, entries, i + 1);
                assert(crate::codec::spec_positional_part(sp.fields, entries, i) =~= emit);
                assert(emit =~= spec_middles_wire(l));
            } else {
                // one middle parameter: taken whole, or split and
                // rejoined with the same separator
                let emitted: Seq<char> = match f.role {
                    FieldRoleView::PositionalArg => {
                        assert(entries[i].value == FieldValueView::Text(a[j]));
                        seq![' '] + a[j]
                    },
                    FieldRoleView::SeparatedList(sep) => {
                        assert(entries[i].value == FieldValueView::List(
                            crate::text::spec_split(a[j], sep),
                        ));
                        assert(sep.len() >= 1) by {
                            assert(crate::codec::spec_separators_nonempty(sp.fields));
                        }
                        crate::text::lemma_join_split(a[j], sep);
                        assert(spec_join(crate::text::spec_split(a[j], sep), sep) =~= a[j]);
                        seq![' '] + a[j]
                    },
                    _ => Seq::<char>::empty(),
                };
                assert(emit =~= seq![' '] + a[j]);
                lemma_positional_part_decode(sp, m, entries, i + 1);
                assert(has_space_list_from(sp.fields, i) == has_space_list_from(
                    sp.fields,
                    i + 1,
                )) by {
                    if has_space_list_from(sp.fields, i) {
                        let t = choose|t: int|
                            i <= t < sp.fields.len() && #[trigger] sp.fields[t].role
                                == FieldRoleView::SeparatedList(seq![' ']);
                        assert(t != i);
                        assert(has_space_list_from(sp.fields, i + 1));
                    }
                }
                let x1 = spec_pos_end(sp.fields, i + 1, alen);
                assert(x1 == x);
                assert(j + 1 <= x) by {
                    if has_space_list_from(sp.fields, i) {
                    } else {
                        assert(spec_positional_count(sp.fields) >= j + 1);
                    }
                }
                let sub = a.subrange(j, x);
                assert(sub.len() >= 1);
                assert(sub[0] == a[j]);
                assert(sub.drop_first() =~= a.subrange(j + 1, x));
                assert(spec_middles_wire(sub) == seq![' '] + sub[0] + spec_middles_wire(
                    sub.drop_first(),
                ));
                assert(crate::codec::spec_positional_part(sp.fields, entries, i) =~= emit
                    + crate::codec::spec_positional_part(sp.fields, entries, i + 1));
                assert((seq![' '] + a[j]) + spec_middles_wire(a.subrange(j + 1, x))
                    =~= spec_middles_wire(sub));
            }
        }
    }
}

/// The encoding of a record decoded from a covered message is
/// exactly the wire line built from the message's parts under the
/// spec's command name.
proof fn lemma_encode_is_wire(
    sp: CommandSpecView,
    m: BaseMessageView,
    entries: Seq<RecordEntryView>,
)
    requires
        sp.wf(),
        spec_decode(sp, m) == Ok::<_, crate::codec::CodecErrorView>(entries),
        spec_covers(sp, m),
    ensures
        crate::codec::spec_encode(sp, entries) == spec_wire_line(
            if has_prefix_from(sp.fields, 0) && m.prefix is Some {
                Some(crate::message::spec_prefix_text(m.prefix.unwrap()))
            } else {
                None
            },
            sp.name,
            spec_msg_middles(m),
            spec_msg_trailing(m),
        ),
{
    let a = spec_msg_middles(m);
    let alen = a.len() as int;
    lemma_prefix_part_decode(sp, m, entries, 0);
    lemma_trailing_part_decode(sp, m, entries, 0);
    assert(sp.fields.take(0) =~= Seq::<FieldSpecView>::empty());
    assert(spec_positional_count(sp.fields.take(0)) == 0);
    lemma_positional_part_decode(sp, m, entries, 0);
    assert(spec_pos_end(sp.fields, 0, alen) == alen) by {
        if !has_space_list_from(sp.fields, 0) {
            assert(alen <= spec_positional_count(sp.fields));
        }
    }
    assert(a.subrange(0, alen) =~= a);
    let pfx = if has_prefix_from(sp.fields, 0) && m.prefix is Some {
        Some(crate::message::spec_prefix_text(m.prefix.unwrap()))
    } else {
        None
    };
    let tr = spec_msg_trailing(m);
    assert(crate::codec::spec_trailing_part(sp.fields, entries, 0) == spec_trailing_wire(tr)) by {
        if tr is Some {
            assert(has_trailing_from(sp.fields, 0));
        }
    }
    assert(crate::codec::spec_encode(sp, entries) =~= spec_wire_line(pfx, sp.name, a, tr));
}

/// Round trip: a record decoded from a parsed line, against a spec
/// that covers the line's parameters, encodes to wire text that
/// parses back to an equivalent message: the same command up to
/// ASCII case, the same middle parameters, and the same trailing
/// parameter.
pub proof fn lemma_round_trip(
    sp: CommandSpecView,
    line: Seq<char>,
    m: BaseMessageView,
    entries: Seq<RecordEntryView>,
)
    requires
        sp.wf(),
        spec_parse(line) == Some(m),
        spec_decode(sp, m) == Ok::<_, crate::codec::CodecErrorView>(entries),
        spec_covers(sp, m),
    ensures
        spec_parse(crate::codec::spec_encode(sp, entries)) is Some,
        str_eq_ci(
            spec_command_text(spec_parse(crate::codec::spec_encode(sp, entries)).unwrap().command),
            spec_command_text(m.command),
        ),
        spec_msg_middles(spec_parse(crate::codec::spec_encode(sp, entries)).unwrap()) == spec_msg_middles(m),
        spec_msg_trailing(spec_parse(crate::codec::spec_encode(sp, entries)).unwrap()) == spec_msg_trailing(m),
{
    crate::grammar::lemma_parse_sane(line, m);
    lemma_encode_is_wire(sp, m, entries);
    let a = spec_msg_middles(m);
    let tr = spec_msg_trailing(m);
    let cmd_text = spec_command_text(m.command);
    assert(str_eq_ci(cmd_text, sp.name));
    assert(is_text_command(cmd_text) || is_numeric_command(cmd_text)) by {
        assert(crate::grammar::spec_command_sane(m.command));
    }
    lemma_ci_command_shape(cmd_text, sp.name);
    let pfx = if has_prefix_from(sp.fields, 0) && m.prefix is Some {
        Some(crate::message::spec_prefix_text(m.prefix.unwrap()))
    } else {
        None
    };
    if pfx is Some {
        lemma_prefix_text_reparses(m.prefix.unwrap());
    }
    assert(a.len() <= 14 && forall|i: int| 0 <= i < a.len() ==> is_middle_token(#[trigger] a[i]))
        by {
        match m.parameters {
            Some(ps) => {
                assert(crate::grammar::spec_params_sane(ps));
            },
            None => {
                assert(a =~= Seq::<Seq<char>>::empty());
            },
        }
    }
    lemma_parse_wire_line(pfx, sp.name, a, tr);
    let m2 = spec_parse(crate::codec::spec_encode(sp, entries)).unwrap();
    assert(spec_command_text(m2.command) == sp.name);
    assert(str_eq_ci(spec_command_text(m2.command), cmd_text)) by {
        assert forall|i: int| 0 <= i < sp.name.len() implies upper_code(sp.name[i]) == upper_code(
            #[trigger] cmd_text[i],
        ) by {
            assert(upper_code(cmd_text[i]) == upper_code(sp.name[i]));
        }
    }
    if a.len() == 0 && tr is None {
        assert(m2.parameters is None);
        assert(spec_msg_middles(m2) =~= a);
    }
}

/// Decoding does not depend on the letter case of the command
/// token: two messages that agree on everything but the case of
/// their command decode to the same record, and fail together.
pub proof fn lemma_decode_case_insensitive(
    sp: CommandSpecView,
    m1: BaseMessageView,
    m2: BaseMessageView,
)
    requires
        m1.prefix == m2.prefix,
        m1.parameters == m2.parameters,
        str_eq_ci(spec_command_text(m1.command), spec_command_text(m2.command)),
    ensures
        spec_decode(sp, m1) is Ok <==> spec_decode(sp, m2) is Ok,
        spec_decode(sp, m1) is Ok ==> spec_decode(sp, m1) == spec_decode(sp, m2),
{
    let c1 = spec_command_text(m1.command);
    let c2 = spec_command_text(m2.command);
    assert(str_eq_ci(c1, sp.name) <==> str_eq_ci(c2, sp.name)) by {
        if str_eq_ci(c1, sp.name) {
            assert forall|i: int| 0 <= i < c2.len() implies upper_code(c2[i]) == upper_code(
                #[trigger] sp.name[i],
            ) by {
                assert(upper_code(c1[i]) == upper_code(c2[i]));
                assert(upper_code(c1[i]) == upper_code(sp.name[i]));
            }
        }
        if str_eq_ci(c2, sp.name) {
            assert forall|i: int| 0 <= i < c1.len() implies upper_code(c1[i]) == upper_code(
                #[trigger] sp.name[i],
            ) by {
                assert(upper_code(c1[i]) == upper_code(c2[i]));
                assert(upper_code(c2[i]) == upper_code(sp.name[i]));
            }
        }
    }
    if spec_decode(sp, m1) is Ok {
        assert(spec_decode_entries(sp, m1) =~= spec_decode_entries(sp, m2)) by {
            assert forall|i: int| 0 <= i < sp.fields.len() implies spec_decode_entries(sp, m1)[i]
                == spec_decode_entries(sp, m2)[i] by {
                assert(spec_bind_field(
                    sp.fields[i],
                    spec_positional_count(sp.fields.take(i)),
                    m1,
                ) == spec_bind_field(sp.fields[i], spec_positional_count(sp.fields.take(i)), m2));
            }
        }
    }
}

/// A list field with a single-space separator, bound in range,
/// takes all remaining middle parameters as one list, split no
/// further.
pub proof fn lemma_space_list_takes_suffix(
    sp: CommandSpecView,
    m: BaseMessageView,
    entries: Seq<RecordEntryView>,
    i: int,
)
    requires
        spec_decode(sp, m) == Ok::<_, crate::codec::CodecErrorView>(entries),
        0 <= i < sp.fields.len(),
        sp.fields[i].role == FieldRoleView::SeparatedList(seq![' ']),
        spec_positional_count(sp.fields.take(i)) < spec_msg_middles(m).len(),
    ensures
        entries[i].value == FieldValueView::List(
            spec_msg_middles(m).subrange(
                spec_positional_count(sp.fields.take(i)),
                spec_msg_middles(m).len() as int,
            ),
        ),
{
    assert(entries == spec_decode_entries(sp, m));
    assert(entries[i] == spec_decode_entries(sp, m)[i]);
}

/// The positional count of a prefix of the fields never exceeds the
/// positional count of a longer prefix.
proof fn lemma_positional_count_monotone(fields: Seq<FieldSpecView>, i: int, k: int)
    requires
        0 <= i <= k <= fields.len(),
    ensures
        spec_positional_count(fields.take(i)) <= spec_positional_count(fields.take(k)),
        spec_positional_count(fields.take(k)) <= spec_positional_count(fields),
    decreases k - i,
{
    assert(fields.take(fields.len() as int) =~= fields);
    lemma_positional_count_prefix(fields, k, fields.len() as int);
    if i < k {
        lemma_positional_count_monotone(fields, i, k - 1);
        assert(fields.take(k).drop_last() =~= fields.take(k - 1));
        assert(fields.take(k).last() == fields[k - 1]);
    }
}

/// The positional count of a shorter prefix is no larger.
proof fn lemma_positional_count_prefix(fields: Seq<FieldSpecView>, i: int, k: int)
    requires
        0 <= i <= k <= fields.len(),
    ensures
        spec_positional_count(fields.take(i)) <= spec_positional_count(fields.take(k)),
    decreases k - i,
{
    if i < k {
        lemma_positional_count_prefix(fields, i, k - 1);
        assert(fields.take(k).drop_last() =~= fields.take(k - 1));
        assert(fields.take(k).last() == fields[k - 1]);
    }
}

/// Where every positional field before `k` is required, the
/// required count of that prefix is its positional count.
proof fn lemma_required_eq_positional(fields: Seq<FieldSpecView>, k: int)
    requires
        0 <= k <= fields.len(),
        forall|t: int|
            0 <= t < k && is_positional_field(#[trigger] fields[t]) ==> !fields[t].optional,
    ensures
        spec_required_count(fields.take(k)) == spec_positional_count(fields.take(k)),
    decreases k,
{
    if k > 0 {
        lemma_required_eq_positional(fields, k - 1);
        assert(fields.take(k).drop_last() =~= fields.take(k - 1));
        assert(fields.take(k).last() == fields[k - 1]);
    }
}

/// The required count of a prefix never exceeds the required count
/// of the whole field list.
proof fn lemma_required_count_monotone(fields: Seq<FieldSpecView>, k: int)
    requires
        0 <= k <= fields.len(),
    ensures
        spec_required_count(fields.take(k)) <= spec_required_count(fields),
    decreases fields.len() - k,
{
    if k < fields.len() {
        assert(fields.take(k + 1).drop_last() =~= fields.take(k));
        assert(fields.take(k + 1).last() == fields[k]);
        lemma_required_count_monotone(fields, k + 1);
    } else {
        assert(fields.take(fields.len() as int) =~= fields);
    }
}

/// A record decoded against a well-formed spec fits that spec:
/// every required field is bound, text fields hold text, and list
/// fields hold lists.
pub proof fn lemma_decode_record_wf(
    sp: CommandSpecView,
    m: BaseMessageView,
    entries: Seq<RecordEntryView>,
)
    requires
        sp.wf(),
        spec_decode(sp, m) == Ok::<_, crate::codec::CodecErrorView>(entries),
    ensures
        spec_record_wf(sp, entries),
{
    let a = spec_msg_middles(m);
    assert(entries == spec_decode_entries(sp, m));
    assert forall|i: int| 0 <= i < entries.len() implies match sp.fields[i].role {
        FieldRoleView::SeparatedList(_) => (#[trigger] entries[i].value) is List || (
        sp.fields[i].optional && entries[i].value is Absent),
        _ => entries[i].value is Text || (sp.fields[i].optional && entries[i].value is Absent),
    } by {
        let j = spec_positional_count(sp.fields.take(i));
        assert(entries[i].value == spec_bind_field(sp.fields[i], j, m));
        match sp.fields[i].role {
            FieldRoleView::Prefix => {
                if m.prefix is None {
                    // a required prefix field would have failed decode
                    assert(sp.fields[i].optional) by {
                        if !sp.fields[i].optional {
                            assert(sp.fields[i].role is Prefix && !sp.fields[i].optional);
                            assert(crate::codec::spec_has_required_prefix(sp.fields));
                        }
                    }
                }
            },
            FieldRoleView::Trailing => {
                if spec_msg_trailing(m) is None {
                    assert(sp.fields[i].optional) by {
                        if !sp.fields[i].optional {
                            assert(sp.fields[i].role is Trailing && !sp.fields[i].optional);
                            assert(crate::codec::spec_has_required_trailing(sp.fields));
                        }
                    }
                }
            },
            _ => {
                // a positional or list field out of range is optional
                if j >= a.len() {
                    assert(sp.fields[i].optional) by {
                        if !sp.fields[i].optional {
                            lemma_required_bound(sp.fields, i);
                            lemma_required_count_monotone(sp.fields, i + 1);
                            assert(spec_required_count(sp.fields) >= j + 1);
                        }
                    }
                }
            },
        }
    }
}

/// A required positional field at index `i` with positional index
/// `j` means at least `j + 1` required positional fields exist in
/// the fields up to and including it, provided optional fields only
/// come after required ones.
proof fn lemma_required_bound(fields: Seq<FieldSpecView>, i: int)
    requires
        0 <= i < fields.len(),
        crate::codec::spec_optional_suffix(fields),
        is_positional_field(fields[i]),
        !fields[i].optional,
    ensures
        spec_required_count(fields.take(i + 1)) == spec_positional_count(fields.take(i + 1)),
        spec_required_count(fields.take(i + 1)) >= spec_positional_count(fields.take(i)) + 1,
{
    assert forall|t: int|
        0 <= t < i + 1 && is_positional_field(#[trigger] fields[t]) implies !fields[t].optional by {
        if t < i && fields[t].optional {
            assert(is_positional_field(fields[t]) && is_positional_field(fields[i])
                && fields[t].optional);
            assert(fields[i].optional);
        }
    }
    lemma_required_eq_positional(fields, i + 1);
    assert(fields.take(i + 1).drop_last() =~= fields.take(i));
    assert(fields.take(i + 1).last() == fields[i]);
}

} // verus!
