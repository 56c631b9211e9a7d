//! The reply-code table: numeric reply codes paired with their
//! canonical reply text, read from comma-delimited text. Parsing
//! the delimited text is the work of an outside library; turning
//! its rows into reply codes is verified here.

use vstd::prelude::*;

use crate::error::ConfigReadError;

verus! {

/// One numeric reply code and its canonical reply text.
#[derive(Debug, PartialEq, Eq)]
pub struct ReplyCode {
    pub code: u32,
    pub reply: String,
}

/// Mathematical form of a `ReplyCode`.
pub struct ReplyCodeView {
    pub code: u32,
    pub reply: Seq<char>,
}

impl View for ReplyCode {
    type V = ReplyCodeView;

    open spec fn view(&self) -> ReplyCodeView {
        ReplyCodeView { code: self.code, reply: self.reply@ }
    }
}

impl DeepView for ReplyCode {
    type V = ReplyCodeView;

    open spec fn deep_view(&self) -> ReplyCodeView {
        self.view()
    }
}

impl ReplyCode {
    /// Pairs a code with its reply text.
    pub fn new(code: u32, reply: &str) -> (r: ReplyCode)
        ensures
            r.code == code,
            r.reply@ == reply@,
    {
        ReplyCode { code, reply: reply.to_owned() }
    }
}

/// The number a string of decimal digits denotes.
pub open spec fn spec_decimal_value(s: Seq<char>) -> int
    decreases s.len(),
{
    if s.len() == 0 {
        0
    } else {
        spec_decimal_value(s.drop_last()) * 10 + (s.last() as u32 - 48)
    }
}

/// A string that denotes a `u32`: one or more decimal digits whose
/// value fits.
pub open spec fn spec_is_u32_decimal(s: Seq<char>) -> bool {
    &&& s.len() >= 1
    &&& forall|i: int| 0 <= i < s.len() ==> crate::grammar::is_digit(#[trigger] s[i])
    &&& spec_decimal_value(s) <= u32::MAX
}

/// The value of a digit string is never negative.
proof fn lemma_decimal_value_nonneg(s: Seq<char>)
    requires
        forall|i: int| 0 <= i < s.len() ==> crate::grammar::is_digit(#[trigger] s[i]),
    ensures
        spec_decimal_value(s) >= 0,
    decreases s.len(),
{
    if s.len() > 0 {
        lemma_decimal_value_nonneg(s.drop_last());
    }
}

/// A longer digit string denotes at least as large a number.
proof fn lemma_decimal_value_monotone(s: Seq<char>, k: int)
    requires
        forall|i: int| 0 <= i < s.len() ==> crate::grammar::is_digit(#[trigger] s[i]),
        0 <= k <= s.len(),
    ensures
        spec_decimal_value(s.take(k)) <= spec_decimal_value(s),
    decreases s.len() - k,
{
    if k < s.len() {
        lemma_decimal_value_monotone(s, k + 1);
        assert(s.take(k + 1).drop_last() =~= s.take(k));
        assert(s.take(k + 1).last() == s[k]);
        assert(forall|i: int|
            0 <= i < s.take(k).len() ==> crate::grammar::is_digit(#[trigger] s.take(k)[i]));
        lemma_decimal_value_nonneg(s.take(k));
    } else {
        assert(s.take(k) =~= s);
    }
}

/// Reads a decimal `u32` from text: one or more digits whose value
/// fits, and nothing else.
pub fn parse_u32(s: &str) -> (r: Option<u32>)
    ensures
        match r {
            Some(v) => spec_is_u32_decimal(s@) && v as int == spec_decimal_value(s@),
            None => !spec_is_u32_decimal(s@),
        },
{
    let n = s.unicode_len();
    if n == 0 {
        return None;
    }
    let mut acc: u64 = 0;
    let mut i: usize = 0;
    while i < n
        invariant
            i <= n,
            n == s@.len(),
            forall|j: int| 0 <= j < i ==> crate::grammar::is_digit(#[trigger] s@[j]),
            acc <= u32::MAX as u64,
            acc as int == spec_decimal_value(s@.take(i as int)),
        decreases n - i,
    {
        let c = s.get_char(i);
        let u = c as u32;
        if !(48 <= u && u <= 57) {
            return None;
        }
        let d = (u - 48) as u64;
        let next = acc * 10 + d;
        proof {
            assert(s@.take(i + 1).drop_last() =~= s@.take(i as int));
            assert(s@.take(i + 1).last() == s@[i as int]);
        }
        if next > u32::MAX as u64 {
            proof {
                if forall|j: int| 0 <= j < s@.len() ==> crate::grammar::is_digit(#[trigger] s@[j]) {
                    lemma_decimal_value_monotone(s@, i + 1);
                    assert(spec_decimal_value(s@) >= spec_decimal_value(s@.take(i + 1)));
                }
            }
            return None;
        }
        acc = next;
        i = i + 1;
    }
    proof {
        assert(s@.take(n as int) =~= s@);
    }
    Some(acc as u32)
}

/// The name of the parse of comma-delimited text: the records after
/// the header row, each a sequence of fields, or nothing where the
/// text is malformed. What the name denotes is fixed by the text
/// alone.
pub uninterp spec fn csv_records_of(text: Seq<char>) -> Option<Seq<Seq<Seq<char>>>>;

/// Relies on csv::Reader::from_reader and StringRecord: parses
/// comma-delimited text into one record per line, the first line
/// being a header row that is not returned. The outcome depends on
/// the text alone.
#[verifier::external_body]
fn parse_csv_records(text: &str) -> (r: Result<Vec<Vec<String>>, String>)
    ensures
        match r {
            Ok(rows) => csv_records_of(text@) == Some(rows.deep_view()),
            Err(_) => csv_records_of(text@) is None,
        },
{
    let mut reader = csv::Reader::from_reader(text.as_bytes());
    let mut rows: Vec<Vec<String>> = Vec::new();
    for result in reader.records() {
        match result {
            Ok(record) => rows.push(record.iter().map(String::from).collect()),
            Err(e) => return Err(e.to_string()),
        }
    }
    Ok(rows)
}

/// A record that yields a reply code: at least a code field and a
/// reply field, the code a decimal `u32`.
pub open spec fn spec_row_ok(row: Seq<Seq<char>>) -> bool {
    row.len() >= 2 && spec_is_u32_decimal(row[0])
}

/// Every record yields a reply code.
pub open spec fn spec_rows_ok(rows: Seq<Seq<Seq<char>>>) -> bool {
    forall|i: int| 0 <= i < rows.len() ==> spec_row_ok(#[trigger] rows[i])
}

/// The reply codes a sequence of well-formed records denotes.
pub open spec fn spec_reply_codes(rows: Seq<Seq<Seq<char>>>) -> Seq<ReplyCodeView> {
    Seq::new(
        rows.len(),
        |i: int|
            ReplyCodeView { code: spec_decimal_value(rows[i][0]) as u32, reply: rows[i][1] },
    )
}

/// Turns parsed records into reply codes: each record must hold a
/// decimal code and a reply text, and a record that does not is a
/// configuration error.
pub fn reply_codes_from_rows(rows: &Vec<Vec<String>>) -> (r: Result<Vec<ReplyCode>, ConfigReadError>)
    ensures
        match r {
            Ok(codes) => spec_rows_ok(rows.deep_view()) && codes.deep_view() == spec_reply_codes(
                rows.deep_view(),
            ),
            Err(_) => !spec_rows_ok(rows.deep_view()),
        },
{
    let ghost rv = rows.deep_view();
    let mut codes: Vec<ReplyCode> = Vec::new();
    let mut i: usize = 0;
    while i < rows.len()
        invariant
            i <= rows.len(),
            rv == rows.deep_view(),
            rv.len() == rows.len(),
            forall|t: int| 0 <= t < i ==> spec_row_ok(#[trigger] rv[t]),
            codes.deep_view().len() == i,
            forall|t: int| 0 <= t < i ==> codes.deep_view()[t] == spec_reply_codes(rv)[t],
        decreases rows.len() - i,
    {
        let row = &rows[i];
        proof {
            assert(rv[i as int] == row.deep_view());
            assert(rv[i as int].len() == row@.len());
        }
        if row.len() < 2 {
            proof {
                assert(!spec_row_ok(rv[i as int]));
            }
            return Err(ConfigReadError::new("reply code table", "invalid record"));
        }
        proof {
            assert(rv[i as int][0] == row.deep_view()[0]);
        }
        match parse_u32(row[0].as_str()) {
            Some(code) => {
                let ghost old_codes = codes.deep_view();
                codes.push(ReplyCode::new(code, row[1].as_str()));
                proof {
                    assert(codes.deep_view() =~= old_codes.push(
                        ReplyCodeView { code, reply: rv[i as int][1] },
                    ));
                }
            },
            None => {
                proof {
                    assert(!spec_row_ok(rv[i as int]));
                }
                return Err(ConfigReadError::new("reply code table", "invalid record"));
            },
        }
        i = i + 1;
    }
    proof {
        assert(codes.deep_view() =~= spec_reply_codes(rv));
    }
    Ok(codes)
}

/// Loads the reply-code table from comma-delimited text: the
/// records after the header row, each `code,reply`, in order.
/// Malformed delimited text and malformed records are configuration
/// errors, distinct from protocol decode errors.
pub fn generate_reply_codes(csv_text: &str) -> (r: Result<Vec<ReplyCode>, ConfigReadError>)
    ensures
        match r {
            Ok(codes) => csv_records_of(csv_text@) matches Some(rows) && spec_rows_ok(rows)
                && codes.deep_view() == spec_reply_codes(rows),
            Err(_) => csv_records_of(csv_text@) is None || (csv_records_of(csv_text@)
                matches Some(rows) && !spec_rows_ok(rows)),
        },
{
    match parse_csv_records(csv_text) {
        Ok(rows) => reply_codes_from_rows(&rows),
        Err(_) => Err(
            ConfigReadError::new("reply code table", "text is not well-formed delimited text"),
        ),
    }
}

} // verus!
