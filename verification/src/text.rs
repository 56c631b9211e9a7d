//! Text helpers shared by the grammar parser and the codec engine:
//! finding characters and substrings, splitting and joining on a
//! separator, and ASCII-case-insensitive comparison.

use vstd::prelude::*;

verus! {

/// The index of the first occurrence of `c` in `s` at or after `i`,
/// or `s.len()` if there is none.
pub open spec fn spec_find(s: Seq<char>, i: int, c: char) -> int
    decreases s.len() - i,
{
    if i < 0 {
        -1
    } else if i >= s.len() {
        s.len() as int
    } else if s[i] == c {
        i
    } else {
        spec_find(s, i + 1, c)
    }
}

/// `spec_find` lands between its start and the length, on `c` if it
/// is below the length, and nothing before it is `c`.
pub proof fn lemma_find_props(s: Seq<char>, i: int, c: char)
    requires
        0 <= i <= s.len(),
    ensures
        i <= spec_find(s, i, c) <= s.len(),
        spec_find(s, i, c) < s.len() ==> s[spec_find(s, i, c)] == c,
        forall|j: int| i <= j < spec_find(s, i, c) ==> s[j] != c,
    decreases s.len() - i,
{
    if i < s.len() && s[i] != c {
        lemma_find_props(s, i + 1, c);
    }
}

/// Finds the first occurrence of `c` in `s` at or after `from`,
/// returning the length of `s` if there is none.
pub fn find_char(s: &str, from: usize, c: char) -> (r: usize)
    requires
        from <= s@.len(),
    ensures
        r == spec_find(s@, from as int, c),
        from <= r <= s@.len(),
        r < s@.len() ==> s@[r as int] == c,
        forall|j: int| from <= j < r ==> s@[j] != c,
{
    let n = s.unicode_len();
    let mut i = from;
    while i < n
        invariant
            from <= i <= n,
            n == s@.len(),
            spec_find(s@, from as int, c) == spec_find(s@, i as int, c),
            forall|j: int| from <= j < i ==> s@[j] != c,
        decreases n - i,
    {
        if s.get_char(i) == c {
            return i;
        }
        i = i + 1;
    }
    i
}

/// `spec_find` is pinned by exhibiting the first occurrence: no `c`
/// before `k`, and `c` at `k` unless `k` is the length.
pub proof fn lemma_find_at(s: Seq<char>, i: int, c: char, k: int)
    requires
        0 <= i <= k <= s.len(),
        forall|j: int| i <= j < k ==> s[j] != c,
        k < s.len() ==> s[k] == c,
    ensures
        spec_find(s, i, c) == k,
    decreases k - i,
{
    if i < k {
        lemma_find_at(s, i + 1, c, k);
    }
}

/// Character-for-character string equality.
pub fn str_eq(a: &str, b: &str) -> (r: bool)
    ensures
        r == (a@ == b@),
{
    let n = a.unicode_len();
    if n != b.unicode_len() {
        return false;
    }
    let mut i: usize = 0;
    while i < n
        invariant
            i <= n,
            n == a@.len() == b@.len(),
            forall|j: int| 0 <= j < i ==> a@[j] == b@[j],
        decreases n - i,
    {
        if a.get_char(i) != b.get_char(i) {
            return false;
        }
        i = i + 1;
    }
    proof {
        assert(a@ =~= b@);
    }
    true
}

/// The character's code point, with ASCII lower-case letters mapped
/// to their upper-case counterparts.
pub open spec fn upper_code(c: char) -> u32 {
    if 97 <= c as u32 && c as u32 <= 122 {
        (c as u32 - 32) as u32
    } else {
        c as u32
    }
}

/// Equality of two texts up to ASCII letter case.
pub open spec fn str_eq_ci(a: Seq<char>, b: Seq<char>) -> bool {
    a.len() == b.len() && forall|i: int|
        0 <= i < a.len() ==> upper_code(a[i]) == upper_code(#[trigger] b[i])
}

/// Compares two texts up to ASCII letter case.
pub fn eq_ignore_case(a: &str, b: &str) -> (r: bool)
    ensures
        r == str_eq_ci(a@, b@),
{
    let n = a.unicode_len();
    if n != b.unicode_len() {
        return false;
    }
    let mut i: usize = 0;
    while i < n
        invariant
            i <= n,
            n == a@.len() == b@.len(),
            forall|j: int| 0 <= j < i ==> upper_code(a@[j]) == upper_code(#[trigger] b@[j]),
        decreases n - i,
    {
        let ua = a.get_char(i) as u32;
        let ub = b.get_char(i) as u32;
        let ua = if 97 <= ua && ua <= 122 {
            ua - 32
        } else {
            ua
        };
        let ub = if 97 <= ub && ub <= 122 {
            ub - 32
        } else {
            ub
        };
        if ua != ub {
            return false;
        }
        i = i + 1;
    }
    true
}

/// The index of the first occurrence of `sep` in `s` at or after
/// `i`, if any.
pub open spec fn spec_find_sub(s: Seq<char>, sep: Seq<char>, i: int) -> Option<int>
    decreases s.len() - i,
{
    if i < 0 || sep.len() == 0 {
        None
    } else if i + sep.len() > s.len() {
        None
    } else if s.subrange(i, i + sep.len() as int) == sep {
        Some(i)
    } else {
        spec_find_sub(s, sep, i + 1)
    }
}

/// `spec_find_sub` finds a real occurrence, and the first one.
proof fn lemma_find_sub_props(s: Seq<char>, sep: Seq<char>, i: int)
    requires
        0 <= i <= s.len(),
        sep.len() >= 1,
    ensures
        match spec_find_sub(s, sep, i) {
            Some(k) => i <= k && k + sep.len() <= s.len() && s.subrange(k, k + sep.len() as int)
                == sep && forall|j: int|
                i <= j < k ==> #[trigger] s.subrange(j, j + sep.len() as int) != sep,
            None => forall|j: int|
                i <= j && j + sep.len() <= s.len() ==> #[trigger] s.subrange(
                    j,
                    j + sep.len() as int,
                ) != sep,
        },
    decreases s.len() - i,
{
    if i + sep.len() <= s.len() && s.subrange(i, i + sep.len() as int) != sep {
        lemma_find_sub_props(s, sep, i + 1);
    }
}

/// Finds the first occurrence of `sep` in `s` at or after `from`.
pub fn find_sub(s: &str, sep: &str, from: usize) -> (r: Option<usize>)
    requires
        from <= s@.len(),
        sep@.len() >= 1,
    ensures
        match r {
            Some(k) => spec_find_sub(s@, sep@, from as int) == Some(k as int),
            None => spec_find_sub(s@, sep@, from as int) is None,
        },
{
    let n = s.unicode_len();
    let m = sep.unicode_len();
    if m > n || from > n - m {
        return None;
    }
    let mut i = from;
    while i <= n - m
        invariant
            from <= i,
            i <= n - m + 1,
            m <= n,
            n == s@.len(),
            m == sep@.len(),
            m >= 1,
            spec_find_sub(s@, sep@, from as int) == spec_find_sub(s@, sep@, i as int),
        decreases n - i,
    {
        let mut k: usize = 0;
        let mut matches = true;
        while k < m
            invariant
                k <= m,
                i + m <= n,
                n == s@.len(),
                m == sep@.len(),
                matches == forall|j: int| 0 <= j < k ==> s@[i + j] == sep@[j],
            decreases m - k,
        {
            if s.get_char(i + k) != sep.get_char(k) {
                matches = false;
            }
            k = k + 1;
        }
        if matches {
            proof {
                assert(s@.subrange(i as int, i + m as int) =~= sep@);
            }
            return Some(i);
        }
        proof {
            let ghost w = choose|j: int| 0 <= j < m && s@[i + j] != sep@[j];
            assert(s@.subrange(i as int, i + m as int)[w] != sep@[w]);
            assert(s@.subrange(i as int, i + m as int) != sep@);
        }
        i = i + 1;
    }
    None
}

/// Splitting on a non-empty separator, with the leftmost occurrence
/// taken first; a text without the separator is one part.
pub open spec fn spec_split(s: Seq<char>, sep: Seq<char>) -> Seq<Seq<char>>
    decreases s.len(),
    via spec_split_decreases
{
    if sep.len() == 0 {
        seq![s]
    } else {
        match spec_find_sub(s, sep, 0) {
            None => seq![s],
            Some(k) => seq![s.take(k)] + spec_split(s.subrange(k + sep.len() as int, s.len() as int), sep),
        }
    }
}

#[via_fn]
proof fn spec_split_decreases(s: Seq<char>, sep: Seq<char>) {
    if sep.len() >= 1 {
        lemma_find_sub_props(s, sep, 0);
    }
}

/// Splits a text on a non-empty separator.
pub fn split_string(s: &str, sep: &str) -> (r: Vec<String>)
    requires
        sep@.len() >= 1,
    ensures
        r.deep_view() == spec_split(s@, sep@),
{
    let mut parts: Vec<String> = Vec::new();
    let mut rem: &str = s;
    loop
        invariant
            sep@.len() >= 1,
            spec_split(s@, sep@) == parts.deep_view() + spec_split(rem@, sep@),
        decreases rem@.len(),
    {
        proof {
            lemma_find_sub_props(rem@, sep@, 0);
        }
        let ghost old_parts = parts.deep_view();
        match find_sub(rem, sep, 0) {
            None => {
                parts.push(rem.to_owned());
                proof {
                    assert(spec_split(rem@, sep@) =~= seq![rem@]);
                    assert(parts.deep_view() =~= old_parts.push(rem@));
                    assert(parts.deep_view() =~= old_parts + spec_split(rem@, sep@));
                }
                return parts;
            },
            Some(k) => {
                let part = rem.substring_char(0, k);
                parts.push(part.to_owned());
                let rlen = rem.unicode_len();
                let next = rem.substring_char(k + sep.unicode_len(), rlen);
                proof {
                    assert(part@ =~= rem@.take(k as int));
                    assert(parts.deep_view() =~= old_parts.push(rem@.take(k as int)));
                    assert(spec_split(rem@, sep@) == seq![rem@.take(k as int)] + spec_split(
                        next@,
                        sep@,
                    ));
                    assert(parts.deep_view() + spec_split(next@, sep@) =~= old_parts + spec_split(
                        rem@,
                        sep@,
                    ));
                }
                rem = next;
            },
        }
    }
}

/// Joining parts with a separator between each neighbouring pair.
pub open spec fn spec_join(parts: Seq<Seq<char>>, sep: Seq<char>) -> Seq<char>
    decreases parts.len(),
{
    if parts.len() == 0 {
        Seq::empty()
    } else if parts.len() == 1 {
        parts[0]
    } else {
        parts[0] + sep + spec_join(parts.drop_first(), sep)
    }
}

/// Joining one more part appends the separator (except to the first
/// part) and then the part.
proof fn lemma_join_take(parts: Seq<Seq<char>>, sep: Seq<char>, i: int)
    requires
        0 <= i < parts.len(),
    ensures
        i == 0 ==> spec_join(parts.take(1), sep) =~= parts[0],
        i > 0 ==> spec_join(parts.take(i + 1), sep) =~= spec_join(parts.take(i), sep) + sep
            + parts[i],
    decreases i,
{
    if i == 0 {
        assert(parts.take(1).len() == 1);
        assert(parts.take(1)[0] == parts[0]);
    } else {
        lemma_join_take(parts.drop_first(), sep, i - 1);
        assert(parts.take(i + 1).drop_first() =~= parts.drop_first().take(i));
        assert(parts.take(i).drop_first() =~= parts.drop_first().take(i - 1));
        assert(parts.take(i + 1)[0] == parts[0]);
        assert(parts.take(i)[0] == parts[0]);
        if i == 1 {
            assert(spec_join(parts.take(2), sep) == parts[0] + sep + spec_join(
                parts.take(2).drop_first(),
                sep,
            ));
            assert(spec_join(parts.drop_first().take(1), sep) == parts.drop_first()[0]);
        } else {
            assert(spec_join(parts.take(i + 1), sep) == parts[0] + sep + spec_join(
                parts.drop_first().take(i),
                sep,
            ));
            assert(spec_join(parts.take(i), sep) == parts[0] + sep + spec_join(
                parts.drop_first().take(i - 1),
                sep,
            ));
        }
    }
}

/// Joins parts with a separator between each neighbouring pair.
pub fn join_strings(parts: &Vec<String>, sep: &str) -> (r: String)
    ensures
        r@ == spec_join(parts.deep_view(), sep@),
{
    let mut out = String::new();
    let mut i: usize = 0;
    while i < parts.len()
        invariant
            i <= parts.len(),
            out@ == spec_join(parts.deep_view().take(i as int), sep@),
        decreases parts.len() - i,
    {
        if i > 0 {
            out.append(sep);
        }
        out.append(parts[i].as_str());
        proof {
            lemma_join_take(parts.deep_view(), sep@, i as int);
        }
        i = i + 1;
    }
    proof {
        assert(parts.deep_view().take(parts.len() as int) =~= parts.deep_view());
    }
    out
}

/// Splitting and rejoining on the same non-empty separator gives
/// the original text back.
pub proof fn lemma_join_split(s: Seq<char>, sep: Seq<char>)
    requires
        sep.len() >= 1,
    ensures
        spec_join(spec_split(s, sep), sep) =~= s,
    decreases s.len(),
{
    lemma_find_sub_props(s, sep, 0);
    match spec_find_sub(s, sep, 0) {
        None => {},
        Some(k) => {
            let rest = s.subrange(k + sep.len() as int, s.len() as int);
            lemma_join_split(rest, sep);
            let sp = spec_split(s, sep);
            assert(sp == seq![s.take(k)] + spec_split(rest, sep));
            assert(spec_split(rest, sep).len() >= 1);
            assert(sp.len() >= 2);
            assert(sp[0] == s.take(k));
            assert(sp.drop_first() =~= spec_split(rest, sep));
            assert(spec_join(sp, sep) == s.take(k) + sep + spec_join(spec_split(rest, sep), sep));
            assert(s.take(k) + sep + rest =~= s);
        },
    }
}

} // verus!
