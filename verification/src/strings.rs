//! Verified character-level utilities used by the works-feed parser:
//! equality, first-occurrence search, prefix/suffix stripping, key/value
//! splitting and line splitting, all specified over `Seq<char>`.
use vstd::prelude::*;

verus! {

use vstd::string::StrSliceExecFns;

/// Index of the first occurrence of `c` in `s` at or after `from`,
/// or `-1` when there is none.
pub open spec fn find_char_from(s: Seq<char>, c: char, from: int) -> int
    decreases s.len() - from,
    when 0 <= from
{
    if from >= s.len() {
        -1
    } else if s[from] == c {
        from
    } else {
        find_char_from(s, c, from + 1)
    }
}

/// Index of the first occurrence of `c` in `s`, or `-1`.
pub open spec fn find_char(s: Seq<char>, c: char) -> int {
    find_char_from(s, c, 0)
}

/// `find_char_from` returns either `-1` and no occurrence exists at or
/// after `from`, or the least index of an occurrence.
pub proof fn lemma_find_char_from(s: Seq<char>, c: char, from: int)
    requires
        0 <= from <= s.len(),
    ensures
        find_char_from(s, c, from) == -1 ==> (forall|j: int|
            from <= j < s.len() ==> s[j] != c),
        find_char_from(s, c, from) != -1 ==> {
            let r = find_char_from(s, c, from);
            &&& from <= r < s.len()
            &&& s[r] == c
            &&& forall|j: int| from <= j < r ==> s[j] != c
        },
    decreases s.len() - from,
{
    if from < s.len() && s[from] != c {
        lemma_find_char_from(s, c, from + 1);
    }
}

/// First occurrence of `c` in `s` at or after `from`, executable form.
pub fn find_char_in_str_from(s: &str, c: char, from: usize) -> (r: Option<usize>)
    requires
        from <= s@.len(),
    ensures
        match r {
            Some(i) => i == find_char_from(s@, c, from as int) && from <= i < s@.len(),
            None => find_char_from(s@, c, from as int) == -1,
        },
{
    let n = s.unicode_len();
    let mut i: usize = from;
    while i < n
        invariant
            from <= i <= n,
            n == s@.len(),
            forall|j: int| from <= j < i ==> s@[j] != c,
        decreases n - i,
    {
        if s.get_char(i) == c {
            proof {
                lemma_find_char_from(s@, c, from as int);
            }
            return Some(i);
        }
        i += 1;
    }
    proof {
        lemma_find_char_from(s@, c, from as int);
    }
    None
}

/// Whether the character sequences of two string slices are equal.
pub fn str_eq(a: &str, b: &str) -> (r: bool)
    ensures
        r == (a@ == b@),
{
    let na = a.unicode_len();
    let nb = b.unicode_len();
    if na != nb {
        return false;
    }
    let mut i: usize = 0;
    while i < na
        invariant
            i <= na,
            na == a@.len(),
            na == b@.len(),
            forall|j: int| 0 <= j < i ==> a@[j] == b@[j],
        decreases na - i,
    {
        if a.get_char(i) != b.get_char(i) {
            return false;
        }
        i += 1;
    }
    proof {
        assert(a@ =~= b@);
    }
    true
}

/// `s` without a single leading `c`, when it has one.
pub open spec fn strip_prefix_ch(s: Seq<char>, c: char) -> Seq<char> {
    if s.len() > 0 && s[0] == c {
        s.drop_first()
    } else {
        s
    }
}

/// `s` without a single trailing `c`, when it has one.
pub open spec fn strip_suffix_ch(s: Seq<char>, c: char) -> Seq<char> {
    if s.len() > 0 && s.last() == c {
        s.drop_last()
    } else {
        s
    }
}

/// Executable form of `strip_prefix_ch`.
pub fn strip_prefix_char(s: &str, c: char) -> (r: String)
    ensures
        r@ == strip_prefix_ch(s@, c),
{
    let n = s.unicode_len();
    if n > 0 && s.get_char(0) == c {
        let rest = s.substring_char(1, n);
        proof {
            assert(s@.subrange(1, n as int) =~= s@.drop_first());
        }
        rest.to_owned()
    } else {
        s.to_owned()
    }
}

/// Executable form of `strip_suffix_ch`.
pub fn strip_suffix_char(s: &str, c: char) -> (r: String)
    ensures
        r@ == strip_suffix_ch(s@, c),
{
    let n = s.unicode_len();
    if n > 0 && s.get_char(n - 1) == c {
        let rest = s.substring_char(0, n - 1);
        proof {
            assert(s@.subrange(0, n as int - 1) =~= s@.drop_last());
        }
        rest.to_owned()
    } else {
        s.to_owned()
    }
}

/// The strips the parser applies to each key and each value, in order:
/// a leading comma, then a leading quote, then a trailing quote.
pub open spec fn clean_token(s: Seq<char>) -> Seq<char> {
    strip_suffix_ch(strip_prefix_ch(strip_prefix_ch(s, ','), '"'), '"')
}

/// Executable form of `clean_token`.
pub fn clean(s: &str) -> (r: String)
    ensures
        r@ == clean_token(s@),
{
    let a = strip_prefix_char(s, ',');
    let b = strip_prefix_char(a.as_str(), '"');
    strip_suffix_char(b.as_str(), '"')
}

/// A data line split on its first `:`, both sides cleaned; `None` when
/// the line holds no `:`.
pub open spec fn spec_key_value(s: Seq<char>) -> Option<(Seq<char>, Seq<char>)> {
    let i = find_char(s, ':');
    if i < 0 {
        None
    } else {
        Some((clean_token(s.subrange(0, i)), clean_token(s.subrange(i + 1, s.len() as int))))
    }
}

/// Executable form of `spec_key_value`.
pub fn split_key_value(s: &str) -> (r: Option<(String, String)>)
    ensures
        match r {
            Some(kv) => {
                &&& spec_key_value(s@) is Some
                &&& (kv.0@, kv.1@) == spec_key_value(s@).unwrap()
            },
            None => spec_key_value(s@) is None,
        },
{
    match find_char_in_str_from(s, ':', 0) {
        None => None,
        Some(i) => {
            let n = s.unicode_len();
            let key_raw = s.substring_char(0, i);
            let value_raw = s.substring_char(i + 1, n);
            let key = clean(key_raw);
            let value = clean(value_raw);
            Some((key, value))
        },
    }
}

/// Whether `s` ends with the character `c`.
pub fn ends_with_char(s: &str, c: char) -> (r: bool)
    ensures
        r == (s@.len() > 0 && s@.last() == c),
{
    let n = s.unicode_len();
    n > 0 && s.get_char(n - 1) == c
}

/// Whether `s` starts with the character `c`.
pub fn starts_with_char(s: &str, c: char) -> (r: bool)
    ensures
        r == (s@.len() > 0 && s@[0] == c),
{
    let n = s.unicode_len();
    n > 0 && s.get_char(0) == c
}

/// The lines of `s`: split at each newline, a carriage return directly
/// before a newline is dropped, and a final line ending is optional.
pub open spec fn spec_lines(s: Seq<char>) -> Seq<Seq<char>>
    decreases s.len(),
    via spec_lines_decreases
{
    if s.len() == 0 {
        Seq::empty()
    } else {
        let i = find_char(s, '\n');
        if i < 0 {
            seq![s]
        } else {
            seq![strip_suffix_ch(s.subrange(0, i), '\r')] + spec_lines(
                s.subrange(i + 1, s.len() as int),
            )
        }
    }
}

#[via_fn]
proof fn spec_lines_decreases(s: Seq<char>) {
    if s.len() > 0 {
        lemma_find_char_from(s, '\n', 0);
    }
}

/// `find_char` on a suffix agrees with `find_char_from` on the whole.
proof fn lemma_find_char_shift(s: Seq<char>, c: char, from: int)
    requires
        0 <= from <= s.len(),
    ensures
        find_char(s.subrange(from, s.len() as int), c) == if find_char_from(s, c, from) == -1 {
            -1int
        } else {
            find_char_from(s, c, from) - from
        },
{
    let suffix = s.subrange(from, s.len() as int);
    lemma_find_char_from(s, c, from);
    lemma_find_char_from(suffix, c, 0);
    let r = find_char_from(s, c, from);
    let rs = find_char(suffix, c);
    if r == -1 {
        if rs != -1 {
            assert(s[from + rs] == c);
        }
    } else {
        assert(suffix[r - from] == c);
        if rs == -1 {
        } else {
            if rs < r - from {
                assert(s[from + rs] == c);
            }
            if rs > r - from {
                assert(suffix[r - from] != c);
            }
        }
    }
}

/// Executable form of `spec_lines`.
pub fn str_lines(content: &str) -> (r: Vec<String>)
    ensures
        r.deep_view() == spec_lines(content@),
{
    let n = content.unicode_len();
    let mut out: Vec<String> = Vec::new();
    let mut pos: usize = 0;
    proof {
        assert(content@.subrange(0, n as int) =~= content@);
        assert(out.deep_view() + spec_lines(content@) =~~= spec_lines(content@));
    }
    while pos < n
        invariant
            pos <= n,
            n == content@.len(),
            spec_lines(content@) == out.deep_view() + spec_lines(
                content@.subrange(pos as int, n as int),
            ),
        decreases n - pos,
    {
        let ghost suffix = content@.subrange(pos as int, n as int);
        match find_char_in_str_from(content, '\n', pos) {
            None => {
                let line = content.substring_char(pos, n).to_owned();
                out.push(line);
                proof {
                    lemma_find_char_shift(content@, '\n', pos as int);
                    assert(out.deep_view() =~~= spec_lines(content@));
                }
                pos = n;
            },
            Some(j) => {
                let raw = content.substring_char(pos, j);
                let line = strip_suffix_char(raw, '\r');
                out.push(line);
                proof {
                    lemma_find_char_shift(content@, '\n', pos as int);
                    assert(suffix.subrange(0, j - pos as int) =~= content@.subrange(
                        pos as int,
                        j as int,
                    ));
                    assert(suffix.subrange(j - pos as int + 1, suffix.len() as int)
                        =~= content@.subrange(j as int + 1, n as int));
                    assert(spec_lines(content@) =~~= out.deep_view() + spec_lines(
                        content@.subrange(j as int + 1, n as int),
                    ));
                }
                pos = j + 1;
            },
        }
    }
    proof {
        assert(content@.subrange(n as int, n as int) =~= Seq::<char>::empty());
        assert(out.deep_view() =~~= spec_lines(content@));
    }
    out
}

} // verus!
