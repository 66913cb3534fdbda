//! Version numbers: the triple reported by a `clang` executable, and the
//! numeric tuples appended to shared-library filenames.

use vstd::prelude::*;
use crate::text::{
    all_digits, char_is_digit, dec_value, digit_value, find_first, find_sub,
    is_digit, lemma_dec_value_prefix, space_tokens, split_at_char, split_seq, str_chars, subvec,
    tokens_of,
};

verus! {

/// A three-component version number.
#[allow(non_snake_case)]
#[derive(Clone, Copy, Debug, PartialEq, Eq, Structural)]
pub struct CXVersion {
    /// The major version number.
    pub Major: i32,
    /// The minor version number.
    pub Minor: i32,
    /// The subminor version number.
    pub Subminor: i32,
}

/// The number of leading decimal digits of `s`.
pub open spec fn digit_prefix_len(s: Seq<char>) -> int
    decreases s.len(),
{
    if s.len() > 0 && char_is_digit(s[0]) {
        1 + digit_prefix_len(s.skip(1))
    } else {
        0
    }
}

/// The digit prefix is a prefix, and maximal.
pub proof fn lemma_digit_prefix_len(s: Seq<char>, k: int)
    requires
        0 <= k <= s.len(),
        forall|j: int| 0 <= j < k ==> char_is_digit(s[j]),
        k < s.len() ==> !char_is_digit(s[k]),
    ensures
        digit_prefix_len(s) == k,
    decreases k,
{
    if k == 0 {
    } else {
        lemma_digit_prefix_len(s.skip(1), k - 1);
    }
}

/// The value of the leading decimal digits of `s`, read as an `i32`:
/// absent digits, or a value above `i32::MAX`, give nothing.
pub open spec fn parse_number_spec(s: Seq<char>) -> Option<i32> {
    let k = digit_prefix_len(s);
    if k == 0 {
        None
    } else if dec_value(s.take(k)) > i32::MAX {
        None
    } else {
        Some(dec_value(s.take(k)) as i32)
    }
}

/// Parses the leading decimal digits of `s` as an `i32`, ignoring any
/// trailing non-digit characters.
pub fn parse_version_number(s: &Vec<char>) -> (r: Option<i32>)
    ensures
        r == parse_number_spec(s@),
{
    let n = s.len();
    let mut k: usize = 0;
    while k < n && is_digit(s[k])
        invariant
            k <= n,
            n == s@.len(),
            forall|j: int| 0 <= j < k ==> char_is_digit(s@[j]),
        decreases n - k,
    {
        k += 1;
    }
    proof {
        lemma_digit_prefix_len(s@, k as int);
    }
    if k == 0 {
        return None;
    }
    let mut acc: u64 = 0;
    let mut j: usize = 0;
    while j < k
        invariant
            j <= k <= s@.len(),
            k == digit_prefix_len(s@),
            k > 0,
            acc == dec_value(s@.take(j as int)),
            acc <= i32::MAX,
            forall|t: int| 0 <= t < k ==> char_is_digit(s@[t]),
        decreases k - j,
    {
        let c = s[j];
        let d: u64 = (c as u64) - 48;
        proof {
            assert(d == digit_value(c));
            assert(s@.take(j + 1).drop_last() =~= s@.take(j as int));
            assert(s@.take(j + 1).last() == s@[j as int]);
        }
        let next: u64 = acc * 10 + d;
        if next > 2147483647u64 {
            proof {
                lemma_dec_value_prefix(s@.take(k as int), j + 1);
                assert(s@.take(k as int).take(j + 1) =~= s@.take(j + 1));
            }
            return None;
        }
        acc = next;
        j += 1;
    }
    Some(acc as i32)
}

/// The version triple in the output of `clang --version`: the first
/// whitespace-separated token after the first `"version "` marker, read as
/// two or three dot-separated numbers; a missing or unreadable third
/// component counts as zero.
pub open spec fn parse_version_spec(output: Seq<char>) -> Option<CXVersion> {
    match find_first(output, "version "@) {
        None => None,
        Some(i) => {
            let toks = space_tokens(output.skip(i + "version "@.len() as int));
            if toks.len() == 0 {
                None
            } else {
                let pieces = split_seq(toks[0], '.');
                if pieces.len() < 2 {
                    None
                } else {
                    match (parse_number_spec(pieces[0]), parse_number_spec(pieces[1])) {
                        (Some(major), Some(minor)) => {
                            let subminor = if pieces.len() >= 3 {
                                match parse_number_spec(pieces[2]) {
                                    Some(s) => s,
                                    None => 0,
                                }
                            } else {
                                0
                            };
                            Some(CXVersion { Major: major, Minor: minor, Subminor: subminor })
                        },
                        _ => None,
                    }
                }
            }
        },
    }
}

/// Parses the version from the output of a `clang` executable if possible.
pub fn parse_version(output: &str) -> (r: Option<CXVersion>)
    ensures
        r == parse_version_spec(output@),
{
    let chars = str_chars(output);
    let marker = str_chars("version ");
    match find_sub(&chars, &marker) {
        None => None,
        Some(i) => {
            proof {
                crate::text::lemma_find_first_is_match(chars@, marker@);
            }
            let total = chars.len();
            let rest = subvec(&chars, i + marker.len(), total);
            proof {
                assert(rest@ =~= output@.skip(i + "version "@.len() as int));
            }
            let toks = tokens_of(&rest);
            if toks.len() == 0 {
                None
            } else {
                let pieces = split_at_char(&toks[0], '.');
                proof {
                    crate::text::lemma_split_seq_len(toks@[0]@, '.');
                }
                if pieces.len() < 2 {
                    None
                } else {
                    let major = parse_version_number(&pieces[0]);
                    let minor = parse_version_number(&pieces[1]);
                    match (major, minor) {
                        (Some(major), Some(minor)) => {
                            let subminor = if pieces.len() >= 3 {
                                match parse_version_number(&pieces[2]) {
                                    Some(s) => s,
                                    None => 0,
                                }
                            } else {
                                0
                            };
                            Some(CXVersion { Major: major, Minor: minor, Subminor: subminor })
                        },
                        _ => None,
                    }
                }
            }
        },
    }
}

/// Where the digits of a number start: after an optional `+` sign.
pub open spec fn spec_u32_start(s: Seq<char>) -> int {
    if s.len() > 0 && s[0] == '+' {
        1int
    } else {
        0int
    }
}

/// The digits of a number, after an optional `+` sign.
pub open spec fn spec_u32_body(s: Seq<char>) -> Seq<char> {
    s.skip(spec_u32_start(s))
}

/// The value of `s` read as a `u32` the way Rust's `parse` does — an
/// optional `+` sign followed by decimal digits — with anything
/// unreadable, or out of range, counting as zero.
pub open spec fn parse_u32_or_zero(s: Seq<char>) -> u32 {
    let body = spec_u32_body(s);
    if body.len() == 0 {
        0u32
    } else if !all_digits(body) {
        0u32
    } else if dec_value(body) > u32::MAX {
        0u32
    } else {
        dec_value(body) as u32
    }
}

/// The digit part is the tail of `s` after the sign position.
proof fn lemma_u32_body(s: Seq<char>, start: int)
    requires
        start == spec_u32_start(s),
    ensures
        spec_u32_body(s) == s.subrange(start, s.len() as int),
{
    assert(s.skip(spec_u32_start(s)) =~= s.subrange(start, s.len() as int));
}

/// Reads a whole digit string as a `u32`, with anything unreadable as zero.
fn parse_u32_component(s: &Vec<char>) -> (r: u32)
    ensures
        r == parse_u32_or_zero(s@),
{
    let n = s.len();
    let start: usize = if n > 0 && s[0] == '+' {
        1
    } else {
        0
    };
    proof {
        lemma_u32_body(s@, start as int);
    }
    let ghost body = s@.subrange(start as int, n as int);
    if start == n {
        return 0;
    }
    let mut j: usize = start;
    let mut acc: u64 = 0;
    while j < n
        invariant
            start <= j <= n,
            n == s@.len(),
            body == s@.subrange(start as int, n as int),
            spec_u32_body(s@) == body,
            start == spec_u32_start(s@),
            acc == dec_value(body.take(j - start as int)),
            acc <= u32::MAX,
            forall|t: int| start <= t < j ==> char_is_digit(s@[t]),
        decreases n - j,
    {
        let c = s[j];
        if !is_digit(c) {
            proof {
                assert(body[j - start as int] == s@[j as int]);
                assert(!all_digits(body));
            }
            return 0;
        }
        let d: u64 = (c as u64) - 48;
        proof {
            assert(d == digit_value(c));
            assert(body.take(j - start + 1).drop_last() =~= body.take(j - start as int));
            assert(body.take(j - start + 1).last() == body[j - start as int]);
            assert(body[j - start as int] == s@[j as int]);
        }
        let next: u64 = acc * 10 + d;
        if next > 4294967295u64 {
            proof {
                lemma_dec_value_prefix(body, j - start + 1);
                assert(dec_value(body) > u32::MAX);
            }
            return 0;
        }
        acc = next;
        j += 1;
    }
    proof {
        assert(body.take(n - start as int) =~= body);
        assert(all_digits(body));
    }
    acc as u32
}

/// The components of the version appended to a filename: the dot-separated
/// pieces of the path after the first two, each read as a number.
pub open spec fn filename_version_spec(path: Seq<char>) -> Seq<u32> {
    let pieces = split_seq(path, '.');
    if pieces.len() <= 2 {
        Seq::<u32>::empty()
    } else {
        pieces.skip(2).map_values(|p: Seq<char>| parse_u32_or_zero(p))
    }
}

/// Returns the components of the version appended to the supplied file path.
pub fn parse_filename_version(path: &str) -> (r: Vec<u32>)
    ensures
        r@ == filename_version_spec(path@),
{
    let chars = str_chars(path);
    let pieces = split_at_char(&chars, '.');
    let mut r: Vec<u32> = Vec::new();
    if pieces.len() <= 2 {
        return r;
    }
    let ghost tail = split_seq(path@, '.').skip(2);
    let mut k: usize = 2;
    while k < pieces.len()
        invariant
            2 <= k <= pieces@.len(),
            pieces@.len() == split_seq(path@, '.').len(),
            forall|t: int| 0 <= t < pieces@.len() ==> pieces@[t]@ == split_seq(path@, '.')[t],
            tail == split_seq(path@, '.').skip(2),
            r@.len() == k - 2,
            forall|t: int| 0 <= t < r@.len() ==> r@[t] == parse_u32_or_zero(tail[t]),
        decreases pieces@.len() - k,
    {
        let c = parse_u32_component(&pieces[k]);
        r.push(c);
        k += 1;
    }
    proof {
        assert(r@ =~= filename_version_spec(path@));
    }
    r
}

/// Strict lexicographic order on version tuples, as Rust orders vectors:
/// compare component by component, a missing component losing to any
/// present one.
pub open spec fn lex_less(a: Seq<u32>, b: Seq<u32>) -> bool
    decreases a.len(),
{
    if b.len() == 0 {
        false
    } else if a.len() == 0 {
        true
    } else if a[0] < b[0] {
        true
    } else if a[0] > b[0] {
        false
    } else {
        lex_less(a.skip(1), b.skip(1))
    }
}

/// Whether version tuple `a` orders strictly below `b`.
pub fn lex_less_vec(a: &Vec<u32>, b: &Vec<u32>) -> (r: bool)
    ensures
        r == lex_less(a@, b@),
{
    proof {
        assert(a@.skip(0) =~= a@);
        assert(b@.skip(0) =~= b@);
    }
    let mut i: usize = 0;
    loop
        invariant
            i <= a@.len(),
            i <= b@.len(),
            lex_less(a@, b@) == lex_less(a@.skip(i as int), b@.skip(i as int)),
        decreases a@.len() - i,
    {
        proof {
            assert(a@.skip(i as int).len() == a@.len() - i);
            assert(b@.skip(i as int).len() == b@.len() - i);
        }
        if i == b.len() {
            return false;
        }
        if i == a.len() {
            return true;
        }
        if a[i] < b[i] {
            return true;
        }
        if a[i] > b[i] {
            return false;
        }
        proof {
            assert(a@.skip(i as int).skip(1) =~= a@.skip(i + 1));
            assert(b@.skip(i as int).skip(1) =~= b@.skip(i + 1));
        }
        i += 1;
    }
}

/// `lex_less` is transitive.
pub proof fn lemma_lex_less_trans(a: Seq<u32>, b: Seq<u32>, c: Seq<u32>)
    requires
        lex_less(a, b),
        lex_less(b, c),
    ensures
        lex_less(a, c),
    decreases a.len() + b.len() + c.len(),
{
    if b.len() == 0 || c.len() == 0 {
    } else if a.len() == 0 {
    } else {
        if a[0] == b[0] && b[0] == c[0] {
            lemma_lex_less_trans(a.skip(1), b.skip(1), c.skip(1));
        }
    }
}

/// No version tuple orders below itself.
pub proof fn lemma_lex_irreflexive(a: Seq<u32>)
    ensures
        !lex_less(a, a),
    decreases a.len(),
{
    if a.len() > 0 {
        lemma_lex_irreflexive(a.skip(1));
    }
}

/// Any two version tuples are ordered, or equal.
pub proof fn lemma_lex_trichotomy(a: Seq<u32>, b: Seq<u32>)
    ensures
        lex_less(a, b) || lex_less(b, a) || a == b,
    decreases a.len(),
{
    if a.len() == 0 && b.len() == 0 {
        assert(a =~= b);
    } else if a.len() == 0 || b.len() == 0 {
    } else if a[0] == b[0] {
        lemma_lex_trichotomy(a.skip(1), b.skip(1));
        if !lex_less(a, b) && !lex_less(b, a) {
            assert(a.skip(1) == b.skip(1));
            assert(a =~= seq![a[0]] + a.skip(1));
            assert(b =~= seq![b[0]] + b.skip(1));
        }
    }
}

} // verus!
