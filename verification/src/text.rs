//! Character-level scanning helpers shared by the parsers in this crate.
//!
//! Executable code works on `Vec<char>` buffers; every contract is stated
//! over the corresponding `Seq<char>`.

use vstd::prelude::*;
use vstd::string::StrSliceExecFns;

verus! {

/// The ASCII characters that `char::is_whitespace` accepts.
pub open spec fn char_is_space(c: char) -> bool {
    c == ' ' || c == '\t' || c == '\n' || c == '\r' || c == '\u{b}' || c == '\u{c}'
}

/// Whether `c` is an ASCII whitespace character.
#[verifier::when_used_as_spec(char_is_space)]
pub fn is_space(c: char) -> (r: bool)
    ensures
        r == char_is_space(c),
{
    c == ' ' || c == '\t' || c == '\n' || c == '\r' || c == '\u{b}' || c == '\u{c}'
}

/// The decimal digits.
pub open spec fn char_is_digit(c: char) -> bool {
    '0' <= c && c <= '9'
}

/// Whether `c` is a decimal digit.
#[verifier::when_used_as_spec(char_is_digit)]
pub fn is_digit(c: char) -> (r: bool)
    ensures
        r == char_is_digit(c),
{
    '0' <= c && c <= '9'
}

/// The numeric value of a decimal digit.
pub open spec fn digit_value(c: char) -> nat {
    (c as nat - '0' as nat) as nat
}

/// The characters of `s` as a vector.
pub fn str_chars(s: &str) -> (r: Vec<char>)
    ensures
        r@ == s@,
{
    let n = s.unicode_len();
    let mut r: Vec<char> = Vec::new();
    let mut i: usize = 0;
    while i < n
        invariant
            i <= n,
            n == s@.len(),
            r@ == s@.subrange(0, i as int),
        decreases n - i,
    {
        r.push(s.get_char(i));
        i += 1;
    }
    proof {
        assert(s@.subrange(0, n as int) =~= s@);
    }
    r
}

/// Relies on std's `String::push`: appends one character to the string.
#[verifier::external_body]
pub(crate) fn push_char(s: &mut String, c: char)
    ensures
        final(s)@ == old(s)@.push(c),
{
    s.push(c);
}

/// The characters of `v`, collected into a `String`.
pub fn chars_to_string(v: &Vec<char>) -> (r: String)
    ensures
        r@ == v@,
{
    let mut r = String::new();
    let mut i: usize = 0;
    while i < v.len()
        invariant
            i <= v@.len(),
            r@ == v@.subrange(0, i as int),
        decreases v@.len() - i,
    {
        push_char(&mut r, v[i]);
        proof {
            assert(v@.subrange(0, i as int).push(v@[i as int]) =~= v@.subrange(0, i + 1));
        }
        i += 1;
    }
    proof {
        assert(v@.subrange(0, v@.len() as int) =~= v@);
    }
    r
}

/// The characters of `v` between positions `from` and `to`.
pub fn subvec(v: &Vec<char>, from: usize, to: usize) -> (r: Vec<char>)
    requires
        from <= to <= v@.len(),
    ensures
        r@ == v@.subrange(from as int, to as int),
{
    let mut r: Vec<char> = Vec::new();
    let mut i: usize = from;
    while i < to
        invariant
            from <= i <= to <= v@.len(),
            r@ == v@.subrange(from as int, i as int),
        decreases to - i,
    {
        r.push(v[i]);
        proof {
            assert(v@.subrange(from as int, i as int).push(v@[i as int]) =~= v@.subrange(
                from as int,
                i + 1,
            ));
        }
        i += 1;
    }
    r
}

/// Whether two strings hold the same characters.
pub fn str_eq(a: &str, b: &str) -> (r: bool)
    ensures
        r == (a@ == b@),
{
    let n = a.unicode_len();
    let m = b.unicode_len();
    if n != m {
        proof {
            assert(a@ != b@);
        }
        return false;
    }
    let mut i: usize = 0;
    while i < n
        invariant
            i <= n,
            n == a@.len(),
            n == b@.len(),
            forall|k: int| 0 <= k < i ==> a@[k] == b@[k],
        decreases n - i,
    {
        if a.get_char(i) != b.get_char(i) {
            return false;
        }
        i += 1;
    }
    proof {
        assert(a@ =~= b@);
    }
    true
}

/// `needle` occurs in `hay` starting at position `i`.
pub open spec fn match_at(hay: Seq<char>, needle: Seq<char>, i: int) -> bool {
    &&& 0 <= i
    &&& i + needle.len() <= hay.len()
    &&& hay.subrange(i, i + needle.len() as int) == needle
}

/// The position of the first occurrence of `needle` in `hay`, if any.
pub open spec fn find_first(hay: Seq<char>, needle: Seq<char>) -> Option<int>
    decreases hay.len(),
{
    if match_at(hay, needle, 0) {
        Some(0int)
    } else if hay.len() == 0 {
        None
    } else {
        match find_first(hay.skip(1), needle) {
            Some(i) => Some(i + 1),
            None => None,
        }
    }
}

/// Whether `needle` occurs in `hay` starting at `i`.
pub fn matches_at(hay: &Vec<char>, needle: &Vec<char>, i: usize) -> (r: bool)
    requires
        i + needle@.len() <= hay@.len(),
    ensures
        r == match_at(hay@, needle@, i as int),
{
    let hlen = hay.len();
    let mut j: usize = 0;
    while j < needle.len()
        invariant
            j <= needle@.len(),
            i + needle@.len() <= hay@.len(),
            hlen == hay@.len(),
            forall|k: int| 0 <= k < j ==> hay@[i + k] == needle@[k],
        decreases needle@.len() - j,
    {
        if hay[i + j] != needle[j] {
            proof {
                assert(hay@.subrange(i as int, i + needle@.len() as int)[j as int] == hay@[i
                    + j]);
            }
            return false;
        }
        j += 1;
    }
    proof {
        assert(hay@.subrange(i as int, i + needle@.len() as int) =~= needle@);
    }
    true
}

/// The first occurrence of `needle` in `hay` at or after `from`,
/// as an offset into `hay.skip(from)`.
fn find_from(hay: &Vec<char>, needle: &Vec<char>, from: usize) -> (r: Option<usize>)
    requires
        from <= hay@.len(),
    ensures
        match r {
            Some(i) => Some(i as int) == find_first(hay@.skip(from as int), needle@),
            None => find_first(hay@.skip(from as int), needle@) is None,
        },
    decreases hay@.len() - from,
{
    let ghost tail = hay@.skip(from as int);
    if needle.len() <= hay.len() - from && matches_at(hay, needle, from) {
        proof {
            assert(tail.subrange(0, needle@.len() as int) =~= hay@.subrange(
                from as int,
                from + needle@.len() as int,
            ));
        }
        Some(0)
    } else {
        proof {
            if needle@.len() <= tail.len() {
                assert(tail.subrange(0, needle@.len() as int) =~= hay@.subrange(
                    from as int,
                    from + needle@.len() as int,
                ));
            }
            assert(!match_at(tail, needle@, 0));
        }
        if from == hay.len() {
            None
        } else {
            let rec = find_from(hay, needle, from + 1);
            proof {
                assert(tail.skip(1) =~= hay@.skip(from + 1));
            }
            match rec {
                Some(i) => {
                    proof {
                        lemma_find_first_is_match(hay@.skip(from + 1), needle@);
                        assert(i + needle@.len() <= hay@.skip(from + 1).len());
                    }
                    Some(i + 1)
                },
                None => None,
            }
        }
    }
}

/// The position of the first occurrence of `needle` in `hay`, if any.
pub fn find_sub(hay: &Vec<char>, needle: &Vec<char>) -> (r: Option<usize>)
    ensures
        match r {
            Some(i) => Some(i as int) == find_first(hay@, needle@),
            None => find_first(hay@, needle@) is None,
        },
{
    let r = find_from(hay, needle, 0);
    proof {
        assert(hay@.skip(0) =~= hay@);
    }
    r
}

/// `s` with every occurrence of `needle` removed, scanning left to right
/// without overlap.
pub open spec fn remove_all(s: Seq<char>, needle: Seq<char>) -> Seq<char>
    decreases s.len(),
{
    if needle.len() == 0 {
        s
    } else if match_at(s, needle, 0) {
        remove_all(s.skip(needle.len() as int), needle)
    } else if s.len() == 0 {
        s
    } else {
        seq![s[0]] + remove_all(s.skip(1), needle)
    }
}

/// `v` from position `i` on, with every occurrence of `needle` removed.
fn remove_from(v: &Vec<char>, needle: &Vec<char>, i: usize) -> (r: Vec<char>)
    requires
        needle@.len() > 0,
        i <= v@.len(),
    ensures
        r@ == remove_all(v@.skip(i as int), needle@),
    decreases v@.len() - i,
{
    let ghost tail = v@.skip(i as int);
    if needle.len() <= v.len() - i && matches_at(v, needle, i) {
        proof {
            assert(tail.subrange(0, needle@.len() as int) =~= v@.subrange(
                i as int,
                i + needle@.len() as int,
            ));
            assert(tail.skip(needle@.len() as int) =~= v@.skip(i + needle@.len()));
        }
        remove_from(v, needle, i + needle.len())
    } else {
        proof {
            if needle@.len() <= tail.len() {
                assert(tail.subrange(0, needle@.len() as int) =~= v@.subrange(
                    i as int,
                    i + needle@.len() as int,
                ));
            }
            assert(!match_at(tail, needle@, 0));
        }
        if i == v.len() {
            Vec::new()
        } else {
            let mut r = remove_from(v, needle, i + 1);
            r.insert(0, v[i]);
            proof {
                assert(tail.skip(1) =~= v@.skip(i + 1));
                assert(r@ =~= seq![tail[0]] + remove_all(v@.skip(i + 1), needle@));
            }
            r
        }
    }
}

/// `v` with every occurrence of `needle` removed.
pub fn remove_all_sub(v: &Vec<char>, needle: &Vec<char>) -> (r: Vec<char>)
    requires
        needle@.len() > 0,
    ensures
        r@ == remove_all(v@, needle@),
{
    let r = remove_from(v, needle, 0);
    proof {
        assert(v@.skip(0) =~= v@);
    }
    r
}

/// `s` divided at every occurrence of `sep`; a separator at either end or
/// two adjacent separators give an empty piece.
pub open spec fn split_seq(s: Seq<char>, sep: char) -> Seq<Seq<char>>
    decreases s.len(),
{
    if s.len() == 0 {
        seq![Seq::<char>::empty()]
    } else if s[0] == sep {
        seq![Seq::<char>::empty()] + split_seq(s.skip(1), sep)
    } else {
        let rest = split_seq(s.skip(1), sep);
        seq![seq![s[0]] + rest[0]] + rest.skip(1)
    }
}

/// `split_seq` always yields at least one piece.
pub proof fn lemma_split_seq_len(s: Seq<char>, sep: char)
    ensures
        split_seq(s, sep).len() >= 1,
    decreases s.len(),
{
    if s.len() == 0 {
    } else {
        lemma_split_seq_len(s.skip(1), sep);
    }
}

/// The pieces of `v` from position `i` on, divided at `sep`.
fn split_from(v: &Vec<char>, sep: char, i: usize) -> (r: Vec<Vec<char>>)
    requires
        i <= v@.len(),
    ensures
        r@.len() == split_seq(v@.skip(i as int), sep).len(),
        forall|k: int|
            0 <= k < r@.len() ==> r@[k]@ == split_seq(v@.skip(i as int), sep)[k],
    decreases v@.len() - i,
{
    let ghost tail = v@.skip(i as int);
    if i == v.len() {
        let mut r: Vec<Vec<char>> = Vec::new();
        r.push(Vec::new());
        proof {
            assert(r@[0]@ =~= Seq::<char>::empty());
        }
        r
    } else {
        let mut rest = split_from(v, sep, i + 1);
        proof {
            assert(tail.skip(1) =~= v@.skip(i + 1));
            lemma_split_seq_len(v@.skip(i + 1), sep);
        }
        if v[i] == sep {
            rest.insert(0, Vec::new());
            proof {
                assert(rest@[0]@ =~= Seq::<char>::empty());
            }
            rest
        } else {
            let mut first = rest.remove(0);
            first.insert(0, v[i]);
            rest.insert(0, first);
            proof {
                let m = split_seq(tail, sep);
                assert(rest@[0]@ =~= m[0]);
                assert(forall|k: int| 1 <= k < rest@.len() ==> rest@[k]@ == m[k]);
            }
            rest
        }
    }
}

/// The pieces of `v`, divided at `sep`.
pub fn split_at_char(v: &Vec<char>, sep: char) -> (r: Vec<Vec<char>>)
    ensures
        r@.len() == split_seq(v@, sep).len(),
        forall|k: int| 0 <= k < r@.len() ==> r@[k]@ == split_seq(v@, sep)[k],
{
    let r = split_from(v, sep, 0);
    proof {
        assert(v@.skip(0) =~= v@);
    }
    r
}

/// The maximal runs of non-whitespace characters in `s`, in order.
pub open spec fn space_tokens(s: Seq<char>) -> Seq<Seq<char>>
    decreases s.len(),
{
    if s.len() == 0 {
        Seq::<Seq<char>>::empty()
    } else if char_is_space(s[0]) {
        space_tokens(s.skip(1))
    } else {
        let rest = space_tokens(s.skip(1));
        if s.len() > 1 && !char_is_space(s[1]) {
            seq![seq![s[0]] + rest[0]] + rest.skip(1)
        } else {
            seq![seq![s[0]]] + rest
        }
    }
}

/// When the text starts with a non-space character, the first token is
/// non-empty, so the token list is, too.
pub proof fn lemma_space_tokens_len(s: Seq<char>)
    requires
        s.len() > 0,
        !char_is_space(s[0]),
    ensures
        space_tokens(s).len() >= 1,
{
}

/// The whitespace-separated tokens of `v` from position `i` on.
fn tokens_from(v: &Vec<char>, i: usize) -> (r: Vec<Vec<char>>)
    requires
        i <= v@.len(),
    ensures
        r@.len() == space_tokens(v@.skip(i as int)).len(),
        forall|k: int|
            0 <= k < r@.len() ==> r@[k]@ == space_tokens(v@.skip(i as int))[k],
    decreases v@.len() - i,
{
    let ghost tail = v@.skip(i as int);
    if i == v.len() {
        Vec::new()
    } else {
        let mut rest = tokens_from(v, i + 1);
        proof {
            assert(tail.skip(1) =~= v@.skip(i + 1));
        }
        if is_space(v[i]) {
            rest
        } else {
            if i + 1 < v.len() && !is_space(v[i + 1]) {
                proof {
                    lemma_space_tokens_len(v@.skip(i + 1));
                }
                let mut first = rest.remove(0);
                first.insert(0, v[i]);
                rest.insert(0, first);
                proof {
                    let m = space_tokens(tail);
                    assert(rest@[0]@ =~= m[0]);
                    assert(forall|k: int| 1 <= k < rest@.len() ==> rest@[k]@ == m[k]);
                }
                rest
            } else {
                let mut single: Vec<char> = Vec::new();
                single.push(v[i]);
                rest.insert(0, single);
                proof {
                    let m = space_tokens(tail);
                    assert(rest@[0]@ =~= m[0]);
                }
                rest
            }
        }
    }
}

/// The whitespace-separated tokens of `v`.
pub fn tokens_of(v: &Vec<char>) -> (r: Vec<Vec<char>>)
    ensures
        r@.len() == space_tokens(v@).len(),
        forall|k: int| 0 <= k < r@.len() ==> r@[k]@ == space_tokens(v@)[k],
{
    let r = tokens_from(v, 0);
    proof {
        assert(v@.skip(0) =~= v@);
    }
    r
}

/// `s` without leading whitespace.
pub open spec fn trim_left(s: Seq<char>) -> Seq<char>
    decreases s.len(),
{
    if s.len() > 0 && char_is_space(s[0]) {
        trim_left(s.skip(1))
    } else {
        s
    }
}

/// `s` without trailing whitespace.
pub open spec fn trim_right(s: Seq<char>) -> Seq<char>
    decreases s.len(),
{
    if s.len() > 0 && char_is_space(s.last()) {
        trim_right(s.drop_last())
    } else {
        s
    }
}

/// `s` without leading or trailing whitespace.
pub open spec fn trim_spec(s: Seq<char>) -> Seq<char> {
    trim_right(trim_left(s))
}

/// Scanning over `lo` leading space characters reaches `trim_left`.
proof fn lemma_trim_left_skip(s: Seq<char>, lo: int)
    requires
        0 <= lo <= s.len(),
        forall|k: int| 0 <= k < lo ==> char_is_space(s[k]),
        lo < s.len() ==> !char_is_space(s[lo]),
    ensures
        trim_left(s) == s.skip(lo),
    decreases lo,
{
    if lo == 0 {
        assert(s.skip(0) =~= s);
    } else {
        lemma_trim_left_skip(s.skip(1), lo - 1);
        assert(s.skip(1).skip(lo - 1) =~= s.skip(lo));
    }
}

/// Dropping `s.len() - hi` trailing space characters reaches `trim_right`.
proof fn lemma_trim_right_take(s: Seq<char>, hi: int)
    requires
        0 <= hi <= s.len(),
        forall|k: int| hi <= k < s.len() ==> char_is_space(s[k]),
        hi > 0 ==> !char_is_space(s[hi - 1]),
    ensures
        trim_right(s) == s.take(hi),
    decreases s.len(),
{
    if hi == s.len() {
        if s.len() > 0 && char_is_space(s.last()) {
            assert(false);
        }
        assert(s.take(hi) =~= s);
    } else {
        lemma_trim_right_take(s.drop_last(), hi);
        assert(s.drop_last().take(hi) =~= s.take(hi));
    }
}

/// `v` without leading or trailing whitespace.
pub fn trim(v: &Vec<char>) -> (r: Vec<char>)
    ensures
        r@ == trim_spec(v@),
{
    let n = v.len();
    let mut lo: usize = 0;
    while lo < n && is_space(v[lo])
        invariant
            lo <= n,
            n == v@.len(),
            forall|k: int| 0 <= k < lo ==> char_is_space(v@[k]),
        decreases n - lo,
    {
        lo += 1;
    }
    proof {
        lemma_trim_left_skip(v@, lo as int);
    }
    let mut hi: usize = n;
    while hi > lo && is_space(v[hi - 1])
        invariant
            lo <= hi <= n,
            n == v@.len(),
            forall|k: int| hi <= k < n ==> char_is_space(v@[k]),
        decreases hi,
    {
        hi -= 1;
    }
    proof {
        let t = v@.skip(lo as int);
        assert(forall|k: int| hi - lo <= k < t.len() ==> char_is_space(t[k]));
        lemma_trim_right_take(t, hi - lo);
    }
    let mut r: Vec<char> = Vec::new();
    let mut i: usize = lo;
    while i < hi
        invariant
            lo <= i <= hi <= n,
            n == v@.len(),
            r@ == v@.subrange(lo as int, i as int),
        decreases hi - i,
    {
        r.push(v[i]);
        proof {
            assert(v@.subrange(lo as int, i as int).push(v@[i as int]) =~= v@.subrange(
                lo as int,
                i + 1,
            ));
        }
        i += 1;
    }
    proof {
        assert(r@ =~= v@.skip(lo as int).take(hi - lo as int));
    }
    r
}

/// Every character of `s` is a decimal digit.
pub open spec fn all_digits(s: Seq<char>) -> bool {
    forall|k: int| 0 <= k < s.len() ==> char_is_digit(s[k])
}

/// The numeric value of a sequence of decimal digits.
pub open spec fn dec_value(s: Seq<char>) -> nat
    decreases s.len(),
{
    if s.len() == 0 {
        0
    } else {
        dec_value(s.drop_last()) * 10 + digit_value(s.last())
    }
}

/// A prefix of a digit string is worth no more than the whole.
pub proof fn lemma_dec_value_prefix(s: Seq<char>, i: int)
    requires
        0 <= i <= s.len(),
    ensures
        dec_value(s.take(i)) <= dec_value(s),
    decreases s.len() - i,
{
    if i == s.len() {
        assert(s.take(i) =~= s);
    } else {
        lemma_dec_value_prefix(s, i + 1);
        assert(s.take(i + 1).drop_last() =~= s.take(i));
        assert(dec_value(s.take(i + 1)) == dec_value(s.take(i)) * 10 + digit_value(
            s.take(i + 1).last(),
        ));
    }
}

/// A found position really is a match, and the earliest one.
pub proof fn lemma_find_first_is_match(hay: Seq<char>, needle: Seq<char>)
    ensures
        match find_first(hay, needle) {
            Some(i) => match_at(hay, needle, i) && forall|j: int|
                0 <= j < i ==> !match_at(hay, needle, j),
            None => forall|j: int| !match_at(hay, needle, j),
        },
    decreases hay.len(),
{
    if match_at(hay, needle, 0) {
    } else if hay.len() == 0 {
        assert forall|j: int| !match_at(hay, needle, j) by {
            if 0 <= j && j + needle.len() <= hay.len() {
                assert(needle.len() == 0);
            }
        }
    } else {
        lemma_find_first_is_match(hay.skip(1), needle);
        assert forall|j: int| 1 <= j && match_at(hay.skip(1), needle, j - 1) implies match_at(
            hay,
            needle,
            j,
        ) by {
            assert(hay.skip(1).subrange(j - 1, j - 1 + needle.len() as int) =~= hay.subrange(
                j,
                j + needle.len() as int,
            ));
        }
        assert forall|j: int| 1 <= j && match_at(hay, needle, j) implies match_at(
            hay.skip(1),
            needle,
            j - 1,
        ) by {
            assert(hay.skip(1).subrange(j - 1, j - 1 + needle.len() as int) =~= hay.subrange(
                j,
                j + needle.len() as int,
            ));
        }
    }
}

} // verus!
