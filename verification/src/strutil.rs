//! Small verified string helpers: equality, splitting on a separator
//! character, and prefix tests.

use vstd::prelude::*;

verus! {

/// Character-wise string equality.
pub fn str_eq(a: &str, b: &str) -> (r: bool)
    ensures
        r == (a@ == b@),
{
    let an = a.unicode_len();
    let bn = b.unicode_len();
    if an != bn {
        return false;
    }
    let mut i: usize = 0;
    while i < an
        invariant
            an == a@.len(),
            an == b@.len(),
            i <= an,
            forall|j: int| 0 <= j < i ==> a@[j] == b@[j],
        decreases an - i,
    {
        if a.get_char(i) != b.get_char(i) {
            return false;
        }
        i = i + 1;
    }
    proof {
        assert(a@ =~= b@);
    }
    true
}

/// The index of the first occurrence of `sep` in `s`, or `s.len()` when `sep`
/// does not occur.
pub open spec fn first_sep(s: Seq<char>, sep: char) -> int
    decreases s.len(),
{
    if s.len() == 0 {
        0
    } else if s[0] == sep {
        0
    } else {
        1 + first_sep(s.drop_first(), sep)
    }
}

/// When the first `k` characters are not `sep` and the character at `k` is
/// `sep` (or `k` is the length), `first_sep` is exactly `k`.
pub proof fn lemma_first_sep_at(s: Seq<char>, sep: char, k: int)
    requires
        0 <= k <= s.len(),
        forall|j: int| 0 <= j < k ==> s[j] != sep,
        k < s.len() ==> s[k] == sep,
        k == s.len() ==> forall|j: int| 0 <= j < s.len() ==> s[j] != sep,
    ensures
        first_sep(s, sep) == k,
    decreases s.len(),
{
    if s.len() == 0 {
    } else if s[0] == sep {
        assert(k == 0);
    } else {
        assert(k >= 1);
        lemma_first_sep_at(s.drop_first(), sep, k - 1);
    }
}

/// The pieces of `s` between occurrences of `sep`, in order. The empty
/// sequence splits to one empty piece, and every separator produces a piece
/// on each side, so the result is never empty.
pub open spec fn split_of(s: Seq<char>, sep: char) -> Seq<Seq<char>>
    decreases s.len(),
{
    let i = first_sep(s, sep);
    if i == s.len() {
        seq![s]
    } else if 0 <= i < s.len() {
        seq![s.take(i)] + split_of(s.skip(i + 1), sep)
    } else {
        seq![s]
    }
}

/// Splits `s` on `sep` into owned pieces.
pub fn split_str(s: &str, sep: char) -> (parts: Vec<String>)
    ensures
        crate::error::view_strings(parts@) == split_of(s@, sep),
{
    let n = s.unicode_len();
    let mut parts: Vec<String> = Vec::new();
    let mut start: usize = 0;
    let mut i: usize = 0;
    proof {
        assert(s@.skip(0) =~= s@);
        assert(crate::error::view_strings(parts@) + split_of(s@, sep) =~= split_of(s@, sep));
    }
    while i < n
        invariant
            n == s@.len(),
            start <= i <= n,
            forall|j: int| start <= j < i ==> s@[j] != sep,
            crate::error::view_strings(parts@) + split_of(s@.skip(start as int), sep) == split_of(
                s@,
                sep,
            ),
        decreases n - i,
    {
        if s.get_char(i) == sep {
            let piece = s.substring_char(start, i);
            parts.push(piece.to_owned());
            proof {
                let tail = s@.skip(start as int);
                lemma_first_sep_at(tail, sep, i - start);
                assert(tail.take(i - start) =~= s@.subrange(start as int, i as int));
                assert(tail.skip(i - start + 1) =~= s@.skip(i + 1));
                assert(crate::error::view_strings(parts@) =~= crate::error::view_strings(
                    parts@.drop_last(),
                ).push(s@.subrange(start as int, i as int)));
                assert(crate::error::view_strings(parts@) + split_of(s@.skip(i + 1), sep)
                    =~= crate::error::view_strings(parts@.drop_last()) + split_of(
                    s@.skip(start as int),
                    sep,
                ));
            }
            start = i + 1;
        }
        i = i + 1;
    }
    let piece = s.substring_char(start, n);
    parts.push(piece.to_owned());
    proof {
        let tail = s@.skip(start as int);
        lemma_first_sep_at(tail, sep, n - start);
        assert(tail =~= s@.subrange(start as int, n as int));
        assert(split_of(tail, sep) == seq![tail]);
        assert(crate::error::view_strings(parts@) =~= crate::error::view_strings(
            parts@.drop_last(),
        ).push(tail));
        assert(crate::error::view_strings(parts@) =~= crate::error::view_strings(
            parts@.drop_last(),
        ) + split_of(tail, sep));
        assert(crate::error::view_strings(parts@) =~= split_of(s@, sep));
    }
    parts
}

/// Relies on String::push: it appends the one character.
#[verifier::external_body]
pub fn push_char(s: &mut String, c: char)
    ensures
        final(s)@ == old(s)@.push(c),
{
    s.push(c)
}

/// The lowercase form of a string, as the Unicode case-folding of the
/// standard library computes it: a function of the characters alone.
pub uninterp spec fn lower_of(s: Seq<char>) -> Seq<char>;

/// Relies on str::to_lowercase: the result depends on the characters alone.
#[verifier::external_body]
pub fn lowercase(s: &str) -> (r: String)
    ensures
        r@ == lower_of(s@),
        s@.len() == 0 ==> r@.len() == 0,
{
    s.to_lowercase()
}

/// Whether `p` is a prefix of `s`.
pub open spec fn starts_with(s: Seq<char>, p: Seq<char>) -> bool {
    s.len() >= p.len() && s.take(p.len() as int) == p
}

/// Prefix test.
pub fn str_starts_with(s: &str, p: &str) -> (r: bool)
    ensures
        r == starts_with(s@, p@),
{
    let sn = s.unicode_len();
    let pn = p.unicode_len();
    if sn < pn {
        return false;
    }
    let head = s.substring_char(0, pn);
    str_eq(head, p)
}

/// View of a vector of borrowed strings as a sequence of character
/// sequences.
pub open spec fn view_strs(s: Seq<&str>) -> Seq<Seq<char>> {
    s.map_values(|x: &str| x@)
}

/// Splits `s` on `sep` into borrowed pieces.
pub fn split_str_ref<'a>(s: &'a str, sep: char) -> (parts: Vec<&'a str>)
    ensures
        view_strs(parts@) == split_of(s@, sep),
{
    let n = s.unicode_len();
    let mut parts: Vec<&'a str> = Vec::new();
    let mut start: usize = 0;
    let mut i: usize = 0;
    proof {
        assert(s@.skip(0) =~= s@);
        assert(view_strs(parts@) + split_of(s@, sep) =~= split_of(s@, sep));
    }
    while i < n
        invariant
            n == s@.len(),
            start <= i <= n,
            forall|j: int| start <= j < i ==> s@[j] != sep,
            view_strs(parts@) + split_of(s@.skip(start as int), sep) == split_of(s@, sep),
        decreases n - i,
    {
        if s.get_char(i) == sep {
            let piece = s.substring_char(start, i);
            parts.push(piece);
            proof {
                let tail = s@.skip(start as int);
                lemma_first_sep_at(tail, sep, i - start);
                assert(tail.take(i - start) =~= s@.subrange(start as int, i as int));
                assert(tail.skip(i - start + 1) =~= s@.skip(i + 1));
                assert(view_strs(parts@) =~= view_strs(parts@.drop_last()).push(
                    s@.subrange(start as int, i as int),
                ));
                assert(view_strs(parts@) + split_of(s@.skip(i + 1), sep) =~= view_strs(
                    parts@.drop_last(),
                ) + split_of(s@.skip(start as int), sep));
            }
            start = i + 1;
        }
        i = i + 1;
    }
    let piece = s.substring_char(start, n);
    parts.push(piece);
    proof {
        let tail = s@.skip(start as int);
        lemma_first_sep_at(tail, sep, n - start);
        assert(tail =~= s@.subrange(start as int, n as int));
        assert(split_of(tail, sep) == seq![tail]);
        assert(view_strs(parts@) =~= view_strs(parts@.drop_last()).push(tail));
        assert(view_strs(parts@) =~= view_strs(parts@.drop_last()) + split_of(tail, sep));
        assert(view_strs(parts@) =~= split_of(s@, sep));
    }
    parts
}

} // verus!
