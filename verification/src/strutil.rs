//! Character-level string utilities.
//!
//! XML tag matching in UPnP is sometimes exact and sometimes
//! ASCII-case-insensitive, so both comparisons are provided here, together
//! with prefix/suffix tests and decimal conversions, all with exact
//! contracts over the character sequences of their inputs.

use vstd::prelude::*;

verus! {

/// Two characters match up to ASCII case.
pub open spec fn char_ieq(a: char, b: char) -> bool {
    a == b
    || ('A' <= a <= 'Z' && b as int == a as int + 32)
    || ('a' <= a <= 'z' && b as int == a as int - 32)
}

/// Two character sequences match up to ASCII case.
pub open spec fn seq_ieq(a: Seq<char>, b: Seq<char>) -> bool {
    a.len() == b.len() && forall|i: int| 0 <= i < a.len() ==> char_ieq(a[i], b[i])
}

/// Exact string equality, decided character by character.
pub fn str_eq(a: &str, b: &str) -> (r: bool)
    ensures
        r <==> a@ == b@,
{
    let la = a.unicode_len();
    let lb = b.unicode_len();
    if la != lb {
        return false;
    }
    let mut i: usize = 0;
    while i < la
        invariant
            0 <= i <= la,
            la == a@.len() && la == b@.len(),
            forall|j: int| 0 <= j < i ==> a@[j] == b@[j],
        decreases la - i,
    {
        if a.get_char(i) != b.get_char(i) {
            return false;
        }
        i = i + 1;
    }
    proof {
        assert(a@ =~= b@);
    }
    true
}

/// ASCII-case-insensitive string equality.
pub fn str_ieq(a: &str, b: &str) -> (r: bool)
    ensures
        r <==> seq_ieq(a@, b@),
{
    let la = a.unicode_len();
    let lb = b.unicode_len();
    if la != lb {
        return false;
    }
    let mut i: usize = 0;
    while i < la
        invariant
            0 <= i <= la,
            la == a@.len() && la == b@.len(),
            forall|j: int| 0 <= j < i ==> char_ieq(a@[j], b@[j]),
        decreases la - i,
    {
        let ca = a.get_char(i);
        let cb = b.get_char(i);
        let ok = ca == cb
            || ('A' <= ca && ca <= 'Z' && cb as u32 == ca as u32 + 32)
            || ('a' <= ca && ca <= 'z' && cb as u32 == ca as u32 - 32);
        if !ok {
            return false;
        }
        i = i + 1;
    }
    true
}

/// `p` is a prefix of `s`.
pub open spec fn is_prefix(s: Seq<char>, p: Seq<char>) -> bool {
    p.len() <= s.len() && s.subrange(0, p.len() as int) == p
}

/// `p` is a suffix of `s`.
pub open spec fn is_suffix(s: Seq<char>, p: Seq<char>) -> bool {
    p.len() <= s.len() && s.subrange(s.len() - p.len(), s.len() as int) == p
}

/// Whether `s` starts with `p`, decided character by character.
pub fn starts_with(s: &str, p: &str) -> (r: bool)
    ensures
        r <==> is_prefix(s@, p@),
{
    let ls = s.unicode_len();
    let lp = p.unicode_len();
    if lp > ls {
        assert(!is_prefix(s@, p@));
        return false;
    }
    let mut i: usize = 0;
    while i < lp
        invariant
            0 <= i <= lp,
            ls == s@.len() && lp == p@.len(),
            lp <= ls,
            forall|j: int| 0 <= j < i ==> s@[j] == p@[j],
        decreases lp - i,
    {
        if s.get_char(i) != p.get_char(i) {
            assert(s@.subrange(0, lp as int)[i as int] != p@[i as int]);
            return false;
        }
        i = i + 1;
    }
    proof {
        assert(s@.subrange(0, lp as int) =~= p@);
    }
    true
}

/// Whether `s` ends with `p`, decided character by character.
pub fn ends_with(s: &str, p: &str) -> (r: bool)
    ensures
        r <==> is_suffix(s@, p@),
{
    let ls = s.unicode_len();
    let lp = p.unicode_len();
    if lp > ls {
        assert(!is_suffix(s@, p@));
        return false;
    }
    let off: usize = ls - lp;
    let mut i: usize = 0;
    while i < lp
        invariant
            0 <= i <= lp,
            ls == s@.len() && lp == p@.len(),
            off == ls - lp,
            forall|j: int| 0 <= j < i ==> s@[off + j] == p@[j],
        decreases lp - i,
    {
        if s.get_char(off + i) != p.get_char(i) {
            assert(s@.subrange(off as int, ls as int)[i as int] != p@[i as int]);
            return false;
        }
        i = i + 1;
    }
    proof {
        assert(s@.subrange(off as int, ls as int) =~= p@);
    }
    true
}

} // verus!
