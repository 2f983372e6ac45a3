//! The order of text keys.
//!
//! An object store keeps its records in the order of their keys.  Text keys
//! are ordered as their UTF-16 encodings are, code unit by code unit, which
//! differs from the order of code points for characters beyond the basic
//! plane: those are encoded with surrogates and sort below U+E000.

use vstd::prelude::*;
use vstd::std_specs::iter::IteratorSpec;

verus! {

/// The place of a character among all characters when texts are compared by
/// UTF-16 code units.  A character of the basic plane below the surrogates
/// keeps its code point; one beyond the basic plane falls where its leading
/// surrogate starts; the rest of the basic plane comes last.
pub open spec fn unit_rank(c: char) -> int {
    let code = c as int;
    if code < 0xD800 {
        code
    } else if code >= 0x10000 {
        code - 0x10000 + 0xD800
    } else {
        code + 0x100000
    }
}

/// Whether the key `a` comes strictly before the key `b`: at the first
/// position where they differ `a` holds the character of lower rank, or `a`
/// ends there and `b` goes on.
pub open spec fn key_lt(a: Seq<char>, b: Seq<char>) -> bool
    decreases a.len(),
{
    if b.len() == 0 {
        false
    } else if a.len() == 0 {
        true
    } else if a[0] == b[0] {
        key_lt(a.drop_first(), b.drop_first())
    } else {
        unit_rank(a[0]) < unit_rank(b[0])
    }
}

/// Distinct characters have distinct ranks.
pub proof fn lemma_unit_rank_injective(c: char, d: char)
    ensures
        unit_rank(c) == unit_rank(d) <==> c == d,
{
}

/// No key comes before itself.
pub proof fn lemma_key_lt_irreflexive(a: Seq<char>)
    ensures
        !key_lt(a, a),
    decreases a.len(),
{
    if a.len() > 0 {
        lemma_key_lt_irreflexive(a.drop_first());
    }
}

/// Two different keys are ordered one way or the other.
pub proof fn lemma_key_lt_total(a: Seq<char>, b: Seq<char>)
    ensures
        a == b || key_lt(a, b) || key_lt(b, a),
    decreases a.len(),
{
    if a.len() == 0 || b.len() == 0 {
    } else if a[0] == b[0] {
        lemma_key_lt_total(a.drop_first(), b.drop_first());
        if a.drop_first() == b.drop_first() {
            assert(a =~= seq![a[0]] + a.drop_first());
        }
    } else {
        lemma_unit_rank_injective(a[0], b[0]);
    }
}

/// The order of keys is transitive.
pub proof fn lemma_key_lt_transitive(a: Seq<char>, b: Seq<char>, c: Seq<char>)
    requires
        key_lt(a, b),
        key_lt(b, c),
    ensures
        key_lt(a, c),
    decreases a.len(),
{
    if a.len() > 0 {
        if a[0] == b[0] && b[0] == c[0] {
            lemma_key_lt_transitive(a.drop_first(), b.drop_first(), c.drop_first());
        }
    }
}

/// Computes the rank of a character.
pub fn rank_of(c: char) -> (rank: u32)
    ensures
        rank == unit_rank(c),
{
    let code: u32 = c as u32;
    if code < 0xD800 {
        code
    } else if code >= 0x10000 {
        code - 0x10000 + 0xD800
    } else {
        code + 0x100000
    }
}

/// Decides whether the key `a` comes strictly before the key `b`.
pub fn key_before(a: &str, b: &str) -> (before: bool)
    ensures
        before == key_lt(a@, b@),
{
    let mut left = a.chars();
    let mut right = b.chars();
    loop
        invariant
            key_lt(a@, b@) == key_lt(left.remaining(), right.remaining()),
            left.decrease() is Some,
        decreases left.decrease()->0,
    {
        let theirs = right.next();
        let ours = left.next();
        match theirs {
            None => {
                return false;
            },
            Some(d) => match ours {
                None => {
                    return true;
                },
                Some(c) => {
                    if c != d {
                        return rank_of(c) < rank_of(d);
                    }
                },
            },
        }
    }
}

} // verus!
