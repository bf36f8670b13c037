//! Case folding for path and file-name comparisons.
//!
//! The backend compares names case-insensitively in two places: the
//! extension table of the language detector and the ordering of directory
//! listings. Both work on the folded form of a character sequence: every
//! ASCII upper-case letter is mapped to its lower-case counterpart and every
//! other character is kept, represented by its code point.

use vstd::prelude::*;

verus! {

/// The folded code point of one character: ASCII upper-case letters map to
/// their lower-case counterpart, everything else to its own code point.
pub open spec fn fold_c(c: char) -> u32 {
    let u = c as u32;
    if 65 <= u && u <= 90 {
        (u + 32) as u32
    } else {
        u
    }
}

/// The folded form of a character sequence.
pub open spec fn folded(s: Seq<char>) -> Seq<u32> {
    s.map_values(|c: char| fold_c(c))
}

/// Folds one character.
pub fn fold_char(c: char) -> (r: u32)
    ensures
        r == fold_c(c),
{
    let u = c as u32;
    if 65 <= u && u <= 90 {
        u + 32
    } else {
        u
    }
}

/// Lexicographic order on folded sequences: a shared prefix defers to the
/// remainder, and the shorter sequence comes first.
pub open spec fn lex_le(a: Seq<u32>, b: Seq<u32>) -> bool
    decreases a.len(),
{
    if a.len() == 0 {
        true
    } else if b.len() == 0 {
        false
    } else if a[0] < b[0] {
        true
    } else if a[0] > b[0] {
        false
    } else {
        lex_le(a.drop_first(), b.drop_first())
    }
}

/// `lex_le` is total: of any two sequences, one comes no later than the other.
pub proof fn lemma_lex_le_total(a: Seq<u32>, b: Seq<u32>)
    ensures
        lex_le(a, b) || lex_le(b, a),
    decreases a.len(),
{
    if a.len() == 0 {
    } else if b.len() == 0 {
    } else if a[0] == b[0] {
        lemma_lex_le_total(a.drop_first(), b.drop_first());
    }
}

/// `lex_le` is transitive.
pub proof fn lemma_lex_le_trans(a: Seq<u32>, b: Seq<u32>, c: Seq<u32>)
    requires
        lex_le(a, b),
        lex_le(b, c),
    ensures
        lex_le(a, c),
    decreases a.len(),
{
    if a.len() == 0 {
    } else {
        if a[0] == b[0] && b[0] == c[0] {
            lemma_lex_le_trans(a.drop_first(), b.drop_first(), c.drop_first());
        }
    }
}

/// Compares two strings by the lexicographic order of their folded forms.
pub fn name_le(a: &str, b: &str) -> (r: bool)
    ensures
        r == lex_le(folded(a@), folded(b@)),
{
    let a_len = a.unicode_len();
    let b_len = b.unicode_len();
    proof {
        assert(a@.subrange(0, a_len as int) =~= a@);
        assert(b@.subrange(0, b_len as int) =~= b@);
    }
    let mut i: usize = 0;
    loop
        invariant
            i <= a_len,
            i <= b_len,
            a_len == a@.len(),
            b_len == b@.len(),
            forall|k: int| 0 <= k < i ==> fold_c(a@[k]) == fold_c(b@[k]),
            lex_le(folded(a@), folded(b@)) == lex_le(
                folded(a@.subrange(i as int, a_len as int)),
                folded(b@.subrange(i as int, b_len as int)),
            ),
        decreases a_len - i,
    {
        if i == a_len {
            proof {
                assert(folded(a@.subrange(i as int, a_len as int)).len() == 0);
            }
            return true;
        }
        if i == b_len {
            proof {
                assert(folded(b@.subrange(i as int, b_len as int)).len() == 0);
                assert(folded(a@.subrange(i as int, a_len as int)).len() > 0);
            }
            return false;
        }
        let ca = fold_char(a.get_char(i));
        let cb = fold_char(b.get_char(i));
        proof {
            let ra = folded(a@.subrange(i as int, a_len as int));
            let rb = folded(b@.subrange(i as int, b_len as int));
            assert(ra[0] == fold_c(a@[i as int]));
            assert(rb[0] == fold_c(b@[i as int]));
            assert(ra.drop_first() =~= folded(a@.subrange(i + 1, a_len as int)));
            assert(rb.drop_first() =~= folded(b@.subrange(i + 1, b_len as int)));
        }
        if ca < cb {
            return true;
        }
        if ca > cb {
            return false;
        }
        i += 1;
    }
}

/// Tests whether two strings have the same folded form.
pub fn name_eq_fold(a: &str, b: &str) -> (r: bool)
    ensures
        r == (folded(a@) == folded(b@)),
{
    let a_len = a.unicode_len();
    let b_len = b.unicode_len();
    if a_len != b_len {
        proof {
            assert(folded(a@).len() != folded(b@).len());
        }
        return false;
    }
    let mut i: usize = 0;
    while i < a_len
        invariant
            i <= a_len,
            a_len == a@.len(),
            a_len == b@.len(),
            forall|k: int| 0 <= k < i ==> fold_c(a@[k]) == fold_c(b@[k]),
        decreases a_len - i,
    {
        let ca = fold_char(a.get_char(i));
        let cb = fold_char(b.get_char(i));
        if ca != cb {
            proof {
                assert(folded(a@)[i as int] != folded(b@)[i as int]);
            }
            return false;
        }
        i += 1;
    }
    proof {
        assert(folded(a@) =~= folded(b@));
    }
    true
}

} // verus!
