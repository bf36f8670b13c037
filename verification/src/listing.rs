//! Directory listings: dotfile filtering and deterministic ordering.
//!
//! A listing holds one node per visible directory entry. Entries whose name
//! starts with a dot are dropped; the rest are ordered with directories
//! before files and, within each group, by case-folded name.

use vstd::prelude::*;
use vstd::seq_lib::group_to_multiset_ensures;
use vstd::seq_lib::to_multiset_insert;
use vstd::seq_lib::to_multiset_build;
use crate::casefold::{folded, lex_le, name_le, lemma_lex_le_total, lemma_lex_le_trans};

verus! {

/// One directory entry. `children` stays `None` in a fresh listing: child
/// nodes are listed by a later call, not eagerly.
pub struct FileNode {
    pub name: String,
    pub path: String,
    pub is_dir: bool,
    pub children: Option<Vec<FileNode>>,
}

/// A name that a listing hides: one starting with a dot.
pub open spec fn hidden_name(n: Seq<char>) -> bool {
    n.len() > 0 && n[0] == '.'
}

/// A node that a listing shows.
pub open spec fn visible(n: FileNode) -> bool {
    !hidden_name(n.name@)
}

/// The visible entries of a sequence, in their original order.
pub open spec fn visible_of(s: Seq<FileNode>) -> Seq<FileNode> {
    s.filter(|n: FileNode| visible(n))
}

/// The listing order: directories before files; within a group, case-folded
/// lexicographic name order.
pub open spec fn node_le(a: FileNode, b: FileNode) -> bool {
    if a.is_dir != b.is_dir {
        a.is_dir
    } else {
        lex_le(folded(a.name@), folded(b.name@))
    }
}

/// Every pair of a listing stands in listing order.
pub open spec fn sorted_listing(s: Seq<FileNode>) -> bool {
    forall|i: int, j: int| 0 <= i < j < s.len() ==> node_le(s[i], s[j])
}

/// In a sorted listing every directory entry precedes every file entry:
/// once a file appears, no later entry is a directory.
pub proof fn lemma_directories_precede_files(s: Seq<FileNode>, i: int, j: int)
    requires
        sorted_listing(s),
        0 <= i < j < s.len(),
        !s[i].is_dir,
    ensures
        !s[j].is_dir,
{
    assert(node_le(s[i], s[j]));
}

proof fn lemma_node_le_total(a: FileNode, b: FileNode)
    ensures
        node_le(a, b) || node_le(b, a),
{
    lemma_lex_le_total(folded(a.name@), folded(b.name@));
}

proof fn lemma_node_le_trans(a: FileNode, b: FileNode, c: FileNode)
    requires
        node_le(a, b),
        node_le(b, c),
    ensures
        node_le(a, c),
{
    if a.is_dir == b.is_dir && b.is_dir == c.is_dir {
        lemma_lex_le_trans(folded(a.name@), folded(b.name@), folded(c.name@));
    }
}

fn is_visible(node: &FileNode) -> (r: bool)
    ensures
        r == visible(*node),
{
    if node.name.as_str().is_empty() {
        true
    } else {
        node.name.as_str().get_char(0) != '.'
    }
}

fn node_le_exec(a: &FileNode, b: &FileNode) -> (r: bool)
    ensures
        r == node_le(*a, *b),
{
    if a.is_dir != b.is_dir {
        a.is_dir
    } else {
        name_le(a.name.as_str(), b.name.as_str())
    }
}

proof fn lemma_filter_push(s: Seq<FileNode>, x: FileNode)
    ensures
        visible_of(s.push(x)) == if visible(x) {
            visible_of(s).push(x)
        } else {
            visible_of(s)
        },
{
    assert(s.push(x).drop_last() =~= s);
    assert(s.push(x).last() == x);
    reveal(Seq::filter);
}

/// Builds a listing from raw directory entries: drops entries with hidden
/// names and orders the rest, directories first, then by case-folded name.
/// The result holds exactly the visible entries of the input.
pub fn build_directory_listing(entries: Vec<FileNode>) -> (r: Vec<FileNode>)
    ensures
        sorted_listing(r@),
        r@.to_multiset() == visible_of(entries@).to_multiset(),
        forall|i: int| 0 <= i < r@.len() ==> visible(#[trigger] r@[i]),
{
    broadcast use group_to_multiset_ensures;

    let ghost orig = entries@;
    let mut input = entries;
    let mut out: Vec<FileNode> = Vec::new();
    proof {
        assert(orig.subrange(0, 0) =~= Seq::<FileNode>::empty());
        reveal(Seq::filter);
        assert(visible_of(Seq::<FileNode>::empty()) =~= Seq::<FileNode>::empty());
        assert(out@.to_multiset() =~= visible_of(orig.subrange(0, 0)).to_multiset());
    }
    while input.len() > 0
        invariant
            input@.len() <= orig.len(),
            input@ == orig.subrange(orig.len() - input@.len(), orig.len() as int),
            sorted_listing(out@),
            forall|k: int| 0 <= k < out@.len() ==> visible(#[trigger] out@[k]),
            out@.to_multiset() == visible_of(
                orig.subrange(0, orig.len() - input@.len()),
            ).to_multiset(),
        decreases input@.len(),
    {
        let ghost done = orig.len() - input@.len();
        let ghost prefix = orig.subrange(0, done as int);
        let e = input.remove(0);
        proof {
            assert(orig.subrange(done as int, orig.len() as int).remove(0) =~= orig.subrange(
                done + 1,
                orig.len() as int,
            ));
            assert(e == orig[done as int]);
            assert(prefix.push(e) =~= orig.subrange(0, done + 1));
            lemma_filter_push(prefix, e);
        }
        if is_visible(&e) {
            let mut p: usize = 0;
            while p < out.len() && node_le_exec(&out[p], &e)
                invariant
                    p <= out@.len(),
                    forall|k: int| 0 <= k < p ==> node_le(#[trigger] out@[k], e),
                decreases out@.len() - p,
            {
                p += 1;
            }
            let ghost before = out@;
            proof {
                if (p as int) < before.len() {
                    lemma_node_le_total(before[p as int], e);
                    assert(node_le(e, before[p as int]));
                }
            }
            out.insert(p, e);
            proof {
                let now = out@;
                assert(now == before.insert(p as int, e));
                assert forall|i: int, j: int| 0 <= i < j < now.len() implies node_le(
                    now[i],
                    now[j],
                ) by {
                    if j < p {
                    } else if j == p {
                        assert(now[i] == before[i]);
                        assert(now[j] == e);
                    } else {
                        assert(now[j] == before[j - 1]);
                        if i < p {
                            assert(now[i] == before[i]);
                            if i < j - 1 {
                                assert(node_le(before[i], before[j - 1]));
                            }
                        } else if i == p {
                            assert(now[i] == e);
                            assert(node_le(e, before[p as int]));
                            if p < j - 1 {
                                assert(node_le(before[p as int], before[j - 1]));
                                lemma_node_le_trans(e, before[p as int], before[j - 1]);
                            }
                        } else {
                            assert(now[i] == before[i - 1]);
                            if i - 1 < j - 1 {
                                assert(node_le(before[i - 1], before[j - 1]));
                            }
                        }
                    }
                }
                to_multiset_insert::<FileNode>(before, p as int, e);
                assert(now.to_multiset() == before.to_multiset().insert(e));
                assert(visible_of(orig.subrange(0, done + 1)) =~= visible_of(prefix).push(e));
                to_multiset_build::<FileNode>(visible_of(prefix), e);
                assert(visible_of(prefix).push(e).to_multiset() == visible_of(
                    prefix,
                ).to_multiset().insert(e));
            }
        } else {
            proof {
                assert(visible_of(orig.subrange(0, done + 1)) =~= visible_of(prefix));
            }
        }
    }
    proof {
        assert(orig.subrange(0, orig.len() as int) =~= orig);
    }
    out
}

} // verus!
