//! Path interpretation: final path segment and file extension.
//!
//! Paths are character sequences with `/` as the separator. The final
//! segment is what remains after trailing separators are stripped and
//! everything up to the last separator is dropped; a path with nothing left
//! (empty, or separators only) has no final segment. The extension is the
//! part of the final segment after its last `.`, provided that dot is not
//! the segment's first character — so a dotfile such as `.profile` has no
//! extension.

use vstd::prelude::*;

verus! {

/// The path with trailing separators removed.
pub open spec fn strip_trailing_slashes(p: Seq<char>) -> Seq<char>
    decreases p.len(),
{
    if p.len() > 0 && p.last() == '/' {
        strip_trailing_slashes(p.drop_last())
    } else {
        p
    }
}

/// The index of the last occurrence of `c` in `s`, or -1 if `c` does not occur.
pub open spec fn last_index_of(s: Seq<char>, c: char) -> int
    decreases s.len(),
{
    if s.len() == 0 {
        -1
    } else if s.last() == c {
        s.len() - 1
    } else {
        last_index_of(s.drop_last(), c)
    }
}

/// The final path segment, if the path has one.
pub open spec fn file_name_of(p: Seq<char>) -> Option<Seq<char>> {
    let t = strip_trailing_slashes(p);
    if t.len() == 0 {
        None
    } else {
        Some(t.subrange(last_index_of(t, '/') + 1, t.len() as int))
    }
}

/// The extension of the final path segment; empty when there is none.
pub open spec fn extension_of(p: Seq<char>) -> Seq<char> {
    match file_name_of(p) {
        None => Seq::empty(),
        Some(n) => {
            let d = last_index_of(n, '.');
            if d >= 1 {
                n.subrange(d + 1, n.len() as int)
            } else {
                Seq::empty()
            }
        },
    }
}

proof fn lemma_last_index_of_unique(s: Seq<char>, c: char, r: int)
    requires
        -1 <= r < s.len(),
        r >= 0 ==> s[r] == c,
        forall|k: int| r < k < s.len() ==> s[k] != c,
        r == -1 ==> forall|k: int| 0 <= k < s.len() ==> s[k] != c,
    ensures
        last_index_of(s, c) == r,
    decreases s.len(),
{
    if s.len() == 0 {
    } else if s.last() == c {
        assert(r == s.len() - 1);
    } else {
        assert(r < s.len() - 1);
        lemma_last_index_of_unique(s.drop_last(), c, r);
    }
}

/// Finds the char index just past the last trailing separator run: the least
/// `end` with `strip_trailing_slashes(path@) == path@.subrange(0, end)`.
fn scan_segment_end(path: &str) -> (end: usize)
    ensures
        end <= path@.len(),
        path@.subrange(0, end as int) == strip_trailing_slashes(path@),
{
    let n = path.unicode_len();
    proof {
        assert(path@.subrange(0, n as int) =~= path@);
    }
    let mut end: usize = n;
    while end > 0 && path.get_char(end - 1) == '/'
        invariant
            end <= n,
            n == path@.len(),
            strip_trailing_slashes(path@.subrange(0, end as int)) == strip_trailing_slashes(
                path@,
            ),
        decreases end,
    {
        proof {
            assert(path@.subrange(0, end as int).drop_last() =~= path@.subrange(0, end - 1));
        }
        end -= 1;
    }
    proof {
        let t = path@.subrange(0, end as int);
        if end > 0 {
            assert(t.last() == path@[end - 1]);
        }
        assert(strip_trailing_slashes(t) == t);
    }
    end
}

/// Finds the start of the final segment within `path@.subrange(0, end)`:
/// the index just past the last separator, or 0 when there is none.
fn scan_segment_start(path: &str, end: usize) -> (start: usize)
    requires
        end <= path@.len(),
        path@.subrange(0, end as int) == strip_trailing_slashes(path@),
    ensures
        start <= end,
        last_index_of(path@.subrange(0, end as int), '/') == start - 1,
{
    let mut j: usize = end;
    while j > 0 && path.get_char(j - 1) != '/'
        invariant
            j <= end <= path@.len(),
            forall|k: int| j <= k < end ==> path@[k] != '/',
        decreases j,
    {
        j -= 1;
    }
    proof {
        let t = path@.subrange(0, end as int);
        assert(forall|k: int| j <= k < end ==> t[k] == path@[k]);
        if j > 0 {
            assert(t[j - 1] == path@[j - 1]);
            lemma_last_index_of_unique(t, '/', j - 1);
        } else {
            lemma_last_index_of_unique(t, '/', -1);
        }
    }
    j
}

/// Returns the final segment of `path`, or the `Err` message when the path
/// has none (empty, or separators only).
pub fn get_file_name(path: &str) -> (r: Result<String, String>)
    ensures
        match file_name_of(path@) {
            Some(n) => r is Ok && (r matches Ok(name) ==> name@ == n),
            None => r is Err && (r matches Err(e) ==> e@ == "Invalid file path"@),
        },
{
    let end = scan_segment_end(path);
    if end == 0 {
        proof {
            assert(strip_trailing_slashes(path@).len() == 0);
        }
        return Err("Invalid file path".to_owned());
    }
    let start = scan_segment_start(path, end);
    let seg = path.substring_char(start, end);
    proof {
        let t = path@.subrange(0, end as int);
        assert(t.subrange(start as int, t.len() as int) =~= path@.subrange(
            start as int,
            end as int,
        ));
    }
    Ok(seg.to_owned())
}

/// Returns the extension of `path`'s final segment, or the empty string
/// when there is none.
pub fn extension_str<'a>(path: &'a str) -> (r: &'a str)
    ensures
        r@ == extension_of(path@),
{
    let end = scan_segment_end(path);
    if end == 0 {
        proof {
            assert(strip_trailing_slashes(path@).len() == 0);
            reveal_strlit("");
            assert(""@ =~= extension_of(path@));
        }
        return "";
    }
    let start = scan_segment_start(path, end);
    let ghost t = path@.subrange(0, end as int);
    let ghost n = t.subrange(start as int, t.len() as int);
    let mut d: usize = end;
    while d > start && path.get_char(d - 1) != '.'
        invariant
            start <= d <= end <= path@.len(),
            forall|k: int| d <= k < end ==> path@[k] != '.',
        decreases d,
    {
        d -= 1;
    }
    proof {
        assert(n =~= path@.subrange(start as int, end as int));
        assert(forall|k: int| 0 <= k < n.len() ==> n[k] == path@[start + k]);
        if d > start {
            lemma_last_index_of_unique(n, '.', d - 1 - start);
        } else {
            lemma_last_index_of_unique(n, '.', -1);
        }
    }
    if d - start > 1 {
        let ext = path.substring_char(d, end);
        proof {
            assert(n.subrange(d - start, n.len() as int) =~= path@.subrange(
                d as int,
                end as int,
            ));
        }
        ext
    } else {
        proof {
            reveal_strlit("");
            assert(""@ =~= extension_of(path@));
        }
        ""
    }
}

} // verus!
