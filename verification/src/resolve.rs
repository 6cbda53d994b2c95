//! Resolving an external command name against the directories of a `PATH`
//! string: split the string on `:`, form `<directory>/<name>` candidates,
//! and take the first candidate that exists on the filesystem. Which
//! candidates exist is the caller's to say: the library never touches the
//! filesystem itself.

use vstd::prelude::*;

verus! {

/// The length of the leading run of characters other than `:`.
pub open spec fn segment_run(s: Seq<char>) -> nat
    decreases s.len(),
{
    if s.len() == 0 || s[0] == ':' {
        0
    } else {
        1 + segment_run(s.skip(1))
    }
}

/// The leading segment never runs past the end of the text.
pub proof fn lemma_segment_run_le(s: Seq<char>)
    ensures
        segment_run(s) <= s.len(),
    decreases s.len(),
{
    if s.len() == 0 || s[0] == ':' {
    } else {
        lemma_segment_run_le(s.skip(1));
    }
}

/// A run of characters without `:` that stops at a `:` (or at the end) is
/// the leading segment run.
pub proof fn lemma_segment_run_is(s: Seq<char>, k: int)
    requires
        0 <= k <= s.len(),
        forall|m: int| 0 <= m < k ==> s[m] != ':',
        k == s.len() || s[k] == ':',
    ensures
        segment_run(s) == k,
    decreases k,
{
    if k == 0 {
    } else {
        assert(forall|m: int| 0 <= m < k - 1 ==> s.skip(1)[m] == s[m + 1]);
        if k < s.len() {
            assert(s.skip(1)[k - 1] == s[k]);
        }
        lemma_segment_run_is(s.skip(1), k - 1);
    }
}

/// The `:`-separated pieces of a search-path string, in order, empty
/// pieces kept: a search path always has at least one entry.
pub open spec fn spec_split_colon(s: Seq<char>) -> Seq<Seq<char>>
    decreases s.len(),
    via spec_split_colon_decreases
{
    if segment_run(s) == s.len() {
        seq![s]
    } else {
        seq![s.take(segment_run(s) as int)] + spec_split_colon(s.skip(segment_run(s) as int + 1))
    }
}

#[via_fn]
proof fn spec_split_colon_decreases(s: Seq<char>) {
    lemma_segment_run_le(s);
}

/// Splits a search-path string into its directory entries.
pub fn split_path(path: &str) -> (r: Vec<String>)
    ensures
        r.deep_view() == spec_split_colon(path@),
{
    let n = path.unicode_len();
    let mut parts: Vec<String> = Vec::new();
    let mut start: usize = 0;
    let mut j: usize = 0;
    proof {
        assert(path@.skip(0) =~= path@);
        assert(parts.deep_view() =~= Seq::<Seq<char>>::empty());
        assert(parts.deep_view() + spec_split_colon(path@) =~= spec_split_colon(path@));
    }
    while j < n
        invariant
            n == path@.len(),
            start <= j <= n,
            spec_split_colon(path@) == parts.deep_view() + spec_split_colon(
                path@.skip(start as int),
            ),
            forall|m: int| start <= m < j ==> path@[m] != ':',
        decreases n - j,
    {
        let ghost prev = parts.deep_view();
        if path.get_char(j) == ':' {
            let piece = String::from_str(path.substring_char(start, j));
            parts.push(piece);
            proof {
                let rest = path@.skip(start as int);
                assert(forall|m: int| 0 <= m < j - start ==> rest[m] == path@[start + m]);
                assert(rest[j - start] == path@[j as int]);
                lemma_segment_run_is(rest, j - start);
                assert(rest.take(j - start) =~= path@.subrange(start as int, j as int));
                assert(rest.skip(j - start + 1) =~= path@.skip(j + 1));
                assert(parts.deep_view() =~= prev.push(path@.subrange(start as int, j as int)));
                assert(parts.deep_view() + spec_split_colon(path@.skip(j + 1)) =~= prev + seq![
                    path@.subrange(start as int, j as int),
                ] + spec_split_colon(path@.skip(j + 1)));
            }
            start = j + 1;
        }
        j += 1;
    }
    let last_piece = String::from_str(path.substring_char(start, n));
    parts.push(last_piece);
    proof {
        let ghost prev = parts.deep_view().drop_last();
        let rest = path@.skip(start as int);
        assert(forall|m: int| 0 <= m < n - start ==> rest[m] == path@[start + m]);
        lemma_segment_run_is(rest, n - start);
        assert(rest.take(n - start) =~= rest);
        assert(spec_split_colon(rest) == seq![rest]);
        assert(rest =~= path@.subrange(start as int, n as int));
        assert(parts.deep_view() =~= spec_split_colon(path@));
    }
    parts
}

/// The filesystem path under which a directory entry is probed for a
/// command name: `<directory>/<name>`.
pub open spec fn spec_candidate(dir: Seq<char>, name: Seq<char>) -> Seq<char> {
    dir + "/"@ + name
}

/// The candidate path for a command name under one search-path directory.
pub fn candidate_path(dir: &str, name: &str) -> (r: String)
    ensures
        r@ == spec_candidate(dir@, name@),
{
    let mut out = String::from_str(dir);
    out.append("/");
    out.append(name);
    out
}

/// The first directory whose candidate exists wins. `exists[i]` says
/// whether the candidate of `dirs[i]` was found on the filesystem; the
/// result is that first candidate path, or `None` when no probe succeeded.
pub fn resolve_first(dirs: &Vec<String>, name: &str, exists: &Vec<bool>) -> (r: Option<String>)
    requires
        dirs@.len() == exists@.len(),
    ensures
        match r {
            Some(path) => exists|i: int|
                0 <= i < exists@.len() && #[trigger] exists@[i] && (forall|j: int|
                    0 <= j < i ==> !exists@[j]) && path@ == spec_candidate(dirs@[i]@, name@),
            None => forall|i: int| 0 <= i < exists@.len() ==> !exists@[i],
        },
{
    let mut i: usize = 0;
    while i < dirs.len()
        invariant
            dirs@.len() == exists@.len(),
            i <= dirs@.len(),
            forall|j: int| 0 <= j < i ==> !exists@[j],
        decreases dirs@.len() - i,
    {
        if exists[i] {
            let path = candidate_path(dirs[i].as_str(), name);
            return Some(path);
        }
        i += 1;
    }
    None
}

} // verus!
