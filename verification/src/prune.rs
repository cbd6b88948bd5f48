//! The ancestor pruner's decisions: which directories may be removed after a
//! file's deletion, nearest parent first, never leaving the managed root's
//! tree. Actually removing them is the caller's work; the caller tries each
//! candidate in order with a primitive that fails on a non-empty directory,
//! and stops at the first failure. That failure is the pruner's natural end,
//! not an error.

use vstd::prelude::*;

use crate::entry::Config;

verus! {

/// The ancestor directories of a deleted file that pruning may remove, in
/// order: for a path of components `p[0..n]` relative to the managed root,
/// the chain is `p[0..n-1]`, `p[0..n-2]`, ..., down to the empty path. The
/// empty path is the root itself: a root left fully empty is removed too.
pub open spec fn ancestor_chain(path: Seq<String>) -> Seq<Seq<String>> {
    Seq::new(path.len(), |k: int| path.take(path.len() - 1 - k))
}

/// The ancestors a run should try to remove after deleting the file at
/// `path`: none in a dry run, none when emptied parents are kept, otherwise
/// the whole ancestor chain.
pub open spec fn prune_for(cfg: Config, path: Seq<String>) -> Seq<Seq<String>> {
    if cfg.dry_run || cfg.keep_parents {
        Seq::empty()
    } else {
        ancestor_chain(path)
    }
}

/// Lists the ancestor directories of the file at `path` (components relative
/// to the managed root) from the file's immediate parent upward to the root,
/// each as its own component list.
pub fn prune_candidates(path: &Vec<String>) -> (r: Vec<Vec<String>>)
    ensures
        r@.len() == ancestor_chain(path@).len(),
        forall|k: int| 0 <= k < r@.len() ==> r@[k]@ == ancestor_chain(path@)[k],
{
    let n = path.len();
    let mut r: Vec<Vec<String>> = Vec::new();
    let mut k: usize = 0;
    while k < n
        invariant
            0 <= k <= n,
            n == path@.len(),
            r@.len() == k,
            forall|kk: int| 0 <= kk < k ==> r@[kk]@ == path@.take(n - 1 - kk),
        decreases n - k,
    {
        let len = n - 1 - k;
        let mut pref: Vec<String> = Vec::new();
        let mut j: usize = 0;
        while j < len
            invariant
                0 <= j <= len < n == path@.len(),
                pref@.len() == j,
                forall|jj: int| 0 <= jj < j ==> pref@[jj] == path@[jj],
            decreases len - j,
        {
            pref.push(path[j].clone());
            j = j + 1;
        }
        proof {
            assert(pref@ =~= path@.take(len as int));
        }
        r.push(pref);
        k = k + 1;
    }
    r
}

} // verus!
