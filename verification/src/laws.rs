//! What the library guarantees of every run, proved once and for all over
//! the spec functions the public contracts are stated in.

use vstd::prelude::*;

use crate::accounting::{counted_total, lemma_counted_total_nonneg, lemma_counted_total_split};
use crate::entry::{is_counted, Config, Entry};
use crate::evict::{evict_final, evict_trace, sub_to_zero};
use crate::order::sorted_by_mtime;
use crate::prune::{ancestor_chain, prune_for};

verus! {

/// The entries a run deletes, in order.
pub open spec fn deleted_entries(entries: Seq<Entry>, total: int, goal: int) -> Seq<Entry> {
    evict_trace(entries, total, goal).map_values(|p: (Entry, int)| p.0)
}

/// Filtering a sequence of entries keeps its first element exactly when the
/// predicate holds of it, followed by the filtered rest.
proof fn lemma_filter_cons(entries: Seq<Entry>, pred: spec_fn(Entry) -> bool)
    requires
        entries.len() > 0,
    ensures
        entries.filter(pred) == (if pred(entries[0]) {
            seq![entries[0]]
        } else {
            Seq::<Entry>::empty()
        }) + entries.drop_first().filter(pred),
{
    reveal_with_fuel(Seq::filter, 2);
    let head = entries[0];
    let rest = entries.drop_first();
    let one = seq![head];
    assert(entries =~= one + rest);
    Seq::filter_distributes_over_add(one, rest, pred);
    assert(one.drop_last() =~= Seq::<Entry>::empty());
    assert(one.last() == head);
    if pred(head) {
        assert(Seq::<Entry>::empty().push(head) =~= one);
        assert(one.filter(pred) =~= one);
    } else {
        assert(one.filter(pred) == Seq::<Entry>::empty());
    }
}

/// A tree already at or below the goal is left alone: the eviction pass
/// deletes nothing, and the run ends with the total it started with.
pub proof fn lemma_under_goal_deletes_nothing(entries: Seq<Entry>, total: int, goal: int)
    requires
        total <= goal,
    ensures
        evict_trace(entries, total, goal).len() == 0,
        evict_final(entries, total, goal) == total,
{
}

/// Every run ends at or below the goal, or with every counted entry of the
/// tree deleted: a run never stops while the total is still over the goal
/// and a file or symbolic link is left.
pub proof fn lemma_goal_reached_or_tree_exhausted(entries: Seq<Entry>, total: int, goal: int)
    ensures
        evict_final(entries, total, goal) <= goal || deleted_entries(entries, total, goal)
            == entries.filter(|e: Entry| is_counted(e.kind)),
    decreases entries.len(),
{
    reveal(Seq::filter);
    let pred = |e: Entry| is_counted(e.kind);
    if total <= goal {
    } else if entries.len() == 0 {
        assert(deleted_entries(entries, total, goal) =~= entries.filter(pred));
    } else {
        let head = entries[0];
        let rest = entries.drop_first();
        lemma_filter_cons(entries, pred);
        if !is_counted(head.kind) {
            lemma_goal_reached_or_tree_exhausted(rest, total, goal);
            if !(evict_final(entries, total, goal) <= goal) {
                assert(deleted_entries(entries, total, goal) =~= deleted_entries(
                    rest,
                    total,
                    goal,
                ));
                assert(entries.filter(pred) =~= rest.filter(pred));
            }
        } else {
            let next = sub_to_zero(total, head.size as int);
            if next <= goal {
                assert(evict_trace(rest, next, goal).len() == 0);
                assert(evict_trace(entries, total, goal) =~= seq![(head, next)]);
            } else {
                lemma_goal_reached_or_tree_exhausted(rest, next, goal);
                if evict_final(rest, next, goal) <= goal {
                    assert(evict_trace(rest, next, goal).len() > 0);
                    assert(evict_trace(entries, total, goal).last() == evict_trace(
                        rest,
                        next,
                        goal,
                    ).last());
                } else {
                    assert(deleted_entries(entries, total, goal) =~= seq![head]
                        + deleted_entries(rest, next, goal));
                    assert(entries.filter(pred) =~= seq![head] + rest.filter(pred));
                    assert(deleted_entries(entries, total, goal) =~= entries.filter(pred));
                }
            }
        }
    }
}

/// When the starting total really is the aggregate counted size of the
/// entries the pass visits, the run always ends at or below the goal: either
/// it stops there early, or it deletes every counted entry and ends at zero.
pub proof fn lemma_accurate_total_reaches_goal(entries: Seq<Entry>, goal: int)
    requires
        0 <= goal,
    ensures
        evict_final(entries, counted_total(entries), goal) <= goal,
    decreases entries.len(),
{
    let total = counted_total(entries);
    if total <= goal {
    } else {
        let head = entries[0];
        let rest = entries.drop_first();
        lemma_counted_total_nonneg(rest);
        if !is_counted(head.kind) {
            lemma_accurate_total_reaches_goal(rest, goal);
            assert(evict_trace(entries, total, goal) == evict_trace(rest, total, goal));
        } else {
            let next = sub_to_zero(total, head.size as int);
            assert(next == counted_total(rest));
            lemma_accurate_total_reaches_goal(rest, goal);
            if next <= goal {
            } else {
                assert(evict_trace(rest, next, goal).len() > 0);
                assert(evict_trace(entries, total, goal).last() == evict_trace(
                    rest,
                    next,
                    goal,
                ).last());
            }
        }
    }
}

/// Every deletion of a trace has a modification time at least `bound` when
/// every entry of the pass has.
proof fn lemma_trace_mtime_bound(entries: Seq<Entry>, total: int, goal: int, bound: int)
    requires
        forall|k: int| 0 <= k < entries.len() ==> bound <= entries[k].mtime,
    ensures
        forall|j: int|
            0 <= j < evict_trace(entries, total, goal).len() ==> bound <= evict_trace(
                entries,
                total,
                goal,
            )[j].0.mtime,
    decreases entries.len(),
{
    if total <= goal || entries.len() == 0 {
    } else {
        let rest = entries.drop_first();
        assert(forall|k: int| 0 <= k < rest.len() ==> bound <= rest[k].mtime);
        if !is_counted(entries[0].kind) {
            lemma_trace_mtime_bound(rest, total, goal, bound);
        } else {
            let next = sub_to_zero(total, entries[0].size as int);
            lemma_trace_mtime_bound(rest, next, goal, bound);
        }
    }
}

/// Files are deleted oldest first: over entries in ascending
/// modification-time order — as one global order across the whole tree —
/// the deletion trace's modification times never decrease.
pub proof fn lemma_deletes_oldest_first(entries: Seq<Entry>, total: int, goal: int)
    requires
        sorted_by_mtime(entries),
    ensures
        forall|i: int, j: int|
            0 <= i < j < evict_trace(entries, total, goal).len() ==> evict_trace(
                entries,
                total,
                goal,
            )[i].0.mtime <= evict_trace(entries, total, goal)[j].0.mtime,
    decreases entries.len(),
{
    if total <= goal || entries.len() == 0 {
    } else {
        let head = entries[0];
        let rest = entries.drop_first();
        assert(sorted_by_mtime(rest)) by {
            assert(forall|i: int, j: int|
                0 <= i < j < rest.len() ==> rest[i].mtime <= rest[j].mtime) by {
                assert(forall|i: int| 0 <= i < rest.len() ==> rest[i] == entries[i + 1]);
            }
        }
        if !is_counted(head.kind) {
            lemma_deletes_oldest_first(rest, total, goal);
        } else {
            let next = sub_to_zero(total, head.size as int);
            lemma_deletes_oldest_first(rest, next, goal);
            assert(forall|k: int| 0 <= k < rest.len() ==> head.mtime as int <= rest[k].mtime);
            lemma_trace_mtime_bound(rest, next, goal, head.mtime as int);
            let tr = evict_trace(entries, total, goal);
            let tr_rest = evict_trace(rest, next, goal);
            assert(tr == seq![(head, next)] + tr_rest);
            assert(forall|j: int| 1 <= j < tr.len() ==> tr[j] == tr_rest[j - 1]);
        }
    }
}

/// Only regular files and symbolic links are ever deleted by the eviction
/// pass: directories and special objects never appear in a deletion trace.
pub proof fn lemma_only_counted_deleted(entries: Seq<Entry>, total: int, goal: int)
    ensures
        forall|j: int|
            0 <= j < evict_trace(entries, total, goal).len() ==> is_counted(
                evict_trace(entries, total, goal)[j].0.kind,
            ),
    decreases entries.len(),
{
    if total <= goal || entries.len() == 0 {
    } else {
        let rest = entries.drop_first();
        if !is_counted(entries[0].kind) {
            lemma_only_counted_deleted(rest, total, goal);
        } else {
            let next = sub_to_zero(total, entries[0].size as int);
            lemma_only_counted_deleted(rest, next, goal);
        }
    }
}

/// Directories and special objects never count toward the aggregate size:
/// the total of a tree is the total of just its counted entries.
pub proof fn lemma_uncounted_never_in_total(entries: Seq<Entry>)
    ensures
        counted_total(entries) == counted_total(entries.filter(|e: Entry| is_counted(e.kind))),
    decreases entries.len(),
{
    reveal(Seq::filter);
    let pred = |e: Entry| is_counted(e.kind);
    if entries.len() == 0 {
    } else {
        let head = entries[0];
        let rest = entries.drop_first();
        lemma_uncounted_never_in_total(rest);
        lemma_filter_cons(entries, pred);
        let filtered_head = if pred(head) {
            seq![head]
        } else {
            Seq::<Entry>::empty()
        };
        lemma_counted_total_split(filtered_head + rest.filter(pred), filtered_head.len() as int);
        assert((filtered_head + rest.filter(pred)).take(filtered_head.len() as int)
            =~= filtered_head);
        assert((filtered_head + rest.filter(pred)).skip(filtered_head.len() as int) =~= rest.filter(
            pred,
        ));
        if is_counted(head.kind) {
            assert(counted_total(seq![head]) == head.size as int) by {
                assert(seq![head].drop_first() =~= Seq::<Entry>::empty());
                assert(seq![head][0] == head);
            }
        }
    }
}

/// A dry run previews a live run exactly: with the same goal, the deletion
/// trace — entries and running totals alike — is the same, while the dry
/// run itself plans no ancestor pruning at all.
pub proof fn lemma_dry_run_previews_real_run(
    dry: Config,
    live: Config,
    entries: Seq<Entry>,
    total: int,
)
    requires
        dry.dry_run,
        !live.dry_run,
        dry.goal == live.goal,
    ensures
        evict_trace(entries, total, dry.goal as int) == evict_trace(
            entries,
            total,
            live.goal as int,
        ),
        forall|path: Seq<String>| #[trigger] prune_for(dry, path) == Seq::<Seq<String>>::empty(),
{
    assert forall|path: Seq<String>| #[trigger] prune_for(dry, path) == Seq::<
        Seq<String>,
    >::empty() by {
        assert(prune_for(dry, path) =~= Seq::<Seq<String>>::empty());
    }
}

/// With `keep_parents` set, no ancestor pruning is ever planned: emptied
/// directories are left standing.
pub proof fn lemma_keep_parents_plans_no_pruning(cfg: Config, path: Seq<String>)
    requires
        cfg.keep_parents,
    ensures
        prune_for(cfg, path) == Seq::<Seq<String>>::empty(),
{
    assert(prune_for(cfg, path) =~= Seq::<Seq<String>>::empty());
}

/// With pruning on in a live run, the ancestors tried after a deletion are
/// exactly the deleted file's parent chain: nearest parent first, one step
/// up at a time, ending at the managed root itself, and never a directory
/// outside the managed tree.
pub proof fn lemma_pruning_walks_ancestors_to_root(cfg: Config, path: Seq<String>)
    requires
        !cfg.dry_run,
        !cfg.keep_parents,
        path.len() >= 1,
    ensures
        prune_for(cfg, path) == ancestor_chain(path),
        ancestor_chain(path).len() == path.len(),
        ancestor_chain(path)[0] == path.take(path.len() - 1),
        forall|k: int|
            0 <= k < path.len() ==> #[trigger] ancestor_chain(path)[k] == path.take(
                path.len() - 1 - k,
            ),
        ancestor_chain(path).last() == Seq::<String>::empty(),
        forall|k: int|
            0 <= k < path.len() ==> (#[trigger] ancestor_chain(path)[k]).is_prefix_of(path),
{
    assert(ancestor_chain(path).last() =~= Seq::<String>::empty());
    assert forall|k: int|
        0 <= k < path.len() implies (#[trigger] ancestor_chain(path)[k]).is_prefix_of(path) by {
        assert(ancestor_chain(path)[k] =~= path.subrange(0, path.len() - 1 - k));
    }
}

} // verus!
