//! The eviction engine: given the configuration, the total from pass one and
//! the entries of pass two in ascending modification-time order, compute the
//! exact list of deletions that brings the running total to or below the
//! goal, together with the ancestors to prune after each one and how the run
//! ends. The plan is the same whether or not it will be carried out: a dry
//! run previews exactly what a real run would do.

use vstd::prelude::*;

use crate::entry::{counted_file_type, is_counted, Config, Entry};
use crate::prune::{prune_candidates, prune_for};

verus! {

/// A running total after one deletion: the deleted file's size is taken off,
/// stopping at zero. (With a total that truly is the aggregate counted size
/// of the entries, zero is never undershot.)
pub open spec fn sub_to_zero(running: int, size: int) -> int {
    if running >= size {
        running - size
    } else {
        0
    }
}

/// The deletion trace: which entries the eviction pass deletes, in order,
/// each paired with the running total just after it. Entries are taken
/// oldest first as given; directories and special objects are skipped; the
/// pass stops as soon as the running total is at or below the goal.
pub open spec fn evict_trace(entries: Seq<Entry>, running: int, goal: int) -> Seq<(Entry, int)>
    decreases entries.len(),
{
    if running <= goal || entries.len() == 0 {
        Seq::empty()
    } else if !is_counted(entries[0].kind) {
        evict_trace(entries.drop_first(), running, goal)
    } else {
        let next = sub_to_zero(running, entries[0].size as int);
        seq![(entries[0], next)] + evict_trace(entries.drop_first(), next, goal)
    }
}

/// The running total when the eviction pass ends: the total after the last
/// deletion, or the initial total when nothing is deleted.
pub open spec fn evict_final(entries: Seq<Entry>, running: int, goal: int) -> int {
    let tr = evict_trace(entries, running, goal);
    if tr.len() == 0 {
        running
    } else {
        tr.last().1
    }
}

/// One planned deletion: the entry to delete, the running total just after
/// it, and the ancestor directories to try to remove afterwards (empty in a
/// dry run or when emptied parents are kept).
#[derive(Debug)]
pub struct Deletion {
    pub entry: Entry,
    pub new_total: u64,
    pub prune: Vec<Vec<String>>,
}

/// How the run ends.
#[derive(Clone, Copy, PartialEq, Eq, Structural, Debug)]
pub enum Outcome {
    /// The tree was already at or below the goal: nothing to do, no second
    /// pass.
    NothingToDo,
    /// Deleting brought the running total to or below the goal; later
    /// entries are left untouched.
    UnderLimit,
    /// The entries ran out while the running total was still over the goal.
    Exhausted,
}

/// The whole plan of a run.
#[derive(Debug)]
pub struct Plan {
    pub deletions: Vec<Deletion>,
    pub final_total: u64,
    pub outcome: Outcome,
}

/// The (entry, running total) pairs of a plan's deletions.
pub open spec fn plan_trace(deletions: Seq<Deletion>) -> Seq<(Entry, int)> {
    deletions.map_values(|d: Deletion| (d.entry, d.new_total as int))
}

/// A planned deletion's prune field holds exactly the ancestors the run's
/// mode asks for: the whole ancestor chain of the deleted file when pruning
/// is on and the run is real, nothing otherwise.
pub open spec fn prune_ok(cfg: Config, d: Deletion) -> bool {
    &&& d.prune@.len() == prune_for(cfg, d.entry.path@).len()
    &&& forall|k: int| 0 <= k < d.prune@.len() ==> d.prune@[k]@ == prune_for(cfg, d.entry.path@)[k]
}

/// Plans the eviction pass. `entries` must already be in the order the pass
/// is to visit them (ascending modification time, see
/// [`crate::order::sort_by_mtime`]); `total` is the aggregate counted size
/// pass one computed. The plan deletes entries oldest first, skipping
/// everything but regular files and symbolic links, until the running total
/// is at or below `cfg.goal` or the entries run out.
pub fn plan_evictions(cfg: &Config, total: u64, entries: Vec<Entry>) -> (p: Plan)
    ensures
        plan_trace(p.deletions@) == evict_trace(entries@, total as int, cfg.goal as int),
        p.final_total as int == evict_final(entries@, total as int, cfg.goal as int),
        forall|i: int| 0 <= i < p.deletions@.len() ==> prune_ok(*cfg, #[trigger] p.deletions@[i]),
        p.outcome == Outcome::NothingToDo <==> total <= cfg.goal,
        p.outcome == Outcome::UnderLimit <==> total > cfg.goal && evict_final(
            entries@,
            total as int,
            cfg.goal as int,
        ) <= cfg.goal,
        p.outcome == Outcome::Exhausted <==> total > cfg.goal && evict_final(
            entries@,
            total as int,
            cfg.goal as int,
        ) > cfg.goal,
{
    let ghost all = entries@;
    let ghost goal = cfg.goal as int;
    let mut rest = entries;
    let mut running = total;
    let mut deletions: Vec<Deletion> = Vec::new();
    proof {
        assert(plan_trace(deletions@) =~= Seq::<(Entry, int)>::empty());
    }
    while rest.len() > 0 && running > cfg.goal
        invariant
            goal == cfg.goal as int,
            evict_trace(all, total as int, goal) == plan_trace(deletions@) + evict_trace(
                rest@,
                running as int,
                goal,
            ),
            running as int == (if deletions@.len() == 0 {
                total as int
            } else {
                plan_trace(deletions@).last().1
            }),
            forall|i: int| 0 <= i < deletions@.len() ==> prune_ok(*cfg, #[trigger] deletions@[i]),
        decreases rest@.len(),
    {
        let ghost prev_rest = rest@;
        let ghost prev_dels = deletions@;
        let ghost prev_running = running as int;
        let e = rest.remove(0);
        proof {
            assert(rest@ =~= prev_rest.drop_first());
        }
        if counted_file_type(e.kind) {
            running = if running >= e.size {
                running - e.size
            } else {
                0
            };
            let prune: Vec<Vec<String>> = if !cfg.dry_run && !cfg.keep_parents {
                prune_candidates(&e.path)
            } else {
                Vec::new()
            };
            let ghost snapshot = e;
            deletions.push(Deletion { entry: e, new_total: running, prune });
            proof {
                assert(running as int == sub_to_zero(prev_running, snapshot.size as int));
                assert(evict_trace(prev_rest, prev_running, goal) == seq![
                    (snapshot, running as int),
                ] + evict_trace(rest@, running as int, goal));
                assert(plan_trace(deletions@) =~= plan_trace(prev_dels).push(
                    (snapshot, running as int),
                ));
                assert(plan_trace(prev_dels) + (seq![(snapshot, running as int)] + evict_trace(
                    rest@,
                    running as int,
                    goal,
                )) =~= plan_trace(deletions@) + evict_trace(rest@, running as int, goal));
            }
        } else {
            proof {
                assert(evict_trace(prev_rest, prev_running, goal) == evict_trace(
                    rest@,
                    running as int,
                    goal,
                ));
            }
        }
    }
    proof {
        assert(evict_trace(rest@, running as int, goal) =~= Seq::<(Entry, int)>::empty());
        assert(plan_trace(deletions@) + Seq::<(Entry, int)>::empty() =~= plan_trace(deletions@));
    }
    let outcome = if total <= cfg.goal {
        Outcome::NothingToDo
    } else if running <= cfg.goal {
        Outcome::UnderLimit
    } else {
        Outcome::Exhausted
    };
    Plan { deletions, final_total: running, outcome }
}

} // verus!
