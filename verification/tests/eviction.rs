use dircap::accounting::total_size;
use dircap::entry::{Config, Entry, FileKind};
use dircap::evict::{plan_evictions, Outcome, Plan};
use dircap::order::sort_by_mtime;

fn entry(path: &[&str], kind: FileKind, size: u64, mtime: i64) -> Entry {
    let mut components: Vec<String> = Vec::new();
    for c in path {
        components.push(c.to_string());
    }
    Entry { path: components, kind, size, mtime }
}

fn components(path: &[&str]) -> Vec<String> {
    let mut v: Vec<String> = Vec::new();
    for c in path {
        v.push(c.to_string());
    }
    v
}

fn cfg(dry_run: bool, keep_parents: bool, goal: u64) -> Config {
    Config { dry_run, keep_parents, goal }
}

fn deleted_paths(plan: &Plan) -> Vec<Vec<String>> {
    let mut v: Vec<Vec<String>> = Vec::new();
    for d in &plan.deletions {
        v.push(d.entry.path.clone());
    }
    v
}

#[test]
fn empty_root_nothing_to_do() {
    let entries: Vec<Entry> = Vec::new();
    let total = total_size(&entries).unwrap();
    assert_eq!(total, 0);
    let plan = plan_evictions(&cfg(false, false, 0), total, entries);
    assert_eq!(plan.outcome, Outcome::NothingToDo);
    assert_eq!(plan.deletions.len(), 0);
    assert_eq!(plan.final_total, 0);
}

#[test]
fn under_goal_deletes_nothing() {
    let entries = vec![
        entry(&["a", "f.txt"], FileKind::Regular, 60, 3),
        entry(&["b", "g.txt"], FileKind::Regular, 40, 1),
    ];
    let total = total_size(&entries).unwrap();
    assert_eq!(total, 100);
    let plan = plan_evictions(&cfg(false, false, 100), total, sort_by_mtime(entries));
    assert_eq!(plan.outcome, Outcome::NothingToDo);
    assert_eq!(plan.deletions.len(), 0);
    assert_eq!(plan.final_total, 100);
}

#[test]
fn oldest_file_goes_first_then_stop() {
    // Two files of 100 bytes in sibling directories; the older one must be
    // deleted, the newer one must survive, and the loop must stop at the
    // goal of 100.
    let entries = vec![
        entry(&["a"], FileKind::Directory, 4096, 0),
        entry(&["a", "old.txt"], FileKind::Regular, 100, 0),
        entry(&["b"], FileKind::Directory, 4096, 1),
        entry(&["b", "new.txt"], FileKind::Regular, 100, 1),
    ];
    let total = total_size(&entries).unwrap();
    assert_eq!(total, 200);
    let plan = plan_evictions(&cfg(false, false, 100), total, sort_by_mtime(entries));
    assert_eq!(plan.deletions.len(), 1);
    assert_eq!(plan.deletions[0].entry.path, components(&["a", "old.txt"]));
    assert_eq!(plan.deletions[0].new_total, 100);
    assert_eq!(
        plan.deletions[0].prune,
        vec![components(&["a"]), components(&[])]
    );
    assert_eq!(plan.final_total, 100);
    assert_eq!(plan.outcome, Outcome::UnderLimit);
}

#[test]
fn deletion_order_is_global_across_subdirectories() {
    // Interleaved modification times across nested directories: the plan
    // must follow one global oldest-first order, not a per-directory one.
    let entries = vec![
        entry(&["a", "x", "f3.txt"], FileKind::Regular, 1, 30),
        entry(&["b", "f1.txt"], FileKind::Regular, 1, 10),
        entry(&["a", "f4.txt"], FileKind::Regular, 1, 40),
        entry(&["b", "y", "f2.txt"], FileKind::Regular, 1, 20),
    ];
    let total = total_size(&entries).unwrap();
    let plan = plan_evictions(&cfg(true, false, 0), total, sort_by_mtime(entries));
    assert_eq!(
        deleted_paths(&plan),
        vec![
            components(&["b", "f1.txt"]),
            components(&["b", "y", "f2.txt"]),
            components(&["a", "x", "f3.txt"]),
            components(&["a", "f4.txt"]),
        ]
    );
    let mtimes: Vec<i64> = plan.deletions.iter().map(|d| d.entry.mtime).collect();
    for pair in mtimes.windows(2) {
        assert!(pair[0] <= pair[1]);
    }
    assert_eq!(plan.final_total, 0);
    assert_eq!(plan.outcome, Outcome::UnderLimit);
}

#[test]
fn directories_and_special_entries_are_never_deleted() {
    let entries = vec![
        entry(&["d"], FileKind::Directory, 4096, 0),
        entry(&["d", "sock"], FileKind::Other, 500, 1),
        entry(&["d", "f.txt"], FileKind::Regular, 10, 2),
    ];
    let total = total_size(&entries).unwrap();
    assert_eq!(total, 10);
    let plan = plan_evictions(&cfg(false, true, 0), total, sort_by_mtime(entries));
    assert_eq!(deleted_paths(&plan), vec![components(&["d", "f.txt"])]);
    assert_eq!(plan.final_total, 0);
}

#[test]
fn dry_run_trace_matches_real_run() {
    let build = || {
        vec![
            entry(&["a", "f1.txt"], FileKind::Regular, 30, 1),
            entry(&["b", "f2.txt"], FileKind::Regular, 30, 2),
            entry(&["c", "f3.txt"], FileKind::Regular, 30, 3),
        ]
    };
    let total = total_size(&build()).unwrap();
    let dry = plan_evictions(&cfg(true, false, 40), total, sort_by_mtime(build()));
    let real = plan_evictions(&cfg(false, false, 40), total, sort_by_mtime(build()));
    assert_eq!(deleted_paths(&dry), deleted_paths(&real));
    assert_eq!(dry.final_total, real.final_total);
    assert_eq!(dry.outcome, real.outcome);
    let dry_totals: Vec<u64> = dry.deletions.iter().map(|d| d.new_total).collect();
    let real_totals: Vec<u64> = real.deletions.iter().map(|d| d.new_total).collect();
    assert_eq!(dry_totals, real_totals);
    assert_eq!(dry_totals, vec![60, 30]);
    // The dry run plans no pruning at all; the real run does.
    for d in &dry.deletions {
        assert_eq!(d.prune.len(), 0);
    }
    assert!(real.deletions.iter().all(|d| d.prune.len() > 0));
}

#[test]
fn keep_parents_plans_no_pruning() {
    let entries = vec![entry(&["a", "b", "f.txt"], FileKind::Regular, 10, 0)];
    let total = total_size(&entries).unwrap();
    let plan = plan_evictions(&cfg(false, true, 0), total, sort_by_mtime(entries));
    assert_eq!(plan.deletions.len(), 1);
    assert_eq!(plan.deletions[0].prune.len(), 0);
}

#[test]
fn accurate_total_always_reaches_goal() {
    let entries = vec![
        entry(&["a", "f1"], FileKind::Regular, 70, 5),
        entry(&["a", "f2"], FileKind::Regular, 50, 2),
        entry(&["b", "f3"], FileKind::Regular, 80, 9),
    ];
    let total = total_size(&entries).unwrap();
    assert_eq!(total, 200);
    let plan = plan_evictions(&cfg(false, false, 120), total, sort_by_mtime(entries));
    assert!(plan.final_total <= 120);
    assert_eq!(
        deleted_paths(&plan),
        vec![components(&["a", "f2"]), components(&["a", "f1"])]
    );
    assert_eq!(plan.final_total, 80);
    assert_eq!(plan.outcome, Outcome::UnderLimit);
}

#[test]
fn goal_zero_deletes_every_file() {
    let entries = vec![
        entry(&["a", "f1"], FileKind::Regular, 1, 1),
        entry(&["b", "f2"], FileKind::Regular, 2, 2),
    ];
    let total = total_size(&entries).unwrap();
    let plan = plan_evictions(&cfg(false, false, 0), total, sort_by_mtime(entries));
    assert_eq!(plan.deletions.len(), 2);
    assert_eq!(plan.final_total, 0);
    assert_eq!(plan.outcome, Outcome::UnderLimit);
}

#[test]
fn exhausted_when_total_stays_over_goal() {
    // The starting total says more is on disk than the entries of the second
    // walk account for: the pass runs out of entries while still over goal.
    let entries = vec![entry(&["a", "f.txt"], FileKind::Regular, 50, 0)];
    let plan = plan_evictions(&cfg(false, false, 100), 300, sort_by_mtime(entries));
    assert_eq!(plan.deletions.len(), 1);
    assert_eq!(plan.final_total, 250);
    assert_eq!(plan.outcome, Outcome::Exhausted);
}

#[test]
fn running_total_stops_at_zero() {
    // A file larger than the stated total: the running total bottoms out at
    // zero instead of wrapping.
    let entries = vec![entry(&["a", "big.bin"], FileKind::Regular, 50, 0)];
    let plan = plan_evictions(&cfg(false, false, 20), 30, sort_by_mtime(entries));
    assert_eq!(plan.deletions.len(), 1);
    assert_eq!(plan.deletions[0].new_total, 0);
    assert_eq!(plan.final_total, 0);
    assert_eq!(plan.outcome, Outcome::UnderLimit);
}
