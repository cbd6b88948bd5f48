//! Pass one: the aggregate counted size of a tree, summed from the entries a
//! walk found, and the decision whether an eviction pass is needed.

use vstd::prelude::*;

use crate::entry::{counted_file_type, is_counted, Entry};

verus! {

/// The aggregate counted size of a sequence of entries: the sum of the sizes
/// of the regular files and symbolic links in it. Directories and special
/// objects contribute nothing.
pub open spec fn counted_total(entries: Seq<Entry>) -> int
    decreases entries.len(),
{
    if entries.len() == 0 {
        0
    } else {
        (if is_counted(entries[0].kind) {
            entries[0].size as int
        } else {
            0
        }) + counted_total(entries.drop_first())
    }
}

/// The aggregate counted size is never negative.
pub proof fn lemma_counted_total_nonneg(entries: Seq<Entry>)
    ensures
        counted_total(entries) >= 0,
    decreases entries.len(),
{
    if entries.len() > 0 {
        lemma_counted_total_nonneg(entries.drop_first());
    }
}

/// Splitting a sequence of entries at any point splits its aggregate size.
pub proof fn lemma_counted_total_split(entries: Seq<Entry>, i: int)
    requires
        0 <= i <= entries.len(),
    ensures
        counted_total(entries) == counted_total(entries.take(i)) + counted_total(entries.skip(i)),
    decreases i,
{
    if i == 0 {
        assert(entries.take(0) =~= Seq::<Entry>::empty());
        assert(entries.skip(0) =~= entries);
    } else {
        lemma_counted_total_split(entries.drop_first(), i - 1);
        assert(entries.take(i).drop_first() =~= entries.drop_first().take(i - 1));
        assert(entries.skip(i) =~= entries.drop_first().skip(i - 1));
        assert(counted_total(entries.take(i)) == (if is_counted(entries[0].kind) {
            entries[0].size as int
        } else {
            0
        }) + counted_total(entries.drop_first().take(i - 1)));
    }
}

/// Sums the sizes of all counted entries. Returns `None` exactly when the
/// true sum does not fit in 64 bits.
pub fn total_size(entries: &Vec<Entry>) -> (r: Option<u64>)
    ensures
        match r {
            Some(t) => t as int == counted_total(entries@),
            None => counted_total(entries@) > u64::MAX,
        },
{
    let mut acc: u64 = 0;
    let mut i: usize = 0;
    while i < entries.len()
        invariant
            0 <= i <= entries@.len(),
            acc as int == counted_total(entries@.take(i as int)),
        decreases entries@.len() - i,
    {
        proof {
            lemma_counted_total_split(entries@, i as int);
            assert(entries@.skip(i as int)[0] == entries@[i as int]);
            assert(entries@.skip(i as int).drop_first() =~= entries@.skip(i + 1));
            lemma_counted_total_nonneg(entries@.skip(i + 1));
            lemma_counted_total_split(entries@, i + 1);
        }
        if counted_file_type(entries[i].kind) {
            let size = entries[i].size;
            match acc.checked_add(size) {
                Some(next) => {
                    acc = next;
                },
                None => {
                    return None;
                },
            }
        }
        i = i + 1;
    }
    proof {
        assert(entries@.take(entries@.len() as int) =~= entries@);
    }
    Some(acc)
}

/// Whether the computed total calls for an eviction pass: true exactly when
/// the tree is over the goal.
pub fn over_goal(total: u64, goal: u64) -> (r: bool)
    ensures
        r == (total > goal),
{
    total > goal
}

} // verus!
