//! Pass two's ordering: one global sort of all entries by modification time,
//! oldest first, across the whole tree. Per-directory ordering would not do:
//! the eviction policy always deletes the single oldest file of the entire
//! tree next.

use vstd::prelude::*;
use vstd::seq_lib::group_to_multiset_ensures;

use crate::entry::Entry;

verus! {

/// Ascending modification-time order: every entry's mtime is at most that of
/// every entry after it.
pub open spec fn sorted_by_mtime(s: Seq<Entry>) -> bool {
    forall|i: int, j: int| 0 <= i < j < s.len() ==> s[i].mtime <= s[j].mtime
}

/// The index of an entry with minimal modification time.
fn index_of_oldest(entries: &Vec<Entry>) -> (m: usize)
    requires
        entries@.len() > 0,
    ensures
        0 <= m < entries@.len(),
        forall|j: int| 0 <= j < entries@.len() ==> entries@[m as int].mtime <= entries@[j].mtime,
{
    let mut m: usize = 0;
    let mut i: usize = 1;
    while i < entries.len()
        invariant
            0 <= m < i <= entries@.len(),
            forall|j: int| 0 <= j < i ==> entries@[m as int].mtime <= entries@[j].mtime,
        decreases entries@.len() - i,
    {
        if entries[i].mtime < entries[m].mtime {
            m = i;
        }
        i = i + 1;
    }
    m
}

/// Sorts the entries of a whole tree walk into one global ascending order by
/// modification time. The result holds exactly the entries given, reordered;
/// entries with equal modification times may come out in any relative order.
pub fn sort_by_mtime(entries: Vec<Entry>) -> (r: Vec<Entry>)
    ensures
        sorted_by_mtime(r@),
        r@.to_multiset() == entries@.to_multiset(),
{
    broadcast use group_to_multiset_ensures;

    let mut rest = entries;
    let mut out: Vec<Entry> = Vec::new();
    proof {
        assert(out@.to_multiset().add(rest@.to_multiset()) =~= entries@.to_multiset());
    }
    while rest.len() > 0
        invariant
            sorted_by_mtime(out@),
            out@.to_multiset().add(rest@.to_multiset()) == entries@.to_multiset(),
            forall|i: int, j: int|
                0 <= i < out@.len() && 0 <= j < rest@.len() ==> out@[i].mtime <= rest@[j].mtime,
        decreases rest@.len(),
    {
        broadcast use group_to_multiset_ensures;

        let ghost prev_out = out@;
        let ghost prev_rest = rest@;
        let m = index_of_oldest(&rest);
        let e = rest.remove(m);
        out.push(e);
        proof {
            assert(prev_rest.contains(e)) by {
                assert(prev_rest[m as int] == e);
            }
            assert(prev_rest.to_multiset().count(e) > 0);
            assert(out@.to_multiset().add(rest@.to_multiset()) =~= prev_out.to_multiset().add(
                prev_rest.to_multiset(),
            ));
            assert(forall|j: int|
                0 <= j < rest@.len() ==> rest@[j] == prev_rest[
                    (if j < m { j } else { j + 1 })
                ]);
        }
    }
    out
}

} // verus!
