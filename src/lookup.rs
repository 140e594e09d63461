use vstd::prelude::*;
use crate::sparse::PolyidEntry;

verus! {

/// Sum of the point counts of table rows `[0, i)`.
pub open spec fn count_sum(t: Seq<(u64, u64)>, i: int) -> int
    decreases i,
{
    if i <= 0 {
        0
    } else {
        count_sum(t, i - 1) + t[i - 1].1
    }
}

/// Sum of the point counts of region entries `[0, i)`.
pub open spec fn total_points(e: Seq<PolyidEntry>, i: int) -> nat
    decreases i,
{
    if i <= 0 {
        0
    } else {
        total_points(e, i - 1) + e[i - 1].data@.len()
    }
}

/// Every row's offset is the sum of the counts before it.
pub open spec fn offsets_consistent(t: Seq<(u64, u64)>) -> bool {
    forall|i: int| 0 <= i < t.len() ==> #[trigger] t[i].0 == count_sum(t, i)
}

/// The table has one row per entry, and each row's count is that entry's
/// number of points.
pub open spec fn counts_match(t: Seq<(u64, u64)>, e: Seq<PolyidEntry>) -> bool {
    &&& t.len() == e.len()
    &&& forall|i: int| 0 <= i < t.len() ==> #[trigger] t[i].1 == e[i].data@.len()
}

pub proof fn lemma_count_sum_matches(t: Seq<(u64, u64)>, e: Seq<PolyidEntry>, i: int)
    requires
        counts_match(t, e),
        0 <= i <= t.len(),
    ensures
        count_sum(t, i) == total_points(e, i),
    decreases i,
{
    if i > 0 {
        lemma_count_sum_matches(t, e, i - 1);
    }
}

pub proof fn lemma_count_sum_mono(t: Seq<(u64, u64)>, i: int, j: int)
    requires
        0 <= i <= j <= t.len(),
    ensures
        count_sum(t, i) <= count_sum(t, j),
    decreases j - i,
{
    if i < j {
        lemma_count_sum_mono(t, i, j - 1);
    }
}

/// Builds the lookup table of the region entries: row `i` holds the number
/// of points before entry `i` and the number of points in it. `None` when
/// the total number of points does not fit in a `u64`.
pub fn build_lookup_table(entries: &Vec<PolyidEntry>) -> (r: Option<Vec<(u64, u64)>>)
    ensures
        r is None <==> total_points(entries@, entries@.len() as int) > u64::MAX,
        r matches Some(t) ==> {
            &&& counts_match(t@, entries@)
            &&& offsets_consistent(t@)
            &&& (t@.len() == 0 || t@[0].0 == 0)
        },
{
    let mut table: Vec<(u64, u64)> = Vec::new();
    let mut running: u64 = 0;
    let mut i: usize = 0;
    while i < entries.len()
        invariant
            i <= entries@.len(),
            table@.len() == i,
            forall|j: int| 0 <= j < i ==> #[trigger] table@[j].1 == entries@[j].data@.len(),
            offsets_consistent(table@),
            running == count_sum(table@, i as int),
            running == total_points(entries@, i as int),
        decreases entries@.len() - i,
    {
        let n = entries[i].data.len() as u64;
        proof {
            lemma_total_mono(entries@, i + 1, entries@.len() as int);
        }
        if running > u64::MAX - n {
            return None;
        }
        let ghost old_table = table@;
        table.push((running, n));
        proof {
            assert forall|j: int| 0 <= j <= i implies count_sum(table@, j) == count_sum(
                old_table,
                j,
            ) by {
                lemma_count_sum_prefix(old_table, table@, j);
            }
        }
        running = running + n;
        i = i + 1;
    }
    Some(table)
}

/// The total of a prefix depends only on the entries in it.
pub proof fn lemma_total_points_prefix(a: Seq<PolyidEntry>, b: Seq<PolyidEntry>, j: int)
    requires
        0 <= j <= a.len() <= b.len(),
        forall|k: int| 0 <= k < a.len() ==> a[k] == b[k],
    ensures
        total_points(a, j) == total_points(b, j),
    decreases j,
{
    if j > 0 {
        lemma_total_points_prefix(a, b, j - 1);
    }
}

proof fn lemma_total_mono(e: Seq<PolyidEntry>, i: int, j: int)
    requires
        0 <= i <= j <= e.len(),
    ensures
        total_points(e, i) <= total_points(e, j),
    decreases j - i,
{
    if i < j {
        lemma_total_mono(e, i, j - 1);
    }
}

proof fn lemma_count_sum_prefix(a: Seq<(u64, u64)>, b: Seq<(u64, u64)>, j: int)
    requires
        0 <= j <= a.len() <= b.len(),
        forall|k: int| 0 <= k < a.len() ==> a[k] == b[k],
    ensures
        count_sum(a, j) == count_sum(b, j),
    decreases j,
{
    if j > 0 {
        lemma_count_sum_prefix(a, b, j - 1);
    }
}

/// Whether the table has one row per entry with that entry's point count.
pub fn counts_agree(table: &Vec<(u64, u64)>, entries: &Vec<PolyidEntry>) -> (r: bool)
    ensures
        r == counts_match(table@, entries@),
{
    if table.len() != entries.len() {
        return false;
    }
    let mut i: usize = 0;
    while i < table.len()
        invariant
            table@.len() == entries@.len(),
            i <= table@.len(),
            forall|j: int| 0 <= j < i ==> #[trigger] table@[j].1 == entries@[j].data@.len(),
        decreases table@.len() - i,
    {
        if table[i].1 != entries[i].data.len() as u64 {
            return false;
        }
        i = i + 1;
    }
    true
}

} // verus!
