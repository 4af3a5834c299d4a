use vstd::prelude::*;
use crate::data_table::{DataTable, VecKind};

verus! {

/// An update of part of a gpu resource: `data` is written at byte `offset`.
#[derive(Clone, Debug)]
pub struct ResourceUpdate {
    pub data: Vec<u8>,
    pub offset: u64,
}

/// The maximal runs of consecutive `true` values in `d`, in order, each as
/// the pair (first index, one past the last index).
pub open spec fn dirty_runs(d: Seq<bool>) -> Seq<(int, int)>
    decreases d.len(),
{
    if d.len() == 0 {
        Seq::empty()
    } else {
        let prev = dirty_runs(d.drop_last());
        let i = d.len() - 1;
        if !d[i] {
            prev
        } else if i > 0 && d[i - 1] {
            prev.update(prev.len() - 1, (prev.last().0, i + 1))
        } else {
            prev.push((i, i + 1))
        }
    }
}

/// Whether instance `i` of `table` is dirty: some attribute named in `names`
/// is a dirty-tracked column whose element `i` is dirty.
pub open spec fn instance_dirty<T>(table: DataTable<T>, names: Seq<Seq<char>>, i: int) -> bool {
    exists|a: int| 0 <= a < names.len() && #[trigger] table.has_column(names[a], VecKind::Dirty)
        && i < table.column(names[a]).spec_len() && table.column(names[a]).flags()[i]
}

/// The dirty flags of the first `count` instances of `table`.
pub open spec fn instance_flags<T>(table: DataTable<T>, names: Seq<Seq<char>>, count: int) -> Seq<bool> {
    Seq::new(count as nat, |i: int| instance_dirty(table, names, i))
}

/// Every dirty-tracked column of `table` holds at least `count` rows.
pub open spec fn dirty_columns_cover<T>(table: DataTable<T>, count: int) -> bool {
    forall|j: int| 0 <= j < table.column_seq().len() && #[trigger] table.column_seq()[j].kind() == VecKind::Dirty
        ==> count <= table.column_seq()[j].spec_len()
}

/// The bytes of rows `start` up to `end` (exclusive), one after the other.
pub open spec fn rows_bytes(rows: Seq<Vec<u8>>, start: int, end: int) -> Seq<u8> {
    rows.subrange(start, end).map_values(|r: Vec<u8>| r@).flatten()
}

/// The updates that the dirty runs call for: for each run, the bytes of its
/// rows, at the offset of its first row.
pub open spec fn updates_match(updates: Seq<ResourceUpdate>, runs: Seq<(int, int)>, rows: Seq<Vec<u8>>, stride: int) -> bool {
    &&& updates.len() == runs.len()
    &&& forall|k: int| 0 <= k < runs.len() ==> {
        &&& (#[trigger] updates[k]).offset == runs[k].0 * stride
        &&& updates[k].data@ == rows_bytes(rows, runs[k].0, runs[k].1)
    }
}

/// The bytes of rows `a` to `c` are those of rows `a` to `b` followed by
/// those of rows `b` to `c`.
pub proof fn lemma_rows_bytes_split(rows: Seq<Vec<u8>>, a: int, b: int, c: int)
    requires
        0 <= a <= b <= c <= rows.len(),
    ensures
        rows_bytes(rows, a, c) == rows_bytes(rows, a, b) + rows_bytes(rows, b, c),
{
    let f = |r: Vec<u8>| r@;
    assert(rows.subrange(a, c).map_values(f) =~= rows.subrange(a, b).map_values(f) + rows.subrange(b, c).map_values(f));
    vstd::seq_lib::lemma_flatten_concat(rows.subrange(a, b).map_values(f), rows.subrange(b, c).map_values(f));
}

/// Rows of `stride` bytes each give `stride` bytes per row.
pub proof fn lemma_rows_bytes_len(rows: Seq<Vec<u8>>, a: int, b: int, stride: int)
    requires
        0 <= a <= b <= rows.len(),
        forall|i: int| a <= i < b ==> (#[trigger] rows[i])@.len() == stride,
    ensures
        rows_bytes(rows, a, b).len() == (b - a) * stride,
    decreases b - a,
{
    if a == b {
        assert(rows.subrange(a, b).map_values(|r: Vec<u8>| r@) =~= Seq::<Seq<u8>>::empty());
    } else {
        lemma_rows_bytes_len(rows, a, b - 1, stride);
        lemma_rows_bytes_split(rows, a, b - 1, b);
        let one = rows.subrange(b - 1, b).map_values(|r: Vec<u8>| r@);
        assert(one =~= seq![rows[b - 1]@]);
        one.lemma_flatten_one_element();
        assert((b - 1 - a) * stride + stride == (b - a) * stride) by (nonlinear_arith);
    }
}

/// Where every row has `stride` bytes, the bytes of rows `s` to `e` are the
/// slice from `s * stride` to `e * stride` of the bytes of the first `n` rows.
pub proof fn lemma_rows_bytes_slice(rows: Seq<Vec<u8>>, s: int, e: int, n: int, stride: int)
    requires
        0 <= s <= e <= n <= rows.len(),
        forall|i: int| 0 <= i < n ==> (#[trigger] rows[i])@.len() == stride,
    ensures
        rows_bytes(rows, s, e) == rows_bytes(rows, 0, n).subrange(s * stride, e * stride),
{
    lemma_rows_bytes_split(rows, 0, s, n);
    lemma_rows_bytes_split(rows, s, e, n);
    lemma_rows_bytes_len(rows, 0, s, stride);
    lemma_rows_bytes_len(rows, s, e, stride);
    let x = rows_bytes(rows, 0, s);
    let y = rows_bytes(rows, s, e);
    let z = rows_bytes(rows, e, n);
    assert((s - 0) * stride + (e - s) * stride == e * stride) by (nonlinear_arith);
    assert(rows_bytes(rows, 0, n) == x + (y + z));
    assert((x + (y + z)).subrange(s * stride, e * stride) =~= y);
}

pub proof fn lemma_runs_bounds(d: Seq<bool>)
    ensures
        forall|k: int| 0 <= k < dirty_runs(d).len() ==> 0 <= (#[trigger] dirty_runs(d)[k]).0 < dirty_runs(d)[k].1 <= d.len(),
        dirty_runs(d).len() > 0 ==> dirty_runs(d).last().1 <= d.len(),
        d.len() > 0 && d.last() ==> dirty_runs(d).len() > 0 && dirty_runs(d).last().1 == d.len(),
        d.len() > 0 && !d.last() ==> dirty_runs(d) == dirty_runs(d.drop_last()),
    decreases d.len(),
{
    if d.len() > 0 {
        let p = d.drop_last();
        lemma_runs_bounds(p);
        let i = d.len() - 1;
        if d[i] && i > 0 && d[i - 1] {
            assert(p.last() == d[i - 1]);
        }
    }
}

/// Whether instance `idx` is dirty.
fn is_instance_dirty<T>(table: &DataTable<T>, names: &Vec<String>, idx: usize) -> (b: bool)
    requires
        table.wf(),
        dirty_columns_cover(*table, idx + 1),
    ensures
        b == instance_dirty(*table, names@.map_values(|k: String| k@), idx as int),
{
    let ghost nv = names@.map_values(|k: String| k@);
    let n = names.len();
    let mut a: usize = 0;
    while a < n
        invariant
            table.wf(),
            dirty_columns_cover(*table, idx + 1),
            n == names@.len(),
            nv == names@.map_values(|k: String| k@),
            a <= n,
            forall|x: int| 0 <= x < a ==> !(#[trigger] table.has_column(nv[x], VecKind::Dirty)
                && idx < table.column(nv[x]).spec_len() && table.column(nv[x]).flags()[idx as int]),
        decreases n - a,
    {
        match table.get_property(names[a].as_str(), VecKind::Dirty) {
            Some(col) => {
                proof {
                    let j = table.key_index(nv[a as int]);
                    assert(table.column_seq()[j].kind() == VecKind::Dirty);
                }
                if col.is_dirty(idx) {
                    assert(table.has_column(nv[a as int], VecKind::Dirty));
                    return true;
                }
            },
            None => {},
        }
        a = a + 1;
    }
    false
}

/// Mark every dirty-tracked column of `table` clean at row `idx`.
fn mark_instance_clean<T>(table: &mut DataTable<T>, idx: usize)
    requires
        old(table).wf(),
        dirty_columns_cover(*old(table), idx + 1),
    ensures
        final(table).wf(),
        final(table).key_seq() == old(table).key_seq(),
        final(table).spec_capacity() == old(table).spec_capacity(),
        final(table).column_seq().len() == old(table).column_seq().len(),
        forall|j: int| 0 <= j < old(table).column_seq().len() ==> {
            let before = old(table).column_seq()[j];
            let after = #[trigger] final(table).column_seq()[j];
            &&& after.kind() == before.kind()
            &&& after.values() == before.values()
            &&& before.kind() == VecKind::Plain ==> after == before
            &&& before.kind() == VecKind::Dirty ==> after.flags() == before.flags().update(idx as int, false)
        },
{
    let n = table.num_properties();
    let mut j: usize = 0;
    while j < n
        invariant
            table.wf(),
            n == old(table).key_seq().len(),
            j <= n,
            table.key_seq() == old(table).key_seq(),
            table.spec_capacity() == old(table).spec_capacity(),
            table.column_seq().len() == old(table).column_seq().len(),
            dirty_columns_cover(*old(table), idx + 1),
            forall|k: int| 0 <= k < j ==> {
                let before = old(table).column_seq()[k];
                let after = #[trigger] table.column_seq()[k];
                &&& after.kind() == before.kind()
                &&& after.values() == before.values()
                &&& before.kind() == VecKind::Plain ==> after == before
                &&& before.kind() == VecKind::Dirty ==> after.flags() == before.flags().update(idx as int, false)
            },
            forall|k: int| j <= k < n ==> #[trigger] table.column_seq()[k] == old(table).column_seq()[k],
        decreases n - j,
    {
        assert(table.column_seq()[j as int] == old(table).column_seq()[j as int]);
        table.column_at_mut(j).mark_clean(idx);
        j = j + 1;
    }
}


/// Two tables with the same keys and kinds whose dirty flags agree at row `i`
/// agree on whether instance `i` is dirty.
proof fn lemma_instance_dirty_same<T>(a: DataTable<T>, b: DataTable<T>, names: Seq<Seq<char>>, i: int)
    requires
        a.wf(),
        b.wf(),
        a.key_seq() == b.key_seq(),
        forall|j: int| 0 <= j < a.column_seq().len() ==> {
            &&& (#[trigger] b.column_seq()[j]).kind() == a.column_seq()[j].kind()
            &&& b.column_seq()[j].spec_len() == a.column_seq()[j].spec_len()
            &&& i < a.column_seq()[j].spec_len() ==> b.column_seq()[j].flags()[i] == a.column_seq()[j].flags()[i]
        },
    ensures
        instance_dirty(a, names, i) == instance_dirty(b, names, i),
{
    if instance_dirty(a, names, i) {
        let x = choose|x: int| 0 <= x < names.len() && #[trigger] a.has_column(names[x], VecKind::Dirty)
            && i < a.column(names[x]).spec_len() && a.column(names[x]).flags()[i];
        let j = a.key_index(names[x]);
        assert(b.column_seq()[j].kind() == a.column_seq()[j].kind());
        assert(b.has_column(names[x], VecKind::Dirty));
    }
    if instance_dirty(b, names, i) {
        let x = choose|x: int| 0 <= x < names.len() && #[trigger] b.has_column(names[x], VecKind::Dirty)
            && i < b.column(names[x]).spec_len() && b.column(names[x]).flags()[i];
        let j = b.key_index(names[x]);
        assert(b.column_seq()[j].kind() == a.column_seq()[j].kind());
        assert(a.has_column(names[x], VecKind::Dirty));
    }
}

/// Append the bytes of `src` to `dst`.
fn append_bytes(dst: &mut Vec<u8>, src: &Vec<u8>)
    ensures
        final(dst)@ == old(dst)@ + src@,
{
    let n = src.len();
    let mut i: usize = 0;
    while i < n
        invariant
            n == src@.len(),
            i <= n,
            dst@ == old(dst)@ + src@.subrange(0, i as int),
        decreases n - i,
    {
        dst.push(src[i]);
        i = i + 1;
        assert(dst@ =~= old(dst)@ + src@.subrange(0, i as int));
    }
    assert(src@.subrange(0, n as int) =~= src@);
}

proof fn lemma_rows_bytes_push(rows: Seq<Vec<u8>>, start: int, end: int)
    requires
        0 <= start <= end < rows.len(),
    ensures
        rows_bytes(rows, start, end + 1) == rows_bytes(rows, start, end) + rows[end]@,
        rows_bytes(rows, end, end + 1) == rows[end]@,
{
    let f = |r: Vec<u8>| r@;
    assert(rows.subrange(start, end + 1) =~= rows.subrange(start, end).push(rows[end]));
    assert(rows.subrange(start, end + 1).map_values(f) =~= rows.subrange(start, end).map_values(f).push(rows[end]@));
    rows.subrange(start, end).map_values(f).lemma_flatten_push(rows[end]@);
    assert(rows.subrange(end, end + 1).map_values(f) =~= Seq::<Seq<u8>>::empty().push(rows[end]@));
    Seq::<Seq<u8>>::empty().lemma_flatten_push(rows[end]@);
    assert(Seq::<Seq<u8>>::empty().flatten() =~= Seq::<u8>::empty());
}

/// Collect the updates of the first `count` instances: for each maximal run of
/// consecutive dirty instances, one update holding the bytes of their rows, at
/// the byte offset of the first instance of the run (its index times
/// `stride`). Every dirty-tracked column is then marked clean at each dirty
/// instance; nothing else in the table changes.
///
/// * 'names' - the attributes whose dirty flags make an instance dirty
/// * 'rows' - the packed bytes of each instance
pub fn collect_dirty_updates<T>(
    table: &mut DataTable<T>,
    names: &Vec<String>,
    rows: &Vec<Vec<u8>>,
    count: usize,
    stride: usize,
) -> (updates: Vec<ResourceUpdate>)
    requires
        old(table).wf(),
        dirty_columns_cover(*old(table), count as int),
        count <= rows@.len(),
        count * stride <= usize::MAX,
    ensures
        ({
            let d = instance_flags(*old(table), names@.map_values(|k: String| k@), count as int);
            &&& updates_match(updates@, dirty_runs(d), rows@, stride as int)
            &&& final(table).wf()
            &&& final(table).key_seq() == old(table).key_seq()
            &&& final(table).spec_capacity() == old(table).spec_capacity()
            &&& final(table).column_seq().len() == old(table).column_seq().len()
            &&& forall|j: int| 0 <= j < old(table).column_seq().len() ==> {
                let before = old(table).column_seq()[j];
                let after = #[trigger] final(table).column_seq()[j];
                &&& after.kind() == before.kind()
                &&& after.values() == before.values()
                &&& before.kind() == VecKind::Plain ==> after == before
                &&& before.kind() == VecKind::Dirty ==> after.flags() == Seq::new(before.flags().len(),
                    |i: int| if i < count && d[i] { false } else { before.flags()[i] })
            }
        }),
{
    let ghost nv = names@.map_values(|k: String| k@);
    let ghost d = instance_flags(*old(table), nv, count as int);
    let ghost t0 = *table;
    let mut updates: Vec<ResourceUpdate> = Vec::new();
    let mut in_run = false;
    let mut i: usize = 0;
    proof {
        assert(d.take(0) =~= Seq::<bool>::empty());
        assert forall|j: int| 0 <= j < t0.column_seq().len() implies {
            let before = t0.column_seq()[j];
            let after = #[trigger] table.column_seq()[j];
            &&& after.kind() == before.kind()
            &&& after.values() == before.values()
            &&& before.kind() == VecKind::Plain ==> after == before
            &&& before.kind() == VecKind::Dirty ==> after.flags() == Seq::new(before.flags().len(),
                |x: int| if x < 0 && d[x] { false } else { before.flags()[x] })
        } by {
            let before = t0.column_seq()[j];
            if before.kind() == VecKind::Dirty {
                assert(before.flags() =~= Seq::new(before.flags().len(),
                    |x: int| if x < 0 && d[x] { false } else { before.flags()[x] }));
            }
        }
    }
    while i < count
        invariant
            i <= count,
            count <= rows@.len(),
            count * stride <= usize::MAX,
            nv == names@.map_values(|k: String| k@),
            d == instance_flags(t0, nv, count as int),
            t0.wf(),
            dirty_columns_cover(t0, count as int),
            table.wf(),
            table.key_seq() == t0.key_seq(),
            table.spec_capacity() == t0.spec_capacity(),
            table.column_seq().len() == t0.column_seq().len(),
            in_run == (i > 0 && d[i - 1]),
            updates_match(updates@, dirty_runs(d.take(i as int)), rows@, stride as int),
            forall|j: int| 0 <= j < t0.column_seq().len() ==> {
                let before = t0.column_seq()[j];
                let after = #[trigger] table.column_seq()[j];
                &&& after.kind() == before.kind()
                &&& after.values() == before.values()
                &&& before.kind() == VecKind::Plain ==> after == before
                &&& before.kind() == VecKind::Dirty ==> after.flags() == Seq::new(before.flags().len(),
                    |x: int| if x < i && d[x] { false } else { before.flags()[x] })
            },
        decreases count - i,
    {
        let ghost ti = *table;
        proof {
            assert forall|j: int| 0 <= j < t0.column_seq().len() && #[trigger] ti.column_seq()[j].kind() == VecKind::Dirty
                implies i + 1 <= ti.column_seq()[j].spec_len() by {
                assert(t0.column_seq()[j].kind() == VecKind::Dirty);
            }
            assert forall|j: int| 0 <= j < t0.column_seq().len() implies {
                &&& (#[trigger] ti.column_seq()[j]).kind() == t0.column_seq()[j].kind()
                &&& ti.column_seq()[j].spec_len() == t0.column_seq()[j].spec_len()
                &&& i < t0.column_seq()[j].spec_len() ==> ti.column_seq()[j].flags()[i as int] == t0.column_seq()[j].flags()[i as int]
            } by {
                let before = t0.column_seq()[j];
                if before.kind() == VecKind::Dirty && i < before.spec_len() {
                    assert(ti.column_seq()[j].flags()[i as int] == before.flags()[i as int]);
                }
            }
            lemma_instance_dirty_same(t0, ti, nv, i as int);
        }
        let dirty = is_instance_dirty(table, names, i);
        assert(dirty == d[i as int]);
        let ghost runs_before = dirty_runs(d.take(i as int));
        let ghost next = d.take(i + 1);
        proof {
            assert(next.drop_last() =~= d.take(i as int));
            assert(next.last() == d[i as int]);
            if i > 0 {
                assert(next[i - 1] == d[i - 1]);
            }
            lemma_runs_bounds(d.take(i as int));
        }
        if dirty {
            if in_run {
                let ghost ups_before = updates@;
                let mut last = updates.pop().unwrap();
                append_bytes(&mut last.data, &rows[i]);
                proof {
                    let k = runs_before.len() - 1;
                    assert(runs_before.last().1 == i);
                    lemma_rows_bytes_push(rows@, runs_before[k].0, i as int);
                }
                updates.push(last);
                proof {
                    let new_runs = dirty_runs(next);
                    assert(new_runs == runs_before.update(runs_before.len() - 1, (runs_before.last().0, i + 1)));
                    assert forall|k: int| 0 <= k < new_runs.len() implies {
                        &&& (#[trigger] updates@[k]).offset == new_runs[k].0 * stride
                        &&& updates@[k].data@ == rows_bytes(rows@, new_runs[k].0, new_runs[k].1)
                    } by {
                        if k < new_runs.len() - 1 {
                            assert(updates@[k] == ups_before[k]);
                        }
                    }
                }
            } else {
                proof {
                    assert(i * stride <= count * stride) by (nonlinear_arith)
                        requires i < count, stride >= 0;
                }
                let offset = (i * stride) as u64;
                let mut data: Vec<u8> = Vec::new();
                append_bytes(&mut data, &rows[i]);
                proof {
                    lemma_rows_bytes_push(rows@, i as int, i as int);
                }
                updates.push(ResourceUpdate { data, offset });
            }
            mark_instance_clean(table, i);
        }
        proof {
            let tn = *table;
            assert forall|j: int| 0 <= j < t0.column_seq().len() implies {
                let before = t0.column_seq()[j];
                let after = #[trigger] tn.column_seq()[j];
                &&& after.kind() == before.kind()
                &&& after.values() == before.values()
                &&& before.kind() == VecKind::Plain ==> after == before
                &&& before.kind() == VecKind::Dirty ==> after.flags() == Seq::new(before.flags().len(),
                    |x: int| if x < i + 1 && d[x] { false } else { before.flags()[x] })
            } by {
                let before = t0.column_seq()[j];
                if before.kind() == VecKind::Dirty {
                    assert(tn.column_seq()[j].flags() =~= Seq::new(before.flags().len(),
                        |x: int| if x < i + 1 && d[x] { false } else { before.flags()[x] }));
                }
            }
        }
        in_run = dirty;
        i = i + 1;
    }
    proof {
        assert(d.take(count as int) =~= d);
    }
    updates
}

} // verus!
