use vstd::prelude::*;
use crate::buffer::padded16;
use crate::handler::{
    apply_results, evaluated, exceeds, expires, is_ready_in, needs_request, outcome_status, stalls, touched,
    Pending, Ready, ResourceStatus,
};
use crate::material::{material_updates, MaterialComponent};
use crate::data_table::{DataTable, DynVec, VecKind};
use crate::data_view::seq_swap_remove;
use crate::layout::{layout_entries, lemma_totals_monotone, lemma_totals_nonneg, run_entries, total_bytes, total_locations, AttributeSpec};
use crate::material::material_key;
use crate::mesh::mesh_key;
use crate::text::{decimal, digit_char};
use crate::tracker::ResourceTracker;
use crate::font::{cursor, placement, GlyphBitmap};
use crate::packing::{dirty_runs, instance_dirty, instance_flags, lemma_rows_bytes_slice, lemma_runs_bounds, rows_bytes, updates_match, ResourceUpdate};
use crate::particle::{alive_count, column_from, lemma_survivors_count, rows_from, rows_of, stays_put, survivors};

verus! {

/// Reading after writing: a resource stored under `key` is ready, and a
/// later `get` hands it back (and only marks it as accessed).
pub proof fn law_store_then_get<R>(m: Map<Seq<char>, ResourceStatus<R>>, key: Seq<char>, rsc: R, hold_time: Option<u64>, now: u64, later: u64)
    ensures
        ({
            let stored = m.insert(key, ResourceStatus::Ready(Ready { rsc, hold_time, accessed: now }));
            &&& is_ready_in(stored, key)
            &&& stored[key]->Ready_0.rsc == rsc
            &&& touched(stored, key, later) == stored.insert(key, ResourceStatus::Ready(Ready { rsc, hold_time, accessed: later }))
        }),
{
}

/// A removed resource is gone: the handler no longer holds it, and a request
/// for it starts a builder again.
pub proof fn law_remove_forgets<R>(m: Map<Seq<char>, ResourceStatus<R>>, key: Seq<char>)
    ensures
        !m.remove(key).dom().contains(key),
        !is_ready_in(m.remove(key), key),
        needs_request(m.remove(key), key),
{
}

/// A resource is requested once: after a request, further requests for the
/// same key start no builder until the resource fails or is removed.
pub proof fn law_request_once<R>(m: Map<Seq<char>, ResourceStatus<R>>, key: Seq<char>, now: u64)
    ensures
        ({
            let requested = m.insert(key, ResourceStatus::Pending(Pending { requested_at: now }));
            &&& requested.dom().contains(key)
            &&& !needs_request(requested, key)
        }),
{
}

/// A failed resource is retried: a request for it starts a builder.
pub proof fn law_failed_is_retried<R>(m: Map<Seq<char>, ResourceStatus<R>>, key: Seq<char>)
    requires
        m.dom().contains(key),
        m[key] is Failed,
    ensures
        needs_request(m, key),
{
}

/// A ready resource without a hold time is never released by `sync`, and a
/// pending resource is never dropped (it fails once it stalls).
pub proof fn law_sync_keeps<R>(s: ResourceStatus<R>, now: u64, failed_timeout: u64)
    ensures
        (s matches ResourceStatus::Ready(rd) && rd.hold_time is None) ==> !expires(s, now, failed_timeout),
        s is Pending ==> !expires(s, now, failed_timeout),
{
}

/// Evaluating twice at the same time changes nothing the second time.
pub proof fn law_evaluate_idempotent<R>(
    m: Map<Seq<char>, ResourceStatus<R>>,
    m1: Map<Seq<char>, ResourceStatus<R>>,
    m2: Map<Seq<char>, ResourceStatus<R>>,
    now: u64,
    thread_timeout: u64,
    failed_timeout: u64,
)
    requires
        evaluated(m, m1, now, thread_timeout, failed_timeout),
        evaluated(m1, m2, now, thread_timeout, failed_timeout),
    ensures
        m2 == m1,
{
    assert forall|k: Seq<char>| #[trigger] m1.dom().contains(k) implies m2.dom().contains(k) && m2[k] == m1[k] by {
        assert(m.dom().contains(k) && !expires(m[k], now, failed_timeout));
        if stalls(m[k], now, thread_timeout) {
            let f = m1[k]->Failed_0;
            assert(f.failed_at == now);
            assert(!exceeds(now, f.failed_at, failed_timeout));
            assert(!expires(m1[k], now, failed_timeout));
        } else {
            assert(m1[k] == m[k]);
        }
        assert(m2.dom().contains(k));
        assert(!stalls(m1[k], now, thread_timeout));
    }
    assert forall|k: Seq<char>| #[trigger] m2.dom().contains(k) implies m1.dom().contains(k) by {}
    assert(m2 =~= m1);
}

/// A builder's outcome is delivered: after `sync` with results whose last
/// entry for `key` is a built resource that has not expired, the handler
/// holds that resource, ready.
pub proof fn law_sync_delivers<R>(
    m: Map<Seq<char>, ResourceStatus<R>>,
    results: Seq<(String, Result<Ready<R>, String>)>,
    key: String,
    rd: Ready<R>,
    after: Map<Seq<char>, ResourceStatus<R>>,
    now: u64,
    thread_timeout: u64,
    failed_timeout: u64,
)
    requires
        evaluated(apply_results(m, results.push((key, Ok(rd))), now), after, now, thread_timeout, failed_timeout),
        !expires(ResourceStatus::Ready(rd), now, failed_timeout),
    ensures
        after.dom().contains(key@),
        after[key@] == ResourceStatus::<R>::Ready(rd),
{
    let rs = results.push((key, Ok(rd)));
    assert(rs.drop_last() =~= results);
    let applied = apply_results(m, rs, now);
    assert(applied[key@] == outcome_status(Ok::<Ready<R>, String>(rd), now));
    assert(after.dom().contains(key@));
}

/// Padding keeps the data and adds the fewest zeros that make the length a
/// multiple of 16.
pub proof fn law_padding(raw: Seq<u8>)
    ensures
        padded16(raw).len() % 16 == 0,
        raw.len() <= padded16(raw).len() < raw.len() + 16,
        padded16(raw).subrange(0, raw.len() as int) == raw,
        forall|i: int| raw.len() <= i < padded16(raw).len() ==> #[trigger] padded16(raw)[i] == 0,
{
    assert(padded16(raw).subrange(0, raw.len() as int) =~= raw);
}

/// Each change of a material component is reported once: once no component
/// has anything pending, a material reports no updates.
pub proof fn law_updates_reported_once<C: MaterialComponent>(key: Seq<char>, comps: Seq<C>)
    requires
        forall|i: int| 0 <= i < comps.len() ==> (#[trigger] comps[i]).pending_update() is None,
    ensures
        material_updates(key, comps).len() == 0,
    decreases comps.len(),
{
    if comps.len() > 0 {
        assert forall|i: int| 0 <= i < comps.drop_last().len() implies (#[trigger] comps.drop_last()[i]).pending_update() is None by {
            assert(comps.drop_last()[i] == comps[i]);
        }
        law_updates_reported_once(key, comps.drop_last());
        assert(comps.last() == comps[comps.len() - 1]);
    }
}

/// The dirty runs of `d` are its maximal runs of dirty entries, in order:
/// each run lies within `d` and holds only dirty entries, runs are separated
/// by clean entries, and every dirty entry lies in a run.
pub proof fn law_dirty_runs(d: Seq<bool>)
    ensures
        ({
            let r = dirty_runs(d);
            &&& forall|k: int| 0 <= k < r.len() ==> 0 <= (#[trigger] r[k]).0 < r[k].1 <= d.len()
            &&& forall|k: int, l: int| 0 <= k < l < r.len() ==> (#[trigger] r[k]).1 < (#[trigger] r[l]).0
            &&& forall|k: int, i: int| 0 <= k < r.len() && (#[trigger] r[k]).0 <= i < r[k].1 ==> #[trigger] d[i]
            &&& forall|i: int| 0 <= i < d.len() && #[trigger] d[i] ==> exists|k: int| 0 <= k < r.len() && (#[trigger] r[k]).0 <= i < r[k].1
            &&& forall|k: int| 0 <= k < r.len() && (#[trigger] r[k]).1 < d.len() ==> !d[r[k].1]
            &&& forall|k: int| 0 <= k < r.len() && (#[trigger] r[k]).0 > 0 ==> !d[r[k].0 - 1]
        }),
    decreases d.len(),
{
    if d.len() > 0 {
        let p = d.drop_last();
        law_dirty_runs(p);
        lemma_runs_bounds(p);
        lemma_runs_bounds(d);
        let rp = dirty_runs(p);
        let r = dirty_runs(d);
        let i = d.len() - 1;
        assert forall|j: int| 0 <= j < p.len() implies #[trigger] p[j] == d[j] by {}
        if !d[i] {
            assert(r == rp);
            assert forall|j: int| 0 <= j < d.len() && #[trigger] d[j] implies exists|k: int| 0 <= k < r.len() && (#[trigger] r[k]).0 <= j < r[k].1 by {
                assert(p[j]);
            }
            assert forall|k: int, j: int| 0 <= k < r.len() && (#[trigger] r[k]).0 <= j < r[k].1 implies #[trigger] d[j] by {
                assert(p[j]);
            }
        } else if i > 0 && d[i - 1] {
            assert(p.last() == d[i - 1]);
            let last = rp.len() - 1;
            assert(r == rp.update(last, (rp[last].0, i + 1)));
            assert forall|j: int| 0 <= j < d.len() && #[trigger] d[j] implies exists|k: int| 0 <= k < r.len() && (#[trigger] r[k]).0 <= j < r[k].1 by {
                if j == i {
                    assert(r[last].0 <= j < r[last].1);
                } else {
                    assert(p[j]);
                    let k = choose|k: int| 0 <= k < rp.len() && (#[trigger] rp[k]).0 <= j < rp[k].1;
                    assert(r[k].0 <= j < r[k].1);
                }
            }
            assert forall|k: int, j: int| 0 <= k < r.len() && (#[trigger] r[k]).0 <= j < r[k].1 implies #[trigger] d[j] by {
                if j < i {
                    assert(rp[k].0 <= j < rp[k].1);
                    assert(p[j]);
                }
            }
            assert forall|k: int, l: int| 0 <= k < l < r.len() implies (#[trigger] r[k]).1 < (#[trigger] r[l]).0 by {
                assert(rp[k].1 < rp[l].0);
            }
            assert forall|k: int| 0 <= k < r.len() && (#[trigger] r[k]).1 < d.len() implies !d[r[k].1] by {
                assert(k != last);
                assert(rp[k].1 < rp[last].0);
                assert(!p[rp[k].1]);
            }
            assert forall|k: int| 0 <= k < r.len() && (#[trigger] r[k]).0 > 0 implies !d[r[k].0 - 1] by {
                assert(rp[k].0 == r[k].0);
                assert(!p[rp[k].0 - 1]);
            }
        } else {
            assert(r == rp.push((i, i + 1)));
            if rp.len() > 0 {
                let last = rp.len() - 1;
                if rp[last].1 == i {
                    assert(rp[last].0 <= i - 1 < rp[last].1);
                    assert(p[i - 1]);
                }
                assert(rp[last].1 < i);
            }
            assert forall|j: int| 0 <= j < d.len() && #[trigger] d[j] implies exists|k: int| 0 <= k < r.len() && (#[trigger] r[k]).0 <= j < r[k].1 by {
                if j == i {
                    assert(r[rp.len() as int].0 <= j < r[rp.len() as int].1);
                } else {
                    assert(p[j]);
                    let k = choose|k: int| 0 <= k < rp.len() && (#[trigger] rp[k]).0 <= j < rp[k].1;
                    assert(r[k].0 <= j < r[k].1);
                }
            }
            assert forall|k: int, j: int| 0 <= k < r.len() && (#[trigger] r[k]).0 <= j < r[k].1 implies #[trigger] d[j] by {
                if k < rp.len() {
                    assert(rp[k].0 <= j < rp[k].1);
                    assert(p[j]);
                }
            }
            assert forall|k: int, l: int| 0 <= k < l < r.len() implies (#[trigger] r[k]).1 < (#[trigger] r[l]).0 by {
                if l < rp.len() {
                    assert(rp[k].1 < rp[l].0);
                } else {
                    assert(rp[k].1 <= rp[rp.len() - 1].1);
                }
            }
            assert forall|k: int| 0 <= k < r.len() && (#[trigger] r[k]).1 < d.len() implies !d[r[k].1] by {
                assert(k < rp.len());
                if rp[k].1 < p.len() {
                    assert(!p[rp[k].1]);
                }
            }
            assert forall|k: int| 0 <= k < r.len() && (#[trigger] r[k]).0 > 0 implies !d[r[k].0 - 1] by {
                if k < rp.len() {
                    assert(!p[rp[k].0 - 1]);
                }
            }
        }
    }
}

/// Where nothing is dirty there are no dirty runs.
pub proof fn law_clean_has_no_runs(d: Seq<bool>)
    requires
        forall|i: int| 0 <= i < d.len() ==> !#[trigger] d[i],
    ensures
        dirty_runs(d).len() == 0,
{
    law_dirty_runs(d);
    if dirty_runs(d).len() > 0 {
        let r0 = dirty_runs(d)[0];
        assert(d[r0.0]);
    }
}

/// Collecting the updates of a table's instances reports each change once:
/// after a collection (whose effect on the table `before` -> `after` is that
/// of `collect_dirty_updates`), no instance is dirty, so collecting again
/// gives no updates.
pub proof fn law_updates_collected_once<T>(before: DataTable<T>, after: DataTable<T>, names: Seq<Seq<char>>, count: int)
    requires
        before.wf(),
        0 <= count,
        after.key_seq() == before.key_seq(),
        after.column_seq().len() == before.column_seq().len(),
        forall|j: int| 0 <= j < before.column_seq().len() ==> {
            let b = before.column_seq()[j];
            let a = #[trigger] after.column_seq()[j];
            &&& a.kind() == b.kind()
            &&& a.values() == b.values()
            &&& b.kind() == VecKind::Dirty ==> a.flags() == Seq::new(b.flags().len(),
                |i: int| if i < count && instance_flags(before, names, count)[i] { false } else { b.flags()[i] })
        },
    ensures
        forall|i: int| 0 <= i < count ==> !#[trigger] instance_flags(after, names, count)[i],
        dirty_runs(instance_flags(after, names, count)).len() == 0,
{
    let d = instance_flags(before, names, count);
    assert forall|i: int| 0 <= i < count implies !#[trigger] instance_flags(after, names, count)[i] by {
        if instance_dirty(after, names, i) {
            let a = choose|a: int| 0 <= a < names.len() && #[trigger] after.has_column(names[a], VecKind::Dirty)
                && i < after.column(names[a]).spec_len() && after.column(names[a]).flags()[i];
            let j = after.key_index(names[a]);
            assert(before.key_index(names[a]) == j);
            let b = before.column_seq()[j];
            assert(b.kind() == VecKind::Dirty);
            assert(after.column(names[a]) == after.column_seq()[j]);
            if d[i] {
                assert(after.column_seq()[j].flags()[i] == false);
            } else {
                assert(after.column_seq()[j].flags()[i] == b.flags()[i]);
                assert(before.has_column(names[a], VecKind::Dirty));
                assert(instance_dirty(before, names, i));
            }
        }
    }
    law_clean_has_no_runs(instance_flags(after, names, count));
}

/// What collecting the updates of instance data gives, as a whole: one update
/// per maximal run [s, e) of consecutive dirty instances, in increasing order,
/// at byte offset `s * stride`, holding the bytes of rows s up to e; every
/// dirty instance lies in one of these runs; and afterwards no instance is
/// dirty. Where every row has `stride` bytes, an update's data is the slice
/// from `s * stride` to `e * stride` of the packed bytes of all `count`
/// rows. `before` -> `after` and `updates` are related as the instance
/// group's `get_updated` says.
pub proof fn law_instance_updates<T>(
    before: DataTable<T>,
    after: DataTable<T>,
    names: Seq<Seq<char>>,
    count: int,
    updates: Seq<ResourceUpdate>,
    rows: Seq<Vec<u8>>,
    stride: int,
)
    requires
        before.wf(),
        0 <= count,
        updates_match(updates, dirty_runs(instance_flags(before, names, count)), rows, stride),
        after.key_seq() == before.key_seq(),
        after.column_seq().len() == before.column_seq().len(),
        forall|j: int| 0 <= j < before.column_seq().len() ==> {
            let b = before.column_seq()[j];
            let a = #[trigger] after.column_seq()[j];
            &&& a.kind() == b.kind()
            &&& a.values() == b.values()
            &&& b.kind() == VecKind::Dirty ==> a.flags() == Seq::new(b.flags().len(),
                |i: int| if i < count && instance_flags(before, names, count)[i] { false } else { b.flags()[i] })
        },
    ensures
        ({
            let d = instance_flags(before, names, count);
            let r = dirty_runs(d);
            &&& updates.len() == r.len()
            &&& forall|k: int| 0 <= k < r.len() ==> {
                &&& 0 <= (#[trigger] r[k]).0 < r[k].1 <= count
                &&& updates[k].offset == r[k].0 * stride
                &&& updates[k].data@ == rows_bytes(rows, r[k].0, r[k].1)
                &&& forall|i: int| r[k].0 <= i < r[k].1 ==> instance_dirty(before, names, i)
                &&& r[k].0 > 0 ==> !instance_dirty(before, names, r[k].0 - 1)
                &&& r[k].1 < count ==> !instance_dirty(before, names, r[k].1)
            }
            &&& forall|k: int, l: int| 0 <= k < l < r.len() ==> (#[trigger] r[k]).1 < (#[trigger] r[l]).0
            &&& forall|i: int| 0 <= i < count && instance_dirty(before, names, i)
                ==> exists|k: int| 0 <= k < r.len() && (#[trigger] r[k]).0 <= i < r[k].1
            &&& forall|i: int| 0 <= i < count ==> !instance_dirty(after, names, i)
            &&& (count <= rows.len() && forall|i: int| 0 <= i < count ==> (#[trigger] rows[i])@.len() == stride)
                ==> forall|k: int| 0 <= k < r.len() ==> (#[trigger] updates[k]).data@
                    == rows_bytes(rows, 0, count).subrange(r[k].0 * stride, r[k].1 * stride)
        }),
{
    let d = instance_flags(before, names, count);
    let r = dirty_runs(d);
    law_dirty_runs(d);
    law_updates_collected_once(before, after, names, count);
    assert forall|k: int| 0 <= k < r.len() implies {
        &&& 0 <= (#[trigger] r[k]).0 < r[k].1 <= count
        &&& updates[k].offset == r[k].0 * stride
        &&& updates[k].data@ == rows_bytes(rows, r[k].0, r[k].1)
        &&& forall|i: int| r[k].0 <= i < r[k].1 ==> instance_dirty(before, names, i)
        &&& r[k].0 > 0 ==> !instance_dirty(before, names, r[k].0 - 1)
        &&& r[k].1 < count ==> !instance_dirty(before, names, r[k].1)
    } by {
        assert forall|i: int| r[k].0 <= i < r[k].1 implies instance_dirty(before, names, i) by {
            assert(d[i]);
        }
        if r[k].0 > 0 {
            assert(!d[r[k].0 - 1]);
        }
        if r[k].1 < count {
            assert(!d[r[k].1]);
        }
    }
    assert forall|i: int| 0 <= i < count && instance_dirty(before, names, i)
        implies exists|k: int| 0 <= k < r.len() && (#[trigger] r[k]).0 <= i < r[k].1 by {
        assert(d[i]);
    }
    assert forall|i: int| 0 <= i < count implies !instance_dirty(after, names, i) by {
        assert(!instance_flags(after, names, count)[i]);
    }
    if count <= rows.len() && forall|i: int| 0 <= i < count ==> (#[trigger] rows[i])@.len() == stride {
        assert forall|k: int| 0 <= k < r.len() implies (#[trigger] updates[k]).data@
            == rows_bytes(rows, 0, count).subrange(r[k].0 * stride, r[k].1 * stride) by {
            assert(0 <= r[k].0 < r[k].1 <= count);
            lemma_rows_bytes_slice(rows, r[k].0, r[k].1, count, stride);
        }
    }
}

/// Decimal representations are nonempty and tell numbers apart.
proof fn lemma_decimal_injective(n: nat, m: nat)
    ensures
        decimal(n).len() >= 1,
        decimal(n) == decimal(m) ==> n == m,
    decreases n + m,
{
    if n >= 10 {
        lemma_decimal_injective(n / 10, 0);
    }
    if decimal(n) == decimal(m) {
        if n < 10 && m < 10 {
            assert(decimal(n)[0] == digit_char(n));
            assert(decimal(m)[0] == digit_char(m));
        } else if n >= 10 && m >= 10 {
            assert(decimal(n).last() == digit_char(n % 10));
            assert(decimal(m).last() == digit_char(m % 10));
            assert(decimal(n).drop_last() == decimal(n / 10));
            assert(decimal(m).drop_last() == decimal(m / 10));
            lemma_decimal_injective(n / 10, m / 10);
        } else if n < 10 {
            lemma_decimal_injective(m / 10, 0);
            assert(decimal(m).len() >= 2);
        } else {
            lemma_decimal_injective(n / 10, 0);
            assert(decimal(n).len() >= 2);
        }
    }
}

/// Sequences that agree after a common prefix and before a common suffix
/// agree in between.
proof fn lemma_cancel<A>(p: Seq<A>, x: Seq<A>, y: Seq<A>, q: Seq<A>)
    requires
        p + x + q == p + y + q,
    ensures
        x == y,
{
    let lhs = p + x + q;
    let rhs = p + y + q;
    assert(lhs.len() == rhs.len());
    assert((p + x).len() == p.len() + x.len());
    assert((p + y).len() == p.len() + y.len());
    assert(lhs.len() == p.len() + x.len() + q.len());
    assert(rhs.len() == p.len() + y.len() + q.len());
    assert(x.len() == y.len());
    assert forall|i: int| 0 <= i < x.len() implies x[i] == y[i] by {
        assert((p + x)[p.len() + i] == x[i]);
        assert((p + y)[p.len() + i] == y[i]);
        assert(lhs[p.len() + i] == x[i]);
        assert(rhs[p.len() + i] == y[i]);
    }
    assert(x =~= y);
}

/// Mesh keys are unique: meshes with the same label over the same data but
/// different ids have different keys.
pub proof fn law_mesh_keys_unique(label: Seq<char>, id1: u32, id2: u32, data_id: u32)
    requires
        id1 != id2,
    ensures
        mesh_key(label, id1, data_id) != mesh_key(label, id2, data_id),
{
    if mesh_key(label, id1, data_id) == mesh_key(label, id2, data_id) {
        let p = label + "_"@;
        let q = "_"@ + decimal(data_id as nat);
        assert(mesh_key(label, id1, data_id) =~= p + decimal(id1 as nat) + q);
        assert(mesh_key(label, id2, data_id) =~= p + decimal(id2 as nat) + q);
        lemma_cancel(p, decimal(id1 as nat), decimal(id2 as nat), q);
        lemma_decimal_injective(id1 as nat, id2 as nat);
    }
}

/// Material keys are unique: materials with the same label and different ids
/// have different keys.
pub proof fn law_material_keys_unique(label: Seq<char>, id1: u32, id2: u32)
    requires
        id1 != id2,
    ensures
        material_key(label, id1) != material_key(label, id2),
{
    if material_key(label, id1) == material_key(label, id2) {
        let p = label + "_"@;
        let q = Seq::<char>::empty();
        assert(material_key(label, id1) =~= p + decimal(id1 as nat) + q);
        assert(material_key(label, id2) =~= p + decimal(id2 as nat) + q);
        lemma_cancel(p, decimal(id1 as nat), decimal(id2 as nat), q);
        lemma_decimal_injective(id1 as nat, id2 as nat);
    }
}

/// The id after `id`, as `IdCounter::next_id` advances.
pub open spec fn next_id_after(id: u32) -> u32 {
    if id == u32::MAX { 0 } else { (id + 1) as u32 }
}

/// The id handed out after `steps` further calls, starting from `start`.
pub open spec fn id_after(start: u32, steps: nat) -> u32
    decreases steps,
{
    if steps == 0 { start } else { next_id_after(id_after(start, (steps - 1) as nat)) }
}

/// Ids from one counter are unique until it wraps: the ids handed out by
/// fewer than 2^32 consecutive calls are all different.
pub proof fn law_ids_unique(start: u32, i: nat, j: nat)
    requires
        i < j < 0x1_0000_0000,
    ensures
        id_after(start, i) != id_after(start, j),
{
    lemma_id_after(start, i);
    lemma_id_after(start, j);
}

proof fn lemma_id_after(start: u32, steps: nat)
    ensures
        id_after(start, steps) == (start + steps) % 0x1_0000_0000,
    decreases steps,
{
    if steps > 0 {
        lemma_id_after(start, (steps - 1) as nat);
    }
}

/// Swap-removing the same row from columns of equal length keeps the rows
/// together: every column loses one row, the last row moves into the removed
/// row's place in every column, and the other rows stay where they were.
pub proof fn law_rows_stay_aligned<T>(before: DataTable<T>, after: DataTable<T>, idx: int, n: int)
    requires
        0 <= idx < n,
        after.column_seq().len() == before.column_seq().len(),
        forall|j: int| 0 <= j < before.column_seq().len() ==> (#[trigger] before.column_seq()[j]).spec_len() == n,
        forall|j: int| 0 <= j < before.column_seq().len() ==> DynVec::swap_removed(
            before.column_seq()[j], #[trigger] after.column_seq()[j], idx),
    ensures
        forall|j: int| 0 <= j < after.column_seq().len() ==> (#[trigger] after.column_seq()[j]).spec_len() == n - 1,
        forall|j: int, i: int| 0 <= j < after.column_seq().len() && 0 <= i < n - 1 ==>
            #[trigger] after.column_seq()[j].values()[i] == (if i == idx {
                before.column_seq()[j].values()[n - 1]
            } else {
                before.column_seq()[j].values()[i]
            }),
{
    assert forall|j: int| 0 <= j < after.column_seq().len() implies (#[trigger] after.column_seq()[j]).spec_len() == n - 1 by {
        assert(DynVec::swap_removed(before.column_seq()[j], after.column_seq()[j], idx));
    }
    assert forall|j: int, i: int| 0 <= j < after.column_seq().len() && 0 <= i < n - 1 implies
        #[trigger] after.column_seq()[j].values()[i] == (if i == idx {
            before.column_seq()[j].values()[n - 1]
        } else {
            before.column_seq()[j].values()[i]
        }) by {
        assert(DynVec::swap_removed(before.column_seq()[j], after.column_seq()[j], idx));
        let v = before.column_seq()[j].values();
        assert(after.column_seq()[j].values() == seq_swap_remove(v, idx));
    }
}

/// When no row is dead, every row is alive.
proof fn lemma_all_alive(dead: Seq<bool>)
    requires
        forall|i: int| 0 <= i < dead.len() ==> !dead[i],
    ensures
        alive_count(dead) == dead.len(),
    decreases dead.len(),
{
    if dead.len() > 0 {
        lemma_all_alive(dead.drop_last());
    }
}

/// Removing the dead particles when none is dead changes nothing: every
/// column keeps its kind, its values and its dirty flags.
pub proof fn law_none_dead_unchanged<T>(before: DataTable<T>, after: DataTable<T>, dead: Seq<bool>, perm: Seq<int>)
    requires
        forall|i: int| 0 <= i < dead.len() ==> !dead[i],
        rows_of(before, dead.len() as int),
        survivors(perm, dead),
        stays_put(perm, dead),
        rows_from(before, after, perm),
    ensures
        after.column_seq().len() == before.column_seq().len(),
        forall|j: int| 0 <= j < before.column_seq().len() ==> {
            &&& (#[trigger] after.column_seq()[j]).kind() == before.column_seq()[j].kind()
            &&& after.column_seq()[j].values() == before.column_seq()[j].values()
            &&& after.column_seq()[j].flags() == before.column_seq()[j].flags()
        },
{
    lemma_survivors_count(perm, dead);
    lemma_all_alive(dead);
    assert forall|j: int| 0 <= j < before.column_seq().len() implies {
        &&& (#[trigger] after.column_seq()[j]).kind() == before.column_seq()[j].kind()
        &&& after.column_seq()[j].values() == before.column_seq()[j].values()
        &&& after.column_seq()[j].flags() == before.column_seq()[j].flags()
    } by {
        let b = before.column_seq()[j];
        let a = after.column_seq()[j];
        assert(column_from(b, a, perm));
        assert(b.spec_len() == dead.len());
        assert forall|p: int| 0 <= p < perm.len() implies a.values()[p] == b.values()[p] by {
            assert(perm[p] == p);
        }
        assert(a.values() =~= b.values());
        match a {
            DynVec::Dirty(_) => {
                assert forall|p: int| 0 <= p < perm.len() implies a.flags()[p] == b.flags()[p] by {
                    assert(perm[p] == p);
                }
                assert(a.flags().len() == a.values().len());
                assert(b.flags().len() == b.values().len());
                assert(a.flags() =~= b.flags());
            },
            DynVec::Plain(_) => {
                assert(a.flags() =~= b.flags());
            },
        }
    }
}

/// Vertex layouts pack attributes tightly: the locations are consecutive from
/// the base location, the first entry starts at offset 0, each entry starts
/// where the previous one ends, and the last one ends at the total size of the
/// attributes (the stride).
pub proof fn law_layout_tight(attrs: Seq<AttributeSpec>, base: int)
    requires
        0 <= base,
        base + total_locations(attrs) <= u32::MAX,
        total_bytes(attrs) <= u64::MAX,
    ensures
        ({
            let e = layout_entries(attrs, base);
            &&& e.len() == total_locations(attrs)
            &&& forall|i: int| 0 <= i < e.len() ==> (#[trigger] e[i]).shader_location == base + i
            &&& e.len() > 0 ==> e[0].offset == 0
            &&& forall|i: int| 0 <= i < e.len() - 1 ==> (#[trigger] e[i + 1]).offset == e[i].offset + e[i].format.spec_size()
            &&& e.len() > 0 ==> e.last().offset + e.last().format.spec_size() == total_bytes(attrs)
            &&& total_locations(attrs) == 0 ==> total_bytes(attrs) == 0
        }),
    decreases attrs.len(),
{
    if attrs.len() > 0 {
        let prev = attrs.drop_last();
        let a = attrs.last();
        lemma_totals_nonneg(attrs);
        lemma_totals_nonneg(prev);
        lemma_totals_monotone(attrs, attrs.len() - 1);
        assert(attrs.take(attrs.len() - 1) =~= prev);
        law_layout_tight(prev, base);
        let ep = layout_entries(prev, base);
        let size = a.format.spec_size();
        let c = a.count as int;
        let loc0 = base + total_locations(prev);
        let off0 = total_bytes(prev);
        let run = run_entries(a.format, a.count as nat, loc0, off0);
        let e = layout_entries(attrs, base);
        assert(e == ep + run);
        assert(total_bytes(attrs) == off0 + size * c);
        assert(total_locations(attrs) == total_locations(prev) + c);
        assert(size > 0);
        assert forall|r: int| 0 <= r < c implies (#[trigger] run[r]).shader_location == loc0 + r
            && run[r].offset == off0 + r * size && run[r].format == a.format by {
            assert(0 <= r * size <= c * size - size) by (nonlinear_arith)
                requires 0 <= r < c, size > 0;
            assert(size * c == c * size) by (nonlinear_arith);
        }
        assert forall|i: int| 0 <= i < e.len() implies (#[trigger] e[i]).shader_location == base + i by {
            if i >= ep.len() {
                assert(e[i] == run[i - ep.len()]);
            } else {
                assert(e[i] == ep[i]);
            }
        }
        if e.len() > 0 {
            if ep.len() > 0 {
                assert(e[0] == ep[0]);
            } else {
                assert(e[0] == run[0]);
                assert(off0 == 0);
            }
        }
        assert forall|i: int| 0 <= i < e.len() - 1 implies (#[trigger] e[i + 1]).offset == e[i].offset + e[i].format.spec_size() by {
            if i + 1 < ep.len() {
                assert(e[i] == ep[i]);
                assert(e[i + 1] == ep[i + 1]);
            } else if i + 1 == ep.len() {
                assert(e[i] == ep[i]);
                assert(ep.last() == ep[i]);
                assert(e[i + 1] == run[0]);
            } else {
                let r = i - ep.len();
                assert(e[i] == run[r]);
                assert(e[i + 1] == run[r + 1]);
                assert((r + 1) * size == r * size + size) by (nonlinear_arith);
            }
        }
        if e.len() > 0 {
            if c > 0 {
                assert(e.last() == run[c - 1]);
                assert((c - 1) * size + size == size * c) by (nonlinear_arith);
            } else {
                assert(run.len() == 0);
                assert(e =~= ep);
                assert(size * c == 0) by (nonlinear_arith) requires c == 0;
            }
        }
        if total_locations(attrs) == 0 {
            assert(c == 0);
            assert(size * c == 0) by (nonlinear_arith) requires c == 0;
        }
    }
}

/// Copying a tracker into another a second time changes nothing: the first
/// copy already tracks the union of both.
pub proof fn law_tracker_copy_idempotent(t0: ResourceTracker, t1: ResourceTracker, t2: ResourceTracker, other: ResourceTracker)
    requires
        ResourceTracker::is_union(t1, t0, other),
        ResourceTracker::is_union(t2, t1, other),
    ensures
        ResourceTracker::tracks_same(t2, t1),
{
    assert(t2.shader_specs@ =~= t1.shader_specs@);
    assert(t2.shader_mods@ =~= t1.shader_mods@);
    assert(t2.pipelines@ =~= t1.pipelines@);
    assert(t2.bind_groups@ =~= t1.bind_groups@);
    assert(t2.geometries@ =~= t1.geometries@);
    assert(t2.buffers@ =~= t1.buffers@);
    assert(t2.textures@ =~= t1.textures@);
    assert(t2.samplers@ =~= t1.samplers@);
}

/// A cleared tracker that copies another tracks exactly what the other does.
pub proof fn law_tracker_clear_then_copy(t0: ResourceTracker, t1: ResourceTracker, other: ResourceTracker)
    requires
        t0.is_empty(),
        ResourceTracker::is_union(t1, t0, other),
    ensures
        ResourceTracker::tracks_same(t1, other),
{
    assert(t1.shader_specs@ =~= other.shader_specs@);
    assert(t1.shader_mods@ =~= other.shader_mods@);
    assert(t1.pipelines@ =~= other.pipelines@);
    assert(t1.bind_groups@ =~= other.bind_groups@);
    assert(t1.geometries@ =~= other.geometries@);
    assert(t1.buffers@ =~= other.buffers@);
    assert(t1.textures@ =~= other.textures@);
    assert(t1.samplers@ =~= other.samplers@);
}

/// Every glyph placed so far lies either on the current shelf, left of the
/// cursor (with `spacing` after it) and no taller than the shelf, or above the
/// current shelf (with `spacing` below it).
spec fn shelved(glyphs: Seq<GlyphBitmap>, spacing: int, size: int) -> bool {
    let c = cursor(glyphs, spacing, size);
    &&& c.0 >= 0 && c.1 >= 0 && c.2 >= 0
    &&& forall|k: int| 0 <= k < glyphs.len() ==> {
        let p = #[trigger] placement(glyphs, k, spacing, size);
        let g = glyphs[k];
        ||| p.1 == c.1 && p.0 >= 0 && p.0 + g.width + spacing <= c.0 && g.height <= c.2
        ||| p.1 >= 0 && p.1 + g.height + spacing <= c.1
    }
}

/// Placing a glyph leaves the placements of the glyphs before it unchanged.
proof fn lemma_placement_prefix(glyphs: Seq<GlyphBitmap>, n: int, k: int, spacing: int, size: int)
    requires
        0 <= k < n <= glyphs.len(),
    ensures
        placement(glyphs.take(n), k, spacing, size) == placement(glyphs, k, spacing, size),
{
    assert(glyphs.take(n).take(k) =~= glyphs.take(k));
}

proof fn lemma_shelved(glyphs: Seq<GlyphBitmap>, spacing: int, size: int)
    requires
        spacing >= 0,
    ensures
        shelved(glyphs, spacing, size),
    decreases glyphs.len(),
{
    if glyphs.len() > 0 {
        let n = glyphs.len() - 1;
        let prev = glyphs.drop_last();
        lemma_shelved(prev, spacing, size);
        assert(glyphs.take(n) =~= prev);
        let c0 = cursor(prev, spacing, size);
        let c = cursor(glyphs, spacing, size);
        assert forall|k: int| 0 <= k < glyphs.len() implies {
            let p = #[trigger] placement(glyphs, k, spacing, size);
            let g = glyphs[k];
            ||| p.1 == c.1 && p.0 >= 0 && p.0 + g.width + spacing <= c.0 && g.height <= c.2
            ||| p.1 >= 0 && p.1 + g.height + spacing <= c.1
        } by {
            if k < n {
                lemma_placement_prefix(glyphs, n, k, spacing, size);
                assert(placement(prev, k, spacing, size) == placement(glyphs, k, spacing, size));
                assert(prev[k] == glyphs[k]);
            }
        }
    }
}

/// Glyphs packed on shelves do not overlap: of two glyphs, the earlier one
/// lies entirely left of the later one or entirely above it.
pub proof fn law_glyphs_disjoint(glyphs: Seq<GlyphBitmap>, i: int, j: int, spacing: int, size: int)
    requires
        0 <= i < j < glyphs.len(),
        spacing >= 0,
    ensures
        ({
            let pi = placement(glyphs, i, spacing, size);
            let pj = placement(glyphs, j, spacing, size);
            ||| pi.0 + glyphs[i].width <= pj.0
            ||| pi.1 + glyphs[i].height <= pj.1
        }),
{
    let before = glyphs.take(j);
    lemma_shelved(before, spacing, size);
    lemma_placement_prefix(glyphs, j, i, spacing, size);
    assert(before[i] == glyphs[i]);
    assert(placement(before, i, spacing, size) == placement(glyphs, i, spacing, size));
}

} // verus!
