use vstd::prelude::*;
use crate::data_table::{DataTable, DynVec, VecKind};
use crate::data_view::seq_swap_remove;
use crate::instance::InstanceGroup;

verus! {

/// Initializes the particle properties that a particle system needs for
/// spawning, pruning and simulation.
pub trait ParticleInit<T> {
    /// Initialize any properties needed for the particles of an emitter. The
    /// default does nothing.
    fn init_properties(&self, properties: &mut DataTable<T>) {
    }
}

/// Configuration of a particle emitter.
pub struct ParticleConfig {
    /// The total number of particles to render.
    pub total_particles: usize,
    /// The number of particles to emit per update.
    pub emit_cap: usize,
    /// If true, only one burst of particles occurs; otherwise dead particles
    /// are reborn.
    pub is_one_shot: bool,
}

impl ParticleConfig {
    /// How many particles an update spawns when `active` particles are alive:
    /// none for a one-shot emitter, else as many as are missing, at most
    /// `emit_cap`.
    pub fn spawn_count(&self, active: usize) -> (n: usize)
        requires
            active <= self.total_particles,
        ensures
            self.is_one_shot ==> n == 0,
            !self.is_one_shot ==> n == (if self.total_particles - active < self.emit_cap {
                self.total_particles - active
            } else {
                self.emit_cap as int
            }),
    {
        if self.is_one_shot {
            return 0;
        }
        let available = self.total_particles - active;
        if available < self.emit_cap { available } else { self.emit_cap }
    }
}

/// Every column of `t` holds `n` rows.
pub open spec fn rows_of<T>(t: DataTable<T>, n: int) -> bool {
    forall|j: int| 0 <= j < t.column_seq().len() ==> (#[trigger] t.column_seq()[j]).spec_len() == n
}

/// Column `a` holds, at each row `p`, the value that column `b` held at row
/// `perm[p]`; a dirty-tracked value that stayed in its row keeps its flag, one
/// that moved is dirty.
pub open spec fn column_from<T>(b: DynVec<T>, a: DynVec<T>, perm: Seq<int>) -> bool {
    &&& a.kind() == b.kind()
    &&& a.spec_len() == perm.len()
    &&& forall|p: int| 0 <= p < perm.len() ==> #[trigger] a.values()[p] == b.values()[perm[p]]
    &&& a.kind() == VecKind::Dirty ==> forall|p: int| 0 <= p < perm.len()
        ==> #[trigger] a.flags()[p] == (if perm[p] == p { b.flags()[p] } else { true })
}

/// Table `after` holds the rows of `before` that `perm` names, in the order of
/// `perm`, in every column.
pub open spec fn rows_from<T>(before: DataTable<T>, after: DataTable<T>, perm: Seq<int>) -> bool {
    &&& after.column_seq().len() == before.column_seq().len()
    &&& forall|j: int| 0 <= j < before.column_seq().len()
        ==> column_from(before.column_seq()[j], #[trigger] after.column_seq()[j], perm)
}

/// `perm` lists, each once, exactly the rows that are not dead.
pub open spec fn survivors(perm: Seq<int>, dead: Seq<bool>) -> bool {
    &&& perm.no_duplicates()
    &&& forall|p: int| 0 <= p < perm.len() ==> 0 <= #[trigger] perm[p] < dead.len() && !dead[perm[p]]
    &&& forall|i: int| 0 <= i < dead.len() && !dead[i] ==> #[trigger] perm.contains(i)
}

/// A row keeps its own particle unless that particle died: a living particle
/// whose row is still in the table has not moved.
pub open spec fn stays_put(perm: Seq<int>, dead: Seq<bool>) -> bool {
    forall|p: int| 0 <= p < perm.len() && !dead[p] ==> #[trigger] perm[p] == p
}

/// The rows `0..n`, in order.
pub open spec fn identity_rows(n: int) -> Seq<int> {
    Seq::new(n as nat, |i: int| i)
}

/// The order in which the walk of `remove_dead` leaves the rows: from row
/// `idx` on, a row whose particle is alive is passed, and a row whose
/// particle is dead is swap-removed (the last row moves into its place and
/// is looked at next). `perm` names, for each row, the original row whose
/// particle it holds.
pub open spec fn walk_survivors(perm: Seq<int>, dead: Seq<bool>, idx: int) -> Seq<int>
    decreases perm.len() - idx,
{
    if idx < 0 || idx >= perm.len() {
        perm
    } else if !dead[perm[idx]] {
        walk_survivors(perm, dead, idx + 1)
    } else {
        walk_survivors(seq_swap_remove(perm, idx), dead, idx)
    }
}

/// The order in which `remove_rows` leaves the rows: the listed rows are
/// swap-removed, the last listed first, each time the last row moving into
/// the removed one's place.
pub open spec fn remove_listed(perm: Seq<int>, rows: Seq<usize>, k: nat) -> Seq<int>
    decreases k,
{
    if k == 0 || k > rows.len() {
        perm
    } else {
        remove_listed(seq_swap_remove(perm, rows[k - 1] as int), rows, (k - 1) as nat)
    }
}

/// How many of the rows are not dead.
pub open spec fn alive_count(dead: Seq<bool>) -> nat
    decreases dead.len(),
{
    if dead.len() == 0 {
        0
    } else {
        alive_count(dead.drop_last()) + if dead.last() { 0nat } else { 1nat }
    }
}

/// A list of survivors has one entry per living row.
pub proof fn lemma_survivors_count(perm: Seq<int>, dead: Seq<bool>)
    requires
        survivors(perm, dead),
    ensures
        perm.len() == alive_count(dead),
    decreases dead.len(),
{
    if dead.len() == 0 {
        if perm.len() > 0 {
            assert(0 <= perm[0] < dead.len());
        }
    } else {
        let last = dead.len() - 1;
        let rest = dead.drop_last();
        if perm.contains(last) {
            let q = choose|q: int| 0 <= q < perm.len() && perm[q] == last;
            assert(!dead[perm[q]]);
            let shorter = perm.remove(q);
            assert forall|a: int, b: int| 0 <= a < shorter.len() && 0 <= b < shorter.len() && a != b
                implies shorter[a] != shorter[b] by {
                let oa = if a < q { a } else { a + 1 };
                let ob = if b < q { b } else { b + 1 };
                assert(shorter[a] == perm[oa]);
                assert(shorter[b] == perm[ob]);
            }
            assert forall|p: int| 0 <= p < shorter.len() implies 0 <= #[trigger] shorter[p] < rest.len() && !rest[shorter[p]] by {
                let op = if p < q { p } else { p + 1 };
                assert(shorter[p] == perm[op]);
                assert(perm[op] != perm[q]);
            }
            assert forall|i: int| 0 <= i < rest.len() && !rest[i] implies #[trigger] shorter.contains(i) by {
                assert(perm.contains(i));
                let r = choose|r: int| 0 <= r < perm.len() && perm[r] == i;
                if r < q {
                    assert(shorter[r] == i);
                } else {
                    assert(r != q);
                    assert(shorter[r - 1] == i);
                }
            }
            lemma_survivors_count(shorter, rest);
        } else {
            assert(dead[last]);
            assert forall|p: int| 0 <= p < perm.len() implies 0 <= #[trigger] perm[p] < rest.len() && !rest[perm[p]] by {
                assert(perm[p] != last);
            }
            lemma_survivors_count(perm, rest);
        }
    }
}

/// Rows only ever move up, into the place of a removed row.
spec fn moved_up(perm: Seq<int>) -> bool {
    forall|p: int| 0 <= p < perm.len() ==> #[trigger] perm[p] >= p
}

proof fn lemma_column_step<T>(b: DynVec<T>, a: DynVec<T>, a2: DynVec<T>, perm: Seq<int>, idx: int)
    requires
        column_from(b, a, perm),
        moved_up(perm),
        0 <= idx < perm.len(),
        DynVec::swap_removed(a, a2, idx),
    ensures
        column_from(b, a2, seq_swap_remove(perm, idx)),
{
    let perm2 = seq_swap_remove(perm, idx);
    let n = perm.len();
    assert forall|p: int| 0 <= p < perm2.len() implies #[trigger] a2.values()[p] == b.values()[perm2[p]] by {
        assert(a2.values() == seq_swap_remove(a.values(), idx));
        if p == idx {
            assert(a.values()[n - 1] == b.values()[perm[n - 1]]);
        } else {
            assert(a.values()[p] == b.values()[perm[p]]);
        }
    }
    if a2.kind() == VecKind::Dirty {
        assert forall|p: int| 0 <= p < perm2.len()
            implies #[trigger] a2.flags()[p] == (if perm2[p] == p { b.flags()[p] } else { true }) by {
            if p == idx {
                assert(perm[n - 1] >= n - 1);
            } else {
                assert(a.flags()[p] == (if perm[p] == p { b.flags()[p] } else { true }));
            }
        }
    }
}

/// Remove the row `idx` of both tables by swap-removal; the rows that remain
/// are those `perm` named, with the last moved into the removed one's place.
fn remove_row<T>(
    instances: &mut InstanceGroup<T>,
    properties: &mut DataTable<T>,
    idx: usize,
    Ghost(inst0): Ghost<DataTable<T>>,
    Ghost(props0): Ghost<DataTable<T>>,
    Ghost(perm): Ghost<Seq<int>>,
)
    requires
        old(instances).wf(),
        old(properties).wf(),
        idx < perm.len(),
        old(instances).spec_count() == perm.len(),
        moved_up(perm),
        rows_from(inst0, old(instances).table(), perm),
        rows_from(props0, *old(properties), perm),
    ensures
        final(instances).wf(),
        final(properties).wf(),
        final(instances).spec_label() == old(instances).spec_label(),
        final(instances).layout() == old(instances).layout(),
        final(instances).table().key_seq() == old(instances).table().key_seq(),
        final(instances).table().spec_capacity() == old(instances).table().spec_capacity(),
        final(properties).key_seq() == old(properties).key_seq(),
        final(properties).spec_capacity() == old(properties).spec_capacity(),
        final(instances).spec_count() == perm.len() - 1,
        rows_from(inst0, final(instances).table(), seq_swap_remove(perm, idx as int)),
        rows_from(props0, *final(properties), seq_swap_remove(perm, idx as int)),
{
    let ghost t1 = instances.table();
    let ghost p1 = *properties;
    proof {
        assert forall|j: int| 0 <= j < t1.column_seq().len() && #[trigger] t1.column_seq()[j].kind() == VecKind::Plain
            implies idx < t1.column_seq()[j].spec_len() by {
            assert(column_from(inst0.column_seq()[j], t1.column_seq()[j], perm));
        }
        assert forall|j: int| 0 <= j < p1.column_seq().len() && #[trigger] p1.column_seq()[j].kind() == VecKind::Plain
            implies idx < p1.column_seq()[j].spec_len() by {
            assert(column_from(props0.column_seq()[j], p1.column_seq()[j], perm));
        }
    }
    instances.remove_instance(idx);
    properties.swap_remove(idx);
    proof {
        let t2 = instances.table();
        assert forall|j: int| 0 <= j < inst0.column_seq().len()
            implies column_from(inst0.column_seq()[j], #[trigger] t2.column_seq()[j], seq_swap_remove(perm, idx as int)) by {
            lemma_column_step(inst0.column_seq()[j], t1.column_seq()[j], t2.column_seq()[j], perm, idx as int);
        }
        assert forall|j: int| 0 <= j < props0.column_seq().len()
            implies column_from(props0.column_seq()[j], #[trigger] properties.column_seq()[j], seq_swap_remove(perm, idx as int)) by {
            lemma_column_step(props0.column_seq()[j], p1.column_seq()[j], properties.column_seq()[j], perm, idx as int);
        }
    }
}

/// Remove the dead particles: walking the rows in order, each dead row is
/// swap-removed from the instances and the particle properties alike, and the
/// row moved into its place is looked at next. Returns how many particles
/// remain: exactly the living ones, each row of each table holding what one
/// living particle held before.
pub fn remove_dead<T>(instances: &mut InstanceGroup<T>, properties: &mut DataTable<T>, dead: Vec<bool>) -> (remaining: usize)
    requires
        old(instances).wf(),
        old(properties).wf(),
        old(instances).spec_count() == dead@.len(),
        rows_of(old(instances).table(), dead@.len() as int),
        rows_of(*old(properties), dead@.len() as int),
    ensures
        final(instances).wf(),
        final(properties).wf(),
        final(instances).spec_label() == old(instances).spec_label(),
        final(instances).layout() == old(instances).layout(),
        final(instances).table().key_seq() == old(instances).table().key_seq(),
        final(instances).table().spec_capacity() == old(instances).table().spec_capacity(),
        final(properties).key_seq() == old(properties).key_seq(),
        final(properties).spec_capacity() == old(properties).spec_capacity(),
        final(instances).spec_count() == remaining,
        remaining == alive_count(dead@),
        ({
            let perm = walk_survivors(identity_rows(dead@.len() as int), dead@, 0);
            &&& perm.len() == remaining
            &&& survivors(perm, dead@)
            &&& stays_put(perm, dead@)
            &&& rows_from(old(instances).table(), final(instances).table(), perm)
            &&& rows_from(*old(properties), *final(properties), perm)
        }),
{
    let ghost inst0 = instances.table();
    let ghost props0 = *properties;
    let ghost d0 = dead@;
    let n = dead.len();
    let ghost mut perm: Seq<int> = Seq::new(n as nat, |i: int| i);
    let ghost order = walk_survivors(identity_rows(n as int), d0, 0);
    proof {
        assert(perm == identity_rows(n as int));
        assert forall|j: int| 0 <= j < inst0.column_seq().len()
            implies column_from(inst0.column_seq()[j], #[trigger] inst0.column_seq()[j], perm) by {
            assert(inst0.column_seq()[j].spec_len() == n);
        }
        assert forall|j: int| 0 <= j < props0.column_seq().len()
            implies column_from(props0.column_seq()[j], #[trigger] props0.column_seq()[j], perm) by {
            assert(props0.column_seq()[j].spec_len() == n);
        }
        assert forall|i: int| 0 <= i < n && !d0[i] implies #[trigger] perm.contains(i) by {
            assert(perm[i] == i);
        }
        assert(stays_put(perm, d0));
    }
    let mut flags = dead;
    let mut remaining: usize = n;
    let mut idx: usize = 0;
    while idx < remaining
        invariant
            instances.wf(),
            properties.wf(),
            instances.spec_label() == old(instances).spec_label(),
            instances.layout() == old(instances).layout(),
            instances.table().key_seq() == old(instances).table().key_seq(),
            instances.table().spec_capacity() == old(instances).table().spec_capacity(),
            properties.key_seq() == old(properties).key_seq(),
            properties.spec_capacity() == old(properties).spec_capacity(),
            inst0 == old(instances).table(),
            props0 == *old(properties),
            d0.len() == n,
            idx <= remaining,
            remaining == perm.len(),
            remaining == flags@.len(),
            instances.spec_count() == remaining,
            forall|p: int| 0 <= p < remaining ==> #[trigger] flags@[p] == d0[perm[p]],
            moved_up(perm),
            forall|p: int| 0 <= p < perm.len() ==> 0 <= #[trigger] perm[p] < n,
            perm.no_duplicates(),
            forall|p: int| 0 <= p < idx ==> !d0[#[trigger] perm[p]],
            forall|i: int| 0 <= i < n && !d0[i] ==> #[trigger] perm.contains(i),
            stays_put(perm, d0),
            walk_survivors(perm, d0, idx as int) == order,
            rows_from(inst0, instances.table(), perm),
            rows_from(props0, *properties, perm),
        decreases remaining - idx,
    {
        if !flags[idx] {
            assert(walk_survivors(perm, d0, idx as int) == walk_survivors(perm, d0, idx + 1));
            idx = idx + 1;
        } else {
            assert(walk_survivors(perm, d0, idx as int) == walk_survivors(seq_swap_remove(perm, idx as int), d0, idx as int));
            remove_row(instances, properties, idx, Ghost(inst0), Ghost(props0), Ghost(perm));
            let ghost before = perm;
            flags.swap_remove(idx);
            proof {
                perm = seq_swap_remove(before, idx as int);
                let last = before.len() - 1;
                assert forall|p: int| 0 <= p < perm.len() implies #[trigger] perm[p] >= p by {
                    if p == idx {
                        assert(before[last] >= last);
                    } else {
                        assert(before[p] >= p);
                    }
                }
                assert forall|p: int| 0 <= p < perm.len() && !d0[p] implies #[trigger] perm[p] == p by {
                    if p == idx {
                        assert(d0[before[p]]);
                        assert(before[p] == p);
                    } else {
                        assert(perm[p] == before[p]);
                    }
                }
                assert forall|a: int, b: int| 0 <= a < perm.len() && 0 <= b < perm.len() && a != b
                    implies perm[a] != perm[b] by {
                    let oa = if a == idx { last } else { a };
                    let ob = if b == idx { last } else { b };
                    assert(perm[a] == before[oa]);
                    assert(perm[b] == before[ob]);
                }
                assert forall|i: int| 0 <= i < n && !d0[i] implies #[trigger] perm.contains(i) by {
                    assert(before.contains(i));
                    let q = choose|q: int| 0 <= q < before.len() && before[q] == i;
                    assert(q != idx);
                    if q == last {
                        assert(perm[idx as int] == i);
                    } else {
                        assert(perm[q] == i);
                    }
                }
            }
            remaining = remaining - 1;
        }
    }
    proof {
        assert(perm == order);
        assert(survivors(perm, d0));
        lemma_survivors_count(perm, d0);
    }
    remaining
}

/// The rows of `0..n` that are in `rows`, as flags.
pub open spec fn flags_of(rows: Seq<usize>, n: int) -> Seq<bool> {
    Seq::new(n as nat, |i: int| rows.contains(i as usize))
}

/// The rows are listed in strictly increasing order, each below `n`.
pub open spec fn ascending_below(rows: Seq<usize>, n: int) -> bool {
    &&& forall|a: int, b: int| 0 <= a < b < rows.len() ==> rows[a] < rows[b]
    &&& forall|a: int| 0 <= a < rows.len() ==> #[trigger] rows[a] < n
}

proof fn lemma_ascending_room(rows: Seq<usize>, n: int, m: int)
    requires
        ascending_below(rows, n),
        0 <= m < rows.len(),
    ensures
        rows[m] + (rows.len() - m) <= n,
    decreases rows.len() - m,
{
    if m + 1 < rows.len() {
        lemma_ascending_room(rows, n, m + 1);
        assert(rows[m] < rows[m + 1]);
    }
}

/// Remove the rows listed (in increasing order) from the instances and the
/// particle properties alike, the last listed first, each by swap-removal.
/// Returns how many particles remain: exactly those whose rows were not
/// listed, each row of each table holding what one of them held before.
pub fn remove_rows<T>(instances: &mut InstanceGroup<T>, properties: &mut DataTable<T>, dead_rows: &Vec<usize>) -> (remaining: usize)
    requires
        old(instances).wf(),
        old(properties).wf(),
        ascending_below(dead_rows@, old(instances).spec_count() as int),
        rows_of(old(instances).table(), old(instances).spec_count() as int),
        rows_of(*old(properties), old(instances).spec_count() as int),
    ensures
        final(instances).wf(),
        final(properties).wf(),
        final(instances).spec_label() == old(instances).spec_label(),
        final(instances).layout() == old(instances).layout(),
        final(instances).table().key_seq() == old(instances).table().key_seq(),
        final(instances).table().spec_capacity() == old(instances).table().spec_capacity(),
        final(properties).key_seq() == old(properties).key_seq(),
        final(properties).spec_capacity() == old(properties).spec_capacity(),
        final(instances).spec_count() == remaining,
        remaining == old(instances).spec_count() - dead_rows@.len(),
        ({
            let perm = remove_listed(identity_rows(old(instances).spec_count() as int), dead_rows@, dead_rows@.len());
            &&& perm.len() == remaining
            &&& survivors(perm, flags_of(dead_rows@, old(instances).spec_count() as int))
            &&& stays_put(perm, flags_of(dead_rows@, old(instances).spec_count() as int))
            &&& rows_from(old(instances).table(), final(instances).table(), perm)
            &&& rows_from(*old(properties), *final(properties), perm)
        }),
{
    let ghost inst0 = instances.table();
    let ghost props0 = *properties;
    let ghost rows = dead_rows@;
    let count = instances.count();
    let ghost d0 = flags_of(rows, count as int);
    let ghost mut perm: Seq<int> = Seq::new(count as nat, |i: int| i);
    let ghost order = remove_listed(identity_rows(count as int), rows, rows.len());
    proof {
        assert(perm == identity_rows(count as int));
        assert forall|j: int| 0 <= j < inst0.column_seq().len()
            implies column_from(inst0.column_seq()[j], #[trigger] inst0.column_seq()[j], perm) by {
            assert(inst0.column_seq()[j].spec_len() == count);
        }
        assert forall|j: int| 0 <= j < props0.column_seq().len()
            implies column_from(props0.column_seq()[j], #[trigger] props0.column_seq()[j], perm) by {
            assert(props0.column_seq()[j].spec_len() == count);
        }
        assert forall|i: int| 0 <= i < count && !d0[i] implies #[trigger] perm.contains(i) by {
            assert(perm[i] == i);
        }
        if rows.len() > 0 {
            lemma_ascending_room(rows, count as int, 0);
        }
        assert(stays_put(perm, d0));
    }
    let mut k: usize = dead_rows.len();
    let mut remaining: usize = count;
    while k > 0
        invariant
            instances.wf(),
            properties.wf(),
            instances.spec_label() == old(instances).spec_label(),
            instances.layout() == old(instances).layout(),
            instances.table().key_seq() == old(instances).table().key_seq(),
            instances.table().spec_capacity() == old(instances).table().spec_capacity(),
            properties.key_seq() == old(properties).key_seq(),
            properties.spec_capacity() == old(properties).spec_capacity(),
            inst0 == old(instances).table(),
            props0 == *old(properties),
            count == old(instances).spec_count(),
            rows == dead_rows@,
            ascending_below(rows, count as int),
            d0 == flags_of(rows, count as int),
            k <= rows.len(),
            remaining == count - (rows.len() - k),
            remaining == perm.len(),
            instances.spec_count() == remaining,
            moved_up(perm),
            forall|p: int| 0 <= p < perm.len() ==> 0 <= #[trigger] perm[p] < count,
            perm.no_duplicates(),
            forall|m: int| 0 <= m < k ==> #[trigger] rows[m] < perm.len() && perm[rows[m] as int] == rows[m],
            forall|p: int| 0 <= p < perm.len() && d0[#[trigger] perm[p]] ==> exists|m: int| 0 <= m < k && rows[m] == p,
            forall|i: int| 0 <= i < count && !d0[i] ==> #[trigger] perm.contains(i),
            stays_put(perm, d0),
            remove_listed(perm, rows, k as nat) == order,
            rows_from(inst0, instances.table(), perm),
            rows_from(props0, *properties, perm),
        decreases k,
    {
        let idx = dead_rows[k - 1];
        proof {
            lemma_ascending_room(rows, count as int, k - 1);
        }
        remove_row(instances, properties, idx, Ghost(inst0), Ghost(props0), Ghost(perm));
        proof {
            let before = perm;
            perm = seq_swap_remove(before, idx as int);
            assert(remove_listed(before, rows, k as nat) == remove_listed(perm, rows, (k - 1) as nat));
            let last = before.len() - 1;
            assert(before[idx as int] == idx);
            assert forall|p: int| 0 <= p < perm.len() && !d0[p] implies #[trigger] perm[p] == p by {
                if p == idx {
                    assert(rows[k - 1] == idx);
                    assert(rows.contains(idx));
                    assert(d0[p]);
                } else {
                    assert(perm[p] == before[p]);
                }
            }
            assert forall|p: int| 0 <= p < perm.len() implies #[trigger] perm[p] >= p by {
                if p == idx {
                    assert(before[last] >= last);
                } else {
                    assert(before[p] >= p);
                }
            }
            assert forall|p: int| 0 <= p < perm.len() implies 0 <= #[trigger] perm[p] < count by {
                if p == idx { assert(0 <= before[last] < count); } else { assert(0 <= before[p] < count); }
            }
            assert forall|a: int, b: int| 0 <= a < perm.len() && 0 <= b < perm.len() && a != b
                implies perm[a] != perm[b] by {
                let oa = if a == idx { last } else { a };
                let ob = if b == idx { last } else { b };
                assert(perm[a] == before[oa]);
                assert(perm[b] == before[ob]);
            }
            assert forall|m: int| 0 <= m < k - 1 implies #[trigger] rows[m] < perm.len() && perm[rows[m] as int] == rows[m] by {
                assert(rows[m] < rows[k - 1]);
                assert(before[rows[m] as int] == rows[m]);
            }
            assert forall|p: int| 0 <= p < perm.len() && d0[#[trigger] perm[p]]
                implies exists|m: int| 0 <= m < k - 1 && rows[m] == p by {
                let op = if p == idx { last } else { p };
                assert(perm[p] == before[op]);
                let m = choose|m: int| 0 <= m < k && rows[m] == op;
                if p == idx {
                    assert(rows[m] < rows[k - 1] || m == k - 1);
                }
            }
            assert forall|i: int| 0 <= i < count && !d0[i] implies #[trigger] perm.contains(i) by {
                assert(before.contains(i));
                let q = choose|q: int| 0 <= q < before.len() && before[q] == i;
                assert(q != idx) by {
                    if q == idx {
                        assert(before[idx as int] == idx);
                        assert(rows.contains(idx));
                        assert(d0[i]);
                    }
                }
                if q == last {
                    assert(perm[idx as int] == i);
                } else {
                    assert(perm[q] == i);
                }
            }
        }
        remaining = remaining - 1;
        k = k - 1;
    }
    proof {
        assert(survivors(perm, d0));
    }
    remaining
}

} // verus!
