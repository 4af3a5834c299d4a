use vstd::prelude::*;
use crate::text::{owned, same_text, string_views};

verus! {

/// A resource that finished creation.
pub struct Ready<R> {
    /// The stored resource.
    pub rsc: R,
    /// The time in seconds before this resource is released after its last access.
    pub hold_time: Option<u64>,
    /// When this resource was last accessed, in milliseconds.
    pub accessed: u64,
}

/// A resource whose creation failed.
pub struct Failed {
    /// Why the resource failed.
    pub err_msg: String,
    /// When the resource failed, in milliseconds.
    pub failed_at: u64,
}

/// A resource whose creation was requested and has not finished.
pub struct Pending {
    /// When the resource was requested, in milliseconds.
    pub requested_at: u64,
}

/// The state of a resource requested from a handler.
pub enum ResourceStatus<R> {
    /// Requested, not yet ready.
    Pending(Pending),
    /// Ready for retrieval.
    Ready(Ready<R>),
    /// Creation failed.
    Failed(Failed),
}

/// The message of a resource whose builder ran past the thread timeout.
pub open spec fn stalled_message() -> Seq<char> {
    "Worker thread lost or stalled execution."@
}

/// The name of a status, as `status_of_all` reports it.
pub open spec fn status_name<R>(s: ResourceStatus<R>) -> Seq<char> {
    match s {
        ResourceStatus::Failed(_) => "FAILED"@,
        ResourceStatus::Pending(_) => "PENDING"@,
        ResourceStatus::Ready(_) => "READY"@,
    }
}

/// The milliseconds from `t` to `now`, or 0 if `now` is earlier.
pub open spec fn elapsed_ms(now: u64, t: u64) -> int {
    if now >= t { now - t } else { 0 }
}

/// Whether more than `secs` seconds passed from `t` to `now`.
pub open spec fn exceeds(now: u64, t: u64, secs: u64) -> bool {
    elapsed_ms(now, t) > secs * 1000
}

/// Whether a resource is dropped when the handler is synchronized at `now`:
/// a ready resource past its hold time after its last access, or a failed
/// resource past the failed timeout.
pub open spec fn expires<R>(s: ResourceStatus<R>, now: u64, failed_timeout: u64) -> bool {
    match s {
        ResourceStatus::Ready(rd) => rd.hold_time matches Some(h) && exceeds(now, rd.accessed, h),
        ResourceStatus::Pending(_) => false,
        ResourceStatus::Failed(f) => exceeds(now, f.failed_at, failed_timeout),
    }
}

/// Whether a pending resource's builder is given up at `now`: it was
/// requested more than the thread timeout ago.
pub open spec fn stalls<R>(s: ResourceStatus<R>, now: u64, thread_timeout: u64) -> bool {
    s matches ResourceStatus::Pending(p) && exceeds(now, p.requested_at, thread_timeout)
}

/// The status that a builder's outcome gives a resource at `now`.
pub open spec fn outcome_status<R>(outcome: Result<Ready<R>, String>, now: u64) -> ResourceStatus<R> {
    match outcome {
        Ok(rd) => ResourceStatus::Ready(rd),
        Err(e) => ResourceStatus::Failed(Failed { err_msg: e, failed_at: now }),
    }
}

/// The resources after the builders' outcomes `results` were stored, in order.
pub open spec fn apply_results<R>(m: Map<Seq<char>, ResourceStatus<R>>, results: Seq<(String, Result<Ready<R>, String>)>, now: u64) -> Map<Seq<char>, ResourceStatus<R>>
    decreases results.len(),
{
    if results.len() == 0 {
        m
    } else {
        let last = results.last();
        apply_results(m, results.drop_last(), now).insert(last.0@, outcome_status(last.1, now))
    }
}

/// Whether `after` is `before` once evaluated at `now`: expired resources
/// are gone, stalled ones have failed at `now`, and the others are unchanged.
pub open spec fn evaluated<R>(before: Map<Seq<char>, ResourceStatus<R>>, after: Map<Seq<char>, ResourceStatus<R>>, now: u64, thread_timeout: u64, failed_timeout: u64) -> bool {
    &&& forall|k: Seq<char>| #[trigger] after.dom().contains(k) <==>
            before.dom().contains(k) && !expires(before[k], now, failed_timeout)
    &&& forall|k: Seq<char>| #[trigger] after.dom().contains(k) ==> {
            if stalls(before[k], now, thread_timeout) {
                after[k] matches ResourceStatus::Failed(f) && f.err_msg@ == stalled_message() && f.failed_at == now
            } else {
                after[k] == before[k]
            }
        }
}

/// Whether a request for `key` starts a builder: the handler does not hold
/// it, or it failed.
pub open spec fn needs_request<R>(m: Map<Seq<char>, ResourceStatus<R>>, key: Seq<char>) -> bool {
    !m.dom().contains(key) || m[key] is Failed
}

/// Whether `m` holds a ready resource under `key`.
pub open spec fn is_ready_in<R>(m: Map<Seq<char>, ResourceStatus<R>>, key: Seq<char>) -> bool {
    m.dom().contains(key) && m[key] is Ready
}

/// `m` with the ready resource under `key`, if any, marked as accessed at `now`.
pub open spec fn touched<R>(m: Map<Seq<char>, ResourceStatus<R>>, key: Seq<char>, now: u64) -> Map<Seq<char>, ResourceStatus<R>> {
    if is_ready_in(m, key) {
        m.insert(key, ResourceStatus::Ready(Ready { accessed: now, ..m[key]->Ready_0 }))
    } else {
        m
    }
}

impl<R> ResourceStatus<R> {
    /// When the resource was requested, if it is pending.
    pub fn requested_at(&self) -> (r: Option<u64>)
        ensures
            match self {
                ResourceStatus::Pending(p) => r == Some(p.requested_at),
                _ => r is None,
            },
    {
        match self {
            ResourceStatus::Pending(p) => Some(p.requested_at),
            _ => None,
        }
    }

    /// The stored resource, if it is ready.
    pub fn value(&self) -> (r: Option<&Ready<R>>)
        ensures
            match self {
                ResourceStatus::Ready(rd) => r == Some(rd),
                _ => r is None,
            },
    {
        match self {
            ResourceStatus::Ready(rd) => Some(rd),
            _ => None,
        }
    }

    /// The stored resource, mutably, if it is ready.
    pub fn value_mut(&mut self) -> (r: Option<&mut Ready<R>>)
        ensures
            match *old(self) {
                ResourceStatus::Ready(rd) => r matches Some(x) && *x == rd
                    && *final(self) == ResourceStatus::Ready(*final(x)),
                _ => r is None && *final(self) == *old(self),
            },
    {
        match self {
            ResourceStatus::Ready(rd) => Some(rd),
            _ => None,
        }
    }

    /// The error message, if the resource failed.
    pub fn error_msg(&self) -> (r: Option<&str>)
        ensures
            match self {
                ResourceStatus::Failed(f) => r matches Some(m) && m@ == f.err_msg@,
                _ => r is None,
            },
    {
        match self {
            ResourceStatus::Failed(f) => Some(f.err_msg.as_str()),
            _ => None,
        }
    }

    /// Whether the resource is ready.
    pub fn is_ready(&self) -> (b: bool)
        ensures
            b == self is Ready,
    {
        self.value().is_some()
    }

    /// Whether the resource is pending.
    pub fn is_pending(&self) -> (b: bool)
        ensures
            b == self is Pending,
    {
        self.requested_at().is_some()
    }

    /// Whether the resource failed.
    pub fn is_failed(&self) -> (b: bool)
        ensures
            b == self is Failed,
    {
        self.error_msg().is_some()
    }
}

/// Keeps resources by key, with the state of their creation: pending while a
/// builder works on them, then ready or failed.
///
/// The handler decides; the caller does the work: when a request returns
/// `true` the caller starts a builder for that key, hands its outcome back to
/// `sync`, and stops the builders of the keys that `sync` returns. Times are
/// in milliseconds on the caller's clock; timeouts are in seconds.
pub struct ResourceHandler<R> {
    keys: Vec<String>,
    statuses: Vec<ResourceStatus<R>>,
    thread_timeout: u64,
    failed_timeout: u64,
}

impl<R> View for ResourceHandler<R> {
    type V = Map<Seq<char>, ResourceStatus<R>>;

    open spec fn view(&self) -> Map<Seq<char>, ResourceStatus<R>> {
        Map::new(
            |k: Seq<char>| self.key_seq().contains(k),
            |k: Seq<char>| self.status_seq()[self.key_seq().index_of(k)],
        )
    }
}

impl<R> ResourceHandler<R> {
    /// The keys, in the order they were first stored.
    pub closed spec fn key_seq(&self) -> Seq<Seq<char>> {
        string_views(self.keys@)
    }

    /// The status of each key.
    pub closed spec fn status_seq(&self) -> Seq<ResourceStatus<R>> {
        self.statuses@
    }

    /// Seconds before a pending builder is given up.
    pub closed spec fn spec_thread_timeout(&self) -> u64 {
        self.thread_timeout
    }

    /// Seconds before a failed resource is dropped.
    pub closed spec fn spec_failed_timeout(&self) -> u64 {
        self.failed_timeout
    }

    /// Every key occurs once, with one status.
    pub open spec fn wf(&self) -> bool {
        &&& self.key_seq().no_duplicates()
        &&& self.key_seq().len() == self.status_seq().len()
    }

    /// In a well-formed handler, the key at position `i` maps to the status at `i`.
    proof fn lemma_lookup(&self, i: int)
        requires
            self.wf(),
            0 <= i < self.key_seq().len(),
        ensures
            self@.dom().contains(self.key_seq()[i]),
            self@[self.key_seq()[i]] == self.status_seq()[i],
            self.key_seq().index_of(self.key_seq()[i]) == i,
    {
        let k = self.key_seq()[i];
        assert(self.key_seq()[i] == k);
        let j = self.key_seq().index_of(k);
        assert(0 <= j < self.key_seq().len() && self.key_seq()[j] == k);
    }

    /// The position of `key`, if present.
    fn find(&self, key: &str) -> (r: Option<usize>)
        requires
            self.wf(),
        ensures
            match r {
                Some(i) => i < self.key_seq().len() && self.key_seq()[i as int] == key@
                    && self@.dom().contains(key@) && self@[key@] == self.status_seq()[i as int],
                None => !self@.dom().contains(key@),
            },
    {
        let n = self.keys.len();
        let mut i: usize = 0;
        while i < n
            invariant
                n == self.keys@.len(),
                self.wf(),
                i <= n,
                forall|j: int| 0 <= j < i ==> #[trigger] self.key_seq()[j] != key@,
            decreases n - i,
        {
            if same_text(self.keys[i].as_str(), key) {
                proof {
                    self.lemma_lookup(i as int);
                }
                return Some(i);
            }
            i = i + 1;
        }
        proof {
            if self.key_seq().contains(key@) {
                let j = choose|j: int| 0 <= j < self.key_seq().len() && self.key_seq()[j] == key@;
                assert(self.key_seq()[j] != key@);
            }
        }
        None
    }

    /// Replace the status at position `i`.
    fn set_status(&mut self, i: usize, status: ResourceStatus<R>)
        requires
            old(self).wf(),
            i < old(self).key_seq().len(),
        ensures
            final(self).wf(),
            final(self).key_seq() == old(self).key_seq(),
            final(self).status_seq() == old(self).status_seq().update(i as int, status),
            final(self)@ == old(self)@.insert(old(self).key_seq()[i as int], status),
            final(self).spec_thread_timeout() == old(self).spec_thread_timeout(),
            final(self).spec_failed_timeout() == old(self).spec_failed_timeout(),
    {
        let ghost before = *self;
        self.statuses.set(i, status);
        proof {
            let k = before.key_seq()[i as int];
            assert(self.key_seq() == before.key_seq());
            assert forall|x: Seq<char>| #[trigger] self@.dom().contains(x) == before@.insert(k, status).dom().contains(x) by {}
            assert forall|x: Seq<char>| self@.dom().contains(x) implies #[trigger] self@[x] == before@.insert(k, status)[x] by {
                let j = self.key_seq().index_of(x);
                assert(0 <= j < self.key_seq().len() && self.key_seq()[j] == x);
                self.lemma_lookup(j);
                if x != k {
                    before.lemma_lookup(j);
                } else {
                    before.lemma_lookup(i as int);
                }
            }
            assert(self@ =~= before@.insert(k, status));
        }
    }

    /// Store `status` under `key`, replacing the status stored there before.
    fn put(&mut self, key: &str, status: ResourceStatus<R>)
        requires
            old(self).wf(),
        ensures
            final(self).wf(),
            final(self)@ == old(self)@.insert(key@, status),
            final(self).spec_thread_timeout() == old(self).spec_thread_timeout(),
            final(self).spec_failed_timeout() == old(self).spec_failed_timeout(),
    {
        match self.find(key) {
            Some(i) => {
                self.set_status(i, status);
            },
            None => {
                let ghost before = *self;
                self.keys.push(owned(key));
                self.statuses.push(status);
                proof {
                    assert(self.key_seq() =~= before.key_seq().push(key@));
                    assert(self.status_seq() =~= before.status_seq().push(status));
                    assert forall|a: int, b: int| 0 <= a < self.key_seq().len() && 0 <= b < self.key_seq().len() && a != b
                        implies self.key_seq()[a] != self.key_seq()[b] by {
                        if a == before.key_seq().len() as int {
                            assert(before.key_seq()[b] != key@);
                        } else if b == before.key_seq().len() as int {
                            assert(before.key_seq()[a] != key@);
                        }
                    }
                    let n = before.key_seq().len() as int;
                    assert forall|x: Seq<char>| #[trigger] self@.dom().contains(x) == before@.insert(key@, status).dom().contains(x) by {
                        if x == key@ {
                            assert(self.key_seq()[n] == key@);
                        } else if before.key_seq().contains(x) {
                            let j = choose|j: int| 0 <= j < before.key_seq().len() && before.key_seq()[j] == x;
                            assert(self.key_seq()[j] == x);
                        } else if self.key_seq().contains(x) {
                            let j = choose|j: int| 0 <= j < self.key_seq().len() && self.key_seq()[j] == x;
                            assert(before.key_seq()[j] == x);
                        }
                    }
                    assert forall|x: Seq<char>| self@.dom().contains(x) implies #[trigger] self@[x] == before@.insert(key@, status)[x] by {
                        let j = self.key_seq().index_of(x);
                        assert(0 <= j < self.key_seq().len() && self.key_seq()[j] == x);
                        self.lemma_lookup(j);
                        if j < n {
                            before.lemma_lookup(j);
                        }
                    }
                    assert(self@ =~= before@.insert(key@, status));
                }
            },
        }
    }

    /// Remove the entry at position `i`, keeping the order of the others.
    fn remove_at(&mut self, i: usize) -> (s: ResourceStatus<R>)
        requires
            old(self).wf(),
            i < old(self).key_seq().len(),
        ensures
            final(self).wf(),
            s == old(self).status_seq()[i as int],
            final(self).key_seq() == old(self).key_seq().remove(i as int),
            final(self).status_seq() == old(self).status_seq().remove(i as int),
            final(self)@ == old(self)@.remove(old(self).key_seq()[i as int]),
            final(self).spec_thread_timeout() == old(self).spec_thread_timeout(),
            final(self).spec_failed_timeout() == old(self).spec_failed_timeout(),
    {
        let ghost before = *self;
        let _ = self.keys.remove(i);
        let s = self.statuses.remove(i);
        proof {
            let k = before.key_seq()[i as int];
            assert(self.key_seq() =~= before.key_seq().remove(i as int));
            assert forall|a: int, b: int| 0 <= a < self.key_seq().len() && 0 <= b < self.key_seq().len() && a != b
                implies self.key_seq()[a] != self.key_seq()[b] by {
                let a0 = if a < i { a } else { a + 1 };
                let b0 = if b < i { b } else { b + 1 };
                assert(self.key_seq()[a] == before.key_seq()[a0]);
                assert(self.key_seq()[b] == before.key_seq()[b0]);
            }
            assert forall|x: Seq<char>| #[trigger] self@.dom().contains(x) == before@.remove(k).dom().contains(x) by {
                if self.key_seq().contains(x) {
                    let j = choose|j: int| 0 <= j < self.key_seq().len() && self.key_seq()[j] == x;
                    let j0 = if j < i { j } else { j + 1 };
                    assert(before.key_seq()[j0] == x);
                    assert(before.key_seq()[i as int] == k);
                } else if before.key_seq().contains(x) && x != k {
                    let j = choose|j: int| 0 <= j < before.key_seq().len() && before.key_seq()[j] == x;
                    let j1 = if j < i { j } else { j - 1 };
                    assert(self.key_seq()[j1] == x);
                }
            }
            assert forall|x: Seq<char>| self@.dom().contains(x) implies #[trigger] self@[x] == before@.remove(k)[x] by {
                let j = self.key_seq().index_of(x);
                assert(0 <= j < self.key_seq().len() && self.key_seq()[j] == x);
                self.lemma_lookup(j);
                let j0 = if j < i { j } else { j + 1 };
                assert(before.key_seq()[j0] == x);
                before.lemma_lookup(j0);
            }
            assert(self@ =~= before@.remove(k));
        }
        s
    }

    /// A handler with no resources, a thread timeout of 5 seconds and a
    /// failed timeout of 3 seconds.
    pub fn new() -> (h: Self)
        ensures
            h.wf(),
            h@ == Map::<Seq<char>, ResourceStatus<R>>::empty(),
            h.spec_thread_timeout() == 5,
            h.spec_failed_timeout() == 3,
    {
        let h = ResourceHandler { keys: Vec::new(), statuses: Vec::new(), thread_timeout: 5, failed_timeout: 3 };
        proof {
            assert(h.key_seq() =~= Seq::<Seq<char>>::empty());
            assert(h@ =~= Map::<Seq<char>, ResourceStatus<R>>::empty());
        }
        h
    }

    /// Set the timeout for builder threads, in seconds: a builder that runs
    /// longer is told to stop and its resource fails.
    pub fn set_thread_tmt(&mut self, timeout: u64)
        ensures
            final(self).wf() == old(self).wf(),
            final(self)@ == old(self)@,
            final(self).spec_thread_timeout() == timeout,
            final(self).spec_failed_timeout() == old(self).spec_failed_timeout(),
    {
        self.thread_timeout = timeout;
    }

    /// Set the timeout for failed resources, in seconds: a failed resource is
    /// then dropped.
    pub fn set_failed_tmt(&mut self, timeout: u64)
        ensures
            final(self).wf() == old(self).wf(),
            final(self)@ == old(self)@,
            final(self).spec_thread_timeout() == old(self).spec_thread_timeout(),
            final(self).spec_failed_timeout() == timeout,
    {
        self.failed_timeout = timeout;
    }

    /// Whether the handler holds `key`, in any state.
    pub fn contains(&self, key: &str) -> (b: bool)
        requires
            self.wf(),
        ensures
            b == self@.dom().contains(key@),
    {
        self.find(key).is_some()
    }

    /// Whether the resource under `key` is ready.
    pub fn is_ready(&self, key: &str) -> (b: bool)
        requires
            self.wf(),
        ensures
            b == (self@.dom().contains(key@) && self@[key@] is Ready),
    {
        match self.find(key) {
            Some(i) => self.statuses[i].is_ready(),
            None => false,
        }
    }

    /// Whether the resource under `key` is pending.
    pub fn is_pending(&self, key: &str) -> (b: bool)
        requires
            self.wf(),
        ensures
            b == (self@.dom().contains(key@) && self@[key@] is Pending),
    {
        match self.find(key) {
            Some(i) => self.statuses[i].is_pending(),
            None => false,
        }
    }

    /// Whether the resource under `key` failed.
    pub fn is_failed(&self, key: &str) -> (b: bool)
        requires
            self.wf(),
        ensures
            b == (self@.dom().contains(key@) && self@[key@] is Failed),
    {
        match self.find(key) {
            Some(i) => self.statuses[i].is_failed(),
            None => false,
        }
    }

    /// The error message of the resource under `key`, if it failed.
    pub fn get_err(&self, key: &str) -> (r: Option<&str>)
        requires
            self.wf(),
        ensures
            match r {
                Some(m) => self@.dom().contains(key@) && (self@[key@] matches ResourceStatus::Failed(f) && m@ == f.err_msg@),
                None => !(self@.dom().contains(key@) && self@[key@] is Failed),
            },
    {
        match self.find(key) {
            Some(i) => self.statuses[i].error_msg(),
            None => None,
        }
    }

    /// The status of the resource under `key`, if any.
    pub fn status_of(&self, key: &str) -> (r: Option<&ResourceStatus<R>>)
        requires
            self.wf(),
        ensures
            match r {
                Some(s) => self@.dom().contains(key@) && *s == self@[key@],
                None => !self@.dom().contains(key@),
            },
    {
        match self.find(key) {
            Some(i) => Some(&self.statuses[i]),
            None => None,
        }
    }

    /// Store a resource that was made elsewhere under `key`, as accessed at `now`.
    pub fn store(&mut self, key: &str, resource: R, hold_time: Option<u64>, now: u64)
        requires
            old(self).wf(),
        ensures
            final(self).wf(),
            final(self)@ == old(self)@.insert(key@, ResourceStatus::Ready(Ready { rsc: resource, hold_time, accessed: now })),
            final(self).spec_thread_timeout() == old(self).spec_thread_timeout(),
            final(self).spec_failed_timeout() == old(self).spec_failed_timeout(),
    {
        self.put(key, ResourceStatus::Ready(Ready { rsc: resource, hold_time, accessed: now }));
    }

    /// Remove the resource under `key`, if any.
    pub fn remove(&mut self, key: &str)
        requires
            old(self).wf(),
        ensures
            final(self).wf(),
            final(self)@ == old(self)@.remove(key@),
            final(self).spec_thread_timeout() == old(self).spec_thread_timeout(),
            final(self).spec_failed_timeout() == old(self).spec_failed_timeout(),
    {
        match self.find(key) {
            Some(i) => {
                let _ = self.remove_at(i);
            },
            None => {
                proof {
                    assert(self@ =~= self@.remove(key@));
                }
            },
        }
    }

    /// Mark the resource under `key`, if ready, as accessed at `now`.
    pub fn mark_accessed(&mut self, key: &str, now: u64)
        requires
            old(self).wf(),
        ensures
            final(self).wf(),
            final(self).key_seq() == old(self).key_seq(),
            final(self).status_seq() == (if is_ready_in(old(self)@, key@) {
                old(self).status_seq().update(old(self).key_seq().index_of(key@),
                    ResourceStatus::Ready(Ready { accessed: now, ..old(self)@[key@]->Ready_0 }))
            } else {
                old(self).status_seq()
            }),
            final(self).spec_thread_timeout() == old(self).spec_thread_timeout(),
            final(self).spec_failed_timeout() == old(self).spec_failed_timeout(),
            final(self)@ == touched(old(self)@, key@, now),
    {
        if let Some(i) = self.find(key) {
            let ghost before = *self;
            let entry = &mut self.statuses[i];
            if let ResourceStatus::Ready(rd) = entry {
                rd.accessed = now;
            }
            proof {
                before.lemma_lookup(i as int);
                assert(self.key_seq() == before.key_seq());
                if !(before.status_seq()[i as int] is Ready) {
                    assert(self.statuses@ =~= before.statuses@);
                }
                assert forall|x: Seq<char>| #[trigger] self@.dom().contains(x) == before@.dom().contains(x) by {}
                assert forall|x: Seq<char>| self@.dom().contains(x) && x != key@ implies #[trigger] self@[x] == before@[x] by {
                    let j = self.key_seq().index_of(x);
                    assert(0 <= j < self.key_seq().len() && self.key_seq()[j] == x);
                    self.lemma_lookup(j);
                    before.lemma_lookup(j);
                }
                self.lemma_lookup(i as int);
                if before.status_seq()[i as int] is Ready {
                    assert(self@ =~= before@.insert(key@, self.status_seq()[i as int]));
                } else {
                    assert(self@ =~= before@);
                }
            }
        }
    }

    /// The resource under `key`, if ready; it is then marked as accessed at `now`.
    pub fn get(&mut self, key: &str, now: u64) -> (r: Option<&R>)
        requires
            old(self).wf(),
        ensures
            final(self).wf(),
            final(self).spec_thread_timeout() == old(self).spec_thread_timeout(),
            final(self).spec_failed_timeout() == old(self).spec_failed_timeout(),
            match r {
                Some(x) => is_ready_in(old(self)@, key@) && *x == old(self)@[key@]->Ready_0.rsc,
                None => !is_ready_in(old(self)@, key@),
            },
            final(self)@ == touched(old(self)@, key@, now),
    {
        self.mark_accessed(key, now);
        match self.find(key) {
            Some(i) => match &self.statuses[i] {
                ResourceStatus::Ready(rd) => Some(&rd.rsc),
                _ => None,
            },
            None => None,
        }
    }

    /// The resource under `key`, mutably, if ready; it is then marked as
    /// accessed at `now`. What is written through the reference is stored in
    /// the ready entry of `key` (see `lemma_written_back`).
    pub fn get_mut(&mut self, key: &str, now: u64) -> (r: Option<&mut R>)
        requires
            old(self).wf(),
        ensures
            final(self).key_seq() == old(self).key_seq(),
            final(self).spec_thread_timeout() == old(self).spec_thread_timeout(),
            final(self).spec_failed_timeout() == old(self).spec_failed_timeout(),
            match r {
                Some(x) => is_ready_in(old(self)@, key@) && *x == old(self)@[key@]->Ready_0.rsc
                    && final(self).status_seq() == old(self).status_seq().update(
                        old(self).key_seq().index_of(key@),
                        ResourceStatus::Ready(Ready { rsc: *final(x), accessed: now, ..old(self)@[key@]->Ready_0 })),
                None => !is_ready_in(old(self)@, key@) && final(self).status_seq() == old(self).status_seq(),
            },
    {
        match self.find(key) {
            Some(i) => {
                proof {
                    self.lemma_lookup(i as int);
                }
                if self.statuses[i].is_ready() {
                    self.mark_accessed(key, now);
                    proof {
                        self.lemma_lookup(i as int);
                    }
                    let entry = &mut self.statuses[i];
                    match entry {
                        ResourceStatus::Ready(rd) => Some(&mut rd.rsc),
                        _ => None,
                    }
                } else {
                    None
                }
            },
            None => None,
        }
    }

    /// Request creation of the resource under `key` at `now`. Does nothing if
    /// the handler already holds `key`; otherwise the resource becomes pending
    /// and the result is `true`: the caller then starts a builder for it.
    pub fn request_new(&mut self, key: &str, now: u64) -> (spawn: bool)
        requires
            old(self).wf(),
        ensures
            final(self).wf(),
            final(self).spec_thread_timeout() == old(self).spec_thread_timeout(),
            final(self).spec_failed_timeout() == old(self).spec_failed_timeout(),
            spawn == !old(self)@.dom().contains(key@),
            spawn ==> final(self)@ == old(self)@.insert(key@, ResourceStatus::Pending(Pending { requested_at: now })),
            !spawn ==> final(self)@ == old(self)@,
    {
        if self.contains(key) {
            return false;
        }
        self.put(key, ResourceStatus::Pending(Pending { requested_at: now }));
        true
    }

    /// Request creation of the resource under `key` at `now` if the handler
    /// does not hold it or it failed; the result is then `true` and the caller
    /// starts a builder for it. A pending or ready resource is left as it is.
    pub fn request_retry(&mut self, key: &str, now: u64) -> (spawn: bool)
        requires
            old(self).wf(),
        ensures
            final(self).wf(),
            final(self).spec_thread_timeout() == old(self).spec_thread_timeout(),
            final(self).spec_failed_timeout() == old(self).spec_failed_timeout(),
            spawn == needs_request(old(self)@, key@),
            spawn ==> final(self)@ == old(self)@.insert(key@, ResourceStatus::Pending(Pending { requested_at: now })),
            !spawn ==> final(self)@ == old(self)@,
    {
        let needs = match self.find(key) {
            None => true,
            Some(i) => self.statuses[i].is_failed(),
        };
        if needs {
            self.remove(key);
            let spawn = self.request_new(key, now);
            proof {
                assert(old(self)@.remove(key@).insert(key@, ResourceStatus::Pending(Pending { requested_at: now }))
                    =~= old(self)@.insert(key@, ResourceStatus::Pending(Pending { requested_at: now })));
            }
            spawn
        } else {
            false
        }
    }

    /// The resource under `key` if it is ready (it is then marked as accessed
    /// at `now`). If the handler does not hold `key`, or it failed, creation
    /// is requested as by `request_retry`, and the second result is `true`:
    /// the caller then starts a builder for it.
    pub fn get_or_request(&mut self, key: &str, now: u64) -> (r: (Option<&R>, bool))
        requires
            old(self).wf(),
        ensures
            final(self).wf(),
            final(self).spec_thread_timeout() == old(self).spec_thread_timeout(),
            final(self).spec_failed_timeout() == old(self).spec_failed_timeout(),
            r.1 == needs_request(old(self)@, key@),
            r.1 ==> r.0 is None
                && final(self)@ == old(self)@.insert(key@, ResourceStatus::Pending(Pending { requested_at: now })),
            !r.1 ==> final(self)@ == touched(old(self)@, key@, now),
            !r.1 ==> match r.0 {
                Some(x) => is_ready_in(old(self)@, key@) && *x == old(self)@[key@]->Ready_0.rsc,
                None => !is_ready_in(old(self)@, key@),
            },
    {
        if self.request_retry(key, now) {
            return (None, true);
        }
        (self.get(key, now), false)
    }

    /// Store the outcome of a builder that the caller ran to completion for
    /// `key`, and get the resource. If the handler already holds `key`, the
    /// outcome is not used and the result is as from `get`. A built resource
    /// is stored as accessed at `now`; a failed build leaves the handler as it
    /// was and returns the builder's error.
    pub fn request_wait(&mut self, key: &str, outcome: Result<R, String>, hold_time: Option<u64>, now: u64) -> (r: Result<Option<&R>, String>)
        requires
            old(self).wf(),
        ensures
            final(self).wf(),
            final(self).spec_thread_timeout() == old(self).spec_thread_timeout(),
            final(self).spec_failed_timeout() == old(self).spec_failed_timeout(),
            old(self)@.dom().contains(key@) ==> {
                &&& final(self)@ == touched(old(self)@, key@, now)
                &&& r matches Ok(o) && match o {
                    Some(x) => is_ready_in(old(self)@, key@) && *x == old(self)@[key@]->Ready_0.rsc,
                    None => !is_ready_in(old(self)@, key@),
                }
            },
            !old(self)@.dom().contains(key@) ==> match outcome {
                Ok(v) => r matches Ok(Some(x)) && *x == v
                    && final(self)@ == old(self)@.insert(key@, ResourceStatus::Ready(Ready { rsc: v, hold_time, accessed: now })),
                Err(e) => r == Err::<Option<&R>, String>(e) && final(self)@ == old(self)@,
            },
    {
        if self.contains(key) {
            return Ok(self.get(key, now));
        }
        match outcome {
            Ok(rsc) => {
                self.store(key, rsc, hold_time, now);
                let r = self.get(key, now);
                proof {
                    let m = old(self)@.insert(key@, ResourceStatus::Ready(Ready { rsc: rsc, hold_time, accessed: now }));
                    assert(touched(m, key@, now) =~= m);
                }
                Ok(r)
            },
            Err(e) => Err(e),
        }
    }

    /// Whether more than `secs` seconds passed from `t` to `now`.
    fn exceeded(now: u64, t: u64, secs: u64) -> (b: bool)
        ensures
            b == exceeds(now, t, secs),
    {
        let elapsed: u64 = if now >= t { now - t } else { 0 };
        (elapsed as u128) > (secs as u128) * 1000
    }

    /// Evaluate the statuses at `now`: drop ready resources past their hold
    /// time and failed resources past the failed timeout, and fail pending
    /// resources past the thread timeout. Returns the keys of the latter,
    /// whose builders the caller stops.
    fn evaluate(&mut self, now: u64) -> (aborted: Vec<String>)
        requires
            old(self).wf(),
        ensures
            final(self).wf(),
            final(self).spec_thread_timeout() == old(self).spec_thread_timeout(),
            final(self).spec_failed_timeout() == old(self).spec_failed_timeout(),
            evaluated(old(self)@, final(self)@, now, old(self).spec_thread_timeout(), old(self).spec_failed_timeout()),
            string_views(aborted@).no_duplicates(),
            forall|k: Seq<char>| #[trigger] string_views(aborted@).contains(k) <==>
                (old(self)@.dom().contains(k) && stalls(old(self)@[k], now, old(self).spec_thread_timeout())),
    {
        let ghost before = *self;
        let ghost ks = before.key_seq();
        let ghost ss = before.status_seq();
        let tt = self.thread_timeout;
        let ft = self.failed_timeout;
        let mut old_keys: Vec<String> = Vec::new();
        let mut old_statuses: Vec<ResourceStatus<R>> = Vec::new();
        std::mem::swap(&mut old_keys, &mut self.keys);
        std::mem::swap(&mut old_statuses, &mut self.statuses);
        let mut fresh: ResourceHandler<R> = ResourceHandler::new();
        let mut aborted: Vec<String> = Vec::new();
        let n = old_keys.len();
        let mut i: usize = 0;
        while i < n
            invariant
                n == ks.len(),
                n == ss.len(),
                ks.no_duplicates(),
                i <= n,
                string_views(old_keys@) == ks.subrange(i as int, n as int),
                old_statuses@ == ss.subrange(i as int, n as int),
                fresh.wf(),
                forall|j: int| 0 <= j < i ==> (#[trigger] fresh@.dom().contains(ks[j]) <==> !expires(ss[j], now, ft)),
                forall|j: int| 0 <= j < i && fresh@.dom().contains(ks[j]) ==>
                    (if stalls(ss[j], now, tt) {
                        fresh@[ks[j]] matches ResourceStatus::Failed(f) && f.err_msg@ == stalled_message() && f.failed_at == now
                    } else {
                        fresh@[ks[j]] == ss[j]
                    }),
                forall|k: Seq<char>| #[trigger] fresh@.dom().contains(k) ==> exists|j: int| 0 <= j < i && ks[j] == k,
                string_views(aborted@).no_duplicates(),
                forall|j: int| 0 <= j < i ==> (#[trigger] string_views(aborted@).contains(ks[j]) <==> stalls(ss[j], now, tt)),
                forall|k: Seq<char>| #[trigger] string_views(aborted@).contains(k) ==> exists|j: int| 0 <= j < i && ks[j] == k,
            decreases n - i,
        {
            let ghost ok = old_keys@;
            proof {
                assert(string_views(ok).len() == ok.len());
                assert(string_views(ok)[0] == ok[0]@);
                assert(ks.subrange(i as int, n as int)[0] == ks[i as int]);
            }
            let key = old_keys.remove(0);
            let status = old_statuses.remove(0);
            proof {
                assert(key@ == ks[i as int]);
                assert(status == ss[i as int]);
                assert(!fresh@.dom().contains(key@)) by {
                    if fresh@.dom().contains(key@) {
                        let j = choose|j: int| 0 <= j < i && ks[j] == key@;
                        assert(ks[j] == ks[i as int]);
                    }
                }
                assert(!string_views(aborted@).contains(key@)) by {
                    if string_views(aborted@).contains(key@) {
                        let j = choose|j: int| 0 <= j < i && ks[j] == key@;
                        assert(ks[j] == ks[i as int]);
                    }
                }
            }
            let ghost prev = fresh@;
            let ghost prev_aborted = string_views(aborted@);
            match status {
                ResourceStatus::Ready(rd) => {
                    let expired = match rd.hold_time {
                        Some(h) => Self::exceeded(now, rd.accessed, h),
                        None => false,
                    };
                    if !expired {
                        fresh.put(key.as_str(), ResourceStatus::Ready(rd));
                    }
                },
                ResourceStatus::Pending(p) => {
                    if Self::exceeded(now, p.requested_at, tt) {
                        aborted.push(key.clone());
                        let failed = Failed { err_msg: owned("Worker thread lost or stalled execution."), failed_at: now };
                        fresh.put(key.as_str(), ResourceStatus::Failed(failed));
                    } else {
                        fresh.put(key.as_str(), ResourceStatus::Pending(p));
                    }
                },
                ResourceStatus::Failed(f) => {
                    if !Self::exceeded(now, f.failed_at, ft) {
                        fresh.put(key.as_str(), ResourceStatus::Failed(f));
                    }
                },
            }
            proof {
                reveal_strlit("Worker thread lost or stalled execution.");
                let cur = string_views(aborted@);
                assert(cur =~= prev_aborted || cur =~= prev_aborted.push(key@));
                assert(cur.no_duplicates()) by {
                    if cur =~= prev_aborted.push(key@) {
                        assert forall|a: int, b: int| 0 <= a < cur.len() && 0 <= b < cur.len() && a != b
                            implies cur[a] != cur[b] by {
                            if a == prev_aborted.len() as int {
                                assert(!prev_aborted.contains(key@));
                                assert(prev_aborted[b] == cur[b]);
                            } else if b == prev_aborted.len() as int {
                                assert(!prev_aborted.contains(key@));
                                assert(prev_aborted[a] == cur[a]);
                            }
                        }
                    }
                }
                assert forall|j: int| 0 <= j < i + 1 implies (#[trigger] fresh@.dom().contains(ks[j]) <==> !expires(ss[j], now, ft)) by {
                    if j < i {
                        assert(ks[j] != key@);
                    }
                }
                assert forall|j: int| 0 <= j < i + 1 && fresh@.dom().contains(ks[j]) implies
                    (if stalls(ss[j], now, tt) {
                        fresh@[ks[j]] matches ResourceStatus::Failed(f) && f.err_msg@ == stalled_message() && f.failed_at == now
                    } else {
                        fresh@[ks[j]] == ss[j]
                    }) by {
                    if j < i {
                        assert(ks[j] != key@);
                    }
                }
                assert forall|k: Seq<char>| #[trigger] fresh@.dom().contains(k) implies exists|j: int| 0 <= j < i + 1 && ks[j] == k by {
                    if k == key@ {
                        assert(ks[i as int] == k);
                    } else {
                        assert(prev.dom().contains(k));
                    }
                }
                assert forall|j: int| 0 <= j < i + 1 implies (#[trigger] cur.contains(ks[j]) <==> stalls(ss[j], now, tt)) by {
                    if j < i {
                        assert(ks[j] != key@);
                        if cur =~= prev_aborted.push(key@) {
                            if prev_aborted.contains(ks[j]) {
                                let a = choose|a: int| 0 <= a < prev_aborted.len() && prev_aborted[a] == ks[j];
                                assert(cur[a] == ks[j]);
                            }
                            if cur.contains(ks[j]) {
                                let a = choose|a: int| 0 <= a < cur.len() && cur[a] == ks[j];
                                assert(prev_aborted[a] == ks[j]);
                            }
                        }
                    } else {
                        if cur =~= prev_aborted.push(key@) {
                            assert(cur[prev_aborted.len() as int] == key@);
                        }
                    }
                }
                assert forall|k: Seq<char>| #[trigger] cur.contains(k) implies exists|j: int| 0 <= j < i + 1 && ks[j] == k by {
                    if k == key@ {
                        assert(ks[i as int] == k);
                    } else {
                        let a = choose|a: int| 0 <= a < cur.len() && cur[a] == k;
                        assert(prev_aborted[a] == k);
                        assert(prev_aborted.contains(k));
                        let j = choose|j: int| 0 <= j < i && ks[j] == k;
                        assert(0 <= j < i + 1 && ks[j] == k);
                    }
                }
                assert(old_keys@ =~= ok.subrange(1, ok.len() as int));
                assert forall|x: int| 0 <= x < old_keys@.len() implies #[trigger] string_views(old_keys@)[x] == ks.subrange(i + 1, n as int)[x] by {
                    assert(string_views(ok)[x + 1] == ok[x + 1]@);
                    assert(ks.subrange(i as int, n as int)[x + 1] == ks[i + 1 + x]);
                }
                assert(string_views(old_keys@) =~= ks.subrange(i + 1, n as int));
                assert(old_statuses@ =~= ss.subrange(i + 1, n as int));
            }
            i = i + 1;
        }
        let ghost fin = fresh;
        self.keys = fresh.keys;
        self.statuses = fresh.statuses;
        proof {
            assert(self.key_seq() == fin.key_seq());
            assert(self.status_seq() == fin.status_seq());
            assert(self@ =~= fin@);
            let m = before@;
            assert forall|k: Seq<char>| #[trigger] self@.dom().contains(k) <==> m.dom().contains(k) && !expires(m[k], now, ft) by {
                if self@.dom().contains(k) {
                    let j = choose|j: int| 0 <= j < n && ks[j] == k;
                    before.lemma_lookup(j);
                }
                if m.dom().contains(k) {
                    let j = choose|j: int| 0 <= j < ks.len() && ks[j] == k;
                    before.lemma_lookup(j);
                }
            }
            assert forall|k: Seq<char>| #[trigger] self@.dom().contains(k) implies (if stalls(m[k], now, tt) {
                self@[k] matches ResourceStatus::Failed(f) && f.err_msg@ == stalled_message() && f.failed_at == now
            } else {
                self@[k] == m[k]
            }) by {
                let j = choose|j: int| 0 <= j < n && ks[j] == k;
                before.lemma_lookup(j);
            }
            let cur = string_views(aborted@);
            assert forall|k: Seq<char>| #[trigger] cur.contains(k) <==> (m.dom().contains(k) && stalls(m[k], now, tt)) by {
                if cur.contains(k) {
                    let j = choose|j: int| 0 <= j < n && ks[j] == k;
                    before.lemma_lookup(j);
                }
                if m.dom().contains(k) {
                    let j = choose|j: int| 0 <= j < ks.len() && ks[j] == k;
                    before.lemma_lookup(j);
                }
            }
        }
        aborted
    }

    /// Synchronize with the builders: store each outcome in `results` (in
    /// order; a failed build fails at `now`), then evaluate the statuses at
    /// `now` as `evaluated` says. Returns the keys of the pending resources
    /// that were given up, whose builders the caller stops.
    pub fn sync(&mut self, results: Vec<(String, Result<Ready<R>, String>)>, now: u64) -> (aborted: Vec<String>)
        requires
            old(self).wf(),
        ensures
            final(self).wf(),
            final(self).spec_thread_timeout() == old(self).spec_thread_timeout(),
            final(self).spec_failed_timeout() == old(self).spec_failed_timeout(),
            evaluated(apply_results(old(self)@, results@, now), final(self)@, now,
                old(self).spec_thread_timeout(), old(self).spec_failed_timeout()),
            string_views(aborted@).no_duplicates(),
            forall|k: Seq<char>| #[trigger] string_views(aborted@).contains(k) <==> {
                let m = apply_results(old(self)@, results@, now);
                m.dom().contains(k) && stalls(m[k], now, old(self).spec_thread_timeout())
            },
    {
        let ghost rs = results@;
        let mut results = results;
        let n = results.len();
        let mut i: usize = 0;
        while i < n
            invariant
                n == rs.len(),
                i <= n,
                results@ == rs.subrange(i as int, n as int),
                self.wf(),
                self.spec_thread_timeout() == old(self).spec_thread_timeout(),
                self.spec_failed_timeout() == old(self).spec_failed_timeout(),
                self@ == apply_results(old(self)@, rs.subrange(0, i as int), now),
            decreases n - i,
        {
            let (key, outcome) = results.remove(0);
            proof {
                assert(rs.subrange(0, i + 1).drop_last() =~= rs.subrange(0, i as int));
                assert(rs.subrange(0, i + 1).last() == rs[i as int]);
            }
            let status = match outcome {
                Ok(rd) => ResourceStatus::Ready(rd),
                Err(e) => ResourceStatus::Failed(Failed { err_msg: e, failed_at: now }),
            };
            self.put(key.as_str(), status);
            i = i + 1;
            proof {
                assert(results@ =~= rs.subrange(i as int, n as int));
            }
        }
        proof {
            assert(rs.subrange(0, n as int) =~= rs);
        }
        self.evaluate(now)
    }

    /// The name of the status of every resource, with its key.
    pub fn status_of_all(&self) -> (r: Vec<(String, String)>)
        requires
            self.wf(),
        ensures
            r@.len() == self.key_seq().len(),
            forall|i: int| 0 <= i < r@.len() ==> {
                &&& (#[trigger] r@[i]).0@ == self.key_seq()[i]
                &&& self@.dom().contains(r@[i].0@)
                &&& r@[i].1@ == status_name(self@[r@[i].0@])
            },
            forall|k: Seq<char>| self@.dom().contains(k) ==> exists|i: int| 0 <= i < r@.len() && (#[trigger] r@[i]).0@ == k,
    {
        let mut r: Vec<(String, String)> = Vec::new();
        let n = self.keys.len();
        let mut i: usize = 0;
        while i < n
            invariant
                self.wf(),
                n == self.key_seq().len(),
                i <= n,
                r@.len() == i,
                forall|j: int| 0 <= j < i ==> {
                    &&& (#[trigger] r@[j]).0@ == self.key_seq()[j]
                    &&& self@.dom().contains(r@[j].0@)
                    &&& r@[j].1@ == status_name(self@[r@[j].0@])
                },
            decreases n - i,
        {
            proof {
                self.lemma_lookup(i as int);
            }
            let name = match &self.statuses[i] {
                ResourceStatus::Failed(_) => owned("FAILED"),
                ResourceStatus::Pending(_) => owned("PENDING"),
                ResourceStatus::Ready(_) => owned("READY"),
            };
            proof {
                reveal_strlit("FAILED");
                reveal_strlit("PENDING");
                reveal_strlit("READY");
            }
            r.push((self.keys[i].clone(), name));
            i = i + 1;
        }
        proof {
            assert forall|k: Seq<char>| self@.dom().contains(k) implies exists|i: int| 0 <= i < r@.len() && (#[trigger] r@[i]).0@ == k by {
                let j = choose|j: int| 0 <= j < self.key_seq().len() && self.key_seq()[j] == k;
                assert(r@[j].0@ == k);
            }
        }
        r
    }

    /// Writing the status at the position of `key` writes the status of `key`:
    /// the handler is then well formed and maps `key` to the new status.
    pub proof fn lemma_written_back(before: Self, after: Self, key: Seq<char>, status: ResourceStatus<R>)
        requires
            before.wf(),
            before@.dom().contains(key),
            after.key_seq() == before.key_seq(),
            after.status_seq() == before.status_seq().update(before.key_seq().index_of(key), status),
        ensures
            after.wf(),
            after@ == before@.insert(key, status),
    {
        let i = before.key_seq().index_of(key);
        assert(0 <= i < before.key_seq().len() && before.key_seq()[i] == key);
        assert forall|x: Seq<char>| #[trigger] after@.dom().contains(x) == before@.insert(key, status).dom().contains(x) by {}
        assert forall|x: Seq<char>| after@.dom().contains(x) implies #[trigger] after@[x] == before@.insert(key, status)[x] by {
            let j = after.key_seq().index_of(x);
            assert(0 <= j < after.key_seq().len() && after.key_seq()[j] == x);
            after.lemma_lookup(j);
            before.lemma_lookup(j);
        }
        assert(after@ =~= before@.insert(key, status));
    }
}

} // verus!
