use vstd::prelude::*;

verus! {

/// Errors of the worker pool's control plane.
#[derive(Clone, Copy, Debug, PartialEq, Eq, Structural)]
pub enum PoolError {
    /// A request named an identity that has no live worker.
    NotFound,
}

/// What the control plane does with a `Create` message.
#[derive(Clone, Copy, Debug, PartialEq, Eq, Structural)]
pub enum CreateDecision {
    /// A worker with this identity is live: reply with its identity at once.
    Existing,
    /// No worker with this identity is live: boot one.
    Boot,
}

/// The table of live workers, from identity to the handle used to reach the
/// worker. Every identity has at most one entry.
pub struct WorkerPool<H> {
    entries: Vec<(String, H)>,
    table: Ghost<Map<Seq<char>, H>>,
}

impl<H> View for WorkerPool<H> {
    type V = Map<Seq<char>, H>;

    closed spec fn view(&self) -> Map<Seq<char>, H> {
        self.table@
    }
}

/// The decision on a `Create` for `key` given the live table.
pub open spec fn create_decision_spec<H>(m: Map<Seq<char>, H>, key: Seq<char>) -> CreateDecision {
    if m.contains_key(key) {
        CreateDecision::Existing
    } else {
        CreateDecision::Boot
    }
}

/// The table after a worker for `key` booted with handle `h`: an existing
/// entry is kept, so an identity never gets a second worker.
pub open spec fn after_boot<H>(m: Map<Seq<char>, H>, key: Seq<char>, h: H) -> Map<Seq<char>, H> {
    if m.contains_key(key) {
        m
    } else {
        m.insert(key, h)
    }
}

/// The table and the number of boots after serving `n` `Create` messages for
/// `key` one by one, where the worker booted for the `i`-th message, if any,
/// gets handle `hs[i]`.
pub open spec fn serve_creates<H>(m: Map<Seq<char>, H>, key: Seq<char>, hs: Seq<H>) -> (
    Map<Seq<char>, H>,
    nat,
)
    decreases hs.len(),
{
    if hs.len() == 0 {
        (m, 0)
    } else {
        let (prev, boots) = serve_creates(m, key, hs.drop_last());
        match create_decision_spec(prev, key) {
            CreateDecision::Existing => (prev, boots),
            CreateDecision::Boot => (after_boot(prev, key, hs.last()), boots + 1),
        }
    }
}

/// At most one instance: however many `Create` messages for one identity
/// are served, at most one worker is booted, and after the first the table
/// holds one entry for it, that of the worker that was live before or else
/// of the first one booted. Every other entry is untouched.
pub proof fn lemma_at_most_one_instance<H>(m: Map<Seq<char>, H>, key: Seq<char>, hs: Seq<H>)
    ensures
        serve_creates(m, key, hs).1 <= 1,
        serve_creates(m, key, hs).1 == 1 <==> (!m.contains_key(key) && hs.len() > 0),
        hs.len() > 0 ==> serve_creates(m, key, hs).0.contains_key(key),
        hs.len() > 0 ==> serve_creates(m, key, hs).0[key] == (if m.contains_key(key) {
            m[key]
        } else {
            hs[0]
        }),
        serve_creates(m, key, hs).0.remove(key) == m.remove(key),
    decreases hs.len(),
{
    if hs.len() > 0 {
        let prefix = hs.drop_last();
        lemma_at_most_one_instance(m, key, prefix);
        let (prev, boots) = serve_creates(m, key, prefix);
        if prefix.len() > 0 {
            assert(prefix[0] == hs[0]);
        } else {
            assert(prev == m);
        }
        assert(after_boot(prev, key, hs.last()).remove(key) =~= prev.remove(key));
    }
}

/// Idempotent shutdown: shutting an identity down twice leaves the table as
/// once, and the second call finds nothing to remove.
pub proof fn lemma_shutdown_idempotent<H>(m: Map<Seq<char>, H>, key: Seq<char>)
    ensures
        m.remove(key).remove(key) == m.remove(key),
        !m.remove(key).contains_key(key),
{
    assert(m.remove(key).remove(key) =~= m.remove(key));
}

/// Cleanup after a forced termination: once the terminated identity is
/// removed, routing a request to it fails with `NotFound`, while every other
/// identity routes as before.
pub proof fn lemma_post_termination_cleanup<H>(m: Map<Seq<char>, H>, key: Seq<char>, other: Seq<char>)
    requires
        other != key,
    ensures
        !m.remove(key).contains_key(key),
        m.remove(key).contains_key(other) == m.contains_key(other),
        m.remove(key).contains_key(other) ==> m.remove(key)[other] == m[other],
{
}

impl<H> WorkerPool<H> {
    /// The table is consistent with its entries, whose keys are distinct.
    pub closed spec fn wf(&self) -> bool {
        &&& forall|i: int, j: int|
            0 <= i < j < self.entries@.len() ==> self.entries@[i].0@ != self.entries@[j].0@
        &&& forall|i: int|
            0 <= i < self.entries@.len() ==> {
                &&& #[trigger] self.table@.contains_key(self.entries@[i].0@)
                &&& self.table@[self.entries@[i].0@] == self.entries@[i].1
            }
        &&& forall|k: Seq<char>|
            #[trigger] self.table@.contains_key(k) ==> exists|i: int|
                0 <= i < self.entries@.len() && #[trigger] self.entries@[i].0@ == k
    }

    /// An empty pool.
    pub fn new() -> (r: WorkerPool<H>)
        ensures
            r.wf(),
            r@ == Map::<Seq<char>, H>::empty(),
    {
        WorkerPool { entries: Vec::new(), table: Ghost(Map::empty()) }
    }

    fn position(&self, key: &String) -> (r: Option<usize>)
        requires
            self.wf(),
        ensures
            match r {
                Some(i) => i < self.entries@.len() && self.entries@[i as int].0@ == key@,
                None => !self@.contains_key(key@),
            },
    {
        let mut i: usize = 0;
        while i < self.entries.len()
            invariant
                self.wf(),
                i <= self.entries@.len(),
                forall|j: int| 0 <= j < i ==> self.entries@[j].0@ != key@,
            decreases self.entries@.len() - i,
        {
            if self.entries[i].0 == *key {
                return Some(i);
            }
            i = i + 1;
        }
        None
    }

    /// Whether a worker with this identity is live.
    pub fn contains(&self, key: &String) -> (r: bool)
        requires
            self.wf(),
        ensures
            r == self@.contains_key(key@),
    {
        self.position(key).is_some()
    }

    /// The handle of the worker with this identity, if it is live.
    pub fn get(&self, key: &String) -> (r: Option<&H>)
        requires
            self.wf(),
        ensures
            match r {
                Some(h) => self@.contains_key(key@) && *h == self@[key@],
                None => !self@.contains_key(key@),
            },
    {
        match self.position(key) {
            Some(i) => {
                proof {
                    assert(self.table@.contains_key(self.entries@[i as int].0@));
                }
                Some(&self.entries[i].1)
            },
            None => None,
        }
    }

    /// Adds a worker under an identity that has none.
    pub fn insert(&mut self, key: String, handle: H)
        requires
            old(self).wf(),
            !old(self)@.contains_key(key@),
        ensures
            final(self).wf(),
            final(self)@ == old(self)@.insert(key@, handle),
    {
        let ghost k = key@;
        let ghost old_entries = self.entries@;
        self.table = Ghost(self.table@.insert(k, handle));
        self.entries.push((key, handle));
        assert forall|i: int| 0 <= i < old_entries.len() implies old_entries[i].0@ != k by {
            assert(old(self).table@.contains_key(old_entries[i].0@));
        }
        assert forall|kk: Seq<char>| #[trigger] self.table@.contains_key(kk) implies exists|i: int|
            0 <= i < self.entries@.len() && #[trigger] self.entries@[i].0@ == kk by {
            if kk == k {
                assert(self.entries@[old_entries.len() as int].0@ == kk);
            } else {
                assert(old(self).table@.contains_key(kk));
                let i = choose|i: int| 0 <= i < old_entries.len() && #[trigger] old_entries[i].0@ == kk;
                assert(self.entries@[i].0@ == kk);
            }
        }
    }

    /// Removes the worker with this identity, if live, and hands back its
    /// handle; an absent identity leaves the table as it is.
    pub fn remove(&mut self, key: &String) -> (r: Option<H>)
        requires
            old(self).wf(),
        ensures
            final(self).wf(),
            final(self)@ == old(self)@.remove(key@),
            r == (if old(self)@.contains_key(key@) {
                Some(old(self)@[key@])
            } else {
                None::<H>
            }),
    {
        match self.position(key) {
            None => {
                assert(self.table@.remove(key@) =~= self.table@);
                None
            },
            Some(i) => {
                let ghost old_entries = self.entries@;
                let ghost k = key@;
                self.table = Ghost(self.table@.remove(k));
                let (_, h) = self.entries.swap_remove(i);
                assert forall|a: int, b: int|
                    0 <= a < b < self.entries@.len() implies self.entries@[a].0@
                    != self.entries@[b].0@ by {
                    let last = old_entries.len() - 1;
                    let oa = if a == i { last } else { a };
                    let ob = if b == i { last } else { b };
                    assert(self.entries@[a] == old_entries[oa]);
                    assert(self.entries@[b] == old_entries[ob]);
                }
                assert forall|a: int| 0 <= a < self.entries@.len() implies {
                    &&& #[trigger] self.table@.contains_key(self.entries@[a].0@)
                    &&& self.table@[self.entries@[a].0@] == self.entries@[a].1
                } by {
                    let last = old_entries.len() - 1;
                    let oa = if a == i { last } else { a };
                    assert(self.entries@[a] == old_entries[oa]);
                    assert(oa != i);
                }
                assert forall|kk: Seq<char>| #[trigger] self.table@.contains_key(kk) implies exists|
                    a: int,
                | 0 <= a < self.entries@.len() && #[trigger] self.entries@[a].0@ == kk by {
                    assert(old(self).table@.contains_key(kk));
                    let j = choose|j: int| 0 <= j < old_entries.len() && #[trigger] old_entries[j].0@ == kk;
                    assert(j != i);
                    let last = old_entries.len() - 1;
                    if j == last {
                        assert(self.entries@[i as int].0@ == kk);
                    } else {
                        assert(self.entries@[j].0@ == kk);
                    }
                }
                Some(h)
            },
        }
    }

    /// Decides a `Create` message: a live identity is answered at once,
    /// without a second worker; any other is booted.
    pub fn begin_create(&self, key: &String) -> (r: CreateDecision)
        requires
            self.wf(),
        ensures
            r == create_decision_spec(self@, key@),
    {
        if self.contains(key) {
            CreateDecision::Existing
        } else {
            CreateDecision::Boot
        }
    }

    /// Completes a `Create` with the outcome of the boot. A booted worker is
    /// inserted, unless the identity got a live worker meanwhile, in which
    /// case that one is kept; either way the reply is the identity. A failed
    /// boot inserts nothing and the reply is the boot error.
    pub fn finish_create<E>(&mut self, key: String, booted: Result<H, E>) -> (r: Result<String, E>)
        requires
            old(self).wf(),
        ensures
            final(self).wf(),
            match booted {
                Ok(h) => {
                    &&& final(self)@ == after_boot(old(self)@, key@, h)
                    &&& r matches Ok(k) && k@ == key@
                },
                Err(e) => final(self)@ == old(self)@ && r == Err::<String, E>(e),
            },
    {
        match booted {
            Ok(h) => {
                if !self.contains(&key) {
                    let reply = key.clone();
                    self.insert(key, h);
                    Ok(reply)
                } else {
                    Ok(key)
                }
            },
            Err(e) => Err(e),
        }
    }

    /// Looks up the worker that a request is routed to.
    pub fn route(&self, key: &String) -> (r: Result<&H, PoolError>)
        requires
            self.wf(),
        ensures
            match r {
                Ok(h) => self@.contains_key(key@) && *h == self@[key@],
                Err(e) => !self@.contains_key(key@) && e == PoolError::NotFound,
            },
    {
        match self.get(key) {
            Some(h) => Ok(h),
            None => Err(PoolError::NotFound),
        }
    }

    /// Handles a `Shutdown` message, or a forced termination reported by a
    /// supervisor: the identity leaves the table and its handle, if any, is
    /// handed back to be released. An absent identity is no error.
    pub fn shutdown(&mut self, key: &String) -> (r: Option<H>)
        requires
            old(self).wf(),
        ensures
            final(self).wf(),
            final(self)@ == old(self)@.remove(key@),
            r == (if old(self)@.contains_key(key@) {
                Some(old(self)@[key@])
            } else {
                None::<H>
            }),
    {
        self.remove(key)
    }
}

} // verus!
