use crate::connection::{frame_spec, Connection, EventStream, SendFailure};
use crate::session::SessionId;
use vstd::map::*;
use vstd::prelude::*;

verus! {

/// Seconds between two liveness sweeps. The caller of [`SSE::sweep_connections`]
/// runs the first pass immediately and one pass per interval after that.
pub const SWEEP_INTERVAL_SECS: u64 = 10;

/// Every session identifier occurs at most once among the entries.
spec fn distinct_ids(entries: Seq<Connection>) -> bool {
    forall|i: int, j: int|
        0 <= i < j < entries.len() ==> entries[i].id() != entries[j].id()
}

/// The mathematical content of the registry: which session identifiers have a
/// live entry, and whether losing that entry cascades into removing external
/// session state.
spec fn conn_map(entries: Seq<Connection>) -> Map<u128, bool>
    decreases entries.len(),
{
    if entries.len() == 0 {
        Map::empty()
    } else {
        conn_map(entries.drop_last()).insert(entries.last().id(), entries.last().cascades())
    }
}

proof fn lemma_conn_map_contains(entries: Seq<Connection>, id: u128)
    ensures
        conn_map(entries).contains_key(id) <==> exists|i: int|
            0 <= i < entries.len() && #[trigger] entries[i].id() == id,
    decreases entries.len(),
{
    if entries.len() > 0 {
        lemma_conn_map_contains(entries.drop_last(), id);
        if conn_map(entries).contains_key(id) {
            if id == entries.last().id() {
                assert(entries[entries.len() - 1].id() == id);
            } else {
                let i = choose|i: int|
                    0 <= i < entries.drop_last().len() && #[trigger] entries.drop_last()[i].id()
                        == id;
                assert(entries[i].id() == id);
            }
        }
        if exists|i: int| 0 <= i < entries.len() && #[trigger] entries[i].id() == id {
            let i = choose|i: int| 0 <= i < entries.len() && #[trigger] entries[i].id() == id;
            if i < entries.len() - 1 {
                assert(entries.drop_last()[i].id() == id);
            }
        }
    }
}

proof fn lemma_conn_map_value(entries: Seq<Connection>, i: int)
    requires
        distinct_ids(entries),
        0 <= i < entries.len(),
    ensures
        conn_map(entries).contains_key(entries[i].id()),
        conn_map(entries)[entries[i].id()] == entries[i].cascades(),
    decreases entries.len(),
{
    if i < entries.len() - 1 {
        assert(distinct_ids(entries.drop_last()));
        lemma_conn_map_value(entries.drop_last(), i);
        assert(entries.drop_last()[i] == entries[i]);
        assert(entries.last().id() != entries[i].id());
    }
}

proof fn lemma_conn_map_push(entries: Seq<Connection>, entry: Connection)
    ensures
        conn_map(entries.push(entry)) == conn_map(entries).insert(entry.id(), entry.cascades()),
{
    assert(entries.push(entry).drop_last() =~= entries);
    assert(entries.push(entry).last() == entry);
}

proof fn lemma_conn_map_remove(entries: Seq<Connection>, k: int)
    requires
        distinct_ids(entries),
        0 <= k < entries.len(),
    ensures
        distinct_ids(entries.remove(k)),
        conn_map(entries.remove(k)) == conn_map(entries).remove(entries[k].id()),
{
    let shorter = entries.remove(k);
    assert forall|i: int, j: int| 0 <= i < j < shorter.len() implies shorter[i].id()
        != shorter[j].id() by {
        let i0: int = if i < k { i } else { i + 1 };
        let j0: int = if j < k { j } else { j + 1 };
        assert(shorter[i] == entries[i0]);
        assert(shorter[j] == entries[j0]);
    }
    let left = conn_map(shorter);
    let right = conn_map(entries).remove(entries[k].id());
    assert_maps_equal!(left, right, id => {
        lemma_conn_map_contains(shorter, id);
        lemma_conn_map_contains(entries, id);
        if id == entries[k].id() {
            assert(!right.contains_key(id));
            if left.contains_key(id) {
                let i = choose|i: int| 0 <= i < shorter.len() && #[trigger] shorter[i].id() == id;
                let i0: int = if i < k { i } else { i + 1 };
                assert(shorter[i] == entries[i0]);
                assert(entries[i0].id() == entries[k].id() && i0 != k);
                assert(false);
            }
        } else {
            if left.contains_key(id) || right.contains_key(id) {
                let j = choose|j: int| 0 <= j < entries.len() && #[trigger] entries[j].id() == id;
                let j2: int = if j < k { j } else { j - 1 };
                assert(shorter[j2] == entries[j]);
                lemma_conn_map_value(entries, j);
                lemma_conn_map_value(shorter, j2);
            }
        }
    });
}

proof fn lemma_conn_map_len(entries: Seq<Connection>)
    requires
        distinct_ids(entries),
    ensures
        conn_map(entries).dom().finite(),
        conn_map(entries).len() == entries.len(),
    decreases entries.len(),
{
    broadcast use vstd::set::axiom_set_insert_len;

    if entries.len() > 0 {
        assert(distinct_ids(entries.drop_last()));
        lemma_conn_map_len(entries.drop_last());
        lemma_conn_map_contains(entries.drop_last(), entries.last().id());
        assert forall|i: int| 0 <= i < entries.drop_last().len() implies #[trigger] entries.drop_last()[i].id()
            != entries.last().id() by {
            assert(entries.drop_last()[i] == entries[i]);
        }
        assert(!conn_map(entries.drop_last()).contains_key(entries.last().id()));
    }
}

/// Whether removing the registry entry for `id` must cascade into the
/// external session subsystem: an entry exists and was created from a
/// subscriber-supplied session identifier.
pub open spec fn cascade_required(registry: Map<u128, bool>, id: u128) -> bool {
    registry.contains_key(id) && registry[id]
}

/// The failures among the per-entry outcomes of one delivery pass, in visit
/// order.
pub open spec fn failure_seq(outcomes: Seq<Result<(), SendFailure>>) -> Seq<SendFailure>
    decreases outcomes.len(),
{
    if outcomes.len() == 0 {
        Seq::empty()
    } else {
        match outcomes.last() {
            Ok(_) => failure_seq(outcomes.drop_last()),
            Err(failure) => failure_seq(outcomes.drop_last()).push(failure),
        }
    }
}

proof fn lemma_failure_seq_framed(outcomes: Seq<Result<(), SendFailure>>, payload: Seq<char>)
    requires
        forall|j: int|
            0 <= j < outcomes.len() ==> ((#[trigger] outcomes[j]) matches Err(f) ==> f@
                == payload),
    ensures
        failure_seq(outcomes).len() <= outcomes.len(),
        forall|i: int|
            0 <= i < failure_seq(outcomes).len() ==> (#[trigger] failure_seq(outcomes)[i])@
                == payload,
    decreases outcomes.len(),
{
    if outcomes.len() > 0 {
        let shorter = outcomes.drop_last();
        assert forall|j: int|
            0 <= j < shorter.len() implies ((#[trigger] shorter[j]) matches Err(f) ==> f@
            == payload) by {
            assert(shorter[j] == outcomes[j]);
        }
        lemma_failure_seq_framed(shorter, payload);
        match outcomes.last() {
            Ok(_) => {},
            Err(f) => {
                let with_last = failure_seq(shorter).push(f);
                assert(outcomes[outcomes.len() - 1] == outcomes.last());
                assert(f@ == payload);
                assert forall|i: int|
                    0 <= i < with_last.len() implies (#[trigger] with_last[i])@ == payload by {
                    if i < with_last.len() - 1 {
                        assert(with_last[i] == failure_seq(shorter)[i]);
                    } else {
                        assert(with_last[i] == f);
                    }
                }
            },
        }
    }
}

/// Aggregate the per-entry outcomes of one delivery pass into the single
/// result a caller sees: success exactly when every entry took the event,
/// otherwise every failure encountered, in visit order.
pub fn collect_failures(outcomes: Vec<Result<(), SendFailure>>) -> (r: Result<
    (),
    Vec<SendFailure>,
>)
    ensures
        r is Ok <==> (forall|j: int| 0 <= j < outcomes@.len() ==> (#[trigger] outcomes@[j]) is Ok),
        r matches Err(failures) ==> failures@ == failure_seq(outcomes@) && failures@.len() >= 1,
{
    let ghost total = outcomes@;
    let mut rest = outcomes;
    let mut failures: Vec<SendFailure> = Vec::new();
    proof {
        assert(rest@ =~= total.subrange(total.len() - rest@.len(), total.len() as int));
        assert(total.subrange(0, 0) =~= Seq::<Result<(), SendFailure>>::empty());
    }
    while rest.len() > 0
        invariant
            rest@.len() <= total.len(),
            rest@ == total.subrange(total.len() - rest@.len(), total.len() as int),
            failures@ == failure_seq(total.subrange(0, total.len() - rest@.len())),
            failures@.len() == 0 <==> (forall|j: int|
                0 <= j < total.len() - rest@.len() ==> (#[trigger] total[j]) is Ok),
        decreases rest@.len(),
    {
        let ghost done = total.len() - rest@.len();
        let first = rest.remove(0);
        proof {
            assert(first == total[done]);
            assert(rest@ =~= total.subrange(done + 1, total.len() as int));
            assert(total.subrange(0, done + 1).drop_last() =~= total.subrange(0, done));
            assert(total.subrange(0, done + 1).last() == total[done]);
        }
        match first {
            Ok(_) => {
                proof {
                    assert(failures@ == failure_seq(total.subrange(0, done + 1)));
                }
            },
            Err(failure) => {
                failures.push(failure);
                proof {
                    assert(failures@ == failure_seq(total.subrange(0, done + 1)));
                    assert(!(total[done] is Ok));
                }
            },
        }
    }
    proof {
        assert(total.subrange(0, total.len() as int) =~= total);
    }
    if failures.len() == 0 {
        Ok(())
    } else {
        Err(failures)
    }
}

/// The sweep's per-entry rule, decided from the probe's outcome alone: the
/// first returned flag says whether the entry is evicted — exactly when the
/// probe failed, the consumer being gone for good — and the second whether
/// the eviction cascades into the external session subsystem — exactly when
/// the evicted entry was also marked cascade-on-loss.
pub fn sweep_decision(outcome: &Result<(), SendFailure>, cascade_on_loss: bool) -> (r: (
    bool,
    bool,
))
    ensures
        r.0 == (outcome is Err),
        r.1 == (outcome is Err && cascade_on_loss),
{
    match outcome {
        Ok(_) => (false, false),
        Err(_) => (true, cascade_on_loss),
    }
}

/// The connection registry: a mapping from session identifier to the live
/// connection for that session.
///
/// Its view is the mathematical map from session identifier to the entry's
/// cascade-on-loss flag; at most one entry exists per identifier at any time.
pub struct SSE {
    connections: Vec<Connection>,
}

impl View for SSE {
    type V = Map<u128, bool>;

    closed spec fn view(&self) -> Map<u128, bool> {
        conn_map(self.connections@)
    }
}

impl SSE {
    /// Well-formedness: one entry per session identifier. Established by
    /// [`SSE::start`] and preserved by every operation.
    pub closed spec fn wf(&self) -> bool {
        distinct_ids(self.connections@)
    }

    /// Create the registry, empty. It lives for the process's lifetime; the
    /// caller drives the liveness sweep by calling
    /// [`SSE::sweep_connections`] once immediately and once per
    /// [`SWEEP_INTERVAL_SECS`] after that.
    pub fn start() -> (r: SSE)
        ensures
            r.wf(),
            r@ == Map::<u128, bool>::empty(),
    {
        SSE { connections: Vec::new() }
    }

    /// The index of the entry for `session_id`, if one exists.
    fn find_index(&self, session_id: &SessionId) -> (r: Option<usize>)
        ensures
            match r {
                Some(i) => i < self.connections@.len() && self.connections@[i as int].id()
                    == session_id@,
                None => forall|i: int|
                    0 <= i < self.connections@.len() ==> #[trigger] self.connections@[i].id()
                        != session_id@,
            },
    {
        let n: usize = self.connections.len();
        let mut i: usize = 0;
        while i < n
            invariant
                n == self.connections@.len(),
                i <= n,
                forall|j: int|
                    0 <= j < i ==> #[trigger] self.connections@[j].id() != session_id@,
            decreases n - i,
        {
            if self.connections[i].session_id().number() == session_id.number() {
                return Some(i);
            }
            i += 1;
        }
        None
    }

    /// Mint a connection for the supplied (or a freshly generated) session
    /// identifier and make it the registry entry for that identifier. Any
    /// previous entry for the identifier is dropped, which ends its paired
    /// stream once its last outside handle is gone. Returns the connection
    /// and the paired stream for the transport layer to consume.
    pub fn new_connection(&mut self, session_id: Option<SessionId>) -> (r: (Connection, EventStream))
        requires
            old(self).wf(),
        ensures
            final(self).wf(),
            r.0.cascades() == session_id is Some,
            session_id matches Some(s) ==> r.0.id() == s@,
            final(self)@ == old(self)@.insert(r.0.id(), r.0.cascades()),
    {
        let (connection, event_stream) = Connection::new(session_id);
        let entry = connection.duplicate();
        let id = connection.session_id();
        proof {
            lemma_conn_map_contains(self.connections@, id@);
        }
        match self.find_index(&id) {
            Some(i) => {
                proof {
                    lemma_conn_map_remove(self.connections@, i as int);
                }
                let _previous = self.connections.remove(i);
            },
            None => {
                proof {
                    assert(conn_map(self.connections@) =~= conn_map(self.connections@).remove(
                        id@,
                    ));
                }
            },
        }
        proof {
            lemma_conn_map_contains(self.connections@, id@);
            assert(forall|j: int|
                0 <= j < self.connections@.len() ==> #[trigger] self.connections@[j].id() != id@);
            lemma_conn_map_push(self.connections@, entry);
        }
        self.connections.push(entry);
        proof {
            assert(final(self)@ =~= old(self)@.insert(id@, entry.cascades()));
        }
        (connection, event_stream)
    }

    /// Deliver one named event to one session. `None` when no entry exists
    /// for the identifier — absent is not-found, never a send failure.
    /// Otherwise the entry's own send result is passed through. A failing
    /// entry is not evicted here: eviction is the sweep's exclusive job, to
    /// avoid racing a concurrent removal.
    pub fn send(&self, session_id: &SessionId, event: &str, data: &str) -> (r: Option<
        Result<(), SendFailure>,
    >)
        requires
            self.wf(),
        ensures
            r is None <==> !self@.contains_key(session_id@),
            r matches Some(Err(f)) ==> f@ == frame_spec(event@, data@),
    {
        proof {
            lemma_conn_map_contains(self.connections@, session_id@);
        }
        match self.find_index(session_id) {
            None => None,
            Some(i) => Some(self.connections[i].send(event, data)),
        }
    }

    /// Attempt delivery of one named event to every current entry, then
    /// aggregate the per-entry outcomes through [`collect_failures`]: success
    /// exactly when every entry took the event, otherwise every failure
    /// encountered, in visit order. A failing entry is not evicted — the
    /// registry comes out exactly as it went in — and never stops the pass.
    pub fn broadcast(&mut self, event: &str, data: &str) -> (r: Result<(), Vec<SendFailure>>)
        requires
            old(self).wf(),
        ensures
            *final(self) == *old(self),
            r matches Err(failures) ==> 1 <= failures@.len() <= old(self)@.len(),
            r matches Err(failures) ==> forall|j: int|
                0 <= j < failures@.len() ==> #[trigger] failures@[j]@ == frame_spec(
                    event@,
                    data@,
                ),
            old(self)@ == Map::<u128, bool>::empty() ==> r is Ok,
    {
        let mut outcomes: Vec<Result<(), SendFailure>> = Vec::new();
        let n: usize = self.connections.len();
        let mut i: usize = 0;
        while i < n
            invariant
                *self == *old(self),
                n == self.connections@.len(),
                i <= n,
                outcomes@.len() == i,
                forall|j: int|
                    0 <= j < outcomes@.len() ==> ((#[trigger] outcomes@[j]) matches Err(f) ==> f@
                        == frame_spec(event@, data@)),
            decreases n - i,
        {
            let outcome = self.connections[i].send(event, data);
            outcomes.push(outcome);
            i += 1;
        }
        proof {
            lemma_conn_map_len(self.connections@);
            lemma_failure_seq_framed(outcomes@, frame_spec(event@, data@));
            if self.connections@.len() > 0 {
                lemma_conn_map_value(self.connections@, 0);
                assert(self@.contains_key(self.connections@[0].id()));
                assert(self@ != Map::<u128, bool>::empty());
            }
        }
        collect_failures(outcomes)
    }

    /// Remove and drop the entry for `session_id` unconditionally — used when
    /// the caller knows the subscriber disconnected. Returns the identifier
    /// of the external session state the caller must now remove: `Some`
    /// exactly when an entry existed and was marked cascade-on-loss.
    pub fn remove_connection(&mut self, session_id: &SessionId) -> (r: Option<SessionId>)
        requires
            old(self).wf(),
        ensures
            final(self).wf(),
            final(self)@ == old(self)@.remove(session_id@),
            r is Some <==> cascade_required(old(self)@, session_id@),
            r matches Some(s) ==> s == *session_id,
    {
        proof {
            lemma_conn_map_contains(self.connections@, session_id@);
        }
        match self.find_index(session_id) {
            None => {
                proof {
                    assert(old(self)@.remove(session_id@) =~= old(self)@);
                }
                None
            },
            Some(i) => {
                proof {
                    lemma_conn_map_value(self.connections@, i as int);
                    lemma_conn_map_remove(self.connections@, i as int);
                }
                let removed = self.connections.remove(i);
                if removed.cascade_on_loss() {
                    Some(*session_id)
                } else {
                    None
                }
            },
        }
    }

    /// One liveness pass: probe every entry with a `ping` event and let
    /// [`sweep_decision`] fix each entry's fate from the probe's outcome —
    /// evicted exactly when the probe failed, the consumer being gone for
    /// good, retained otherwise. Returns the identifiers of the evicted
    /// entries that were marked cascade-on-loss, for the caller to remove the
    /// corresponding external session state. Detection and eviction happen in
    /// the same pass, per entry, so no separate detect-then-evict race
    /// exists.
    pub fn sweep_connections(&mut self) -> (r: Vec<SessionId>)
        requires
            old(self).wf(),
        ensures
            final(self).wf(),
            forall|id: u128| #[trigger]
                final(self)@.contains_key(id) ==> old(self)@.contains_key(id) && final(self)@[id]
                    == old(self)@[id],
            forall|j: int|
                0 <= j < r@.len() ==> cascade_required(old(self)@, #[trigger] r@[j]@)
                    && !final(self)@.contains_key(r@[j]@),
            forall|id: u128|
                cascade_required(old(self)@, id) && !(#[trigger] final(self)@.contains_key(id))
                    ==> exists|j: int| 0 <= j < r@.len() && #[trigger] r@[j]@ == id,
            forall|j: int, k: int| 0 <= j < k < r@.len() ==> r@[j]@ != r@[k]@,
    {
        let ghost orig = conn_map(old(self).connections@);
        let mut cascade_list: Vec<SessionId> = Vec::new();
        let mut i: usize = 0;
        while i < self.connections.len()
            invariant
                distinct_ids(self.connections@),
                i <= self.connections@.len(),
                forall|id: u128| #[trigger]
                    conn_map(self.connections@).contains_key(id) ==> orig.contains_key(id)
                        && conn_map(self.connections@)[id] == orig[id],
                forall|j: int|
                    0 <= j < cascade_list@.len() ==> cascade_required(
                        orig,
                        #[trigger] cascade_list@[j]@,
                    ) && !conn_map(self.connections@).contains_key(cascade_list@[j]@),
                forall|id: u128|
                    cascade_required(orig, id) && !(#[trigger] conn_map(
                        self.connections@,
                    ).contains_key(id)) ==> exists|j: int|
                        0 <= j < cascade_list@.len() && #[trigger] cascade_list@[j]@ == id,
                forall|j: int, k: int|
                    0 <= j < k < cascade_list@.len() ==> cascade_list@[j]@ != cascade_list@[k]@,
            decreases self.connections@.len() - i,
        {
            let outcome = self.connections[i].send("ping", "");
            let decision = sweep_decision(&outcome, self.connections[i].cascade_on_loss());
            if !decision.0 {
                i += 1;
            } else {
                proof {
                    lemma_conn_map_value(self.connections@, i as int);
                    lemma_conn_map_remove(self.connections@, i as int);
                }
                let ghost before = self.connections@;
                let dead = self.connections.remove(i);
                proof {
                    assert(conn_map(self.connections@) == conn_map(before).remove(dead.id()));
                    assert(conn_map(before).contains_key(dead.id()));
                    assert(orig.contains_key(dead.id()) && orig[dead.id()] == dead.cascades());
                    assert(decision.1 == dead.cascades());
                }
                if decision.1 {
                    let ghost listed = cascade_list@;
                    cascade_list.push(dead.session_id());
                    proof {
                        assert forall|id: u128|
                            cascade_required(orig, id) && !(#[trigger] conn_map(
                                self.connections@,
                            ).contains_key(id)) implies exists|j: int|
                            0 <= j < cascade_list@.len() && #[trigger] cascade_list@[j]@
                                == id by {
                            if id == dead.id() {
                                assert(cascade_list@[listed.len() as int]@ == id);
                            } else {
                                assert(!conn_map(before).contains_key(id));
                                let j = choose|j: int|
                                    0 <= j < listed.len() && #[trigger] listed[j]@ == id;
                                assert(cascade_list@[j]@ == id);
                            }
                        }
                    }
                } else {
                    proof {
                        assert forall|id: u128|
                            cascade_required(orig, id) && !(#[trigger] conn_map(
                                self.connections@,
                            ).contains_key(id)) implies exists|j: int|
                            0 <= j < cascade_list@.len() && #[trigger] cascade_list@[j]@
                                == id by {
                            if id == dead.id() {
                                assert(!orig[id]);
                            } else {
                                assert(!conn_map(before).contains_key(id));
                            }
                        }
                    }
                }
            }
        }
        cascade_list
    }
}

/// Law: creating a connection for a session identifier that already has one
/// leaves exactly one registry entry for it — the insert of the second
/// connection wholly replaces the first entry, whatever either cascade flag
/// was.
pub proof fn lemma_reconnect_single_entry(
    registry: Map<u128, bool>,
    id: u128,
    first_cascade: bool,
    second_cascade: bool,
)
    ensures
        registry.insert(id, first_cascade).insert(id, second_cascade) == registry.insert(
            id,
            second_cascade,
        ),
{
    assert(registry.insert(id, first_cascade).insert(id, second_cascade) =~= registry.insert(
        id,
        second_cascade,
    ));
}

/// Law: removing a connection twice in succession cascades at most once. The
/// first removal leaves the registry without the entry, so the second finds
/// nothing to cascade and changes nothing.
pub proof fn lemma_remove_cascade_at_most_once(registry: Map<u128, bool>, id: u128)
    ensures
        !cascade_required(registry.remove(id), id),
        registry.remove(id).remove(id) == registry.remove(id),
{
    assert(registry.remove(id).remove(id) =~= registry.remove(id));
}

} // verus!
