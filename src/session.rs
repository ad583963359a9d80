use vstd::prelude::*;

use crate::message::{AttemptResult, Message, PeerId};

verus! {

/// Why a fallback session could not be created.
#[derive(Clone, Copy, PartialEq, Eq, Structural, Debug)]
pub enum DispatchError {
    /// The candidate list was empty.
    NoCandidates,
}

/// What a pull on the session asks of its caller.
#[derive(Debug)]
pub enum Poll {
    /// The result for the current position; the cursor has moved on.
    Ready(AttemptResult),
    /// Every launched attempt has been delivered and the next position has no
    /// attempt yet: the caller starts the attempt for this candidate index,
    /// re-arms the escalation timer, and pulls again when something resolves.
    Launch(usize),
    /// The attempt at the current position is still running.
    Pending,
    /// All results have been delivered.
    Exhausted,
}

/// One fallback dispatch: an ordered list of candidates, the message sent to
/// each of them, and the bookkeeping that launches attempts on a cadence and
/// hands results back in candidate order.
///
/// The session makes no network call and reads no clock. The caller starts an
/// attempt whenever the session names a candidate index, reports each
/// attempt's result with `on_resolved`, reports the escalation timer with
/// `on_timer`, and pulls results with `poll_next`.
pub struct FallbackSession {
    candidates: Vec<PeerId>,
    message: Message,
    cadence_ms: u64,
    launched: usize,
    cursor: usize,
    timer_armed: bool,
    slots: Vec<Option<AttemptResult>>,
    outcomes: Ghost<Map<int, AttemptResult>>,
    delivered: Ghost<Seq<AttemptResult>>,
    launches: Ghost<Seq<int>>,
}

impl FallbackSession {
    /// The candidates, in priority order.
    pub closed spec fn candidates_spec(&self) -> Seq<PeerId> {
        self.candidates@
    }

    /// The message that every attempt sends.
    pub closed spec fn message_spec(&self) -> Message {
        self.message
    }

    /// The escalation cadence, in milliseconds.
    pub closed spec fn cadence_spec(&self) -> u64 {
        self.cadence_ms
    }

    /// How many candidates have an attempt: always a prefix of the list.
    pub closed spec fn launched(&self) -> nat {
        self.launched as nat
    }

    /// The next position whose result is to be delivered.
    pub closed spec fn cursor(&self) -> nat {
        self.cursor as nat
    }

    /// Whether the escalation timer is running.
    pub closed spec fn armed(&self) -> bool {
        self.timer_armed
    }

    /// The result each resolved attempt reported, by candidate position.
    pub closed spec fn outcomes(&self) -> Map<int, AttemptResult> {
        self.outcomes@
    }

    /// The results handed to the consumer so far, in delivery order.
    pub closed spec fn delivered(&self) -> Seq<AttemptResult> {
        self.delivered@
    }

    /// The candidate positions whose attempts were launched, in launch order.
    pub closed spec fn launches(&self) -> Seq<int> {
        self.launches@
    }

    /// The number of candidates.
    pub open spec fn len_spec(&self) -> nat {
        self.candidates_spec().len()
    }

    /// The attempt at position `i` has reported a result.
    pub open spec fn is_resolved(&self, i: int) -> bool {
        self.outcomes().contains_key(i)
    }

    /// Some launched attempt has not reported yet.
    pub open spec fn has_unresolved(&self) -> bool {
        exists|j: int| 0 <= j < self.launched() && !self.is_resolved(j)
    }

    /// Every position's result has been delivered.
    pub open spec fn is_exhausted(&self) -> bool {
        self.cursor() == self.len_spec()
    }

    /// Everything but the launch and delivery bookkeeping stays as it was.
    pub open spec fn same_setup(&self, other: &FallbackSession) -> bool {
        &&& self.candidates_spec() == other.candidates_spec()
        &&& self.message_spec() == other.message_spec()
        &&& self.cadence_spec() == other.cadence_spec()
    }

    /// The session's invariant: launched candidates form a prefix of the
    /// list, delivered positions form a prefix of the launched ones, each
    /// delivered result is the one its attempt reported, and each undelivered
    /// slot holds exactly the reported result, if any.
    pub closed spec fn wf(&self) -> bool {
        &&& self.candidates@.len() >= 1
        &&& self.slots@.len() == self.candidates@.len()
        &&& 1 <= self.launched <= self.candidates@.len()
        &&& self.cursor <= self.launched
        &&& self.delivered@.len() == self.cursor
        &&& self.launches@.len() == self.launched
        &&& forall|i: int| 0 <= i < self.launched ==> #[trigger] self.launches@[i] == i
        &&& forall|i: int| #[trigger] self.outcomes@.contains_key(i) ==> 0 <= i < self.launched
        &&& forall|i: int| 0 <= i < self.cursor ==> #[trigger] self.outcomes@.contains_key(i)
        &&& forall|i: int| 0 <= i < self.cursor ==> #[trigger] self.delivered@[i] == self.outcomes@[i]
        &&& forall|i: int|
            self.cursor <= i < self.slots@.len() ==> #[trigger] self.slots@[i] == (
            if self.outcomes@.contains_key(i) {
                Some(self.outcomes@[i])
            } else {
                None
            })
    }

    /// Starts a session over `candidates`, sending `message` to each one that
    /// gets an attempt and escalating every `cadence_ms` milliseconds.
    ///
    /// Candidate 0 counts as launched at once: the caller starts its attempt
    /// and arms the escalation timer. An empty list is refused.
    pub fn send_rpc_with_fallbacks(candidates: Vec<PeerId>, message: Message, cadence_ms: u64) -> (r:
        Result<FallbackSession, DispatchError>)
        ensures
            candidates@.len() == 0 <==> r is Err,
            r is Err ==> r == Err::<FallbackSession, DispatchError>(DispatchError::NoCandidates),
            r matches Ok(s) ==> {
                &&& s.wf()
                &&& s.candidates_spec() == candidates@
                &&& s.message_spec() == message
                &&& s.cadence_spec() == cadence_ms
                &&& s.launched() == 1
                &&& s.launches() == seq![0int]
                &&& s.cursor() == 0
                &&& s.armed()
                &&& s.outcomes() == Map::<int, AttemptResult>::empty()
                &&& s.delivered() == Seq::<AttemptResult>::empty()
            },
    {
        if candidates.len() == 0 {
            return Err(DispatchError::NoCandidates);
        }
        let mut slots: Vec<Option<AttemptResult>> = Vec::new();
        let mut i: usize = 0;
        while i < candidates.len()
            invariant
                i <= candidates@.len(),
                slots@.len() == i,
                forall|j: int| 0 <= j < i ==> slots@[j] == None::<AttemptResult>,
            decreases candidates@.len() - i,
        {
            slots.push(None);
            i = i + 1;
        }
        let s = FallbackSession {
            candidates,
            message,
            cadence_ms,
            launched: 1,
            cursor: 0,
            timer_armed: true,
            slots,
            outcomes: Ghost(Map::empty()),
            delivered: Ghost(Seq::empty()),
            launches: Ghost(Seq::empty().push(0int)),
        };
        Ok(s)
    }

    /// Records the result of the attempt at position `index`.
    ///
    /// A result is accepted only for a launched attempt that has not reported
    /// yet; any other report leaves the session as it was.
    pub fn on_resolved(&mut self, index: usize, result: AttemptResult) -> (accepted: bool)
        requires
            old(self).wf(),
        ensures
            final(self).wf(),
            final(self).same_setup(old(self)),
            accepted == (index < old(self).launched() && !old(self).is_resolved(index as int)),
            accepted ==> final(self).outcomes() == old(self).outcomes().insert(index as int, result),
            !accepted ==> final(self).outcomes() == old(self).outcomes(),
            final(self).launched() == old(self).launched(),
            final(self).launches() == old(self).launches(),
            final(self).cursor() == old(self).cursor(),
            final(self).delivered() == old(self).delivered(),
            final(self).armed() == old(self).armed(),
    {
        proof {
            if index < self.cursor {
                assert(self.outcomes@.contains_key(index as int));
            } else if index < self.slots@.len() {
                assert(self.slots@[index as int] == (if self.outcomes@.contains_key(index as int) {
                    Some(self.outcomes@[index as int])
                } else {
                    None
                }));
            }
        }
        if index < self.launched && index >= self.cursor && self.slots[index].is_none() {
            let ghost prev = *self;
            self.slots.set(index, Some(result));
            self.outcomes = Ghost(self.outcomes@.insert(index as int, result));
            assert forall|i: int| self.cursor <= i < self.slots@.len() implies self.slots@[i] == (
            if self.outcomes@.contains_key(i) {
                Some(self.outcomes@[i])
            } else {
                None
            }) by {
                if i != index {
                    assert(prev.slots@[i] == self.slots@[i]);
                }
            }
            true
        } else {
            false
        }
    }

    /// Whether some launched attempt has not reported yet.
    fn any_unresolved(&self) -> (r: bool)
        requires
            self.wf(),
        ensures
            r == self.has_unresolved(),
    {
        let mut j: usize = self.cursor;
        while j < self.launched
            invariant
                self.wf(),
                self.cursor <= j <= self.launched,
                forall|k: int| self.cursor <= k < j ==> #[trigger] self.is_resolved(k),
            decreases self.launched - j,
        {
            if self.slots[j].is_none() {
                assert(self.slots@[j as int] == (if self.outcomes@.contains_key(j as int) {
                    Some(self.outcomes@[j as int])
                } else {
                    None
                }));
                assert(!self.is_resolved(j as int));
                return true;
            }
            j = j + 1;
        }
        assert forall|k: int| 0 <= k < self.launched implies self.is_resolved(k) by {
            if k < self.cursor {
                assert(self.outcomes@.contains_key(k));
            }
        }
        false
    }

    /// Launches the next candidate in the list and arms the timer.
    fn launch_next(&mut self) -> (r: usize)
        requires
            old(self).wf(),
            old(self).launched() < old(self).len_spec(),
        ensures
            final(self).wf(),
            final(self).same_setup(old(self)),
            r == old(self).launched(),
            final(self).launched() == old(self).launched() + 1,
            final(self).launches() == old(self).launches().push(r as int),
            final(self).armed(),
            final(self).cursor() == old(self).cursor(),
            final(self).outcomes() == old(self).outcomes(),
            final(self).delivered() == old(self).delivered(),
    {
        let r = self.launched;
        let n = self.candidates.len();
        assert(r < n);
        self.launches = Ghost(self.launches@.push(r as int));
        self.launched = r + 1;
        self.timer_armed = true;
        assert forall|i: int| 0 <= i < self.launched implies #[trigger] self.launches@[i] == i by {
            if i < r {
                assert(self.launches@[i] == old(self).launches@[i]);
            }
        }
        r
    }

    /// Reacts to the escalation timer.
    ///
    /// While unlaunched candidates remain and some launched attempt is still
    /// unresolved, the next candidate is launched (its index is returned) and
    /// the timer runs again. Otherwise nothing is launched and the timer stops
    /// until a pull needs the next candidate.
    pub fn on_timer(&mut self) -> (r: Option<usize>)
        requires
            old(self).wf(),
        ensures
            final(self).wf(),
            final(self).same_setup(old(self)),
            final(self).cursor() == old(self).cursor(),
            final(self).outcomes() == old(self).outcomes(),
            final(self).delivered() == old(self).delivered(),
            (old(self).launched() < old(self).len_spec() && old(self).has_unresolved()) ==> {
                &&& r == Some(old(self).launched() as usize)
                &&& final(self).launched() == old(self).launched() + 1
                &&& final(self).launches() == old(self).launches().push(old(self).launched() as int)
                &&& final(self).armed()
            },
            !(old(self).launched() < old(self).len_spec() && old(self).has_unresolved()) ==> {
                &&& r == None::<usize>
                &&& final(self).launched() == old(self).launched()
                &&& final(self).launches() == old(self).launches()
                &&& !final(self).armed()
            },
    {
        if self.launched < self.candidates.len() && self.any_unresolved() {
            let i = self.launch_next();
            Some(i)
        } else {
            self.timer_armed = false;
            None
        }
    }

    /// Pulls the result for the current position.
    ///
    /// Results come out strictly in candidate order: the result at the cursor
    /// is handed out once its attempt has reported, whatever the others did.
    /// After the last position the session is exhausted.
    pub fn poll_next(&mut self) -> (r: Poll)
        requires
            old(self).wf(),
        ensures
            final(self).wf(),
            final(self).same_setup(old(self)),
            final(self).outcomes() == old(self).outcomes(),
            old(self).is_exhausted() ==> {
                &&& r is Exhausted
                &&& final(self).cursor() == old(self).cursor()
                &&& final(self).delivered() == old(self).delivered()
                &&& final(self).launched() == old(self).launched()
                &&& final(self).launches() == old(self).launches()
                &&& final(self).armed() == old(self).armed()
            },
            !old(self).is_exhausted() && old(self).is_resolved(old(self).cursor() as int) ==> {
                &&& r == Poll::Ready(old(self).outcomes()[old(self).cursor() as int])
                &&& final(self).cursor() == old(self).cursor() + 1
                &&& final(self).delivered() == old(self).delivered().push(
                    old(self).outcomes()[old(self).cursor() as int],
                )
                &&& final(self).launched() == old(self).launched()
                &&& final(self).launches() == old(self).launches()
                &&& final(self).armed() == old(self).armed()
            },
            !old(self).is_exhausted() && !old(self).is_resolved(old(self).cursor() as int)
                && old(self).cursor() == old(self).launched() ==> {
                &&& r == Poll::Launch(old(self).cursor() as usize)
                &&& final(self).cursor() == old(self).cursor()
                &&& final(self).delivered() == old(self).delivered()
                &&& final(self).launched() == old(self).launched() + 1
                &&& final(self).launches() == old(self).launches().push(old(self).cursor() as int)
                &&& final(self).armed()
            },
            !old(self).is_exhausted() && !old(self).is_resolved(old(self).cursor() as int)
                && old(self).cursor() < old(self).launched() ==> {
                &&& r is Pending
                &&& final(self).cursor() == old(self).cursor()
                &&& final(self).delivered() == old(self).delivered()
                &&& final(self).launched() == old(self).launched()
                &&& final(self).launches() == old(self).launches()
                &&& final(self).armed() == old(self).armed()
            },
    {
        let c = self.cursor;
        if c == self.candidates.len() {
            return Poll::Exhausted;
        }
        if c == self.launched {
            proof {
                if self.outcomes@.contains_key(c as int) {
                    assert(c < self.launched);
                }
            }
            let i = self.launch_next();
            return Poll::Launch(i);
        }
        assert(self.slots@[c as int] == (if self.outcomes@.contains_key(c as int) {
            Some(self.outcomes@[c as int])
        } else {
            None
        }));
        let ghost prev = *self;
        let taken = self.slots[c].take();
        match taken {
            Some(result) => {
                self.delivered = Ghost(self.delivered@.push(result));
                self.cursor = c + 1;
                assert forall|i: int| 0 <= i < self.cursor implies #[trigger] self.delivered@[i]
                    == self.outcomes@[i] by {
                    if i < c {
                        assert(prev.delivered@[i] == prev.outcomes@[i]);
                    }
                }
                assert forall|i: int| 0 <= i < self.cursor implies #[trigger] self.outcomes@.contains_key(i) by {
                    if i < c {
                        assert(prev.outcomes@.contains_key(i));
                    }
                }
                assert forall|i: int| self.cursor <= i < self.slots@.len() implies #[trigger] self.slots@[i] == (
                if self.outcomes@.contains_key(i) {
                    Some(self.outcomes@[i])
                } else {
                    None
                }) by {
                    assert(prev.slots@[i] == self.slots@[i]);
                }
                Poll::Ready(result)
            },
            None => Poll::Pending,
        }
    }

    /// Tears the session down and names the attempts the caller must cancel:
    /// every launched attempt that has not reported, in candidate order.
    /// Results already delivered are not affected.
    pub fn cancel(self) -> (r: Vec<usize>)
        requires
            self.wf(),
        ensures
            forall|k: int| 0 <= k < r@.len() ==> r@[k] < self.launched() && !self.is_resolved(#[trigger] r@[k] as int),
            forall|j: int| 0 <= j < self.launched() && !self.is_resolved(j) ==> r@.contains(j as usize),
            forall|a: int, b: int| 0 <= a < b < r@.len() ==> r@[a] < r@[b],
    {
        let mut r: Vec<usize> = Vec::new();
        let mut j: usize = self.cursor;
        while j < self.launched
            invariant
                self.wf(),
                self.cursor <= j <= self.launched,
                forall|k: int| 0 <= k < r@.len() ==> self.cursor <= r@[k] < j && !self.is_resolved(#[trigger] r@[k] as int),
                forall|i: int| self.cursor <= i < j && !self.is_resolved(i) ==> r@.contains(i as usize),
                forall|a: int, b: int| 0 <= a < b < r@.len() ==> r@[a] < r@[b],
            decreases self.launched - j,
        {
            assert(self.slots@[j as int] == (if self.outcomes@.contains_key(j as int) {
                Some(self.outcomes@[j as int])
            } else {
                None
            }));
            if self.slots[j].is_none() {
                let ghost before = r@;
                r.push(j);
                assert(r@[r@.len() - 1] == j);
                assert forall|i: int| self.cursor <= i < j + 1 && !self.is_resolved(i) implies r@.contains(i as usize) by {
                    if i < j {
                        let w = choose|w: int| 0 <= w < before.len() && before[w] == i as usize;
                        assert(r@[w] == i as usize);
                    }
                }
            }
            j = j + 1;
        }
        assert forall|i: int| 0 <= i < self.launched && !self.is_resolved(i) implies r@.contains(i as usize) by {
            if i < self.cursor {
                assert(self.outcomes@.contains_key(i));
            }
        }
        r
    }

    /// A session hands out one result per pull and no more than one per
    /// candidate: the results delivered so far are as many as the positions
    /// passed, never more than the candidates, and the session is exhausted
    /// exactly when all of them have been delivered.
    pub proof fn lemma_results_before_exhaustion(&self)
        requires
            self.wf(),
        ensures
            self.delivered().len() == self.cursor(),
            self.cursor() <= self.len_spec(),
            self.is_exhausted() <==> self.delivered().len() == self.len_spec(),
    {
    }

    /// Position fidelity: the i-th delivered result is the result that the
    /// attempt against candidate i reported, and only launched attempts have
    /// reported results.
    pub proof fn lemma_position_fidelity(&self)
        requires
            self.wf(),
        ensures
            forall|i: int|
                0 <= i < self.delivered().len() ==> #[trigger] self.is_resolved(i)
                    && self.delivered()[i] == self.outcomes()[i],
            forall|i: int| #[trigger] self.is_resolved(i) ==> 0 <= i < self.launched(),
    {
        assert forall|i: int| 0 <= i < self.delivered().len() implies #[trigger] self.is_resolved(i)
            && self.delivered()[i] == self.outcomes()[i] by {
            assert(self.outcomes@.contains_key(i));
            assert(self.delivered@[i] == self.outcomes@[i]);
        }
    }

    /// No candidate is contacted twice in a session: the launched positions
    /// are distinct and all lie within the candidate list.
    pub proof fn lemma_one_attempt_per_candidate(&self)
        requires
            self.wf(),
        ensures
            forall|k: int| 0 <= k < self.launches().len() ==> 0 <= #[trigger] self.launches()[k] < self.len_spec(),
            forall|a: int, b: int|
                0 <= a < b < self.launches().len() ==> self.launches()[a] != self.launches()[b],
    {
        assert forall|a: int, b: int| 0 <= a < b < self.launches().len() implies self.launches()[a]
            != self.launches()[b] by {
            assert(self.launches@[a] == a);
            assert(self.launches@[b] == b);
        }
    }

    /// Launches follow candidate order: candidate i + 1 is never launched
    /// before candidate i, so the launched candidates are always a prefix of
    /// the list.
    pub proof fn lemma_launch_order(&self)
        requires
            self.wf(),
        ensures
            forall|k: int| 0 <= k < self.launches().len() ==> #[trigger] self.launches()[k] == k,
            forall|a: int, b: int|
                0 <= a < b < self.launches().len() ==> self.launches()[a] < self.launches()[b],
            self.launches().len() == self.launched(),
    {
        assert forall|a: int, b: int| 0 <= a < b < self.launches().len() implies self.launches()[a]
            < self.launches()[b] by {
            assert(self.launches@[a] == a);
            assert(self.launches@[b] == b);
        }
    }

    /// The number of candidates.
    pub fn num_candidates(&self) -> (r: usize)
        requires
            self.wf(),
        ensures
            r == self.len_spec(),
    {
        self.candidates.len()
    }

    /// The candidate at position `index`.
    pub fn candidate(&self, index: usize) -> (r: PeerId)
        requires
            index < self.len_spec(),
        ensures
            r == self.candidates_spec()[index as int],
    {
        self.candidates[index]
    }

    /// The message each attempt sends.
    pub fn message(&self) -> (r: &Message)
        ensures
            *r == self.message_spec(),
    {
        &self.message
    }

    /// The escalation cadence, in milliseconds.
    pub fn cadence_ms(&self) -> (r: u64)
        ensures
            r == self.cadence_spec(),
    {
        self.cadence_ms
    }

    /// Whether the escalation timer is running.
    pub fn timer_armed(&self) -> (r: bool)
        ensures
            r == self.armed(),
    {
        self.timer_armed
    }
}

} // verus!
