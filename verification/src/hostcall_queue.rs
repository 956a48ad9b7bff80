//! The host's side of the sandbox's calls: every call gets an id, waits in
//! a queue until the dispatcher drains it, and is settled by the one
//! completion that bears its id.

use crate::extension_dispatcher::{
    HostcallKind, HostcallKindV, HostcallOutcome, HostcallOutcomeV, HostcallRequest,
    HostcallRequestV,
};
use crate::json::{Json, JsonV};
use crate::text::{chars_of, decimal, lemma_decimal_injective, push_decimal, str_matches};
use std::collections::VecDeque;
use vstd::prelude::*;

verus! {

/// The id of the call with the given number.
pub open spec fn call_id_text(number: nat) -> Seq<char> {
    "call-"@ + decimal(number)
}

/// Calls with different numbers have different ids.
pub proof fn lemma_call_ids_differ(a: nat, b: nat)
    requires
        call_id_text(a) == call_id_text(b),
    ensures
        a == b,
{
    let p = "call-"@;
    assert(call_id_text(a).skip(p.len() as int) =~= decimal(a));
    assert(call_id_text(b).skip(p.len() as int) =~= decimal(b));
    lemma_decimal_injective(a, b);
}

/// How the promise of a call ends.
#[derive(Debug, Clone)]
pub enum Settlement {
    /// The promise resolves with the value.
    Resolved(Json),
    /// The promise rejects with the code and the message.
    Rejected { code: String, message: String },
}

/// [`Settlement`] as plain data.
pub enum SettlementV {
    Resolved(JsonV),
    Rejected { code: Seq<char>, message: Seq<char> },
}

impl View for Settlement {
    type V = SettlementV;

    open spec fn view(&self) -> SettlementV {
        match self {
            Settlement::Resolved(j) => SettlementV::Resolved(j@),
            Settlement::Rejected { code, message } => SettlementV::Rejected {
                code: code@,
                message: message@,
            },
        }
    }
}

/// How an outcome settles a promise: success resolves, an error rejects.
pub open spec fn settlement_of(outcome: HostcallOutcomeV) -> SettlementV {
    match outcome {
        HostcallOutcomeV::Success(j) => SettlementV::Resolved(j),
        HostcallOutcomeV::Error { code, message } => SettlementV::Rejected { code, message },
    }
}

/// The calls of a sandbox that the host knows of.
#[derive(Debug)]
pub struct HostcallQueue {
    requests: VecDeque<HostcallRequest>,
    waiting: Vec<u64>,
    next_call: u64,
}

/// [`HostcallQueue`] as plain data.
pub struct HostcallQueueV {
    /// The requests that nobody has drained yet, oldest first.
    pub requests: Seq<HostcallRequestV>,
    /// The numbers of the calls whose promise is pending, oldest first.
    pub waiting: Seq<nat>,
    /// The number of the next call.
    pub next_call: nat,
}

impl HostcallQueueV {
    /// What holds of every queue: each pending call was made, and none is
    /// pending twice.
    pub open spec fn wf(self) -> bool {
        &&& forall|i: int| 0 <= i < self.waiting.len() ==> (#[trigger] self.waiting[i]) < self.next_call
        &&& forall|i: int, j: int|
            0 <= i < j < self.waiting.len() ==> (#[trigger] self.waiting[i]) != (
            #[trigger] self.waiting[j])
    }

    /// Whether the call with the given id waits for its completion.
    pub open spec fn is_waiting(self, call_id: Seq<char>) -> bool {
        exists|i: int| 0 <= i < self.waiting.len() && call_id_text(#[trigger] self.waiting[i]) == call_id
    }

    /// The queue after a call is made.
    pub open spec fn called(self, kind: HostcallKindV, payload: JsonV) -> HostcallQueueV {
        HostcallQueueV {
            requests: self.requests.push(
                HostcallRequestV { call_id: call_id_text(self.next_call), kind, payload },
            ),
            waiting: self.waiting.push(self.next_call),
            next_call: self.next_call + 1,
        }
    }

    /// The position of the pending call with the given id among the first
    /// `limit`.
    pub open spec fn waiting_at(self, call_id: Seq<char>, limit: int) -> Option<int>
        decreases limit,
    {
        if limit <= 0 || limit > self.waiting.len() {
            None
        } else {
            match self.waiting_at(call_id, limit - 1) {
                Some(i) => Some(i),
                None => if call_id_text(self.waiting[limit - 1]) == call_id {
                    Some(limit - 1)
                } else {
                    None
                },
            }
        }
    }

    /// `waiting_at` finds the pending call with the id, if there is one.
    pub proof fn lemma_waiting_at(self, call_id: Seq<char>, limit: int)
        requires
            limit <= self.waiting.len(),
        ensures
            match self.waiting_at(call_id, limit) {
                Some(i) => 0 <= i < limit && call_id_text(self.waiting[i]) == call_id,
                None => forall|j: int|
                    0 <= j < limit ==> call_id_text(#[trigger] self.waiting[j]) != call_id,
            },
        decreases limit,
    {
        if limit > 0 {
            self.lemma_waiting_at(call_id, limit - 1);
        }
    }

    /// The queue after the completion of the call with the given id: the
    /// call waits no longer. A completion for a call that does not wait
    /// changes nothing.
    pub open spec fn completed(self, call_id: Seq<char>) -> HostcallQueueV {
        match self.waiting_at(call_id, self.waiting.len() as int) {
            Some(i) => HostcallQueueV { waiting: self.waiting.remove(i), ..self },
            None => self,
        }
    }

    /// A call that is made waits for its completion, under an id that no
    /// other pending call has.
    pub proof fn lemma_called(self, kind: HostcallKindV, payload: JsonV)
        requires
            self.wf(),
        ensures
            self.called(kind, payload).wf(),
            !self.is_waiting(call_id_text(self.next_call)),
            self.called(kind, payload).is_waiting(call_id_text(self.next_call)),
    {
        let after = self.called(kind, payload);
        if self.is_waiting(call_id_text(self.next_call)) {
            let i = choose|i: int|
                0 <= i < self.waiting.len() && call_id_text(#[trigger] self.waiting[i])
                    == call_id_text(self.next_call);
            lemma_call_ids_differ(self.waiting[i], self.next_call);
        }
        assert(after.waiting[self.waiting.len() as int] == self.next_call);
        assert forall|i: int| 0 <= i < after.waiting.len() implies (#[trigger] after.waiting[i])
            < after.next_call by {
            if i < self.waiting.len() {
                assert(after.waiting[i] == self.waiting[i]);
            }
        }
        assert forall|i: int, j: int| 0 <= i < j < after.waiting.len() implies (
        #[trigger] after.waiting[i]) != (#[trigger] after.waiting[j]) by {
            assert(after.waiting[i] == self.waiting[i]);
            if j < self.waiting.len() {
                assert(after.waiting[j] == self.waiting[j]);
            }
        }
    }

    /// Every call is settled exactly once: after its completion a call
    /// waits no longer, so that a second completion under its id settles
    /// nothing; and the other calls wait as before.
    pub proof fn lemma_completed_once(self, call_id: Seq<char>)
        requires
            self.wf(),
        ensures
            self.completed(call_id).wf(),
            !self.completed(call_id).is_waiting(call_id),
            self.completed(call_id).completed(call_id) == self.completed(call_id),
            forall|other: Seq<char>|
                other != call_id ==> (#[trigger] self.completed(call_id).is_waiting(other)
                    <==> self.is_waiting(other)),
    {
        let n = self.waiting.len() as int;
        self.lemma_waiting_at(call_id, n);
        let after = self.completed(call_id);
        match self.waiting_at(call_id, n) {
            Some(at) => {
                assert forall|i: int| 0 <= i < after.waiting.len() implies (
                #[trigger] after.waiting[i]) < after.next_call by {
                    if i < at {
                        assert(after.waiting[i] == self.waiting[i]);
                    } else {
                        assert(after.waiting[i] == self.waiting[i + 1]);
                    }
                }
                assert forall|i: int, j: int| 0 <= i < j < after.waiting.len() implies (
                #[trigger] after.waiting[i]) != (#[trigger] after.waiting[j]) by {
                    let x = if i < at {
                        i
                    } else {
                        i + 1
                    };
                    let y = if j < at {
                        j
                    } else {
                        j + 1
                    };
                    assert(after.waiting[i] == self.waiting[x]);
                    assert(after.waiting[j] == self.waiting[y]);
                }
                assert forall|i: int| 0 <= i < after.waiting.len() implies call_id_text(
                    #[trigger] after.waiting[i],
                ) != call_id by {
                    let x = if i < at {
                        i
                    } else {
                        i + 1
                    };
                    assert(after.waiting[i] == self.waiting[x]);
                    if call_id_text(self.waiting[x]) == call_id {
                        lemma_call_ids_differ(self.waiting[x], self.waiting[at]);
                    }
                }
                after.lemma_waiting_at(call_id, after.waiting.len() as int);
                assert forall|other: Seq<char>| other != call_id implies (
                #[trigger] after.is_waiting(other) <==> self.is_waiting(other)) by {
                    if after.is_waiting(other) {
                        let i = choose|i: int|
                            0 <= i < after.waiting.len() && call_id_text(
                                #[trigger] after.waiting[i],
                            ) == other;
                        let x = if i < at {
                            i
                        } else {
                            i + 1
                        };
                        assert(after.waiting[i] == self.waiting[x]);
                    }
                    if self.is_waiting(other) {
                        let x = choose|x: int|
                            0 <= x < self.waiting.len() && call_id_text(#[trigger] self.waiting[x])
                                == other;
                        assert(x != at);
                        let i = if x < at {
                            x
                        } else {
                            x - 1
                        };
                        assert(after.waiting[i] == self.waiting[x]);
                    }
                }
            },
            None => {
                if self.is_waiting(call_id) {
                    let i = choose|i: int|
                        0 <= i < self.waiting.len() && call_id_text(#[trigger] self.waiting[i])
                            == call_id;
                    assert(call_id_text(self.waiting[i]) != call_id);
                }
            },
        }
    }
}

impl View for HostcallQueue {
    type V = HostcallQueueV;

    closed spec fn view(&self) -> HostcallQueueV {
        HostcallQueueV {
            requests: self.requests@.map_values(|r: HostcallRequest| r@),
            waiting: self.waiting@.map_values(|n: u64| n as nat),
            next_call: self.next_call as nat,
        }
    }
}

/// The id of the call with the given number.
pub fn call_id(number: u64) -> (r: String)
    ensures
        r@ == call_id_text(number as nat),
{
    let mut out = String::from_str("call-");
    push_decimal(&mut out, number);
    out
}

impl HostcallQueue {
    /// A queue without calls.
    pub fn new() -> (r: Self)
        ensures
            r@ == (HostcallQueueV { requests: Seq::empty(), waiting: Seq::empty(), next_call: 0 }),
            r@.wf(),
    {
        let r = HostcallQueue { requests: VecDeque::new(), waiting: Vec::new(), next_call: 0 };
        assert(r@.requests =~= Seq::<HostcallRequestV>::empty());
        assert(r@.waiting =~= Seq::<nat>::empty());
        r
    }

    /// Makes a call: it gets the next id, joins the queue and waits for its
    /// completion. Returns the id, or `None`, with nothing changed, once
    /// the ids have run out.
    pub fn call(&mut self, kind: HostcallKind, payload: Json) -> (r: Option<String>)
        requires
            old(self)@.wf(),
        ensures
            final(self)@.wf(),
            match r {
                Some(id) => id@ == call_id_text(old(self)@.next_call) && final(self)@ == old(
                    self,
                )@.called(kind@, payload@),
                None => old(self)@.next_call == u64::MAX && final(self)@ == old(self)@,
            },
    {
        if self.next_call == u64::MAX {
            return None;
        }
        proof {
            old(self)@.lemma_called(kind@, payload@);
        }
        let id = call_id(self.next_call);
        self.requests.push_back(HostcallRequest { call_id: id.clone(), kind, payload });
        self.waiting.push(self.next_call);
        self.next_call = self.next_call + 1;
        proof {
            let want = old(self)@.called(kind@, payload@);
            assert(self@.requests =~= want.requests);
            assert(self@.waiting =~= want.waiting);
        }
        Some(id)
    }

    /// Takes every request that waits to be dispatched, oldest first.
    pub fn drain_hostcall_requests(&mut self) -> (r: VecDeque<HostcallRequest>)
        ensures
            r@.map_values(|q: HostcallRequest| q@) == old(self)@.requests,
            final(self)@ == (HostcallQueueV { requests: Seq::empty(), ..old(self)@ }),
    {
        let mut out: VecDeque<HostcallRequest> = VecDeque::new();
        out.append(&mut self.requests);
        assert(out@ =~= old(self).requests@);
        assert(self@.requests =~= Seq::<HostcallRequestV>::empty());
        out
    }

    /// Whether the call with the given id waits for its completion.
    pub fn is_waiting(&self, call_id: &str) -> (r: bool)
        ensures
            r == self@.is_waiting(call_id@),
    {
        self.position_of(call_id).is_some()
    }

    fn position_of(&self, wanted: &str) -> (r: Option<usize>)
        ensures
            match r {
                Some(i) => self@.waiting_at(wanted@, self@.waiting.len() as int) == Some(i as int)
                    && i < self.waiting@.len(),
                None => self@.waiting_at(wanted@, self@.waiting.len() as int).is_none(),
            },
            r is Some <==> self@.is_waiting(wanted@),
    {
        let w = chars_of(wanted);
        let mut i: usize = 0;
        while i < self.waiting.len()
            invariant
                i <= self.waiting.len(),
                w@ == wanted@,
                self@.waiting_at(wanted@, i as int).is_none(),
            decreases self.waiting.len() - i,
        {
            let id = call_id(self.waiting[i]);
            assert(self@.waiting[i as int] == self.waiting@[i as int] as nat);
            if str_matches(id.as_str(), &w) {
                proof {
                    assert(self@.waiting_at(wanted@, i + 1) == Some(i as int));
                    self@.lemma_waiting_stays(wanted@, i + 1, self@.waiting.len() as int);
                    assert(call_id_text(self@.waiting[i as int]) == wanted@);
                }
                return Some(i);
            }
            i += 1;
        }
        proof {
            self@.lemma_waiting_at(wanted@, self@.waiting.len() as int);
        }
        None
    }

    /// Takes a completion: the call with the given id, if it waits, waits
    /// no longer, and its promise is settled by the outcome. `None` for a
    /// call that does not wait; then nothing changes.
    pub fn complete_hostcall(&mut self, call_id: &str, outcome: HostcallOutcome) -> (r: Option<
        Settlement,
    >)
        requires
            old(self)@.wf(),
        ensures
            final(self)@.wf(),
            final(self)@ == old(self)@.completed(call_id@),
            match r {
                Some(s) => old(self)@.is_waiting(call_id@) && s@ == settlement_of(outcome@),
                None => !old(self)@.is_waiting(call_id@),
            },
            !final(self)@.is_waiting(call_id@),
    {
        proof {
            old(self)@.lemma_completed_once(call_id@);
        }
        match self.position_of(call_id) {
            Some(i) => {
                self.waiting.remove(i);
                assert(self@.waiting =~= old(self)@.waiting.remove(i as int));
                Some(
                    match outcome {
                        HostcallOutcome::Success(j) => Settlement::Resolved(j),
                        HostcallOutcome::Error { code, message } => Settlement::Rejected {
                            code,
                            message,
                        },
                    },
                )
            },
            None => None,
        }
    }
}

impl HostcallQueueV {
    /// Once a pending call is found, it stays the first one.
    pub proof fn lemma_waiting_stays(self, call_id: Seq<char>, found: int, limit: int)
        requires
            self.waiting_at(call_id, found) is Some,
            found <= limit <= self.waiting.len(),
        ensures
            self.waiting_at(call_id, limit) == self.waiting_at(call_id, found),
        decreases limit - found,
    {
        if found < limit {
            self.lemma_waiting_stays(call_id, found, limit - 1);
        }
    }
}

} // verus!
