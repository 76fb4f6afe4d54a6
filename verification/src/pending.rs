//! The plans that wait to be flown, earliest departure first, and the memory
//! of the sessions that were flown last.

use crate::plan::FlightPlan;
use crate::state::State;
use vstd::prelude::*;

verus! {

/// The number of finished sessions that are remembered.
pub const HISTORY_CAPACITY: usize = 10;

/// Each plan departs no later than the plans behind it.
pub open spec fn sorted(plans: Seq<FlightPlan>) -> bool {
    forall|i: int, j: int|
        0 <= i <= j < plans.len() ==> (#[trigger] plans[i]).origin_timeslot_start <= (
        #[trigger] plans[j]).origin_timeslot_start
}

/// No two plans belong to one session.
pub open spec fn distinct_sessions(plans: Seq<FlightPlan>) -> bool {
    forall|i: int, j: int|
        0 <= i < j < plans.len() ==> (#[trigger] plans[i]).session_id@ != (
        #[trigger] plans[j]).session_id@
}

/// Whether a plan of the session `id` is among `plans`.
pub open spec fn holds_session(plans: Seq<FlightPlan>, id: Seq<char>) -> bool {
    exists|i: int| 0 <= i < plans.len() && (#[trigger] plans[i]).session_id@ == id
}

/// Where the plan of the session `id` stands among `plans`.
pub open spec fn index_of_session(plans: Seq<FlightPlan>, id: Seq<char>) -> int
    recommends
        holds_session(plans, id),
{
    choose|i: int| 0 <= i < plans.len() && (#[trigger] plans[i]).session_id@ == id
}

/// `plans` without the plan of the session `id`.
pub open spec fn without_session(plans: Seq<FlightPlan>, id: Seq<char>) -> Seq<FlightPlan> {
    if holds_session(plans, id) {
        plans.remove(index_of_session(plans, id))
    } else {
        plans
    }
}

/// The place of a plan that departs at `start` among `plans`: behind every
/// plan that departs no later, so behind those that depart at the same time
/// and came before it.
pub open spec fn slot(plans: Seq<FlightPlan>, start: u64) -> int
    decreases plans.len(),
{
    if plans.len() == 0 || plans.last().origin_timeslot_start <= start {
        plans.len() as int
    } else {
        slot(plans.drop_last(), start)
    }
}

/// `plans` with `plan` in its place.
pub open spec fn enqueued(plans: Seq<FlightPlan>, plan: FlightPlan) -> Seq<FlightPlan> {
    plans.insert(slot(plans, plan.origin_timeslot_start), plan)
}

/// The remembered sessions once `id` has joined them: the newest
/// `HISTORY_CAPACITY` of them, oldest first.
pub open spec fn remembered(history: Seq<Seq<char>>, id: Seq<char>) -> Seq<Seq<char>> {
    let all = history.push(id);
    if all.len() > HISTORY_CAPACITY {
        all.subrange(all.len() - HISTORY_CAPACITY, all.len() as int)
    } else {
        all
    }
}

/// What each string of a sequence holds.
pub open spec fn views(strings: Seq<String>) -> Seq<Seq<char>> {
    Seq::new(strings.len(), |i: int| strings[i]@)
}

/// Whether an order from the order service is passed over: it belongs to the
/// session that is being flown, or to one that was flown lately.
pub open spec fn ignored(
    current: Option<FlightPlan>,
    history: Seq<Seq<char>>,
    order: FlightPlan,
) -> bool {
    ||| current matches Some(plan) && plan.session_id@ == order.session_id@
    ||| history.contains(order.session_id@)
}

/// The waiting plans once an order has come in. An order that is not passed
/// over takes the place of the plan of its session, if one was waiting, and
/// stands where its departure puts it.
pub open spec fn ingested(
    plans: Seq<FlightPlan>,
    current: Option<FlightPlan>,
    history: Seq<Seq<char>>,
    order: FlightPlan,
) -> Seq<FlightPlan> {
    if ignored(current, history, order) {
        plans
    } else {
        enqueued(without_session(plans, order.session_id@), order)
    }
}

/// The waiting plans once the orders have come in, one after the other.
pub open spec fn merged(
    plans: Seq<FlightPlan>,
    current: Option<FlightPlan>,
    history: Seq<Seq<char>>,
    orders: Seq<FlightPlan>,
) -> Seq<FlightPlan>
    decreases orders.len(),
{
    if orders.len() == 0 {
        plans
    } else {
        ingested(
            merged(plans, current, history, orders.drop_last()),
            current,
            history,
            orders.last(),
        )
    }
}

/// The flights to acknowledge to the order service: those of the orders that
/// were not passed over, in the order in which they came.
pub open spec fn acknowledged(
    current: Option<FlightPlan>,
    history: Seq<Seq<char>>,
    orders: Seq<FlightPlan>,
) -> Seq<Seq<char>>
    decreases orders.len(),
{
    if orders.len() == 0 {
        Seq::empty()
    } else {
        let before = acknowledged(current, history, orders.drop_last());
        if ignored(current, history, orders.last()) {
            before
        } else {
            before.push(orders.last().flight_uuid@)
        }
    }
}

/// In a sorted sequence the place of a new plan is where the plans that
/// depart later begin.
pub proof fn lemma_slot(plans: Seq<FlightPlan>, start: u64, at: int)
    requires
        sorted(plans),
        0 <= at <= plans.len(),
        forall|i: int| 0 <= i < at ==> (#[trigger] plans[i]).origin_timeslot_start <= start,
        forall|i: int|
            at <= i < plans.len() ==> (#[trigger] plans[i]).origin_timeslot_start > start,
    ensures
        slot(plans, start) == at,
    decreases plans.len(),
{
    if plans.len() == 0 {
    } else if plans.last().origin_timeslot_start <= start {
        if at < plans.len() {
            assert(plans[plans.len() - 1].origin_timeslot_start > start);
        }
    } else {
        let shorter = plans.drop_last();
        assert(at <= shorter.len()) by {
            if at == plans.len() {
                assert(plans[at - 1].origin_timeslot_start <= start);
            }
        }
        assert forall|i: int, j: int| 0 <= i <= j < shorter.len() implies (
        #[trigger] shorter[i]).origin_timeslot_start <= (
        #[trigger] shorter[j]).origin_timeslot_start by {
            assert(shorter[i] == plans[i] && shorter[j] == plans[j]);
        }
        assert forall|i: int| 0 <= i < at implies (
        #[trigger] shorter[i]).origin_timeslot_start <= start by {
            assert(shorter[i] == plans[i]);
        }
        assert forall|i: int| at <= i < shorter.len() implies (
        #[trigger] shorter[i]).origin_timeslot_start > start by {
            assert(shorter[i] == plans[i]);
        }
        lemma_slot(shorter, start, at);
    }
}

/// The place of a new plan is a place of the sequence, the plans before it
/// depart no later, and the plans from it on depart later.
pub proof fn lemma_slot_divides(plans: Seq<FlightPlan>, start: u64)
    requires
        sorted(plans),
    ensures
        0 <= slot(plans, start) <= plans.len(),
        forall|i: int|
            0 <= i < slot(plans, start) ==> (#[trigger] plans[i]).origin_timeslot_start <= start,
        forall|i: int|
            slot(plans, start) <= i < plans.len() ==> (#[trigger] plans[i]).origin_timeslot_start
                > start,
    decreases plans.len(),
{
    if plans.len() == 0 {
    } else if plans.last().origin_timeslot_start <= start {
        assert forall|i: int| 0 <= i < plans.len() implies (
        #[trigger] plans[i]).origin_timeslot_start <= start by {
            assert(plans[i].origin_timeslot_start <= plans[plans.len() - 1].origin_timeslot_start);
        }
    } else {
        let shorter = plans.drop_last();
        assert forall|i: int, j: int| 0 <= i <= j < shorter.len() implies (
        #[trigger] shorter[i]).origin_timeslot_start <= (
        #[trigger] shorter[j]).origin_timeslot_start by {
            assert(shorter[i] == plans[i] && shorter[j] == plans[j]);
        }
        lemma_slot_divides(shorter, start);
        assert forall|i: int| 0 <= i < slot(plans, start) implies (
        #[trigger] plans[i]).origin_timeslot_start <= start by {
            assert(shorter[i] == plans[i]);
        }
        assert forall|i: int| slot(plans, start) <= i < plans.len() implies (
        #[trigger] plans[i]).origin_timeslot_start > start by {
            if i < shorter.len() {
                assert(shorter[i] == plans[i]);
            }
        }
    }
}

/// A plan put in its place leaves the sequence sorted; and if its session
/// was not among the plans, their sessions stay distinct.
pub proof fn lemma_enqueued(plans: Seq<FlightPlan>, plan: FlightPlan)
    requires
        sorted(plans),
    ensures
        sorted(enqueued(plans, plan)),
        enqueued(plans, plan).len() == plans.len() + 1,
        holds_session(enqueued(plans, plan), plan.session_id@),
        distinct_sessions(plans) && !holds_session(plans, plan.session_id@) ==> distinct_sessions(
            enqueued(plans, plan),
        ),
{
    let at = slot(plans, plan.origin_timeslot_start);
    let after = enqueued(plans, plan);
    lemma_slot_divides(plans, plan.origin_timeslot_start);
    assert forall|i: int, j: int| 0 <= i <= j < after.len() implies (
    #[trigger] after[i]).origin_timeslot_start <= (#[trigger] after[j]).origin_timeslot_start by {
        let a = if i < at { i } else { i - 1 };
        let b = if j < at { j } else { j - 1 };
        if i != at {
            assert(after[i] == plans[a]);
        }
        if j != at {
            assert(after[j] == plans[b]);
        }
        if i != at && j != at {
            assert(plans[a].origin_timeslot_start <= plans[b].origin_timeslot_start);
        }
    }
    assert(after[at] == plan);
    if distinct_sessions(plans) && !holds_session(plans, plan.session_id@) {
        assert forall|i: int, j: int| 0 <= i < j < after.len() implies (
        #[trigger] after[i]).session_id@ != (#[trigger] after[j]).session_id@ by {
            let a = if i < at { i } else { i - 1 };
            let b = if j < at { j } else { j - 1 };
            if i != at {
                assert(after[i] == plans[a]);
            }
            if j != at {
                assert(after[j] == plans[b]);
            }
            if i != at && j != at {
                assert(plans[a].session_id@ != plans[b].session_id@);
            }
        }
    }
}

/// A sequence that loses a plan stays sorted and its sessions stay distinct;
/// among distinct sessions the session of the lost plan is then gone.
pub proof fn lemma_removed(plans: Seq<FlightPlan>, at: int)
    requires
        0 <= at < plans.len(),
    ensures
        sorted(plans) ==> sorted(plans.remove(at)),
        distinct_sessions(plans) ==> distinct_sessions(plans.remove(at)),
        distinct_sessions(plans) ==> !holds_session(plans.remove(at), plans[at].session_id@),
        distinct_sessions(plans) ==> without_session(plans, plans[at].session_id@) == plans.remove(
            at,
        ),
{
    let after = plans.remove(at);
    if sorted(plans) {
        assert forall|i: int, j: int| 0 <= i <= j < after.len() implies (
        #[trigger] after[i]).origin_timeslot_start <= (
        #[trigger] after[j]).origin_timeslot_start by {
            let a = if i < at { i } else { i + 1 };
            let b = if j < at { j } else { j + 1 };
            assert(after[i] == plans[a] && after[j] == plans[b]);
        }
    }
    if distinct_sessions(plans) {
        assert forall|i: int, j: int| 0 <= i < j < after.len() implies (
        #[trigger] after[i]).session_id@ != (#[trigger] after[j]).session_id@ by {
            let a = if i < at { i } else { i + 1 };
            let b = if j < at { j } else { j + 1 };
            assert(after[i] == plans[a] && after[j] == plans[b]);
        }
        assert forall|i: int| 0 <= i < after.len() implies (#[trigger] after[i]).session_id@
            != plans[at].session_id@ by {
            let a = if i < at { i } else { i + 1 };
            assert(after[i] == plans[a]);
            if a < at {
                assert(plans[a].session_id@ != plans[at].session_id@);
            } else {
                assert(plans[at].session_id@ != plans[a].session_id@);
            }
        }
        assert(holds_session(plans, plans[at].session_id@));
        let found = index_of_session(plans, plans[at].session_id@);
        if found < at {
            assert(plans[found].session_id@ != plans[at].session_id@);
        } else if found > at {
            assert(plans[at].session_id@ != plans[found].session_id@);
        }
    }
}

/// The front of a sorted sequence departs no later than any plan in it.
pub proof fn lemma_front_is_earliest(plans: Seq<FlightPlan>, i: int)
    requires
        sorted(plans),
        0 <= i < plans.len(),
    ensures
        plans[0].origin_timeslot_start <= plans[i].origin_timeslot_start,
{
}

/// Two plans that depart at different times come to stand in the same order,
/// the earlier one in front, whichever of them is enqueued first.
pub proof fn lemma_order_of_arrival_is_immaterial(
    plans: Seq<FlightPlan>,
    a: FlightPlan,
    b: FlightPlan,
)
    requires
        sorted(plans),
        a.origin_timeslot_start != b.origin_timeslot_start,
    ensures
        enqueued(enqueued(plans, a), b) == enqueued(enqueued(plans, b), a),
{
    if a.origin_timeslot_start < b.origin_timeslot_start {
        lemma_two_slots(plans, a, b);
    } else {
        lemma_two_slots(plans, b, a);
    }
}

/// Of two plans, `a` departing before `b`: enqueued in either order, `a`
/// stands at its place and `b` one behind its own.
proof fn lemma_two_slots(plans: Seq<FlightPlan>, a: FlightPlan, b: FlightPlan)
    requires
        sorted(plans),
        a.origin_timeslot_start < b.origin_timeslot_start,
    ensures
        enqueued(enqueued(plans, a), b) == enqueued(enqueued(plans, b), a),
{
    let sa = slot(plans, a.origin_timeslot_start);
    let sb = slot(plans, b.origin_timeslot_start);
    lemma_slot_divides(plans, a.origin_timeslot_start);
    lemma_slot_divides(plans, b.origin_timeslot_start);
    lemma_enqueued(plans, a);
    lemma_enqueued(plans, b);
    let with_a = enqueued(plans, a);
    let with_b = enqueued(plans, b);
    assert(sa <= sb) by {
        if sb < sa {
            assert(plans[sb].origin_timeslot_start <= a.origin_timeslot_start);
            assert(plans[sb].origin_timeslot_start > b.origin_timeslot_start);
        }
    }
    // `b` goes into `with_a` one place behind its place in `plans`.
    assert forall|i: int| 0 <= i < sb + 1 implies (#[trigger] with_a[i]).origin_timeslot_start
        <= b.origin_timeslot_start by {
        if i < sa {
            assert(with_a[i] == plans[i]);
        } else if i == sa {
            assert(with_a[i] == a);
        } else {
            assert(with_a[i] == plans[i - 1]);
        }
    }
    assert forall|i: int| sb + 1 <= i < with_a.len() implies (
    #[trigger] with_a[i]).origin_timeslot_start > b.origin_timeslot_start by {
        assert(with_a[i] == plans[i - 1]);
    }
    lemma_slot(with_a, b.origin_timeslot_start, sb + 1);
    // `a` goes into `with_b` at its place in `plans`.
    assert forall|i: int| 0 <= i < sa implies (#[trigger] with_b[i]).origin_timeslot_start
        <= a.origin_timeslot_start by {
        assert(with_b[i] == plans[i]);
    }
    assert forall|i: int| sa <= i < with_b.len() implies (
    #[trigger] with_b[i]).origin_timeslot_start > a.origin_timeslot_start by {
        if i < sb {
            assert(with_b[i] == plans[i]);
        } else if i == sb {
            assert(with_b[i] == b);
        } else {
            assert(with_b[i] == plans[i - 1]);
        }
    }
    lemma_slot(with_b, a.origin_timeslot_start, sa);
    lemma_inserts_commute(plans, sa, a, sb, b);
}

/// Two insertions into a sequence come to the same, whichever is made first,
/// where the later place is counted one further once the earlier is filled.
proof fn lemma_inserts_commute(
    plans: Seq<FlightPlan>,
    sa: int,
    a: FlightPlan,
    sb: int,
    b: FlightPlan,
)
    requires
        0 <= sa <= sb <= plans.len(),
    ensures
        plans.insert(sa, a).insert(sb + 1, b) == plans.insert(sb, b).insert(sa, a),
{
    assert(plans.insert(sa, a).insert(sb + 1, b) =~= plans.insert(sb, b).insert(sa, a));
}

/// The plans that wait, and the sessions that were flown last.
#[derive(Debug, Clone)]
pub struct PendingOrders {
    plans: Vec<FlightPlan>,
    old_sessions: Vec<String>,
}

impl PendingOrders {
    /// The waiting plans, the next to fly in front.
    pub closed spec fn plans(self) -> Seq<FlightPlan> {
        self.plans@
    }

    /// The sessions that were flown last, oldest first.
    pub closed spec fn history(self) -> Seq<Seq<char>> {
        views(self.old_sessions@)
    }

    /// The plans stand in the order of their departure, no session has two
    /// plans waiting, and no more sessions are remembered than the history
    /// has room for.
    pub open spec fn wf(self) -> bool {
        &&& sorted(self.plans())
        &&& distinct_sessions(self.plans())
        &&& self.history().len() <= HISTORY_CAPACITY
    }

    /// No plan waits and no session is remembered.
    pub fn new() -> (pending: PendingOrders)
        ensures
            pending.wf(),
            pending.plans() == Seq::<FlightPlan>::empty(),
            pending.history() == Seq::<Seq<char>>::empty(),
    {
        let pending = PendingOrders { plans: Vec::new(), old_sessions: Vec::new() };
        assert(pending.history() =~= Seq::<Seq<char>>::empty());
        pending
    }

    /// The number of plans that wait.
    pub fn len(&self) -> (n: usize)
        ensures
            n == self.plans().len(),
    {
        self.plans.len()
    }

    /// The number of sessions that are remembered.
    pub fn history_len(&self) -> (n: usize)
        ensures
            n == self.history().len(),
    {
        self.old_sessions.len()
    }

    /// The plan that departs first, if any waits. Among plans that depart at
    /// the same time it is the one that came in first.
    pub fn peek(&self) -> (front: Option<&FlightPlan>)
        ensures
            self.plans().len() == 0 ==> front is None,
            self.plans().len() > 0 ==> front == Some(&self.plans()[0]),
            self.wf() ==> forall|i: int|
                0 <= i < self.plans().len() ==> self.plans()[0].origin_timeslot_start <= (
                #[trigger] self.plans()[i]).origin_timeslot_start,
    {
        if self.plans.len() == 0 {
            None
        } else {
            Some(&self.plans[0])
        }
    }

    /// Takes the plan that departs first out of the waiting plans.
    pub fn pop(&mut self) -> (front: Option<FlightPlan>)
        requires
            old(self).wf(),
        ensures
            final(self).wf(),
            final(self).history() == old(self).history(),
            old(self).plans().len() == 0 ==> front is None,
            old(self).plans().len() == 0 ==> final(self).plans() == old(self).plans(),
            old(self).plans().len() > 0 ==> front == Some(old(self).plans()[0]),
            old(self).plans().len() > 0 ==> final(self).plans() == old(self).plans().drop_first(),
    {
        if self.plans.len() == 0 {
            None
        } else {
            proof {
                lemma_removed(self.plans@, 0);
            }
            let front = self.plans.remove(0);
            assert(self.plans@ =~= old(self).plans@.drop_first());
            Some(front)
        }
    }

    /// Where the plan of a session waits, if one does.
    pub fn find_session(&self, session_id: &String) -> (found: Option<usize>)
        ensures
            found matches Some(i) ==> i < self.plans().len() && self.plans()[i as int].session_id@
                == session_id@,
            found is None ==> !holds_session(self.plans(), session_id@),
    {
        let n: usize = self.plans.len();
        let mut i: usize = 0;
        while i < n
            invariant
                n == self.plans@.len(),
                i <= n,
                forall|k: int| 0 <= k < i ==> (#[trigger] self.plans@[k]).session_id@ != session_id@,
            decreases n - i,
        {
            if self.plans[i].session_id == *session_id {
                return Some(i);
            }
            i = i + 1;
        }
        None
    }

    /// Whether a plan of the session waits.
    pub fn is_pending(&self, session_id: &String) -> (waits: bool)
        ensures
            waits == holds_session(self.plans(), session_id@),
    {
        self.find_session(session_id).is_some()
    }

    /// Whether the session was flown lately.
    pub fn is_recent(&self, session_id: &String) -> (flown: bool)
        ensures
            flown == self.history().contains(session_id@),
    {
        let n: usize = self.old_sessions.len();
        let mut i: usize = 0;
        while i < n
            invariant
                n == self.old_sessions@.len(),
                i <= n,
                forall|k: int| 0 <= k < i ==> (#[trigger] self.history()[k]) != session_id@,
            decreases n - i,
        {
            if self.old_sessions[i] == *session_id {
                assert(self.history()[i as int] == session_id@);
                return true;
            }
            i = i + 1;
        }
        false
    }

    /// Remembers a session as flown. Where the history is full, the oldest
    /// session is forgotten for it.
    pub fn remember(&mut self, session_id: String)
        ensures
            final(self).history() == remembered(old(self).history(), session_id@),
            final(self).history().len() <= old(self).history().len() + 1,
            final(self).history().len() <= HISTORY_CAPACITY,
            final(self).plans() == old(self).plans(),
            old(self).wf() ==> final(self).wf(),
    {
        let ghost all = old(self).history().push(session_id@);
        self.old_sessions.push(session_id);
        assert(self.history() =~= all);
        while self.old_sessions.len() > HISTORY_CAPACITY
            invariant
                self.plans == old(self).plans,
                self.history().len() <= all.len(),
                self.history().len() >= HISTORY_CAPACITY || self.history().len() == all.len(),
                self.history() == all.subrange(all.len() - self.history().len(), all.len() as int),
            decreases self.old_sessions.len(),
        {
            let ghost before = self.history();
            self.old_sessions.remove(0);
            assert(self.history() =~= before.drop_first());
            assert(self.history() =~= all.subrange(
                all.len() - self.history().len(),
                all.len() as int,
            ));
        }
        assert(all.subrange(0, all.len() as int) =~= all);
    }

    /// Puts a plan among the waiting plans, where its departure puts it:
    /// behind the plans that depart no later.
    pub fn insert(&mut self, plan: FlightPlan)
        requires
            old(self).wf(),
            !holds_session(old(self).plans(), plan.session_id@),
        ensures
            final(self).wf(),
            final(self).plans() == enqueued(old(self).plans(), plan),
            final(self).history() == old(self).history(),
    {
        let n: usize = self.plans.len();
        let start: u64 = plan.origin_timeslot_start;
        let mut at: usize = 0;
        while at < n && self.plans[at].origin_timeslot_start <= start
            invariant
                n == self.plans@.len(),
                at <= n,
                self.plans == old(self).plans,
                forall|k: int| 0 <= k < at ==> (#[trigger] self.plans@[k]).origin_timeslot_start <= start,
            decreases n - at,
        {
            at = at + 1;
        }
        proof {
            assert forall|k: int| at <= k < n implies (
            #[trigger] self.plans@[k]).origin_timeslot_start > start by {
                assert(self.plans@[at as int].origin_timeslot_start
                    <= self.plans@[k].origin_timeslot_start);
            }
            lemma_slot(self.plans@, start, at as int);
            lemma_enqueued(self.plans@, plan);
        }
        self.plans.insert(at, plan);
    }

    /// Takes in one order from the order service, and says which flight is to
    /// be acknowledged for it.
    ///
    /// An order of the session being flown, or of one flown lately, is passed
    /// over: nothing changes and nothing is acknowledged. Any other order is
    /// acknowledged; it takes the place of the plan of its session, if one
    /// waits, so that no session ever has two plans waiting.
    pub fn ingest(&mut self, state: &State, order: FlightPlan) -> (ack: Option<String>)
        requires
            old(self).wf(),
        ensures
            final(self).wf(),
            final(self).history() == old(self).history(),
            final(self).plans() == ingested(
                old(self).plans(),
                state.current_plan,
                old(self).history(),
                order,
            ),
            ack is None <==> ignored(state.current_plan, old(self).history(), order),
            ack matches Some(flight) ==> flight@ == order.flight_uuid@,
    {
        let flown: bool = match &state.current_plan {
            Some(plan) => plan.session_id == order.session_id,
            None => false,
        };
        if flown || self.is_recent(&order.session_id) {
            return None;
        }
        match self.find_session(&order.session_id) {
            Some(at) => {
                proof {
                    lemma_removed(self.plans@, at as int);
                }
                self.plans.remove(at);
            },
            None => {},
        }
        let flight: String = order.flight_uuid.clone();
        self.insert(order);
        Some(flight)
    }

    /// Takes in the orders that the order service sent, one after the other,
    /// and lists the flights to acknowledge.
    pub fn merge(&mut self, state: &State, orders: Vec<FlightPlan>) -> (acks: Vec<String>)
        requires
            old(self).wf(),
        ensures
            final(self).wf(),
            final(self).history() == old(self).history(),
            final(self).plans() == merged(
                old(self).plans(),
                state.current_plan,
                old(self).history(),
                orders@,
            ),
            views(acks@) == acknowledged(state.current_plan, old(self).history(), orders@),
    {
        let mut rest: Vec<FlightPlan> = orders;
        let mut acks: Vec<String> = Vec::new();
        let ghost mut done: int = 0;
        assert(views(acks@) =~= Seq::<Seq<char>>::empty());
        while rest.len() > 0
            invariant
                self.wf(),
                self.history() == old(self).history(),
                0 <= done <= orders@.len(),
                rest@ == orders@.skip(done),
                self.plans() == merged(
                    old(self).plans(),
                    state.current_plan,
                    old(self).history(),
                    orders@.take(done),
                ),
                views(acks@) == acknowledged(
                    state.current_plan,
                    old(self).history(),
                    orders@.take(done),
                ),
            decreases rest.len(),
        {
            let order: FlightPlan = rest.remove(0);
            proof {
                assert(order == orders@[done]);
                assert(orders@.take(done + 1).drop_last() == orders@.take(done));
                assert(orders@.take(done + 1).last() == order);
                assert(rest@ =~= orders@.skip(done + 1));
            }
            let ghost before = views(acks@);
            match self.ingest(state, order) {
                Some(flight) => {
                    acks.push(flight);
                    assert(views(acks@) =~= before.push(flight@));
                },
                None => {},
            }
            proof {
                done = done + 1;
            }
        }
        assert(orders@.take(done) == orders@);
        acks
    }
}

} // verus!
