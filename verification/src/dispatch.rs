//! The dispatcher: which fetch starts when, and where its outcome goes.
//!
//! A `Dispatcher` is made with all the addresses of a run and a limit. It
//! hands the addresses out in their order, never more at a time than the limit
//! allows, takes the outcome of each fetch back in whatever order the fetches
//! end, and keeps one entry for each.
//!
//! The caller runs the fetches. It asks `next_action` what is due, starts a
//! fetch when told to, waits for one of those in flight when told to wait, and
//! reports each end with `complete`.

use vstd::prelude::*;
use vstd::seq_lib::*;
use vstd::set_lib::*;
use crate::links::link_destinations;
use crate::outcome::{EntryModel, FetchOutcome, OutcomeModel, ResultEntry};

verus! {

/// How many fetches a run has in flight at most.
pub const MAX_IN_FLIGHT: usize = 32;

/// What the caller of a dispatcher is to do next.
#[derive(Debug, PartialEq, Eq)]
pub enum Action {
    /// Start a fetch of `address`, the address at the position `index`.
    Start { index: usize, address: String },
    /// Wait until a fetch in flight ends, and report it.
    Wait,
    /// Nothing: every address has its entry.
    Finished,
}

/// An `Action` as a mathematical value.
pub enum ActionModel {
    Start { index: int, address: Seq<char> },
    Wait,
    Finished,
}

impl View for Action {
    type V = ActionModel;

    open spec fn view(&self) -> ActionModel {
        match self {
            Action::Start { index, address } => ActionModel::Start {
                index: *index as int,
                address: address@,
            },
            Action::Wait => ActionModel::Wait,
            Action::Finished => ActionModel::Finished,
        }
    }
}

/// The state of one run.
pub struct Dispatcher {
    addresses: Vec<String>,
    limit: usize,
    admitted: usize,
    settled: Vec<bool>,
    entries: Vec<ResultEntry>,
    order: Ghost<Seq<int>>,
}

impl Dispatcher {
    /// The addresses of the run, in the order in which they are handed out.
    pub closed spec fn addresses(&self) -> Seq<Seq<char>> {
        self.addresses.deep_view()
    }

    /// How many fetches may be in flight at a time.
    pub closed spec fn limit(&self) -> nat {
        self.limit as nat
    }

    /// How many addresses were handed out: those at the positions below it.
    pub closed spec fn admitted(&self) -> nat {
        self.admitted as nat
    }

    /// The entries collected so far, in the order in which the fetches ended.
    pub closed spec fn entries(&self) -> Seq<EntryModel> {
        self.entries.deep_view()
    }

    /// For each entry, the position of its address in `addresses`.
    pub closed spec fn order(&self) -> Seq<int> {
        self.order@
    }

    /// Whether the flags that the dispatcher keeps agree with `order`.
    pub closed spec fn flags_agree(&self) -> bool {
        &&& self.settled.len() == self.addresses.len()
        &&& forall|i: int|
            0 <= i < self.settled.len() ==> self.settled[i] == self.order@.contains(i)
    }

    /// Whether the fetch of the address at `index` was started and has not
    /// ended.
    pub open spec fn is_in_flight(&self, index: int) -> bool {
        0 <= index < self.admitted() && !self.order().contains(index)
    }

    /// How many fetches are in flight.
    pub open spec fn in_flight_count(&self) -> int {
        self.admitted() - self.entries().len()
    }

    /// Whether another fetch may start: an address is left and the limit is
    /// not reached.
    pub open spec fn may_start(&self) -> bool {
        self.admitted() < self.addresses().len() && self.in_flight_count() < self.limit()
    }

    /// Whether every address has its entry.
    pub open spec fn is_finished(&self) -> bool {
        self.entries().len() == self.addresses().len()
    }

    /// What is due: the start of the next address where one may start, else
    /// a wait where fetches are in flight, else nothing.
    pub open spec fn action_due(&self) -> ActionModel {
        if self.may_start() {
            ActionModel::Start {
                index: self.admitted() as int,
                address: self.addresses()[self.admitted() as int],
            }
        } else if self.in_flight_count() > 0 {
            ActionModel::Wait
        } else {
            ActionModel::Finished
        }
    }

    /// Whether an entry belongs to the address at `index` and carries it.
    pub open spec fn has_entry(&self, index: int) -> bool {
        exists|k: int|
            0 <= k < self.entries().len() && #[trigger] self.order()[k] == index
                && self.entries()[k].address == self.addresses()[index]
    }

    /// The addresses of the entries collected so far, in the order of the
    /// entries.
    pub open spec fn entry_addresses(&self) -> Seq<Seq<char>> {
        self.entries().map_values(|entry: EntryModel| entry.address)
    }

    /// The positions of the addresses whose fetch is in flight.
    pub open spec fn in_flight_set(&self) -> Set<int> {
        Set::new(|index: int| self.is_in_flight(index))
    }

    /// Whether `next` stands for the same run in the same state.
    pub open spec fn unchanged(&self, next: Dispatcher) -> bool {
        &&& next.addresses() == self.addresses()
        &&& next.limit() == self.limit()
        &&& next.admitted() == self.admitted()
        &&& next.entries() == self.entries()
        &&& next.order() == self.order()
    }

    /// Whether `next` is this dispatcher after the next address was handed
    /// out.
    pub open spec fn started(&self, next: Dispatcher) -> bool {
        &&& next.addresses() == self.addresses()
        &&& next.limit() == self.limit()
        &&& next.admitted() == self.admitted() + 1
        &&& next.entries() == self.entries()
        &&& next.order() == self.order()
    }

    /// The entry that the address at `index` gets where its fetch ends in
    /// `outcome`.
    pub open spec fn entry_for(&self, index: int, outcome: OutcomeModel) -> EntryModel {
        EntryModel { address: self.addresses()[index], outcome }
    }

    /// Whether `next` is this dispatcher after the fetch of the address at
    /// `index` ended in `outcome`: its entry stands behind those collected
    /// before.
    pub open spec fn completed(&self, index: int, outcome: OutcomeModel, next: Dispatcher) -> bool {
        &&& next.addresses() == self.addresses()
        &&& next.limit() == self.limit()
        &&& next.admitted() == self.admitted()
        &&& next.entries() == self.entries().push(self.entry_for(index, outcome))
        &&& next.order() == self.order().push(index)
    }

    /// The invariant of a dispatcher. The limit is at least one; only
    /// addresses of the run were handed out; every entry belongs to one
    /// address that was handed out and carries it, and no two entries belong
    /// to the same; and no more fetches are in flight than the limit allows.
    pub open spec fn wf(&self) -> bool {
        &&& self.flags_agree()
        &&& self.limit() >= 1
        &&& self.admitted() <= self.addresses().len()
        &&& self.order().len() == self.entries().len()
        &&& self.order().no_duplicates()
        &&& forall|k: int|
            0 <= k < self.order().len() ==> 0 <= #[trigger] self.order()[k] < self.admitted()
        &&& forall|k: int|
            0 <= k < self.entries().len() ==> (#[trigger] self.entries()[k]).address
                == self.addresses()[self.order()[k]]
        &&& 0 <= self.in_flight_count() <= self.limit()
    }

    /// A dispatcher for `addresses` that keeps at most `limit` fetches in
    /// flight. Nothing is handed out yet.
    pub fn new(addresses: Vec<String>, limit: usize) -> (dispatcher: Dispatcher)
        requires
            limit >= 1,
        ensures
            dispatcher.wf(),
            dispatcher.addresses() == addresses.deep_view(),
            dispatcher.limit() == limit,
            dispatcher.admitted() == 0,
            dispatcher.entries() == Seq::<EntryModel>::empty(),
            dispatcher.order() == Seq::<int>::empty(),
    {
        let mut settled: Vec<bool> = Vec::new();
        let mut i: usize = 0;
        while i < addresses.len()
            invariant
                i <= addresses.len(),
                settled.len() == i,
                forall|j: int| 0 <= j < i ==> !settled[j],
            decreases addresses.len() - i,
        {
            settled.push(false);
            i = i + 1;
        }
        Dispatcher {
            addresses,
            limit,
            admitted: 0,
            settled,
            entries: Vec::new(),
            order: Ghost(Seq::empty()),
        }
    }

    /// Says what is due, and counts the address as handed out where it is
    /// the start of a fetch.
    pub fn next_action(&mut self) -> (action: Action)
        requires
            old(self).wf(),
        ensures
            final(self).wf(),
            action@ == old(self).action_due(),
            action@ is Finished <==> old(self).is_finished(),
            old(self).may_start() ==> old(self).started(*final(self)),
            !old(self).may_start() ==> old(self).unchanged(*final(self)),
    {
        let in_flight = self.admitted - self.entries.len();
        if self.admitted < self.addresses.len() && in_flight < self.limit {
            let index = self.admitted;
            let address = self.addresses[index].clone();
            self.admitted = index + 1;
            Action::Start { index, address }
        } else if in_flight > 0 {
            Action::Wait
        } else {
            Action::Finished
        }
    }

    /// Takes the outcome of the fetch of the address at `index`. Where that
    /// fetch is in flight, the entry of the address and the outcome is added
    /// behind those collected before, and the answer is `true`. Where it is
    /// not, nothing changes and the answer is `false`.
    pub fn complete(&mut self, index: usize, outcome: FetchOutcome) -> (accepted: bool)
        requires
            old(self).wf(),
        ensures
            final(self).wf(),
            accepted == old(self).is_in_flight(index as int),
            accepted ==> old(self).completed(index as int, outcome@, *final(self)),
            !accepted ==> old(self).unchanged(*final(self)),
    {
        if index >= self.admitted || self.settled[index] {
            return false;
        }
        proof {
            lemma_room_for_one(self.order@, self.admitted as int, index as int);
        }
        let address = self.addresses[index].clone();
        let ghost entry = EntryModel { address: address@, outcome: outcome@ };
        self.settled.set(index, true);
        self.entries.push(ResultEntry { address, outcome });
        self.order = Ghost(self.order@.push(index as int));
        proof {
            assert(self.entries() =~= old(self).entries().push(entry));
            assert forall|i: int| 0 <= i < self.settled.len() implies self.settled[i]
                == self.order@.contains(i) by {
                if i == index {
                    assert(self.order@[old(self).order@.len() as int] == i);
                } else if old(self).order@.contains(i) {
                    let before = old(self).order@;
                    let k = choose|k: int| 0 <= k < before.len() && before[k] == i;
                    assert(self.order@[k] == i);
                }
            }
        }
        true
    }

    /// How many fetches are in flight.
    pub fn in_flight(&self) -> (count: usize)
        requires
            self.wf(),
        ensures
            count == self.in_flight_count(),
    {
        self.admitted - self.entries.len()
    }

    /// The entries collected, in the order in which the fetches ended.
    pub fn into_entries(self) -> (entries: Vec<ResultEntry>)
        ensures
            entries.deep_view() == self.entries(),
    {
        self.entries
    }
}

/// No more fetches are in flight than the limit allows, in every state of a
/// dispatcher: the addresses whose fetch is in flight are as many as
/// `in_flight_count` says, and that is at most the limit.
pub proof fn lemma_in_flight_within_limit(dispatcher: Dispatcher)
    requires
        dispatcher.wf(),
    ensures
        dispatcher.in_flight_set().finite(),
        dispatcher.in_flight_set().len() == dispatcher.in_flight_count(),
        dispatcher.in_flight_set().len() <= dispatcher.limit(),
{
    let order = dispatcher.order();
    let handed_out = set_int_range(0, dispatcher.admitted() as int);
    order.unique_seq_to_set();
    lemma_int_range(0, dispatcher.admitted() as int);
    lemma_set_difference_len(handed_out, order.to_set());
    assert(handed_out.intersect(order.to_set()) =~= order.to_set());
    assert(dispatcher.in_flight_set() =~= handed_out.difference(order.to_set()));
}

/// Once a dispatcher is finished, there are as many entries as addresses,
/// and every address has exactly one of them: one entry belongs to it and
/// carries it, and no two entries belong to the same address. So the entries
/// carry the addresses of the run, each as often as it stands among them.
pub proof fn lemma_finished_has_one_entry_for_each_address(dispatcher: Dispatcher)
    requires
        dispatcher.wf(),
        dispatcher.is_finished(),
    ensures
        dispatcher.entries().len() == dispatcher.addresses().len(),
        dispatcher.in_flight_count() == 0,
        forall|i: int|
            0 <= i < dispatcher.addresses().len() ==> #[trigger] dispatcher.has_entry(i),
        forall|j: int, k: int|
            0 <= j < k < dispatcher.entries().len() ==> dispatcher.order()[j]
                != dispatcher.order()[k],
        dispatcher.entry_addresses().to_multiset() == dispatcher.addresses().to_multiset(),
{
    let order = dispatcher.order();
    lemma_rearranged_has_same_members(
        dispatcher.addresses(),
        order,
        dispatcher.entry_addresses(),
    );
    assert forall|i: int| 0 <= i < dispatcher.addresses().len() implies #[trigger]
        dispatcher.has_entry(i) by {
        if !order.contains(i) {
            lemma_room_for_one(order, dispatcher.admitted() as int, i);
        }
    }
}

/// A finished run has one entry for each link of the text that its
/// addresses were read from, however often an address stands there.
pub proof fn lemma_one_entry_for_each_link(text: Seq<char>, dispatcher: Dispatcher)
    requires
        dispatcher.wf(),
        dispatcher.addresses() == link_destinations(text),
        dispatcher.is_finished(),
    ensures
        dispatcher.entries().len() == link_destinations(text).len(),
{
}

/// The end of one fetch changes nothing for the others: the entries
/// collected before stay as they are, and every other fetch in flight stays
/// in flight.
pub proof fn lemma_completion_leaves_others(
    before: Dispatcher,
    index: int,
    outcome: OutcomeModel,
    after: Dispatcher,
)
    requires
        before.wf(),
        before.is_in_flight(index),
        before.completed(index, outcome, after),
    ensures
        after.entries().len() == before.entries().len() + 1,
        after.entries().last() == before.entry_for(index, outcome),
        forall|k: int|
            0 <= k < before.entries().len() ==> after.entries()[k] == before.entries()[k],
        forall|other: int|
            other != index ==> after.is_in_flight(other) == before.is_in_flight(other),
        !after.is_in_flight(index),
{
    assert(after.order()[before.order().len() as int] == index);
    assert forall|other: int| other != index implies after.is_in_flight(other)
        == before.is_in_flight(other) by {
        if before.order().contains(other) {
            let k = choose|k: int| 0 <= k < before.order().len() && before.order()[k] == other;
            assert(after.order()[k] == other);
        }
    }
}

/// A sequence `t` that holds, place by place, the members of `s` at the
/// positions that `order` names, where these are distinct and as many as `s`
/// has members, holds the members of `s`, each as often as `s` does.
proof fn lemma_rearranged_has_same_members<A>(s: Seq<A>, order: Seq<int>, t: Seq<A>)
    requires
        order.len() == s.len(),
        t.len() == s.len(),
        order.no_duplicates(),
        forall|k: int| 0 <= k < order.len() ==> 0 <= #[trigger] order[k] < s.len(),
        forall|k: int| 0 <= k < t.len() ==> #[trigger] t[k] == s[order[k]],
    ensures
        t.to_multiset() == s.to_multiset(),
    decreases s.len(),
{
    if s.len() == 0 {
        assert(t =~= s);
    } else {
        let j = order.last();
        let fewer = s.remove(j);
        let front = t.drop_last();
        let shifted = Seq::new(
            (order.len() - 1) as nat,
            |k: int|
                if order[k] > j {
                    order[k] - 1
                } else {
                    order[k]
                },
        );
        assert forall|k: int| 0 <= k < shifted.len() implies 0 <= #[trigger] shifted[k]
            < fewer.len() && front[k] == fewer[shifted[k]] by {
            assert(order[k] != order[order.len() - 1]);
        }
        assert forall|a: int, b: int|
            0 <= a < shifted.len() && 0 <= b < shifted.len() && a != b implies shifted[a]
            != shifted[b] by {
            assert(order[a] != order[b]);
        }
        lemma_rearranged_has_same_members(fewer, shifted, front);
        to_multiset_remove(s, j);
        to_multiset_build(front, t.last());
        to_multiset_contains(s, s[j]);
        assert(t =~= front.push(s[j]));
        assert(s.to_multiset().remove(s[j]).insert(s[j]) =~= s.to_multiset());
    }
}

/// A sequence of distinct positions below `n` that leaves out `i`, itself
/// below `n`, has fewer than `n` members.
proof fn lemma_room_for_one(order: Seq<int>, n: int, i: int)
    requires
        order.no_duplicates(),
        forall|k: int| 0 <= k < order.len() ==> 0 <= #[trigger] order[k] < n,
        0 <= i < n,
        !order.contains(i),
    ensures
        order.push(i).no_duplicates(),
        order.len() < n,
{
    let longer = order.push(i);
    assert forall|j: int, k: int|
        0 <= j < longer.len() && 0 <= k < longer.len() && j != k implies longer[j]
        != longer[k] by {
        if k == order.len() {
            assert(order.contains(order[j]));
        }
        if j == order.len() {
            assert(order.contains(order[k]));
        }
    }
    lemma_distinct_positions_bounded(longer, n);
}

/// A sequence of distinct positions below `n` has at most `n` members.
proof fn lemma_distinct_positions_bounded(order: Seq<int>, n: int)
    requires
        order.no_duplicates(),
        forall|k: int| 0 <= k < order.len() ==> 0 <= #[trigger] order[k] < n,
        0 <= n,
    ensures
        order.len() <= n,
{
    order.unique_seq_to_set();
    lemma_int_range(0, n);
    assert(order.to_set().subset_of(set_int_range(0, n)));
    lemma_len_subset(order.to_set(), set_int_range(0, n));
}

} // verus!
