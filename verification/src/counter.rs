//! A counter that many connections share.

use std::sync::atomic::AtomicUsize;
use std::sync::Arc;
use vstd::arithmetic::div_mod::{
    lemma_add_mod_noop, lemma_mod_sub_multiples_vanish, lemma_small_mod,
};
use vstd::prelude::*;

verus! {

/// A change to the counter.
#[derive(Copy, Clone, Debug)]
pub enum CounterOp {
    /// Adds to the value, and starts over at zero behind the largest one.
    Increment(usize),
    /// Puts another value in its place.
    Swap(usize),
}

impl CounterOp {
    /// The value that the change leaves behind, given the value that it finds.
    pub open spec fn after(self, prev: usize) -> usize {
        match self {
            CounterOp::Increment(num) => if prev + num <= usize::MAX {
                (prev + num) as usize
            } else {
                (prev + num - usize::MAX - 1) as usize
            },
            CounterOp::Swap(cur) => cur,
        }
    }
}

/// Asks for an addition to the counter.
#[derive(Debug)]
pub struct IncrementCounterRequest {
    /// How much to add.
    pub new: usize,
}

impl IncrementCounterRequest {
    /// Asks for an addition of `new`.
    pub fn new(new: usize) -> (request: IncrementCounterRequest)
        ensures
            request.new == new,
    {
        IncrementCounterRequest { new }
    }
}

/// Tells of an addition to the counter.
#[derive(Debug)]
pub struct IncrementCounterResponse {
    prev: usize,
}

impl IncrementCounterResponse {
    /// The value that was found.
    pub closed spec fn prev_spec(&self) -> usize {
        self.prev
    }

    /// Tells of an addition that found `prev`.
    pub fn of(prev: usize) -> (response: IncrementCounterResponse)
        ensures
            response.prev_spec() == prev,
    {
        IncrementCounterResponse { prev }
    }

    /// The value that was found.
    pub fn prev(&self) -> (prev: usize)
        ensures
            prev == self.prev_spec(),
    {
        self.prev
    }
}

/// Asks for another value of the counter.
#[derive(Debug)]
pub struct SwapCounterRequest {
    /// The value to put in place.
    pub new: usize,
}

impl SwapCounterRequest {
    /// Asks for the value `new`.
    pub fn new(new: usize) -> (request: SwapCounterRequest)
        ensures
            request.new == new,
    {
        SwapCounterRequest { new }
    }
}

/// Tells of a swap of the counter's value.
#[derive(Debug)]
pub struct SwapCounterResponse {
    prev: usize,
    cur: usize,
}

impl SwapCounterResponse {
    /// The value that was found.
    pub closed spec fn prev_spec(&self) -> usize {
        self.prev
    }

    /// The value that was put in its place.
    pub closed spec fn cur_spec(&self) -> usize {
        self.cur
    }

    /// Tells of a swap that found `prev` and left `cur`.
    pub fn of(prev: usize, cur: usize) -> (response: SwapCounterResponse)
        ensures
            response.prev_spec() == prev,
            response.cur_spec() == cur,
    {
        SwapCounterResponse { prev, cur }
    }

    /// The value that was found.
    pub fn prev(&self) -> (prev: usize)
        ensures
            prev == self.prev_spec(),
    {
        self.prev
    }

    /// The value that was put in its place.
    pub fn cur(&self) -> (cur: usize)
        ensures
            cur == self.cur_spec(),
    {
        self.cur
    }
}

/// Tells the counter's value.
#[derive(Debug)]
pub struct GetCounterResponse {
    cur: usize,
}

impl GetCounterResponse {
    /// The value.
    pub closed spec fn cur_spec(&self) -> usize {
        self.cur
    }

    /// Tells the value `cur`.
    pub fn of(cur: usize) -> (response: GetCounterResponse)
        ensures
            response.cur_spec() == cur,
    {
        GetCounterResponse { cur }
    }

    /// The value.
    pub fn cur(&self) -> (cur: usize)
        ensures
            cur == self.cur_spec(),
    {
        self.cur
    }
}

/// The values that an atomic holds in the course of the program, one after the other:
/// number zero is the one that it was made with, and every change puts the next one in the
/// place of the one before.
pub uninterp spec fn atomic_value(atomic: AtomicUsize, n: nat) -> usize;

/// `AtomicUsize::new` makes an atomic that begins with the value given.
#[verifier::external_body]
fn atomic_at(value: usize) -> (atomic: AtomicUsize)
    ensures
        atomic_value(atomic, 0) == value,
{
    AtomicUsize::new(value)
}

/// `AtomicUsize::load` gives one of the values that the atomic holds. Which of them depends
/// on what other threads do, and is not said.
#[verifier::external_body]
fn read(atomic: &AtomicUsize) -> (value: usize)
    ensures
        exists|n: nat| #[trigger] atomic_value(*atomic, n) == value,
{
    atomic.load(std::sync::atomic::Ordering::Acquire)
}

/// `AtomicUsize::fetch_add` puts the sum of the value found and `num`, wrapped around, in
/// the place of the value found, in one step, and gives the value found. Which of the
/// atomic's values that is depends on what other threads do, and is not said.
#[verifier::external_body]
fn add_to(atomic: &AtomicUsize, num: usize) -> (prev: usize)
    ensures
        exists|n: nat| #[trigger]
            atomic_value(*atomic, n) == prev && atomic_value(*atomic, n + 1)
                == CounterOp::Increment(num).after(prev),
{
    atomic.fetch_add(num, std::sync::atomic::Ordering::AcqRel)
}

/// `AtomicUsize::swap` puts `cur` in the place of the value found, in one step, and gives
/// the value found. Which of the atomic's values that is depends on what other threads do,
/// and is not said.
#[verifier::external_body]
fn put_in(atomic: &AtomicUsize, cur: usize) -> (prev: usize)
    ensures
        exists|n: nat| #[trigger]
            atomic_value(*atomic, n) == prev && atomic_value(*atomic, n + 1) == CounterOp::Swap(
                cur,
            ).after(prev),
{
    atomic.swap(cur, std::sync::atomic::Ordering::AcqRel)
}

/// A counter; its clones share one value.
///
/// Its values form one run: every change is one step from the value found, which is what
/// the response tells of, to [`CounterOp::after`] of it, which is the next one. Which value
/// is found is up to whoever else holds a clone, so no clause says it.
pub struct SharedCounter {
    count: Arc<AtomicUsize>,
}

impl Clone for SharedCounter {
    /// Another holder of the same counter.
    fn clone(&self) -> (counter: SharedCounter)
        ensures
            counter == *self,
    {
        SharedCounter { count: self.count.clone() }
    }
}

impl SharedCounter {
    /// The values of the counter one after the other: number zero is the one that it
    /// begins with, and every change leads from one to the next.
    pub closed spec fn value(&self, n: nat) -> usize {
        atomic_value(*self.count, n)
    }

    /// Whether the change leads from value number `n` to the next.
    pub open spec fn makes(&self, n: nat, op: CounterOp) -> bool {
        self.value(n + 1) == op.after(self.value(n))
    }

    /// Whether the value is one that the counter holds.
    pub open spec fn held(&self, value: usize) -> bool {
        exists|n: nat| #[trigger] self.value(n) == value
    }

    /// Whether the change is made to the counter and finds `prev`.
    pub open spec fn changed(&self, op: CounterOp, prev: usize) -> bool {
        exists|n: nat| #[trigger] self.value(n) == prev && self.makes(n, op)
    }

    /// A counter at zero.
    pub fn new() -> (counter: SharedCounter)
        ensures
            counter.value(0) == 0,
    {
        SharedCounter { count: Arc::new(atomic_at(0)) }
    }

    /// Adds `num` to the value and tells the value before.
    pub fn increment(&self, num: usize) -> (response: IncrementCounterResponse)
        ensures
            self.changed(CounterOp::Increment(num), response.prev_spec()),
            self.held(response.prev_spec()),
            exists|n: nat| #[trigger]
                self.value(n) == response.prev_spec() && self.value(n + 1) == (
                response.prev_spec() + num) % (usize::MAX + 1),
    {
        let prev: usize = add_to(&self.count, num);
        proof {
            self.lemma_changed(CounterOp::Increment(num), prev);
            law_changes_are_made(*self, num, prev);
        }
        IncrementCounterResponse::of(prev)
    }

    /// Puts `cur` in the place of the value and tells both.
    pub fn swap(&self, cur: usize) -> (response: SwapCounterResponse)
        ensures
            self.changed(CounterOp::Swap(cur), response.prev_spec()),
            self.held(response.prev_spec()),
            exists|n: nat| #[trigger]
                self.value(n) == response.prev_spec() && self.value(n + 1) == cur,
            response.cur_spec() == cur,
    {
        let prev: usize = put_in(&self.count, cur);
        proof {
            self.lemma_changed(CounterOp::Swap(cur), prev);
            law_changes_are_made(*self, cur, prev);
        }
        SwapCounterResponse::of(prev, cur)
    }

    /// Tells the value.
    pub fn get(&self) -> (response: GetCounterResponse)
        ensures
            self.held(response.cur_spec()),
            exists|n: nat| #[trigger] self.value(n) == response.cur_spec(),
    {
        let cur: usize = read(&self.count);
        proof {
            let n = choose|n: nat| #[trigger] atomic_value(*self.count, n) == cur;
            assert(self.value(n) == cur);
        }
        GetCounterResponse::of(cur)
    }

    proof fn lemma_changed(&self, op: CounterOp, prev: usize)
        requires
            exists|n: nat| #[trigger]
                atomic_value(*self.count, n) == prev && atomic_value(*self.count, n + 1)
                    == op.after(prev),
        ensures
            self.changed(op, prev),
            self.held(prev),
    {
        let n = choose|n: nat| #[trigger]
            atomic_value(*self.count, n) == prev && atomic_value(*self.count, n + 1) == op.after(
                prev,
            );
        assert(self.value(n) == prev && self.makes(n, op));
    }
}

/// The value that a run of changes leaves behind, given the value that the first finds.
pub open spec fn after_all(ops: Seq<CounterOp>, start: usize) -> usize
    decreases ops.len(),
{
    if ops.len() == 0 {
        start
    } else {
        ops.last().after(after_all(ops.drop_last(), start))
    }
}

/// How much a change adds.
pub open spec fn amount(op: CounterOp) -> nat {
    match op {
        CounterOp::Increment(num) => num as nat,
        CounterOp::Swap(_) => 0,
    }
}

/// The amounts of a run of additions together.
pub open spec fn added(ops: Seq<CounterOp>) -> nat
    decreases ops.len(),
{
    if ops.len() == 0 {
        0
    } else {
        added(ops.drop_last()) + amount(ops.last())
    }
}

/// The value that the last swap put in place, or `start` where there was none.
pub open spec fn last_swapped(ops: Seq<CounterOp>, start: usize) -> usize
    decreases ops.len(),
{
    if ops.len() == 0 {
        start
    } else {
        match ops.last() {
            CounterOp::Swap(cur) => cur,
            CounterOp::Increment(_) => last_swapped(ops.drop_last(), start),
        }
    }
}

/// The amounts of the additions after the last swap together.
pub open spec fn added_since_swap(ops: Seq<CounterOp>) -> nat
    decreases ops.len(),
{
    if ops.len() == 0 {
        0
    } else {
        match ops.last() {
            CounterOp::Swap(_) => 0,
            CounterOp::Increment(num) => added_since_swap(ops.drop_last()) + num as nat,
        }
    }
}

/// A change together with the value that it found.
pub struct Change {
    pub op: CounterOp,
    pub prev: usize,
}

/// The changes without the values found.
pub open spec fn ops_of(changes: Seq<Change>) -> Seq<CounterOp> {
    changes.map_values(|change: Change| change.op)
}

/// Whether the counter was changed like that from value number `from` on, with no other
/// change in between, and each change found what is said.
pub open spec fn changes_from(counter: SharedCounter, from: nat, changes: Seq<Change>) -> bool {
    forall|i: nat|
        i < changes.len() ==> counter.value(from + i) == (#[trigger] changes[i as int]).prev
            && counter.makes(from + i, changes[i as int].op)
}

proof fn lemma_increment_of_sum(prev: usize, num: usize, total: nat)
    requires
        prev == total % ((usize::MAX + 1) as nat),
    ensures
        CounterOp::Increment(num).after(prev) == (total + num) % (usize::MAX + 1),
{
    if prev + num <= usize::MAX {
        lemma_small_mod((prev + num) as nat, (usize::MAX + 1) as nat);
    } else {
        lemma_mod_sub_multiples_vanish(prev + num, usize::MAX + 1);
        lemma_small_mod((prev + num - usize::MAX - 1) as nat, (usize::MAX + 1) as nat);
    }
    lemma_add_mod_noop(total as int, num as int, usize::MAX + 1);
    lemma_small_mod(num as nat, (usize::MAX + 1) as nat);
}

/// Law: the value is what the last swap put in place, or the one begun with, and all
/// additions after that together; it starts over at zero behind the largest one.
pub proof fn law_count_after_changes(ops: Seq<CounterOp>, start: usize)
    ensures
        after_all(ops, start) == (last_swapped(ops, start) + added_since_swap(ops)) % (usize::MAX
            + 1),
    decreases ops.len(),
{
    if ops.len() == 0 {
        lemma_small_mod(start as nat, (usize::MAX + 1) as nat);
    } else {
        law_count_after_changes(ops.drop_last(), start);
        match ops.last() {
            CounterOp::Increment(num) => lemma_increment_of_sum(
                after_all(ops.drop_last(), start),
                num,
                last_swapped(ops.drop_last(), start) as nat + added_since_swap(ops.drop_last()),
            ),
            CounterOp::Swap(cur) => lemma_small_mod(cur as nat, (usize::MAX + 1) as nat),
        }
    }
}

/// Law: additions from any number of holders add up: none is lost, and each finds the value
/// begun with and all amounts before it together. The value starts over at zero behind the
/// largest one.
pub proof fn law_increments_add_up(ops: Seq<CounterOp>, start: usize)
    requires
        forall|i: int| 0 <= i < ops.len() ==> #[trigger] ops[i] is Increment,
    ensures
        after_all(ops, start) == (start + added(ops)) % (usize::MAX + 1),
        forall|i: int|
            0 <= i <= ops.len() ==> after_all(#[trigger] ops.take(i), start) == (start + added(
                ops.take(i),
            )) % (usize::MAX + 1),
{
    lemma_sum_of_increments(ops, start);
    assert forall|i: int| 0 <= i <= ops.len() implies after_all(#[trigger] ops.take(i), start) == (
    start + added(ops.take(i))) % (usize::MAX + 1) by {
        lemma_sum_of_increments(ops.take(i), start);
    }
}

proof fn lemma_sum_of_increments(ops: Seq<CounterOp>, start: usize)
    requires
        forall|i: int| 0 <= i < ops.len() ==> #[trigger] ops[i] is Increment,
    ensures
        after_all(ops, start) == (start + added(ops)) % (usize::MAX + 1),
    decreases ops.len(),
{
    if ops.len() == 0 {
        lemma_small_mod(start as nat, (usize::MAX + 1) as nat);
    } else {
        lemma_sum_of_increments(ops.drop_last(), start);
        assert(ops[ops.len() - 1] is Increment);
        lemma_increment_of_sum(
            after_all(ops.drop_last(), start),
            ops.last()->Increment_0,
            start as nat + added(ops.drop_last()),
        );
    }
}

/// Law: additions of one each find the values one after the other.
pub proof fn law_ones_count_up(ops: Seq<CounterOp>, start: usize)
    requires
        forall|i: int| 0 <= i < ops.len() ==> #[trigger] ops[i] == CounterOp::Increment(1),
    ensures
        forall|i: int|
            0 <= i <= ops.len() ==> after_all(#[trigger] ops.take(i), start) == (start + i) % (
            usize::MAX + 1),
{
    law_increments_add_up(ops, start);
    assert forall|i: int| 0 <= i <= ops.len() implies after_all(#[trigger] ops.take(i), start) == (
    start + i) % (usize::MAX + 1) by {
        lemma_sum_of_ones(ops.take(i));
    }
}

proof fn lemma_sum_of_ones(ops: Seq<CounterOp>)
    requires
        forall|i: int| 0 <= i < ops.len() ==> #[trigger] ops[i] == CounterOp::Increment(1),
    ensures
        added(ops) == ops.len(),
    decreases ops.len(),
{
    if ops.len() > 0 {
        assert(ops[ops.len() - 1] == CounterOp::Increment(1));
        lemma_sum_of_ones(ops.drop_last());
    }
}

/// Law: the order in which additions happen does not matter to the value they leave behind.
pub proof fn law_order_of_increments(ops: Seq<CounterOp>, others: Seq<CounterOp>, start: usize)
    requires
        ops.to_multiset() == others.to_multiset(),
        forall|i: int| 0 <= i < ops.len() ==> #[trigger] ops[i] is Increment,
    ensures
        after_all(ops, start) == after_all(others, start),
{
    broadcast use vstd::seq_lib::group_to_multiset_ensures;

    assert forall|i: int| 0 <= i < others.len() implies #[trigger] others[i] is Increment by {
        assert(others.to_multiset().count(others[i]) > 0);
        assert(ops.contains(others[i]));
    }
    lemma_sum_of_increments(ops, start);
    lemma_sum_of_increments(others, start);
    lemma_order_of_amounts(ops, others);
}

proof fn lemma_order_of_amounts(ops: Seq<CounterOp>, others: Seq<CounterOp>)
    requires
        ops.to_multiset() == others.to_multiset(),
    ensures
        added(ops) == added(others),
    decreases ops.len(),
{
    broadcast use vstd::seq_lib::group_to_multiset_ensures;

    assert(ops.len() == ops.to_multiset().len());
    assert(others.len() == others.to_multiset().len());
    if ops.len() > 0 {
        let last = ops.len() - 1;
        assert(ops.to_multiset().count(ops[last]) > 0);
        assert(others.contains(ops[last]));
        let i = choose|i: int| 0 <= i < others.len() && others[i] == ops[last];
        assert(ops.remove(last) =~= ops.drop_last());
        lemma_order_of_amounts(ops.drop_last(), others.remove(i));
        lemma_amount_taken_out(others, i);
    }
}

proof fn lemma_amount_taken_out(ops: Seq<CounterOp>, i: int)
    requires
        0 <= i < ops.len(),
    ensures
        added(ops) == added(ops.remove(i)) + amount(ops[i]),
    decreases ops.len(),
{
    if i == ops.len() - 1 {
        assert(ops.remove(i) =~= ops.drop_last());
    } else {
        lemma_amount_taken_out(ops.drop_last(), i);
        assert(ops.remove(i).drop_last() =~= ops.drop_last().remove(i));
        assert(ops.remove(i).last() == ops.last());
    }
}

/// Law: the changes of a counter form one run: each finds what those before it left behind
/// together, and so does whoever reads the counter after the last of them.
pub proof fn law_changes_form_one_run(counter: SharedCounter, from: nat, changes: Seq<Change>)
    requires
        changes_from(counter, from, changes),
    ensures
        forall|i: nat|
            i < changes.len() ==> (#[trigger] changes[i as int]).prev == after_all(
                ops_of(changes).take(i as int),
                counter.value(from),
            ),
        counter.value(from + changes.len()) == after_all(ops_of(changes), counter.value(from)),
{
    assert forall|i: nat| i < changes.len() implies (#[trigger] changes[i as int]).prev
        == after_all(ops_of(changes).take(i as int), counter.value(from)) by {
        lemma_run_of_changes(counter, from, changes, i);
    }
    lemma_run_of_changes(counter, from, changes, changes.len());
    assert(ops_of(changes).take(changes.len() as int) =~= ops_of(changes));
}

proof fn lemma_run_of_changes(counter: SharedCounter, from: nat, changes: Seq<Change>, n: nat)
    requires
        changes_from(counter, from, changes),
        n <= changes.len(),
    ensures
        counter.value(from + n) == after_all(ops_of(changes).take(n as int), counter.value(from)),
    decreases n,
{
    if n > 0 {
        let i = (n - 1) as nat;
        lemma_run_of_changes(counter, from, changes, i);
        let ops = ops_of(changes);
        assert(ops.take(n as int).drop_last() =~= ops.take(i as int));
        assert(ops.take(n as int).last() == changes[i as int].op);
        assert(from + i + 1 == from + n);
    }
}

/// Law: where `calls` are made through any clones of a counter, on any threads, and all are
/// additions, then in the order `changes` in which they happen each finds the value before
/// the first of them and all amounts before it together, and after the last the counter
/// holds that value and all amounts together: no addition is lost, and their order does not
/// matter. The value starts over at zero behind the largest one.
pub proof fn law_calls_add_up(
    counter: SharedCounter,
    from: nat,
    calls: Seq<Change>,
    changes: Seq<Change>,
)
    requires
        changes.to_multiset() == calls.to_multiset(),
        changes_from(counter, from, changes),
        forall|i: int| 0 <= i < changes.len() ==> (#[trigger] changes[i]).op is Increment,
    ensures
        counter.value(from + calls.len()) == (counter.value(from) + added(ops_of(calls))) % (
        usize::MAX + 1),
        forall|i: int|
            0 <= i < changes.len() ==> (#[trigger] changes[i]).prev == (counter.value(from)
                + added(ops_of(changes).take(i))) % (usize::MAX + 1),
        (forall|i: int| 0 <= i < changes.len() ==> (#[trigger] changes[i]).op
            == CounterOp::Increment(1)) ==> forall|i: int|
            0 <= i < changes.len() ==> (#[trigger] changes[i]).prev == (counter.value(from) + i) % (
            usize::MAX + 1),
{
    broadcast use vstd::seq_lib::group_to_multiset_ensures;

    let ops = ops_of(changes);
    assert(changes.len() == changes.to_multiset().len());
    assert(calls.len() == calls.to_multiset().len());
    assert forall|i: int| 0 <= i < ops.len() implies #[trigger] ops[i] is Increment by {
        assert(changes[i].op is Increment);
    }
    law_changes_form_one_run(counter, from, changes);
    law_increments_add_up(ops, counter.value(from));
    lemma_order_of_calls(changes, calls);
    assert forall|i: int| 0 <= i < changes.len() implies (#[trigger] changes[i]).prev == (
    counter.value(from) + added(ops_of(changes).take(i))) % (usize::MAX + 1) by {
        assert(changes[(i as nat) as int].prev == after_all(ops.take(i), counter.value(from)));
    }
    if forall|i: int| 0 <= i < changes.len() ==> (#[trigger] changes[i]).op
        == CounterOp::Increment(1) {
        assert forall|i: int| 0 <= i < ops.len() implies #[trigger] ops[i] == CounterOp::Increment(
            1,
        ) by {
            assert(changes[i].op == CounterOp::Increment(1));
        }
        law_ones_count_up(ops, counter.value(from));
        assert forall|i: int| 0 <= i < changes.len() implies (#[trigger] changes[i]).prev == (
        counter.value(from) + i) % (usize::MAX + 1) by {
            assert(changes[(i as nat) as int].prev == after_all(ops.take(i), counter.value(from)));
        }
    }
}

proof fn lemma_order_of_calls(changes: Seq<Change>, calls: Seq<Change>)
    requires
        changes.to_multiset() == calls.to_multiset(),
    ensures
        added(ops_of(changes)) == added(ops_of(calls)),
    decreases changes.len(),
{
    broadcast use vstd::seq_lib::group_to_multiset_ensures;

    assert(changes.len() == changes.to_multiset().len());
    assert(calls.len() == calls.to_multiset().len());
    if changes.len() > 0 {
        let last = changes.len() - 1;
        assert(changes.to_multiset().count(changes[last]) > 0);
        assert(calls.contains(changes[last]));
        let i = choose|i: int| 0 <= i < calls.len() && calls[i] == changes[last];
        assert(changes.remove(last) =~= changes.drop_last());
        lemma_order_of_calls(changes.drop_last(), calls.remove(i));
        lemma_amount_taken_out(ops_of(calls), i);
        assert(ops_of(calls.remove(i)) =~= ops_of(calls).remove(i));
        assert(ops_of(changes).drop_last() =~= ops_of(changes.drop_last()));
    }
}

/// Law: a clone shares the counter: at every moment both hold the same value, which is the
/// one that the last change through either left behind, and reads with no change between
/// them agree.
pub proof fn law_clones_share(
    counter: SharedCounter,
    clone: SharedCounter,
    from: nat,
    changes: Seq<Change>,
)
    requires
        clone == counter,
        changes_from(counter, from, changes),
    ensures
        counter.value(from + changes.len()) == clone.value(from + changes.len()),
        clone.value(from + changes.len()) == after_all(ops_of(changes), counter.value(from)),
        changes.len() > 0 ==> clone.value(from + changes.len()) == changes.last().op.after(
            changes.last().prev,
        ),
{
    law_changes_form_one_run(counter, from, changes);
    if changes.len() > 0 {
        let i = (changes.len() - 1) as nat;
        assert(changes[i as int] == changes.last());
        assert(from + i + 1 == from + changes.len());
    }
}

/// Law: what a swap puts in place is what the next reader or changer finds, whatever
/// happened before.
pub proof fn law_swap_is_found(ops: Seq<CounterOp>, start: usize, cur: usize)
    ensures
        after_all(ops.push(CounterOp::Swap(cur)), start) == cur,
{
    assert(ops.push(CounterOp::Swap(cur)).last() == CounterOp::Swap(cur));
}

/// Law: to swap another value in and then, with no other change in between, the value found
/// back restores the counter; the second swap finds what the first put in place.
pub proof fn law_swap_back_restores(counter: SharedCounter, n: nat, cur: usize)
    requires
        counter.makes(n, CounterOp::Swap(cur)),
        counter.makes(n + 1, CounterOp::Swap(counter.value(n))),
    ensures
        counter.value(n + 1) == cur,
        counter.value(n + 2) == counter.value(n),
{
    assert(n + 1 + 1 == n + 2);
}

/// Law: an addition leads from a value of the counter to that value and the amount together,
/// starting over at zero behind the largest one, and a swap from a value to the one put in
/// its place.
pub proof fn law_changes_are_made(counter: SharedCounter, num: usize, prev: usize)
    ensures
        counter.changed(CounterOp::Increment(num), prev) ==> exists|n: nat| #[trigger]
            counter.value(n) == prev && counter.value(n + 1) == (prev + num) % (usize::MAX + 1),
        counter.changed(CounterOp::Swap(num), prev) ==> exists|n: nat| #[trigger]
            counter.value(n) == prev && counter.value(n + 1) == num,
        counter.held(prev) ==> exists|n: nat| #[trigger] counter.value(n) == prev,
{
    if counter.changed(CounterOp::Increment(num), prev) {
        let n = choose|n: nat| #[trigger]
            counter.value(n) == prev && counter.makes(n, CounterOp::Increment(num));
        lemma_small_mod(prev as nat, (usize::MAX + 1) as nat);
        lemma_increment_of_sum(prev, num, prev as nat);
        assert(counter.value(n) == prev && counter.value(n + 1) == (prev + num) % (usize::MAX
            + 1));
    }
    if counter.changed(CounterOp::Swap(num), prev) {
        let n = choose|n: nat| #[trigger]
            counter.value(n) == prev && counter.makes(n, CounterOp::Swap(num));
        assert(counter.value(n) == prev && counter.value(n + 1) == num);
    }
}

} // verus!
