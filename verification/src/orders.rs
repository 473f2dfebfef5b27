//! The book of outstanding locked requests: each request with the block at
//! which it expires, and the last block that was fully processed.

use vstd::prelude::*;
use crate::contracts::RequestId;

verus! {

/// A locked request and the block of its deadline.
#[derive(Clone, Copy, Debug, PartialEq, Eq)]
pub struct Order {
    pub request_id: RequestId,
    pub deadline: u64,
}

/// Whether some order of `orders` is for the request `id`.
pub open spec fn listed(orders: Seq<Order>, id: Seq<u8>) -> bool {
    exists|i: int| 0 <= i < orders.len() && (#[trigger] orders[i]).request_id.bytes@ == id
}

/// The place of an order for the request `id`.
pub open spec fn position(orders: Seq<Order>, id: Seq<u8>) -> int {
    choose|i: int| 0 <= i < orders.len() && (#[trigger] orders[i]).request_id.bytes@ == id
}

/// Whether no two orders are for the same request.
pub open spec fn distinct(orders: Seq<Order>) -> bool {
    forall|i: int, j: int|
        0 <= i < j < orders.len() ==> (#[trigger] orders[i]).request_id.bytes@ != (
        #[trigger] orders[j]).request_id.bytes@
}

/// The deadlines of the orders, by request.
pub open spec fn deadlines(orders: Seq<Order>) -> Map<Seq<u8>, u64> {
    Map::new(|id: Seq<u8>| listed(orders, id), |id: Seq<u8>| orders[position(orders, id)].deadline)
}

/// Whether some id of `ids` is `id`.
pub open spec fn names(ids: Seq<RequestId>, id: Seq<u8>) -> bool {
    exists|i: int| 0 <= i < ids.len() && (#[trigger] ids[i]).bytes@ == id
}

/// Whether no id occurs twice.
pub open spec fn distinct_ids(ids: Seq<RequestId>) -> bool {
    forall|i: int, j: int|
        0 <= i < j < ids.len() ==> (#[trigger] ids[i]).bytes@ != (#[trigger] ids[j]).bytes@
}

/// Whether one of the first `upto` orders is for the request `id` and due
/// before `current_block`.
spec fn due_among(orders: Seq<Order>, upto: int, id: Seq<u8>, current_block: u64) -> bool {
    exists|k: int|
        0 <= k < upto && (#[trigger] orders[k]).request_id.bytes@ == id && orders[k].deadline
            < current_block
}

/// The place of such an order.
spec fn due_place(orders: Seq<Order>, upto: int, id: Seq<u8>, current_block: u64) -> int {
    choose|k: int|
        0 <= k < upto && (#[trigger] orders[k]).request_id.bytes@ == id && orders[k].deadline
            < current_block
}

/// The abstract state of an order book.
pub struct OrderBookView {
    /// The deadline of every outstanding request.
    pub orders: Map<Seq<u8>, u64>,
    /// The last block that was fully processed, if any was.
    pub last_block: Option<u64>,
}

impl OrderBookView {
    /// Whether the request `id` is outstanding and its deadline has passed
    /// at `current_block`.
    pub open spec fn expired(&self, id: Seq<u8>, current_block: u64) -> bool {
        self.orders.contains_key(id) && self.orders[id] < current_block
    }
}

/// The outstanding locked requests of the slasher.
pub struct OrderBook {
    orders: Vec<Order>,
    last_block: Option<u64>,
}

impl View for OrderBook {
    type V = OrderBookView;

    closed spec fn view(&self) -> OrderBookView {
        OrderBookView { orders: deadlines(self.orders@), last_block: self.last_block }
    }
}

/// In a list without repetition, the order at a place is the one its
/// request is found at.
proof fn lemma_position_unique(orders: Seq<Order>, i: int)
    requires
        distinct(orders),
        0 <= i < orders.len(),
    ensures
        listed(orders, orders[i].request_id.bytes@),
        position(orders, orders[i].request_id.bytes@) == i,
{
    let id = orders[i].request_id.bytes@;
    let p = position(orders, id);
    assert(0 <= p < orders.len() && orders[p].request_id.bytes@ == id);
    if p < i {
        assert(orders[p].request_id.bytes@ != orders[i].request_id.bytes@);
    } else if i < p {
        assert(orders[i].request_id.bytes@ != orders[p].request_id.bytes@);
    }
}

/// Adding an order for a request that has none adds its deadline.
proof fn lemma_push_inserts(orders: Seq<Order>, order: Order)
    requires
        distinct(orders),
        !listed(orders, order.request_id.bytes@),
    ensures
        distinct(orders.push(order)),
        deadlines(orders.push(order)) == deadlines(orders).insert(
            order.request_id.bytes@,
            order.deadline,
        ),
{
    let grown = orders.push(order);
    let id = order.request_id.bytes@;
    assert(distinct(grown)) by {
        assert forall|i: int, j: int| 0 <= i < j < grown.len() implies (
        #[trigger] grown[i]).request_id.bytes@ != (#[trigger] grown[j]).request_id.bytes@ by {
            if j == orders.len() {
                assert(grown[i] == orders[i]);
            } else {
                assert(grown[i] == orders[i] && grown[j] == orders[j]);
            }
        }
    }
    let want = deadlines(orders).insert(id, order.deadline);
    assert forall|k: Seq<u8>| #[trigger] deadlines(grown).contains_key(k) <==> want.contains_key(
        k,
    ) by {
        if listed(grown, k) {
            let i = position(grown, k);
            if i < orders.len() {
                assert(orders[i] == grown[i]);
            }
        }
        if listed(orders, k) {
            let i = position(orders, k);
            assert(grown[i] == orders[i]);
        }
        if k == id {
            assert(grown[orders.len() as int] == order);
        }
    }
    assert forall|k: Seq<u8>| deadlines(grown).contains_key(k) implies #[trigger] deadlines(
        grown,
    )[k] == want[k] by {
        let i = position(grown, k);
        lemma_position_unique(grown, i);
        if i < orders.len() {
            assert(grown[i] == orders[i]);
            lemma_position_unique(orders, i);
        }
    }
    assert(deadlines(grown) =~= want);
}

/// Taking an order out takes its deadline out.
proof fn lemma_remove_removes(orders: Seq<Order>, i: int)
    requires
        distinct(orders),
        0 <= i < orders.len(),
    ensures
        distinct(orders.remove(i)),
        !listed(orders.remove(i), orders[i].request_id.bytes@),
        deadlines(orders.remove(i)) == deadlines(orders).remove(orders[i].request_id.bytes@),
{
    let rest = orders.remove(i);
    let id = orders[i].request_id.bytes@;
    assert forall|j: int| 0 <= j < rest.len() implies #[trigger] rest[j] == orders[if j < i {
        j
    } else {
        j + 1
    }] by {}
    assert(distinct(rest)) by {
        assert forall|a: int, b: int| 0 <= a < b < rest.len() implies (
        #[trigger] rest[a]).request_id.bytes@ != (#[trigger] rest[b]).request_id.bytes@ by {
            let a2 = if a < i {
                a
            } else {
                a + 1
            };
            let b2 = if b < i {
                b
            } else {
                b + 1
            };
            assert(rest[a] == orders[a2] && rest[b] == orders[b2]);
        }
    }
    assert(!listed(rest, id)) by {
        if listed(rest, id) {
            let j = position(rest, id);
            let j2 = if j < i {
                j
            } else {
                j + 1
            };
            assert(rest[j] == orders[j2]);
            lemma_position_unique(orders, j2);
            lemma_position_unique(orders, i);
        }
    }
    let want = deadlines(orders).remove(id);
    assert forall|k: Seq<u8>| #[trigger] deadlines(rest).contains_key(k) <==> want.contains_key(
        k,
    ) by {
        if listed(rest, k) {
            let j = position(rest, k);
            let j2 = if j < i {
                j
            } else {
                j + 1
            };
            assert(rest[j] == orders[j2]);
        }
        if listed(orders, k) && k != id {
            let j = position(orders, k);
            let j2 = if j < i {
                j
            } else {
                j - 1
            };
            assert(rest[j2] == orders[j]);
        }
    }
    assert forall|k: Seq<u8>| deadlines(rest).contains_key(k) implies #[trigger] deadlines(rest)[k]
        == want[k] by {
        let j = position(rest, k);
        let j2 = if j < i {
            j
        } else {
            j + 1
        };
        assert(rest[j] == orders[j2]);
        lemma_position_unique(rest, j);
        lemma_position_unique(orders, j2);
    }
    assert(deadlines(rest) =~= want);
}

impl OrderBook {
    /// The book's invariant: no request has two orders.
    pub closed spec fn wf(&self) -> bool {
        distinct(self.orders@)
    }

    /// An empty book that has processed no block.
    pub fn new() -> (book: OrderBook)
        ensures
            book.wf(),
            book@.orders == Map::<Seq<u8>, u64>::empty(),
            book@.last_block == None::<u64>,
    {
        let book = OrderBook { orders: Vec::new(), last_block: None };
        assert(book@.orders =~= Map::<Seq<u8>, u64>::empty());
        book
    }

    /// The place of the order for `request_id`, if there is one.
    fn find(&self, request_id: &RequestId) -> (r: Option<usize>)
        ensures
            match r {
                Some(i) => i < self.orders@.len() && self.orders@[i as int].request_id.bytes@
                    == request_id.bytes@,
                None => !listed(self.orders@, request_id.bytes@),
            },
    {
        let mut i: usize = 0;
        while i < self.orders.len()
            invariant
                i <= self.orders@.len(),
                forall|j: int|
                    0 <= j < i ==> (#[trigger] self.orders@[j]).request_id.bytes@
                        != request_id.bytes@,
            decreases self.orders@.len() - i,
        {
            if self.orders[i].request_id.same_as(request_id) {
                return Some(i);
            }
            i += 1;
        }
        None
    }

    /// Records a locked request with its deadline. A request that is in the
    /// book already gets the new deadline.
    pub fn add_order(&mut self, request_id: RequestId, deadline: u64)
        requires
            old(self).wf(),
        ensures
            final(self).wf(),
            final(self)@.orders == old(self)@.orders.insert(request_id.bytes@, deadline),
            final(self)@.last_block == old(self)@.last_block,
    {
        let ghost before = self.orders@;
        match self.find(&request_id) {
            Some(i) => {
                proof {
                    lemma_remove_removes(before, i as int);
                }
                self.orders.remove(i);
            },
            None => {},
        }
        let ghost rest = self.orders@;
        let order = Order { request_id, deadline };
        proof {
            lemma_push_inserts(rest, order);
            assert(deadlines(rest).insert(request_id.bytes@, deadline) =~= deadlines(before).insert(
                request_id.bytes@,
                deadline,
            ));
        }
        self.orders.push(order);
    }

    /// Takes a request out of the book. Taking out a request that is not in
    /// the book changes nothing.
    pub fn remove_order(&mut self, request_id: &RequestId)
        requires
            old(self).wf(),
        ensures
            final(self).wf(),
            final(self)@.orders == old(self)@.orders.remove(request_id.bytes@),
            final(self)@.last_block == old(self)@.last_block,
    {
        let ghost before = self.orders@;
        match self.find(request_id) {
            Some(i) => {
                proof {
                    lemma_remove_removes(before, i as int);
                }
                self.orders.remove(i);
            },
            None => {
                assert(deadlines(before).remove(request_id.bytes@) =~= deadlines(before));
            },
        }
    }

    /// The requests whose deadline has passed at `current_block`, each once.
    pub fn get_expired_orders(&self, current_block: u64) -> (expired: Vec<RequestId>)
        requires
            self.wf(),
        ensures
            distinct_ids(expired@),
            forall|id: Seq<u8>| names(expired@, id) <==> self@.expired(id, current_block),
    {
        let mut expired: Vec<RequestId> = Vec::new();
        let mut i: usize = 0;
        while i < self.orders.len()
            invariant
                i <= self.orders@.len(),
                distinct(self.orders@),
                distinct_ids(expired@),
                forall|j: int|
                    0 <= j < expired@.len() ==> due_among(
                        self.orders@,
                        i as int,
                        (#[trigger] expired@[j]).bytes@,
                        current_block,
                    ),
                forall|k: int|
                    0 <= k < i && (#[trigger] self.orders@[k]).deadline < current_block ==> names(
                        expired@,
                        self.orders@[k].request_id.bytes@,
                    ),
            decreases self.orders@.len() - i,
        {
            let order = self.orders[i];
            let ghost before = expired@;
            if order.deadline < current_block {
                expired.push(order.request_id);
                proof {
                    assert(expired@[before.len() as int] == order.request_id);
                    assert forall|a: int, b: int| 0 <= a < b < expired@.len() implies (
                    #[trigger] expired@[a]).bytes@ != (#[trigger] expired@[b]).bytes@ by {
                        if b == before.len() {
                            assert(expired@[a] == before[a]);
                            assert(due_among(self.orders@, i as int, before[a].bytes@, current_block));
                            let k = due_place(self.orders@, i as int, before[a].bytes@, current_block);
                            assert(self.orders@[k].request_id.bytes@ != self.orders@[i as int].request_id.bytes@);
                        } else {
                            assert(expired@[a] == before[a] && expired@[b] == before[b]);
                        }
                    }
                }
            }
            proof {
                assert forall|j: int| 0 <= j < expired@.len() implies due_among(
                    self.orders@,
                    i + 1,
                    (#[trigger] expired@[j]).bytes@,
                    current_block,
                ) by {
                    if j < before.len() {
                        assert(expired@[j] == before[j]);
                        assert(due_among(self.orders@, i as int, before[j].bytes@, current_block));
                        let k = due_place(self.orders@, i as int, before[j].bytes@, current_block);
                        assert(0 <= k < i + 1 && self.orders@[k].request_id.bytes@
                            == expired@[j].bytes@ && self.orders@[k].deadline < current_block);
                    } else {
                        assert(self.orders@[i as int].request_id.bytes@ == expired@[j].bytes@);
                    }
                }
                assert forall|k: int|
                    0 <= k < i + 1 && (#[trigger] self.orders@[k]).deadline
                        < current_block implies names(
                    expired@,
                    self.orders@[k].request_id.bytes@,
                ) by {
                    if k < i {
                        let j = choose|j: int|
                            0 <= j < before.len() && (#[trigger] before[j]).bytes@
                                == self.orders@[k].request_id.bytes@;
                        assert(expired@[j] == before[j]);
                    } else {
                        assert(expired@[before.len() as int] == order.request_id);
                    }
                }
            }
            i += 1;
        }
        proof {
            assert forall|id: Seq<u8>| names(expired@, id) <==> self@.expired(
                id,
                current_block,
            ) by {
                if names(expired@, id) {
                    let j = choose|j: int|
                        0 <= j < expired@.len() && (#[trigger] expired@[j]).bytes@ == id;
                    assert(due_among(self.orders@, i as int, expired@[j].bytes@, current_block));
                    let k = due_place(self.orders@, i as int, id, current_block);
                    lemma_position_unique(self.orders@, k);
                }
                if self@.expired(id, current_block) {
                    let k = position(self.orders@, id);
                    lemma_position_unique(self.orders@, k);
                    assert(self.orders@[k].deadline < current_block);
                }
            }
        }
        expired
    }

    /// The last block that was fully processed, if any was.
    pub fn get_last_block(&self) -> (block: Option<u64>)
        ensures
            block == self@.last_block,
    {
        self.last_block
    }

    /// Records the last block that was fully processed.
    pub fn set_last_block(&mut self, block_number: u64)
        requires
            old(self).wf(),
        ensures
            final(self).wf(),
            final(self)@.last_block == Some(block_number),
            final(self)@.orders == old(self)@.orders,
    {
        self.last_block = Some(block_number);
    }

    /// The deadline of a request, if it is in the book.
    pub fn deadline_of(&self, request_id: &RequestId) -> (deadline: Option<u64>)
        requires
            self.wf(),
        ensures
            deadline == if self@.orders.contains_key(request_id.bytes@) {
                Some(self@.orders[request_id.bytes@])
            } else {
                None
            },
    {
        match self.find(request_id) {
            Some(i) => {
                proof {
                    lemma_position_unique(self.orders@, i as int);
                }
                Some(self.orders[i].deadline)
            },
            None => None,
        }
    }

    /// How many requests are in the book.
    pub fn len(&self) -> (count: usize)
        requires
            self.wf(),
        ensures
            count == self@.orders.dom().len(),
            self@.orders.dom().finite(),
    {
        proof {
            lemma_deadlines_count(self.orders@);
        }
        self.orders.len()
    }
}

/// A list without repetition holds as many orders as requests.
proof fn lemma_deadlines_count(orders: Seq<Order>)
    requires
        distinct(orders),
    ensures
        deadlines(orders).dom().finite(),
        deadlines(orders).dom().len() == orders.len(),
    decreases orders.len(),
{
    if orders.len() == 0 {
        assert(deadlines(orders).dom() =~= Set::<Seq<u8>>::empty());
    } else {
        let last = orders.last();
        let rest = orders.drop_last();
        assert(distinct(rest)) by {
            assert forall|i: int, j: int| 0 <= i < j < rest.len() implies (
            #[trigger] rest[i]).request_id.bytes@ != (#[trigger] rest[j]).request_id.bytes@ by {
                assert(rest[i] == orders[i] && rest[j] == orders[j]);
            }
        }
        assert(!listed(rest, last.request_id.bytes@)) by {
            if listed(rest, last.request_id.bytes@) {
                let i = position(rest, last.request_id.bytes@);
                assert(rest[i] == orders[i]);
                assert(orders[i].request_id.bytes@ != orders[orders.len() - 1].request_id.bytes@);
            }
        }
        lemma_deadlines_count(rest);
        lemma_push_inserts(rest, last);
        assert(rest.push(last) =~= orders);
        assert(deadlines(orders).dom() =~= deadlines(rest).dom().insert(last.request_id.bytes@));
    }
}

} // verus!
