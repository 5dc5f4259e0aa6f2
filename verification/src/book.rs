//! A book: orders kept in ascending order of their ids, each id at most once.

use vstd::prelude::*;
use crate::order::{Order, OrderData, OrderView, OrderViewData};
use crate::order_id::{id_lt, OrderId};

verus! {

/// The views of the entries of `v`, in the same order.
pub open spec fn entry_views(v: Seq<OrderView>) -> Seq<OrderViewData> {
    Seq::new(v.len(), |i: int| v[i]@)
}

/// Every entry's id comes before the ids of the entries after it.
pub open spec fn ascending(s: Seq<OrderViewData>) -> bool {
    forall|i: int, j: int| 0 <= i < j < s.len() ==> id_lt(#[trigger] s[i].order_id, #[trigger] s[j].order_id)
}

/// How many entries of `s` have an id that comes before `id`. In an ascending
/// book this is the place where `id` stands, or would stand.
pub open spec fn lower_bound(s: Seq<OrderViewData>, id: OrderId) -> int
    decreases s.len(),
{
    if s.len() == 0 {
        0
    } else {
        lower_bound(s.drop_last(), id) + if id_lt(s.last().order_id, id) {
            1int
        } else {
            0int
        }
    }
}

/// Whether the ascending book `s` holds an entry with this id.
pub open spec fn holds(s: Seq<OrderViewData>, id: OrderId) -> bool {
    let k = lower_bound(s, id);
    k < s.len() && s[k].order_id == id
}

/// The order that the ascending book `s` holds under `id`, if any.
pub open spec fn lookup(s: Seq<OrderViewData>, id: OrderId) -> Option<OrderData> {
    if holds(s, id) {
        Some(s[lower_bound(s, id)].order)
    } else {
        None
    }
}

/// The ascending book `s` with `e` put in its place; an entry with the same
/// id gives way to `e`.
pub open spec fn put(s: Seq<OrderViewData>, e: OrderViewData) -> Seq<OrderViewData> {
    let k = lower_bound(s, e.order_id);
    if holds(s, e.order_id) {
        s.update(k, e)
    } else {
        s.insert(k, e)
    }
}

/// The ascending book `s` without the entry that has this id.
pub open spec fn removed(s: Seq<OrderViewData>, id: OrderId) -> Seq<OrderViewData> {
    if holds(s, id) {
        s.remove(lower_bound(s, id))
    } else {
        s
    }
}

/// The first `limit` entries of `s`, or all of them if there are fewer.
pub open spec fn top(s: Seq<OrderViewData>, limit: int) -> Seq<OrderViewData> {
    if limit <= 0 {
        Seq::empty()
    } else if limit < s.len() {
        s.subrange(0, limit)
    } else {
        s
    }
}

/// In an ascending book the entries before `lower_bound` are those that come
/// before `id`.
pub proof fn lemma_lower_bound(s: Seq<OrderViewData>, id: OrderId)
    requires
        ascending(s),
    ensures
        0 <= lower_bound(s, id) <= s.len(),
        forall|i: int| 0 <= i < lower_bound(s, id) ==> id_lt(#[trigger] s[i].order_id, id),
        forall|i: int| lower_bound(s, id) <= i < s.len() ==> !id_lt(#[trigger] s[i].order_id, id),
    decreases s.len(),
{
    if s.len() > 0 {
        let t = s.drop_last();
        lemma_lower_bound(t, id);
        assert forall|i: int| 0 <= i < t.len() implies t[i] == s[i] by {}
    }
}

/// A place that parts the entries before `id` from the rest is `lower_bound`.
pub proof fn lemma_lower_bound_is(s: Seq<OrderViewData>, id: OrderId, k: int)
    requires
        ascending(s),
        0 <= k <= s.len(),
        forall|i: int| 0 <= i < k ==> id_lt(#[trigger] s[i].order_id, id),
        forall|i: int| k <= i < s.len() ==> !id_lt(#[trigger] s[i].order_id, id),
    ensures
        lower_bound(s, id) == k,
{
    lemma_lower_bound(s, id);
    let b = lower_bound(s, id);
    if b < k {
        assert(id_lt(s[b].order_id, id));
    }
    if k < b {
        assert(id_lt(s[k].order_id, id));
    }
}

/// An ascending book holds `id` exactly if one of its entries has it, and
/// then at one place only.
pub proof fn lemma_holds(s: Seq<OrderViewData>, id: OrderId)
    requires
        ascending(s),
    ensures
        holds(s, id) <==> exists|i: int| 0 <= i < s.len() && #[trigger] s[i].order_id == id,
        forall|i: int| 0 <= i < s.len() && #[trigger] s[i].order_id == id ==> i == lower_bound(s, id),
{
    lemma_lower_bound(s, id);
    let k = lower_bound(s, id);
    assert forall|i: int| 0 <= i < s.len() && #[trigger] s[i].order_id == id implies i == k by {
        if k < i {
            assert(id_lt(s[k].order_id, s[i].order_id));
        }
    }
}

/// Putting an entry keeps the book ascending; afterwards the book holds the
/// entry under its id and everything else as before.
pub proof fn lemma_put(s: Seq<OrderViewData>, e: OrderViewData)
    requires
        ascending(s),
    ensures
        ascending(put(s, e)),
        lookup(put(s, e), e.order_id) == Some(e.order),
        forall|id: OrderId| id != e.order_id ==> lookup(put(s, e), id) == lookup(s, id),
        put(s, e).len() == if holds(s, e.order_id) { s.len() } else { s.len() + 1 },
{
    lemma_lower_bound(s, e.order_id);
    let k = lower_bound(s, e.order_id);
    let t = put(s, e);
    if holds(s, e.order_id) {
        assert forall|id: OrderId| true implies #[trigger] lower_bound(t, id) == lower_bound(s, id) by {
            lemma_lower_bound(s, id);
            let b = lower_bound(s, id);
            lemma_lower_bound_is(t, id, b);
        }
        assert forall|id: OrderId| id != e.order_id implies lookup(t, id) == lookup(s, id) by {
            lemma_lower_bound(s, id);
        }
    } else {
        assert(lower_bound(t, e.order_id) == k) by {
            lemma_lower_bound_is(t, e.order_id, k);
        }
        assert forall|id: OrderId| id != e.order_id implies lookup(t, id) == lookup(s, id) by {
            lemma_lower_bound(s, id);
            let b = lower_bound(s, id);
            let c = if id_lt(e.order_id, id) { b + 1 } else { b };
            lemma_lower_bound_is(t, id, c);
        }
    }
}

/// Removing an id keeps the book ascending; afterwards the book holds nothing
/// under that id and everything else as before.
pub proof fn lemma_removed(s: Seq<OrderViewData>, id: OrderId)
    requires
        ascending(s),
    ensures
        ascending(removed(s, id)),
        lookup(removed(s, id), id) is None,
        forall|other: OrderId| other != id ==> lookup(removed(s, id), other) == lookup(s, other),
        removed(s, id).len() == if holds(s, id) { s.len() - 1 } else { s.len() as int },
{
    lemma_lower_bound(s, id);
    let k = lower_bound(s, id);
    let t = removed(s, id);
    if holds(s, id) {
        assert forall|other: OrderId| true implies lookup(t, other) == (if other == id {
            None
        } else {
            lookup(s, other)
        }) by {
            lemma_lower_bound(s, other);
            let b = lower_bound(s, other);
            let c = if b <= k { b } else { b - 1 };
            lemma_lower_bound_is(t, other, c);
        }
    }
}

/// A copy of `entries`, entry by entry.
pub fn copy_entries(entries: &Vec<OrderView>) -> (copy: Vec<OrderView>)
    ensures
        entry_views(copy@) == entry_views(entries@),
{
    let mut copy: Vec<OrderView> = Vec::new();
    let mut i: usize = 0;
    while i < entries.len()
        invariant
            i <= entries@.len(),
            copy@.len() == i,
            forall|j: int| 0 <= j < i ==> copy@[j]@ == entries@[j]@,
        decreases entries@.len() - i,
    {
        copy.push(entries[i].clone());
        i += 1;
    }
    copy
}

/// Orders in ascending order of their ids.
pub struct OrderBook {
    entries: Vec<OrderView>,
}

impl View for OrderBook {
    type V = Seq<OrderViewData>;

    closed spec fn view(&self) -> Seq<OrderViewData> {
        entry_views(self.entries@)
    }
}

impl OrderBook {
    /// The book is in ascending order.
    pub open spec fn wf(&self) -> bool {
        ascending(self@)
    }

    /// An empty book.
    pub fn new() -> (book: Self)
        ensures
            book.wf(),
            book@ == Seq::<OrderViewData>::empty(),
    {
        OrderBook { entries: Vec::new() }
    }

    /// The number of orders in the book.
    pub fn len(&self) -> (n: usize)
        ensures
            n == self@.len(),
    {
        self.entries.len()
    }

    /// Whether the book holds no order.
    pub fn is_empty(&self) -> (empty: bool)
        ensures
            empty == (self@.len() == 0),
    {
        self.entries.len() == 0
    }

    /// The place where `id` stands, or would stand.
    fn search(&self, id: &OrderId) -> (k: usize)
        requires
            self.wf(),
        ensures
            k == lower_bound(self@, *id),
            k <= self@.len(),
            holds(self@, *id) == (k < self.entries@.len() && self.entries@[k as int].order_id == *id),
    {
        let mut lo: usize = 0;
        let mut hi: usize = self.entries.len();
        while lo < hi
            invariant
                0 <= lo <= hi <= self.entries@.len(),
                self@.len() == self.entries@.len(),
                forall|i: int| 0 <= i < lo ==> id_lt(#[trigger] self@[i].order_id, *id),
                forall|i: int| hi <= i < self@.len() ==> !id_lt(#[trigger] self@[i].order_id, *id),
                ascending(self@),
            decreases hi - lo,
        {
            let mid: usize = lo + (hi - lo) / 2;
            if self.entries[mid].order_id.precedes(id) {
                assert forall|i: int| 0 <= i < mid + 1 implies id_lt(#[trigger] self@[i].order_id, *id) by {
                    if i < mid {
                        assert(id_lt(self@[i].order_id, self@[mid as int].order_id));
                    }
                }
                lo = mid + 1;
            } else {
                assert forall|i: int| mid <= i < self@.len() implies !id_lt(
                    #[trigger] self@[i].order_id,
                    *id,
                ) by {
                    if mid < i {
                        assert(id_lt(self@[mid as int].order_id, self@[i].order_id));
                    }
                }
                hi = mid;
            }
        }
        proof {
            lemma_lower_bound_is(self@, *id, lo as int);
        }
        lo
    }

    /// Whether the book holds an order under `id`.
    pub fn contains_key(&self, id: &OrderId) -> (found: bool)
        requires
            self.wf(),
        ensures
            found == holds(self@, *id),
    {
        let k: usize = self.search(id);
        k < self.entries.len() && self.entries[k].order_id == *id
    }

    /// The order that the book holds under `id`.
    pub fn get(&self, id: &OrderId) -> (found: Option<Order>)
        requires
            self.wf(),
        ensures
            match found {
                Some(order) => lookup(self@, *id) == Some(order@),
                None => lookup(self@, *id) is None,
            },
    {
        let k: usize = self.search(id);
        if k < self.entries.len() && self.entries[k].order_id == *id {
            Some(self.entries[k].order.clone())
        } else {
            None
        }
    }

    /// Puts `order` into the book under `id`; an order that stood there gives
    /// way to it.
    pub fn insert(&mut self, id: OrderId, order: Order)
        requires
            old(self).wf(),
        ensures
            final(self).wf(),
            final(self)@ == put(old(self)@, OrderViewData { order: order@, order_id: id }),
    {
        let k: usize = self.search(&id);
        let ghost before = self@;
        let ghost e = OrderViewData { order: order@, order_id: id };
        let entry = OrderView { order, order_id: id };
        if k < self.entries.len() && self.entries[k].order_id == id {
            self.entries[k] = entry;
            assert(self@ =~= before.update(k as int, e));
        } else {
            self.entries.insert(k, entry);
            assert(self@ =~= before.insert(k as int, e));
        }
        proof {
            lemma_put(before, e);
        }
    }

    /// Takes the order under `id` out of the book and returns it.
    pub fn remove(&mut self, id: &OrderId) -> (taken: Option<Order>)
        requires
            old(self).wf(),
        ensures
            final(self).wf(),
            final(self)@ == removed(old(self)@, *id),
            match taken {
                Some(order) => lookup(old(self)@, *id) == Some(order@),
                None => lookup(old(self)@, *id) is None,
            },
    {
        let k: usize = self.search(id);
        let ghost before = self@;
        if k < self.entries.len() && self.entries[k].order_id == *id {
            let entry = self.entries.remove(k);
            assert(self@ =~= before.remove(k as int));
            Some(entry.order)
        } else {
            None
        }
    }

    /// The order at place `i` of the book, counted from the lowest id.
    pub fn entry(&self, i: usize) -> (entry: &OrderView)
        requires
            i < self@.len(),
        ensures
            entry@ == self@[i as int],
    {
        &self.entries[i]
    }

    /// All orders of the book, lowest id first.
    pub fn entries(&self) -> (all: Vec<OrderView>)
        ensures
            entry_views(all@) == self@,
    {
        self.first(self.entries.len())
    }

    /// The book that holds `entries`, which must stand in ascending order of
    /// their ids; `None` where they do not.
    pub fn from_entries(entries: Vec<OrderView>) -> (book: Option<Self>)
        ensures
            book is Some <==> ascending(entry_views(entries@)),
            book is Some ==> book->Some_0.wf() && book->Some_0@ == entry_views(entries@),
    {
        let ghost s = entry_views(entries@);
        let mut k: usize = 1;
        while k < entries.len()
            invariant
                1 <= k,
                s == entry_views(entries@),
                forall|i: int, j: int| 0 <= i < j < k && j < s.len() ==> id_lt(
                    #[trigger] s[i].order_id,
                    #[trigger] s[j].order_id,
                ),
            decreases entries@.len() - k,
        {
            if !entries[k - 1].order_id.precedes(&entries[k].order_id) {
                assert(!id_lt(s[k - 1].order_id, s[k as int].order_id));
                return None;
            }
            assert forall|i: int, j: int| 0 <= i < j < k + 1 && j < s.len() implies id_lt(
                #[trigger] s[i].order_id,
                #[trigger] s[j].order_id,
            ) by {
                if j == k && i < k - 1 {
                    assert(id_lt(s[i].order_id, s[k - 1].order_id));
                }
            }
            k += 1;
        }
        Some(OrderBook { entries })
    }

    /// The first `limit` orders of the book, lowest id first.
    pub fn first(&self, limit: usize) -> (shown: Vec<OrderView>)
        ensures
            entry_views(shown@) == top(self@, limit as int),
    {
        let mut shown: Vec<OrderView> = Vec::new();
        let mut i: usize = 0;
        while i < self.entries.len() && i < limit
            invariant
                i <= self.entries@.len(),
                i <= limit,
                shown@.len() == i,
                forall|j: int| 0 <= j < i ==> shown@[j]@ == self.entries@[j]@,
            decreases self.entries@.len() - i,
        {
            shown.push(self.entries[i].clone());
            i += 1;
        }
        shown
    }
}

} // verus!
