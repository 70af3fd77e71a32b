use vstd::prelude::*;
use crate::errors::{RoadieAppError, RoadieResult};
use crate::model::{BagItem, BagItemFilter, BagItemPage, TakenBagItem};
use crate::query::{
    matches_filter, newest_first, page_index, page_size_of, page_slice, pages_for,
    DEFAULT_PAGE_SIZE,
};
use vstd::string::StringExecFns;

verus! {

/// A stored draw: the item is referred to by id.
#[derive(Clone, Copy, Debug, PartialEq, Eq, Structural)]
pub struct TakenRow {
    pub id: i64,
    pub item_id: i64,
    pub extraction_time: i64,
    pub rounds: u32,
    pub done: bool,
}

/// The items and the draw history. Rows are kept in order of creation, and
/// identifiers are handed out in increasing order from 1.
///
/// Every change takes the store by `&mut`, so a draw (pick, decrement, record)
/// happens as one step that no other draw can interleave with; callers that
/// share a store across requests serialize access to it. A draw that cannot
/// record its row fails before it changes anything.
pub struct BagStore {
    items: Vec<BagItem>,
    taken: Vec<TakenRow>,
    next_item_id: i64,
    next_taken_id: i64,
}

/// The content of a store.
pub struct StoreView {
    pub items: Seq<BagItem>,
    pub taken: Seq<TakenRow>,
    pub next_item_id: i64,
    pub next_taken_id: i64,
}

impl View for BagStore {
    type V = StoreView;

    closed spec fn view(&self) -> StoreView {
        StoreView {
            items: self.items@,
            taken: self.taken@,
            next_item_id: self.next_item_id,
            next_taken_id: self.next_taken_id,
        }
    }
}

/// An item can be drawn: it is infinite, or some of it is left. The quantity
/// alone decides; the draw history is a record, not a second count.
pub open spec fn is_drawable(it: BagItem) -> bool {
    it.infinite || it.quantity >= 1
}

/// The drawable items, newest first.
pub open spec fn drawable(items: Seq<BagItem>) -> Seq<BagItem>
    decreases items.len(),
{
    if items.len() == 0 {
        Seq::empty()
    } else {
        drawable(items.drop_first()) + if is_drawable(items[0]) {
            seq![items[0]]
        } else {
            Seq::empty()
        }
    }
}

/// An item after one draw: a finite item has one unit less.
pub open spec fn used_up(it: BagItem) -> BagItem {
    if it.infinite {
        it
    } else {
        BagItem { quantity: (it.quantity - 1) as i32, ..it }
    }
}

/// The item with identifier `id`, if there is one.
pub open spec fn find_item(items: Seq<BagItem>, id: i64) -> Option<BagItem>
    decreases items.len(),
{
    if items.len() == 0 {
        None
    } else if items.last().id == id {
        Some(items.last())
    } else {
        find_item(items.drop_last(), id)
    }
}

/// The draw with identifier `id`, if there is one.
pub open spec fn find_row(rows: Seq<TakenRow>, id: i64) -> Option<TakenRow>
    decreases rows.len(),
{
    if rows.len() == 0 {
        None
    } else if rows.last().id == id {
        Some(rows.last())
    } else {
        find_row(rows.drop_last(), id)
    }
}

/// The items without the one whose identifier is `id`.
pub open spec fn without_item(items: Seq<BagItem>, id: i64) -> Seq<BagItem>
    decreases items.len(),
{
    if items.len() == 0 {
        Seq::empty()
    } else {
        without_item(items.drop_last(), id) + if items.last().id == id {
            Seq::empty()
        } else {
            seq![items.last()]
        }
    }
}

/// The item as an overwrite by `by` leaves it: replaced when the ids agree.
pub open spec fn overwritten(it: BagItem, by: BagItem) -> BagItem {
    if it.id == by.id { by } else { it }
}

/// The stored form of a draw record.
pub open spec fn row_of(t: TakenBagItem) -> TakenRow {
    TakenRow {
        id: t.id,
        item_id: t.item_id,
        extraction_time: t.extraction_time,
        rounds: t.rounds,
        done: t.done,
    }
}

pub open spec fn row_overwritten(r: TakenRow, by: TakenRow) -> TakenRow {
    if r.id == by.id { by } else { r }
}

/// A draw record joined with the item it refers to, as that item is now.
pub open spec fn joined(items: Seq<BagItem>, r: TakenRow) -> TakenBagItem {
    TakenBagItem {
        id: r.id,
        item_id: r.item_id,
        item: find_item(items, r.item_id),
        extraction_time: r.extraction_time,
        rounds: r.rounds,
        done: r.done,
    }
}

/// The draws of one item, newest first.
pub open spec fn rows_for(rows: Seq<TakenRow>, item_id: i64) -> Seq<TakenRow>
    decreases rows.len(),
{
    if rows.len() == 0 {
        Seq::empty()
    } else {
        rows_for(rows.drop_first(), item_id) + if rows[0].item_id == item_id {
            seq![rows[0]]
        } else {
            Seq::empty()
        }
    }
}

/// The current draw: the newest one, as long as it is not done.
pub open spec fn current_draw(s: StoreView) -> Option<TakenBagItem> {
    if s.taken.len() == 0 {
        None
    } else if s.taken.last().done {
        None
    } else {
        Some(joined(s.items, s.taken.last()))
    }
}

impl StoreView {
    pub open spec fn wf(self) -> bool {
        &&& 1 <= self.next_item_id
        &&& 1 <= self.next_taken_id
        &&& forall|i: int, j: int|
            0 <= i < j < self.items.len() ==> self.items[i].id < self.items[j].id
        &&& forall|i: int| 0 <= i < self.items.len() ==> 1 <= #[trigger] self.items[i].id < self.next_item_id
        &&& forall|i: int, j: int|
            0 <= i < j < self.taken.len() ==> self.taken[i].id < self.taken[j].id
        &&& forall|i: int| 0 <= i < self.taken.len() ==> 1 <= #[trigger] self.taken[i].id < self.next_taken_id
    }

    /// The item as stored by an insert: it gets the next identifier.
    pub open spec fn stored(self, item: BagItem) -> BagItem {
        BagItem { id: self.next_item_id, ..item }
    }

    /// The store after inserting `item`.
    pub open spec fn inserted(self, item: BagItem) -> StoreView {
        StoreView {
            items: self.items.push(self.stored(item)),
            next_item_id: (self.next_item_id + 1) as i64,
            ..self
        }
    }

    /// The store after overwriting the item that has `item`'s identifier.
    pub open spec fn updated(self, item: BagItem) -> StoreView {
        StoreView { items: self.items.map_values(|x: BagItem| overwritten(x, item)), ..self }
    }

    /// The store after deleting the item `id`; its draws stay.
    pub open spec fn deleted(self, id: i64) -> StoreView {
        StoreView { items: without_item(self.items, id), ..self }
    }

    /// The item that the draw at position `pick` of the drawable items takes.
    pub open spec fn chosen(self, pick: int) -> BagItem {
        drawable(self.items)[pick]
    }

    /// The record that a draw at `pick` creates.
    pub open spec fn new_row(self, pick: int, rounds: u32, now: i64) -> TakenRow {
        TakenRow {
            id: self.next_taken_id,
            item_id: self.chosen(pick).id,
            extraction_time: now,
            rounds: rounds,
            done: false,
        }
    }

    /// The store after the draw at position `pick` of the drawable items.
    pub open spec fn drawn(self, pick: int, rounds: u32, now: i64) -> StoreView {
        StoreView {
            items: self.items.map_values(
                |x: BagItem| if x.id == self.chosen(pick).id { used_up(x) } else { x },
            ),
            taken: self.taken.push(self.new_row(pick, rounds, now)),
            next_item_id: self.next_item_id,
            next_taken_id: (self.next_taken_id + 1) as i64,
        }
    }

    /// The store after overwriting the draw that has `t`'s identifier.
    pub open spec fn taken_updated(self, t: TakenBagItem) -> StoreView {
        StoreView {
            taken: self.taken.map_values(|r: TakenRow| row_overwritten(r, row_of(t))),
            ..self
        }
    }
}

pub proof fn lemma_drawable_concat(a: Seq<BagItem>, b: Seq<BagItem>)
    ensures
        drawable(a + b) == drawable(b) + drawable(a),
    decreases a.len(),
{
    if a.len() == 0 {
        assert(a + b =~= b);
        assert(drawable(b) + drawable(a) =~= drawable(b));
    } else {
        assert((a + b).drop_first() =~= a.drop_first() + b);
        lemma_drawable_concat(a.drop_first(), b);
        assert((a + b)[0] == a[0]);
        assert(drawable(a + b) =~= drawable(b) + drawable(a));
    }
}

impl BagStore {
    pub open spec fn wf(&self) -> bool {
        self@.wf()
    }

    /// An empty store.
    pub fn new() -> (r: BagStore)
        ensures
            r.wf(),
            r@.items.len() == 0,
            r@.taken.len() == 0,
            r@.next_item_id == 1,
            r@.next_taken_id == 1,
    {
        BagStore { items: Vec::new(), taken: Vec::new(), next_item_id: 1, next_taken_id: 1 }
    }

    /// Stores `item` under a new identifier; the identifier it carries is
    /// ignored. Fails, changing nothing, when identifiers are used up.
    pub fn insert(&mut self, item: BagItem) -> (r: RoadieResult<BagItem>)
        requires
            old(self).wf(),
        ensures
            final(self).wf(),
            old(self)@.next_item_id == i64::MAX ==> r is Err && r->Err_0 is ServerError
                && final(self)@ == old(self)@,
            old(self)@.next_item_id < i64::MAX ==> r == Ok::<BagItem, RoadieAppError>(
                old(self)@.stored(item),
            ) && final(self)@ == old(self)@.inserted(item),
    {
        if self.next_item_id == i64::MAX {
            return Err(RoadieAppError::ServerError(String::from_str("item identifiers exhausted")));
        }
        let stored = BagItem { id: self.next_item_id, ..item };
        let out = stored.snapshot();
        let ghost before = self.items@;
        self.items.push(stored);
        self.next_item_id = self.next_item_id + 1;
        assert(self.items@ == before.push(out));
        assert forall|i: int| 0 <= i < self.items@.len() implies 1 <= #[trigger] self.items@[i].id
            < self.next_item_id by {
            if i < before.len() {
                assert(self.items@[i] == before[i]);
            }
        }
        assert forall|i: int, j: int|
            0 <= i < j < self.items@.len() implies self.items@[i].id < self.items@[j].id by {
            assert(self.items@[i] == before[i]);
            if j < before.len() {
                assert(self.items@[j] == before[j]);
            }
        }
        assert(self@.items == self.items@);
        assert(self@.taken == old(self)@.taken);
        assert(self@.wf());
        Ok(out)
    }

    /// Overwrites every field of the item that has `item`'s identifier; does
    /// nothing when there is none.
    pub fn update(&mut self, item: &BagItem)
        requires
            old(self).wf(),
        ensures
            final(self).wf(),
            final(self)@ == old(self)@.updated(*item),
    {
        let ghost old_items = self.items@;
        let mut k: usize = 0;
        while k < self.items.len()
            invariant
                self.items@.len() == old_items.len(),
                k <= self.items@.len(),
                self.taken@ == old(self).taken@,
                self.next_item_id == old(self).next_item_id,
                self.next_taken_id == old(self).next_taken_id,
                old(self)@.items == old_items,
                forall|j: int| 0 <= j < k ==> self.items@[j] == overwritten(old_items[j], *item),
                forall|j: int| k <= j < old_items.len() ==> self.items@[j] == old_items[j],
            decreases old_items.len() - k,
        {
            if self.items[k].id == item.id {
                self.items.set(k, item.snapshot());
            }
            k = k + 1;
        }
        assert(self.items@ =~= old_items.map_values(|x: BagItem| overwritten(x, *item)));
        assert forall|j: int| 0 <= j < old_items.len() implies #[trigger] self.items@[j].id
            == old_items[j].id by {}
        assert forall|i: int, j: int|
            0 <= i < j < self.items@.len() implies self.items@[i].id < self.items@[j].id by {
            assert(self.items@[i].id == old_items[i].id);
            assert(self.items@[j].id == old_items[j].id);
        }
        assert(self@.items == self.items@);
        assert(self@.taken == old(self)@.taken);
        assert(self@.next_item_id == old(self)@.next_item_id);
        assert(self@.next_taken_id == old(self)@.next_taken_id);
        assert(forall|i: int| 0 <= i < self@.items.len() ==> 1 <= #[trigger] self@.items[i].id < self@.next_item_id);
        assert(self@.wf());
    }

    /// Removes the item `id`; does nothing when there is none. Its draws stay.
    pub fn delete(&mut self, id: i64)
        requires
            old(self).wf(),
        ensures
            final(self).wf(),
            final(self)@ == old(self)@.deleted(id),
    {
        let ghost old_items = self.items@;
        let mut kept: Vec<BagItem> = Vec::new();
        let mut k: usize = 0;
        while k < self.items.len()
            invariant
                self.items@ == old_items,
                k <= old_items.len(),
                kept@ == without_item(old_items.subrange(0, k as int), id),
            decreases old_items.len() - k,
        {
            assert(old_items.subrange(0, k + 1).drop_last() =~= old_items.subrange(0, k as int));
            if self.items[k].id != id {
                kept.push(self.items[k].snapshot());
            }
            k = k + 1;
        }
        assert(old_items.subrange(0, old_items.len() as int) =~= old_items);
        proof {
            lemma_without_keeps_order(old_items, id, self@.next_item_id);
        }
        self.items = kept;
        assert(self.items@ == without_item(old_items, id));
        assert(self@.items == self.items@);
        assert(self@.taken == old(self)@.taken);
        assert(self@.next_item_id == old(self)@.next_item_id);
        assert(self@.next_taken_id == old(self)@.next_taken_id);
        assert(forall|i: int| 0 <= i < self@.items.len() ==> 1 <= #[trigger] self@.items[i].id < self@.next_item_id);
        assert(self@.wf());
    }

    /// The item `id`, if it exists.
    pub fn by_id(&self, id: i64) -> (r: Option<BagItem>)
        ensures
            r == find_item(self@.items, id),
    {
        let mut i: usize = self.items.len();
        assert(self@.items.subrange(0, i as int) =~= self@.items);
        while i > 0
            invariant
                i <= self.items@.len(),
                find_item(self@.items, id) == find_item(self@.items.subrange(0, i as int), id),
            decreases i,
        {
            let ghost s = self@.items.subrange(0, i as int);
            assert(s.drop_last() =~= self@.items.subrange(0, i - 1));
            if self.items[i - 1].id == id {
                return Some(self.items[i - 1].snapshot());
            }
            i = i - 1;
        }
        None
    }

    /// The number of items that meet the filter, whatever page it asks for.
    pub fn count(&self, filter: &BagItemFilter) -> (r: u64)
        ensures
            r == newest_first(self@.items, filter@).len(),
    {
        let n: usize = self.items.len();
        let mut i: usize = n;
        let mut cnt: usize = 0;
        assert(self@.items.subrange(i as int, i as int) =~= Seq::<BagItem>::empty());
        while i > 0
            invariant
                n == self.items@.len(),
                i <= self.items@.len(),
                cnt == newest_first(self@.items.subrange(i as int, self.items@.len() as int), filter@).len(),
                cnt <= self.items@.len() - i,
            decreases i,
        {
            let ghost tail = self@.items.subrange(i - 1, self.items@.len() as int);
            assert(tail.drop_first() =~= self@.items.subrange(i as int, self.items@.len() as int));
            assert(tail[0] == self.items@[i - 1]);
            if matches_filter(filter, &self.items[i - 1]) {
                cnt = cnt + 1;
            }
            i = i - 1;
        }
        assert(self@.items.subrange(0, self.items@.len() as int) =~= self@.items);
        cnt as u64
    }

    /// The page of the listing that the filter asks for, newest item first,
    /// with the size of the whole listing. A page size of zero is refused.
    pub fn filter(&self, filter: &BagItemFilter) -> (r: RoadieResult<BagItemPage>)
        ensures
            page_size_of(filter@) == 0 ==> r == Err::<BagItemPage, RoadieAppError>(
                RoadieAppError::ValidationFailedError,
            ),
            page_size_of(filter@) > 0 ==> r is Ok,
            r is Ok ==> ({
                let p = r->Ok_0;
                let all = newest_first(self@.items, filter@);
                &&& p.total_results == all.len()
                &&& p.page_size == page_size_of(filter@)
                &&& p.page_num == page_index(filter@) + 1
                &&& p.total_pages == pages_for(all.len() as int, p.page_size as int)
                &&& p.items@ == page_slice(all, p.page_size as int, page_index(filter@) as int)
            }),
    {
        let size: u64 = match filter.page_size {
            Some(s) => s,
            None => DEFAULT_PAGE_SIZE,
        };
        if size == 0 {
            return Err(RoadieAppError::ValidationFailedError);
        }
        let index: u64 = match filter.page_num {
            Some(p) => if p >= 1 { p - 1 } else { 0 },
            None => 0,
        };
        let start: Option<u64> = index.checked_mul(size);
        let n: usize = self.items.len();
        let ghost len = n as int;
        let mut i: usize = n;
        let mut cnt: usize = 0;
        let mut page: Vec<BagItem> = Vec::new();
        assert(self@.items.subrange(len, len) =~= Seq::<BagItem>::empty());
        assert(page@ =~= page_slice(Seq::<BagItem>::empty(), size as int, index as int));
        while i > 0
            invariant
                len == self.items@.len(),
                n == len,
                i <= len,
                size > 0,
                size == page_size_of(filter@),
                index == page_index(filter@),
                start is Some ==> start->Some_0 == index * size,
                start is None ==> index * size > u64::MAX,
                cnt == newest_first(self@.items.subrange(i as int, len), filter@).len(),
                cnt <= len - i,
                page@ == page_slice(
                    newest_first(self@.items.subrange(i as int, len), filter@),
                    size as int,
                    index as int,
                ),
            decreases i,
        {
            let ghost tail = self@.items.subrange(i - 1, len);
            let ghost before = newest_first(self@.items.subrange(i as int, len), filter@);
            assert(tail.drop_first() =~= self@.items.subrange(i as int, len));
            assert(tail[0] == self.items@[i - 1]);
            if matches_filter(filter, &self.items[i - 1]) {
                let here: u64 = cnt as u64;
                let wanted: bool = match start {
                    Some(s) => here >= s && here - s < size,
                    None => false,
                };
                proof {
                    lemma_page_slice_push(before, self.items@[i - 1], size as int, index as int);
                    assert(before + seq![self.items@[i - 1]] =~= before.push(self.items@[i - 1]));
                }
                if wanted {
                    page.push(self.items[i - 1].snapshot());
                }
                cnt = cnt + 1;
            } else {
                assert(newest_first(tail, filter@) =~= before);
            }
            i = i - 1;
        }
        assert(self@.items.subrange(0, len) =~= self@.items);
        let total: u64 = cnt as u64;
        let pages: u64 = if total % size == 0 {
            total / size
        } else {
            assert(size > 1);
            assert(total / size < u64::MAX) by (nonlinear_arith)
                requires
                    size > 1,
                    total <= u64::MAX,
            ;
            total / size + 1
        };
        Ok(BagItemPage {
            items: page,
            page_num: index + 1,
            total_pages: pages,
            page_size: size,
            total_results: total,
        })
    }

    /// The number of items that a draw can take.
    pub fn drawable_count(&self) -> (r: u64)
        ensures
            r == drawable(self@.items).len(),
    {
        let n: usize = self.items.len();
        let mut i: usize = n;
        let mut cnt: usize = 0;
        let ghost len = n as int;
        assert(self@.items.subrange(len, len) =~= Seq::<BagItem>::empty());
        while i > 0
            invariant
                len == self.items@.len(),
                n == len,
                i <= len,
                cnt == drawable(self@.items.subrange(i as int, len)).len(),
                cnt <= len - i,
            decreases i,
        {
            let ghost tail = self@.items.subrange(i - 1, len);
            assert(tail.drop_first() =~= self@.items.subrange(i as int, len));
            assert(tail[0] == self.items@[i - 1]);
            if self.items[i - 1].infinite || self.items[i - 1].quantity >= 1 {
                cnt = cnt + 1;
            }
            i = i - 1;
        }
        assert(self@.items.subrange(0, len) =~= self@.items);
        cnt as u64
    }

    /// The position in `items` of the drawable item at position `pick`, newest first.
    fn find_drawable(&self, pick: u64) -> (k: usize)
        requires
            pick < drawable(self@.items).len(),
        ensures
            k < self@.items.len(),
            self@.items[k as int] == drawable(self@.items)[pick as int],
    {
        let n: usize = self.items.len();
        let mut i: usize = n;
        let mut cnt: usize = 0;
        let ghost len = n as int;
        assert(self@.items.subrange(len, len) =~= Seq::<BagItem>::empty());
        while i > 0
            invariant
                len == self.items@.len(),
                n == len,
                i <= len,
                pick < drawable(self@.items).len(),
                cnt == drawable(self@.items.subrange(i as int, len)).len(),
                cnt <= pick,
                cnt <= len - i,
            decreases i,
        {
            let ghost tail = self@.items.subrange(i - 1, len);
            assert(tail.drop_first() =~= self@.items.subrange(i as int, len));
            assert(tail[0] == self.items@[i - 1]);
            if self.items[i - 1].infinite || self.items[i - 1].quantity >= 1 {
                if cnt as u64 == pick {
                    proof {
                        let front = self@.items.subrange(0, i - 1);
                        assert(front + tail =~= self@.items);
                        lemma_drawable_concat(front, tail);
                    }
                    return i - 1;
                }
                cnt = cnt + 1;
            }
            i = i - 1;
        }
        assert(self@.items.subrange(0, len) =~= self@.items);
        0
    }

    /// The draw at position `pick` of the drawable items (newest first): a
    /// finite item loses one unit, and a record of the draw, not done, is
    /// added. Fails, changing nothing, when draw identifiers are used up.
    pub fn take_at(&mut self, pick: u64, rounds: u32, now: i64) -> (r: RoadieResult<TakenBagItem>)
        requires
            old(self).wf(),
            pick < drawable(old(self)@.items).len(),
            1 <= rounds <= 6,
        ensures
            final(self).wf(),
            old(self)@.next_taken_id == i64::MAX ==> r is Err && r->Err_0 is ServerError
                && final(self)@ == old(self)@,
            old(self)@.next_taken_id < i64::MAX ==> final(self)@ == old(self)@.drawn(
                pick as int,
                rounds,
                now,
            ) && r == Ok::<TakenBagItem, RoadieAppError>(
                joined(final(self)@.items, old(self)@.new_row(pick as int, rounds, now)),
            ),
    {
        if self.next_taken_id == i64::MAX {
            return Err(RoadieAppError::ServerError(String::from_str("draw identifiers exhausted")));
        }
        let ghost s0 = self@;
        let k = self.find_drawable(pick);
        proof {
            lemma_drawable_all(s0.items);
        }
        let mut item = self.items[k].snapshot();
        if !item.infinite {
            item.quantity = item.quantity - 1;
        }
        let out = item.snapshot();
        let item_id = item.id;
        self.items.set(k, item);
        let row = TakenRow {
            id: self.next_taken_id,
            item_id: item_id,
            extraction_time: now,
            rounds: rounds,
            done: false,
        };
        self.taken.push(row);
        self.next_taken_id = self.next_taken_id + 1;
        proof {
            let chosen = s0.chosen(pick as int);
            assert(self.items@ =~= s0.items.map_values(
                |x: BagItem| if x.id == chosen.id { used_up(x) } else { x },
            )) by {
                assert forall|j: int| 0 <= j < s0.items.len() && j != k implies s0.items[j].id
                    != chosen.id by {
                    if j < k {
                        assert(s0.items[j].id < s0.items[k as int].id);
                    } else {
                        assert(s0.items[k as int].id < s0.items[j].id);
                    }
                }
            }
            assert(self.taken@ == s0.taken.push(s0.new_row(pick as int, rounds, now)));
            assert(self@ == s0.drawn(pick as int, rounds, now));
            assert forall|j: int| 0 <= j < s0.items.len() implies #[trigger] self.items@[j].id
                == s0.items[j].id by {}
            assert forall|i: int, j: int|
                0 <= i < j < self.items@.len() implies self.items@[i].id < self.items@[j].id by {
                assert(self.items@[i].id == s0.items[i].id);
                assert(self.items@[j].id == s0.items[j].id);
            }
            assert forall|i: int| 0 <= i < self.taken@.len() implies 1 <= #[trigger] self.taken@[i].id
                < self.next_taken_id by {
                if i < s0.taken.len() {
                    assert(self.taken@[i] == s0.taken[i]);
                }
            }
            assert forall|i: int, j: int|
                0 <= i < j < self.taken@.len() implies self.taken@[i].id < self.taken@[j].id by {
                assert(self.taken@[i] == s0.taken[i]);
                if j < s0.taken.len() {
                    assert(self.taken@[j] == s0.taken[j]);
                }
            }
            assert(self@.wf());
            lemma_find_unique(self@.items, k as int);
        }
        Ok(TakenBagItem {
            id: row.id,
            item_id: item_id,
            item: Some(out),
            extraction_time: now,
            rounds: rounds,
            done: false,
        })
    }

    fn join(&self, row: TakenRow) -> (r: TakenBagItem)
        ensures
            r == joined(self@.items, row),
    {
        TakenBagItem {
            id: row.id,
            item_id: row.item_id,
            item: self.by_id(row.item_id),
            extraction_time: row.extraction_time,
            rounds: row.rounds,
            done: row.done,
        }
    }

    /// The draw `id`, joined with its item, if it exists.
    pub fn taken_by_id(&self, id: i64) -> (r: Option<TakenBagItem>)
        ensures
            find_row(self@.taken, id) is None ==> r is None,
            find_row(self@.taken, id) is Some ==> r == Some(
                joined(self@.items, find_row(self@.taken, id)->Some_0),
            ),
    {
        let mut i: usize = self.taken.len();
        assert(self@.taken.subrange(0, i as int) =~= self@.taken);
        while i > 0
            invariant
                i <= self.taken@.len(),
                find_row(self@.taken, id) == find_row(self@.taken.subrange(0, i as int), id),
            decreases i,
        {
            let ghost s = self@.taken.subrange(0, i as int);
            assert(s.drop_last() =~= self@.taken.subrange(0, i - 1));
            if self.taken[i - 1].id == id {
                return Some(self.join(self.taken[i - 1]));
            }
            i = i - 1;
        }
        None
    }

    /// Overwrites the stored draw that has `t`'s identifier with `t`'s item
    /// identifier, time, rounds and completion; does nothing when there is none.
    pub fn update_taken(&mut self, t: &TakenBagItem)
        requires
            old(self).wf(),
        ensures
            final(self).wf(),
            final(self)@ == old(self)@.taken_updated(*t),
    {
        let by = TakenRow {
            id: t.id,
            item_id: t.item_id,
            extraction_time: t.extraction_time,
            rounds: t.rounds,
            done: t.done,
        };
        let ghost old_rows = self.taken@;
        let mut k: usize = 0;
        while k < self.taken.len()
            invariant
                self.taken@.len() == old_rows.len(),
                k <= self.taken@.len(),
                self.items@ == old(self).items@,
                self.next_item_id == old(self).next_item_id,
                self.next_taken_id == old(self).next_taken_id,
                old(self)@.taken == old_rows,
                by == row_of(*t),
                forall|j: int| 0 <= j < k ==> self.taken@[j] == row_overwritten(old_rows[j], by),
                forall|j: int| k <= j < old_rows.len() ==> self.taken@[j] == old_rows[j],
            decreases old_rows.len() - k,
        {
            if self.taken[k].id == by.id {
                self.taken.set(k, by);
            }
            k = k + 1;
        }
        assert(self.taken@ =~= old_rows.map_values(|r: TakenRow| row_overwritten(r, row_of(*t))));
        assert forall|j: int| 0 <= j < old_rows.len() implies #[trigger] self.taken@[j].id
            == old_rows[j].id by {}
        assert forall|i: int, j: int|
            0 <= i < j < self.taken@.len() implies self.taken@[i].id < self.taken@[j].id by {
            assert(self.taken@[i].id == old_rows[i].id);
            assert(self.taken@[j].id == old_rows[j].id);
        }
        assert(self@.taken == self.taken@);
        assert(self@.items == old(self)@.items);
        assert(forall|i: int| 0 <= i < self@.taken.len() ==> 1 <= #[trigger] self@.taken[i].id < self@.next_taken_id);
        assert(self@.wf());
    }

    /// The draws of item `item_id`, newest first, each joined with the item.
    pub fn for_item(&self, item_id: i64) -> (r: Vec<TakenBagItem>)
        ensures
            r@ == rows_for(self@.taken, item_id).map_values(|row: TakenRow| joined(self@.items, row)),
    {
        let n: usize = self.taken.len();
        let ghost len = n as int;
        let mut i: usize = n;
        let mut out: Vec<TakenBagItem> = Vec::new();
        assert(self@.taken.subrange(len, len) =~= Seq::<TakenRow>::empty());
        assert(out@ =~= rows_for(Seq::<TakenRow>::empty(), item_id).map_values(
            |row: TakenRow| joined(self@.items, row),
        ));
        while i > 0
            invariant
                n == self.taken@.len(),
                len == n,
                i <= n,
                out@ == rows_for(self@.taken.subrange(i as int, len), item_id).map_values(
                    |row: TakenRow| joined(self@.items, row),
                ),
            decreases i,
        {
            let ghost tail = self@.taken.subrange(i - 1, len);
            let ghost before = rows_for(self@.taken.subrange(i as int, len), item_id);
            assert(tail.drop_first() =~= self@.taken.subrange(i as int, len));
            assert(tail[0] == self.taken@[i - 1]);
            if self.taken[i - 1].item_id == item_id {
                out.push(self.join(self.taken[i - 1]));
                assert(out@ =~= rows_for(tail, item_id).map_values(
                    |row: TakenRow| joined(self@.items, row),
                ));
            } else {
                assert(rows_for(tail, item_id) =~= before);
            }
            i = i - 1;
        }
        assert(self@.taken.subrange(0, len) =~= self@.taken);
        out
    }

    /// The current draw: the newest one, unless it is done.
    pub fn last(&self) -> (r: Option<TakenBagItem>)
        ensures
            r == current_draw(self@),
    {
        let n = self.taken.len();
        if n == 0 {
            return None;
        }
        let row = self.taken[n - 1];
        if row.done {
            None
        } else {
            Some(self.join(row))
        }
    }
}

/// Deleting keeps the remaining items in order of identifier, all below `next`.
proof fn lemma_without_keeps_order(items: Seq<BagItem>, id: i64, next: i64)
    requires
        forall|i: int, j: int| 0 <= i < j < items.len() ==> items[i].id < items[j].id,
        forall|i: int| 0 <= i < items.len() ==> 1 <= #[trigger] items[i].id < next,
    ensures
        forall|i: int, j: int|
            0 <= i < j < without_item(items, id).len() ==> without_item(items, id)[i].id
                < without_item(items, id)[j].id,
        forall|i: int|
            0 <= i < without_item(items, id).len() ==> 1 <= #[trigger] without_item(items, id)[i].id
                < next,
        forall|i: int|
            0 <= i < without_item(items, id).len() ==> exists|m: int|
                0 <= m < items.len() && #[trigger] without_item(items, id)[i] == items[m],
    decreases items.len(),
{
    if items.len() > 0 {
        let rest = items.drop_last();
        lemma_without_keeps_order(rest, id, next);
        let w = without_item(rest, id);
        assert forall|i: int| 0 <= i < w.len() implies w[i].id < items.last().id by {
            let m = choose|m: int| 0 <= m < rest.len() && w[i] == rest[m];
            assert(items[m] == rest[m]);
        }
        assert forall|i: int|
            0 <= i < without_item(items, id).len() implies exists|m: int|
                0 <= m < items.len() && #[trigger] without_item(items, id)[i] == items[m] by {
            if i < w.len() {
                let m = choose|m: int| 0 <= m < rest.len() && w[i] == rest[m];
                assert(items[m] == rest[m]);
            } else {
                assert(without_item(items, id)[i] == items[items.len() - 1]);
            }
        }
    }
}

/// Every item of the drawable listing can be drawn and comes from the sequence.
pub proof fn lemma_drawable_all(items: Seq<BagItem>)
    ensures
        forall|j: int| 0 <= j < drawable(items).len() ==> is_drawable(#[trigger] drawable(items)[j]),
    decreases items.len(),
{
    if items.len() > 0 {
        lemma_drawable_all(items.drop_first());
        let d = drawable(items.drop_first());
        assert forall|j: int| 0 <= j < drawable(items).len() implies is_drawable(
            #[trigger] drawable(items)[j],
        ) by {
            if j < d.len() {
                assert(drawable(items)[j] == d[j]);
            }
        }
    }
}

/// In a sequence ordered by identifier, looking up an element's identifier finds it.
pub proof fn lemma_find_unique(items: Seq<BagItem>, k: int)
    requires
        0 <= k < items.len(),
        forall|i: int, j: int| 0 <= i < j < items.len() ==> items[i].id < items[j].id,
    ensures
        find_item(items, items[k].id) == Some(items[k]),
    decreases items.len(),
{
    if k < items.len() - 1 {
        assert(items[k].id < items.last().id);
        assert(items.drop_last()[k] == items[k]);
        lemma_find_unique(items.drop_last(), k);
    }
}

/// Adding one element at the end of a listing adds it to the page it falls on.
pub proof fn lemma_page_slice_push<T>(all: Seq<T>, x: T, size: int, index: int)
    requires
        size > 0,
        index >= 0,
    ensures
        page_slice(all.push(x), size, index) == page_slice(all, size, index) + if index * size
            <= all.len() < index * size + size {
            seq![x]
        } else {
            Seq::empty()
        },
{
    assert(index * size >= 0) by (nonlinear_arith)
        requires
            size > 0,
            index >= 0,
    ;
    let s = index * size;
    let n = all.len() as int;
    if n < s {
        assert(page_slice(all.push(x), size, index) =~= Seq::<T>::empty());
        assert(page_slice(all, size, index) =~= Seq::<T>::empty());
    } else if n < s + size {
        assert(page_slice(all.push(x), size, index) =~= page_slice(all, size, index) + seq![x]);
    } else {
        assert(page_slice(all.push(x), size, index) =~= page_slice(all, size, index));
    }
}

} // verus!

