use vstd::prelude::*;
use crate::model::{BagItem, FilterView, TakenBagItem};
use crate::query::{newest_first, page_slice, pages_for, min_int};
use crate::store::{
    current_draw, drawable, find_item, is_drawable, joined, StoreView,
};

verus! {

/// Pages `1..=count` of `all`, cut in pages of `size`, one after the other.
pub open spec fn pages_joined<T>(all: Seq<T>, size: int, count: int) -> Seq<T>
    decreases count,
{
    if count <= 0 {
        Seq::empty()
    } else {
        pages_joined(all, size, count - 1) + page_slice(all, size, count - 1)
    }
}

proof fn lemma_pages_joined_prefix<T>(all: Seq<T>, size: int, count: int)
    requires
        size > 0,
        count >= 0,
    ensures
        pages_joined(all, size, count) == all.subrange(0, min_int(count * size, all.len() as int)),
    decreases count,
{
    if count == 0 {
        assert(pages_joined(all, size, count) =~= all.subrange(0, 0));
    } else {
        lemma_pages_joined_prefix(all, size, count - 1);
        assert((count - 1) * size + size == count * size) by (nonlinear_arith);
        assert((count - 1) * size >= 0) by (nonlinear_arith)
            requires
                count >= 1,
                size > 0,
        ;
        assert(pages_joined(all, size, count) =~= all.subrange(
            0,
            min_int(count * size, all.len() as int),
        ));
    }
}

/// A listing in newest-first order has strictly decreasing identifiers when
/// the stored sequence has strictly increasing ones.
pub proof fn lemma_newest_first_distinct(items: Seq<BagItem>, f: FilterView)
    requires
        forall|i: int, j: int| 0 <= i < j < items.len() ==> items[i].id < items[j].id,
    ensures
        forall|i: int, j: int|
            0 <= i < j < newest_first(items, f).len() ==> newest_first(items, f)[i].id
                > newest_first(items, f)[j].id,
        items.len() > 0 ==> forall|i: int|
            0 <= i < newest_first(items, f).len() ==> #[trigger] newest_first(items, f)[i].id
                >= items[0].id,
    decreases items.len(),
{
    if items.len() > 0 {
        let rest = items.drop_first();
        lemma_newest_first_distinct(rest, f);
        let a = newest_first(rest, f);
        if rest.len() > 0 {
            assert(rest[0] == items[1]);
        }
        assert forall|i: int| 0 <= i < a.len() implies a[i].id > items[0].id by {
            assert(a[i].id >= rest[0].id);
        }
        let nf = newest_first(items, f);
        assert forall|i: int, j: int| 0 <= i < j < nf.len() implies nf[i].id > nf[j].id by {
            if j < a.len() {
                assert(nf[i] == a[i] && nf[j] == a[j]);
            } else {
                assert(nf[i] == a[i]);
            }
        }
    }
}

/// Pagination: with pages of `size > 0` items there are ceil(N / size) pages,
/// and pages 1 to that count, one after the other, give the whole listing of
/// N items exactly once each, with no identifier on two pages.
pub proof fn lemma_pagination_covers(s: StoreView, f: FilterView, size: int)
    requires
        s.wf(),
        size > 0,
    ensures
        ({
            let all = newest_first(s.items, f);
            let count = pages_for(all.len() as int, size);
            &&& (count - 1) * size < all.len() <= count * size || (all.len() == 0 && count == 0)
            &&& pages_joined(all, size, count) == all
            &&& pages_joined(all, size, count).len() == all.len()
            &&& forall|i: int, j: int|
                0 <= i < j < all.len() ==> all[i].id != all[j].id
        }),
{
    let all = newest_first(s.items, f);
    let n = all.len() as int;
    let count = pages_for(n, size);
    lemma_newest_first_distinct(s.items, f);
    assert(count >= 0 && count * size >= n && (n > 0 ==> (count - 1) * size < n)) by (nonlinear_arith)
        requires
            size > 0,
            n >= 0,
            count == (if n % size == 0 { n / size } else { n / size + 1 }),
    {
        assert(n == size * (n / size) + n % size);
        assert(0 <= n % size < size);
    }
    lemma_pages_joined_prefix(all, size, count);
    assert(all.subrange(0, n) =~= all);
}

/// `n` successive draws, each of the newest drawable item.
pub open spec fn draws(s: StoreView, n: nat, rounds: u32, now: i64) -> StoreView
    decreases n,
{
    if n == 0 {
        s
    } else {
        draws(s, (n - 1) as nat, rounds, now).drawn(0, rounds, now)
    }
}

proof fn lemma_drawable_none(items: Seq<BagItem>)
    requires
        forall|j: int| 0 <= j < items.len() ==> !is_drawable(#[trigger] items[j]),
    ensures
        drawable(items) == Seq::<BagItem>::empty(),
    decreases items.len(),
{
    if items.len() > 0 {
        assert(forall|j: int| 0 <= j < items.drop_first().len() ==> items.drop_first()[j] == items[j + 1]);
        lemma_drawable_none(items.drop_first());
    }
}

proof fn lemma_drawable_only(items: Seq<BagItem>, k: int)
    requires
        0 <= k < items.len(),
        forall|j: int| 0 <= j < items.len() && j != k ==> !is_drawable(#[trigger] items[j]),
    ensures
        drawable(items) == if is_drawable(items[k]) {
            seq![items[k]]
        } else {
            Seq::<BagItem>::empty()
        },
    decreases items.len(),
{
    let rest = items.drop_first();
    assert(forall|j: int| 0 <= j < rest.len() ==> rest[j] == items[j + 1]);
    if k == 0 {
        lemma_drawable_none(rest);
        assert(drawable(items) =~= (if is_drawable(items[k]) {
            seq![items[k]]
        } else {
            Seq::<BagItem>::empty()
        }));
    } else {
        lemma_drawable_only(rest, k - 1);
        assert(drawable(items) =~= drawable(rest));
    }
}

proof fn lemma_draws_single(s: StoreView, k: int, q: int, rounds: u32, now: i64, j: nat)
    requires
        s.wf(),
        0 <= k < s.items.len(),
        !s.items[k].infinite,
        s.items[k].quantity == q,
        j <= q,
        forall|m: int| 0 <= m < s.items.len() && m != k ==> !is_drawable(#[trigger] s.items[m]),
    ensures
        draws(s, j, rounds, now).items == s.items.update(
            k,
            BagItem { quantity: (q - j) as i32, ..s.items[k] },
        ),
        draws(s, j, rounds, now).taken.len() == s.taken.len() + j,
    decreases j,
{
    if j > 0 {
        let jm = (j - 1) as nat;
        lemma_draws_single(s, k, q, rounds, now, jm);
        let p = draws(s, jm, rounds, now);
        let cur = BagItem { quantity: (q - jm) as i32, ..s.items[k] };
        assert(p.items[k] == cur);
        assert forall|m: int| 0 <= m < p.items.len() && m != k implies !is_drawable(
            #[trigger] p.items[m],
        ) by {
            assert(p.items[m] == s.items[m]);
        }
        lemma_drawable_only(p.items, k);
        assert(p.chosen(0) == cur);
        assert forall|m: int| 0 <= m < s.items.len() && m != k implies s.items[m].id
            != cur.id by {
            if m < k {
                assert(s.items[m].id < s.items[k].id);
            } else {
                assert(s.items[k].id < s.items[m].id);
            }
        }
        assert(draws(s, j, rounds, now).items =~= s.items.update(
            k,
            BagItem { quantity: (q - j) as i32, ..s.items[k] },
        ));
    }
}

/// Draws of a finite item: when item `k` is finite with quantity `q` and no
/// other item can be drawn, each of the first `q` draws finds it drawable,
/// and after `q` draws nothing can be drawn, its quantity is 0 and exactly
/// `q` draw records were added, none lost and none extra.
pub proof fn lemma_finite_item_draws(s: StoreView, k: int, rounds: u32, now: i64)
    requires
        s.wf(),
        0 <= k < s.items.len(),
        !s.items[k].infinite,
        s.items[k].quantity >= 0,
        forall|m: int| 0 <= m < s.items.len() && m != k ==> !is_drawable(#[trigger] s.items[m]),
    ensures
        ({
            let q = s.items[k].quantity as nat;
            &&& forall|j: nat| j < q ==> #[trigger] drawable(draws(s, j, rounds, now).items) == seq![
                BagItem { quantity: (q - j) as i32, ..s.items[k] },
            ]
            &&& drawable(draws(s, q, rounds, now).items).len() == 0
            &&& draws(s, q, rounds, now).items[k].quantity == 0
            &&& draws(s, q, rounds, now).taken.len() == s.taken.len() + q
        }),
{
    let q = s.items[k].quantity as nat;
    assert forall|j: nat| j < q implies #[trigger] drawable(draws(s, j, rounds, now).items) == seq![
        BagItem { quantity: (q - j) as i32, ..s.items[k] },
    ] by {
        lemma_draws_single(s, k, q as int, rounds, now, j);
        let p = draws(s, j, rounds, now);
        assert forall|m: int| 0 <= m < p.items.len() && m != k implies !is_drawable(
            #[trigger] p.items[m],
        ) by {
            assert(p.items[m] == s.items[m]);
        }
        lemma_drawable_only(p.items, k);
    }
    lemma_draws_single(s, k, q as int, rounds, now, q);
    let p = draws(s, q, rounds, now);
    assert forall|m: int| 0 <= m < p.items.len() && m != k implies !is_drawable(
        #[trigger] p.items[m],
    ) by {
        assert(p.items[m] == s.items[m]);
    }
    lemma_drawable_only(p.items, k);
}

/// Infinite items never run out: a draw leaves every infinite item as it was,
/// quantity included, so it stays drawable.
pub proof fn lemma_infinite_item_stays(s: StoreView, pick: int, rounds: u32, now: i64, k: int)
    requires
        0 <= pick < drawable(s.items).len(),
        0 <= k < s.items.len(),
        s.items[k].infinite,
    ensures
        s.drawn(pick, rounds, now).items[k] == s.items[k],
        is_drawable(s.drawn(pick, rounds, now).items[k]),
{
}

/// The current draw: right after a draw it is that draw, not done; once that
/// draw is overwritten as done there is no current draw.
pub proof fn lemma_current_draw_visibility(s: StoreView, pick: int, rounds: u32, now: i64)
    requires
        s.wf(),
        0 <= pick < drawable(s.items).len(),
    ensures
        ({
            let s1 = s.drawn(pick, rounds, now);
            let t = joined(s1.items, s.new_row(pick, rounds, now));
            &&& current_draw(s1) == Some(t)
            &&& !t.done
            &&& current_draw(s1.taken_updated(TakenBagItem { done: true, ..t })) is None
        }),
{
    let s1 = s.drawn(pick, rounds, now);
    let t = joined(s1.items, s.new_row(pick, rounds, now));
    let s2 = s1.taken_updated(TakenBagItem { done: true, ..t });
    assert(s1.taken.last() == s.new_row(pick, rounds, now));
    assert(s2.taken.last().id == t.id);
}

/// Inserting an item and then looking up the identifier it got gives back the
/// item as it was given, but for that identifier.
pub proof fn lemma_insert_then_get(s: StoreView, item: BagItem)
    requires
        s.wf(),
    ensures
        find_item(s.inserted(item).items, s.next_item_id) == Some(BagItem { id: s.next_item_id, ..item }),
{
    assert(s.inserted(item).items.last() == s.stored(item));
}

} // verus!
