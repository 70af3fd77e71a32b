use vstd::prelude::*;
use vstd::string::StringExecFns;
use crate::auth::User;
use crate::errors::{RoadieAppError, RoadieResult};
use crate::model::{
    form_problems, BagItem, BagItemFilter, BagItemForm, BagItemPage, TakenBagItem,
    validation_outcome,
};
use crate::query::{newest_first, page_index, page_size_of, page_slice, pages_for};
use crate::sources::{now_millis, random_between};
use crate::store::{current_draw, drawable, find_item, joined, rows_for, BagStore, StoreView, TakenRow};
use crate::text::trimmed;

verus! {

/// The new item that a form with id -1 creates for `user` at time `now`.
pub open spec fn new_item(form: BagItemForm, user: User, now: i64) -> BagItem {
    BagItem {
        id: -1i64,
        added_by: user,
        name: form.name,
        description: form.description,
        quantity: form.quantity,
        size: form.size,
        infinite: form.infinite,
        created_at: now,
    }
}

/// An existing item with the editable fields taken from a form.
pub open spec fn edited_item(e: BagItem, form: BagItemForm) -> BagItem {
    BagItem {
        name: form.name,
        description: form.description,
        quantity: form.quantity,
        size: form.size,
        infinite: form.infinite,
        ..e
    }
}

/// What saving a form does, once its caller is known and the form is valid:
/// a form with id -1 creates an item, any other id edits that item.
pub open spec fn save_outcome(
    s: StoreView,
    user: User,
    form: BagItemForm,
    now: i64,
    s2: StoreView,
    r: RoadieResult<BagItemForm>,
) -> bool {
    if form.id == -1 {
        if s.next_item_id == i64::MAX {
            r is Err && r->Err_0 is ServerError && s2 == s
        } else {
            &&& s2 == s.inserted(new_item(form, user, now))
            &&& r == Ok::<BagItemForm, RoadieAppError>(BagItemForm { id: s.next_item_id, ..form })
        }
    } else {
        match find_item(s.items, form.id) {
            None => r == Err::<BagItemForm, RoadieAppError>(RoadieAppError::NotFound) && s2 == s,
            Some(e) => {
                &&& s2 == s.updated(edited_item(e, form))
                &&& r == Ok::<BagItemForm, RoadieAppError>(form)
            },
        }
    }
}

/// Creates or edits an item from a form, at time `now`, given the form's name
/// with white space trimmed. Anonymous callers and invalid forms change nothing.
pub fn create_update_bag_item_trimmed(
    store: &mut BagStore,
    auth: &User,
    item: BagItemForm,
    trimmed_name: &str,
    now: i64,
) -> (r: RoadieResult<BagItemForm>)
    requires
        old(store).wf(),
    ensures
        final(store).wf(),
        auth.anonymous ==> r == Err::<BagItemForm, RoadieAppError>(RoadieAppError::Unauthorized)
            && final(store)@ == old(store)@,
        !auth.anonymous && form_problems(item, trimmed_name@.len() == 0).len() > 0 ==> r is Err
            && validation_outcome(item, trimmed_name@.len() == 0, Some(r->Err_0))
            && final(store)@ == old(store)@,
        !auth.anonymous && form_problems(item, trimmed_name@.len() == 0).len() == 0
            ==> save_outcome(old(store)@, *auth, item, now, final(store)@, r),
{
    if auth.is_anonymous() {
        return Err(RoadieAppError::Unauthorized);
    }
    let errors = item.validate_trimmed(trimmed_name);
    if let Some(e) = errors {
        return Err(e);
    }
    if item.id == -1 {
        let bi = BagItem {
            id: -1,
            added_by: auth.snapshot(),
            name: item.name.clone(),
            description: item.description.clone(),
            quantity: item.quantity,
            size: item.size,
            infinite: item.infinite,
            created_at: now,
        };
        match store.insert(bi) {
            Ok(stored) => Ok(BagItemForm { id: stored.id, ..item }),
            Err(e) => Err(e),
        }
    } else {
        match store.by_id(item.id) {
            Some(e) => {
                let edited = BagItem {
                    id: e.id,
                    added_by: e.added_by,
                    name: item.name.clone(),
                    description: item.description.clone(),
                    quantity: item.quantity,
                    size: item.size,
                    infinite: item.infinite,
                    created_at: e.created_at,
                };
                store.update(&edited);
                Ok(item)
            },
            None => Err(RoadieAppError::NotFound),
        }
    }
}

/// Creates or edits an item from a form; a new item is stamped with the
/// current time. Anonymous callers and invalid forms change nothing.
pub fn create_update_bag_item(store: &mut BagStore, auth: &User, item: BagItemForm) -> (r:
    RoadieResult<BagItemForm>)
    requires
        old(store).wf(),
    ensures
        final(store).wf(),
        auth.anonymous ==> r == Err::<BagItemForm, RoadieAppError>(RoadieAppError::Unauthorized)
            && final(store)@ == old(store)@,
        !auth.anonymous && form_problems(item, trimmed(item.name@).len() == 0).len() > 0 ==> r is Err
            && validation_outcome(item, trimmed(item.name@).len() == 0, Some(r->Err_0))
            && final(store)@ == old(store)@,
        !auth.anonymous && form_problems(item, trimmed(item.name@).len() == 0).len() == 0
            ==> exists|now: i64| save_outcome(old(store)@, *auth, item, now, final(store)@, r),
{
    let now = now_millis();
    let t = crate::text::trim_text(item.name.as_str());
    let name = String::from_str(t);
    create_update_bag_item_trimmed(store, auth, item, name.as_str(), now)
}

/// The item `item_id`; reading needs no identity.
pub fn get_bag_item(store: &BagStore, item_id: i64) -> (r: RoadieResult<BagItem>)
    ensures
        find_item(store@.items, item_id) is None ==> r == Err::<BagItem, RoadieAppError>(
            RoadieAppError::NotFound,
        ),
        find_item(store@.items, item_id) is Some ==> r == Ok::<BagItem, RoadieAppError>(
            find_item(store@.items, item_id)->Some_0,
        ),
{
    match store.by_id(item_id) {
        Some(bi) => Ok(bi),
        None => Err(RoadieAppError::NotFound),
    }
}

/// Deletes the item `item_id`. Its draws stay in the history.
pub fn delete_bag_item(store: &mut BagStore, auth: &User, item_id: i64) -> (r: RoadieResult<()>)
    requires
        old(store).wf(),
    ensures
        final(store).wf(),
        auth.anonymous ==> r == Err::<(), RoadieAppError>(RoadieAppError::Unauthorized)
            && final(store)@ == old(store)@,
        !auth.anonymous && find_item(old(store)@.items, item_id) is None ==> r == Err::<
            (),
            RoadieAppError,
        >(RoadieAppError::NotFound) && final(store)@ == old(store)@,
        !auth.anonymous && find_item(old(store)@.items, item_id) is Some ==> r is Ok
            && final(store)@ == old(store)@.deleted(item_id),
{
    if auth.is_anonymous() {
        return Err(RoadieAppError::Unauthorized);
    }
    match store.by_id(item_id) {
        Some(_) => {
            store.delete(item_id);
            Ok(())
        },
        None => Err(RoadieAppError::NotFound),
    }
}

/// The page of the listing that the filter asks for (no filter: the first
/// page of everything); reading needs no identity. A page size of zero is refused.
pub fn list_bag_items(store: &BagStore, filter: Option<BagItemFilter>) -> (r: RoadieResult<BagItemPage>)
    ensures
        filter is None ==> r is Ok && ({
            let p = r->Ok_0;
            let all = store@.items;
            &&& p.total_results == all.len()
            &&& p.page_size == crate::query::DEFAULT_PAGE_SIZE
            &&& p.page_num == 1
            &&& p.total_pages == pages_for(all.len() as int, p.page_size as int)
            &&& p.items@ == page_slice(newest_first(all, filter_none()), p.page_size as int, 0)
        }),
        filter is Some && page_size_of(filter->Some_0@) == 0 ==> r == Err::<
            BagItemPage,
            RoadieAppError,
        >(RoadieAppError::ValidationFailedError),
        filter is Some && page_size_of(filter->Some_0@) > 0 ==> r is Ok && ({
            let f = filter->Some_0@;
            let p = r->Ok_0;
            let all = newest_first(store@.items, f);
            &&& p.total_results == all.len()
            &&& p.page_size == page_size_of(f)
            &&& p.page_num == page_index(f) + 1
            &&& p.total_pages == pages_for(all.len() as int, p.page_size as int)
            &&& p.items@ == page_slice(all, p.page_size as int, page_index(f) as int)
        }),
{
    let f = match filter {
        Some(f) => f,
        None => BagItemFilter::default(),
    };
    proof {
        if filter is None {
            lemma_newest_first_all(store@.items, f@);
            assert(f@ == filter_none());
        }
    }
    store.filter(&f)
}

/// The filter that restricts nothing and names no page.
pub open spec fn filter_none() -> crate::model::FilterView {
    crate::model::FilterView {
        added_by: None,
        name: None,
        description: None,
        size: None,
        infinite: None,
        page_size: None,
        page_num: None,
    }
}

/// A filter that restricts nothing lists every item.
pub proof fn lemma_newest_first_all(items: Seq<BagItem>, f: crate::model::FilterView)
    requires
        f.added_by is None && f.name is None && f.description is None && f.size is None
            && f.infinite is None,
    ensures
        newest_first(items, f).len() == items.len(),
    decreases items.len(),
{
    if items.len() > 0 {
        lemma_newest_first_all(items.drop_first(), f);
    }
}

/// A draw, given the random choices: `pick` is the position among the
/// drawable items (newest first) and `rounds` the rounds of the draw.
/// When nothing can be drawn the answer is `None` and nothing changes.
pub fn take_random_with(
    store: &mut BagStore,
    auth: &User,
    pick: u64,
    rounds: u32,
    now: i64,
) -> (r: RoadieResult<Option<TakenBagItem>>)
    requires
        old(store).wf(),
        drawable(old(store)@.items).len() > 0 ==> pick < drawable(old(store)@.items).len(),
        1 <= rounds <= 6,
    ensures
        final(store).wf(),
        auth.anonymous ==> r == Err::<Option<TakenBagItem>, RoadieAppError>(
            RoadieAppError::Unauthorized,
        ) && final(store)@ == old(store)@,
        !auth.anonymous && drawable(old(store)@.items).len() == 0 ==> r == Ok::<
            Option<TakenBagItem>,
            RoadieAppError,
        >(None) && final(store)@ == old(store)@,
        !auth.anonymous && drawable(old(store)@.items).len() > 0 && old(store)@.next_taken_id
            == i64::MAX ==> r is Err && r->Err_0 is ServerError && final(store)@ == old(store)@,
        !auth.anonymous && drawable(old(store)@.items).len() > 0 && old(store)@.next_taken_id
            < i64::MAX ==> final(store)@ == old(store)@.drawn(pick as int, rounds, now) && r
            == Ok::<Option<TakenBagItem>, RoadieAppError>(
            Some(joined(final(store)@.items, old(store)@.new_row(pick as int, rounds, now))),
        ),
{
    if auth.is_anonymous() {
        return Err(RoadieAppError::Unauthorized);
    }
    let n = store.drawable_count();
    if n == 0 {
        return Ok(None);
    }
    match store.take_at(pick, rounds, now) {
        Ok(t) => Ok(Some(t)),
        Err(e) => Err(e),
    }
}

/// A draw with a uniformly chosen drawable item and uniformly chosen rounds
/// from 1 to 6, stamped with the current time.
pub fn take_random(store: &mut BagStore, auth: &User) -> (r: RoadieResult<Option<TakenBagItem>>)
    requires
        old(store).wf(),
    ensures
        final(store).wf(),
        auth.anonymous ==> r == Err::<Option<TakenBagItem>, RoadieAppError>(
            RoadieAppError::Unauthorized,
        ) && final(store)@ == old(store)@,
        !auth.anonymous && drawable(old(store)@.items).len() == 0 ==> r == Ok::<
            Option<TakenBagItem>,
            RoadieAppError,
        >(None) && final(store)@ == old(store)@,
        !auth.anonymous && drawable(old(store)@.items).len() > 0 && old(store)@.next_taken_id
            == i64::MAX ==> r is Err && r->Err_0 is ServerError && final(store)@ == old(store)@,
        !auth.anonymous && drawable(old(store)@.items).len() > 0 && old(store)@.next_taken_id
            < i64::MAX ==> exists|pick: int, rounds: u32, now: i64|
            0 <= pick < drawable(old(store)@.items).len() && 1 <= rounds <= 6
                && final(store)@ == old(store)@.drawn(pick, rounds, now) && r == Ok::<
                Option<TakenBagItem>,
                RoadieAppError,
            >(Some(joined(final(store)@.items, old(store)@.new_row(pick, rounds, now)))),
{
    if auth.is_anonymous() {
        return Err(RoadieAppError::Unauthorized);
    }
    let n = store.drawable_count();
    if n == 0 {
        return Ok(None);
    }
    let pick = random_between(0, n);
    let rounds = random_between(1, 7) as u32;
    let now = now_millis();
    take_random_with(store, auth, pick, rounds, now)
}

/// Overwrites a draw, typically to mark it done.
pub fn update_taken(store: &mut BagStore, auth: &User, taken_item: &TakenBagItem) -> (r: RoadieResult<()>)
    requires
        old(store).wf(),
    ensures
        final(store).wf(),
        auth.anonymous ==> r == Err::<(), RoadieAppError>(RoadieAppError::Unauthorized)
            && final(store)@ == old(store)@,
        !auth.anonymous ==> r is Ok && final(store)@ == old(store)@.taken_updated(*taken_item),
{
    if auth.is_anonymous() {
        return Err(RoadieAppError::Unauthorized);
    }
    store.update_taken(taken_item);
    Ok(())
}

/// The current draw, if the newest one is not done; reading needs no identity.
pub fn last_taken(store: &BagStore) -> (r: Option<TakenBagItem>)
    ensures
        r == current_draw(store@),
{
    store.last()
}

/// The draws of item `item_id`, newest first; reading needs no identity.
pub fn for_item(store: &BagStore, item_id: i64) -> (r: Vec<TakenBagItem>)
    ensures
        r@ == rows_for(store@.taken, item_id).map_values(|row: TakenRow| joined(store@.items, row)),
{
    store.for_item(item_id)
}

/// Stores a new item as given; its id must be -1.
pub fn create_bag_item(store: &mut BagStore, auth: &User, item: BagItem) -> (r: RoadieResult<BagItem>)
    requires
        old(store).wf(),
    ensures
        final(store).wf(),
        auth.anonymous ==> r == Err::<BagItem, RoadieAppError>(RoadieAppError::Unauthorized)
            && final(store)@ == old(store)@,
        !auth.anonymous && item.id != -1 ==> r == Err::<BagItem, RoadieAppError>(
            RoadieAppError::ValidationFailedError,
        ) && final(store)@ == old(store)@,
        !auth.anonymous && item.id == -1 && old(store)@.next_item_id == i64::MAX ==> r is Err
            && r->Err_0 is ServerError && final(store)@ == old(store)@,
        !auth.anonymous && item.id == -1 && old(store)@.next_item_id < i64::MAX ==> r == Ok::<
            BagItem,
            RoadieAppError,
        >(old(store)@.stored(item)) && final(store)@ == old(store)@.inserted(item),
{
    if auth.is_anonymous() {
        return Err(RoadieAppError::Unauthorized);
    }
    if item.id != -1 {
        return Err(RoadieAppError::ValidationFailedError);
    }
    store.insert(item)
}

/// Overwrites a stored item as given; its id must not be -1.
pub fn edit_bag_item(store: &mut BagStore, auth: &User, item: &BagItem) -> (r: RoadieResult<()>)
    requires
        old(store).wf(),
    ensures
        final(store).wf(),
        auth.anonymous ==> r == Err::<(), RoadieAppError>(RoadieAppError::Unauthorized)
            && final(store)@ == old(store)@,
        !auth.anonymous && item.id == -1 ==> r == Err::<(), RoadieAppError>(
            RoadieAppError::ValidationFailedError,
        ) && final(store)@ == old(store)@,
        !auth.anonymous && item.id != -1 ==> r is Ok && final(store)@ == old(store)@.updated(*item),
{
    if auth.is_anonymous() {
        return Err(RoadieAppError::Unauthorized);
    }
    if item.id == -1 {
        return Err(RoadieAppError::ValidationFailedError);
    }
    store.update(item);
    Ok(())
}

} // verus!
