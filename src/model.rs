use vstd::prelude::*;
use crate::auth::User;
use crate::errors::RoadieAppError;
use crate::text::{trim_text, trimmed};
use vstd::string::StringExecFns;

verus! {

/// The size class of an item; `Unknown` marks a form whose size was never set.
#[derive(PartialEq, Eq, Clone, Copy, Debug, Structural)]
pub enum ItemSize {
    Small,
    Medium,
    Large,
    Unknown,
}

impl ItemSize {
    /// Storage code of a size: 0, 1 and 2 for the real sizes, 99 for `Unknown`.
    pub open spec fn code(self) -> u8 {
        match self {
            ItemSize::Small => 0,
            ItemSize::Medium => 1,
            ItemSize::Large => 2,
            ItemSize::Unknown => 99,
        }
    }

    /// The name of a size, as shown to users.
    pub open spec fn name_spec(self) -> Seq<char> {
        match self {
            ItemSize::Small => "Small"@,
            ItemSize::Medium => "Medium"@,
            ItemSize::Large => "Large"@,
            ItemSize::Unknown => "Unknown"@,
        }
    }

    pub fn name(&self) -> (r: String)
        ensures
            r@ == self.name_spec(),
    {
        match self {
            ItemSize::Small => String::from_str("Small"),
            ItemSize::Medium => String::from_str("Medium"),
            ItemSize::Large => String::from_str("Large"),
            ItemSize::Unknown => String::from_str("Unknown"),
        }
    }

    /// Decoding of a storage code; every code that names no real size is `Unknown`.
    pub open spec fn from_code(value: u8) -> ItemSize {
        if value == 0 {
            ItemSize::Small
        } else if value == 1 {
            ItemSize::Medium
        } else if value == 2 {
            ItemSize::Large
        } else {
            ItemSize::Unknown
        }
    }
}

impl Default for ItemSize {
    fn default() -> (r: Self)
        ensures
            r == ItemSize::Unknown,
    {
        ItemSize::Unknown
    }
}

impl From<u8> for ItemSize {
    fn from(value: u8) -> (r: Self) {
        match value {
            0 => ItemSize::Small,
            1 => ItemSize::Medium,
            2 => ItemSize::Large,
            _ => ItemSize::Unknown,
        }
    }
}

impl vstd::std_specs::convert::FromSpecImpl<u8> for ItemSize {
    open spec fn obeys_from_spec() -> bool {
        true
    }

    open spec fn from_spec(v: u8) -> ItemSize {
        ItemSize::from_code(v)
    }
}

impl From<ItemSize> for u8 {
    fn from(value: ItemSize) -> (r: u8) {
        match value {
            ItemSize::Small => 0,
            ItemSize::Medium => 1,
            ItemSize::Large => 2,
            ItemSize::Unknown => 99,
        }
    }
}

impl vstd::std_specs::convert::FromSpecImpl<ItemSize> for u8 {
    open spec fn obeys_from_spec() -> bool {
        true
    }

    open spec fn from_spec(v: ItemSize) -> u8 {
        v.code()
    }
}

/// Decoding and encoding of a real size give back that size.
pub proof fn lemma_size_code_round_trip(s: ItemSize)
    ensures
        ItemSize::from_code(s.code()) == s,
{
}

/// An entry of the bag. Times are milliseconds since the Unix epoch.
#[derive(Clone, Debug, PartialEq, Eq)]
pub struct BagItem {
    pub id: i64,
    pub added_by: User,
    pub name: String,
    pub description: String,
    pub quantity: i32,
    pub size: ItemSize,
    pub infinite: bool,
    pub created_at: i64,
}

impl BagItem {
    /// A copy equal to this item.
    pub fn snapshot(&self) -> (r: BagItem)
        ensures
            r == *self,
    {
        BagItem {
            id: self.id,
            added_by: self.added_by.snapshot(),
            name: self.name.clone(),
            description: self.description.clone(),
            quantity: self.quantity,
            size: self.size,
            infinite: self.infinite,
            created_at: self.created_at,
        }
    }
}

/// One draw of an item. `item` is the drawn item as it is now, or `None` once
/// that item has been deleted: the draw history outlives the item.
#[derive(Clone, Debug, PartialEq, Eq)]
pub struct TakenBagItem {
    pub id: i64,
    pub item_id: i64,
    pub item: Option<BagItem>,
    pub extraction_time: i64,
    pub rounds: u32,
    pub done: bool,
}

/// What a listing is restricted to, and which page of it is asked for.
/// Each restriction that is present must hold; within `added_by` and `size`
/// any listed value will do.
#[derive(Clone, Debug, PartialEq, Eq)]
pub struct BagItemFilter {
    pub added_by: Option<Vec<i64>>,
    pub name: Option<String>,
    pub description: Option<String>,
    pub size: Option<Vec<u8>>,
    pub infinite: Option<bool>,
    pub page_size: Option<u64>,
    pub page_num: Option<u64>,
}

/// The mathematical content of a filter.
pub struct FilterView {
    pub added_by: Option<Seq<i64>>,
    pub name: Option<Seq<char>>,
    pub description: Option<Seq<char>>,
    pub size: Option<Seq<u8>>,
    pub infinite: Option<bool>,
    pub page_size: Option<u64>,
    pub page_num: Option<u64>,
}

pub open spec fn opt_vec_view<T>(v: Option<Vec<T>>) -> Option<Seq<T>> {
    match v {
        Some(x) => Some(x@),
        None => None,
    }
}

pub open spec fn opt_string_view(v: Option<String>) -> Option<Seq<char>> {
    match v {
        Some(x) => Some(x@),
        None => None,
    }
}

impl View for BagItemFilter {
    type V = FilterView;

    open spec fn view(&self) -> FilterView {
        FilterView {
            added_by: opt_vec_view(self.added_by),
            name: opt_string_view(self.name),
            description: opt_string_view(self.description),
            size: opt_vec_view(self.size),
            infinite: self.infinite,
            page_size: self.page_size,
            page_num: self.page_num,
        }
    }
}

fn copy_vec<T: Copy>(v: &Vec<T>) -> (r: Vec<T>)
    ensures
        r@ == v@,
{
    let mut r: Vec<T> = Vec::new();
    let mut i: usize = 0;
    while i < v.len()
        invariant
            i <= v.len(),
            r@ == v@.subrange(0, i as int),
        decreases v.len() - i,
    {
        r.push(v[i]);
        i = i + 1;
    }
    assert(r@ =~= v@);
    r
}

fn copy_opt_vec<T: Copy>(v: &Option<Vec<T>>) -> (r: Option<Vec<T>>)
    ensures
        opt_vec_view(r) == opt_vec_view(*v),
{
    match v {
        Some(x) => Some(copy_vec(x)),
        None => None,
    }
}

fn copy_opt_string(v: &Option<String>) -> (r: Option<String>)
    ensures
        r == *v,
{
    match v {
        Some(x) => Some(x.clone()),
        None => None,
    }
}

impl BagItemFilter {
    /// True when at least one restriction (not counting the page) is present.
    pub open spec fn restricts(&self) -> bool {
        self.added_by is Some || self.name is Some || self.description is Some
            || self.size is Some || self.infinite is Some
    }

    pub fn any_filter(&self) -> (r: bool)
        ensures
            r == self.restricts(),
    {
        self.added_by.is_some() || self.name.is_some() || self.description.is_some()
            || self.size.is_some() || self.infinite.is_some()
    }

    /// The same filter, asking for page `page_num`.
    pub fn with_page(&self, page_num: u64) -> (r: Self)
        ensures
            r@ == (FilterView { page_num: Some(page_num), ..self@ }),
    {
        BagItemFilter {
            page_num: Some(page_num),
            added_by: copy_opt_vec(&self.added_by),
            name: copy_opt_string(&self.name),
            description: copy_opt_string(&self.description),
            size: copy_opt_vec(&self.size),
            infinite: self.infinite,
            page_size: self.page_size,
        }
    }
}

impl Default for BagItemFilter {
    fn default() -> (r: Self)
        ensures
            !r.restricts(),
            r.page_size is None,
            r.page_num is None,
    {
        BagItemFilter {
            added_by: None,
            name: None,
            description: None,
            size: None,
            infinite: None,
            page_size: None,
            page_num: None,
        }
    }
}

/// One page of a listing, newest item first, with the size of the whole listing.
#[derive(Clone, Debug, PartialEq, Eq)]
pub struct BagItemPage {
    pub items: Vec<BagItem>,
    pub page_num: u64,
    pub total_pages: u64,
    pub page_size: u64,
    pub total_results: u64,
}

/// The fields of an item that a user edits. An `id` of -1 asks for a new item.
#[derive(Clone, Debug, PartialEq, Eq)]
pub struct BagItemForm {
    pub id: i64,
    pub name: String,
    pub description: String,
    pub quantity: i32,
    pub size: ItemSize,
    pub infinite: bool,
}

/// The `(field, message)` pairs of the invalid fields of a form, in the order
/// name, size, quantity. `name_blank` says whether the name is only white space.
pub open spec fn form_problems(form: BagItemForm, name_blank: bool) -> Seq<(Seq<char>, Seq<char>)> {
    (if name_blank {
        seq![("name"@, RoadieAppError::ItemNameNonEmpty.message_spec())]
    } else {
        Seq::empty()
    }) + (if form.size == ItemSize::Unknown {
        seq![("size"@, RoadieAppError::ItemSizeMustBeSet.message_spec())]
    } else {
        Seq::empty()
    }) + (if form.quantity <= 0 {
        seq![("quantity"@, RoadieAppError::ItemQntGtZero.message_spec())]
    } else {
        Seq::empty()
    })
}

pub open spec fn pairs_view(v: Seq<(String, String)>) -> Seq<(Seq<char>, Seq<char>)> {
    v.map_values(|p: (String, String)| (p.0@, p.1@))
}

/// The outcome of validating `form`, given whether its name is blank.
pub open spec fn validation_outcome(
    form: BagItemForm,
    name_blank: bool,
    r: Option<RoadieAppError>,
) -> bool {
    &&& (form_problems(form, name_blank).len() == 0 <==> r is None)
    &&& r is Some ==> (r->Some_0 is MultipleErrors && pairs_view(r->Some_0->MultipleErrors_0@)
        == form_problems(form, name_blank))
}

fn problem(field: &str, e: RoadieAppError) -> (r: (String, String))
    ensures
        r.0@ == field@,
        r.1@ == e.message_spec(),
{
    (String::from_str(field), e.message())
}

impl BagItemForm {
    /// Validation of the form, given its name with white space trimmed.
    pub fn validate_trimmed(&self, trimmed_name: &str) -> (r: Option<RoadieAppError>)
        ensures
            validation_outcome(*self, trimmed_name@.len() == 0, r),
    {
        let mut problems: Vec<(String, String)> = Vec::new();
        let ghost blank = trimmed_name@.len() == 0;
        if trimmed_name.is_empty() {
            problems.push(problem("name", RoadieAppError::ItemNameNonEmpty));
        }
        if self.size == ItemSize::Unknown {
            problems.push(problem("size", RoadieAppError::ItemSizeMustBeSet));
        }
        if self.quantity <= 0 {
            problems.push(problem("quantity", RoadieAppError::ItemQntGtZero));
        }
        assert(pairs_view(problems@) =~= form_problems(*self, blank));
        if problems.len() > 0 {
            Some(RoadieAppError::MultipleErrors(problems))
        } else {
            None
        }
    }

    /// The problems of the form: a blank name, an unset size, a quantity below 1.
    pub fn validate(&self) -> (r: Option<RoadieAppError>)
        ensures
            validation_outcome(*self, trimmed(self.name@).len() == 0, r),
    {
        let t = trim_text(self.name.as_str());
        self.validate_trimmed(t)
    }
}

impl Default for BagItemForm {
    fn default() -> (r: Self)
        ensures
            r.id == -1,
            r.quantity == 1,
            r.name@.len() == 0,
            r.description@.len() == 0,
            r.size == ItemSize::Unknown,
            !r.infinite,
    {
        BagItemForm {
            id: -1,
            quantity: 1,
            name: String::new(),
            description: String::new(),
            size: ItemSize::Unknown,
            infinite: false,
        }
    }
}

impl From<BagItem> for BagItemForm {
    fn from(value: BagItem) -> (r: Self) {
        BagItemForm {
            id: value.id,
            name: value.name,
            description: value.description,
            quantity: value.quantity,
            size: value.size,
            infinite: value.infinite,
        }
    }
}

impl vstd::std_specs::convert::FromSpecImpl<BagItem> for BagItemForm {
    open spec fn obeys_from_spec() -> bool {
        true
    }

    open spec fn from_spec(v: BagItem) -> BagItemForm {
        BagItemForm {
            id: v.id,
            name: v.name,
            description: v.description,
            quantity: v.quantity,
            size: v.size,
            infinite: v.infinite,
        }
    }
}

} // verus!
