use vstd::prelude::*;
use vstd::string::StrSliceExecFns;
use crate::model::{BagItem, BagItemFilter, FilterView};

verus! {

/// The page size of a filter that names none.
pub const DEFAULT_PAGE_SIZE: u64 = 50;

/// `needle` occurs in `hay` as a run of consecutive characters.
pub open spec fn is_substring(needle: Seq<char>, hay: Seq<char>) -> bool {
    exists|i: int|
        0 <= i && i + needle.len() <= hay.len() && #[trigger] hay.subrange(i, i + needle.len())
            == needle
}

/// An item meets every restriction that the filter holds.
pub open spec fn item_matches(f: FilterView, it: BagItem) -> bool {
    &&& (f.added_by is Some ==> f.added_by->Some_0.contains(it.added_by.id))
    &&& (f.name is Some ==> is_substring(f.name->Some_0, it.name@))
    &&& (f.description is Some ==> is_substring(f.description->Some_0, it.description@))
    &&& (f.size is Some ==> f.size->Some_0.contains(it.size.code()))
    &&& (f.infinite is Some ==> f.infinite->Some_0 == it.infinite)
}

/// The items that meet the filter, taken from a sequence kept in order of
/// creation and listed newest first.
pub open spec fn newest_first(items: Seq<BagItem>, f: FilterView) -> Seq<BagItem>
    decreases items.len(),
{
    if items.len() == 0 {
        Seq::empty()
    } else {
        newest_first(items.drop_first(), f) + if item_matches(f, items[0]) {
            seq![items[0]]
        } else {
            Seq::empty()
        }
    }
}

/// The 0-based index of the page asked for; a missing or zero page number is page 1.
pub open spec fn page_index(f: FilterView) -> u64 {
    match f.page_num {
        Some(p) => if p >= 1 { (p - 1) as u64 } else { 0 },
        None => 0,
    }
}

/// The page size asked for, or the default one.
pub open spec fn page_size_of(f: FilterView) -> u64 {
    match f.page_size {
        Some(s) => s,
        None => DEFAULT_PAGE_SIZE,
    }
}

pub open spec fn min_int(a: int, b: int) -> int {
    if a <= b { a } else { b }
}

/// Page `index` (0-based) of `all` cut in pages of `size` items.
pub open spec fn page_slice<T>(all: Seq<T>, size: int, index: int) -> Seq<T> {
    all.subrange(min_int(index * size, all.len() as int), min_int(index * size + size, all.len() as int))
}

/// The number of pages of `size` items that `n` items fill: the ceiling of `n / size`.
pub open spec fn pages_for(n: int, size: int) -> int {
    if n % size == 0 { n / size } else { n / size + 1 }
}

/// The page numbers that a pager offers around page `page_num`: from two
/// before it (or from it, when it is below 3) to two after it, but not past
/// the last page.
pub fn page_window(page_num: u64, total_pages: u64) -> (r: (u64, u64))
    ensures
        r.0 == (if page_num >= 2 { page_num - 2 } else { page_num as int }),
        r.1 == min_int(page_num + 2, total_pages as int),
{
    let low: u64 = if page_num >= 2 { page_num - 2 } else { page_num };
    let high: u64 = if page_num <= u64::MAX - 2 && page_num + 2 <= total_pages {
        page_num + 2
    } else {
        total_pages
    };
    (low, high)
}

fn chars_of(s: &str) -> (r: Vec<char>)
    ensures
        r@ == s@,
{
    let n = s.unicode_len();
    let mut r: Vec<char> = Vec::new();
    let mut i: usize = 0;
    while i < n
        invariant
            n == s@.len(),
            i <= n,
            r@ == s@.subrange(0, i as int),
        decreases n - i,
    {
        r.push(s.get_char(i));
        i = i + 1;
    }
    assert(r@ =~= s@);
    r
}

fn occurs_at(hay: &Vec<char>, needle: &Vec<char>, at: usize) -> (r: bool)
    requires
        at + needle.len() <= hay.len(),
    ensures
        r == (hay@.subrange(at as int, at + needle.len()) == needle@),
{
    let mut j: usize = 0;
    while j < needle.len()
        invariant
            at + needle.len() <= hay.len(),
            j <= needle.len(),
            forall|k: int| 0 <= k < j ==> hay@[at + k] == needle@[k],
        decreases needle.len() - j,
    {
        if hay[at + j] != needle[j] {
            assert(hay@.subrange(at as int, at + needle.len())[j as int] != needle@[j as int]);
            return false;
        }
        j = j + 1;
    }
    assert(hay@.subrange(at as int, at + needle.len()) =~= needle@);
    true
}

/// Whether `needle` occurs in `hay`; the empty text occurs in every text.
pub fn contains_text(hay: &str, needle: &str) -> (r: bool)
    ensures
        r == is_substring(needle@, hay@),
{
    let h = chars_of(hay);
    let n = chars_of(needle);
    if n.len() > h.len() {
        return false;
    }
    let last = h.len() - n.len();
    let mut i: usize = 0;
    loop
        invariant
            h@ == hay@,
            n@ == needle@,
            last == h.len() - n.len(),
            i <= last,
            forall|k: int|
                0 <= k < i ==> #[trigger] hay@.subrange(k, k + needle@.len()) != needle@,
        decreases last - i,
    {
        if occurs_at(&h, &n, i) {
            return true;
        }
        if i == last {
            return false;
        }
        i = i + 1;
    }
}

fn contains_i64(v: &Vec<i64>, x: i64) -> (r: bool)
    ensures
        r == v@.contains(x),
{
    let mut i: usize = 0;
    while i < v.len()
        invariant
            i <= v.len(),
            forall|k: int| 0 <= k < i ==> v@[k] != x,
        decreases v.len() - i,
    {
        if v[i] == x {
            return true;
        }
        i = i + 1;
    }
    false
}

fn contains_u8(v: &Vec<u8>, x: u8) -> (r: bool)
    ensures
        r == v@.contains(x),
{
    let mut i: usize = 0;
    while i < v.len()
        invariant
            i <= v.len(),
            forall|k: int| 0 <= k < i ==> v@[k] != x,
        decreases v.len() - i,
    {
        if v[i] == x {
            return true;
        }
        i = i + 1;
    }
    false
}

/// Whether the item meets every restriction of the filter.
pub fn matches_filter(f: &BagItemFilter, it: &BagItem) -> (r: bool)
    ensures
        r == item_matches(f@, *it),
{
    if let Some(ids) = &f.added_by {
        if !contains_i64(ids, it.added_by.id) {
            return false;
        }
    }
    if let Some(name) = &f.name {
        if !contains_text(it.name.as_str(), name.as_str()) {
            return false;
        }
    }
    if let Some(description) = &f.description {
        if !contains_text(it.description.as_str(), description.as_str()) {
            return false;
        }
    }
    if let Some(sizes) = &f.size {
        if !contains_u8(sizes, it.size.into()) {
            return false;
        }
    }
    if let Some(infinite) = f.infinite {
        if infinite != it.infinite {
            return false;
        }
    }
    true
}

} // verus!
