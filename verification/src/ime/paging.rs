//! Candidate pages and conversion segments shared by the Japanese and Korean
//! engines: which page shows, which candidate a tap picks, and where the
//! selection moves.
use crate::ime::types::PAGE_SIZE;
use vstd::prelude::*;

verus! {

/// Number of pages for `count` candidates.
pub open spec fn pages(count: int) -> int {
    (count + PAGE_SIZE - 1) / (PAGE_SIZE as int)
}

/// `v` limited to `lo..=hi`.
pub open spec fn clamp(v: int, lo: int, hi: int) -> int {
    if v < lo {
        lo
    } else if v > hi {
        hi
    } else {
        v
    }
}

/// The page after moving `delta` pages, kept on an existing page (page 0 when
/// there are no candidates).
pub open spec fn turned(page: int, delta: int, count: int) -> int {
    clamp(page + delta, 0, if pages(count) > 0 { pages(count) - 1 } else { 0 })
}

/// Number of pages for `count` candidates.
pub fn page_count(count: usize) -> (r: usize)
    ensures
        r == pages(count as int),
{
    count / PAGE_SIZE + if count % PAGE_SIZE == 0 { 0 } else { 1 }
}

/// Moves `delta` pages from `page`, staying within the candidate pages.
pub fn turn_page(page: usize, delta: i32, count: usize) -> (r: usize)
    requires
        page <= i32::MAX,
        count <= i32::MAX,
        i32::MIN <= page + delta <= i32::MAX,
    ensures
        r == turned(page as int, delta as int, count as int),
{
    let last = if page_count(count) > 0 { page_count(count) - 1 } else { 0 };
    let target = page as i64 + delta as i64;
    if target < 0 {
        0
    } else if target > last as i64 {
        last
    } else {
        target as usize
    }
}

/// The candidate a tap on position `index` of page `page` picks, if it exists.
pub open spec fn picked(page: int, index: int, count: int) -> Option<int> {
    if index < PAGE_SIZE && page * PAGE_SIZE + index < count {
        Some(page * PAGE_SIZE + index)
    } else {
        None
    }
}

/// A candidate picked on a page lies on that page, at the tapped position.
pub proof fn lemma_picked_on_page(page: int, index: int, count: int)
    requires
        0 <= page,
        0 <= index,
        picked(page, index, count) is Some,
    ensures
        picked(page, index, count)->0 / (PAGE_SIZE as int) == page,
        picked(page, index, count)->0 % (PAGE_SIZE as int) == index,
        picked(page, index, count)->0 < count,
{
    let c = page * PAGE_SIZE + index;
    assert(c / 6 == page && c % 6 == index) by (nonlinear_arith)
        requires
            c == page * 6 + index,
            0 <= page,
            0 <= index < 6,
    ;
}

/// A candidate picked on the shown page is the one a snapshot of that page
/// marks as selected: it lies among the page's shown candidates, at the
/// tapped position.
pub proof fn lemma_pick_is_selected(page: int, index: int, count: int)
    requires
        0 <= page,
        0 <= index,
        picked(page, index, count) is Some,
    ensures
        ({
            let c = picked(page, index, count)->0;
            let begin = page * PAGE_SIZE;
            let shown = if count - begin > PAGE_SIZE {
                PAGE_SIZE as int
            } else {
                count - begin
            };
            &&& begin <= c
            &&& c - begin < shown
            &&& c - begin == index
        }),
{
}

/// The candidate a tap on position `index` of page `page` picks, if it exists.
pub fn candidate_index(page: usize, index: usize, count: usize) -> (r: Option<usize>)
    ensures
        match picked(page as int, index as int, count as int) {
            Some(c) => r == Some(c as usize),
            None => r is None,
        },
{
    if index >= PAGE_SIZE {
        return None;
    }
    match page.checked_mul(PAGE_SIZE) {
        Some(begin) => {
            if begin < count && index < count - begin {
                Some(begin + index)
            } else {
                None
            }
        },
        None => None,
    }
}

/// The candidates of page `page`: positions `begin..end` of the full list.
pub fn page_bounds(page: usize, count: usize) -> (r: (usize, usize))
    requires
        page * PAGE_SIZE + PAGE_SIZE <= usize::MAX,
    ensures
        r.0 == page * PAGE_SIZE,
        r.1 == (if page * PAGE_SIZE + PAGE_SIZE < count { page * PAGE_SIZE + PAGE_SIZE } else { count as int }),
        r.0 < r.1 ==> r.1 - r.0 <= PAGE_SIZE,
{
    let begin = page * PAGE_SIZE;
    let end = if begin + PAGE_SIZE < count {
        begin + PAGE_SIZE
    } else {
        count
    };
    (begin, end)
}

/// Whether another page follows page `page`.
pub fn has_next_page(page: usize, count: usize) -> (r: bool)
    requires
        page * PAGE_SIZE + PAGE_SIZE <= usize::MAX,
    ensures
        r == (page * PAGE_SIZE + PAGE_SIZE < count),
{
    page * PAGE_SIZE + PAGE_SIZE < count
}

/// Which shown candidate is the chosen one, if the choice is on this page.
pub fn selected_on_page(choice: usize, page: usize, shown: usize) -> (r: Option<usize>)
    requires
        page * PAGE_SIZE <= usize::MAX,
    ensures
        r == (if page * PAGE_SIZE <= choice && choice - page * PAGE_SIZE < shown {
            Some((choice - page * PAGE_SIZE) as usize)
        } else {
            None::<usize>
        }),
{
    let begin = page * PAGE_SIZE;
    if choice >= begin && choice - begin < shown {
        Some(choice - begin)
    } else {
        None
    }
}

/// Space on a converted segment: the next candidate (wrapping to the first)
/// and the page that shows it.
pub fn next_choice(choice: usize, count: usize) -> (r: (usize, usize))
    requires
        count > 0,
        choice < usize::MAX,
    ensures
        r.0 == (choice + 1) % (count as int),
        r.1 == r.0 / PAGE_SIZE,
        r.0 < count,
{
    let next = (choice + 1) % count;
    (next, next / PAGE_SIZE)
}

/// The segment `delta` steps from `segment`, kept within `segments` segments.
pub fn move_segment(segment: usize, delta: i32, segments: usize) -> (r: usize)
    requires
        0 < segments <= i32::MAX,
        segment <= i32::MAX,
        i32::MIN <= segment + delta <= i32::MAX,
    ensures
        r == clamp(segment + delta, 0, segments - 1),
        r < segments,
{
    let target = segment as i64 + delta as i64;
    if target < 0 {
        0
    } else if target > (segments - 1) as i64 {
        segments - 1
    } else {
        target as usize
    }
}

} // verus!
