//! Path filtering and list-selection rules of the overlay list.

use vstd::prelude::*;
use crate::text::{contains_chars, is_substring, lemma_empty_is_substring, lowercase, lowered_chars};

verus! {

/// Navigation and confirmation intents of one frame, from the keyboard hook.
#[derive(Debug, Default, Clone, Copy)]
pub struct FrameIntents {
    pub nav_up: bool,
    pub nav_down: bool,
    pub confirm: bool,
}

/// The character views of a sequence of strings.
pub open spec fn views(ss: Seq<String>) -> Seq<Seq<char>> {
    ss.map_values(|s: String| s@)
}

/// A path is shown for a query when the lowercased query occurs in the
/// lowercased path.
pub open spec fn path_matches(path: Seq<char>, query: Seq<char>) -> bool {
    is_substring(lowercase(query), lowercase(path))
}

/// The predicate "matches `query`" on paths.
pub open spec fn matcher(query: Seq<char>) -> spec_fn(Seq<char>) -> bool {
    |p: Seq<char>| path_matches(p, query)
}

/// The paths that match `query`, in their original order.
pub open spec fn filter_paths(paths: Seq<Seq<char>>, query: Seq<char>) -> Seq<Seq<char>> {
    paths.filter(matcher(query))
}

/// A selection index brought into range of a list of `len` items.
pub open spec fn normalized(selected: int, len: int) -> int {
    if len <= 0 {
        0
    } else if selected < len - 1 {
        selected
    } else {
        len - 1
    }
}

/// A selection index after up/down navigation on a list of `len` items:
/// normalized first, then moved up (never below zero) and, when the list is
/// not empty, down (never past the last item).
pub open spec fn moved_selection(selected: int, len: int, up: bool, down: bool) -> int {
    let start = normalized(selected, len);
    let after_up = if up && start > 0 { start - 1 } else { start };
    if down && len > 0 {
        if after_up + 1 < len - 1 { after_up + 1 } else { len - 1 }
    } else {
        after_up
    }
}

/// Whether `path` contains the already lowercased query, ignoring case.
pub fn path_matches_lowered(path: &String, lowered_query: &Vec<char>) -> (r: bool)
    ensures
        r == is_substring(lowered_query@, lowercase(path@)),
{
    let lowered_path = lowered_chars(path.as_str());
    contains_chars(lowered_path.as_slice(), lowered_query.as_slice())
}

/// The paths whose lowercase form contains the lowercase query, in order.
/// An empty query keeps every path.
pub fn filtered_paths(paths: &[String], search_query: &str) -> (res: Vec<String>)
    ensures
        views(res@) == filter_paths(views(paths@), search_query@),
        search_query@.len() == 0 ==> views(res@) == views(paths@),
{
    let query_lower = lowered_chars(search_query);
    let mut res: Vec<String> = Vec::new();
    let n = paths.len();
    for i in 0..n
        invariant
            n == paths@.len(),
            query_lower@ == lowercase(search_query@),
            search_query@.len() == 0 ==> query_lower@.len() == 0,
            views(res@) == filter_paths(views(paths@).take(i as int), search_query@),
            search_query@.len() == 0 ==> views(res@) == views(paths@).take(i as int),
    {
        let keep = path_matches_lowered(&paths[i], &query_lower);
        proof {
            if search_query@.len() == 0 {
                assert(query_lower@ =~= Seq::<char>::empty());
                lemma_empty_is_substring(lowercase(paths@[i as int]@));
            }
        }
        let ghost before = res@;
        if keep {
            res.push(paths[i].clone());
        }
        proof {
            let all = views(paths@);
            assert(all.take(i + 1).drop_last() =~= all.take(i as int));
            assert(all.take(i + 1).last() == paths@[i as int]@);
            let pred = matcher(search_query@);
            reveal_with_fuel(Seq::filter, 1);
            assert(pred(paths@[i as int]@) == keep);
            assert(all.take(i + 1).filter(pred) == if pred(all.take(i + 1).last()) {
                all.take(i + 1).drop_last().filter(pred).push(all.take(i + 1).last())
            } else {
                all.take(i + 1).drop_last().filter(pred)
            });
            assert(views(res@) =~= if keep { views(before).push(paths@[i as int]@) } else { views(before) });
        }
    }
    proof {
        assert(views(paths@).take(n as int) =~= views(paths@));
    }
    res
}

/// The number of paths that the query keeps.
pub fn matching_path_count(paths: &[String], search_query: &str) -> (count: usize)
    ensures
        count == filter_paths(views(paths@), search_query@).len(),
{
    let query_lower = lowered_chars(search_query);
    let mut count: usize = 0;
    let n = paths.len();
    for i in 0..n
        invariant
            n == paths@.len(),
            query_lower@ == lowercase(search_query@),
            count == filter_paths(views(paths@).take(i as int), search_query@).len(),
            count <= i,
    {
        let keep = path_matches_lowered(&paths[i], &query_lower);
        proof {
            let all = views(paths@);
            let pred = matcher(search_query@);
            reveal_with_fuel(Seq::filter, 1);
            assert(all.take(i + 1).drop_last() =~= all.take(i as int));
            assert(all.take(i + 1).last() == paths@[i as int]@);
            assert(pred(paths@[i as int]@) == keep);
        }
        if keep {
            count = count + 1;
        }
    }
    proof {
        assert(views(paths@).take(n as int) =~= views(paths@));
    }
    count
}

/// Brings a selection index into range of a list of `filtered_len` items.
pub fn normalized_selected_index(selected_index: usize, filtered_len: usize) -> (r: usize)
    ensures
        r == normalized(selected_index as int, filtered_len as int),
{
    if filtered_len == 0 {
        0
    } else if selected_index < filtered_len - 1 {
        selected_index
    } else {
        filtered_len - 1
    }
}

/// The selection after one frame of up/down navigation: normalized first,
/// then moved up (not below zero) and down (not past the last item).
pub fn next_selected_index(
    selected_index: usize,
    filtered_len: usize,
    arrow_up_pressed: bool,
    arrow_down_pressed: bool,
) -> (r: usize)
    ensures
        r == moved_selection(
            selected_index as int,
            filtered_len as int,
            arrow_up_pressed,
            arrow_down_pressed,
        ),
        filtered_len == 0 ==> r == 0,
        filtered_len > 0 ==> r < filtered_len,
{
    let mut next = normalized_selected_index(selected_index, filtered_len);
    if arrow_up_pressed {
        next = if next > 0 { next - 1 } else { 0 };
    }
    if arrow_down_pressed {
        let last = if filtered_len == 0 { 0 } else { filtered_len - 1 };
        next = if next + 1 < last { next + 1 } else { last };
    }
    next
}

/// The outcome of a click on list item `item_index`: a click selects the
/// item; a double click asks for injection when a target dialog exists.
pub fn handle_path_item_interaction(
    selected_index: usize,
    item_index: usize,
    clicked: bool,
    double_clicked: bool,
    has_target_dialog: bool,
) -> (r: (usize, bool))
    ensures
        r.0 == (if clicked { item_index } else { selected_index }),
        r.1 == (double_clicked && has_target_dialog),
{
    let next_selected_index = if clicked { item_index } else { selected_index };
    let should_inject = double_clicked && has_target_dialog;
    (next_selected_index, should_inject)
}

/// Arrow navigation on a list of `len` items from selection `s`: an empty list
/// keeps index 0; otherwise the selection is first brought into range (past the
/// end means the last item), then Up alone moves it one item up and stops at the
/// first, Down alone moves it one item down and stops at the last, and with
/// neither it stays.
pub proof fn lemma_arrow_navigation(s: int, len: int)
    requires
        0 <= s,
        0 <= len,
    ensures
        len == 0 ==> moved_selection(s, len, true, false) == 0 && moved_selection(s, len, false, true)
            == 0 && moved_selection(s, len, false, false) == 0,
        len > 0 ==> ({
            let cur = if s < len { s } else { len - 1 };
            &&& moved_selection(s, len, true, false) == (if cur > 0 { cur - 1 } else { 0 })
            &&& moved_selection(s, len, false, true) == (if cur + 1 < len { cur + 1 } else { len
                - 1 })
            &&& moved_selection(s, len, false, false) == cur
        }),
{
}

} // verus!
