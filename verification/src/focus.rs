//! Where the terminal of an agent is, across all windows.

use vstd::prelude::*;

verus! {

/// An item of a pane.
#[derive(Debug, PartialEq, Eq)]
pub enum PaneItem {
    /// A terminal, with its id if it has one.
    Terminal { term_id: Option<String> },
    /// Anything else.
    Other,
}

/// A pane with its items.
#[derive(Debug, PartialEq, Eq)]
pub struct Pane {
    pub items: Vec<PaneItem>,
}

/// The panes of a window: those in its center, and those of the terminal dock.
#[derive(Debug, PartialEq, Eq)]
pub struct WindowPanes {
    pub center: Vec<Pane>,
    pub dock: Vec<Pane>,
}

/// The place of an item.
#[derive(Clone, Copy, Debug, PartialEq, Eq, Structural)]
pub struct FocusTarget {
    pub window: usize,
    /// Whether the pane is one of the terminal dock, which is then to be opened.
    pub in_dock: bool,
    pub pane: usize,
    pub item: usize,
}

/// Whether an item is the terminal with an id.
pub open spec fn shows(item: PaneItem, term_id: Seq<char>) -> bool {
    item matches PaneItem::Terminal { term_id: Some(id) } && id@ == term_id
}

/// Whether the terminal with an id is at a place in a list of panes.
pub open spec fn shown_in_panes(
    panes: Seq<Pane>,
    term_id: Seq<char>,
    pane: int,
    item: int,
) -> bool {
    &&& 0 <= pane < panes.len()
    &&& 0 <= item < panes[pane].items@.len()
    &&& shows(panes[pane].items@[item], term_id)
}

/// Whether the terminal with an id is at a place in the windows.
pub open spec fn shown_at(
    windows: Seq<Option<WindowPanes>>,
    term_id: Seq<char>,
    window: int,
    in_dock: bool,
    pane: int,
    item: int,
) -> bool {
    &&& 0 <= window < windows.len()
    &&& windows[window] matches Some(panes)
    &&& shown_in_panes(
        if in_dock {
            panes.dock@
        } else {
            panes.center@
        },
        term_id,
        pane,
        item,
    )
}

/// Whether one place comes before another: windows go in their order, and in
/// each the panes of the center go before those of the dock.
pub open spec fn comes_before(
    window1: int,
    in_dock1: bool,
    pane1: int,
    item1: int,
    window2: int,
    in_dock2: bool,
    pane2: int,
    item2: int,
) -> bool {
    ||| window1 < window2
    ||| window1 == window2 && !in_dock1 && in_dock2
    ||| window1 == window2 && in_dock1 == in_dock2 && pane1 < pane2
    ||| window1 == window2 && in_dock1 == in_dock2 && pane1 == pane2 && item1 < item2
}

/// Whether a place is the first at which the terminal with an id is.
pub open spec fn is_first_place(
    windows: Seq<Option<WindowPanes>>,
    term_id: Seq<char>,
    target: FocusTarget,
) -> bool {
    &&& shown_at(
        windows,
        term_id,
        target.window as int,
        target.in_dock,
        target.pane as int,
        target.item as int,
    )
    &&& forall|window: int, in_dock: bool, pane: int, item: int| #[trigger]
        shown_at(windows, term_id, window, in_dock, pane, item) ==> !comes_before(
            window,
            in_dock,
            pane,
            item,
            target.window as int,
            target.in_dock,
            target.pane as int,
            target.item as int,
        )
}

/// Whether the terminal with an id is in none of the windows.
pub open spec fn is_nowhere(windows: Seq<Option<WindowPanes>>, term_id: Seq<char>) -> bool {
    forall|window: int, in_dock: bool, pane: int, item: int|
        !#[trigger] shown_at(windows, term_id, window, in_dock, pane, item)
}

fn find_item(pane: &Pane, term_id: &String) -> (found: Option<usize>)
    ensures
        match found {
            Some(item) => {
                &&& item < pane.items@.len()
                &&& shows(pane.items@[item as int], term_id@)
                &&& forall|i: int| 0 <= i < item ==> !shows(#[trigger] pane.items@[i], term_id@)
            },
            None => forall|i: int|
                0 <= i < pane.items@.len() ==> !shows(#[trigger] pane.items@[i], term_id@),
        },
{
    let mut item: usize = 0;
    while item < pane.items.len()
        invariant
            item <= pane.items@.len(),
            forall|i: int| 0 <= i < item ==> !shows(#[trigger] pane.items@[i], term_id@),
        decreases pane.items.len() - item,
    {
        let is_shown = match &pane.items[item] {
            PaneItem::Terminal { term_id: Some(id) } => *id == *term_id,
            _ => false,
        };
        if is_shown {
            return Some(item);
        }
        item = item + 1;
    }
    None
}

fn find_in_panes(panes: &Vec<Pane>, term_id: &String) -> (found: Option<(usize, usize)>)
    ensures
        match found {
            Some((pane, item)) => {
                &&& shown_in_panes(panes@, term_id@, pane as int, item as int)
                &&& forall|p: int, i: int| #[trigger]
                    shown_in_panes(panes@, term_id@, p, i) ==> !(p < pane || p == pane && i < item)
            },
            None => forall|p: int, i: int| !#[trigger] shown_in_panes(panes@, term_id@, p, i),
        },
{
    let mut pane: usize = 0;
    while pane < panes.len()
        invariant
            pane <= panes@.len(),
            forall|p: int, i: int| #[trigger] shown_in_panes(panes@, term_id@, p, i) ==> pane <= p,
        decreases panes.len() - pane,
    {
        if let Some(item) = find_item(&panes[pane], term_id) {
            return Some((pane, item));
        }
        pane = pane + 1;
    }
    None
}

/// Finds the terminal of an agent: the first in the order of the windows, and
/// in a window the center panes go before the terminal dock's. A window that
/// has no panes, or is gone, is passed over.
pub fn focus_agent_terminal(
    windows: &Vec<Option<WindowPanes>>,
    term_id: &String,
) -> (found: Option<FocusTarget>)
    ensures
        match found {
            Some(target) => is_first_place(windows@, term_id@, target),
            None => is_nowhere(windows@, term_id@),
        },
{
    let mut window: usize = 0;
    while window < windows.len()
        invariant
            window <= windows@.len(),
            forall|w: int, in_dock: bool, pane: int, item: int| #[trigger]
                shown_at(windows@, term_id@, w, in_dock, pane, item) ==> window <= w,
        decreases windows.len() - window,
    {
        if let Some(panes) = &windows[window] {
            if let Some((pane, item)) = find_in_panes(&panes.center, term_id) {
                let target = FocusTarget { window, in_dock: false, pane, item };
                assert forall|w: int, d: bool, p: int, i: int| #[trigger]
                    shown_at(windows@, term_id@, w, d, p, i) implies !comes_before(
                    w,
                    d,
                    p,
                    i,
                    window as int,
                    false,
                    pane as int,
                    item as int,
                ) by {
                    if w == window && !d {
                        assert(shown_in_panes(panes.center@, term_id@, p, i));
                    }
                }
                return Some(target);
            }
            if let Some((pane, item)) = find_in_panes(&panes.dock, term_id) {
                let target = FocusTarget { window, in_dock: true, pane, item };
                assert forall|w: int, d: bool, p: int, i: int| #[trigger]
                    shown_at(windows@, term_id@, w, d, p, i) implies !comes_before(
                    w,
                    d,
                    p,
                    i,
                    window as int,
                    true,
                    pane as int,
                    item as int,
                ) by {
                    if w == window {
                        if d {
                            assert(shown_in_panes(panes.dock@, term_id@, p, i));
                        } else {
                            assert(shown_in_panes(panes.center@, term_id@, p, i));
                        }
                    }
                }
                return Some(target);
            }
            assert forall|w: int, d: bool, p: int, i: int| #[trigger]
                shown_at(windows@, term_id@, w, d, p, i) implies window < w by {
                if w == window {
                    if d {
                        assert(shown_in_panes(panes.dock@, term_id@, p, i));
                    } else {
                        assert(shown_in_panes(panes.center@, term_id@, p, i));
                    }
                }
            }
        }
        window = window + 1;
    }
    None
}

/// There is at most one place to jump to: the first is the only first.
pub proof fn law_the_first_place_is_one(
    windows: Seq<Option<WindowPanes>>,
    term_id: Seq<char>,
    first: FocusTarget,
    second: FocusTarget,
)
    requires
        is_first_place(windows, term_id, first),
        is_first_place(windows, term_id, second),
    ensures
        first == second,
        !is_nowhere(windows, term_id),
{
}

/// The place that is found holds the terminal with the id, and every other place
/// that holds one comes after it: in a later window, or in the same window in
/// the dock where the found one is in the center, in a later pane, or further
/// on in the pane.
pub proof fn law_the_found_place_holds_the_terminal(
    windows: Seq<Option<WindowPanes>>,
    term_id: Seq<char>,
    target: FocusTarget,
    window: int,
    panes: WindowPanes,
    pane: int,
    item: int,
    id: String,
)
    requires
        is_first_place(windows, term_id, target),
        0 <= window < windows.len(),
        windows[window] == Some(panes),
        id@ == term_id,
    ensures
        target.window < windows.len(),
        ({
            &&& windows[target.window as int] matches Some(there)
            &&& {
                let list = if target.in_dock {
                    there.dock@
                } else {
                    there.center@
                };
                &&& target.pane < list.len()
                &&& target.item < list[target.pane as int].items@.len()
                &&& list[target.pane as int].items@[target.item as int]
                    matches PaneItem::Terminal { term_id: Some(found) }
                &&& found@ == term_id
            }
        }),
        0 <= pane < panes.center@.len() && 0 <= item < panes.center@[pane].items@.len()
            && panes.center@[pane].items@[item] == (PaneItem::Terminal { term_id: Some(id) }) ==> {
            ||| target.window < window
            ||| target.window == window && !target.in_dock && target.pane < pane
            ||| target.window == window && !target.in_dock && target.pane == pane && target.item
                <= item
        },
        0 <= pane < panes.dock@.len() && 0 <= item < panes.dock@[pane].items@.len()
            && panes.dock@[pane].items@[item] == (PaneItem::Terminal { term_id: Some(id) }) ==> {
            ||| target.window < window
            ||| target.window == window && !target.in_dock
            ||| target.window == window && target.pane < pane
            ||| target.window == window && target.pane == pane && target.item <= item
        },
{
    if 0 <= pane < panes.center@.len() && 0 <= item < panes.center@[pane].items@.len()
        && panes.center@[pane].items@[item] == (PaneItem::Terminal { term_id: Some(id) }) {
        assert(shown_at(windows, term_id, window, false, pane, item));
    }
    if 0 <= pane < panes.dock@.len() && 0 <= item < panes.dock@[pane].items@.len()
        && panes.dock@[pane].items@[item] == (PaneItem::Terminal { term_id: Some(id) }) {
        assert(shown_at(windows, term_id, window, true, pane, item));
    }
}

/// Where no place is found, no window holds the terminal, neither in its center
/// nor in its dock.
pub proof fn law_what_is_nowhere_is_in_no_pane(
    windows: Seq<Option<WindowPanes>>,
    term_id: Seq<char>,
    window: int,
    panes: WindowPanes,
    pane: int,
    item: int,
    id: String,
)
    requires
        is_nowhere(windows, term_id),
        0 <= window < windows.len(),
        windows[window] == Some(panes),
        id@ == term_id,
    ensures
        0 <= pane < panes.center@.len() && 0 <= item < panes.center@[pane].items@.len()
            ==> panes.center@[pane].items@[item] != (PaneItem::Terminal { term_id: Some(id) }),
        0 <= pane < panes.dock@.len() && 0 <= item < panes.dock@[pane].items@.len()
            ==> panes.dock@[pane].items@[item] != (PaneItem::Terminal { term_id: Some(id) }),
{
    assert(!shown_at(windows, term_id, window, false, pane, item));
    assert(!shown_at(windows, term_id, window, true, pane, item));
}

} // verus!
