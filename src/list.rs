//! A list with an optional selected position, as the branch picker shows it:
//! moving the selection with wrap-around, and moving the selected item up or
//! down by one place, from one end to the other at the edges.
use vstd::prelude::*;

verus! {

/// Items and the position of the selected one, if any.
pub struct StatefulList<T> {
    selected: Option<usize>,
    items: Vec<T>,
}

/// What a `StatefulList` holds.
pub struct ListView<T> {
    pub items: Seq<T>,
    pub selected: Option<usize>,
}

impl<T> View for StatefulList<T> {
    type V = ListView<T>;

    closed spec fn view(&self) -> ListView<T> {
        ListView { items: self.items@, selected: self.selected }
    }
}

/// `s` with the item at `from` taken out and put back at `to`.
pub open spec fn moved<T>(s: Seq<T>, from: int, to: int) -> Seq<T> {
    s.remove(from).insert(to, s[from])
}

/// Whether the selection points at an item.
pub open spec fn on_item<T>(l: ListView<T>) -> bool {
    l.selected is Some && l.selected->0 < l.items.len()
}

/// The position after the selection moves down: the next one, or the first
/// after the last.
pub open spec fn below(len: int, i: int) -> int {
    if i >= len - 1 {
        0
    } else {
        i + 1
    }
}

/// The position after the selection moves up: the one before, or the last
/// before the first.
pub open spec fn above(len: int, i: int) -> int {
    if i == 0 {
        len - 1
    } else {
        i - 1
    }
}

/// The selection moved down; with nothing selected, the first item.
pub open spec fn next_spec<T>(l: ListView<T>) -> ListView<T> {
    if l.items.len() == 0 {
        l
    } else {
        ListView {
            items: l.items,
            selected: Some(
                match l.selected {
                    Some(i) => below(l.items.len() as int, i as int) as usize,
                    None => 0,
                },
            ),
        }
    }
}

/// The selection moved up; with nothing selected, the first item.
pub open spec fn previous_spec<T>(l: ListView<T>) -> ListView<T> {
    if l.items.len() == 0 {
        l
    } else {
        ListView {
            items: l.items,
            selected: Some(
                match l.selected {
                    Some(i) => above(l.items.len() as int, i as int) as usize,
                    None => 0,
                },
            ),
        }
    }
}

/// The selected item moved one place down, the last one to the top; the
/// selection follows it. Without a selected item nothing changes.
pub open spec fn swap_down_spec<T>(l: ListView<T>) -> ListView<T> {
    if on_item(l) {
        let i = l.selected->0 as int;
        let to = below(l.items.len() as int, i);
        ListView { items: moved(l.items, i, to), selected: Some(to as usize) }
    } else {
        l
    }
}

/// The selected item moved one place up, the first one to the bottom; the
/// selection follows it. Without a selected item nothing changes.
pub open spec fn swap_up_spec<T>(l: ListView<T>) -> ListView<T> {
    if on_item(l) {
        let i = l.selected->0 as int;
        let to = above(l.items.len() as int, i);
        ListView { items: moved(l.items, i, to), selected: Some(to as usize) }
    } else {
        l
    }
}

impl<T> StatefulList<T> {
    /// A list of `items` with nothing selected.
    pub fn with_items(items: Vec<T>) -> (r: StatefulList<T>)
        ensures
            r@ == (ListView { items: items@, selected: None }),
    {
        StatefulList { selected: None, items }
    }

    /// Replaces the items and selects the first position.
    pub fn set_items(&mut self, items: Vec<T>)
        ensures
            final(self)@ == (ListView { items: items@, selected: Some(0usize) }),
    {
        self.items = items;
        self.selected = Some(0);
    }

    /// Selects position `i`, or nothing.
    pub fn select(&mut self, i: Option<usize>)
        ensures
            final(self)@ == (ListView { items: old(self)@.items, selected: i }),
    {
        self.selected = i;
    }

    /// Moves the selection down, from the last item to the first.
    pub fn next(&mut self)
        ensures
            final(self)@ == next_spec(old(self)@),
    {
        if self.items.len() == 0 {
            return;
        }
        let i = match self.selected {
            Some(i) => if i >= self.items.len() - 1 {
                0
            } else {
                i + 1
            },
            None => 0,
        };
        self.selected = Some(i);
    }

    /// Moves the selection up, from the first item to the last.
    pub fn previous(&mut self)
        ensures
            final(self)@ == previous_spec(old(self)@),
    {
        if self.items.len() == 0 {
            return;
        }
        let i = match self.selected {
            Some(i) => if i == 0 {
                self.items.len() - 1
            } else {
                i - 1
            },
            None => 0,
        };
        self.selected = Some(i);
    }

    /// The selected position, if any.
    pub fn selected(&self) -> (r: Option<usize>)
        ensures
            r == self@.selected,
    {
        self.selected
    }

    /// The items, in order.
    pub fn items(&self) -> (r: &Vec<T>)
        ensures
            r@ == self@.items,
    {
        &self.items
    }

    /// Moves the selected item one place down, the last one to the top.
    pub fn swap_down(&mut self)
        ensures
            final(self)@ == swap_down_spec(old(self)@),
    {
        let n = self.items.len();
        match self.selected {
            Some(i) => {
                if i < n {
                    let to = if i >= n - 1 {
                        0
                    } else {
                        i + 1
                    };
                    let item = self.items.remove(i);
                    self.items.insert(to, item);
                    self.selected = Some(to);
                }
            },
            None => {},
        }
    }

    /// Moves the selected item one place up, the first one to the bottom.
    pub fn swap_up(&mut self)
        ensures
            final(self)@ == swap_up_spec(old(self)@),
    {
        let n = self.items.len();
        match self.selected {
            Some(i) => {
                if i < n {
                    let to = if i == 0 {
                        n - 1
                    } else {
                        i - 1
                    };
                    let item = self.items.remove(i);
                    self.items.insert(to, item);
                    self.selected = Some(to);
                }
            },
            None => {},
        }
    }
}

/// Moving the selected item up and then down puts every item, and the
/// selection, back where they were; so does moving it down and then up.
pub proof fn lemma_swap_up_then_down<T>(l: ListView<T>)
    requires
        l.items.len() <= usize::MAX,
    ensures
        swap_down_spec(swap_up_spec(l)) == l,
        swap_up_spec(swap_down_spec(l)) == l,
{
    if on_item(l) {
        let s = l.items;
        let n = s.len() as int;
        let i = l.selected->0 as int;
        let up = above(n, i);
        let down = below(n, i);
        assert(below(n, up) == i);
        assert(above(n, down) == i);
        let a = moved(s, i, up);
        assert(a[up] == s[i]);
        assert(moved(a, up, i) =~= s);
        let la = swap_up_spec(l);
        assert(la.items == a && la.selected == Some(up as usize));
        assert(on_item(la));
        assert(swap_down_spec(la).items == moved(a, up, i));
        assert((i as usize) == l.selected->0);
        assert(swap_down_spec(la) == l);
        let b = moved(s, i, down);
        assert(b[down] == s[i]);
        assert(moved(b, down, i) =~= s);
        let lb = swap_down_spec(l);
        assert(lb.items == b && lb.selected == Some(down as usize));
        assert(on_item(lb));
        assert(swap_up_spec(lb).items == moved(b, down, i));
        assert(swap_up_spec(lb) == l);
    }
}

} // verus!
