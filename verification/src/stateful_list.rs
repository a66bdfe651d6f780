//! A list with a selected item and a window that follows the selection.

use vstd::prelude::*;
use vstd::string::StringExecFns;

verus! {

/// How the window follows the selection.
pub enum ScrollStyle {
    /// The window stays where it is.
    Fixed,
    /// The window jumps by whole pages.
    Paging,
    /// The window moves just far enough to show the selection in its last row.
    Scrolling,
}

/// A list of items with a selection, and a window of `viewport_length`
/// items that starts at item `offset`.
pub struct StatefulScrollingList<T> {
    pub selected: Option<usize>,
    pub viewport_length: usize,
    pub offset: usize,
    pub items: Vec<T>,
    pub scroll_style: ScrollStyle,
}

/// Where the window starts once item `idx` is selected.
pub open spec fn offset_for(
    style: ScrollStyle,
    idx: usize,
    viewport_length: usize,
    offset: usize,
) -> int {
    match style {
        ScrollStyle::Paging => (idx / viewport_length) * viewport_length,
        ScrollStyle::Scrolling => if idx >= viewport_length {
            idx - viewport_length + 1
        } else {
            0
        },
        ScrollStyle::Fixed => offset as int,
    }
}

/// The item that `next` tries to select.
pub open spec fn next_target(selected: Option<usize>) -> int {
    match selected {
        Some(s) => s + 1,
        None => 0,
    }
}

/// The item that `prev` tries to select.
pub open spec fn prev_target(selected: Option<usize>) -> int {
    match selected {
        Some(s) => if s > 0 {
            s - 1
        } else {
            0
        },
        None => 0,
    }
}

/// The lines of a text put together, with `separator` between neighbours.
pub open spec fn joined(lines: Seq<Seq<char>>, separator: Seq<char>) -> Seq<char>
    decreases lines.len(),
{
    if lines.len() == 0 {
        Seq::empty()
    } else if lines.len() == 1 {
        lines[0]
    } else {
        joined(lines.drop_last(), separator) + separator + lines.last()
    }
}

/// The line feed, as a text.
pub open spec fn line_feed() -> Seq<char> {
    seq!['\n']
}

/// The row shown for an item: the item itself, behind a star if it is the
/// selected one.
pub open spec fn row_of(item: Seq<char>, is_selected: bool) -> Seq<char> {
    if is_selected {
        seq!['*'] + item
    } else {
        item
    }
}

/// Puts lines together with a line feed between neighbours.
pub fn join_lines(lines: &Vec<String>) -> (text: String)
    ensures
        text@ == joined(lines.deep_view(), line_feed()),
{
    let mut text = String::new();
    let mut idx: usize = 0;
    proof {
        reveal_strlit("\n");
        assert("\n"@ =~= line_feed());
    }
    while idx < lines.len()
        invariant
            idx <= lines.len(),
            "\n"@ == line_feed(),
            text@ == joined(lines.deep_view().take(idx as int), line_feed()),
        decreases lines.len() - idx,
    {
        proof {
            let seen = lines.deep_view().take(idx + 1);
            assert(seen.drop_last() =~= lines.deep_view().take(idx as int));
            assert(seen.last() == lines[idx as int]@);
            if idx == 0 {
                assert(Seq::<char>::empty() + lines[0]@ =~= lines[0]@);
            }
        }
        if idx > 0 {
            text.append("\n");
        }
        text.append(lines[idx].as_str());
        idx += 1;
    }
    assert(lines.deep_view().take(lines.len() as int) =~= lines.deep_view());
    text
}

impl<T> StatefulScrollingList<T> {
    /// Whether the selection, if there is one, is an item of the list.
    pub open spec fn selection_in_range(&self) -> bool {
        match self.selected {
            Some(s) => s < self.items@.len(),
            None => true,
        }
    }

    /// Whether selecting item `idx` can work out where the window starts: by
    /// pages there has to be a page length.
    pub open spec fn can_select(&self, idx: int) -> bool {
        self.scroll_style is Paging && idx < self.items@.len() ==> self.viewport_length > 0
    }

    /// Whether `after` is `self` after an attempt to select item `idx`: an
    /// item of the list becomes the selection and the window follows it; for
    /// any other index nothing changes.
    pub open spec fn is_selection_of(&self, after: &Self, idx: int) -> bool {
        &&& after.items == self.items
        &&& after.viewport_length == self.viewport_length
        &&& after.scroll_style == self.scroll_style
        &&& if 0 <= idx < self.items@.len() {
            &&& after.selected == Some(idx as usize)
            &&& after.offset == offset_for(
                self.scroll_style,
                idx as usize,
                self.viewport_length,
                self.offset,
            )
        } else {
            &&& after.selected == self.selected
            &&& after.offset == self.offset
        }
    }

    /// A list of the given items with nothing selected, an empty window and
    /// no scrolling.
    pub fn with_items(items: Vec<T>) -> (list: Self)
        ensures
            list.selected.is_none(),
            list.offset == 0,
            list.viewport_length == 0,
            list.items == items,
            list.scroll_style is Fixed,
    {
        Self { selected: None, offset: 0, viewport_length: 0, items, scroll_style: ScrollStyle::Fixed }
    }

    /// The list with another way of scrolling.
    pub fn with_scroll_style(self, style: ScrollStyle) -> (list: Self)
        ensures
            list.scroll_style == style,
            list.selected == self.selected,
            list.offset == self.offset,
            list.viewport_length == self.viewport_length,
            list.items == self.items,
    {
        let mut list = self;
        list.scroll_style = style;
        list
    }

    /// The list with another length of its window.
    pub fn with_viewport_length(self, length: usize) -> (list: Self)
        ensures
            list.viewport_length == length,
            list.selected == self.selected,
            list.offset == self.offset,
            list.scroll_style == self.scroll_style,
            list.items == self.items,
    {
        let mut list = self;
        list.viewport_length = length;
        list
    }

    /// Selects item `idx` and lets the window follow. An index beyond the
    /// list changes nothing.
    pub fn select(&mut self, idx: usize)
        requires
            old(self).can_select(idx as int),
        ensures
            old(self).is_selection_of(final(self), idx as int),
    {
        if idx < self.items.len() {
            self.selected = Some(idx);
            match self.scroll_style {
                ScrollStyle::Paging => {
                    // idx / self.viewport_length is *integer division*. This means that the division
                    // and multiplication *do not cancel out*
                    let page = idx / self.viewport_length;
                    assert(page * self.viewport_length <= idx) by (nonlinear_arith)
                        requires
                            page == idx / self.viewport_length,
                            self.viewport_length > 0,
                    ;
                    self.offset = page * self.viewport_length;
                },
                ScrollStyle::Scrolling => {
                    self.offset = if idx >= self.viewport_length {
                        idx - self.viewport_length + 1
                    } else {
                        0
                    }
                },
                _ => {},
            }
        }
    }

    /// Selects the item behind the selected one, the first one if nothing is
    /// selected. At the last item nothing changes.
    pub fn next(&mut self)
        requires
            old(self).selected != Some(usize::MAX),
            old(self).can_select(next_target(old(self).selected)),
        ensures
            old(self).is_selection_of(final(self), next_target(old(self).selected)),
    {
        if let Some(s) = self.selected {
            self.select(s + 1);
        } else {
            self.select(0);
        }
    }

    /// Selects the item before the selected one, the first one if nothing is
    /// selected or the first one is.
    pub fn prev(&mut self)
        requires
            old(self).can_select(prev_target(old(self).selected)),
        ensures
            old(self).is_selection_of(final(self), prev_target(old(self).selected)),
    {
        if let Some(s) = self.selected {
            self.select(usize::saturating_sub(s, 1));
        } else {
            self.select(0);
        }
    }

    /// Empties the list and drops the selection. The window stays where it is.
    pub fn clear(&mut self)
        ensures
            final(self).selected.is_none(),
            final(self).items@ == Seq::<T>::empty(),
            final(self).offset == old(self).offset,
            final(self).viewport_length == old(self).viewport_length,
            final(self).scroll_style == old(self).scroll_style,
    {
        self.selected = None;
        self.items = Vec::new();
    }

    /// The selected item, if there is one.
    pub fn selected(&self) -> (item: Option<&T>)
        requires
            self.selection_in_range(),
        ensures
            match self.selected {
                Some(s) => item == Some(&self.items@[s as int]),
                None => item.is_none(),
            },
    {
        if let Some(idx) = self.selected {
            return Some(&self.items[idx])
        }
        None
    }
}

impl StatefulScrollingList<String> {
    /// Where the window ends: `viewport_length` items behind its start, or at
    /// the end of the list if that comes first.
    pub open spec fn viewport_end(&self) -> int {
        if self.viewport_length + self.offset <= self.items@.len() {
            self.viewport_length + self.offset
        } else {
            self.items@.len() as int
        }
    }

    /// The rows in the window.
    pub open spec fn viewport_rows(&self) -> Seq<Seq<char>> {
        Seq::new(
            (self.viewport_end() - self.offset) as nat,
            |i: int| row_of(self.items@[self.offset + i]@, self.selected == Some((self.offset + i) as usize)),
        )
    }

    /// The rows in the window as one text, one row per line.
    pub fn viewport_string(&self) -> (text: String)
        requires
            self.offset <= self.items@.len(),
        ensures
            text@ == joined(self.viewport_rows(), line_feed()),
    {
        join_lines(&self.viewport())
    }

    /// The rows in the window: the items from the start of the window to its
    /// end, the selected one marked with a star.
    pub fn viewport(&self) -> (rows: Vec<String>)
        requires
            self.offset <= self.items@.len(),
        ensures
            rows.deep_view() == self.viewport_rows(),
    {
        let end = if self.viewport_length <= self.items.len() - self.offset {
            self.viewport_length + self.offset
        } else {
            self.items.len()
        };
        let mut rows: Vec<String> = Vec::new();
        let mut idx: usize = self.offset;
        proof {
            reveal_strlit("*");
            assert("*"@ =~= seq!['*']);
        }
        while idx < end
            invariant
                self.offset <= idx <= end,
                end == self.viewport_end(),
                end <= self.items@.len(),
                "*"@ == seq!['*'],
                rows@.len() == idx - self.offset,
                forall|i: int|
                    0 <= i < rows@.len() ==> (#[trigger] rows@[i])@ == self.viewport_rows()[i],
            decreases end - idx,
        {
            let line = &self.items[idx];
            let marked = match self.selected {
                Some(sel_idx) => idx == sel_idx,
                None => false,
            };
            let mut row = String::new();
            if marked {
                row.append("*");
            }
            row.append(line.as_str());
            assert(row@ =~= row_of(line@, marked));
            rows.push(row);
            idx += 1;
        }
        assert(rows.deep_view() =~= self.viewport_rows());
        rows
    }
}

} // verus!
