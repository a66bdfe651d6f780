//! A plain list with a selected item, and a window of text lines under
//! construction.

use crate::stateful_list::join_lines;
use crate::stateful_list::joined;
use crate::stateful_list::line_feed;
use vstd::prelude::*;

verus! {

/// A list of items, one of which may be selected.
pub struct StatefulList<T> {
    pub selected: Option<usize>,
    pub items: Vec<T>,
}

impl<T> StatefulList<T> {
    /// Whether the selection, if there is one, is an item of the list.
    pub open spec fn selection_in_range(&self) -> bool {
        match self.selected {
            Some(s) => s < self.items@.len(),
            None => true,
        }
    }

    /// A list of the given items with nothing selected.
    pub fn with_items(items: Vec<T>) -> (list: Self)
        ensures
            list.selected.is_none(),
            list.items == items,
    {
        Self { selected: None, items }
    }

    /// Selects item `idx`. An index beyond the list changes nothing.
    pub fn select(&mut self, idx: usize)
        ensures
            final(self).items == old(self).items,
            final(self).selected == if idx < old(self).items@.len() {
                Some(idx)
            } else {
                old(self).selected
            },
    {
        if idx < self.items.len() {
            self.selected = Some(idx);
        }
    }

    /// Selects the item behind the selected one, if there is one behind it.
    /// With nothing selected, index 0 becomes the selection.
    pub fn next(&mut self)
        requires
            old(self).selected != Some(usize::MAX),
        ensures
            final(self).items == old(self).items,
            final(self).selected == match old(self).selected {
                Some(s) => if s + 1 < old(self).items@.len() {
                    Some((s + 1) as usize)
                } else {
                    Some(s)
                },
                None => Some(0usize),
            },
    {
        if let Some(s) = self.selected {
            if s + 1 < self.items.len() {
                self.selected = Some(s + 1);
            }
        } else {
            self.selected = Some(0);
        }
    }

    /// Selects the item before the selected one, if there is one before it.
    /// With nothing selected, index 0 becomes the selection.
    pub fn prev(&mut self)
        ensures
            final(self).items == old(self).items,
            final(self).selected == match old(self).selected {
                Some(s) => if s > 0 {
                    Some((s - 1) as usize)
                } else {
                    Some(0usize)
                },
                None => Some(0usize),
            },
    {
        if let Some(s) = self.selected {
            self.selected = Some(usize::saturating_sub(s, 1));
        } else {
            self.selected = Some(0);
        }
    }

    /// Empties the list and drops the selection.
    pub fn clear(&mut self)
        ensures
            final(self).selected.is_none(),
            final(self).items@ == Seq::<T>::empty(),
    {
        self.selected = None;
        self.items = Vec::new();
    }

    /// The selected item, if there is one.
    pub fn selected(&self) -> (item: Option<&T>)
        requires
            self.selection_in_range(),
        ensures
            match self.selected {
                Some(s) => item == Some(&self.items@[s as int]),
                None => item.is_none(),
            },
    {
        if let Some(idx) = self.selected {
            return Some(&self.items[idx])
        }
        None
    }
}

/// A block of text lines with the size of the screen area meant for it.
pub struct Window {
    pub width: usize,
    pub height: usize,
    pub lines: Vec<String>,
}

/// A window under construction.
pub struct WindowBuilder {
    pub data: Window,
}

impl WindowBuilder {
    /// The lines of the window as one text, one per line.
    pub fn build(self) -> (text: String)
        ensures
            text@ == joined(self.data.lines.deep_view(), line_feed()),
    {
        join_lines(&self.data.lines)
    }

    /// Sets the width of the window.
    pub fn with_width(&mut self, width: usize) -> (builder: &Self)
        ensures
            final(self).data.width == width,
            final(self).data.height == old(self).data.height,
            final(self).data.lines == old(self).data.lines,
            *builder == *final(self),
    {
        self.data.width = width;
        self
    }

    /// Sets the height of the window.
    pub fn with_height(&mut self, height: usize) -> (builder: &Self)
        ensures
            final(self).data.height == height,
            final(self).data.width == old(self).data.width,
            final(self).data.lines == old(self).data.lines,
            *builder == *final(self),
    {
        self.data.height = height;
        self
    }
}

} // verus!
