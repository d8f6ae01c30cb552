//! A list with at most one selected item: the scene editor's entities, the
//! UI editor's widgets and the animation editor's tracks. Item payloads
//! (positions, sizes, keyframe times) are the caller's; the list keeps the
//! selection pointing at an existing item.

use vstd::prelude::*;

verus! {

/// The selection after the selected item `idx` was removed from a list that
/// now holds `len` items: nothing if it is empty, else the same position,
/// or the last item when the removed one was last.
pub open spec fn clamped_selection(idx: usize, len: nat) -> Option<usize> {
    if len == 0 {
        None
    } else if idx < len {
        Some(idx)
    } else {
        Some((len - 1) as usize)
    }
}

/// Items in display order and the index of the selected one.
pub struct SelectList<T> {
    /// The items, in display order.
    pub items: Vec<T>,
    /// Index of the selected item.
    pub selected: Option<usize>,
}

impl<T> SelectList<T> {
    /// The selection, when there is one, names an existing item.
    pub open spec fn wf(&self) -> bool {
        self.selected matches Some(i) ==> i < self.items@.len()
    }

    /// A list of `items` with nothing selected.
    pub fn new(items: Vec<T>) -> (l: Self)
        ensures
            l.wf(),
            l.items == items,
            l.selected is None,
    {
        SelectList { items, selected: None }
    }

    /// Select item `i`.
    pub fn select(&mut self, i: usize)
        requires
            i < old(self).items@.len(),
        ensures
            final(self).wf(),
            final(self).items == old(self).items,
            final(self).selected == Some(i),
    {
        self.selected = Some(i);
    }

    /// Clear the selection.
    pub fn deselect(&mut self)
        ensures
            final(self).wf(),
            final(self).items == old(self).items,
            final(self).selected is None,
    {
        self.selected = None;
    }

    /// Append `item`; the selection is unchanged.
    pub fn push(&mut self, item: T)
        requires
            old(self).wf(),
        ensures
            final(self).wf(),
            final(self).items@ == old(self).items@.push(item),
            final(self).selected == old(self).selected,
    {
        self.items.push(item);
    }

    /// Append `item` and select it.
    pub fn push_and_select(&mut self, item: T)
        ensures
            final(self).wf(),
            final(self).items@ == old(self).items@.push(item),
            final(self).selected == Some(old(self).items@.len() as usize),
    {
        self.items.push(item);
        self.selected = Some(self.items.len() - 1);
    }

    /// The selected item, if any.
    pub fn selected_item(&self) -> (r: Option<&T>)
        requires
            self.wf(),
        ensures
            self.selected is None ==> r is None,
            self.selected matches Some(i) ==> r == Some(&self.items@[i as int]),
    {
        match self.selected {
            Some(i) => Some(&self.items[i]),
            None => None,
        }
    }

    /// Remove the selected item; the selection stays at its position (or
    /// moves to the new last item), and is cleared when the list becomes
    /// empty. Returns the removed item.
    pub fn remove_selected(&mut self) -> (removed: Option<T>)
        requires
            old(self).wf(),
        ensures
            final(self).wf(),
            old(self).selected is None ==> removed is None && final(self).items == old(self).items
                && final(self).selected is None,
            old(self).selected matches Some(i) ==> {
                &&& removed == Some(old(self).items@[i as int])
                &&& final(self).items@ == old(self).items@.remove(i as int)
                &&& final(self).selected == clamped_selection(i, final(self).items@.len())
            },
    {
        let idx = match self.selected {
            Some(idx) => idx,
            None => return None,
        };
        let item = self.items.remove(idx);
        self.selected = if self.items.len() == 0 {
            None
        } else if idx < self.items.len() {
            Some(idx)
        } else {
            Some(self.items.len() - 1)
        };
        Some(item)
    }

    /// Remove the selected item and clear the selection. Returns the
    /// removed item.
    pub fn remove_selected_and_deselect(&mut self) -> (removed: Option<T>)
        requires
            old(self).wf(),
        ensures
            final(self).wf(),
            final(self).selected is None,
            old(self).selected is None ==> removed is None && final(self).items == old(self).items,
            old(self).selected matches Some(i) ==> {
                &&& removed == Some(old(self).items@[i as int])
                &&& final(self).items@ == old(self).items@.remove(i as int)
            },
    {
        let idx = match self.selected {
            Some(idx) => idx,
            None => return None,
        };
        let item = self.items.remove(idx);
        self.selected = None;
        Some(item)
    }
}

} // verus!
