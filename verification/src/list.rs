//! The selection in a list.
use vstd::prelude::*;

verus! {

/// Which item of a list is selected, and which is the first one on the screen.
/// A selection may lie beyond the end; it is brought back when the list is
/// drawn.
#[derive(Clone, Copy, Debug, PartialEq, Eq, Structural)]
pub struct ListState {
    pub selected: Option<usize>,
    pub offset: usize,
}

impl Default for ListState {
    fn default() -> (r: Self)
        ensures
            r == (ListState { selected: None, offset: 0 }),
    {
        ListState { selected: None, offset: 0 }
    }
}

/// `n`, but no less than zero and no more than the largest `usize`.
pub open spec fn capped(n: int) -> usize {
    if n < 0 {
        0
    } else if n > usize::MAX {
        usize::MAX
    } else {
        n as usize
    }
}

impl ListState {
    /// The list with that selection. One without a selection shows its start.
    pub open spec fn with(self, index: Option<usize>) -> ListState {
        ListState {
            selected: index,
            offset: if index is None {
                0
            } else {
                self.offset
            },
        }
    }

    /// The selected position, or the first.
    pub open spec fn position(self) -> int {
        match self.selected {
            Some(i) => i as int,
            None => 0,
        }
    }

    /// The list with the item after the selected one selected, or the first
    /// item where none was.
    pub open spec fn after(self) -> ListState {
        self.with(
            match self.selected {
                Some(i) => Some(capped(i + 1)),
                None => Some(0),
            },
        )
    }

    /// The list with the item before the selected one selected, or the last
    /// item where none was.
    pub open spec fn before(self) -> ListState {
        self.with(
            match self.selected {
                Some(i) => Some(capped(i - 1)),
                None => Some(usize::MAX),
            },
        )
    }

    /// The list with the selection moved by `amount` items.
    pub open spec fn moved(self, amount: int) -> ListState {
        self.with(Some(capped(self.position() + amount)))
    }

    /// Selects an item, or none.
    pub fn select(&mut self, index: Option<usize>)
        ensures
            *final(self) == old(self).with(index),
    {
        self.selected = index;
        if index.is_none() {
            self.offset = 0;
        }
    }

    /// Selects the next item.
    pub fn select_next(&mut self)
        ensures
            *final(self) == old(self).after(),
    {
        let next: usize = match self.selected {
            Some(i) => i.saturating_add(1),
            None => 0,
        };
        self.select(Some(next));
    }

    /// Selects the previous item.
    pub fn select_previous(&mut self)
        ensures
            *final(self) == old(self).before(),
    {
        let previous: usize = match self.selected {
            Some(i) => i.saturating_sub(1),
            None => usize::MAX,
        };
        self.select(Some(previous));
    }

    /// Selects the first item.
    pub fn select_first(&mut self)
        ensures
            *final(self) == old(self).with(Some(0)),
    {
        self.select(Some(0));
    }

    /// Selects the last item, however many there are.
    pub fn select_last(&mut self)
        ensures
            *final(self) == old(self).with(Some(usize::MAX)),
    {
        self.select(Some(usize::MAX));
    }

    /// Moves the selection down.
    pub fn scroll_down_by(&mut self, amount: u16)
        ensures
            *final(self) == old(self).moved(amount as int),
    {
        let position: usize = match self.selected {
            Some(i) => i,
            None => 0,
        };
        self.select(Some(position.saturating_add(amount as usize)));
    }

    /// Moves the selection up.
    pub fn scroll_up_by(&mut self, amount: u16)
        ensures
            *final(self) == old(self).moved(-(amount as int)),
    {
        let position: usize = match self.selected {
            Some(i) => i,
            None => 0,
        };
        self.select(Some(position.saturating_sub(amount as usize)));
    }
}

} // verus!
