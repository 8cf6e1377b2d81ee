//! The list of configurations on screen and the one that is highlighted.

use crate::config::Config;
use crate::config::ConfigRecord;
use vstd::prelude::*;

verus! {

/// Nothing is highlighted, because the list is empty.
#[derive(Clone, Copy, Debug, PartialEq, Eq, Structural)]
pub struct NoSelection;

/// An ordered list of configurations with a highlighted position.
///
/// The items are fixed when the list is made. Every operation is defined for
/// every value of the fields and leaves the highlight on an item, or on
/// nothing where there is no item.
pub struct SelectionList {
    pub items: Vec<Config>,
    pub highlighted_index: Option<usize>,
}

/// A selection list as mathematics.
pub struct SelectionModel {
    pub items: Seq<ConfigRecord>,
    pub highlighted: Option<nat>,
}

impl SelectionModel {
    /// A list with items highlights one of them; an empty list highlights
    /// nothing.
    pub open spec fn wf(self) -> bool {
        match self.highlighted {
            Some(index) => index < self.items.len(),
            None => self.items.len() == 0,
        }
    }

    /// A fresh list over `items`: the first item is highlighted, if there is
    /// one.
    pub open spec fn fresh(items: Seq<ConfigRecord>) -> SelectionModel {
        SelectionModel {
            items,
            highlighted: if items.len() == 0 {
                None
            } else {
                Some(0)
            },
        }
    }

    /// The highlight shifted by `delta` and stopped at the first and the last
    /// item. A missing highlight counts from the first item. An empty list
    /// highlights nothing.
    pub open spec fn move_highlight(self, delta: int) -> SelectionModel {
        if self.items.len() == 0 {
            SelectionModel { highlighted: None, ..self }
        } else {
            let from: int = match self.highlighted {
                Some(index) => index as int,
                None => 0,
            };
            let target = from + delta;
            let last = self.items.len() - 1;
            SelectionModel {
                highlighted: Some(
                    (if target < 0 {
                        0
                    } else if target > last {
                        last
                    } else {
                        target
                    }) as nat,
                ),
                ..self
            }
        }
    }

    /// The list after a run of shifts, first to last.
    pub open spec fn move_all(self, deltas: Seq<int>) -> SelectionModel
        decreases deltas.len(),
    {
        if deltas.len() == 0 {
            self
        } else {
            self.move_all(deltas.drop_last()).move_highlight(deltas.last())
        }
    }

    /// The index of the highlighted item, if the highlight is on an item.
    pub open spec fn selected(self) -> Option<nat> {
        match self.highlighted {
            Some(index) if index < self.items.len() => Some(index),
            _ => None,
        }
    }
}

impl View for SelectionList {
    type V = SelectionModel;

    open spec fn view(&self) -> SelectionModel {
        SelectionModel {
            items: self.items.deep_view(),
            highlighted: match self.highlighted_index {
                Some(index) => Some(index as nat),
                None => None,
            },
        }
    }
}

/// Whatever the list held before, one shift leaves the highlight on an item
/// of a list that has items, and on nothing in an empty list.
pub proof fn lemma_move_bounds_highlight(list: SelectionModel, delta: int)
    ensures
        list.move_highlight(delta).wf(),
        list.move_highlight(delta).items == list.items,
        list.items.len() == 0 ==> list.move_highlight(delta).highlighted is None,
{
}

/// After any run of shifts on a well-formed list the highlight is on an item,
/// or on nothing if the list is empty; the items are never touched.
pub proof fn lemma_moves_keep_highlight_in_range(list: SelectionModel, deltas: Seq<int>)
    requires
        list.wf(),
    ensures
        list.move_all(deltas).wf(),
        list.move_all(deltas).items == list.items,
        list.items.len() == 0 ==> list.move_all(deltas).highlighted is None,
        list.items.len() > 0 ==> list.move_all(deltas).highlighted is Some
            && list.move_all(deltas).highlighted->0 < list.items.len(),
    decreases deltas.len(),
{
    if deltas.len() > 0 {
        lemma_moves_keep_highlight_in_range(list, deltas.drop_last());
        lemma_move_bounds_highlight(list.move_all(deltas.drop_last()), deltas.last());
    }
}

impl SelectionList {
    /// A list over `items` with the first item highlighted, if there is one.
    pub fn new(items: Vec<Config>) -> (list: SelectionList)
        ensures
            list@ == SelectionModel::fresh(items.deep_view()),
            list@.wf(),
    {
        let highlighted_index = if items.len() == 0 {
            None
        } else {
            Some(0)
        };
        SelectionList { items, highlighted_index }
    }

    /// Number of items.
    pub fn len(&self) -> (n: usize)
        ensures
            n == self@.items.len(),
    {
        self.items.len()
    }

    /// Whether the list has no items.
    pub fn is_empty(&self) -> (empty: bool)
        ensures
            empty == (self@.items.len() == 0),
    {
        self.items.len() == 0
    }

    /// Shifts the highlight by `delta` items, stopping at the first and at the
    /// last item. On an empty list nothing is highlighted before or after.
    pub fn move_highlight(&mut self, delta: isize)
        ensures
            final(self)@ == old(self)@.move_highlight(delta as int),
            final(self)@.wf(),
    {
        let count = self.items.len();
        if count == 0 {
            self.highlighted_index = None;
        } else {
            let from: usize = match self.highlighted_index {
                Some(index) => index,
                None => 0,
            };
            let last: usize = count - 1;
            let target: usize = if delta >= 0 {
                let forward: usize = delta as usize;
                if forward > last || from > last - forward {
                    last
                } else {
                    from + forward
                }
            } else {
                let back: usize = if delta == isize::MIN {
                    usize::MAX / 2 + 1
                } else {
                    (-delta) as usize
                };
                if back >= from {
                    0
                } else if from - back > last {
                    last
                } else {
                    from - back
                }
            };
            self.highlighted_index = Some(target);
        }
    }

    /// The index of the highlighted item.
    pub fn selected(&self) -> (index: Option<usize>)
        ensures
            match index {
                Some(i) => self@.selected() == Some(i as nat),
                None => self@.selected() is None,
            },
    {
        match self.highlighted_index {
            Some(index) => if index < self.items.len() {
                Some(index)
            } else {
                None
            },
            None => None,
        }
    }

    /// The highlighted configuration; `NoSelection` when the highlight is on
    /// no item, as in an empty list.
    pub fn current(&self) -> (record: Result<&Config, NoSelection>)
        ensures
            match record {
                Ok(config) => self@.selected() is Some && *config == self.items@[self@.selected()->0 as int],
                Err(_) => self@.selected() is None,
            },
    {
        match self.selected() {
            Some(index) => Ok(&self.items[index]),
            None => Err(NoSelection),
        }
    }

    /// The configuration at `index`, if the list is that long.
    pub fn get(&self, index: usize) -> (record: Option<&Config>)
        ensures
            match record {
                Some(config) => index < self.items@.len() && *config == self.items@[index as int],
                None => index >= self.items@.len(),
            },
    {
        if index < self.items.len() {
            Some(&self.items[index])
        } else {
            None
        }
    }

    /// What the table shows: for each item, in order, its name and the path of
    /// its file.
    pub fn rows(&self) -> (rows: Vec<(String, String)>)
        ensures
            rows@.len() == self@.items.len(),
            forall|i: int|
                0 <= i < rows@.len() ==> (#[trigger] rows@[i]).0@ == self@.items[i].name
                    && rows@[i].1@ == self@.items[i].file_path,
    {
        let mut rows: Vec<(String, String)> = Vec::new();
        let mut i: usize = 0;
        while i < self.items.len()
            invariant
                i <= self.items.len(),
                rows@.len() == i,
                forall|j: int|
                    0 <= j < i ==> (#[trigger] rows@[j]).0@ == self.items@[j].name@ && rows@[j].1@
                        == self.items@[j].location.location@,
            decreases self.items.len() - i,
        {
            let item = &self.items[i];
            rows.push((item.name.clone(), item.location.location.clone()));
            i = i + 1;
        }
        rows
    }
}

} // verus!
