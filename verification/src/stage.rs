//! The stage: the kinds of item, the resize handles, and the ordered list of
//! items with the current selection, on which the stage's editing commands
//! (select, copy, cut, duplicate, reorder, delete) act. The items' geometry
//! is the caller's; this model only orders them and tracks which are
//! selected.

use vstd::prelude::*;
use crate::tools::CursorKind;

verus! {

/// The kinds of stage item.
#[derive(Clone, Copy, PartialEq, Eq, Debug, Structural)]
pub enum StageItemType {
    Rectangle,
    Circle,
    Text,
    MovieClip,
    Path,
}

/// The eight handles around a selected item.
#[derive(Clone, Copy, PartialEq, Eq, Debug, Structural)]
pub enum ResizeHandle {
    TopLeft,
    TopRight,
    BottomLeft,
    BottomRight,
    Top,
    Bottom,
    Left,
    Right,
}

/// The cursor shown over a resize handle.
pub open spec fn handle_cursor(handle: ResizeHandle) -> CursorKind {
    match handle {
        ResizeHandle::Left | ResizeHandle::Right => CursorKind::ResizeHorizontal,
        ResizeHandle::Top | ResizeHandle::Bottom => CursorKind::ResizeVertical,
        ResizeHandle::TopLeft | ResizeHandle::BottomRight => CursorKind::ResizeNeSw,
        ResizeHandle::TopRight | ResizeHandle::BottomLeft => CursorKind::ResizeNwSe,
    }
}

impl ResizeHandle {
    /// The cursor shown over this handle.
    pub fn cursor(&self) -> (cursor: CursorKind)
        ensures
            cursor == handle_cursor(*self),
    {
        match self {
            ResizeHandle::Left | ResizeHandle::Right => CursorKind::ResizeHorizontal,
            ResizeHandle::Top | ResizeHandle::Bottom => CursorKind::ResizeVertical,
            ResizeHandle::TopLeft | ResizeHandle::BottomRight => CursorKind::ResizeNeSw,
            ResizeHandle::TopRight | ResizeHandle::BottomLeft => CursorKind::ResizeNwSe,
        }
    }
}

/// Whether a selection over `len` items is valid: every selected position
/// names an item, and none is selected twice.
pub open spec fn selection_valid(len: nat, selected: Seq<usize>) -> bool {
    &&& forall|a: int| 0 <= a < selected.len() ==> selected[a] < len
    &&& forall|a: int, b: int| 0 <= a < b < selected.len() ==> selected[a] != selected[b]
}

/// The selection after a click on item `index`: with the modifier held the
/// item's selection flips, otherwise it becomes the only selected item.
pub open spec fn selection_after_click(selected: Seq<usize>, index: usize, additive: bool) -> Seq<usize> {
    if !additive {
        seq![index]
    } else if selected.contains(index) {
        selected.filter(other_position(index))
    } else {
        selected.push(index)
    }
}

/// The selection after a marquee: unless the modifier is held the old
/// selection goes; then each item the marquee touches (by `hits`), in stage
/// order, is added when not already selected.
pub open spec fn selection_after_marquee(
    selected: Seq<usize>,
    hits: Seq<bool>,
    additive: bool,
) -> Seq<usize> {
    marquee_from(if additive { selected } else { seq![] }, hits, hits.len() as int)
}

/// The selection `start` with the hits among the first `upto` items added.
pub open spec fn marquee_from(start: Seq<usize>, hits: Seq<bool>, upto: int) -> Seq<usize>
    decreases upto,
{
    if upto <= 0 {
        start
    } else {
        let before = marquee_from(start, hits, upto - 1);
        let index = (upto - 1) as usize;
        if hits[upto - 1] && !before.contains(index) {
            before.push(index)
        } else {
            before
        }
    }
}

/// Where a selected position lands once the item at `removed` is gone.
pub open spec fn shifted_position(position: usize, removed: usize) -> usize {
    if position > removed { (position - 1) as usize } else { position }
}

/// The selection once the item at `removed` is gone: that item leaves the
/// selection and the items after it move down by one.
pub open spec fn selection_after_delete(selected: Seq<usize>, removed: usize) -> Seq<usize>
    decreases selected.len(),
{
    if selected.len() == 0 {
        selected
    } else {
        let rest = selection_after_delete(selected.drop_last(), removed);
        if selected.last() == removed {
            rest
        } else {
            rest.push(shifted_position(selected.last(), removed))
        }
    }
}

/// The items that remain once the selected ones are cut, in their order.
pub open spec fn items_after_cut<T>(items: Seq<T>, selected: Seq<usize>) -> Seq<T>
    decreases items.len(),
{
    if items.len() == 0 {
        items
    } else {
        let rest = items_after_cut(items.drop_last(), selected);
        if selected.contains((items.len() - 1) as usize) {
            rest
        } else {
            rest.push(items.last())
        }
    }
}

/// Whether a position differs from `index`.
pub open spec fn other_position(index: usize) -> spec_fn(usize) -> bool {
    |i: usize| i != index
}

/// Whether `x` is among `list`.
fn listed(list: &Vec<usize>, x: usize) -> (found: bool)
    ensures
        found == list@.contains(x),
{
    let mut k: usize = 0;
    while k < list.len()
        invariant
            k <= list@.len(),
            forall|j: int| 0 <= j < k ==> list@[j] != x,
        decreases list@.len() - k,
    {
        if list[k] == x {
            assert(list@[k as int] == x);
            return true;
        }
        k = k + 1;
    }
    false
}

/// The abstract state of the stage: its items from back to front, and the
/// positions of the selected ones in the order they were selected.
pub struct StageView<T> {
    pub items: Seq<T>,
    pub selected: Seq<usize>,
}

/// The items on the stage and the current selection.
pub struct Stage<T> {
    items: Vec<T>,
    selected: Vec<usize>,
}

impl<T> View for Stage<T> {
    type V = StageView<T>;

    closed spec fn view(&self) -> StageView<T> {
        StageView { items: self.items@, selected: self.selected@ }
    }
}

impl<T> Stage<T> {
    #[verifier::type_invariant]
    closed spec fn well_formed(self) -> bool {
        selection_valid(self.items@.len(), self.selected@)
    }

    /// A stage holding `items`, none of them selected.
    pub fn new(items: Vec<T>) -> (stage: Stage<T>)
        ensures
            stage@.items == items@,
            stage@.selected.len() == 0,
    {
        Stage { items, selected: Vec::new() }
    }

    /// The items, from back to front.
    pub fn items(&self) -> (items: &Vec<T>)
        ensures
            items@ == self@.items,
    {
        &self.items
    }

    /// The positions of the selected items, in the order of selection.
    pub fn selected(&self) -> (selected: &Vec<usize>)
        ensures
            selected@ == self@.selected,
            selection_valid(self@.items.len(), self@.selected),
    {
        proof { use_type_invariant(self); }
        &self.selected
    }

    /// The number of items.
    pub fn len(&self) -> (n: usize)
        ensures
            n == self@.items.len(),
    {
        self.items.len()
    }

    /// Whether the item at `index` is selected.
    pub fn is_selected(&self, index: usize) -> (selected: bool)
        ensures
            selected == self@.selected.contains(index),
    {
        listed(&self.selected, index)
    }

    /// Puts a new item in front of all the others and returns its position;
    /// the selection stays as it was.
    pub fn push_item(&mut self, item: T) -> (index: usize)
        requires
            old(self)@.items.len() < usize::MAX,
        ensures
            index == old(self)@.items.len(),
            final(self)@.items == old(self)@.items.push(item),
            final(self)@.selected == old(self)@.selected,
    {
        proof { use_type_invariant(&*self); }
        let index = self.items.len();
        let mut selected = Vec::new();
        std::mem::swap(&mut selected, &mut self.selected);
        let mut items = Vec::new();
        std::mem::swap(&mut items, &mut self.items);
        items.push(item);
        self.items = items;
        self.selected = selected;
        index
    }

    /// Replaces the item at `index` (after a move, a resize or an edit of
    /// its properties).
    pub fn replace_item(&mut self, index: usize, item: T)
        requires
            index < old(self)@.items.len(),
        ensures
            final(self)@.items == old(self)@.items.update(index as int, item),
            final(self)@.selected == old(self)@.selected,
    {
        proof { use_type_invariant(&*self); }
        let mut selected = Vec::new();
        std::mem::swap(&mut selected, &mut self.selected);
        let mut items = Vec::new();
        std::mem::swap(&mut items, &mut self.items);
        items.set(index, item);
        self.items = items;
        self.selected = selected;
    }

    /// Deselects everything.
    pub fn clear_selection(&mut self)
        ensures
            final(self)@.items == old(self)@.items,
            final(self)@.selected.len() == 0,
    {
        self.selected = Vec::new();
    }

    /// A click on item `index`: with the modifier held its selection flips,
    /// otherwise it becomes the only selected item.
    pub fn click_item(&mut self, index: usize, additive: bool)
        requires
            index < old(self)@.items.len(),
        ensures
            final(self)@.items == old(self)@.items,
            final(self)@.selected == selection_after_click(old(self)@.selected, index, additive),
    {
        proof { use_type_invariant(&*self); }
        if !additive {
            let mut only = Vec::new();
            only.push(index);
            assert(only@ =~= seq![index]);
            self.selected = only;
        } else if self.is_selected(index) {
            let ghost sel = self.selected@;
            let ghost keep = other_position(index);
            let mut kept: Vec<usize> = Vec::new();
            let mut k: usize = 0;
            assert(sel.take(0).filter(keep) =~= kept@);
            while k < self.selected.len()
                invariant
                    sel == self.selected@,
                    selection_valid(self.items@.len(), sel),
                    keep == other_position(index),
                    k <= sel.len(),
                    kept@ == sel.take(k as int).filter(keep),
                    forall|a: int| 0 <= a < kept@.len() ==> exists|j: int| 0 <= j < k && sel[j] == #[trigger] kept@[a],
                    forall|a: int, b: int| 0 <= a < b < kept@.len() ==> kept@[a] != kept@[b],
                decreases sel.len() - k,
            {
                let s = self.selected[k];
                assert(sel.take(k + 1) =~= sel.take(k as int).push(s));
                proof { sel.take(k as int).lemma_filter_push(s, keep); }
                if s != index {
                    proof {
                        assert forall|a: int| 0 <= a < kept@.len() implies kept@[a] != s by {
                            let j = choose|j: int| 0 <= j < k && sel[j] == kept@[a];
                            assert(sel[j] != sel[k as int]);
                        }
                    }
                    kept.push(s);
                }
                k = k + 1;
            }
            assert(sel.take(sel.len() as int) =~= sel);
            self.selected = kept;
        } else {
            let mut selected = Vec::new();
            std::mem::swap(&mut selected, &mut self.selected);
            let ghost sel = selected@;
            selected.push(index);
            proof {
                assert forall|a: int, b: int| 0 <= a < b < selected@.len() implies selected@[a] != selected@[b] by {
                    if b == sel.len() {
                        assert(sel[a] != index);
                    }
                }
            }
            self.selected = selected;
        }
    }

    /// A right click on item `index`: it becomes the only selected item
    /// unless it was already selected.
    pub fn right_click_item(&mut self, index: usize)
        requires
            index < old(self)@.items.len(),
        ensures
            final(self)@.items == old(self)@.items,
            final(self)@.selected == if old(self)@.selected.contains(index) {
                old(self)@.selected
            } else {
                seq![index]
            },
    {
        if !self.is_selected(index) {
            let mut only = Vec::new();
            only.push(index);
            assert(only@ =~= seq![index]);
            self.selected = only;
        }
    }

    /// Ends a marquee: `hits` tells, for each item, whether the marquee
    /// touches it. Unless `additive`, the old selection goes first; each
    /// touched item that is not yet selected is then added, in stage order.
    /// Returns how many items were added.
    pub fn marquee_select(&mut self, hits: &Vec<bool>, additive: bool) -> (added: usize)
        requires
            hits@.len() == old(self)@.items.len(),
        ensures
            final(self)@.items == old(self)@.items,
            final(self)@.selected == selection_after_marquee(old(self)@.selected, hits@, additive),
            added == final(self)@.selected.len() - (if additive {
                old(self)@.selected.len()
            } else {
                0
            }),
    {
        proof { use_type_invariant(&*self); }
        let mut selected = Vec::new();
        std::mem::swap(&mut selected, &mut self.selected);
        if !additive {
            selected = Vec::new();
        }
        let ghost start = selected@;
        assert(start == if additive { old(self)@.selected } else { seq![] });
        let n = hits.len();
        let mut added: usize = 0;
        let mut index: usize = 0;
        while index < n
            invariant
                n == hits@.len(),
                n == self.items@.len(),
                index <= n,
                selected@ == marquee_from(start, hits@, index as int),
                selected@.len() == start.len() + added,
                added <= index,
                selection_valid(n as nat, selected@),
            decreases n - index,
        {
            let present = listed(&selected, index);
            if hits[index] && !present {
                let ghost prior = selected@;
                selected.push(index);
                added = added + 1;
                proof {
                    assert forall|a: int, b: int| 0 <= a < b < selected@.len() implies selected@[a] != selected@[b] by {
                        if b == prior.len() {
                            assert(prior[a] != index) by {
                                if prior[a] == index {
                                    assert(prior.contains(index));
                                }
                            }
                        }
                    }
                }
            }
            index = index + 1;
        }
        self.selected = selected;
        added
    }

    /// Copies of the selected items, in the order of selection, for the
    /// clipboard.
    pub fn copy_selected(&self) -> (copies: Vec<T>)
        where
            T: Clone,
        ensures
            copies@.len() == self@.selected.len(),
            forall|a: int|
                0 <= a < copies@.len() ==> cloned::<T>(
                    self@.items[self@.selected[a] as int],
                    #[trigger] copies@[a],
                ),
    {
        proof { use_type_invariant(self); }
        let mut copies: Vec<T> = Vec::new();
        let mut k: usize = 0;
        while k < self.selected.len()
            invariant
                k <= self.selected@.len(),
                selection_valid(self.items@.len(), self.selected@),
                copies@.len() == k,
                forall|a: int|
                    0 <= a < k ==> cloned::<T>(
                        self.items@[self.selected@[a] as int],
                        #[trigger] copies@[a],
                    ),
            decreases self.selected@.len() - k,
        {
            let index = self.selected[k];
            let copy = self.items[index].clone();
            copies.push(copy);
            k = k + 1;
        }
        copies
    }

    /// Cuts the selected items: returns copies of them, in the order of
    /// selection, removes them from the stage (the others keep their order)
    /// and deselects everything.
    pub fn cut_selected(&mut self) -> (cut: Vec<T>)
        where
            T: Clone,
        ensures
            cut@.len() == old(self)@.selected.len(),
            forall|a: int|
                0 <= a < cut@.len() ==> cloned::<T>(
                    old(self)@.items[old(self)@.selected[a] as int],
                    #[trigger] cut@[a],
                ),
            final(self)@.items == items_after_cut(old(self)@.items, old(self)@.selected),
            final(self)@.selected.len() == 0,
    {
        proof { use_type_invariant(&*self); }
        let cut = self.copy_selected();
        let mut selected = Vec::new();
        std::mem::swap(&mut selected, &mut self.selected);
        let mut rest = Vec::new();
        std::mem::swap(&mut rest, &mut self.items);
        let ghost all = rest@;
        let ghost sel = selected@;
        let n = rest.len();
        let mut kept: Vec<T> = Vec::new();
        let mut j: usize = 0;
        assert(items_after_cut(all.take(0), sel) =~= kept@);
        while j < n
            invariant
                n == all.len(),
                j <= n,
                sel == selected@,
                rest@ == all.subrange(j as int, n as int),
                kept@ == items_after_cut(all.take(j as int), sel),
            decreases n - j,
        {
            let item = rest.remove(0);
            assert(item == all[j as int]);
            let ghost taken = all.take(j + 1);
            assert(taken.drop_last() =~= all.take(j as int));
            assert(taken.last() == item);
            let is_cut = listed(&selected, j);
            if !is_cut {
                kept.push(item);
            }
            assert(rest@ =~= all.subrange(j + 1, n as int));
            j = j + 1;
        }
        assert(all.take(n as int) =~= all);
        self.items = kept;
        cut
    }

    /// Puts `copy` (a duplicate of an item) in front of all items and makes
    /// it the only selected item; returns its position.
    pub fn duplicate_item(&mut self, copy: T) -> (index: usize)
        requires
            old(self)@.items.len() < usize::MAX,
        ensures
            index == old(self)@.items.len(),
            final(self)@.items == old(self)@.items.push(copy),
            final(self)@.selected == seq![index],
    {
        let index = self.push_item(copy);
        let mut only = Vec::new();
        only.push(index);
        assert(only@ =~= seq![index]);
        self.selected = only;
        index
    }

    /// Moves the item at `index` in front of all the others and selects only
    /// it; an index past the end changes nothing.
    pub fn bring_to_front(&mut self, index: usize)
        ensures
            index < old(self)@.items.len() ==> final(self)@.items == old(self)@.items.remove(
                index as int,
            ).push(old(self)@.items[index as int]) && final(self)@.selected == seq![
                (old(self)@.items.len() - 1) as usize,
            ],
            index >= old(self)@.items.len() ==> final(self)@ == old(self)@,
    {
        proof { use_type_invariant(&*self); }
        if index < self.items.len() {
            self.selected = Vec::new();
            let mut items = Vec::new();
            std::mem::swap(&mut items, &mut self.items);
            let item = items.remove(index);
            items.push(item);
            self.items = items;
            let mut only = Vec::new();
            only.push(self.items.len() - 1);
            assert(only@ =~= seq![(old(self)@.items.len() - 1) as usize]);
            self.selected = only;
        }
    }

    /// Moves the item at `index` behind all the others and selects only it;
    /// an index past the end changes nothing.
    pub fn send_to_back(&mut self, index: usize)
        ensures
            index < old(self)@.items.len() ==> final(self)@.items == old(self)@.items.remove(
                index as int,
            ).insert(0, old(self)@.items[index as int]) && final(self)@.selected == seq![0usize],
            index >= old(self)@.items.len() ==> final(self)@ == old(self)@,
    {
        proof { use_type_invariant(&*self); }
        if index < self.items.len() {
            self.selected = Vec::new();
            let mut items = Vec::new();
            std::mem::swap(&mut items, &mut self.items);
            let item = items.remove(index);
            items.insert(0, item);
            self.items = items;
            let mut only = Vec::new();
            only.push(0);
            assert(only@ =~= seq![0usize]);
            self.selected = only;
        }
    }

    /// Deletes the item at `index`: it leaves the stage and the selection,
    /// and the selected positions after it move down by one. Returns the
    /// item, or nothing when `index` is past the end.
    pub fn delete_item(&mut self, index: usize) -> (removed: Option<T>)
        ensures
            index < old(self)@.items.len() ==> removed == Some(old(self)@.items[index as int])
                && final(self)@.items == old(self)@.items.remove(index as int)
                && final(self)@.selected == selection_after_delete(old(self)@.selected, index),
            index >= old(self)@.items.len() ==> removed is None && final(self)@ == old(self)@,
    {
        proof { use_type_invariant(&*self); }
        if index >= self.items.len() {
            return None;
        }
        let mut selected = Vec::new();
        std::mem::swap(&mut selected, &mut self.selected);
        let ghost sel = selected@;
        let ghost len = self.items@.len();
        let mut shifted: Vec<usize> = Vec::new();
        let mut k: usize = 0;
        assert(selection_after_delete(sel.take(0), index) =~= shifted@);
        while k < selected.len()
            invariant
                sel == selected@,
                selection_valid(len, sel),
                index < len,
                k <= sel.len(),
                shifted@ == selection_after_delete(sel.take(k as int), index),
                forall|a: int| 0 <= a < shifted@.len() ==> #[trigger] shifted@[a] < len - 1,
                forall|a: int|
                    0 <= a < shifted@.len() ==> exists|j: int|
                        0 <= j < k && sel[j] != index && shifted_position(sel[j], index)
                            == #[trigger] shifted@[a],
                forall|a: int, b: int| 0 <= a < b < shifted@.len() ==> shifted@[a] != shifted@[b],
            decreases sel.len() - k,
        {
            let s = selected[k];
            let ghost taken = sel.take(k + 1);
            assert(taken.drop_last() =~= sel.take(k as int));
            assert(taken.last() == s);
            if s != index {
                let moved = if s > index { s - 1 } else { s };
                proof {
                    assert forall|a: int| 0 <= a < shifted@.len() implies shifted@[a] != moved by {
                        let j = choose|j: int|
                            0 <= j < k && sel[j] != index && shifted_position(sel[j], index) == shifted@[a];
                        assert(sel[j] != sel[k as int]);
                    }
                }
                shifted.push(moved);
            }
            k = k + 1;
        }
        assert(sel.take(sel.len() as int) =~= sel);
        let mut items = Vec::new();
        std::mem::swap(&mut items, &mut self.items);
        let item = items.remove(index);
        self.items = items;
        self.selected = shifted;
        Some(item)
    }
}

} // verus!

verus! {

/// Each kept entry of the selection after a delete comes, shifted, from an
/// entry of the old selection other than the deleted one, and every such
/// entry survives.
proof fn lemma_delete_selection_members(selected: Seq<usize>, removed: usize, s: usize)
    ensures
        selection_after_delete(selected, removed).contains(shifted_position(s, removed)) <== (
        selected.contains(s) && s != removed),
    decreases selected.len(),
{
    if selected.len() > 0 {
        let rest = selection_after_delete(selected.drop_last(), removed);
        if selected.contains(s) && s != removed {
            if selected.last() == s {
                let now = rest.push(shifted_position(s, removed));
                assert(now[now.len() - 1] == shifted_position(s, removed));
            } else {
                let j = choose|j: int| 0 <= j < selected.len() && selected[j] == s;
                assert(j != selected.len() - 1);
                assert(selected.drop_last()[j] == s);
                lemma_delete_selection_members(selected.drop_last(), removed, s);
                let w = choose|w: int| 0 <= w < rest.len() && rest[w] == shifted_position(s, removed);
                if selected.last() != removed {
                    let now = rest.push(shifted_position(selected.last(), removed));
                    assert(now[w] == shifted_position(s, removed));
                }
            }
        }
    }
}

/// Deleting an item keeps every other selected item selected: the item that
/// was selected at position `s` is, after the delete, at the shifted
/// position, and that position is in the new selection.
pub proof fn lemma_selection_follows_delete<T>(items: Seq<T>, selected: Seq<usize>, removed: usize, s: usize)
    requires
        selection_valid(items.len(), selected),
        removed < items.len(),
        selected.contains(s),
        s != removed,
    ensures
        items.remove(removed as int)[shifted_position(s, removed) as int] == items[s as int],
        selection_after_delete(selected, removed).contains(shifted_position(s, removed)),
{
    lemma_delete_selection_members(selected, removed, s);
}

/// Every position selected after a delete is the shifted position of an
/// item that was selected before and was not the one deleted.
pub proof fn lemma_delete_keeps_only_old_selection(selected: Seq<usize>, removed: usize, a: int)
    requires
        forall|x: int, y: int| 0 <= x < y < selected.len() ==> selected[x] != selected[y],
        0 <= a < selection_after_delete(selected, removed).len(),
    ensures
        exists|j: int|
            0 <= j < selected.len() && selected[j] != removed && shifted_position(selected[j], removed)
                == selection_after_delete(selected, removed)[a],
    decreases selected.len(),
{
    let rest = selection_after_delete(selected.drop_last(), removed);
    if selected.len() > 0 {
        if a < rest.len() {
            lemma_delete_keeps_only_old_selection(selected.drop_last(), removed, a);
            let j = choose|j: int|
                0 <= j < selected.drop_last().len() && selected.drop_last()[j] != removed
                    && shifted_position(selected.drop_last()[j], removed) == rest[a];
            assert(selected[j] == selected.drop_last()[j]);
            if selected.last() != removed {
                assert(rest.push(shifted_position(selected.last(), removed))[a] == rest[a]);
            }
        } else {
            assert(selected[selected.len() - 1] == selected.last());
        }
    }
}

proof fn lemma_positions_all_kept(s: Seq<usize>, index: usize)
    requires
        !s.contains(index),
    ensures
        s.filter(other_position(index)) == s,
    decreases s.len(),
{
    if s.len() > 0 {
        assert(!s.drop_last().contains(index)) by {
            if s.drop_last().contains(index) {
                let j = choose|j: int| 0 <= j < s.drop_last().len() && s.drop_last()[j] == index;
                assert(s[j] == index);
            }
        }
        lemma_positions_all_kept(s.drop_last(), index);
        assert(s =~= s.drop_last().push(s.last()));
        assert(s.last() != index) by {
            assert(s[s.len() - 1] == s.last());
        }
        s.drop_last().lemma_filter_push(s.last(), other_position(index));
    } else {
        reveal(Seq::filter);
    }
}

/// Two clicks with the modifier held on an item that was not selected leave
/// the selection as it was.
pub proof fn lemma_additive_click_twice(selected: Seq<usize>, index: usize)
    requires
        !selected.contains(index),
    ensures
        selection_after_click(selection_after_click(selected, index, true), index, true) == selected,
{
    let pushed = selected.push(index);
    assert(pushed.contains(index)) by {
        assert(pushed[selected.len() as int] == index);
    }
    selected.lemma_filter_push(index, other_position(index));
    lemma_positions_all_kept(selected, index);
}

/// The positions that a marquee over the first `upto` items adds to `start`.
proof fn lemma_marquee_from_members(start: Seq<usize>, hits: Seq<bool>, upto: int, i: usize)
    requires
        0 <= upto <= hits.len(),
        hits.len() <= usize::MAX,
    ensures
        marquee_from(start, hits, upto).contains(i) <==> (start.contains(i) || (i < upto && hits[
            i as int
        ])),
    decreases upto,
{
    if upto > 0 {
        let before = marquee_from(start, hits, upto - 1);
        let index = (upto - 1) as usize;
        lemma_marquee_from_members(start, hits, upto - 1, i);
        if hits[upto - 1] && !before.contains(index) {
            let now = before.push(index);
            assert(now[before.len() as int] == index);
            if before.contains(i) {
                let j = choose|j: int| 0 <= j < before.len() && before[j] == i;
                assert(now[j] == i);
            }
            if now.contains(i) {
                let j = choose|j: int| 0 <= j < now.len() && now[j] == i;
                if j < before.len() {
                    assert(before[j] == i);
                }
            }
        }
    }
}

/// A marquee selects exactly the items it touches: afterwards an item is
/// selected when the marquee touched it or, with the modifier held, when it
/// was selected before.
pub proof fn lemma_marquee_selects_hits(selected: Seq<usize>, hits: Seq<bool>, additive: bool, i: usize)
    requires
        hits.len() <= usize::MAX,
        (i as int) < hits.len(),
    ensures
        selection_after_marquee(selected, hits, additive).contains(i) <==> (hits[i as int] || (additive
            && selected.contains(i))),
{
    let start = if additive { selected } else { seq![] };
    lemma_marquee_from_members(start, hits, hits.len() as int, i);
    if !additive {
        assert(!start.contains(i));
    }
}

/// Whether a position lies before `k`.
spec fn before_position(k: int) -> spec_fn(usize) -> bool {
    |i: usize| (i as int) < k
}

/// Among distinct positions, those before `k + 1` are those before `k` and,
/// if it is selected, `k` itself.
proof fn lemma_count_before_step(selected: Seq<usize>, k: int)
    requires
        0 <= k,
        forall|a: int, b: int| 0 <= a < b < selected.len() ==> selected[a] != selected[b],
    ensures
        selected.filter(before_position(k + 1)).len() == selected.filter(before_position(k)).len()
            + (if selected.contains(k as usize) && k <= usize::MAX { 1int } else { 0int }),
    decreases selected.len(),
{
    if selected.len() == 0 {
        reveal(Seq::filter);
        assert(!selected.contains(k as usize));
    } else {
        let rest = selected.drop_last();
        let x = selected.last();
        assert(selected =~= rest.push(x));
        lemma_count_before_step(rest, k);
        rest.lemma_filter_push(x, before_position(k + 1));
        rest.lemma_filter_push(x, before_position(k));
        assert(selected[selected.len() - 1] == x);
        if rest.contains(k as usize) {
            let j = choose|j: int| 0 <= j < rest.len() && rest[j] == k as usize;
            assert(selected[j] == rest[j]);
        }
        if selected.contains(k as usize) && k <= usize::MAX {
            let j = choose|j: int| 0 <= j < selected.len() && selected[j] == k as usize;
            if j < rest.len() {
                assert(rest[j] == selected[j]);
            }
        }
    }
}

/// Cutting from the first `k` items keeps those of them that are not
/// selected.
proof fn lemma_cut_prefix_count<T>(items: Seq<T>, selected: Seq<usize>, k: int)
    requires
        0 <= k <= items.len(),
        items.len() <= usize::MAX,
        forall|a: int, b: int| 0 <= a < b < selected.len() ==> selected[a] != selected[b],
    ensures
        items_after_cut(items.take(k), selected).len() == k - selected.filter(before_position(k)).len(),
    decreases k,
{
    if k == 0 {
        reveal(Seq::filter);
        assert forall|a: int| 0 <= a < selected.len() implies !before_position(0)(selected[a]) by {}
        lemma_filter_none(selected, before_position(0));
    } else {
        lemma_cut_prefix_count(items, selected, k - 1);
        lemma_count_before_step(selected, k - 1);
        let taken = items.take(k);
        assert(taken.drop_last() =~= items.take(k - 1));
    }
}

/// Filtering drops everything when nothing passes.
proof fn lemma_filter_none(s: Seq<usize>, keep: spec_fn(usize) -> bool)
    requires
        forall|a: int| 0 <= a < s.len() ==> !keep(s[a]),
    ensures
        s.filter(keep).len() == 0,
    decreases s.len(),
{
    if s.len() > 0 {
        lemma_filter_none(s.drop_last(), keep);
        assert(s =~= s.drop_last().push(s.last()));
        assert(!keep(s[s.len() - 1]));
        s.drop_last().lemma_filter_push(s.last(), keep);
    } else {
        reveal(Seq::filter);
    }
}

/// Filtering keeps every position when all pass.
proof fn lemma_filter_all_positions(s: Seq<usize>, keep: spec_fn(usize) -> bool)
    requires
        forall|a: int| 0 <= a < s.len() ==> keep(s[a]),
    ensures
        s.filter(keep) == s,
    decreases s.len(),
{
    if s.len() > 0 {
        lemma_filter_all_positions(s.drop_last(), keep);
        assert(s =~= s.drop_last().push(s.last()));
        assert(keep(s[s.len() - 1]));
        s.drop_last().lemma_filter_push(s.last(), keep);
    } else {
        reveal(Seq::filter);
    }
}

/// Cutting removes exactly the selected items: the stage keeps as many
/// items as were not selected.
pub proof fn lemma_cut_removes_selected<T>(items: Seq<T>, selected: Seq<usize>)
    requires
        items.len() <= usize::MAX,
        selection_valid(items.len(), selected),
    ensures
        items_after_cut(items, selected).len() + selected.len() == items.len(),
{
    lemma_cut_prefix_count(items, selected, items.len() as int);
    assert(items.take(items.len() as int) =~= items);
    lemma_filter_all_positions(selected, before_position(items.len() as int));
}

} // verus!
