//! A forward cursor over the display items of one pipeline.

use crate::display_list::{DisplayItem, SpecificDisplayItem};
use vstd::prelude::*;

verus! {

/// The position just behind the pop that closes the stacking context which
/// is open at `from`, where `depth` counts the stacking contexts that were
/// opened since and are still open. If the list ends before that pop, the
/// end of the list; a position behind the end stays where it is.
pub open spec fn spec_skip_end(list: Seq<DisplayItem>, from: int, depth: nat) -> int
    decreases list.len() - from,
{
    if from < 0 || from >= list.len() {
        from
    } else {
        match list[from].item {
            SpecificDisplayItem::PushStackingContext(_) => spec_skip_end(list, from + 1, depth + 1),
            SpecificDisplayItem::PopStackingContext => if depth == 0 {
                from + 1
            } else {
                spec_skip_end(list, from + 1, (depth - 1) as nat)
            },
            _ => spec_skip_end(list, from + 1, depth),
        }
    }
}

/// Pushes less pops among the items of `list` from `from` up to `to`.
pub open spec fn spec_balance(list: Seq<DisplayItem>, from: int, to: int) -> int
    decreases to - from,
{
    if to <= from {
        0
    } else {
        spec_balance(list, from, to - 1) + match list[to - 1].item {
            SpecificDisplayItem::PushStackingContext(_) => 1int,
            SpecificDisplayItem::PopStackingContext => -1int,
            _ => 0int,
        }
    }
}

/// Whether `end` is the first position behind `from` at which the pops
/// seen outnumber the pushes by more than `depth`.
pub open spec fn spec_closes_at(list: Seq<DisplayItem>, from: int, depth: nat, end: int) -> bool {
    &&& from < end <= list.len()
    &&& spec_balance(list, from, end) == -1 - depth
    &&& forall|k: int| from <= k < end ==> #[trigger] spec_balance(list, from, k) >= -depth
}

pub struct DisplayListTraversal<'a> {
    pub display_list: &'a Vec<DisplayItem>,
    pub next_item_index: usize,
}

impl<'a> DisplayListTraversal<'a> {
    /// A cursor over `display_list` that stands behind its first item.
    pub fn new_skipping_first(display_list: &'a Vec<DisplayItem>) -> (traversal:
        DisplayListTraversal<'a>)
        ensures
            traversal.display_list == display_list,
            traversal.next_item_index == 1,
    {
        DisplayListTraversal { display_list, next_item_index: 1 }
    }

    /// The items that the cursor runs over.
    pub open spec fn items(&self) -> Seq<DisplayItem> {
        self.display_list@
    }

    /// The item under the cursor, if the cursor is inside the list.
    pub open spec fn spec_peek(&self) -> Option<DisplayItem> {
        if self.next_item_index < self.items().len() {
            Some(self.items()[self.next_item_index as int])
        } else {
            None
        }
    }

    pub fn peek(&self) -> (item: Option<&'a DisplayItem>)
        ensures
            match item {
                Some(item) => self.spec_peek() == Some(*item),
                None => self.spec_peek() is None,
            },
    {
        if self.next_item_index >= self.display_list.len() {
            return None;
        }
        Some(&self.display_list[self.next_item_index])
    }

    /// Hands out the item under the cursor and moves one item on; at the end
    /// of the list, nothing, and the cursor stays.
    pub fn next(&mut self) -> (item: Option<&'a DisplayItem>)
        ensures
            final(self).display_list == old(self).display_list,
            match item {
                Some(item) => old(self).spec_peek() == Some(*item) && final(self).next_item_index
                    == old(self).next_item_index + 1,
                None => old(self).spec_peek() is None && final(self).next_item_index
                    == old(self).next_item_index,
            },
    {
        if self.next_item_index >= self.display_list.len() {
            return None;
        }
        let item = &self.display_list[self.next_item_index];
        self.next_item_index += 1;
        Some(item)
    }

    /// Whether the stacking context that the cursor stands in holds nothing:
    /// the next item is its pop, or the list has ended.
    pub open spec fn spec_current_stacking_context_empty(&self) -> bool {
        match self.spec_peek() {
            Some(item) => item.item is PopStackingContext,
            None => true,
        }
    }

    pub fn current_stacking_context_empty(&self) -> (empty: bool)
        ensures
            empty == self.spec_current_stacking_context_empty(),
    {
        match self.peek() {
            Some(item) => match item.item {
                SpecificDisplayItem::PopStackingContext => true,
                _ => false,
            },
            None => true,
        }
    }

    /// Moves the cursor behind the pop that closes the stacking context it
    /// stands in, passing over nested stacking contexts whole.
    pub fn skip_current_stacking_context(&mut self)
        ensures
            final(self).display_list == old(self).display_list,
            final(self).next_item_index == spec_skip_end(
                old(self).items(),
                old(self).next_item_index as int,
                0,
            ),
    {
        let mut depth: usize = 0;
        let ghost start = self.next_item_index as int;
        let ghost list = self.items();
        while self.next_item_index < self.display_list.len()
            invariant
                self.display_list == old(self).display_list,
                list == old(self).items(),
                start == old(self).next_item_index,
                start <= self.next_item_index,
                depth <= self.next_item_index - start,
                spec_skip_end(list, start, 0) == spec_skip_end(
                    list,
                    self.next_item_index as int,
                    depth as nat,
                ),
            decreases self.display_list.len() - self.next_item_index,
        {
            let item = &self.display_list[self.next_item_index];
            self.next_item_index += 1;
            match item.item {
                SpecificDisplayItem::PushStackingContext(_) => {
                    depth += 1;
                },
                SpecificDisplayItem::PopStackingContext => {
                    if depth == 0 {
                        return ;
                    }
                    depth -= 1;
                },
                _ => {},
            }
        }
    }
}

/// A skip never moves the cursor back, and never beyond the end of a list
/// that it started inside.
pub proof fn lemma_skip_end_bounds(list: Seq<DisplayItem>, from: int, depth: nat)
    ensures
        from <= spec_skip_end(list, from, depth),
        0 <= from <= list.len() ==> spec_skip_end(list, from, depth) <= list.len(),
        0 <= from < list.len() ==> from < spec_skip_end(list, from, depth),
    decreases list.len() - from,
{
    if 0 <= from < list.len() {
        match list[from].item {
            SpecificDisplayItem::PushStackingContext(_) => lemma_skip_end_bounds(
                list,
                from + 1,
                depth + 1,
            ),
            SpecificDisplayItem::PopStackingContext => if depth != 0 {
                lemma_skip_end_bounds(list, from + 1, (depth - 1) as nat)
            },
            _ => lemma_skip_end_bounds(list, from + 1, depth),
        }
    }
}

proof fn lemma_balance_split(list: Seq<DisplayItem>, from: int, mid: int, to: int)
    requires
        from <= mid <= to,
    ensures
        spec_balance(list, from, to) == spec_balance(list, from, mid) + spec_balance(list, mid, to),
    decreases to - mid,
{
    if mid < to {
        lemma_balance_split(list, from, mid, to - 1);
    }
}

/// If the stacking context that is open at `from` is closed inside the
/// list, the skip ends just behind the pop that closes it: the first
/// position at which the pops outnumber the pushes.
pub proof fn lemma_skip_end_is_matching_pop(
    list: Seq<DisplayItem>,
    from: int,
    depth: nat,
    end: int,
)
    requires
        0 <= from,
        spec_closes_at(list, from, depth, end),
    ensures
        spec_skip_end(list, from, depth) == end,
    decreases list.len() - from,
{
    assert(spec_balance(list, from, from) == 0);
    let step = spec_balance(list, from, from + 1);
    lemma_balance_split(list, from, from + 1, end);
    if end == from + 1 {
    } else {
        let next_depth = (depth + step) as nat;
        assert forall|k: int| from + 1 <= k < end implies #[trigger] spec_balance(
            list,
            from + 1,
            k,
        ) >= -next_depth by {
            lemma_balance_split(list, from, from + 1, k);
        }
        lemma_skip_end_is_matching_pop(list, from + 1, next_depth, end);
    }
}

/// If no pop inside the list closes the stacking context that is open at
/// `from`, the skip runs to the end of the list.
pub proof fn lemma_skip_end_of_unclosed(list: Seq<DisplayItem>, from: int, depth: nat)
    requires
        0 <= from <= list.len(),
        forall|k: int| from <= k <= list.len() ==> #[trigger] spec_balance(list, from, k) >= -depth,
    ensures
        spec_skip_end(list, from, depth) == list.len(),
    decreases list.len() - from,
{
    if from < list.len() {
        assert(spec_balance(list, from, from) == 0);
        let step = spec_balance(list, from, from + 1);
        let next_depth = (depth + step) as nat;
        assert forall|k: int| from + 1 <= k <= list.len() implies #[trigger] spec_balance(
            list,
            from + 1,
            k,
        ) >= -next_depth by {
            lemma_balance_split(list, from, from + 1, k);
        }
        lemma_skip_end_of_unclosed(list, from + 1, next_depth);
    }
}

} // verus!
