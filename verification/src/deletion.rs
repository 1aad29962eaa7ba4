//! Removal of the items that the operator chose: the confirmation, the order
//! of removal, and the call that deletes each item at its service.

use vstd::prelude::*;
use vstd::string::*;
use crate::items::MediaItem;
use crate::shared::MediaType;
use crate::text::{signed_decimal, signed_text};

verus! {

/// White space, which is passed over before an answer.
pub open spec fn is_space(c: char) -> bool {
    let n = c as u32;
    n == 0x20 || (0x09 <= n <= 0x0d) || n == 0x85 || n == 0xa0 || n == 0x1680 || (0x2000 <= n
        <= 0x200a) || n == 0x2028 || n == 0x2029 || n == 0x202f || n == 0x205f || n == 0x3000
}

/// Whether the text from `from` on, without the white space before it and in
/// lower case, begins with `y`.
pub open spec fn is_yes_from(answer: Seq<char>, from: int) -> bool
    decreases answer.len() - from,
{
    if from < 0 || from >= answer.len() {
        false
    } else if is_space(answer[from]) {
        is_yes_from(answer, from + 1)
    } else {
        answer[from] == 'y' || answer[from] == 'Y'
    }
}

/// Whether an answer confirms: trimmed and in lower case it begins with `y`.
pub open spec fn is_yes(answer: Seq<char>) -> bool {
    is_yes_from(answer, 0)
}

/// Whether a character is white space.
fn space(c: char) -> (yes: bool)
    ensures
        yes == is_space(c),
{
    let n: u32 = c as u32;
    n == 0x20 || (0x09 <= n && n <= 0x0d) || n == 0x85 || n == 0xa0 || n == 0x1680 || (0x2000 <= n
        && n <= 0x200a) || n == 0x2028 || n == 0x2029 || n == 0x202f || n == 0x205f || n == 0x3000
}

/// Whether the operator's answer confirms the deletion.
pub fn is_confirmation(answer: &str) -> (yes: bool)
    ensures
        yes == is_yes(answer@),
{
    let n: usize = answer.unicode_len();
    let mut i: usize = 0;
    while i < n
        invariant
            n == answer@.len(),
            i <= n,
            is_yes(answer@) == is_yes_from(answer@, i as int),
        decreases n - i,
    {
        let c = answer.get_char(i);
        if !space(c) {
            return c == 'y' || c == 'Y';
        }
        i += 1;
    }
    false
}

/// Each entry is greater than all that follow it.
pub open spec fn strictly_descending(order: Seq<usize>) -> bool {
    forall|i: int, j: int| 0 <= i < j < order.len() ==> order[i] > order[j]
}

/// The order in which chosen places are removed: each place once, the
/// highest first, so that a removal never moves an item that is still to go.
pub fn removal_order(selected: &Vec<usize>) -> (order: Vec<usize>)
    ensures
        strictly_descending(order@),
        forall|v: usize| order@.contains(v) <==> selected@.contains(v),
{
    let mut order: Vec<usize> = Vec::new();
    let mut i: usize = 0;
    while i < selected.len()
        invariant
            i <= selected.len(),
            strictly_descending(order@),
            forall|k: int| 0 <= k < i ==> order@.contains(#[trigger] selected[k]),
            forall|j: int| 0 <= j < order.len() ==> selected@.contains(#[trigger] order[j]),
        decreases selected.len() - i,
    {
        let place = selected[i];
        let mut at: usize = 0;
        while at < order.len() && order[at] > place
            invariant
                at <= order.len(),
                forall|k: int| 0 <= k < at ==> order[k] > place,
            decreases order.len() - at,
        {
            at += 1;
        }
        if at < order.len() && order[at] == place {
            assert(order@.contains(selected[i as int]));
        } else {
            let ghost before = order@;
            order.insert(at, place);
            proof {
                assert(order@[at as int] == place);
                assert forall|k: int| 0 <= k < i + 1 implies order@.contains(
                    #[trigger] selected[k],
                ) by {
                    if k < i {
                        let j = choose|j: int| 0 <= j < before.len() && before[j] == selected[k];
                        if j < at {
                            assert(order@[j] == selected[k]);
                        } else {
                            assert(order@[j + 1] == selected[k]);
                        }
                    }
                }
                assert forall|j: int| 0 <= j < order.len() implies selected@.contains(
                    #[trigger] order[j],
                ) by {
                    if j < at {
                        assert(order[j] == before[j]);
                    } else if j == at {
                        assert(selected@[i as int] == place);
                    } else {
                        assert(order[j] == before[j - 1]);
                    }
                }
                assert forall|a: int, b: int| 0 <= a < b < order.len() implies order[a]
                    > order[b] by {
                    let x = if a < at { a } else { a - 1 };
                    let y = if b < at { b } else { b - 1 };
                    if a != at && b != at {
                        assert(before[x] > before[y]);
                    } else if a == at {
                        assert(before[at as int] >= before[y]);
                    }
                }
            }
        }
        i += 1;
    }
    assert forall|v: usize| order@.contains(v) <==> selected@.contains(v) by {
        if selected@.contains(v) {
            let k = choose|k: int| 0 <= k < selected.len() && selected[k] == v;
            assert(order@.contains(selected[k]));
        }
    }
    order
}

/// The places to remove, in order, given the operator's answer: nothing
/// unless the answer confirms, else every chosen place, the highest first.
pub fn confirmed_removals(selected: &Vec<usize>, answer: &str) -> (order: Vec<usize>)
    ensures
        !is_yes(answer@) ==> order@.len() == 0,
        is_yes(answer@) ==> strictly_descending(order@) && forall|v: usize|
            order@.contains(v) <==> selected@.contains(v),
{
    if selected.len() == 0 || !is_confirmation(answer) {
        let order: Vec<usize> = Vec::new();
        assert(selected.len() == 0 ==> forall|v: usize|
            !order@.contains(v) && !selected@.contains(v));
        order
    } else {
        removal_order(selected)
    }
}

/// What is left after the places of `order` were removed one after the other.
pub open spec fn removed_each<A>(items: Seq<A>, order: Seq<usize>) -> Seq<A>
    decreases order.len(),
{
    if order.len() == 0 {
        items
    } else {
        removed_each(items, order.drop_last()).remove(order.last() as int)
    }
}

/// Removing places from the highest down moves nothing below the place
/// removed last: those items stand where they stood at the start.
pub proof fn lemma_descending_removal_keeps_lower<A>(items: Seq<A>, order: Seq<usize>)
    requires
        strictly_descending(order),
        forall|i: int| 0 <= i < order.len() ==> order[i] < items.len(),
        order.len() > 0,
    ensures
        removed_each(items, order).len() == items.len() - order.len(),
        removed_each(items, order).len() >= order.last(),
        forall|k: int| 0 <= k < order.last() ==> removed_each(items, order)[k] == items[k],
    decreases order.len(),
{
    let front = order.drop_last();
    if front.len() > 0 {
        assert(front.last() == order[order.len() - 2]);
        assert(strictly_descending(front)) by {
            assert forall|i: int, j: int| 0 <= i < j < front.len() implies front[i] > front[j] by {
                assert(front[i] == order[i] && front[j] == order[j]);
            }
        }
        lemma_descending_removal_keeps_lower(items, front);
    } else {
        assert(removed_each(items, front) == items);
    }
}

/// Every removal in descending order takes the item that stood at that place
/// at the start: the place is still within the collection, and no earlier
/// removal has moved the item.
pub proof fn lemma_descending_removal_takes_initial<A>(items: Seq<A>, order: Seq<usize>, step: int)
    requires
        strictly_descending(order),
        forall|i: int| 0 <= i < order.len() ==> order[i] < items.len(),
        0 <= step < order.len(),
    ensures
        order[step] < removed_each(items, order.take(step)).len(),
        removed_each(items, order.take(step))[order[step] as int] == items[order[step] as int],
{
    let done = order.take(step);
    if step > 0 {
        assert(done.last() == order[step - 1]);
        assert(strictly_descending(done)) by {
            assert forall|i: int, j: int| 0 <= i < j < done.len() implies done[i] > done[j] by {
                assert(done[i] == order[i] && done[j] == order[j]);
            }
        }
        lemma_descending_removal_keeps_lower(items, done);
    }
}

/// Whether `place` is one of the places.
pub open spec fn holds_place(places: Seq<usize>, place: int) -> bool {
    exists|i: int| 0 <= i < places.len() && #[trigger] places[i] == place
}

/// The items that stand at none of the places, in order.
pub open spec fn without_places<A>(items: Seq<A>, places: Seq<usize>) -> Seq<A>
    decreases items.len(),
{
    if items.len() == 0 {
        Seq::empty()
    } else if holds_place(places, items.len() - 1) {
        without_places(items.drop_last(), places)
    } else {
        without_places(items.drop_last(), places).push(items.last())
    }
}

/// Places beyond the end of a collection take nothing from it.
pub proof fn lemma_places_beyond_end<A>(items: Seq<A>, places: Seq<usize>)
    requires
        forall|i: int| 0 <= i < places.len() ==> places[i] >= items.len(),
    ensures
        without_places(items, places) == items,
    decreases items.len(),
{
    if items.len() > 0 {
        lemma_places_beyond_end(items.drop_last(), places);
        assert(items.drop_last().push(items.last()) =~= items);
    }
}

/// Removing a place that lies below all places taken out so far gives what
/// is left when that place is taken out with them.
pub proof fn lemma_remove_lower_place<A>(items: Seq<A>, places: Seq<usize>, place: usize)
    requires
        forall|i: int| 0 <= i < places.len() ==> places[i] > place,
        place < items.len(),
    ensures
        without_places(items, places).len() > place,
        without_places(items, places).remove(place as int) == without_places(
            items,
            places.push(place),
        ),
    decreases items.len(),
{
    let last = items.len() - 1;
    let rest = items.drop_last();
    let more = places.push(place);
    assert(more[places.len() as int] == place);
    assert forall|v: int| holds_place(more, v) <==> (holds_place(places, v) || v == place) by {
        if holds_place(places, v) {
            let i = choose|i: int| 0 <= i < places.len() && places[i] == v;
            assert(more[i] == v);
        }
        if holds_place(more, v) && v != place {
            let i = choose|i: int| 0 <= i < more.len() && more[i] == v;
            assert(places[i] == v);
        }
    }
    if last == place {
        assert(!holds_place(places, last));
        assert forall|i: int| 0 <= i < more.len() implies more[i] >= rest.len() by {
            if i < places.len() {
                assert(more[i] == places[i]);
            }
        }
        lemma_places_beyond_end(rest, places);
        lemma_places_beyond_end(rest, more);
        assert(rest.push(items.last()).remove(place as int) =~= rest);
    } else {
        lemma_remove_lower_place(rest, places, place);
        if !holds_place(places, last) {
            assert(without_places(rest, places).push(items.last()).remove(place as int)
                =~= without_places(rest, places).remove(place as int).push(items.last()));
        }
    }
}

/// After the places were removed from the highest down, the collection
/// holds the items that stood at none of them, in the order in which they
/// stood.
pub proof fn lemma_descending_removal_leaves_the_rest<A>(items: Seq<A>, order: Seq<usize>)
    requires
        strictly_descending(order),
        forall|i: int| 0 <= i < order.len() ==> order[i] < items.len(),
    ensures
        removed_each(items, order) == without_places(items, order),
    decreases order.len(),
{
    if order.len() == 0 {
        lemma_places_beyond_end(items, order);
    } else {
        let front = order.drop_last();
        assert(strictly_descending(front)) by {
            assert forall|i: int, j: int| 0 <= i < j < front.len() implies front[i] > front[j] by {
                assert(front[i] == order[i] && front[j] == order[j]);
            }
        }
        assert forall|i: int| 0 <= i < front.len() implies front[i] > order.last() by {
            assert(front[i] == order[i]);
        }
        lemma_descending_removal_leaves_the_rest(items, front);
        lemma_remove_lower_place(items, front, order.last());
        assert(front.push(order.last()) =~= order);
    }
}

/// The call that deletes one item at the service that manages it.
#[derive(Debug, Clone, Copy, PartialEq, Eq, Structural)]
pub struct DeleteCall {
    /// The kind of the item, which decides the service.
    pub media_type: MediaType,
    /// The item's identifier at that service.
    pub id: i32,
}

/// The path of an item at its service.
pub open spec fn resource_path(media_type: MediaType, id: int) -> Seq<char> {
    match media_type {
        MediaType::Movie => "/movie/"@ + signed_text(id),
        MediaType::Tv => "/series/"@ + signed_text(id),
    }
}

/// The name of the parameter that keeps a deleted item off the exclusion
/// list of its service.
pub open spec fn exclusion_parameter_spec(media_type: MediaType) -> Seq<char> {
    match media_type {
        MediaType::Movie => "addImportExclusion"@,
        MediaType::Tv => "addImportListExclusion"@,
    }
}

/// The path of an item at its service: films under `/movie/`, series under
/// `/series/`.
pub fn item_path(media_type: MediaType, id: i32) -> (path: String)
    ensures
        path@ == resource_path(media_type, id as int),
{
    let id = signed_decimal(id);
    let mut path = match media_type {
        MediaType::Movie => String::from_str("/movie/"),
        MediaType::Tv => String::from_str("/series/"),
    };
    path.append(id.as_str());
    path
}

/// Where a deletion is sent: the item's path, with the request to delete
/// its files too and not to put it on the exclusion list.
pub open spec fn delete_target(media_type: MediaType, id: int) -> Seq<char> {
    resource_path(media_type, id) + "?deleteFiles=true&"@ + exclusion_parameter_spec(media_type)
        + "=false"@
}

impl DeleteCall {
    /// The path and query to which the call goes: the files are deleted with
    /// the item, and the item is not put on the exclusion list.
    pub fn target(&self) -> (target: String)
        ensures
            target@ == delete_target(self.media_type, self.id as int),
    {
        let mut target = self.path();
        target.append("?deleteFiles=true&");
        target.append(self.exclusion_parameter());
        target.append("=false");
        target
    }

    /// The path to which the call goes.
    pub fn path(&self) -> (path: String)
        ensures
            path@ == resource_path(self.media_type, self.id as int),
    {
        item_path(self.media_type, self.id)
    }

    /// The name of the parameter that asks for the item's files to be
    /// deleted with it. It is sent with the value `true`.
    pub fn delete_files_parameter(&self) -> (name: &'static str)
        ensures
            name@ == "deleteFiles"@,
    {
        "deleteFiles"
    }

    /// The name of the parameter for the exclusion list. It is sent with the
    /// value `false`.
    pub fn exclusion_parameter(&self) -> (name: &'static str)
        ensures
            name@ == exclusion_parameter_spec(self.media_type),
    {
        match self.media_type {
            MediaType::Movie => "addImportExclusion",
            MediaType::Tv => "addImportListExclusion",
        }
    }
}

/// Takes the item at `place` out of the collection and says which call
/// deletes it. The items behind it move up by one place.
pub fn remove_for_deletion(items: &mut Vec<MediaItem>, place: usize) -> (removed: (
    MediaItem,
    DeleteCall,
))
    requires
        place < old(items).len(),
    ensures
        final(items)@ == old(items)@.remove(place as int),
        removed.0 == old(items)[place as int],
        removed.1 == call_for(removed.0),
{
    let item = items.remove(place);
    let call = DeleteCall { media_type: item.media_type, id: item.id };
    (item, call)
}

/// The call that deletes an item.
pub open spec fn call_for(item: MediaItem) -> DeleteCall {
    DeleteCall { media_type: item.media_type, id: item.id }
}

/// A deletion in progress: the places to remove, how many of them are done,
/// and whether a call has failed.
pub struct DeletionRun {
    pub order: Vec<usize>,
    pub done: usize,
    pub failed: bool,
    /// The collection as it stood when the deletion began.
    pub initial: Ghost<Seq<MediaItem>>,
}

impl DeletionRun {
    /// The places go from the highest down and lie within the collection as
    /// it stood at the beginning, and `items` is what is left of it after
    /// the removals that are done.
    pub open spec fn wf(&self, items: Seq<MediaItem>) -> bool {
        &&& strictly_descending(self.order@)
        &&& self.done <= self.order.len()
        &&& forall|i: int| 0 <= i < self.order.len() ==> self.order[i] < self.initial@.len()
        &&& items == removed_each(self.initial@, self.order@.take(self.done as int))
    }

    /// The places that are still to be removed. After a failed call there
    /// are none: the rest of the batch is given up.
    pub open spec fn pending(&self) -> Seq<usize> {
        if self.failed {
            Seq::empty()
        } else {
            self.order@.skip(self.done as int)
        }
    }

    /// Begins the deletion of the chosen items with the operator's answer.
    /// Unless the answer confirms, nothing is to be removed; if it does,
    /// every chosen place is, once.
    pub fn begin(items: &Vec<MediaItem>, selected: &Vec<usize>, answer: &str) -> (run: DeletionRun)
        requires
            forall|i: int| 0 <= i < selected.len() ==> selected[i] < items.len(),
        ensures
            run.wf(items@),
            run.initial@ == items@,
            run.done == 0,
            !run.failed,
            !is_yes(answer@) ==> run.pending().len() == 0,
            is_yes(answer@) ==> forall|v: usize| run.pending().contains(v) <==> selected@.contains(v),
    {
        let order = confirmed_removals(selected, answer);
        proof {
            assert forall|i: int| 0 <= i < order.len() implies order[i] < items.len() by {
                assert(order@.contains(order[i]));
                let k = choose|k: int| 0 <= k < selected.len() && selected[k] == order[i];
                assert(selected[k] < items.len());
            }
            assert(order@.skip(0) =~= order@);
            assert(order@.take(0) =~= Seq::<usize>::empty());
        }
        DeletionRun { order, done: 0, failed: false, initial: Ghost(items@) }
    }

    /// Takes the next item out of the collection and says which call deletes
    /// it; the item is removed before the call is made. The place is the
    /// highest that is still pending, and the item is the one that stood
    /// there when the deletion began. Gives nothing, and changes nothing,
    /// once every place is done or a call has failed.
    pub fn next_call(&mut self, items: &mut Vec<MediaItem>) -> (call: Option<DeleteCall>)
        requires
            old(self).wf(old(items)@),
        ensures
            final(self).wf(final(items)@),
            final(self).order == old(self).order,
            final(self).failed == old(self).failed,
            final(self).initial == old(self).initial,
            match call {
                Some(call) => {
                    &&& old(self).pending().len() > 0
                    &&& old(self).pending()[0] < old(items)@.len()
                    &&& call == call_for(old(self).initial@[old(self).pending()[0] as int])
                    &&& final(items)@ == old(items)@.remove(old(self).pending()[0] as int)
                    &&& final(self).done == old(self).done + 1
                },
                None => {
                    &&& old(self).pending().len() == 0
                    &&& final(items)@ == old(items)@
                    &&& final(self).done == old(self).done
                },
            },
    {
        if self.failed || self.done >= self.order.len() {
            return None;
        }
        let place = self.order[self.done];
        proof {
            lemma_descending_removal_takes_initial(
                self.initial@,
                self.order@,
                self.done as int,
            );
            let next = self.order@.take(self.done + 1);
            assert(next.drop_last() =~= self.order@.take(self.done as int));
            assert(next.last() == place);
        }
        let removed = remove_for_deletion(items, place);
        self.done += 1;
        Some(removed.1)
    }

    /// Records that the last call failed: what is left of the batch is given
    /// up, and what was removed stays removed.
    pub fn call_failed(&mut self)
        ensures
            final(self).failed,
            final(self).order == old(self).order,
            final(self).done == old(self).done,
            final(self).initial == old(self).initial,
            final(self).pending().len() == 0,
    {
        self.failed = true;
    }
}

/// When every place of a deletion is done, the collection holds the items
/// that were not chosen, in the order in which they stood at the beginning.
pub proof fn lemma_finished_run_leaves_the_rest(run: DeletionRun, items: Seq<MediaItem>)
    requires
        run.wf(items),
        run.done == run.order.len(),
    ensures
        items == without_places(run.initial@, run.order@),
{
    assert(run.order@.take(run.done as int) =~= run.order@);
    lemma_descending_removal_leaves_the_rest(run.initial@, run.order@);
}

/// The line that names a chosen item before the operator confirms.
pub open spec fn selection_line_spec(items: Seq<MediaItem>, place: int) -> Seq<char> {
    if 0 <= place < items.len() {
        "- "@ + (match items[place].title {
            Some(title) => title@,
            None => "Unknown"@,
        }) + " - "@ + items[place].media_type.label_spec()
    } else {
        "- Unknown item"@
    }
}

/// The line that names a chosen item before the operator confirms: its
/// title, or `Unknown` where it has none, and its kind.
pub fn selection_line(items: &Vec<MediaItem>, place: usize) -> (line: String)
    ensures
        line@ == selection_line_spec(items@, place as int),
{
    if place < items.len() {
        let item = &items[place];
        let mut line = String::from_str("- ");
        match &item.title {
            Some(title) => line.append(title.as_str()),
            None => line.append("Unknown"),
        }
        line.append(" - ");
        line.append(item.media_type.label());
        line
    } else {
        String::from_str("- Unknown item")
    }
}

} // verus!
