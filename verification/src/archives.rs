//! Which payloads can be read: those whose references come to an end.

use vstd::prelude::*;

#[allow(unused_imports)]
use crate::balloons::Parsed;
#[allow(unused_imports)]
use crate::payload::{
    comes_to_end, entry, entry_steps, is_app_message, is_url_message, item_steps,
    lemma_reach_longer, pair_step, pair_steps, reach, resolvable, resolved, steps, table, value_at,
    walk, Payload, PlistView, Step,
};

#[allow(unused_imports)]
use crate::records::is_payload;

verus! {

/// The first entry with a key has the value for it, whatever entries stand around it.
pub proof fn law_the_first_entry_counts(
    before: Seq<(Seq<char>, PlistView)>,
    key: Seq<char>,
    value: PlistView,
    behind: Seq<(Seq<char>, PlistView)>,
)
    requires
        forall|i: int| 0 <= i < before.len() ==> (#[trigger] before[i]).0 != key,
    ensures
        entry(before, key) is None,
        entry(before + seq![(key, value)] + behind, key) == Some(value),
    decreases before.len(),
{
    let all = before + seq![(key, value)] + behind;
    if before.len() > 0 {
        let rest = before.skip(1);
        assert(before[0].0 != key);
        assert forall|i: int| 0 <= i < rest.len() implies (#[trigger] rest[i]).0 != key by {
            assert(rest[i] == before[i + 1]);
        }
        law_the_first_entry_counts(rest, key, value, behind);
        assert(all.skip(1) == rest + seq![(key, value)] + behind);
    }
}

/// A payload without a table of objects or without a root has no references to follow. Else it can
/// be read where the references from its root come to an end.
pub proof fn law_payloads_can_be_read_from_their_root(view: PlistView)
    ensures
        !(view is Dictionary) ==> resolvable(view),
        !(value_at(view, "$objects"@) matches Some(PlistView::Array(_))) ==> resolvable(view),
        value_at(view, "$top"@) is None ==> resolvable(view),
        value_at(view, "$objects"@) matches Some(PlistView::Array(objects)) && value_at(
            view,
            "$top"@,
        ) is Some ==> (match value_at(value_at(view, "$top"@)->0, "root"@) {
            Some(PlistView::Uid(root)) => resolvable(view) == comes_to_end(
                value_at(view, "$objects"@)->0->Array_0,
                root,
            ),
            _ => resolvable(view),
        }),
{
}

/// What is reached where steps are taken to their end, each of them reaches.
proof fn lemma_all_steps_are_taken(
    objects: Seq<PlistView>,
    list: Seq<Step>,
    at: int,
    depth: nat,
)
    requires
        walk(objects, list, depth) is Ends,
        0 <= at < list.len(),
    ensures
        match list[at] {
            Step::Follow(number, keyed) => reach(objects, number, keyed, depth) is Ends,
            Step::Fail => false,
        },
    decreases list.len(),
{
    if at < list.len() - 1 {
        lemma_all_steps_are_taken(objects, list.drop_last(), at, depth);
        assert(list.drop_last()[at] == list[at]);
    } else {
        assert(list.last() == list[at]);
    }
}

proof fn lemma_item_is_followed(items: Seq<PlistView>, keyed: bool, at: int) -> (place: int)
    requires
        0 <= at < items.len(),
        items[at] is Uid,
    ensures
        0 <= place < item_steps(items, keyed).len(),
        item_steps(items, keyed)[place] == Step::Follow(items[at]->Uid_0, keyed),
    decreases items.len(),
{
    if at < items.len() - 1 {
        assert(items.drop_last()[at] == items[at]);
        lemma_item_is_followed(items.drop_last(), keyed, at)
    } else {
        assert(items.last() == items[at]);
        item_steps(items.drop_last(), keyed).len() as int
    }
}

proof fn lemma_entry_is_followed(
    objects: Seq<PlistView>,
    entries: Seq<(Seq<char>, PlistView)>,
    keyed: bool,
    at: int,
) -> (place: int)
    requires
        0 <= at < entries.len(),
        entries[at].0 != "$class"@,
        entries[at].1 is Uid,
    ensures
        0 <= place < entry_steps(objects, entries, keyed).len(),
        entry_steps(objects, entries, keyed)[place] == Step::Follow(entries[at].1->Uid_0, true),
    decreases entries.len(),
{
    if at < entries.len() - 1 {
        assert(entries.drop_last()[at] == entries[at]);
        lemma_entry_is_followed(objects, entries.drop_last(), keyed, at)
    } else {
        assert(entries.last() == entries[at]);
        entry_steps(objects, entries.drop_last(), keyed).len() as int
    }
}

/// Where the references from an array come to an end, so do those from each of the objects that it
/// refers to, within fewer objects.
pub proof fn law_arrays_follow_all_their_references(
    objects: Seq<PlistView>,
    start: u64,
    keyed: bool,
    at: int,
    depth: nat,
)
    requires
        start <= usize::MAX && start < objects.len(),
        objects[start as int] is Array,
        0 <= at < objects[start as int]->Array_0.len(),
        objects[start as int]->Array_0[at] is Uid,
    ensures
        reach(objects, start, keyed, depth + 1) is Ends ==> reach(
            objects,
            objects[start as int]->Array_0[at]->Uid_0,
            keyed,
            depth,
        ) is Ends,
{
    let items = objects[start as int]->Array_0;
    let place = lemma_item_is_followed(items, keyed, at);
    if reach(objects, start, keyed, depth + 1) is Ends {
        lemma_all_steps_are_taken(objects, item_steps(items, keyed), place, depth);
    }
}

/// Where the references from a dictionary come to an end, so do those from each of the objects that
/// its entries refer to, but for its class, within fewer objects.
pub proof fn law_dictionaries_follow_all_their_references(
    objects: Seq<PlistView>,
    start: u64,
    keyed: bool,
    at: int,
    depth: nat,
)
    requires
        start <= usize::MAX && start < objects.len(),
        objects[start as int] is Dictionary,
        value_at(objects[start as int], "NS.relative"@) is None,
        value_at(objects[start as int], "NS.keys"@) is None || value_at(
            objects[start as int],
            "NS.objects"@,
        ) is None,
        0 <= at < objects[start as int]->Dictionary_0.len(),
        objects[start as int]->Dictionary_0[at].0 != "$class"@,
        objects[start as int]->Dictionary_0[at].1 is Uid,
    ensures
        reach(objects, start, keyed, depth + 1) is Ends ==> reach(
            objects,
            objects[start as int]->Dictionary_0[at].1->Uid_0,
            true,
            depth,
        ) is Ends,
{
    let entries = objects[start as int]->Dictionary_0;
    let place = lemma_entry_is_followed(objects, entries, keyed, at);
    if reach(objects, start, keyed, depth + 1) is Ends {
        lemma_all_steps_are_taken(objects, entry_steps(objects, entries, keyed), place, depth);
    }
}

/// Where the references from a dictionary of keys and values come to an end, each key refers to a
/// text, and the references from each value come to an end within fewer objects.
pub proof fn law_keys_lead_to_texts(
    objects: Seq<PlistView>,
    start: u64,
    keyed: bool,
    keys: Seq<PlistView>,
    values: Seq<PlistView>,
    at: int,
    depth: nat,
)
    requires
        start <= usize::MAX && start < objects.len(),
        value_at(objects[start as int], "NS.relative"@) is None,
        value_at(objects[start as int], "NS.keys"@) == Some(PlistView::Array(keys)),
        value_at(objects[start as int], "NS.objects"@) == Some(PlistView::Array(values)),
        0 <= at < keys.len(),
        reach(objects, start, keyed, depth + 1) is Ends,
    ensures
        keys.len() == values.len(),
        keys[at] matches PlistView::Uid(key) && values[at] matches PlistView::Uid(value) && key
            < objects.len() && objects[key as int] is Text && reach(objects, value, true, depth)
            is Ends,
{
    let view = objects[start as int];
    let list = pair_steps(objects, PlistView::Array(keys), PlistView::Array(values));
    assert(steps(objects, view, keyed) == list);
    if keys.len() != values.len() {
        lemma_all_steps_are_taken(objects, list, 0, depth);
    } else {
        assert(list[at] == pair_step(objects, keys[at], values[at]));
        lemma_all_steps_are_taken(objects, list, at, depth);
    }
}

/// Where the references from an object that refers to another one, alone or as the value of a key
/// that is relative to it, come to an end, so do those from that other one.
pub proof fn law_references_lead_on(
    objects: Seq<PlistView>,
    start: u64,
    keyed: bool,
    number: u64,
    depth: nat,
)
    requires
        start <= usize::MAX && start < objects.len(),
        reach(objects, start, keyed, depth + 1) is Ends,
    ensures
        objects[start as int] == PlistView::Uid(number) ==> reach(objects, number, false, depth)
            is Ends,
        keyed && value_at(objects[start as int], "NS.relative"@) == Some(PlistView::Uid(number))
            ==> reach(objects, number, true, depth) is Ends,
{
    let list = steps(objects, objects[start as int], keyed);
    if objects[start as int] == PlistView::Uid(number) {
        lemma_all_steps_are_taken(objects, list, 0, depth);
    } else if keyed && value_at(objects[start as int], "NS.relative"@) == Some(
        PlistView::Uid(number),
    ) {
        assert(list == seq![Step::Follow(number, true)]);
        lemma_all_steps_are_taken(objects, list, 0, depth);
    }
}

proof fn lemma_steps_that_end(objects: Seq<PlistView>, list: Seq<Step>, depth: nat)
    requires
        forall|i: int|
            0 <= i < list.len() ==> ((#[trigger] list[i]) matches Step::Follow(number, keyed)
                && reach(objects, number, keyed, depth) is Ends),
    ensures
        walk(objects, list, depth) is Ends,
    decreases list.len(),
{
    if list.len() > 0 {
        assert forall|i: int| 0 <= i < list.drop_last().len() implies ((
        #[trigger] list.drop_last()[i]) matches Step::Follow(number, keyed) && reach(
            objects,
            number,
            keyed,
            depth,
        ) is Ends) by {
            assert(list.drop_last()[i] == list[i]);
        }
        lemma_steps_that_end(objects, list.drop_last(), depth);
        assert(list.last() == list[list.len() - 1]);
    }
}

proof fn lemma_inner_is_followed(
    objects: Seq<PlistView>,
    entries: Seq<(Seq<char>, PlistView)>,
    at: int,
    step: int,
) -> (place: int)
    requires
        0 <= at < entries.len(),
        entries[at].0 != "$class"@,
        !(entries[at].1 is Uid),
        0 <= step < steps(objects, entries[at].1, true).len(),
    ensures
        0 <= place < entry_steps(objects, entries, true).len(),
        entry_steps(objects, entries, true)[place] == steps(objects, entries[at].1, true)[step],
    decreases entries.len(),
{
    if at < entries.len() - 1 {
        assert(entries.drop_last()[at] == entries[at]);
        lemma_inner_is_followed(objects, entries.drop_last(), at, step)
    } else {
        assert(entries.last() == entries[at]);
        entry_steps(objects, entries.drop_last(), true).len() + step
    }
}

/// Where the references from a dictionary that is the value of a key come to an end, so do those of
/// each value in it that is no reference, but for its class.
pub proof fn law_values_of_keys_are_looked_into(
    objects: Seq<PlistView>,
    start: u64,
    at: int,
    depth: nat,
)
    requires
        start <= usize::MAX && start < objects.len(),
        objects[start as int] is Dictionary,
        value_at(objects[start as int], "NS.relative"@) is None,
        value_at(objects[start as int], "NS.keys"@) is None || value_at(
            objects[start as int],
            "NS.objects"@,
        ) is None,
        0 <= at < objects[start as int]->Dictionary_0.len(),
        objects[start as int]->Dictionary_0[at].0 != "$class"@,
        !(objects[start as int]->Dictionary_0[at].1 is Uid),
    ensures
        reach(objects, start, true, depth + 1) is Ends ==> walk(
            objects,
            steps(objects, objects[start as int]->Dictionary_0[at].1, true),
            depth,
        ) is Ends,
{
    let entries = objects[start as int]->Dictionary_0;
    let list = entry_steps(objects, entries, true);
    let inner = steps(objects, entries[at].1, true);
    if reach(objects, start, true, depth + 1) is Ends {
        assert forall|i: int| 0 <= i < inner.len() implies ((#[trigger] inner[i])
            matches Step::Follow(number, keyed) && reach(objects, number, keyed, depth)
            is Ends) by {
            let place = lemma_inner_is_followed(objects, entries, at, i);
            lemma_all_steps_are_taken(objects, list, place, depth);
        }
        lemma_steps_that_end(objects, inner, depth);
    }
}

proof fn lemma_no_entry_is_followed(
    objects: Seq<PlistView>,
    entries: Seq<(Seq<char>, PlistView)>,
)
    requires
        forall|i: int|
            0 <= i < entries.len() ==> (#[trigger] entries[i]).0 == "$class"@ || !(
            entries[i].1 is Uid),
    ensures
        entry_steps(objects, entries, false).len() == 0,
    decreases entries.len(),
{
    if entries.len() > 0 {
        assert forall|i: int| 0 <= i < entries.drop_last().len() implies (
        #[trigger] entries.drop_last()[i]).0 == "$class"@ || !(entries.drop_last()[i].1 is Uid) by {
            assert(entries.drop_last()[i] == entries[i]);
        }
        lemma_no_entry_is_followed(objects, entries.drop_last());
        assert(entries.last() == entries[entries.len() - 1]);
    }
}

/// Nothing is followed from a text, a number or the like; nor, where the object is not the value of
/// a key, from one that is relative to another, or from a dictionary whose entries are no
/// references but for its class. An object that is not there ends all.
pub proof fn law_nothing_else_is_followed(
    objects: Seq<PlistView>,
    start: u64,
    keyed: bool,
    depth: nat,
)
    requires
        start <= usize::MAX,
    ensures
        start >= objects.len() ==> reach(objects, start, keyed, depth) is Fails,
        start < objects.len() && (objects[start as int] is Text || objects[start as int] is Other)
            ==> reach(objects, start, keyed, depth + 1) is Ends,
        start < objects.len() && value_at(objects[start as int], "NS.relative"@) is Some
            ==> reach(objects, start, false, depth + 1) is Ends,
        start < objects.len() && objects[start as int] is Dictionary && (value_at(
            objects[start as int],
            "NS.keys"@,
        ) is None || value_at(objects[start as int], "NS.objects"@) is None) && (forall|i: int|
            0 <= i < objects[start as int]->Dictionary_0.len() ==> (
            #[trigger] objects[start as int]->Dictionary_0[i]).0 == "$class"@ || !(
            objects[start as int]->Dictionary_0[i].1 is Uid)) ==> reach(
            objects,
            start,
            false,
            depth + 1,
        ) is Ends,
{
    if start < objects.len() {
        if let PlistView::Dictionary(entries) = objects[start as int] {
            if forall|i: int|
                0 <= i < entries.len() ==> (#[trigger] entries[i]).0 == "$class"@ || !(
                entries[i].1 is Uid) {
                lemma_no_entry_is_followed(objects, entries);
            }
        }
    }
}

/// Whether a property list refers to the object with the given number, anywhere in it.
pub open spec fn mentions(view: PlistView, number: u64) -> bool
    decreases view,
{
    match view {
        PlistView::Uid(other) => other == number,
        PlistView::Array(items) => exists|i: int|
            0 <= i < items.len() && mentions(#[trigger] items[i], number),
        PlistView::Dictionary(entries) => exists|i: int|
            0 <= i < entries.len() && mentions((#[trigger] entries[i]).1, number),
        _ => false,
    }
}

proof fn lemma_item_mentioned(items: Seq<PlistView>, at: int, number: u64)
    requires
        0 <= at < items.len(),
        mentions(items[at], number),
    ensures
        mentions(PlistView::Array(items), number),
{
    reveal_with_fuel(mentions, 2);
    let view = PlistView::Array(items);
    assert(mentions(view->Array_0[at], number));
}

proof fn lemma_value_mentioned(entries: Seq<(Seq<char>, PlistView)>, at: int, number: u64)
    requires
        0 <= at < entries.len(),
        mentions(entries[at].1, number),
    ensures
        mentions(PlistView::Dictionary(entries), number),
{
    reveal_with_fuel(mentions, 2);
    let view = PlistView::Dictionary(entries);
    assert(mentions(view->Dictionary_0[at].1, number));
}

proof fn lemma_items_are_mentioned(items: Seq<PlistView>, keyed: bool, at: int)
    requires
        0 <= at < item_steps(items, keyed).len(),
    ensures
        item_steps(items, keyed)[at] matches Step::Follow(number, _) && mentions(
            PlistView::Array(items),
            number,
        ),
    decreases items.len(),
{
    if items.len() > 0 {
        let before = item_steps(items.drop_last(), keyed);
        if at < before.len() {
            lemma_items_are_mentioned(items.drop_last(), keyed, at);
            let number = before[at]->Follow_0;
            let i = choose|i: int|
                0 <= i < items.drop_last().len() && mentions(
                    #[trigger] items.drop_last()[i],
                    number,
                );
            assert(items[i] == items.drop_last()[i]);
            lemma_item_mentioned(items, i, number);
        } else {
            let number = item_steps(items, keyed)[at]->Follow_0;
            lemma_item_mentioned(items, items.len() - 1, number);
        }
    }
}

proof fn lemma_entry_is_mentioned(
    entries: Seq<(Seq<char>, PlistView)>,
    key: Seq<char>,
    number: u64,
)
    requires
        entry(entries, key) is Some,
        mentions(entry(entries, key)->0, number),
    ensures
        mentions(PlistView::Dictionary(entries), number),
    decreases entries.len(),
{
    if entries[0].0 == key {
        lemma_value_mentioned(entries, 0, number);
    } else {
        let rest = entries.skip(1);
        lemma_entry_is_mentioned(rest, key, number);
        let i = choose|i: int|
            0 <= i < rest.len() && mentions((#[trigger] rest[i]).1, number);
        assert(entries[i + 1] == rest[i]);
        lemma_value_mentioned(entries, i + 1, number);
    }
}

proof fn lemma_steps_are_mentioned(
    objects: Seq<PlistView>,
    view: PlistView,
    keyed: bool,
    at: int,
)
    requires
        0 <= at < steps(objects, view, keyed).len(),
    ensures
        steps(objects, view, keyed)[at] matches Step::Follow(number, _) ==> mentions(view, number),
    decreases view,
{
    let list = steps(objects, view, keyed);
    match view {
        PlistView::Uid(_) => {},
        PlistView::Array(items) => {
            lemma_items_are_mentioned(items, keyed, at);
        },
        PlistView::Dictionary(entries) => {
            if let Some(relative) = entry(entries, "NS.relative"@) {
                if let PlistView::Uid(number) = relative {
                    lemma_entry_is_mentioned(entries, "NS.relative"@, number);
                }
            } else if entry(entries, "NS.keys"@) is Some && entry(entries, "NS.objects"@) is Some {
                let keys = entry(entries, "NS.keys"@)->0;
                let values = entry(entries, "NS.objects"@)->0;
                if list[at] is Follow {
                    let number = list[at]->Follow_0;
                    let keys = keys->Array_0;
                    let values = values->Array_0;
                    if mentions(keys[at], number) {
                        lemma_item_mentioned(keys, at, number);
                        lemma_entry_is_mentioned(entries, "NS.keys"@, number);
                    } else {
                        lemma_item_mentioned(values, at, number);
                        lemma_entry_is_mentioned(entries, "NS.objects"@, number);
                    }
                }
            } else {
                lemma_entries_are_mentioned(objects, entries, keyed, at);
            }
        },
        _ => {},
    }
}

proof fn lemma_entries_are_mentioned(
    objects: Seq<PlistView>,
    entries: Seq<(Seq<char>, PlistView)>,
    keyed: bool,
    at: int,
)
    requires
        0 <= at < entry_steps(objects, entries, keyed).len(),
    ensures
        entry_steps(objects, entries, keyed)[at] matches Step::Follow(number, _) ==> mentions(
            PlistView::Dictionary(entries),
            number,
        ),
    decreases entries,
{
    if entries.len() > 0 {
        let before = entry_steps(objects, entries.drop_last(), keyed);
        let list = entry_steps(objects, entries, keyed);
        if list[at] is Follow {
            let number = list[at]->Follow_0;
            if at < before.len() {
                lemma_entries_are_mentioned(objects, entries.drop_last(), keyed, at);
                let i = choose|i: int|
                    0 <= i < entries.drop_last().len() && mentions(
                        (#[trigger] entries.drop_last()[i]).1,
                        number,
                    );
                assert(entries[i] == entries.drop_last()[i]);
                lemma_value_mentioned(entries, i, number);
            } else {
                let last = entries[entries.len() - 1];
                if !(last.1 is Uid) {
                    lemma_steps_are_mentioned(objects, last.1, true, at - before.len());
                }
                lemma_value_mentioned(entries, entries.len() - 1, number);
            }
        }
    }
}

/// Whether every object of a table refers only to objects that stand before it, or to none that is
/// there.
pub open spec fn leads_back(objects: Seq<PlistView>) -> bool {
    forall|i: int, number: u64|
        0 <= i < objects.len() && #[trigger] mentions(objects[i], number) ==> number <= usize::MAX
            && (number < i || number >= objects.len())
}

proof fn lemma_steps_end(objects: Seq<PlistView>, list: Seq<Step>, below: int)
    requires
        leads_back(objects),
        0 <= below <= objects.len(),
        forall|i: int|
            0 <= i < list.len() ==> ((#[trigger] list[i]) matches Step::Follow(number, _) ==> number
                <= usize::MAX && (number < below || number >= objects.len())),
    ensures
        !(walk(objects, list, below as nat) is Open),
    decreases below, 1nat, list.len(),
{
    if list.len() > 0 {
        assert forall|i: int| 0 <= i < list.drop_last().len() implies ((
        #[trigger] list.drop_last()[i]) matches Step::Follow(number, _) ==> number <= usize::MAX
            && (number < below || number >= objects.len())) by {
            assert(list.drop_last()[i] == list[i]);
        }
        lemma_steps_end(objects, list.drop_last(), below);
        assert(list.last() == list[list.len() - 1]);
        if let Step::Follow(number, keyed) = list.last() {
            assert(number <= usize::MAX && (number < below || number >= objects.len()));
            if number < below {
                lemma_object_ends(objects, number, keyed);
                lemma_reach_longer(objects, number, keyed, (number + 1) as nat, below as nat);
            } else {
                assert(reach(objects, number, keyed, below as nat) is Fails);
            }
            assert(!(reach(objects, number, keyed, below as nat) is Open));
            if walk(objects, list.drop_last(), below as nat) is Ends {
                assert(walk(objects, list, below as nat) == reach(
                    objects,
                    number,
                    keyed,
                    below as nat,
                ));
            } else {
                assert(walk(objects, list, below as nat) == walk(
                    objects,
                    list.drop_last(),
                    below as nat,
                ));
            }
        }
    }
}

proof fn lemma_object_ends(objects: Seq<PlistView>, start: u64, keyed: bool)
    requires
        leads_back(objects),
        start < objects.len(),
        start <= usize::MAX,
    ensures
        !(reach(objects, start, keyed, (start + 1) as nat) is Open),
    decreases start + 1, 0nat, 0nat,
{
    let list = steps(objects, objects[start as int], keyed);
    assert forall|i: int| 0 <= i < list.len() implies ((#[trigger] list[i]) matches Step::Follow(
        number,
        _,
    ) ==> number <= usize::MAX && (number < start || number >= objects.len())) by {
        lemma_steps_are_mentioned(objects, objects[start as int], keyed, i);
    }
    lemma_steps_end(objects, list, start as int);
}

/// Where no object refers to itself or to a later one, the references from each of them come to an
/// end: such a payload can be read.
pub proof fn law_references_that_lead_back_end(objects: Seq<PlistView>, root: u64)
    requires
        leads_back(objects),
        root <= usize::MAX,
    ensures
        comes_to_end(objects, root),
{
    if root < objects.len() {
        lemma_object_ends(objects, root, false);
        assert(!(reach(objects, root, false, (root + 1) as nat) is Open));
    } else {
        assert(!(reach(objects, root, false, 0) is Open));
    }
}

/// The references from an array whose first item refers to the array itself do not come to an end.
pub proof fn law_circles_do_not_end(objects: Seq<PlistView>, start: u64, rest: Seq<PlistView>)
    requires
        start < objects.len(),
        objects[start as int] == PlistView::Array(seq![PlistView::Uid(start)] + rest),
    ensures
        !comes_to_end(objects, start),
{
    assert forall|depth: nat| reach(objects, start, false, depth) is Open by {
        lemma_circle(objects, start, rest, depth);
    }
}

proof fn lemma_first_item(items: Seq<PlistView>, keyed: bool)
    requires
        items.len() > 0,
        items[0] is Uid,
    ensures
        item_steps(items, keyed).len() > 0,
        item_steps(items, keyed)[0] == Step::Follow(items[0]->Uid_0, keyed),
    decreases items.len(),
{
    let before = item_steps(items.drop_last(), keyed);
    if items.len() > 1 {
        assert(items.drop_last()[0] == items[0]);
        lemma_first_item(items.drop_last(), keyed);
        assert(item_steps(items, keyed)[0] == before[0]);
    } else {
        assert(items.last() == items[0]);
        assert(before.len() == 0);
    }
}

proof fn lemma_first_step(objects: Seq<PlistView>, list: Seq<Step>, depth: nat)
    requires
        list.len() > 0,
        list[0] matches Step::Follow(number, keyed) && reach(objects, number, keyed, depth) is Open,
    ensures
        walk(objects, list, depth) is Open,
    decreases list.len(),
{
    if list.len() > 1 {
        assert(list.drop_last()[0] == list[0]);
        lemma_first_step(objects, list.drop_last(), depth);
    } else {
        assert(list.last() == list[0]);
        assert(walk(objects, list.drop_last(), depth) is Ends);
    }
}

proof fn lemma_circle(objects: Seq<PlistView>, start: u64, rest: Seq<PlistView>, depth: nat)
    requires
        start < objects.len(),
        objects[start as int] == PlistView::Array(seq![PlistView::Uid(start)] + rest),
    ensures
        reach(objects, start, false, depth) is Open,
    decreases depth,
{
    if depth > 0 {
        let items = seq![PlistView::Uid(start)] + rest;
        lemma_circle(objects, start, rest, (depth - 1) as nat);
        lemma_first_item(items, false);
        lemma_first_step(objects, item_steps(items, false), (depth - 1) as nat);
    }
}

/// What a payload holds is what its references lead to, read as a link preview and as the balloon
/// of an app; where they lead nowhere, the reason is told. A message without a payload holds
/// nothing.
pub proof fn law_payloads_hold_what_they_lead_to(
    result: Result<Parsed, String>,
    payload: Payload,
)
    ensures
        is_payload(Some(result), Some(payload)) <==> match (result, resolved(payload@)) {
            (Ok(parsed), Ok(view)) => is_url_message(parsed.url, view) && is_app_message(
                parsed.app,
                view,
            ),
            (Err(why), Err(reason)) => why@ == reason,
            _ => false,
        },
        is_payload(None, None),
        !is_payload(None, Some(payload)),
        !is_payload(Some(result), None),
{
}

} // verus!
