//! The payload of an app message: a property list whose objects refer to each other.
//!
//! A payload holds a table of objects. Following the references from its root gives the value that
//! the balloon of the message is read from. `imessage_database` follows them; that does not come to
//! an end where an object leads back to itself.

use imessage_database::message_types::app::AppMessage as AppBalloon;
use imessage_database::message_types::url::URLMessage as LinkBalloon;
use imessage_database::message_types::variants::BalloonProvider;
use imessage_database::util::plist::parse_plist;
use plist::Value;

use vstd::prelude::*;

use crate::balloons::{AppMessage, Parsed, URLMessage};
#[allow(unused_imports)]
use crate::text::optional;
use crate::text::same_text;

verus! {

/// A property list of the `plist` crate.
#[verifier::external_type_specification]
#[verifier::external_body]
pub struct ExValue(Value);

/// What a property list holds, as far as a payload needs it.
pub enum PlistView {
    Array(Seq<PlistView>),
    /// The entries, in their order.
    Dictionary(Seq<(Seq<char>, PlistView)>),
    Text(Seq<char>),
    /// A reference to an object, by its number.
    Uid(u64),
    /// A number, a date, a truth value or bytes.
    Other,
}

/// What a property list of the `plist` crate holds.
pub uninterp spec fn plist_view(value: Value) -> PlistView;

/// The outermost layer of a property list.
pub enum PlistNode<'a> {
    Array(&'a Vec<Value>),
    Dictionary(Vec<(&'a String, &'a Value)>),
    Text,
    Uid(u64),
    Other,
}

/// The views of an array.
pub open spec fn items_view(items: Seq<Value>) -> Seq<PlistView> {
    items.map_values(|item: Value| plist_view(item))
}

/// The views of the entries of a dictionary.
pub open spec fn entries_view(entries: Seq<(&String, &Value)>) -> Seq<(Seq<char>, PlistView)> {
    entries.map_values(|entry: (&String, &Value)| (entry.0@, plist_view(*entry.1)))
}

/// Whether `node` is the outermost layer of `view`.
pub open spec fn is_layer(node: PlistNode, view: PlistView) -> bool {
    match node {
        PlistNode::Array(items) => view == PlistView::Array(items_view(items@)),
        PlistNode::Dictionary(entries) => view == PlistView::Dictionary(entries_view(entries@)),
        PlistNode::Text => view is Text,
        PlistNode::Uid(number) => view == PlistView::Uid(number),
        PlistNode::Other => view is Other,
    }
}

/// The outermost layer of a property list: the variants of `plist::Value`, with what
/// `Dictionary::iter` and `Uid::get` give of those that need it.
#[verifier::external_body]
fn plist_node<'a>(value: &'a Value) -> (node: PlistNode<'a>)
    ensures
        is_layer(node, plist_view(*value)),
{
    match value {
        Value::Array(items) => PlistNode::Array(items),
        Value::Dictionary(entries) => PlistNode::Dictionary(entries.iter().collect()),
        Value::String(_) => PlistNode::Text,
        Value::Uid(uid) => PlistNode::Uid(uid.get()),
        _ => PlistNode::Other,
    }
}

/// The value of the first entry with the given key.
pub open spec fn entry(entries: Seq<(Seq<char>, PlistView)>, key: Seq<char>) -> Option<PlistView>
    decreases entries.len(),
{
    if entries.len() == 0 {
        None
    } else if entries[0].0 == key {
        Some(entries[0].1)
    } else {
        entry(entries.skip(1), key)
    }
}

/// The value that a dictionary has for the given key.
pub open spec fn value_at(view: PlistView, key: Seq<char>) -> Option<PlistView> {
    match view {
        PlistView::Dictionary(entries) => entry(entries, key),
        _ => None,
    }
}

/// What is done next where the references of an object are followed.
#[derive(Clone, Copy)]
pub enum Step {
    /// The reference to an object is followed, and whether the object is the value of a key.
    Follow(u64, bool),
    /// The object is not what it should be: nothing more is followed.
    Fail,
}

/// How far following references came.
#[derive(Clone, Copy, PartialEq, Eq, Structural)]
pub enum Reach {
    /// There are references left to follow.
    Open,
    /// All references were followed.
    Ends,
    /// An object was not there, or not what it should be.
    Fails,
}

/// The references among the items of an array are followed.
pub open spec fn item_steps(items: Seq<PlistView>, keyed: bool) -> Seq<Step>
    decreases items.len(),
{
    if items.len() == 0 {
        Seq::empty()
    } else {
        item_steps(items.drop_last(), keyed) + (match items.last() {
            PlistView::Uid(number) => seq![Step::Follow(number, keyed)],
            _ => Seq::empty(),
        })
    }
}

/// The reference to a value is followed where that to its key leads to a text.
pub open spec fn pair_step(objects: Seq<PlistView>, key: PlistView, value: PlistView) -> Step {
    match (key, value) {
        (PlistView::Uid(key), PlistView::Uid(value)) => if key > usize::MAX {
            Step::Follow(key, true)
        } else if key < objects.len() && objects[key as int] is Text {
            Step::Follow(value, true)
        } else {
            Step::Fail
        },
        _ => Step::Fail,
    }
}

/// The references to the values of a dictionary that is made of keys and values are followed.
pub open spec fn pair_steps(
    objects: Seq<PlistView>,
    keys: PlistView,
    values: PlistView,
) -> Seq<Step> {
    match (keys, values) {
        (PlistView::Array(keys), PlistView::Array(values)) => if keys.len() == values.len() {
            Seq::new(keys.len(), |i: int| pair_step(objects, keys[i], values[i]))
        } else {
            seq![Step::Fail]
        },
        _ => seq![Step::Fail],
    }
}

/// What is done where the references of an object are followed, which may be the value of a key:
/// those of an array; the one of an object that is relative to another, if it is the value of a
/// key; those to the values of a dictionary.
pub open spec fn steps(objects: Seq<PlistView>, view: PlistView, keyed: bool) -> Seq<Step>
    decreases view,
{
    match view {
        PlistView::Uid(number) => seq![Step::Follow(number, false)],
        PlistView::Array(items) => item_steps(items, keyed),
        PlistView::Dictionary(entries) => match entry(entries, "NS.relative"@) {
            Some(PlistView::Uid(number)) => if keyed {
                seq![Step::Follow(number, true)]
            } else {
                Seq::empty()
            },
            Some(_) => Seq::empty(),
            None => match (entry(entries, "NS.keys"@), entry(entries, "NS.objects"@)) {
                (Some(keys), Some(values)) => pair_steps(objects, keys, values),
                _ => entry_steps(objects, entries, keyed),
            },
        },
        _ => Seq::empty(),
    }
}

/// What is done where the references of the entries of a dictionary are followed, but for its
/// class: a value that is no reference is looked into where the dictionary is the value of a key.
pub open spec fn entry_steps(
    objects: Seq<PlistView>,
    entries: Seq<(Seq<char>, PlistView)>,
    keyed: bool,
) -> Seq<Step>
    decreases entries,
{
    if entries.len() == 0 {
        Seq::empty()
    } else {
        entry_steps(objects, entries.drop_last(), keyed) + (if entries.last().0 == "$class"@ {
            Seq::empty()
        } else {
            match entries.last().1 {
                PlistView::Uid(number) => seq![Step::Follow(number, true)],
                inner => if keyed {
                    steps(objects, inner, true)
                } else {
                    Seq::empty()
                },
            }
        })
    }
}

/// How far following the references from object number `start` comes within `depth` objects. One
/// that is no index on this machine is never followed to its end.
pub open spec fn reach(objects: Seq<PlistView>, start: u64, keyed: bool, depth: nat) -> Reach
    decreases depth, 0nat,
{
    if start > usize::MAX {
        Reach::Open
    } else if start >= objects.len() {
        Reach::Fails
    } else if depth == 0 {
        Reach::Open
    } else {
        walk(objects, steps(objects, objects[start as int], keyed), (depth - 1) as nat)
    }
}

/// How far taking steps, one after the other, comes within `depth` objects.
pub open spec fn walk(objects: Seq<PlistView>, list: Seq<Step>, depth: nat) -> Reach
    decreases depth, list.len(),
{
    if list.len() == 0 {
        Reach::Ends
    } else {
        match walk(objects, list.drop_last(), depth) {
            Reach::Ends => match list.last() {
                Step::Follow(start, keyed) => reach(objects, start, keyed, depth),
                Step::Fail => Reach::Fails,
            },
            stop => stop,
        }
    }
}

/// Whether following the references from object number `start` comes to an end.
pub open spec fn comes_to_end(objects: Seq<PlistView>, start: u64) -> bool {
    exists|depth: nat| !(reach(objects, start, false, depth) is Open)
}

/// The objects of a payload, and the number of its root.
pub open spec fn table(view: PlistView) -> Option<(Seq<PlistView>, u64)> {
    match (value_at(view, "$objects"@), value_at(view, "$top"@)) {
        (Some(PlistView::Array(objects)), Some(top)) => match value_at(top, "root"@) {
            Some(PlistView::Uid(root)) => Some((objects, root)),
            _ => None,
        },
        _ => None,
    }
}

/// The object that the references of a payload start from.
pub open spec fn root_object(view: PlistView) -> Option<PlistView> {
    match table(view) {
        Some((objects, root)) => if root < objects.len() {
            Some(objects[root as int])
        } else {
            None
        },
        None => None,
    }
}

/// Whether following the references of a payload comes to an end.
pub open spec fn resolvable(view: PlistView) -> bool {
    match table(view) {
        Some((objects, root)) => comes_to_end(objects, root),
        None => true,
    }
}

/// What following the references of a payload gives, as `parse_plist` says it: a property list, or
/// why there is none.
pub uninterp spec fn resolved(view: PlistView) -> Result<PlistView, Seq<char>>;

/// Follows the references of a payload: `parse_plist`, which does not return where they lead in a
/// circle before an object is met that is not what it should be. It cuts references to the width
/// of an index; those that would lose by it are left out. A payload that is no dictionary has no
/// objects; a root that is a text is the result.
#[verifier::external_body]
fn resolve(value: &Value) -> (result: Result<Value, String>)
    requires
        resolvable(plist_view(*value)),
    ensures
        (match result {
            Ok(value) => Ok(plist_view(value)),
            Err(why) => Err(why@),
        }) == resolved(plist_view(*value)),
        !(plist_view(*value) is Dictionary) ==> result is Err && result->Err_0@
            == "Invalid data found at body, expected dictionary"@,
        root_object(plist_view(*value)) is Some && root_object(plist_view(*value))->0 is Text
            ==> result is Ok && plist_view(result->Ok_0) == root_object(plist_view(*value))->0,
{
    parse_plist(value).map_err(|why| why.to_string())
}

/// The text that a dictionary has for the given key, unless it is empty.
pub open spec fn text_at(view: PlistView, key: Seq<char>) -> Option<Seq<char>> {
    match value_at(view, key) {
        Some(PlistView::Text(text)) => if text.len() > 0 {
            Some(text)
        } else {
            None
        },
        _ => None,
    }
}

/// The text that a dictionary has below two entries with the given key, unless it is empty.
pub open spec fn nested_text(view: PlistView, key: Seq<char>) -> Option<Seq<char>> {
    match value_at(view, key) {
        Some(inner) => text_at(inner, key),
        None => None,
    }
}

/// The dictionary that a link preview is read from.
pub open spec fn link_metadata(view: PlistView) -> Result<PlistView, Seq<char>> {
    if !(view is Dictionary) {
        Err("Invalid data found at root, expected dictionary"@)
    } else if value_at(view, "richLinkMetadata"@) is Some {
        Ok(value_at(view, "richLinkMetadata"@)->0)
    } else if value_at(view, "metadata"@) is Some {
        Ok(value_at(view, "metadata"@)->0)
    } else {
        Err("Unable to acquire payload data!"@)
    }
}

/// The addresses of the images of a link preview: none where one of them has no address.
pub open spec fn link_images(metadata: PlistView) -> Seq<Seq<char>> {
    match value_at(metadata, "images"@) {
        Some(inner) => match value_at(inner, "images"@) {
            Some(PlistView::Array(items)) => if forall|i: int|
                0 <= i < items.len() ==> nested_text(#[trigger] items[i], "URL"@) is Some {
                items.map_values(|item: PlistView| nested_text(item, "URL"@)->0)
            } else {
                Seq::empty()
            },
            _ => Seq::empty(),
        },
        None => Seq::empty(),
    }
}

/// The views of texts.
pub open spec fn texts_view(texts: Seq<String>) -> Seq<Seq<char>> {
    texts.map_values(|text: String| text@)
}

/// Whether `result` is what a resolved payload holds as a link preview.
pub open spec fn is_url_message(result: Result<URLMessage, String>, view: PlistView) -> bool {
    match (result, link_metadata(view)) {
        (Ok(balloon), Ok(metadata)) => {
            &&& optional(balloon.title) == text_at(metadata, "title"@)
            &&& optional(balloon.summary) == text_at(metadata, "summary"@)
            &&& optional(balloon.url) == nested_text(metadata, "URL"@)
            &&& texts_view(balloon.images@) == link_images(metadata)
        },
        (Err(why), Err(reason)) => why@ == reason,
        _ => false,
    }
}

/// The link preview that a resolved payload holds: `URLMessage::from_map`, with the text of its
/// error.
#[verifier::external_body]
fn url_message(value: &Value) -> (result: Result<URLMessage, String>)
    ensures
        is_url_message(result, plist_view(*value)),
{
    let balloon = LinkBalloon::from_map(value).map_err(|why| why.to_string())?;
    Ok(URLMessage {
        title: balloon.title.map(|text| text.to_string()),
        summary: balloon.summary.map(|text| text.to_string()),
        url: balloon.url.map(|text| text.to_string()),
        images: balloon.images.iter().map(|text| text.to_string()).collect(),
    })
}

/// The dictionary that the texts of a balloon are read from.
pub open spec fn app_info(view: PlistView) -> Result<PlistView, Seq<char>> {
    if !(view is Dictionary) {
        Err("Invalid data found at root, expected dictionary"@)
    } else if value_at(view, "userInfo"@) is Some {
        Ok(value_at(view, "userInfo"@)->0)
    } else {
        Err("Expected key userInfo, found nothing!"@)
    }
}

/// Whether `result` is what a resolved payload holds as the balloon of an app.
pub open spec fn is_app_message(result: Result<AppMessage, String>, view: PlistView) -> bool {
    match (result, app_info(view)) {
        (Ok(balloon), Ok(info)) => {
            &&& optional(balloon.image) == text_at(view, "image"@)
            &&& optional(balloon.url) == nested_text(view, "URL"@)
            &&& optional(balloon.title) == text_at(info, "image-title"@)
            &&& optional(balloon.subtitle) == text_at(info, "image-subtitle"@)
            &&& optional(balloon.caption) == text_at(info, "caption"@)
            &&& optional(balloon.subcaption) == text_at(info, "subcaption"@)
            &&& optional(balloon.trailing_caption) == text_at(info, "secondary-subcaption"@)
            &&& optional(balloon.trailing_subcaption) == text_at(info, "tertiary-subcaption"@)
            &&& optional(balloon.app_name) == text_at(view, "an"@)
            &&& optional(balloon.ldtext) == text_at(view, "ldtext"@)
        },
        (Err(why), Err(reason)) => why@ == reason,
        _ => false,
    }
}

/// The balloon of an app that a resolved payload holds: `AppMessage::from_map`, with the text of
/// its error.
#[verifier::external_body]
fn app_message(value: &Value) -> (result: Result<AppMessage, String>)
    ensures
        is_app_message(result, plist_view(*value)),
{
    let balloon = AppBalloon::from_map(value).map_err(|why| why.to_string())?;
    Ok(AppMessage {
        image: balloon.image.map(str::to_string),
        url: balloon.url.map(str::to_string),
        title: balloon.title.map(str::to_string),
        subtitle: balloon.subtitle.map(str::to_string),
        caption: balloon.caption.map(str::to_string),
        subcaption: balloon.subcaption.map(str::to_string),
        trailing_caption: balloon.trailing_caption.map(str::to_string),
        trailing_subcaption: balloon.trailing_subcaption.map(str::to_string),
        app_name: balloon.app_name.map(str::to_string),
        ldtext: balloon.ldtext.map(str::to_string),
    })
}

/// The value of the first entry with the given key.
fn find<'a>(entries: &Vec<(&'a String, &'a Value)>, key: &str) -> (found: Option<&'a Value>)
    ensures
        entry(entries_view(entries@), key@) == (match found {
            Some(value) => Some(plist_view(*value)),
            None => None,
        }),
{
    let ghost views = entries_view(entries@);
    let mut at: usize = 0;
    assert(views.skip(0) == views);
    while at < entries.len()
        invariant
            at <= entries.len(),
            views == entries_view(entries@),
            entry(views, key@) == entry(views.skip(at as int), key@),
        decreases entries.len() - at,
    {
        assert(views[at as int] == (entries@[at as int].0@, plist_view(*entries@[at as int].1)));
        assert(views.skip(at as int)[0] == views[at as int]);
        assert(views.skip(at as int).skip(1) == views.skip(at + 1));
        if same_text(entries[at].0.as_str(), key) {
            return Some(entries[at].1);
        }
        at = at + 1;
    }
    None
}

/// Appends the steps of the items of an array.
fn push_item_steps(items: &Vec<Value>, keyed: bool, out: &mut Vec<Step>)
    ensures
        final(out)@ == old(out)@ + item_steps(items_view(items@), keyed),
{
    let ghost before = out@;
    let ghost views = items_view(items@);
    let mut at: usize = 0;
    assert(views.take(0) == Seq::<PlistView>::empty());
    while at < items.len()
        invariant
            at <= items.len(),
            views == items_view(items@),
            out@ == before + item_steps(views.take(at as int), keyed),
        decreases items.len() - at,
    {
        assert(views[at as int] == plist_view(items@[at as int]));
        assert(views.take(at + 1).drop_last() == views.take(at as int));
        assert(views.take(at + 1).last() == views[at as int]);
        if let PlistNode::Uid(number) = plist_node(&items[at]) {
            out.push(Step::Follow(number, keyed));
        }
        at = at + 1;
    }
    assert(views.take(at as int) == views);
}

/// The step of a key and a value.
fn step_of_pair(objects: &Vec<Value>, key: &Value, value: &Value) -> (step: Step)
    ensures
        step == pair_step(items_view(objects@), plist_view(*key), plist_view(*value)),
{
    if let (PlistNode::Uid(key), PlistNode::Uid(value)) = (plist_node(key), plist_node(value)) {
        if key > usize::MAX as u64 {
            return Step::Follow(key, true);
        }
        if key < objects.len() as u64 {
            assert(items_view(objects@)[key as int] == plist_view(objects@[key as int]));
            if let PlistNode::Text = plist_node(&objects[key as usize]) {
                return Step::Follow(value, true);
            }
        }
    }
    Step::Fail
}

/// Appends the steps of a dictionary that is made of keys and values.
fn push_pair_steps(objects: &Vec<Value>, keys: &Value, values: &Value, out: &mut Vec<Step>)
    ensures
        final(out)@ == old(out)@ + pair_steps(
            items_view(objects@),
            plist_view(*keys),
            plist_view(*values),
        ),
{
    let ghost before = out@;
    let ghost views = items_view(objects@);
    if let (PlistNode::Array(keys), PlistNode::Array(values)) = (
        plist_node(keys),
        plist_node(values),
    ) {
        if keys.len() == values.len() {
            let ghost all = Seq::new(
                keys@.len(),
                |i: int| pair_step(views, items_view(keys@)[i], items_view(values@)[i]),
            );
            let mut at: usize = 0;
            while at < keys.len()
                invariant
                    at <= keys.len() == values.len(),
                    views == items_view(objects@),
                    all == Seq::new(
                        keys@.len(),
                        |i: int| pair_step(views, items_view(keys@)[i], items_view(values@)[i]),
                    ),
                    out@ == before + all.take(at as int),
                decreases keys.len() - at,
            {
                let step = step_of_pair(objects, &keys[at], &values[at]);
                assert(items_view(keys@)[at as int] == plist_view(keys@[at as int]));
                assert(items_view(values@)[at as int] == plist_view(values@[at as int]));
                out.push(step);
                assert(all.take(at + 1) == all.take(at as int).push(step));
                at = at + 1;
            }
            assert(all.take(at as int) == all);
            return;
        }
    }
    out.push(Step::Fail);
}

/// Appends the steps of an object.
fn push_steps(objects: &Vec<Value>, value: &Value, keyed: bool, out: &mut Vec<Step>)
    ensures
        final(out)@ == old(out)@ + steps(items_view(objects@), plist_view(*value), keyed),
    decreases plist_view(*value),
{
    let ghost before = out@;
    match plist_node(value) {
        PlistNode::Uid(number) => out.push(Step::Follow(number, false)),
        PlistNode::Array(items) => push_item_steps(items, keyed, out),
        PlistNode::Dictionary(entries) => {
            let ghost views = entries_view(entries@);
            if let Some(relative) = find(&entries, "NS.relative") {
                if let PlistNode::Uid(number) = plist_node(relative) {
                    if keyed {
                        out.push(Step::Follow(number, true));
                    }
                }
                return;
            }
            if let (Some(keys), Some(values)) = (
                find(&entries, "NS.keys"),
                find(&entries, "NS.objects"),
            ) {
                push_pair_steps(objects, keys, values, out);
                return;
            }
            let mut at: usize = 0;
            assert(views.take(0) == Seq::<(Seq<char>, PlistView)>::empty());
            while at < entries.len()
                invariant
                    at <= entries.len(),
                    views == entries_view(entries@),
                    plist_view(*value) == PlistView::Dictionary(views),
                    out@ == before + entry_steps(
                        items_view(objects@),
                        views.take(at as int),
                        keyed,
                    ),
                decreases entries.len() - at,
            {
                let (key, inner) = entries[at];
                let ghost earlier = out@;
                assert(views[at as int] == (key@, plist_view(*inner)));
                assert(views.take(at + 1).drop_last() == views.take(at as int));
                assert(views.take(at + 1).last() == views[at as int]);
                if !same_text(key.as_str(), "$class") {
                    if let PlistNode::Uid(number) = plist_node(inner) {
                        out.push(Step::Follow(number, true));
                    } else if keyed {
                        proof {
                            let view = plist_view(*value);
                            assert(decreases_to!(view => view->Dictionary_0));
                            assert(decreases_to!(views => views[at as int]));
                            assert(decreases_to!(views[at as int] => views[at as int].1));
                        }
                        push_steps(objects, inner, true, out);
                    }
                }
                at = at + 1;
            }
            assert(views.take(at as int) == views);
        },
        _ => {},
    }
    assert(out@ == before + steps(items_view(objects@), plist_view(*value), keyed));
}

/// Whether `lists` holds the steps of each of the objects, as no value of a key and as one.
spec fn is_steps(objects: Seq<PlistView>, lists: Seq<(Vec<Step>, Vec<Step>)>) -> bool {
    &&& lists.len() == objects.len()
    &&& forall|i: int|
        0 <= i < lists.len() ==> (#[trigger] lists[i]).0@ == steps(objects, objects[i], false)
            && lists[i].1@ == steps(objects, objects[i], true)
}

/// The steps of each of the objects.
fn all_steps(objects: &Vec<Value>) -> (lists: Vec<(Vec<Step>, Vec<Step>)>)
    ensures
        is_steps(items_view(objects@), lists@),
{
    let ghost views = items_view(objects@);
    let mut lists: Vec<(Vec<Step>, Vec<Step>)> = Vec::new();
    let mut at: usize = 0;
    while at < objects.len()
        invariant
            at <= objects.len(),
            lists@.len() == at,
            views == items_view(objects@),
            forall|i: int|
                0 <= i < at ==> (#[trigger] lists@[i]).0@ == steps(views, views[i], false)
                    && lists@[i].1@ == steps(views, views[i], true),
        decreases objects.len() - at,
    {
        let mut alone: Vec<Step> = Vec::new();
        let mut keyed: Vec<Step> = Vec::new();
        push_steps(objects, &objects[at], false, &mut alone);
        push_steps(objects, &objects[at], true, &mut keyed);
        assert(alone@ == steps(views, views[at as int], false));
        assert(keyed@ == steps(views, views[at as int], true));
        lists.push((alone, keyed));
        at = at + 1;
    }
    lists
}

/// Whether `round` says how far following references from each of the objects comes within `depth`
/// objects.
spec fn is_round(objects: Seq<PlistView>, round: Seq<(Reach, Reach)>, depth: nat) -> bool {
    &&& round.len() == objects.len()
    &&& objects.len() <= usize::MAX
    &&& forall|i: int|
        0 <= i < round.len() ==> #[trigger] round[i] == (
            reach(objects, i as u64, false, depth),
            reach(objects, i as u64, true, depth),
        )
}

/// How far taking steps comes, where `round` says how far their objects come.
fn walk_round(
    list: &Vec<Step>,
    round: &Vec<(Reach, Reach)>,
    Ghost(objects): Ghost<Seq<PlistView>>,
    Ghost(depth): Ghost<nat>,
) -> (reached: Reach)
    requires
        is_round(objects, round@, depth),
    ensures
        reached == walk(objects, list@, depth),
{
    let mut at: usize = 0;
    assert(list@.take(0) == Seq::<Step>::empty());
    while at < list.len()
        invariant
            at <= list.len(),
            is_round(objects, round@, depth),
            walk(objects, list@.take(at as int), depth) is Ends,
        decreases list.len() - at,
    {
        let next = match list[at] {
            Step::Fail => Reach::Fails,
            Step::Follow(start, keyed) => if start > usize::MAX as u64 {
                Reach::Open
            } else if start >= round.len() as u64 {
                Reach::Fails
            } else {
                assert(round@[start as int].0 == reach(objects, start, false, depth));
                let (alone, as_value) = round[start as usize];
                if keyed {
                    as_value
                } else {
                    alone
                }
            },
        };
        assert(list@.take(at + 1).drop_last() == list@.take(at as int));
        assert(list@.take(at + 1).last() == list@[at as int]);
        assert(next == walk(objects, list@.take(at + 1), depth));
        match next {
            Reach::Ends => {},
            stop => {
                proof {
                    lemma_walk_stops(objects, list@, at + 1, depth);
                }
                return stop;
            },
        }
        at = at + 1;
    }
    assert(list@.take(at as int) == list@);
    Reach::Ends
}

/// Where taking steps stops, it goes no further.
proof fn lemma_walk_stops(objects: Seq<PlistView>, list: Seq<Step>, count: int, depth: nat)
    requires
        0 <= count <= list.len(),
        !(walk(objects, list.take(count), depth) is Ends),
    ensures
        walk(objects, list, depth) == walk(objects, list.take(count), depth),
    decreases list.len() - count,
{
    if count < list.len() {
        assert(list.take(count + 1).drop_last() == list.take(count));
        lemma_walk_stops(objects, list, count + 1, depth);
    } else {
        assert(list.take(count) == list);
    }
}

/// How far each of the objects comes within one object more.
fn next_round(
    lists: &Vec<(Vec<Step>, Vec<Step>)>,
    round: &Vec<(Reach, Reach)>,
    Ghost(objects): Ghost<Seq<PlistView>>,
    Ghost(depth): Ghost<nat>,
) -> (next: Vec<(Reach, Reach)>)
    requires
        is_round(objects, round@, depth),
        is_steps(objects, lists@),
    ensures
        is_round(objects, next@, depth + 1),
{
    let mut next: Vec<(Reach, Reach)> = Vec::new();
    let mut at: usize = 0;
    while at < lists.len()
        invariant
            at <= lists.len(),
            next@.len() == at,
            is_round(objects, round@, depth),
            is_steps(objects, lists@),
            forall|i: int|
                0 <= i < at ==> #[trigger] next@[i] == (
                    reach(objects, i as u64, false, depth + 1),
                    reach(objects, i as u64, true, depth + 1),
                ),
        decreases lists.len() - at,
    {
        assert(lists@[at as int].0@ == steps(objects, objects[at as int], false));
        let alone = walk_round(&lists[at].0, round, Ghost(objects), Ghost(depth));
        let keyed = walk_round(&lists[at].1, round, Ghost(objects), Ghost(depth));
        assert(alone == reach(objects, at as u64, false, depth + 1));
        assert(keyed == reach(objects, at as u64, true, depth + 1));
        next.push((alone, keyed));
        at = at + 1;
    }
    next
}

/// Taking steps comes as far within `later` objects as within `depth`, where each object does.
proof fn lemma_walk_same(
    objects: Seq<PlistView>,
    round: Seq<(Reach, Reach)>,
    list: Seq<Step>,
    depth: nat,
    later: nat,
)
    requires
        is_round(objects, round, depth),
        is_round(objects, round, later),
    ensures
        walk(objects, list, depth) == walk(objects, list, later),
    decreases list.len(),
{
    if list.len() > 0 {
        lemma_walk_same(objects, round, list.drop_last(), depth, later);
        if let Step::Follow(start, keyed) = list.last() {
            if start < objects.len() {
                let far = round[start as int];
                assert(far.0 == reach(objects, start, false, depth));
                assert(far.0 == reach(objects, start, false, later));
                assert(far.1 == reach(objects, start, true, depth));
                assert(far.1 == reach(objects, start, true, later));
            }
        }
    }
}

/// Once one object more makes no difference, none does.
proof fn lemma_round_stays(
    objects: Seq<PlistView>,
    round: Seq<(Reach, Reach)>,
    depth: nat,
    later: nat,
)
    requires
        is_round(objects, round, depth),
        is_round(objects, round, depth + 1),
        depth <= later,
    ensures
        is_round(objects, round, later),
    decreases later,
{
    if depth < later {
        lemma_round_stays(objects, round, depth, (later - 1) as nat);
        assert forall|i: int| 0 <= i < round.len() implies #[trigger] round[i] == (
            reach(objects, i as u64, false, later),
            reach(objects, i as u64, true, later),
        ) by {
            let alone = steps(objects, objects[i], false);
            let keyed = steps(objects, objects[i], true);
            lemma_walk_same(objects, round, alone, depth, (later - 1) as nat);
            lemma_walk_same(objects, round, keyed, depth, (later - 1) as nat);
            assert(round[i].0 == reach(objects, i as u64, false, depth + 1));
            assert(round[i].1 == reach(objects, i as u64, true, depth + 1));
        }
    }
}

/// What comes to an end within `depth` objects does so within more.
pub(crate) proof fn lemma_reach_longer(
    objects: Seq<PlistView>,
    start: u64,
    keyed: bool,
    depth: nat,
    later: nat,
)
    requires
        !(reach(objects, start, keyed, depth) is Open),
        depth <= later,
    ensures
        reach(objects, start, keyed, later) == reach(objects, start, keyed, depth),
    decreases depth, 0nat,
{
    if start <= usize::MAX && start < objects.len() {
        lemma_walk_longer(
            objects,
            steps(objects, objects[start as int], keyed),
            (depth - 1) as nat,
            (later - 1) as nat,
        );
    }
}

/// Steps that come to an end within `depth` objects do so within more.
proof fn lemma_walk_longer(objects: Seq<PlistView>, list: Seq<Step>, depth: nat, later: nat)
    requires
        !(walk(objects, list, depth) is Open),
        depth <= later,
    ensures
        walk(objects, list, later) == walk(objects, list, depth),
    decreases depth, list.len(),
{
    if list.len() > 0 {
        lemma_walk_longer(objects, list.drop_last(), depth, later);
        if walk(objects, list.drop_last(), depth) is Ends {
            if let Step::Follow(start, keyed) = list.last() {
                lemma_reach_longer(objects, start, keyed, depth, later);
            }
        }
    }
}

/// How often a round says that following references came to an end.
spec fn end_count(round: Seq<(Reach, Reach)>) -> nat
    decreases round.len(),
{
    if round.len() == 0 {
        0
    } else {
        let (alone, keyed) = round.last();
        end_count(round.drop_last()) + (if alone is Open {
            0nat
        } else {
            1
        }) + (if keyed is Open {
            0nat
        } else {
            1
        })
    }
}

/// Whether following references came as far at least.
spec fn is_further(before: Reach, after: Reach) -> bool {
    before is Open || before == after
}

/// A round in which all came as far as in another one says at least as often that following
/// references came to an end, and more often where the two differ.
proof fn lemma_count_grows(a: Seq<(Reach, Reach)>, b: Seq<(Reach, Reach)>)
    requires
        a.len() == b.len(),
        forall|i: int|
            0 <= i < a.len() ==> is_further((#[trigger] a[i]).0, b[i].0) && is_further(
                a[i].1,
                b[i].1,
            ),
    ensures
        end_count(a) <= end_count(b) <= 2 * b.len(),
        a != b ==> end_count(a) < end_count(b),
    decreases a.len(),
{
    if a.len() > 0 {
        let last = a.len() - 1;
        assert(is_further(a[last].0, b[last].0) && is_further(a[last].1, b[last].1));
        assert forall|i: int| 0 <= i < a.drop_last().len() implies is_further(
            (#[trigger] a.drop_last()[i]).0,
            b.drop_last()[i].0,
        ) && is_further(a.drop_last()[i].1, b.drop_last()[i].1) by {
            assert(a.drop_last()[i] == a[i]);
        }
        lemma_count_grows(a.drop_last(), b.drop_last());
        if a.drop_last() == b.drop_last() && a.last() == b.last() {
            assert(a == a.drop_last().push(a.last()));
            assert(b == b.drop_last().push(b.last()));
        }
    } else {
        assert(a == b);
    }
}

/// Whether following the references from object number `root` comes to an end.
fn ends(objects: &Vec<Value>, root: u64) -> (ends: bool)
    ensures
        ends == comes_to_end(items_view(objects@), root),
{
    let ghost views = items_view(objects@);
    if root > usize::MAX as u64 {
        return false;
    }
    let lists = all_steps(objects);
    let mut round: Vec<(Reach, Reach)> = Vec::new();
    let mut at: usize = 0;
    while at < lists.len()
        invariant
            at <= lists.len(),
            round@.len() == at,
            forall|i: int| 0 <= i < at ==> #[trigger] round@[i] == (Reach::Open, Reach::Open),
        decreases lists.len() - at,
    {
        round.push((Reach::Open, Reach::Open));
        at = at + 1;
    }
    assert(is_round(views, round@, 0));
    let ghost mut depth: nat = 0;
    proof {
        lemma_count_grows(round@, round@);
    }
    loop
        invariant_except_break
            is_round(views, round@, depth),
            end_count(round@) <= 2 * views.len(),
        invariant
            is_steps(views, lists@),
        ensures
            is_round(views, round@, depth),
            is_round(views, round@, depth + 1),
        decreases 2 * views.len() - end_count(round@),
    {
        let next = next_round(&lists, &round, Ghost(views), Ghost(depth));
        if same_round(&round, &next) {
            assert(next@ == round@);
            break;
        }
        proof {
            assert forall|i: int| 0 <= i < round@.len() implies is_further(
                (#[trigger] round@[i]).0,
                next@[i].0,
            ) && is_further(round@[i].1, next@[i].1) by {
                assert(next@[i].0 == reach(views, i as u64, false, depth + 1));
                if !(round@[i].0 is Open) {
                    lemma_reach_longer(views, i as u64, false, depth, depth + 1);
                }
                if !(round@[i].1 is Open) {
                    lemma_reach_longer(views, i as u64, true, depth, depth + 1);
                }
            }
            lemma_count_grows(round@, next@);
            depth = depth + 1;
        }
        round = next;
    }
    if root < round.len() as u64 {
        let (alone, _) = round[root as usize];
        let open = match alone {
            Reach::Open => true,
            _ => false,
        };
        proof {
            assert(round@[root as int].0 == reach(views, root, false, depth));
            if comes_to_end(views, root) {
                let other = choose|other: nat| !(reach(views, root, false, other) is Open);
                let later = if other < depth {
                    depth
                } else {
                    other
                };
                lemma_reach_longer(views, root, false, other, later);
                lemma_round_stays(views, round@, depth, later);
                assert(round@[root as int].0 == reach(views, root, false, later));
            }
        }
        !open
    } else {
        assert(reach(views, root, false, 0) is Fails);
        true
    }
}

/// Whether two rounds are the same.
fn same_round(a: &Vec<(Reach, Reach)>, b: &Vec<(Reach, Reach)>) -> (same: bool)
    requires
        a@.len() == b@.len(),
    ensures
        same == (a@ == b@),
{
    let mut at: usize = 0;
    while at < a.len()
        invariant
            at <= a.len(),
            a@.len() == b@.len(),
            forall|i: int| 0 <= i < at ==> a@[i] == b@[i],
        decreases a.len() - at,
    {
        let (alone, keyed) = a[at];
        let (other_alone, other_keyed) = b[at];
        if alone != other_alone || keyed != other_keyed {
            return false;
        }
        at = at + 1;
    }
    assert(a@ == b@);
    true
}

/// A payload whose references can be followed to their ends.
pub struct Payload {
    value: Value,
}

impl View for Payload {
    type V = PlistView;

    closed spec fn view(&self) -> PlistView {
        plist_view(self.value)
    }
}

impl Payload {
    #[verifier::type_invariant]
    spec fn well_formed(self) -> bool {
        resolvable(plist_view(self.value))
    }

    /// The payload that a property list is, unless following its references does not come to an
    /// end.
    pub fn new(value: Value) -> (payload: Option<Payload>)
        ensures
            payload is Some <==> resolvable(plist_view(value)),
            payload is Some ==> payload->0@ == plist_view(value),
    {
        let mut sound = true;
        if let PlistNode::Dictionary(entries) = plist_node(&value) {
            if let (Some(objects), Some(top)) = (
                find(&entries, "$objects"),
                find(&entries, "$top"),
            ) {
                if let (PlistNode::Array(objects), PlistNode::Dictionary(top)) = (
                    plist_node(objects),
                    plist_node(top),
                ) {
                    if let Some(root) = find(&top, "root") {
                        if let PlistNode::Uid(root) = plist_node(root) {
                            sound = ends(objects, root);
                        }
                    }
                }
            }
        }
        if sound {
            Some(Payload { value })
        } else {
            None
        }
    }

    /// Follows the references of the payload, and reads what they lead to: as a link preview, and
    /// as the balloon of an app.
    pub fn parse(&self) -> (result: Result<Parsed, String>)
        ensures
            is_parsed(result, self@),
    {
        proof {
            use_type_invariant(self);
        }
        match resolve(&self.value) {
            Ok(value) => Ok(Parsed { url: url_message(&value), app: app_message(&value) }),
            Err(why) => Err(why),
        }
    }
}

/// Whether `result` is what a payload holds once its references were followed.
pub open spec fn is_parsed(result: Result<Parsed, String>, view: PlistView) -> bool {
    match (result, resolved(view)) {
        (Ok(parsed), Ok(view)) => is_url_message(parsed.url, view) && is_app_message(
            parsed.app,
            view,
        ),
        (Err(why), Err(reason)) => why@ == reason,
        _ => false,
    }
}

} // verus!
