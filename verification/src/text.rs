//! What rendering needs of strings, over their characters.

use vstd::prelude::*;

verus! {

/// The characters of a text that may be absent.
pub open spec fn optional(text: Option<String>) -> Option<Seq<char>> {
    match text {
        Some(text) => Some(text@),
        None => None,
    }
}

/// Whether `text` begins with `prefix`.
pub open spec fn begins_with(text: Seq<char>, prefix: Seq<char>) -> bool {
    prefix.len() <= text.len() && text.take(prefix.len() as int) == prefix
}

/// Whether `text` ends with `suffix`.
pub open spec fn ends_with(text: Seq<char>, suffix: Seq<char>) -> bool {
    suffix.len() <= text.len() && text.skip(text.len() - suffix.len()) == suffix
}

/// What stands in `text` before the first `mark`: all of it where there is none.
pub open spec fn before(text: Seq<char>, mark: char) -> Seq<char>
    decreases text.len(),
{
    if text.len() == 0 || text[0] == mark {
        Seq::empty()
    } else {
        seq![text[0]] + before(text.skip(1), mark)
    }
}

/// What stands in `text` after the first `mark`.
pub open spec fn after(text: Seq<char>, mark: char) -> Option<Seq<char>>
    decreases text.len(),
{
    if text.len() == 0 {
        None
    } else if text[0] == mark {
        Some(text.skip(1))
    } else {
        after(text.skip(1), mark)
    }
}

/// The number of the last `mark` in `text`, or -1 where there is none.
pub open spec fn last_mark(text: Seq<char>, mark: char) -> int
    decreases text.len(),
{
    if text.len() == 0 {
        -1
    } else if text.last() == mark {
        text.len() - 1
    } else {
        last_mark(text.drop_last(), mark)
    }
}

/// `text` with every occurrence of `from`, taken from left to right and without overlap,
/// exchanged for `to`.
pub open spec fn replaced(text: Seq<char>, from: Seq<char>, to: Seq<char>) -> Seq<char>
    decreases text.len(),
{
    if from.len() == 0 || text.len() < from.len() {
        text
    } else if begins_with(text, from) {
        to + replaced(text.skip(from.len() as int), from, to)
    } else {
        seq![text[0]] + replaced(text.skip(1), from, to)
    }
}

/// `text` between `pre` and `post`, where there is a text.
pub open spec fn section(pre: Seq<char>, text: Option<String>, post: Seq<char>) -> Seq<char> {
    match text {
        Some(text) => pre + text@ + post,
        None => Seq::empty(),
    }
}

/// Appends `text` between `pre` and `post`, where there is a text.
pub fn push_section(out: &mut String, pre: &str, text: &Option<String>, post: &str)
    ensures
        final(out)@ == old(out)@ + section(pre@, *text, post@),
{
    if let Some(text) = text {
        out.append(pre);
        out.append(text.as_str());
        out.append(post);
    }
    assert(out@ == old(out)@ + section(pre@, *text, post@));
}

/// A second text that holds the same, where there is a text.
pub fn same_option(text: &Option<String>) -> (copy: Option<String>)
    ensures
        copy == *text,
{
    match text {
        Some(text) => Some(text.clone()),
        None => None,
    }
}

/// `text` between `pre` and `post`.
pub fn enclosed(pre: &str, text: &str, post: &str) -> (result: String)
    ensures
        result@ == pre@ + text@ + post@,
{
    pre.to_owned().concat(text).concat(post)
}

/// Whether two texts hold the same characters.
pub fn same_text(a: &str, b: &str) -> (same: bool)
    ensures
        same == (a@ == b@),
{
    let a: String = a.to_owned();
    let b: String = b.to_owned();
    a == b
}

/// Whether `text` begins with `prefix`.
pub fn starts_with(text: &str, prefix: &str) -> (begins: bool)
    ensures
        begins == begins_with(text@, prefix@),
{
    let length: usize = prefix.unicode_len();
    length <= text.unicode_len() && same_text(text.substring_char(0, length), prefix)
}

/// Whether `text` holds `mark`.
pub fn contains(text: &str, mark: char) -> (found: bool)
    ensures
        found == text@.contains(mark),
{
    let length: usize = text.unicode_len();
    let mut at: usize = 0;
    while at < length
        invariant
            at <= length == text@.len(),
            forall|i: int| 0 <= i < at ==> text@[i] != mark,
        decreases length - at,
    {
        if text.get_char(at) == mark {
            assert(text@[at as int] == mark);
            return true;
        }
        at = at + 1;
    }
    false
}

/// Exchanges every occurrence of `from` in `text` for `to`.
pub fn replace(text: &str, from: &str, to: &str) -> (result: String)
    requires
        from@.len() > 0,
    ensures
        result@ == replaced(text@, from@, to@),
{
    let length: usize = text.unicode_len();
    let width: usize = from.unicode_len();
    let mut result = String::new();
    let mut kept: usize = 0;
    let mut at: usize = 0;
    assert(text@.skip(0) == text@);
    assert(text@.subrange(0, 0) == Seq::<char>::empty());
    while at < length
        invariant
            length == text@.len(),
            width == from@.len(),
            width > 0,
            kept <= at <= length,
            replaced(text@, from@, to@) == result@ + text@.subrange(kept as int, at as int)
                + replaced(text@.skip(at as int), from@, to@),
        decreases length - at,
    {
        let ghost rest = text@.skip(at as int);
        let ghost pending = text@.subrange(kept as int, at as int);
        let ghost before = result@;
        if width <= length - at && same_text(text.substring_char(at, at + width), from) {
            assert(rest.take(width as int) == text@.subrange(at as int, at + width));
            assert(rest.skip(width as int) == text@.skip(at + width));
            result.append(text.substring_char(kept, at));
            result.append(to);
            at = at + width;
            kept = at;
            assert(text@.subrange(kept as int, at as int) == Seq::<char>::empty());
            assert(before + pending + (to@ + replaced(text@.skip(at as int), from@, to@))
                == result@ + text@.subrange(kept as int, at as int) + replaced(
                text@.skip(at as int),
                from@,
                to@,
            ));
        } else {
            if width <= length - at {
                assert(rest.take(width as int) == text@.subrange(at as int, at + width));
            }
            assert(rest.skip(1) == text@.skip(at + 1));
            assert(text@.subrange(kept as int, at + 1) == pending + seq![rest[0]]);
            at = at + 1;
            assert(rest.len() < width ==> rest == seq![rest[0]] + rest.skip(1));
            assert(before + pending + (seq![rest[0]] + replaced(rest.skip(1), from@, to@))
                == result@ + text@.subrange(kept as int, at as int) + replaced(
                text@.skip(at as int),
                from@,
                to@,
            ));
        }
    }
    result.append(text.substring_char(kept, length));
    assert(text@.skip(length as int) == Seq::<char>::empty());
    result
}

} // verus!
