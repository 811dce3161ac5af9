//! Paths, as texts: what std's `PathBuf` and `Path` make of them.

use std::path::{Path, PathBuf};

use vstd::prelude::*;

#[allow(unused_imports)]
use crate::text::{begins_with, last_mark};

verus! {

/// Whether std's `is_separator` takes a character to part the pieces of a path on this system.
pub uninterp spec fn separates(c: char) -> bool;

/// Whether a character parts the pieces of a path: `/` does on every system, and `\` on some.
pub open spec fn parts_path(c: char) -> bool {
    c == '/' || (c == '\\' && separates(c))
}

/// Whether a character parts the pieces of a path: std's `is_separator`. On some systems it takes
/// `\` as well as `/`, and on none any other character.
#[verifier::external_body]
fn is_separator(c: char) -> (answer: bool)
    ensures
        answer == separates(c),
        answer == parts_path(c),
{
    std::path::is_separator(c)
}

/// Whether a text holds a character that parts the pieces of a path.
pub open spec fn holds_separator(text: Seq<char>) -> bool {
    exists|i: int| 0 <= i < text.len() && parts_path(#[trigger] text[i])
}

/// Whether a text holds a character that parts the pieces of a path.
pub fn has_separator(text: &str) -> (found: bool)
    ensures
        found == holds_separator(text@),
{
    let length: usize = text.unicode_len();
    let mut at: usize = 0;
    while at < length
        invariant
            at <= length == text@.len(),
            forall|i: int| 0 <= i < at ==> !parts_path(#[trigger] text@[i]),
        decreases length - at,
    {
        if is_separator(text.get_char(at)) {
            assert(parts_path(text@[at as int]));
            return true;
        }
        at = at + 1;
    }
    false
}

/// A text is parted by `/` on every system, and by `\` where the system takes it for a separator;
/// by no other character.
pub proof fn law_separators_part_paths(text: Seq<char>)
    ensures
        holds_separator(text) <==> text.contains('/') || (separates('\\') && text.contains('\\')),
{
    if text.contains('/') {
        let i = choose|i: int| 0 <= i < text.len() && text[i] == '/';
        assert(parts_path(text[i]));
    }
    if separates('\\') && text.contains('\\') {
        let i = choose|i: int| 0 <= i < text.len() && text[i] == '\\';
        assert(parts_path(text[i]));
    }
}

/// Whether a text names one piece of a path on every system.
pub open spec fn is_name(text: Seq<char>) -> bool {
    &&& text.len() > 0 && text != "."@ && text != ".."@
    &&& !text.contains('/') && !text.contains('\\') && !text.contains(':')
}

/// Whether a text is the path of a directory on every system, and ends with its name. One that
/// begins with two separators, or holds a `:`, may begin with the name of a drive or of a server.
pub open spec fn is_directory(path: Seq<char>) -> bool {
    &&& path.len() > 0 && path.last() != '/'
    &&& path.len() < 2 || path[0] != '/' || path[1] != '/'
    &&& !path.contains('\\') && !path.contains(':')
}

/// The path that `PathBuf::push` makes of a path and a piece.
pub uninterp spec fn pushed(path: Seq<char>, piece: Seq<char>) -> Seq<char>;

/// Whether `text` can be the path to a name in a directory: the two with a separator between them.
pub open spec fn is_pushed(text: Seq<char>, path: Seq<char>, piece: Seq<char>) -> bool {
    is_directory(path) && is_name(piece) ==> text == path.push('/') + piece || (separates('\\')
        && text == path.push('\\') + piece)
}

/// A path with one more piece: `PathBuf::push`. To the path of a directory a name is added behind
/// a separator, which is `/` where `\` is none. Of other paths and pieces, such as an absolute one,
/// nothing is said.
#[verifier::external_body]
fn push(path: &str, piece: &str) -> (text: String)
    ensures
        text@ == pushed(path@, piece@),
        is_pushed(text@, path@, piece@),
{
    let mut path = PathBuf::from(path);
    path.push(piece);
    path.to_string_lossy().to_string()
}

/// The last piece of a path.
pub open spec fn last_part(path: Seq<char>) -> Seq<char>
    decreases path.len(),
{
    if path.len() == 0 || parts_path(path.last()) {
        Seq::empty()
    } else {
        last_part(path.drop_last()).push(path.last())
    }
}

/// The name of a file without its extension: what stands before the last `.`, unless the name
/// begins with it.
pub open spec fn stem(name: Seq<char>) -> Seq<char> {
    if last_mark(name, '.') > 0 {
        name.take(last_mark(name, '.'))
    } else {
        name
    }
}

/// The path that `PathBuf::set_extension` makes of a path and an extension.
pub uninterp spec fn with_extension(path: Seq<char>, extension: Seq<char>) -> Seq<char>;

/// Whether a path can begin with the name of a drive or of a server on some system.
pub open spec fn may_have_prefix(path: Seq<char>) -> bool {
    path.contains(':') || (path.len() > 0 && path[0] == '\\') || (path.len() > 1 && parts_path(
        path[0],
    ) && parts_path(path[1]))
}

/// Whether `text` can be a path with another extension: where the last piece of the path names a
/// file, what follows the last `.` of that name is replaced.
pub open spec fn is_extended(text: Seq<char>, path: Seq<char>, extension: Seq<char>) -> bool {
    let name = last_part(path);
    is_name(name) && !may_have_prefix(path) && extension.len() > 0 ==> text == path.take(
        path.len() - name.len(),
    ) + stem(name) + "."@ + extension
}

/// A path with another extension: `PathBuf::set_extension`, which panics where the extension holds
/// a separator. The extension of a file name is replaced, or added where there is none. Of other
/// paths, such as one that ends with `..` or may name a server, nothing is said.
#[verifier::external_body]
fn set_extension(path: &str, extension: &str) -> (text: String)
    requires
        !holds_separator(extension@),
    ensures
        text@ == with_extension(path@, extension@),
        is_extended(text@, path@, extension@),
{
    let mut path = PathBuf::from(path);
    path.set_extension(extension);
    path.to_string_lossy().to_string()
}

/// Whether `Path::starts_with` takes a path to begin with the pieces of another one.
pub uninterp spec fn path_starts_with(path: Seq<char>, base: Seq<char>) -> bool;

/// Whether a path is that of `base`, or of something below it.
pub open spec fn is_below(path: Seq<char>, base: Seq<char>) -> bool {
    path == base || (begins_with(path, base) && path.len() > base.len() && parts_path(
        path[base.len() as int],
    ))
}

/// Whether a path begins with the pieces of another one: `Path::starts_with`, which goes by whole
/// pieces.
#[verifier::external_body]
pub(crate) fn starts_with_path(path: &str, base: &str) -> (below: bool)
    ensures
        below == path_starts_with(path@, base@),
        is_name(base@) ==> below == is_below(path@, base@),
{
    Path::new(path).starts_with(base)
}

/// The path of a file in a directory, whose name is given an extension.
pub open spec fn path_of(
    directory: Seq<char>,
    name: Seq<char>,
    extension: Seq<char>,
) -> Seq<char> {
    with_extension(pushed(directory, name), extension)
}

/// Whether `text` can be the path of a file in a directory, whose name is given an extension: what
/// follows the last `.` of the name is replaced.
pub open spec fn is_file_path(
    text: Seq<char>,
    directory: Seq<char>,
    name: Seq<char>,
    extension: Seq<char>,
) -> bool {
    is_directory(directory) && is_name(name) && extension.len() > 0 ==> text == directory.push('/')
        + stem(name) + "."@ + extension || (separates('\\') && text == directory.push('\\') + stem(
        name,
    ) + "."@ + extension)
}

/// The last piece of a path that ends with a name is that name.
proof fn lemma_last_part(path: Seq<char>, name: Seq<char>)
    requires
        path.len() > 0,
        parts_path(path.last()),
        !name.contains('/'),
        !name.contains('\\'),
    ensures
        last_part(path + name) == name,
    decreases name.len(),
{
    let whole = path + name;
    if name.len() == 0 {
        assert(whole == path);
    } else {
        let rest = name.drop_last();
        assert(name.contains(name[name.len() - 1]));
        assert(whole.last() == name.last());
        assert(whole.drop_last() == path + rest);
        assert forall|c: char| rest.contains(c) implies name.contains(c) by {
            let i = choose|i: int| 0 <= i < rest.len() && rest[i] == c;
            assert(name[i] == c);
        }
        lemma_last_part(path, rest);
        assert(name == rest.push(name.last()));
    }
}

proof fn lemma_last_mark(base: Seq<char>, last: Seq<char>)
    requires
        !last.contains('.'),
    ensures
        last_mark(base.push('.') + last, '.') == base.len(),
    decreases last.len(),
{
    let name = base.push('.') + last;
    if last.len() == 0 {
        assert(name == base.push('.'));
    } else {
        let rest = last.drop_last();
        assert(last.contains(last[last.len() - 1]));
        assert(name.last() == last.last());
        assert(name.drop_last() == base.push('.') + rest);
        assert(!rest.contains('.')) by {
            if rest.contains('.') {
                let i = choose|i: int| 0 <= i < rest.len() && rest[i] == '.';
                assert(last[i] == '.');
            }
        }
        lemma_last_mark(base, rest);
    }
}

/// What follows the last `.` of a name is replaced by the extension that a file is given, not
/// extended.
pub proof fn law_extensions_are_replaced(
    text: Seq<char>,
    directory: Seq<char>,
    base: Seq<char>,
    last: Seq<char>,
    extension: Seq<char>,
)
    requires
        is_file_path(text, directory, base.push('.') + last, extension),
        is_directory(directory),
        is_name(base.push('.') + last),
        base.len() > 0,
        !last.contains('.'),
        extension.len() > 0,
    ensures
        text == directory.push('/') + base + "."@ + extension || (separates('\\') && text
            == directory.push('\\') + base + "."@ + extension),
{
    lemma_last_mark(base, last);
    assert((base.push('.') + last).take(base.len() as int) == base);
}

/// A name without a `.` is kept, with the extension behind it.
pub proof fn law_extensions_are_added(
    text: Seq<char>,
    directory: Seq<char>,
    name: Seq<char>,
    extension: Seq<char>,
)
    requires
        is_file_path(text, directory, name, extension),
        is_directory(directory),
        is_name(name),
        !name.contains('.'),
        extension.len() > 0,
    ensures
        text == directory.push('/') + name + "."@ + extension || (separates('\\') && text
            == directory.push('\\') + name + "."@ + extension),
{
    lemma_no_mark(name);
}

proof fn lemma_no_mark(name: Seq<char>)
    requires
        !name.contains('.'),
    ensures
        last_mark(name, '.') == -1,
    decreases name.len(),
{
    if name.len() > 0 {
        assert(name.contains(name[name.len() - 1]));
        assert(!name.drop_last().contains('.')) by {
            if name.drop_last().contains('.') {
                let rest = name.drop_last();
                let i = choose|i: int| 0 <= i < rest.len() && rest[i] == '.';
                assert(name[i] == '.');
            }
        }
        lemma_no_mark(name.drop_last());
    }
}

/// A name whose only `.` is its first character has no extension to replace.
pub proof fn law_hidden_names_are_kept(
    text: Seq<char>,
    directory: Seq<char>,
    last: Seq<char>,
    extension: Seq<char>,
)
    requires
        is_file_path(text, directory, seq!['.'] + last, extension),
        is_directory(directory),
        is_name(seq!['.'] + last),
        !last.contains('.'),
        extension.len() > 0,
    ensures
        text == directory.push('/') + (seq!['.'] + last) + "."@ + extension || (separates('\\')
            && text == directory.push('\\') + (seq!['.'] + last) + "."@ + extension),
{
    let none = Seq::<char>::empty();
    assert(seq!['.'] + last == none.push('.') + last);
    lemma_last_mark(none, last);
}

/// The path of a file in a directory, whose name is given an extension.
pub(crate) fn file_path(directory: &str, name: &str, extension: &str) -> (path: String)
    requires
        !holds_separator(extension@),
    ensures
        path@ == path_of(directory@, name@, extension@),
        is_file_path(path@, directory@, name@, extension@),
{
    let whole = push(directory, name);
    let path = set_extension(whole.as_str(), extension);
    proof {
        if is_directory(directory@) && is_name(name@) && extension@.len() > 0 {
            let start = if whole@ == directory@.push('/') + name@ {
                directory@.push('/')
            } else {
                directory@.push('\\')
            };
            assert(whole@ == start + name@);
            lemma_last_part(start, name@);
            assert(directory@.contains(directory@[0]));
            assert(whole@[0] == directory@[0]);
            if directory@.len() > 1 {
                assert(directory@.contains(directory@[1]));
                assert(whole@[1] == directory@[1]);
            } else {
                assert(directory@[0] == directory@.last());
            }
            assert(!whole@.contains(':')) by {
                if whole@.contains(':') {
                    let i = choose|i: int| 0 <= i < whole@.len() && whole@[i] == ':';
                    if i < directory@.len() {
                        assert(directory@[i] == ':');
                    } else if i > directory@.len() {
                        assert(name@[i - start.len()] == ':');
                    }
                }
            }
            assert(whole@.take(whole@.len() - name@.len()) == start);
        }
    }
    path
}

} // verus!
