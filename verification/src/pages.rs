//! What an export leaves on a disk.

use vstd::prelude::*;

#[allow(unused_imports)]
use crate::database::is_uuid;
#[allow(unused_imports)]
use crate::excerpts::{is_made_of, joined};
#[allow(unused_imports)]
use crate::html::{
    chat_file, entry_appends, files_after, footer_appends, header_appends, is_closing, is_copy_path,
    target_file, Config, FOOTER, HEADER,
};
#[allow(unused_imports)]
use crate::paths::{
    is_directory, is_file_path, is_name, law_extensions_are_added, path_of, pushed, separates,
    with_extension,
};

verus! {

/// Messages of the same conversation go to the same file, which is made known by the first of them.
pub proof fn law_one_file_for_each_conversation(
    config: Config,
    files: Map<i32, Seq<char>>,
    orphaned: Seq<char>,
    id: i32,
    filename: Seq<char>,
    again: Seq<char>,
)
    ensures
        ({
            let after = files_after(config, files, Some((id, filename)));
            &&& after.contains_key(id)
            &&& target_file(config, after, orphaned, Some((id, again))) == target_file(
                config,
                files,
                orphaned,
                Some((id, filename)),
            )
            &&& files_after(config, after, Some((id, again))) == after
        }),
{
}

/// A message of one conversation leaves the files of the others as they are.
pub proof fn law_other_files_stay(
    config: Config,
    files: Map<i32, Seq<char>>,
    chat: Option<(i32, Seq<char>)>,
    id: i32,
)
    requires
        files.contains_key(id),
    ensures
        files_after(config, files, chat).contains_key(id),
        files_after(config, files, chat)[id] == files[id],
{
}

/// Whether every known file is the page of a chat, by some name.
pub open spec fn are_pages(config: Config, files: Map<i32, Seq<char>>) -> bool {
    forall|id: i32| #[trigger]
        files.contains_key(id) ==> exists|name: Seq<char>|
            files[id] == #[trigger] chat_file(config, name)
}

/// Every file of a conversation stays a page in the directory of the export.
pub proof fn law_conversations_go_to_pages(
    config: Config,
    files: Map<i32, Seq<char>>,
    chat: Option<(i32, Seq<char>)>,
)
    requires
        are_pages(config, files),
    ensures
        are_pages(config, files_after(config, files, chat)),
{
    let after = files_after(config, files, chat);
    assert forall|id: i32| #[trigger] after.contains_key(id) implies exists|name: Seq<char>|
        after[id] == #[trigger] chat_file(config, name) by {
        if files.contains_key(id) {
            assert(after[id] == files[id]);
        } else {
            assert(after[id] == chat_file(config, (chat->0).1));
        }
    }
}

/// The files on a disk, by what tells them apart, once `text` was appended to one of them.
pub open spec fn appended(
    disk: Map<Seq<char>, Seq<char>>,
    path: Seq<char>,
    text: Seq<char>,
) -> Map<Seq<char>, Seq<char>> {
    let before = if disk.contains_key(path) {
        disk[path]
    } else {
        Seq::empty()
    };
    disk.insert(path, before + text)
}

/// The files on a disk once all of `writes` were appended, where `file_at` tells what file a path
/// leads to.
pub open spec fn all_appended(
    disk: Map<Seq<char>, Seq<char>>,
    file_at: spec_fn(Seq<char>) -> Seq<char>,
    writes: Seq<(Seq<char>, Seq<char>)>,
) -> Map<Seq<char>, Seq<char>>
    decreases writes.len(),
{
    if writes.len() == 0 {
        disk
    } else {
        appended(
            all_appended(disk, file_at, writes.drop_last()),
            file_at(writes.last().0),
            writes.last().1,
        )
    }
}

/// The files that are known after `entries`: what was rendered of messages, each with its
/// conversation.
pub open spec fn known_files(
    config: Config,
    entries: Seq<(Option<(i32, Seq<char>)>, Seq<char>)>,
) -> Map<i32, Seq<char>>
    decreases entries.len(),
{
    if entries.len() == 0 {
        Map::empty()
    } else {
        files_after(config, known_files(config, entries.drop_last()), entries.last().0)
    }
}

/// The file that the last of `entries` goes to.
pub open spec fn last_file(
    config: Config,
    orphaned: Seq<char>,
    file_at: spec_fn(Seq<char>) -> Seq<char>,
    entries: Seq<(Option<(i32, Seq<char>)>, Seq<char>)>,
) -> Seq<char> {
    file_at(
        target_file(
            config,
            known_files(config, entries.drop_last()),
            orphaned,
            entries.last().0,
        ),
    )
}

/// The files on a disk once `entries` were exported, but for the footers.
pub open spec fn exported(
    config: Config,
    orphaned: Seq<char>,
    file_at: spec_fn(Seq<char>) -> Seq<char>,
    disk: Map<Seq<char>, Seq<char>>,
    entries: Seq<(Option<(i32, Seq<char>)>, Seq<char>)>,
) -> Map<Seq<char>, Seq<char>>
    decreases entries.len(),
{
    if entries.len() == 0 {
        all_appended(disk, file_at, header_appends(orphaned, config.style@))
    } else {
        let before = exported(config, orphaned, file_at, disk, entries.drop_last());
        let exists = before.contains_key(last_file(config, orphaned, file_at, entries));
        all_appended(
            before,
            file_at,
            entry_appends(
                config,
                known_files(config, entries.drop_last()),
                orphaned,
                entries.last().0,
                exists,
                entries.last().1,
            ),
        )
    }
}

/// The headers of a file.
pub open spec fn header_text(style: Seq<char>) -> Seq<char> {
    HEADER@ + "<style>\n"@ + style + "\n</style>"@
}

/// What was rendered of those of `entries` that go to a file, in their order: nothing where none
/// goes there.
pub open spec fn messages_in(
    config: Config,
    orphaned: Seq<char>,
    file_at: spec_fn(Seq<char>) -> Seq<char>,
    file: Seq<char>,
    entries: Seq<(Option<(i32, Seq<char>)>, Seq<char>)>,
) -> Option<Seq<char>>
    decreases entries.len(),
{
    if entries.len() == 0 {
        None
    } else {
        let before = messages_in(config, orphaned, file_at, file, entries.drop_last());
        if last_file(config, orphaned, file_at, entries) != file {
            before
        } else {
            match before {
                Some(text) => Some(text + entries.last().1),
                None => Some(entries.last().1),
            }
        }
    }
}

/// What a file holds before the first message: what it held before the export; and that of the
/// orphaned messages, the headers behind it.
pub open spec fn opening(
    config: Config,
    orphaned: Seq<char>,
    file_at: spec_fn(Seq<char>) -> Seq<char>,
    disk: Map<Seq<char>, Seq<char>>,
    file: Seq<char>,
) -> Option<Seq<char>> {
    let before = if disk.contains_key(file) {
        Some(disk[file])
    } else {
        None
    };
    if file == file_at(orphaned) {
        Some(
            (match before {
                Some(text) => text,
                None => Seq::empty(),
            }) + header_text(config.style@),
        )
    } else {
        before
    }
}

/// What a file holds once `entries` were exported: what it held before the first message, or the
/// headers where it was not there, and then what was rendered of the messages that go there.
pub open spec fn page(
    config: Config,
    orphaned: Seq<char>,
    file_at: spec_fn(Seq<char>) -> Seq<char>,
    disk: Map<Seq<char>, Seq<char>>,
    file: Seq<char>,
    entries: Seq<(Option<(i32, Seq<char>)>, Seq<char>)>,
) -> Option<Seq<char>> {
    match (
        opening(config, orphaned, file_at, disk, file),
        messages_in(config, orphaned, file_at, file, entries),
    ) {
        (Some(text), Some(messages)) => Some(text + messages),
        (None, Some(messages)) => Some(header_text(config.style@) + messages),
        (text, None) => text,
    }
}

proof fn lemma_headers_appended(
    disk: Map<Seq<char>, Seq<char>>,
    file_at: spec_fn(Seq<char>) -> Seq<char>,
    file: Seq<char>,
    style: Seq<char>,
)
    ensures
        ({
            let after = all_appended(disk, file_at, header_appends(file, style));
            &&& after.dom() == disk.dom().insert(file_at(file))
            &&& forall|other: Seq<char>|
                other != file_at(file) && disk.contains_key(other) ==> #[trigger] after[other]
                    == disk[other]
            &&& after[file_at(file)] == (if disk.contains_key(file_at(file)) {
                disk[file_at(file)] + header_text(style)
            } else {
                header_text(style)
            })
        }),
{
    reveal_with_fuel(all_appended, 5);
    let writes = header_appends(file, style);
    let path = file_at(file);
    assert(writes.len() == 4);
    assert(writes.drop_last().drop_last().drop_last().drop_last().len() == 0);
    assert(writes.drop_last().drop_last().drop_last().last() == (file, HEADER@));
    assert(writes.drop_last().drop_last().last() == (file, "<style>\n"@));
    assert(writes.drop_last().last() == (file, style));
    assert(writes.last() == (file, "\n</style>"@));
    let after = all_appended(disk, file_at, writes);
    assert(after.dom() =~= disk.dom().insert(path));
    if disk.contains_key(path) {
        assert(after[path] == disk[path] + header_text(style));
    } else {
        assert(Seq::<char>::empty() + HEADER@ == HEADER@);
        assert(after[path] == header_text(style));
    }
}

proof fn lemma_known_files_exist(
    config: Config,
    orphaned: Seq<char>,
    file_at: spec_fn(Seq<char>) -> Seq<char>,
    disk: Map<Seq<char>, Seq<char>>,
    entries: Seq<(Option<(i32, Seq<char>)>, Seq<char>)>,
)
    ensures
        forall|id: i32|
            known_files(config, entries).contains_key(id) ==> exported(
                config,
                orphaned,
                file_at,
                disk,
                entries,
            ).contains_key(file_at(#[trigger] known_files(config, entries)[id])),
    decreases entries.len(),
{
    if entries.len() > 0 {
        let earlier = entries.drop_last();
        let files = known_files(config, earlier);
        let before = exported(config, orphaned, file_at, disk, earlier);
        let (chat, text) = entries.last();
        let file = target_file(config, files, orphaned, chat);
        let exists = before.contains_key(file_at(file));
        let writes = entry_appends(config, files, orphaned, chat, exists, text);
        lemma_known_files_exist(config, orphaned, file_at, disk, earlier);
        let opened = all_appended(before, file_at, writes.drop_last());
        assert(writes.last() == (file, text));
        if chat is Some && !files.contains_key((chat->0).0) && !exists {
            assert(writes.drop_last() == header_appends(file, config.style@));
            lemma_headers_appended(before, file_at, file, config.style@);
        } else {
            assert(writes.drop_last() == Seq::<(Seq<char>, Seq<char>)>::empty());
            assert(opened == before);
        }
        assert(exported(config, orphaned, file_at, disk, entries) == appended(
            opened,
            file_at(file),
            text,
        ));
        assert forall|id: i32| known_files(config, entries).contains_key(id) implies exported(
            config,
            orphaned,
            file_at,
            disk,
            entries,
        ).contains_key(file_at(#[trigger] known_files(config, entries)[id])) by {
            if files.contains_key(id) {
                assert(before.contains_key(file_at(files[id])));
            }
        }
    }
}

/// Every file holds, once messages were exported, what it held before and then what was rendered of
/// the messages that go there, in their order. Where there was no file, the headers come first,
/// once, also where more than one conversation goes there. The file of the orphaned messages has
/// the headers behind what it held before, and no other file does.
pub proof fn law_pages_hold_their_messages(
    config: Config,
    orphaned: Seq<char>,
    file_at: spec_fn(Seq<char>) -> Seq<char>,
    disk: Map<Seq<char>, Seq<char>>,
    entries: Seq<(Option<(i32, Seq<char>)>, Seq<char>)>,
    file: Seq<char>,
)
    ensures
        ({
            let after = exported(config, orphaned, file_at, disk, entries);
            match page(config, orphaned, file_at, disk, file, entries) {
                Some(text) => after.contains_key(file) && after[file] == text,
                None => !after.contains_key(file),
            }
        }),
    decreases entries.len(),
{
    if entries.len() == 0 {
        lemma_headers_appended(disk, file_at, orphaned, config.style@);
        if file == file_at(orphaned) && !disk.contains_key(file) {
            assert(Seq::<char>::empty() + header_text(config.style@) == header_text(
                config.style@,
            ));
        }
    } else {
        let earlier = entries.drop_last();
        let files = known_files(config, earlier);
        let before = exported(config, orphaned, file_at, disk, earlier);
        let (chat, text) = entries.last();
        let target = target_file(config, files, orphaned, chat);
        let exists = before.contains_key(file_at(target));
        let writes = entry_appends(config, files, orphaned, chat, exists, text);
        law_pages_hold_their_messages(config, orphaned, file_at, disk, earlier, file);
        law_pages_hold_their_messages(
            config,
            orphaned,
            file_at,
            disk,
            earlier,
            file_at(orphaned),
        );
        lemma_known_files_exist(config, orphaned, file_at, disk, earlier);
        let opened = all_appended(before, file_at, writes.drop_last());
        assert(writes.last() == (target, text));
        if chat is Some && !files.contains_key((chat->0).0) && !exists {
            assert(writes.drop_last() == header_appends(target, config.style@));
            lemma_headers_appended(before, file_at, target, config.style@);
        } else {
            assert(writes.drop_last() == Seq::<(Seq<char>, Seq<char>)>::empty());
            assert(opened == before);
        }
        assert(exported(config, orphaned, file_at, disk, entries) == appended(
            opened,
            file_at(target),
            text,
        ));
        if file == file_at(target) {
            let start = if exists {
                before[file]
            } else {
                header_text(config.style@)
            };
            assert(exists ==> opened[file] == start);
            assert(exported(config, orphaned, file_at, disk, entries)[file] == start + text);
            if let Some(messages) = messages_in(config, orphaned, file_at, file, earlier) {
                if let Some(held) = opening(config, orphaned, file_at, disk, file) {
                    assert(held + messages + text == held + (messages + text));
                } else {
                    let held = header_text(config.style@);
                    assert(held + messages + text == held + (messages + text));
                }
            }
        }
    }
}

/// The footer is appended once to the file of each conversation, and once more to that of the
/// orphaned messages.
pub proof fn law_one_footer_for_each_file(
    files: Map<i32, Seq<char>>,
    orphaned: Seq<char>,
    writes: Seq<(Seq<char>, Seq<char>)>,
)
    requires
        is_closing(files, orphaned, writes),
    ensures
        writes.len() == files.dom().len() + 1,
        writes.last() == (orphaned, FOOTER@),
        forall|i: int| 0 <= i < writes.len() ==> (#[trigger] writes[i]).1 == FOOTER@,
        forall|id: i32| #[trigger]
            files.contains_key(id) ==> writes.drop_last().contains((files[id], FOOTER@)),
{
    let order = choose|order: Seq<i32>|
        {
            &&& order.no_duplicates()
            &&& order.to_set() == files.dom()
            &&& writes == (#[trigger] footer_appends(files, order)).push((orphaned, FOOTER@))
        };
    order.unique_seq_to_set();
    assert(writes.drop_last() == footer_appends(files, order));
    assert forall|id: i32| #[trigger] files.contains_key(id) implies writes.drop_last().contains(
        (files[id], FOOTER@),
    ) by {
        assert(order.to_set().contains(id));
        let i = choose|i: int| 0 <= i < order.len() && order[i] == id;
        assert(writes.drop_last()[i] == (files[id], FOOTER@));
    }
}

/// A text, so many times over.
pub open spec fn repeated(text: Seq<char>, count: nat) -> Seq<char>
    decreases count,
{
    if count == 0 {
        Seq::empty()
    } else {
        repeated(text, (count - 1) as nat) + text
    }
}

/// Those of the given chats whose path leads to a file.
pub open spec fn sharing(
    files: Map<i32, Seq<char>>,
    file_at: spec_fn(Seq<char>) -> Seq<char>,
    chats: Set<i32>,
    file: Seq<char>,
) -> Set<i32> {
    chats.filter(|id: i32| file_at(files[id]) == file)
}

proof fn lemma_footers_appended(
    files: Map<i32, Seq<char>>,
    file_at: spec_fn(Seq<char>) -> Seq<char>,
    disk: Map<Seq<char>, Seq<char>>,
    order: Seq<i32>,
    file: Seq<char>,
)
    requires
        order.no_duplicates(),
        disk.contains_key(file),
    ensures
        ({
            let after = all_appended(disk, file_at, footer_appends(files, order));
            &&& after.contains_key(file)
            &&& after[file] == disk[file] + repeated(
                FOOTER@,
                sharing(files, file_at, order.to_set(), file).len(),
            )
        }),
    decreases order.len(),
{
    let chats = sharing(files, file_at, order.to_set(), file);
    if order.len() == 0 {
        assert(chats == Set::<i32>::empty());
        assert(disk[file] + Seq::<char>::empty() == disk[file]);
    } else {
        let earlier = order.drop_last();
        let before = sharing(files, file_at, earlier.to_set(), file);
        let writes = footer_appends(files, order);
        let last = order.last();
        lemma_footers_appended(files, file_at, disk, earlier, file);
        assert(writes.drop_last() == footer_appends(files, earlier));
        assert(writes.last() == (files[last], FOOTER@));
        assert(order == earlier.push(last));
        assert(order.to_set() == earlier.to_set().insert(last)) by {
            assert forall|id: i32| order.to_set().contains(id) == earlier.to_set().insert(
                last,
            ).contains(id) by {
                if order.to_set().contains(id) {
                    let i = choose|i: int| 0 <= i < order.len() && order[i] == id;
                    if i < earlier.len() {
                        assert(earlier[i] == id);
                    }
                }
                if earlier.to_set().contains(id) {
                    let i = choose|i: int| 0 <= i < earlier.len() && earlier[i] == id;
                    assert(order[i] == id);
                }
                if id == last {
                    assert(order[order.len() - 1] == id);
                }
            }
        }
        assert(!earlier.to_set().contains(last)) by {
            if earlier.to_set().contains(last) {
                let i = choose|i: int| 0 <= i < earlier.len() && earlier[i] == last;
                assert(order[i] == order[order.len() - 1]);
            }
        }
        if file_at(files[last]) == file {
            assert(chats == before.insert(last));
            assert(chats.len() == before.len() + 1);
            assert(disk[file] + repeated(FOOTER@, before.len()) + FOOTER@ == disk[file] + (repeated(
                FOOTER@,
                before.len(),
            ) + FOOTER@));
        } else {
            assert(chats == before);
        }
    }
}

/// Every file ends with one footer for each of the conversations that go there, and that of the
/// orphaned messages with one more.
pub proof fn law_pages_end_with_footers(
    files: Map<i32, Seq<char>>,
    orphaned: Seq<char>,
    file_at: spec_fn(Seq<char>) -> Seq<char>,
    disk: Map<Seq<char>, Seq<char>>,
    writes: Seq<(Seq<char>, Seq<char>)>,
    file: Seq<char>,
)
    requires
        is_closing(files, orphaned, writes),
        disk.contains_key(file),
    ensures
        ({
            let count = sharing(files, file_at, files.dom(), file).len();
            all_appended(disk, file_at, writes)[file] == disk[file] + repeated(
                FOOTER@,
                if file == file_at(orphaned) {
                    count + 1
                } else {
                    count
                },
            )
        }),
{
    let order = choose|order: Seq<i32>|
        {
            &&& order.no_duplicates()
            &&& order.to_set() == files.dom()
            &&& writes == (#[trigger] footer_appends(files, order)).push((orphaned, FOOTER@))
        };
    lemma_footers_appended(files, file_at, disk, order, file);
    assert(writes.drop_last() == footer_appends(files, order));
    if file == file_at(orphaned) {
        let count = sharing(files, file_at, files.dom(), file).len();
        assert(disk[file] + repeated(FOOTER@, count) + FOOTER@ == disk[file] + (repeated(
            FOOTER@,
            count,
        ) + FOOTER@));
    }
}

/// The file of a conversation that shares it with no other ends with one footer.
pub proof fn law_pages_end_with_the_footer(
    files: Map<i32, Seq<char>>,
    orphaned: Seq<char>,
    file_at: spec_fn(Seq<char>) -> Seq<char>,
    disk: Map<Seq<char>, Seq<char>>,
    writes: Seq<(Seq<char>, Seq<char>)>,
    id: i32,
)
    requires
        is_closing(files, orphaned, writes),
        files.contains_key(id),
        disk.contains_key(file_at(files[id])),
        file_at(files[id]) != file_at(orphaned),
        forall|other: i32|
            files.contains_key(other) && other != id ==> file_at(#[trigger] files[other])
                != file_at(files[id]),
    ensures
        all_appended(disk, file_at, writes)[file_at(files[id])] == disk[file_at(files[id])]
            + FOOTER@,
{
    let file = file_at(files[id]);
    law_pages_end_with_footers(files, orphaned, file_at, disk, writes, file);
    let chats = sharing(files, file_at, files.dom(), file);
    assert(chats == Set::<i32>::empty().insert(id)) by {
        assert forall|other: i32| chats.contains(other) == (other == id) by {
            if chats.contains(other) && other != id {
                assert(file_at(files[other]) != file);
            }
        }
    }
    assert(repeated(FOOTER@, 1) == FOOTER@) by {
        reveal_with_fuel(repeated, 2);
        assert(Seq::<char>::empty() + FOOTER@ == FOOTER@);
    }
}

/// The file of the orphaned messages ends with one footer where no conversation goes there.
pub proof fn law_the_orphaned_page_ends_with_the_footer(
    files: Map<i32, Seq<char>>,
    orphaned: Seq<char>,
    file_at: spec_fn(Seq<char>) -> Seq<char>,
    disk: Map<Seq<char>, Seq<char>>,
    writes: Seq<(Seq<char>, Seq<char>)>,
)
    requires
        is_closing(files, orphaned, writes),
        disk.contains_key(file_at(orphaned)),
        forall|id: i32|
            files.contains_key(id) ==> file_at(#[trigger] files[id]) != file_at(orphaned),
    ensures
        all_appended(disk, file_at, writes)[file_at(orphaned)] == disk[file_at(orphaned)]
            + FOOTER@,
{
    let file = file_at(orphaned);
    law_pages_end_with_footers(files, orphaned, file_at, disk, writes, file);
    let chats = sharing(files, file_at, files.dom(), file);
    assert(chats == Set::<i32>::empty()) by {
        assert forall|id: i32| !chats.contains(id) by {
            if chats.contains(id) {
                assert(file_at(files[id]) != file);
            }
        }
    }
    assert(repeated(FOOTER@, 1) == FOOTER@) by {
        reveal_with_fuel(repeated, 2);
        assert(Seq::<char>::empty() + FOOTER@ == FOOTER@);
    }
}

/// The first message of a conversation goes to a page in the directory of the export, by the name
/// of the conversation; later ones to the page that is known, whatever its name; and those of no
/// known conversation to the page of the orphaned messages.
pub proof fn law_messages_go_to_the_page_of_their_conversation(
    config: Config,
    files: Map<i32, Seq<char>>,
    orphaned: Seq<char>,
    id: i32,
    name: Seq<char>,
)
    ensures
        target_file(config, files, orphaned, None) == orphaned,
        files_after(config, files, None) == files,
        files.contains_key(id) ==> target_file(config, files, orphaned, Some((id, name)))
            == files[id],
        files.contains_key(id) ==> files_after(config, files, Some((id, name))) == files,
        !files.contains_key(id) ==> target_file(config, files, orphaned, Some((id, name)))
            == with_extension(pushed(config.export_path@, name), "html"@),
        !files.contains_key(id) ==> files_after(config, files, Some((id, name))) == files.insert(
            id,
            with_extension(pushed(config.export_path@, name), "html"@),
        ),
{
}

/// The headers of a file all go to that file: what every page begins with, and then the style
/// sheet, as it is.
pub proof fn law_headers_carry_the_style(file: Seq<char>, style: Seq<char>)
    ensures
        forall|i: int|
            0 <= i < header_appends(file, style).len() ==> (#[trigger] header_appends(
                file,
                style,
            )[i]).0 == file,
        is_made_of(
            header_text(style),
            header_appends(file, style).map_values(|write: (Seq<char>, Seq<char>)| write.1),
        ),
        is_made_of(
            header_text(style),
            seq![
                "<html>\n<meta charset=\"UTF-8\">"@,
                "<style>\n"@ + style,
                "\n</style>"@,
            ],
        ),
{
    let texts = header_appends(file, style).map_values(
        |write: (Seq<char>, Seq<char>)| write.1,
    );
    let none = Seq::<char>::empty();
    reveal_with_fuel(joined, 5);
    assert(texts == seq![HEADER@, "<style>\n"@, style, "\n</style>"@]);
    assert(texts.skip(1).skip(1).skip(1).skip(1).len() == 0);
    assert(header_text(style) == joined(texts));
    let pieces = seq![
        "<html>\n<meta charset=\"UTF-8\">"@,
        "<style>\n"@ + style,
        "\n</style>"@,
    ];
    assert(pieces.skip(1).skip(1).skip(1).len() == 0);
    assert(header_text(style) == joined(pieces));
}

/// A message is appended to the file that it goes to, behind the headers where that is a new page
/// that is not there; to no other file, and with nothing else.
pub proof fn law_messages_are_appended_to_their_page(
    config: Config,
    files: Map<i32, Seq<char>>,
    orphaned: Seq<char>,
    chat: Option<(i32, Seq<char>)>,
    exists: bool,
    text: Seq<char>,
)
    ensures
        ({
            let writes = entry_appends(config, files, orphaned, chat, exists, text);
            let file = target_file(config, files, orphaned, chat);
            let opened = chat matches Some((id, _)) && !files.contains_key(id) && !exists;
            &&& writes.len() > 0 && writes.last() == (file, text)
            &&& opened ==> writes.drop_last() == header_appends(file, config.style@)
            &&& !opened ==> writes.len() == 1
        }),
{
    let writes = entry_appends(config, files, orphaned, chat, exists, text);
    let file = target_file(config, files, orphaned, chat);
    if chat is Some && !files.contains_key((chat->0).0) && !exists {
        assert(writes.drop_last() == header_appends(file, config.style@));
    }
}

/// A UUID is a name without an extension.
proof fn lemma_uuid_names(name: Seq<char>)
    requires
        is_uuid(name),
    ensures
        is_name(name),
        !name.contains('.'),
{
    reveal_strlit(".");
    reveal_strlit("..");
    assert(name.len() == 36);
    assert(name != "."@ && name != ".."@);
    assert forall|c: char| name.contains(c) implies c == '-' || '0' <= c <= '9' || 'a' <= c
        <= 'f' by {
        let i = choose|i: int| 0 <= i < name.len() && name[i] == c;
        assert(name[i] == c);
    }
}

/// A copy has a random name of its own in the directory for attachments, and the extension that was
/// asked for.
pub proof fn law_copies_have_a_name_of_their_own(
    path: Seq<char>,
    directory: Seq<char>,
    extension: Seq<char>,
)
    requires
        is_copy_path(path, directory, extension),
        is_directory(directory),
        extension.len() > 0,
    ensures
        exists|name: Seq<char>| #[trigger]
            is_uuid(name) && (path == directory.push('/') + name + "."@ + extension || (separates(
                '\\',
            ) && path == directory.push('\\') + name + "."@ + extension)),
{
    let name = choose|name: Seq<char>| #[trigger]
        is_uuid(name) && path == path_of(directory, name, extension) && is_file_path(
            path,
            directory,
            name,
            extension,
        );
    lemma_uuid_names(name);
    law_extensions_are_added(path, directory, name, extension);
}

} // verus!
