//! The exporter: its configuration, the files it appends to, and the lines it writes.

use std::collections::HashMap;

use vstd::prelude::*;
#[allow(unused_imports)]
use vstd::std_specs::iter::IteratorSpec;

use crate::attachments::Transfer;
#[allow(unused_imports)]
use crate::database::is_uuid;
use crate::database::new_uuid;
use crate::paths::{file_path, has_separator};
#[allow(unused_imports)]
use crate::paths::{holds_separator, is_file_path, path_of};

verus! {

/// What every HTML file begins with.
pub const HEADER: &'static str = "<html>\n<meta charset=\"UTF-8\">";

/// What every HTML file ends with.
pub const FOOTER: &'static str = "</html>";

/// The name of the file for messages that belong to no known chat.
pub const ORPHANED: &'static str = "orphaned";

/// The settings of one export.
pub struct Config {
    /// The directory that the HTML files go to.
    pub export_path: String,
    /// The directory that copies of attachments go to.
    pub attachment_path: String,
    /// The home directory, which `~` stands for in the path of an attachment.
    pub home: String,
    /// The style sheet that every file carries.
    pub style: String,
    /// The seconds from the Unix epoch to the epoch of the stored dates.
    pub offset: i64,
    /// Whether attachments are linked where they are, not copied.
    pub no_copy: bool,
}

/// Text to be appended to the file at a path.
pub struct Append {
    pub path: String,
    pub text: String,
}

impl View for Append {
    type V = (Seq<char>, Seq<char>);

    open spec fn view(&self) -> (Seq<char>, Seq<char>) {
        (self.path@, self.text@)
    }
}

/// The chat that a message belongs to: its unique number, and the name of its file.
pub struct Conversation {
    pub id: i32,
    pub filename: String,
}

/// The file that a message goes to, and whether no message went to it before.
pub struct Target {
    pub path: String,
    pub created: bool,
}

/// Renders messages as HTML.
pub struct HTML<'a> {
    /// The settings of the export.
    pub config: &'a Config,
    /// The file of each chat that a message was seen of, by the chat's unique number.
    pub files: HashMap<i32, String>,
    /// The file for messages that belong to no known chat.
    pub orphaned: String,
}

/// The line that holds `part` between `pre` and `post`: nothing where `part` is empty.
pub open spec fn line(part: Seq<char>, pre: Seq<char>, post: Seq<char>) -> Seq<char> {
    if part.len() == 0 {
        Seq::empty()
    } else {
        pre + part + post + "\n"@
    }
}

/// What opens a file that carries the style sheet `style`.
pub open spec fn headers(style: Seq<char>) -> Seq<Seq<char>> {
    seq![HEADER@, "<style>\n"@, style, "\n</style>"@]
}

/// The views of what is appended.
pub open spec fn appends_view(writes: Seq<Append>) -> Seq<(Seq<char>, Seq<char>)> {
    writes.map_values(|write: Append| write@)
}

/// The headers of a file, as what is appended to it.
pub open spec fn header_appends(file: Seq<char>, style: Seq<char>) -> Seq<(Seq<char>, Seq<char>)> {
    headers(style).map_values(|text: Seq<char>| (file, text))
}

/// The file of a chat with the given name.
pub open spec fn chat_file(config: Config, filename: Seq<char>) -> Seq<char> {
    path_of(config.export_path@, filename, "html"@)
}

/// The files of the chats.
pub open spec fn files_view(files: Map<i32, String>) -> Map<i32, Seq<char>> {
    files.map_values(|file: String| file@)
}

/// A conversation, by the number of its chat and the name of its file.
pub open spec fn chat_view(conversation: Option<&Conversation>) -> Option<(i32, Seq<char>)> {
    match conversation {
        Some(chat) => Some((chat.id, chat.filename@)),
        None => None,
    }
}

/// The file that the messages of a conversation go to: the one that is known of its chat, else a
/// new one; for those of no known conversation, the one of the orphaned messages.
pub open spec fn target_file(
    config: Config,
    files: Map<i32, Seq<char>>,
    orphaned: Seq<char>,
    chat: Option<(i32, Seq<char>)>,
) -> Seq<char> {
    match chat {
        Some((id, filename)) => if files.contains_key(id) {
            files[id]
        } else {
            chat_file(config, filename)
        },
        None => orphaned,
    }
}

/// The files that are known after a message of a conversation.
pub open spec fn files_after(
    config: Config,
    files: Map<i32, Seq<char>>,
    chat: Option<(i32, Seq<char>)>,
) -> Map<i32, Seq<char>> {
    match chat {
        Some((id, filename)) => if files.contains_key(id) {
            files
        } else {
            files.insert(id, chat_file(config, filename))
        },
        None => files,
    }
}

/// What is appended for a message of a conversation, whose file may be there already.
pub open spec fn entry_appends(
    config: Config,
    files: Map<i32, Seq<char>>,
    orphaned: Seq<char>,
    chat: Option<(i32, Seq<char>)>,
    exists: bool,
    text: Seq<char>,
) -> Seq<(Seq<char>, Seq<char>)> {
    let file = target_file(config, files, orphaned, chat);
    let opening = if chat is Some && !files.contains_key((chat->0).0) && !exists {
        header_appends(file, config.style@)
    } else {
        Seq::empty()
    };
    opening.push((file, text))
}

/// A footer for each of the chats, in the given order.
pub open spec fn footer_appends(
    files: Map<i32, Seq<char>>,
    order: Seq<i32>,
) -> Seq<(Seq<char>, Seq<char>)> {
    order.map_values(|id: i32| (files[id], FOOTER@))
}

/// Whether `writes` appends the footer to the file of each chat once, in some order, and then to
/// the one of the orphaned messages.
pub open spec fn is_closing(
    files: Map<i32, Seq<char>>,
    orphaned: Seq<char>,
    writes: Seq<(Seq<char>, Seq<char>)>,
) -> bool {
    exists|order: Seq<i32>|
        {
            &&& order.no_duplicates()
            &&& order.to_set() == files.dom()
            &&& writes == (#[trigger] footer_appends(files, order)).push((orphaned, FOOTER@))
        }
}

/// Whether `path` can be that of a copy: in the directory for attachments, with a random UUID for
/// its name.
pub open spec fn is_copy_path(
    path: Seq<char>,
    directory: Seq<char>,
    extension: Seq<char>,
) -> bool {
    exists|name: Seq<char>| #[trigger]
        is_uuid(name) && path == path_of(directory, name, extension) && is_file_path(
            path,
            directory,
            name,
            extension,
        )
}

/// The path of the file of a chat with the given name.
fn page_path(config: &Config, filename: &str) -> (path: String)
    ensures
        path@ == chat_file(*config, filename@),
        is_file_path(path@, config.export_path@, filename@, "html"@),
{
    proof {
        reveal_strlit("html");
    }
    file_path(config.export_path.as_str(), filename, "html")
}

impl<'a> HTML<'a> {
    /// An exporter that has seen no chat.
    pub fn new(config: &'a Config) -> (exporter: HTML<'a>)
        ensures
            exporter.config == config,
            exporter.files@ == Map::<i32, String>::empty(),
            exporter.orphaned@ == chat_file(*config, ORPHANED@),
            is_file_path(exporter.orphaned@, config.export_path@, ORPHANED@, "html"@),
    {
        HTML { config, files: HashMap::new(), orphaned: page_path(config, ORPHANED) }
    }

    /// Appends the line that holds `part` between `pre` and `post`, unless `part` is empty.
    pub fn add_line(&self, string: &mut String, part: &str, pre: &str, post: &str)
        ensures
            final(string)@ == old(string)@ + line(part@, pre@, post@),
    {
        if !part.is_empty() {
            string.append(pre);
            string.append(part);
            string.append(post);
            string.append("\n");
        }
        assert(string@ == old(string)@ + line(part@, pre@, post@));
    }

    /// What is appended to `file` before anything else: the header and the style sheet.
    pub fn write_headers(file: &str, style: &str) -> (writes: Vec<Append>)
        ensures
            appends_view(writes@) == header_appends(file@, style@),
    {
        let mut writes: Vec<Append> = Vec::new();
        writes.push(Append { path: file.to_owned(), text: HEADER.to_owned() });
        writes.push(Append { path: file.to_owned(), text: "<style>\n".to_owned() });
        writes.push(Append { path: file.to_owned(), text: style.to_owned() });
        writes.push(Append { path: file.to_owned(), text: "\n</style>".to_owned() });
        writes
    }

    /// The file for the messages of a conversation: for those of no known conversation, the one of
    /// the orphaned messages. The file of a conversation that was not seen before is kept in mind.
    pub fn get_or_create_file(&mut self, conversation: Option<&Conversation>) -> (target: Target)
        ensures
            final(self).config == old(self).config,
            final(self).orphaned == old(self).orphaned,
            files_view(final(self).files@) == files_after(
                *old(self).config,
                files_view(old(self).files@),
                chat_view(conversation),
            ),
            target.path@ == target_file(
                *old(self).config,
                files_view(old(self).files@),
                old(self).orphaned@,
                chat_view(conversation),
            ),
            target.created == (conversation is Some && !old(self).files@.contains_key(
                conversation->0.id,
            )),
            target.created ==> is_file_path(
                target.path@,
                old(self).config.export_path@,
                conversation->0.filename@,
                "html"@,
            ),
    {
        broadcast use vstd::std_specs::hash::group_hash_axioms;

        let chat = match conversation {
            Some(chat) => chat,
            None => {
                return Target { path: self.orphaned.clone(), created: false };
            },
        };
        if let Some(file) = self.files.get(&chat.id) {
            return Target { path: file.clone(), created: false };
        }
        let file = page_path(self.config, chat.filename.as_str());
        let target = Target { path: file.clone(), created: true };
        self.files.insert(chat.id, file);
        assert(files_view(self.files@) =~= files_after(
            *old(self).config,
            files_view(old(self).files@),
            chat_view(conversation),
        ));
        target
    }

    /// The file that the messages of a conversation go to.
    pub fn file_for(&self, conversation: Option<&Conversation>) -> (file: String)
        ensures
            file@ == target_file(
                *self.config,
                files_view(self.files@),
                self.orphaned@,
                chat_view(conversation),
            ),
            conversation is Some && !self.files@.contains_key(conversation->0.id)
                ==> is_file_path(
                file@,
                self.config.export_path@,
                conversation->0.filename@,
                "html"@,
            ),
    {
        broadcast use vstd::std_specs::hash::group_hash_axioms;

        match conversation {
            Some(chat) => match self.files.get(&chat.id) {
                Some(file) => file.clone(),
                None => page_path(self.config, chat.filename.as_str()),
            },
            None => self.orphaned.clone(),
        }
    }

    /// What is appended for a message of a conversation, whose file may be there already: the
    /// headers, where the file is a new one; then what was rendered. A file that is there before
    /// the first message of its conversation has its headers: it belongs to another conversation
    /// of that name.
    pub fn export_entry(
        &mut self,
        conversation: Option<&Conversation>,
        exists: bool,
        text: String,
    ) -> (writes: Vec<Append>)
        ensures
            final(self).config == old(self).config,
            final(self).orphaned == old(self).orphaned,
            files_view(final(self).files@) == files_after(
                *old(self).config,
                files_view(old(self).files@),
                chat_view(conversation),
            ),
            appends_view(writes@) == entry_appends(
                *old(self).config,
                files_view(old(self).files@),
                old(self).orphaned@,
                chat_view(conversation),
                exists,
                text@,
            ),
            conversation is Some && !old(self).files@.contains_key(conversation->0.id)
                ==> is_file_path(
                appends_view(writes@).last().0,
                old(self).config.export_path@,
                conversation->0.filename@,
                "html"@,
            ),
    {
        let target = self.get_or_create_file(conversation);
        let mut writes: Vec<Append> = if target.created && !exists {
            HTML::write_headers(target.path.as_str(), self.config.style.as_str())
        } else {
            Vec::new()
        };
        let ghost opening = appends_view(writes@);
        let ghost file = target.path@;
        writes.push(Append { path: target.path, text });
        proof {
            assert(appends_view(writes@) == opening.push((file, text@)));
            assert(appends_view(Seq::<Append>::empty()) == Seq::<(Seq<char>, Seq<char>)>::empty());
        }
        writes
    }

    /// What is appended once every message was exported: the footer, to each file once, last to
    /// the one of the orphaned messages.
    pub fn write_footers(&self) -> (writes: Vec<Append>)
        ensures
            is_closing(files_view(self.files@), self.orphaned@, appends_view(writes@)),
    {
        broadcast use vstd::std_specs::hash::group_hash_axioms;

        let mut writes: Vec<Append> = Vec::new();
        let keys = self.files.keys();
        let ghost all = keys.remaining().unref();
        let ghost mut order: Seq<i32> = Seq::empty();
        for id in ids: keys
            invariant
                ids.seq().unref() == all,
                all.to_set() == self.files@.dom(),
                order == all.take(ids.index() as int),
                appends_view(writes@) == footer_appends(files_view(self.files@), order),
        {
            broadcast use vstd::std_specs::hash::group_hash_axioms;

            let ghost seen = order;
            proof {
                assert(all[ids.index() as int] == *id);
                assert(all.to_set().contains(*id));
                order = order.push(*id);
                assert(order == all.take(ids.index() + 1));
            }
            if let Some(file) = self.files.get(id) {
                writes.push(Append { path: file.clone(), text: FOOTER.to_owned() });
                assert(appends_view(writes@) == footer_appends(files_view(self.files@), seen).push(
                    (self.files@[*id]@, FOOTER@),
                ));
                assert(appends_view(writes@) == footer_appends(files_view(self.files@), order));
            }
        }
        assert(order == all);
        assert(order.to_set() == files_view(self.files@).dom());
        assert(order.no_duplicates());
        writes.push(Append { path: self.orphaned.clone(), text: FOOTER.to_owned() });
        assert(appends_view(writes@) == footer_appends(files_view(self.files@), order).push(
            (self.orphaned@, FOOTER@),
        ));
        writes
    }

    /// Where the copy of a file goes: to the directory for attachments, under a name of its own.
    /// Which name that is, is left to chance. There is no such path where the extension is none
    /// that a file can have.
    pub fn copy_path(&self, transfer: &Transfer<String>) -> (path: Option<String>)
        ensures
            path is Some <==> !holds_separator(transfer.extension@),
            path is Some ==> is_copy_path(
                path->0@,
                self.config.attachment_path@,
                transfer.extension@,
            ),
    {
        if has_separator(transfer.extension.as_str()) {
            return None;
        }
        let name = new_uuid();
        let path = file_path(
            self.config.attachment_path.as_str(),
            name.as_str(),
            transfer.extension.as_str(),
        );
        assert(is_uuid(name@));
        Some(path)
    }
}

} // verus!
