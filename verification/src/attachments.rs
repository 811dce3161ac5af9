//! Attachments: where their files are, and the HTML that shows them.

use vstd::prelude::*;

use crate::html::{Config, HTML};
#[allow(unused_imports)]
use crate::paths::{is_below, is_name};
use crate::paths::starts_with_path;
use crate::tables::{Attachment, MediaType};
#[allow(unused_imports)]
use crate::text::{
    enclosed, optional, replace, replaced, same_option, same_text,
};

verus! {

/// A file that has to be in the directory for attachments before a page can show it.
pub struct Transfer<T> {
    /// Where the file is.
    pub source: T,
    /// The extension of its copy.
    pub extension: T,
    /// Whether the copy is a conversion to JPEG.
    pub convert: bool,
}

/// What came of a transfer.
pub enum Outcome {
    /// The copy is at this path.
    Stored(String),
    /// The file is not there, or could not be converted.
    Missing,
}

/// How far the rendering of an attachment came.
pub enum Piece<T> {
    /// The HTML that stands for the attachment.
    Html(T),
    /// No file can be shown; the name that the attachment was sent under.
    Lost(T),
    /// The file has to be transferred first.
    Wanted(Transfer<T>),
}

/// How far the rendering of a message came.
pub enum Flow<G, T> {
    /// What was rendered, and where to go on.
    Go(G),
    /// The rendering failed, for this reason.
    Failed(T),
    /// A file has to be transferred first.
    Wanted(Transfer<T>),
}

impl View for Transfer<String> {
    type V = Transfer<Seq<char>>;

    open spec fn view(&self) -> Transfer<Seq<char>> {
        Transfer { source: self.source@, extension: self.extension@, convert: self.convert }
    }
}

impl View for Piece<String> {
    type V = Piece<Seq<char>>;

    open spec fn view(&self) -> Piece<Seq<char>> {
        match self {
            Piece::Html(html) => Piece::Html(html@),
            Piece::Lost(name) => Piece::Lost(name@),
            Piece::Wanted(transfer) => Piece::Wanted(transfer@),
        }
    }
}

impl View for Flow<(String, usize), String> {
    type V = Flow<(Seq<char>, nat), Seq<char>>;

    open spec fn view(&self) -> Flow<(Seq<char>, nat), Seq<char>> {
        match self {
            Flow::Go((html, used)) => Flow::Go((html@, *used as nat)),
            Flow::Failed(why) => Flow::Failed(why@),
            Flow::Wanted(transfer) => Flow::Wanted(transfer@),
        }
    }
}

impl View for Flow<(String, usize, usize), String> {
    type V = Flow<(Seq<char>, nat, nat), Seq<char>>;

    open spec fn view(&self) -> Flow<(Seq<char>, nat, nat), Seq<char>> {
        match self {
            Flow::Go((html, next, used)) => Flow::Go((html@, *next as nat, *used as nat)),
            Flow::Failed(why) => Flow::Failed(why@),
            Flow::Wanted(transfer) => Flow::Wanted(transfer@),
        }
    }
}

/// `path`, with the home directory in the place of `~` where `path` is below `~`.
pub open spec fn resolved_path(path: Seq<char>, home: Seq<char>) -> Seq<char> {
    if is_below(path, "~"@) {
        replaced(path, "~"@, home)
    } else {
        path
    }
}

/// Whether a file with this extension is converted, not copied.
pub open spec fn is_heic(extension: Seq<char>) -> bool {
    extension == "heic"@ || extension == "HEIC"@
}

/// The HTML that shows the file at `path`, which holds an attachment of the given type and name.
pub open spec fn media_html(
    media_type: MediaType<Seq<char>>,
    transfer_name: Seq<char>,
    path: Seq<char>,
) -> Seq<char> {
    match media_type {
        MediaType::Image(_) => "<img src=\""@ + path + "\" loading=\"lazy\">"@,
        MediaType::Video(media_type) => "<video controls> <source src=\""@ + path + "\" type=\""@
            + media_type + "\"> </video>"@,
        MediaType::Audio(media_type) => "<audio controls src=\""@ + path + "\" type=\""@
            + media_type + "\" </audio>"@,
        MediaType::Text(_) => "<a href=\"file://"@ + path + "\">Click to download "@
            + transfer_name + "</a>"@,
        MediaType::Application(_) => "<a href=\"file://"@ + path + "\">Click to download "@
            + transfer_name + "</a>"@,
        MediaType::Unknown => "<p>Unknown attachment type: "@ + path + "</p>"@,
        MediaType::Other(media_type) => "<p>Unable to embed "@ + media_type + " attachments: "@
            + path + "</p>"@,
    }
}

/// The transfer that shows a file with this extension, stored at `path`.
pub open spec fn transfer_of(path: Seq<char>, extension: Seq<char>) -> Transfer<Seq<char>> {
    Transfer {
        source: path,
        extension: if is_heic(extension) {
            "jpg"@
        } else {
            extension
        },
        convert: is_heic(extension),
    }
}

/// How far an attachment is rendered when the outcomes from number `used` on are those of the
/// transfers still to come; and the number of the next outcome.
pub open spec fn attachment_piece(
    config: Config,
    attachment: Attachment,
    outcomes: Seq<Outcome>,
    used: nat,
) -> (Piece<Seq<char>>, nat) {
    let name = attachment.transfer_name@;
    let media_type = attachment.media_type@;
    match (attachment.filename, attachment.extension) {
        (None, _) => (Piece::Lost(name), used),
        (Some(path), extension) => {
            let path = resolved_path(path@, config.home@);
            if config.no_copy {
                let shown = match attachment.copied_path {
                    Some(copied) => copied@,
                    None => path,
                };
                (Piece::Html(media_html(media_type, name, shown)), used)
            } else {
                match extension {
                    None => (Piece::Lost(name), used),
                    Some(extension) => if used >= outcomes.len() {
                        (Piece::Wanted(transfer_of(path, extension@)), used)
                    } else {
                        match outcomes[used as int] {
                            Outcome::Stored(copied) => (
                                Piece::Html(media_html(media_type, name, copied@)),
                                used + 1,
                            ),
                            Outcome::Missing => if is_heic(extension@) {
                                (
                                    Piece::Html("Unable to convert and display file: "@ + name),
                                    used + 1,
                                )
                            } else {
                                (Piece::Lost(name), used + 1)
                            },
                        }
                    },
                }
            }
        },
    }
}

/// Where an attachment is known to have been copied to once it was rendered.
pub open spec fn copied_path_after(
    config: Config,
    attachment: Attachment,
    outcomes: Seq<Outcome>,
    used: nat,
) -> Option<Seq<char>> {
    if !config.no_copy && attachment.filename is Some && attachment.extension is Some && used
        < outcomes.len() && outcomes[used as int] is Stored {
        Some(outcomes[used as int]->Stored_0@)
    } else {
        optional(attachment.copied_path)
    }
}

/// Whether `after` is `before` but for where it is known to have been copied to.
pub open spec fn is_copied(
    before: Attachment,
    after: Attachment,
    copied: Option<Seq<char>>,
) -> bool {
    &&& after.filename == before.filename && after.extension == before.extension
    &&& after.media_type == before.media_type && after.transfer_name == before.transfer_name
    &&& optional(after.copied_path) == copied
}

/// Whether two lists of attachments are rendered alike: they differ only in where the attachments
/// are known to have been copied to, which matters only where attachments are linked.
pub open spec fn are_alike(config: Config, a: Seq<Attachment>, b: Seq<Attachment>) -> bool {
    &&& a.len() == b.len()
    &&& forall|i: int|
        0 <= i < a.len() ==> is_copied(#[trigger] a[i], b[i], optional(b[i].copied_path)) && (
        config.no_copy ==> optional(a[i].copied_path) == optional(b[i].copied_path))
}

/// Puts the home directory in the place of `~` where `path` is below `~`.
pub fn resolve_path(path: &str, home: &str) -> (resolved: String)
    ensures
        resolved@ == resolved_path(path@, home@),
{
    proof {
        reveal_strlit("~");
        reveal_strlit(".");
        reveal_strlit("..");
        assert("~"@[0] == '~' && "."@[0] == '.');
        assert(is_name("~"@));
    }
    if starts_with_path(path, "~") {
        replace(path, "~", home)
    } else {
        path.to_owned()
    }
}

/// The HTML that shows the file at `path`, which holds an attachment of the given type and name.
pub fn format_media(
    media_type: &MediaType<String>,
    transfer_name: &str,
    path: &str,
) -> (html: String)
    ensures
        html@ == media_html(media_type@, transfer_name@, path@),
{
    match media_type {
        MediaType::Image(_) => enclosed("<img src=\"", path, "\" loading=\"lazy\">"),
        MediaType::Video(media_type) => enclosed(
            "<video controls> <source src=\"",
            path,
            "\" type=\"",
        ).concat(media_type.as_str()).concat("\"> </video>"),
        MediaType::Audio(media_type) => enclosed(
            "<audio controls src=\"",
            path,
            "\" type=\"",
        ).concat(media_type.as_str()).concat("\" </audio>"),
        MediaType::Text(_) => enclosed(
            "<a href=\"file://",
            path,
            "\">Click to download ",
        ).concat(transfer_name).concat("</a>"),
        MediaType::Application(_) => enclosed(
            "<a href=\"file://",
            path,
            "\">Click to download ",
        ).concat(transfer_name).concat("</a>"),
        MediaType::Unknown => enclosed("<p>Unknown attachment type: ", path, "</p>"),
        MediaType::Other(media_type) => enclosed(
            "<p>Unable to embed ",
            media_type.as_str(),
            " attachments: ",
        ).concat(path).concat("</p>"),
    }
}

impl Attachment {
    /// A second row that says the same.
    pub fn duplicate(&self) -> (copy: Attachment)
        ensures
            copy == *self,
    {
        Attachment {
            filename: same_option(&self.filename),
            extension: same_option(&self.extension),
            media_type: match &self.media_type {
                MediaType::Image(name) => MediaType::Image(name.clone()),
                MediaType::Video(name) => MediaType::Video(name.clone()),
                MediaType::Audio(name) => MediaType::Audio(name.clone()),
                MediaType::Text(name) => MediaType::Text(name.clone()),
                MediaType::Application(name) => MediaType::Application(name.clone()),
                MediaType::Other(name) => MediaType::Other(name.clone()),
                MediaType::Unknown => MediaType::Unknown,
            },
            transfer_name: self.transfer_name.clone(),
            copied_path: same_option(&self.copied_path),
        }
    }
}

/// Second rows that say the same.
pub fn duplicate_all(attachments: &Vec<Attachment>) -> (copies: Vec<Attachment>)
    ensures
        copies@ == attachments@,
{
    let mut copies: Vec<Attachment> = Vec::new();
    let mut at: usize = 0;
    while at < attachments.len()
        invariant
            at <= attachments.len(),
            copies@ == attachments@.take(at as int),
        decreases attachments.len() - at,
    {
        copies.push(attachments[at].duplicate());
        at = at + 1;
        assert(copies@ == attachments@.take(at as int));
    }
    assert(attachments@.take(at as int) == attachments@);
    copies
}

impl<'a> HTML<'a> {
    /// Renders an attachment, as far as the outcomes from number `used` on allow; also returns the
    /// number of the next outcome.
    ///
    /// Unless attachments are linked where they are, a transfer is wanted of each attachment that
    /// has a file name with an extension. A file that could not be copied is lost; one that could
    /// not be converted is shown as a note.
    pub fn format_attachment(
        &self,
        attachment: &mut Attachment,
        outcomes: &Vec<Outcome>,
        used: usize,
    ) -> (result: (Piece<String>, usize))
        requires
            used <= outcomes.len(),
        ensures
            (result.0@, result.1 as nat) == attachment_piece(
                *self.config,
                *old(attachment),
                outcomes@,
                used as nat,
            ),
            is_copied(
                *old(attachment),
                *final(attachment),
                copied_path_after(*self.config, *old(attachment), outcomes@, used as nat),
            ),
    {
        let path: String = match &attachment.filename {
            Some(path) => resolve_path(path.as_str(), self.config.home.as_str()),
            None => {
                return (Piece::Lost(attachment.transfer_name.clone()), used);
            },
        };
        if self.config.no_copy {
            let shown: &str = match &attachment.copied_path {
                Some(copied) => copied.as_str(),
                None => path.as_str(),
            };
            let html = format_media(
                &attachment.media_type,
                attachment.transfer_name.as_str(),
                shown,
            );
            return (Piece::Html(html), used);
        }
        let (extension, convert) = match &attachment.extension {
            Some(extension) => if same_text(extension.as_str(), "heic") || same_text(
                extension.as_str(),
                "HEIC",
            ) {
                ("jpg".to_owned(), true)
            } else {
                (extension.clone(), false)
            },
            None => {
                return (Piece::Lost(attachment.transfer_name.clone()), used);
            },
        };
        if used == outcomes.len() {
            return (Piece::Wanted(Transfer { source: path, extension, convert }), used);
        }
        match &outcomes[used] {
            Outcome::Stored(copied) => {
                attachment.copied_path = Some(copied.clone());
                let html = format_media(
                    &attachment.media_type,
                    attachment.transfer_name.as_str(),
                    copied.as_str(),
                );
                (Piece::Html(html), used + 1)
            },
            Outcome::Missing => {
                let name = attachment.transfer_name.as_str();
                if convert {
                    let note = "Unable to convert and display file: ".to_owned().concat(name);
                    (Piece::Html(note), used + 1)
                } else {
                    (Piece::Lost(name.to_owned()), used + 1)
                }
            },
        }
    }
}

} // verus!
