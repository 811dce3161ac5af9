//! What a page shows of attachments: the copy that was made of a file, or the file where it is.

use vstd::prelude::*;

#[allow(unused_imports)]
use crate::attachments::{
    attachment_piece, copied_path_after, media_html, resolved_path, Outcome, Piece,
};
#[allow(unused_imports)]
use crate::excerpts::{holds, is_made_of, joined, lemma_made_holds, stands_at};
#[allow(unused_imports)]
use crate::html::Config;
#[allow(unused_imports)]
use crate::notes::law_what_does_not_occur_is_not_exchanged;
#[allow(unused_imports)]
use crate::paths::{is_below, parts_path};
#[allow(unused_imports)]
use crate::tables::{Attachment, MediaType};
#[allow(unused_imports)]
use crate::text::{begins_with, replaced};

verus! {

/// A file is shown by its path, whatever its type; with the type where it is played, and with its
/// name where it is offered for download.
pub proof fn law_files_are_shown_by_their_path(
    media_type: MediaType<Seq<char>>,
    name: Seq<char>,
    path: Seq<char>,
)
    ensures
        ({
            let html = media_html(media_type, name, path);
            match media_type {
                MediaType::Image(_) => is_made_of(
                    html,
                    seq!["<img"@, " src=\""@ + path + "\""@, " loading=\"lazy\">"@],
                ),
                MediaType::Video(kind) => is_made_of(
                    html,
                    seq![
                        "<video controls> <source"@,
                        " src=\""@ + path + "\""@,
                        " type=\""@ + kind + "\""@,
                        "> </video>"@,
                    ],
                ),
                MediaType::Audio(kind) => is_made_of(
                    html,
                    seq![
                        "<audio controls"@,
                        " src=\""@ + path + "\""@,
                        " type=\""@ + kind + "\""@,
                        " </audio>"@,
                    ],
                ),
                MediaType::Text(_) => is_made_of(
                    html,
                    seq![
                        "<a href=\"file://"@ + path + "\">"@,
                        "Click to download "@ + name,
                        "</a>"@,
                    ],
                ),
                MediaType::Application(_) => is_made_of(
                    html,
                    seq![
                        "<a href=\"file://"@ + path + "\">"@,
                        "Click to download "@ + name,
                        "</a>"@,
                    ],
                ),
                MediaType::Other(kind) => is_made_of(
                    html,
                    seq!["<p>Unable to embed "@ + kind, " attachments: "@ + path, "</p>"@],
                ),
                MediaType::Unknown => is_made_of(
                    html,
                    seq!["<p>Unknown attachment type: "@ + path, "</p>"@],
                ),
            }
        }),
{
    reveal_strlit("<img");
    reveal_strlit(" src=\"");
    reveal_strlit("\"");
    reveal_strlit(" loading=\"lazy\">");
    reveal_strlit("<img src=\"");
    reveal_strlit("\" loading=\"lazy\">");
    reveal_strlit("<video controls> <source");
    reveal_strlit("<video controls> <source src=\"");
    reveal_strlit(" type=\"");
    reveal_strlit("\" type=\"");
    reveal_strlit("> </video>");
    reveal_strlit("\"> </video>");
    reveal_strlit("<audio controls");
    reveal_strlit("<audio controls src=\"");
    reveal_strlit(" </audio>");
    reveal_strlit("\" </audio>");
    reveal_strlit("\">");
    reveal_strlit("Click to download ");
    reveal_strlit("\">Click to download ");
    reveal_strlit("<p>Unable to embed ");
    reveal_with_fuel(joined, 5);
    let html = media_html(media_type, name, path);
    let link = seq![
        "<a href=\"file://"@ + path + "\">"@,
        "Click to download "@ + name,
        "</a>"@,
    ];
    match media_type {
        MediaType::Image(_) => {
            let pieces = seq!["<img"@, " src=\""@ + path + "\""@, " loading=\"lazy\">"@];
            assert(pieces.skip(1).skip(1).skip(1).len() == 0);
            assert(html == joined(pieces));
        },
        MediaType::Video(kind) => {
            let pieces = seq![
                "<video controls> <source"@,
                " src=\""@ + path + "\""@,
                " type=\""@ + kind + "\""@,
                "> </video>"@,
            ];
            assert(pieces.skip(1).skip(1).skip(1).skip(1).len() == 0);
            assert(html == joined(pieces));
        },
        MediaType::Audio(kind) => {
            let pieces = seq![
                "<audio controls"@,
                " src=\""@ + path + "\""@,
                " type=\""@ + kind + "\""@,
                " </audio>"@,
            ];
            assert(pieces.skip(1).skip(1).skip(1).skip(1).len() == 0);
            assert(html == joined(pieces));
        },
        MediaType::Text(_) => {
            assert(link.skip(1).skip(1).skip(1).len() == 0);
            assert(html == joined(link));
        },
        MediaType::Application(_) => {
            assert(link.skip(1).skip(1).skip(1).len() == 0);
            assert(html == joined(link));
        },
        MediaType::Other(kind) => {
            let pieces = seq!["<p>Unable to embed "@ + kind, " attachments: "@ + path, "</p>"@];
            assert(pieces.skip(1).skip(1).skip(1).len() == 0);
            assert(html == joined(pieces));
        },
        MediaType::Unknown => {
            let pieces = seq!["<p>Unknown attachment type: "@ + path, "</p>"@];
            assert(pieces.skip(1).skip(1).len() == 0);
            assert(html == joined(pieces));
        },
    }
}

/// Whether `html` shows the file at `path`: as the source of what is embedded, as the target of a
/// link, or else by name.
pub open spec fn shows(html: Seq<char>, media_type: MediaType<Seq<char>>, path: Seq<char>) -> bool {
    match media_type {
        MediaType::Image(_) => holds(html, " src=\""@ + path + "\""@),
        MediaType::Video(_) => holds(html, " src=\""@ + path + "\""@),
        MediaType::Audio(_) => holds(html, " src=\""@ + path + "\""@),
        MediaType::Text(_) => holds(html, "<a href=\"file://"@ + path + "\">"@),
        MediaType::Application(_) => holds(html, "<a href=\"file://"@ + path + "\">"@),
        MediaType::Other(_) => holds(html, " attachments: "@ + path),
        MediaType::Unknown => holds(html, "<p>Unknown attachment type: "@ + path),
    }
}

proof fn lemma_shown(media_type: MediaType<Seq<char>>, name: Seq<char>, path: Seq<char>)
    ensures
        shows(media_html(media_type, name, path), media_type, path),
{
    law_files_are_shown_by_their_path(media_type, name, path);
    let html = media_html(media_type, name, path);
    let link = seq![
        "<a href=\"file://"@ + path + "\">"@,
        "Click to download "@ + name,
        "</a>"@,
    ];
    match media_type {
        MediaType::Image(_) => {
            let pieces = seq!["<img"@, " src=\""@ + path + "\""@, " loading=\"lazy\">"@];
            lemma_made_holds(html, pieces, 1);
        },
        MediaType::Video(kind) => {
            let pieces = seq![
                "<video controls> <source"@,
                " src=\""@ + path + "\""@,
                " type=\""@ + kind + "\""@,
                "> </video>"@,
            ];
            lemma_made_holds(html, pieces, 1);
        },
        MediaType::Audio(kind) => {
            let pieces = seq![
                "<audio controls"@,
                " src=\""@ + path + "\""@,
                " type=\""@ + kind + "\""@,
                " </audio>"@,
            ];
            lemma_made_holds(html, pieces, 1);
        },
        MediaType::Text(_) => {
            lemma_made_holds(html, link, 0);
        },
        MediaType::Application(_) => {
            lemma_made_holds(html, link, 0);
        },
        MediaType::Other(kind) => {
            let pieces = seq!["<p>Unable to embed "@ + kind, " attachments: "@ + path, "</p>"@];
            lemma_made_holds(html, pieces, 1);
        },
        MediaType::Unknown => {
            let pieces = seq!["<p>Unknown attachment type: "@ + path, "</p>"@];
            lemma_made_holds(html, pieces, 0);
        },
    }
}

/// Once an attachment was copied, the copy is what is shown, whatever the type of the attachment is
/// and wherever its own file is.
pub proof fn law_copies_are_shown(
    config: Config,
    attachment: Attachment,
    outcomes: Seq<Outcome>,
    used: nat,
)
    requires
        !config.no_copy,
        attachment.filename is Some,
        attachment.extension is Some,
        used < outcomes.len(),
        outcomes[used as int] is Stored,
    ensures
        ({
            let copied = outcomes[used as int]->Stored_0@;
            let (piece, after) = attachment_piece(config, attachment, outcomes, used);
            &&& after == used + 1
            &&& copied_path_after(config, attachment, outcomes, used) == Some(copied)
            &&& piece matches Piece::Html(html) && shows(html, attachment.media_type@, copied)
                && html == media_html(attachment.media_type@, attachment.transfer_name@, copied)
        }),
{
    let copied = outcomes[used as int]->Stored_0@;
    lemma_shown(attachment.media_type@, attachment.transfer_name@, copied);
}

/// What is shown of attachments that were copied does not depend on where their own files are.
pub proof fn law_copies_hide_the_original(
    config: Config,
    first: Attachment,
    second: Attachment,
    outcomes: Seq<Outcome>,
    used: nat,
)
    requires
        !config.no_copy,
        first.filename is Some && first.extension is Some,
        second.filename is Some && second.extension is Some,
        first.media_type@ == second.media_type@,
        first.transfer_name@ == second.transfer_name@,
        used < outcomes.len(),
        outcomes[used as int] is Stored,
    ensures
        attachment_piece(config, first, outcomes, used) == attachment_piece(
            config,
            second,
            outcomes,
            used,
        ),
{
}

/// An attachment that is linked is shown as a copy at its own path would be, or at the path of the
/// copy that is known of it; and nothing is transferred.
pub proof fn law_links_look_like_copies(
    linking: Config,
    copying: Config,
    attachment: Attachment,
    stored: String,
    outcomes: Seq<Outcome>,
    used: nat,
)
    requires
        linking.no_copy,
        !copying.no_copy,
        attachment.filename is Some,
        attachment.extension is Some,
        used < outcomes.len(),
        outcomes[used as int] == Outcome::Stored(stored),
        stored@ == (match attachment.copied_path {
            Some(copied) => copied@,
            None => resolved_path(attachment.filename->0@, linking.home@),
        }),
    ensures
        attachment_piece(linking, attachment, outcomes, used).0 == attachment_piece(
            copying,
            attachment,
            outcomes,
            used,
        ).0,
        attachment_piece(linking, attachment, outcomes, used).1 == used,
        copied_path_after(linking, attachment, outcomes, used) == (match attachment.copied_path {
            Some(copied) => Some(copied@),
            None => None,
        }),
{
}

/// An attachment that is linked is shown wherever it has a file name, also one without an
/// extension.
pub proof fn law_linked_files_are_shown_where_they_are(
    config: Config,
    attachment: Attachment,
    outcomes: Seq<Outcome>,
    used: nat,
)
    requires
        config.no_copy,
        attachment.filename is Some,
    ensures
        ({
            let path = match attachment.copied_path {
                Some(copied) => copied@,
                None => resolved_path(attachment.filename->0@, config.home@),
            };
            attachment_piece(config, attachment, outcomes, used) matches (Piece::Html(html), after)
                && after == used && shows(html, attachment.media_type@, path) && html
                == media_html(attachment.media_type@, attachment.transfer_name@, path)
        }),
{
    lemma_shown(
        attachment.media_type@,
        attachment.transfer_name@,
        match attachment.copied_path {
            Some(copied) => copied@,
            None => resolved_path(attachment.filename->0@, config.home@),
        },
    );
}

/// An attachment is lost only where it has no file name, or where it is to be copied and has no
/// extension or its file is not there. What is lost goes by the name that it was sent under.
pub proof fn law_attachments_are_lost_without_a_file(
    config: Config,
    attachment: Attachment,
    outcomes: Seq<Outcome>,
    used: nat,
)
    ensures
        ({
            let (piece, after) = attachment_piece(config, attachment, outcomes, used);
            let absent = {
                &&& attachment.filename is Some && attachment.extension is Some
                &&& !config.no_copy
                &&& used < outcomes.len() && outcomes[used as int] is Missing
                &&& attachment.extension->0@ != "heic"@ && attachment.extension->0@ != "HEIC"@
            };
            &&& piece is Lost <==> attachment.filename is None || (!config.no_copy
                && attachment.extension is None) || absent
            &&& piece matches Piece::Lost(name) ==> name == attachment.transfer_name@
            &&& piece is Lost ==> after == (if absent {
                used + 1
            } else {
                used
            })
        }),
{
}

/// A transfer is waited for where an attachment is to be copied, can be, and what came of it is not
/// known. It is that of the file with the home directory in the place of `~`; a HEIC picture
/// becomes a JPEG, and any other file keeps its extension.
pub proof fn law_transfers_are_of_the_file(
    config: Config,
    attachment: Attachment,
    outcomes: Seq<Outcome>,
    used: nat,
)
    ensures
        ({
            let (piece, after) = attachment_piece(config, attachment, outcomes, used);
            let heic = attachment.extension is Some && (attachment.extension->0@ == "heic"@
                || attachment.extension->0@ == "HEIC"@);
            &&& piece is Wanted <==> !config.no_copy && attachment.filename is Some
                && attachment.extension is Some && used >= outcomes.len()
            &&& piece matches Piece::Wanted(transfer) ==> {
                &&& after == used
                &&& transfer.source == resolved_path(attachment.filename->0@, config.home@)
                &&& transfer.convert == heic
                &&& heic ==> transfer.extension == "jpg"@
                &&& !heic ==> transfer.extension == attachment.extension->0@
            }
        }),
{
}

/// A path below `~` is one below the home directory, and `~` stands for that directory wherever it
/// occurs in such a path. A path that does not begin with `~`, and one that begins with a longer
/// name, stays as it is.
pub proof fn law_the_home_directory_stands_for_the_tilde(
    rest: Seq<char>,
    separator: char,
    other: Seq<char>,
    home: Seq<char>,
)
    requires
        parts_path(separator),
        other.len() == 0 || other[0] != '~' || (other.len() > 1 && !parts_path(other[1])),
    ensures
        resolved_path(seq!['~'], home) == home,
        resolved_path(seq!['~', separator] + rest, home) == home + seq![separator] + replaced(
            rest,
            "~"@,
            home,
        ),
        !rest.contains('~') ==> replaced(rest, "~"@, home) == rest,
        resolved_path(other, home) == other,
{
    reveal_strlit("~");
    let tilde = "~"@;
    assert(tilde == seq!['~']);
    let none = Seq::<char>::empty();
    assert(tilde.take(1) == tilde);
    assert(tilde.skip(1) == none);
    assert(replaced(tilde, tilde, home) == home + replaced(none, tilde, home));
    assert(home + none == home);
    let path = seq!['~', separator] + rest;
    let below = seq![separator] + rest;
    assert(path.take(1) == tilde);
    assert(path.skip(1) == below);
    assert(path[1] == separator);
    assert(below.take(1)[0] == separator);
    assert(below.skip(1) == rest);
    assert(replaced(below, tilde, home) == seq![separator] + replaced(rest, tilde, home));
    assert(home + (seq![separator] + replaced(rest, tilde, home)) == home + seq![separator]
        + replaced(rest, tilde, home));
    if !rest.contains('~') {
        assert(!holds(rest, tilde)) by {
            if holds(rest, tilde) {
                let at = choose|at: int| #[trigger] stands_at(rest, tilde, at);
                assert(rest.subrange(at, at + 1)[0] == rest[at]);
            }
        }
        law_what_does_not_occur_is_not_exchanged(rest, tilde, home);
    }
    assert(!is_below(other, tilde)) by {
        if other == tilde {
            assert(other[0] == '~');
        }
        if begins_with(other, tilde) {
            assert(other.take(1)[0] == other[0]);
        }
    }
}

/// Only a copy that was made while the attachment was rendered makes its path known; else what is
/// known of copies stays.
pub proof fn law_only_copies_become_known(
    config: Config,
    attachment: Attachment,
    outcomes: Seq<Outcome>,
    used: nat,
)
    ensures
        ({
            let (_, after) = attachment_piece(config, attachment, outcomes, used);
            let known = copied_path_after(config, attachment, outcomes, used);
            if after == used + 1 && outcomes[used as int] is Stored {
                known == Some(outcomes[used as int]->Stored_0@)
            } else {
                known == (match attachment.copied_path {
                    Some(path) => Some(path@),
                    None => None,
                })
            }
        }),
{
}

} // verus!
