//! What a page shows of app messages: every text that a balloon has, its picture, and the name of
//! the app.

use vstd::prelude::*;

#[allow(unused_imports)]
use crate::apps::{app_bubble, is_after_app};
#[allow(unused_imports)]
use crate::attachments::{attachment_piece, Outcome, Piece, Transfer};
#[allow(unused_imports)]
use crate::balloons::{
    app_footer, app_header, app_picture, balloon_html, balloon_result, error_text, framed_html,
    image_html, images_html, url_footer, url_html, AppMessage, Bubble, URLMessage,
};
#[allow(unused_imports)]
use crate::excerpts::{
    between, holds, is_made_of, joined, lemma_holds, lemma_holds_through, lemma_made_holds,
    lemma_six,
};
#[allow(unused_imports)]
use crate::html::Config;
#[allow(unused_imports)]
use crate::records::Record;
#[allow(unused_imports)]
use crate::tables::{Attachment, CustomBalloon};
#[allow(unused_imports)]
use crate::text::optional;

verus! {

/// The footer of a balloon is there where the balloon has one of the four texts that it shows, and
/// it shows each of them that the balloon has, in their order.
pub proof fn law_footers_show_their_texts(balloon: AppMessage)
    ensures
        app_footer(balloon).len() == 0 <==> balloon.caption is None && balloon.subcaption is None
            && balloon.trailing_caption is None && balloon.trailing_subcaption is None,
        app_footer(balloon).len() > 0 ==> is_made_of(
            app_footer(balloon),
            seq![
                "<div class=\"app_footer\">"@,
                between("<div class=\"caption\">"@, balloon.caption, "</div>"@),
                between("<div class=\"subcaption\">"@, balloon.subcaption, "</div>"@),
                between("<div class=\"trailing_caption\">"@, balloon.trailing_caption, "</div>"@),
                between(
                    "<div class=\"trailing_subcaption\">"@,
                    balloon.trailing_subcaption,
                    "</div>"@,
                ),
                "</div>"@,
            ],
        ),
{
    reveal_strlit("</div>");
    let a = between("<div class=\"caption\">"@, balloon.caption, "</div>"@);
    let b = between("<div class=\"subcaption\">"@, balloon.subcaption, "</div>"@);
    let c = between("<div class=\"trailing_caption\">"@, balloon.trailing_caption, "</div>"@);
    let d = between(
        "<div class=\"trailing_subcaption\">"@,
        balloon.trailing_subcaption,
        "</div>"@,
    );
    let start = "<div class=\"app_footer\">"@;
    let end = "</div>"@;
    lemma_six(start, a, b, c, d, end);
}

/// The header of a balloon shows its picture, the name of the app, and each text above the footer
/// that the balloon has, in their order. The name that the balloon gives goes before that of the
/// bundle.
pub proof fn law_headers_show_their_texts(
    balloon: AppMessage,
    bundle_id: Seq<char>,
    picture: Seq<char>,
)
    ensures
        is_made_of(
            app_header(balloon, bundle_id, picture),
            seq![
                picture,
                "<div class=\"name\">"@ + (if balloon.app_name is Some {
                    balloon.app_name->0@
                } else {
                    bundle_id
                }),
                "</div>"@,
                between("<div class=\"image_title\">"@, balloon.title, "</div>"@),
                between("<div class=\"image_subtitle\">"@, balloon.subtitle, "</div>"@),
                between("<div class=\"ldtext\">"@, balloon.ldtext, "</div>"@),
            ],
        ),
{
    let label = if balloon.app_name is Some {
        balloon.app_name->0@
    } else {
        bundle_id
    };
    let name = "<div class=\"name\">"@ + label;
    let a = between("<div class=\"image_title\">"@, balloon.title, "</div>"@);
    let b = between("<div class=\"image_subtitle\">"@, balloon.subtitle, "</div>"@);
    let c = between("<div class=\"ldtext\">"@, balloon.ldtext, "</div>"@);
    lemma_six(picture, name, "</div>"@, a, b, c);
    assert(picture + "<div class=\"name\">"@ + label == picture + name);
}

proof fn lemma_framed(
    url: Option<String>,
    header: Seq<char>,
    footer: Seq<char>,
)
    ensures
        is_made_of(
            framed_html(url, header, footer),
            seq![
                between("<a href=\""@, url, "\">"@),
                "<div class=\"app_header\">"@,
                header,
                "</div>"@,
                footer,
                if url is Some {
                    "</a>"@
                } else {
                    Seq::empty()
                },
            ],
        ),
{
    let start = between("<a href=\""@, url, "\">"@);
    let end = if url is Some {
        "</a>"@
    } else {
        Seq::empty()
    };
    lemma_six(start, "<div class=\"app_header\">"@, header, "</div>"@, footer, end);
}

/// A balloon holds its header and its footer.
proof fn lemma_frame_holds(url: Option<String>, header: Seq<char>, footer: Seq<char>)
    ensures
        holds(framed_html(url, header, footer), header),
        holds(framed_html(url, header, footer), footer),
{
    lemma_framed(url, header, footer);
    let pieces = seq![
        between("<a href=\""@, url, "\">"@),
        "<div class=\"app_header\">"@,
        header,
        "</div>"@,
        footer,
        if url is Some {
            "</a>"@
        } else {
            Seq::empty()
        },
    ];
    lemma_made_holds(framed_html(url, header, footer), pieces, 2);
    lemma_made_holds(framed_html(url, header, footer), pieces, 4);
}

/// A balloon is a header and a footer, both of them a link where there is an address, and nothing
/// else.
pub proof fn law_balloons_are_header_and_footer(
    balloon: AppMessage,
    bundle_id: Seq<char>,
    picture: Seq<char>,
)
    ensures
        is_made_of(
            balloon_html(balloon, bundle_id, picture),
            seq![
                between("<a href=\""@, balloon.url, "\">"@),
                "<div class=\"app_header\">"@,
                app_header(balloon, bundle_id, picture),
                "</div>"@,
                app_footer(balloon),
                if balloon.url is Some {
                    "</a>"@
                } else {
                    Seq::empty()
                },
            ],
        ),
{
    lemma_framed(balloon.url, app_header(balloon, bundle_id, picture), app_footer(balloon));
}

/// A link preview is its images and a footer, both of them a link where there is an address, and
/// nothing else.
pub proof fn law_link_previews_are_images_and_footer(balloon: URLMessage)
    ensures
        is_made_of(
            url_html(balloon),
            seq![
                between("<a href=\""@, balloon.url, "\">"@),
                "<div class=\"app_header\">"@,
                images_html(balloon.images@),
                "</div>"@,
                url_footer(balloon),
                if balloon.url is Some {
                    "</a>"@
                } else {
                    Seq::empty()
                },
            ],
        ),
{
    lemma_framed(balloon.url, images_html(balloon.images@), url_footer(balloon));
}

/// Each text that a balloon has is shown, whatever else the balloon has; and so are its picture and
/// the name of the app.
pub proof fn law_every_text_of_a_balloon_is_shown(
    balloon: AppMessage,
    bundle_id: Seq<char>,
    picture: Seq<char>,
)
    ensures
        ({
            let html = balloon_html(balloon, bundle_id, picture);
            &&& holds(html, picture)
            &&& holds(
                html,
                "<div class=\"name\">"@ + (match balloon.app_name {
                    Some(name) => name@,
                    None => bundle_id,
                }),
            )
            &&& balloon.title matches Some(text) ==> holds(
                html,
                "<div class=\"image_title\">"@ + text@ + "</div>"@,
            )
            &&& balloon.subtitle matches Some(text) ==> holds(
                html,
                "<div class=\"image_subtitle\">"@ + text@ + "</div>"@,
            )
            &&& balloon.ldtext matches Some(text) ==> holds(
                html,
                "<div class=\"ldtext\">"@ + text@ + "</div>"@,
            )
            &&& balloon.caption matches Some(text) ==> holds(
                html,
                "<div class=\"caption\">"@ + text@ + "</div>"@,
            )
            &&& balloon.subcaption matches Some(text) ==> holds(
                html,
                "<div class=\"subcaption\">"@ + text@ + "</div>"@,
            )
            &&& balloon.trailing_caption matches Some(text) ==> holds(
                html,
                "<div class=\"trailing_caption\">"@ + text@ + "</div>"@,
            )
            &&& balloon.trailing_subcaption matches Some(text) ==> holds(
                html,
                "<div class=\"trailing_subcaption\">"@ + text@ + "</div>"@,
            )
        }),
{
    let html = balloon_html(balloon, bundle_id, picture);
    let header = app_header(balloon, bundle_id, picture);
    let footer = app_footer(balloon);
    lemma_frame_holds(balloon.url, header, footer);
    law_headers_show_their_texts(balloon, bundle_id, picture);
    law_footers_show_their_texts(balloon);
    let above = seq![
        picture,
        "<div class=\"name\">"@ + (if balloon.app_name is Some {
            balloon.app_name->0@
        } else {
            bundle_id
        }),
        "</div>"@,
        between("<div class=\"image_title\">"@, balloon.title, "</div>"@),
        between("<div class=\"image_subtitle\">"@, balloon.subtitle, "</div>"@),
        between("<div class=\"ldtext\">"@, balloon.ldtext, "</div>"@),
    ];
    assert forall|at: int| 0 <= at < above.len() implies holds(html, #[trigger] above[at]) by {
        lemma_made_holds(header, above, at);
        lemma_holds_through(html, header, above[at]);
    }
    assert(holds(html, above[0]) && holds(html, above[1]) && holds(html, above[3]) && holds(
        html,
        above[4],
    ) && holds(html, above[5]));
    if footer.len() > 0 {
        let below = seq![
            "<div class=\"app_footer\">"@,
            between("<div class=\"caption\">"@, balloon.caption, "</div>"@),
            between("<div class=\"subcaption\">"@, balloon.subcaption, "</div>"@),
            between("<div class=\"trailing_caption\">"@, balloon.trailing_caption, "</div>"@),
            between(
                "<div class=\"trailing_subcaption\">"@,
                balloon.trailing_subcaption,
                "</div>"@,
            ),
            "</div>"@,
        ];
        assert forall|at: int| 0 <= at < below.len() implies holds(html, #[trigger] below[at]) by {
            lemma_made_holds(footer, below, at);
            lemma_holds_through(html, footer, below[at]);
        }
        assert(holds(html, below[1]) && holds(html, below[2]) && holds(html, below[3]) && holds(
            html,
            below[4],
        ));
    }
}

/// The picture of a balloon is its own image where it has one; then no attachment is looked at.
/// Else the first attachment stands for it, as it would in the message; where that is lost or there
/// is none, nothing does.
pub proof fn law_balloons_have_one_picture(
    config: Config,
    balloon: AppMessage,
    attachments: Seq<Attachment>,
    outcomes: Seq<Outcome>,
    used: nat,
)
    ensures
        ({
            let (picture, after) = app_picture(config, balloon, attachments, outcomes, used);
            match balloon.image {
                Some(image) => after == used && picture == Ok::<Seq<char>, Transfer<Seq<char>>>(
                    "<img src=\""@ + image@ + "\">"@,
                ),
                None => if attachments.len() == 0 {
                    after == used && (picture matches Ok(html) && html.len() == 0)
                } else {
                    let (piece, then_used) = attachment_piece(
                        config,
                        attachments[0],
                        outcomes,
                        used,
                    );
                    after == then_used && match (piece, picture) {
                        (Piece::Html(html), Ok(shown)) => shown == html,
                        (Piece::Lost(_), Ok(shown)) => shown.len() == 0,
                        (Piece::Wanted(wanted), Err(transfer)) => wanted == transfer,
                        _ => false,
                    }
                },
            }
        }),
{
}

/// A balloon waits for nothing but its picture, and shows it.
pub proof fn law_balloons_wait_for_their_picture(
    config: Config,
    balloon: AppMessage,
    bundle_id: Seq<char>,
    attachments: Seq<Attachment>,
    outcomes: Seq<Outcome>,
    used: nat,
)
    ensures
        ({
            let (picture, after) = app_picture(config, balloon, attachments, outcomes, used);
            let (result, then_used) = balloon_result(
                config,
                balloon,
                bundle_id,
                attachments,
                outcomes,
                used,
            );
            &&& after == then_used
            &&& match (picture, result) {
                (Ok(picture), Ok(html)) => holds(html, picture) && html == balloon_html(
                    balloon,
                    bundle_id,
                    picture,
                ),
                (Err(transfer), Err(wanted)) => transfer == wanted,
                _ => false,
            }
        }),
{
    if let Ok(picture) = app_picture(config, balloon, attachments, outcomes, used).0 {
        law_every_text_of_a_balloon_is_shown(balloon, bundle_id, picture);
    }
}

/// The preview images of a link are shown one behind the other.
pub proof fn law_preview_images_add_up(first: Seq<String>, second: Seq<String>)
    ensures
        images_html(first + second) == images_html(first) + images_html(second),
    decreases second.len(),
{
    let both = first + second;
    if second.len() == 0 {
        assert(both == first);
        assert(images_html(first) + images_html(second) == images_html(first));
    } else {
        law_preview_images_add_up(first, second.drop_last());
        assert(both.drop_last() == first + second.drop_last());
        assert(both.last() == second.last());
        let last = image_html(second.last()@);
        let before = images_html(second.drop_last());
        assert(images_html(first) + before + last == images_html(first) + (before + last));
    }
}

/// A preview image is shown by its address, and is loaded when it is needed.
pub proof fn law_a_preview_image_is_shown_by_its_address(image: String)
    ensures
        images_html(seq![image]) == "<img src=\""@ + image@ + "\" loading=\"lazy\">"@,
{
    reveal_with_fuel(images_html, 2);
    assert(seq![image].drop_last() == Seq::<String>::empty());
    assert(seq![image].last() == image);
    assert(Seq::<char>::empty() + image_html(image@) == image_html(image@));
}

/// The footer of a link preview is there where the preview has a title or a summary, and shows each
/// of them that the preview has.
pub proof fn law_link_previews_show_their_texts(balloon: URLMessage)
    ensures
        url_footer(balloon).len() == 0 <==> balloon.title is None && balloon.summary is None,
        url_footer(balloon).len() > 0 ==> is_made_of(
            url_footer(balloon),
            seq![
                "<div class=\"app_footer\">"@,
                between("<div class=\"caption\">"@, balloon.title, "</div>"@),
                between("<div class=\"subcaption\"><xmp>"@, balloon.summary, "</xmp></div>"@),
                "</div>"@,
            ],
        ),
        balloon.title matches Some(text) ==> holds(
            url_html(balloon),
            "<div class=\"caption\">"@ + text@ + "</div>"@,
        ),
        balloon.summary matches Some(text) ==> holds(
            url_html(balloon),
            "<div class=\"subcaption\"><xmp>"@ + text@ + "</xmp></div>"@,
        ),
        holds(url_html(balloon), images_html(balloon.images@)),
{
    reveal_strlit("</div>");
    let start = "<div class=\"app_footer\">"@;
    let a = between("<div class=\"caption\">"@, balloon.title, "</div>"@);
    let b = between("<div class=\"subcaption\"><xmp>"@, balloon.summary, "</xmp></div>"@);
    let end = "</div>"@;
    let none = Seq::<char>::empty();
    let pieces = seq![start, a, b, end];
    reveal_with_fuel(joined, 5);
    assert(pieces.skip(1) == seq![a, b, end]);
    assert(seq![a, b, end].skip(1) == seq![b, end]);
    assert(seq![b, end].skip(1) == seq![end]);
    assert(seq![end].skip(1).len() == 0);
    assert(start + a + b + end == start + (a + (b + (end + none))));
    lemma_frame_holds(balloon.url, images_html(balloon.images@), url_footer(balloon));
    if url_footer(balloon).len() > 0 {
        lemma_made_holds(url_footer(balloon), pieces, 1);
        lemma_made_holds(url_footer(balloon), pieces, 2);
        lemma_holds_through(url_html(balloon), url_footer(balloon), a);
        lemma_holds_through(url_html(balloon), url_footer(balloon), b);
    }
}

/// Every preview image of a link is shown.
pub proof fn law_every_preview_image_is_shown(balloon: URLMessage, at: int)
    requires
        0 <= at < balloon.images@.len(),
    ensures
        holds(
            url_html(balloon),
            "<img src=\""@ + balloon.images@[at]@ + "\" loading=\"lazy\">"@,
        ),
{
    let images = balloon.images@;
    let one = seq![images[at]];
    let before = images.take(at);
    let behind = images.skip(at + 1);
    assert(images == before + one + behind);
    law_preview_images_add_up(before + one, behind);
    law_preview_images_add_up(before, one);
    law_a_preview_image_is_shown_by_its_address(images[at]);
    law_link_previews_show_their_texts(balloon);
    lemma_holds(images_html(before), images_html(one), images_html(behind));
    lemma_holds_through(url_html(balloon), images_html(images), images_html(one));
}

/// The balloon of an app that is known is that of any other app, under the name of the known one
/// and without attachments. A handwritten message says that it cannot be shown. None of them takes
/// an outcome.
pub proof fn law_known_apps_have_names(
    config: Config,
    record: Record,
    balloon: AppMessage,
    attachments: Seq<Attachment>,
    outcomes: Seq<Outcome>,
    used: nat,
)
    requires
        record.variant is App,
        !(record.variant->App_0 is URL) && !(record.variant->App_0 is Music),
        record.payload is Some,
        record.payload->0 is Ok,
        record.payload->0->Ok_0.app == Ok::<AppMessage, String>(balloon),
    ensures
        match record.variant->App_0 {
            CustomBalloon::Application(id) => {
                let (result, after) = balloon_result(
                    config,
                    balloon,
                    id@,
                    attachments,
                    outcomes,
                    used,
                );
                &&& app_bubble(config, record, attachments, outcomes, used).1 == after
                &&& match (result, app_bubble(config, record, attachments, outcomes, used).0) {
                    (Ok(html), Bubble::Html(shown)) => html == shown,
                    (Err(transfer), Bubble::Wanted(wanted)) => transfer == wanted,
                    _ => false,
                }
            },
            CustomBalloon::Handwriting => app_bubble(config, record, attachments, outcomes, used)
                == (
                Bubble::<Seq<char>>::Html("Handwritten messages are not yet supported!"@),
                used,
            ),
            kind => {
                let label = if kind is ApplePay {
                    "Apple Pay"@
                } else if kind is Fitness {
                    "Fitness"@
                } else {
                    "Slideshow"@
                };
                let (result, _) = balloon_result(
                    config,
                    balloon,
                    label,
                    Seq::empty(),
                    outcomes,
                    used,
                );
                &&& result matches Ok(html) && app_bubble(
                    config,
                    record,
                    attachments,
                    outcomes,
                    used,
                ) == (Bubble::<Seq<char>>::Html(html), used)
            },
        },
{
}

/// An app message without a balloon says why: it was not made with an app, it has no payload, its
/// references lead nowhere, or it holds no balloon. A link without a text does so too.
pub proof fn law_app_messages_say_why(
    config: Config,
    record: Record,
    attachments: Seq<Attachment>,
    outcomes: Seq<Outcome>,
    used: nat,
)
    ensures
        ({
            let (bubble, after) = app_bubble(config, record, attachments, outcomes, used);
            let link = record.variant is App && (record.variant->App_0 is URL
                || record.variant->App_0 is Music);
            &&& bubble is Error ==> after == used
            &&& !(record.variant is App) ==> (bubble matches Bubble::Error(why) && error_text(why)
                == "Message is not an app message!"@)
            &&& record.variant is App && record.payload is None && !link ==> (
            bubble matches Bubble::Error(why) && error_text(why)
                == "Unable to acquire payload data!"@)
            &&& link && record.payload is None && record.message.text is None ==> (
            bubble matches Bubble::Error(why) && error_text(why)
                == "Unable to acquire payload data!"@)
            &&& record.variant is App && (record.payload matches Some(Err(reason)) && true) ==> (
            bubble matches Bubble::Error(why) && error_text(why) == record.payload->0->Err_0@)
            &&& record.variant is App && !link && record.payload is Some && record.payload->0 is Ok
                && record.payload->0->Ok_0.app is Err ==> (bubble matches Bubble::Error(why)
                && error_text(why) == record.payload->0->Ok_0.app->Err_0@)
            &&& link && record.message.text is None && record.payload is Some
                && record.payload->0 is Ok && record.payload->0->Ok_0.url is Err ==> (
            bubble matches Bubble::Error(why) && error_text(why)
                == record.payload->0->Ok_0.url->Err_0@)
        }),
{
}

/// A link preview that can be read is shown, whether or not the link is one to music, and whatever
/// text the message has.
pub proof fn law_readable_links_are_shown(
    config: Config,
    record: Record,
    balloon: URLMessage,
    attachments: Seq<Attachment>,
    outcomes: Seq<Outcome>,
    used: nat,
)
    requires
        record.variant is App,
        record.variant->App_0 is URL || record.variant->App_0 is Music,
        record.payload is Some,
        record.payload->0 is Ok,
        record.payload->0->Ok_0.url == Ok::<URLMessage, String>(balloon),
    ensures
        app_bubble(config, record, attachments, outcomes, used) == (
            Bubble::<Seq<char>>::Html(url_html(balloon)),
            used,
        ),
{
}

/// Rendering the balloon of an app message changes no attachment but the first, and of that only
/// where it is known to have been copied to: the path that the outcome tells, where it stands for
/// the picture.
pub proof fn law_balloons_leave_attachments_as_they_are(
    config: Config,
    record: Record,
    before: Seq<Attachment>,
    after: Seq<Attachment>,
    outcomes: Seq<Outcome>,
    used: nat,
)
    requires
        is_after_app(config, record, before, after, outcomes, used),
    ensures
        after.len() == before.len(),
        forall|i: int| 0 < i < before.len() ==> #[trigger] after[i] == before[i],
        before.len() > 0 ==> {
            let told = used < outcomes.len() && outcomes[used as int] is Stored;
            &&& after[0].filename == before[0].filename
            &&& after[0].extension == before[0].extension
            &&& after[0].media_type == before[0].media_type
            &&& after[0].transfer_name == before[0].transfer_name
            &&& optional(after[0].copied_path) == optional(before[0].copied_path) || (told
                && !config.no_copy && after[0].copied_path is Some && after[0].copied_path->0@
                == outcomes[used as int]->Stored_0@)
        },
        app_bubble(config, record, before, outcomes, used).1 == used ==> before.len() == 0
            || optional(after[0].copied_path) == optional(before[0].copied_path),
{
    if before.len() > 0 {
        assert(after[0].filename == before[0].filename);
    }
}

} // verus!
