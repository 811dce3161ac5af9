//! App messages: the balloons that link previews and apps are shown in.

use vstd::prelude::*;

use crate::attachments::{Outcome, Piece, Transfer};
#[allow(unused_imports)]
use crate::attachments::{attachment_piece, copied_path_after, is_copied};
#[allow(unused_imports)]
use crate::html::{Config, HTML};
use crate::tables::Attachment;
#[allow(unused_imports)]
use crate::text::section;
use crate::text::{enclosed, push_section};

verus! {

/// A link preview.
pub struct URLMessage {
    pub title: Option<String>,
    pub summary: Option<String>,
    pub url: Option<String>,
    /// The addresses of the preview images.
    pub images: Vec<String>,
}

/// A balloon that an app made.
pub struct AppMessage {
    pub image: Option<String>,
    pub url: Option<String>,
    pub title: Option<String>,
    pub subtitle: Option<String>,
    pub caption: Option<String>,
    pub subcaption: Option<String>,
    pub trailing_caption: Option<String>,
    pub trailing_subcaption: Option<String>,
    pub app_name: Option<String>,
    pub ldtext: Option<String>,
}

/// A payload whose references were followed: as a link preview and as the balloon of an app, or
/// why it is not one.
pub struct Parsed {
    pub url: Result<URLMessage, String>,
    pub app: Result<AppMessage, String>,
}

/// Why an app message has no balloon.
pub enum PlistParseError<T> {
    /// The references of the payload lead nowhere, for this reason.
    Unresolved(T),
    /// The payload does not hold a balloon, for this reason.
    ParseError(T),
    /// There is no payload.
    NoPayload,
    /// The message was not made with an app.
    WrongMessageType,
}

/// How far the rendering of an app message came.
pub enum Bubble<T> {
    Html(T),
    Error(PlistParseError<T>),
    /// The picture of the balloon has to be transferred first.
    Wanted(Transfer<T>),
}

impl View for PlistParseError<String> {
    type V = PlistParseError<Seq<char>>;

    open spec fn view(&self) -> PlistParseError<Seq<char>> {
        match self {
            PlistParseError::Unresolved(why) => PlistParseError::Unresolved(why@),
            PlistParseError::ParseError(why) => PlistParseError::ParseError(why@),
            PlistParseError::NoPayload => PlistParseError::NoPayload,
            PlistParseError::WrongMessageType => PlistParseError::WrongMessageType,
        }
    }
}

impl View for Bubble<String> {
    type V = Bubble<Seq<char>>;

    open spec fn view(&self) -> Bubble<Seq<char>> {
        match self {
            Bubble::Html(html) => Bubble::Html(html@),
            Bubble::Error(error) => Bubble::Error(error@),
            Bubble::Wanted(transfer) => Bubble::Wanted(transfer@),
        }
    }
}

/// What is said of an error.
pub open spec fn error_text(error: PlistParseError<Seq<char>>) -> Seq<char> {
    match error {
        PlistParseError::Unresolved(why) => why,
        PlistParseError::ParseError(why) => why,
        PlistParseError::NoPayload => "Unable to acquire payload data!"@,
        PlistParseError::WrongMessageType => "Message is not an app message!"@,
    }
}

impl PlistParseError<String> {
    /// What is said of the error.
    pub fn text(&self) -> (text: String)
        ensures
            text@ == error_text(self@),
    {
        match self {
            PlistParseError::Unresolved(why) => why.clone(),
            PlistParseError::ParseError(why) => why.clone(),
            PlistParseError::NoPayload => "Unable to acquire payload data!".to_owned(),
            PlistParseError::WrongMessageType => "Message is not an app message!".to_owned(),
        }
    }
}

/// What opens the link that a balloon is.
pub open spec fn link_start(url: Option<String>) -> Seq<char> {
    section("<a href=\""@, url, "\">"@)
}

/// What closes the link that a balloon is.
pub open spec fn link_end(url: Option<String>) -> Seq<char> {
    if url is Some {
        "</a>"@
    } else {
        Seq::empty()
    }
}

/// A header and a footer, both of them a link where there is an address.
pub open spec fn framed_html(
    url: Option<String>,
    header: Seq<char>,
    footer: Seq<char>,
) -> Seq<char> {
    link_start(url) + "<div class=\"app_header\">"@ + header + "</div>"@ + footer + link_end(url)
}

/// The HTML that shows a preview image.
pub open spec fn image_html(image: Seq<char>) -> Seq<char> {
    "<img src=\""@ + image + "\" loading=\"lazy\">"@
}

/// The HTML that shows the preview images, in their order.
pub open spec fn images_html(images: Seq<String>) -> Seq<char>
    decreases images.len(),
{
    if images.len() == 0 {
        Seq::empty()
    } else {
        images_html(images.drop_last()) + image_html(images.last()@)
    }
}

/// The texts below the images of a link preview: nothing where there is none.
pub open spec fn url_footer(balloon: URLMessage) -> Seq<char> {
    if balloon.title is Some || balloon.summary is Some {
        "<div class=\"app_footer\">"@ + section(
            "<div class=\"caption\">"@,
            balloon.title,
            "</div>"@,
        ) + section("<div class=\"subcaption\"><xmp>"@, balloon.summary, "</xmp></div>"@)
            + "</div>"@
    } else {
        Seq::empty()
    }
}

/// The HTML of a link preview.
pub open spec fn url_html(balloon: URLMessage) -> Seq<char> {
    framed_html(balloon.url, images_html(balloon.images@), url_footer(balloon))
}

/// The HTML that shows the image of a balloon: nothing where it has none.
pub open spec fn own_picture(balloon: AppMessage) -> Seq<char> {
    section("<img src=\""@, balloon.image, "\">"@)
}

/// What stands for the picture of a balloon: its image, else the first attachment, else nothing.
/// An attachment that is lost stands for nothing.
pub open spec fn app_picture(
    config: Config,
    balloon: AppMessage,
    attachments: Seq<Attachment>,
    outcomes: Seq<Outcome>,
    used: nat,
) -> (Result<Seq<char>, Transfer<Seq<char>>>, nat) {
    if balloon.image is Some || attachments.len() == 0 {
        (Ok(own_picture(balloon)), used)
    } else {
        let (piece, used) = attachment_piece(config, attachments[0], outcomes, used);
        match piece {
            Piece::Html(html) => (Ok(html), used),
            Piece::Lost(_) => (Ok(Seq::empty()), used),
            Piece::Wanted(transfer) => (Err(transfer), used),
        }
    }
}

/// The name of the app that made a balloon.
pub open spec fn app_label(balloon: AppMessage, bundle_id: Seq<char>) -> Seq<char> {
    match balloon.app_name {
        Some(name) => name@,
        None => bundle_id,
    }
}

/// The texts below the header of a balloon: nothing where there is none.
pub open spec fn app_footer(balloon: AppMessage) -> Seq<char> {
    if balloon.caption is Some || balloon.subcaption is Some || balloon.trailing_caption is Some
        || balloon.trailing_subcaption is Some {
        "<div class=\"app_footer\">"@ + section(
            "<div class=\"caption\">"@,
            balloon.caption,
            "</div>"@,
        ) + section("<div class=\"subcaption\">"@, balloon.subcaption, "</div>"@) + section(
            "<div class=\"trailing_caption\">"@,
            balloon.trailing_caption,
            "</div>"@,
        ) + section(
            "<div class=\"trailing_subcaption\">"@,
            balloon.trailing_subcaption,
            "</div>"@,
        ) + "</div>"@
    } else {
        Seq::empty()
    }
}

/// The header of a balloon with the given picture.
pub open spec fn app_header(
    balloon: AppMessage,
    bundle_id: Seq<char>,
    picture: Seq<char>,
) -> Seq<char> {
    picture + "<div class=\"name\">"@ + app_label(balloon, bundle_id) + "</div>"@ + section(
        "<div class=\"image_title\">"@,
        balloon.title,
        "</div>"@,
    ) + section("<div class=\"image_subtitle\">"@, balloon.subtitle, "</div>"@) + section(
        "<div class=\"ldtext\">"@,
        balloon.ldtext,
        "</div>"@,
    )
}

/// The HTML of a balloon with the given picture.
pub open spec fn balloon_html(
    balloon: AppMessage,
    bundle_id: Seq<char>,
    picture: Seq<char>,
) -> Seq<char> {
    framed_html(balloon.url, app_header(balloon, bundle_id, picture), app_footer(balloon))
}

/// A balloon, once its picture is there.
pub open spec fn balloon_result(
    config: Config,
    balloon: AppMessage,
    bundle_id: Seq<char>,
    attachments: Seq<Attachment>,
    outcomes: Seq<Outcome>,
    used: nat,
) -> (Result<Seq<char>, Transfer<Seq<char>>>, nat) {
    let (picture, used) = app_picture(config, balloon, attachments, outcomes, used);
    match picture {
        Ok(picture) => (Ok(balloon_html(balloon, bundle_id, picture)), used),
        Err(transfer) => (Err(transfer), used),
    }
}

/// Whether rendering a balloon turns the attachments `before` into `after`: where the first one
/// stands for its picture, the path of its copy is known.
pub open spec fn is_after_balloon(
    config: Config,
    balloon: AppMessage,
    before: Seq<Attachment>,
    after: Seq<Attachment>,
    outcomes: Seq<Outcome>,
    used: nat,
) -> bool {
    if balloon.image is Some || before.len() == 0 {
        after == before
    } else {
        &&& after == before.update(0, after[0])
        &&& is_copied(
            before[0],
            after[0],
            copied_path_after(config, before[0], outcomes, used),
        )
    }
}

/// The view of the rendering of a balloon.
pub open spec fn result_view(result: Result<String, Transfer<String>>) -> Result<
    Seq<char>,
    Transfer<Seq<char>>,
> {
    match result {
        Ok(html) => Ok(html@),
        Err(transfer) => Err(transfer@),
    }
}

/// A header and a footer, both of them a link where there is an address.
fn framed(url: &Option<String>, header: &str, footer: &str) -> (html: String)
    ensures
        html@ == framed_html(*url, header@, footer@),
{
    let mut out = String::new();
    push_section(&mut out, "<a href=\"", url, "\">");
    assert(out@ == link_start(*url));
    out.append("<div class=\"app_header\">");
    out.append(header);
    out.append("</div>");
    out.append(footer);
    let ghost before = out@;
    if url.is_some() {
        out.append("</a>");
    }
    assert(before + Seq::<char>::empty() == before);
    out
}

/// The texts below the images of a link preview.
fn url_texts(balloon: &URLMessage) -> (html: String)
    ensures
        html@ == url_footer(*balloon),
{
    if balloon.title.is_none() && balloon.summary.is_none() {
        return String::new();
    }
    let mut out = "<div class=\"app_footer\">".to_owned();
    push_section(&mut out, "<div class=\"caption\">", &balloon.title, "</div>");
    push_section(
        &mut out,
        "<div class=\"subcaption\"><xmp>",
        &balloon.summary,
        "</xmp></div>",
    );
    out.append("</div>");
    out
}

/// The texts below the header of a balloon.
fn app_texts(balloon: &AppMessage) -> (html: String)
    ensures
        html@ == app_footer(*balloon),
{
    if balloon.caption.is_none() && balloon.subcaption.is_none()
        && balloon.trailing_caption.is_none() && balloon.trailing_subcaption.is_none() {
        return String::new();
    }
    let mut out = "<div class=\"app_footer\">".to_owned();
    push_section(&mut out, "<div class=\"caption\">", &balloon.caption, "</div>");
    push_section(&mut out, "<div class=\"subcaption\">", &balloon.subcaption, "</div>");
    push_section(
        &mut out,
        "<div class=\"trailing_caption\">",
        &balloon.trailing_caption,
        "</div>",
    );
    push_section(
        &mut out,
        "<div class=\"trailing_subcaption\">",
        &balloon.trailing_subcaption,
        "</div>",
    );
    out.append("</div>");
    out
}

/// The HTML of a balloon with the given picture.
fn balloon_around(balloon: &AppMessage, bundle_id: &str, picture: &str) -> (html: String)
    ensures
        html@ == balloon_html(*balloon, bundle_id@, picture@),
{
    let mut header = picture.to_owned();
    header.append("<div class=\"name\">");
    match &balloon.app_name {
        Some(name) => header.append(name.as_str()),
        None => header.append(bundle_id),
    }
    header.append("</div>");
    push_section(&mut header, "<div class=\"image_title\">", &balloon.title, "</div>");
    push_section(&mut header, "<div class=\"image_subtitle\">", &balloon.subtitle, "</div>");
    push_section(&mut header, "<div class=\"ldtext\">", &balloon.ldtext, "</div>");
    framed(&balloon.url, header.as_str(), app_texts(balloon).as_str())
}

/// The HTML of a balloon with no picture but its own image.
fn plain_balloon(balloon: &AppMessage, label: &str) -> (html: String)
    ensures
        html@ == balloon_html(*balloon, label@, own_picture(*balloon)),
{
    let mut picture = String::new();
    push_section(&mut picture, "<img src=\"", &balloon.image, "\">");
    assert(picture@ == own_picture(*balloon));
    balloon_around(balloon, label, picture.as_str())
}

impl<'a> HTML<'a> {
    /// The HTML of a link preview: its images, then its title and its summary, all of it a link
    /// where the preview has an address.
    pub fn format_url(&self, balloon: &URLMessage) -> (html: String)
        ensures
            html@ == url_html(*balloon),
    {
        let mut images = String::new();
        let mut at: usize = 0;
        assert(balloon.images@.take(0) == Seq::<String>::empty());
        while at < balloon.images.len()
            invariant
                at <= balloon.images.len(),
                images@ == images_html(balloon.images@.take(at as int)),
            decreases balloon.images.len() - at,
        {
            let ghost shown = balloon.images@.take(at + 1);
            assert(shown.drop_last() == balloon.images@.take(at as int));
            let image = enclosed(
                "<img src=\"",
                balloon.images[at].as_str(),
                "\" loading=\"lazy\">",
            );
            assert(image@ == image_html(shown.last()@));
            images.append(image.as_str());
            at = at + 1;
        }
        assert(balloon.images@.take(at as int) == balloon.images@);
        framed(&balloon.url, images.as_str(), url_texts(balloon).as_str())
    }

    /// What stands for a handwritten message.
    pub fn format_handwriting(&self, _balloon: &AppMessage) -> (html: String)
        ensures
            html@ == "Handwritten messages are not yet supported!"@,
    {
        "Handwritten messages are not yet supported!".to_owned()
    }

    /// The HTML of an Apple Pay balloon.
    pub fn format_apple_pay(&self, balloon: &AppMessage) -> (html: String)
        ensures
            html@ == balloon_html(*balloon, "Apple Pay"@, own_picture(*balloon)),
    {
        plain_balloon(balloon, "Apple Pay")
    }

    /// The HTML of a balloon of the Fitness app.
    pub fn format_fitness(&self, balloon: &AppMessage) -> (html: String)
        ensures
            html@ == balloon_html(*balloon, "Fitness"@, own_picture(*balloon)),
    {
        plain_balloon(balloon, "Fitness")
    }

    /// The HTML of a slideshow.
    pub fn format_slideshow(&self, balloon: &AppMessage) -> (html: String)
        ensures
            html@ == balloon_html(*balloon, "Slideshow"@, own_picture(*balloon)),
    {
        plain_balloon(balloon, "Slideshow")
    }

    /// The HTML of a balloon of any other app, as far as the outcomes from number `used` on allow.
    pub fn format_generic_app(
        &self,
        balloon: &AppMessage,
        bundle_id: &str,
        attachments: &mut Vec<Attachment>,
        outcomes: &Vec<Outcome>,
        used: usize,
    ) -> (result: (Result<String, Transfer<String>>, usize))
        requires
            used <= outcomes.len(),
        ensures
            (result_view(result.0), result.1 as nat) == balloon_result(
                *self.config,
                *balloon,
                bundle_id@,
                old(attachments)@,
                outcomes@,
                used as nat,
            ),
            is_after_balloon(
                *self.config,
                *balloon,
                old(attachments)@,
                final(attachments)@,
                outcomes@,
                used as nat,
            ),
    {
        self.balloon_to_html(balloon, bundle_id, attachments, outcomes, used)
    }

    /// The HTML of a balloon, as far as the outcomes from number `used` on allow: its picture, the
    /// name of the app, then its texts, all of it a link where the balloon has an address.
    pub fn balloon_to_html(
        &self,
        balloon: &AppMessage,
        bundle_id: &str,
        attachments: &mut Vec<Attachment>,
        outcomes: &Vec<Outcome>,
        used: usize,
    ) -> (result: (Result<String, Transfer<String>>, usize))
        requires
            used <= outcomes.len(),
        ensures
            (result_view(result.0), result.1 as nat) == balloon_result(
                *self.config,
                *balloon,
                bundle_id@,
                old(attachments)@,
                outcomes@,
                used as nat,
            ),
            is_after_balloon(
                *self.config,
                *balloon,
                old(attachments)@,
                final(attachments)@,
                outcomes@,
                used as nat,
            ),
    {
        if balloon.image.is_some() || attachments.len() == 0 {
            return (Ok(plain_balloon(balloon, bundle_id)), used);
        }
        proof {
            reveal_strlit("");
            assert(""@ == Seq::<char>::empty());
        }
        match self.format_attachment(&mut attachments[0], outcomes, used) {
            (Piece::Html(html), used) => (
                Ok(balloon_around(balloon, bundle_id, html.as_str())),
                used,
            ),
            (Piece::Lost(_), used) => (Ok(balloon_around(balloon, bundle_id, "")), used),
            (Piece::Wanted(transfer), used) => (Err(transfer), used),
        }
    }
}

} // verus!
