//! App messages: what stands for them in a message.

use vstd::prelude::*;

use crate::attachments::{Outcome, Transfer};
#[allow(unused_imports)]
use crate::balloons::{balloon_html, balloon_result, is_after_balloon, own_picture, url_html};
use crate::balloons::{Bubble, PlistParseError};
#[allow(unused_imports)]
use crate::html::Config;
use crate::html::HTML;
use crate::records::Record;
use crate::tables::{Attachment, CustomBalloon, Variant};

verus! {

/// The text of a message that stands for its balloon, or why there is no balloon.
pub open spec fn text_or(text: Option<String>, error: PlistParseError<Seq<char>>) -> Bubble<
    Seq<char>,
> {
    match text {
        Some(text) => Bubble::Html(text@),
        None => Bubble::Error(error),
    }
}

/// A rendered balloon, or the transfer that it waits for.
pub open spec fn bubble_of(result: Result<Seq<char>, Transfer<Seq<char>>>) -> Bubble<Seq<char>> {
    match result {
        Ok(html) => Bubble::Html(html),
        Err(transfer) => Bubble::Wanted(transfer),
    }
}

/// Whether a balloon is a link preview.
pub open spec fn is_link(balloon: CustomBalloon<Seq<char>>) -> bool {
    balloon is URL || balloon is Music
}

/// How far the balloon of an app message is rendered; and the number of the next outcome.
pub open spec fn app_bubble(
    config: Config,
    record: Record,
    attachments: Seq<Attachment>,
    outcomes: Seq<Outcome>,
    used: nat,
) -> (Bubble<Seq<char>>, nat) {
    let text = record.message.text;
    match record.variant@ {
        Variant::App(kind) => match record.payload {
            None => if is_link(kind) {
                (text_or(text, PlistParseError::NoPayload), used)
            } else {
                (Bubble::Error(PlistParseError::NoPayload), used)
            },
            Some(Err(why)) => (Bubble::Error(PlistParseError::Unresolved(why@)), used),
            Some(Ok(parsed)) => if is_link(kind) {
                match parsed.url {
                    Ok(balloon) => (Bubble::Html(url_html(balloon)), used),
                    Err(why) => (text_or(text, PlistParseError::ParseError(why@)), used),
                }
            } else {
                match parsed.app {
                    Ok(balloon) => match kind {
                        CustomBalloon::Application(id) => {
                            let (result, used) = balloon_result(
                                config,
                                balloon,
                                id,
                                attachments,
                                outcomes,
                                used,
                            );
                            (bubble_of(result), used)
                        },
                        CustomBalloon::Handwriting => (
                            Bubble::Html("Handwritten messages are not yet supported!"@),
                            used,
                        ),
                        CustomBalloon::ApplePay => (
                            Bubble::Html(balloon_html(balloon, "Apple Pay"@, own_picture(balloon))),
                            used,
                        ),
                        CustomBalloon::Fitness => (
                            Bubble::Html(balloon_html(balloon, "Fitness"@, own_picture(balloon))),
                            used,
                        ),
                        _ => (
                            Bubble::Html(balloon_html(balloon, "Slideshow"@, own_picture(balloon))),
                            used,
                        ),
                    },
                    Err(why) => (Bubble::Error(PlistParseError::ParseError(why@)), used),
                }
            },
        },
        _ => (Bubble::Error(PlistParseError::WrongMessageType), used),
    }
}

/// Whether rendering the balloon of an app message turns the attachments `before` into `after`.
pub open spec fn is_after_app(
    config: Config,
    record: Record,
    before: Seq<Attachment>,
    after: Seq<Attachment>,
    outcomes: Seq<Outcome>,
    used: nat,
) -> bool {
    match (record.variant@, record.payload) {
        (Variant::App(CustomBalloon::Application(_)), Some(Ok(parsed))) => match parsed.app {
            Ok(balloon) => is_after_balloon(config, balloon, before, after, outcomes, used),
            Err(_) => after == before,
        },
        _ => after == before,
    }
}

impl<'a> HTML<'a> {
    /// Renders the balloon of an app message, as far as the outcomes from number `used` on allow;
    /// also returns the number of the next outcome.
    ///
    /// Where a link preview cannot be read, the text of the message stands for it.
    pub fn format_app(
        &self,
        record: &Record,
        attachments: &mut Vec<Attachment>,
        outcomes: &Vec<Outcome>,
        used: usize,
    ) -> (result: (Bubble<String>, usize))
        requires
            used <= outcomes.len(),
        ensures
            (result.0@, result.1 as nat) == app_bubble(
                *self.config,
                *record,
                old(attachments)@,
                outcomes@,
                used as nat,
            ),
            is_after_app(
                *self.config,
                *record,
                old(attachments)@,
                final(attachments)@,
                outcomes@,
                used as nat,
            ),
    {
        let kind = match &record.variant {
            Variant::App(kind) => kind,
            _ => {
                return (Bubble::Error(PlistParseError::WrongMessageType), used);
            },
        };
        let link = match kind {
            CustomBalloon::URL => true,
            CustomBalloon::Music => true,
            _ => false,
        };
        match &record.payload {
            Some(Ok(parsed)) => if link {
                match &parsed.url {
                    Ok(balloon) => (Bubble::Html(self.format_url(balloon)), used),
                    Err(why) => match &record.message.text {
                        Some(text) => (Bubble::Html(text.clone()), used),
                        None => (Bubble::Error(PlistParseError::ParseError(why.clone())), used),
                    },
                }
            } else {
                match &parsed.app {
                    Ok(balloon) => match kind {
                        CustomBalloon::Application(bundle_id) => match self.format_generic_app(
                            balloon,
                            bundle_id.as_str(),
                            attachments,
                            outcomes,
                            used,
                        ) {
                            (Ok(html), used) => (Bubble::Html(html), used),
                            (Err(transfer), used) => (Bubble::Wanted(transfer), used),
                        },
                        CustomBalloon::Handwriting => (
                            Bubble::Html(self.format_handwriting(balloon)),
                            used,
                        ),
                        CustomBalloon::ApplePay => (
                            Bubble::Html(self.format_apple_pay(balloon)),
                            used,
                        ),
                        CustomBalloon::Fitness => (
                            Bubble::Html(self.format_fitness(balloon)),
                            used,
                        ),
                        _ => (Bubble::Html(self.format_slideshow(balloon)), used),
                    },
                    Err(why) => (Bubble::Error(PlistParseError::ParseError(why.clone())), used),
                }
            },
            Some(Err(why)) => (Bubble::Error(PlistParseError::Unresolved(why.clone())), used),
            None => {
                if link {
                    if let Some(text) = &record.message.text {
                        return (Bubble::Html(text.clone()), used);
                    }
                }
                (Bubble::Error(PlistParseError::NoPayload), used)
            },
        }
    }
}

} // verus!
