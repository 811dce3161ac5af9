//! The texts around the body of a message: its date, its effect, and the new name that it gives
//! to a conversation.

use vstd::prelude::*;

#[allow(unused_imports)]
use crate::database::{date_fits, is_delay, is_local_date};
use crate::html::HTML;
use crate::tables::{Expressive, Message, ME, UNKNOWN};
#[allow(unused_imports)]
use crate::text::optional;
use crate::text::{enclosed, same_text};

verus! {

/// What is said of the effect that a message was sent with.
pub open spec fn effect_text(effect: Expressive<Seq<char>>) -> Seq<char> {
    match effect {
        Expressive::Confetti => "Sent with Confetti"@,
        Expressive::Echo => "Sent with Echo"@,
        Expressive::Fireworks => "Sent with Fireworks"@,
        Expressive::Balloons => "Sent with Balloons"@,
        Expressive::Heart => "Sent with Heart"@,
        Expressive::Lasers => "Sent with Lasers"@,
        Expressive::ShootingStar => "Sent with Shooting Start"@,
        Expressive::Sparkles => "Sent with Sparkles"@,
        Expressive::Spotlight => "Sent with Spotlight"@,
        Expressive::Slam => "Sent with Slam"@,
        Expressive::Loud => "Sent with Loud"@,
        Expressive::Gentle => "Sent with Gentle"@,
        Expressive::InvisibleInk => "Sent with Invisible Ink"@,
        Expressive::Unknown(name) => name,
        Expressive::Normal => Seq::empty(),
    }
}

/// The date of a message, and how long the message stayed unread, where that is known.
pub open spec fn stamp_text(
    date: Seq<char>,
    read_after: Option<Seq<char>>,
    is_from_me: bool,
) -> Seq<char> {
    match read_after {
        Some(time) => if time.len() > 0 {
            date + " (Read by "@ + (if is_from_me {
                "them"@
            } else {
                "you"@
            }) + " after "@ + time + ")"@
        } else {
            date
        },
        None => date,
    }
}

/// The HTML that tells of the new name of a conversation.
pub open spec fn announcement_html(
    date: Seq<char>,
    sender: Seq<char>,
    title: Option<Seq<char>>,
) -> Seq<char> {
    let who = if sender == ME@ {
        "You"@
    } else {
        sender
    };
    let name = match title {
        Some(title) => title,
        None => UNKNOWN@,
    };
    "\n<div class =\"announcement\"><p><span class=\"timestamp\">"@ + date + "</span> "@ + who
        + " named the conversation <b>"@ + name + "</b></p></div>\n"@
}

/// The date of a message, and how long the message stayed unread, where that is known.
pub fn stamp(date: &str, read_after: &Option<String>, is_from_me: bool) -> (text: String)
    ensures
        text@ == stamp_text(date@, optional(*read_after), is_from_me),
{
    let mut text = date.to_owned();
    if let Some(time) = read_after {
        if !time.as_str().is_empty() {
            text.append(" (Read by ");
            if is_from_me {
                text.append("them");
            } else {
                text.append("you");
            }
            text.append(" after ");
            text.append(time.as_str());
            text.append(")");
        }
    }
    text
}

/// The HTML that tells of the new name of a conversation.
pub fn announcement(date: &str, sender: &str, title: &Option<String>) -> (html: String)
    ensures
        html@ == announcement_html(date@, sender@, optional(*title)),
{
    let who: &str = if same_text(sender, ME) {
        "You"
    } else {
        sender
    };
    let title: &str = match title {
        Some(title) => title.as_str(),
        None => UNKNOWN,
    };
    enclosed(
        "\n<div class =\"announcement\"><p><span class=\"timestamp\">",
        date,
        "</span> ",
    ).concat(who).concat(" named the conversation <b>").concat(title).concat("</b></p></div>\n")
}

impl<'a> HTML<'a> {
    /// What is said of the effect that a message was sent with.
    pub fn format_expressive<'b>(&self, effect: &'b Expressive<String>) -> (text: &'b str)
        ensures
            text@ == effect_text(effect@),
    {
        match effect {
            Expressive::Confetti => "Sent with Confetti",
            Expressive::Echo => "Sent with Echo",
            Expressive::Fireworks => "Sent with Fireworks",
            Expressive::Balloons => "Sent with Balloons",
            Expressive::Heart => "Sent with Heart",
            Expressive::Lasers => "Sent with Lasers",
            Expressive::ShootingStar => "Sent with Shooting Start",
            Expressive::Sparkles => "Sent with Sparkles",
            Expressive::Spotlight => "Sent with Spotlight",
            Expressive::Slam => "Sent with Slam",
            Expressive::Loud => "Sent with Loud",
            Expressive::Gentle => "Sent with Gentle",
            Expressive::InvisibleInk => "Sent with Invisible Ink",
            Expressive::Unknown(name) => name.as_str(),
            Expressive::Normal => {
                proof {
                    reveal_strlit("");
                    assert(""@ == Seq::<char>::empty());
                }
                ""
            },
        }
    }

    /// The HTML that tells of the new name that a message gives to a conversation.
    pub fn format_annoucement(&self, message: &Message, sender: &str) -> (html: String)
        requires
            date_fits(message.date, self.config.offset),
        ensures
            exists|date: Seq<char>|
                is_local_date(date, message.date, self.config.offset) && html@
                    == #[trigger] announcement_html(date, sender@, optional(message.group_title)),
    {
        let date = message.local_date(self.config.offset);
        announcement(date.as_str(), sender, &message.group_title)
    }

    /// The local date of a message, and how long the message stayed unread, where that is known.
    pub fn get_time(&self, message: &Message) -> (text: String)
        requires
            message.dates_fit(self.config.offset),
        ensures
            exists|date: Seq<char>|
                is_local_date(date, message.date, self.config.offset) && text@
                    == #[trigger] stamp_text(
                    date,
                    message.delay(self.config.offset),
                    message.is_from_me,
                ),
            is_delay(
                message.delay(self.config.offset),
                message.date,
                message.read_date(),
                self.config.offset,
            ),
    {
        let date = message.local_date(self.config.offset);
        let read_after = message.time_until_read(self.config.offset);
        stamp(date.as_str(), &read_after, message.is_from_me)
    }
}

} // verus!
