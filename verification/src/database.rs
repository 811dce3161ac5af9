//! What `imessage_database` knows of the columns of a row.
//!
//! Its functions are methods of a whole row. Each item here takes the columns that the method
//! reads, and sets them in a row whose other columns the method does not look at.

use imessage_database::message_types::expressives::BubbleEffect::{
    Gentle, InvisibleInk, Loud, Slam,
};
use imessage_database::message_types::expressives::Expressive::{Bubble, Normal, Screen, Unknown};
use imessage_database::message_types::expressives::ScreenEffect::{
    Balloons, Confetti, Echo, Fireworks, Heart, Lasers, ShootingStar, Sparkles, Spotlight,
};
use imessage_database::message_types::variants::CustomBalloon::{
    Application, ApplePay, Fitness, Handwriting, Music, Slideshow, URL,
};
use imessage_database::message_types::variants::Variant as Kind;
use imessage_database::message_types::variants::Variant::{App, Edited, Reaction, Sticker};
use imessage_database::tables::attachment::{Attachment as AttachmentRow, MediaType as Media};
use imessage_database::tables::messages::{BubbleType as Part, Message as Row};
use imessage_database::util::dates;
use uuid::Uuid;

use vstd::prelude::*;

use crate::tables::{BubbleType, CustomBalloon, Expressive, MediaType, Variant};
#[allow(unused_imports)]
use crate::text::{after, before, begins_with, last_mark, optional};

verus! {

/// A row of `imessage_database`'s message table.
#[verifier::external_type_specification]
#[verifier::external_body]
pub struct ExRow(Row);

/// A row of the message table with nothing in it.
#[verifier::external_body]
pub(crate) fn blank_row() -> Row {
    Row {
        rowid: 0, guid: String::new(), text: None, service: None, handle_id: 0, subject: None,
        date: 0, date_read: 0, date_delivered: 0, is_from_me: false, is_read: false,
        group_title: None, associated_message_guid: None, associated_message_type: 0,
        balloon_bundle_id: None, expressive_send_style_id: None, thread_originator_guid: None,
        thread_originator_part: None, date_edited: 0, chat_id: None, num_attachments: 0,
        num_replies: 0,
    }
}

/// The effect that the name of an effect stands for.
pub open spec fn expressive_of(name: Option<Seq<char>>) -> Expressive<Seq<char>> {
    match name {
        None => Expressive::Normal,
        Some(name) => if name == "com.apple.MobileSMS.expressivesend.gentle"@ {
            Expressive::Gentle
        } else if name == "com.apple.MobileSMS.expressivesend.impact"@ {
            Expressive::Slam
        } else if name == "com.apple.MobileSMS.expressivesend.invisibleink"@ {
            Expressive::InvisibleInk
        } else if name == "com.apple.MobileSMS.expressivesend.loud"@ {
            Expressive::Loud
        } else if name == "com.apple.messages.effect.CKConfettiEffect"@ {
            Expressive::Confetti
        } else if name == "com.apple.messages.effect.CKEchoEffect"@ {
            Expressive::Echo
        } else if name == "com.apple.messages.effect.CKFireworksEffect"@ {
            Expressive::Fireworks
        } else if name == "com.apple.messages.effect.CKHappyBirthdayEffect"@ {
            Expressive::Balloons
        } else if name == "com.apple.messages.effect.CKHeartEffect"@ {
            Expressive::Heart
        } else if name == "com.apple.messages.effect.CKLasersEffect"@ {
            Expressive::Lasers
        } else if name == "com.apple.messages.effect.CKShootingStarEffect"@ {
            Expressive::ShootingStar
        } else if name == "com.apple.messages.effect.CKSparklesEffect"@ {
            Expressive::Sparkles
        } else if name == "com.apple.messages.effect.CKSpotlightEffect"@ {
            Expressive::Spotlight
        } else {
            Expressive::Unknown(name)
        },
    }
}

/// The effect that a message was sent with: `Message::get_expressive`, which goes by the name of
/// the effect alone, through a fixed table.
#[verifier::external_body]
pub(crate) fn expressive(
    blank: Row,
    expressive_send_style_id: Option<String>,
) -> (effect: Expressive<String>)
    ensures
        effect@ == expressive_of(optional(expressive_send_style_id)),
{
    match (Row { expressive_send_style_id, ..blank }).get_expressive() {
        Screen(Confetti) => Expressive::Confetti, Screen(Echo) => Expressive::Echo,
        Screen(Fireworks) => Expressive::Fireworks, Screen(Balloons) => Expressive::Balloons,
        Screen(Heart) => Expressive::Heart, Screen(Lasers) => Expressive::Lasers,
        Screen(ShootingStar) => Expressive::ShootingStar, Screen(Sparkles) => Expressive::Sparkles,
        Screen(Spotlight) => Expressive::Spotlight, Bubble(Slam) => Expressive::Slam,
        Bubble(Loud) => Expressive::Loud, Bubble(Gentle) => Expressive::Gentle,
        Bubble(InvisibleInk) => Expressive::InvisibleInk, Normal => Expressive::Normal,
        Unknown(name) => Expressive::Unknown(name.to_string()),
    }
}

/// The app that a balloon's bundle identifier names: the whole of it where it holds no `:`, else
/// its third piece.
pub open spec fn bundle_app(bundle_id: Seq<char>) -> Option<Seq<char>> {
    match after(bundle_id, ':') {
        None => Some(bundle_id),
        Some(rest) => match after(rest, ':') {
            None => None,
            Some(rest) => Some(before(rest, ':')),
        },
    }
}

/// The kind of balloon that an app makes, for a message with the given text.
pub open spec fn balloon_of(app: Seq<char>, text: Option<Seq<char>>) -> CustomBalloon<Seq<char>> {
    if app == "com.apple.messages.URLBalloonProvider"@ {
        if text is Some && begins_with(text->0, "https://music.apple"@) {
            CustomBalloon::Music
        } else {
            CustomBalloon::URL
        }
    } else if app == "com.apple.Handwriting.HandwritingProvider"@ {
        CustomBalloon::Handwriting
    } else if app == "com.apple.PassbookUIService.PeerPaymentMessagesExtension"@ {
        CustomBalloon::ApplePay
    } else if app == "com.apple.ActivityMessagesApp.MessagesExtension"@ {
        CustomBalloon::Fitness
    } else if app == "com.apple.mobileslideshow.PhotosMessagesApp"@ {
        CustomBalloon::Slideshow
    } else {
        CustomBalloon::Application(app)
    }
}

/// The name of the reaction with the given number.
pub open spec fn reaction_label(number: int) -> Seq<char> {
    if number == 0 {
        "Loved"@
    } else if number == 1 {
        "Liked"@
    } else if number == 2 {
        "Disliked"@
    } else if number == 3 {
        "Laughed"@
    } else if number == 4 {
        "Emphasized"@
    } else {
        "Questioned"@
    }
}

/// The kind of a message, by its columns.
pub open spec fn variant_of(
    date_edited: i64,
    associated_message_type: i32,
    balloon_bundle_id: Option<Seq<char>>,
    text: Option<Seq<char>>,
) -> Variant<Seq<char>> {
    let kind = associated_message_type;
    if date_edited != 0 {
        Variant::Edited
    } else if kind == 0 || kind == 2 || kind == 3 {
        if balloon_bundle_id is Some && bundle_app(balloon_bundle_id->0) is Some {
            Variant::App(balloon_of(bundle_app(balloon_bundle_id->0)->0, text))
        } else {
            Variant::Normal
        }
    } else if kind == 1000 {
        Variant::Sticker
    } else if 2000 <= kind <= 2005 {
        Variant::Reaction(true, reaction_label(kind - 2000))
    } else if 3000 <= kind <= 3005 {
        Variant::Reaction(false, reaction_label(kind - 3000))
    } else {
        Variant::Unknown(kind)
    }
}

/// Whether a message is one that is put on another message.
pub open spec fn is_mark(date_edited: i64, associated_message_type: i32) -> bool {
    date_edited == 0 && (associated_message_type == 1000 || 2000 <= associated_message_type <= 2005
        || 3000 <= associated_message_type <= 3005)
}

/// Whether the part of the message that a reaction is about can be told from the identifier of
/// that message: one that begins with `p:` names the part before a `/`.
pub open spec fn names_part(guid: Option<Seq<char>>) -> bool {
    guid is Some && begins_with(guid->0, "p:"@) ==> guid->0.contains('/')
}

/// The kind of a message: `Message::variant`, which goes by these columns. It panics where a
/// reaction does not name the part of the message that it is about.
#[verifier::external_body]
pub(crate) fn variant(
    blank: Row,
    date_edited: i64,
    associated_message_type: i32,
    associated_message_guid: Option<String>,
    balloon_bundle_id: Option<String>,
    text: Option<String>,
) -> (variant: Variant<String>)
    requires
        is_mark(date_edited, associated_message_type) ==> names_part(
            optional(associated_message_guid),
        ),
    ensures
        variant@ == variant_of(
            date_edited,
            associated_message_type,
            optional(balloon_bundle_id),
            optional(text),
        ),
{
    match (Row {
        date_edited, associated_message_type, associated_message_guid, balloon_bundle_id, text,
        ..blank
    }).variant() {
        App(Application(id)) => Variant::App(CustomBalloon::Application(id.to_string())),
        App(URL) => Variant::App(CustomBalloon::URL),
        App(Handwriting) => Variant::App(CustomBalloon::Handwriting),
        App(ApplePay) => Variant::App(CustomBalloon::ApplePay),
        App(Fitness) => Variant::App(CustomBalloon::Fitness),
        App(Slideshow) => Variant::App(CustomBalloon::Slideshow),
        App(Music) => Variant::App(CustomBalloon::Music),
        Reaction(_, added, reaction) => Variant::Reaction(added, format!("{reaction:?}")),
        Sticker(_) => Variant::Sticker, Kind::Unknown(kind) => Variant::Unknown(kind),
        Kind::Normal => Variant::Normal, Edited => Variant::Edited,
    }
}

/// What std's `str::trim` leaves of a text.
pub uninterp spec fn trimmed(text: Seq<char>) -> Seq<char>;

/// Whether a character is a visible one of ASCII.
pub open spec fn is_graphic(c: char) -> bool {
    '!' <= c <= '~'
}

/// Whether a character is a space of ASCII: a blank, or one that starts a line, a page or a column.
pub open spec fn is_space(c: char) -> bool {
    c == ' ' || '\u{9}' <= c <= '\u{D}'
}

/// A text without the spaces of ASCII around it.
pub open spec fn bare(text: Seq<char>) -> Seq<char>
    decreases text.len(),
{
    if text.len() > 0 && is_space(text.first()) {
        bare(text.skip(1))
    } else if text.len() > 0 && is_space(text.last()) {
        bare(text.drop_last())
    } else {
        text
    }
}

/// Whether all the space around a text is of ASCII.
pub open spec fn is_plain(text: Seq<char>) -> bool {
    bare(text).len() == 0 || (is_graphic(bare(text).first()) && is_graphic(bare(text).last()))
}

/// The part of a message that a character stands for: an attachment or an app.
pub open spec fn marked_part(c: char) -> Option<BubbleType<Seq<char>>> {
    if c == '\u{FFFC}' {
        Some(BubbleType::Attachment)
    } else if c == '\u{FFFD}' {
        Some(BubbleType::App)
    } else {
        None
    }
}

/// The parts of `rest`, which follows the text `run`: each character that stands for a part gives
/// it, and each run of others between them is a text, of which `trim` is shown. A run of one
/// character is shown only behind the last such character.
pub open spec fn parts_from(
    rest: Seq<char>,
    run: Seq<char>,
    trim: spec_fn(Seq<char>) -> Seq<char>,
) -> Seq<BubbleType<Seq<char>>>
    decreases rest.len(),
{
    if rest.len() == 0 {
        if run.len() > 0 {
            seq![BubbleType::Text(trim(run))]
        } else {
            Seq::empty()
        }
    } else {
        match marked_part(rest[0]) {
            None => parts_from(rest.skip(1), run.push(rest[0]), trim),
            Some(part) => (if run.len() > 1 {
                seq![BubbleType::Text(trim(run)), part]
            } else {
                seq![part]
            }) + parts_from(rest.skip(1), Seq::empty(), trim),
        }
    }
}

/// Whether all the space around each run of `rest`, which follows the text `run`, is of ASCII.
pub open spec fn are_plain(rest: Seq<char>, run: Seq<char>) -> bool
    decreases rest.len(),
{
    if rest.len() == 0 {
        is_plain(run)
    } else if marked_part(rest[0]) is None {
        are_plain(rest.skip(1), run.push(rest[0]))
    } else {
        is_plain(run) && are_plain(rest.skip(1), Seq::empty())
    }
}

/// The parts of a text, with what std's `str::trim` leaves of each run.
pub open spec fn text_parts(text: Seq<char>) -> Seq<BubbleType<Seq<char>>> {
    parts_from(text, Seq::empty(), |run: Seq<char>| trimmed(run))
}

/// The parts of a text, without the spaces of ASCII around each run.
pub open spec fn plain_parts(text: Seq<char>) -> Seq<BubbleType<Seq<char>>> {
    parts_from(text, Seq::empty(), |run: Seq<char>| bare(run))
}

/// The views of the parts of a message.
pub open spec fn parts_view(parts: Seq<BubbleType<String>>) -> Seq<BubbleType<Seq<char>>> {
    parts.map_values(|part: BubbleType<String>| part@)
}

/// The parts of a message, by its columns.
pub open spec fn body_of(
    balloon_bundle_id: Option<Seq<char>>,
    text: Option<Seq<char>>,
) -> Seq<BubbleType<Seq<char>>> {
    if balloon_bundle_id is Some {
        seq![BubbleType::App]
    } else if text is Some {
        text_parts(text->0)
    } else {
        Seq::empty()
    }
}

/// The parts of a message: `Message::body`. A message made with an app is one part; otherwise the
/// text is cut at the characters that stand for attachments and for apps, of which each gives a
/// part. Each run of other characters is shown as std's `str::trim` leaves it, which is without the
/// spaces of ASCII where visible characters of ASCII follow them.
#[verifier::external_body]
pub(crate) fn body(
    blank: Row,
    balloon_bundle_id: Option<String>,
    text: Option<String>,
) -> (parts: Vec<BubbleType<String>>)
    ensures
        parts_view(parts@) == body_of(optional(balloon_bundle_id), optional(text)),
        balloon_bundle_id is None && text is Some ==> parts_view(parts@) == parts_from(
            text->0@,
            Seq::empty(),
            |run: Seq<char>| trimmed(run),
        ),
        balloon_bundle_id is None && text is Some && are_plain(text->0@, Seq::empty())
            ==> parts_view(parts@) == plain_parts(text->0@),
{
    let row = Row { balloon_bundle_id, text, ..blank };
    row.body().iter().map(|part| match part {
        Part::Text(text) => BubbleType::Text(text.to_string()),
        Part::Attachment => BubbleType::Attachment,
        Part::App => BubbleType::App,
    }).collect()
}

/// The seconds of a stored date, which counts in billionths of them.
pub open spec fn seconds_of(date: i64) -> int {
    if date >= 0 {
        date as int / 1_000_000_000
    } else {
        -(-date as int / 1_000_000_000)
    }
}

/// Whether `offset` can be added to the seconds of a stored date.
pub open spec fn date_fits(date: i64, offset: i64) -> bool {
    i64::MIN <= seconds_of(date) + offset <= i64::MAX
}

/// Whether `offset` can be added to the seconds of both dates that the time until a message was
/// read is told from, where it is.
pub open spec fn delay_fits(date: i64, end: i64, offset: i64) -> bool {
    date != 0 && end != 0 ==> date_fits(date, offset) && date_fits(end, offset)
}

/// Whether `offset` can be added to the seconds of a stored date.
pub fn check_date(date: i64, offset: i64) -> (fits: bool)
    ensures
        fits == date_fits(date, offset),
{
    let seconds: i128 = if date >= 0 {
        (date as u64 / 1_000_000_000) as i128
    } else {
        0 - ((0 - date as i128) as u64 / 1_000_000_000) as i128
    };
    let sum: i128 = seconds + offset as i128;
    i64::MIN as i128 <= sum && sum <= i64::MAX as i128
}

/// How many leap years there are from year 1 to the given one.
pub open spec fn leap_years(year: int) -> int {
    year / 4 - year / 100 + year / 400
}

/// Whether a year is a leap year.
pub open spec fn is_leap(year: int) -> bool {
    year % 4 == 0 && (year % 100 != 0 || year % 400 == 0)
}

/// The days from 1970 to the beginning of a year.
pub open spec fn days_to_year(year: int) -> int {
    365 * (year - 1970) + leap_years(year - 1) - leap_years(1969)
}

/// How many days a month has.
pub open spec fn month_days(year: int, month: int) -> int {
    if month == 2 {
        if is_leap(year) {
            29
        } else {
            28
        }
    } else if month == 4 || month == 6 || month == 9 || month == 11 {
        30
    } else {
        31
    }
}

/// The days from the beginning of a year to that of a month.
pub open spec fn days_to_month(year: int, month: int) -> int
    decreases month,
{
    if month <= 1 {
        0
    } else {
        days_to_month(year, month - 1) + month_days(year, month - 1)
    }
}

/// The three letters of a month.
pub open spec fn month_text(month: int) -> Seq<char> {
    if month == 1 {
        "Jan"@
    } else if month == 2 {
        "Feb"@
    } else if month == 3 {
        "Mar"@
    } else if month == 4 {
        "Apr"@
    } else if month == 5 {
        "May"@
    } else if month == 6 {
        "Jun"@
    } else if month == 7 {
        "Jul"@
    } else if month == 8 {
        "Aug"@
    } else if month == 9 {
        "Sep"@
    } else if month == 10 {
        "Oct"@
    } else if month == 11 {
        "Nov"@
    } else {
        "Dec"@
    }
}

/// The last digit of a number.
pub open spec fn last_digit(number: int) -> char {
    (48 + number % 10) as char
}

/// The last two digits of a number.
pub open spec fn two_digits(number: int) -> Seq<char> {
    seq![last_digit(number / 10), last_digit(number)]
}

/// The hour on a clock of twelve hours.
pub open spec fn clock_hour(hour: int) -> int {
    if hour % 12 == 0 {
        12
    } else {
        hour % 12
    }
}

/// A day and a second of it, as in `May 17, 2022  5:29:42 PM`.
pub open spec fn time_text(year: int, month: int, day: int, second: int) -> Seq<char> {
    let hour = clock_hour(second / 3600);
    month_text(month) + " "@ + two_digits(day) + ", "@ + two_digits(year / 100) + two_digits(year)
        + " "@ + (if hour < 10 {
        seq![' ', last_digit(hour)]
    } else {
        two_digits(hour)
    }) + ":"@ + two_digits(second % 3600 / 60) + ":"@ + two_digits(second % 60) + " "@ + (if second
        < 43_200 {
        "AM"@
    } else {
        "PM"@
    })
}

/// Whether `text` is the date and the time of day that lie `seconds` after the beginning of 1970.
pub open spec fn is_time(text: Seq<char>, seconds: int) -> bool {
    exists|year: int, month: int, day: int|
        {
            &&& 1 <= month <= 12 && 1 <= day <= month_days(year, month)
            &&& seconds / 86_400 == days_to_year(year) + days_to_month(year, month) + day - 1
            &&& text == #[trigger] time_text(year, month, day, seconds % 86_400)
        }
}

/// Whether `seconds` after the beginning of 1970 all time zones have a year of up to four digits,
/// which is past 0.
pub open spec fn is_common(seconds: int) -> bool {
    -62_135_500_000 <= seconds <= 253_402_200_000
}

/// Whether `seconds` after the beginning of 1970 lie in a year that chrono's calendar holds.
pub open spec fn is_in_calendar(seconds: int) -> bool {
    -8_000_000_000_000 <= seconds <= 8_000_000_000_000
}

/// Whether `seconds` after the beginning of 1970 lie in a year that chrono's calendar lacks.
pub open spec fn is_out_of_calendar(seconds: int) -> bool {
    seconds <= -9_000_000_000_000 || 9_000_000_000_000 <= seconds
}

/// Whether `text` can be the local date of a message: from the year 1 to the year 9999, that of its
/// date in some time zone, which is less than a day ahead or behind.
pub open spec fn is_local_date(text: Seq<char>, date: i64, offset: i64) -> bool {
    let seconds = seconds_of(date) + offset;
    &&& text.len() > 0
    &&& is_common(seconds) ==> exists|zone: int|
        -86_400 < zone < 86_400 && #[trigger] is_time(text, seconds + zone)
    &&& is_out_of_calendar(seconds) ==> begins_with(text, "Timestamp is invalid: "@)
}

/// The local date of a message: `dates::format` of `Message::date`. The time zone is that of the
/// machine, which is left open; chrono takes none that is a day or more from UTC. Where the date is
/// out of the range of the calendar, the text says so.
#[verifier::external_body]
pub(crate) fn local_date(blank: Row, date: i64, offset: i64) -> (text: String)
    requires
        date_fits(date, offset),
    ensures
        is_local_date(text@, date, offset),
{
    dates::format(&Row { date, ..blank }.date(&offset))
}

/// How long a message stayed unread, as `Message::time_until_read` says it.
pub uninterp spec fn read_delay(
    is_from_me: bool,
    date: i64,
    date_read: i64,
    date_delivered: i64,
    offset: i64,
) -> Option<Seq<char>>;

/// A number, by its digits.
pub open spec fn decimal(number: nat) -> Seq<char>
    decreases number,
{
    let digit = (48 + number % 10) as char;
    if number < 10 {
        seq![digit]
    } else {
        decimal(number / 10).push(digit)
    }
}

/// So many of a unit of time: nothing where there are none.
pub open spec fn unit_text(number: int, one: Seq<char>, many: Seq<char>) -> Seq<char> {
    if number == 0 {
        Seq::empty()
    } else {
        decimal(number as nat) + " "@ + (if number == 1 {
            one
        } else {
            many
        })
    }
}

/// Two texts with a comma between them, where neither is empty.
pub open spec fn listed(first: Seq<char>, second: Seq<char>) -> Seq<char> {
    if first.len() == 0 {
        second
    } else if second.len() == 0 {
        first
    } else {
        first + ", "@ + second
    }
}

/// A span of time in days, hours, minutes and seconds, as in `1 hour, 49 seconds`.
pub open spec fn span_text(seconds: int) -> Seq<char> {
    let days = unit_text(seconds / 86400, "day"@, "days"@);
    let hours = unit_text(seconds % 86400 / 3600, "hour"@, "hours"@);
    let minutes = unit_text(seconds % 3600 / 60, "minute"@, "minutes"@);
    listed(
        listed(listed(days, hours), minutes),
        unit_text(seconds % 60, "second"@, "seconds"@),
    )
}

/// Whether `time` can be the time from `date` to `end`.
pub open spec fn is_delay(time: Option<Seq<char>>, date: i64, end: i64, offset: i64) -> bool {
    let from = seconds_of(date) + offset;
    let until = seconds_of(end) + offset;
    &&& date == 0 || end == 0 || until < from ==> time is None
    &&& is_out_of_calendar(from) || is_out_of_calendar(until) ==> time is None
    &&& date != 0 && end != 0 && is_in_calendar(from) && is_in_calendar(until) && from <= until
        ==> time == Some(span_text(until - from))
    &&& until == from && time is Some ==> time->0.len() == 0
}

/// How long a message stayed unread: `Message::time_until_read`. That is not known where the
/// message has no date, or none of being read (of a message that was sent: of being delivered), or
/// where it was read in a second before that of its date, or where the calendar lacks one of the
/// two. Otherwise it is the span between them; nothing where the message was read within the same
/// second.
#[verifier::external_body]
pub(crate) fn time_until_read(
    blank: Row,
    is_from_me: bool,
    date: i64,
    date_read: i64,
    date_delivered: i64,
    offset: i64,
) -> (time: Option<String>)
    requires
        delay_fits(date, if is_from_me { date_delivered } else { date_read }, offset),
    ensures
        optional(time) == read_delay(is_from_me, date, date_read, date_delivered, offset),
        is_delay(optional(time), date, if is_from_me { date_delivered } else { date_read }, offset),
{
    let row = Row { is_from_me, date, date_read, date_delivered, ..blank };
    row.time_until_read(&offset)
}

/// How `Debug` writes a text.
pub uninterp spec fn quoted(text: Seq<char>) -> Seq<char>;

/// What the service that carried a message is called.
pub open spec fn service_of(service: Option<Seq<char>>) -> Seq<char> {
    match service {
        None => "Unknown"@,
        Some(name) => if name == "iMessage"@ {
            "iMessage"@
        } else if name == "SMS"@ {
            "SMS"@
        } else {
            "Other("@ + quoted(name) + ")"@
        },
    }
}

/// Whether a text is made of letters and digits of ASCII.
pub open spec fn is_word(text: Seq<char>) -> bool {
    forall|i: int|
        0 <= i < text.len() ==> '0' <= #[trigger] text[i] <= '9' || 'A' <= text[i] <= 'Z' || 'a'
            <= text[i] <= 'z'
}

/// What the service that carried a message is called: the `Debug` text of `Message::service`.
#[verifier::external_body]
pub(crate) fn service_name(blank: Row, service: Option<String>) -> (name: String)
    ensures
        name@ == service_of(optional(service)),
        service is Some && service->0@ != "iMessage"@ && service->0@ != "SMS"@ ==> name@
            == "Other("@ + quoted(service->0@) + ")"@,
        service is Some && service->0@ != "iMessage"@ && service->0@ != "SMS"@ && is_word(
            service->0@,
        ) ==> name@ == "Other(\""@ + service->0@ + "\")"@,
{
    let row = Row { service, ..blank };
    format!("{:?}", row.service())
}

/// A row of `imessage_database`'s attachment table.
#[verifier::external_type_specification]
#[verifier::external_body]
pub struct ExAttachmentRow(AttachmentRow);

/// A row of the attachment table with nothing in it.
#[verifier::external_body]
pub(crate) fn blank_attachment() -> AttachmentRow {
    AttachmentRow {
        rowid: 0, filename: None, mime_type: None, transfer_name: String::new(), total_bytes: 0,
        is_sticker: 0, attribution_info: None, hide_attachment: 0, copied_path: None,
    }
}

/// The broad kind of an attachment, by what stands before the first `/` of its media type.
pub open spec fn media_type_of(mime_type: Option<Seq<char>>) -> MediaType<Seq<char>> {
    match mime_type {
        None => MediaType::Unknown,
        Some(name) => if before(name, '/') == "image"@ {
            MediaType::Image(name)
        } else if before(name, '/') == "video"@ {
            MediaType::Video(name)
        } else if before(name, '/') == "audio"@ {
            MediaType::Audio(name)
        } else if before(name, '/') == "text"@ {
            MediaType::Text(name)
        } else if before(name, '/') == "application"@ {
            MediaType::Application(name)
        } else {
            MediaType::Other(name)
        },
    }
}

/// The broad kind of an attachment: `Attachment::mime_type`, which goes by the media type alone.
#[verifier::external_body]
pub(crate) fn media_type(
    blank: AttachmentRow,
    mime_type: Option<String>,
) -> (kind: MediaType<String>)
    ensures
        kind@ == media_type_of(optional(mime_type)),
{
    match (AttachmentRow { mime_type, ..blank }).mime_type() {
        Media::Image(name) => MediaType::Image(name.to_string()),
        Media::Video(name) => MediaType::Video(name.to_string()),
        Media::Audio(name) => MediaType::Audio(name.to_string()),
        Media::Text(name) => MediaType::Text(name.to_string()),
        Media::Application(name) => MediaType::Application(name.to_string()),
        Media::Other(name) => MediaType::Other(name.to_string()),
        Media::Unknown => MediaType::Unknown,
    }
}

/// The extension that `Attachment::extension` finds in a file name.
pub uninterp spec fn path_extension(filename: Seq<char>) -> Option<Seq<char>>;

/// The last piece of a path whose pieces are parted by `/`.
pub open spec fn last_piece(path: Seq<char>) -> Seq<char> {
    path.skip(last_mark(path, '/') + 1)
}

/// Whether the last piece of a path names a file on every system. A path that begins with two
/// separators, or holds a `:`, may begin with the name of a drive or of a server.
pub open spec fn names_file(path: Seq<char>) -> bool {
    &&& last_piece(path).len() > 0 && last_piece(path) != "."@ && last_piece(path) != ".."@
    &&& path.len() < 2 || path[0] != '/' || path[1] != '/'
    &&& !path.contains('\\') && !path.contains(':')
}

/// What stands after the last `.` of the name of a file, unless the name begins with it.
pub open spec fn name_extension(name: Seq<char>) -> Option<Seq<char>> {
    if last_mark(name, '.') > 0 {
        Some(name.skip(last_mark(name, '.') + 1))
    } else {
        None
    }
}

/// The extension of an attachment: `Attachment::extension`, which is what std's `Path::extension`
/// says of the file name.
#[verifier::external_body]
pub(crate) fn extension(
    blank: AttachmentRow,
    filename: Option<String>,
) -> (extension: Option<String>)
    ensures
        filename is None ==> extension is None,
        filename is Some ==> optional(extension) == path_extension(filename->0@),
        filename is Some && names_file(filename->0@) ==> optional(extension) == name_extension(
            last_piece(filename->0@),
        ),
{
    let row = AttachmentRow { filename, ..blank };
    row.extension().map(|text| text.to_string())
}

/// Whether a text has the shape of a random UUID: 32 hexadecimal digits in five groups, of which
/// one tells the version and one the variant.
pub open spec fn is_uuid(text: Seq<char>) -> bool {
    &&& text.len() == 36
    &&& forall|i: int|
        0 <= i < 36 ==> if i == 8 || i == 13 || i == 18 || i == 23 {
            #[trigger] text[i] == '-'
        } else {
            '0' <= text[i] <= '9' || 'a' <= text[i] <= 'f'
        }
    &&& text[14] == '4'
    &&& text[19] == '8' || text[19] == '9' || text[19] == 'a' || text[19] == 'b'
}

/// A new random UUID: the text of `Uuid::new_v4`. Which one it is, is left to chance.
#[verifier::external_body]
pub(crate) fn new_uuid() -> (text: String)
    ensures
        is_uuid(text@),
{
    Uuid::new_v4().to_string()
}

} // verus!
