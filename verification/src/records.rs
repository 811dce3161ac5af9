//! A message with all that is shown of it.

use std::collections::HashMap;

use vstd::prelude::*;

use crate::balloons::Parsed;
use crate::database;
use crate::database::check_date;
#[allow(unused_imports)]
use crate::database::{
    are_plain, body_of, date_fits, delay_fits, expressive_of, is_delay, is_local_date, is_mark,
    is_word, last_piece, media_type_of, name_extension, names_file, names_part, parts_view,
    path_extension, plain_parts, read_delay, service_of, variant_of,
};
#[allow(unused_imports)]
use crate::payload::is_parsed;
use crate::payload::Payload;
use crate::tables::{Attachment, BubbleType, Expressive, Message, Variant};
#[allow(unused_imports)]
use crate::text::optional;
use crate::text::{contains, same_option, starts_with};

verus! {

/// A message with what its columns stand for and what was loaded for it.
pub struct Record {
    pub message: Message,
    /// The name of whoever sent the message.
    pub sender: String,
    /// The kind of the message.
    pub variant: Variant<String>,
    /// What the service that carried the message is called.
    pub service: String,
    /// The local date of the message.
    pub date: String,
    /// How long the message stayed unread, where that is known.
    pub read_after: Option<String>,
    /// The effect that the message was sent with.
    pub effect: Expressive<String>,
    /// The parts that the message is made of.
    pub body: Vec<BubbleType<String>>,
    /// The payload of an app message, where there is one, or why its references lead nowhere.
    pub payload: Option<Result<Parsed, String>>,
    /// The attachments of the message, or why they could not be loaded.
    pub attachments: Result<Vec<Attachment>, String>,
    /// The replies to the parts of the message, by the number of the part, or why they could not
    /// be loaded.
    pub replies: Result<HashMap<usize, Vec<Record>>, String>,
    /// The reactions to the parts of the message, by the number of the part, or why they could not
    /// be loaded.
    pub reactions: Result<HashMap<usize, Vec<Response>>, String>,
}

/// A reaction to a part of a message.
pub struct Response {
    /// The name of whoever sent the reaction.
    pub sender: String,
    pub mark: Mark,
}

/// What a reaction puts on a message.
pub enum Mark {
    /// What is said of the message, and whether it was added, not taken back.
    Reaction(bool, String),
    /// An image: the attachments that hold it, or why they could not be loaded.
    Sticker(Result<Vec<Attachment>, String>),
}

/// What becomes of a message on its own.
pub enum Entry {
    Announcement,
    Message,
    Reaction,
}

impl Message {
    /// Whether a message that is put on another one tells what part of that message it is about.
    pub open spec fn is_sound(&self) -> bool {
        is_mark(self.date_edited, self.associated_message_type) ==> names_part(
            optional(self.associated_message_guid),
        )
    }

    /// The kind of the message.
    pub open spec fn kind(&self) -> Variant<Seq<char>> {
        variant_of(
            self.date_edited,
            self.associated_message_type,
            optional(self.balloon_bundle_id),
            optional(self.text),
        )
    }

    /// The date of being read; of a message that was sent, of being delivered.
    pub open spec fn read_date(&self) -> i64 {
        if self.is_from_me {
            self.date_delivered
        } else {
            self.date_read
        }
    }

    /// How long the message stayed unread, where that is known.
    pub open spec fn delay(&self, offset: i64) -> Option<Seq<char>> {
        read_delay(self.is_from_me, self.date, self.date_read, self.date_delivered, offset)
    }

    /// What becomes of the message on its own: a new name of the conversation is announced; a
    /// reaction is shown only with the message that it is about.
    pub open spec fn entry_kind(&self) -> Entry {
        if self.group_title is Some {
            Entry::Announcement
        } else if self.kind() is Reaction || (self.kind() is Sticker
            && self.associated_message_guid is Some) {
            Entry::Reaction
        } else {
            Entry::Message
        }
    }

    /// Whether `offset` can be added to the seconds of the dates that are told of the message.
    pub open spec fn dates_fit(&self, offset: i64) -> bool {
        date_fits(self.date, offset) && delay_fits(self.date, self.read_date(), offset)
    }

    /// Whether `offset` can be added to the seconds of the dates that are told of the message.
    pub fn check_dates(&self, offset: i64) -> (fit: bool)
        ensures
            fit == self.dates_fit(offset),
    {
        let end: i64 = if self.is_from_me {
            self.date_delivered
        } else {
            self.date_read
        };
        check_date(self.date, offset) && (self.date == 0 || end == 0 || check_date(end, offset))
    }

    /// Whether a message that is put on another one tells what part of that message it is about.
    pub fn check(&self) -> (sound: bool)
        ensures
            sound == self.is_sound(),
    {
        let kind: i32 = self.associated_message_type;
        if self.date_edited != 0 || !(kind == 1000 || 2000 <= kind && kind <= 2005 || 3000 <= kind
            && kind <= 3005) {
            return true;
        }
        match &self.associated_message_guid {
            Some(guid) => !starts_with(guid.as_str(), "p:") || contains(guid.as_str(), '/'),
            None => true,
        }
    }

    /// The kind of the message.
    pub fn variant(&self) -> (variant: Variant<String>)
        requires
            self.is_sound(),
        ensures
            variant@ == self.kind(),
    {
        database::variant(
            database::blank_row(),
            self.date_edited,
            self.associated_message_type,
            same_option(&self.associated_message_guid),
            same_option(&self.balloon_bundle_id),
            same_option(&self.text),
        )
    }

    /// The local date of the message.
    pub fn local_date(&self, offset: i64) -> (date: String)
        requires
            date_fits(self.date, offset),
        ensures
            is_local_date(date@, self.date, offset),
    {
        database::local_date(database::blank_row(), self.date, offset)
    }

    /// How long the message stayed unread, where that is known.
    pub fn time_until_read(&self, offset: i64) -> (time: Option<String>)
        requires
            delay_fits(self.date, self.read_date(), offset),
        ensures
            optional(time) == self.delay(offset),
            is_delay(optional(time), self.date, self.read_date(), offset),
    {
        database::time_until_read(
            database::blank_row(),
            self.is_from_me,
            self.date,
            self.date_read,
            self.date_delivered,
            offset,
        )
    }

    /// What becomes of the message on its own.
    pub fn entry(&self) -> (entry: Entry)
        requires
            self.group_title is None ==> self.is_sound(),
        ensures
            entry == self.entry_kind(),
    {
        if self.group_title.is_some() {
            return Entry::Announcement;
        }
        match self.variant() {
            Variant::Reaction(_, _) => Entry::Reaction,
            Variant::Sticker => if self.associated_message_guid.is_some() {
                Entry::Reaction
            } else {
                Entry::Message
            },
            _ => Entry::Message,
        }
    }
}

impl Attachment {
    /// An attachment that was not copied, by the columns of its row.
    pub fn new(
        filename: Option<String>,
        mime_type: Option<String>,
        transfer_name: String,
    ) -> (attachment: Attachment)
        ensures
            attachment.filename == filename,
            attachment.transfer_name == transfer_name,
            attachment.copied_path is None,
            attachment.media_type@ == media_type_of(optional(mime_type)),
            filename is None ==> attachment.extension is None,
            filename is Some ==> optional(attachment.extension) == path_extension(filename->0@),
            filename is Some && names_file(filename->0@) ==> optional(attachment.extension)
                == name_extension(last_piece(filename->0@)),
    {
        let extension = database::extension(
            database::blank_attachment(),
            same_option(&filename),
        );
        let media_type = database::media_type(database::blank_attachment(), mime_type);
        Attachment { filename, extension, media_type, transfer_name, copied_path: None }
    }
}

impl Response {
    /// The reaction that a message is: nothing where it is none.
    pub fn new(
        message: &Message,
        sender: String,
        attachments: Result<Vec<Attachment>, String>,
    ) -> (response: Option<Response>)
        requires
            message.is_sound(),
        ensures
            match message.kind() {
                Variant::Reaction(added, label) => response is Some && response->0.sender == sender
                    && (response->0.mark matches Mark::Reaction(shown, text) && shown == added
                    && text@ == label),
                Variant::Sticker => response == Some(
                    (Response { sender, mark: Mark::Sticker(attachments) }),
                ),
                _ => response is None,
            },
    {
        match message.variant() {
            Variant::Reaction(added, label) => Some(
                Response { sender, mark: Mark::Reaction(added, label) },
            ),
            Variant::Sticker => Some(Response { sender, mark: Mark::Sticker(attachments) }),
            _ => None,
        }
    }
}

/// Whether `parsed` is what the payload of a message holds once its references were followed.
pub open spec fn is_payload(
    parsed: Option<Result<Parsed, String>>,
    payload: Option<Payload>,
) -> bool {
    match (parsed, payload) {
        (Some(parsed), Some(payload)) => is_parsed(parsed, payload@),
        (None, None) => true,
        _ => false,
    }
}

impl Record {
    /// A message with what its columns stand for.
    pub fn new(
        message: Message,
        sender: String,
        offset: i64,
        payload: Option<Payload>,
        attachments: Result<Vec<Attachment>, String>,
        replies: Result<HashMap<usize, Vec<Record>>, String>,
        reactions: Result<HashMap<usize, Vec<Response>>, String>,
    ) -> (record: Record)
        requires
            message.is_sound(),
            message.dates_fit(offset),
        ensures
            record.message == message,
            record.sender == sender,
            record.variant@ == message.kind(),
            record.service@ == service_of(optional(message.service)),
            message.service is Some && message.service->0@ != "iMessage"@ && message.service->0@
                != "SMS"@ && is_word(message.service->0@) ==> record.service@ == "Other(\""@
                + message.service->0@ + "\")"@,
            is_local_date(record.date@, message.date, offset),
            optional(record.read_after) == message.delay(offset),
            is_delay(optional(record.read_after), message.date, message.read_date(), offset),
            record.effect@ == expressive_of(optional(message.expressive_send_style_id)),
            parts_view(record.body@) == body_of(
                optional(message.balloon_bundle_id),
                optional(message.text),
            ),
            message.balloon_bundle_id is None && message.text is Some && are_plain(
                message.text->0@,
                Seq::empty(),
            ) ==> parts_view(record.body@) == plain_parts(message.text->0@),
            is_payload(record.payload, payload),
            record.attachments == attachments,
            record.replies == replies,
            record.reactions == reactions,
    {
        let variant = message.variant();
        let service = database::service_name(
            database::blank_row(),
            same_option(&message.service),
        );
        let date = message.local_date(offset);
        let read_after = message.time_until_read(offset);
        let effect = database::expressive(
            database::blank_row(),
            same_option(&message.expressive_send_style_id),
        );
        let body = database::body(
            database::blank_row(),
            same_option(&message.balloon_bundle_id),
            same_option(&message.text),
        );
        let payload = match payload {
            Some(payload) => Some(payload.parse()),
            None => None,
        };
        Record {
            message,
            sender,
            variant,
            service,
            date,
            read_after,
            effect,
            body,
            payload,
            attachments,
            replies,
            reactions,
        }
    }
}

} // verus!
