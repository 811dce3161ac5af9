//! The rows that are rendered: messages, their attachments, and what their columns mean.
//!
//! The types that hold text are generic over it: the program holds a `String`, a contract speaks
//! of its characters.

use vstd::prelude::*;

verus! {

/// The name of whoever owns the messages.
pub const ME: &'static str = "Me";

/// The name of a chat that has none.
pub const UNKNOWN: &'static str = "Unknown";

/// What stands for the reader in the text of a fitness message.
pub const FITNESS_RECEIVER: &'static str =
    "$(kIMTranscriptPluginBreadcrumbTextReceiverIdentifier)";

/// A row of the message table.
pub struct Message {
    pub rowid: i32,
    pub guid: String,
    pub text: Option<String>,
    pub service: Option<String>,
    pub handle_id: i32,
    pub subject: Option<String>,
    pub date: i64,
    pub date_read: i64,
    pub date_delivered: i64,
    pub is_from_me: bool,
    pub is_read: bool,
    pub group_title: Option<String>,
    pub associated_message_guid: Option<String>,
    pub associated_message_type: i32,
    pub balloon_bundle_id: Option<String>,
    pub expressive_send_style_id: Option<String>,
    pub thread_originator_guid: Option<String>,
    pub thread_originator_part: Option<String>,
    pub date_edited: i64,
    pub chat_id: Option<i32>,
    pub num_attachments: i32,
    pub num_replies: i32,
}

/// A row of the attachment table, with what its file name and its media type stand for.
pub struct Attachment {
    /// Where the attachment was stored, `~` standing for the home directory.
    pub filename: Option<String>,
    /// The extension of the file name.
    pub extension: Option<String>,
    pub media_type: MediaType<String>,
    /// The name that the attachment was sent under.
    pub transfer_name: String,
    /// Where the attachment was copied to.
    pub copied_path: Option<String>,
}

/// The kind of app that a message was made with.
pub enum CustomBalloon<T> {
    Application(T),
    URL,
    Handwriting,
    ApplePay,
    Fitness,
    Slideshow,
    Music,
}

/// The kind of a message.
pub enum Variant<T> {
    /// What is said of another message, and whether it was added, not taken back.
    Reaction(bool, T),
    /// An image placed on another message.
    Sticker,
    /// A message of an unknown kind.
    Unknown(i32),
    /// A message made with an app.
    App(CustomBalloon<T>),
    /// A message with text or attachments.
    Normal,
    /// A message that was edited or taken back.
    Edited,
}

/// A part of the body of a message.
pub enum BubbleType<T> {
    Text(T),
    Attachment,
    App,
}

/// The effect that a message was sent with.
pub enum Expressive<T> {
    Confetti,
    Echo,
    Fireworks,
    Balloons,
    Heart,
    Lasers,
    ShootingStar,
    Sparkles,
    Spotlight,
    Slam,
    Loud,
    Gentle,
    InvisibleInk,
    /// An effect of an unknown kind, by its name.
    Unknown(T),
    /// No effect.
    Normal,
}

/// The broad kind of an attachment, with its full media type.
pub enum MediaType<T> {
    Image(T),
    Video(T),
    Audio(T),
    Text(T),
    Application(T),
    Other(T),
    Unknown,
}

impl View for CustomBalloon<String> {
    type V = CustomBalloon<Seq<char>>;

    open spec fn view(&self) -> CustomBalloon<Seq<char>> {
        match self {
            CustomBalloon::Application(id) => CustomBalloon::Application(id@),
            CustomBalloon::URL => CustomBalloon::URL,
            CustomBalloon::Handwriting => CustomBalloon::Handwriting,
            CustomBalloon::ApplePay => CustomBalloon::ApplePay,
            CustomBalloon::Fitness => CustomBalloon::Fitness,
            CustomBalloon::Slideshow => CustomBalloon::Slideshow,
            CustomBalloon::Music => CustomBalloon::Music,
        }
    }
}

impl View for Variant<String> {
    type V = Variant<Seq<char>>;

    open spec fn view(&self) -> Variant<Seq<char>> {
        match self {
            Variant::Reaction(added, label) => Variant::Reaction(*added, label@),
            Variant::Sticker => Variant::Sticker,
            Variant::Unknown(kind) => Variant::Unknown(*kind),
            Variant::App(balloon) => Variant::App(balloon@),
            Variant::Normal => Variant::Normal,
            Variant::Edited => Variant::Edited,
        }
    }
}

impl View for BubbleType<String> {
    type V = BubbleType<Seq<char>>;

    open spec fn view(&self) -> BubbleType<Seq<char>> {
        match self {
            BubbleType::Text(text) => BubbleType::Text(text@),
            BubbleType::Attachment => BubbleType::Attachment,
            BubbleType::App => BubbleType::App,
        }
    }
}

impl View for Expressive<String> {
    type V = Expressive<Seq<char>>;

    open spec fn view(&self) -> Expressive<Seq<char>> {
        match self {
            Expressive::Confetti => Expressive::Confetti,
            Expressive::Echo => Expressive::Echo,
            Expressive::Fireworks => Expressive::Fireworks,
            Expressive::Balloons => Expressive::Balloons,
            Expressive::Heart => Expressive::Heart,
            Expressive::Lasers => Expressive::Lasers,
            Expressive::ShootingStar => Expressive::ShootingStar,
            Expressive::Sparkles => Expressive::Sparkles,
            Expressive::Spotlight => Expressive::Spotlight,
            Expressive::Slam => Expressive::Slam,
            Expressive::Loud => Expressive::Loud,
            Expressive::Gentle => Expressive::Gentle,
            Expressive::InvisibleInk => Expressive::InvisibleInk,
            Expressive::Unknown(name) => Expressive::Unknown(name@),
            Expressive::Normal => Expressive::Normal,
        }
    }
}

impl View for MediaType<String> {
    type V = MediaType<Seq<char>>;

    open spec fn view(&self) -> MediaType<Seq<char>> {
        match self {
            MediaType::Image(name) => MediaType::Image(name@),
            MediaType::Video(name) => MediaType::Video(name@),
            MediaType::Audio(name) => MediaType::Audio(name@),
            MediaType::Text(name) => MediaType::Text(name@),
            MediaType::Application(name) => MediaType::Application(name@),
            MediaType::Other(name) => MediaType::Other(name@),
            MediaType::Unknown => MediaType::Unknown,
        }
    }
}

} // verus!
