use std::collections::HashMap;

use html_exporter::database::check_date;
use html_exporter::records::{Entry, Mark, Record, Response};
use html_exporter::tables::{
    Attachment, BubbleType, CustomBalloon, Expressive, Message, Variant, FITNESS_RECEIVER, ME,
    UNKNOWN,
};
use imessage_database::tables::table;

fn blank() -> Message {
    Message {
        rowid: 1,
        guid: "guid".to_string(),
        text: None,
        service: Some("iMessage".to_string()),
        handle_id: 1,
        subject: None,
        date: 0,
        date_read: 0,
        date_delivered: 0,
        is_from_me: false,
        is_read: false,
        group_title: None,
        associated_message_guid: None,
        associated_message_type: 0,
        balloon_bundle_id: None,
        expressive_send_style_id: None,
        thread_originator_guid: None,
        thread_originator_part: None,
        date_edited: 0,
        chat_id: None,
        num_attachments: 0,
        num_replies: 0,
    }
}

fn some(text: &str) -> Option<String> {
    Some(text.to_string())
}

fn record(message: Message) -> Record {
    Record::new(
        message,
        "Ann".to_string(),
        978307200,
        None,
        Ok(vec![]),
        Ok(HashMap::new()),
        Ok(HashMap::new()),
    )
}

#[test]
fn the_names_are_those_of_the_database() {
    assert_eq!(ME, table::ME);
    assert_eq!(UNKNOWN, table::UNKNOWN);
    assert_eq!(FITNESS_RECEIVER, table::FITNESS_RECEIVER);
    assert_eq!(html_exporter::html::ORPHANED, table::ORPHANED);
}

#[test]
fn reactions_are_told_by_their_numbers() {
    let labels = ["Loved", "Liked", "Disliked", "Laughed", "Emphasized", "Questioned"];
    for (number, label) in labels.iter().enumerate() {
        let mut message = blank();
        message.associated_message_guid = some("p:0/guid");
        message.associated_message_type = 2000 + number as i32;
        assert!(matches!(message.variant(), Variant::Reaction(true, text) if text == *label));
        message.associated_message_type = 3000 + number as i32;
        assert!(matches!(message.variant(), Variant::Reaction(false, text) if text == *label));
        assert!(matches!(message.entry(), Entry::Reaction));
        message.date_edited = 1;
        assert!(matches!(message.variant(), Variant::Edited));
        assert!(matches!(message.entry(), Entry::Message));
    }
}

#[test]
fn stickers_and_unknown_kinds_are_told_by_their_numbers() {
    let mut message = blank();
    message.associated_message_type = 1000;
    assert!(matches!(message.variant(), Variant::Sticker));
    assert!(matches!(message.entry(), Entry::Message));
    message.associated_message_guid = some("bp:guid");
    assert!(matches!(message.entry(), Entry::Reaction));
    message.group_title = some("Name");
    assert!(matches!(message.entry(), Entry::Announcement));
    message.associated_message_type = 2006;
    assert!(matches!(message.variant(), Variant::Unknown(2006)));
}

#[test]
fn apps_are_told_by_their_bundles() {
    let mut message = blank();
    assert!(matches!(message.variant(), Variant::Normal));
    message.balloon_bundle_id = some("com.apple.messages.URLBalloonProvider");
    assert!(matches!(message.variant(), Variant::App(CustomBalloon::URL)));
    message.text = some("https://music.apple.com/album");
    assert!(matches!(message.variant(), Variant::App(CustomBalloon::Music)));
    message.balloon_bundle_id = some("com.apple.Handwriting.HandwritingProvider");
    assert!(matches!(message.variant(), Variant::App(CustomBalloon::Handwriting)));
    message.balloon_bundle_id = some("com.apple.messages.MSMessageExtensionBalloonPlugin:0000000000:com.apple.PassbookUIService.PeerPaymentMessagesExtension");
    assert!(matches!(message.variant(), Variant::App(CustomBalloon::ApplePay)));
    message.balloon_bundle_id = some("a:b:com.apple.ActivityMessagesApp.MessagesExtension");
    assert!(matches!(message.variant(), Variant::App(CustomBalloon::Fitness)));
    message.balloon_bundle_id = some("a:b:com.apple.mobileslideshow.PhotosMessagesApp:d");
    assert!(matches!(message.variant(), Variant::App(CustomBalloon::Slideshow)));
    message.balloon_bundle_id = some("a:b:com.app");
    assert!(
        matches!(message.variant(), Variant::App(CustomBalloon::Application(id)) if id == "com.app")
    );
    message.balloon_bundle_id = some("a:b");
    assert!(matches!(message.variant(), Variant::Normal));
    message.associated_message_type = 3;
    message.balloon_bundle_id = some("com.app");
    assert!(
        matches!(message.variant(), Variant::App(CustomBalloon::Application(id)) if id == "com.app")
    );
}

#[test]
fn a_reaction_names_the_part_that_it_is_about() {
    let mut message = blank();
    message.associated_message_guid = some("p:0");
    assert!(message.check());
    message.associated_message_type = 2000;
    assert!(!message.check());
    message.associated_message_guid = some("p:0/guid");
    assert!(message.check());
    message.associated_message_guid = some("bp:guid");
    assert!(message.check());
    message.associated_message_guid = None;
    assert!(message.check());
    message.associated_message_guid = some("p:0");
    message.date_edited = 5;
    assert!(message.check());
    message.date_edited = 0;
    message.associated_message_type = 1000;
    assert!(!message.check());
    message.associated_message_type = 3005;
    assert!(!message.check());
    message.associated_message_type = 3006;
    assert!(message.check());
}

#[test]
fn a_text_is_cut_into_parts() {
    let mut message = blank();
    assert_eq!(record(message).body.len(), 0);

    message = blank();
    message.text = some("");
    assert_eq!(record(message).body.len(), 0);

    message = blank();
    message.text = some("Hello there");
    let body = record(message).body;
    assert_eq!(body.len(), 1);
    assert!(matches!(&body[0], BubbleType::Text(text) if text == "Hello there"));

    message = blank();
    message.text = some("\u{FFFC}Some text\u{FFFC}\u{FFFD}");
    let body = record(message).body;
    assert_eq!(body.len(), 4);
    assert!(matches!(&body[0], BubbleType::Attachment));
    assert!(matches!(&body[1], BubbleType::Text(text) if text == "Some text"));
    assert!(matches!(&body[2], BubbleType::Attachment));
    assert!(matches!(&body[3], BubbleType::App));

    message = blank();
    message.text = some("Hello there");
    message.balloon_bundle_id = some("com.app");
    let body = record(message).body;
    assert_eq!(body.len(), 1);
    assert!(matches!(&body[0], BubbleType::App));
}

#[test]
fn services_have_names() {
    let names = [
        (some("iMessage"), "iMessage"),
        (some("SMS"), "SMS"),
        (some("RCS"), "Other(\"RCS\")"),
        (None, "Unknown"),
    ];
    for (service, name) in names {
        let mut message = blank();
        message.service = service;
        assert_eq!(record(message).service, name);
    }
}

#[test]
fn effects_are_told_by_their_names() {
    let mut message = blank();
    message.expressive_send_style_id = some("com.apple.messages.effect.CKHappyBirthdayEffect");
    assert!(matches!(record(message).effect, Expressive::Balloons));
    message = blank();
    message.expressive_send_style_id = some("com.apple.MobileSMS.expressivesend.impact");
    assert!(matches!(record(message).effect, Expressive::Slam));
    message = blank();
    message.expressive_send_style_id = some("com.apple.messages.effect.CKShootingStarEffect");
    assert!(matches!(record(message).effect, Expressive::ShootingStar));
    message = blank();
    message.expressive_send_style_id = some("new");
    assert!(matches!(record(message).effect, Expressive::Unknown(name) if name == "new"));
    assert!(matches!(record(blank()).effect, Expressive::Normal));
}

#[test]
fn every_effect_is_known() {
    let names = [
        "MobileSMS.expressivesend.gentle",
        "MobileSMS.expressivesend.invisibleink",
        "MobileSMS.expressivesend.loud",
        "messages.effect.CKConfettiEffect",
        "messages.effect.CKEchoEffect",
        "messages.effect.CKFireworksEffect",
        "messages.effect.CKHeartEffect",
        "messages.effect.CKLasersEffect",
        "messages.effect.CKSparklesEffect",
        "messages.effect.CKSpotlightEffect",
    ];
    for name in names {
        let mut message = blank();
        message.expressive_send_style_id = Some(format!("com.apple.{name}"));
        assert!(!matches!(record(message).effect, Expressive::Unknown(_) | Expressive::Normal));
    }
}

#[test]
fn the_time_until_a_message_was_read_is_told() {
    let mut message = blank();
    message.date = 674526582885055488;
    message.date_read = 674530231992568192;
    let read = record(message);
    assert_eq!(read.read_after, some("1 hour, 49 seconds"));
    assert_eq!(read.date.len(), 24);

    message = blank();
    message.date = 674526582885055488;
    message.date_delivered = 674530231992568192;
    assert_eq!(record(message).read_after, None);

    message = blank();
    message.is_from_me = true;
    message.date = 674526582885055488;
    message.date_delivered = 674526582885055488;
    assert_eq!(record(message).read_after, some(""));
}

#[test]
fn a_reaction_becomes_a_response() {
    let mut message = blank();
    message.associated_message_guid = some("p:0/guid");
    message.associated_message_type = 2001;
    let response = Response::new(&message, "Bob".to_string(), Ok(vec![])).unwrap();
    assert_eq!(response.sender, "Bob");
    assert!(matches!(response.mark, Mark::Reaction(true, label) if label == "Liked"));

    message.associated_message_type = 1000;
    let image = Attachment::new(some("/a/b.png"), some("image/png"), "b.png".to_string());
    let response = Response::new(&message, "Bob".to_string(), Ok(vec![image])).unwrap();
    match response.mark {
        Mark::Sticker(Ok(attachments)) => assert_eq!(attachments[0].transfer_name, "b.png"),
        _ => panic!("no sticker"),
    }
    let response = Response::new(&message, "Bob".to_string(), Err("why".to_string())).unwrap();
    assert!(matches!(response.mark, Mark::Sticker(Err(why)) if why == "why"));

    assert!(Response::new(&blank(), "Bob".to_string(), Ok(vec![])).is_none());
}

#[test]
fn dates_are_bounded_by_their_sum_with_the_offset() {
    assert!(check_date(674526582885055488, 978307200));
    assert!(check_date(0, i64::MAX));
    assert!(check_date(999_999_999, i64::MAX));
    assert!(!check_date(1_000_000_000, i64::MAX));
    assert!(check_date(i64::MAX, i64::MAX - 9_223_372_036));
    assert!(!check_date(i64::MAX, i64::MAX - 9_223_372_035));
    assert!(check_date(0, i64::MIN));
    assert!(check_date(-999_999_999, i64::MIN));
    assert!(!check_date(-1_000_000_000, i64::MIN));
    assert!(check_date(i64::MIN, i64::MIN + 9_223_372_036));
    assert!(!check_date(i64::MIN, i64::MIN + 9_223_372_035));
}

#[test]
fn all_dates_that_are_told_are_bounded() {
    let mut message = blank();
    assert!(message.check_dates(i64::MAX));
    message.date_read = 1_000_000_000;
    assert!(message.check_dates(i64::MAX));
    message.date = 1;
    assert!(!message.check_dates(i64::MAX));
    assert!(message.check_dates(i64::MAX - 1));
    message.is_from_me = true;
    assert!(message.check_dates(i64::MAX));
    message.date_delivered = 1_000_000_000;
    assert!(!message.check_dates(i64::MAX));
    message.date = 1_000_000_000;
    message.date_delivered = 0;
    assert!(!message.check_dates(i64::MAX));
}

#[test]
fn runs_of_text_are_trimmed_and_short_ones_are_left_out() {
    let mut message = blank();
    message.text = some("a\u{FFFC}b");
    let body = record(message).body;
    assert_eq!(body.len(), 2);
    assert!(matches!(&body[0], BubbleType::Attachment));
    assert!(matches!(&body[1], BubbleType::Text(text) if text == "b"));

    message = blank();
    message.text = some("\u{FFFC} One two \u{FFFD}\u{A0}\u{FFFC}Three\n");
    let body = record(message).body;
    assert_eq!(body.len(), 5);
    assert!(matches!(&body[0], BubbleType::Attachment));
    assert!(matches!(&body[1], BubbleType::Text(text) if text == "One two"));
    assert!(matches!(&body[2], BubbleType::App));
    assert!(matches!(&body[3], BubbleType::Attachment));
    assert!(matches!(&body[4], BubbleType::Text(text) if text == "Three"));
}

#[test]
fn dates_before_the_offset_are_told() {
    let mut message = blank();
    message.date = -3_600_000_000_000;
    message.date_read = 49_999_999_999;
    let read = record(message);
    assert_eq!(read.read_after, some("1 hour, 49 seconds"));
    assert_eq!(read.date.len(), 24);
    assert!(read.date.contains(", 2000 ") || read.date.contains(", 2001 "));

    message = blank();
    message.date = 49_000_000_000;
    message.date_read = -1_000_000_000;
    assert_eq!(record(message).read_after, None);

    // Both lie in the second of the offset itself
    message = blank();
    message.date = 999_999_999;
    message.date_read = -999_999_999;
    assert_eq!(record(message).read_after, some(""));
}

#[test]
fn dates_out_of_the_calendar_are_invalid() {
    for offset in [9_000_000_000_000, -9_000_000_000_000, i64::MAX - 1, i64::MIN] {
        let mut message = blank();
        message.date = 1_000_000_000;
        message.date_read = 1_500_000_000;
        let read = Record::new(
            message,
            "Ann".to_string(),
            offset,
            None,
            Ok(vec![]),
            Ok(HashMap::new()),
            Ok(HashMap::new()),
        );
        assert_eq!(read.date, "Timestamp is invalid: 1000000000");
        assert_eq!(read.read_after, None);
    }
}
