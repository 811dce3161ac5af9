use std::collections::HashMap;

use html_exporter::attachments::{Flow, Outcome};
use html_exporter::balloons::{AppMessage, Parsed, URLMessage};
use html_exporter::captions::{announcement, stamp};
use html_exporter::html::{Config, HTML};
use html_exporter::records::{Mark, Record, Response};
use html_exporter::tables::{
    Attachment, BubbleType, CustomBalloon, Expressive, Message, Variant,
};

fn config(no_copy: bool) -> Config {
    Config {
        export_path: "out".to_string(),
        attachment_path: "out/attachments".to_string(),
        home: "/home/ann".to_string(),
        style: String::new(),
        offset: 978307200,
        no_copy,
    }
}

fn some(text: &str) -> Option<String> {
    Some(text.to_string())
}

fn blank() -> Message {
    Message {
        rowid: 1,
        guid: "guid".to_string(),
        text: None,
        service: Some("iMessage".to_string()),
        handle_id: 1,
        subject: None,
        date: 0,
        date_read: 0,
        date_delivered: 0,
        is_from_me: false,
        is_read: false,
        group_title: None,
        associated_message_guid: None,
        associated_message_type: 0,
        balloon_bundle_id: None,
        expressive_send_style_id: None,
        thread_originator_guid: None,
        thread_originator_part: None,
        date_edited: 0,
        chat_id: None,
        num_attachments: 0,
        num_replies: 0,
    }
}

fn record(body: Vec<BubbleType<String>>) -> Record {
    Record {
        message: blank(),
        sender: "Ann".to_string(),
        variant: Variant::Normal,
        service: "iMessage".to_string(),
        date: "today".to_string(),
        read_after: None,
        effect: Expressive::Normal,
        body,
        payload: None,
        attachments: Ok(vec![]),
        replies: Ok(HashMap::new()),
        reactions: Ok(HashMap::new()),
    }
}

fn words(text: &str) -> BubbleType<String> {
    BubbleType::Text(text.to_string())
}

fn image(name: &str) -> Attachment {
    Attachment::new(Some(format!("/a/{name}")), some("image/png"), name.to_string())
}

fn reaction(sender: &str, added: bool, label: &str) -> Response {
    Response {
        sender: sender.to_string(),
        mark: Mark::Reaction(added, label.to_string()),
    }
}

fn rendered(record: &Record, indent: usize) -> String {
    let config = config(true);
    let html = HTML::new(&config);
    match html.format_message(record, indent, &vec![], 0) {
        Flow::Go((text, 0)) => text,
        Flow::Failed(why) => panic!("{why}"),
        _ => panic!("not rendered"),
    }
}

const RECEIVED: &str = "<div class=\"message\">\n<div class=\"received\">\n<p><span class=\"timestamp\">today</span>\n<span class=\"sender\">Ann</span></p>\n";
const END: &str = "</div>\n</div>\n";

fn part(content: &str) -> String {
    format!("<hr><div class=\"message_part\">\n{content}</div>\n")
}

#[test]
fn a_text_is_shown_in_a_bubble() {
    assert_eq!(
        rendered(&record(vec![words("Hello")]), 0),
        format!("{RECEIVED}{}{END}", part("<span class=\"bubble\">Hello</span>\n"))
    );
}

#[test]
fn a_message_without_parts_is_a_block() {
    assert_eq!(rendered(&record(vec![]), 0), format!("{RECEIVED}{END}"));
}

#[test]
fn a_sent_message_names_its_service() {
    let mut sent = record(vec![]);
    sent.message.is_from_me = true;
    sent.message.subject = some("Plans");
    sent.read_after = some("1 hour");
    assert_eq!(
        rendered(&sent, 0),
        "<div class=\"message\">\n<div class=\"sent iMessage\">\n<p><span class=\"timestamp\">today (Read by them after 1 hour)</span>\n<span class=\"sender\">Ann</span></p>\n<p>Subject: <span class=\"subject\">Plans</span></p>\n</div>\n</div>\n"
    );
}

#[test]
fn a_fitness_message_speaks_of_the_reader() {
    let text = "$(kIMTranscriptPluginBreadcrumbTextReceiverIdentifier) did it";
    assert_eq!(
        rendered(&record(vec![words(text)]), 0),
        format!("{RECEIVED}{}{END}", part("<span class=\"bubble\">You did it</span>\n"))
    );
}

#[test]
fn an_effect_is_told_after_each_part() {
    let mut sent = record(vec![words("a"), words("b")]);
    sent.message.expressive_send_style_id = some("x");
    sent.effect = Expressive::ShootingStar;
    let effect = "<span class=\"expressive\">Sent with Shooting Start</span>\n";
    assert_eq!(
        rendered(&sent, 0),
        format!(
            "{RECEIVED}{}{effect}{}{effect}{END}",
            part("<span class=\"bubble\">a</span>\n"),
            part("<span class=\"bubble\">b</span>\n"),
        )
    );
}

#[test]
fn effects_have_texts() {
    let config = config(true);
    let html = HTML::new(&config);
    let texts = [
        (Expressive::Confetti, "Sent with Confetti"),
        (Expressive::Echo, "Sent with Echo"),
        (Expressive::Fireworks, "Sent with Fireworks"),
        (Expressive::Balloons, "Sent with Balloons"),
        (Expressive::Heart, "Sent with Heart"),
        (Expressive::Lasers, "Sent with Lasers"),
        (Expressive::ShootingStar, "Sent with Shooting Start"),
        (Expressive::Sparkles, "Sent with Sparkles"),
        (Expressive::Spotlight, "Sent with Spotlight"),
        (Expressive::Slam, "Sent with Slam"),
        (Expressive::Loud, "Sent with Loud"),
        (Expressive::Gentle, "Sent with Gentle"),
        (Expressive::InvisibleInk, "Sent with Invisible Ink"),
        (Expressive::Unknown("new".to_string()), "new"),
        (Expressive::Normal, ""),
    ];
    for (effect, text) in texts {
        assert_eq!(html.format_expressive(&effect), text);
    }
}

#[test]
fn a_reply_on_its_own_says_so() {
    let mut reply = record(vec![]);
    reply.message.thread_originator_guid = some("guid");
    assert_eq!(
        rendered(&reply, 0),
        format!("{RECEIVED}<span class=\"reply_context\">This message responded to an earlier message.</span>\n{END}")
    );
    assert_eq!(rendered(&reply, 1), format!("{RECEIVED}{END}"));
}

#[test]
fn reactions_and_replies_follow_their_part() {
    let mut message = record(vec![words("a"), words("b")]);
    let mut reactions = HashMap::new();
    reactions.insert(
        0,
        vec![reaction("Bob", true, "Loved"), reaction("Eve", false, "Liked")],
    );
    message.reactions = Ok(reactions);
    let mut shown = record(vec![words("c")]);
    shown.message.thread_originator_guid = some("guid");
    let mut hidden = record(vec![words("d")]);
    hidden.variant = Variant::Reaction(true, "Loved".to_string());
    let mut replies = HashMap::new();
    replies.insert(1, vec![hidden, shown]);
    replies.insert(9, vec![record(vec![words("e")])]);
    message.replies = Ok(replies);
    let reply = format!("{RECEIVED}{}{END}", part("<span class=\"bubble\">c</span>\n"));
    assert_eq!(
        rendered(&message, 0),
        format!(
            "{RECEIVED}{}<div class=\"reactions\"><hr><p>Reactions:</p>\n<div class=\"reaction\"><span class=\"reaction\"><b>Loved</b> by Bob</span></div>\n</div>\n{}<div class=\"replies\">\n<div class=\"reply\">{reply}</div>\n</div>\n{END}",
            part("<span class=\"bubble\">a</span>\n"),
            part("<span class=\"bubble\">b</span>\n"),
        )
    );
}

#[test]
fn stickers_that_answer_a_message_are_no_replies() {
    let mut message = record(vec![words("a")]);
    let mut sticker = record(vec![words("s")]);
    sticker.variant = Variant::Sticker;
    let mut replies = HashMap::new();
    replies.insert(0, vec![sticker]);
    message.replies = Ok(replies);
    assert!(rendered(&message, 0).contains("<span class=\"bubble\">s</span>"));
    message.replies.as_mut().unwrap().get_mut(&0).unwrap()[0].message.associated_message_guid =
        some("guid");
    assert!(!rendered(&message, 0).contains("<span class=\"bubble\">s</span>"));
}

#[test]
fn attachments_are_shown_in_their_order() {
    let mut message = record(vec![
        BubbleType::Attachment,
        words("a"),
        BubbleType::Attachment,
        BubbleType::Attachment,
    ]);
    message.attachments = Ok(vec![image("1.png"), image("2.png")]);
    assert_eq!(
        rendered(&message, 0),
        format!(
            "{RECEIVED}{}{}{}{}{END}",
            part("<img src=\"/a/1.png\" loading=\"lazy\">\n"),
            part("<span class=\"bubble\">a</span>\n"),
            part("<img src=\"/a/2.png\" loading=\"lazy\">\n"),
            part("Attachment does not exist!\n"),
        )
    );
}

#[test]
fn rendering_goes_on_with_what_came_of_transfers() {
    let config = config(false);
    let html = HTML::new(&config);
    let mut message = record(vec![BubbleType::Attachment, BubbleType::Attachment]);
    message.attachments = Ok(vec![image("1.png"), image("2.png")]);
    let mut outcomes: Vec<Outcome> = vec![];
    match html.format_message(&message, 0, &outcomes, 0) {
        Flow::Wanted(transfer) => assert_eq!(transfer.source, "/a/1.png"),
        _ => panic!("not wanted"),
    }
    outcomes.push(Outcome::Missing);
    // An attachment that is lost keeps its turn
    match html.format_message(&message, 0, &outcomes, 0) {
        Flow::Wanted(transfer) => assert_eq!(transfer.source, "/a/1.png"),
        _ => panic!("not wanted"),
    }
    outcomes.push(Outcome::Stored("copy".to_string()));
    outcomes.push(Outcome::Missing);
    let expected = format!(
        "{RECEIVED}{}{}{END}",
        part("<span class=\"attachment_error\">Unable to locate attachment: 1.png</span>\n"),
        part("<img src=\"copy\" loading=\"lazy\">\n"),
    );
    match html.format_message(&message, 0, &outcomes, 0) {
        Flow::Go((text, 2)) => assert_eq!(text, expected),
        _ => panic!("not rendered"),
    }
}

#[test]
fn stickers_are_shown_with_their_sender() {
    let config = config(false);
    let html = HTML::new(&config);
    let sticker = |attachments| Response {
        sender: "Bob".to_string(),
        mark: Mark::Sticker(attachments),
    };
    match html.format_reaction(&sticker(Ok(vec![image("s.png")])), &vec![], 0) {
        Flow::Wanted(transfer) => assert_eq!(transfer.source, "/a/s.png"),
        _ => panic!("not wanted"),
    }
    let stored = vec![Outcome::Stored("s".to_string())];
    match html.format_reaction(&sticker(Ok(vec![image("s.png")])), &stored, 0) {
        Flow::Go((text, 1)) => assert_eq!(
            text,
            "<img src=\"s\" loading=\"lazy\"><span class=\"reaction\"> from Bob</span>"
        ),
        _ => panic!("not rendered"),
    }
    let lost = "<span class=\"reaction\">Sticker not found!</span>";
    match html.format_reaction(&sticker(Ok(vec![image("s.png")])), &vec![Outcome::Missing], 0) {
        Flow::Go((text, 1)) => assert_eq!(text, lost),
        _ => panic!("not rendered"),
    }
    match html.format_reaction(&sticker(Ok(vec![])), &vec![], 0) {
        Flow::Go((text, 0)) => assert_eq!(text, lost),
        _ => panic!("not rendered"),
    }
    match html.format_reaction(&sticker(Err("broken".to_string())), &vec![], 0) {
        Flow::Failed(why) => assert_eq!(why, "broken"),
        _ => panic!("not failed"),
    }
    match html.format_reaction(&reaction("Bob", false, "Loved"), &vec![], 0) {
        Flow::Go((text, 0)) => assert_eq!(text, ""),
        _ => panic!("not rendered"),
    }
}

#[test]
fn what_could_not_be_loaded_fails_the_message() {
    let config = config(true);
    let html = HTML::new(&config);
    let why = |record: &Record| match html.format_message(record, 0, &vec![], 0) {
        Flow::Failed(why) => why,
        _ => panic!("not failed"),
    };
    let mut message = record(vec![words("a")]);
    message.reactions = Err("reactions".to_string());
    assert_eq!(why(&message), "reactions");
    message.replies = Err("replies".to_string());
    assert_eq!(why(&message), "replies");
    message.attachments = Err("attachments".to_string());
    assert_eq!(why(&message), "attachments");

    let mut reply = record(vec![]);
    reply.attachments = Err("in a reply".to_string());
    let mut replies = HashMap::new();
    replies.insert(0, vec![reply]);
    let mut message = record(vec![words("a")]);
    message.replies = Ok(replies);
    assert_eq!(why(&message), "in a reply");
    // What is not shown does not fail
    message.body = vec![];
    assert_eq!(rendered(&message, 0), format!("{RECEIVED}{END}"));
}

fn blank_balloon() -> AppMessage {
    AppMessage {
        image: None,
        url: None,
        title: None,
        subtitle: None,
        caption: None,
        subcaption: None,
        trailing_caption: None,
        trailing_subcaption: None,
        app_name: None,
        ldtext: None,
    }
}

fn app(kind: CustomBalloon<String>, payload: Option<Result<Parsed, String>>) -> Record {
    let mut message = record(vec![BubbleType::App]);
    message.variant = Variant::App(kind);
    message.payload = payload;
    message
}

fn parsed() -> Option<Result<Parsed, String>> {
    Some(Ok(Parsed {
        url: Ok(URLMessage { title: some("T"), summary: None, url: None, images: vec![] }),
        app: Ok(blank_balloon()),
    }))
}

fn misfit() -> Option<Result<Parsed, String>> {
    Some(Ok(Parsed { url: Err("no link".to_string()), app: Err("no app".to_string()) }))
}

fn bubble(record: &Record) -> String {
    let text = rendered(record, 0);
    let start = RECEIVED.len() + "<hr><div class=\"message_part\">\n".len();
    text[start..text.len() - "\n</div>\n</div>\n</div>\n".len()].to_string()
}

#[test]
fn app_messages_are_shown_by_their_kind() {
    let name = |name: &str| {
        format!("<div class=\"app\"><div class=\"app_header\"><div class=\"name\">{name}</div></div></div>")
    };
    assert_eq!(bubble(&app(CustomBalloon::Application("com.app".to_string()), parsed())), name("com.app"));
    assert_eq!(bubble(&app(CustomBalloon::ApplePay, parsed())), name("Apple Pay"));
    assert_eq!(bubble(&app(CustomBalloon::Fitness, parsed())), name("Fitness"));
    assert_eq!(bubble(&app(CustomBalloon::Slideshow, parsed())), name("Slideshow"));
    assert_eq!(
        bubble(&app(CustomBalloon::Handwriting, parsed())),
        "<div class=\"app\">Handwritten messages are not yet supported!</div>"
    );
    let link = "<div class=\"app\"><div class=\"app_header\"></div><div class=\"app_footer\"><div class=\"caption\">T</div></div></div>";
    assert_eq!(bubble(&app(CustomBalloon::URL, parsed())), link);
    assert_eq!(bubble(&app(CustomBalloon::Music, parsed())), link);
}

#[test]
fn app_messages_that_cannot_be_read_say_why() {
    let error = |why: &str| {
        format!("<div class=\"app_error\">Unable to format app message: {why}</div>")
    };
    assert_eq!(
        bubble(&record(vec![BubbleType::App])),
        error("Message is not an app message!")
    );
    for kind in [CustomBalloon::URL, CustomBalloon::Fitness] {
        assert_eq!(bubble(&app(kind, None)), error("Unable to acquire payload data!"));
    }
    for kind in [CustomBalloon::URL, CustomBalloon::Fitness] {
        assert_eq!(bubble(&app(kind, Some(Err("lost".to_string())))), error("lost"));
    }
    assert_eq!(bubble(&app(CustomBalloon::URL, misfit())), error("no link"));
    assert_eq!(bubble(&app(CustomBalloon::Fitness, misfit())), error("no app"));
}

#[test]
fn the_text_stands_for_a_link_that_cannot_be_read() {
    let with_text = |kind: CustomBalloon<String>, payload| {
        let mut message = app(kind, payload);
        message.message.text = some("https://a.b");
        bubble(&message)
    };
    let text = "<div class=\"app\">https://a.b</div>";
    assert_eq!(with_text(CustomBalloon::URL, None), text);
    assert_eq!(with_text(CustomBalloon::Music, misfit()), text);
    let error = "<div class=\"app_error\">Unable to format app message: ";
    assert!(with_text(CustomBalloon::URL, Some(Err("lost".to_string()))).starts_with(error));
    assert!(with_text(CustomBalloon::Fitness, None).starts_with(error));
    assert!(with_text(CustomBalloon::Fitness, misfit()).starts_with(error));
}

#[test]
fn a_balloon_waits_for_its_picture() {
    let config = config(false);
    let html = HTML::new(&config);
    let mut message = app(CustomBalloon::Application("com.app".to_string()), parsed());
    message.attachments = Ok(vec![image("1.png")]);
    match html.format_message(&message, 0, &vec![], 0) {
        Flow::Wanted(transfer) => assert_eq!(transfer.source, "/a/1.png"),
        _ => panic!("not wanted"),
    }
    let stored = vec![Outcome::Stored("copy".to_string())];
    match html.format_message(&message, 0, &stored, 0) {
        Flow::Go((text, 1)) => assert!(text.contains("<img src=\"copy\" loading=\"lazy\">")),
        _ => panic!("not rendered"),
    }
}

#[test]
fn stamps_and_announcements_are_texts() {
    assert_eq!(stamp("d", &some("1 day"), false), "d (Read by you after 1 day)");
    assert_eq!(stamp("d", &some("1 day"), true), "d (Read by them after 1 day)");
    assert_eq!(stamp("d", &some(""), true), "d");
    assert_eq!(stamp("d", &None, true), "d");
    assert_eq!(
        announcement("d", "Me", &some("Hikers")),
        "\n<div class =\"announcement\"><p><span class=\"timestamp\">d</span> You named the conversation <b>Hikers</b></p></div>\n"
    );
    assert_eq!(
        announcement("d", "Ann", &None),
        "\n<div class =\"announcement\"><p><span class=\"timestamp\">d</span> Ann named the conversation <b>Unknown</b></p></div>\n"
    );
}
