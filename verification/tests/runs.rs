use std::collections::HashMap;

use html_exporter::attachments::Outcome;
use html_exporter::html::{Append, Config, Conversation, HTML};
use html_exporter::records::Record;
use html_exporter::runs::{Action, Event, Export};
use html_exporter::tables::{Attachment, Message};

fn config() -> Config {
    Config {
        export_path: "out".to_string(),
        attachment_path: "out/attachments".to_string(),
        home: "/home/ann".to_string(),
        style: "p {}".to_string(),
        offset: 978307200,
        no_copy: false,
    }
}

fn blank() -> Message {
    Message {
        rowid: 1,
        guid: "guid".to_string(),
        text: Some("\u{FFFC}".to_string()),
        service: Some("iMessage".to_string()),
        handle_id: 1,
        subject: None,
        date: 674526582885055488,
        date_read: 0,
        date_delivered: 0,
        is_from_me: false,
        is_read: false,
        group_title: None,
        associated_message_guid: None,
        associated_message_type: 0,
        balloon_bundle_id: None,
        expressive_send_style_id: None,
        thread_originator_guid: None,
        thread_originator_part: None,
        date_edited: 0,
        chat_id: None,
        num_attachments: 1,
        num_replies: 0,
    }
}

fn record(attachments: Result<Vec<Attachment>, String>) -> Record {
    Record::new(
        blank(),
        "Ann".to_string(),
        978307200,
        None,
        attachments,
        Ok(HashMap::new()),
        Ok(HashMap::new()),
    )
}

fn paths(writes: &Vec<Append>) -> Vec<&str> {
    writes.iter().map(|write| write.path.as_str()).collect()
}

#[test]
fn a_run_goes_from_the_headers_to_the_footers() {
    let config = config();
    let mut export = Export::new(HTML::new(&config));
    let chat = Conversation { id: 1, filename: "Ann".to_string() };
    assert!(matches!(export.step(Event::End), Action::Nothing));
    match export.step(Event::Start) {
        Action::Append(writes) => assert_eq!(paths(&writes), vec!["out/orphaned.html"; 4]),
        _ => panic!("no headers"),
    }
    assert!(matches!(export.step(Event::Start), Action::Nothing));

    let mut message = blank();
    message.associated_message_type = 2000;
    assert!(matches!(export.step(Event::Read(&message)), Action::Nothing));
    message.group_title = Some("Hikers".to_string());
    assert!(matches!(export.step(Event::Read(&message)), Action::Announce));
    let announcement = Event::Announcement {
        conversation: Some(&chat),
        exists: false,
        message: &message,
        sender: "Ann",
    };
    match export.step(announcement) {
        Action::Append(writes) => {
            assert_eq!(paths(&writes), vec!["out/Ann.html"; 5]);
            assert_eq!(writes[4].text, HTML::new(&config).format_annoucement(&message, "Ann"));
            assert!(writes[4].text.contains(", 2022 "));
            assert!(writes[4].text.contains("Ann named the conversation <b>Hikers</b>"));
        }
        _ => panic!("no announcement"),
    }

    assert!(matches!(export.step(Event::Read(&blank())), Action::Load));
    let image = Attachment::new(
        Some("/a/b.png".to_string()),
        Some("image/png".to_string()),
        "b.png".to_string(),
    );
    let loaded = record(Ok(vec![image]));
    let mut outcomes = vec![];
    match export.step(Event::Message {
        conversation: Some(&chat),
        exists: true,
        record: &loaded,
        outcomes: &outcomes,
    }) {
        Action::Transfer(transfer) => assert_eq!(transfer.source, "/a/b.png"),
        _ => panic!("no transfer"),
    }
    outcomes.push(Outcome::Stored("copy".to_string()));
    match export.step(Event::Message {
        conversation: None,
        exists: true,
        record: &loaded,
        outcomes: &outcomes,
    }) {
        Action::Append(writes) => {
            assert_eq!(paths(&writes), vec!["out/orphaned.html"]);
            assert!(writes[0].text.contains("<img src=\"copy\" loading=\"lazy\">"));
        }
        _ => panic!("no message"),
    }

    match export.step(Event::End) {
        Action::Finish(writes) => {
            assert_eq!(paths(&writes), vec!["out/Ann.html", "out/orphaned.html"])
        }
        _ => panic!("no footers"),
    }
    assert!(matches!(export.step(Event::End), Action::Nothing));
}

#[test]
fn a_failure_ends_the_run_without_footers() {
    let config = config();
    let mut export = Export::new(HTML::new(&config));
    export.step(Event::Start);
    let broken = record(Err("broken".to_string()));
    match export.step(Event::Message {
        conversation: None,
        exists: true,
        record: &broken,
        outcomes: &vec![],
    }) {
        Action::Stop(why) => assert_eq!(why, "broken"),
        _ => panic!("not stopped"),
    }
    assert!(matches!(export.step(Event::End), Action::Nothing));

    let mut export = Export::new(HTML::new(&config));
    export.step(Event::Start);
    match export.step(Event::Unreadable("no row".to_string())) {
        Action::Stop(why) => assert_eq!(why, "no row"),
        _ => panic!("not stopped"),
    }
    assert!(matches!(export.step(Event::End), Action::Nothing));
}
