use html_exporter::html::{Config, HTML};
use html_exporter::tables::Message;
use imessage_database::util::dates::get_offset;

fn blank() -> Message {
    Message {
        rowid: i32::default(),
        guid: String::default(),
        text: None,
        service: Some("iMessage".to_string()),
        handle_id: i32::default(),
        subject: None,
        date: i64::default(),
        date_read: i64::default(),
        date_delivered: i64::default(),
        is_from_me: false,
        is_read: false,
        group_title: None,
        associated_message_guid: None,
        associated_message_type: i32::default(),
        balloon_bundle_id: None,
        expressive_send_style_id: None,
        thread_originator_guid: None,
        thread_originator_part: None,
        date_edited: 0,
        chat_id: None,
        num_attachments: 0,
        num_replies: 0,
    }
}

fn fake_config() -> Config {
    Config {
        export_path: "exports".to_string(),
        attachment_path: "exports/attachments".to_string(),
        home: "/home/someone".to_string(),
        style: "body {}".to_string(),
        offset: get_offset(),
        no_copy: true,
    }
}

/// The seconds by which the clock of this machine is ahead of one that is seven hours behind UTC,
/// at the given date.
fn ahead_of_pacific_daylight_time(date: i64) -> i64 {
    let row = imessage_database::tables::messages::Message {
        rowid: 0,
        guid: String::new(),
        text: None,
        service: None,
        handle_id: 0,
        subject: None,
        date,
        date_read: 0,
        date_delivered: 0,
        is_from_me: false,
        is_read: false,
        group_title: None,
        associated_message_guid: None,
        associated_message_type: 0,
        balloon_bundle_id: None,
        expressive_send_style_id: None,
        thread_originator_guid: None,
        thread_originator_part: None,
        date_edited: 0,
        chat_id: None,
        num_attachments: 0,
        num_replies: 0,
    };
    let local = row.date(&get_offset()).unwrap();
    i64::from(local.offset().local_minus_utc()) + 7 * 3600
}

#[test]
fn can_create() {
    let config = fake_config();
    let exporter = HTML::new(&config);
    assert_eq!(exporter.files.len(), 0);
}

#[test]
fn can_get_time_valid() {
    // Create fake message
    let mut message = blank();
    // May 17, 2022  8:29:42 PM
    message.date = 674526582885055488;
    // May 17, 2022  8:29:42 PM
    message.date_delivered = 674526582885055488;
    // May 17, 2022  9:30:31 PM
    message.date_read = 674530231992568192;

    // Create exporter
    let mut config = fake_config();
    config.offset -= ahead_of_pacific_daylight_time(message.date);
    let exporter = HTML::new(&config);

    assert_eq!(
        exporter.get_time(&message),
        "May 17, 2022  5:29:42 PM (Read by you after 1 hour, 49 seconds)"
    );
}

#[test]
fn can_get_time_invalid() {
    // Create fake message
    let mut message = blank();
    // May 17, 2022  9:30:31 PM
    message.date = 674530231992568192;
    // May 17, 2022  9:30:31 PM
    message.date_delivered = 674530231992568192;
    // Wed May 18 2022 02:36:24 GMT+0000
    message.date_read = 674526582885055488;

    // Create exporter
    let mut config = fake_config();
    config.offset -= ahead_of_pacific_daylight_time(message.date);
    let exporter = HTML::new(&config);

    assert_eq!(exporter.get_time(&message), "May 17, 2022  6:30:31 PM");
}

#[test]
fn can_add_line_no_indent() {
    // Create exporter
    let config = fake_config();
    let exporter = HTML::new(&config);

    // Create sample data
    let mut s = String::new();
    exporter.add_line(&mut s, "hello world", "", "");

    assert_eq!(s, "hello world\n".to_string());
}

#[test]
fn can_add_line() {
    // Create exporter
    let config = fake_config();
    let exporter = HTML::new(&config);

    // Create sample data
    let mut s = String::new();
    exporter.add_line(&mut s, "hello world", "  ", "");

    assert_eq!(s, "  hello world\n".to_string());
}

#[test]
fn can_add_line_pre_post() {
    // Create exporter
    let config = fake_config();
    let exporter = HTML::new(&config);

    // Create sample data
    let mut s = String::new();
    exporter.add_line(&mut s, "hello world", "<div>", "</div>");

    assert_eq!(s, "<div>hello world</div>\n".to_string());
}

#[test]
fn an_empty_part_adds_no_line() {
    let config = fake_config();
    let exporter = HTML::new(&config);
    let mut s = "kept".to_string();
    exporter.add_line(&mut s, "", "<div>", "</div>");
    assert_eq!(s, "kept");
}

#[test]
fn a_sent_message_was_read_by_them() {
    let mut message = blank();
    message.is_from_me = true;
    message.date = 674526582885055488;
    message.date_delivered = 674526582885055488 + 90_000_000_000_000;
    let mut config = fake_config();
    config.offset -= ahead_of_pacific_daylight_time(message.date);
    let exporter = HTML::new(&config);
    assert_eq!(
        exporter.get_time(&message),
        "May 17, 2022  5:29:42 PM (Read by them after 1 day, 1 hour)"
    );
}

#[test]
fn a_message_read_within_its_second_says_nothing_of_it() {
    let mut message = blank();
    message.date = 674526582885055488;
    message.date_read = 674526582985055488;
    let config = fake_config();
    let exporter = HTML::new(&config);
    assert!(!exporter.get_time(&message).contains("Read by"));
}

#[test]
fn a_date_out_of_the_calendar_is_said_to_be_invalid() {
    let mut config = fake_config();
    config.offset = 9_000_000_000_000;
    let exporter = HTML::new(&config);
    let mut message = blank();
    message.date = 5;
    assert_eq!(exporter.get_time(&message), "Timestamp is invalid: 5");
}

#[test]
fn an_announcement_names_the_conversation() {
    let mut message = blank();
    message.date = 674526582885055488;
    message.group_title = Some("Hikers".to_string());
    let mut config = fake_config();
    config.offset -= ahead_of_pacific_daylight_time(message.date);
    let exporter = HTML::new(&config);
    assert_eq!(
        exporter.format_annoucement(&message, "Me"),
        "\n<div class =\"announcement\"><p><span class=\"timestamp\">May 17, 2022  5:29:42 PM</span> You named the conversation <b>Hikers</b></p></div>\n"
    );
    message.group_title = None;
    assert_eq!(
        exporter.format_annoucement(&message, "Ann"),
        "\n<div class =\"announcement\"><p><span class=\"timestamp\">May 17, 2022  5:29:42 PM</span> Ann named the conversation <b>Unknown</b></p></div>\n"
    );
}
