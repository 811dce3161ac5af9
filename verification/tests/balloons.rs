use html_exporter::attachments::Outcome;
use html_exporter::balloons::{AppMessage, PlistParseError, URLMessage};
use html_exporter::html::{Config, HTML};
use html_exporter::tables::Attachment;
use imessage_database::error::plist::PlistParseError as Outside;

fn config(no_copy: bool) -> Config {
    Config {
        export_path: "exports".to_string(),
        attachment_path: "exports/attachments".to_string(),
        home: "/home/ann".to_string(),
        style: String::new(),
        offset: 0,
        no_copy,
    }
}

fn some(text: &str) -> Option<String> {
    Some(text.to_string())
}

fn blank_app() -> AppMessage {
    AppMessage {
        image: None,
        url: None,
        title: None,
        subtitle: None,
        caption: None,
        subcaption: None,
        trailing_caption: None,
        trailing_subcaption: None,
        app_name: None,
        ldtext: None,
    }
}

fn full_app() -> AppMessage {
    AppMessage {
        image: some("i.png"),
        url: some("https://a.b"),
        title: some("T"),
        subtitle: some("S"),
        caption: some("C"),
        subcaption: some("SC"),
        trailing_caption: some("TC"),
        trailing_subcaption: some("TSC"),
        app_name: some("App"),
        ldtext: some("L"),
    }
}

#[test]
fn a_link_preview_is_a_link() {
    let config = config(true);
    let html = HTML::new(&config);
    let balloon = URLMessage {
        title: some("Title"),
        summary: some("Summary"),
        url: some("https://a.b"),
        images: vec!["1.png".to_string(), "2.png".to_string()],
    };
    assert_eq!(
        html.format_url(&balloon),
        "<a href=\"https://a.b\"><div class=\"app_header\"><img src=\"1.png\" loading=\"lazy\"><img src=\"2.png\" loading=\"lazy\"></div><div class=\"app_footer\"><div class=\"caption\">Title</div><div class=\"subcaption\"><xmp>Summary</xmp></div></div></a>"
    );
}

#[test]
fn a_bare_link_preview_is_a_block() {
    let config = config(true);
    let html = HTML::new(&config);
    let balloon = URLMessage { title: None, summary: None, url: None, images: vec![] };
    assert_eq!(html.format_url(&balloon), "<div class=\"app_header\"></div>");
    let balloon = URLMessage { title: None, summary: some("S"), url: None, images: vec![] };
    assert_eq!(
        html.format_url(&balloon),
        "<div class=\"app_header\"></div><div class=\"app_footer\"><div class=\"subcaption\"><xmp>S</xmp></div></div>"
    );
}

#[test]
fn a_balloon_shows_all_its_texts() {
    let config = config(true);
    let html = HTML::new(&config);
    match html.balloon_to_html(&full_app(), "com.app", &mut vec![], &vec![], 0) {
        (Ok(text), 0) => assert_eq!(
            text,
            "<a href=\"https://a.b\"><div class=\"app_header\"><img src=\"i.png\"><div class=\"name\">App</div><div class=\"image_title\">T</div><div class=\"image_subtitle\">S</div><div class=\"ldtext\">L</div></div><div class=\"app_footer\"><div class=\"caption\">C</div><div class=\"subcaption\">SC</div><div class=\"trailing_caption\">TC</div><div class=\"trailing_subcaption\">TSC</div></div></a>"
        ),
        _ => panic!("not rendered"),
    }
}

#[test]
fn an_empty_balloon_shows_the_bundle() {
    let config = config(true);
    let html = HTML::new(&config);
    match html.format_generic_app(&blank_app(), "com.app", &mut vec![], &vec![], 0) {
        (Ok(text), 0) => assert_eq!(
            text,
            "<div class=\"app_header\"><div class=\"name\">com.app</div></div>"
        ),
        _ => panic!("not rendered"),
    }
}

#[test]
fn the_first_attachment_stands_for_the_image() {
    let config = config(false);
    let html = HTML::new(&config);
    let mut attachments = vec![Attachment::new(
        some("/a/b.png"),
        some("image/png"),
        "b.png".to_string(),
    )];
    match html.format_generic_app(&blank_app(), "com.app", &mut attachments, &vec![], 0) {
        (Err(transfer), 0) => assert_eq!(transfer.source, "/a/b.png"),
        _ => panic!("not wanted"),
    }
    let stored = vec![Outcome::Stored("c.png".to_string())];
    match html.format_generic_app(&blank_app(), "com.app", &mut attachments, &stored, 0) {
        (Ok(text), 1) => assert_eq!(
            text,
            "<div class=\"app_header\"><img src=\"c.png\" loading=\"lazy\"><div class=\"name\">com.app</div></div>"
        ),
        _ => panic!("not rendered"),
    }
    assert_eq!(attachments[0].copied_path, some("c.png"));
    match html.format_generic_app(&blank_app(), "com.app", &mut attachments, &vec![Outcome::Missing], 0)
    {
        (Ok(text), 1) => assert_eq!(
            text,
            "<div class=\"app_header\"><div class=\"name\">com.app</div></div>"
        ),
        _ => panic!("not rendered"),
    }
    // A balloon with an image of its own needs no attachment
    match html.format_generic_app(&full_app(), "com.app", &mut attachments, &vec![], 0) {
        (Ok(text), 0) => assert!(text.contains("<img src=\"i.png\">")),
        _ => panic!("not rendered"),
    }
}

#[test]
fn known_apps_have_names() {
    let config = config(true);
    let html = HTML::new(&config);
    assert_eq!(
        html.format_apple_pay(&blank_app()),
        "<div class=\"app_header\"><div class=\"name\">Apple Pay</div></div>"
    );
    assert_eq!(
        html.format_fitness(&blank_app()),
        "<div class=\"app_header\"><div class=\"name\">Fitness</div></div>"
    );
    assert_eq!(
        html.format_slideshow(&blank_app()),
        "<div class=\"app_header\"><div class=\"name\">Slideshow</div></div>"
    );
    assert_eq!(
        html.format_handwriting(&full_app()),
        "Handwritten messages are not yet supported!"
    );
}

#[test]
fn errors_say_what_the_database_says_of_them() {
    assert_eq!(
        PlistParseError::<String>::NoPayload.text(),
        Outside::NoPayload.to_string()
    );
    assert_eq!(
        PlistParseError::<String>::WrongMessageType.text(),
        Outside::WrongMessageType.to_string()
    );
    assert_eq!(PlistParseError::Unresolved("why".to_string()).text(), "why");
    assert_eq!(PlistParseError::ParseError("why".to_string()).text(), "why");
}
