use html_exporter::attachments::{resolve_path, Outcome, Piece, Transfer};
use html_exporter::html::{Config, HTML};
use html_exporter::paths::has_separator;
use html_exporter::tables::{Attachment, MediaType};

fn config(no_copy: bool) -> Config {
    Config {
        export_path: "exports".to_string(),
        attachment_path: "exports/attachments".to_string(),
        home: "/home/ann".to_string(),
        style: String::new(),
        offset: 0,
        no_copy,
    }
}

fn attachment(filename: &str, mime_type: &str) -> Attachment {
    Attachment::new(
        Some(filename.to_string()),
        Some(mime_type.to_string()),
        "sent.bin".to_string(),
    )
}

fn linked(filename: &str, mime_type: &str) -> String {
    let config = config(true);
    let html = HTML::new(&config);
    let mut shown = attachment(filename, mime_type);
    match html.format_attachment(&mut shown, &vec![], 0) {
        (Piece::Html(text), 0) => text,
        _ => panic!("not shown"),
    }
}

#[test]
fn an_image_is_embedded() {
    assert_eq!(linked("/a/b.png", "image/png"), "<img src=\"/a/b.png\" loading=\"lazy\">");
}

#[test]
fn a_video_is_embedded() {
    assert_eq!(
        linked("/a/b.mov", "video/quicktime"),
        "<video controls> <source src=\"/a/b.mov\" type=\"video/quicktime\"> </video>"
    );
}

#[test]
fn a_sound_is_embedded() {
    assert_eq!(
        linked("/a/b.caf", "audio/x-caf"),
        "<audio controls src=\"/a/b.caf\" type=\"audio/x-caf\" </audio>"
    );
}

#[test]
fn a_text_and_a_document_are_offered_for_download() {
    assert_eq!(
        linked("/a/b.txt", "text/plain"),
        "<a href=\"file:///a/b.txt\">Click to download sent.bin</a>"
    );
    assert_eq!(
        linked("/a/b.pdf", "application/pdf"),
        "<a href=\"file:///a/b.pdf\">Click to download sent.bin</a>"
    );
}

#[test]
fn other_types_are_named() {
    assert_eq!(
        linked("/a/b.x", "chemical/x-pdb"),
        "<p>Unable to embed chemical/x-pdb attachments: /a/b.x</p>"
    );
    let config = config(true);
    let html = HTML::new(&config);
    let mut shown = Attachment::new(Some("/a/b".to_string()), None, "sent".to_string());
    match html.format_attachment(&mut shown, &vec![], 0) {
        (Piece::Html(text), 0) => assert_eq!(text, "<p>Unknown attachment type: /a/b</p>"),
        _ => panic!("not shown"),
    }
}

#[test]
fn the_home_directory_stands_for_the_tilde() {
    assert_eq!(
        linked("~/Library/b.png", "image/png"),
        "<img src=\"/home/ann/Library/b.png\" loading=\"lazy\">"
    );
    assert_eq!(resolve_path("~", "/home/ann"), "/home/ann");
    assert_eq!(resolve_path("~/a~b", "/h"), "/h/a/hb");
    assert_eq!(resolve_path("~ann/x", "/home/ann"), "~ann/x");
    assert_eq!(resolve_path("/a/~/b", "/home/ann"), "/a/~/b");
}

#[test]
fn a_copy_is_linked_where_one_is_known() {
    let config = config(true);
    let html = HTML::new(&config);
    let mut shown = attachment("/a/b.png", "image/png");
    shown.copied_path = Some("/copies/c.png".to_string());
    match html.format_attachment(&mut shown, &vec![], 0) {
        (Piece::Html(text), 0) => {
            assert_eq!(text, "<img src=\"/copies/c.png\" loading=\"lazy\">")
        }
        _ => panic!("not shown"),
    }
    assert_eq!(shown.copied_path, Some("/copies/c.png".to_string()));
}

#[test]
fn an_attachment_without_a_file_name_is_lost() {
    for no_copy in [true, false] {
        let config = config(no_copy);
        let html = HTML::new(&config);
        let mut shown = Attachment::new(None, Some("image/png".to_string()), "b.png".to_string());
        match html.format_attachment(&mut shown, &vec![], 0) {
            (Piece::Lost(name), 0) => assert_eq!(name, "b.png"),
            _ => panic!("not lost"),
        }
    }
}

#[test]
fn an_attachment_without_an_extension_is_not_copied() {
    let config = config(false);
    let html = HTML::new(&config);
    let mut shown = attachment("/a/b", "image/png");
    match html.format_attachment(&mut shown, &vec![], 0) {
        (Piece::Lost(name), 0) => assert_eq!(name, "sent.bin"),
        _ => panic!("not lost"),
    }
}

#[test]
fn a_file_is_transferred_before_it_is_shown() {
    let config = config(false);
    let html = HTML::new(&config);
    let mut shown = attachment("~/b.PNG", "image/png");
    match html.format_attachment(&mut shown, &vec![], 0) {
        (Piece::Wanted(transfer), 0) => {
            assert_eq!(transfer.source, "/home/ann/b.PNG");
            assert_eq!(transfer.extension, "PNG");
            assert!(!transfer.convert);
        }
        _ => panic!("not wanted"),
    }
    assert_eq!(shown.copied_path, None);
    let outcomes = vec![Outcome::Missing, Outcome::Stored("copies/1.PNG".to_string())];
    match html.format_attachment(&mut shown, &outcomes, 1) {
        (Piece::Html(text), 2) => assert_eq!(text, "<img src=\"copies/1.PNG\" loading=\"lazy\">"),
        _ => panic!("not shown"),
    }
    assert_eq!(shown.copied_path, Some("copies/1.PNG".to_string()));
    match html.format_attachment(&mut shown, &outcomes, 0) {
        (Piece::Lost(name), 1) => assert_eq!(name, "sent.bin"),
        _ => panic!("not lost"),
    }
}

#[test]
fn a_heic_picture_is_converted() {
    let config = config(false);
    let html = HTML::new(&config);
    for filename in ["/a/b.heic", "/a/b.HEIC"] {
        let mut shown = attachment(filename, "image/heic");
        match html.format_attachment(&mut shown, &vec![], 0) {
            (Piece::Wanted(transfer), 0) => {
                assert_eq!(transfer.source, filename);
                assert_eq!(transfer.extension, "jpg");
                assert!(transfer.convert);
            }
            _ => panic!("not wanted"),
        }
        match html.format_attachment(&mut shown, &vec![Outcome::Missing], 0) {
            (Piece::Html(text), 1) => {
                assert_eq!(text, "Unable to convert and display file: sent.bin")
            }
            _ => panic!("not noted"),
        }
        assert_eq!(shown.copied_path, None);
    }
    let mut shown = attachment("/a/b.Heic", "image/heic");
    match html.format_attachment(&mut shown, &vec![], 0) {
        (Piece::Wanted(transfer), 0) => assert!(!transfer.convert),
        _ => panic!("not wanted"),
    }
}

#[test]
fn a_copy_has_a_name_of_its_own() {
    let config = config(false);
    let html = HTML::new(&config);
    let mut shown = attachment("/a/b.heic", "image/heic");
    let transfer = match html.format_attachment(&mut shown, &vec![], 0) {
        (Piece::Wanted(transfer), _) => transfer,
        _ => panic!("not wanted"),
    };
    let one = html.copy_path(&transfer).unwrap();
    let other = html.copy_path(&transfer).unwrap();
    let name = one.strip_prefix("exports/attachments/").unwrap();
    let name = name.strip_suffix(".jpg").unwrap();
    assert_eq!(name.len(), 36);
    assert_eq!(name.as_bytes()[8], b'-');
    assert_eq!(name.as_bytes()[14], b'4');
    assert_ne!(one, other);
}

#[test]
fn an_extension_that_names_a_directory_is_none() {
    let config = config(false);
    let html = HTML::new(&config);
    let transfer = Transfer {
        source: "/a/b".to_string(),
        extension: "b/c".to_string(),
        convert: false,
    };
    assert!(html.copy_path(&transfer).is_none());
    assert!(has_separator("a/b"));
    assert!(!has_separator("html"));
}

#[test]
fn the_columns_of_an_attachment_are_read() {
    let read = attachment("/a/b.tar.gz", "image/png");
    assert_eq!(read.filename, Some("/a/b.tar.gz".to_string()));
    assert_eq!(read.extension, Some("gz".to_string()));
    assert_eq!(read.transfer_name, "sent.bin");
    assert!(matches!(read.media_type, MediaType::Image(name) if name == "image/png"));
    assert_eq!(attachment("/a.b/c", "x").extension, None);
    assert_eq!(attachment("/a/.hidden", "x").extension, None);
    assert_eq!(attachment("/a/b.", "x").extension, Some(String::new()));
    assert_eq!(Attachment::new(None, None, String::new()).extension, None);
    assert!(matches!(attachment("x", "image").media_type, MediaType::Image(_)));
    assert!(matches!(attachment("x", "images/png").media_type, MediaType::Other(_)));
    assert!(matches!(Attachment::new(None, None, String::new()).media_type, MediaType::Unknown));
}
