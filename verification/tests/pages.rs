use html_exporter::html::{Append, Config, Conversation, HTML};

fn config() -> Config {
    Config {
        export_path: "out".to_string(),
        attachment_path: "out/attachments".to_string(),
        home: "/home/ann".to_string(),
        style: "p {}".to_string(),
        offset: 0,
        no_copy: true,
    }
}

fn chat(id: i32, filename: &str) -> Conversation {
    Conversation { id, filename: filename.to_string() }
}

fn texts(writes: &Vec<Append>) -> Vec<String> {
    writes
        .iter()
        .map(|write| {
            format!("{}: {}", write.path, write.text)
        })
        .collect()
}

#[test]
fn headers_hold_the_style() {
    let config = config();
    let html = HTML::new(&config);
    let writes = HTML::write_headers(&html.orphaned, "p {}");
    assert_eq!(
        texts(&writes),
        vec![
            "out/orphaned.html: <html>\n<meta charset=\"UTF-8\">",
            "out/orphaned.html: <style>\n",
            "out/orphaned.html: p {}",
            "out/orphaned.html: \n</style>",
        ]
    );
}

#[test]
fn each_conversation_has_one_file() {
    let config = config();
    let mut html = HTML::new(&config);
    let first = html.get_or_create_file(Some(&chat(7, "Ann")));
    assert!(first.created);
    assert_eq!(first.path, "out/Ann.html");
    let again = html.get_or_create_file(Some(&chat(7, "Renamed")));
    assert!(!again.created);
    assert_eq!(again.path, "out/Ann.html");
    let other = html.get_or_create_file(Some(&chat(8, "Bob")));
    assert!(other.created);
    let none = html.get_or_create_file(None);
    assert!(!none.created);
    assert_eq!(none.path, "out/orphaned.html");
    assert_eq!(html.files.len(), 2);
    assert_eq!(html.file_for(Some(&chat(7, "x"))), "out/Ann.html");
    assert_eq!(html.file_for(Some(&chat(9, "x"))), "out/x.html");
    assert_eq!(html.file_for(None), "out/orphaned.html");
    assert_eq!(html.files.len(), 2);
}

#[test]
fn what_follows_the_last_dot_of_a_name_is_replaced() {
    let mut config = config();
    config.export_path = "/tmp/out".to_string();
    let mut html = HTML::new(&config);
    assert_eq!(html.orphaned, "/tmp/out/orphaned.html");
    let target = html.get_or_create_file(Some(&chat(7, "a.b")));
    assert_eq!(target.path, "/tmp/out/a.html");
    assert_eq!(html.files.len(), 1);
    assert_eq!(html.files.get(&7), Some(&"/tmp/out/a.html".to_string()));
    assert_eq!(html.get_or_create_file(Some(&chat(8, "a.b.c"))).path, "/tmp/out/a.b.html");
    assert_eq!(html.get_or_create_file(Some(&chat(9, ".a"))).path, "/tmp/out/.a.html");
}

#[test]
fn a_page_is_opened_once() {
    let config = config();
    let mut html = HTML::new(&config);
    let writes = html.export_entry(Some(&chat(1, "Ann")), false, "one".to_string());
    assert_eq!(writes.len(), 5);
    assert_eq!(writes[0].text, "<html>\n<meta charset=\"UTF-8\">");
    assert_eq!(texts(&writes)[4], "out/Ann.html: one");
    let writes = html.export_entry(Some(&chat(1, "Ann")), true, "two".to_string());
    assert_eq!(texts(&writes), vec!["out/Ann.html: two"]);
    // Another conversation with the same name goes to the same file
    let writes = html.export_entry(Some(&chat(2, "Ann")), true, "three".to_string());
    assert_eq!(texts(&writes), vec!["out/Ann.html: three"]);
    let writes = html.export_entry(None, true, "four".to_string());
    assert_eq!(texts(&writes), vec!["out/orphaned.html: four"]);
    let writes = html.export_entry(None, false, "five".to_string());
    assert_eq!(texts(&writes), vec!["out/orphaned.html: five"]);
}

#[test]
fn every_page_ends_with_a_footer() {
    let config = config();
    let mut html = HTML::new(&config);
    html.get_or_create_file(Some(&chat(1, "Ann")));
    html.get_or_create_file(Some(&chat(2, "Bob")));
    let mut writes = texts(&html.write_footers());
    assert_eq!(writes.pop(), Some("out/orphaned.html: </html>".to_string()));
    writes.sort();
    assert_eq!(writes, vec!["out/Ann.html: </html>", "out/Bob.html: </html>"]);
}

#[test]
fn a_shared_page_ends_with_a_footer_for_each_conversation() {
    let config = config();
    let mut html = HTML::new(&config);
    html.get_or_create_file(Some(&chat(1, "Ann")));
    html.get_or_create_file(Some(&chat(2, "Ann")));
    html.get_or_create_file(Some(&chat(3, "orphaned")));
    let mut writes = texts(&html.write_footers());
    writes.sort();
    assert_eq!(
        writes,
        vec![
            "out/Ann.html: </html>",
            "out/Ann.html: </html>",
            "out/orphaned.html: </html>",
            "out/orphaned.html: </html>",
        ]
    );
}
