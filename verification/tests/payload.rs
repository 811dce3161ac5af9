use html_exporter::payload::Payload;
use plist::{Dictionary, Uid, Value};

fn text(text: &str) -> Value {
    Value::String(text.to_string())
}

fn uid(number: u64) -> Value {
    Value::Uid(Uid::new(number))
}

fn dictionary(entries: Vec<(&str, Value)>) -> Value {
    let mut dictionary = Dictionary::new();
    for (key, value) in entries {
        dictionary.insert(key.to_string(), value);
    }
    Value::Dictionary(dictionary)
}

fn archive(objects: Vec<Value>, root: u64) -> Value {
    dictionary(vec![
        ("$objects", Value::Array(objects)),
        ("$top", dictionary(vec![("root", uid(root))])),
    ])
}

/// A link preview whose metadata are the values of an object with keys and values.
fn link() -> Value {
    archive(
        vec![
            text("$null"),
            dictionary(vec![("richLinkMetadata", uid(2)), ("$class", uid(1))]),
            dictionary(vec![
                ("title", uid(3)),
                ("summary", uid(4)),
                ("URL", uid(5)),
                ("images", uid(7)),
            ]),
            text("Title"),
            text("Summary"),
            dictionary(vec![("NS.relative", uid(6))]),
            text("https://a.b"),
            dictionary(vec![("images", uid(8))]),
            Value::Array(vec![uid(9)]),
            dictionary(vec![("URL", uid(10))]),
            dictionary(vec![("NS.relative", uid(11))]),
            text("1.png"),
        ],
        1,
    )
}

#[test]
fn a_link_preview_is_read() {
    let parsed = Payload::new(link()).unwrap().parse().unwrap_or_else(|why| panic!("{why}"));
    let balloon = parsed.url.unwrap_or_else(|why| panic!("{why}"));
    assert_eq!(balloon.title, Some("Title".to_string()));
    assert_eq!(balloon.summary, Some("Summary".to_string()));
    assert_eq!(balloon.url, Some("https://a.b".to_string()));
    assert_eq!(balloon.images, vec!["1.png".to_string()]);
    assert!(matches!(parsed.app, Err(why) if why == "Expected key userInfo, found nothing!"));
}

#[test]
fn a_balloon_is_read() {
    let payload = archive(
        vec![
            text("$null"),
            dictionary(vec![
                ("userInfo", uid(2)),
                ("an", uid(7)),
                ("ldtext", uid(8)),
                ("image", uid(9)),
                ("URL", uid(10)),
            ]),
            dictionary(vec![
                ("NS.keys", Value::Array(vec![uid(3), uid(5)])),
                ("NS.objects", Value::Array(vec![uid(4), uid(6)])),
            ]),
            text("caption"),
            text("Caption"),
            text("subcaption"),
            text("Subcaption"),
            text("App"),
            text("Text"),
            text(""),
            dictionary(vec![("NS.relative", uid(11))]),
            text("https://a.b"),
        ],
        1,
    );
    let parsed = Payload::new(payload).unwrap().parse().unwrap_or_else(|why| panic!("{why}"));
    let balloon = parsed.app.unwrap_or_else(|why| panic!("{why}"));
    assert_eq!(balloon.caption, Some("Caption".to_string()));
    assert_eq!(balloon.subcaption, Some("Subcaption".to_string()));
    assert_eq!(balloon.app_name, Some("App".to_string()));
    assert_eq!(balloon.ldtext, Some("Text".to_string()));
    assert_eq!(balloon.url, Some("https://a.b".to_string()));
    assert_eq!(balloon.image, None);
    assert_eq!(balloon.trailing_caption, None);
    assert!(matches!(parsed.url, Err(why) if why == "Unable to acquire payload data!"));
}

#[test]
fn a_payload_that_is_no_archive_is_an_error() {
    let reason = |value: Value| match Payload::new(value).unwrap().parse() {
        Ok(_) => panic!("parsed"),
        Err(why) => why,
    };
    assert_eq!(reason(text("x")), "Invalid data found at body, expected dictionary");
    assert_eq!(reason(dictionary(vec![])), "Expected key $objects, found nothing!");
    assert_eq!(
        reason(dictionary(vec![("$objects", text("x"))])),
        "Invalid data found at $objects, expected array"
    );
    assert_eq!(
        reason(archive(vec![text("x")], 5)),
        "Payload referenced index 5, but there is no data!"
    );
}

#[test]
fn a_root_that_is_a_text_holds_no_balloon() {
    let parsed = Payload::new(archive(vec![text("x")], 0)).unwrap().parse();
    let parsed = parsed.unwrap_or_else(|why| panic!("{why}"));
    assert!(matches!(parsed.url, Err(why) if why == "Invalid data found at root, expected dictionary"));
    assert!(matches!(parsed.app, Err(why) if why == "Invalid data found at root, expected dictionary"));
}

#[test]
fn references_in_a_circle_are_no_payload() {
    assert!(Payload::new(archive(vec![uid(0)], 0)).is_none());
    assert!(Payload::new(archive(vec![uid(1), Value::Array(vec![uid(0)])], 1)).is_none());
    assert!(Payload::new(archive(
        vec![
            dictionary(vec![("NS.relative", uid(1))]),
            dictionary(vec![
                ("NS.keys", Value::Array(vec![uid(2)])),
                ("NS.objects", Value::Array(vec![uid(3)])),
            ]),
            text("key"),
            dictionary(vec![("a", dictionary(vec![("b", uid(0))]))]),
        ],
        1
    ))
    .is_none());
}

#[test]
fn a_circle_out_of_reach_is_no_matter() {
    assert!(Payload::new(archive(vec![text("x"), uid(1)], 0)).is_some());
    // The class of an object is not followed
    assert!(Payload::new(archive(vec![dictionary(vec![("$class", uid(0))])], 0)).is_some());
    // Nor are the other entries of an object that is relative to another
    let relative = dictionary(vec![("NS.base", uid(0)), ("NS.relative", uid(1))]);
    assert!(Payload::new(archive(vec![relative, text("x")], 0)).is_some());
    // Objects may be shared
    let shared = dictionary(vec![("a", uid(1)), ("b", uid(1))]);
    assert!(Payload::new(archive(vec![shared, text("x")], 0)).is_some());
}

#[test]
fn an_object_without_a_key_is_relative_to_nothing() {
    let payload = archive(vec![dictionary(vec![("NS.relative", uid(0))])], 0);
    let parsed = Payload::new(payload).unwrap().parse().unwrap_or_else(|why| panic!("{why}"));
    assert!(matches!(parsed.url, Err(why) if why == "Unable to acquire payload data!"));
    // Nor is a value looked into that is no reference
    let payload = archive(vec![dictionary(vec![("a", dictionary(vec![("b", uid(0))]))])], 0);
    assert!(Payload::new(payload).unwrap().parse().is_ok());
}

#[test]
fn a_circle_behind_a_failure_is_not_reached() {
    let reason = |value: Value| match Payload::new(value).unwrap().parse() {
        Ok(_) => panic!("parsed"),
        Err(why) => why,
    };
    let missing = archive(vec![dictionary(vec![("a", uid(5)), ("b", uid(0))])], 0);
    assert_eq!(reason(missing), "Payload referenced index 5, but there is no data!");
    let pairs = |keys, objects| {
        archive(
            vec![
                dictionary(vec![("NS.keys", keys), ("NS.objects", objects)]),
                text("key"),
                Value::Boolean(true),
            ],
            0,
        )
    };
    assert_eq!(
        reason(pairs(Value::Array(vec![uid(1)]), Value::Array(vec![uid(0), uid(0)]))),
        "Invalid dictionary size, found 1 keys and 2 values"
    );
    assert_eq!(
        reason(pairs(text("x"), Value::Array(vec![uid(0)]))),
        "Invalid data found at NS.keys, expected array"
    );
    assert_eq!(
        reason(pairs(Value::Array(vec![uid(2)]), Value::Array(vec![uid(0)]))),
        "Invalid data found at object index 2, expected string"
    );
    let circle = pairs(Value::Array(vec![uid(1)]), Value::Array(vec![uid(0)]));
    assert!(Payload::new(circle).is_none());
}
