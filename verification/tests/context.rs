use rustaman::context::{obfuscated_values, Data};
use rustaman::errors::RustamanError;
use rustaman::helpers::http::parse_request;
use rustaman::helpers::obfuscate::obfuscate_frame;
use rustaman::models::environment::Environment;

fn text(s: &str) -> Data {
    Data::String(s.to_string())
}

fn mapping(entries: Vec<(&str, Data)>) -> Data {
    Data::Mapping(entries.into_iter().map(|(k, v)| (text(k), v)).collect())
}

fn shown(value: Option<&Data>) -> String {
    format!("{:?}", value)
}

#[test]
fn get_finds_the_first_entry_with_the_key() {
    let root = mapping(vec![("a", Data::Bool(true)), ("b", Data::Null), ("a", Data::Bool(false))]);
    assert!(matches!(root.get("a"), Some(Data::Bool(true))));
    assert!(matches!(root.get("b"), Some(Data::Null)));
    assert!(root.get("c").is_none());
    assert!(text("a").get("a").is_none());
    assert!(Data::Sequence(vec![text("a")]).get("a").is_none());
}

#[test]
fn get_ignores_keys_that_are_no_strings() {
    let root = Data::Mapping(vec![
        (Data::Number("1".to_string()), text("number")),
        (text("1"), text("string")),
    ]);
    assert_eq!(shown(root.get("1")), shown(Some(&text("string"))));
}

#[test]
fn insert_replaces_in_place_or_appends() {
    let mut root = mapping(vec![("a", Data::Bool(true)), ("b", Data::Null)]);
    root.insert("a", text("new"));
    root.insert("c", Data::Number("3".to_string()));
    assert_eq!(
        format!("{:?}", root),
        format!(
            "{:?}",
            mapping(vec![("a", text("new")), ("b", Data::Null), ("c", Data::Number("3".to_string()))])
        )
    );
}

#[test]
fn insert_leaves_what_is_no_mapping() {
    let mut root = Data::Null;
    root.insert("a", text("x"));
    assert!(matches!(root, Data::Null));
    let mut list = Data::Sequence(vec![]);
    list.insert("a", text("x"));
    assert!(matches!(list, Data::Sequence(ref items) if items.is_empty()));
}

#[test]
fn accessors_tell_the_variants_apart() {
    assert_eq!(text("a").as_str(), Some("a"));
    assert_eq!(Data::Null.as_str(), None);
    assert!(Data::Sequence(vec![Data::Null]).as_sequence().is_some());
    assert!(text("a").as_sequence().is_none());
    assert!(mapping(vec![]).is_mapping());
    assert!(!Data::Null.is_mapping());
}

#[test]
fn clone_copies_the_whole_tree() {
    let root = mapping(vec![(
        "list",
        Data::Sequence(vec![mapping(vec![("k", Data::Number("1.5".to_string()))]), Data::Bool(false)]),
    )]);
    assert_eq!(format!("{:?}", root.clone()), format!("{:?}", root));
}

#[test]
fn secrets_are_the_strings_under_the_declared_keys() {
    let root = mapping(vec![
        (
            "__obfuscated__",
            Data::Sequence(vec![
                text("token"),
                Data::Number("7".to_string()),
                text("missing"),
                text("count"),
                text("password"),
            ]),
        ),
        ("password", text("hunter22")),
        ("count", Data::Number("3".to_string())),
        ("token", text("abcdef")),
    ]);
    assert_eq!(obfuscated_values(&root), vec!["abcdef", "hunter22"]);
}

#[test]
fn secrets_need_a_sequence_in_a_mapping() {
    assert!(obfuscated_values(&Data::Null).is_empty());
    assert!(obfuscated_values(&mapping(vec![("a", text("b"))])).is_empty());
    assert!(obfuscated_values(&mapping(vec![("__obfuscated__", text("a")), ("a", text("b"))]))
        .is_empty());
}

#[test]
fn environment_reads_its_secrets_from_its_yaml() {
    let env = Environment::new(
        1,
        "Dev",
        "__obfuscated__:\n  - token\n  - other\n  - 12\ntoken: s3cr3t-value\nother: 5\n",
    );
    assert_eq!(env.obfuscated_string(), vec!["s3cr3t-value"]);
    let broken = Environment::new(2, "Broken", "a: [\n");
    assert!(broken.obfuscated_string().is_empty());
    let plain = Environment::new(3, "Plain", "a: b\n");
    assert!(plain.obfuscated_string().is_empty());
}

#[test]
fn environment_parses_its_payload() {
    let env = Environment::new(1, "Dev", "a: 1\nb: [x, true, null, 2.5]\nc: {d: e}\n");
    let root = env.parsed_payload().unwrap();
    assert_eq!(
        format!("{:?}", root),
        format!(
            "{:?}",
            mapping(vec![
                ("a", Data::Number("1".to_string())),
                (
                    "b",
                    Data::Sequence(vec![
                        text("x"),
                        Data::Bool(true),
                        Data::Null,
                        Data::Number("2.5".to_string())
                    ])
                ),
                ("c", mapping(vec![("d", text("e"))])),
            ])
        )
    );
    let broken = Environment::new(2, "Broken", "a: [\n");
    assert!(matches!(broken.parsed_payload(), Err(RustamanError::EnvironmentParsingError(_))));
    let empty = Environment::default();
    assert!(matches!(empty.parsed_payload(), Ok(Data::Null)));
}

#[test]
fn secret_is_shown_by_its_first_three_characters() {
    let secrets = vec!["s3cr3t-value".to_string()];
    assert_eq!(
        obfuscate_frame("GET /?t=s3cr3t-value HTTP/1.1\r\nX: s3cr3t-value\r\n\r\n", &secrets),
        "GET /?t=s3c... HTTP/1.1\r\nX: s3c...\r\n\r\n"
    );
}

#[test]
fn secrets_are_masked_one_after_the_other() {
    let secrets = vec!["abcdef".to_string(), "abc...x".to_string(), "zz".to_string(), String::new()];
    assert_eq!(obfuscate_frame("abcdefx zz", &secrets), "abc... zz...");
}

#[test]
fn occurrences_of_a_secret_do_not_overlap() {
    assert_eq!(obfuscate_frame("aaaaaaaaa", &vec!["aaaa".to_string()]), "aaa...aaa...a");
    assert_eq!(obfuscate_frame("h\u{e9}llo h\u{e9}llo", &vec!["h\u{e9}llo".to_string()]), "h\u{e9}l... h\u{e9}l...");
}

#[test]
fn masked_secret_of_four_characters_without_a_dot_is_gone() {
    for frame in ["tokentokentoken", "xtokenx tok token ken", "tototokenken", "token"] {
        let shown = obfuscate_frame(frame, &vec!["token".to_string(), "oken".to_string()]);
        assert!(!shown.contains("token"), "{:?}", shown);
        assert!(!shown.contains("oken"), "{:?}", shown);
    }
}

#[test]
fn obfuscated_request_differs_in_its_frame_only() {
    let env = Environment::new(1, "Dev", "__obfuscated__: [key]\nkey: topsecret\n");
    let request =
        parse_request("#! Capture: c\nGET http://localhost/?k=topsecret\nX-Key: topsecret\n")
            .unwrap();
    let before = request.http_frame().to_string();
    let shown = request.obfuscate(&env);
    assert_eq!(request.http_frame(), before);
    assert_eq!(
        shown.http_frame(),
        "GET /?k=top... HTTP/1.1\r\nX-Key: top...\r\nHost: localhost\r\nUser-Agent: Rustaman\r\nConnection: close\r\n\r\n"
    );
    assert_eq!(shown.host_and_port(), request.host_and_port());
    assert_eq!(shown.capture, request.capture);
    assert_eq!(shown.url(), request.url());
    assert_eq!(shown.headers(), request.headers());
}
