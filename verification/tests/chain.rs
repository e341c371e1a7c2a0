use rustaman::context::Data;
use rustaman::errors::RustamanError;
use rustaman::executor::{Action, Event, Executor, Phase};
use rustaman::helpers::response::{
    body_or_pretty, capture_response, merge_capture, parse_response,
};
use rustaman::helpers::status::{build_markup_for_elapsed, build_markup_for_status, status_of};

fn text(s: &str) -> Data {
    Data::String(s.to_string())
}

fn empty_context() -> Data {
    Data::Mapping(vec![])
}

fn connect(executor: &mut Executor) -> Action {
    assert!(matches!(executor.step(Event::Tick), Action::Continue));
    assert_eq!(executor.phase(), Phase::Rendering);
    executor.step(Event::Tick)
}

fn exchange(executor: &mut Executor, response: &str) -> Action {
    assert!(matches!(executor.step(Event::Connected), Action::Send { .. }));
    assert!(matches!(executor.step(Event::Sent), Action::Receive));
    assert!(matches!(executor.step(Event::Received(response.to_string())), Action::Continue));
    assert_eq!(executor.phase(), Phase::Capturing);
    executor.step(Event::Tick)
}

const JSON_RESPONSE: &str =
    "HTTP/1.1 200 OK\r\nServer: x\r\nContent-Type: application/json\r\n\r\n{\"id\":1}";

#[test]
fn response_is_parted_into_status_headers_and_body() {
    let response = parse_response("HTTP/1.1 404 Not Found\r\nA: 1\r\nbroken\r\nB:2\r\n\r\nline 1\r\n\r\nline 3");
    assert_eq!(response.status_line, "HTTP/1.1 404 Not Found");
    assert_eq!(
        response.headers,
        vec![("A".to_string(), " 1".to_string()), ("B".to_string(), "2".to_string())]
    );
    assert_eq!(response.body, "line 1\n\nline 3\n");
    assert!(!response.is_json());
}

#[test]
fn response_without_empty_line_has_no_body() {
    let response = parse_response("HTTP/1.1 204 No Content\r\nA: 1\r\n");
    assert_eq!(response.status_line, "HTTP/1.1 204 No Content");
    assert_eq!(response.headers.len(), 1);
    assert_eq!(response.body, "");
    let nothing = parse_response("");
    assert_eq!(nothing.status_line, "");
    assert!(nothing.headers.is_empty());
    assert_eq!(nothing.body, "");
}

#[test]
fn json_is_declared_by_the_exact_header() {
    assert!(parse_response(JSON_RESPONSE).is_json());
    assert!(parse_response("HTTP/1.1 200 OK\nContent-Type: application/json; charset=utf-8\n\n{}").is_json());
    assert!(!parse_response("HTTP/1.1 200 OK\ncontent-type: application/json\n\n{}").is_json());
    assert!(!parse_response("HTTP/1.1 200 OK\nContent-Type:application/json\n\n{}").is_json());
    assert!(!parse_response("HTTP/1.1 200 OK\nContent-Type: text/html\n\n{}").is_json());
    assert!(!parse_response("HTTP/1.1 200 OK\n\nContent-Type: application/json\n").is_json());
}

#[test]
fn json_response_is_merged_under_the_capture_name() {
    let mut context = empty_context();
    capture_response(&mut context, "result", &parse_response(JSON_RESPONSE));
    let expected = Data::Mapping(vec![(
        text("result"),
        Data::Mapping(vec![(text("id"), Data::Number("1".to_string()))]),
    )]);
    assert_eq!(format!("{:?}", context), format!("{:?}", expected));
}

#[test]
fn response_that_is_no_json_is_not_merged() {
    let mut context = empty_context();
    capture_response(
        &mut context,
        "result",
        &parse_response("HTTP/1.1 200 OK\r\nContent-Type: text/plain\r\n\r\n{\"id\":1}"),
    );
    assert_eq!(format!("{:?}", context), format!("{:?}", empty_context()));
    capture_response(
        &mut context,
        "result",
        &parse_response("HTTP/1.1 200 OK\r\nContent-Type: application/json\r\n\r\nnot json"),
    );
    assert_eq!(format!("{:?}", context), format!("{:?}", empty_context()));
}

#[test]
fn capture_into_a_context_that_is_no_mapping_is_dropped() {
    let mut context = Data::Sequence(vec![]);
    capture_response(&mut context, "result", &parse_response(JSON_RESPONSE));
    assert_eq!(format!("{:?}", context), format!("{:?}", Data::Sequence(vec![])));
    let mut null = Data::Null;
    merge_capture(&mut null, "x", Some(Data::Bool(true)));
    assert!(matches!(null, Data::Null));
}

#[test]
fn merge_capture_keeps_or_replaces() {
    let mut context = empty_context();
    merge_capture(&mut context, "a", Some(Data::Bool(true)));
    merge_capture(&mut context, "b", None);
    merge_capture(&mut context, "a", Some(Data::Bool(false)));
    assert_eq!(
        format!("{:?}", context),
        format!("{:?}", Data::Mapping(vec![(text("a"), Data::Bool(false))]))
    );
}

#[test]
fn chain_of_one_block_runs_through_every_phase() {
    let mut executor = Executor::new("GET http://localhost:8000/x\n", "a: 1\n").unwrap();
    assert_eq!(executor.phase(), Phase::Idle);
    assert_eq!(executor.index(), 0);
    match connect(&mut executor) {
        Action::Connect { host, port, secure, verify_cert } => {
            assert_eq!(host, "localhost");
            assert_eq!(port, 8000);
            assert!(!secure);
            assert!(verify_cert);
        }
        other => panic!("no connection asked for: {:?}", other),
    }
    assert_eq!(executor.phase(), Phase::Connecting);
    match executor.step(Event::Connected) {
        Action::Send { frame } => assert_eq!(
            frame,
            "GET /x HTTP/1.1\r\nHost: localhost\r\nUser-Agent: Rustaman\r\nConnection: close\r\n\r\n"
        ),
        other => panic!("nothing to send: {:?}", other),
    }
    assert_eq!(executor.phase(), Phase::Sending);
    assert!(matches!(executor.step(Event::Sent), Action::Receive));
    assert_eq!(executor.phase(), Phase::Receiving);
    assert!(matches!(
        executor.step(Event::Received("HTTP/1.1 200 OK\r\n\r\nhi".to_string())),
        Action::Continue
    ));
    assert!(matches!(executor.step(Event::Tick), Action::Stop));
    assert_eq!(executor.phase(), Phase::Done);
    assert!(executor.finished());
    assert_eq!(executor.index(), 1);
    assert_eq!(executor.last_response(), Some("HTTP/1.1 200 OK\r\n\r\nhi"));
    assert!(executor.error().is_none());
    assert!(executor.request().is_none());
    assert!(matches!(executor.step(Event::Tick), Action::Stop));
    assert_eq!(executor.phase(), Phase::Done);
}

#[test]
fn https_block_asks_for_a_secure_connection() {
    let mut executor = Executor::new(
        "#! AllowInsecureCertificate\n#! Authority: 10.0.0.1:8443\nGET https://example.com/\n",
        "a: 1\n",
    )
    .unwrap();
    match connect(&mut executor) {
        Action::Connect { host, port, secure, verify_cert } => {
            assert_eq!(host, "10.0.0.1");
            assert_eq!(port, 8443);
            assert!(secure);
            assert!(!verify_cert);
        }
        other => panic!("no connection asked for: {:?}", other),
    }
    assert!(executor.request().unwrap().http_frame().contains("\r\nHost: example.com\r\n"));
}

#[test]
fn captured_response_is_seen_by_the_next_block() {
    let template = "#! Capture: login\nGET http://localhost/login\n#!EndCapture\nGET http://localhost/user/{{login.id}}\n";
    let mut executor = Executor::new(template, "base: x\n").unwrap();
    assert!(matches!(connect(&mut executor), Action::Connect { .. }));
    assert!(matches!(exchange(&mut executor, JSON_RESPONSE), Action::Continue));
    assert_eq!(executor.phase(), Phase::Rendering);
    assert_eq!(executor.index(), 1);
    assert!(executor.context().get("login").is_some());
    assert!(matches!(executor.step(Event::Tick), Action::Connect { .. }));
    match executor.step(Event::Connected) {
        Action::Send { frame } => assert!(frame.starts_with("GET /user/1 HTTP/1.1\r\n"), "{}", frame),
        other => panic!("nothing to send: {:?}", other),
    }
}

#[test]
fn block_that_reads_a_capture_fails_before_the_capture() {
    let template = "GET http://localhost/user/{{login.id}}\n#!EndCapture\n#! Capture: login\nGET http://localhost/login\n";
    let mut executor = Executor::new(template, "base: x\n").unwrap();
    assert!(matches!(connect(&mut executor), Action::Stop));
    assert_eq!(executor.phase(), Phase::Failed);
    assert!(matches!(executor.error(), Some(RustamanError::RenderError(_))));
    assert_eq!(executor.index(), 0);
}

#[test]
fn response_that_is_no_json_leaves_the_next_block_without_the_capture() {
    let template = "#! Capture: login\nGET http://localhost/login\n#!EndCapture\nGET http://localhost/user/{{login.id}}\n";
    let mut executor = Executor::new(template, "base: x\n").unwrap();
    assert!(matches!(connect(&mut executor), Action::Connect { .. }));
    let plain = "HTTP/1.1 200 OK\r\nContent-Type: text/plain\r\n\r\n{\"id\":1}";
    assert!(matches!(exchange(&mut executor, plain), Action::Continue));
    assert!(executor.context().get("login").is_none());
    assert!(matches!(executor.step(Event::Tick), Action::Stop));
    assert_eq!(executor.phase(), Phase::Failed);
    assert!(executor.context().get("base").is_some());
    assert_eq!(executor.last_response(), Some(plain));
}

#[test]
fn failure_of_the_network_ends_the_chain() {
    for failing in 0..3 {
        let mut executor =
            Executor::new("GET http://localhost/a\n#!EndCapture\nGET http://localhost/b\n", "a: 1\n")
                .unwrap();
        assert!(matches!(connect(&mut executor), Action::Connect { .. }));
        if failing > 0 {
            executor.step(Event::Connected);
        }
        if failing > 1 {
            executor.step(Event::Sent);
        }
        assert!(matches!(
            executor.step(Event::Failed("connection reset".to_string())),
            Action::Stop
        ));
        assert_eq!(executor.phase(), Phase::Failed);
        match executor.error() {
            Some(RustamanError::IOError(message)) => assert_eq!(message, "connection reset"),
            other => panic!("no network error: {:?}", other),
        }
        assert!(matches!(executor.step(Event::Connected), Action::Stop));
        assert_eq!(executor.phase(), Phase::Failed);
    }
}

#[test]
fn parsing_error_ends_the_chain() {
    let mut executor = Executor::new("GET ftp://localhost/a\n", "a: 1\n").unwrap();
    assert!(matches!(connect(&mut executor), Action::Stop));
    match executor.error() {
        Some(RustamanError::RequestParsingError(message)) => assert_eq!(message, "ftp"),
        other => panic!("no parsing error: {:?}", other),
    }
    let mut executor = Executor::new("GET nowhere\n", "a: 1\n").unwrap();
    assert!(matches!(connect(&mut executor), Action::Stop));
    assert!(matches!(executor.error(), Some(RustamanError::UrlParseError(_))));
}

#[test]
fn event_that_is_not_waited_for_fails_the_chain() {
    let mut executor = Executor::new("GET http://localhost/a\n", "a: 1\n").unwrap();
    assert!(matches!(executor.step(Event::Sent), Action::Stop));
    match executor.error() {
        Some(RustamanError::IOError(message)) => assert_eq!(message, "Unexpected event"),
        other => panic!("no error: {:?}", other),
    }
    let mut executor = Executor::new("GET http://localhost/a\n", "a: 1\n").unwrap();
    assert!(matches!(connect(&mut executor), Action::Connect { .. }));
    assert!(matches!(executor.step(Event::Tick), Action::Stop));
    assert_eq!(executor.phase(), Phase::Failed);
}

#[test]
fn environment_that_is_no_yaml_gives_no_chain() {
    assert!(matches!(
        Executor::new("GET http://localhost/\n", "a: [\n"),
        Err(RustamanError::EnvironmentParsingError(_))
    ));
}

#[test]
fn chain_without_blocks_is_done_at_once() {
    let mut executor = Executor::with_context(vec![], empty_context());
    assert!(matches!(executor.step(Event::Tick), Action::Stop));
    assert_eq!(executor.phase(), Phase::Done);
}

#[test]
fn capture_survives_the_failure_of_a_later_block() {
    let template = "#! Capture: first\nGET http://localhost/a\n#!EndCapture\nGET http://localhost/{{nope}}\n";
    let mut executor = Executor::new(template, "base: x\n").unwrap();
    assert!(matches!(connect(&mut executor), Action::Connect { .. }));
    assert!(matches!(exchange(&mut executor, JSON_RESPONSE), Action::Continue));
    assert!(matches!(executor.step(Event::Tick), Action::Stop));
    assert_eq!(executor.phase(), Phase::Failed);
    assert!(executor.context().get("first").is_some());
    assert_eq!(executor.last_response(), Some(JSON_RESPONSE));
    assert_eq!(executor.index(), 1);
}

#[test]
fn status_is_the_first_line_without_the_version() {
    assert_eq!(status_of("HTTP/1.1 200 OK\r\nA: 1\r\n\r\nbody"), "200 OK");
    assert_eq!(status_of("HTTP/1.1 404 Not Found"), "404 Not Found");
    assert_eq!(status_of("HTTP/1.1  500"), " 500");
    assert_eq!(status_of("garbage\nHTTP/1.1 200 OK"), "garbage");
    assert_eq!(status_of(""), "");
    assert_eq!(status_of("\nHTTP/1.1 200 OK"), "");
    assert_eq!(status_of("a \r\n"), "");
}

#[test]
fn status_is_shown_on_the_colour_of_its_class() {
    assert_eq!(
        build_markup_for_status("200 OK"),
        "<span face=\"monospace\" background=\"#088A29\" size=\"large\"> 200 OK </span>"
    );
    assert_eq!(
        build_markup_for_status("301 Moved"),
        "<span face=\"monospace\" background=\"#088A29\" size=\"large\"> 301 Moved </span>"
    );
    assert_eq!(
        build_markup_for_status("404 Not Found"),
        "<span face=\"monospace\" background=\"#FE642E\" size=\"large\"> 404 Not Found </span>"
    );
    assert_eq!(
        build_markup_for_status("500 Oops"),
        "<span face=\"monospace\" background=\"#B40404\" size=\"large\"> 500 Oops </span>"
    );
    assert_eq!(
        build_markup_for_status(""),
        "<span face=\"monospace\" background=\"#B40404\" size=\"large\">  </span>"
    );
}

#[test]
fn elapsed_time_is_shown_on_the_colour_of_its_class() {
    assert_eq!(
        build_markup_for_elapsed(0),
        "<span face=\"monospace\" background=\"#088A29\" size=\"large\"> 0ms </span>"
    );
    assert_eq!(
        build_markup_for_elapsed(699),
        "<span face=\"monospace\" background=\"#088A29\" size=\"large\"> 699ms </span>"
    );
    assert_eq!(
        build_markup_for_elapsed(700),
        "<span face=\"monospace\" background=\"#B40404\" size=\"large\"> 700ms </span>"
    );
    assert_eq!(
        build_markup_for_elapsed(u64::MAX),
        "<span face=\"monospace\" background=\"#B40404\" size=\"large\"> 18446744073709551615ms </span>"
    );
}

#[test]
fn json_body_is_shown_in_its_pretty_form() {
    let response = parse_response(JSON_RESPONSE);
    assert_eq!(response.body_to_show(), "{\n  \"id\": 1\n}");
    let plain = parse_response("HTTP/1.1 200 OK\r\nContent-Type: text/plain\r\n\r\n{\"id\":1}");
    assert_eq!(plain.body_to_show(), "{\"id\":1}\n");
    let broken = parse_response("HTTP/1.1 200 OK\r\nContent-Type: application/json\r\n\r\n{\"id\":");
    assert_eq!(broken.body_to_show(), "{\"id\":\n");
}

#[test]
fn body_is_shown_as_it_is_without_a_pretty_form() {
    assert_eq!(body_or_pretty("raw", None), "raw");
    assert_eq!(body_or_pretty("raw", Some("pretty".to_string())), "pretty");
}
