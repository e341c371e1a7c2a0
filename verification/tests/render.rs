use rustaman::context::Data;
use rustaman::errors::RustamanError;
use rustaman::helpers::http::load_template;
use rustaman::helpers::render::{encode, render_context, render_template, set_decorator};
use rustaman::models::environment::Environment;

#[test]
fn placeholders_are_replaced_by_the_values_of_the_environment() {
    let text = render_template("GET http://{{host}}/{{path}}", "host: localhost\npath: a/b\n").unwrap();
    assert_eq!(text, "GET http://localhost/a/b");
}

#[test]
fn missing_key_fails_the_rendering() {
    match render_template("GET http://{{host}}/", "other: 1\n") {
        Err(RustamanError::RenderError(message)) => assert!(message.contains("host")),
        other => panic!("no render error: {:?}", other),
    }
}

#[test]
fn malformed_environment_fails_before_rendering() {
    assert!(matches!(
        render_template("GET http://localhost/", "a: [1, 2\n"),
        Err(RustamanError::EnvironmentParsingError(_))
    ));
}

#[test]
fn rendering_twice_gives_the_same_text() {
    let template = "GET http://{{host}}/?q={{encode q}}\n{{*set a=host}}X: {{a}}\n";
    let environment = "host: example.com\nq: a b&c\n";
    let first = render_template(template, environment).unwrap();
    let second = render_template(template, environment).unwrap();
    assert_eq!(first, second);
    assert_eq!(first, "GET http://example.com/?q=a+b%26c\nX: example.com\n");
}

#[test]
fn encode_helper_percent_encodes_its_argument() {
    let text = render_template("{{encode v}}", "v: \"a b/c?d=\u{e9}*-._~\"\n").unwrap();
    assert_eq!(text, "a+b%2Fc%3Fd%3D%C3%A9*-._%7E");
}

#[test]
fn encode_of_a_value_that_is_no_string_is_empty() {
    assert_eq!(render_template("[{{encode v}}]", "v: 12\n").unwrap(), "[]");
}

#[test]
fn encode_function_follows_the_form_encoding() {
    assert_eq!(encode(Some("x=1&y=2 z".to_string())), "x%3D1%26y%3D2+z");
    assert_eq!(encode(Some(String::new())), "");
    assert_eq!(encode(None), "");
    assert_eq!(encode(Some("\u{0}\u{7f}AZaz09".to_string())), "%00%7FAZaz09");
}

#[test]
fn set_decorator_binds_for_the_rest_of_the_block() {
    let text = render_template("{{*set who=\"you\"}}hello {{who}} and {{me}}", "me: I\n").unwrap();
    assert_eq!(text, "hello you and I");
}

#[test]
fn set_decorator_needs_a_mapping() {
    match render_template("{{*set who=\"you\"}}hello", "- 1\n- 2\n") {
        Err(RustamanError::RenderError(message)) => {
            assert!(message.contains("Cannot extend non-object data"))
        }
        other => panic!("no render error: {:?}", other),
    }
}

#[test]
fn set_decorator_function_extends_a_mapping() {
    let base = Data::Mapping(vec![(Data::String("a".to_string()), Data::Bool(true))]);
    let bindings = vec![
        ("b".to_string(), Data::Null),
        ("a".to_string(), Data::Bool(false)),
    ];
    let scope = set_decorator(&base, &bindings).unwrap();
    match scope {
        Data::Mapping(entries) => {
            assert_eq!(entries.len(), 2);
            assert!(matches!(&entries[0], (Data::String(k), Data::Bool(false)) if k == "a"));
            assert!(matches!(&entries[1], (Data::String(k), Data::Null) if k == "b"));
        }
        other => panic!("no mapping: {:?}", other),
    }
    assert_eq!(
        set_decorator(&Data::Null, &bindings).unwrap_err(),
        "Cannot extend non-object data"
    );
}

#[test]
fn render_context_takes_a_context_built_by_hand() {
    let context = Data::Mapping(vec![
        (Data::String("n".to_string()), Data::Number("42".to_string())),
        (
            Data::String("list".to_string()),
            Data::Sequence(vec![Data::String("a".to_string()), Data::String("b".to_string())]),
        ),
    ]);
    let text = render_context("{{n}}:{{#each list}}{{this}};{{/each}}", &context).unwrap();
    assert_eq!(text, "42:a;b;");
}

#[test]
fn load_template_renders_then_parses() {
    let env = Environment::new(1, "Dev", "host: example.com\n");
    let request = load_template("#! Capture: r\nGET http://{{host}}/x\n", &env).unwrap();
    assert_eq!(request.host_and_port(), "example.com:80");
    assert_eq!(request.capture.as_deref(), Some("r"));
    assert!(matches!(
        load_template("GET http://{{nope}}/x\n", &env),
        Err(RustamanError::RenderError(_))
    ));
    let broken = Environment::new(2, "Broken", "a: [\n");
    assert!(matches!(
        load_template("GET http://localhost/\n", &broken),
        Err(RustamanError::EnvironmentParsingError(_))
    ));
}

#[test]
fn template_that_calls_a_partial_is_refused() {
    let templates = [
        "{{> a}}",
        "{{ > a}}",
        "{{~> a~}}",
        "{{#> a}}x{{/a}}",
        "{{ # \t~ > a}}x{{/a}}",
        "{{#*inline \"a\"}}x{{> a}}{{/inline}}{{> a}}",
        "{{#> a}}{{#> b}}{{> @partial-block}}{{/b}}{{/a}}",
        "text {{{> a}}}",
    ];
    for template in templates {
        assert!(rustaman::helpers::render::has_partial_call(template), "{}", template);
        match render_template(template, "k: v\n") {
            Err(RustamanError::RenderError(message)) => {
                assert_eq!(message, "Partials are not supported")
            }
            other => panic!("no render error: {:?}", other),
        }
    }
}

#[test]
fn template_without_a_partial_call_is_rendered() {
    for template in ["a > b", "{{k}} > {{k}}", "{ {> a}}", "{{k}}>", "<a>{{k}}</a>", "{{#if k}}>{{/if}}"] {
        assert!(!rustaman::helpers::render::has_partial_call(template), "{}", template);
        assert!(render_template(template, "k: v\n").is_ok(), "{}", template);
    }
    assert_eq!(
        render_template("{{#*inline \"a\"}}x{{/inline}}y", "k: v\n").unwrap(),
        "y"
    );
}

#[test]
fn values_are_escaped_unless_the_braces_are_tripled() {
    let environment = "v: \"a&b <c>\"\n";
    assert_eq!(render_template("{{v}}", environment).unwrap(), "a&amp;b &lt;c&gt;");
    assert_eq!(render_template("{{{v}}}", environment).unwrap(), "a&b <c>");
}

#[test]
fn values_of_other_kinds_are_written_as_texts() {
    let environment = "n: 42\nf: 1.5\nb: true\nnested:\n  key: deep\nlist: [x, y]\n";
    assert_eq!(
        render_template("{{n}} {{f}} {{b}} {{nested.key}} {{list.[1]}}", environment).unwrap(),
        "42 1.5 true deep y"
    );
}
