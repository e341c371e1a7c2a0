use rustaman::errors::RustamanError;
use rustaman::helpers::path::{assets_dir, workspace};
use rustaman::models::environment::{Environment, DEFAULT_ENVIRONMENT};
use rustaman::models::workspace::{Workspace, DEFAULT_TEMPLATE};

#[test]
fn new_environment_is_active() {
    let mut env = Environment::new(4, "Prod", "a: 1\n");
    assert_eq!(env.id(), 4);
    assert_eq!(env.name(), "Prod");
    assert_eq!(env.payload(), "a: 1\n");
    assert!(env.active());
    env.set_payload("b: 2\n");
    assert_eq!(env.payload(), "b: 2\n");
    assert_eq!(env.name(), "Prod");
    env.soft_delete();
    assert!(!env.active());
    assert_eq!(env.id(), 4);
}

#[test]
fn default_environment_is_an_empty_document() {
    let env = Environment::default();
    assert_eq!(env.id(), 0);
    assert_eq!(env.name(), "");
    assert_eq!(env.payload(), DEFAULT_ENVIRONMENT);
    assert_eq!(DEFAULT_ENVIRONMENT, "%YAML 1.2\n---\n");
    assert!(env.active());
}

#[test]
fn new_workspace_has_one_environment_and_no_request() {
    let workspace = Workspace::new("/tmp/w.json");
    assert_eq!(workspace.filepath(), "/tmp/w.json");
    assert_eq!(workspace.name(), "Rustaman");
    assert!(workspace.requests().is_empty());
    assert_eq!(workspace.environments().len(), 1);
    let env = workspace.environment(1).unwrap();
    assert_eq!(env.name(), "Dev");
    assert_eq!(env.payload(), DEFAULT_ENVIRONMENT);
    assert!(env.active());
    assert!(workspace.environment(2).is_none());
    assert!(workspace.request(1).is_none());
}

#[test]
fn created_requests_are_numbered_and_named() {
    let mut workspace = Workspace::new("w");
    {
        let request = workspace.create_request();
        assert_eq!(request.id(), 1);
        assert_eq!(request.name(), "Req #1");
        assert_eq!(request.template(), DEFAULT_TEMPLATE);
        assert!(!request.active());
    }
    for _ in 0..11 {
        workspace.create_request();
    }
    assert_eq!(workspace.requests().len(), 12);
    assert_eq!(workspace.request(12).unwrap().name(), "Req #12");
    assert_eq!(workspace.request(10).unwrap().name(), "Req #10");
}

#[test]
fn naming_a_request_activates_it() {
    let mut workspace = Workspace::new("w");
    workspace.create_request();
    workspace.create_request();
    workspace.set_request_name(2, "Login");
    assert_eq!(workspace.request(2).unwrap().name(), "Login");
    assert!(workspace.request(2).unwrap().active());
    assert_eq!(workspace.request(1).unwrap().name(), "Req #1");
    assert!(!workspace.request(1).unwrap().active());
    workspace.set_request_name(9, "Nobody");
    assert_eq!(workspace.requests().len(), 2);
}

#[test]
fn template_of_a_request_can_be_replaced() {
    let mut workspace = Workspace::new("w");
    workspace.create_request();
    workspace.set_request_template(1, "GET http://example.com/\n");
    let request = workspace.request(1).unwrap();
    assert_eq!(request.template(), "GET http://example.com/\n");
    assert!(request.active());
    assert_eq!(request.name(), "Req #1");
}

#[test]
fn deleted_request_stays_in_the_workspace() {
    let mut workspace = Workspace::new("w");
    workspace.create_request();
    workspace.set_request_name(1, "A");
    workspace.delete_request(1);
    assert_eq!(workspace.requests().len(), 1);
    assert!(!workspace.request(1).unwrap().active());
    assert_eq!(workspace.request(1).unwrap().name(), "A");
    assert_eq!(workspace.create_request().id(), 2);
}

#[test]
fn environments_are_created_changed_and_deleted() {
    let mut workspace = Workspace::new("w");
    {
        let env = workspace.create_environment("Prod");
        assert_eq!(env.id(), 2);
        assert_eq!(env.name(), "Prod");
        assert_eq!(env.payload(), DEFAULT_ENVIRONMENT);
        assert!(env.active());
    }
    workspace.set_environ_payload(2, "host: prod\n");
    assert_eq!(workspace.environment(2).unwrap().payload(), "host: prod\n");
    assert_eq!(workspace.environment(1).unwrap().payload(), DEFAULT_ENVIRONMENT);
    workspace.delete_environment(1);
    assert!(!workspace.environment(1).unwrap().active());
    assert!(workspace.environment(2).unwrap().active());
    workspace.set_environ_payload(7, "x: y\n");
    workspace.delete_environment(7);
    assert_eq!(workspace.environments().len(), 2);
}

#[test]
fn request_setters_change_one_field() {
    let mut workspace = Workspace::new("w");
    workspace.create_request();
    let mut request = workspace.request(1).unwrap().clone();
    request.set_name("N");
    request.set_template("T");
    assert!(!request.active());
    request.activate();
    assert!(request.active());
    request.soft_delete();
    assert!(!request.active());
    assert_eq!(request.name(), "N");
    assert_eq!(request.template(), "T");
    assert_eq!(request.id(), 1);
}

#[test]
fn paths_of_the_program() {
    assert_eq!(assets_dir(), "/usr/share/rustaman");
    assert_eq!(workspace("/home/u/.config/rustaman", "workspace.json"), "/home/u/.config/rustaman/workspace.json");
    assert_eq!(workspace("/home/u/.config/rustaman/", "workspace.json"), "/home/u/.config/rustaman/workspace.json");
    assert_eq!(workspace("/home/u", "/etc/w.json"), "/etc/w.json");
    assert_eq!(workspace("", "w.json"), "w.json");
    assert_eq!(workspace("dir", ""), "dir/");
}

#[test]
fn messages_of_the_errors() {
    assert_eq!(RustamanError::RequestParsingError("No request found".to_string()).message(), "No request found");
    assert_eq!(RustamanError::RenderError("r".to_string()).message(), "r");
    assert_eq!(RustamanError::IOError("refused".to_string()).message(), "refused");
    let env = Environment::new(1, "Broken", "a: [\n");
    let message = env.parsed_payload().unwrap_err().message();
    assert!(message.starts_with("Environment Yaml Parsing Error: "), "{}", message);
    assert!(message.len() > "Environment Yaml Parsing Error: ".len());
    let message = rustaman::helpers::http::parse_request("GET nowhere").unwrap_err().message();
    assert_eq!(message, "Url Parse Error: relative URL without a base");
}

#[test]
fn request_is_found_by_a_part_of_its_name_in_any_case() {
    let mut workspace = Workspace::new("w");
    workspace.create_request();
    workspace.set_request_name(1, "Login \u{c9}t\u{e9}");
    let request = workspace.request(1).unwrap();
    assert!(request.search(""));
    assert!(request.search("login"));
    assert!(request.search("LOG"));
    assert!(request.search("n \u{e9}T\u{c9}"));
    assert!(!request.search("logout"));
    assert!(!request.search("login  "));
}

#[test]
fn text_is_held_where_it_occurs() {
    assert!(rustaman::models::workspace::name_holds("login", "gi"));
    assert!(rustaman::models::workspace::name_holds("login", ""));
    assert!(!rustaman::models::workspace::name_holds("login", "GI"));
}
