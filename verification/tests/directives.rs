use regex::Regex;
use rustaman::errors::RustamanError;
use rustaman::helpers::directive::{
    extract_authority_from_directive, extract_capture_name, extract_insecure_flag,
    parse_directives,
};
use rustaman::helpers::http::split_template;

fn samples() -> Vec<String> {
    let pieces = [
        "", " ", "\t", "\n", "#!", "#", "!", ":", "[", "]", "0", "80", "8080", "x", "a.b",
        "Authority:", "Capture:", "AllowInsecureCertificate", "EndCapture", "localhost",
        "\u{a0}", "\u{2003}", "::1",
    ];
    let mut all: Vec<String> = Vec::new();
    for a in pieces.iter() {
        for b in pieces.iter() {
            for c in pieces.iter() {
                all.push(format!("{}{}{}", a, b, c));
                all.push(format!("#!{}{}{}", a, b, c));
                all.push(format!("#! Authority:{}{}{}", a, b, c));
                all.push(format!("#! Capture:{}{}{}", a, b, c));
            }
        }
    }
    all
}

fn port_fits(line: &str, pattern: &Regex) -> bool {
    match pattern.captures(line) {
        Some(found) => found.name("port").unwrap().as_str().parse::<u16>().is_ok(),
        None => true,
    }
}

#[test]
fn insecure_flag_agrees_with_its_pattern() {
    let pattern = Regex::new(r"#![\s]*AllowInsecureCertificate").unwrap();
    for line in samples() {
        assert_eq!(extract_insecure_flag(&line), pattern.is_match(&line), "{:?}", line);
    }
}

#[test]
fn capture_name_agrees_with_its_pattern() {
    let pattern = Regex::new(r"#![\s]*Capture:\s*(?P<capture>.+)").unwrap();
    for line in samples() {
        let expected = pattern
            .captures(&line)
            .map(|found| found.name("capture").unwrap().as_str().to_string());
        assert_eq!(extract_capture_name(&line), expected, "{:?}", line);
    }
}

#[test]
fn authority_agrees_with_its_pattern() {
    let pattern =
        Regex::new(r"#![\s]*Authority:[\s]*(?P<host>.+):(?P<port>[0-9]+)").unwrap();
    for line in samples() {
        if !port_fits(&line, &pattern) {
            assert_eq!(extract_authority_from_directive(&line), None, "{:?}", line);
            continue;
        }
        let expected = pattern.captures(&line).map(|found| {
            let host = found
                .name("host")
                .unwrap()
                .as_str()
                .trim_start_matches('[')
                .trim_end_matches(']');
            let port: u16 = found.name("port").unwrap().as_str().parse().unwrap();
            (host.to_string(), port)
        });
        assert_eq!(extract_authority_from_directive(&line), expected, "{:?}", line);
    }
}

#[test]
fn blocks_agree_with_the_pattern_of_the_marker() {
    let pattern = Regex::new(r"#![\s]*EndCapture").unwrap();
    for template in samples() {
        let expected: Vec<String> = pattern.split(&template).map(|b| b.to_string()).collect();
        assert_eq!(split_template(&template), expected, "{:?}", template);
    }
}

#[test]
fn authority_with_host_and_port() {
    assert_eq!(
        extract_authority_from_directive("#! Authority: 10.0.0.1:8080"),
        Some(("10.0.0.1".to_string(), 8080))
    );
    assert_eq!(
        extract_authority_from_directive("#!Authority:example.com:443 trailing"),
        Some(("example.com".to_string(), 443))
    );
}

#[test]
fn authority_takes_the_last_colon_before_a_digit() {
    assert_eq!(
        extract_authority_from_directive("#! Authority: [fe80::1:2]:65535"),
        Some(("fe80::1:2".to_string(), 65535))
    );
    assert_eq!(
        extract_authority_from_directive("#! Authority: a:1:b"),
        Some(("a".to_string(), 1))
    );
}

#[test]
fn authority_with_a_port_that_is_too_large_is_no_authority() {
    assert_eq!(extract_authority_from_directive("#! Authority: host:65536"), None);
    assert_eq!(extract_authority_from_directive("#! Authority: host:99999999999999999999"), None);
    assert_eq!(
        extract_authority_from_directive("#! Authority: host:0000000080"),
        Some(("host".to_string(), 80))
    );
}

#[test]
fn authority_needs_host_colon_and_port() {
    assert_eq!(extract_authority_from_directive("#! Authority: host"), None);
    assert_eq!(extract_authority_from_directive("#! Authority: host:"), None);
    assert_eq!(extract_authority_from_directive("#! Authority: :80"), Some((" ".to_string(), 80)));
    assert_eq!(extract_authority_from_directive("#!Authority::80"), None);
    assert_eq!(extract_authority_from_directive("# Authority: host:80"), None);
    assert_eq!(extract_authority_from_directive("#! authority: host:80"), None);
}

#[test]
fn capture_name_runs_to_the_end_of_the_line() {
    assert_eq!(extract_capture_name("#! Capture: result"), Some("result".to_string()));
    assert_eq!(extract_capture_name("#!Capture:a b "), Some("a b ".to_string()));
    assert_eq!(extract_capture_name("x #! \t Capture:   y\nz"), Some("y".to_string()));
    assert_eq!(extract_capture_name("#! Capture:"), None);
    assert_eq!(extract_capture_name("#! Capture: "), Some(" ".to_string()));
    assert_eq!(extract_capture_name("#! capture: x"), None);
}

#[test]
fn insecure_flag_is_found_anywhere_in_the_line() {
    assert!(extract_insecure_flag("#! AllowInsecureCertificate"));
    assert!(extract_insecure_flag("#!AllowInsecureCertificate"));
    assert!(extract_insecure_flag("# x #!  \t AllowInsecureCertificateXYZ"));
    assert!(!extract_insecure_flag("#! allowinsecurecertificate"));
    assert!(!extract_insecure_flag("#! Allow InsecureCertificate"));
    assert!(!extract_insecure_flag("AllowInsecureCertificate"));
}

#[test]
fn directives_of_a_block_are_read_up_to_the_request_line() {
    let found = parse_directives(
        "# plain comment\n#! Authority: a:1\n\n#! Capture: first\n#! Authority: b:2\n#! Capture: second\nGET http://x/\n#! AllowInsecureCertificate\n",
    )
    .unwrap();
    assert_eq!(found.authority, Some(("b".to_string(), 2)));
    assert_eq!(found.capture, Some("second".to_string()));
    assert!(!found.insecure);
}

#[test]
fn a_line_counts_as_its_first_directive_only() {
    let found =
        parse_directives("#! Authority: a:1 #! Capture: c #! AllowInsecureCertificate\nGET x\n")
            .unwrap();
    assert_eq!(found.authority, Some(("a".to_string(), 1)));
    assert_eq!(found.capture, None);
    assert!(!found.insecure);
    let found = parse_directives("#! AllowInsecureCertificate\nGET x\n").unwrap();
    assert!(found.insecure);
}

#[test]
fn block_without_request_line_has_no_directives() {
    match parse_directives("# only\n\n#! Capture: x") {
        Err(RustamanError::RequestParsingError(message)) => assert_eq!(message, "No request found"),
        other => panic!("no parsing error: {:?}", other),
    }
}
