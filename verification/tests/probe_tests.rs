use opentypeless_llm::probe::{
    parse_env_assignments, probe_http_error, probe_reply_content, probe_settings, probe_url,
    ProbeError,
};

fn pairs(v: Vec<(String, String)>) -> Vec<(&'static str, String)> {
    v.into_iter().map(|(k, val)| (Box::leak(k.into_boxed_str()) as &'static str, val)).collect()
}

#[test]
fn env_file_lines_become_trimmed_assignments() {
    let content = "# comment\n\nGEMENI_KEY = abc \r\nURL=https://x/y=z\n  # indented is not a comment=1\nno equals sign\nGEMENI_MODEL=m";
    let got = pairs(parse_env_assignments(content));
    assert_eq!(
        got,
        vec![
            ("GEMENI_KEY", "abc".to_string()),
            ("URL", "https://x/y=z".to_string()),
            ("# indented is not a comment", "1".to_string()),
            ("GEMENI_MODEL", "m".to_string()),
        ]
    );
}

#[test]
fn env_file_matches_the_std_reading() {
    let content = "A=1\r\n#B=2\n \t\nC = three = 3\nD\nE=";
    let mut expected = Vec::new();
    for line in content.lines() {
        if line.trim().is_empty() || line.starts_with('#') {
            continue;
        }
        if let Some((key, value)) = line.split_once('=') {
            expected.push((key.trim().to_string(), value.trim().to_string()));
        }
    }
    assert_eq!(parse_env_assignments(content), expected);
    assert!(parse_env_assignments("").is_empty());
}

#[test]
fn settings_need_a_non_empty_key_and_fill_defaults() {
    assert!(probe_settings(None, None, None).is_none());
    assert!(probe_settings(Some(String::new()), Some("u".into()), None).is_none());
    let s = probe_settings(Some("k".into()), None, None).unwrap();
    assert_eq!(s.api_key, "k");
    assert_eq!(s.base_url, "https://generativelanguage.googleapis.com/v1beta/openai");
    assert_eq!(s.model, "models/gemini-3.1-flash-lite-preview");
    let s = probe_settings(Some("k".into()), Some("http://h".into()), Some("glm-4".into())).unwrap();
    assert_eq!(s.base_url, "http://h");
    assert_eq!(s.model, "glm-4");
}

#[test]
fn probe_url_drops_trailing_slashes() {
    assert_eq!(probe_url("https://h/v1//"), "https://h/v1/chat/completions");
    assert_eq!(probe_url("https://h/v1"), "https://h/v1/chat/completions");
    assert_eq!(probe_url(""), "/chat/completions");
}

#[test]
fn probe_errors_and_replies() {
    assert_eq!(probe_http_error(401, "no key"), "HTTP 401 Unauthorized: no key");
    assert_eq!(
        probe_reply_content(r#"{"choices":[{"message":{"content":"hi"}}]}"#).unwrap(),
        "hi"
    );
    let e = probe_reply_content(r#"{"choices":[]}"#).unwrap_err();
    assert!(matches!(e, ProbeError::NoContent));
    assert_eq!(e.message(), "No content in response");
    let e = probe_reply_content("oops").unwrap_err();
    assert!(matches!(e, ProbeError::NotJson));
}
