use library_core::sources::capture::{
    build_cookie_jar, capture_poll_step, evaluate_capture, humble_capture, injected_script,
    manning_capture, manual_ready, packt_capture, spec_for, CaptureSpec, Completion, CookiePair,
    PollDecision, MANUAL_READY_SIGNAL_COOKIE, PACKT_TOKEN_SIGNAL_COOKIE,
};

fn pair(name: &str, value: &str) -> CookiePair {
    (name.to_string(), value.to_string())
}

#[test]
fn spec_for_looks_up_by_source_id() {
    assert_eq!(spec_for("humble_bundle").unwrap().label, "Humble Bundle");
    assert_eq!(spec_for("packt").unwrap().label, "Packt");
    assert_eq!(spec_for("manning").unwrap().label, "Manning");
    assert!(spec_for("kindle").is_none());
    assert!(spec_for("nonsense").is_none());
}

#[test]
fn humble_ignores_guest_session_cookie_until_manually_confirmed() {
    let spec = &humble_capture();
    assert_eq!(evaluate_capture(spec, &[]), None);

    let guest_cookies = [pair("_simpleauth_sess", "guest-value")];
    assert_eq!(evaluate_capture(spec, &guest_cookies), None);

    let confirmed_cookies = [
        pair("_simpleauth_sess", "authenticated-value"),
        pair(MANUAL_READY_SIGNAL_COOKIE, "1"),
    ];
    assert_eq!(
        evaluate_capture(spec, &confirmed_cookies),
        Some("authenticated-value".to_string())
    );
}

#[test]
fn auto_cookie_completes_without_manual_confirmation() {
    let spec = CaptureSpec {
        source: "test",
        label: "Test",
        login_url: "https://example.com",
        cookie_domains: vec!["https://example.com"],
        completion: Completion::AutoCookie("session"),
    };
    assert_eq!(evaluate_capture(&spec, &[]), None);
    let cookies = [pair("session", "value")];
    assert_eq!(evaluate_capture(&spec, &cookies), Some("value".to_string()));
}

#[test]
fn packt_captures_from_signal_cookie_only() {
    let spec = &packt_capture();
    assert_eq!(evaluate_capture(spec, &[]), None);
    assert_eq!(evaluate_capture(spec, &[pair("session", "abc")]), None);
    let cookies = [pair(PACKT_TOKEN_SIGNAL_COOKIE, "eyJhbGciOi...")];
    assert_eq!(
        evaluate_capture(spec, &cookies),
        Some("eyJhbGciOi...".to_string())
    );
}

#[test]
fn manning_requires_manual_ready_signal_then_joins_jar() {
    let spec = &manning_capture();
    let cookies_not_ready = [pair("session_id", "abc"), pair("csrf", "def")];
    assert_eq!(evaluate_capture(spec, &cookies_not_ready), None);

    let cookies_ready = [
        pair("session_id", "abc"),
        pair("csrf", "def"),
        pair(MANUAL_READY_SIGNAL_COOKIE, "1"),
    ];
    assert_eq!(
        evaluate_capture(spec, &cookies_ready),
        Some("session_id=abc; csrf=def".to_string())
    );
}

#[test]
fn build_cookie_jar_excludes_signal_cookies() {
    let cookies = [
        pair("a", "1"),
        pair(MANUAL_READY_SIGNAL_COOKIE, "1"),
        pair("b", "2"),
        pair(PACKT_TOKEN_SIGNAL_COOKIE, "tok"),
    ];
    assert_eq!(build_cookie_jar(&cookies), "a=1; b=2");
}

#[test]
fn injected_script_is_specific_to_each_source_completion_mode() {
    let humble_script = injected_script(&humble_capture());
    assert!(humble_script.contains("library-capture-banner"));
    assert!(!humble_script.contains("setRequestHeader"));

    let manning_script = injected_script(&manning_capture());
    assert!(manning_script.contains("library-capture-banner"));
    assert!(!manning_script.contains("setRequestHeader"));

    let packt_script = injected_script(&packt_capture());
    assert!(!packt_script.contains("library-capture-banner"));
    assert!(packt_script.contains("setRequestHeader"));
    assert!(packt_script.contains("packtpub.com"));
}

#[test]
fn auto_cookie_spec_injects_no_script() {
    let spec = CaptureSpec {
        source: "test",
        label: "Test",
        login_url: "https://example.com",
        cookie_domains: vec!["https://example.com"],
        completion: Completion::AutoCookie("session"),
    };
    assert_eq!(injected_script(&spec), "");
}

#[test]
fn manual_ready_sees_only_the_banner_cookie() {
    assert!(!manual_ready(&[pair("session", "x")]));
    assert!(manual_ready(&[pair("session", "x"), pair(MANUAL_READY_SIGNAL_COOKIE, "1")]));
}

#[test]
fn manning_jar_with_only_the_banner_cookie_is_empty() {
    let spec = &manning_capture();
    assert_eq!(
        evaluate_capture(spec, &[pair(MANUAL_READY_SIGNAL_COOKIE, "1")]),
        Some(String::new())
    );
}

#[test]
fn capture_specs_name_their_sources_and_domains() {
    let humble = humble_capture();
    assert_eq!(humble.source, "humble_bundle");
    assert_eq!(humble.cookie_domains, vec!["https://www.humblebundle.com"]);
    let packt = packt_capture();
    assert_eq!(packt.source, "packt");
    assert_eq!(
        packt.cookie_domains,
        vec!["https://subscription.packtpub.com", "https://www.packtpub.com"]
    );
    let manning = manning_capture();
    assert_eq!(manning.source, "manning");
}

#[test]
fn poll_step_cancels_when_window_closed() {
    let spec = humble_capture();
    let cookies = [pair("_simpleauth_sess", "v"), pair(MANUAL_READY_SIGNAL_COOKIE, "1")];
    assert!(matches!(
        capture_poll_step(&spec, false, Some(&cookies[..]), false),
        PollDecision::Cancelled
    ));
}

#[test]
fn poll_step_captures_before_the_deadline_counts() {
    let spec = humble_capture();
    let cookies = [pair("_simpleauth_sess", "v"), pair(MANUAL_READY_SIGNAL_COOKIE, "1")];
    match capture_poll_step(&spec, true, Some(&cookies[..]), true) {
        PollDecision::Captured(v) => assert_eq!(v, "v"),
        _ => panic!("expected a capture"),
    }
}

#[test]
fn poll_step_waits_on_a_failed_read_then_cancels_at_the_deadline() {
    let spec = humble_capture();
    assert!(matches!(
        capture_poll_step(&spec, true, None, false),
        PollDecision::KeepWaiting
    ));
    assert!(matches!(
        capture_poll_step(&spec, true, None, true),
        PollDecision::Cancelled
    ));
}
