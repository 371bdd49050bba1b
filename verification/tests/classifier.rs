use xssninja::classify::{
    classify_response, is_conclusive, payload_contains_indicators, payload_inside_script_context,
    payload_present_in_dom, sanitize_payload, Verdict,
};

#[test]
fn raw_reflection_wins_over_sanitization_signs() {
    // the body reflects the payload verbatim and also carries an HTML-escaped
    // metacharacter; the raw match takes priority
    let payload = "\"><svg/onload=alert(1)>";
    let body = format!("&lt;div&gt; {} &lt;/div&gt;", payload);
    assert_eq!(classify_response(payload, &body), Verdict::ExploitConfirmed);
}

#[test]
fn raw_script_tag_reflection_beats_indicator() {
    // the reflected payload itself contains the canary; the raw match fires
    // before the execution-indicator check can
    let payload = "\"><script>alert(1)</script>";
    let body = format!("<html><p>{}</p></html>", payload);
    assert!(body.contains("alert(1)"));
    assert_eq!(classify_response(payload, &body), Verdict::ExploitConfirmed);
}

#[test]
fn entity_escaped_reflection_is_sanitized() {
    // only the HTML-entity-escaped form of the payload appears
    let payload = "\"FUZZ;//";
    let body = "<p>&quot;FUZZ;//</p>";
    assert_eq!(classify_response(payload, body), Verdict::Sanitized);
}

#[test]
fn untouched_body_is_clean() {
    let payload = "\"><svg/onload=alert(1)>";
    let body = "<html><head></head><body>hello world</body></html>";
    assert_eq!(classify_response(payload, body), Verdict::Clean);
}

#[test]
fn each_canary_is_an_indicator() {
    let payload = "\"FUZZ;//";
    for canary in ["alert(1)", "confirm(1)", "prompt(1)"] {
        let body = format!("<div>{}</div>", canary);
        assert!(payload_contains_indicators(payload, &body));
        assert_eq!(
            classify_response(payload, &body),
            Verdict::PossibleExecutionIndicator
        );
    }
}

#[test]
fn dom_hook_in_img_onerror() {
    let body = "<html><img src=x onerror=alert(1)></html>";
    assert!(payload_present_in_dom(body));
}

#[test]
fn dom_hook_in_embed_onerror() {
    let body = "<html><embed src=x onerror=alert(1)></html>";
    assert!(payload_present_in_dom(body));
}

#[test]
fn dom_hook_in_script_text() {
    let body = "<html><script>var a = alert(1)</script></html>";
    assert!(payload_present_in_dom(body));
}

#[test]
fn no_dom_hook_in_plain_text() {
    // the canary sits in plain markup, not in a script element or an
    // onerror attribute, so the DOM inspection alone reports nothing
    let body = "<html><div>let it alert(1) be</div></html>";
    assert!(!payload_present_in_dom(body));
}

#[test]
fn script_context_inside_double_quotes() {
    let payload = "abc";
    let body = "<script>var x = \"zzabczz\";</script>";
    assert!(payload_inside_script_context(payload, body));
}

#[test]
fn script_context_inside_backticks() {
    let payload = "abc";
    let body = "<script>f(`template abc here`)</script>";
    assert!(payload_inside_script_context(payload, body));
}

#[test]
fn script_context_via_let_initializer() {
    // no quote pair encloses the payload; only the let-initializer pattern
    // of the regex crate can report this one
    let payload = "xyzzy";
    let body = "<script>let v = 1 + xyzzy + 2;</script>";
    assert!(payload_inside_script_context(payload, body));
}

#[test]
fn script_context_via_function_body() {
    let payload = "xyzzy";
    let body = "function handler(e) {do_thing(xyzzy) }";
    assert!(payload_inside_script_context(payload, body));
}

#[test]
fn no_script_context_in_plain_markup() {
    let payload = "xyzzy";
    let body = "<div>xyzzy</div>";
    assert!(!payload_inside_script_context(payload, body));
}

#[test]
fn sanitize_detects_url_encoded_payload() {
    // the body carries the percent-encoded form of the payload only; this
    // exercises the urlencoding-backed check end to end
    let payload = "<x y>";
    let encoded = urlencoding::encode(payload).to_string();
    assert_ne!(encoded, payload);
    let body = format!("<p>{}</p>", encoded);
    assert!(sanitize_payload(payload, &body));
    assert_eq!(classify_response(payload, &body), Verdict::Sanitized);
}

#[test]
fn sanitize_detects_stripped_script_tag() {
    let payload = "\"FUZZ;//";
    let body = "<script></script>";
    assert!(sanitize_payload(payload, body));
}

#[test]
fn sanitize_detects_escaping_calls_case_insensitively() {
    let payload = "\"FUZZ;//";
    for call in [
        "EncodeURIComponent(v)",
        "ESCAPE(v)",
        "HtmlSpecialChars(v)",
        "htmlentities(v)",
    ] {
        let body = format!("<script>w = {};</script>", call);
        assert!(sanitize_payload(payload, &body));
    }
}

#[test]
fn sanitize_rejects_unrelated_body() {
    let payload = "\"FUZZ;//";
    let body = "nothing suspicious here";
    assert!(!sanitize_payload(payload, body));
}

#[test]
fn canary_without_reflection_is_an_indicator() {
    // the payload never appears, but the page carries a canary call
    let payload = "a\"c";
    let body = "<script>var x = \"za\"; alert(1);</script>";
    assert_eq!(
        classify_response(payload, body),
        Verdict::PossibleExecutionIndicator
    );
}

#[test]
fn conclusive_verdicts_are_exactly_the_severe_three() {
    assert!(is_conclusive(&Verdict::ExploitConfirmed));
    assert!(is_conclusive(&Verdict::PossibleScriptContext));
    assert!(is_conclusive(&Verdict::PossibleExecutionIndicator));
    assert!(!is_conclusive(&Verdict::Sanitized));
    assert!(!is_conclusive(&Verdict::Clean));
}
