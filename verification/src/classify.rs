//! Response classification. Given a payload and a response body, a probe's
//! outcome is one of five verdicts, decided in strict priority order: a raw
//! reflection of the payload, a reflection inside a scripting context, an
//! execution indicator, a sanitized reflection, or a clean response.

use vstd::prelude::*;
use crate::text::{
    chars_of, contains_chars, contains_seq, contains_str, lower_ascii, lower_seq, lemma_first_occurrence_from,
    lemma_last_occurrence_before, first_index_from, last_index_of, occurs_at, subvec,
};

verus! {

/// The verdict for one probe, ordered from most to least severe.
#[derive(Clone, Copy, PartialEq, Eq, Structural, Debug)]
pub enum Verdict {
    /// The response body contains the raw payload verbatim.
    ExploitConfirmed,
    /// The payload appears inside a scripting context of the body.
    PossibleScriptContext,
    /// The body carries a canary call or a DOM execution hook.
    PossibleExecutionIndicator,
    /// The body contains the payload only in an encoded or stripped form.
    Sanitized,
    /// None of the patterns matched.
    Clean,
}

/// The verdicts that conclude a (target, method) scan early.
pub open spec fn conclusive(v: Verdict) -> bool {
    v == Verdict::ExploitConfirmed || v == Verdict::PossibleScriptContext || v
        == Verdict::PossibleExecutionIndicator
}

/// Whether `v` concludes a (target, method) scan.
pub fn is_conclusive(v: &Verdict) -> (r: bool)
    ensures
        r == conclusive(*v),
{
    match v {
        Verdict::ExploitConfirmed => true,
        Verdict::PossibleScriptContext => true,
        Verdict::PossibleExecutionIndicator => true,
        Verdict::Sanitized => false,
        Verdict::Clean => false,
    }
}

/// One of the fixed canary calls occurs in the body.
pub open spec fn canary_present(body: Seq<char>) -> bool {
    contains_seq(body, "alert(1)"@) || contains_seq(body, "confirm(1)"@) || contains_seq(
        body,
        "prompt(1)"@,
    )
}

/// The payload occurs between a `q` on its left with no `q` in between, and a
/// `q` on its right with no `q` in between: the shape of a reflection inside
/// a `q`-delimited string literal.
pub open spec fn quoted_occurrence(p: Seq<char>, body: Seq<char>, q: char) -> bool {
    exists|i: int, k: int, j: int|
        0 <= i < k && k + p.len() <= j < body.len() && body[i] == q && body[j] == q && occurs_at(
            body,
            p,
            k,
        ) && (forall|m: int| i < m < k ==> body[m] != q) && (forall|m: int|
            k + p.len() <= m < j ==> body[m] != q)
}

/// What the `let`-initializer pattern of the regex crate reports for a
/// payload and body; the match is a function of the two strings alone.
pub uninterp spec fn let_context_of(p: Seq<char>, body: Seq<char>) -> bool;

/// What the function-body pattern of the regex crate reports for a payload
/// and body; the match is a function of the two strings alone.
pub uninterp spec fn function_context_of(p: Seq<char>, body: Seq<char>) -> bool;

/// The payload appears inside a scripting context: a double-quoted,
/// single-quoted or backtick string, a `let`-style initializer, or a
/// function body.
pub open spec fn script_context(p: Seq<char>, body: Seq<char>) -> bool {
    quoted_occurrence(p, body, '"') || quoted_occurrence(p, body, '\'') || let_context_of(p, body)
        || quoted_occurrence(p, body, '`') || function_context_of(p, body)
}

/// The percent-encoding of a string, as `urlencoding::encode` computes it.
pub uninterp spec fn url_encoded_of(s: Seq<char>) -> Seq<char>;

/// An HTML-entity-escaped metacharacter occurs in the body.
pub open spec fn html_escape_present(body: Seq<char>) -> bool {
    contains_seq(body, "&lt;"@) || contains_seq(body, "&gt;"@) || contains_seq(body, "&quot;"@)
        || contains_seq(body, "&#x27;"@) || contains_seq(body, "&#x2F;"@)
}

/// A bare script tag occurs in the body (the sign of a stripped payload).
pub open spec fn script_tag_present(body: Seq<char>) -> bool {
    contains_seq(body, "<script>"@) || contains_seq(body, "</script>"@)
}

/// A call to a known client- or server-side escaping function occurs in the
/// body, compared case-insensitively over ASCII.
pub open spec fn escape_call_present(body: Seq<char>) -> bool {
    contains_seq(lower_seq(body), "encodeuricomponent("@) || contains_seq(
        lower_seq(body),
        "escape("@,
    ) || contains_seq(lower_seq(body), "htmlspecialchars("@) || contains_seq(
        lower_seq(body),
        "htmlentities("@,
    )
}

/// Some sanitization pattern matches: the payload itself, its URL-encoded
/// form, an HTML-escaped metacharacter, a bare script tag, or a call to a
/// known escaping function.
pub open spec fn sanitization_detected(p: Seq<char>, body: Seq<char>) -> bool {
    contains_seq(body, p) || contains_seq(body, url_encoded_of(p)) || html_escape_present(body)
        || script_tag_present(body) || escape_call_present(body)
}

/// The text fragments of every `<script>` element of the parsed body.
pub uninterp spec fn script_texts_of(body: Seq<char>) -> Seq<Seq<char>>;

/// The `onerror` attribute values of every `<img>` element of the parsed body.
pub uninterp spec fn img_onerror_attrs_of(body: Seq<char>) -> Seq<Seq<char>>;

/// The `onerror` attribute values of every `<embed>` element of the parsed body.
pub uninterp spec fn embed_onerror_attrs_of(body: Seq<char>) -> Seq<Seq<char>>;

/// Some text of `texts` contains `lit`.
pub open spec fn any_contains(texts: Seq<Seq<char>>, lit: Seq<char>) -> bool {
    exists|i: int| 0 <= i < texts.len() && contains_seq(texts[i], lit)
}

/// A DOM inspection of the body finds the canary: in a `<script>` element's
/// text, or in the `onerror` attribute of an `<img>` or `<embed>` element.
pub open spec fn dom_execution_hook(body: Seq<char>) -> bool {
    any_contains(script_texts_of(body), "alert(1)"@) || any_contains(
        img_onerror_attrs_of(body),
        "alert(1)"@,
    ) || any_contains(embed_onerror_attrs_of(body), "alert(1)"@)
}

/// The verdict for one (payload, body) pair, in strict priority order.
pub open spec fn verdict_of(payload: Seq<char>, body: Seq<char>) -> Verdict {
    if contains_seq(body, payload) {
        Verdict::ExploitConfirmed
    } else if script_context(payload, body) {
        Verdict::PossibleScriptContext
    } else if canary_present(body) || dom_execution_hook(body) {
        Verdict::PossibleExecutionIndicator
    } else if sanitization_detected(payload, body) {
        Verdict::Sanitized
    } else {
        Verdict::Clean
    }
}

/// Relies on `urlencoding::encode`: the percent-encoding of `s`, a function
/// of `s` alone.
#[verifier::external_body]
fn url_encode(s: &str) -> (r: String)
    ensures
        r@ == url_encoded_of(s@),
{
    urlencoding::encode(s).to_string()
}

/// Relies on `regex::Regex::is_match` with the pattern
/// `let\s+\w+\s*=\s*[^;]*PAYLOAD[^;]*;` where the payload is inserted with
/// `regex::escape`; the match is a function of the two strings alone.
#[verifier::external_body]
fn matches_let_context(payload: &str, body: &str) -> (r: bool)
    ensures
        r == let_context_of(payload@, body@),
{
    let pattern = format!(r#"let\s+\w+\s*=\s*[^;]*{}[^;]*;"#, regex::escape(payload));
    match regex::Regex::new(&pattern) {
        Ok(re) => re.is_match(body),
        Err(_) => false,
    }
}

/// Relies on `regex::Regex::is_match` with the pattern
/// `function\s+\w+\s*\([^)]*\)\s*\{[^}]*PAYLOAD\s*[^}]*\}` where the payload
/// is inserted with `regex::escape`; the match is a function of the two
/// strings alone.
#[verifier::external_body]
fn matches_function_context(payload: &str, body: &str) -> (r: bool)
    ensures
        r == function_context_of(payload@, body@),
{
    let pattern = format!(
        r#"function\s+\w+\s*\([^)]*\)\s*\{{[^}}]*{}\s*[^}}]*\}}"#,
        regex::escape(payload),
    );
    match regex::Regex::new(&pattern) {
        Ok(re) => re.is_match(body),
        Err(_) => false,
    }
}

/// Relies on `scraper::Html::parse_document` and `Selector::parse("script")`:
/// returns the text fragments of the `<script>` elements of the parsed body.
#[verifier::external_body]
fn script_texts(body: &str) -> (r: Vec<String>)
    ensures
        r.deep_view() == script_texts_of(body@),
{
    let document = scraper::Html::parse_document(body);
    let selector = scraper::Selector::parse("script").unwrap();
    let mut out = Vec::new();
    for element in document.select(&selector) {
        for fragment in element.text() {
            out.push(fragment.to_string());
        }
    }
    out
}

/// Relies on `scraper::Html::parse_document` and `Selector::parse("img")`:
/// returns the `onerror` attribute values of the `<img>` elements.
#[verifier::external_body]
fn img_onerror_attrs(body: &str) -> (r: Vec<String>)
    ensures
        r.deep_view() == img_onerror_attrs_of(body@),
{
    let document = scraper::Html::parse_document(body);
    let selector = scraper::Selector::parse("img").unwrap();
    let mut out = Vec::new();
    for element in document.select(&selector) {
        if let Some(value) = element.value().attr("onerror") {
            out.push(value.to_string());
        }
    }
    out
}

/// Relies on `scraper::Html::parse_document` and `Selector::parse("embed")`:
/// returns the `onerror` attribute values of the `<embed>` elements.
#[verifier::external_body]
fn embed_onerror_attrs(body: &str) -> (r: Vec<String>)
    ensures
        r.deep_view() == embed_onerror_attrs_of(body@),
{
    let document = scraper::Html::parse_document(body);
    let selector = scraper::Selector::parse("embed").unwrap();
    let mut out = Vec::new();
    for element in document.select(&selector) {
        if let Some(value) = element.value().attr("onerror") {
            out.push(value.to_string());
        }
    }
    out
}

/// Whether some element of `texts` contains the characters `lit`.
fn any_text_contains(texts: &Vec<String>, lit: &Vec<char>) -> (r: bool)
    ensures
        r == any_contains(texts.deep_view(), lit@),
{
    let mut i: usize = 0;
    while i < texts.len()
        invariant
            i <= texts@.len(),
            forall|m: int| 0 <= m < i ==> !contains_seq(texts.deep_view()[m], lit@),
        decreases texts@.len() - i,
    {
        let t = chars_of(texts[i].as_str());
        proof {
            assert(texts.deep_view()[i as int] == texts@[i as int]@);
        }
        if contains_chars(&t, lit) {
            return true;
        }
        i += 1;
    }
    false
}

/// With `fq`/`lq` the first and last occurrences of `q` in `body`, a quoted
/// occurrence of `p` is exactly an occurrence of `p` strictly between them.
proof fn lemma_quoted_occurrence_slice(p: Seq<char>, body: Seq<char>, q: char, fq: int, lq: int)
    requires
        0 <= fq < lq < body.len(),
        body[fq] == q,
        body[lq] == q,
        forall|m: int| 0 <= m < fq ==> body[m] != q,
        forall|m: int| lq < m < body.len() ==> body[m] != q,
    ensures
        quoted_occurrence(p, body, q) <==> contains_seq(body.subrange(fq + 1, lq), p),
{
    let slice = body.subrange(fq + 1, lq);
    if contains_seq(slice, p) {
        let rel = choose|rel: int| occurs_at(slice, p, rel);
        let k = fq + 1 + rel;
        assert(body.subrange(k, k + p.len()) =~= slice.subrange(rel, rel + p.len()));
        assert(occurs_at(body, p, k));
        assert(body[fq] == q && 0 <= fq < k);
        lemma_last_occurrence_before(body, q, k);
        let i = choose|i: int|
            0 <= i < k && body[i] == q && forall|m: int| i < m < k ==> body[m] != q;
        assert(k + p.len() <= lq < body.len() && body[lq] == q);
        lemma_first_occurrence_from(body, q, k + p.len());
        let j = choose|j: int|
            k + p.len() <= j < body.len() && body[j] == q && forall|m: int|
                k + p.len() <= m < j ==> body[m] != q;
        assert(0 <= i < k && k + p.len() <= j < body.len() && body[i] == q && body[j] == q
            && occurs_at(body, p, k) && (forall|m: int| i < m < k ==> body[m] != q) && (forall|
            m: int,
        | k + p.len() <= m < j ==> body[m] != q));
    }
    if quoted_occurrence(p, body, q) {
        let (i, k, j) = choose|i: int, k: int, j: int|
            0 <= i < k && k + p.len() <= j < body.len() && body[i] == q && body[j] == q
                && occurs_at(body, p, k) && (forall|m: int| i < m < k ==> body[m] != q) && (forall|
                m: int,
            | k + p.len() <= m < j ==> body[m] != q);
        assert(fq <= i);
        assert(j <= lq);
        let rel = k - (fq + 1);
        assert(slice.subrange(rel, rel + p.len()) =~= body.subrange(k, k + p.len()));
        assert(occurs_at(slice, p, rel));
    }
}

/// Whether `p` occurs inside a `q`-delimited span of `body`.
fn payload_in_quoted_span(p: &Vec<char>, body: &Vec<char>, q: char) -> (r: bool)
    ensures
        r == quoted_occurrence(p@, body@, q),
{
    let first = first_index_from(body, q, 0);
    let last = last_index_of(body, q);
    match (first, last) {
        (Some(fq), Some(lq)) => {
            if fq < lq {
                let slice = subvec(body, fq + 1, lq);
                let r = contains_chars(&slice, p);
                proof {
                    lemma_quoted_occurrence_slice(p@, body@, q, fq as int, lq as int);
                }
                r
            } else {
                proof {
                    assert forall|i: int, k: int, j: int|
                        !(0 <= i < k && k + p@.len() <= j < body@.len() && body@[i] == q
                            && body@[j] == q && occurs_at(body@, p@, k) && (forall|m: int|
                            i < m < k ==> body@[m] != q) && (forall|m: int|
                            k + p@.len() <= m < j ==> body@[m] != q)) by {
                        if 0 <= i < k && k + p@.len() <= j < body@.len() && body@[i] == q
                            && body@[j] == q {
                            assert(fq <= i);
                            assert(j <= lq);
                        }
                    }
                }
                false
            }
        },
        _ => {
            proof {
                assert forall|i: int, k: int, j: int|
                    !(0 <= i < k && k + p@.len() <= j < body@.len() && body@[i] == q && body@[j]
                        == q && occurs_at(body@, p@, k) && (forall|m: int|
                        i < m < k ==> body@[m] != q) && (forall|m: int|
                        k + p@.len() <= m < j ==> body@[m] != q)) by {
                    if 0 <= i < k && j < body@.len() && body@[i] == q {
                    }
                }
            }
            false
        },
    }
}

/// Whether the payload appears inside a scripting context of the body:
/// inside a quoted or backtick string, a `let` initializer, or a function
/// body.
pub fn payload_inside_script_context(payload: &str, body: &str) -> (r: bool)
    ensures
        r == script_context(payload@, body@),
{
    let p = chars_of(payload);
    let b = chars_of(body);
    if payload_in_quoted_span(&p, &b, '"') {
        return true;
    }
    if payload_in_quoted_span(&p, &b, '\'') {
        return true;
    }
    if matches_let_context(payload, body) {
        return true;
    }
    if payload_in_quoted_span(&p, &b, '`') {
        return true;
    }
    matches_function_context(payload, body)
}

/// Whether some sanitization pattern matches the body: the raw payload, its
/// URL-encoded form, an HTML-escaped metacharacter, a bare script tag, or a
/// call to a known escaping function.
pub fn sanitize_payload(payload: &str, body: &str) -> (r: bool)
    ensures
        r == sanitization_detected(payload@, body@),
{
    let b = chars_of(body);
    let p = chars_of(payload);
    if contains_chars(&b, &p) {
        return true;
    }
    let encoded = url_encode(payload);
    let e = chars_of(encoded.as_str());
    if contains_chars(&b, &e) {
        return true;
    }
    if contains_str(body, "&lt;") || contains_str(body, "&gt;") || contains_str(body, "&quot;")
        || contains_str(body, "&#x27;") || contains_str(body, "&#x2F;") {
        return true;
    }
    if contains_str(body, "<script>") || contains_str(body, "</script>") {
        return true;
    }
    let lb = lower_ascii(&b);
    let c1 = chars_of("encodeuricomponent(");
    let c2 = chars_of("escape(");
    let c3 = chars_of("htmlspecialchars(");
    let c4 = chars_of("htmlentities(");
    contains_chars(&lb, &c1) || contains_chars(&lb, &c2) || contains_chars(&lb, &c3)
        || contains_chars(&lb, &c4)
}

/// Whether one of the fixed canary calls occurs in the body. The payload
/// itself plays no part in this check.
pub fn payload_contains_indicators(_payload: &str, body: &str) -> (r: bool)
    ensures
        r == canary_present(body@),
{
    contains_str(body, "alert(1)") || contains_str(body, "confirm(1)") || contains_str(
        body,
        "prompt(1)",
    )
}

/// Whether a DOM inspection of the body finds the canary in a `<script>`
/// element's text or in the `onerror` attribute of an `<img>` or `<embed>`.
pub fn payload_present_in_dom(body: &str) -> (r: bool)
    ensures
        r == dom_execution_hook(body@),
{
    let canary = chars_of("alert(1)");
    let scripts = script_texts(body);
    if any_text_contains(&scripts, &canary) {
        return true;
    }
    let imgs = img_onerror_attrs(body);
    if any_text_contains(&imgs, &canary) {
        return true;
    }
    let embeds = embed_onerror_attrs(body);
    any_text_contains(&embeds, &canary)
}

/// The verdict for one probe, decided in strict priority order.
pub fn classify_response(payload: &str, body: &str) -> (v: Verdict)
    ensures
        v == verdict_of(payload@, body@),
{
    if contains_str(body, payload) {
        return Verdict::ExploitConfirmed;
    }
    if payload_inside_script_context(payload, body) {
        return Verdict::PossibleScriptContext;
    }
    if payload_contains_indicators(payload, body) || payload_present_in_dom(body) {
        return Verdict::PossibleExecutionIndicator;
    }
    if sanitize_payload(payload, body) {
        return Verdict::Sanitized;
    }
    Verdict::Clean
}

/// A raw reflection always classifies as `ExploitConfirmed`, whatever other
/// patterns — sanitization included — are also present in the body.
pub proof fn lemma_raw_reflection_takes_priority(p: Seq<char>, body: Seq<char>)
    ensures
        contains_seq(body, p) ==> verdict_of(p, body) == Verdict::ExploitConfirmed,
{
}

/// A raw reflection wins even when the body also carries a canary call, so
/// the raw match fires before `PossibleExecutionIndicator` can.
pub proof fn lemma_raw_reflection_beats_indicator(p: Seq<char>, body: Seq<char>)
    ensures
        contains_seq(body, p) && canary_present(body) ==> verdict_of(p, body)
            == Verdict::ExploitConfirmed,
{
}

/// A body that reflects the payload only in escaped form — an HTML-escaped
/// metacharacter is present, while no raw reflection, scripting context,
/// canary or DOM hook is — classifies as `Sanitized`.
pub proof fn lemma_escaped_reflection_is_sanitized(p: Seq<char>, body: Seq<char>)
    ensures
        (!contains_seq(body, p) && !script_context(p, body) && !canary_present(body)
            && !dom_execution_hook(body) && html_escape_present(body)) ==> verdict_of(p, body)
            == Verdict::Sanitized,
{
}

/// A body free of every pattern — no reflection of any form, no scripting
/// context, no canary, no DOM hook, no sanitization sign — classifies as
/// `Clean`, and `Clean` arises in no other way.
pub proof fn lemma_untouched_body_is_clean(p: Seq<char>, body: Seq<char>)
    ensures
        verdict_of(p, body) == Verdict::Clean <==> (!contains_seq(body, p) && !script_context(
            p,
            body,
        ) && !canary_present(body) && !dom_execution_hook(body) && !sanitization_detected(p, body)),
{
}

} // verus!
