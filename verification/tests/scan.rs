use xssninja::classify::{classify_response, Verdict};
use xssninja::payloads::payload_catalog;
use xssninja::session::{
    advance_tier, error_action, should_report, EarlyStop, ErrorAction, ScanError, Tier,
};
use xssninja::target::{build_probes, prepare_target};
use xssninja::tiers::tier_a_assignments;

#[test]
fn early_stop_flag_halts_the_pair_for_good() {
    // the flag of (https://x.test, GET); the POST pass owns a flag of its own
    let mut get_stop = EarlyStop::new();
    let post_stop = EarlyStop::new();
    assert!(get_stop.may_start());
    get_stop.record(&Verdict::ExploitConfirmed);
    // no new probe of this pair starts, and the later tiers are never entered
    assert!(!get_stop.may_start());
    assert_eq!(advance_tier(Tier::ExistingParams, &get_stop), None);
    assert_eq!(advance_tier(Tier::DiscoveredParams, &get_stop), None);
    // further verdicts cannot clear it
    get_stop.record(&Verdict::Clean);
    assert!(!get_stop.may_start());
    // the other method's pass is untouched
    assert!(post_stop.may_start());
}

#[test]
fn inconclusive_verdicts_leave_the_flag_clear() {
    let mut stop = EarlyStop::new();
    stop.record(&Verdict::Sanitized);
    stop.record(&Verdict::Clean);
    assert!(stop.may_start());
    assert_eq!(
        advance_tier(Tier::ExistingParams, &stop),
        Some(Tier::DiscoveredParams)
    );
    assert_eq!(
        advance_tier(Tier::DiscoveredParams, &stop),
        Some(Tier::WordlistSweep)
    );
    assert_eq!(advance_tier(Tier::WordlistSweep, &stop), None);
}

#[test]
fn conclusive_verdicts_always_report_informational_only_verbose() {
    assert!(should_report(&Verdict::ExploitConfirmed, false));
    assert!(should_report(&Verdict::PossibleExecutionIndicator, false));
    assert!(!should_report(&Verdict::Sanitized, false));
    assert!(!should_report(&Verdict::Clean, false));
    assert!(should_report(&Verdict::Sanitized, true));
    assert!(should_report(&Verdict::Clean, true));
}

#[test]
fn each_error_kind_has_its_action() {
    assert_eq!(error_action(&ScanError::TargetParse), ErrorAction::SkipTarget);
    assert_eq!(error_action(&ScanError::Network), ErrorAction::SkipProbe);
    assert_eq!(error_action(&ScanError::BodyRead), ErrorAction::SkipProbe);
    assert_eq!(
        error_action(&ScanError::WordlistFetch),
        ErrorAction::AbortRun
    );
}

/// A mock server that reflects every parameter value verbatim into the page.
fn reflecting_server(params: &[(String, String)]) -> String {
    let mut page = String::from("<html><body>");
    for (name, value) in params {
        page.push_str(&format!("<p>{}={}</p>", name, value));
    }
    page.push_str("</body></html>");
    page
}

#[test]
fn reflected_tier_a_probe_confirms_and_halts_the_pair() {
    // end to end against the reflecting mock: target with one query
    // parameter, the first tier-A probe that carries the svg payload
    let target = "https://x.test/?id=1";
    let ctx = prepare_target(target).expect("target parses");
    assert_eq!(
        ctx.query_pairs,
        vec![("id".to_string(), "1".to_string())]
    );

    let payloads = payload_catalog();
    let assignments = tier_a_assignments(&ctx.query_pairs, &payloads);
    // one parameter, thirteen payloads
    assert_eq!(assignments.len(), 13);
    let probes = build_probes(&ctx.target, assignments);
    assert_eq!(probes.len(), 13);

    let mut stop = EarlyStop::new();
    let mut fired = 0;
    let mut confirmed = false;
    for (probe, payload) in probes.iter().zip(payloads.iter()) {
        if !stop.may_start() {
            break;
        }
        fired += 1;
        let body = reflecting_server(&probe.params);
        let verdict = classify_response(payload, &body);
        if verdict == Verdict::ExploitConfirmed {
            confirmed = true;
        }
        stop.record(&verdict);
    }
    // the very first probe reflects `"><svg/onload=alert(1)>` and concludes
    assert!(confirmed);
    assert_eq!(fired, 1);
    assert!(!stop.may_start());
    // tiers B and C of this (target, GET) pair are never entered
    assert_eq!(advance_tier(Tier::ExistingParams, &stop), None);
}
