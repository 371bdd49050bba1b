//! Targets and probe URLs. A target is an operator-supplied URL string; its
//! parsed form is modelled as a query-stripped base plus decoded query
//! pairs, so the tier logic works on plain values. The url crate does the
//! parsing and the percent-encoded serialization behind trusted wrappers.

use vstd::prelude::*;

verus! {

/// The views of a pair sequence, key and value each as characters.
pub open spec fn pair_views(s: Seq<(String, String)>) -> Seq<(Seq<char>, Seq<char>)> {
    s.map_values(|p: (String, String)| (p.0@, p.1@))
}

/// What `url::Url::parse` yields for a string: nothing for an unparseable
/// URL, else the query-stripped base and the decoded query pairs. A function
/// of the string alone.
pub uninterp spec fn url_parts_of(s: Seq<char>) -> Option<(Seq<char>, Seq<(Seq<char>, Seq<char>)>)>;

/// The URL whose non-query part is that of `base` and whose query string is
/// the percent-encoded serialization of `pairs`, as the url crate writes it.
/// A function of the two arguments alone.
pub uninterp spec fn url_with_pairs_of(base: Seq<char>, pairs: Seq<(Seq<char>, Seq<char>)>) -> Seq<
    char,
>;

/// Relies on `url::Url::parse` for validity, `Url::query_pairs` for the
/// decoded query pairs, and `Url::set_query(None)` for the query-stripped
/// base.
#[verifier::external_body]
fn parse_target(target: &str) -> (r: Option<(String, Vec<(String, String)>)>)
    ensures
        r is Some == url_parts_of(target@) is Some,
        r matches Some(parts) ==> url_parts_of(target@) matches Some(q) && parts.0@ == q.0
            && pair_views(parts.1@) == q.1,
{
    match url::Url::parse(target) {
        Ok(parsed) => {
            let pairs = parsed.query_pairs().map(|(k, v)| (k.to_string(), v.to_string())).collect();
            let mut base = parsed;
            base.set_query(None);
            Some((String::from(base), pairs))
        },
        Err(_) => None,
    }
}

/// Relies on `url::Url::parse` and `Url::query_pairs_mut` (clear, then
/// extend_pairs): replaces the URL's query string with the percent-encoded
/// serialization of `pairs`.
#[verifier::external_body]
pub fn build_url_with_pairs(base_url: &str, pairs: &Vec<(String, String)>) -> (r: Option<String>)
    ensures
        r is Some == url_parts_of(base_url@) is Some,
        r matches Some(u) ==> u@ == url_with_pairs_of(base_url@, pair_views(pairs@)),
{
    match url::Url::parse(base_url) {
        Ok(mut parsed) => {
            parsed.query_pairs_mut().clear().extend_pairs(pairs.iter().map(|(k, v)| (k, v)));
            Some(parsed.into())
        },
        Err(_) => None,
    }
}

/// A target's parsed form: the string as the operator supplied it, the
/// query-stripped base, and the decoded query pairs.
pub struct TargetContext {
    /// The target exactly as the operator supplied it.
    pub target: String,
    /// The target with its query string stripped.
    pub base: String,
    /// The decoded query pairs of the target.
    pub query_pairs: Vec<(String, String)>,
}

/// A parsed target's fields agree with what the url crate yields for its
/// string.
pub open spec fn target_wf(t: TargetContext) -> bool {
    url_parts_of(t.target@) matches Some(q) && t.base@ == q.0 && pair_views(t.query_pairs@) == q.1
}

/// Parses one target. An unparseable target yields nothing and is skipped
/// by the caller; the run continues.
pub fn prepare_target(target: &str) -> (r: Option<TargetContext>)
    ensures
        r is Some == url_parts_of(target@) is Some,
        r matches Some(t) ==> t.target@ == target@ && target_wf(t),
{
    match parse_target(target) {
        Some((base, query_pairs)) => {
            let owned = base.clone();
            Some(TargetContext { target: target.to_owned(), base: owned, query_pairs },
            )
        },
        None => None,
    }
}

/// One probe of a tier: the request URL carrying the assignment in its
/// query string, and the assignment itself, which a POST sends again as its
/// form body.
pub struct Probe {
    /// The request URL.
    pub url: String,
    /// The (name, value) assignment of this probe.
    pub params: Vec<(String, String)>,
}

/// For a base that parses, probe `m` of the plan carries assignment `m` and
/// the URL serializing that assignment onto the base; an unparseable base
/// yields an empty plan.
pub fn build_probes(base_url: &str, assignments: Vec<Vec<(String, String)>>) -> (r: Vec<Probe>)
    ensures
        url_parts_of(base_url@) is Some ==> r@.len() == assignments@.len() && forall|m: int|
            0 <= m < r@.len() ==> r@[m].params@ == assignments@[m]@ && r@[m].url@
                == url_with_pairs_of(base_url@, pair_views(assignments@[m]@)),
        url_parts_of(base_url@) is None ==> r@.len() == 0,
{
    let mut r: Vec<Probe> = Vec::new();
    let mut m: usize = 0;
    while m < assignments.len()
        invariant
            m <= assignments@.len(),
            url_parts_of(base_url@) is Some ==> r@.len() == m && forall|m0: int|
                0 <= m0 < m ==> r@[m0].params@ == assignments@[m0]@ && r@[m0].url@
                    == url_with_pairs_of(base_url@, pair_views(assignments@[m0]@)),
            url_parts_of(base_url@) is None ==> r@.len() == 0,
        decreases assignments@.len() - m,
    {
        let assignment = &assignments[m];
        match build_url_with_pairs(base_url, assignment) {
            Some(url) => {
                let mut params: Vec<(String, String)> = Vec::new();
                let mut k: usize = 0;
                while k < assignment.len()
                    invariant
                        k <= assignment@.len(),
                        assignment == assignments@[m as int],
                        params@ == assignment@.subrange(0, k as int),
                    decreases assignment@.len() - k,
                {
                    params.push((assignment[k].0.clone(), assignment[k].1.clone()));
                    proof {
                        assert(params@ =~= assignment@.subrange(0, k + 1));
                    }
                    k += 1;
                }
                proof {
                    assert(params@ =~= assignments@[m as int]@);
                }
                r.push(Probe { url, params });
            },
            None => {},
        }
        m += 1;
    }
    r
}

} // verus!
