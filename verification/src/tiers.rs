//! Probe enumeration for the three tiers. A probe's parameter assignment is
//! a list of (name, value) pairs; each tier enumerates one assignment per
//! (parameter, payload) or (chunk, payload) combination, in a fixed
//! row-major order that determines the attempt order under early stop.

use vstd::prelude::*;
use crate::session::SWEEP_CHUNK_SIZE;

verus! {

/// `qs` with the value of pair `i` replaced by `p` and all other pairs kept.
pub open spec fn replace_value(qs: Seq<(String, String)>, i: int, p: String) -> Seq<
    (String, String),
> {
    qs.update(i, (qs[i].0, p))
}

/// How many chunks a wordlist of `n` names is partitioned into.
pub open spec fn chunk_count(n: int) -> int {
    (n + 34) / 35
}

/// Chunk `c` of the wordlist: 35 names, except a shorter final chunk.
pub open spec fn chunk_of(wl: Seq<String>, c: int) -> Seq<String> {
    wl.subrange(
        c * 35,
        if c * 35 + 35 <= wl.len() {
            c * 35 + 35
        } else {
            wl.len() as int
        },
    )
}

/// The assignment that sets every name of a chunk to the same payload.
pub open spec fn sweep_assignment(chunk: Seq<String>, p: String) -> Seq<(String, String)> {
    chunk.map_values(|n: String| (n, p))
}

/// Tier-A assignments: for each existing query pair index `i` and payload
/// `j`, the query pairs with only pair `i`'s value replaced by payload `j`.
/// With an empty query string this tier enumerates nothing.
pub fn tier_a_assignments(query_pairs: &Vec<(String, String)>, payloads: &Vec<String>) -> (r: Vec<
    Vec<(String, String)>,
>)
    ensures
        r@.len() == query_pairs@.len() * payloads@.len(),
        forall|i: int, j: int|
            0 <= i < query_pairs@.len() && 0 <= j < payloads@.len() ==> r@[i * payloads@.len()
                + j]@ == replace_value(query_pairs@, i, payloads@[j]),
{
    let mut r: Vec<Vec<(String, String)>> = Vec::new();
    let mut i: usize = 0;
    while i < query_pairs.len()
        invariant
            i <= query_pairs@.len(),
            r@.len() == i * payloads@.len(),
            forall|i0: int, j0: int|
                0 <= i0 < i && 0 <= j0 < payloads@.len() ==> r@[i0 * payloads@.len() + j0]@
                    == replace_value(query_pairs@, i0, payloads@[j0]),
        decreases query_pairs@.len() - i,
    {
        let mut j: usize = 0;
        while j < payloads.len()
            invariant
                i < query_pairs@.len(),
                j <= payloads@.len(),
                r@.len() == i * payloads@.len() + j,
                forall|i0: int, j0: int|
                    0 <= i0 < i && 0 <= j0 < payloads@.len() ==> r@[i0 * payloads@.len() + j0]@
                        == replace_value(query_pairs@, i0, payloads@[j0]),
                forall|j0: int|
                    0 <= j0 < j ==> r@[i * payloads@.len() + j0]@ == replace_value(
                        query_pairs@,
                        i as int,
                        payloads@[j0],
                    ),
            decreases payloads@.len() - j,
        {
            let mut a: Vec<(String, String)> = Vec::new();
            let mut k: usize = 0;
            while k < query_pairs.len()
                invariant
                    i < query_pairs@.len(),
                    j < payloads@.len(),
                    k <= query_pairs@.len(),
                    a@.len() == k,
                    forall|m: int|
                        0 <= m < k ==> a@[m] == (if m == i {
                            (query_pairs@[m].0, payloads@[j as int])
                        } else {
                            query_pairs@[m]
                        }),
                decreases query_pairs@.len() - k,
            {
                if k == i {
                    a.push((query_pairs[k].0.clone(), payloads[j].clone()));
                } else {
                    a.push((query_pairs[k].0.clone(), query_pairs[k].1.clone()));
                }
                k += 1;
            }
            proof {
                assert(a@ =~= replace_value(query_pairs@, i as int, payloads@[j as int]));
            }
            r.push(a);
            proof {
                assert forall|i0: int, j0: int|
                    0 <= i0 < i && 0 <= j0 < payloads@.len() implies r@[i0 * payloads@.len()
                    + j0]@ == replace_value(query_pairs@, i0, payloads@[j0]) by {
                    assert(i0 * payloads@.len() + j0 < i * payloads@.len() + j) by (nonlinear_arith)
                        requires
                            0 <= i0 < i,
                            0 <= j0 < payloads@.len(),
                            0 <= j,
                    ;
                }
            }
            j += 1;
        }
        proof {
            assert((i + 1) * payloads@.len() == i * payloads@.len() + payloads@.len()) by (nonlinear_arith);
            assert forall|i0: int, j0: int|
                0 <= i0 < i + 1 && 0 <= j0 < payloads@.len() implies r@[i0 * payloads@.len()
                + j0]@ == replace_value(query_pairs@, i0, payloads@[j0]) by {
                if i0 == i as int {
                    assert(i0 * payloads@.len() == i * payloads@.len());
                    assert(r@[i * payloads@.len() + j0]@ == replace_value(
                        query_pairs@,
                        i as int,
                        payloads@[j0],
                    ));
                } else {
                    assert(r@[i0 * payloads@.len() + j0]@ == replace_value(
                        query_pairs@,
                        i0,
                        payloads@[j0],
                    ));
                }
            }
        }
        i += 1;
    }
    r
}

/// Tier-B assignments: for each discovered name `n` and payload `j`, the
/// single pair setting that name to that payload.
pub fn tier_b_assignments(names: &Vec<String>, payloads: &Vec<String>) -> (r: Vec<
    Vec<(String, String)>,
>)
    ensures
        r@.len() == names@.len() * payloads@.len(),
        forall|n: int, j: int|
            0 <= n < names@.len() && 0 <= j < payloads@.len() ==> r@[n * payloads@.len() + j]@
                == seq![(names@[n], payloads@[j])],
{
    let mut r: Vec<Vec<(String, String)>> = Vec::new();
    let mut n: usize = 0;
    while n < names.len()
        invariant
            n <= names@.len(),
            r@.len() == n * payloads@.len(),
            forall|n0: int, j0: int|
                0 <= n0 < n && 0 <= j0 < payloads@.len() ==> r@[n0 * payloads@.len() + j0]@
                    == seq![(names@[n0], payloads@[j0])],
        decreases names@.len() - n,
    {
        let mut j: usize = 0;
        while j < payloads.len()
            invariant
                n < names@.len(),
                j <= payloads@.len(),
                r@.len() == n * payloads@.len() + j,
                forall|n0: int, j0: int|
                    0 <= n0 < n && 0 <= j0 < payloads@.len() ==> r@[n0 * payloads@.len() + j0]@
                        == seq![(names@[n0], payloads@[j0])],
                forall|j0: int|
                    0 <= j0 < j ==> r@[n * payloads@.len() + j0]@ == seq![
                        (names@[n as int], payloads@[j0]),
                    ],
            decreases payloads@.len() - j,
        {
            let mut a: Vec<(String, String)> = Vec::new();
            a.push((names[n].clone(), payloads[j].clone()));
            proof {
                assert(a@ =~= seq![(names@[n as int], payloads@[j as int])]);
            }
            r.push(a);
            proof {
                assert forall|n0: int, j0: int|
                    0 <= n0 < n && 0 <= j0 < payloads@.len() implies r@[n0 * payloads@.len()
                    + j0]@ == seq![(names@[n0], payloads@[j0])] by {
                    assert(n0 * payloads@.len() + j0 < n * payloads@.len() + j) by (nonlinear_arith)
                        requires
                            0 <= n0 < n,
                            0 <= j0 < payloads@.len(),
                            0 <= j,
                    ;
                }
            }
            j += 1;
        }
        proof {
            assert((n + 1) * payloads@.len() == n * payloads@.len() + payloads@.len()) by (nonlinear_arith);
            assert forall|n0: int, j0: int|
                0 <= n0 < n + 1 && 0 <= j0 < payloads@.len() implies r@[n0 * payloads@.len()
                + j0]@ == seq![(names@[n0], payloads@[j0])] by {
                if n0 == n as int {
                    assert(n0 * payloads@.len() == n * payloads@.len());
                    assert(r@[n * payloads@.len() + j0]@ == seq![
                        (names@[n as int], payloads@[j0]),
                    ]);
                } else {
                    assert(r@[n0 * payloads@.len() + j0]@ == seq![(names@[n0], payloads@[j0])]);
                }
            }
        }
        n += 1;
    }
    r
}

/// The wordlist partitioned into chunks of 35 names, the final chunk
/// holding whatever remains.
pub fn chunk_wordlist(wordlist: &Vec<String>) -> (r: Vec<Vec<String>>)
    ensures
        r@.len() == chunk_count(wordlist@.len() as int),
        forall|c: int| 0 <= c < r@.len() ==> r@[c]@ == chunk_of(wordlist@, c),
{
    let mut r: Vec<Vec<String>> = Vec::new();
    let mut start: usize = 0;
    while start < wordlist.len()
        invariant
            start <= wordlist@.len(),
            start % 35 == 0 || start == wordlist@.len(),
            r@.len() == chunk_count(start as int),
            r@.len() * 35 >= start,
            forall|c: int| 0 <= c < r@.len() ==> r@[c]@ == chunk_of(wordlist@, c),
        decreases wordlist@.len() - start,
    {
        proof {
            assert(start % 35 == 0);
        }
        let end = if wordlist.len() - start >= SWEEP_CHUNK_SIZE {
            start + SWEEP_CHUNK_SIZE
        } else {
            wordlist.len()
        };
        let mut chunk: Vec<String> = Vec::new();
        let mut k: usize = start;
        while k < end
            invariant
                start <= k <= end <= wordlist@.len(),
                chunk@ == wordlist@.subrange(start as int, k as int),
            decreases end - k,
        {
            chunk.push(wordlist[k].clone());
            proof {
                assert(chunk@ =~= wordlist@.subrange(start as int, k + 1));
            }
            k += 1;
        }
        proof {
            let c = r@.len() as int;
            assert(c == start as int / 35) by (nonlinear_arith)
                requires
                    start % 35 == 0,
                    c == (start as int + 34) / 35,
                    start >= 0,
            ;
            assert(c * 35 == start) by (nonlinear_arith)
                requires
                    start % 35 == 0,
                    c == start as int / 35,
                    start >= 0,
            ;
            assert(chunk@ == chunk_of(wordlist@, c));
        }
        r.push(chunk);
        let old_start: Ghost<int> = Ghost(start as int);
        start = end;
        proof {
            assert(r@.len() == chunk_count(start as int)) by (nonlinear_arith)
                requires
                    old_start@ % 35 == 0,
                    old_start@ >= 0,
                    r@.len() == (old_start@ + 34) / 35 + 1,
                    (old_start@ + 35 <= wordlist@.len() && start == old_start@ + 35) || (
                    old_start@ < wordlist@.len() <= old_start@ + 35 && start == wordlist@.len()),
                    start % 35 == 0 || start == wordlist@.len(),
            ;
            assert(r@.len() * 35 >= start) by (nonlinear_arith)
                requires
                    r@.len() == chunk_count(start as int),
                    start >= 0,
            ;
        }
    }
    proof {
        assert(start == wordlist@.len());
    }
    r
}

/// Tier-C assignments: for each wordlist chunk `c` and payload `j`, the
/// assignment that sets every name of chunk `c` to payload `j` at once.
pub fn tier_c_assignments(wordlist: &Vec<String>, payloads: &Vec<String>) -> (r: Vec<
    Vec<(String, String)>,
>)
    ensures
        r@.len() == chunk_count(wordlist@.len() as int) * payloads@.len(),
        forall|c: int, j: int|
            0 <= c < chunk_count(wordlist@.len() as int) && 0 <= j < payloads@.len() ==> r@[c
                * payloads@.len() + j]@ == sweep_assignment(chunk_of(wordlist@, c), payloads@[j]),
{
    let chunks = chunk_wordlist(wordlist);
    let mut r: Vec<Vec<(String, String)>> = Vec::new();
    let mut c: usize = 0;
    while c < chunks.len()
        invariant
            c <= chunks@.len(),
            chunks@.len() == chunk_count(wordlist@.len() as int),
            forall|c0: int| 0 <= c0 < chunks@.len() ==> chunks@[c0]@ == chunk_of(wordlist@, c0),
            r@.len() == c * payloads@.len(),
            forall|c0: int, j0: int|
                0 <= c0 < c && 0 <= j0 < payloads@.len() ==> r@[c0 * payloads@.len() + j0]@
                    == sweep_assignment(chunk_of(wordlist@, c0), payloads@[j0]),
        decreases chunks@.len() - c,
    {
        let mut j: usize = 0;
        while j < payloads.len()
            invariant
                c < chunks@.len(),
                chunks@.len() == chunk_count(wordlist@.len() as int),
                forall|c0: int| 0 <= c0 < chunks@.len() ==> chunks@[c0]@ == chunk_of(wordlist@, c0),
                j <= payloads@.len(),
                r@.len() == c * payloads@.len() + j,
                forall|c0: int, j0: int|
                    0 <= c0 < c && 0 <= j0 < payloads@.len() ==> r@[c0 * payloads@.len() + j0]@
                        == sweep_assignment(chunk_of(wordlist@, c0), payloads@[j0]),
                forall|j0: int|
                    0 <= j0 < j ==> r@[c * payloads@.len() + j0]@ == sweep_assignment(
                        chunk_of(wordlist@, c as int),
                        payloads@[j0],
                    ),
            decreases payloads@.len() - j,
        {
            let chunk = &chunks[c];
            let mut a: Vec<(String, String)> = Vec::new();
            let mut k: usize = 0;
            while k < chunk.len()
                invariant
                    c < chunks@.len(),
                    j < payloads@.len(),
                    chunk == chunks@[c as int],
                    k <= chunk@.len(),
                    a@.len() == k,
                    forall|m: int| 0 <= m < k ==> a@[m] == (chunk@[m], payloads@[j as int]),
                decreases chunk@.len() - k,
            {
                a.push((chunk[k].clone(), payloads[j].clone()));
                k += 1;
            }
            proof {
                assert(a@ =~= sweep_assignment(chunks@[c as int]@, payloads@[j as int]));
            }
            r.push(a);
            proof {
                assert forall|c0: int, j0: int|
                    0 <= c0 < c && 0 <= j0 < payloads@.len() implies r@[c0 * payloads@.len()
                    + j0]@ == sweep_assignment(chunk_of(wordlist@, c0), payloads@[j0]) by {
                    assert(c0 * payloads@.len() + j0 < c * payloads@.len() + j) by (nonlinear_arith)
                        requires
                            0 <= c0 < c,
                            0 <= j0 < payloads@.len(),
                            0 <= j,
                    ;
                }
            }
            j += 1;
        }
        proof {
            assert((c + 1) * payloads@.len() == c * payloads@.len() + payloads@.len()) by (nonlinear_arith);
            assert forall|c0: int, j0: int|
                0 <= c0 < c + 1 && 0 <= j0 < payloads@.len() implies r@[c0 * payloads@.len()
                + j0]@ == sweep_assignment(chunk_of(wordlist@, c0), payloads@[j0]) by {
                if c0 == c as int {
                    assert(c0 * payloads@.len() == c * payloads@.len());
                    assert(r@[c * payloads@.len() + j0]@ == sweep_assignment(
                        chunk_of(wordlist@, c as int),
                        payloads@[j0],
                    ));
                } else {
                    assert(r@[c0 * payloads@.len() + j0]@ == sweep_assignment(
                        chunk_of(wordlist@, c0),
                        payloads@[j0],
                    ));
                }
            }
        }
        c += 1;
    }
    r
}

} // verus!
