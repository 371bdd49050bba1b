//! Parameter discovery: candidate parameter names extracted from a response
//! body by three pattern scans — `name` attributes of `<input>`-like markup,
//! identifiers after a `var` declaration keyword, and keys of `&key=`
//! fragments — unioned into one deduplicated set. A heuristic over arbitrary
//! text: a non-match contributes nothing and nothing fails.

use vstd::prelude::*;
use crate::text::{chars_of, occurs_at, occurs_at_exec, first_index_from, string_from_range};

verus! {

/// A word character: an ASCII letter, digit, or underscore.
pub open spec fn is_word_char(c: char) -> bool {
    ('a' <= c && c <= 'z') || ('A' <= c && c <= 'Z') || ('0' <= c && c <= '9') || c == '_'
}

/// A whitespace character of inline script text.
pub open spec fn is_space_char(c: char) -> bool {
    c == ' ' || c == '\t' || c == '\n' || c == '\r' || c == '\u{b}' || c == '\u{c}'
}

/// A `&key=` fragment: `&` at `i`, a nonempty word run, `=` at `j`.
pub open spec fn link_param_at(body: Seq<char>, i: int, j: int) -> bool {
    0 <= i && i + 1 < j && j < body.len() && body[i] == '&' && body[j] == '=' && (forall|m: int|
        i + 1 <= m < j ==> is_word_char(body[m]))
}

/// The keys of all `&key=` fragments of the body.
pub open spec fn link_param_names(body: Seq<char>) -> Set<Seq<char>> {
    Set::new(
        |w: Seq<char>|
            exists|i: int, j: int| link_param_at(body, i, j) && w == body.subrange(i + 1, j),
    )
}

/// A `var` declaration: the keyword at `t`, nonempty whitespace up to `g`,
/// and a maximal nonempty word run from `g` to `f`, the identifier.
pub open spec fn var_decl_at(body: Seq<char>, t: int, g: int, f: int) -> bool {
    0 <= t && t + 3 < g && g < f <= body.len() && body.subrange(t, t + 3) == "var"@ && (forall|
        m: int,
    | t + 3 <= m < g ==> is_space_char(body[m])) && (forall|m: int|
        g <= m < f ==> is_word_char(body[m])) && (f == body.len() || !is_word_char(body[f]))
}

/// The identifiers of all `var` declarations of the body.
pub open spec fn var_decl_names(body: Seq<char>) -> Set<Seq<char>> {
    Set::new(
        |w: Seq<char>|
            exists|t: int, g: int, f: int| var_decl_at(body, t, g, f) && w == body.subrange(g, f),
    )
}

/// An `<input>`-like tag carrying a `name` attribute: `<input` at `i`, a
/// nonempty gap free of `>`, `name="` at `j`, the value up to the next `"`
/// at `k`, and a closing `>` somewhere after. A tag without the attribute
/// contributes nothing.
pub open spec fn input_name_at(body: Seq<char>, i: int, j: int, k: int) -> bool {
    0 <= i && i + 6 < j && j + 6 <= k < body.len() && body.subrange(i, i + 6) == "<input"@ && (
    forall|m: int| i + 6 <= m < j ==> body[m] != '>') && body.subrange(j, j + 6) == "name=\""@ && (
    forall|m: int| j + 6 <= m < k ==> body[m] != '"') && body[k] == '"' && (exists|m: int|
        k < m < body.len() && body[m] == '>')
}

/// The `name` attribute values of all `<input>`-like tags of the body.
pub open spec fn input_field_names(body: Seq<char>) -> Set<Seq<char>> {
    Set::new(
        |w: Seq<char>|
            exists|i: int, j: int, k: int|
                input_name_at(body, i, j, k) && w == body.subrange(j + 6, k),
    )
}

/// Every candidate of the three extraction rules, as one set.
pub open spec fn discovered_params(body: Seq<char>) -> Set<Seq<char>> {
    input_field_names(body).union(var_decl_names(body)).union(link_param_names(body))
}

/// Some element of `r` views to `w`.
pub open spec fn in_views(r: Seq<String>, w: Seq<char>) -> bool {
    exists|idx: int| 0 <= idx < r.len() && r[idx]@ == w
}

/// No two elements of `r` view to the same characters.
pub open spec fn no_dups(r: Seq<String>) -> bool {
    forall|a: int, b: int| 0 <= a < b < r.len() ==> r[a]@ != r[b]@
}

/// Pushing onto a vector keeps every name it already held.
proof fn lemma_in_views_monotonic(r: Seq<String>, x: String)
    ensures
        forall|w: Seq<char>| in_views(r, w) ==> in_views(r.push(x), w),
{
    assert forall|w: Seq<char>| in_views(r, w) implies in_views(r.push(x), w) by {
        let idx = choose|idx: int| 0 <= idx < r.len() && r[idx]@ == w;
        assert(r.push(x)[idx]@ == w);
    }
}

fn is_word_char_exec(c: char) -> (r: bool)
    ensures
        r == is_word_char(c),
{
    ('a' <= c && c <= 'z') || ('A' <= c && c <= 'Z') || ('0' <= c && c <= '9') || c == '_'
}

fn is_space_char_exec(c: char) -> (r: bool)
    ensures
        r == is_space_char(c),
{
    c == ' ' || c == '\t' || c == '\n' || c == '\r' || c == '\u{b}' || c == '\u{c}'
}

/// The keys of the body's `&key=` fragments, in scan order, with repeats.
fn scan_link_params(body: &Vec<char>) -> (r: Vec<String>)
    ensures
        forall|idx: int|
            0 <= idx < r@.len() ==> link_param_names(body@).contains(#[trigger] r@[idx]@),
        forall|i: int, j: int|
            link_param_at(body@, i, j) ==> in_views(r@, body@.subrange(i + 1, j)),
{
    let mut r: Vec<String> = Vec::new();
    let mut i: usize = 0;
    while i < body.len()
        invariant
            i <= body@.len(),
            forall|idx: int|
                0 <= idx < r@.len() ==> link_param_names(body@).contains(#[trigger] r@[idx]@),
            forall|i0: int, j0: int|
                i0 < i && link_param_at(body@, i0, j0) ==> in_views(r@, body@.subrange(i0 + 1, j0)),
        decreases body@.len() - i,
    {
        if body[i] == '&' {
            let mut j: usize = i + 1;
            while j < body.len() && is_word_char_exec(body[j])
                invariant
                    i + 1 <= j <= body@.len(),
                    forall|m: int| i + 1 <= m < j ==> is_word_char(body@[m]),
                decreases body@.len() - j,
            {
                j += 1;
            }
            // any match at this `&` ends exactly where the word run stopped
            proof {
                assert forall|j0: int| link_param_at(body@, i as int, j0) implies j0 == j by {
                    if j0 < j {
                        assert(is_word_char(body@[j0]));
                    }
                    if j0 > j {
                        assert(is_word_char(body@[j as int]));
                    }
                }
            }
            if j > i + 1 && j < body.len() && body[j] == '=' {
                proof {
                    assert(link_param_at(body@, i as int, j as int));
                }
                let name = string_from_range(body, i + 1, j);
                let ghost r0 = r@;
                r.push(name);
                proof {
                    lemma_in_views_monotonic(r0, name);
                    assert(link_param_names(body@).contains(body@.subrange(i + 1, j as int)));
                    assert(r@[r@.len() - 1]@ == body@.subrange(i + 1, j as int));
                    assert(in_views(r@, body@.subrange(i + 1, j as int)));
                }
            } else {
                proof {
                    assert forall|j0: int| !link_param_at(body@, i as int, j0) by {
                        if link_param_at(body@, i as int, j0) {
                            assert(j0 == j);
                        }
                    }
                }
            }
        }
        i += 1;
    }
    r
}

/// The identifiers of the body's `var` declarations, in scan order.
fn scan_var_decls(body: &Vec<char>) -> (r: Vec<String>)
    ensures
        forall|idx: int|
            0 <= idx < r@.len() ==> var_decl_names(body@).contains(#[trigger] r@[idx]@),
        forall|t: int, g: int, f: int|
            var_decl_at(body@, t, g, f) ==> in_views(r@, body@.subrange(g, f)),
{
    let lit = chars_of("var");
    proof {
        reveal_strlit("var");
    }
    let mut r: Vec<String> = Vec::new();
    let mut t: usize = 0;
    while t < body.len()
        invariant
            t <= body@.len(),
            lit@ == "var"@,
            lit@.len() == 3,
            forall|idx: int|
                0 <= idx < r@.len() ==> var_decl_names(body@).contains(#[trigger] r@[idx]@),
            forall|t0: int, g0: int, f0: int|
                t0 < t && var_decl_at(body@, t0, g0, f0) ==> in_views(r@, body@.subrange(g0, f0)),
        decreases body@.len() - t,
    {
        if occurs_at_exec(body, &lit, t) {
            let mut g: usize = t + 3;
            while g < body.len() && is_space_char_exec(body[g])
                invariant
                    t + 3 <= g <= body@.len(),
                    forall|m: int| t + 3 <= m < g ==> is_space_char(body@[m]),
                decreases body@.len() - g,
            {
                g += 1;
            }
            // any match at this keyword starts its identifier exactly at `g`
            proof {
                assert forall|g0: int, f0: int|
                    var_decl_at(body@, t as int, g0, f0) implies g0 == g by {
                    if g0 < g {
                        assert(is_space_char(body@[g0]));
                        assert(is_word_char(body@[g0]));
                    }
                    if g0 > g {
                        assert(is_space_char(body@[g as int]));
                    }
                }
            }
            if g > t + 3 && g < body.len() && is_word_char_exec(body[g]) {
                let mut f: usize = g;
                while f < body.len() && is_word_char_exec(body[f])
                    invariant
                        g <= f <= body@.len(),
                        forall|m: int| g <= m < f ==> is_word_char(body@[m]),
                    decreases body@.len() - f,
                {
                    f += 1;
                }
                proof {
                    assert(body@.subrange(t as int, t + 3) == lit@);
                    assert(var_decl_at(body@, t as int, g as int, f as int));
                }
                let name = string_from_range(body, g, f);
                let ghost r0 = r@;
                r.push(name);
                proof {
                    lemma_in_views_monotonic(r0, name);
                    assert(var_decl_names(body@).contains(body@.subrange(g as int, f as int)));
                    assert(r@[r@.len() - 1]@ == body@.subrange(g as int, f as int));
                    assert(in_views(r@, body@.subrange(g as int, f as int)));
                    assert forall|g0: int, f0: int|
                        var_decl_at(body@, t as int, g0, f0) implies in_views(
                        r@,
                        body@.subrange(g0, f0),
                    ) by {
                        assert(g0 == g);
                        assert(f0 == f) by {
                            if f0 < f {
                                assert(!is_word_char(body@[f0]) && is_word_char(body@[f0]));
                            }
                            if f0 > f {
                                assert(is_word_char(body@[f as int]));
                            }
                        }
                    }
                }
            } else {
                proof {
                    assert forall|g0: int, f0: int| !var_decl_at(body@, t as int, g0, f0) by {
                        if var_decl_at(body@, t as int, g0, f0) {
                            assert(g0 == g);
                            assert(g > t + 3 && g < body@.len() && is_word_char(body@[g as int]));
                        }
                    }
                }
            }
        } else {
            proof {
                assert forall|g0: int, f0: int| !var_decl_at(body@, t as int, g0, f0) by {
                    if var_decl_at(body@, t as int, g0, f0) {
                        assert(body@.subrange(t as int, t + 3) == "var"@);
                        assert(occurs_at(body@, lit@, t as int));
                    }
                }
            }
        }
        t += 1;
    }
    r
}

/// The `name` attribute values of the body's `<input>`-like tags, in scan
/// order.
fn scan_input_names(body: &Vec<char>) -> (r: Vec<String>)
    ensures
        forall|idx: int|
            0 <= idx < r@.len() ==> input_field_names(body@).contains(#[trigger] r@[idx]@),
        forall|i: int, j: int, k: int|
            input_name_at(body@, i, j, k) ==> in_views(r@, body@.subrange(j + 6, k)),
{
    let open_lit = chars_of("<input");
    let name_lit = chars_of("name=\"");
    proof {
        reveal_strlit("<input");
        reveal_strlit("name=\"");
    }
    let mut r: Vec<String> = Vec::new();
    let mut i: usize = 0;
    while i < body.len()
        invariant
            i <= body@.len(),
            open_lit@ == "<input"@,
            open_lit@.len() == 6,
            name_lit@ == "name=\""@,
            name_lit@.len() == 6,
            forall|idx: int|
                0 <= idx < r@.len() ==> input_field_names(body@).contains(#[trigger] r@[idx]@),
            forall|i0: int, j0: int, k0: int|
                i0 < i && input_name_at(body@, i0, j0, k0) ==> in_views(
                    r@,
                    body@.subrange(j0 + 6, k0),
                ),
        decreases body@.len() - i,
    {
        if occurs_at_exec(body, &open_lit, i) && i + 6 < body.len() {
            let mut j: usize = i + 7;
            while j <= body.len() - 6 && body[j - 1] != '>'
                invariant
                    i + 7 <= j,
                    j <= body@.len(),
                    body@.len() >= 6,
                    open_lit@ == "<input"@,
                    open_lit@.len() == 6,
                    name_lit@ == "name=\""@,
                    name_lit@.len() == 6,
                    occurs_at(body@, open_lit@, i as int),
                    forall|m: int| i + 6 <= m < j - 1 ==> body@[m] != '>',
                    forall|idx: int|
                        0 <= idx < r@.len() ==> input_field_names(body@).contains(
                            #[trigger] r@[idx]@,
                        ),
                    forall|i0: int, j0: int, k0: int|
                        i0 < i && input_name_at(body@, i0, j0, k0) ==> in_views(
                            r@,
                            body@.subrange(j0 + 6, k0),
                        ),
                    forall|j0: int, k0: int|
                        j0 < j && input_name_at(body@, i as int, j0, k0) ==> in_views(
                            r@,
                            body@.subrange(j0 + 6, k0),
                        ),
                decreases body@.len() - j,
            {
                if occurs_at_exec(body, &name_lit, j) {
                    // any match with this `name="` ends at the first quote
                    match first_index_from(body, '"', j + 6) {
                        Some(k) => {
                            proof {
                                assert forall|k0: int|
                                    input_name_at(body@, i as int, j as int, k0) implies k0
                                    == k by {
                                    if k0 < k {
                                        assert(body@[k0] != '"');
                                    }
                                    if k0 > k {
                                        assert(body@[k as int] != '"');
                                    }
                                }
                            }
                            match first_index_from(body, '>', k + 1) {
                                Some(close) => {
                                    proof {
                                        assert(body@.subrange(i as int, i + 6) == "<input"@);
                                        assert(body@.subrange(j as int, j + 6) == "name=\""@);
                                        assert(k < close < body@.len() && body@[close as int]
                                            == '>');
                                        assert(input_name_at(body@, i as int, j as int, k as int));
                                    }
                                    let name = string_from_range(body, j + 6, k);
                                    let ghost r0 = r@;
                                    r.push(name);
                                    proof {
                                        lemma_in_views_monotonic(r0, name);
                                        assert(input_field_names(body@).contains(
                                            body@.subrange(j + 6, k as int),
                                        ));
                                        assert(r@[r@.len() - 1]@ == body@.subrange(
                                            j + 6,
                                            k as int,
                                        ));
                                        assert(in_views(r@, body@.subrange(j + 6, k as int)));
                                    }
                                },
                                None => {
                                    proof {
                                        assert forall|k0: int|
                                            !input_name_at(body@, i as int, j as int, k0) by {
                                            if input_name_at(body@, i as int, j as int, k0) {
                                                assert(k0 == k);
                                                let m = choose|m: int|
                                                    k0 < m < body@.len() && body@[m] == '>';
                                                assert(body@[m] != '>');
                                            }
                                        }
                                    }
                                },
                            }
                        },
                        None => {
                            proof {
                                assert forall|k0: int|
                                    !input_name_at(body@, i as int, j as int, k0) by {
                                    if input_name_at(body@, i as int, j as int, k0) {
                                        assert(body@[k0] == '"');
                                    }
                                }
                            }
                        },
                    }
                } else {
                    proof {
                        assert forall|k0: int| !input_name_at(body@, i as int, j as int, k0) by {
                            if input_name_at(body@, i as int, j as int, k0) {
                                assert(body@.subrange(j as int, j + 6) == "name=\""@);
                                assert(occurs_at(body@, name_lit@, j as int));
                            }
                        }
                    }
                }
                j += 1;
            }
            // past the loop no further match with this `<input` is possible
            proof {
                assert forall|j0: int, k0: int|
                    input_name_at(body@, i as int, j0, k0) implies in_views(
                    r@,
                    body@.subrange(j0 + 6, k0),
                ) by {
                    if j0 >= j {
                        assert(j0 + 6 <= k0 < body@.len());
                        if j <= body@.len() - 6 {
                            assert(i + 6 <= j - 1 < j0);
                            assert(body@[j - 1] != '>');
                        }
                    }
                }
            }
        } else {
            proof {
                assert forall|j0: int, k0: int| !input_name_at(body@, i as int, j0, k0) by {
                    if input_name_at(body@, i as int, j0, k0) {
                        assert(body@.subrange(i as int, i + 6) == "<input"@);
                        assert(occurs_at(body@, open_lit@, i as int));
                        assert(i + 6 < j0 && j0 + 6 <= k0 < body@.len());
                    }
                }
            }
        }
        i += 1;
    }
    r
}

/// Whether some element of `v` equals the string `s`.
fn vec_contains_string(v: &Vec<String>, s: &String) -> (r: bool)
    ensures
        r == in_views(v@, s@),
{
    let mut idx: usize = 0;
    while idx < v.len()
        invariant
            idx <= v@.len(),
            forall|m: int| 0 <= m < idx ==> v@[m]@ != s@,
        decreases v@.len() - idx,
    {
        if v[idx].eq(s) {
            return true;
        }
        idx += 1;
    }
    false
}

/// Adds to `acc` every name of `items` not already present, keeping `acc`
/// free of duplicates.
fn merge_names(acc: &mut Vec<String>, items: &Vec<String>)
    requires
        no_dups(old(acc)@),
    ensures
        no_dups(final(acc)@),
        forall|w: Seq<char>| in_views(old(acc)@, w) ==> in_views(final(acc)@, w),
        forall|w: Seq<char>| in_views(items@, w) ==> in_views(final(acc)@, w),
        forall|w: Seq<char>|
            in_views(final(acc)@, w) ==> in_views(old(acc)@, w) || in_views(items@, w),
{
    let mut it: usize = 0;
    while it < items.len()
        invariant
            it <= items@.len(),
            no_dups(acc@),
            forall|w: Seq<char>| in_views(old(acc)@, w) ==> in_views(acc@, w),
            forall|idx: int|
                0 <= idx < acc@.len() ==> in_views(old(acc)@, #[trigger] acc@[idx]@) || in_views(
                    items@,
                    acc@[idx]@,
                ),
            forall|m: int| 0 <= m < it ==> in_views(acc@, #[trigger] items@[m]@),
        decreases items@.len() - it,
    {
        if !vec_contains_string(acc, &items[it]) {
            let name = items[it].clone();
            let ghost a0 = acc@;
            acc.push(name);
            proof {
                lemma_in_views_monotonic(a0, name);
                assert(acc@[acc@.len() - 1]@ == items@[it as int]@);
                assert(in_views(acc@, items@[it as int]@));
                assert(in_views(items@, items@[it as int]@));
            }
        } else {
            proof {
                assert(in_views(acc@, items@[it as int]@));
            }
        }
        it += 1;
    }
    proof {
        assert forall|w: Seq<char>|
            in_views(acc@, w) implies (in_views(old(acc)@, w) || in_views(items@, w)) by {
            let idx = choose|idx: int| 0 <= idx < acc@.len() && acc@[idx]@ == w;
            assert(in_views(old(acc)@, acc@[idx]@) || in_views(items@, acc@[idx]@));
        }
        assert forall|w: Seq<char>| in_views(items@, w) implies in_views(acc@, w) by {
            let m = choose|m: int| 0 <= m < items@.len() && items@[m]@ == w;
            assert(in_views(acc@, items@[m]@));
        }
    }
}

/// The deduplicated set of candidate parameter names found in the body by
/// the three extraction rules. Every candidate the rules describe is
/// returned, nothing else is, and no name is returned twice.
pub fn discover_parameters(body: &str) -> (r: Vec<String>)
    ensures
        forall|idx: int|
            0 <= idx < r@.len() ==> discovered_params(body@).contains(#[trigger] r@[idx]@),
        forall|w: Seq<char>| discovered_params(body@).contains(w) ==> in_views(r@, w),
        no_dups(r@),
{
    let chars = chars_of(body);
    let inputs = scan_input_names(&chars);
    let vars = scan_var_decls(&chars);
    let links = scan_link_params(&chars);
    let mut r: Vec<String> = Vec::new();
    let ghost r0 = r@;
    merge_names(&mut r, &inputs);
    let ghost r1 = r@;
    merge_names(&mut r, &vars);
    let ghost r2 = r@;
    merge_names(&mut r, &links);
    proof {
        assert forall|idx: int|
            0 <= idx < r@.len() implies discovered_params(body@).contains(#[trigger] r@[idx]@) by {
            let w = r@[idx]@;
            assert(in_views(r@, w));
            if in_views(inputs@, w) {
                let m = choose|m: int| 0 <= m < inputs@.len() && inputs@[m]@ == w;
                assert(input_field_names(body@).contains(inputs@[m]@));
            } else if in_views(vars@, w) {
                let m = choose|m: int| 0 <= m < vars@.len() && vars@[m]@ == w;
                assert(var_decl_names(body@).contains(vars@[m]@));
            } else {
                assert(in_views(links@, w));
                let m = choose|m: int| 0 <= m < links@.len() && links@[m]@ == w;
                assert(link_param_names(body@).contains(links@[m]@));
            }
        }
        assert forall|w: Seq<char>|
            discovered_params(body@).contains(w) implies in_views(r@, w) by {
            if input_field_names(body@).contains(w) {
                let (i, j, k) = choose|i: int, j: int, k: int|
                    input_name_at(body@, i, j, k) && w == body@.subrange(j + 6, k);
                assert(in_views(inputs@, w));
            } else if var_decl_names(body@).contains(w) {
                let (t, g, f) = choose|t: int, g: int, f: int|
                    var_decl_at(body@, t, g, f) && w == body@.subrange(g, f);
                assert(in_views(vars@, w));
            } else {
                assert(link_param_names(body@).contains(w));
                let (i, j) = choose|i: int, j: int|
                    link_param_at(body@, i, j) && w == body@.subrange(i + 1, j);
                assert(in_views(links@, w));
            }
            assert(in_views(inputs@, w) ==> in_views(r1, w));
            assert(in_views(r1, w) ==> in_views(r2, w));
            assert(in_views(vars@, w) ==> in_views(r2, w));
            assert(in_views(r2, w) ==> in_views(r@, w));
            assert(in_views(links@, w) ==> in_views(r@, w));
            assert(in_views(r@, w));
        }
    }
    r
}

} // verus!
