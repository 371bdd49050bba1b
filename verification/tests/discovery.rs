use xssninja::discover::discover_parameters;

#[test]
fn input_without_name_contributes_nothing() {
    // one tag carries a name attribute, the other does not
    let names = discover_parameters("<input name=\"q\"><input type=text>");
    assert_eq!(names, vec!["q".to_string()]);
}

#[test]
fn var_declarations_yield_identifiers() {
    let names = discover_parameters("<script>var foo = 1; var bar=2;</script>");
    assert!(names.contains(&"foo".to_string()));
    assert!(names.contains(&"bar".to_string()));
    assert_eq!(names.len(), 2);
}

#[test]
fn link_keys_yield_names() {
    let names = discover_parameters("<a href=\"/page?x=1&flt=2&ord=asc\">go</a>");
    // only keys introduced by `&` count
    assert!(names.contains(&"flt".to_string()));
    assert!(names.contains(&"ord".to_string()));
    assert!(!names.contains(&"x".to_string()));
}

#[test]
fn sources_are_deduplicated_into_one_set() {
    // the same name arrives from an input tag and from a link key
    let names = discover_parameters("<input name=\"q\">&q=1");
    assert_eq!(names, vec!["q".to_string()]);
}

#[test]
fn malformed_markup_contributes_nothing_and_does_not_fail() {
    let names = discover_parameters("<input <input name= var &=& >>>");
    assert!(names.is_empty());
}

#[test]
fn empty_body_yields_no_candidates() {
    assert!(discover_parameters("").is_empty());
}

#[test]
fn var_needs_whitespace_before_identifier() {
    // `varx` is not a declaration keyword followed by whitespace
    let names = discover_parameters("varx y");
    assert!(names.is_empty());
}

#[test]
fn input_name_needs_a_closing_tag_bracket() {
    // the gap between `<input` and `name="` may not cross a `>`
    let names = discover_parameters("<input > name=\"q\"");
    assert!(names.is_empty());
}
