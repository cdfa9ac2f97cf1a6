use sniplias::snippet::Snippet;
use sniplias::template::{extract_variables, render};

fn pairs(items: &[(&str, &str)]) -> Vec<(String, String)> {
    items.iter().map(|(k, v)| (k.to_string(), v.to_string())).collect()
}

#[test]
fn test_extract_variables() {
    let snippet = Snippet::new(
        "Test".to_string(),
        "git clone {{repo}} {{branch:main}}".to_string(),
    );
    let vars = snippet.extract_variables();
    assert_eq!(vars.len(), 2);
    assert_eq!(vars[0].name, "repo");
    assert_eq!(vars[0].default_value, None);
    assert_eq!(vars[1].name, "branch");
    assert_eq!(vars[1].default_value, Some("main".to_string()));
}

#[test]
fn test_render_command() {
    let snippet = Snippet::new(
        "Test".to_string(),
        "git clone {{repo}} -b {{branch}}".to_string(),
    );
    let values = pairs(&[("repo", "https://github.com/user/repo"), ("branch", "develop")]);
    let rendered = snippet.render_command(&values);
    assert_eq!(rendered, "git clone https://github.com/user/repo -b develop");
}

#[test]
fn render_scenario_from_short_url() {
    let values = pairs(&[("repo", "https://x/y"), ("branch", "develop")]);
    assert_eq!(
        render("git clone {{repo}} -b {{branch}}", &values),
        "git clone https://x/y -b develop"
    );
}

#[test]
fn duplicate_names_collapse_with_first_default() {
    let vars = extract_variables("{{a:1}} {{b}} {{a:2}} {{b:3}}");
    assert_eq!(vars.len(), 2);
    assert_eq!(vars[0].name, "a");
    assert_eq!(vars[0].default_value, Some("1".to_string()));
    assert_eq!(vars[1].name, "b");
    assert_eq!(vars[1].default_value, None);
}

#[test]
fn malformed_placeholders_are_text() {
    assert!(extract_variables("{{}} {{a b}} {{x:y").is_empty());
    assert!(extract_variables("no placeholders here").is_empty());
    assert!(extract_variables("").is_empty());
}

#[test]
fn placeholder_after_extra_brace() {
    let vars = extract_variables("{{{a}}");
    assert_eq!(vars.len(), 1);
    assert_eq!(vars[0].name, "a");
}

#[test]
fn empty_default_is_kept() {
    let vars = extract_variables("{{a:}}");
    assert_eq!(vars[0].default_value, Some(String::new()));
}

#[test]
fn unknown_placeholders_stay_verbatim() {
    let values = pairs(&[("a", "1")]);
    assert_eq!(render("{{a}} {{b:def}} {{c}}", &values), "1 {{b:def}} {{c}}");
}

#[test]
fn placeholder_with_default_is_replaced_by_value() {
    let values = pairs(&[("b", "x")]);
    assert_eq!(render("[{{b:def}}]", &values), "[x]");
}

#[test]
fn values_are_not_substituted_again() {
    let values = pairs(&[("a", "{{b}}"), ("b", "oops")]);
    assert_eq!(render("{{a}}", &values), "{{b}}");
}

#[test]
fn first_pair_for_a_name_wins() {
    let values = pairs(&[("a", "first"), ("a", "second")]);
    assert_eq!(render("{{a}}", &values), "first");
}

#[test]
fn render_keeps_non_ascii_text() {
    let values = pairs(&[("n", "wörld")]);
    assert_eq!(render("héllo {{n}} ✓", &values), "héllo wörld ✓");
}
