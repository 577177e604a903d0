use pgmt::fill_template;
use pgmt::Error;
use pgmt::Placeholders;

#[test]
fn template_test_it() {
    let mut vars = Placeholders::new();
    vars.insert("my_var".to_string(), "Hello".to_string());
    vars.insert("other".to_string(), "World".to_string());

    let template = "Greeting: ${my_var}, Target: ${other}!";
    let res = fill_template(template, &vars).unwrap();

    assert_eq!(res, "Greeting: Hello, Target: World!");

    let bad_template = "Greeting: ${undefinde_variable}!";
    let res = fill_template(bad_template, &vars);
    assert!(res.is_err());
    if let Err(error) = res {
        assert_eq!(
            error.to_string(),
            r#"MissingVariableTemplateError(MissingVariableTemplateError { name: "undefinde_variable" })"#.to_string()
        );
    }
}

#[test]
fn non_matching_text_passes_through() {
    let mut vars = Placeholders::new();
    vars.insert("x".to_string(), "1".to_string());
    // Isolated '$', unescaped '{', and '$foo' without braces stay verbatim.
    let template = "a $ b { c $foo d ${x}";
    let res = fill_template(template, &vars).unwrap();
    assert_eq!(res, "a $ b { c $foo d 1");
    // An empty name is not a placeholder.
    assert_eq!(fill_template("${}", &vars).unwrap(), "${}");
    // A name with a character outside [A-Za-z0-9_] is not a placeholder.
    assert_eq!(fill_template("${a-b}", &vars).unwrap(), "${a-b}");
}

#[test]
fn lookup_is_case_sensitive() {
    let mut vars = Placeholders::new();
    vars.insert("who".to_string(), "world".to_string());
    let res = fill_template("SELECT ${WHO};", &vars);
    assert!(res.is_err());
    match res {
        Err(Error::MissingVariableTemplateError(e)) => assert_eq!(e.name, "WHO"),
        _ => panic!("expected a missing-placeholder error"),
    }
}

#[test]
fn substitution_is_single_pass() {
    let mut vars = Placeholders::new();
    vars.insert("a".to_string(), "${b}".to_string());
    vars.insert("b".to_string(), "x".to_string());
    // The replacement value is not itself re-scanned.
    assert_eq!(fill_template("${a}", &vars).unwrap(), "${b}");
}

#[test]
fn expansion_is_idempotent_without_tokens() {
    let mut vars = Placeholders::new();
    vars.insert("who".to_string(), "world".to_string());
    vars.insert("n".to_string(), "42".to_string());
    let once = fill_template("SELECT '${who}', ${n};", &vars).unwrap();
    assert_eq!(once, "SELECT 'world', 42;");
    // The output holds no ${IDENT} token, so a second expansion returns it
    // unchanged.
    let twice = fill_template(&once, &vars).unwrap();
    assert_eq!(twice, once);
}

#[test]
fn later_binding_replaces_earlier() {
    let mut vars = Placeholders::new();
    vars.insert("k".to_string(), "first".to_string());
    vars.insert("k".to_string(), "second".to_string());
    assert_eq!(fill_template("${k}", &vars).unwrap(), "second");
    assert_eq!(vars.get(&"k".to_string()).unwrap(), "second");
    assert!(vars.get(&"absent".to_string()).is_none());
}

#[test]
fn empty_and_boundary_templates() {
    let mut vars = Placeholders::new();
    vars.insert("a".to_string(), "X".to_string());
    assert_eq!(fill_template("", &vars).unwrap(), "");
    assert_eq!(fill_template("${a}", &vars).unwrap(), "X");
    assert_eq!(fill_template("${a}${a}", &vars).unwrap(), "XX");
    assert_eq!(fill_template("pre${a}post", &vars).unwrap(), "preXpost");
    // An unterminated token at the end of the template passes through.
    assert_eq!(fill_template("tail ${a", &vars).unwrap(), "tail ${a");
}

#[test]
fn leftmost_token_wins() {
    let mut vars = Placeholders::new();
    vars.insert("b".to_string(), "B".to_string());
    // "${a" is not a token (no closing brace before the '$'), so the scan
    // passes it through and substitutes the token that does close.
    assert_eq!(fill_template("${a${b}", &vars).unwrap(), "${aB");
    assert_eq!(fill_template("$${b}", &vars).unwrap(), "$B");
}
