use mono::{InterpolatedString, InterpolatedStringError, VariableBinding};

fn binding(pairs: &[(&str, &str)]) -> VariableBinding {
    let mut vars = VariableBinding::new();
    for (name, value) in pairs {
        vars.insert(name.to_string(), value.to_string());
    }
    vars
}

fn expand(template: &str, pairs: &[(&str, &str)]) -> Result<String, InterpolatedStringError> {
    template
        .parse::<InterpolatedString>()
        .unwrap()
        .interpolate(&binding(pairs))
}

#[test]
fn just_string() {
    assert_eq!(
        &"just_string"
            .parse::<InterpolatedString>()
            .unwrap()
            .interpolate(&VariableBinding::new())
            .unwrap(),
        "just_string"
    );
}

#[test]
fn single_var() {
    let mut vars = VariableBinding::new();
    vars.insert("var".to_string(), "with_var".to_string());
    assert_eq!(
        &"a_string_${ var }"
            .parse::<InterpolatedString>()
            .unwrap()
            .interpolate(&vars)
            .unwrap(),
        "a_string_with_var"
    );
}

#[test]
fn missing_var() {
    assert_eq!(
        "a_string_${ var }"
            .parse::<InterpolatedString>()
            .unwrap()
            .interpolate(&VariableBinding::new()),
        Err(InterpolatedStringError::MissingVar("var".to_string())),
    );
}

#[test]
fn no_closing_brace() {
    assert_eq!(
        "a_string_${ var".parse::<InterpolatedString>().unwrap_err(),
        InterpolatedStringError::MissingClosingBrace
    );
}

#[test]
fn empty_template_is_empty_text() {
    assert_eq!(expand("", &[]), Ok(String::new()));
}

#[test]
fn text_without_marker_is_unchanged_under_any_binding() {
    let text = "plain $ text { with } braces and $ signs";
    assert_eq!(expand(text, &[]), Ok(text.to_string()));
    assert_eq!(expand(text, &[("plain", "x"), ("text", "y")]), Ok(text.to_string()));
}

#[test]
fn whitespace_around_a_name_is_dropped() {
    assert_eq!(expand("${var}", &[("var", "v")]), Ok("v".to_string()));
    assert_eq!(expand("${   var\t\n}", &[("var", "v")]), Ok("v".to_string()));
    assert_eq!(expand("${\u{a0}var\u{3000}}", &[("var", "v")]), Ok("v".to_string()));
    assert_eq!(expand("${\u{2003}var\u{85}}", &[("var", "v")]), Ok("v".to_string()));
}

#[test]
fn whitespace_inside_a_name_is_kept() {
    assert_eq!(expand("${ a b }", &[("a b", "v")]), Ok("v".to_string()));
    assert_eq!(
        expand("${ a b }", &[("a", "v"), ("b", "w")]),
        Err(InterpolatedStringError::MissingVar("a b".to_string()))
    );
}

#[test]
fn a_zero_width_space_is_no_whitespace() {
    assert_eq!(
        expand("${\u{200b}var}", &[("var", "v")]),
        Err(InterpolatedStringError::MissingVar("\u{200b}var".to_string()))
    );
}

#[test]
fn several_placeholders_are_filled_in_order() {
    assert_eq!(
        expand(
            "/.github/workflows/${ dir_slug }-${ file_name }",
            &[("dir_slug", "foo"), ("file_name", "test.yml")]
        ),
        Ok("/.github/workflows/foo-test.yml".to_string())
    );
    assert_eq!(
        expand("${a}${b}${a}", &[("a", "1"), ("b", "2")]),
        Ok("121".to_string())
    );
}

#[test]
fn the_first_missing_variable_is_reported() {
    assert_eq!(
        expand("${ a }-${ b }-${ c }", &[("a", "1")]),
        Err(InterpolatedStringError::MissingVar("b".to_string()))
    );
    assert_eq!(
        expand("${ c }-${ b }-${ a }", &[("a", "1")]),
        Err(InterpolatedStringError::MissingVar("c".to_string()))
    );
}

#[test]
fn an_empty_name_is_looked_up_like_any_other() {
    assert_eq!(
        expand("x${}y", &[]),
        Err(InterpolatedStringError::MissingVar(String::new()))
    );
    assert_eq!(expand("x${  }y", &[("", "-")]), Ok("x-y".to_string()));
}

#[test]
fn a_name_ends_at_the_first_closing_brace() {
    assert_eq!(expand("${ a }}", &[("a", "1")]), Ok("1}".to_string()));
    assert_eq!(
        expand("${ a${ b } }", &[("a${ b", "1")]),
        Ok("1 }".to_string())
    );
}

#[test]
fn a_dollar_before_a_marker_is_text() {
    assert_eq!(expand("$${ a }", &[("a", "1")]), Ok("$1".to_string()));
    assert_eq!(expand("a$", &[]), Ok("a$".to_string()));
    assert_eq!(expand("${a}$", &[("a", "1")]), Ok("1$".to_string()));
}

#[test]
fn a_marker_that_is_never_closed_is_an_error() {
    for template in ["${", "a${", "${ a", "${a}${", "${ a }-${ b", "}${"] {
        assert_eq!(
            template.parse::<InterpolatedString>().unwrap_err(),
            InterpolatedStringError::MissingClosingBrace,
            "{template}"
        );
    }
}

#[test]
fn a_closing_brace_before_the_marker_does_not_close_it() {
    assert_eq!(
        "}}${ a".parse::<InterpolatedString>().unwrap_err(),
        InterpolatedStringError::MissingClosingBrace
    );
    assert_eq!(expand("}}${ a }", &[("a", "1")]), Ok("}}1".to_string()));
}

#[test]
fn names_are_found_by_characters_not_bytes() {
    assert_eq!(
        expand("héllo ${ nämé } wörld", &[("nämé", "→")]),
        Ok("héllo → wörld".to_string())
    );
}

#[test]
fn values_are_not_read_as_templates() {
    assert_eq!(
        expand("${ a }", &[("a", "${ b }"), ("b", "x")]),
        Ok("${ b }".to_string())
    );
}

#[test]
fn render_writes_one_space_around_each_name() {
    let render = |s: &str| s.parse::<InterpolatedString>().unwrap().render();
    assert_eq!(render("just_string"), "just_string");
    assert_eq!(render(""), "");
    assert_eq!(render("a_string_${var}"), "a_string_${ var }");
    assert_eq!(render("a_string_${   var }"), "a_string_${ var }");
    assert_eq!(render("${a}${ b }-${\tc\n}"), "${ a }${ b }-${ c }");
    assert_eq!(render("${}"), "${  }");
}

#[test]
fn a_rendered_template_reads_as_the_same_template() {
    for source in [
        "",
        "just_string",
        "a_string_${var}",
        "/.github/workflows/${ dir_slug }-${   file_name}",
        "$${ a }$",
        "${}",
        "${ a${ b }}",
        "}${ a b }{",
    ] {
        let first = source.parse::<InterpolatedString>().unwrap();
        let again = first.render().parse::<InterpolatedString>().unwrap();
        assert_eq!(again.render(), first.render(), "{source}");
        let vars = binding(&[("var", "1"), ("a", "2"), ("a b", "3"), ("", "4"), ("a${ b", "5")]);
        assert_eq!(again.interpolate(&vars), first.interpolate(&vars), "{source}");
    }
}

#[test]
fn errors_say_what_went_wrong() {
    assert_eq!(
        InterpolatedStringError::MissingVar("var".to_string()).message(),
        "unknown interpolation variable var"
    );
    assert_eq!(
        InterpolatedStringError::MissingClosingBrace.message(),
        "missing closing brace"
    );
}

#[test]
fn a_binding_holds_the_last_value_given() {
    let mut vars = VariableBinding::new();
    assert_eq!(vars.get("a"), None);
    vars.insert("a".to_string(), "1".to_string());
    vars.insert("a".to_string(), "2".to_string());
    assert_eq!(vars.get("a"), Some(&"2".to_string()));
    vars.remove("a");
    assert_eq!(vars.get("a"), None);
    vars.remove("a");
    assert_eq!(vars.get("a"), None);
}
