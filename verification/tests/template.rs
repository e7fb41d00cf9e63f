use fgp_workflow::template::{
    expand, interpret, is_inline_template, resolve_entries, resolve_value, risks_recursion, typed,
};
use fgp_workflow::{Context, Entry, Error, Json, JsonNumber};

fn text(s: &str) -> Json {
    Json::String(s.to_string())
}

fn entries(members: Vec<(&str, Json)>) -> Vec<Entry> {
    members
        .into_iter()
        .map(|(key, value)| Entry { key: key.to_string(), value })
        .collect()
}

fn record(members: Vec<(&str, Json)>) -> Json {
    Json::Object(entries(members))
}

fn marked(template: &str) -> Json {
    record(vec![("__template__", text(template))])
}

#[test]
fn nested_value_is_resolved_leaf_by_leaf() {
    let mut ctx = Context::new();
    ctx.set("x", Json::from(5));
    ctx.set("y", Json::from(7));
    let value = record(vec![
        ("a", marked("{{x}}")),
        ("b", Json::Array(vec![Json::from(1), text("{{y}}")])),
    ]);
    assert_eq!(
        ctx.resolve(&value).unwrap(),
        record(vec![
            ("a", Json::from(5)),
            ("b", Json::Array(vec![Json::from(1), Json::from(7)])),
        ])
    );
}

#[test]
fn resolving_a_resolved_value_changes_nothing() {
    let mut ctx = Context::new();
    ctx.set("x", Json::from(5));
    let value = record(vec![
        ("n", Json::Null),
        ("b", Json::Bool(false)),
        ("i", Json::from(-12)),
        ("d", Json::Number(JsonNumber::Decimal("2.5".to_string()))),
        ("s", text("one brace { is no template }")),
        ("open only", text("{{ never closed")),
        ("close only", text("never opened }}")),
        ("list", Json::Array(vec![text("a"), record(vec![("k", text("v"))])])),
        ("empty list", Json::Array(vec![])),
        ("empty record", record(vec![])),
    ]);
    let once = ctx.resolve(&value).unwrap();
    assert_eq!(once, value);
    let twice = ctx.resolve(&once).unwrap();
    assert_eq!(twice, once);
}

#[test]
fn marker_replaces_the_whole_record() {
    let mut ctx = Context::new();
    ctx.set("who", text("Bob"));
    let alone = marked("Hi {{who}}");
    let with_siblings = record(vec![
        ("before", Json::from(1)),
        ("__template__", text("Hi {{who}}")),
        ("after", text("{{who}}")),
    ]);
    assert_eq!(ctx.resolve(&alone).unwrap(), text("Hi Bob"));
    assert_eq!(ctx.resolve(&with_siblings).unwrap(), text("Hi Bob"));
}

#[test]
fn marker_that_holds_no_string_marks_nothing() {
    let mut ctx = Context::new();
    ctx.set("x", Json::from(5));
    let value = record(vec![("__template__", Json::from(3)), ("v", text("{{x}}"))]);
    assert_eq!(
        ctx.resolve(&value).unwrap(),
        record(vec![("__template__", Json::from(3)), ("v", Json::from(5))])
    );
}

#[test]
fn last_marker_of_a_record_counts() {
    let ctx = Context::new();
    let value = record(vec![
        ("__template__", text("first")),
        ("__template__", text("second")),
    ]);
    assert_eq!(ctx.resolve(&value).unwrap(), text("second"));
}

#[test]
fn marker_without_markup_is_still_a_template() {
    let ctx = Context::new();
    assert_eq!(ctx.resolve(&marked("42")).unwrap(), Json::from(42));
    assert_eq!(ctx.resolve(&marked("true")).unwrap(), Json::Bool(true));
    assert_eq!(ctx.resolve(&marked("null")).unwrap(), Json::Null);
    assert_eq!(ctx.resolve(&marked("words")).unwrap(), text("words"));
}

#[test]
fn scalars_pass_through() {
    let ctx = Context::new();
    assert_eq!(ctx.resolve(&Json::Null).unwrap(), Json::Null);
    assert_eq!(ctx.resolve(&Json::Bool(true)).unwrap(), Json::Bool(true));
    assert_eq!(ctx.resolve(&Json::from(0)).unwrap(), Json::from(0));
    assert_eq!(ctx.resolve(&text("no markup")).unwrap(), text("no markup"));
}

#[test]
fn missing_variable_renders_as_nothing() {
    let ctx = Context::new();
    assert_eq!(ctx.resolve(&text("{{missing}}")).unwrap(), text(""));
    assert_eq!(ctx.resolve(&text("a{{missing.deep.0}}b")).unwrap(), text("ab"));
    assert_eq!(ctx.resolve(&marked("[{{nope}}]")).unwrap(), Json::Array(vec![]));
}

#[test]
fn dotted_paths_reach_into_lists_and_records() {
    let mut ctx = Context::new();
    ctx.set(
        "emails",
        Json::Array(vec![
            record(vec![("link", text("first/link"))]),
            record(vec![("link", text("second/link"))]),
        ]),
    );
    assert_eq!(ctx.resolve(&text("{{ emails.0.link }}")).unwrap(), text("first/link"));
    assert_eq!(ctx.resolve(&text("{{emails.1.link}}")).unwrap(), text("second/link"));
    assert_eq!(ctx.resolve(&text("{{emails.2.link}}")).unwrap(), text(""));
}

#[test]
fn rendered_text_that_reads_as_data_becomes_data() {
    let mut ctx = Context::new();
    ctx.set("x", Json::from(5));
    ctx.set("flag", Json::Bool(false));
    assert_eq!(ctx.resolve(&text("{{x}}")).unwrap(), Json::from(5));
    assert_eq!(ctx.resolve(&text("-{{x}}")).unwrap(), Json::from(-5));
    assert_eq!(
        ctx.resolve(&text("{{x}}.25")).unwrap(),
        Json::Number(JsonNumber::Decimal("5.25".to_string()))
    );
    assert_eq!(ctx.resolve(&text("{{flag}}")).unwrap(), Json::Bool(false));
    assert_eq!(
        ctx.resolve(&text("[{{x}}, \"t\", null]")).unwrap(),
        Json::Array(vec![Json::from(5), text("t"), Json::Null])
    );
    assert_eq!(
        ctx.resolve(&marked("{ \"b\": {{x}}, \"a\": [true] }")).unwrap(),
        record(vec![("a", Json::Array(vec![Json::Bool(true)])), ("b", Json::from(5))])
    );
    assert_eq!(ctx.resolve(&text("{{x}} apples")).unwrap(), text("5 apples"));
}

#[test]
fn decimal_numbers_go_through_the_engine_unchanged() {
    let mut ctx = Context::new();
    ctx.set("d", Json::Number(JsonNumber::Decimal("1.5".to_string())));
    assert_eq!(
        ctx.resolve(&text("{{d}}")).unwrap(),
        Json::Number(JsonNumber::Decimal("1.5".to_string()))
    );
    assert_eq!(ctx.resolve(&text("{{d}}x")).unwrap(), text("1.5x"));
}

#[test]
fn rendered_text_is_escaped_for_markup() {
    let mut ctx = Context::new();
    ctx.set("s", text("a&b<c"));
    assert_eq!(ctx.resolve(&text("{{s}}")).unwrap(), text("a&amp;b&lt;c"));
    assert_eq!(ctx.resolve(&text("{{{s}}}")).unwrap(), text("a&b<c"));
}

#[test]
fn malformed_template_fails_with_its_text() {
    let ctx = Context::new();
    let error = ctx.resolve(&marked("{{#if x}}never closed")).unwrap_err();
    match &error {
        Error::TemplateRender { template, reason } => {
            assert_eq!(template, "{{#if x}}never closed");
            assert!(!reason.is_empty());
        }
        other => panic!("unexpected error: {:?}", other),
    }
    assert!(error
        .message()
        .starts_with("Failed to render template '{{#if x}}never closed': "));
}

#[test]
fn first_malformed_template_in_reading_order_is_reported() {
    let ctx = Context::new();
    let value = Json::Array(vec![
        text("fine"),
        record(vec![("k", text("{{#each a}} one }}"))]),
        text("{{#if b}} two }}"),
    ]);
    match ctx.resolve(&value).unwrap_err() {
        Error::TemplateRender { template, .. } => assert_eq!(template, "{{#each a}} one }}"),
        other => panic!("unexpected error: {:?}", other),
    }
}

#[test]
fn inline_template_needs_both_pairs_of_braces() {
    assert!(is_inline_template("{{x}}"));
    assert!(is_inline_template("a {{ b }} c"));
    assert!(is_inline_template("}}{{"));
    assert!(is_inline_template("{{{x}}}"));
    assert!(!is_inline_template(""));
    assert!(!is_inline_template("{"));
    assert!(!is_inline_template("{{"));
    assert!(!is_inline_template("}}"));
    assert!(!is_inline_template("{ {x} }"));
    assert!(!is_inline_template("{x}}"));
    assert!(!is_inline_template("{{x}"));
    assert!(!is_inline_template("{a{b}c}"));
}

#[test]
fn typed_prefers_the_reading() {
    assert_eq!(typed("42".to_string(), Some(Json::from(42))), Json::from(42));
    assert_eq!(typed("anything".to_string(), Some(Json::Null)), Json::Null);
    assert_eq!(typed("words".to_string(), None), text("words"));
    assert_eq!(typed(String::new(), None), text(""));
}

#[test]
fn interpret_reads_rendered_text() {
    assert_eq!(interpret("t", Ok("17".to_string())), Ok(Json::from(17)));
    assert_eq!(interpret("t", Ok("seventeen".to_string())), Ok(text("seventeen")));
    assert_eq!(interpret("t", Ok("".to_string())), Ok(text("")));
    assert_eq!(interpret("t", Ok(" 1 ".to_string())), Ok(Json::from(1)));
    assert_eq!(interpret("t", Ok("1 2".to_string())), Ok(text("1 2")));
    assert_eq!(interpret("t", Ok("\"quoted\"".to_string())), Ok(text("quoted")));
    assert_eq!(
        interpret("t", Ok("{\"k\": [1, {\"d\": -2}]}".to_string())),
        Ok(record(vec![(
            "k",
            Json::Array(vec![Json::from(1), record(vec![("d", Json::from(-2))])])
        )]))
    );
}

#[test]
fn interpret_names_the_template_that_failed() {
    assert_eq!(
        interpret("{{bad", Err("why".to_string())),
        Err(Error::TemplateRender { template: "{{bad".to_string(), reason: "why".to_string() })
    );
}

#[test]
fn expand_renders_over_any_scope() {
    let scope = record(vec![("a", Json::from(1)), ("b", record(vec![("c", text("deep"))]))]);
    assert_eq!(expand("{{a}}{{a}}", &scope), Ok(Json::from(11)));
    assert_eq!(expand("{{b.c}}", &scope), Ok(text("deep")));
    assert_eq!(expand("{{b}}", &scope), Ok(text("[object]")));
    assert_eq!(expand("no braces", &scope), Ok(text("no braces")));
    assert_eq!(expand("{{this}}", &Json::from(3)), Ok(Json::from(3)));
}

#[test]
fn scope_keeps_the_last_of_members_that_share_a_name() {
    let scope = record(vec![("a", Json::from(1)), ("a", Json::from(2))]);
    assert_eq!(expand("{{a}}", &scope), Ok(Json::from(2)));
}

#[test]
fn resolve_value_works_over_a_given_scope() {
    let scope = record(vec![("x", text("X"))]);
    let value = Json::Array(vec![text("{{x}}"), marked("{{x}}{{x}}"), Json::Null]);
    assert_eq!(
        resolve_value(&scope, &value),
        Ok(Json::Array(vec![text("X"), text("XX"), Json::Null]))
    );
}

#[test]
fn resolve_entries_keeps_names_and_places() {
    let scope = record(vec![("x", Json::from(1))]);
    let members = entries(vec![
        ("z", text("{{x}}")),
        ("a", Json::Bool(true)),
        ("z", text("again")),
        ("__template__", text("{{x}}{{x}}")),
    ]);
    assert_eq!(
        resolve_entries(&scope, &members),
        Ok(entries(vec![
            ("z", Json::from(1)),
            ("a", Json::Bool(true)),
            ("z", text("again")),
            ("__template__", Json::from(11)),
        ]))
    );
}

#[test]
fn partials_that_might_call_themselves_are_found() {
    // A definition, then a call, then a closing tag.
    assert!(risks_recursion("{{#*inline \"a\"}}x{{> a}}{{/inline}}{{> a}}"));
    assert!(risks_recursion(
        "{{#*inline \"a\"}}{{> b}}{{/inline}}{{#*inline \"b\"}}{{> a}}{{/inline}}{{> a}}"
    ));
    assert!(risks_recursion("{{~#*inline \"a\"}}{{~> a}}{{~/inline}}"));
    assert!(risks_recursion("{{ # * inline \"a\"}}{{\t>\na}}{{ /inline}}"));
    assert!(risks_recursion("{{*}}{{>}}{{/}}"));
    assert!(risks_recursion("{{*{{>{{/"));
    assert!(risks_recursion("{{#*inline \"a\"}}x{{/inline}}{{#> a}}y{{/a}}"));
    assert!(risks_recursion("{{#*inline \"a\"}}x{{/inline}}{{#if c}}{{> a}}{{/if}}"));
}

#[test]
fn templates_without_that_risk_are_let_through() {
    assert!(!risks_recursion(""));
    assert!(!risks_recursion("plain * > / text"));
    assert!(!risks_recursion("{{x}}"));
    // A call alone, or with a closing tag, defines nothing.
    assert!(!risks_recursion("{{> a}}"));
    assert!(!risks_recursion("{{x}}{{#> a}}{{x}}{{/a}}"));
    // A definition alone calls nothing.
    assert!(!risks_recursion("{{#*inline \"a\"}}x{{/inline}}"));
    // A call behind the block that defines the partial is not inside it.
    assert!(!risks_recursion("{{#*inline \"a\"}}x{{/inline}}{{> a}}"));
    // The order counts.
    assert!(!risks_recursion("{{> a}}{{/a}}{{#*inline \"a\"}}x"));
    assert!(!risks_recursion("{{/a}}{{#*inline \"a\"}}{{> a}}"));
    // A sign counts only at the head of an expression.
    assert!(!risks_recursion("{{a*}}{{b>}}{{c/}}"));
    assert!(!risks_recursion("{*}{>}{/}"));
    assert!(!risks_recursion("{ {*}}{ {>}}{ {/}}"));
}

#[test]
fn template_in_which_a_partial_might_call_itself_is_refused() {
    let refused = |template: &str| {
        Err(Error::TemplateRender {
            template: template.to_string(),
            reason: "partials that might call themselves are not supported".to_string(),
        })
    };
    let scope = record(vec![("x", Json::from(1))]);
    let endless = "{{#*inline \"a\"}}x{{> a}}{{/inline}}{{> a}}";
    assert_eq!(expand(endless, &scope), refused(endless));
    assert_eq!(resolve_value(&scope, &text(endless)), refused(endless));
    assert_eq!(resolve_value(&scope, &marked(endless)), refused(endless));
    let mutual =
        "{{#*inline \"a\"}}{{> b}}{{/inline}}{{#*inline \"b\"}}{{> a}}{{/inline}}{{> a}}";
    assert_eq!(
        Context::new().resolve(&Json::Array(vec![text("{{x}}"), text(mutual)])),
        refused(mutual)
    );
    assert_eq!(
        expand(endless, &scope).unwrap_err().message(),
        format!(
            "Failed to render template '{}': partials that might call themselves are not supported",
            endless
        )
    );
}

#[test]
fn partials_that_cannot_call_themselves_are_rendered() {
    let scope = record(vec![("x", Json::from(1))]);
    // A partial block whose partial is missing renders its own content.
    assert_eq!(expand("{{x}}{{#> a}}{{x}}{{/a}}", &scope), Ok(Json::from(11)));
    // An inline partial, called behind its definition.
    assert_eq!(expand("{{#*inline \"a\"}}p{{x}}{{/inline}}{{> a}}", &scope), Ok(text("p1")));
    assert_eq!(
        expand("{{#*inline \"a\"}}{{x}}{{/inline}}{{> a}}{{> a}}", &scope),
        Ok(Json::from(11))
    );
    // A partial that is only defined: nothing calls it.
    assert_eq!(expand("{{#*inline \"a\"}}x{{/inline}}{{x}}", &scope), Ok(Json::from(1)));
    // Text that only looks like a call.
    assert_eq!(expand("\\{{> x}}", &scope), Ok(text("{{> x}}")));
    assert_eq!(expand("{{!-- {{> x}} --}}", &scope), Ok(text("")));
    assert_eq!(expand("{{! > }}{{x}}", &scope), Ok(Json::from(1)));
}

#[test]
fn missing_partial_is_the_engines_to_refuse() {
    let scope = record(vec![("x", Json::from(1))]);
    match expand("{{> a}}", &scope) {
        Err(Error::TemplateRender { template, reason }) => {
            assert_eq!(template, "{{> a}}");
            assert!(!reason.is_empty());
            assert_ne!(reason, "partials that might call themselves are not supported");
        }
        other => panic!("unexpected outcome: {:?}", other),
    }
}

#[test]
fn failure_names_the_template_whatever_the_engine_says() {
    let scope = record(vec![]);
    let template = "{{eq 1 1 a=(foo 1) b=(bar 1)}}";
    for _ in 0..20 {
        match expand(template, &scope) {
            Err(Error::TemplateRender { template: named, reason }) => {
                assert_eq!(named, template);
                assert!(!reason.is_empty());
            }
            other => panic!("unexpected outcome: {:?}", other),
        }
    }
}
