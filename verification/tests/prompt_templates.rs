use mercury::agent::prompt_templates::{render_template, PromptTemplate, TemplateParams};

#[test]
fn test_simple_substitution() {
    let mut params = TemplateParams::new();
    params.insert("name".into(), "Alice".into());
    let result = render_template("Hello {{name}}!", &params);
    assert_eq!(result, "Hello Alice!");
}

#[test]
fn test_conditional_present() {
    let mut params = TemplateParams::new();
    params.insert("byline".into(), "John Doe".into());
    let template = "Title\n{{#byline}}By: {{byline}}{{/byline}}";
    let result = render_template(template, &params);
    assert_eq!(result, "Title\nBy: John Doe");
}

#[test]
fn test_conditional_absent() {
    let params = TemplateParams::new();
    let template = "Title\n{{#byline}}By: {{byline}}{{/byline}}";
    let result = render_template(template, &params);
    assert_eq!(result.trim(), "Title");
}

#[test]
fn test_template_render() {
    let template = PromptTemplate {
        version: 1,
        system: Some("You are a translator. Target: {{target_language}}".into()),
        user: "Translate:\n{{source_text}}\n{{#previous}}Context: {{previous}}{{/previous}}".to_string(),
    };

    let mut params = TemplateParams::new();
    params.insert("target_language".into(), "Chinese".into());
    params.insert("source_text".into(), "Hello world".into());
    params.insert("previous".into(), "Bonjour".into());

    let rendered = template.render(&params);
    assert!(rendered.system_message.unwrap().contains("Chinese"));
    assert!(rendered.user_message.contains("Hello world"));
    assert!(rendered.user_message.contains("Context: Bonjour"));
}

#[test]
fn test_conditional_empty_value() {
    let mut params = TemplateParams::new();
    params.insert("byline".into(), "".into());
    let template = "{{#byline}}By: {{byline}}{{/byline}}";
    let result = render_template(template, &params);
    assert!(result.is_empty() || result == "");
}

#[test]
fn unbound_key_renders_as_nothing() {
    let params = TemplateParams::new();
    assert_eq!(render_template("a{{missing}}b", &params), "ab");
}

#[test]
fn later_binding_replaces_earlier() {
    let mut params = TemplateParams::new();
    params.insert("k".into(), "one".into());
    params.insert("k".into(), "two".into());
    assert_eq!(params.get("k").map(|s| s.as_str()), Some("two"));
    assert_eq!(render_template("{{k}}", &params), "two");
}

#[test]
fn unclosed_tag_and_section_run_to_end() {
    let mut params = TemplateParams::new();
    params.insert("x".into(), "X".into());
    assert_eq!(render_template("a{{x", &params), "aX");
    assert_eq!(render_template("{{#x}}body {{x}}", &params), "body X");
}

#[test]
fn single_braces_are_literal() {
    let params = TemplateParams::new();
    assert_eq!(render_template("{a} }}", &params), "{a} }}");
}

#[test]
fn empty_system_message_is_dropped() {
    let template = PromptTemplate { version: 1, system: Some("{{none}}".into()), user: "u".into() };
    let rendered = template.render(&TemplateParams::new());
    assert!(rendered.system_message.is_none());
    assert_eq!(rendered.user_message, "u");
}
