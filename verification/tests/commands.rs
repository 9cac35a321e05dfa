use mercury::agent::runtime::{AgentRuntime, TaskType};
use mercury::commands::agent_cmd::{
    builtin_template_for, cancel_agent_task, custom_template_file_name, get_agent_status, select_agent_model,
    task_type_from_name, translation_concurrency, BuiltinPrompt, ModelCandidate, ProviderCandidate,
};
use mercury::digest::{
    digest_entry, digest_template_for, entry_digest_data, multi_digest_data, DigestTemplate, MULTI_DIGEST_TITLE,
};

fn model(id: &str, name: &str, enabled: bool, capable: bool) -> ModelCandidate {
    ModelCandidate { id: id.into(), model_name: name.into(), is_enabled: enabled, capable }
}

fn provider(id: &str, enabled: bool, models: Vec<ModelCandidate>) -> ProviderCandidate {
    ProviderCandidate { id: id.into(), base_url: format!("https://{}", id), is_enabled: enabled, models }
}

#[test]
fn task_type_names_parse_back() {
    for t in [TaskType::Summary, TaskType::Translation, TaskType::Tagging] {
        assert_eq!(task_type_from_name(t.as_str()), Some(t));
    }
    assert_eq!(task_type_from_name("Summary"), None);
}

#[test]
fn cancel_ends_the_running_task() {
    let mut rt = AgentRuntime::new();
    rt.submit(1, TaskType::Summary);
    rt.submit(2, TaskType::Summary);
    assert_eq!(cancel_agent_task(&mut rt, "summary"), Ok(()));
    let s = get_agent_status(&rt, "summary").unwrap();
    assert_eq!(s.state, "running");
    assert_eq!(s.current_entry_id, Some(2));
    assert_eq!(cancel_agent_task(&mut rt, "digest"), Err("Unknown task type".to_string()));
    assert_eq!(get_agent_status(&rt, "digest").unwrap_err(), "Unknown agent type");
}

#[test]
fn translation_concurrency_defaults_to_three() {
    assert_eq!(translation_concurrency(None), 3);
    assert_eq!(translation_concurrency(Some(0)), 3);
    assert_eq!(translation_concurrency(Some(-2)), 3);
    assert_eq!(translation_concurrency(Some(5)), 5);
}

#[test]
fn agent_model_prefers_the_profile_model() {
    let ps = vec![
        provider("p0", false, vec![model("m0", "off-provider", true, true)]),
        provider("p1", true, vec![model("m1", "cheap", true, true), model("m2", "best", true, false)]),
    ];
    let s = select_agent_model(&ps, &Some("m2".into()), "gpt-4o-mini").unwrap();
    assert_eq!((s.provider, s.model_name.as_str()), (1, "best"));
    let fallback = select_agent_model(&ps, &Some("m0".into()), "gpt-4o-mini").unwrap();
    assert_eq!((fallback.provider, fallback.model_name.as_str()), (1, "cheap"));
}

#[test]
fn agent_model_falls_back_to_default_name() {
    let ps = vec![provider("p1", true, vec![model("m1", "x", false, true), model("m2", "y", true, false)])];
    let s = select_agent_model(&ps, &None, "gpt-4o-mini").unwrap();
    assert_eq!((s.provider, s.model_name.as_str()), (0, "gpt-4o-mini"));
    let none = vec![provider("p1", false, vec![])];
    assert_eq!(
        select_agent_model(&none, &None, "gpt-4o-mini").unwrap_err(),
        "No enabled AI provider configured. Add a provider in Settings."
    );
}

#[test]
fn builtin_templates() {
    assert_eq!(builtin_template_for("translation", Some("hy-mt-optimized")), Ok(BuiltinPrompt::TranslationHyMt));
    assert_eq!(builtin_template_for("translation", Some("other")), Ok(BuiltinPrompt::TranslationDefault));
    assert_eq!(builtin_template_for("translation", None), Ok(BuiltinPrompt::TranslationDefault));
    assert_eq!(builtin_template_for("summary", Some("hy-mt-optimized")), Ok(BuiltinPrompt::SummaryDefault));
    assert_eq!(builtin_template_for("tagging", None), Ok(BuiltinPrompt::TaggingDefault));
    assert_eq!(builtin_template_for("digest", None), Err("Unknown agent type: digest".to_string()));
    assert_eq!(custom_template_file_name("summary"), "summary.custom.yaml");
}

#[test]
fn digest_templates_and_data() {
    assert_eq!(digest_template_for("single_markdown"), DigestTemplate::SingleMarkdown);
    assert_eq!(digest_template_for("multiple_markdown"), DigestTemplate::MultipleMarkdown);
    assert_eq!(digest_template_for("anything"), DigestTemplate::SingleText);
    let d = entry_digest_data("Post", Some("Ann"), "body", None, "2026-01-01 10:00");
    assert_eq!(d.digest_title.as_deref(), Some("Digest: Post"));
    assert_eq!(d.entry_count, 1);
    assert_eq!(d.byline.as_deref(), Some("Ann"));
    assert!(d.entries.is_none());
    let e = digest_entry(None, None, "md", Some("2024".into()), None);
    assert_eq!(e.title, "");
    let m = multi_digest_data(Some(MULTI_DIGEST_TITLE), vec![e.clone(), e], "now");
    assert_eq!(m.entry_count, 2);
    assert_eq!(m.digest_title.as_deref(), Some("Mercury Digest"));
    assert!(m.title.is_none());
}
