//! The decisions behind the agent commands: which task type a name means, which
//! provider and model serve an agent, and how many translation requests run at once.
use vstd::prelude::*;
use crate::agent::runtime::{
    AgentRuntime, AgentStatusInfo, TaskType, complete_next, queue_depth, running_entry, slot_state_name,
    task_type_name,
};
use crate::db::models::AgentStatus;
use crate::text::str_eq;

verus! {

/// The task type whose name is `name`.
pub open spec fn task_type_named(name: Seq<char>) -> Option<TaskType> {
    if name == "summary"@ {
        Some(TaskType::Summary)
    } else if name == "translation"@ {
        Some(TaskType::Translation)
    } else if name == "tagging"@ {
        Some(TaskType::Tagging)
    } else {
        None
    }
}

/// The task type named `name`, if there is one.
pub fn task_type_from_name(name: &str) -> (r: Option<TaskType>)
    ensures
        r == task_type_named(name@),
{
    if str_eq(name, "summary") {
        Some(TaskType::Summary)
    } else if str_eq(name, "translation") {
        Some(TaskType::Translation)
    } else if str_eq(name, "tagging") {
        Some(TaskType::Tagging)
    } else {
        None
    }
}

/// Reading a task type's name gives the task type back.
pub proof fn lemma_task_type_name_roundtrip(t: TaskType)
    ensures
        task_type_named(task_type_name(t)) == Some(t),
{
    reveal_strlit("summary");
    reveal_strlit("translation");
    reveal_strlit("tagging");
    assert("summary"@ != "translation"@ && "summary"@ != "tagging"@ && "translation"@ != "tagging"@) by {
        assert("summary"@.len() == 7 && "translation"@.len() == 11 && "tagging"@.len() == 7);
        assert("summary"@[0] != "tagging"@[0]);
    }
}

/// Ends the running task of the type named `task_type` (the waiting one, if any,
/// starts); an error when no task type has that name.
pub fn cancel_agent_task(runtime: &mut AgentRuntime, task_type: &str) -> (r: Result<(), String>)
    requires
        old(runtime).wf(),
    ensures
        final(runtime).wf(),
        match task_type_named(task_type@) {
            Some(t) => r is Ok && final(runtime).slot_of(t) == complete_next(
                old(runtime).slot_of(t),
            ).0 && forall|u: TaskType| u != t ==> final(runtime).slot_of(u) == old(runtime).slot_of(u),
            None => (r matches Err(e) && e@ == "Unknown task type"@) && *final(runtime) == *old(runtime),
        },
{
    match task_type_from_name(task_type) {
        Some(t) => {
            runtime.complete(t);
            Ok(())
        },
        None => Err("Unknown task type".to_string()),
    }
}

/// The status of the agent named `agent_type`; an error when no task type has that
/// name.
pub fn get_agent_status(runtime: &AgentRuntime, agent_type: &str) -> (r: Result<AgentStatus, String>)
    requires
        runtime.wf(),
    ensures
        match task_type_named(agent_type@) {
            Some(t) => r matches Ok(s) && s.agent_type@ == task_type_name(t) && s.state@ == slot_state_name(
                runtime.slot_of(t),
            ) && s.current_entry_id == running_entry(runtime.slot_of(t)) && s.queue_depth == queue_depth(
                runtime.slot_of(t),
            ),
            None => r matches Err(e) && e@ == "Unknown agent type"@,
        },
{
    match task_type_from_name(agent_type) {
        Some(t) => {
            let info: AgentStatusInfo = runtime.get_status(t);
            Ok(
                AgentStatus {
                    agent_type: info.agent_type,
                    state: info.state,
                    current_entry_id: info.current_entry_id,
                    queue_depth: info.queue_depth,
                },
            )
        },
        None => Err("Unknown agent type".to_string()),
    }
}

/// The number of translation requests that run at once: the agent's setting where it
/// is positive, else 3.
pub fn translation_concurrency(degree: Option<i32>) -> (r: usize)
    ensures
        r == match degree {
            Some(c) => if c <= 0 { 3 } else { c as int },
            None => 3,
        },
        r > 0,
{
    match degree {
        Some(c) => if c <= 0 { 3 } else { c as usize },
        None => 3,
    }
}

/// A model a provider offers, as far as choosing a model goes: its id, the name sent
/// to the API, whether it is enabled, and whether it can do the agent's task.
#[derive(Debug, Clone)]
pub struct ModelCandidate {
    pub id: String,
    pub model_name: String,
    pub is_enabled: bool,
    pub capable: bool,
}

/// A provider with its models, in the order the store lists them.
#[derive(Debug, Clone)]
pub struct ProviderCandidate {
    pub id: String,
    pub base_url: String,
    pub is_enabled: bool,
    pub models: Vec<ModelCandidate>,
}

/// The model chosen for an agent: the index of its provider and the model name.
#[derive(Debug, Clone)]
pub struct ModelSelection {
    pub provider: usize,
    pub model_name: String,
}

/// The first index at or after `i` whose element satisfies `ok`.
pub open spec fn first_from<A>(s: Seq<A>, ok: spec_fn(A) -> bool, i: int) -> Option<int>
    decreases s.len() - i,
{
    if i < 0 || i >= s.len() {
        None
    } else if ok(s[i]) {
        Some(i)
    } else {
        first_from(s, ok, i + 1)
    }
}

pub proof fn lemma_first_from_found<A>(s: Seq<A>, ok: spec_fn(A) -> bool, i: int)
    requires
        0 <= i,
    ensures
        first_from(s, ok, i) matches Some(k) ==> i <= k < s.len() && ok(s[k])
            && forall|j: int| i <= j < k ==> !ok(#[trigger] s[j]),
        first_from(s, ok, i) is None ==> forall|j: int| i <= j < s.len() ==> !ok(#[trigger] s[j]),
    decreases s.len() - i,
{
    if i < s.len() && !ok(s[i]) {
        lemma_first_from_found(s, ok, i + 1);
    }
}

/// `r` is the index that `found` gives, if any.
pub open spec fn found_at(found: Option<int>, r: Option<usize>) -> bool {
    match r {
        Some(k) => found == Some(k as int),
        None => found is None,
    }
}

/// An enabled model with the id `id`.
pub open spec fn primary_match(id: Seq<char>) -> spec_fn(ModelCandidate) -> bool {
    |m: ModelCandidate| m.id@ == id && m.is_enabled
}

/// An enabled model that can do the task.
pub open spec fn capable_match() -> spec_fn(ModelCandidate) -> bool {
    |m: ModelCandidate| m.is_enabled && m.capable
}

/// An enabled provider that has a model satisfying `ok`.
pub open spec fn provider_offers(ok: spec_fn(ModelCandidate) -> bool) -> spec_fn(ProviderCandidate) -> bool {
    |p: ProviderCandidate| p.is_enabled && first_from(p.models@, ok, 0) is Some
}

pub open spec fn provider_enabled() -> spec_fn(ProviderCandidate) -> bool {
    |p: ProviderCandidate| p.is_enabled
}

/// The first enabled provider with a model satisfying `ok`, and the name of its first
/// such model.
pub open spec fn pick(ps: Seq<ProviderCandidate>, ok: spec_fn(ModelCandidate) -> bool) -> Option<(int, Seq<char>)> {
    match first_from(ps, provider_offers(ok), 0) {
        Some(i) => Some((i, ps[i].models@[first_from(ps[i].models@, ok, 0)->0].model_name@)),
        None => None,
    }
}

/// The provider and model an agent uses: the agent's own model where an enabled
/// provider has it enabled; else the first enabled model that can do the task, in
/// provider order; else the first enabled provider with the default model name.
pub open spec fn model_choice(
    ps: Seq<ProviderCandidate>,
    primary: Option<Seq<char>>,
    default_model: Seq<char>,
) -> Option<(int, Seq<char>)> {
    let via_primary = match primary {
        Some(id) => pick(ps, primary_match(id)),
        None => None,
    };
    if via_primary is Some {
        via_primary
    } else if pick(ps, capable_match()) is Some {
        pick(ps, capable_match())
    } else {
        match first_from(ps, provider_enabled(), 0) {
            Some(i) => Some((i, default_model)),
            None => None,
        }
    }
}

/// The first model of `models` at or after `from` that is enabled and, where `id` is
/// given, has that id, or else can do the task.
fn find_model(models: &Vec<ModelCandidate>, id: &Option<String>) -> (r: Option<usize>)
    ensures
        match id {
            Some(x) => found_at(first_from(models@, primary_match(x@), 0), r),
            None => found_at(first_from(models@, capable_match(), 0), r),
        },
{
    let ghost ok = match id {
        Some(x) => primary_match(x@),
        None => capable_match(),
    };
    let mut j: usize = 0;
    while j < models.len()
        invariant
            j <= models.len(),
            ok == match id {
                Some(x) => primary_match(x@),
                None => capable_match(),
            },
            first_from(models@, ok, 0) == first_from(models@, ok, j as int),
        decreases models.len() - j,
    {
        let m = &models[j];
        let hit = match id {
            Some(x) => m.is_enabled && str_eq(m.id.as_str(), x.as_str()),
            None => m.is_enabled && m.capable,
        };
        if hit {
            return Some(j);
        }
        j += 1;
    }
    None
}

/// The first enabled provider with a model that `find_model` accepts, with that model.
fn pick_model(providers: &Vec<ProviderCandidate>, id: &Option<String>) -> (r: Option<(usize, usize)>)
    ensures
        match id {
            Some(x) => pick_found(providers@, primary_match(x@), r),
            None => pick_found(providers@, capable_match(), r),
        },
{
    let ghost ok = match id {
        Some(x) => primary_match(x@),
        None => capable_match(),
    };
    let mut i: usize = 0;
    while i < providers.len()
        invariant
            i <= providers.len(),
            ok == match id {
                Some(x) => primary_match(x@),
                None => capable_match(),
            },
            first_from(providers@, provider_offers(ok), 0) == first_from(providers@, provider_offers(ok), i as int),
        decreases providers.len() - i,
    {
        if providers[i].is_enabled {
            match find_model(&providers[i].models, id) {
                Some(k) => {
                    assert(provider_offers(ok)(providers@[i as int]));
                    return Some((i, k));
                },
                None => {
                    assert(!provider_offers(ok)(providers@[i as int]));
                },
            }
        } else {
            assert(!provider_offers(ok)(providers@[i as int]));
        }
        i += 1;
    }
    None
}

/// `r` is where `pick` finds its model: the provider's index and the model's index.
pub open spec fn pick_found(
    ps: Seq<ProviderCandidate>,
    ok: spec_fn(ModelCandidate) -> bool,
    r: Option<(usize, usize)>,
) -> bool {
    match r {
        Some((i, k)) => first_from(ps, provider_offers(ok), 0) == Some(i as int) && first_from(
            ps[i as int].models@,
            ok,
            0,
        ) == Some(k as int),
        None => first_from(ps, provider_offers(ok), 0) is None,
    }
}

/// The first enabled provider.
fn first_enabled(providers: &Vec<ProviderCandidate>) -> (r: Option<usize>)
    ensures
        found_at(first_from(providers@, provider_enabled(), 0), r),
{
    let mut i: usize = 0;
    while i < providers.len()
        invariant
            i <= providers.len(),
            first_from(providers@, provider_enabled(), 0) == first_from(providers@, provider_enabled(), i as int),
        decreases providers.len() - i,
    {
        if providers[i].is_enabled {
            return Some(i);
        }
        i += 1;
    }
    None
}

/// Chooses the provider and model for an agent (see `model_choice`); an error when no
/// provider is enabled.
pub fn select_agent_model(
    providers: &Vec<ProviderCandidate>,
    primary_model_id: &Option<String>,
    default_model: &str,
) -> (r: Result<ModelSelection, String>)
    ensures
        match model_choice(
            providers@,
            match primary_model_id {
                Some(x) => Some(x@),
                None => None,
            },
            default_model@,
        ) {
            Some((i, name)) => r matches Ok(s) && s.provider == i && s.model_name@ == name,
            None => r matches Err(e) && e@ == "No enabled AI provider configured. Add a provider in Settings."@,
        },
{
    proof {
        if let Some(x) = primary_model_id {
            lemma_first_from_found(providers@, provider_offers(primary_match(x@)), 0);
        }
        lemma_first_from_found(providers@, provider_offers(capable_match()), 0);
    }
    if primary_model_id.is_some() {
        match pick_model(providers, primary_model_id) {
            Some((i, k)) => {
                proof {
                    let x = primary_model_id->0;
                    lemma_first_from_found(providers@[i as int].models@, primary_match(x@), 0);
                }
                return Ok(ModelSelection { provider: i, model_name: providers[i].models[k].model_name.clone() });
            },
            None => {},
        }
    }
    let none: Option<String> = None;
    match pick_model(providers, &none) {
        Some((i, k)) => {
            proof {
                lemma_first_from_found(providers@[i as int].models@, capable_match(), 0);
            }
            return Ok(ModelSelection { provider: i, model_name: providers[i].models[k].model_name.clone() });
        },
        None => {},
    }
    match first_enabled(providers) {
        Some(i) => Ok(ModelSelection { provider: i, model_name: default_model.to_string() }),
        None => Err("No enabled AI provider configured. Add a provider in Settings.".to_string()),
    }
}

/// The built-in prompt templates.
#[derive(Debug, Clone, Copy, PartialEq, Eq, Structural)]
pub enum BuiltinPrompt {
    TranslationHyMt,
    TranslationDefault,
    SummaryDefault,
    TaggingDefault,
}

/// The built-in template of an agent, if it has one.
pub open spec fn builtin_template_spec(agent_type: Seq<char>, strategy: Option<Seq<char>>) -> Option<BuiltinPrompt> {
    if agent_type == "translation"@ {
        if strategy == Some("hy-mt-optimized"@) {
            Some(BuiltinPrompt::TranslationHyMt)
        } else {
            Some(BuiltinPrompt::TranslationDefault)
        }
    } else if agent_type == "summary"@ {
        Some(BuiltinPrompt::SummaryDefault)
    } else if agent_type == "tagging"@ {
        Some(BuiltinPrompt::TaggingDefault)
    } else {
        None
    }
}

/// The built-in template of an agent: the translation template tuned for HY-MT
/// models where that strategy is chosen, else the agent's default template; an
/// error for an unknown agent.
pub fn builtin_template_for(agent_type: &str, strategy: Option<&str>) -> (r: Result<BuiltinPrompt, String>)
    ensures
        match builtin_template_spec(agent_type@, match strategy { Some(s) => Some(s@), None => None }) {
            Some(b) => r == Ok::<BuiltinPrompt, String>(b),
            None => r matches Err(e) && e@ == "Unknown agent type: "@ + agent_type@,
        },
{
    if str_eq(agent_type, "translation") {
        let hy = match strategy {
            Some(s) => str_eq(s, "hy-mt-optimized"),
            None => false,
        };
        if hy {
            Ok(BuiltinPrompt::TranslationHyMt)
        } else {
            Ok(BuiltinPrompt::TranslationDefault)
        }
    } else if str_eq(agent_type, "summary") {
        Ok(BuiltinPrompt::SummaryDefault)
    } else if str_eq(agent_type, "tagging") {
        Ok(BuiltinPrompt::TaggingDefault)
    } else {
        let mut e = "Unknown agent type: ".to_string();
        e.append(agent_type);
        Err(e)
    }
}

/// The file name of an agent's custom prompt template.
pub fn custom_template_file_name(agent_type: &str) -> (r: String)
    ensures
        r@ == agent_type@ + ".custom.yaml"@,
{
    let mut r = agent_type.to_string();
    r.append(".custom.yaml");
    r
}

} // verus!
