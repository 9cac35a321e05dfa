//! The message model of OpenAI-compatible chat completions, and the parts of the
//! client that decide what to send and how to read what comes back.
use vstd::prelude::*;
use crate::agent::prompt_templates::RenderedPrompt;
use crate::db::models::LlmUsageEvent;
use crate::text::{chars_of, string_of};

verus! {

#[derive(Debug, Clone)]
pub struct ChatMessage {
    pub role: String,
    pub content: String,
}

#[derive(Debug)]
pub struct ChatCompletionResponse {
    pub choices: Vec<Choice>,
    pub usage: Option<UsageInfo>,
}

#[derive(Debug)]
pub struct Choice {
    pub message: ChatMessage,
    pub finish_reason: Option<String>,
}

#[derive(Debug, Clone, Copy)]
pub struct UsageInfo {
    pub prompt_tokens: u32,
    pub completion_tokens: u32,
    pub total_tokens: u32,
}

/// The messages of a request built from a rendered prompt: the system message, if any,
/// then the user message.
pub open spec fn prompt_messages(system: Option<Seq<char>>, user: Seq<char>) -> Seq<(Seq<char>, Seq<char>)> {
    match system {
        Some(s) => seq![("system"@, s), ("user"@, user)],
        None => seq![("user"@, user)],
    }
}

/// The (role, content) pairs of a list of messages.
pub open spec fn messages_view(m: Seq<ChatMessage>) -> Seq<(Seq<char>, Seq<char>)> {
    m.map_values(|c: ChatMessage| (c.role@, c.content@))
}

/// Builds the chat messages for a rendered prompt.
pub fn build_messages(rendered: RenderedPrompt) -> (r: Vec<ChatMessage>)
    ensures
        messages_view(r@) == prompt_messages(
            match rendered.system_message { Some(s) => Some(s@), None => None },
            rendered.user_message@,
        ),
{
    let mut messages: Vec<ChatMessage> = Vec::new();
    let ghost sys = match rendered.system_message { Some(ref s) => Some(s@), None => None };
    if let Some(system) = rendered.system_message {
        messages.push(ChatMessage { role: "system".to_owned(), content: system });
    }
    messages.push(ChatMessage { role: "user".to_owned(), content: rendered.user_message });
    assert(messages_view(messages@) =~= prompt_messages(sys, rendered.user_message@));
    messages
}

/// The content of the first choice of a response, if there is one.
pub fn first_reply(response: &ChatCompletionResponse) -> (r: Option<String>)
    ensures
        match r {
            Some(t) => response.choices@.len() > 0 && t@ == response.choices@[0].message.content@,
            None => response.choices@.len() == 0,
        },
{
    if response.choices.len() > 0 {
        Some(response.choices[0].message.content.clone())
    } else {
        None
    }
}

/// The change that one choice of a streamed chunk brings.
#[derive(Debug)]
pub struct StreamDelta {
    pub content: Option<String>,
}

/// One choice of a streamed chunk.
#[derive(Debug)]
pub struct StreamChoice {
    pub delta: Option<StreamDelta>,
}

/// One data payload of a streamed chat completion.
#[derive(Debug)]
pub struct StreamChunk {
    pub choices: Option<Vec<StreamChoice>>,
}

/// The text a choice adds, if it carries any.
pub open spec fn choice_text(c: StreamChoice) -> Option<Seq<char>> {
    match c.delta {
        Some(d) => match d.content {
            Some(t) => Some(t@),
            None => None,
        },
        None => None,
    }
}

/// The texts that a list of choices adds, in order.
pub open spec fn choices_text(cs: Seq<StreamChoice>) -> Seq<Seq<char>>
    decreases cs.len(),
{
    if cs.len() == 0 {
        Seq::empty()
    } else {
        match choice_text(cs.last()) {
            Some(t) => choices_text(cs.drop_last()).push(t),
            None => choices_text(cs.drop_last()),
        }
    }
}

/// The texts that a streamed chunk adds to the reply, one per choice that carries
/// content, in order; none when the chunk has no choices.
pub fn stream_deltas(chunk: &StreamChunk) -> (r: Vec<String>)
    ensures
        r@.map_values(|t: String| t@) == match chunk.choices {
            Some(cs) => choices_text(cs@),
            None => Seq::empty(),
        },
{
    let mut out: Vec<String> = Vec::new();
    match &chunk.choices {
        None => {
            assert(out@.map_values(|t: String| t@) =~= Seq::<Seq<char>>::empty());
        },
        Some(cs) => {
            assert(cs@.take(0) =~= Seq::<StreamChoice>::empty());
            for i in 0..cs.len()
                invariant
                    out@.map_values(|t: String| t@) == choices_text(cs@.take(i as int)),
            {
                assert(cs@.take(i + 1).drop_last() =~= cs@.take(i as int));
                assert(cs@.take(i + 1).last() == cs@[i as int]);
                let ghost before = out@;
                match &cs[i].delta {
                    Some(d) => match &d.content {
                        Some(t) => {
                            out.push(t.clone());
                            assert(out@.map_values(|t: String| t@) =~= before.map_values(|t: String| t@).push(t@));
                        },
                        None => {},
                    },
                    None => {},
                }
            }
            assert(cs@.take(cs.len() as int) =~= cs@);
        },
    }
    out
}

/// `s` without the `/` characters at its end.
pub open spec fn trim_end_slashes(s: Seq<char>) -> Seq<char>
    decreases s.len(),
{
    if s.len() > 0 && s.last() == '/' {
        trim_end_slashes(s.drop_last())
    } else {
        s
    }
}

/// The chat completions endpoint of a provider: its base URL without trailing
/// slashes, followed by `/chat/completions`.
pub fn chat_completion_url(base_url: &str) -> (r: String)
    ensures
        r@ == trim_end_slashes(base_url@) + "/chat/completions"@,
{
    let chars = chars_of(base_url);
    let mut end = chars.len();
    assert(chars@.take(chars.len() as int) =~= chars@);
    while end > 0 && chars[end - 1] == '/'
        invariant
            end <= chars.len(),
            trim_end_slashes(chars@) == trim_end_slashes(chars@.take(end as int)),
        decreases end,
    {
        assert(chars@.take(end as int).drop_last() =~= chars@.take(end - 1));
        end -= 1;
    }
    assert(chars@.subrange(0, end as int) =~= chars@.take(end as int));
    let mut url = string_of(&chars, 0, end);
    url.append("/chat/completions");
    url
}

/// What one line of a server-sent event stream asks of the reader.
#[derive(Debug, PartialEq, Eq)]
pub enum SseLine {
    /// An empty line or a comment: nothing to do.
    Skip,
    /// `data: [DONE]`: the stream is complete.
    Done,
    /// A data payload to decode.
    Data(String),
    /// Any other field: ignored.
    Other,
}

/// The meaning of one line of an event stream.
pub open spec fn sse_line_spec(line: Seq<char>) -> SseLineView {
    if line.len() == 0 || line[0] == ':' {
        SseLineView::Skip
    } else if line.len() >= 6 && line.take(6) == "data: "@ {
        if line.skip(6) == "[DONE]"@ { SseLineView::Done } else { SseLineView::Data(line.skip(6)) }
    } else {
        SseLineView::Other
    }
}

/// The abstract form of an [`SseLine`].
pub enum SseLineView {
    Skip,
    Done,
    Data(Seq<char>),
    Other,
}

impl SseLine {
    pub open spec fn view_of(&self) -> SseLineView {
        match self {
            SseLine::Skip => SseLineView::Skip,
            SseLine::Done => SseLineView::Done,
            SseLine::Data(s) => SseLineView::Data(s@),
            SseLine::Other => SseLineView::Other,
        }
    }
}

/// Classifies one line of a streamed chat completion.
pub fn classify_sse_line(line: &str) -> (r: SseLine)
    ensures
        r.view_of() == sse_line_spec(line@),
{
    let c = chars_of(line);
    let prefix: Vec<char> = vec!['d', 'a', 't', 'a', ':', ' '];
    let done: Vec<char> = vec!['[', 'D', 'O', 'N', 'E', ']'];
    proof {
        reveal_strlit("data: ");
        reveal_strlit("[DONE]");
    }
    assert(prefix@ =~= "data: "@);
    assert(done@ =~= "[DONE]"@);
    if c.len() == 0 || c[0] == ':' {
        return SseLine::Skip;
    }
    if c.len() >= 6 && c[0] == 'd' && c[1] == 'a' && c[2] == 't' && c[3] == 'a' && c[4] == ':' && c[5] == ' ' {
        assert(c@.take(6) =~= prefix@);
        let payload = string_of(&c, 6, c.len());
        assert(c@.subrange(6, c.len() as int) =~= c@.skip(6));
        let is_done = c.len() == 12 && c[6] == '[' && c[7] == 'D' && c[8] == 'O' && c[9] == 'N'
            && c[10] == 'E' && c[11] == ']';
        if is_done {
            assert(c@.skip(6) =~= done@);
            SseLine::Done
        } else {
            proof {
                if c@.skip(6) == done@ {
                    assert(c@.skip(6)[0] == done@[0]);
                    assert(c@.skip(6)[1] == done@[1]);
                    assert(c@.skip(6)[2] == done@[2]);
                    assert(c@.skip(6)[3] == done@[3]);
                    assert(c@.skip(6)[4] == done@[4]);
                    assert(c@.skip(6)[5] == done@[5]);
                }
            }
            SseLine::Data(payload)
        }
    } else {
        proof {
            if c@.len() >= 6 && c@.take(6) == prefix@ {
                assert(c@.take(6)[0] == prefix@[0]);
                assert(c@.take(6)[1] == prefix@[1]);
                assert(c@.take(6)[2] == prefix@[2]);
                assert(c@.take(6)[3] == prefix@[3]);
                assert(c@.take(6)[4] == prefix@[4]);
                assert(c@.take(6)[5] == prefix@[5]);
            }
        }
        SseLine::Other
    }
}

/// Whether an optional string holds exactly `t`.
pub open spec fn holds(s: Option<String>, t: Seq<char>) -> bool {
    s matches Some(v) && v@ == t
}

/// The usage record of a successful request of an agent, before the store assigns
/// its id and time: provider `default`, status `success`.
pub fn success_usage_event(
    agent_type: &str,
    model_name: &str,
    prompt_tokens: i64,
    completion_tokens: i64,
    total_tokens: i64,
) -> (e: LlmUsageEvent)
    ensures
        e.id == 0,
        e.task_run_id is None,
        holds(e.provider_name, "default"@),
        holds(e.model_name, model_name@),
        holds(e.agent_type, agent_type@),
        e.prompt_tokens == Some(prompt_tokens),
        e.completion_tokens == Some(completion_tokens),
        e.total_tokens == Some(total_tokens),
        holds(e.request_status, "success"@),
        e.created_at@ == Seq::<char>::empty(),
{
    LlmUsageEvent {
        id: 0,
        task_run_id: None,
        provider_name: Some("default".to_string()),
        model_name: Some(model_name.to_string()),
        agent_type: Some(agent_type.to_string()),
        prompt_tokens: Some(prompt_tokens),
        completion_tokens: Some(completion_tokens),
        total_tokens: Some(total_tokens),
        request_status: Some("success".to_string()),
        created_at: String::new(),
    }
}

/// The value of the `Authorization` header for an API key.
pub fn bearer_header(api_key: &str) -> (r: String)
    ensures
        r@ == "Bearer "@ + api_key@,
{
    let mut r = "Bearer ".to_string();
    r.append(api_key);
    r
}

/// The error reported when the API answers with a failure status.
pub fn api_error(body: &str) -> (r: String)
    ensures
        r@ == "API error: "@ + body@,
{
    let mut r = "API error: ".to_string();
    r.append(body);
    r
}

/// The one message of a connection test: a user message asking for a short reply.
pub fn connection_test_messages() -> (r: Vec<ChatMessage>)
    ensures
        messages_view(r@) == seq![("user"@, "Hello, respond with just 'ok'."@)],
{
    let mut v: Vec<ChatMessage> = Vec::new();
    v.push(ChatMessage { role: "user".to_string(), content: "Hello, respond with just 'ok'.".to_string() });
    assert(messages_view(v@) =~= seq![("user"@, "Hello, respond with just 'ok'."@)]);
    v
}

/// What a connection test reports: the first reply, or `No response` when the
/// response has no choice.
pub fn connection_test_reply(response: &ChatCompletionResponse) -> (r: String)
    ensures
        response.choices@.len() > 0 ==> r@ == response.choices@[0].message.content@,
        response.choices@.len() == 0 ==> r@ == "No response"@,
{
    match first_reply(response) {
        Some(t) => t,
        None => "No response".to_string(),
    }
}

} // verus!
