use voice_server::agent::{
    empty_response_error, escalation_reason_for, LlmAgent, ModelRequest, ModelRouter, TurnEvent,
    TurnNext, DEFAULT_STRONG_MIN_CHARS,
};
use voice_server::error::ClientError;
use voice_server::events::LlmEvent;
use voice_server::knowledge::{KnowledgeSearch, NoopKnowledgeSearch, SearchError};
use voice_server::llm::{ChatMessage, ModelTier};
use voice_server::memory::{
    history_from_list, last_kept_index, message_from_json, message_to_json, session_key,
    InMemoryStore, MemoryStore, Message, Role, ShortTermMemory, DEFAULT_KEY_PREFIX, DEFAULT_WINDOW,
};
use voice_server::metrics::EscalationReason;
use voice_server::prompts::{
    AgentPrompts, ChatSection, LlmAgentSection, LlmPromptTemplates, SystemPromptsSection,
};

fn msg(role: Role, content: &str) -> Message {
    Message { role, content: content.to_string() }
}

// ---- memory ----

#[test]
fn capacity_zero_is_clamped_to_one() {
    let mut m = ShortTermMemory::new(0);
    m.push(msg(Role::User, "a"));
    m.push(msg(Role::User, "b"));
    assert_eq!(m.len(), 1);
    assert_eq!(m.history()[0].content, "b");
}

#[test]
fn push_evicts_oldest_when_full() {
    let mut m = ShortTermMemory::new(3);
    for i in 1..=5 {
        m.push(msg(Role::User, &format!("u{i}")));
    }
    let h = m.history();
    assert_eq!(h.len(), 3);
    assert_eq!(h[0].content, "u3");
    assert_eq!(h[1].content, "u4");
    assert_eq!(h[2].content, "u5");
}

#[test]
fn history_preserves_role() {
    let mut m = ShortTermMemory::new(5);
    m.push(msg(Role::System, "sys"));
    m.push(msg(Role::User, "u1"));
    m.push(msg(Role::Assistant, "a1"));
    let h = m.history();
    assert_eq!(h[0].role, Role::System);
    assert_eq!(h[1].role, Role::User);
    assert_eq!(h[2].role, Role::Assistant);
}

#[test]
fn clear_empties_memory() {
    let mut m = ShortTermMemory::new(5);
    m.push(msg(Role::User, "x"));
    m.clear();
    assert!(m.is_empty());
}

#[test]
fn role_as_str_matches_openai_protocol() {
    assert_eq!(Role::System.as_str(), "system");
    assert_eq!(Role::User.as_str(), "user");
    assert_eq!(Role::Assistant.as_str(), "assistant");
}

#[test]
fn message_serde_roundtrip() {
    let m = msg(Role::Assistant, "你好");
    let s = message_to_json(&m);
    let back = message_from_json(&s).unwrap();
    assert_eq!(back.role, Role::Assistant);
    assert_eq!(back.content, "你好");
}

#[test]
fn stored_messages_are_json_objects() {
    assert_eq!(
        message_to_json(&msg(Role::User, "a\"b")),
        r#"{"role":"User","content":"a\"b"}"#
    );
    assert!(message_from_json("nonsense").is_none());
    assert!(message_from_json(r#"{"role":"Robot","content":"x"}"#).is_none());
    assert!(message_from_json(r#"{"role":"User"}"#).is_none());
}

#[test]
fn sessions_do_not_share_memory() {
    let mut store = InMemoryStore::new(2);
    store.append("a", msg(Role::User, "1"));
    store.append("a", msg(Role::Assistant, "2"));
    store.append("b", msg(Role::User, "x"));
    store.append("a", msg(Role::User, "3"));
    let a: Vec<String> = store.history("a").into_iter().map(|m| m.content).collect();
    assert_eq!(a, vec!["2", "3"]);
    assert_eq!(store.len("b"), 1);
    assert_eq!(store.len("c"), 0);
    store.clear("a");
    assert!(store.is_empty("a"));
    assert!(!store.is_empty("b"));
}

#[test]
fn stored_list_reads_oldest_first() {
    let newest_first = vec![
        message_to_json(&msg(Role::Assistant, "new")),
        "broken".to_string(),
        message_to_json(&msg(Role::User, "old")),
    ];
    let h: Vec<String> = history_from_list(&newest_first).into_iter().map(|m| m.content).collect();
    assert_eq!(h, vec!["old", "new"]);
    assert_eq!(session_key(DEFAULT_KEY_PREFIX, "s1"), "voice:memory:s1");
    assert_eq!(last_kept_index(20), 19);
}

// ---- prompts ----

#[test]
fn embedded_yaml_parses_with_systemprompts_layer() {
    let p = AgentPrompts::from_embedded().expect("内置 yaml 必须能解析");
    let sp = &p.llmagent.chat.systemprompts;
    assert!(!sp.role.is_empty(), "role 字段不能为空");
    assert!(!sp.guidelines.is_empty(), "guidelines 字段不能为空");
    assert!(
        sp.emotion_hint.contains("{emotion}"),
        "emotion_hint 模板里缺 {{emotion}} 占位符：{}",
        sp.emotion_hint
    );
}

#[test]
fn render_substitutes_emotion() {
    let p = AgentPrompts::from_embedded().unwrap();
    let out = p.render_emotion_hint("开心").unwrap();
    assert!(out.contains("开心"));
    assert!(!out.contains("{emotion}"));
}

#[test]
fn render_empty_emotion_returns_none() {
    let p = AgentPrompts::from_embedded().unwrap();
    assert!(p.render_emotion_hint("").is_none());
}

#[test]
fn static_message_combines_role_and_guidelines() {
    let p = AgentPrompts::from_embedded().unwrap();
    let msg = p.static_system_message().expect("默认 yaml 里 role/guidelines 都应有内容");
    assert!(msg.contains("语音助手"), "static message 应包含 role 内容，实际：{msg}");
    assert!(
        msg.contains("简洁") || msg.contains("自然"),
        "static message 应包含 guidelines 内容，实际：{msg}"
    );
    assert!(msg.contains("\n\n"), "role 和 guidelines 之间应有空行分隔");
}

fn prompts(role: &str, guidelines: &str, emotion_hint: &str) -> AgentPrompts {
    let systemprompts = SystemPromptsSection {
        role: role.to_string(),
        guidelines: guidelines.to_string(),
        emotion_hint: emotion_hint.to_string(),
    };
    AgentPrompts { llmagent: LlmAgentSection { chat: ChatSection { systemprompts } } }
}

#[test]
fn static_message_none_when_both_empty() {
    let p = prompts("", "", "[情绪] {emotion}\n");
    assert!(p.static_system_message().is_none(), "role + guidelines 都为空时应返回 None");
}

#[test]
fn static_message_only_role_when_guidelines_empty() {
    let p = prompts("我是助手", "", "[情绪] {emotion}\n");
    let msg = p.static_system_message().unwrap();
    assert_eq!(msg, "我是助手");
}

#[test]
fn override_via_str_with_current_layout() {
    let p = prompts("test-role", "test-guidelines", "[情绪] 用户当前情绪：{emotion}（测试模板）\n");
    assert!(p.static_system_message().unwrap().contains("test-role"));
    let out = p.render_emotion_hint("焦虑").unwrap();
    assert!(out.contains("焦虑"));
    assert!(out.contains("测试模板"));
}

#[test]
fn embedded_templates_are_complete_and_distinct() {
    let prompts = LlmPromptTemplates::from_embedded().unwrap();

    assert!(prompts.fast.starts_with("/no_think"));
    assert!(prompts.fast.contains("不要尝试调用工具"));
    assert!(!prompts.fast.contains("工具调用前校验"));
    assert!(prompts.strong.contains("强执行模型"));
    assert!(prompts.strong.contains("工具调用前校验"));
    assert!(!prompts.strong.starts_with("/no_think"));
    assert_eq!(prompts.fast.matches("{emotion}").count(), 1);
    assert_eq!(prompts.strong.matches("{emotion}").count(), 1);
}

// ---- routing ----

#[test]
fn routes_by_trimmed_unicode_character_count() {
    let router = ModelRouter;

    assert_eq!(router.route(""), ModelTier::Fast);
    assert_eq!(router.route("   "), ModelTier::Fast);
    assert_eq!(router.route("一二三四五六七八九十甲乙丙丁"), ModelTier::Fast);
    assert_eq!(router.route("一二三四五六七八九十甲乙丙丁戊"), ModelTier::Strong);
    assert_eq!(router.route("  一二三四五六七八九十甲乙丙丁  "), ModelTier::Fast);
}

#[test]
fn counts_unicode_characters_instead_of_utf8_bytes() {
    let router = ModelRouter;

    assert_eq!(router.route("你好🙂，abc"), ModelTier::Fast);
    assert_eq!(router.route("你好🙂，abcdefghijk"), ModelTier::Strong);
    assert_eq!(DEFAULT_STRONG_MIN_CHARS, 15);
}

// ---- knowledge ----

#[test]
fn noop_search_returns_empty_result() {
    let search = NoopKnowledgeSearch;
    let result = search.search("s", "天气", false).unwrap();
    assert!(result.context.is_empty());
    assert!(result.sources.is_empty());
}

#[test]
fn noop_search_honors_cancellation() {
    let search = NoopKnowledgeSearch;
    assert!(matches!(search.search("s", "天气", true), Err(SearchError::Cancelled)));
}

#[test]
fn search_errors_have_texts() {
    assert_eq!(SearchError::Cancelled.to_string(), "search cancelled");
    assert_eq!(
        SearchError::Unavailable("x".to_string()).to_string(),
        "search unavailable: x"
    );
    assert_eq!(SearchError::Timeout.to_string(), "search timed out");
}

// ---- a turn ----

#[derive(Clone)]
enum Behavior {
    Respond(&'static str),
    EmptyFinal,
    EmptyStream,
    StartError,
    StreamError,
    TextThenError(&'static str),
}

fn happenings(behavior: &Behavior) -> Vec<TurnEvent> {
    let event = |delta: &str, is_final: bool| {
        TurnEvent::Event(LlmEvent { delta: delta.to_string(), is_final })
    };
    match behavior {
        Behavior::Respond(text) => vec![TurnEvent::Started, event(text, true)],
        Behavior::EmptyFinal => vec![TurnEvent::Started, event("", true)],
        Behavior::EmptyStream => vec![TurnEvent::Started, TurnEvent::StreamEnded],
        Behavior::StartError => {
            vec![TurnEvent::StartFailed(ClientError::Http("provider failed".to_string()))]
        }
        Behavior::StreamError => vec![
            TurnEvent::Started,
            TurnEvent::StreamFailed(ClientError::Http("stream failed".to_string())),
        ],
        Behavior::TextThenError(text) => vec![
            TurnEvent::Started,
            event(text, false),
            TurnEvent::StreamFailed(ClientError::Http("stream failed".to_string())),
        ],
    }
}

struct Outcome {
    text: Result<String, ClientError>,
    fast_calls: Vec<ModelRequest>,
    strong_calls: Vec<ModelRequest>,
    reasons: Vec<EscalationReason>,
}

fn run_turn(
    agent: &mut LlmAgent<InMemoryStore>,
    input: &str,
    hint: Option<&str>,
    fast: &Behavior,
    strong: &Behavior,
) -> Outcome {
    let (mut turn, mut request) = agent.chat("s", input, hint);
    let mut out = Outcome {
        text: Ok(String::new()),
        fast_calls: Vec::new(),
        strong_calls: Vec::new(),
        reasons: Vec::new(),
    };
    let mut text = String::new();
    'models: loop {
        let behavior = if request.tier == ModelTier::Fast {
            out.fast_calls.push(request);
            fast
        } else {
            out.strong_calls.push(request);
            strong
        };
        for event in happenings(behavior) {
            let step = turn.step(event);
            agent.remember("s", step.remember);
            if let Some(e) = step.emit {
                text.push_str(&e.delta);
            }
            match step.next {
                TurnNext::Wait => {}
                TurnNext::Escalate(reason) => {
                    out.reasons.push(reason);
                    request = turn.request();
                    continue 'models;
                }
                TurnNext::Finish => {
                    out.text = Ok(text);
                    return out;
                }
                TurnNext::Fail(e) => {
                    out.text = Err(e);
                    return out;
                }
            }
        }
        panic!("the turn does not end");
    }
}

fn pairs(messages: &[ChatMessage]) -> Vec<(&str, &str)> {
    messages.iter().map(|m| (m.role.as_str(), m.content.as_str())).collect()
}

#[test]
fn one_agent_routes_each_turn_and_shares_history_without_system_messages() {
    let mut agent = LlmAgent::with_store(InMemoryStore::new(DEFAULT_WINDOW));
    let fast = Behavior::Respond("fast-answer");
    let strong = Behavior::Respond("strong-answer");

    let first = run_turn(&mut agent, "你好", Some("开心"), &fast, &strong);
    assert_eq!(first.text.unwrap(), "fast-answer");
    let second =
        run_turn(&mut agent, "帮我比较两个方案并给出详细执行计划", Some("认真"), &fast, &strong);
    assert_eq!(second.text.unwrap(), "strong-answer");

    let fast_calls: Vec<&ModelRequest> =
        first.fast_calls.iter().chain(&second.fast_calls).collect();
    assert_eq!(fast_calls.len(), 1);
    assert_eq!(fast_calls[0].emotion_hint.as_deref(), Some("开心"));
    assert!(fast_calls[0].messages.iter().all(|m| m.role != "system"));

    let strong_calls: Vec<&ModelRequest> =
        first.strong_calls.iter().chain(&second.strong_calls).collect();
    assert_eq!(strong_calls.len(), 1);
    assert_eq!(strong_calls[0].emotion_hint.as_deref(), Some("认真"));
    assert_eq!(
        pairs(&strong_calls[0].messages),
        vec![
            ("user", "你好"),
            ("assistant", "fast-answer"),
            ("user", "帮我比较两个方案并给出详细执行计划"),
        ]
    );
}

#[test]
fn strong_model_is_asked_the_same_with_the_same_hint() {
    let mut agent = LlmAgent::new();
    let out = run_turn(&mut agent, "你好", Some("开心"), &Behavior::EmptyFinal, &Behavior::Respond("x"));
    assert_eq!(pairs(&out.fast_calls[0].messages), pairs(&out.strong_calls[0].messages));
    assert_eq!(out.strong_calls[0].emotion_hint.as_deref(), Some("开心"));
    let sent = out.strong_calls[0].sent_messages();
    assert_eq!(sent.len(), 2);
    assert_eq!(sent[0].role, "system");
    assert!(sent[0].content.starts_with("[ASR参考信号]"));
    assert!(sent[0].content.contains("开心"));
    assert_eq!(sent[1].content, "你好");
}

#[test]
fn fast_empty_response_retries_strong_before_yielding() {
    let mut agent = LlmAgent::with_store(InMemoryStore::new(DEFAULT_WINDOW));
    let out = run_turn(&mut agent, "你好", None, &Behavior::EmptyFinal, &Behavior::Respond("我来处理。"));
    assert_eq!(out.text.unwrap(), "我来处理。");
    assert_eq!(out.fast_calls.len(), 1);
    assert_eq!(out.strong_calls.len(), 1);
    assert_eq!(agent.memory_len("s"), 2);
    assert_eq!(out.reasons.len(), 1);
    assert_eq!(out.reasons[0].label(), "empty_response");
}

#[test]
fn fast_start_and_first_stream_errors_retry_strong_once() {
    for behavior in [Behavior::StartError, Behavior::StreamError] {
        let mut agent = LlmAgent::with_store(InMemoryStore::new(DEFAULT_WINDOW));
        let out = run_turn(&mut agent, "你好", None, &behavior, &Behavior::Respond("strong"));
        assert_eq!(out.text.unwrap(), "strong");
        assert_eq!(out.fast_calls.len(), 1);
        assert_eq!(out.strong_calls.len(), 1);
    }
}

#[test]
fn fast_empty_stream_retries_strong_once() {
    let mut agent = LlmAgent::with_store(InMemoryStore::new(DEFAULT_WINDOW));
    let out = run_turn(&mut agent, "你好", None, &Behavior::EmptyStream, &Behavior::Respond("strong"));
    assert_eq!(out.text.unwrap(), "strong");
    assert_eq!(out.strong_calls.len(), 1);
}

#[test]
fn does_not_retry_after_fast_yields_visible_text() {
    let mut agent = LlmAgent::with_store(InMemoryStore::new(DEFAULT_WINDOW));
    let out = run_turn(
        &mut agent,
        "你好",
        None,
        &Behavior::TextThenError("部分回答"),
        &Behavior::Respond("重复回答"),
    );
    assert!(matches!(out.text, Err(ClientError::Http(_))));
    assert_eq!(out.strong_calls.len(), 0);
    assert_eq!(agent.memory_len("s"), 1);
}

#[test]
fn strong_model_is_not_replaced() {
    let mut agent = LlmAgent::new();
    let long = "帮我比较两个方案并给出详细执行计划";
    let out = run_turn(&mut agent, long, None, &Behavior::Respond("fast"), &Behavior::StartError);
    assert!(matches!(out.text, Err(ClientError::Http(_))));
    assert!(out.fast_calls.is_empty());
    assert!(out.reasons.is_empty());
    assert_eq!(agent.memory_len("s"), 0);
}

#[test]
fn escalation_reasons_follow_the_error() {
    let label = |e: ClientError| escalation_reason_for(&e).label();
    assert_eq!(label(empty_response_error()), "provider_error");
    assert_eq!(label(ClientError::Http("Operation Timed Out".to_string())), "timeout");
    assert_eq!(label(ClientError::Http("connect timeout".to_string())), "timeout");
    assert_eq!(label(ClientError::Http("x".to_string())), "provider_error");
    assert_eq!(label(ClientError::Status(500)), "provider_error");
}
