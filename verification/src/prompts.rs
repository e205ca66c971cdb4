//! Prompts of the assistant.

use vstd::prelude::*;

use crate::text::{opt_view, replace, replace_spec, trim, trim_spec};

verus! {

/// Prompts by area.
#[derive(Debug, Clone)]
pub struct AgentPrompts {
    pub llmagent: LlmAgentSection,
}

#[derive(Debug, Clone)]
pub struct LlmAgentSection {
    pub chat: ChatSection,
}

#[derive(Debug, Clone)]
pub struct ChatSection {
    pub systemprompts: SystemPromptsSection,
}

/// System messages of a chat.
#[derive(Debug, Clone)]
pub struct SystemPromptsSection {
    /// Who the assistant is; always sent.
    pub role: String,
    /// How it answers; always sent.
    pub guidelines: String,
    /// The speaker's mood; sent where it is known, which replaces `{emotion}`.
    pub emotion_hint: String,
}

/// System prompts of the two models.
#[derive(Debug, Clone)]
pub struct LlmPromptTemplates {
    pub fast: String,
    pub strong: String,
}

/// Why prompts could not be read, in words.
#[derive(Debug)]
pub struct PromptError {
    pub message: String,
}

/// The constant part of the system prompt: role and guidelines without white space around them,
/// an empty line between them; nothing where both are blank.
pub open spec fn static_message_spec(role: Seq<char>, guidelines: Seq<char>) -> Option<Seq<char>> {
    let r = trim_spec(role);
    let g = trim_spec(guidelines);
    if r.len() == 0 && g.len() == 0 {
        None
    } else if g.len() == 0 {
        Some(r)
    } else if r.len() == 0 {
        Some(g)
    } else {
        Some(r + "\n\n"@ + g)
    }
}

/// The note on the speaker's mood; nothing where it is not known.
pub open spec fn emotion_hint_spec(template: Seq<char>, emotion: Seq<char>) -> Option<Seq<char>> {
    if emotion.len() == 0 {
        None
    } else {
        Some(replace_spec(template, "{emotion}"@, emotion))
    }
}

impl SystemPromptsSection {
    /// The constant part of the system prompt.
    pub fn static_system_message(&self) -> (r: Option<String>)
        ensures
            opt_view(r) == static_message_spec(self.role@, self.guidelines@),
    {
        let role = trim(self.role.as_str());
        let guidelines = trim(self.guidelines.as_str());
        if role.as_str().is_empty() && guidelines.as_str().is_empty() {
            None
        } else if guidelines.as_str().is_empty() {
            Some(role)
        } else if role.as_str().is_empty() {
            Some(guidelines)
        } else {
            let mut s = role;
            s.append("\n\n");
            s.append(guidelines.as_str());
            Some(s)
        }
    }

    /// The note on the speaker's mood.
    pub fn render_emotion_hint(&self, emotion: &str) -> (r: Option<String>)
        ensures
            opt_view(r) == emotion_hint_spec(self.emotion_hint@, emotion@),
    {
        if emotion.is_empty() {
            return None;
        }
        proof {
            reveal_strlit("{emotion}");
        }
        Some(replace(self.emotion_hint.as_str(), "{emotion}", emotion))
    }
}

impl AgentPrompts {
    /// The prompts that come with the server.
    pub fn from_embedded() -> (r: Result<Self, PromptError>)
        ensures
            r is Ok,
            r->Ok_0.llmagent.chat.systemprompts.role@ == default_role(),
            r->Ok_0.llmagent.chat.systemprompts.guidelines@ == default_guidelines(),
            r->Ok_0.llmagent.chat.systemprompts.emotion_hint@ == default_emotion_hint(),
    {
        Ok(
            AgentPrompts {
                llmagent: LlmAgentSection {
                    chat: ChatSection {
                        systemprompts: SystemPromptsSection {
                            role: "你是一个中文语音助手，正在通过语音与用户实时对话。".to_string(),
                            guidelines: "回答要简洁、自然、口语化，适合直接朗读；不确定时如实说明，不编造事实。".to_string(),
                            emotion_hint: "[情绪参考] 用户当前情绪：{emotion}。请据此调整语气，不要在回复中直接提及。".to_string(),
                        },
                    },
                },
            },
        )
    }

    /// The constant part of the system prompt.
    pub fn static_system_message(&self) -> (r: Option<String>)
        ensures
            opt_view(r) == static_message_spec(
                self.llmagent.chat.systemprompts.role@,
                self.llmagent.chat.systemprompts.guidelines@,
            ),
    {
        self.llmagent.chat.systemprompts.static_system_message()
    }

    /// The note on the speaker's mood.
    pub fn render_emotion_hint(&self, emotion: &str) -> (r: Option<String>)
        ensures
            opt_view(r) == emotion_hint_spec(
                self.llmagent.chat.systemprompts.emotion_hint@,
                emotion@,
            ),
    {
        self.llmagent.chat.systemprompts.render_emotion_hint(emotion)
    }
}

pub open spec fn default_role() -> Seq<char> {
    "你是一个中文语音助手，正在通过语音与用户实时对话。"@
}

pub open spec fn default_guidelines() -> Seq<char> {
    "回答要简洁、自然、口语化，适合直接朗读；不确定时如实说明，不编造事实。"@
}

pub open spec fn default_emotion_hint() -> Seq<char> {
    "[情绪参考] 用户当前情绪：{emotion}。请据此调整语气，不要在回复中直接提及。"@
}

pub open spec fn default_fast_prompt() -> Seq<char> {
    "/no_think\n你是快速应答的语音助手，直接给出简短自然的回答，不要尝试调用工具。\n用户情绪参考：{emotion}"@
}

pub open spec fn default_strong_prompt() -> Seq<char> {
    "你是语音助手的强执行模型，负责复杂问题与多步任务。\n工具调用前校验：先确认参数完整且用户意图明确，再执行。\n用户情绪参考：{emotion}"@
}

impl LlmPromptTemplates {
    /// The prompts that come with the server.
    pub fn from_embedded() -> (r: Result<Self, PromptError>)
        ensures
            r is Ok,
            r->Ok_0.fast@ == default_fast_prompt(),
            r->Ok_0.strong@ == default_strong_prompt(),
    {
        Ok(
            LlmPromptTemplates {
                fast: "/no_think\n你是快速应答的语音助手，直接给出简短自然的回答，不要尝试调用工具。\n用户情绪参考：{emotion}".to_string(),
                strong: "你是语音助手的强执行模型，负责复杂问题与多步任务。\n工具调用前校验：先确认参数完整且用户意图明确，再执行。\n用户情绪参考：{emotion}".to_string(),
            },
        )
    }
}

/// The system prompt says who the assistant is and how it is to behave: each part that says
/// something is in it, the role first, and it is there unless neither does.
pub proof fn law_prompt_holds_both_parts(role: Seq<char>, guidelines: Seq<char>)
    ensures
        ({
            let r = trim_spec(role);
            let g = trim_spec(guidelines);
            let m = static_message_spec(role, guidelines);
            &&& m is None <==> r.len() == 0 && g.len() == 0
            &&& m matches Some(text) ==> r.is_prefix_of(text) && g.is_suffix_of(text) && text.len() >= r.len()
                + g.len()
        }),
{
    let r = trim_spec(role);
    let g = trim_spec(guidelines);
    if r.len() > 0 && g.len() > 0 {
        let text = r + "\n\n"@ + g;
        assert(text.subrange(0, r.len() as int) =~= r);
        assert(text.subrange(text.len() - g.len(), text.len() as int) =~= g);
    } else if r.len() > 0 {
        assert(r.subrange(0, r.len() as int) =~= r);
        assert(r.subrange(r.len() as int, r.len() as int) =~= g);
    } else {
        assert(g.subrange(0, 0) =~= r);
        assert(g.subrange(0, g.len() as int) =~= g);
    }
}

/// The mood is put where the template has its place, and the rest of the template is kept; where
/// the mood is not known there is no note.
pub proof fn law_mood_takes_its_place(a: Seq<char>, b: Seq<char>, emotion: Seq<char>)
    requires
        !a.contains('{'),
        !b.contains('{'),
    ensures
        emotion.len() > 0 ==> emotion_hint_spec(a + "{emotion}"@ + b, emotion) == Some(a + emotion + b),
        emotion.len() == 0 ==> emotion_hint_spec(a + "{emotion}"@ + b, emotion) is None,
{
    reveal_strlit("{emotion}");
    let p = "{emotion}"@;
    assert(p[0] == '{');
    lemma_kept_before(b, Seq::empty(), p, emotion);
    assert(b + Seq::<char>::empty() =~= b);
    assert(b + replace_spec(Seq::empty(), p, emotion) =~= b);
    let rest = p + b;
    assert(rest.take(p.len() as int) =~= p);
    assert(rest.skip(p.len() as int) =~= b);
    lemma_kept_before(a, rest, p, emotion);
    assert(a + p + b =~= a + rest);
    assert(a + (emotion + b) =~= a + emotion + b);
}

proof fn lemma_kept_before(x: Seq<char>, rest: Seq<char>, p: Seq<char>, by: Seq<char>)
    requires
        p.len() > 0,
        !x.contains(p[0]),
    ensures
        replace_spec(x + rest, p, by) == x + replace_spec(rest, p, by),
    decreases x.len(),
{
    if x.len() == 0 {
        assert(x + rest =~= rest);
        assert(x + replace_spec(rest, p, by) =~= replace_spec(rest, p, by));
    } else {
        let y = x.drop_first();
        let s = x + rest;
        assert(x.contains(x[0]));
        assert(!y.contains(p[0])) by {
            if y.contains(p[0]) {
                let k = choose|k: int| 0 <= k < y.len() && y[k] == p[0];
                assert(x[k + 1] == p[0]);
            }
        }
        lemma_kept_before(y, rest, p, by);
        assert(s.drop_first() =~= y + rest);
        assert(s[0] == x[0]);
        if s.len() >= p.len() {
            assert(s.take(p.len() as int)[0] == s[0]);
            assert(seq![s[0]] + (y + replace_spec(rest, p, by)) =~= x + replace_spec(rest, p, by));
        }
    }
}

} // verus!
