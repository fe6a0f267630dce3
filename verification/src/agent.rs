//! The agent: its memory of the conversation and its replies.
use vstd::prelude::*;
use crate::asr::{attempts_for, single, Attempts};
use crate::config::LlmConfig;
use crate::json;
use crate::json::{Json, JsonTree};
use crate::text;
use crate::urls::pairs_of;

verus! {

/// What the language model is told of its part.
pub const SPEAKER_AGENT_INSTRUCTIONS: &'static str =
    "你是小爱同学，一个运行在小爱音箱上的中文语音助手。\
     你运行在小爱音箱端侧；端侧程序负责语音唤醒、云端 ASR、TTS 和播放控制。\
     你负责根据用户文本请求完成任务并返回适合朗读的文本。\
     直接给最终答案，不要输出思考过程。\
     回答要自然、简短、适合直接朗读。\
     通常只说一到两句话，除非用户明确要求详细解释。\
     不要使用 Markdown，不要列太长的清单。\
     当用户询问当前时间、日期、天气或预报时，必须调用工具获得实时信息。\
     当用户询问新闻、最近发生的事、实时资料，或明确要求上网搜索时，必须调用 web_search 工具。\
     基于搜索结果回答时，要简短说明信息来源；搜索结果不足或互相矛盾时，要说无法确认。\
     当用户要求控制智能家居设备时，必须调用 Home Assistant 或 MCP 工具；\
     控制智能家居前优先调用 GetLiveContext 定位目标名称、区域、domain 和当前 state。\
     如果目标 state 是 unavailable 或 unknown，要告诉用户设备当前不可用，不要继续假装成功。\
     只有工具返回明确成功时才可以说操作完成。\
     如果工具返回错误、没有匹配设备或结果不明确，要说明无法确认，不要假装成功。\
     当用户要求播放、搜索、停止音乐或询问当前播放内容时，必须调用音乐工具。\
     用户只说播放某首歌或某位歌手时，优先调用 play_music_query，\
     这会替换当前队列并开始播放；用户说放点音乐、随便放点歌、随机播放时，调用 play_random_music；\
     用户说加入、添加到队列、稍后播放时，调用 add_music_to_play_queue；\
     用户明确说随机加几首到队列时，调用 add_random_music_to_play_queue。\
     用户说下一首、上一首、暂停、继续播放时，调用对应的音乐播放控制工具。\
     如果候选不明确或播放失败，再简短追问或说明原因。\
     当音乐工具提示需要网易云验证码登录，或用户要求登录网易云时，\
     先调用 request_music_login_code 发送验证码；用户报出短信数字后，\
     调用 submit_music_login_code 完成登录；登录 cookie 只在本次进程内保存。\
     当用户表达再见、拜拜、不用了、结束对话、先这样等结束意图时，\
     必须调用 end_conversation 工具，然后用一句简短自然的告别作为最终回复。\
     如果工具返回错误或信息不足，要坦率说明无法确认。";

/// A reply of the agent.
#[derive(Debug)]
pub struct AgentTurnResult {
    pub text: String,
    pub should_end: bool,
    pub end_reason: String,
}

/// A reply of the agent, as a mathematical value.
pub struct AgentReply {
    pub text: Seq<char>,
    pub should_end: bool,
    pub end_reason: Seq<char>,
}

impl View for AgentTurnResult {
    type V = AgentReply;

    open spec fn view(&self) -> AgentReply {
        AgentReply {
            text: self.text@,
            should_end: self.should_end,
            end_reason: self.end_reason@,
        }
    }
}

/// What the tools of a turn have asked of the conversation.
#[derive(Debug)]
pub struct AgentControl {
    pub should_end: bool,
    pub end_reason: String,
}

impl Default for AgentControl {
    fn default() -> (r: Self)
        ensures
            !r.should_end,
            r.end_reason@ == Seq::<char>::empty(),
    {
        AgentControl { should_end: false, end_reason: String::new() }
    }
}

/// The memory of the agent: who said what, and what the tools have asked for.
#[derive(Debug)]
pub struct AgentMemory {
    pub history: Vec<(String, String)>,
    pub control: AgentControl,
}

/// The memory of the agent, as a mathematical value.
pub struct Memory {
    pub history: Seq<(Seq<char>, Seq<char>)>,
    pub should_end: bool,
    pub end_reason: Seq<char>,
}

impl View for AgentMemory {
    type V = Memory;

    open spec fn view(&self) -> Memory {
        Memory {
            history: pairs_of(self.history@),
            should_end: self.control.should_end,
            end_reason: self.control.end_reason@,
        }
    }
}

/// The lines of a conversation: who, and what they said.
pub open spec fn history_lines(history: Seq<(Seq<char>, Seq<char>)>) -> Seq<char>
    decreases history.len(),
{
    if history.len() == 0 {
        Seq::empty()
    } else {
        history_lines(history.drop_last()) + history.last().0 + "："@ + history.last().1 + "\n"@
    }
}

/// What the language model is asked: the message, behind the conversation so far
/// where there is one.
pub open spec fn prompt_of(history: Seq<(Seq<char>, Seq<char>)>, message: Seq<char>) -> Seq<char> {
    if history.len() == 0 {
        message
    } else {
        "最近对话历史：\n"@ + history_lines(history) + "当前用户："@ + message
    }
}

/// A conversation with one more exchange.
pub open spec fn remembered(
    history: Seq<(Seq<char>, Seq<char>)>,
    user: Seq<char>,
    assistant: Seq<char>,
) -> Seq<(Seq<char>, Seq<char>)> {
    history.push(("用户"@, user)).push(("助手"@, assistant))
}

impl AgentMemory {
    /// A memory of nothing.
    pub fn new() -> (r: Self)
        ensures
            r@ == (Memory {
                history: Seq::empty(),
                should_end: false,
                end_reason: Seq::empty(),
            }),
    {
        let r = AgentMemory { history: Vec::new(), control: AgentControl::default() };
        assert(r@.history =~= Seq::empty());
        r
    }

    /// What the language model is asked.
    pub fn prompt_with_history(&self, message: &str) -> (r: String)
        ensures
            r@ == prompt_of(self@.history, message@),
    {
        if self.history.len() == 0 {
            return message.to_owned();
        }
        let ghost all = self@.history;
        let mut lines = String::new();
        let mut i: usize = 0;
        assert(all.take(0) =~= Seq::empty());
        while i < self.history.len()
            invariant
                i <= self.history@.len(),
                all == pairs_of(self.history@),
                lines@ == history_lines(all.take(i as int)),
            decreases self.history@.len() - i,
        {
            assert(all.take(i + 1).drop_last() =~= all.take(i as int));
            assert(all.take(i + 1).last() == (self.history@[i as int].0@, self.history@[i as int].1@));
            lines.append(self.history[i].0.as_str());
            lines.append("：");
            lines.append(self.history[i].1.as_str());
            lines.append("\n");
            i = i + 1;
        }
        assert(all.take(i as int) =~= all);
        let mut prompt: String = "最近对话历史：\n".to_owned();
        prompt.append(lines.as_str());
        prompt.append("当前用户：");
        prompt.append(message);
        prompt
    }

    /// Begins a turn: nothing is asked for yet. Gives what the language model is
    /// asked.
    pub fn begin_turn(&mut self, message: &str) -> (r: String)
        ensures
            r@ == prompt_of(old(self)@.history, message@),
            final(self)@ == (Memory {
                should_end: false,
                end_reason: Seq::empty(),
                ..old(self)@
            }),
    {
        self.control.should_end = false;
        self.control.end_reason = String::new();
        self.prompt_with_history(message)
    }

    fn push_history(&mut self, user: &str, assistant: &str)
        ensures
            final(self)@ == (Memory {
                history: remembered(old(self)@.history, user@, assistant@),
                ..old(self)@
            }),
    {
        let ghost before = self@.history;
        self.history.push(("用户".to_owned(), user.to_owned()));
        self.history.push(("助手".to_owned(), assistant.to_owned()));
        assert(self@.history =~= remembered(before, user@, assistant@));
    }

    /// Ends a turn with the answer of the language model, without white space
    /// around it, and remembers the exchange.
    pub fn complete_turn(&mut self, message: &str, answer: &str) -> (r: AgentTurnResult)
        ensures
            r@ == (AgentReply {
                text: text::trimmed(answer@),
                should_end: old(self)@.should_end,
                end_reason: old(self)@.end_reason,
            }),
            final(self)@ == (Memory {
                history: remembered(old(self)@.history, message@, text::trimmed(answer@)),
                ..old(self)@
            }),
    {
        let reply: String = text::trim(answer);
        self.push_history(message, reply.as_str());
        AgentTurnResult {
            text: reply,
            should_end: self.control.should_end,
            end_reason: self.control.end_reason.clone(),
        }
    }

    /// Forgets the conversation, for a reason.
    pub fn reset_session(&mut self, reason: &str)
        ensures
            final(self)@ == (Memory {
                history: Seq::empty(),
                should_end: false,
                end_reason: reason@,
            }),
    {
        self.history.clear();
        self.control.should_end = false;
        self.control.end_reason = reason.to_owned();
        assert(self@.history =~= Seq::empty());
    }
}

/// The tries that a turn is given.
pub fn llm_attempts(config: &LlmConfig) -> (r: Attempts)
    ensures
        r == (Attempts { current: 1, total: attempts_for(config.retries) }),
{
    Attempts::new(config.retries)
}

/// What is asked of the language model beside the prompt.
pub open spec fn model_parameters() -> JsonTree {
    JsonTree::Object(
        seq![
            ("reasoning_effort"@, JsonTree::Text("low"@)),
            ("enable_thinking"@, JsonTree::Bool(false)),
            ("chat_template_kwargs"@, single("enable_thinking"@, JsonTree::Bool(false))),
        ],
    )
}

/// What is asked of the language model beside the prompt.
pub fn additional_params() -> (r: Json)
    ensures
        json::tree(r) == model_parameters(),
{
    let mut inner: Vec<(String, Json)> = Vec::new();
    inner.push(json::entry("enable_thinking", Json::Bool(false)));
    assert(json::members_tree(inner@) =~= seq![("enable_thinking"@, JsonTree::Bool(false))]);
    let mut out: Vec<(String, Json)> = Vec::new();
    out.push(json::entry("reasoning_effort", json::text_json("low")));
    out.push(json::entry("enable_thinking", Json::Bool(false)));
    out.push(json::entry("chat_template_kwargs", json::object(inner)));
    assert(json::members_tree(out@) =~= model_parameters()->Object_0);
    json::object(out)
}

// ----------------------------------------------------------------------- laws

/// Forgetting is complete: after it the language model is asked the message
/// alone.
pub proof fn law_reset_forgets(memory: Memory, message: Seq<char>)
    requires
        memory.history.len() == 0,
    ensures
        prompt_of(memory.history, message) == message,
{
}

/// The exchange that was just remembered stands in the next question, behind all
/// that was said before.
pub proof fn law_last_exchange_is_asked(
    history: Seq<(Seq<char>, Seq<char>)>,
    user: Seq<char>,
    assistant: Seq<char>,
    message: Seq<char>,
)
    ensures
        prompt_of(remembered(history, user, assistant), message) == "最近对话历史：\n"@
            + history_lines(history) + "用户"@ + "："@ + user + "\n"@ + "助手"@ + "："@ + assistant
            + "\n"@ + "当前用户："@ + message,
{
    let first = history.push(("用户"@, user));
    let both = remembered(history, user, assistant);
    reveal_with_fuel(history_lines, 3);
    assert(first.drop_last() =~= history);
    assert(both.drop_last() =~= first);
    assert(prompt_of(both, message) =~= "最近对话历史：\n"@ + history_lines(history) + "用户"@
        + "："@ + user + "\n"@ + "助手"@ + "："@ + assistant + "\n"@ + "当前用户："@ + message);
}

/// The language model is asked not to think for long, in each of the ways that models
/// are asked.
pub proof fn law_models_answer_at_once()
    ensures
        ({
            let asked = model_parameters();
            &&& json::member(asked, "reasoning_effort"@) == Some(JsonTree::Text("low"@))
            &&& json::member(asked, "enable_thinking"@) == Some(JsonTree::Bool(false))
            &&& json::member_of(
                json::member(asked, "chat_template_kwargs"@),
                "enable_thinking"@,
            ) == Some(JsonTree::Bool(false))
        }),
{
    reveal_strlit("reasoning_effort");
    reveal_strlit("enable_thinking");
    reveal_strlit("chat_template_kwargs");
    assert("reasoning_effort"@.len() == 16 && "enable_thinking"@.len() == 15);
    assert("chat_template_kwargs"@.len() == 20);
    reveal_with_fuel(json::member_from, 4);
}

} // verus!
