use vstd::prelude::*;
use crate::json::{Json, JsonValue, json_items, lemma_json_items_push};
use crate::ollama::{MessageView, OllamaMessage, message_views};
use crate::text::{owned, push_str};
use crate::tools::ToolCall;

verus! {

/// The instructions that a new chat engine gives the model.
pub const DEFAULT_SYSTEM_PROMPT: &'static str = "You are Juno, a helpful AI agent running locally via Ollama. \
You have access to tools for reading files, writing files, listing directories, \
searching files, running shell commands, and on Windows: taking screenshots, \
clicking, and typing. Use these tools when the user references workspace files \
or asks you to perform actions. Keep responses clear and concise.";

/// The form of a message identifier: a hyphenated version-4 UUID.
pub open spec fn is_message_id(id: Seq<char>) -> bool {
    &&& id.len() == 36
    &&& id[8] == '-'
    &&& id[13] == '-'
    &&& id[18] == '-'
    &&& id[23] == '-'
    &&& id[14] == '4'
}

/// Calls `uuid::Uuid::new_v4` and writes the identifier with `to_string`:
/// random, in the hyphenated form of 36 characters whose 15th character is
/// the version digit 4.
#[verifier::external_body]
fn new_message_id() -> (id: String)
    ensures
        is_message_id(id@),
{
    uuid::Uuid::new_v4().to_string()
}

/// The tail of an RFC 3339 time as `to_rfc3339` writes it: at least the date,
/// the time to the second and an offset from UTC, which ends the text as a
/// sign, two digits of hours, a colon and two digits of minutes.
pub open spec fn is_timestamp(t: Seq<char>) -> bool {
    &&& t.len() >= 25
    &&& (t[t.len() - 6] == '+' || t[t.len() - 6] == '-')
    &&& t[t.len() - 3] == ':'
}

/// Calls `chrono::Local::now` and writes the time with `to_rfc3339`, which
/// always ends with a numeric offset (`+hh:mm` or `-hh:mm`, never `Z`) after
/// at least nineteen characters of date and time.  Which time it is depends on
/// the clock and the time zone and is not stated.
#[verifier::external_body]
fn now_rfc3339() -> (t: String)
    ensures
        is_timestamp(t@),
{
    chrono::Local::now().to_rfc3339()
}

/// A message of the conversation.
#[derive(Debug)]
pub struct ChatMessage {
    pub id: String,
    pub role: String,
    pub content: String,
    pub timestamp: String,
    pub tool_calls: Option<Vec<ToolCall>>,
}

/// A message of the conversation by what it says: who speaks, the text, and
/// the tool calls it carries as JSON objects.
pub struct Entry {
    pub role: Seq<char>,
    pub content: Seq<char>,
    pub calls: Option<Seq<Json>>,
}

/// Tool calls as the JSON objects that are sent back to the model.
pub open spec fn calls_json(calls: Seq<ToolCall>) -> Seq<Json> {
    calls.map_values(|c: ToolCall| c.json())
}

impl ChatMessage {
    /// What the message says.
    pub open spec fn entry(&self) -> Entry {
        Entry {
            role: self.role@,
            content: self.content@,
            calls: match self.tool_calls {
                Some(v) => Some(calls_json(v@)),
                None => None,
            },
        }
    }
}

/// What the messages of a history say, in order.
pub open spec fn entries(history: Seq<ChatMessage>) -> Seq<Entry> {
    history.map_values(|m: ChatMessage| m.entry())
}

/// A message of the user.
pub open spec fn user_entry(text: Seq<char>) -> Entry {
    Entry { role: "user"@, content: text, calls: None }
}

/// The output of a tool, with the call that produced it.
pub open spec fn tool_entry(output: Seq<char>, call: Json) -> Entry {
    Entry { role: "tool"@, content: output, calls: Some(seq![call]) }
}

/// An answer of the model.
pub open spec fn assistant_entry(text: Seq<char>) -> Entry {
    Entry { role: "assistant"@, content: text, calls: None }
}

/// A message of the history as it is sent to the model.
pub open spec fn wire_of(e: Entry) -> MessageView {
    MessageView { role: e.role, content: e.content, tool_calls: e.calls, images: None }
}

/// The system instructions, followed by the workspace context when there is one.
pub open spec fn system_content(prompt: Seq<char>, context: Seq<char>) -> Seq<char> {
    if context.len() == 0 {
        prompt
    } else {
        prompt + "\n\n## Workspace Context\n\n"@ + context
    }
}

/// The system message.
pub open spec fn system_view(prompt: Seq<char>, context: Seq<char>) -> MessageView {
    MessageView {
        role: "system"@,
        content: system_content(prompt, context),
        tool_calls: None,
        images: None,
    }
}

/// What the model is sent at the start of a turn: the system message, then
/// the whole history.
pub open spec fn request_messages(prompt: Seq<char>, context: Seq<char>, history: Seq<Entry>) -> Seq<
    MessageView,
> {
    seq![system_view(prompt, context)] + history.map_values(|e: Entry| wire_of(e))
}

/// A turn sends the system message and then every message of the history,
/// each as it was recorded (role, text and tool calls), in order.
pub proof fn lemma_request_sends_whole_history(prompt: Seq<char>, context: Seq<char>, history: Seq<Entry>)
    ensures
        request_messages(prompt, context, history).len() == history.len() + 1,
        request_messages(prompt, context, history)[0].role == "system"@,
        context.len() == 0 ==> request_messages(prompt, context, history)[0].content == prompt,
        context.len() > 0 ==> request_messages(prompt, context, history)[0].content == prompt
            + "\n\n## Workspace Context\n\n"@ + context,
        forall|k: int|
            0 <= k < history.len() ==> {
                let m = #[trigger] request_messages(prompt, context, history)[k + 1];
                &&& m.role == history[k].role
                &&& m.content == history[k].content
                &&& m.tool_calls == history[k].calls
                &&& m.images is None
            },
{
}

pub proof fn lemma_entries_push(history: Seq<ChatMessage>, m: ChatMessage)
    ensures
        entries(history.push(m)) == entries(history).push(m.entry()),
{
    assert(entries(history.push(m)) =~= entries(history).push(m.entry()));
}

/// The calls as JSON objects.
fn calls_to_json(calls: &Vec<ToolCall>) -> (r: Vec<JsonValue>)
    ensures
        json_items(r@) == calls_json(calls@),
{
    let mut r: Vec<JsonValue> = Vec::new();
    let mut i: usize = 0;
    while i < calls.len()
        invariant
            i <= calls.len(),
            json_items(r@) == calls_json(calls@.take(i as int)),
        decreases calls.len() - i,
    {
        let j = calls[i].to_json();
        proof {
            lemma_json_items_push(r@, j);
            assert(calls_json(calls@.take(i + 1)) =~= calls_json(calls@.take(i as int)).push(
                calls@[i as int].json(),
            ));
        }
        r.push(j);
        i = i + 1;
    }
    assert(calls@.take(calls.len() as int) =~= calls@);
    r
}

/// A message of the history as it is sent to the model.
fn wire_message(m: &ChatMessage) -> (r: OllamaMessage)
    ensures
        r@ == wire_of(m.entry()),
{
    let tool_calls = match &m.tool_calls {
        Some(v) => Some(calls_to_json(v)),
        None => None,
    };
    OllamaMessage { role: m.role.clone(), content: m.content.clone(), tool_calls, images: None }
}

/// The system message.
fn system_message(prompt: &str, context: &str) -> (r: OllamaMessage)
    ensures
        r@ == system_view(prompt@, context@),
{
    let content = if context.is_empty() {
        owned(prompt)
    } else {
        let mut c = owned(prompt);
        push_str(&mut c, "\n\n## Workspace Context\n\n");
        push_str(&mut c, context);
        c
    };
    OllamaMessage { role: owned("system"), content, tool_calls: None, images: None }
}

/// Where a turn of the conversation stands.
#[derive(Clone, Copy, Debug, PartialEq, Eq, Structural)]
pub enum TurnStage {
    AwaitingReply,
    AwaitingToolOutput,
    AwaitingFinalReply,
    Finished,
}

/// What the caller must do next for a turn.
#[derive(Debug)]
pub enum ChatAction {
    /// Send the turn's messages to the model, offering these tool schemas.
    AskModel { tools: Option<Vec<JsonValue>> },
    /// Run this tool and report its output.
    RunTool { name: String, arguments: JsonValue },
    /// The turn is over; this is the answer.
    Answer(String),
}

/// One exchange: the user's message, the model's reply, and at most one tool
/// call in between.
pub struct ChatTurn {
    stage: TurnStage,
    tools_offered: bool,
    messages: Vec<OllamaMessage>,
    pending: Option<ToolCall>,
    base: Ghost<Seq<Entry>>,
    added: Ghost<Seq<Entry>>,
}

/// Exactly one tool call.
pub open spec fn one_call(calls: Option<Seq<Json>>) -> bool {
    match calls {
        Some(c) => c.len() == 1,
        None => false,
    }
}

/// The reply is a call of a named tool.
pub open spec fn names_tool(call: Option<ToolCall>) -> bool {
    match call {
        Some(c) => c.name@.len() > 0,
        None => false,
    }
}

/// The entries of a turn are in order: the user's message, then at most one
/// tool output, then, once the turn is finished, the answer.
pub open spec fn turn_shape(stage: TurnStage, added: Seq<Entry>) -> bool {
    &&& added.len() >= 1
    &&& added[0].role == "user"@
    &&& added[0].calls is None
    &&& match stage {
        TurnStage::AwaitingReply => added.len() == 1,
        TurnStage::AwaitingToolOutput => added.len() == 1,
        TurnStage::AwaitingFinalReply => added.len() == 2 && added[1].role == "tool"@ && one_call(
            added[1].calls,
        ),
        TurnStage::Finished => {
            &&& 2 <= added.len() <= 3
            &&& added.last().role == "assistant"@
            &&& added.last().calls is None
            &&& added.len() == 3 ==> added[1].role == "tool"@ && one_call(added[1].calls)
        },
    }
}

impl ChatTurn {
    /// Where the turn stands.
    pub closed spec fn stage_view(&self) -> TurnStage {
        self.stage
    }

    /// What the history held before the turn.
    pub closed spec fn base(&self) -> Seq<Entry> {
        self.base@
    }

    /// What the turn has added to the history.
    pub closed spec fn added(&self) -> Seq<Entry> {
        self.added@
    }

    /// Whether tool schemas were offered with the first request.
    pub closed spec fn offers_tools(&self) -> bool {
        self.tools_offered
    }

    /// The tool call that waits for its output, as JSON.
    pub closed spec fn pending_call(&self) -> Option<Json> {
        match self.pending {
            Some(c) => Some(c.json()),
            None => None,
        }
    }

    /// The messages to send to the model.
    pub closed spec fn messages_view(&self) -> Seq<MessageView> {
        message_views(self.messages@)
    }

    /// The entries of the turn so far are in order.
    pub closed spec fn well_shaped(&self) -> bool {
        &&& turn_shape(self.stage, self.added@)
        &&& self.stage == TurnStage::AwaitingToolOutput <==> self.pending is Some
    }

    /// The messages to send to the model.
    pub fn messages(&self) -> (r: &Vec<OllamaMessage>)
        ensures
            message_views(r@) == self.messages_view(),
    {
        &self.messages
    }

    /// Where the turn stands.
    pub fn stage(&self) -> (r: TurnStage)
        ensures
            r == self.stage_view(),
    {
        self.stage
    }
}

/// The shape of a finished turn: it added the user's message, then possibly
/// one tool output, and last the answer.
pub proof fn lemma_finished_turn(turn: &ChatTurn)
    requires
        turn.well_shaped(),
        turn.stage_view() == TurnStage::Finished,
    ensures
        turn.added().len() == 2 || turn.added().len() == 3,
        turn.added()[0].role == "user"@,
        turn.added().last().role == "assistant"@,
        turn.added().len() == 3 ==> turn.added()[1].role == "tool"@,
{
}

/// The conversation with the model.
pub struct ChatEngine {
    pub history: Vec<ChatMessage>,
    pub system_prompt: String,
}

impl ChatEngine {
    /// An empty conversation under the default instructions.
    pub fn new() -> (r: ChatEngine)
        ensures
            r.history@.len() == 0,
            r.system_prompt@ == DEFAULT_SYSTEM_PROMPT@,
    {
        ChatEngine { history: Vec::new(), system_prompt: Self::default_system_prompt() }
    }

    /// The default instructions.
    pub fn default_system_prompt() -> (r: String)
        ensures
            r@ == DEFAULT_SYSTEM_PROMPT@,
    {
        owned(DEFAULT_SYSTEM_PROMPT)
    }

    /// Forgets the conversation; the instructions stay.
    pub fn clear(&mut self)
        ensures
            final(self).history@.len() == 0,
            final(self).system_prompt == old(self).system_prompt,
    {
        self.history.clear();
    }

    /// Appends a message with a fresh identifier and the current time.
    fn record(&mut self, role: &str, content: String, tool_calls: Option<Vec<ToolCall>>)
        ensures
            final(self).system_prompt == old(self).system_prompt,
            final(self).history@.len() == old(self).history@.len() + 1,
            final(self).history@.subrange(0, old(self).history@.len() as int)
                == old(self).history@,
            final(self).history@.last().role@ == role@,
            final(self).history@.last().content == content,
            final(self).history@.last().tool_calls == tool_calls,
            is_message_id(final(self).history@.last().id@),
            is_timestamp(final(self).history@.last().timestamp@),
    {
        let m = ChatMessage {
            id: new_message_id(),
            role: owned(role),
            content,
            timestamp: now_rfc3339(),
            tool_calls,
        };
        self.history.push(m);
        assert(self.history@.subrange(0, old(self).history@.len() as int) =~= old(self).history@);
    }

    /// The messages for a request: the system message, then the history.
    fn request(&self, context: &str) -> (r: Vec<OllamaMessage>)
        ensures
            message_views(r@) == request_messages(self.system_prompt@, context@, entries(self.history@)),
    {
        let mut r: Vec<OllamaMessage> = Vec::new();
        r.push(system_message(self.system_prompt.as_str(), context));
        let ghost sys = system_view(self.system_prompt@, context@);
        assert(message_views(r@) =~= seq![sys]);
        let mut i: usize = 0;
        while i < self.history.len()
            invariant
                i <= self.history.len(),
                sys == system_view(self.system_prompt@, context@),
                message_views(r@) == seq![sys] + entries(self.history@.take(i as int)).map_values(
                    |e: Entry| wire_of(e),
                ),
            decreases self.history.len() - i,
        {
            let w = wire_message(&self.history[i]);
            let ghost before = r@;
            r.push(w);
            proof {
                assert(self.history@.take(i + 1) =~= self.history@.take(i as int).push(
                    self.history@[i as int],
                ));
                lemma_entries_push(self.history@.take(i as int), self.history@[i as int]);
                assert(message_views(r@) =~= message_views(before).push(w@));
                assert(message_views(r@) =~= seq![sys] + entries(self.history@.take(i + 1)).map_values(
                    |e: Entry| wire_of(e),
                ));
            }
            i = i + 1;
        }
        assert(self.history@.take(self.history.len() as int) =~= self.history@);
        r
    }

    /// Starts a turn: records the user's message and asks the model, with the
    /// system instructions, the workspace `context` and the whole history,
    /// offering the tool `schemas` when there are any.
    pub fn begin_turn(&mut self, user_message: &str, context: &str, schemas: Vec<JsonValue>) -> (r: (
        ChatTurn,
        ChatAction,
    ))
        ensures
            final(self).system_prompt == old(self).system_prompt,
            entries(final(self).history@) == entries(old(self).history@).push(
                user_entry(user_message@),
            ),
            final(self).history@.subrange(0, old(self).history@.len() as int) == old(self).history@,
            is_message_id(final(self).history@.last().id@),
            is_timestamp(final(self).history@.last().timestamp@),
            r.0.stage_view() == TurnStage::AwaitingReply,
            r.0.offers_tools() == (schemas@.len() > 0),
            r.0.messages_view() == request_messages(
                old(self).system_prompt@,
                context@,
                entries(final(self).history@),
            ),
            r.0.base() == entries(old(self).history@),
            r.0.added() == seq![user_entry(user_message@)],
            r.0.well_shaped(),
            r.1 matches ChatAction::AskModel { tools } && (if schemas@.len() > 0 {
                tools == Some(schemas)
            } else {
                tools is None
            }),
    {
        let ghost before = self.history@;
        self.record("user", owned(user_message), None);
        proof {
            lemma_entries_push(before, self.history@.last());
            assert(self.history@ =~= before.push(self.history@.last()));
        }
        let messages = self.request(context);
        let offered = schemas.len() > 0;
        let tools = if offered {
            Some(schemas)
        } else {
            None
        };
        let ghost first = seq![user_entry(user_message@)];
        let ghost base = entries(before);
        let turn = ChatTurn {
            stage: TurnStage::AwaitingReply,
            tools_offered: offered,
            messages,
            pending: None,
            base: Ghost(base),
            added: Ghost(first),
        };
        (turn, ChatAction::AskModel { tools })
    }

    /// The model answered `reply`; `call` is that reply read as a tool call,
    /// when it is one.  A call of a named tool, while tools are offered,
    /// leads to running it; any other reply is recorded as the answer.
    pub fn model_replied(&mut self, turn: &mut ChatTurn, reply: String, call: Option<ToolCall>) -> (r:
        ChatAction)
        requires
            old(turn).stage_view() == TurnStage::AwaitingReply || old(turn).stage_view()
                == TurnStage::AwaitingFinalReply,
        ensures
            final(self).system_prompt == old(self).system_prompt,
            final(turn).base() == old(turn).base(),
            final(turn).offers_tools() == old(turn).offers_tools(),
            final(turn).messages_view() == old(turn).messages_view(),
            old(turn).well_shaped() ==> final(turn).well_shaped(),
            entries(old(self).history@) == old(turn).base() + old(turn).added() ==> entries(
                final(self).history@,
            ) == final(turn).base() + final(turn).added(),
            ({
                let runs_tool = old(turn).stage_view() == TurnStage::AwaitingReply
                    && old(turn).offers_tools() && names_tool(call);
                if runs_tool {
                    &&& final(turn).stage_view() == TurnStage::AwaitingToolOutput
                    &&& final(self).history == old(self).history
                    &&& final(turn).added() == old(turn).added()
                    &&& final(turn).pending_call() == Some(call->0.json())
                    &&& r matches ChatAction::RunTool { name, arguments } && name@ == call->0.name@
                        && arguments@ == call->0.arguments@
                } else {
                    &&& final(turn).stage_view() == TurnStage::Finished
                    &&& entries(final(self).history@) == entries(old(self).history@).push(
                        assistant_entry(reply@),
                    )
                    &&& final(self).history@.subrange(0, old(self).history@.len() as int)
                        == old(self).history@
                    &&& is_message_id(final(self).history@.last().id@)
                    &&& is_timestamp(final(self).history@.last().timestamp@)
                    &&& final(turn).added() == old(turn).added().push(assistant_entry(reply@))
                    &&& r matches ChatAction::Answer(a) && a@ == reply@
                }
            }),
    {
        match call {
            Some(c) if turn.stage == TurnStage::AwaitingReply && turn.tools_offered
                && !c.name.as_str().is_empty() => {
                let name = c.name.clone();
                let arguments = c.arguments.deep_copy();
                turn.stage = TurnStage::AwaitingToolOutput;
                turn.pending = Some(c);
                ChatAction::RunTool { name, arguments }
            },
            _ => {
                let ghost before = self.history@;
                let answer = reply.clone();
                self.record("assistant", reply, None);
                proof {
                    lemma_entries_push(before, self.history@.last());
                    assert(self.history@ =~= before.push(self.history@.last()));
                }
                turn.stage = TurnStage::Finished;
                turn.added = Ghost(turn.added@.push(assistant_entry(answer@)));
                ChatAction::Answer(answer)
            },
        }
    }

    /// The tool that the model called produced `output`: it is recorded with
    /// the call, and the model is asked again, without tools.
    pub fn tool_finished(&mut self, turn: &mut ChatTurn, output: String) -> (r: ChatAction)
        requires
            old(turn).stage_view() == TurnStage::AwaitingToolOutput,
        ensures
            final(self).system_prompt == old(self).system_prompt,
            final(turn).stage_view() == TurnStage::AwaitingFinalReply,
            final(turn).base() == old(turn).base(),
            old(turn).well_shaped() ==> final(turn).well_shaped(),
            entries(old(self).history@) == old(turn).base() + old(turn).added() ==> entries(
                final(self).history@,
            ) == final(turn).base() + final(turn).added(),
            old(turn).well_shaped() ==> {
                let call = old(turn).pending_call()->0;
                &&& entries(final(self).history@) == entries(old(self).history@).push(
                    tool_entry(output@, call),
                )
                &&& final(turn).added() == old(turn).added().push(tool_entry(output@, call))
            },
            final(turn).pending_call() is None,
            final(turn).offers_tools() == old(turn).offers_tools(),
            final(self).history@.len() == old(self).history@.len() + 1,
            final(self).history@.subrange(0, old(self).history@.len() as int) == old(self).history@,
            is_message_id(final(self).history@.last().id@),
            is_timestamp(final(self).history@.last().timestamp@),
            final(turn).messages_view() == old(turn).messages_view().push(
                MessageView { role: "tool"@, content: output@, tool_calls: None, images: None },
            ),
            r matches ChatAction::AskModel { tools } && tools is None,
    {
        let ghost before = self.history@;
        let ghost old_messages = turn.messages_view();
        turn.messages.push(
            OllamaMessage { role: owned("tool"), content: output.clone(), tool_calls: None, images: None },
        );
        proof {
            assert(message_views(turn.messages@) =~= old_messages.push(
                MessageView { role: "tool"@, content: output@, tool_calls: None, images: None },
            ));
        }
        let pending = turn.pending.take();
        let calls = match pending {
            Some(c) => {
                let mut v: Vec<ToolCall> = Vec::new();
                v.push(c);
                Some(v)
            },
            None => None,
        };
        let ghost recorded_calls = calls;
        let out_text = output.clone();
        self.record("tool", output, calls);
        proof {
            lemma_entries_push(before, self.history@.last());
            assert(self.history@ =~= before.push(self.history@.last()));
            match recorded_calls {
                Some(v) => {
                    assert(calls_json(v@) =~= seq![v@[0].json()]);
                    assert(self.history@.last().entry() == tool_entry(out_text@, v@[0].json()));
                },
                None => {},
            }
        }
        turn.stage = TurnStage::AwaitingFinalReply;
        turn.added = Ghost(turn.added@.push(self.history@.last().entry()));
        ChatAction::AskModel { tools: None }
    }
}

} // verus!
