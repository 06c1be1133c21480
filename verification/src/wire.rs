//! The assistant's conversation as each provider wants it on the wire.
//!
//! OpenAI-compatible endpoints take the conversation message for message. Anthropic's Messages API
//! takes the system brief apart from the turns, and wants the results of one batch of tool calls
//! merged into a single user turn of `tool_result` blocks. The JSON itself is written by the
//! program.

use vstd::prelude::*;
use vstd::string::StringExecFns;

verus! {

/// One tool call the model made: its id, the tool's name and the arguments as JSON text.
#[derive(Debug, Clone)]
pub struct ToolCall {
    /// The provider's id for the call, echoed back with its result.
    pub id: String,
    /// The tool's name.
    pub name: String,
    /// The arguments object, as JSON text.
    pub arguments: String,
}

/// One message of the conversation.
#[derive(Debug, Clone)]
pub enum Msg {
    /// The standing brief.
    System(String),
    /// Something the teacher said.
    User(String),
    /// The model's reply: text and tool calls.
    Assistant { text: Option<String>, tool_calls: Vec<ToolCall> },
    /// The result of one tool call, by the call's id.
    ToolResult { id: String, content: String },
}

/// One content block of an Anthropic message.
#[derive(Debug, Clone)]
pub enum Block {
    /// Text.
    Text(String),
    /// A tool call: its id, the tool's name and the arguments as JSON text.
    ToolUse { id: String, name: String, input: String },
    /// A tool call's result, by the call's id.
    ToolResult { id: String, content: String },
}

/// Who speaks an Anthropic message.
#[derive(Debug, Clone, Copy, PartialEq, Eq, Structural)]
pub enum Role {
    User,
    Assistant,
}

/// One Anthropic message: who speaks, and its blocks.
#[derive(Debug, Clone)]
pub struct WireMessage {
    pub role: Role,
    pub content: Vec<Block>,
}

/// A tool call as text.
pub struct CallView {
    pub id: Seq<char>,
    pub name: Seq<char>,
    pub arguments: Seq<char>,
}

/// A message as text.
pub enum MsgView {
    System(Seq<char>),
    User(Seq<char>),
    Assistant(Option<Seq<char>>, Seq<CallView>),
    ToolResult(Seq<char>, Seq<char>),
}

/// A block as text.
pub enum BlockView {
    Text(Seq<char>),
    ToolUse(Seq<char>, Seq<char>, Seq<char>),
    ToolResult(Seq<char>, Seq<char>),
}

/// An Anthropic message as text.
pub struct WireView {
    pub role: Role,
    pub content: Seq<BlockView>,
}

impl View for ToolCall {
    type V = CallView;

    open spec fn view(&self) -> CallView {
        CallView { id: self.id@, name: self.name@, arguments: self.arguments@ }
    }
}

/// The views of a list of tool calls.
pub open spec fn call_views(calls: Seq<ToolCall>) -> Seq<CallView> {
    Seq::new(calls.len(), |i: int| calls[i]@)
}

impl View for Msg {
    type V = MsgView;

    open spec fn view(&self) -> MsgView {
        match self {
            Msg::System(s) => MsgView::System(s@),
            Msg::User(s) => MsgView::User(s@),
            Msg::Assistant { text, tool_calls } => MsgView::Assistant(
                match text {
                    Some(t) => Some(t@),
                    None => None,
                },
                call_views(tool_calls@),
            ),
            Msg::ToolResult { id, content } => MsgView::ToolResult(id@, content@),
        }
    }
}

impl View for Block {
    type V = BlockView;

    open spec fn view(&self) -> BlockView {
        match self {
            Block::Text(s) => BlockView::Text(s@),
            Block::ToolUse { id, name, input } => BlockView::ToolUse(id@, name@, input@),
            Block::ToolResult { id, content } => BlockView::ToolResult(id@, content@),
        }
    }
}

/// The views of a list of blocks.
pub open spec fn block_views(blocks: Seq<Block>) -> Seq<BlockView> {
    Seq::new(blocks.len(), |i: int| blocks[i]@)
}

impl View for WireMessage {
    type V = WireView;

    open spec fn view(&self) -> WireView {
        WireView { role: self.role, content: block_views(self.content@) }
    }
}

/// The views of a list of messages.
pub open spec fn msg_views(msgs: Seq<Msg>) -> Seq<MsgView> {
    Seq::new(msgs.len(), |i: int| msgs[i]@)
}

/// The views of a list of Anthropic messages.
pub open spec fn wire_views(msgs: Seq<WireMessage>) -> Seq<WireView> {
    Seq::new(msgs.len(), |i: int| msgs[i]@)
}

/// `out` with the waiting tool results, if any, added as one user turn.
pub open spec fn flushed(out: Seq<WireView>, pending: Seq<BlockView>) -> Seq<WireView> {
    if pending.len() > 0 {
        out.push(WireView { role: Role::User, content: pending })
    } else {
        out
    }
}

/// The blocks of an assistant turn: its text, if any, then one `tool_use` per call, in order.
pub open spec fn assistant_blocks(text: Option<Seq<char>>, calls: Seq<CallView>) -> Seq<BlockView> {
    let head = match text {
        Some(t) => seq![BlockView::Text(t)],
        None => Seq::empty(),
    };
    head + Seq::new(
        calls.len(),
        |i: int| BlockView::ToolUse(calls[i].id, calls[i].name, calls[i].arguments),
    )
}

/// The Anthropic turns of `msgs` so far, and the tool results waiting to be sent together: the
/// brief is left out, a teacher's message is a user turn of one text block, a reply is an
/// assistant turn, and tool results wait until the next turn or the end, where they become one
/// user turn.
pub open spec fn anthropic_fold(msgs: Seq<MsgView>) -> (Seq<WireView>, Seq<BlockView>)
    decreases msgs.len(),
{
    if msgs.len() == 0 {
        (Seq::empty(), Seq::empty())
    } else {
        let (out, pending) = anthropic_fold(msgs.drop_last());
        match msgs.last() {
            MsgView::System(_) => (out, pending),
            MsgView::User(s) => (
                flushed(out, pending).push(
                    WireView { role: Role::User, content: seq![BlockView::Text(s)] },
                ),
                Seq::empty(),
            ),
            MsgView::Assistant(text, calls) => (
                flushed(out, pending).push(
                    WireView { role: Role::Assistant, content: assistant_blocks(text, calls) },
                ),
                Seq::empty(),
            ),
            MsgView::ToolResult(id, content) => (out, pending.push(BlockView::ToolResult(id, content))),
        }
    }
}

/// The Anthropic turns of a conversation.
pub open spec fn anthropic_spec(msgs: Seq<MsgView>) -> Seq<WireView> {
    flushed(anthropic_fold(msgs).0, anthropic_fold(msgs).1)
}

fn flush(out: &mut Vec<WireMessage>, pending: &mut Vec<Block>)
    ensures
        wire_views(final(out)@) == flushed(wire_views(old(out)@), block_views(old(pending)@)),
        final(pending)@.len() == 0,
{
    if pending.len() > 0 {
        let mut taken: Vec<Block> = Vec::new();
        std::mem::swap(&mut taken, pending);
        let ghost before = out@;
        out.push(WireMessage { role: Role::User, content: taken });
        proof {
            assert(wire_views(out@) =~= wire_views(before).push(
                WireView { role: Role::User, content: block_views(old(pending)@) },
            ));
        }
    } else {
        proof {
            assert(block_views(old(pending)@) =~= Seq::<BlockView>::empty());
        }
    }
}

fn assistant_content(text: &Option<String>, calls: &Vec<ToolCall>) -> (content: Vec<Block>)
    ensures
        block_views(content@) == assistant_blocks(
            match text {
                Some(t) => Some(t@),
                None => None,
            },
            call_views(calls@),
        ),
{
    let mut content: Vec<Block> = Vec::new();
    if let Some(t) = text {
        content.push(Block::Text(t.clone()));
    }
    let start = content.len();
    let ghost head = block_views(content@);
    let mut i: usize = 0;
    while i < calls.len()
        invariant
            i <= calls@.len(),
            content@.len() == start + i,
            start <= 1,
            block_views(content@).take(start as int) == head,
            forall|k: int|
                0 <= k < i ==> #[trigger] content@[start + k]@ == BlockView::ToolUse(
                    calls@[k].id@,
                    calls@[k].name@,
                    calls@[k].arguments@,
                ),
        decreases calls@.len() - i,
    {
        let c = &calls[i];
        let ghost before = content@;
        content.push(Block::ToolUse { id: c.id.clone(), name: c.name.clone(), input: c.arguments.clone() });
        proof {
            assert(block_views(content@).take(start as int) =~= block_views(before).take(start as int));
        }
        i = i + 1;
    }
    proof {
        let want = assistant_blocks(
            match text {
                Some(t) => Some(t@),
                None => None,
            },
            call_views(calls@),
        );
        assert(block_views(content@) =~= want) by {
            assert forall|k: int| 0 <= k < want.len() implies block_views(content@)[k] == want[k] by {
                if k >= start {
                    assert(content@[start + (k - start)] == content@[k]);
                } else {
                    assert(block_views(content@).take(start as int)[k] == block_views(content@)[k]);
                }
            }
        }
    }
    content
}

/// The conversation `msgs` as Anthropic turns: the brief left out (it travels apart, see
/// [`anthropic_system`]), each teacher message a user turn of one text block, each reply an
/// assistant turn of its text and `tool_use` blocks, and the tool results that follow a reply
/// merged into one user turn of `tool_result` blocks.
pub fn anthropic_messages(msgs: &Vec<Msg>) -> (out: Vec<WireMessage>)
    ensures
        wire_views(out@) == anthropic_spec(msg_views(msgs@)),
{
    let mut out: Vec<WireMessage> = Vec::new();
    let mut pending: Vec<Block> = Vec::new();
    let mut i: usize = 0;
    while i < msgs.len()
        invariant
            i <= msgs@.len(),
            (wire_views(out@), block_views(pending@)) == anthropic_fold(
                msg_views(msgs@).take(i as int),
            ),
        decreases msgs@.len() - i,
    {
        proof {
            let t = msg_views(msgs@).take(i + 1);
            assert(t.drop_last() =~= msg_views(msgs@).take(i as int));
            assert(t.last() == msgs@[i as int]@);
        }
        match &msgs[i] {
            Msg::System(_) => {},
            Msg::User(s) => {
                flush(&mut out, &mut pending);
                let ghost before = out@;
                out.push(WireMessage { role: Role::User, content: vec![Block::Text(s.clone())] });
                proof {
                    assert(block_views(out@.last().content@) =~= seq![BlockView::Text(s@)]);
                    assert(wire_views(out@) =~= wire_views(before).push(
                        WireView { role: Role::User, content: seq![BlockView::Text(s@)] },
                    ));
                    assert(block_views(pending@) =~= Seq::<BlockView>::empty());
                }
            },
            Msg::Assistant { text, tool_calls } => {
                flush(&mut out, &mut pending);
                let content = assistant_content(text, tool_calls);
                let ghost before = out@;
                let ghost blocks = block_views(content@);
                out.push(WireMessage { role: Role::Assistant, content });
                proof {
                    assert(wire_views(out@) =~= wire_views(before).push(
                        WireView { role: Role::Assistant, content: blocks },
                    ));
                    assert(block_views(pending@) =~= Seq::<BlockView>::empty());
                }
            },
            Msg::ToolResult { id, content } => {
                let ghost before = pending@;
                pending.push(Block::ToolResult { id: id.clone(), content: content.clone() });
                proof {
                    assert(block_views(pending@) =~= block_views(before).push(
                        BlockView::ToolResult(id@, content@),
                    ));
                }
            },
        }
        i = i + 1;
    }
    proof {
        assert(msg_views(msgs@).take(msgs@.len() as int) =~= msg_views(msgs@));
    }
    flush(&mut out, &mut pending);
    out
}

/// The briefs of `msgs`, in order, separated by blank lines.
pub open spec fn system_text_spec(msgs: Seq<MsgView>) -> Seq<char>
    decreases msgs.len(),
{
    if msgs.len() == 0 {
        Seq::empty()
    } else {
        let before = system_text_spec(msgs.drop_last());
        match msgs.last() {
            MsgView::System(s) => if system_count(msgs.drop_last()) == 0 {
                s
            } else {
                before + "\n\n"@ + s
            },
            _ => before,
        }
    }
}

/// How many briefs `msgs` holds.
pub open spec fn system_count(msgs: Seq<MsgView>) -> nat
    decreases msgs.len(),
{
    if msgs.len() == 0 {
        0
    } else {
        system_count(msgs.drop_last()) + if msgs.last() is System {
            1nat
        } else {
            0nat
        }
    }
}

/// The brief Anthropic takes apart from the turns: every system message of `msgs`, in order,
/// separated by blank lines.
pub fn anthropic_system(msgs: &Vec<Msg>) -> (text: String)
    ensures
        text@ == system_text_spec(msg_views(msgs@)),
{
    let mut text = String::new();
    let mut count: usize = 0;
    let mut i: usize = 0;
    while i < msgs.len()
        invariant
            i <= msgs@.len(),
            count <= i,
            count == system_count(msg_views(msgs@).take(i as int)),
            count == 0 ==> text@.len() == 0,
            text@ == system_text_spec(msg_views(msgs@).take(i as int)),
        decreases msgs@.len() - i,
    {
        proof {
            let t = msg_views(msgs@).take(i + 1);
            assert(t.drop_last() =~= msg_views(msgs@).take(i as int));
            assert(t.last() == msgs@[i as int]@);
        }
        if let Msg::System(s) = &msgs[i] {
            if count > 0 {
                text.append("\n\n");
            }
            text.append(s.as_str());
            count = count + 1;
        }
        i = i + 1;
    }
    proof {
        assert(msg_views(msgs@).take(msgs@.len() as int) =~= msg_views(msgs@));
    }
    text
}


/// A reply becomes one assistant turn that carries its text, if any, and then every call it made,
/// in order: the `k`-th `tool_use` block has the `k`-th call's id, name and arguments, so each
/// result sent after it answers a call the turn shows.
pub proof fn lemma_each_call_becomes_a_tool_use(
    msgs: Seq<MsgView>,
    text: Option<Seq<char>>,
    calls: Seq<CallView>,
)
    ensures
        ({
            let turn = anthropic_fold(msgs.push(MsgView::Assistant(text, calls))).0.last();
            let off: int = if text is Some {
                1
            } else {
                0
            };
            &&& turn.role == Role::Assistant
            &&& turn.content.len() == off + calls.len()
            &&& text matches Some(t) ==> turn.content[0] == BlockView::Text(t)
            &&& forall|k: int|
                0 <= k < calls.len() ==> #[trigger] turn.content[off + k] == BlockView::ToolUse(
                    calls[k].id,
                    calls[k].name,
                    calls[k].arguments,
                )
        }),
{
    let m = msgs.push(MsgView::Assistant(text, calls));
    assert(m.drop_last() =~= msgs);
}

} // verus!
