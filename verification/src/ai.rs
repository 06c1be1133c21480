//! The assistant's standing brief, and the system prompt it is sent every turn.
//!
//! The teacher chats with the assistant in a floating panel; it can act on the class only through
//! the console's typed fleet tools. The provider requests themselves are made by the program.

use crate::actions::status_name;
use crate::cloud::{opt_chars, DeviceFacts};
use crate::provider::{ProviderConfig, ProviderKind};
use vstd::prelude::*;
use vstd::string::StringExecFns;

verus! {

/// One message in the conversation, as the web layer stores and sends it.
#[derive(Debug, Clone, PartialEq, Eq)]
pub struct ChatMessage {
    /// `user` or `assistant`.
    pub role: String,
    /// The message text.
    pub content: String,
}

/// A public view of the provider config for the settings page (never includes the key).
#[derive(Debug, Clone, PartialEq, Eq)]
pub struct ConfigView {
    /// Provider family.
    pub kind: ProviderKind,
    /// The endpoint base URL.
    pub base_url: String,
    /// The model id.
    pub model: String,
    /// Whether a key is stored.
    pub has_key: bool,
}

impl ConfigView {
    /// The view of `config` for the settings page, with `has_key` telling whether a key is stored,
    /// so the page can show that one is set without ever seeing it.
    pub fn of(config: &ProviderConfig, has_key: bool) -> (v: Self)
        ensures
            v.kind == config.kind,
            v.base_url@ == config.base_url@,
            v.model@ == config.model@,
            v.has_key == has_key,
    {
        ConfigView {
            kind: config.kind,
            base_url: String::from_str(config.base_url.as_str()),
            model: String::from_str(config.model.as_str()),
            has_key,
        }
    }
}

/// A runaway model is stopped after this many rounds of tool calls.
pub const MAX_TOOL_ROUNDS: usize = 10;

/// The assistant's identity and standing rules, sent first every turn.
pub const SUREY_BRIEF: &'static str = "\
You are Surey, the AI assistant built into Co-watcher, a classroom/computer-lab control console. You \
help a teacher watch and manage student PCs. You can ACT on the class only through the provided tools \
(there is no shell and no file access). Be concise and concrete.

How to work:
- Start from list_devices to learn the PCs, their names and status. Only 'live' PCs can be acted on; \
if a PC is not connected, say so and suggest the teacher start watching it.
- Map the teacher's words to device_ids yourself (e.g. 'PC 4' is usually a device whose name contains \
'4'). If it is ambiguous, use ask_user to let them pick.
- Confirm DESTRUCTIVE or disruptive actions (shutdown, reboot, log-off, starting an exam lock) with \
ask_user before doing them. cancel-shutdown undoes a countdown.
- Prefer the least forceful tool that meets the goal (block a game rather than shut a PC down).
- Every action is logged and attributed on the student PC. Never claim an action succeeded if the \
tool reported it failed.";

/// The line the prompt gives one device: its id, its name (or `(unnamed)`) and its status.
pub open spec fn device_line(d: DeviceFacts) -> Seq<char> {
    "\n- "@ + d.device_id@ + " \u{2014} "@ + (match opt_chars(d.name) {
        Some(n) => n,
        None => "(unnamed)"@,
    }) + " \u{2014} "@ + status_name(d.status)
}

/// The lines of every device, in order.
pub open spec fn device_lines(ds: Seq<DeviceFacts>) -> Seq<char>
    decreases ds.len(),
{
    if ds.len() == 0 {
        Seq::empty()
    } else {
        device_lines(ds.drop_last()) + device_line(ds.last())
    }
}

/// The system prompt: the brief, then a live list of the paired PCs, so the model can map names
/// and ids without a first tool call.
pub open spec fn system_prompt_spec(devices: Seq<DeviceFacts>) -> Seq<char> {
    SUREY_BRIEF@ + "\n\nCurrently paired PCs (device_id \u{2014} name \u{2014} status):"@ + if devices.len()
        == 0 {
        "\n(none paired yet)"@
    } else {
        device_lines(devices)
    }
}

/// Builds the system prompt for the paired PCs.
pub fn system_prompt(devices: &[DeviceFacts]) -> (prompt: String)
    ensures
        prompt@ == system_prompt_spec(devices@),
{
    let mut prompt = String::from_str(SUREY_BRIEF);
    prompt.append("\n\nCurrently paired PCs (device_id \u{2014} name \u{2014} status):");
    if devices.len() == 0 {
        prompt.append("\n(none paired yet)");
        return prompt;
    }
    let ghost head = prompt@;
    let mut i: usize = 0;
    while i < devices.len()
        invariant
            i <= devices@.len(),
            prompt@ == head + device_lines(devices@.take(i as int)),
        decreases devices@.len() - i,
    {
        let d = &devices[i];
        prompt.append("\n- ");
        prompt.append(d.device_id.as_str());
        prompt.append(" \u{2014} ");
        match &d.name {
            Some(n) => prompt.append(n.as_str()),
            None => prompt.append("(unnamed)"),
        }
        prompt.append(" \u{2014} ");
        prompt.append(d.status.name());
        proof {
            let t = devices@.take(i as int + 1);
            assert(t.drop_last() =~= devices@.take(i as int));
            assert(prompt@ =~= head + device_lines(t));
        }
        i = i + 1;
    }
    assert(devices@.take(devices@.len() as int) =~= devices@);
    prompt
}


/// Whether a turn may start: every provider but a local server needs a key, and without one the
/// teacher is told where to add it.
pub fn check_key(kind: ProviderKind, has_key: bool) -> (r: Result<(), String>)
    ensures
        r is Ok <==> (has_key || kind == ProviderKind::Local),
        r matches Err(m) ==> m@ == "No API key set. Open Surey's settings and add your provider key."@,
{
    if !has_key && !matches!(kind, ProviderKind::Local) {
        return Err(String::from_str("No API key set. Open Surey's settings and add your provider key."));
    }
    Ok(())
}

/// What a turn does next.
pub enum TurnAction {
    /// Send the conversation to the model again.
    AskModel,
    /// Carry out the tool calls of the model's reply, in order, and record their results.
    RunTools,
    /// End the turn with this text.
    Finish(String),
}

/// The turn's decision on the model's reply: a reply with no tool calls ends the turn with its text
/// (or none); one with tool calls has them carried out.
pub fn after_reply(text: Option<String>, tool_calls: usize) -> (a: TurnAction)
    ensures
        tool_calls == 0 ==> (a matches TurnAction::Finish(t) && t@ == (match text {
            Some(x) => x@,
            None => Seq::<char>::empty(),
        })),
        tool_calls > 0 ==> a is RunTools,
{
    if tool_calls == 0 {
        match text {
            Some(t) => TurnAction::Finish(t),
            None => TurnAction::Finish(String::new()),
        }
    } else {
        TurnAction::RunTools
    }
}

/// The turn's decision once the tool calls of round `round` (counting from zero) are carried out:
/// the model is asked again, unless that was the last of [`MAX_TOOL_ROUNDS`] rounds; a runaway
/// model's turn then ends with no text.
pub fn after_tools(round: usize) -> (a: TurnAction)
    ensures
        round + 1 < MAX_TOOL_ROUNDS ==> a is AskModel,
        round + 1 >= MAX_TOOL_ROUNDS ==> (a matches TurnAction::Finish(t) && t@.len() == 0),
{
    if round < MAX_TOOL_ROUNDS - 1 {
        TurnAction::AskModel
    } else {
        TurnAction::Finish(String::new())
    }
}


} // verus!
