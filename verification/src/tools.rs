//! Reading the arguments of a tool call, and deciding what the call asks of the fleet.
//!
//! An AI model calls the console's fleet tools by name with a JSON object of arguments. The
//! application parses the JSON and hands the library the object's entries as plain values; the
//! library checks every argument and turns the call into one typed request, or into the message
//! the model reads and adapts to when an argument is missing or wrong. Unknown tools and unknown
//! actions are refused, never guessed. Carrying the request out over the network is the
//! application's part.

use crate::actions::{action_for, parse_action, Action};
use crate::encoding::{base64_decode_spec, base64_spec, lemma_base64_decodes_back};
use crate::text::{chars_of, is_word};
use base64::Engine;
use vstd::prelude::*;
use vstd::string::StringExecFns;

verus! {

/// One argument of a tool call, as the tools read it.
#[derive(Debug, Clone, PartialEq, Eq)]
pub enum ArgValue {
    /// A non-negative integer that fits 64 bits.
    Int(u64),
    /// A string.
    Str(String),
    /// A boolean.
    Bool(bool),
    /// An array: the text of each item that is a string, `None` for any other item.
    List(Vec<Option<String>>),
    /// Anything else: null, an object, a negative or fractional number.
    Other,
}

/// The entries of the argument object of a tool call, in order; empty where the arguments are not
/// an object.
#[derive(Debug, Clone, PartialEq, Eq)]
pub struct ToolArgs {
    pub entries: Vec<(String, ArgValue)>,
}

/// The value given for `key`, from entry `i` on: the first entry with that key.
pub open spec fn lookup_from(entries: Seq<(String, ArgValue)>, key: Seq<char>, i: int) -> Option<ArgValue>
    decreases entries.len() - i,
{
    if i < 0 || i >= entries.len() {
        None
    } else if entries[i].0@ == key {
        Some(entries[i].1)
    } else {
        lookup_from(entries, key, i + 1)
    }
}

/// The value given for `key`.
pub open spec fn arg(entries: Seq<(String, ArgValue)>, key: Seq<char>) -> Option<ArgValue> {
    lookup_from(entries, key, 0)
}

/// The text given for `key`, where it is a string.
pub open spec fn str_arg(entries: Seq<(String, ArgValue)>, key: Seq<char>) -> Option<Seq<char>> {
    match arg(entries, key) {
        Some(ArgValue::Str(s)) => Some(s@),
        _ => None,
    }
}

/// The number given for `key`, where it is an integer that fits 32 bits.
pub open spec fn u32_arg(entries: Seq<(String, ArgValue)>, key: Seq<char>) -> Option<u32> {
    match arg(entries, key) {
        Some(ArgValue::Int(n)) => if n <= u32::MAX {
            Some(n as u32)
        } else {
            None
        },
        _ => None,
    }
}

/// The number given for `key` where it is an integer that fits 8 bits, else `default`.
pub open spec fn u8_arg_or(entries: Seq<(String, ArgValue)>, key: Seq<char>, default: u8) -> u8 {
    match arg(entries, key) {
        Some(ArgValue::Int(n)) => if n <= u8::MAX {
            n as u8
        } else {
            default
        },
        _ => default,
    }
}

/// The number given for `key` where it is an integer that fits 16 bits, else `default`.
pub open spec fn u16_arg_or(entries: Seq<(String, ArgValue)>, key: Seq<char>, default: u16) -> u16 {
    match arg(entries, key) {
        Some(ArgValue::Int(n)) => if n <= u16::MAX {
            n as u16
        } else {
            default
        },
        _ => default,
    }
}

/// The boolean given for `key`.
pub open spec fn bool_arg(entries: Seq<(String, ArgValue)>, key: Seq<char>) -> Option<bool> {
    match arg(entries, key) {
        Some(ArgValue::Bool(b)) => Some(b),
        _ => None,
    }
}

/// The strings among `items`, in order.
pub open spec fn strings_of(items: Seq<Option<String>>) -> Seq<Seq<char>>
    decreases items.len(),
{
    if items.len() == 0 {
        Seq::empty()
    } else {
        let rest = strings_of(items.drop_last());
        match items.last() {
            Some(s) => rest.push(s@),
            None => rest,
        }
    }
}

/// The strings of the array given for `key`, where it is an array.
pub open spec fn list_arg(entries: Seq<(String, ArgValue)>, key: Seq<char>) -> Option<Seq<Seq<char>>> {
    match arg(entries, key) {
        Some(ArgValue::List(items)) => Some(strings_of(items@)),
        _ => None,
    }
}

/// The texts of some strings.
pub open spec fn texts(v: Seq<String>) -> Seq<Seq<char>> {
    v.map_values(|s: String| s@)
}

/// The message for a string argument that is missing or not a string.
pub open spec fn missing_string(key: Seq<char>) -> Seq<char> {
    "missing required string argument '"@ + key + "'"@
}

/// The message for an integer argument that is missing, not an integer, or out of range.
pub open spec fn missing_integer(key: Seq<char>) -> Seq<char> {
    "missing or out-of-range integer argument '"@ + key + "'"@
}

/// The message for a tool name that is not on the list.
pub open spec fn unknown_tool(name: Seq<char>) -> Seq<char> {
    "unknown tool '"@ + name + "'"@
}

/// The message for an action name that is not on the closed list.
pub open spec fn unknown_action(name: Seq<char>) -> Seq<char> {
    "unknown action '"@ + name + "'"@
}

impl ToolArgs {
    /// No arguments.
    pub fn new() -> (a: Self)
        ensures
            a.entries@.len() == 0,
    {
        ToolArgs { entries: Vec::new() }
    }

    /// Adds the argument `key` with `value` after the others.
    pub fn push(&mut self, key: &str, value: ArgValue)
        ensures
            final(self).entries@.len() == old(self).entries@.len() + 1,
            forall|i: int| 0 <= i < old(self).entries@.len() ==> final(self).entries@[i] == old(self).entries@[i],
            final(self).entries@.last().0@ == key@,
            final(self).entries@.last().1 == value,
    {
        self.entries.push((String::from_str(key), value));
    }

    /// The value given for `key`: that of the first entry with that key.
    pub fn get(&self, key: &str) -> (r: Option<&ArgValue>)
        ensures
            match r {
                Some(v) => arg(self.entries@, key@) == Some(*v),
                None => arg(self.entries@, key@) is None,
            },
    {
        let k = String::from_str(key);
        let mut i: usize = 0;
        while i < self.entries.len()
            invariant
                i <= self.entries@.len(),
                k@ == key@,
                arg(self.entries@, key@) == lookup_from(self.entries@, key@, i as int),
            decreases self.entries@.len() - i,
        {
            if self.entries[i].0 == k {
                return Some(&self.entries[i].1);
            }
            i = i + 1;
        }
        None
    }
}

fn quoted(prefix: &str, key: &str) -> (m: String)
    ensures
        m@ == prefix@ + key@ + "'"@,
{
    let mut m = String::from_str(prefix);
    m.append(key);
    m.append("'");
    m
}

/// The string argument `key`, or the message that it is missing.
pub fn arg_str(args: &ToolArgs, key: &str) -> (r: Result<String, String>)
    ensures
        match str_arg(args.entries@, key@) {
            Some(s) => r matches Ok(v) && v@ == s,
            None => r matches Err(m) && m@ == missing_string(key@),
        },
{
    match args.get(key) {
        Some(ArgValue::Str(s)) => Ok(String::from_str(s.as_str())),
        _ => Err(quoted("missing required string argument '", key)),
    }
}

/// The integer argument `key`, where it fits 32 bits, or the message that it is missing or out of
/// range.
pub fn arg_u32(args: &ToolArgs, key: &str) -> (r: Result<u32, String>)
    ensures
        match u32_arg(args.entries@, key@) {
            Some(n) => r == Ok::<u32, String>(n),
            None => r matches Err(m) && m@ == missing_integer(key@),
        },
{
    match args.get(key) {
        Some(ArgValue::Int(n)) => if *n <= u32::MAX as u64 {
            Ok(*n as u32)
        } else {
            Err(quoted("missing or out-of-range integer argument '", key))
        },
        _ => Err(quoted("missing or out-of-range integer argument '", key)),
    }
}

fn arg_u8_or(args: &ToolArgs, key: &str, default: u8) -> (n: u8)
    ensures
        n == u8_arg_or(args.entries@, key@, default),
{
    match args.get(key) {
        Some(ArgValue::Int(n)) => if *n <= u8::MAX as u64 {
            *n as u8
        } else {
            default
        },
        _ => default,
    }
}

fn arg_u16_or(args: &ToolArgs, key: &str, default: u16) -> (n: u16)
    ensures
        n == u16_arg_or(args.entries@, key@, default),
{
    match args.get(key) {
        Some(ArgValue::Int(n)) => if *n <= u16::MAX as u64 {
            *n as u16
        } else {
            default
        },
        _ => default,
    }
}

fn arg_bool(args: &ToolArgs, key: &str) -> (b: Option<bool>)
    ensures
        b == bool_arg(args.entries@, key@),
{
    match args.get(key) {
        Some(ArgValue::Bool(b)) => Some(*b),
        _ => None,
    }
}

fn arg_text_or_empty(args: &ToolArgs, key: &str) -> (s: String)
    ensures
        s@ == (match str_arg(args.entries@, key@) {
            Some(t) => t,
            None => Seq::empty(),
        }),
{
    match args.get(key) {
        Some(ArgValue::Str(s)) => String::from_str(s.as_str()),
        _ => String::new(),
    }
}

fn strings_in(items: &Vec<Option<String>>) -> (out: Vec<String>)
    ensures
        texts(out@) == strings_of(items@),
{
    let mut out: Vec<String> = Vec::new();
    let mut i: usize = 0;
    while i < items.len()
        invariant
            i <= items@.len(),
            texts(out@) == strings_of(items@.take(i as int)),
        decreases items@.len() - i,
    {
        proof {
            assert(items@.take(i as int + 1).drop_last() =~= items@.take(i as int));
        }
        let ghost before = out@;
        match &items[i] {
            Some(s) => {
                out.push(String::from_str(s.as_str()));
                proof {
                    assert(texts(out@) =~= texts(before).push(s@));
                }
            },
            None => {},
        }
        i = i + 1;
    }
    proof {
        assert(items@.take(items@.len() as int) =~= items@);
    }
    out
}

/// `base64::engine::general_purpose::STANDARD.decode`: the bytes `text` encodes, or the text of
/// the decoder's error. The engine requires canonical padding and refuses trailing bits, so it
/// accepts exactly the texts that are the standard padded encoding of some bytes, and gives those
/// bytes.
#[verifier::external_body]
fn decode_base64(text: &str) -> (r: Result<Vec<u8>, String>)
    ensures
        match r {
            Ok(bytes) => text@ == base64_spec(bytes@),
            Err(_) => forall|b: Seq<u8>| base64_spec(b) != text@,
        },
{
    base64::engine::general_purpose::STANDARD.decode(text).map_err(|e| e.to_string())
}

/// Why a tool call cannot be carried out.
pub enum PlanError {
    /// This message.
    Message(Seq<char>),
    /// The wallpaper is not valid base64: a message that starts so and then gives the decoder's
    /// reason.
    NotBase64,
}

/// Whether `m` is the message of `e`.
pub open spec fn message_of(m: Seq<char>, e: PlanError) -> bool {
    match e {
        PlanError::Message(t) => m == t,
        PlanError::NotBase64 => "image_base64 is not valid base64: "@.is_prefix_of(m),
    }
}

/// What a call of the fleet's tool server asks of one device, or of the fleet.
#[derive(Debug, Clone, PartialEq, Eq)]
pub enum FleetCall {
    ListDevices,
    DeviceStatus { device_id: String },
    ScreenThumbnail { device_id: String, monitor: u8, max_width: u16 },
    ListApps { device_id: String },
    ListRunning { device_id: String },
    LaunchApp { device_id: String, app_id: u32 },
    CloseApp { device_id: String, pid: u32 },
    SetBlocklist { device_id: String, programs: Vec<String> },
    PerformAction { device_id: String, action: Action },
    SetExam { device_id: String, on: bool, message: String },
    SetWallpaper { device_id: String, image: Vec<u8> },
    RecordingStatus { device_id: String },
    StartRecording { device_id: String, monitor: u8 },
    StopRecording { device_id: String },
    ListRecordings { device_id: String },
}

/// A [`FleetCall`] as values.
pub enum FleetRequest {
    ListDevices,
    DeviceStatus(Seq<char>),
    ScreenThumbnail(Seq<char>, u8, u16),
    ListApps(Seq<char>),
    ListRunning(Seq<char>),
    LaunchApp(Seq<char>, u32),
    CloseApp(Seq<char>, u32),
    SetBlocklist(Seq<char>, Seq<Seq<char>>),
    PerformAction(Seq<char>, Action),
    SetExam(Seq<char>, bool, Seq<char>),
    SetWallpaper(Seq<char>, Seq<u8>),
    RecordingStatus(Seq<char>),
    StartRecording(Seq<char>, u8),
    StopRecording(Seq<char>),
    ListRecordings(Seq<char>),
}

impl View for FleetCall {
    type V = FleetRequest;

    open spec fn view(&self) -> FleetRequest {
        match self {
            FleetCall::ListDevices => FleetRequest::ListDevices,
            FleetCall::DeviceStatus { device_id } => FleetRequest::DeviceStatus(device_id@),
            FleetCall::ScreenThumbnail { device_id, monitor, max_width } => FleetRequest::ScreenThumbnail(
                device_id@,
                *monitor,
                *max_width,
            ),
            FleetCall::ListApps { device_id } => FleetRequest::ListApps(device_id@),
            FleetCall::ListRunning { device_id } => FleetRequest::ListRunning(device_id@),
            FleetCall::LaunchApp { device_id, app_id } => FleetRequest::LaunchApp(device_id@, *app_id),
            FleetCall::CloseApp { device_id, pid } => FleetRequest::CloseApp(device_id@, *pid),
            FleetCall::SetBlocklist { device_id, programs } => FleetRequest::SetBlocklist(
                device_id@,
                texts(programs@),
            ),
            FleetCall::PerformAction { device_id, action } => FleetRequest::PerformAction(
                device_id@,
                *action,
            ),
            FleetCall::SetExam { device_id, on, message } => FleetRequest::SetExam(
                device_id@,
                *on,
                message@,
            ),
            FleetCall::SetWallpaper { device_id, image } => FleetRequest::SetWallpaper(
                device_id@,
                image@,
            ),
            FleetCall::RecordingStatus { device_id } => FleetRequest::RecordingStatus(device_id@),
            FleetCall::StartRecording { device_id, monitor } => FleetRequest::StartRecording(
                device_id@,
                *monitor,
            ),
            FleetCall::StopRecording { device_id } => FleetRequest::StopRecording(device_id@),
            FleetCall::ListRecordings { device_id } => FleetRequest::ListRecordings(device_id@),
        }
    }
}

/// The device a call names, or why it names none.
pub open spec fn device_arg(e: Seq<(String, ArgValue)>) -> Result<Seq<char>, PlanError> {
    match str_arg(e, "device_id"@) {
        Some(d) => Ok(d),
        None => Err(PlanError::Message(missing_string("device_id"@))),
    }
}

/// `make` applied to the device the call names, or why it names none.
pub open spec fn on_device<R>(e: Seq<(String, ArgValue)>, make: spec_fn(Seq<char>) -> R) -> Result<
    R,
    PlanError,
> {
    match device_arg(e) {
        Ok(d) => Ok(make(d)),
        Err(err) => Err(err),
    }
}

/// The text given for `key` where it is a string, else nothing.
pub open spec fn text_or_empty(e: Seq<(String, ArgValue)>, key: Seq<char>) -> Seq<char> {
    match str_arg(e, key) {
        Some(t) => t,
        None => Seq::empty(),
    }
}

/// What the fleet's tool server does for the tool `name` with arguments `e`: the arguments of each
/// tool are read in a fixed order, those it needs before the device it acts on, and the first
/// missing or wrong one gives the message.
pub open spec fn fleet_plan(name: Seq<char>, e: Seq<(String, ArgValue)>) -> Result<FleetRequest, PlanError> {
    if name == "list_devices"@ {
        Ok(FleetRequest::ListDevices)
    } else if name == "device_status"@ {
        on_device(e, |d: Seq<char>| FleetRequest::DeviceStatus(d))
    } else if name == "screen_thumbnail"@ {
        on_device(
            e,
            |d: Seq<char>|
                FleetRequest::ScreenThumbnail(
                    d,
                    u8_arg_or(e, "monitor"@, 0),
                    u16_arg_or(e, "max_width"@, 640),
                ),
        )
    } else if name == "list_apps"@ {
        on_device(e, |d: Seq<char>| FleetRequest::ListApps(d))
    } else if name == "list_running"@ {
        on_device(e, |d: Seq<char>| FleetRequest::ListRunning(d))
    } else if name == "launch_app"@ {
        match u32_arg(e, "app_id"@) {
            None => Err(PlanError::Message(missing_integer("app_id"@))),
            Some(id) => on_device(e, |d: Seq<char>| FleetRequest::LaunchApp(d, id)),
        }
    } else if name == "close_app"@ {
        match u32_arg(e, "pid"@) {
            None => Err(PlanError::Message(missing_integer("pid"@))),
            Some(pid) => on_device(e, |d: Seq<char>| FleetRequest::CloseApp(d, pid)),
        }
    } else if name == "set_blocklist"@ {
        match list_arg(e, "programs"@) {
            None => Err(PlanError::Message("missing required array argument 'programs'"@)),
            Some(p) => on_device(e, |d: Seq<char>| FleetRequest::SetBlocklist(d, p)),
        }
    } else if name == "perform_action"@ {
        match str_arg(e, "action"@) {
            None => Err(PlanError::Message(missing_string("action"@))),
            Some(a) => match action_for(a, u16_arg_or(e, "delay_seconds"@, 0)) {
                None => Err(PlanError::Message(unknown_action(a))),
                Some(act) => on_device(e, |d: Seq<char>| FleetRequest::PerformAction(d, act)),
            },
        }
    } else if name == "set_exam"@ {
        match bool_arg(e, "on"@) {
            None => Err(PlanError::Message("missing required boolean argument 'on'"@)),
            Some(on) => on_device(
                e,
                |d: Seq<char>| FleetRequest::SetExam(d, on, text_or_empty(e, "message"@)),
            ),
        }
    } else if name == "set_wallpaper"@ {
        match str_arg(e, "image_base64"@) {
            None => Err(PlanError::Message(missing_string("image_base64"@))),
            Some(t) => match base64_decode_spec(t) {
                None => Err(PlanError::NotBase64),
                Some(image) => if image.len() == 0 {
                    Err(PlanError::Message("image_base64 decoded to no bytes"@))
                } else {
                    on_device(e, |d: Seq<char>| FleetRequest::SetWallpaper(d, image))
                },
            },
        }
    } else if name == "recording_status"@ {
        on_device(e, |d: Seq<char>| FleetRequest::RecordingStatus(d))
    } else if name == "start_recording"@ {
        on_device(e, |d: Seq<char>| FleetRequest::StartRecording(d, u8_arg_or(e, "monitor"@, 0)))
    } else if name == "stop_recording"@ {
        on_device(e, |d: Seq<char>| FleetRequest::StopRecording(d))
    } else if name == "list_recordings"@ {
        on_device(e, |d: Seq<char>| FleetRequest::ListRecordings(d))
    } else {
        Err(PlanError::Message(unknown_tool(name)))
    }
}

/// Whether `r` is what `plan` says, the call by its values and an error by its message.
pub open spec fn follows<C: View>(r: Result<C, String>, plan: Result<C::V, PlanError>) -> bool {
    match (r, plan) {
        (Ok(c), Ok(v)) => c@ == v,
        (Err(m), Err(e)) => message_of(m@, e),
        _ => false,
    }
}

fn message(text: &str) -> (m: String)
    ensures
        m@ == text@,
{
    String::from_str(text)
}

/// Decides what one call of the fleet's tool server asks for: the tool `name` with arguments
/// `args`, or the message the calling model reads when the tool is unknown or an argument is
/// missing or wrong.
pub fn plan_fleet_call(name: &str, args: &ToolArgs) -> (r: Result<FleetCall, String>)
    ensures
        follows(r, fleet_plan(name@, args.entries@)),
{
    proof {
        reveal_strlit("list_devices");
        reveal_strlit("device_status");
        reveal_strlit("screen_thumbnail");
        reveal_strlit("list_apps");
        reveal_strlit("list_running");
        reveal_strlit("launch_app");
        reveal_strlit("close_app");
        reveal_strlit("set_blocklist");
        reveal_strlit("perform_action");
        reveal_strlit("set_exam");
        reveal_strlit("set_wallpaper");
        reveal_strlit("recording_status");
        reveal_strlit("start_recording");
        reveal_strlit("stop_recording");
        reveal_strlit("list_recordings");
        assert("list_devices"@.len() == 12);
        assert("device_status"@.len() == 13);
        assert("screen_thumbnail"@.len() == 16);
        assert("list_apps"@.len() == 9);
        assert("list_running"@.len() == 12);
        assert("launch_app"@.len() == 10);
        assert("close_app"@.len() == 9);
        assert("set_blocklist"@.len() == 13);
        assert("perform_action"@.len() == 14);
        assert("set_exam"@.len() == 8);
        assert("set_wallpaper"@.len() == 13);
        assert("recording_status"@.len() == 16);
        assert("start_recording"@.len() == 15);
        assert("stop_recording"@.len() == 14);
        assert("list_recordings"@.len() == 15);
        assert("close_app"@[0] == 'c');
        assert("device_status"@[0] == 'd');
        assert("list_apps"@[0] == 'l');
        assert("list_devices"@[5] == 'd');
        assert("list_recordings"@[0] == 'l');
        assert("list_running"@[5] == 'r');
        assert("perform_action"@[0] == 'p');
        assert("recording_status"@[0] == 'r');
        assert("screen_thumbnail"@[0] == 's');
        assert("set_blocklist"@[0] == 's');
        assert("set_blocklist"@[4] == 'b');
        assert("set_wallpaper"@[0] == 's');
        assert("set_wallpaper"@[4] == 'w');
        assert("start_recording"@[0] == 's');
        assert("stop_recording"@[0] == 's');
    }
    let v = chars_of(name);
    if is_word(&v, "list_devices") {
        return Ok(FleetCall::ListDevices);
    }
    if is_word(&v, "screen_thumbnail") {
        let monitor = arg_u8_or(args, "monitor", 0);
        let max_width = arg_u16_or(args, "max_width", 640);
        let device_id = arg_str(args, "device_id")?;
        return Ok(FleetCall::ScreenThumbnail { device_id, monitor, max_width });
    }
    if is_word(&v, "launch_app") {
        let app_id = arg_u32(args, "app_id")?;
        let device_id = arg_str(args, "device_id")?;
        return Ok(FleetCall::LaunchApp { device_id, app_id });
    }
    if is_word(&v, "close_app") {
        let pid = arg_u32(args, "pid")?;
        let device_id = arg_str(args, "device_id")?;
        return Ok(FleetCall::CloseApp { device_id, pid });
    }
    if is_word(&v, "set_blocklist") {
        let programs = match args.get("programs") {
            Some(ArgValue::List(items)) => strings_in(items),
            _ => {
                return Err(message("missing required array argument 'programs'"));
            },
        };
        let device_id = arg_str(args, "device_id")?;
        return Ok(FleetCall::SetBlocklist { device_id, programs });
    }
    if is_word(&v, "perform_action") {
        let action_name = arg_str(args, "action")?;
        let delay = arg_u16_or(args, "delay_seconds", 0);
        let action = match parse_action(action_name.as_str(), delay) {
            Some(a) => a,
            None => {
                let mut m = message("unknown action '");
                m.append(action_name.as_str());
                m.append("'");
                return Err(m);
            },
        };
        let device_id = arg_str(args, "device_id")?;
        return Ok(FleetCall::PerformAction { device_id, action });
    }
    if is_word(&v, "set_exam") {
        let on = match arg_bool(args, "on") {
            Some(b) => b,
            None => {
                return Err(message("missing required boolean argument 'on'"));
            },
        };
        let text = arg_text_or_empty(args, "message");
        let device_id = arg_str(args, "device_id")?;
        return Ok(FleetCall::SetExam { device_id, on, message: text });
    }
    if is_word(&v, "set_wallpaper") {
        let encoded = arg_str(args, "image_base64")?;
        let image = match decode_base64(encoded.as_str()) {
            Ok(bytes) => {
                proof {
                    lemma_base64_decodes_back(bytes@);
                }
                bytes
            },
            Err(reason) => {
                let mut m = message("image_base64 is not valid base64: ");
                m.append(reason.as_str());
                proof {
                    reveal_strlit("image_base64 is not valid base64: ");
                }
                return Err(m);
            },
        };
        if image.len() == 0 {
            return Err(message("image_base64 decoded to no bytes"));
        }
        let device_id = arg_str(args, "device_id")?;
        return Ok(FleetCall::SetWallpaper { device_id, image });
    }
    if is_word(&v, "start_recording") {
        let monitor = arg_u8_or(args, "monitor", 0);
        let device_id = arg_str(args, "device_id")?;
        return Ok(FleetCall::StartRecording { device_id, monitor });
    }
    let on_one = is_word(&v, "device_status") || is_word(&v, "list_apps") || is_word(
        &v,
        "list_running",
    ) || is_word(&v, "recording_status") || is_word(&v, "stop_recording") || is_word(
        &v,
        "list_recordings",
    );
    if !on_one {
        let mut m = message("unknown tool '");
        m.append(name);
        m.append("'");
        return Err(m);
    }
    let device_id = arg_str(args, "device_id")?;
    if is_word(&v, "device_status") {
        Ok(FleetCall::DeviceStatus { device_id })
    } else if is_word(&v, "list_apps") {
        Ok(FleetCall::ListApps { device_id })
    } else if is_word(&v, "list_running") {
        Ok(FleetCall::ListRunning { device_id })
    } else if is_word(&v, "recording_status") {
        Ok(FleetCall::RecordingStatus { device_id })
    } else if is_word(&v, "stop_recording") {
        Ok(FleetCall::StopRecording { device_id })
    } else {
        Ok(FleetCall::ListRecordings { device_id })
    }
}

/// What a call of the console assistant's tools asks of the console.
#[derive(Debug, Clone, PartialEq, Eq)]
pub enum AiCall {
    ListDevices,
    /// A power or lock action, for the listed devices, or for every connected one where none is
    /// listed.
    PowerAction { action: Action, targets: Vec<String> },
    SetExam { device_id: String, on: bool, message: String },
    ListApps { device_id: String },
    LaunchApp { device_id: String, app_id: u32 },
    ListRunning { device_id: String },
    CloseApp { device_id: String, pid: u32 },
    SetBlocklist { programs: Vec<String> },
    StartRecording { device_id: String },
    StopRecording { device_id: String },
    RecordingStatus { device_id: String },
}

/// An [`AiCall`] as values.
pub enum AiRequest {
    ListDevices,
    PowerAction(Action, Seq<Seq<char>>),
    SetExam(Seq<char>, bool, Seq<char>),
    ListApps(Seq<char>),
    LaunchApp(Seq<char>, u32),
    ListRunning(Seq<char>),
    CloseApp(Seq<char>, u32),
    SetBlocklist(Seq<Seq<char>>),
    StartRecording(Seq<char>),
    StopRecording(Seq<char>),
    RecordingStatus(Seq<char>),
}

impl View for AiCall {
    type V = AiRequest;

    open spec fn view(&self) -> AiRequest {
        match self {
            AiCall::ListDevices => AiRequest::ListDevices,
            AiCall::PowerAction { action, targets } => AiRequest::PowerAction(*action, texts(targets@)),
            AiCall::SetExam { device_id, on, message } => AiRequest::SetExam(device_id@, *on, message@),
            AiCall::ListApps { device_id } => AiRequest::ListApps(device_id@),
            AiCall::LaunchApp { device_id, app_id } => AiRequest::LaunchApp(device_id@, *app_id),
            AiCall::ListRunning { device_id } => AiRequest::ListRunning(device_id@),
            AiCall::CloseApp { device_id, pid } => AiRequest::CloseApp(device_id@, *pid),
            AiCall::SetBlocklist { programs } => AiRequest::SetBlocklist(texts(programs@)),
            AiCall::StartRecording { device_id } => AiRequest::StartRecording(device_id@),
            AiCall::StopRecording { device_id } => AiRequest::StopRecording(device_id@),
            AiCall::RecordingStatus { device_id } => AiRequest::RecordingStatus(device_id@),
        }
    }
}

/// The tool the assistant's orchestrator answers itself, by asking the teacher.
pub const ASK_USER: &'static str = "ask_user";

/// What the console does for the assistant's tool `name` with arguments `e`. The device comes
/// first where a tool acts on one; `ask_user` is not a fleet tool.
pub open spec fn ai_plan(name: Seq<char>, e: Seq<(String, ArgValue)>) -> Result<AiRequest, PlanError> {
    if name == "list_devices"@ {
        Ok(AiRequest::ListDevices)
    } else if name == "power_action"@ {
        match str_arg(e, "action"@) {
            None => Err(PlanError::Message(missing_string("action"@))),
            Some(a) => match action_for(a, u16_arg_or(e, "delay_seconds"@, 0)) {
                None => Err(PlanError::Message(unknown_action(a))),
                Some(act) => Ok(
                    AiRequest::PowerAction(
                        act,
                        match list_arg(e, "targets"@) {
                            Some(t) => t,
                            None => Seq::empty(),
                        },
                    ),
                ),
            },
        }
    } else if name == "set_exam"@ {
        match device_arg(e) {
            Err(err) => Err(err),
            Ok(d) => match bool_arg(e, "on"@) {
                None => Err(PlanError::Message("missing boolean 'on'"@)),
                Some(on) => Ok(AiRequest::SetExam(d, on, text_or_empty(e, "message"@))),
            },
        }
    } else if name == "list_apps"@ {
        on_device(e, |d: Seq<char>| AiRequest::ListApps(d))
    } else if name == "launch_app"@ {
        match device_arg(e) {
            Err(err) => Err(err),
            Ok(d) => match u32_arg(e, "app_id"@) {
                None => Err(PlanError::Message(missing_integer("app_id"@))),
                Some(id) => Ok(AiRequest::LaunchApp(d, id)),
            },
        }
    } else if name == "list_running"@ {
        on_device(e, |d: Seq<char>| AiRequest::ListRunning(d))
    } else if name == "close_app"@ {
        match device_arg(e) {
            Err(err) => Err(err),
            Ok(d) => match u32_arg(e, "pid"@) {
                None => Err(PlanError::Message(missing_integer("pid"@))),
                Some(pid) => Ok(AiRequest::CloseApp(d, pid)),
            },
        }
    } else if name == "set_blocklist"@ {
        match list_arg(e, "programs"@) {
            None => Err(PlanError::Message("missing array 'programs'"@)),
            Some(p) => Ok(AiRequest::SetBlocklist(p)),
        }
    } else if name == "start_recording"@ {
        on_device(e, |d: Seq<char>| AiRequest::StartRecording(d))
    } else if name == "stop_recording"@ {
        on_device(e, |d: Seq<char>| AiRequest::StopRecording(d))
    } else if name == "recording_status"@ {
        on_device(e, |d: Seq<char>| AiRequest::RecordingStatus(d))
    } else if name == "ask_user"@ {
        Err(PlanError::Message("ask_user is handled by the orchestrator"@))
    } else {
        Err(PlanError::Message(unknown_tool(name)))
    }
}

/// Decides what one call of the assistant's tools asks of the console: the tool `name` with
/// arguments `args`, or the message the model reads when the tool is unknown or an argument is
/// missing or wrong.
pub fn plan_ai_call(name: &str, args: &ToolArgs) -> (r: Result<AiCall, String>)
    ensures
        follows(r, ai_plan(name@, args.entries@)),
{
    proof {
        reveal_strlit("list_devices");
        reveal_strlit("power_action");
        reveal_strlit("set_exam");
        reveal_strlit("list_apps");
        reveal_strlit("launch_app");
        reveal_strlit("list_running");
        reveal_strlit("close_app");
        reveal_strlit("set_blocklist");
        reveal_strlit("start_recording");
        reveal_strlit("stop_recording");
        reveal_strlit("recording_status");
        reveal_strlit("ask_user");
        assert("list_devices"@.len() == 12);
        assert("power_action"@.len() == 12);
        assert("set_exam"@.len() == 8);
        assert("list_apps"@.len() == 9);
        assert("launch_app"@.len() == 10);
        assert("list_running"@.len() == 12);
        assert("close_app"@.len() == 9);
        assert("set_blocklist"@.len() == 13);
        assert("start_recording"@.len() == 15);
        assert("stop_recording"@.len() == 14);
        assert("recording_status"@.len() == 16);
        assert("ask_user"@.len() == 8);
        assert("ask_user"@[0] == 'a');
        assert("close_app"@[0] == 'c');
        assert("list_apps"@[0] == 'l');
        assert("list_devices"@[0] == 'l');
        assert("list_devices"@[5] == 'd');
        assert("list_running"@[0] == 'l');
        assert("list_running"@[5] == 'r');
        assert("power_action"@[0] == 'p');
        assert("set_exam"@[0] == 's');
    }
    let v = chars_of(name);
    if is_word(&v, "list_devices") {
        return Ok(AiCall::ListDevices);
    }
    if is_word(&v, "power_action") {
        let action_name = arg_str(args, "action")?;
        let delay = arg_u16_or(args, "delay_seconds", 0);
        let action = match parse_action(action_name.as_str(), delay) {
            Some(a) => a,
            None => {
                let mut m = message("unknown action '");
                m.append(action_name.as_str());
                m.append("'");
                return Err(m);
            },
        };
        let targets = match args.get("targets") {
            Some(ArgValue::List(items)) => strings_in(items),
            _ => {
                let none: Vec<String> = Vec::new();
                proof {
                    assert(texts(none@) =~= Seq::<Seq<char>>::empty());
                }
                none
            },
        };
        return Ok(AiCall::PowerAction { action, targets });
    }
    if is_word(&v, "set_blocklist") {
        return match args.get("programs") {
            Some(ArgValue::List(items)) => Ok(AiCall::SetBlocklist { programs: strings_in(items) }),
            _ => Err(message("missing array 'programs'")),
        };
    }
    if is_word(&v, "ask_user") {
        return Err(message("ask_user is handled by the orchestrator"));
    }
    let known = is_word(&v, "set_exam") || is_word(&v, "list_apps") || is_word(&v, "launch_app")
        || is_word(&v, "list_running") || is_word(&v, "close_app") || is_word(&v, "start_recording")
        || is_word(&v, "stop_recording") || is_word(&v, "recording_status");
    if !known {
        let mut m = message("unknown tool '");
        m.append(name);
        m.append("'");
        return Err(m);
    }
    let device_id = arg_str(args, "device_id")?;
    if is_word(&v, "set_exam") {
        let on = match arg_bool(args, "on") {
            Some(b) => b,
            None => {
                return Err(message("missing boolean 'on'"));
            },
        };
        let text = arg_text_or_empty(args, "message");
        Ok(AiCall::SetExam { device_id, on, message: text })
    } else if is_word(&v, "list_apps") {
        Ok(AiCall::ListApps { device_id })
    } else if is_word(&v, "launch_app") {
        let app_id = arg_u32(args, "app_id")?;
        Ok(AiCall::LaunchApp { device_id, app_id })
    } else if is_word(&v, "list_running") {
        Ok(AiCall::ListRunning { device_id })
    } else if is_word(&v, "close_app") {
        let pid = arg_u32(args, "pid")?;
        Ok(AiCall::CloseApp { device_id, pid })
    } else if is_word(&v, "start_recording") {
        Ok(AiCall::StartRecording { device_id })
    } else if is_word(&v, "stop_recording") {
        Ok(AiCall::StopRecording { device_id })
    } else {
        Ok(AiCall::RecordingStatus { device_id })
    }
}

} // verus!
