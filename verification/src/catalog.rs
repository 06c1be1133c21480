//! The tool catalogues offered to a model: the fleet's tool server and the console's assistant.
//!
//! Each catalogue lists a tool by name with a description and the arguments it takes. What a
//! catalogue offers is exactly what the matching planner in [`crate::tools`] carries out: every
//! listed name is planned, and every other name is refused as an unknown tool.

use crate::actions::action_for;
use crate::tools::{
    ai_plan, fleet_plan, missing_integer, missing_string, texts, unknown_action, unknown_tool,
    AiRequest, ArgValue, FleetRequest, PlanError,
};
use vstd::prelude::*;
use vstd::string::StringExecFns;

verus! {

/// The JSON type of an argument.
#[derive(Debug, Clone, Copy, PartialEq, Eq, Structural)]
pub enum ParamType {
    /// A string.
    Text,
    /// A whole number.
    Integer,
    /// `true` or `false`.
    Boolean,
    /// A list of strings.
    TextList,
}

/// One argument of a tool.
#[derive(Debug, Clone)]
pub struct Param {
    /// The argument's key.
    pub name: String,
    /// Its JSON type.
    pub kind: ParamType,
    /// What it means, for the model, where the schema says.
    pub description: Option<String>,
    /// The smallest number allowed, where the schema says.
    pub minimum: Option<u64>,
    /// The largest number allowed, where the schema says.
    pub maximum: Option<u64>,
    /// The only strings allowed, in order; empty where any string is.
    pub choices: Vec<String>,
    /// Whether a call must give it.
    pub required: bool,
}

/// One tool of a catalogue.
#[derive(Debug, Clone)]
pub struct ToolSpec {
    /// The name a call gives.
    pub name: String,
    /// What it does (the model reads this).
    pub description: String,
    /// Its arguments, in order.
    pub params: Vec<Param>,
}


/// What an argument says: its key, type, description, bounds, choices and whether it is required.
pub struct ParamView {
    pub name: Seq<char>,
    pub kind: ParamType,
    pub description: Option<Seq<char>>,
    pub minimum: Option<u64>,
    pub maximum: Option<u64>,
    pub choices: Seq<Seq<char>>,
    pub required: bool,
}

impl View for Param {
    type V = ParamView;

    open spec fn view(&self) -> ParamView {
        ParamView {
            name: self.name@,
            kind: self.kind,
            description: match self.description {
                Some(d) => Some(d@),
                None => None,
            },
            minimum: self.minimum,
            maximum: self.maximum,
            choices: texts(self.choices@),
            required: self.required,
        }
    }
}

/// What a tool says: its name, description and arguments.
pub struct ToolView {
    pub name: Seq<char>,
    pub description: Seq<char>,
    pub params: Seq<ParamView>,
}

/// The views of a list of arguments.
pub open spec fn param_views(params: Seq<Param>) -> Seq<ParamView> {
    Seq::new(params.len(), |i: int| params[i]@)
}

impl View for ToolSpec {
    type V = ToolView;

    open spec fn view(&self) -> ToolView {
        ToolView {
            name: self.name@,
            description: self.description@,
            params: param_views(self.params@),
        }
    }
}

/// The views of the tools of a catalogue, in order.
pub open spec fn tool_views(tools: Seq<ToolSpec>) -> Seq<ToolView> {
    Seq::new(tools.len(), |i: int| tools[i]@)
}

/// An argument with no description, bounds or choices.
pub open spec fn arg_view(name: Seq<char>, kind: ParamType, required: bool) -> ParamView {
    ParamView {
        name,
        kind,
        description: None,
        minimum: None,
        maximum: None,
        choices: Seq::empty(),
        required,
    }
}

/// An argument with a description.
pub open spec fn described_view(
    name: Seq<char>,
    kind: ParamType,
    description: Seq<char>,
    required: bool,
) -> ParamView {
    ParamView {
        name,
        kind,
        description: Some(description),
        minimum: None,
        maximum: None,
        choices: Seq::empty(),
        required,
    }
}

/// An optional integer argument with bounds and, where given, a description.
pub open spec fn bounded_view(
    name: Seq<char>,
    description: Option<Seq<char>>,
    minimum: u64,
    maximum: Option<u64>,
) -> ParamView {
    ParamView {
        name,
        kind: ParamType::Integer,
        description,
        minimum: Some(minimum),
        maximum,
        choices: Seq::empty(),
        required: false,
    }
}

/// The required `action` argument, one of the actions a PC performs.
pub open spec fn action_view() -> ParamView {
    ParamView {
        name: "action"@,
        kind: ParamType::Text,
        description: None,
        minimum: None,
        maximum: None,
        choices: action_choice_names(),
        required: true,
    }
}

/// A tool.
pub open spec fn tool_view(name: Seq<char>, description: Seq<char>, params: Seq<ParamView>) -> ToolView {
    ToolView { name, description, params }
}

/// The fleet server's `device_id` argument.
pub open spec fn fleet_device_view() -> ParamView {
    described_view(
        "device_id"@,
        ParamType::Text,
        "Six-character device id from list_devices, e.g. K7M2Q9."@,
        true,
    )
}

/// A fleet tool that takes only the device it acts on.
pub open spec fn fleet_device_tool_view(name: Seq<char>, description: Seq<char>) -> ToolView {
    tool_view(name, description, seq![fleet_device_view()])
}

/// The assistant's `device_id` argument.
pub open spec fn ai_device_view() -> ParamView {
    described_view("device_id"@, ParamType::Text, "A device_id from list_devices."@, true)
}

/// An assistant tool that takes only the device it acts on.
pub open spec fn ai_device_tool_view(name: Seq<char>, description: Seq<char>) -> ToolView {
    tool_view(name, description, seq![ai_device_view()])
}

/// An optional text as characters.
pub open spec fn opt_chars(o: Option<&str>) -> Option<Seq<char>> {
    match o {
        Some(t) => Some(t@),
        None => None,
    }
}

/// The names of the tools of a catalogue, in order.
pub open spec fn tool_names(tools: Seq<ToolSpec>) -> Seq<Seq<char>> {
    Seq::new(tools.len(), |i: int| tools[i].name@)
}

/// The tools the fleet's tool server offers.
pub open spec fn fleet_tool_names() -> Seq<Seq<char>> {
    seq![
        "list_devices"@,
        "device_status"@,
        "screen_thumbnail"@,
        "list_apps"@,
        "list_running"@,
        "launch_app"@,
        "close_app"@,
        "set_blocklist"@,
        "perform_action"@,
        "set_exam"@,
        "set_wallpaper"@,
        "recording_status"@,
        "start_recording"@,
        "stop_recording"@,
        "list_recordings"@,
    ]
}

/// The tools the console's assistant is offered; `ask_user` is answered by the teacher.
pub open spec fn ai_tool_names() -> Seq<Seq<char>> {
    seq![
        "list_devices"@,
        "power_action"@,
        "set_exam"@,
        "list_apps"@,
        "launch_app"@,
        "list_running"@,
        "close_app"@,
        "set_blocklist"@,
        "start_recording"@,
        "stop_recording"@,
        "recording_status"@,
        "ask_user"@,
    ]
}

/// The fleet server's catalogue, tool by tool: name, description and arguments.
pub open spec fn fleet_catalog() -> Seq<ToolView> {
    seq![
        tool_view(
            "list_devices"@,
            "List every paired student PC (id and teacher-given name). Does not connect, so it does \
             not tell you which are online — use device_status for that."@,
            Seq::empty(),
        ),
        fleet_device_tool_view(
            "device_status"@,
            "Connect to one PC and report whether it is online and which monitors it has. Use this to \
             confirm a PC is reachable before acting on it."@,
        ),
        tool_view(
            "screen_thumbnail"@,
            "Capture a JPEG thumbnail of a student's screen and return it as an image, so you can see \
             what the student is doing before deciding what to do."@,
            seq![
                fleet_device_view(),
                bounded_view("monitor"@, Some("Monitor index (default 0)."@), 0, None),
                bounded_view("max_width"@, Some("Max width in pixels (default 640)."@), 64, Some(3840)),
            ],
        ),
        fleet_device_tool_view(
            "list_apps"@,
            "List the programs a PC offers to launch (each has an id for launch_app)."@,
        ),
        fleet_device_tool_view(
            "list_running"@,
            "List the programs currently running on a PC that a teacher may close (with their pids)."@,
        ),
        tool_view(
            "launch_app"@,
            "Start one of the programs the PC published (by the id from list_apps). A PC can only run \
             what it itself published — there is no way to run an arbitrary path."@,
            seq![
                fleet_device_view(),
                described_view("app_id"@, ParamType::Integer, "An id from list_apps."@, true),
            ],
        ),
        tool_view(
            "close_app"@,
            "Close a running program by its pid (from list_running). System-critical processes are \
             refused by the Agent."@,
            seq![
                fleet_device_view(),
                described_view("pid"@, ParamType::Integer, "A pid from list_running."@, true),
            ],
        ),
        tool_view(
            "set_blocklist"@,
            "Replace the set of program names blocked on a PC (an empty list clears it). Blocked \
             programs are closed if a student launches them."@,
            seq![
                fleet_device_view(),
                described_view(
                    "programs"@,
                    ParamType::TextList,
                    "Executable names to block, e.g. [\"game.exe\", \"steam.exe\"]."@,
                    true,
                ),
            ],
        ),
        tool_view(
            "perform_action"@,
            "Perform one power/lock action on a PC. DESTRUCTIVE actions (shutdown, reboot, log-off) \
             interrupt the student — confirm with the teacher first. Allowed actions: shutdown, \
             reboot, log-off, lock-screen, cancel-shutdown, lock-wallpaper, unlock-wallpaper."@,
            seq![
                fleet_device_view(),
                action_view(),
                bounded_view(
                    "delay_seconds"@,
                    Some("Countdown for shutdown/reboot (default 0)."@),
                    0,
                    Some(3600),
                ),
            ],
        ),
        tool_view(
            "set_exam"@,
            "Start or end exam lockdown on a PC: a fullscreen lock on a separate desktop the student \
             cannot Alt+Tab or Win-key away from. This seizes the student's screen — confirm intent."@,
            seq![
                fleet_device_view(),
                described_view("on"@, ParamType::Boolean, "True to lock, false to release."@, true),
                described_view("message"@, ParamType::Text, "Message shown on the lock (when on)."@, false),
            ],
        ),
        tool_view(
            "set_wallpaper"@,
            "Set a PC's desktop wallpaper to an image you supply as base64 (PNG, JPEG or BMP bytes)."@,
            seq![
                fleet_device_view(),
                described_view(
                    "image_base64"@,
                    ParamType::Text,
                    "The image file's bytes, base64-encoded."@,
                    true,
                ),
            ],
        ),
        fleet_device_tool_view(
            "recording_status"@,
            "Report whether a PC is currently recording its screen, and the running frame count."@,
        ),
        tool_view(
            "start_recording"@,
            "Start recording a PC's screen to a file on that PC (default codec/size/rate). The teacher \
             collects the file later from the Console."@,
            seq![fleet_device_view(), bounded_view("monitor"@, Some("Monitor index (default 0)."@), 0, None)],
        ),
        fleet_device_tool_view(
            "stop_recording"@,
            "Stop the recording on a PC and report the final state."@,
        ),
        fleet_device_tool_view(
            "list_recordings"@,
            "List the recordings already stored on a PC (file name and size)."@,
        ),
    ]
}

/// The assistant's catalogue, tool by tool: name, description and arguments.
pub open spec fn ai_catalog() -> Seq<ToolView> {
    seq![
        tool_view(
            "list_devices"@,
            "List paired student PCs with their name and connection status (idle/connecting/live/offline). Only 'live' PCs can be acted on."@,
            Seq::empty(),
        ),
        tool_view(
            "power_action"@,
            "Run a power/lock action on PCs. targets is a list of device_ids; leave it empty to hit every connected PC. DESTRUCTIVE actions (shutdown/reboot/log-off) interrupt students — prefer ask_user to confirm first."@,
            seq![
                described_view(
                    "targets"@,
                    ParamType::TextList,
                    "device_ids to act on; empty = all connected."@,
                    false,
                ),
                action_view(),
                bounded_view("delay_seconds"@, None, 0, Some(3600)),
            ],
        ),
        tool_view(
            "set_exam"@,
            "Start or end exam lockdown on one PC (fullscreen lock on a separate desktop)."@,
            seq![
                ai_device_view(),
                arg_view("on"@, ParamType::Boolean, true),
                arg_view("message"@, ParamType::Text, false),
            ],
        ),
        ai_device_tool_view(
            "list_apps"@,
            "List the programs one PC can launch (each has an id for launch_app)."@,
        ),
        tool_view(
            "launch_app"@,
            "Start a published program on one PC by its id from list_apps."@,
            seq![ai_device_view(), arg_view("app_id"@, ParamType::Integer, true)],
        ),
        ai_device_tool_view("list_running"@, "List closable running programs on one PC (with pids)."@),
        tool_view(
            "close_app"@,
            "Close a running program on one PC by pid."@,
            seq![ai_device_view(), arg_view("pid"@, ParamType::Integer, true)],
        ),
        tool_view(
            "set_blocklist"@,
            "Replace the class-wide list of blocked program names (empty clears it)."@,
            seq![arg_view("programs"@, ParamType::TextList, true)],
        ),
        ai_device_tool_view(
            "start_recording"@,
            "Start recording one PC's screen (must be connected/watched)."@,
        ),
        ai_device_tool_view("stop_recording"@, "Stop recording on one PC."@),
        ai_device_tool_view("recording_status"@, "Report whether one PC is recording, and its frame count."@),
        tool_view(
            "ask_user"@,
            "Ask the teacher to pick one option (or type their own). Use this to confirm a destructive action or to choose between alternatives before acting. Returns the chosen text."@,
            seq![
                described_view("prompt"@, ParamType::Text, "The question to show."@, true),
                described_view("options"@, ParamType::TextList, "The choices, in order."@, true),
                described_view(
                    "allow_custom"@,
                    ParamType::Boolean,
                    "Also let the teacher type a free-form answer (default false)."@,
                    false,
                ),
            ],
        ),
    ]
}

fn text(s: &str) -> (r: String)
    ensures
        r@ == s@,
{
    String::from_str(s)
}

/// An argument with no description, bounds or choices.
fn arg(name: &str, kind: ParamType, required: bool) -> (p: Param)
    ensures
        p@ == arg_view(name@, kind, required),
{
    let p = Param {
        name: text(name),
        kind,
        description: None,
        minimum: None,
        maximum: None,
        choices: Vec::new(),
        required,
    };
    assert(texts(p.choices@) =~= Seq::<Seq<char>>::empty());
    p
}

/// An argument with a description.
fn described(name: &str, kind: ParamType, description: &str, required: bool) -> (p: Param)
    ensures
        p@ == described_view(name@, kind, description@, required),
{
    let mut p = arg(name, kind, required);
    p.description = Some(text(description));
    p
}

/// An integer argument with bounds and, where given, a description.
fn bounded(name: &str, description: Option<&str>, minimum: u64, maximum: Option<u64>) -> (p: Param)
    ensures
        p@ == bounded_view(name@, opt_chars(description), minimum, maximum),
{
    let mut p = arg(name, ParamType::Integer, false);
    p.description = match description {
        Some(d) => Some(text(d)),
        None => None,
    };
    p.minimum = Some(minimum);
    p.maximum = maximum;
    p
}

/// The names a power or lock action is chosen by, in the order they are offered.
pub open spec fn action_choice_names() -> Seq<Seq<char>> {
    seq![
        "shutdown"@,
        "reboot"@,
        "log-off"@,
        "lock-screen"@,
        "cancel-shutdown"@,
        "lock-wallpaper"@,
        "unlock-wallpaper"@,
    ]
}

/// The names a power or lock action is chosen by, as the catalogues offer them.
pub fn action_choices() -> (v: Vec<String>)
    ensures
        texts(v@) == action_choice_names(),
{
    let v = vec![
        text("shutdown"),
        text("reboot"),
        text("log-off"),
        text("lock-screen"),
        text("cancel-shutdown"),
        text("lock-wallpaper"),
        text("unlock-wallpaper"),
    ];
    assert(texts(v@) =~= action_choice_names());
    v
}

/// The catalogues offer exactly the actions a PC performs: a name is among the choices just when
/// it names an action, whatever the delay.
pub proof fn lemma_action_choices_are_the_actions(name: Seq<char>, delay_seconds: u16)
    ensures
        action_choice_names().contains(name) <==> action_for(name, delay_seconds) is Some,
{
    reveal_strlit("shutdown");
    reveal_strlit("reboot");
    reveal_strlit("log-off");
    reveal_strlit("lock-screen");
    reveal_strlit("cancel-shutdown");
    reveal_strlit("lock-wallpaper");
    reveal_strlit("unlock-wallpaper");
    let names = action_choice_names();
    if !names.contains(name) {
        assert(names[0] != name && names[1] != name && names[2] != name && names[3] != name);
        assert(names[4] != name && names[5] != name && names[6] != name);
    } else {
        let k = choose|k: int| 0 <= k < names.len() && names[k] == name;
        assert(k == 0 || k == 1 || k == 2 || k == 3 || k == 4 || k == 5 || k == 6);
    }
}

/// The required `action` argument: one of the actions a PC performs.
fn action_param() -> (p: Param)
    ensures
        p@ == action_view(),
{
    let mut p = arg("action", ParamType::Text, true);
    p.choices = action_choices();
    p
}


fn no_params() -> (v: Vec<Param>)
    ensures
        param_views(v@) == Seq::<ParamView>::empty(),
{
    let v: Vec<Param> = Vec::new();
    assert(param_views(v@) =~= Seq::<ParamView>::empty());
    v
}

fn params1(a: Param) -> (v: Vec<Param>)
    ensures
        param_views(v@) == seq![a@],
{
    let mut v: Vec<Param> = Vec::new();
    v.push(a);
    assert(param_views(v@) =~= seq![a@]);
    v
}

fn params2(a: Param, b: Param) -> (v: Vec<Param>)
    ensures
        param_views(v@) == seq![a@, b@],
{
    let mut v: Vec<Param> = Vec::new();
    v.push(a);
    v.push(b);
    assert(param_views(v@) =~= seq![a@, b@]);
    v
}

fn params3(a: Param, b: Param, c: Param) -> (v: Vec<Param>)
    ensures
        param_views(v@) == seq![a@, b@, c@],
{
    let mut v: Vec<Param> = Vec::new();
    v.push(a);
    v.push(b);
    v.push(c);
    assert(param_views(v@) =~= seq![a@, b@, c@]);
    v
}

fn tool(name: &str, description: &str, params: Vec<Param>) -> (t: ToolSpec)
    ensures
        t@ == tool_view(name@, description@, param_views(params@)),
{
    ToolSpec { name: text(name), description: text(description), params }
}

/// The fleet server's `device_id` argument.
fn fleet_device() -> (p: Param)
    ensures
        p@ == fleet_device_view(),
{
    described(
        "device_id",
        ParamType::Text,
        "Six-character device id from list_devices, e.g. K7M2Q9.",
        true,
    )
}

/// The fleet server's tools that take only the device they act on.
fn fleet_device_tool(name: &str, description: &str) -> (t: ToolSpec)
    ensures
        t@ == fleet_device_tool_view(name@, description@),
{
    tool(name, description, params1(fleet_device()))
}

/// The full catalogue of the fleet's tool server, in the order it is listed.
pub fn fleet_tools() -> (tools: Vec<ToolSpec>)
    ensures
        tool_views(tools@) == fleet_catalog(),
        tool_names(tools@) == fleet_tool_names(),
{
    let mut t: Vec<ToolSpec> = Vec::new();
    t.push(
        tool(
            "list_devices",
            "List every paired student PC (id and teacher-given name). Does not connect, so it does \
             not tell you which are online — use device_status for that.",
            no_params(),
        ),
    );
    t.push(
        fleet_device_tool(
            "device_status",
            "Connect to one PC and report whether it is online and which monitors it has. Use this to \
             confirm a PC is reachable before acting on it.",
        ),
    );
    t.push(
        tool(
            "screen_thumbnail",
            "Capture a JPEG thumbnail of a student's screen and return it as an image, so you can see \
             what the student is doing before deciding what to do.",
            params3(
                fleet_device(),
                bounded("monitor", Some("Monitor index (default 0)."), 0, None),
                bounded("max_width", Some("Max width in pixels (default 640)."), 64, Some(3840))),
        ),
    );
    t.push(
        fleet_device_tool(
            "list_apps",
            "List the programs a PC offers to launch (each has an id for launch_app).",
        ),
    );
    t.push(
        fleet_device_tool(
            "list_running",
            "List the programs currently running on a PC that a teacher may close (with their pids).",
        ),
    );
    t.push(
        tool(
            "launch_app",
            "Start one of the programs the PC published (by the id from list_apps). A PC can only run \
             what it itself published — there is no way to run an arbitrary path.",
            params2(
                fleet_device(),
                described("app_id", ParamType::Integer, "An id from list_apps.", true)),
        ),
    );
    t.push(
        tool(
            "close_app",
            "Close a running program by its pid (from list_running). System-critical processes are \
             refused by the Agent.",
            params2(
                fleet_device(),
                described("pid", ParamType::Integer, "A pid from list_running.", true)),
        ),
    );
    t.push(
        tool(
            "set_blocklist",
            "Replace the set of program names blocked on a PC (an empty list clears it). Blocked \
             programs are closed if a student launches them.",
            params2(
                fleet_device(),
                described(
                    "programs",
                    ParamType::TextList,
                    "Executable names to block, e.g. [\"game.exe\", \"steam.exe\"].",
                    true,
                )),
        ),
    );
    t.push(
        tool(
            "perform_action",
            "Perform one power/lock action on a PC. DESTRUCTIVE actions (shutdown, reboot, log-off) \
             interrupt the student — confirm with the teacher first. Allowed actions: shutdown, \
             reboot, log-off, lock-screen, cancel-shutdown, lock-wallpaper, unlock-wallpaper.",
            params3(
                fleet_device(),
                action_param(),
                bounded(
                    "delay_seconds",
                    Some("Countdown for shutdown/reboot (default 0)."),
                    0,
                    Some(3600),
                )),
        ),
    );
    t.push(
        tool(
            "set_exam",
            "Start or end exam lockdown on a PC: a fullscreen lock on a separate desktop the student \
             cannot Alt+Tab or Win-key away from. This seizes the student's screen — confirm intent.",
            params3(
                fleet_device(),
                described("on", ParamType::Boolean, "True to lock, false to release.", true),
                described("message", ParamType::Text, "Message shown on the lock (when on).", false)),
        ),
    );
    t.push(
        tool(
            "set_wallpaper",
            "Set a PC's desktop wallpaper to an image you supply as base64 (PNG, JPEG or BMP bytes).",
            params2(
                fleet_device(),
                described(
                    "image_base64",
                    ParamType::Text,
                    "The image file's bytes, base64-encoded.",
                    true,
                )),
        ),
    );
    t.push(
        fleet_device_tool(
            "recording_status",
            "Report whether a PC is currently recording its screen, and the running frame count.",
        ),
    );
    t.push(
        tool(
            "start_recording",
            "Start recording a PC's screen to a file on that PC (default codec/size/rate). The teacher \
             collects the file later from the Console.",
            params2(fleet_device(), bounded("monitor", Some("Monitor index (default 0)."), 0, None)),
        ),
    );
    t.push(
        fleet_device_tool(
            "stop_recording",
            "Stop the recording on a PC and report the final state.",
        ),
    );
    t.push(
        fleet_device_tool(
            "list_recordings",
            "List the recordings already stored on a PC (file name and size).",
        ),
    );
    assert(tool_names(t@) =~= fleet_tool_names());
    assert(tool_views(t@) =~= fleet_catalog());
    t
}

/// The assistant's `device_id` argument.
fn ai_device() -> (p: Param)
    ensures
        p@ == ai_device_view(),
{
    described("device_id", ParamType::Text, "A device_id from list_devices.", true)
}

/// The assistant's tools that take only the device they act on.
fn ai_device_tool(name: &str, description: &str) -> (t: ToolSpec)
    ensures
        t@ == ai_device_tool_view(name@, description@),
{
    tool(name, description, params1(ai_device()))
}

/// The tools offered to the assistant's model, including `ask_user`, which the teacher answers.
pub fn ai_tools() -> (tools: Vec<ToolSpec>)
    ensures
        tool_views(tools@) == ai_catalog(),
        tool_names(tools@) == ai_tool_names(),
{
    let mut t: Vec<ToolSpec> = Vec::new();
    t.push(
        tool(
            "list_devices",
            "List paired student PCs with their name and connection status (idle/connecting/live/offline). Only 'live' PCs can be acted on.",
            no_params(),
        ),
    );
    t.push(
        tool(
            "power_action",
            "Run a power/lock action on PCs. targets is a list of device_ids; leave it empty to hit every connected PC. DESTRUCTIVE actions (shutdown/reboot/log-off) interrupt students — prefer ask_user to confirm first.",
            params3(
                described(
                    "targets",
                    ParamType::TextList,
                    "device_ids to act on; empty = all connected.",
                    false,
                ),
                action_param(),
                bounded("delay_seconds", None, 0, Some(3600))),
        ),
    );
    t.push(
        tool(
            "set_exam",
            "Start or end exam lockdown on one PC (fullscreen lock on a separate desktop).",
            params3(
                ai_device(),
                arg("on", ParamType::Boolean, true),
                arg("message", ParamType::Text, false)),
        ),
    );
    t.push(
        ai_device_tool(
            "list_apps",
            "List the programs one PC can launch (each has an id for launch_app).",
        ),
    );
    t.push(
        tool(
            "launch_app",
            "Start a published program on one PC by its id from list_apps.",
            params2(ai_device(), arg("app_id", ParamType::Integer, true)),
        ),
    );
    t.push(
        ai_device_tool("list_running", "List closable running programs on one PC (with pids)."),
    );
    t.push(
        tool(
            "close_app",
            "Close a running program on one PC by pid.",
            params2(ai_device(), arg("pid", ParamType::Integer, true)),
        ),
    );
    t.push(
        tool(
            "set_blocklist",
            "Replace the class-wide list of blocked program names (empty clears it).",
            params1(arg("programs", ParamType::TextList, true)),
        ),
    );
    t.push(
        ai_device_tool(
            "start_recording",
            "Start recording one PC's screen (must be connected/watched).",
        ),
    );
    t.push(ai_device_tool("stop_recording", "Stop recording on one PC."));
    t.push(
        ai_device_tool("recording_status", "Report whether one PC is recording, and its frame count."),
    );
    t.push(
        tool(
            "ask_user",
            "Ask the teacher to pick one option (or type their own). Use this to confirm a destructive action or to choose between alternatives before acting. Returns the chosen text.",
            params3(
                described("prompt", ParamType::Text, "The question to show.", true),
                described("options", ParamType::TextList, "The choices, in order.", true),
                described(
                    "allow_custom",
                    ParamType::Boolean,
                    "Also let the teacher type a free-form answer (default false).",
                    false,
                )),
        ),
    );
    assert(tool_names(t@) =~= ai_tool_names());
    assert(tool_views(t@) =~= ai_catalog());
    t
}

/// The message for an unknown tool is no other message a planner gives.
proof fn lemma_unknown_tool_stands_apart(name: Seq<char>)
    ensures
        forall|k: Seq<char>| #[trigger] missing_string(k) != unknown_tool(name),
        forall|k: Seq<char>| #[trigger] missing_integer(k) != unknown_tool(name),
        forall|a: Seq<char>| #[trigger] unknown_action(a) != unknown_tool(name),
        "missing required array argument 'programs'"@ != unknown_tool(name),
        "missing required boolean argument 'on'"@ != unknown_tool(name),
        "image_base64 decoded to no bytes"@ != unknown_tool(name),
        "missing boolean 'on'"@ != unknown_tool(name),
        "missing array 'programs'"@ != unknown_tool(name),
        "ask_user is handled by the orchestrator"@ != unknown_tool(name),
{
    reveal_strlit("unknown tool '");
    reveal_strlit("unknown action '");
    reveal_strlit("missing required string argument '");
    reveal_strlit("missing or out-of-range integer argument '");
    reveal_strlit("missing required array argument 'programs'");
    reveal_strlit("missing required boolean argument 'on'");
    reveal_strlit("image_base64 decoded to no bytes");
    reveal_strlit("missing boolean 'on'");
    reveal_strlit("missing array 'programs'");
    reveal_strlit("ask_user is handled by the orchestrator");
    let u = unknown_tool(name);
    assert(u[0] == 'u' && u[8] == 't');
    assert forall|k: Seq<char>| #[trigger] missing_string(k) != u by {
        assert(missing_string(k)[0] == 'm');
    }
    assert forall|k: Seq<char>| #[trigger] missing_integer(k) != u by {
        assert(missing_integer(k)[0] == 'm');
    }
    assert forall|a: Seq<char>| #[trigger] unknown_action(a) != u by {
        assert(unknown_action(a)[8] == 'a');
    }
}

/// The fleet's catalogue offers exactly the tools its planner carries out: a listed name is never
/// refused as unknown, whatever the arguments, and any other name always is.
pub proof fn lemma_fleet_catalogue_matches_planner(name: Seq<char>, e: Seq<(String, ArgValue)>)
    ensures
        fleet_tool_names().contains(name) <==> fleet_plan(name, e) != Err::<FleetRequest, PlanError>(
            PlanError::Message(unknown_tool(name)),
        ),
{
    reveal_strlit("list_devices");
    reveal_strlit("device_status");
    reveal_strlit("screen_thumbnail");
    reveal_strlit("list_apps");
    reveal_strlit("list_running");
    reveal_strlit("launch_app");
    reveal_strlit("close_app");
    reveal_strlit("set_blocklist");
    reveal_strlit("perform_action");
    reveal_strlit("set_exam");
    reveal_strlit("set_wallpaper");
    reveal_strlit("recording_status");
    reveal_strlit("start_recording");
    reveal_strlit("stop_recording");
    reveal_strlit("list_recordings");
    lemma_unknown_tool_stands_apart(name);
    let names = fleet_tool_names();
    if !names.contains(name) {
        assert(names[0] != name && names[1] != name && names[2] != name && names[3] != name);
        assert(names[4] != name && names[5] != name && names[6] != name && names[7] != name);
        assert(names[8] != name && names[9] != name && names[10] != name && names[11] != name);
        assert(names[12] != name && names[13] != name && names[14] != name);
    } else {
        let k = choose|k: int| 0 <= k < names.len() && names[k] == name;
        assert(k == 0 || k == 1 || k == 2 || k == 3 || k == 4 || k == 5 || k == 6 || k == 7 || k
            == 8 || k == 9 || k == 10 || k == 11 || k == 12 || k == 13 || k == 14);
    }
}

/// The assistant's catalogue offers exactly the tools its planner knows: a listed name is never
/// refused as unknown, whatever the arguments, and any other name always is.
pub proof fn lemma_ai_catalogue_matches_planner(name: Seq<char>, e: Seq<(String, ArgValue)>)
    ensures
        ai_tool_names().contains(name) <==> ai_plan(name, e) != Err::<AiRequest, PlanError>(
            PlanError::Message(unknown_tool(name)),
        ),
{
    reveal_strlit("list_devices");
    reveal_strlit("power_action");
    reveal_strlit("set_exam");
    reveal_strlit("list_apps");
    reveal_strlit("launch_app");
    reveal_strlit("list_running");
    reveal_strlit("close_app");
    reveal_strlit("set_blocklist");
    reveal_strlit("start_recording");
    reveal_strlit("stop_recording");
    reveal_strlit("recording_status");
    reveal_strlit("ask_user");
    lemma_unknown_tool_stands_apart(name);
    let names = ai_tool_names();
    if !names.contains(name) {
        assert(names[0] != name && names[1] != name && names[2] != name && names[3] != name);
        assert(names[4] != name && names[5] != name && names[6] != name && names[7] != name);
        assert(names[8] != name && names[9] != name && names[10] != name && names[11] != name);
    } else {
        let k = choose|k: int| 0 <= k < names.len() && names[k] == name;
        assert(k == 0 || k == 1 || k == 2 || k == 3 || k == 4 || k == 5 || k == 6 || k == 7 || k
            == 8 || k == 9 || k == 10 || k == 11);
    }
}

/// The tool names the fleet's planner tells apart are different texts.
proof fn lemma_fleet_plan_names_differ()
    ensures
        "list_devices"@ != "device_status"@,
        "list_devices"@ != "screen_thumbnail"@,
        "list_devices"@ != "list_apps"@,
        "list_devices"@ != "list_running"@,
        "list_devices"@ != "launch_app"@,
        "list_devices"@ != "close_app"@,
        "list_devices"@ != "set_blocklist"@,
        "list_devices"@ != "perform_action"@,
        "list_devices"@ != "set_exam"@,
        "list_devices"@ != "set_wallpaper"@,
        "list_devices"@ != "recording_status"@,
        "list_devices"@ != "start_recording"@,
        "list_devices"@ != "stop_recording"@,
        "list_devices"@ != "list_recordings"@,
        "device_status"@ != "screen_thumbnail"@,
        "device_status"@ != "list_apps"@,
        "device_status"@ != "list_running"@,
        "device_status"@ != "launch_app"@,
        "device_status"@ != "close_app"@,
        "device_status"@ != "set_blocklist"@,
        "device_status"@ != "perform_action"@,
        "device_status"@ != "set_exam"@,
        "device_status"@ != "set_wallpaper"@,
        "device_status"@ != "recording_status"@,
        "device_status"@ != "start_recording"@,
        "device_status"@ != "stop_recording"@,
        "device_status"@ != "list_recordings"@,
        "screen_thumbnail"@ != "list_apps"@,
        "screen_thumbnail"@ != "list_running"@,
        "screen_thumbnail"@ != "launch_app"@,
        "screen_thumbnail"@ != "close_app"@,
        "screen_thumbnail"@ != "set_blocklist"@,
        "screen_thumbnail"@ != "perform_action"@,
        "screen_thumbnail"@ != "set_exam"@,
        "screen_thumbnail"@ != "set_wallpaper"@,
        "screen_thumbnail"@ != "recording_status"@,
        "screen_thumbnail"@ != "start_recording"@,
        "screen_thumbnail"@ != "stop_recording"@,
        "screen_thumbnail"@ != "list_recordings"@,
        "list_apps"@ != "list_running"@,
        "list_apps"@ != "launch_app"@,
        "list_apps"@ != "close_app"@,
        "list_apps"@ != "set_blocklist"@,
        "list_apps"@ != "perform_action"@,
        "list_apps"@ != "set_exam"@,
        "list_apps"@ != "set_wallpaper"@,
        "list_apps"@ != "recording_status"@,
        "list_apps"@ != "start_recording"@,
        "list_apps"@ != "stop_recording"@,
        "list_apps"@ != "list_recordings"@,
        "list_running"@ != "launch_app"@,
        "list_running"@ != "close_app"@,
        "list_running"@ != "set_blocklist"@,
        "list_running"@ != "perform_action"@,
        "list_running"@ != "set_exam"@,
        "list_running"@ != "set_wallpaper"@,
        "list_running"@ != "recording_status"@,
        "list_running"@ != "start_recording"@,
        "list_running"@ != "stop_recording"@,
        "list_running"@ != "list_recordings"@,
        "launch_app"@ != "close_app"@,
        "launch_app"@ != "set_blocklist"@,
        "launch_app"@ != "perform_action"@,
        "launch_app"@ != "set_exam"@,
        "launch_app"@ != "set_wallpaper"@,
        "launch_app"@ != "recording_status"@,
        "launch_app"@ != "start_recording"@,
        "launch_app"@ != "stop_recording"@,
        "launch_app"@ != "list_recordings"@,
        "close_app"@ != "set_blocklist"@,
        "close_app"@ != "perform_action"@,
        "close_app"@ != "set_exam"@,
        "close_app"@ != "set_wallpaper"@,
        "close_app"@ != "recording_status"@,
        "close_app"@ != "start_recording"@,
        "close_app"@ != "stop_recording"@,
        "close_app"@ != "list_recordings"@,
        "set_blocklist"@ != "perform_action"@,
        "set_blocklist"@ != "set_exam"@,
        "set_blocklist"@ != "set_wallpaper"@,
        "set_blocklist"@ != "recording_status"@,
        "set_blocklist"@ != "start_recording"@,
        "set_blocklist"@ != "stop_recording"@,
        "set_blocklist"@ != "list_recordings"@,
        "perform_action"@ != "set_exam"@,
        "perform_action"@ != "set_wallpaper"@,
        "perform_action"@ != "recording_status"@,
        "perform_action"@ != "start_recording"@,
        "perform_action"@ != "stop_recording"@,
        "perform_action"@ != "list_recordings"@,
        "set_exam"@ != "set_wallpaper"@,
        "set_exam"@ != "recording_status"@,
        "set_exam"@ != "start_recording"@,
        "set_exam"@ != "stop_recording"@,
        "set_exam"@ != "list_recordings"@,
        "set_wallpaper"@ != "recording_status"@,
        "set_wallpaper"@ != "start_recording"@,
        "set_wallpaper"@ != "stop_recording"@,
        "set_wallpaper"@ != "list_recordings"@,
        "recording_status"@ != "start_recording"@,
        "recording_status"@ != "stop_recording"@,
        "recording_status"@ != "list_recordings"@,
        "start_recording"@ != "stop_recording"@,
        "start_recording"@ != "list_recordings"@,
        "stop_recording"@ != "list_recordings"@,
{
    reveal_strlit("list_devices");
    reveal_strlit("device_status");
    reveal_strlit("screen_thumbnail");
    reveal_strlit("list_apps");
    reveal_strlit("list_running");
    reveal_strlit("launch_app");
    reveal_strlit("close_app");
    reveal_strlit("set_blocklist");
    reveal_strlit("perform_action");
    reveal_strlit("set_exam");
    reveal_strlit("set_wallpaper");
    reveal_strlit("recording_status");
    reveal_strlit("start_recording");
    reveal_strlit("stop_recording");
    reveal_strlit("list_recordings");
    assert("list_devices"@[0] != "device_status"@[0]);
    assert("list_devices"@[0] != "screen_thumbnail"@[0]);
    assert("list_devices"@[5] != "list_apps"@[5]);
    assert("list_devices"@[5] != "list_running"@[5]);
    assert("list_devices"@[1] != "launch_app"@[1]);
    assert("list_devices"@[0] != "close_app"@[0]);
    assert("list_devices"@[0] != "set_blocklist"@[0]);
    assert("list_devices"@[0] != "perform_action"@[0]);
    assert("list_devices"@[0] != "set_exam"@[0]);
    assert("list_devices"@[0] != "set_wallpaper"@[0]);
    assert("list_devices"@[0] != "recording_status"@[0]);
    assert("list_devices"@[0] != "start_recording"@[0]);
    assert("list_devices"@[0] != "stop_recording"@[0]);
    assert("list_devices"@[5] != "list_recordings"@[5]);
    assert("device_status"@[0] != "screen_thumbnail"@[0]);
    assert("device_status"@[0] != "list_apps"@[0]);
    assert("device_status"@[0] != "list_running"@[0]);
    assert("device_status"@[0] != "launch_app"@[0]);
    assert("device_status"@[0] != "close_app"@[0]);
    assert("device_status"@[0] != "set_blocklist"@[0]);
    assert("device_status"@[0] != "perform_action"@[0]);
    assert("device_status"@[0] != "set_exam"@[0]);
    assert("device_status"@[0] != "set_wallpaper"@[0]);
    assert("device_status"@[0] != "recording_status"@[0]);
    assert("device_status"@[0] != "start_recording"@[0]);
    assert("device_status"@[0] != "stop_recording"@[0]);
    assert("device_status"@[0] != "list_recordings"@[0]);
    assert("screen_thumbnail"@[0] != "list_apps"@[0]);
    assert("screen_thumbnail"@[0] != "list_running"@[0]);
    assert("screen_thumbnail"@[0] != "launch_app"@[0]);
    assert("screen_thumbnail"@[0] != "close_app"@[0]);
    assert("screen_thumbnail"@[1] != "set_blocklist"@[1]);
    assert("screen_thumbnail"@[0] != "perform_action"@[0]);
    assert("screen_thumbnail"@[1] != "set_exam"@[1]);
    assert("screen_thumbnail"@[1] != "set_wallpaper"@[1]);
    assert("screen_thumbnail"@[0] != "recording_status"@[0]);
    assert("screen_thumbnail"@[1] != "start_recording"@[1]);
    assert("screen_thumbnail"@[1] != "stop_recording"@[1]);
    assert("screen_thumbnail"@[0] != "list_recordings"@[0]);
    assert("list_apps"@[5] != "list_running"@[5]);
    assert("list_apps"@[1] != "launch_app"@[1]);
    assert("list_apps"@[0] != "close_app"@[0]);
    assert("list_apps"@[0] != "set_blocklist"@[0]);
    assert("list_apps"@[0] != "perform_action"@[0]);
    assert("list_apps"@[0] != "set_exam"@[0]);
    assert("list_apps"@[0] != "set_wallpaper"@[0]);
    assert("list_apps"@[0] != "recording_status"@[0]);
    assert("list_apps"@[0] != "start_recording"@[0]);
    assert("list_apps"@[0] != "stop_recording"@[0]);
    assert("list_apps"@[5] != "list_recordings"@[5]);
    assert("list_running"@[1] != "launch_app"@[1]);
    assert("list_running"@[0] != "close_app"@[0]);
    assert("list_running"@[0] != "set_blocklist"@[0]);
    assert("list_running"@[0] != "perform_action"@[0]);
    assert("list_running"@[0] != "set_exam"@[0]);
    assert("list_running"@[0] != "set_wallpaper"@[0]);
    assert("list_running"@[0] != "recording_status"@[0]);
    assert("list_running"@[0] != "start_recording"@[0]);
    assert("list_running"@[0] != "stop_recording"@[0]);
    assert("list_running"@[6] != "list_recordings"@[6]);
    assert("launch_app"@[0] != "close_app"@[0]);
    assert("launch_app"@[0] != "set_blocklist"@[0]);
    assert("launch_app"@[0] != "perform_action"@[0]);
    assert("launch_app"@[0] != "set_exam"@[0]);
    assert("launch_app"@[0] != "set_wallpaper"@[0]);
    assert("launch_app"@[0] != "recording_status"@[0]);
    assert("launch_app"@[0] != "start_recording"@[0]);
    assert("launch_app"@[0] != "stop_recording"@[0]);
    assert("launch_app"@[1] != "list_recordings"@[1]);
    assert("close_app"@[0] != "set_blocklist"@[0]);
    assert("close_app"@[0] != "perform_action"@[0]);
    assert("close_app"@[0] != "set_exam"@[0]);
    assert("close_app"@[0] != "set_wallpaper"@[0]);
    assert("close_app"@[0] != "recording_status"@[0]);
    assert("close_app"@[0] != "start_recording"@[0]);
    assert("close_app"@[0] != "stop_recording"@[0]);
    assert("close_app"@[0] != "list_recordings"@[0]);
    assert("set_blocklist"@[0] != "perform_action"@[0]);
    assert("set_blocklist"@[4] != "set_exam"@[4]);
    assert("set_blocklist"@[4] != "set_wallpaper"@[4]);
    assert("set_blocklist"@[0] != "recording_status"@[0]);
    assert("set_blocklist"@[1] != "start_recording"@[1]);
    assert("set_blocklist"@[1] != "stop_recording"@[1]);
    assert("set_blocklist"@[0] != "list_recordings"@[0]);
    assert("perform_action"@[0] != "set_exam"@[0]);
    assert("perform_action"@[0] != "set_wallpaper"@[0]);
    assert("perform_action"@[0] != "recording_status"@[0]);
    assert("perform_action"@[0] != "start_recording"@[0]);
    assert("perform_action"@[0] != "stop_recording"@[0]);
    assert("perform_action"@[0] != "list_recordings"@[0]);
    assert("set_exam"@[4] != "set_wallpaper"@[4]);
    assert("set_exam"@[0] != "recording_status"@[0]);
    assert("set_exam"@[1] != "start_recording"@[1]);
    assert("set_exam"@[1] != "stop_recording"@[1]);
    assert("set_exam"@[0] != "list_recordings"@[0]);
    assert("set_wallpaper"@[0] != "recording_status"@[0]);
    assert("set_wallpaper"@[1] != "start_recording"@[1]);
    assert("set_wallpaper"@[1] != "stop_recording"@[1]);
    assert("set_wallpaper"@[0] != "list_recordings"@[0]);
    assert("recording_status"@[0] != "start_recording"@[0]);
    assert("recording_status"@[0] != "stop_recording"@[0]);
    assert("recording_status"@[0] != "list_recordings"@[0]);
    assert("start_recording"@[2] != "stop_recording"@[2]);
    assert("start_recording"@[0] != "list_recordings"@[0]);
    assert("stop_recording"@[0] != "list_recordings"@[0]);
}

/// The fleet's catalogue marks as required exactly arguments its planner cannot do without: a call
/// that leaves out a required argument of a listed tool is refused.
#[verifier::rlimit(50)]
pub proof fn lemma_fleet_required_args_are_needed(i: int, j: int, e: Seq<(String, ArgValue)>)
    requires
        0 <= i < fleet_catalog().len(),
        0 <= j < fleet_catalog()[i].params.len(),
        fleet_catalog()[i].params[j].required,
        crate::tools::arg(e, fleet_catalog()[i].params[j].name) is None,
    ensures
        fleet_plan(fleet_catalog()[i].name, e) is Err,
{
    lemma_fleet_plan_names_differ();
    if i == 0 {
        let t = fleet_catalog()[0];
        assert(t.name == "list_devices"@ && t.params.len() == 0);
    }
    if i == 1 {
        let t = fleet_catalog()[1];
        assert(t.name == "device_status"@ && t.params.len() == 1);
        assert(t.params[0].name == "device_id"@ && t.params[0].required == true);
        if j == 0 {
            assert(fleet_plan("device_status"@, e) is Err);
        }
    }
    if i == 2 {
        let t = fleet_catalog()[2];
        assert(t.name == "screen_thumbnail"@ && t.params.len() == 3);
        assert(t.params[0].name == "device_id"@ && t.params[0].required == true);
        assert(t.params[1].name == "monitor"@ && t.params[1].required == false);
        assert(t.params[2].name == "max_width"@ && t.params[2].required == false);
        if j == 0 {
            assert(fleet_plan("screen_thumbnail"@, e) is Err);
        }
    }
    if i == 3 {
        let t = fleet_catalog()[3];
        assert(t.name == "list_apps"@ && t.params.len() == 1);
        assert(t.params[0].name == "device_id"@ && t.params[0].required == true);
        if j == 0 {
            assert(fleet_plan("list_apps"@, e) is Err);
        }
    }
    if i == 4 {
        let t = fleet_catalog()[4];
        assert(t.name == "list_running"@ && t.params.len() == 1);
        assert(t.params[0].name == "device_id"@ && t.params[0].required == true);
        if j == 0 {
            assert(fleet_plan("list_running"@, e) is Err);
        }
    }
    if i == 5 {
        let t = fleet_catalog()[5];
        assert(t.name == "launch_app"@ && t.params.len() == 2);
        assert(t.params[0].name == "device_id"@ && t.params[0].required == true);
        assert(t.params[1].name == "app_id"@ && t.params[1].required == true);
        if j == 0 {
            assert(fleet_plan("launch_app"@, e) is Err);
        }
        if j == 1 {
            assert(fleet_plan("launch_app"@, e) is Err);
        }
    }
    if i == 6 {
        let t = fleet_catalog()[6];
        assert(t.name == "close_app"@ && t.params.len() == 2);
        assert(t.params[0].name == "device_id"@ && t.params[0].required == true);
        assert(t.params[1].name == "pid"@ && t.params[1].required == true);
        if j == 0 {
            assert(fleet_plan("close_app"@, e) is Err);
        }
        if j == 1 {
            assert(fleet_plan("close_app"@, e) is Err);
        }
    }
    if i == 7 {
        let t = fleet_catalog()[7];
        assert(t.name == "set_blocklist"@ && t.params.len() == 2);
        assert(t.params[0].name == "device_id"@ && t.params[0].required == true);
        assert(t.params[1].name == "programs"@ && t.params[1].required == true);
        if j == 0 {
            assert(fleet_plan("set_blocklist"@, e) is Err);
        }
        if j == 1 {
            assert(fleet_plan("set_blocklist"@, e) is Err);
        }
    }
    if i == 8 {
        let t = fleet_catalog()[8];
        assert(t.name == "perform_action"@ && t.params.len() == 3);
        assert(t.params[0].name == "device_id"@ && t.params[0].required == true);
        assert(t.params[1].name == "action"@ && t.params[1].required == true);
        assert(t.params[2].name == "delay_seconds"@ && t.params[2].required == false);
        if j == 0 {
            assert(fleet_plan("perform_action"@, e) is Err);
        }
        if j == 1 {
            assert(fleet_plan("perform_action"@, e) is Err);
        }
    }
    if i == 9 {
        let t = fleet_catalog()[9];
        assert(t.name == "set_exam"@ && t.params.len() == 3);
        assert(t.params[0].name == "device_id"@ && t.params[0].required == true);
        assert(t.params[1].name == "on"@ && t.params[1].required == true);
        assert(t.params[2].name == "message"@ && t.params[2].required == false);
        if j == 0 {
            assert(fleet_plan("set_exam"@, e) is Err);
        }
        if j == 1 {
            assert(fleet_plan("set_exam"@, e) is Err);
        }
    }
    if i == 10 {
        let t = fleet_catalog()[10];
        assert(t.name == "set_wallpaper"@ && t.params.len() == 2);
        assert(t.params[0].name == "device_id"@ && t.params[0].required == true);
        assert(t.params[1].name == "image_base64"@ && t.params[1].required == true);
        if j == 0 {
            assert(fleet_plan("set_wallpaper"@, e) is Err);
        }
        if j == 1 {
            assert(fleet_plan("set_wallpaper"@, e) is Err);
        }
    }
    if i == 11 {
        let t = fleet_catalog()[11];
        assert(t.name == "recording_status"@ && t.params.len() == 1);
        assert(t.params[0].name == "device_id"@ && t.params[0].required == true);
        if j == 0 {
            assert(fleet_plan("recording_status"@, e) is Err);
        }
    }
    if i == 12 {
        let t = fleet_catalog()[12];
        assert(t.name == "start_recording"@ && t.params.len() == 2);
        assert(t.params[0].name == "device_id"@ && t.params[0].required == true);
        assert(t.params[1].name == "monitor"@ && t.params[1].required == false);
        if j == 0 {
            assert(fleet_plan("start_recording"@, e) is Err);
        }
    }
    if i == 13 {
        let t = fleet_catalog()[13];
        assert(t.name == "stop_recording"@ && t.params.len() == 1);
        assert(t.params[0].name == "device_id"@ && t.params[0].required == true);
        if j == 0 {
            assert(fleet_plan("stop_recording"@, e) is Err);
        }
    }
    if i == 14 {
        let t = fleet_catalog()[14];
        assert(t.name == "list_recordings"@ && t.params.len() == 1);
        assert(t.params[0].name == "device_id"@ && t.params[0].required == true);
        if j == 0 {
            assert(fleet_plan("list_recordings"@, e) is Err);
        }
    }
}

/// The tool names the assistant's planner tells apart are different texts.
proof fn lemma_ai_plan_names_differ()
    ensures
        "list_devices"@ != "power_action"@,
        "list_devices"@ != "set_exam"@,
        "list_devices"@ != "list_apps"@,
        "list_devices"@ != "launch_app"@,
        "list_devices"@ != "list_running"@,
        "list_devices"@ != "close_app"@,
        "list_devices"@ != "set_blocklist"@,
        "list_devices"@ != "start_recording"@,
        "list_devices"@ != "stop_recording"@,
        "list_devices"@ != "recording_status"@,
        "list_devices"@ != "ask_user"@,
        "power_action"@ != "set_exam"@,
        "power_action"@ != "list_apps"@,
        "power_action"@ != "launch_app"@,
        "power_action"@ != "list_running"@,
        "power_action"@ != "close_app"@,
        "power_action"@ != "set_blocklist"@,
        "power_action"@ != "start_recording"@,
        "power_action"@ != "stop_recording"@,
        "power_action"@ != "recording_status"@,
        "power_action"@ != "ask_user"@,
        "set_exam"@ != "list_apps"@,
        "set_exam"@ != "launch_app"@,
        "set_exam"@ != "list_running"@,
        "set_exam"@ != "close_app"@,
        "set_exam"@ != "set_blocklist"@,
        "set_exam"@ != "start_recording"@,
        "set_exam"@ != "stop_recording"@,
        "set_exam"@ != "recording_status"@,
        "set_exam"@ != "ask_user"@,
        "list_apps"@ != "launch_app"@,
        "list_apps"@ != "list_running"@,
        "list_apps"@ != "close_app"@,
        "list_apps"@ != "set_blocklist"@,
        "list_apps"@ != "start_recording"@,
        "list_apps"@ != "stop_recording"@,
        "list_apps"@ != "recording_status"@,
        "list_apps"@ != "ask_user"@,
        "launch_app"@ != "list_running"@,
        "launch_app"@ != "close_app"@,
        "launch_app"@ != "set_blocklist"@,
        "launch_app"@ != "start_recording"@,
        "launch_app"@ != "stop_recording"@,
        "launch_app"@ != "recording_status"@,
        "launch_app"@ != "ask_user"@,
        "list_running"@ != "close_app"@,
        "list_running"@ != "set_blocklist"@,
        "list_running"@ != "start_recording"@,
        "list_running"@ != "stop_recording"@,
        "list_running"@ != "recording_status"@,
        "list_running"@ != "ask_user"@,
        "close_app"@ != "set_blocklist"@,
        "close_app"@ != "start_recording"@,
        "close_app"@ != "stop_recording"@,
        "close_app"@ != "recording_status"@,
        "close_app"@ != "ask_user"@,
        "set_blocklist"@ != "start_recording"@,
        "set_blocklist"@ != "stop_recording"@,
        "set_blocklist"@ != "recording_status"@,
        "set_blocklist"@ != "ask_user"@,
        "start_recording"@ != "stop_recording"@,
        "start_recording"@ != "recording_status"@,
        "start_recording"@ != "ask_user"@,
        "stop_recording"@ != "recording_status"@,
        "stop_recording"@ != "ask_user"@,
        "recording_status"@ != "ask_user"@,
{
    reveal_strlit("list_devices");
    reveal_strlit("power_action");
    reveal_strlit("set_exam");
    reveal_strlit("list_apps");
    reveal_strlit("launch_app");
    reveal_strlit("list_running");
    reveal_strlit("close_app");
    reveal_strlit("set_blocklist");
    reveal_strlit("start_recording");
    reveal_strlit("stop_recording");
    reveal_strlit("recording_status");
    reveal_strlit("ask_user");
    assert("list_devices"@[0] != "power_action"@[0]);
    assert("list_devices"@[0] != "set_exam"@[0]);
    assert("list_devices"@[5] != "list_apps"@[5]);
    assert("list_devices"@[1] != "launch_app"@[1]);
    assert("list_devices"@[5] != "list_running"@[5]);
    assert("list_devices"@[0] != "close_app"@[0]);
    assert("list_devices"@[0] != "set_blocklist"@[0]);
    assert("list_devices"@[0] != "start_recording"@[0]);
    assert("list_devices"@[0] != "stop_recording"@[0]);
    assert("list_devices"@[0] != "recording_status"@[0]);
    assert("list_devices"@[0] != "ask_user"@[0]);
    assert("power_action"@[0] != "set_exam"@[0]);
    assert("power_action"@[0] != "list_apps"@[0]);
    assert("power_action"@[0] != "launch_app"@[0]);
    assert("power_action"@[0] != "list_running"@[0]);
    assert("power_action"@[0] != "close_app"@[0]);
    assert("power_action"@[0] != "set_blocklist"@[0]);
    assert("power_action"@[0] != "start_recording"@[0]);
    assert("power_action"@[0] != "stop_recording"@[0]);
    assert("power_action"@[0] != "recording_status"@[0]);
    assert("power_action"@[0] != "ask_user"@[0]);
    assert("set_exam"@[0] != "list_apps"@[0]);
    assert("set_exam"@[0] != "launch_app"@[0]);
    assert("set_exam"@[0] != "list_running"@[0]);
    assert("set_exam"@[0] != "close_app"@[0]);
    assert("set_exam"@[4] != "set_blocklist"@[4]);
    assert("set_exam"@[1] != "start_recording"@[1]);
    assert("set_exam"@[1] != "stop_recording"@[1]);
    assert("set_exam"@[0] != "recording_status"@[0]);
    assert("set_exam"@[0] != "ask_user"@[0]);
    assert("list_apps"@[1] != "launch_app"@[1]);
    assert("list_apps"@[5] != "list_running"@[5]);
    assert("list_apps"@[0] != "close_app"@[0]);
    assert("list_apps"@[0] != "set_blocklist"@[0]);
    assert("list_apps"@[0] != "start_recording"@[0]);
    assert("list_apps"@[0] != "stop_recording"@[0]);
    assert("list_apps"@[0] != "recording_status"@[0]);
    assert("list_apps"@[0] != "ask_user"@[0]);
    assert("launch_app"@[1] != "list_running"@[1]);
    assert("launch_app"@[0] != "close_app"@[0]);
    assert("launch_app"@[0] != "set_blocklist"@[0]);
    assert("launch_app"@[0] != "start_recording"@[0]);
    assert("launch_app"@[0] != "stop_recording"@[0]);
    assert("launch_app"@[0] != "recording_status"@[0]);
    assert("launch_app"@[0] != "ask_user"@[0]);
    assert("list_running"@[0] != "close_app"@[0]);
    assert("list_running"@[0] != "set_blocklist"@[0]);
    assert("list_running"@[0] != "start_recording"@[0]);
    assert("list_running"@[0] != "stop_recording"@[0]);
    assert("list_running"@[0] != "recording_status"@[0]);
    assert("list_running"@[0] != "ask_user"@[0]);
    assert("close_app"@[0] != "set_blocklist"@[0]);
    assert("close_app"@[0] != "start_recording"@[0]);
    assert("close_app"@[0] != "stop_recording"@[0]);
    assert("close_app"@[0] != "recording_status"@[0]);
    assert("close_app"@[0] != "ask_user"@[0]);
    assert("set_blocklist"@[1] != "start_recording"@[1]);
    assert("set_blocklist"@[1] != "stop_recording"@[1]);
    assert("set_blocklist"@[0] != "recording_status"@[0]);
    assert("set_blocklist"@[0] != "ask_user"@[0]);
    assert("start_recording"@[2] != "stop_recording"@[2]);
    assert("start_recording"@[0] != "recording_status"@[0]);
    assert("start_recording"@[0] != "ask_user"@[0]);
    assert("stop_recording"@[0] != "recording_status"@[0]);
    assert("stop_recording"@[0] != "ask_user"@[0]);
    assert("recording_status"@[0] != "ask_user"@[0]);
}

/// The assistant's catalogue marks as required exactly arguments its planner cannot do without: a
/// call that leaves out a required argument of a listed tool is refused.
#[verifier::rlimit(50)]
pub proof fn lemma_ai_required_args_are_needed(i: int, j: int, e: Seq<(String, ArgValue)>)
    requires
        0 <= i < ai_catalog().len(),
        0 <= j < ai_catalog()[i].params.len(),
        ai_catalog()[i].params[j].required,
        crate::tools::arg(e, ai_catalog()[i].params[j].name) is None,
    ensures
        ai_plan(ai_catalog()[i].name, e) is Err,
{
    lemma_ai_plan_names_differ();
    if i == 0 {
        let t = ai_catalog()[0];
        assert(t.name == "list_devices"@ && t.params.len() == 0);
    }
    if i == 1 {
        let t = ai_catalog()[1];
        assert(t.name == "power_action"@ && t.params.len() == 3);
        assert(t.params[0].name == "targets"@ && t.params[0].required == false);
        assert(t.params[1].name == "action"@ && t.params[1].required == true);
        assert(t.params[2].name == "delay_seconds"@ && t.params[2].required == false);
        if j == 1 {
            assert(ai_plan("power_action"@, e) is Err);
        }
    }
    if i == 2 {
        let t = ai_catalog()[2];
        assert(t.name == "set_exam"@ && t.params.len() == 3);
        assert(t.params[0].name == "device_id"@ && t.params[0].required == true);
        assert(t.params[1].name == "on"@ && t.params[1].required == true);
        assert(t.params[2].name == "message"@ && t.params[2].required == false);
        if j == 0 {
            assert(ai_plan("set_exam"@, e) is Err);
        }
        if j == 1 {
            assert(ai_plan("set_exam"@, e) is Err);
        }
    }
    if i == 3 {
        let t = ai_catalog()[3];
        assert(t.name == "list_apps"@ && t.params.len() == 1);
        assert(t.params[0].name == "device_id"@ && t.params[0].required == true);
        if j == 0 {
            assert(ai_plan("list_apps"@, e) is Err);
        }
    }
    if i == 4 {
        let t = ai_catalog()[4];
        assert(t.name == "launch_app"@ && t.params.len() == 2);
        assert(t.params[0].name == "device_id"@ && t.params[0].required == true);
        assert(t.params[1].name == "app_id"@ && t.params[1].required == true);
        if j == 0 {
            assert(ai_plan("launch_app"@, e) is Err);
        }
        if j == 1 {
            assert(ai_plan("launch_app"@, e) is Err);
        }
    }
    if i == 5 {
        let t = ai_catalog()[5];
        assert(t.name == "list_running"@ && t.params.len() == 1);
        assert(t.params[0].name == "device_id"@ && t.params[0].required == true);
        if j == 0 {
            assert(ai_plan("list_running"@, e) is Err);
        }
    }
    if i == 6 {
        let t = ai_catalog()[6];
        assert(t.name == "close_app"@ && t.params.len() == 2);
        assert(t.params[0].name == "device_id"@ && t.params[0].required == true);
        assert(t.params[1].name == "pid"@ && t.params[1].required == true);
        if j == 0 {
            assert(ai_plan("close_app"@, e) is Err);
        }
        if j == 1 {
            assert(ai_plan("close_app"@, e) is Err);
        }
    }
    if i == 7 {
        let t = ai_catalog()[7];
        assert(t.name == "set_blocklist"@ && t.params.len() == 1);
        assert(t.params[0].name == "programs"@ && t.params[0].required == true);
        if j == 0 {
            assert(ai_plan("set_blocklist"@, e) is Err);
        }
    }
    if i == 8 {
        let t = ai_catalog()[8];
        assert(t.name == "start_recording"@ && t.params.len() == 1);
        assert(t.params[0].name == "device_id"@ && t.params[0].required == true);
        if j == 0 {
            assert(ai_plan("start_recording"@, e) is Err);
        }
    }
    if i == 9 {
        let t = ai_catalog()[9];
        assert(t.name == "stop_recording"@ && t.params.len() == 1);
        assert(t.params[0].name == "device_id"@ && t.params[0].required == true);
        if j == 0 {
            assert(ai_plan("stop_recording"@, e) is Err);
        }
    }
    if i == 10 {
        let t = ai_catalog()[10];
        assert(t.name == "recording_status"@ && t.params.len() == 1);
        assert(t.params[0].name == "device_id"@ && t.params[0].required == true);
        if j == 0 {
            assert(ai_plan("recording_status"@, e) is Err);
        }
    }
    if i == 11 {
        let t = ai_catalog()[11];
        assert(t.name == "ask_user"@ && t.params.len() == 3);
        assert(t.params[0].name == "prompt"@ && t.params[0].required == true);
        assert(t.params[1].name == "options"@ && t.params[1].required == true);
        assert(t.params[2].name == "allow_custom"@ && t.params[2].required == false);
        if j == 0 {
            assert(ai_plan("ask_user"@, e) is Err);
        }
        if j == 1 {
            assert(ai_plan("ask_user"@, e) is Err);
        }
    }
}



} // verus!
