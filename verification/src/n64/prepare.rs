//! Bringing up the core, the ROM and the plugins, and undoing exactly what was done when a step
//! fails.

use vstd::prelude::*;
use crate::n64::control::{ButtonSet, KeyChange};
use crate::n64::control;

verus! {

/// A plugin of the core.
#[derive(Clone, Copy, Debug, PartialEq, Eq, Structural)]
pub enum PluginKind {
    Gfx,
    Input,
    Rsp,
}

impl PluginKind {
    /// The core's number of the plugin kind.
    pub open spec fn number(self) -> i32 {
        match self {
            PluginKind::Gfx => 2,
            PluginKind::Input => 4,
            PluginKind::Rsp => 1,
        }
    }

    /// The library that holds the plugin.
    pub open spec fn library(self) -> Seq<char> {
        match self {
            PluginKind::Gfx => "mupen64plus-video-rice"@,
            PluginKind::Input => "mupen64plus-input-sdl"@,
            PluginKind::Rsp => "mupen64plus-rsp-hle"@,
        }
    }

    /// The core's number of the plugin kind.
    pub fn code(self) -> (r: i32)
        ensures
            r == self.number(),
    {
        match self {
            PluginKind::Gfx => 2,
            PluginKind::Input => 4,
            PluginKind::Rsp => 1,
        }
    }

    /// The library that holds the plugin.
    pub fn stem(self) -> (r: &'static str)
        ensures
            r@ == self.library(),
    {
        match self {
            PluginKind::Gfx => "mupen64plus-video-rice",
            PluginKind::Input => "mupen64plus-input-sdl",
            PluginKind::Rsp => "mupen64plus-rsp-hle",
        }
    }
}

/// The plugins to attach, in order; the video plugin only with a display.
pub open spec fn plugins(display: bool) -> Seq<PluginKind> {
    if display {
        seq![PluginKind::Gfx, PluginKind::Input, PluginKind::Rsp]
    } else {
        seq![PluginKind::Input, PluginKind::Rsp]
    }
}

/// The plugins to attach, in order.
pub fn requested_plugins(display: bool) -> (r: Vec<PluginKind>)
    ensures
        r@ == plugins(display),
{
    let mut r: Vec<PluginKind> = Vec::new();
    if display {
        r.push(PluginKind::Gfx);
    }
    r.push(PluginKind::Input);
    r.push(PluginKind::Rsp);
    assert(r@ =~= plugins(display));
    r
}

/// One step of bringing the core up; plugin steps carry the place of the plugin.
#[derive(Clone, Copy, Debug, PartialEq, Eq, Structural)]
pub enum Step {
    CreateDirectories,
    LoadCore,
    ResolveCore,
    StartCore,
    OpenCoreSection,
    ConfigureCore,
    ReadRom,
    OpenRom,
    LoadPlugin(usize),
    ResolvePlugin(usize),
    StartPlugin(usize),
    ConfigureInput(usize),
    AttachPlugin(usize),
    SetDebugCallbacks,
    SetFrameCallback,
    Done,
}

/// Something that a step acquired and that has to be given back.
#[derive(Clone, Copy, Debug, PartialEq, Eq, Structural)]
pub enum Resource {
    CoreLibrary,
    RunningCore,
    OpenRom,
    PluginLibrary(PluginKind),
    RunningPlugin(PluginKind),
    AttachedPlugin(PluginKind),
}

/// The three resources of an attached plugin, in the order of their acquisition.
pub open spec fn plugin_resources(kind: PluginKind) -> Seq<Resource> {
    seq![
        Resource::PluginLibrary(kind),
        Resource::RunningPlugin(kind),
        Resource::AttachedPlugin(kind),
    ]
}

/// The resources of the first `n` plugins.
pub open spec fn attached(display: bool, n: nat) -> Seq<Resource>
    decreases n,
{
    if n == 0 {
        Seq::empty()
    } else {
        attached(display, (n - 1) as nat) + plugin_resources(plugins(display)[n - 1])
    }
}

/// What has been acquired before a step.
pub open spec fn acquired(display: bool, step: Step) -> Seq<Resource> {
    let core = seq![Resource::CoreLibrary];
    let started = core.push(Resource::RunningCore);
    let opened = started.push(Resource::OpenRom);
    match step {
        Step::CreateDirectories => Seq::empty(),
        Step::LoadCore => Seq::empty(),
        Step::ResolveCore => core,
        Step::StartCore => core,
        Step::OpenCoreSection => started,
        Step::ConfigureCore => started,
        Step::ReadRom => started,
        Step::OpenRom => started,
        Step::LoadPlugin(i) => opened + attached(display, i as nat),
        Step::ResolvePlugin(i) => (opened + attached(display, i as nat)).push(
            Resource::PluginLibrary(plugins(display)[i as int]),
        ),
        Step::StartPlugin(i) => (opened + attached(display, i as nat)).push(
            Resource::PluginLibrary(plugins(display)[i as int]),
        ),
        Step::ConfigureInput(i) => (opened + attached(display, i as nat)).push(
            Resource::PluginLibrary(plugins(display)[i as int]),
        ).push(Resource::RunningPlugin(plugins(display)[i as int])),
        Step::AttachPlugin(i) => (opened + attached(display, i as nat)).push(
            Resource::PluginLibrary(plugins(display)[i as int]),
        ).push(Resource::RunningPlugin(plugins(display)[i as int])),
        Step::SetDebugCallbacks => opened + attached(display, plugins(display).len()),
        Step::SetFrameCallback => opened + attached(display, plugins(display).len()),
        Step::Done => opened + attached(display, plugins(display).len()),
    }
}

/// What one step adds when it succeeds.
pub open spec fn gained(display: bool, step: Step) -> Seq<Resource> {
    match step {
        Step::LoadCore => seq![Resource::CoreLibrary],
        Step::StartCore => seq![Resource::RunningCore],
        Step::OpenRom => seq![Resource::OpenRom],
        Step::LoadPlugin(i) => seq![Resource::PluginLibrary(plugins(display)[i as int])],
        Step::StartPlugin(i) => seq![Resource::RunningPlugin(plugins(display)[i as int])],
        Step::AttachPlugin(i) => seq![Resource::AttachedPlugin(plugins(display)[i as int])],
        _ => Seq::empty(),
    }
}

/// Whether a step is one of those for a display setting.
pub open spec fn valid(display: bool, step: Step) -> bool {
    match step {
        Step::LoadPlugin(i) => i < plugins(display).len(),
        Step::ResolvePlugin(i) => i < plugins(display).len(),
        Step::StartPlugin(i) => i < plugins(display).len(),
        Step::ConfigureInput(i) => i < plugins(display).len() && plugins(display)[i as int]
            is Input,
        Step::AttachPlugin(i) => i < plugins(display).len(),
        _ => true,
    }
}

/// The step after one that succeeded. Only the input plugin is configured before it is attached.
pub open spec fn following(display: bool, step: Step) -> Step {
    match step {
        Step::CreateDirectories => Step::LoadCore,
        Step::LoadCore => Step::ResolveCore,
        Step::ResolveCore => Step::StartCore,
        Step::StartCore => Step::OpenCoreSection,
        Step::OpenCoreSection => Step::ConfigureCore,
        Step::ConfigureCore => Step::ReadRom,
        Step::ReadRom => Step::OpenRom,
        Step::OpenRom => Step::LoadPlugin(0),
        Step::LoadPlugin(i) => Step::ResolvePlugin(i),
        Step::ResolvePlugin(i) => Step::StartPlugin(i),
        Step::StartPlugin(i) => if plugins(display)[i as int] is Input {
            Step::ConfigureInput(i)
        } else {
            Step::AttachPlugin(i)
        },
        Step::ConfigureInput(i) => Step::AttachPlugin(i),
        Step::AttachPlugin(i) => if i + 1 < plugins(display).len() {
            Step::LoadPlugin((i + 1) as usize)
        } else {
            Step::SetDebugCallbacks
        },
        Step::SetDebugCallbacks => Step::SetFrameCallback,
        Step::SetFrameCallback => Step::Done,
        Step::Done => Step::Done,
    }
}

/// A successful step adds exactly what it acquires to what was there before.
pub proof fn steps_add_what_they_gain(display: bool, step: Step)
    requires
        valid(display, step),
    ensures
        valid(display, following(display, step)),
        acquired(display, following(display, step)) == acquired(display, step) + gained(
            display,
            step,
        ),
{
    let before = acquired(display, step);
    let after = acquired(display, following(display, step));
    match step {
        Step::OpenRom => {
            assert(attached(display, 0) =~= Seq::empty());
            assert(after =~= before.push(Resource::OpenRom));
        },
        Step::AttachPlugin(i) => {
            let all = attached(display, (i + 1) as nat);
            let kind = plugins(display)[i as int];
            assert(all == attached(display, i as nat) + plugin_resources(kind));
            assert(after =~= before.push(Resource::AttachedPlugin(kind)));
        },
        _ => {},
    }
    assert(after =~= before + gained(display, step));
}

/// What has to be given back when a step fails or the preparation is dropped: everything that
/// was acquired, the last first.
pub open spec fn released(display: bool, step: Step) -> Seq<Resource> {
    acquired(display, step).reverse()
}

/// A preparation under way.
#[derive(Clone, Copy, Debug, PartialEq, Eq, Structural)]
pub struct Preparation {
    pub display: bool,
    pub step: Step,
}

impl Preparation {
    /// Before the first step.
    pub fn new(display: bool) -> (r: Preparation)
        ensures
            r == (Preparation { display, step: Step::CreateDirectories }),
            valid(display, r.step),
    {
        Preparation { display, step: Step::CreateDirectories }
    }

    /// The plugin that a plugin step is about.
    pub fn plugin(self, i: usize) -> (r: PluginKind)
        requires
            i < plugins(self.display).len(),
        ensures
            r == plugins(self.display)[i as int],
    {
        if self.display {
            if i == 0 {
                PluginKind::Gfx
            } else if i == 1 {
                PluginKind::Input
            } else {
                PluginKind::Rsp
            }
        } else if i == 0 {
            PluginKind::Input
        } else {
            PluginKind::Rsp
        }
    }

    /// Goes on to the next step after one that succeeded.
    pub fn succeed(self) -> (r: Preparation)
        requires
            valid(self.display, self.step),
        ensures
            r == (Preparation { step: following(self.display, self.step), ..self }),
            valid(r.display, r.step),
            acquired(r.display, r.step) == acquired(self.display, self.step) + gained(
                self.display,
                self.step,
            ),
    {
        proof {
            steps_add_what_they_gain(self.display, self.step);
        }
        let last: usize = if self.display {
            2
        } else {
            1
        };
        let step = match self.step {
            Step::CreateDirectories => Step::LoadCore,
            Step::LoadCore => Step::ResolveCore,
            Step::ResolveCore => Step::StartCore,
            Step::StartCore => Step::OpenCoreSection,
            Step::OpenCoreSection => Step::ConfigureCore,
            Step::ConfigureCore => Step::ReadRom,
            Step::ReadRom => Step::OpenRom,
            Step::OpenRom => Step::LoadPlugin(0),
            Step::LoadPlugin(i) => Step::ResolvePlugin(i),
            Step::ResolvePlugin(i) => Step::StartPlugin(i),
            Step::StartPlugin(i) => if self.plugin(i) == PluginKind::Input {
                Step::ConfigureInput(i)
            } else {
                Step::AttachPlugin(i)
            },
            Step::ConfigureInput(i) => Step::AttachPlugin(i),
            Step::AttachPlugin(i) => if i < last {
                Step::LoadPlugin(i + 1)
            } else {
                Step::SetDebugCallbacks
            },
            Step::SetDebugCallbacks => Step::SetFrameCallback,
            Step::SetFrameCallback => Step::Done,
            Step::Done => Step::Done,
        };
        Preparation { display: self.display, step }
    }

    /// What to give back, in order, when the present step fails.
    pub fn fail(self) -> (r: Vec<Resource>)
        requires
            valid(self.display, self.step),
        ensures
            r@ == released(self.display, self.step),
    {
        let mut held: Vec<Resource> = Vec::new();
        let (core, started, opened) = match self.step {
            Step::CreateDirectories => (false, false, false),
            Step::LoadCore => (false, false, false),
            Step::ResolveCore => (true, false, false),
            Step::StartCore => (true, false, false),
            Step::OpenCoreSection => (true, true, false),
            Step::ConfigureCore => (true, true, false),
            Step::ReadRom => (true, true, false),
            Step::OpenRom => (true, true, false),
            _ => (true, true, true),
        };
        if core {
            held.push(Resource::CoreLibrary);
        }
        if started {
            held.push(Resource::RunningCore);
        }
        if opened {
            held.push(Resource::OpenRom);
        }
        let ghost base = held@;
        let total: usize = if self.display {
            3
        } else {
            2
        };
        let count: usize = match self.step {
            Step::LoadPlugin(i) => i,
            Step::ResolvePlugin(i) => i,
            Step::StartPlugin(i) => i,
            Step::ConfigureInput(i) => i,
            Step::AttachPlugin(i) => i,
            Step::SetDebugCallbacks => total,
            Step::SetFrameCallback => total,
            Step::Done => total,
            _ => 0,
        };
        let mut i: usize = 0;
        assert(held@ =~= base + attached(self.display, 0));
        while i < count
            invariant
                i <= count <= plugins(self.display).len(),
                held@ == base + attached(self.display, i as nat),
            decreases count - i,
        {
            let kind = self.plugin(i);
            held.push(Resource::PluginLibrary(kind));
            held.push(Resource::RunningPlugin(kind));
            held.push(Resource::AttachedPlugin(kind));
            i += 1;
            assert(held@ =~= base + attached(self.display, i as nat));
        }
        match self.step {
            Step::ResolvePlugin(i) => {
                held.push(Resource::PluginLibrary(self.plugin(i)));
            },
            Step::StartPlugin(i) => {
                held.push(Resource::PluginLibrary(self.plugin(i)));
            },
            Step::ConfigureInput(i) => {
                held.push(Resource::PluginLibrary(self.plugin(i)));
                held.push(Resource::RunningPlugin(self.plugin(i)));
            },
            Step::AttachPlugin(i) => {
                held.push(Resource::PluginLibrary(self.plugin(i)));
                held.push(Resource::RunningPlugin(self.plugin(i)));
            },
            _ => {},
        }
        assert(held@ =~= acquired(self.display, self.step));
        reversed(held.as_slice())
    }
}

fn reversed(items: &[Resource]) -> (r: Vec<Resource>)
    ensures
        r@ == items@.reverse(),
{
    let mut r: Vec<Resource> = Vec::new();
    let mut i: usize = items.len();
    while i > 0
        invariant
            i <= items.len(),
            r@.len() == items.len() - i,
            forall|k: int| 0 <= k < r@.len() ==> #[trigger] r@[k] == items@[items@.len() - 1 - k],
        decreases i,
    {
        i -= 1;
        r.push(items[i]);
    }
    assert(r@ =~= items@.reverse());
    r
}

/// How a host is taken down.
#[derive(Clone, Copy, Debug, PartialEq, Eq, Structural)]
pub struct Shutdown {
    /// Tell the core to stop.
    pub stop: bool,
    /// Give back the plugins, the ROM and the core.
    pub unload: bool,
}

/// Decides how a host is taken down: before execution started everything is given back; a running
/// execution is told to stop; libraries are unloaded only once execution has ended.
pub fn shutdown_plan(started: bool, terminal: bool) -> (r: Shutdown)
    ensures
        r.stop == (started && !terminal),
        r.unload == (!started || terminal),
{
    Shutdown { stop: started && !terminal, unload: !started || terminal }
}

/// The keys to release when a started host is taken down.
pub fn closing_keys(held: &ButtonSet) -> (r: Vec<KeyChange>)
    requires
        held.wf(),
    ensures
        r@ == control::changes(held@, control::no_buttons()),
        control::after_changes(held@, r@) == control::no_buttons(),
{
    let none = ButtonSet::new();
    let r = held.changes_to(&none);
    proof {
        control::changes_reach_the_desired_set(held@, none@);
    }
    r
}

/// A setting of the core's configuration.
#[derive(Clone, Copy, Debug)]
pub struct Setting {
    pub name: &'static str,
    pub kind: SettingKind,
}

/// The value of a setting.
#[derive(Clone, Copy, Debug)]
pub enum SettingKind {
    Int(i32),
    Bool(bool),
    Text(&'static str),
}

/// What a setting holds.
pub enum SettingView {
    Int(Seq<char>, int),
    Bool(Seq<char>, bool),
    Text(Seq<char>, Seq<char>),
}

impl View for Setting {
    type V = SettingView;

    open spec fn view(&self) -> SettingView {
        match self.kind {
            SettingKind::Int(n) => SettingView::Int(self.name@, n as int),
            SettingKind::Bool(b) => SettingView::Bool(self.name@, b),
            SettingKind::Text(s) => SettingView::Text(self.name@, s@),
        }
    }
}

/// What a list of settings holds.
pub open spec fn settings_view(settings: Seq<Setting>) -> Seq<SettingView> {
    Seq::new(settings.len(), |i: int| settings[i]@)
}

/// The fixed settings of the core: the pure interpreter, with the debugger and without overlay.
pub fn core_settings() -> (r: Vec<Setting>)
    ensures
        settings_view(r@) == seq![
            SettingView::Int("R4300Emulator"@, 0),
            SettingView::Bool("EnableDebugger"@, true),
            SettingView::Bool("OnScreenDisplay"@, false),
        ],
{
    let mut r: Vec<Setting> = Vec::new();
    r.push(Setting { name: "R4300Emulator", kind: SettingKind::Int(0) });
    r.push(Setting { name: "EnableDebugger", kind: SettingKind::Bool(true) });
    r.push(Setting { name: "OnScreenDisplay", kind: SettingKind::Bool(false) });
    assert(settings_view(r@) =~= seq![
        SettingView::Int("R4300Emulator"@, 0),
        SettingView::Bool("EnableDebugger"@, true),
        SettingView::Bool("OnScreenDisplay"@, false),
    ]);
    r
}

/// The settings of the first controller: a plugged-in keyboard with every button bound.
pub open spec fn first_controller() -> Seq<SettingView> {
    seq![
        SettingView::Int("mode"@, 0),
        SettingView::Int("device"@, -1),
        SettingView::Text("name"@, "Keyboard"@),
        SettingView::Bool("plugged"@, true),
        SettingView::Int("plugin"@, 2),
        SettingView::Bool("mouse"@, false),
        SettingView::Text("DPad R"@, "key(275)"@),
        SettingView::Text("DPad L"@, "key(276)"@),
        SettingView::Text("DPad D"@, "key(274)"@),
        SettingView::Text("DPad U"@, "key(273)"@),
        SettingView::Text("Start"@, "key(13)"@),
        SettingView::Text("Z Trig"@, "key(122)"@),
        SettingView::Text("B Button"@, "key(99)"@),
        SettingView::Text("A Button"@, "key(120)"@),
        SettingView::Text("C Button R"@, "key(108)"@),
        SettingView::Text("C Button L"@, "key(106)"@),
        SettingView::Text("C Button D"@, "key(107)"@),
        SettingView::Text("C Button U"@, "key(105)"@),
        SettingView::Text("R Trig"@, "key(101)"@),
        SettingView::Text("L Trig"@, "key(113)"@),
        SettingView::Text("Mempak switch"@, ""@),
        SettingView::Text("Rumblepak switch"@, ""@),
        SettingView::Text("X Axis"@, "key(97,100)"@),
        SettingView::Text("Y Axis"@, "key(119,115)"@),
    ]
}

/// The settings of the other controllers: unplugged.
pub open spec fn other_controller() -> Seq<SettingView> {
    seq![
        SettingView::Int("mode"@, 0),
        SettingView::Int("device"@, -1),
        SettingView::Bool("plugged"@, false),
        SettingView::Int("plugin"@, 2),
        SettingView::Bool("mouse"@, false),
    ]
}

fn text_setting(name: &'static str, value: &'static str) -> (r: Setting)
    ensures
        r@ == SettingView::Text(name@, value@),
{
    Setting { name, kind: SettingKind::Text(value) }
}

/// The settings of a controller, the first being zero.
pub fn controller_settings(port: usize) -> (r: Vec<Setting>)
    ensures
        settings_view(r@) == (if port == 0 {
            first_controller()
        } else {
            other_controller()
        }),
{
    let mut r: Vec<Setting> = Vec::new();
    r.push(Setting { name: "mode", kind: SettingKind::Int(0) });
    r.push(Setting { name: "device", kind: SettingKind::Int(-1) });
    if port != 0 {
        r.push(Setting { name: "plugged", kind: SettingKind::Bool(false) });
        r.push(Setting { name: "plugin", kind: SettingKind::Int(2) });
        r.push(Setting { name: "mouse", kind: SettingKind::Bool(false) });
        assert(settings_view(r@) =~= other_controller());
        return r;
    }
    r.push(text_setting("name", "Keyboard"));
    r.push(Setting { name: "plugged", kind: SettingKind::Bool(true) });
    r.push(Setting { name: "plugin", kind: SettingKind::Int(2) });
    r.push(Setting { name: "mouse", kind: SettingKind::Bool(false) });
    r.push(text_setting("DPad R", "key(275)"));
    r.push(text_setting("DPad L", "key(276)"));
    r.push(text_setting("DPad D", "key(274)"));
    r.push(text_setting("DPad U", "key(273)"));
    r.push(text_setting("Start", "key(13)"));
    r.push(text_setting("Z Trig", "key(122)"));
    r.push(text_setting("B Button", "key(99)"));
    r.push(text_setting("A Button", "key(120)"));
    r.push(text_setting("C Button R", "key(108)"));
    r.push(text_setting("C Button L", "key(106)"));
    r.push(text_setting("C Button D", "key(107)"));
    r.push(text_setting("C Button U", "key(105)"));
    r.push(text_setting("R Trig", "key(101)"));
    r.push(text_setting("L Trig", "key(113)"));
    r.push(text_setting("Mempak switch", ""));
    r.push(text_setting("Rumblepak switch", ""));
    r.push(text_setting("X Axis", "key(97,100)"));
    r.push(text_setting("Y Axis", "key(119,115)"));
    assert(settings_view(r@) =~= first_controller());
    r
}

} // verus!
