//! The controls of the Windows application: what each of them sets in motion, step by step.
use crate::panel::Tool;
use crate::text;
use vstd::prelude::*;
use vstd::string::*;

verus! {

/// What the user does.
pub enum UiEvent {
    Install,
    Uninstall,
    Refresh,
    Push,
    /// Install the display; with where its files are, if the tool was found.
    DisplayInstall(Option<String>),
    DisplayUninstall,
    DisplayRefresh,
    DisplayAdd,
    DisplayRemoveAll,
    AudioInstall,
    AudioUninstall,
    AudioRefresh,
    AudioInject,
    AudioLoopback,
    HidInstall,
    HidUninstall,
    HidRefresh,
    /// Press a key, by what was typed.
    HidKey(String),
    /// Click a button of the mouse, by what was typed.
    HidMouseClick(String),
    /// Move the mouse.
    HidMouseMove(i32, i32),
    /// Move the slider of a band.
    EqChanged(i32),
    /// Switch the bypass, which is on or off.
    BypassToggled(bool),
    ZeroAll,
    /// The levelling was switched on or off, with the target that is shown.
    LevelingToggled(bool, String),
    /// The limiter was switched on or off, with the ceiling that is shown.
    LimiterToggled(bool, String),
    PickWav,
    MakeDemo,
    Render,
}

/// One step of what is set in motion.
pub enum Step {
    /// Log a line.
    Log(String),
    /// Run a tool with arguments and log how it ended.
    Run(Tool, Vec<String>),
    /// Ask for the state of a device and show it.
    Refresh(Tool),
    /// Start or stop pushing.
    TogglePush,
    /// Test the sound card; with or without listening.
    AudioTest(bool),
    /// Set the gain of a band to the slider's value.
    SetGain(usize),
    /// Set every gain to zero.
    ZeroGains,
    /// Switch the bypass.
    SetBypass(bool),
    /// Draw the response curve again.
    RefreshCurve,
    PickWav,
    MakeDemo,
    Render,
}

/// One step of what is set in motion, in terms of its texts.
#[verifier::ext_equal]
pub enum StepWords {
    Log(Seq<char>),
    Run(Tool, Seq<Seq<char>>),
    Refresh(Tool),
    TogglePush,
    AudioTest(bool),
    SetGain(usize),
    ZeroGains,
    SetBypass(bool),
    RefreshCurve,
    PickWav,
    MakeDemo,
    Render,
}

impl View for Step {
    type V = StepWords;

    open spec fn view(&self) -> StepWords {
        match *self {
            Step::Log(s) => StepWords::Log(s@),
            Step::Run(tool, args) => StepWords::Run(tool, text::texts(args@)),
            Step::Refresh(tool) => StepWords::Refresh(tool),
            Step::TogglePush => StepWords::TogglePush,
            Step::AudioTest(b) => StepWords::AudioTest(b),
            Step::SetGain(i) => StepWords::SetGain(i),
            Step::ZeroGains => StepWords::ZeroGains,
            Step::SetBypass(b) => StepWords::SetBypass(b),
            Step::RefreshCurve => StepWords::RefreshCurve,
            Step::PickWav => StepWords::PickWav,
            Step::MakeDemo => StepWords::MakeDemo,
            Step::Render => StepWords::Render,
        }
    }
}

/// The steps of a row.
pub open spec fn steps(v: Seq<Step>) -> Seq<StepWords> {
    v.map_values(|s: Step| s@)
}

/// A log line, a tool with its arguments, and the panel of that tool.
pub open spec fn delegated(tool: Tool, line: Seq<char>, args: Seq<Seq<char>>) -> Seq<StepWords> {
    seq![StepWords::Log(line), StepWords::Run(tool, args), StepWords::Refresh(tool)]
}

/// `开` or `关`.
pub open spec fn on_off(on: bool) -> Seq<char> {
    if on {
        "开"@
    } else {
        "关"@
    }
}

/// What the user sets in motion.
pub open spec fn steps_for(ev: UiEvent) -> Seq<StepWords> {
    match ev {
        UiEvent::Install => delegated(
            Tool::Camera,
            "安装虚拟摄像头…（委托 vdev-camera-win CLI）"@,
            seq!["install"@],
        ),
        UiEvent::Uninstall => delegated(
            Tool::Camera,
            "卸载虚拟摄像头…（委托 vdev-camera-win CLI）"@,
            seq!["uninstall"@],
        ),
        UiEvent::Refresh => seq![StepWords::Refresh(Tool::Camera)],
        UiEvent::Push => seq![StepWords::TogglePush],
        UiEvent::DisplayInstall(dir) => seq![
            StepWords::Log(
                "安装虚拟显示器…（委托 vdev-display-win CLI，将请求管理员权限）"@,
            ),
            match dir {
                Some(dir) => StepWords::Run(
                    Tool::Display,
                    seq!["install"@, "--inf-dir"@, dir@],
                ),
                None => StepWords::Log("❌ 未找到 vdev-display-win.exe"@),
            },
            StepWords::Refresh(Tool::Display),
        ],
        UiEvent::DisplayUninstall => delegated(
            Tool::Display,
            "卸载虚拟显示器…（将请求管理员权限）"@,
            seq!["uninstall"@],
        ),
        UiEvent::DisplayRefresh => seq![StepWords::Refresh(Tool::Display)],
        UiEvent::DisplayAdd => delegated(
            Tool::Display,
            "添加 1920x1080 虚拟屏…"@,
            seq!["add"@, "1920x1080"@],
        ),
        UiEvent::DisplayRemoveAll => delegated(
            Tool::Display,
            "移除全部虚拟屏…"@,
            seq!["remove-all"@],
        ),
        UiEvent::AudioInstall => delegated(
            Tool::Audio,
            "安装虚拟声卡…（委托 vdev-audio-win CLI，将请求管理员权限）"@,
            seq!["install"@],
        ),
        UiEvent::AudioUninstall => delegated(
            Tool::Audio,
            "卸载虚拟声卡…（将请求管理员权限）"@,
            seq!["uninstall"@],
        ),
        UiEvent::AudioRefresh => seq![StepWords::Refresh(Tool::Audio)],
        UiEvent::AudioInject => seq![StepWords::AudioTest(false)],
        UiEvent::AudioLoopback => seq![StepWords::AudioTest(true)],
        UiEvent::HidInstall => delegated(
            Tool::Hid,
            "安装虚拟键盘…（委托 vdev-hid-win CLI，将请求管理员权限）"@,
            seq!["kernel"@, "install"@],
        ),
        UiEvent::HidUninstall => delegated(
            Tool::Hid,
            "卸载虚拟键盘…（将请求管理员权限）"@,
            seq!["kernel"@, "uninstall"@],
        ),
        UiEvent::HidRefresh => seq![StepWords::Refresh(Tool::Hid)],
        UiEvent::HidKey(key) => {
            let key = text::trimmed(key@);
            if key.len() == 0 {
                seq![StepWords::Log("⚠️ 键名为空"@)]
            } else {
                seq![
                    StepWords::Log("注入按键："@ + key),
                    StepWords::Run(Tool::Hid, seq!["kernel"@, "key"@, key]),
                ]
            }
        },
        UiEvent::HidMouseClick(button) => {
            let button = text::trimmed(button@);
            seq![
                StepWords::Log("注入鼠标点击："@ + button),
                StepWords::Run(Tool::Hid, seq!["kernel"@, "mouse"@, "click"@, button]),
            ]
        },
        UiEvent::HidMouseMove(dx, dy) => seq![
            StepWords::Log(
                "注入鼠标相对移动（"@ + text::signed_decimal(dx as int) + ","@
                    + text::signed_decimal(dy as int) + "）"@,
            ),
            StepWords::Run(
                Tool::Hid,
                seq![
                    "kernel"@,
                    "mouse"@,
                    "move"@,
                    text::signed_decimal(dx as int),
                    text::signed_decimal(dy as int),
                ],
            ),
        ],
        UiEvent::EqChanged(band) => seq![
            StepWords::SetGain(
                if band < 0 {
                    0
                } else {
                    band as usize
                },
            ),
            StepWords::RefreshCurve,
        ],
        UiEvent::BypassToggled(on) => seq![
            StepWords::SetBypass(!on),
            StepWords::RefreshCurve,
            StepWords::Log(
                if !on {
                    "EQ 旁路：开（整链恒等）"@
                } else {
                    "EQ 旁路：关"@
                },
            ),
        ],
        UiEvent::ZeroAll => seq![
            StepWords::ZeroGains,
            StepWords::RefreshCurve,
            StepWords::Log("EQ 全部归零"@),
        ],
        UiEvent::LevelingToggled(on, target) => seq![
            StepWords::Log(
                "响度归一化："@ + on_off(on) + " · 目标 "@ + target@ + " LUFS"@,
            ),
        ],
        UiEvent::LimiterToggled(on, ceiling) => seq![
            StepWords::Log(
                "真峰值限幅："@ + on_off(on) + " · ceiling "@ + ceiling@ + " dBFS"@,
            ),
        ],
        UiEvent::PickWav => seq![StepWords::PickWav],
        UiEvent::MakeDemo => seq![StepWords::MakeDemo],
        UiEvent::Render => seq![StepWords::Render],
    }
}

/// A log line as a step.
fn log(line: &str) -> (s: Step)
    ensures
        s@ == StepWords::Log(line@),
{
    Step::Log(String::from_str(line))
}

/// The arguments with one more.
fn with(args: Vec<String>, arg: &str) -> (r: Vec<String>)
    ensures
        text::texts(r@) == text::texts(args@).push(arg@),
{
    let mut r: Vec<String> = args;
    r.push(String::from_str(arg));
    assert(text::texts(r@) =~= text::texts(args@).push(arg@));
    r
}

/// No argument yet.
fn no_args() -> (r: Vec<String>)
    ensures
        text::texts(r@) == Seq::<Seq<char>>::empty(),
{
    let r: Vec<String> = Vec::new();
    assert(text::texts(r@) =~= Seq::<Seq<char>>::empty());
    r
}

/// One step.
fn one(s: Step) -> (v: Vec<Step>)
    ensures
        steps(v@) == seq![s@],
{
    let mut v: Vec<Step> = Vec::new();
    v.push(s);
    assert(steps(v@) =~= seq![s@]);
    v
}

/// The steps with one more.
fn and(v: Vec<Step>, s: Step) -> (r: Vec<Step>)
    ensures
        steps(r@) == steps(v@).push(s@),
{
    let mut r: Vec<Step> = v;
    r.push(s);
    assert(steps(r@) =~= steps(v@).push(s@));
    r
}

/// A log line, a tool with its arguments, and the panel of that tool.
fn delegate(tool: Tool, line: &str, args: Vec<String>) -> (v: Vec<Step>)
    ensures
        steps(v@) == delegated(tool, line@, text::texts(args@)),
{
    let v: Vec<Step> = and(and(one(log(line)), Step::Run(tool, args)), Step::Refresh(tool));
    assert(steps(v@) =~= delegated(tool, line@, text::texts(args@)));
    v
}

/// A number as it is shown.
fn signed_text(n: i32) -> (s: String)
    ensures
        s@ == text::signed_decimal(n as int),
{
    let mut s: String = String::new();
    text::push_signed(&mut s, n as i64);
    assert(s@ =~= text::signed_decimal(n as int));
    s
}

/// What is logged of a switch that has a value beside it.
fn switch_line(what: &str, on: bool, between: &str, value: &str, unit: &str) -> (s: String)
    ensures
        s@ == what@ + on_off(on) + between@ + value@ + unit@,
{
    let mut s: String = String::from_str(what);
    if on {
        s.append("开");
    } else {
        s.append("关");
    }
    s.append(between);
    s.append(value);
    s.append(unit);
    s
}

/// What the user sets in motion with the camera, the sound card and the screens.
fn device_steps(ev: &UiEvent) -> (v: Option<Vec<Step>>)
    ensures
        v matches Some(v) ==> steps(v@) == steps_for(*ev),
        v is None ==> match *ev {
            UiEvent::HidInstall => true,
            UiEvent::HidUninstall => true,
            UiEvent::HidRefresh => true,
            UiEvent::HidKey(_) => true,
            UiEvent::HidMouseClick(_) => true,
            UiEvent::HidMouseMove(_, _) => true,
            UiEvent::EqChanged(_) => true,
            UiEvent::BypassToggled(_) => true,
            UiEvent::ZeroAll => true,
            UiEvent::LevelingToggled(_, _) => true,
            UiEvent::LimiterToggled(_, _) => true,
            UiEvent::PickWav => true,
            UiEvent::MakeDemo => true,
            UiEvent::Render => true,
            _ => false,
        },
{
    let v: Vec<Step> = match ev {
        UiEvent::Install => delegate(
            Tool::Camera,
            "安装虚拟摄像头…（委托 vdev-camera-win CLI）",
            with(no_args(), "install"),
        ),
        UiEvent::Uninstall => delegate(
            Tool::Camera,
            "卸载虚拟摄像头…（委托 vdev-camera-win CLI）",
            with(no_args(), "uninstall"),
        ),
        UiEvent::Refresh => one(Step::Refresh(Tool::Camera)),
        UiEvent::Push => one(Step::TogglePush),
        UiEvent::DisplayInstall(dir) => {
            let begin: Vec<Step> = one(
                log("安装虚拟显示器…（委托 vdev-display-win CLI，将请求管理员权限）"),
            );
            let v: Vec<Step> = match dir {
                Some(dir) => and(
                    begin,
                    Step::Run(
                        Tool::Display,
                        with(with(with(no_args(), "install"), "--inf-dir"), dir.as_str()),
                    ),
                ),
                None => and(begin, log("❌ 未找到 vdev-display-win.exe")),
            };
            and(v, Step::Refresh(Tool::Display))
        },
        UiEvent::DisplayUninstall => delegate(
            Tool::Display,
            "卸载虚拟显示器…（将请求管理员权限）",
            with(no_args(), "uninstall"),
        ),
        UiEvent::DisplayRefresh => one(Step::Refresh(Tool::Display)),
        UiEvent::DisplayAdd => delegate(
            Tool::Display,
            "添加 1920x1080 虚拟屏…",
            with(with(no_args(), "add"), "1920x1080"),
        ),
        UiEvent::DisplayRemoveAll => delegate(
            Tool::Display,
            "移除全部虚拟屏…",
            with(no_args(), "remove-all"),
        ),
        UiEvent::AudioInstall => delegate(
            Tool::Audio,
            "安装虚拟声卡…（委托 vdev-audio-win CLI，将请求管理员权限）",
            with(no_args(), "install"),
        ),
        UiEvent::AudioUninstall => delegate(
            Tool::Audio,
            "卸载虚拟声卡…（将请求管理员权限）",
            with(no_args(), "uninstall"),
        ),
        UiEvent::AudioRefresh => one(Step::Refresh(Tool::Audio)),
        UiEvent::AudioInject => one(Step::AudioTest(false)),
        UiEvent::AudioLoopback => one(Step::AudioTest(true)),
        _ => return None,
    };
    assert(steps(v@) =~~= steps_for(*ev));
    Some(v)
}

/// What the user sets in motion.
pub fn wire_ui(ev: &UiEvent) -> (v: Vec<Step>)
    ensures
        steps(v@) == steps_for(*ev),
{
    match device_steps(ev) {
        Some(v) => return v,
        None => {},
    }
    let v: Vec<Step> = match ev {
        UiEvent::HidInstall => delegate(
            Tool::Hid,
            "安装虚拟键盘…（委托 vdev-hid-win CLI，将请求管理员权限）",
            with(with(no_args(), "kernel"), "install"),
        ),
        UiEvent::HidUninstall => delegate(
            Tool::Hid,
            "卸载虚拟键盘…（将请求管理员权限）",
            with(with(no_args(), "kernel"), "uninstall"),
        ),
        UiEvent::HidKey(key) => {
            let key: String = text::trim(key.as_str());
            if text::chars_of(key.as_str()).len() == 0 {
                one(log("⚠️ 键名为空"))
            } else {
                let mut line: String = String::from_str("注入按键：");
                line.append(key.as_str());
                and(
                    one(Step::Log(line)),
                    Step::Run(
                        Tool::Hid,
                        with(with(with(no_args(), "kernel"), "key"), key.as_str()),
                    ),
                )
            }
        },
        UiEvent::HidMouseClick(button) => {
            let button: String = text::trim(button.as_str());
            let mut line: String = String::from_str("注入鼠标点击：");
            line.append(button.as_str());
            and(
                one(Step::Log(line)),
                Step::Run(
                    Tool::Hid,
                    with(
                        with(with(with(no_args(), "kernel"), "mouse"), "click"),
                        button.as_str(),
                    ),
                ),
            )
        },
        UiEvent::HidMouseMove(dx, dy) => {
            let x: String = signed_text(*dx);
            let y: String = signed_text(*dy);
            let mut line: String = String::from_str("注入鼠标相对移动（");
            line.append(x.as_str());
            line.append(",");
            line.append(y.as_str());
            line.append("）");
            and(
                one(Step::Log(line)),
                Step::Run(
                    Tool::Hid,
                    with(
                        with(
                            with(with(with(no_args(), "kernel"), "mouse"), "move"),
                            x.as_str(),
                        ),
                        y.as_str(),
                    ),
                ),
            )
        },
        UiEvent::EqChanged(band) => {
            let i: usize = if *band < 0 {
                0
            } else {
                *band as usize
            };
            and(one(Step::SetGain(i)), Step::RefreshCurve)
        },
        UiEvent::BypassToggled(on) => {
            let line: &str = if *on {
                "EQ 旁路：关"
            } else {
                "EQ 旁路：开（整链恒等）"
            };
            and(and(one(Step::SetBypass(!*on)), Step::RefreshCurve), log(line))
        },
        UiEvent::ZeroAll => and(
            and(one(Step::ZeroGains), Step::RefreshCurve),
            log("EQ 全部归零"),
        ),
        UiEvent::LevelingToggled(on, target) => one(
            Step::Log(
                switch_line("响度归一化：", *on, " · 目标 ", target.as_str(), " LUFS"),
            ),
        ),
        UiEvent::LimiterToggled(on, ceiling) => one(
            Step::Log(
                switch_line("真峰值限幅：", *on, " · ceiling ", ceiling.as_str(), " dBFS"),
            ),
        ),
        UiEvent::PickWav => one(Step::PickWav),
        UiEvent::MakeDemo => one(Step::MakeDemo),
        UiEvent::Render => one(Step::Render),
        _ => one(Step::Refresh(Tool::Hid)),
    };
    assert(steps(v@) =~~= steps_for(*ev));
    v
}

/// Whatever changes a device shows its state afterwards: every control that installs or removes
/// something ends with asking for the state of that device.
pub proof fn law_device_is_shown_after_it_changes(ev: UiEvent, tool: Tool, args: Seq<Seq<char>>, i: int)
    requires
        0 <= i < steps_for(ev).len(),
        steps_for(ev)[i] == StepWords::Run(tool, args),
        args[0] != "kernel"@ || args[1] == "install"@ || args[1] == "uninstall"@,
    ensures
        steps_for(ev).last() == StepWords::Refresh(tool),
{
    reveal_strlit("kernel");
    reveal_strlit("key");
    reveal_strlit("mouse");
    reveal_strlit("install");
    reveal_strlit("uninstall");
    assert("key"@.len() == 3 && "mouse"@.len() == 5 && "install"@.len() == 7);
    assert("uninstall"@.len() == 9);
}

/// Each device has its own tool. What installs it, what removes it, what adds or removes screens,
/// and what asks for its state all go to that tool: all but the last say what they do, hand over
/// that one command, and then ask for the state.
pub proof fn law_controls_go_to_the_tool_of_the_device(dir: String)
    ensures
        ({
            let installs = |ev: UiEvent, tool: Tool, args: Seq<Seq<char>>|
                {
                    &&& steps_for(ev).len() == 3
                    &&& steps_for(ev)[0] is Log
                    &&& steps_for(ev)[1] == StepWords::Run(tool, args)
                    &&& steps_for(ev)[2] == StepWords::Refresh(tool)
                };
            &&& installs(UiEvent::Install, Tool::Camera, seq!["install"@])
            &&& installs(UiEvent::Uninstall, Tool::Camera, seq!["uninstall"@])
            &&& installs(UiEvent::AudioInstall, Tool::Audio, seq!["install"@])
            &&& installs(UiEvent::AudioUninstall, Tool::Audio, seq!["uninstall"@])
            &&& installs(UiEvent::HidInstall, Tool::Hid, seq!["kernel"@, "install"@])
            &&& installs(UiEvent::HidUninstall, Tool::Hid, seq!["kernel"@, "uninstall"@])
            &&& installs(
                UiEvent::DisplayInstall(Some(dir)),
                Tool::Display,
                seq!["install"@, "--inf-dir"@, dir@],
            )
            &&& installs(UiEvent::DisplayUninstall, Tool::Display, seq!["uninstall"@])
            &&& installs(UiEvent::DisplayAdd, Tool::Display, seq!["add"@, "1920x1080"@])
            &&& installs(UiEvent::DisplayRemoveAll, Tool::Display, seq!["remove-all"@])
            &&& steps_for(UiEvent::Push) == seq![StepWords::TogglePush]
            &&& steps_for(UiEvent::Refresh) == seq![StepWords::Refresh(Tool::Camera)]
            &&& steps_for(UiEvent::AudioRefresh) == seq![StepWords::Refresh(Tool::Audio)]
            &&& steps_for(UiEvent::HidRefresh) == seq![StepWords::Refresh(Tool::Hid)]
            &&& steps_for(UiEvent::DisplayRefresh) == seq![StepWords::Refresh(Tool::Display)]
        }),
        forall|i: int|
            0 <= i < steps_for(UiEvent::DisplayInstall(None)).len() ==> !((#[trigger] steps_for(
                UiEvent::DisplayInstall(None),
            )[i]) is Run),
{
}

/// A key or a button of the mouse is handed on as the user wrote it, without the blanks around it,
/// and a movement with both its distances; a key without a name is not handed on at all.
pub proof fn law_input_is_handed_on(text_in: String, dx: i32, dy: i32)
    ensures
        ({
            let word = text::trimmed(text_in@);
            let key = steps_for(UiEvent::HidKey(text_in));
            &&& word.len() > 0 ==> key.last() == StepWords::Run(
                Tool::Hid,
                seq!["kernel"@, "key"@, word],
            )
            &&& word.len() == 0 ==> key.len() == 1 && key[0] is Log
            &&& steps_for(UiEvent::HidMouseClick(text_in)).last() == StepWords::Run(
                Tool::Hid,
                seq!["kernel"@, "mouse"@, "click"@, word],
            )
            &&& steps_for(UiEvent::HidMouseMove(dx, dy)).last() == StepWords::Run(
                Tool::Hid,
                seq![
                    "kernel"@,
                    "mouse"@,
                    "move"@,
                    text::signed_decimal(dx as int),
                    text::signed_decimal(dy as int),
                ],
            )
        }),
{
}

/// Every change of the equaliser changes what it says and redraws the curve: the band that was
/// moved, all bands, or the bypass, which is on exactly where the equaliser was switched off.
pub proof fn law_curve_follows_the_equaliser(band: i32, on: bool)
    ensures
        band >= 0 ==> steps_for(UiEvent::EqChanged(band)) == seq![
            StepWords::SetGain(band as usize),
            StepWords::RefreshCurve,
        ],
        band < 0 ==> steps_for(UiEvent::EqChanged(band))[0] == StepWords::SetGain(0),
        steps_for(UiEvent::BypassToggled(on))[0] == StepWords::SetBypass(!on),
        steps_for(UiEvent::BypassToggled(on))[1] == StepWords::RefreshCurve,
        steps_for(UiEvent::ZeroAll)[0] == StepWords::ZeroGains,
        steps_for(UiEvent::ZeroAll)[1] == StepWords::RefreshCurve,
        steps_for(UiEvent::AudioLoopback) == seq![StepWords::AudioTest(true)],
        steps_for(UiEvent::AudioInject) == seq![StepWords::AudioTest(false)],
{
}

} // verus!
