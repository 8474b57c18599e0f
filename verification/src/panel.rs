//! The status panels of the Windows application: the tools that do the work, what they answer, and
//! what is shown of it.
use crate::text;
use vstd::prelude::*;
use vstd::string::*;

verus! {

/// The tools that install and control the devices.
#[derive(Clone, Copy, Debug, PartialEq, Eq, Structural)]
pub enum Tool {
    Camera,
    Audio,
    Hid,
    Display,
}

/// The name of a tool.
pub open spec fn tool_words(tool: Tool) -> Seq<char> {
    match tool {
        Tool::Camera => "vdev-camera-win"@,
        Tool::Audio => "vdev-audio-win"@,
        Tool::Hid => "vdev-hid-win"@,
        Tool::Display => "vdev-display-win"@,
    }
}

/// The environment variable that says where a tool is.
pub open spec fn variable_words(tool: Tool) -> Seq<char> {
    match tool {
        Tool::Camera => "VDEV_CAMERA_WIN_EXE"@,
        Tool::Audio => "VDEV_AUDIO_WIN_EXE"@,
        Tool::Hid => "VDEV_HID_WIN_EXE"@,
        Tool::Display => "VDEV_DISPLAY_WIN_EXE"@,
    }
}

/// The name of a tool.
pub fn tool_name(tool: Tool) -> (s: &'static str)
    ensures
        s@ == tool_words(tool),
{
    match tool {
        Tool::Camera => "vdev-camera-win",
        Tool::Audio => "vdev-audio-win",
        Tool::Hid => "vdev-hid-win",
        Tool::Display => "vdev-display-win",
    }
}

/// The environment variable that says where a tool is.
pub fn tool_variable(tool: Tool) -> (s: &'static str)
    ensures
        s@ == variable_words(tool),
{
    match tool {
        Tool::Camera => "VDEV_CAMERA_WIN_EXE",
        Tool::Audio => "VDEV_AUDIO_WIN_EXE",
        Tool::Hid => "VDEV_HID_WIN_EXE",
        Tool::Display => "VDEV_DISPLAY_WIN_EXE",
    }
}

/// The file of a tool.
pub fn tool_file(tool: Tool) -> (s: String)
    ensures
        s@ == tool_words(tool) + ".exe"@,
{
    let mut s: String = String::from_str(tool_name(tool));
    s.append(".exe");
    s
}

/// Where a tool stands beside the application while it is being developed: the steps from the
/// directory of the application.
pub open spec fn developed_at(tool: Tool) -> Seq<Seq<char>> {
    seq![".."@, ".."@, ".."@, tool_words(tool), "target"@] + (if tool == Tool::Camera {
        Seq::empty()
    } else {
        seq!["x86_64-pc-windows-msvc"@]
    }) + seq!["release"@, tool_words(tool) + ".exe"@]
}

/// Where a tool stands beside the application while it is being developed.
pub fn tool_layout(tool: Tool) -> (parts: Vec<String>)
    ensures
        text::texts(parts@) == developed_at(tool),
{
    let mut parts: Vec<String> = Vec::new();
    parts.push(String::from_str(".."));
    parts.push(String::from_str(".."));
    parts.push(String::from_str(".."));
    parts.push(String::from_str(tool_name(tool)));
    parts.push(String::from_str("target"));
    match tool {
        Tool::Camera => {},
        _ => {
            parts.push(String::from_str("x86_64-pc-windows-msvc"));
        },
    }
    parts.push(String::from_str("release"));
    parts.push(tool_file(tool));
    assert(text::texts(parts@) =~= developed_at(tool));
    parts
}

/// Where a tool was found.
#[derive(Clone, Copy, Debug, PartialEq, Eq, Structural)]
pub enum ToolPlace {
    /// Where the environment variable says.
    Variable,
    /// Beside the application.
    Beside,
    /// Where it is built.
    Built,
}

/// Where a tool is taken from, by whether it exists in each place: first where the environment
/// variable says, then beside the application, then where it is built.
pub fn tool_place(at_variable: bool, beside: bool, built: bool) -> (r: Option<ToolPlace>)
    ensures
        r == if at_variable {
            Some(ToolPlace::Variable)
        } else if beside {
            Some(ToolPlace::Beside)
        } else if built {
            Some(ToolPlace::Built)
        } else {
            None
        },
{
    if at_variable {
        return Some(ToolPlace::Variable);
    }
    if beside {
        return Some(ToolPlace::Beside);
    }
    if built {
        return Some(ToolPlace::Built);
    }
    None
}

/// Where the display driver's files are taken from.
#[derive(Clone, Copy, Debug, PartialEq, Eq, Structural)]
pub enum InfDir {
    /// The directory `dist` beside that of the tool.
    Dist,
    /// The directory of the tool.
    Beside,
    /// The current directory.
    Here,
}

/// Where the display driver's files are taken from, by whether the tool has a directory and
/// whether the file is in the one beside it.
pub fn display_inf_dir(has_dir: bool, in_dist: bool) -> (r: InfDir)
    ensures
        r == if !has_dir {
            InfDir::Here
        } else if in_dist {
            InfDir::Dist
        } else {
            InfDir::Beside
        },
{
    if !has_dir {
        return InfDir::Here;
    }
    if in_dist {
        return InfDir::Dist;
    }
    InfDir::Beside
}

/// A number that was typed, or the default where it is none.
pub fn num_or<T: Copy>(typed: Option<T>, default: T) -> (r: T)
    ensures
        r == match typed {
            Some(x) => x,
            None => default,
        },
{
    match typed {
        Some(x) => x,
        None => default,
    }
}

// ---- running a tool ----

/// How running a tool ended.
pub enum CliOutcome {
    /// The tool was not found.
    Missing,
    /// It could not be run, and why.
    NotRun(String),
    /// It ran: whether it succeeded, and what it wrote.
    Ran { ok: bool, out: String, err: String },
}

/// What is logged of a tool that ran.
pub open spec fn outcome_words(tool: Tool, outcome: CliOutcome) -> Seq<char> {
    match outcome {
        CliOutcome::Missing => "❌ 未找到 "@ + tool_words(tool) + ".exe（设置 "@
            + variable_words(tool) + " 或放到 GUI 同目录）"@,
        CliOutcome::NotRun(e) => "❌ 调用 CLI 失败: "@ + e@,
        CliOutcome::Ran { ok, out, err } => if ok {
            "✅ "@ + text::trimmed(out@)
        } else {
            "❌ CLI 失败: "@ + text::trimmed(err@)
        },
    }
}

/// What is logged of a tool that ran.
pub fn outcome_line(tool: Tool, outcome: &CliOutcome) -> (s: String)
    ensures
        s@ == outcome_words(tool, *outcome),
{
    match outcome {
        CliOutcome::Missing => {
            let mut s: String = String::from_str("❌ 未找到 ");
            s.append(tool_name(tool));
            s.append(".exe（设置 ");
            s.append(tool_variable(tool));
            s.append(" 或放到 GUI 同目录）");
            s
        },
        CliOutcome::NotRun(e) => {
            let mut s: String = String::from_str("❌ 调用 CLI 失败: ");
            s.append(e.as_str());
            s
        },
        CliOutcome::Ran { ok, out, err } => {
            if *ok {
                let mut s: String = String::from_str("✅ ");
                let t: String = text::trim(out.as_str());
                s.append(t.as_str());
                s
            } else {
                let mut s: String = String::from_str("❌ CLI 失败: ");
                let t: String = text::trim(err.as_str());
                s.append(t.as_str());
                s
            }
        },
    }
}

// ---- the panels ----

/// What a tool answers when it is asked for the state of its device.
#[derive(Clone, Copy, Debug, PartialEq, Eq, Structural)]
pub enum Reply {
    /// The tool was not found.
    NoTool,
    /// It could not be run.
    NotRun,
    /// What it wrote is no text.
    NotText,
    /// What it wrote cannot be understood.
    NotParsed,
    /// Whether the device is there.
    Present(bool),
}

/// Which buttons can be pressed.
#[derive(Clone, Copy, Debug, PartialEq, Eq, Structural)]
pub struct Buttons {
    pub install: bool,
    pub uninstall: bool,
    /// Pushing pictures to the camera, or adding a screen.
    pub extra: bool,
}

/// What changes on a panel.
pub struct Refresh {
    pub glyph: &'static str,
    pub title: String,
    pub detail: String,
    /// The buttons, where they change.
    pub buttons: Option<Buttons>,
    /// What is logged, if anything.
    pub log: Option<&'static str>,
}

/// What changes on a panel.
pub struct RefreshWords {
    pub glyph: Seq<char>,
    pub title: Seq<char>,
    pub detail: Seq<char>,
    pub buttons: Option<Buttons>,
    pub log: Option<Seq<char>>,
}

impl View for Refresh {
    type V = RefreshWords;

    open spec fn view(&self) -> RefreshWords {
        RefreshWords {
            glyph: self.glyph@,
            title: self.title@,
            detail: self.detail@,
            buttons: self.buttons,
            log: match self.log {
                Some(s) => Some(s@),
                None => None,
            },
        }
    }
}

/// The arguments that ask a tool for the state of its device, as they are shown.
pub open spec fn question_words(tool: Tool) -> Seq<char> {
    match tool {
        Tool::Hid => " --json kernel status"@,
        _ => " --json status"@,
    }
}

/// What changes where the question failed: the texts alone.
pub open spec fn failed_words(tool: Tool, reply: Reply) -> RefreshWords {
    RefreshWords {
        glyph: "!"@,
        title: match reply {
            Reply::NoTool => "未找到 "@ + tool_words(tool),
            Reply::NotRun => "状态查询失败"@,
            _ => "状态解析失败"@,
        },
        detail: match reply {
            Reply::NoTool => "请把 "@ + tool_words(tool) + ".exe 放到 GUI 同目录，或设置 "@
                + variable_words(tool) + "。"@,
            Reply::NotRun => "无法运行 "@ + tool_words(tool) + question_words(tool) + "。"@,
            Reply::NotText => "CLI 输出非 UTF-8。"@,
            _ => "无法解析 "@ + tool_words(tool) + " 输出。"@,
        },
        buttons: None,
        log: None,
    }
}

/// What changes where the device is there, or is not.
pub open spec fn present_words(tool: Tool, present: bool) -> RefreshWords {
    RefreshWords {
        glyph: if present {
            "✓"@
        } else {
            "○"@
        },
        title: match (tool, present) {
            (Tool::Camera, true) => "已安装，摄像头可用"@,
            (Tool::Camera, false) => "虚拟摄像头未安装"@,
            (Tool::Audio, true) => "已安装，虚拟声卡可用"@,
            (Tool::Audio, false) => "虚拟声卡未安装"@,
            (Tool::Hid, true) => "已安装，虚拟键盘可用"@,
            (Tool::Hid, false) => "虚拟键盘未安装"@,
            (Tool::Display, true) => "已安装，虚拟显示器可用"@,
            (Tool::Display, false) => "虚拟显示器未安装"@,
        },
        detail: match (tool, present) {
            (Tool::Camera, true) =>
                "系统已能看到 vdev-camera。任意 App 摄像头列表选 vdev-camera，或 ffmpeg -f dshow -i video=vdev-camera。"@,
            (Tool::Camera, false) => "点击「安装虚拟摄像头」，然后刷新状态确认。"@,
            (Tool::Audio, true) =>
                "控制面板应出现「vdev 扬声器」与「vdev 麦克风」；播放到扬声器的声音会被麦克风录制。"@,
            (Tool::Audio, false) =>
                "点击「安装虚拟声卡」安装 PortCls 内核驱动（需管理员与测试签名，会请求管理员权限）。"@,
            (Tool::Hid, true) =>
                "设备管理器 HID 类应出现「vdev 虚拟键盘」；可注入按键（经内核驱动报告）。"@,
            (Tool::Hid, false) =>
                "点击「安装虚拟键盘」安装 KMDF 内核 HID 驱动（需管理员与测试签名，会请求管理员权限）。"@,
            (Tool::Display, true) =>
                "系统已识别 vdev 虚拟显示器；点「添加 1920x1080」增加虚拟屏，然后在系统设置里扩展桌面。"@,
            (Tool::Display, false) =>
                "点击「安装虚拟显示器」安装 IddCx 驱动（会请求管理员权限）。"@,
        },
        buttons: Some(Buttons { install: !present, uninstall: present, extra: present }),
        log: Some(
            match (tool, present) {
                (Tool::Camera, true) => "✅ 检测到 vdev-camera"@,
                (Tool::Camera, false) => "未检测到 vdev-camera（先安装）"@,
                (Tool::Audio, true) => "✅ 检测到 vdev 虚拟声卡设备"@,
                (Tool::Audio, false) => "未检测到 vdev 虚拟声卡（先安装）"@,
                (Tool::Hid, true) => "✅ 检测到 vdev 虚拟键盘设备"@,
                (Tool::Hid, false) => "未检测到 vdev 虚拟键盘（先安装）"@,
                (Tool::Display, true) => "✅ 检测到 vdev 虚拟显示器设备"@,
                (Tool::Display, false) => "未检测到 vdev 虚拟显示器（先安装）"@,
            },
        ),
    }
}

/// What changes on the panel of a tool.
pub open spec fn refreshed(tool: Tool, reply: Reply) -> RefreshWords {
    match reply {
        Reply::Present(present) => present_words(tool, present),
        _ => failed_words(tool, reply),
    }
}

/// What is logged before a tool is asked.
pub fn refresh_line(tool: Tool) -> (s: &'static str)
    ensures
        s@ == match tool {
            Tool::Camera => "刷新状态…"@,
            Tool::Audio => "刷新声卡状态…"@,
            Tool::Hid => "刷新 HID 键盘状态…"@,
            Tool::Display => "刷新显示器状态…"@,
        },
{
    match tool {
        Tool::Camera => "刷新状态…",
        Tool::Audio => "刷新声卡状态…",
        Tool::Hid => "刷新 HID 键盘状态…",
        Tool::Display => "刷新显示器状态…",
    }
}

/// What changes where the question failed.
fn failed_refresh(tool: Tool, reply: Reply) -> (r: Refresh)
    requires
        !(reply is Present),
    ensures
        r@ == failed_words(tool, reply),
{
    let mut title: String = String::new();
    let mut detail: String = String::new();
    match reply {
        Reply::NoTool => {
            title.append("未找到 ");
            title.append(tool_name(tool));
            detail.append("请把 ");
            detail.append(tool_name(tool));
            detail.append(".exe 放到 GUI 同目录，或设置 ");
            detail.append(tool_variable(tool));
            detail.append("。");
        },
        Reply::NotRun => {
            title.append("状态查询失败");
            detail.append("无法运行 ");
            detail.append(tool_name(tool));
            match tool {
                Tool::Hid => {
                    detail.append(" --json kernel status");
                },
                _ => {
                    detail.append(" --json status");
                },
            }
            detail.append("。");
        },
        Reply::NotText => {
            title.append("状态解析失败");
            detail.append("CLI 输出非 UTF-8。");
        },
        _ => {
            title.append("状态解析失败");
            detail.append("无法解析 ");
            detail.append(tool_name(tool));
            detail.append(" 输出。");
        },
    }
    assert(title@ =~= failed_words(tool, reply).title);
    assert(detail@ =~= failed_words(tool, reply).detail);
    Refresh { glyph: "!", title, detail, buttons: None, log: None }
}

/// What changes where the device is there, or is not.
fn present_refresh(
    present: bool,
    title: &'static str,
    detail: &'static str,
    log: &'static str,
) -> (r: Refresh)
    ensures
        r@ == (RefreshWords {
            glyph: if present {
                "✓"@
            } else {
                "○"@
            },
            title: title@,
            detail: detail@,
            buttons: Some(Buttons { install: !present, uninstall: present, extra: present }),
            log: Some(log@),
        }),
{
    Refresh {
        glyph: if present {
            "✓"
        } else {
            "○"
        },
        title: String::from_str(title),
        detail: String::from_str(detail),
        buttons: Some(Buttons { install: !present, uninstall: present, extra: present }),
        log: Some(log),
    }
}

/// What changes on the camera's panel, by whether the camera can be seen.
pub fn refresh_status(visible: bool) -> (r: Refresh)
    ensures
        r@ == refreshed(Tool::Camera, Reply::Present(visible)),
{
    if visible {
        present_refresh(
            true,
            "已安装，摄像头可用",
            "系统已能看到 vdev-camera。任意 App 摄像头列表选 vdev-camera，或 ffmpeg -f dshow -i video=vdev-camera。",
            "✅ 检测到 vdev-camera",
        )
    } else {
        present_refresh(
            false,
            "虚拟摄像头未安装",
            "点击「安装虚拟摄像头」，然后刷新状态确认。",
            "未检测到 vdev-camera（先安装）",
        )
    }
}

/// What changes on the sound card's panel.
pub fn refresh_audio_status(reply: Reply) -> (r: Refresh)
    ensures
        r@ == refreshed(Tool::Audio, reply),
{
    match reply {
        Reply::Present(true) => present_refresh(
            true,
            "已安装，虚拟声卡可用",
            "控制面板应出现「vdev 扬声器」与「vdev 麦克风」；播放到扬声器的声音会被麦克风录制。",
            "✅ 检测到 vdev 虚拟声卡设备",
        ),
        Reply::Present(false) => present_refresh(
            false,
            "虚拟声卡未安装",
            "点击「安装虚拟声卡」安装 PortCls 内核驱动（需管理员与测试签名，会请求管理员权限）。",
            "未检测到 vdev 虚拟声卡（先安装）",
        ),
        _ => failed_refresh(Tool::Audio, reply),
    }
}

/// What changes on the keyboard's panel.
pub fn refresh_hid_status(reply: Reply) -> (r: Refresh)
    ensures
        r@ == refreshed(Tool::Hid, reply),
{
    match reply {
        Reply::Present(true) => present_refresh(
            true,
            "已安装，虚拟键盘可用",
            "设备管理器 HID 类应出现「vdev 虚拟键盘」；可注入按键（经内核驱动报告）。",
            "✅ 检测到 vdev 虚拟键盘设备",
        ),
        Reply::Present(false) => present_refresh(
            false,
            "虚拟键盘未安装",
            "点击「安装虚拟键盘」安装 KMDF 内核 HID 驱动（需管理员与测试签名，会请求管理员权限）。",
            "未检测到 vdev 虚拟键盘（先安装）",
        ),
        _ => failed_refresh(Tool::Hid, reply),
    }
}

/// What changes on the display's panel.
pub fn refresh_display_status(reply: Reply) -> (r: Refresh)
    ensures
        r@ == refreshed(Tool::Display, reply),
{
    match reply {
        Reply::Present(true) => present_refresh(
            true,
            "已安装，虚拟显示器可用",
            "系统已识别 vdev 虚拟显示器；点「添加 1920x1080」增加虚拟屏，然后在系统设置里扩展桌面。",
            "✅ 检测到 vdev 虚拟显示器设备",
        ),
        Reply::Present(false) => present_refresh(
            false,
            "虚拟显示器未安装",
            "点击「安装虚拟显示器」安装 IddCx 驱动（会请求管理员权限）。",
            "未检测到 vdev 虚拟显示器（先安装）",
        ),
        _ => failed_refresh(Tool::Display, reply),
    }
}

/// What a panel shows.
pub struct Panel {
    pub glyph: &'static str,
    pub title: String,
    pub detail: String,
    pub buttons: Buttons,
}

impl Panel {
    /// Shows other texts.
    pub fn set_status(&mut self, glyph: &'static str, title: String, detail: String)
        ensures
            final(self).glyph@ == glyph@,
            final(self).title@ == title@,
            final(self).detail@ == detail@,
            final(self).buttons == old(self).buttons,
    {
        self.glyph = glyph;
        self.title = title;
        self.detail = detail;
    }

    /// Lets other buttons be pressed.
    pub fn set_enabled(&mut self, buttons: Buttons)
        ensures
            *final(self) == (Panel { buttons, ..*old(self) }),
    {
        self.buttons = buttons;
    }

    /// Shows what changed: the texts, and the buttons where they change too.
    pub fn apply(&mut self, r: Refresh)
        ensures
            final(self).glyph@ == r@.glyph,
            final(self).title@ == r@.title,
            final(self).detail@ == r@.detail,
            final(self).buttons == match r@.buttons {
                Some(b) => b,
                None => old(self).buttons,
            },
    {
        self.set_status(r.glyph, r.title, r.detail);
        match r.buttons {
            Some(b) => self.set_enabled(b),
            None => {},
        }
    }
}

/// A question that fails leaves the buttons as they were; one that is answered lets exactly one of
/// installing and uninstalling be pressed.
pub proof fn law_buttons_follow_the_answer(tool: Tool, reply: Reply)
    ensures
        refreshed(tool, reply).buttons is Some <==> reply is Present,
        refreshed(tool, reply).buttons matches Some(b) ==> {
            &&& b.install == !b.uninstall
            &&& b.uninstall <==> reply == Reply::Present(true)
            &&& b.extra ==> b.uninstall
        },
{
}

// ---- the list of screens ----

/// A picture size of a screen.
pub struct DisplayMode {
    pub width: u32,
    pub height: u32,
    pub refresh_rates: Vec<u32>,
}

/// A virtual screen.
pub struct DisplayMonitor {
    pub id: u32,
    pub name: Option<String>,
    pub enabled: bool,
    pub modes: Vec<DisplayMode>,
}

/// Numbers with strokes between them.
pub open spec fn rates_words(rates: Seq<u32>) -> Seq<char> {
    text::joined(rates.map_values(|r: u32| text::decimal(r as nat)), "/"@)
}

/// The line of a picture size.
pub open spec fn mode_words(m: DisplayMode) -> Seq<char> {
    "  "@ + text::decimal(m.width as nat) + "x"@ + text::decimal(m.height as nat) + "@"@
        + rates_words(m.refresh_rates@)
}

/// The line of a screen.
pub open spec fn monitor_words(m: DisplayMonitor) -> Seq<char> {
    "显示器 "@ + text::decimal(m.id as nat) + " "@ + (match m.name {
        Some(name) => name@,
        None => ""@,
    }) + " ["@ + (if m.enabled {
        "启用"@
    } else {
        "禁用"@
    }) + "]"@
}

/// The lines of the first `n` picture sizes of a screen.
pub open spec fn modes_lines(modes: Seq<DisplayMode>) -> Seq<Seq<char>> {
    modes.map_values(|m: DisplayMode| mode_words(m))
}

/// The lines of a row of screens, each with its picture sizes below it.
pub open spec fn monitors_lines(ms: Seq<DisplayMonitor>) -> Seq<Seq<char>>
    decreases ms.len(),
{
    if ms.len() == 0 {
        Seq::empty()
    } else {
        monitors_lines(ms.drop_last()) + seq![monitor_words(ms.last())] + modes_lines(
            ms.last().modes@,
        )
    }
}

/// What is shown of the screens.
pub open spec fn monitors_words(ms: Seq<DisplayMonitor>) -> Seq<char> {
    if ms.len() == 0 {
        "暂无虚拟显示器"@
    } else {
        text::joined(monitors_lines(ms), "\n"@)
    }
}

/// Numbers with strokes between them.
fn rates_text(rates: &Vec<u32>) -> (s: String)
    ensures
        s@ == rates_words(rates@),
{
    let mut parts: Vec<String> = Vec::new();
    let mut i: usize = 0;
    while i < rates.len()
        invariant
            i <= rates@.len(),
            parts@.len() == i,
            forall|k: int|
                0 <= k < i ==> (#[trigger] parts@[k])@ == text::decimal(rates@[k] as nat),
        decreases rates@.len() - i,
    {
        let mut s: String = String::new();
        text::push_decimal(&mut s, rates[i] as u64);
        assert(s@ =~= text::decimal(rates@[i as int] as nat));
        parts.push(s);
        i = i + 1;
    }
    assert(text::texts(parts@) =~= rates@.map_values(|r: u32| text::decimal(r as nat)));
    text::join(&parts, "/")
}

/// The line of a picture size.
fn mode_line(m: &DisplayMode) -> (s: String)
    ensures
        s@ == mode_words(*m),
{
    let mut s: String = String::from_str("  ");
    text::push_decimal(&mut s, m.width as u64);
    s.append("x");
    text::push_decimal(&mut s, m.height as u64);
    s.append("@");
    let rates: String = rates_text(&m.refresh_rates);
    s.append(rates.as_str());
    s
}

/// The line of a screen.
fn monitor_line(m: &DisplayMonitor) -> (s: String)
    ensures
        s@ == monitor_words(*m),
{
    let mut s: String = String::from_str("显示器 ");
    text::push_decimal(&mut s, m.id as u64);
    s.append(" ");
    match &m.name {
        Some(name) => {
            s.append(name.as_str());
        },
        None => {
            s.append("");
        },
    }
    s.append(" [");
    if m.enabled {
        s.append("启用");
    } else {
        s.append("禁用");
    }
    s.append("]");
    s
}

/// Adds the lines of the picture sizes of a screen.
fn push_modes(lines: &mut Vec<String>, modes: &Vec<DisplayMode>)
    ensures
        text::texts(final(lines)@) == text::texts(old(lines)@) + modes_lines(modes@),
{
    let mut i: usize = 0;
    let ghost before = text::texts(lines@);
    assert(before =~= before + modes_lines(modes@).take(0));
    while i < modes.len()
        invariant
            i <= modes@.len(),
            text::texts(lines@) == before + modes_lines(modes@).take(i as int),
        decreases modes@.len() - i,
    {
        let ghost then_lines = text::texts(lines@);
        let line: String = mode_line(&modes[i]);
        lines.push(line);
        assert(text::texts(lines@) =~= then_lines.push(line@));
        i = i + 1;
        assert(text::texts(lines@) =~= before + modes_lines(modes@).take(i as int));
    }
    assert(modes_lines(modes@).take(modes@.len() as int) =~= modes_lines(modes@));
}

/// What is shown of the screens.
pub fn monitors_text(ms: &Vec<DisplayMonitor>) -> (s: String)
    ensures
        s@ == monitors_words(ms@),
{
    if ms.len() == 0 {
        return String::from_str("暂无虚拟显示器");
    }
    let mut lines: Vec<String> = Vec::new();
    let mut i: usize = 0;
    assert(text::texts(lines@) =~= monitors_lines(ms@.take(0)));
    while i < ms.len()
        invariant
            i <= ms@.len(),
            text::texts(lines@) == monitors_lines(ms@.take(i as int)),
        decreases ms@.len() - i,
    {
        let ghost before = text::texts(lines@);
        let line: String = monitor_line(&ms[i]);
        lines.push(line);
        assert(text::texts(lines@) =~= before + seq![line@]);
        push_modes(&mut lines, &ms[i].modes);
        assert(ms@.take(i + 1).drop_last() =~= ms@.take(i as int));
        i = i + 1;
    }
    assert(ms@.take(ms@.len() as int) =~= ms@);
    text::join(&lines, "\n")
}

/// The panel tells the states of a device apart: a tick exactly where it is there, a circle exactly
/// where it is not, and a mark where the question failed, which alone is not logged. What goes
/// beyond installing can be pressed exactly where the device is there.
pub proof fn law_panel_tells_the_states_apart(tool: Tool, reply: Reply)
    ensures
        refreshed(tool, reply).glyph == "✓"@ <==> reply == Reply::Present(true),
        refreshed(tool, reply).glyph == "○"@ <==> reply == Reply::Present(false),
        refreshed(tool, reply).glyph == "!"@ <==> !(reply is Present),
        refreshed(tool, reply).log is Some <==> reply is Present,
        refreshed(tool, reply).buttons matches Some(b) ==> b.extra == (reply == Reply::Present(
            true,
        )),
{
    reveal_strlit("✓");
    reveal_strlit("○");
    reveal_strlit("!");
    assert("✓"@[0] == '✓');
    assert("○"@[0] == '○');
    assert("!"@[0] == '!');
}

/// Every screen is listed, in order, each with all its picture sizes below it and nothing of
/// another one between.
pub proof fn law_every_screen_is_listed(a: Seq<DisplayMonitor>, b: Seq<DisplayMonitor>, m: DisplayMonitor)
    ensures
        monitors_lines(a + b) == monitors_lines(a) + monitors_lines(b),
        monitors_lines(seq![m]).len() == 1 + m.modes@.len(),
        monitors_lines(seq![m])[0] == monitor_words(m),
        forall|i: int|
            0 <= i < m.modes@.len() ==> monitors_lines(seq![m])[1 + i] == mode_words(
                #[trigger] m.modes@[i],
            ),
    decreases b.len(),
{
    if b.len() == 0 {
        assert(a + b =~= a);
        assert(monitors_lines(a) + monitors_lines(b) =~= monitors_lines(a));
    } else {
        law_every_screen_is_listed(a, b.drop_last(), m);
        assert((a + b).drop_last() =~= a + b.drop_last());
        assert(monitors_lines(a + b) =~= monitors_lines(a) + monitors_lines(b));
    }
    assert(monitors_lines(Seq::<DisplayMonitor>::empty()) =~= Seq::<Seq<char>>::empty());
    assert(seq![m].drop_last() =~= Seq::<DisplayMonitor>::empty());
    assert(monitors_lines(seq![m]) =~= seq![monitor_words(m)] + modes_lines(m.modes@));
}

} // verus!
