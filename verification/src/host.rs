//! The window of the macOS application: what is pushed to the camera, installing and repairing the
//! camera extension, and the steps that each control sets in motion.
use crate::text;
use crate::video;
use vstd::prelude::*;
use vstd::string::*;

verus! {

/// The camera extension.
pub const BUNDLE_ID: &'static str = "com.vdev.camera.host.extension";

/// The page of the system settings where extensions are allowed.
pub const SETTINGS_URL: &'static str =
    "x-apple.systempreferences:com.apple.ExtensionsPreferences";

/// Where the player is.
pub const QUICKTIME_PATH: &'static str = "/System/Applications/QuickTime Player.app";

/// How often the camera is looked for after an installation.
pub const CONFIRM_TRIES: u32 = 30;

/// The pause after looking in vain, in milliseconds.
pub const CONFIRM_PAUSE_MS: u32 = 500;

/// The pause between disabling and enabling the extension, in milliseconds.
pub const RECOVER_PAUSE_MS: u32 = 6000;

/// What is pushed.
#[derive(Clone, Copy, Debug, PartialEq, Eq, Structural)]
pub enum PushMode {
    /// The main screen.
    ScreenMain,
    /// The virtual screen.
    ScreenVd,
    /// A video.
    Video,
}

/// What the system says of a request.
pub enum SysextEvent {
    /// The user has to allow it.
    NeedsApproval,
    /// It is finished, with that result; zero is success.
    Finished(u32),
    /// It failed, and why.
    Failed(String),
}

/// Which buttons can be pressed.
#[derive(Clone, Copy, Debug, PartialEq, Eq, Structural)]
pub struct HostButtons {
    pub install: bool,
    pub uninstall: bool,
    pub push: bool,
    pub vd_push: bool,
}

/// One step of what is set in motion.
pub enum HostStep {
    /// Log a line.
    Log(String),
    /// Show a state.
    Status(&'static str, &'static str, String),
    /// Show the state of the sound card.
    AudioStatus(&'static str, &'static str, &'static str),
    /// Let these buttons be pressed.
    Enabled(HostButtons),
    /// Show on the buttons what is pushed.
    Buttons(Option<PushMode>),
    /// Show on the button whether there is a virtual screen.
    ScreenButton(bool),
    /// Open the system settings.
    OpenSettings,
    /// Open an address.
    OpenUrl(String),
    /// Ask the system to enable the extension, or to disable it.
    Submit(bool),
    /// Look for the camera, several times.
    Confirm,
    /// Disable the extension and enable it again.
    Recover,
    /// Wait so many milliseconds, then enable the extension again.
    EnableLater(u32),
    /// Start pushing a screen.
    StartScreen(u32),
    /// Stop pushing a screen.
    StopScreen,
    /// Create a virtual screen.
    CreateScreen,
    /// Destroy the virtual screen.
    DestroyScreen,
    /// Let the user choose a video.
    PickVideo,
    /// Start pushing the video.
    StartVideo(String),
}

/// One step of what is set in motion, in terms of its texts.
#[verifier::ext_equal]
pub enum HostWords {
    Log(Seq<char>),
    Status(Seq<char>, Seq<char>, Seq<char>),
    AudioStatus(Seq<char>, Seq<char>, Seq<char>),
    Enabled(HostButtons),
    Buttons(Option<PushMode>),
    ScreenButton(bool),
    OpenSettings,
    OpenUrl(Seq<char>),
    Submit(bool),
    Confirm,
    Recover,
    EnableLater(u32),
    StartScreen(u32),
    StopScreen,
    CreateScreen,
    DestroyScreen,
    PickVideo,
    StartVideo(Seq<char>),
}

impl View for HostStep {
    type V = HostWords;

    open spec fn view(&self) -> HostWords {
        match *self {
            HostStep::Log(s) => HostWords::Log(s@),
            HostStep::Status(g, t, d) => HostWords::Status(g@, t@, d@),
            HostStep::AudioStatus(g, t, d) => HostWords::AudioStatus(g@, t@, d@),
            HostStep::Enabled(b) => HostWords::Enabled(b),
            HostStep::Buttons(m) => HostWords::Buttons(m),
            HostStep::ScreenButton(b) => HostWords::ScreenButton(b),
            HostStep::OpenSettings => HostWords::OpenSettings,
            HostStep::OpenUrl(s) => HostWords::OpenUrl(s@),
            HostStep::Submit(b) => HostWords::Submit(b),
            HostStep::Confirm => HostWords::Confirm,
            HostStep::Recover => HostWords::Recover,
            HostStep::EnableLater(ms) => HostWords::EnableLater(ms),
            HostStep::StartScreen(id) => HostWords::StartScreen(id),
            HostStep::StopScreen => HostWords::StopScreen,
            HostStep::CreateScreen => HostWords::CreateScreen,
            HostStep::DestroyScreen => HostWords::DestroyScreen,
            HostStep::PickVideo => HostWords::PickVideo,
            HostStep::StartVideo(s) => HostWords::StartVideo(s@),
        }
    }
}

/// The steps of a row.
pub open spec fn steps(v: Seq<HostStep>) -> Seq<HostWords> {
    v.map_values(|s: HostStep| s@)
}

// ---- building rows of steps ----

/// No step yet.
fn no_steps() -> (v: Vec<HostStep>)
    ensures
        steps(v@) == Seq::<HostWords>::empty(),
{
    let v: Vec<HostStep> = Vec::new();
    assert(steps(v@) =~= Seq::<HostWords>::empty());
    v
}

/// The steps with one more.
fn and(v: Vec<HostStep>, s: HostStep) -> (r: Vec<HostStep>)
    ensures
        steps(r@) == steps(v@).push(s@),
{
    let mut r: Vec<HostStep> = v;
    r.push(s);
    assert(steps(r@) =~= steps(v@).push(s@));
    r
}

/// A log line as a step.
fn log(line: &str) -> (s: HostStep)
    ensures
        s@ == HostWords::Log(line@),
{
    HostStep::Log(String::from_str(line))
}

/// A log line in two parts.
fn log2(a: &str, b: &str) -> (s: HostStep)
    ensures
        s@ == HostWords::Log(a@ + b@),
{
    let mut line: String = String::from_str(a);
    line.append(b);
    HostStep::Log(line)
}

/// A state as a step.
fn status(glyph: &'static str, title: &'static str, detail: &str) -> (s: HostStep)
    ensures
        s@ == HostWords::Status(glyph@, title@, detail@),
{
    HostStep::Status(glyph, title, String::from_str(detail))
}

/// The buttons as a step.
fn enabled(install: bool, uninstall: bool, push: bool, vd_push: bool) -> (s: HostStep)
    ensures
        s@ == HostWords::Enabled(HostButtons { install, uninstall, push, vd_push }),
{
    HostStep::Enabled(HostButtons { install, uninstall, push, vd_push })
}

// ---- what is pushed ----

/// The state of the window.
#[derive(Clone, Copy, Debug, PartialEq, Eq, Structural)]
pub struct Host {
    /// What is pushed.
    pub mode: Option<PushMode>,
    /// The threads of the video are to end.
    pub video_stop: bool,
}

/// What the three buttons say.
pub struct PushTexts {
    pub screen: &'static str,
    pub video: &'static str,
    pub vd: &'static str,
}

/// What the three buttons say: each offers to stop what it started.
pub fn set_btn_texts(mode: Option<PushMode>) -> (t: PushTexts)
    ensures
        t.screen@ == if mode == Some(PushMode::ScreenMain) {
            "停止屏幕推流"@
        } else {
            "屏幕推流"@
        },
        t.video@ == if mode == Some(PushMode::Video) {
            "停止视频推流"@
        } else {
            "视频推流"@
        },
        t.vd@ == if mode == Some(PushMode::ScreenVd) {
            "停止推虚拟屏"@
        } else {
            "推虚拟屏幕"@
        },
{
    match mode {
        Some(PushMode::ScreenMain) => PushTexts {
            screen: "停止屏幕推流",
            video: "视频推流",
            vd: "推虚拟屏幕",
        },
        Some(PushMode::Video) => PushTexts {
            screen: "屏幕推流",
            video: "停止视频推流",
            vd: "推虚拟屏幕",
        },
        Some(PushMode::ScreenVd) => PushTexts {
            screen: "屏幕推流",
            video: "视频推流",
            vd: "停止推虚拟屏",
        },
        None => PushTexts { screen: "屏幕推流", video: "视频推流", vd: "推虚拟屏幕" },
    }
}

/// The window after what is pushed was stopped.
pub open spec fn stopped(h: Host) -> Host {
    Host { mode: None, video_stop: h.video_stop || h.mode == Some(PushMode::Video) }
}

/// The steps that stop what is pushed.
pub open spec fn stop_steps(h: Host) -> Seq<HostWords> {
    (match h.mode {
        Some(PushMode::ScreenMain) => seq![
            HostWords::StopScreen,
            HostWords::Log("屏幕推流已停止"@),
        ],
        Some(PushMode::ScreenVd) => seq![
            HostWords::StopScreen,
            HostWords::Log("屏幕推流已停止"@),
        ],
        Some(PushMode::Video) => seq![HostWords::Log("视频推流已停止"@)],
        None => Seq::empty(),
    }).push(HostWords::Buttons(None))
}

/// The steps that start pushing a screen: what was pushed before is stopped first.
pub open spec fn start_screen_steps(h: Host, display: u32, mode: PushMode) -> Seq<HostWords> {
    stop_steps(h).push(
        HostWords::Log("屏幕推流开始（显示器 0x"@ + text::small_hex(display as nat) + "）"@),
    ).push(HostWords::Buttons(Some(mode))).push(HostWords::StartScreen(display))
}

/// What a click on the button of the main screen does.
pub open spec fn screen_click(h: Host, main_display: u32) -> (Host, Seq<HostWords>) {
    if h.mode == Some(PushMode::ScreenMain) {
        (stopped(h), stop_steps(h))
    } else {
        (
            Host { mode: Some(PushMode::ScreenMain), ..stopped(h) },
            start_screen_steps(h, main_display, PushMode::ScreenMain),
        )
    }
}

/// What a click on the button of the virtual screen does.
pub open spec fn vd_click(h: Host, display: Option<u32>) -> (Host, Seq<HostWords>) {
    if h.mode == Some(PushMode::ScreenVd) {
        (stopped(h), stop_steps(h))
    } else {
        match display {
            None => (h, seq![HostWords::Log("请先创建虚拟屏幕"@)]),
            Some(id) => (
                Host { mode: Some(PushMode::ScreenVd), ..stopped(h) },
                start_screen_steps(h, id, PushMode::ScreenVd),
            ),
        }
    }
}

/// What a click on the button of the video does.
pub open spec fn video_click(h: Host) -> (Host, Seq<HostWords>) {
    if h.mode == Some(PushMode::Video) {
        (stopped(h), stop_steps(h))
    } else {
        (h, seq![HostWords::Log("正在打开文件选择器…"@), HostWords::PickVideo])
    }
}

/// What choosing a video does.
pub open spec fn video_chosen(h: Host, path: Seq<char>) -> (Host, Seq<HostWords>) {
    let begin = if video::is_external(path) {
        seq![
            HostWords::Log("已选择: "@ + path),
            HostWords::Log(
                "正在准备视频（外置/网络卷，首次会复制到本地缓存，请稍候）…"@,
            ),
        ]
    } else {
        seq![HostWords::Log("已选择: "@ + path)]
    };
    (
        Host { mode: Some(PushMode::Video), video_stop: false },
        begin + stop_steps(h) + seq![
            HostWords::Buttons(Some(PushMode::Video)),
            HostWords::Log("视频推流开始: "@ + path),
            HostWords::StartVideo(path),
        ],
    )
}

/// The end of a video: it clears what is pushed only if that is still a video.
pub open spec fn video_ended(h: Host) -> (Host, Seq<HostWords>) {
    if h.mode == Some(PushMode::Video) {
        (Host { mode: None, ..h }, seq![HostWords::Buttons(None)])
    } else {
        (h, Seq::empty())
    }
}

impl Host {
    /// Nothing is pushed.
    pub fn new() -> (h: Host)
        ensures
            h == (Host { mode: None, video_stop: false }),
    {
        Host { mode: None, video_stop: false }
    }

    /// Stops what is pushed.
    pub fn stop_current_push(&mut self) -> (v: Vec<HostStep>)
        ensures
            *final(self) == stopped(*old(self)),
            steps(v@) == stop_steps(*old(self)),
    {
        let mut v: Vec<HostStep> = no_steps();
        match self.mode {
            Some(PushMode::ScreenMain) => {
                v = and(and(v, HostStep::StopScreen), log("屏幕推流已停止"));
            },
            Some(PushMode::ScreenVd) => {
                v = and(and(v, HostStep::StopScreen), log("屏幕推流已停止"));
            },
            Some(PushMode::Video) => {
                self.video_stop = true;
                v = and(v, log("视频推流已停止"));
            },
            None => {},
        }
        self.mode = None;
        let v: Vec<HostStep> = and(v, HostStep::Buttons(None));
        assert(steps(v@) =~= stop_steps(*old(self)));
        v
    }

    /// Starts pushing a screen.
    pub fn start_screen_push(&mut self, display: u32, mode: PushMode) -> (v: Vec<HostStep>)
        ensures
            *final(self) == (Host { mode: Some(mode), ..stopped(*old(self)) }),
            steps(v@) == start_screen_steps(*old(self), display, mode),
    {
        let v: Vec<HostStep> = self.stop_current_push();
        let mut line: String = String::from_str("屏幕推流开始（显示器 0x");
        text::push_small_hex(&mut line, display as u64);
        line.append("）");
        self.mode = Some(mode);
        and(
            and(and(v, HostStep::Log(line)), HostStep::Buttons(Some(mode))),
            HostStep::StartScreen(display),
        )
    }

    /// Pushing a screen could not be started.
    pub fn screen_failed(&mut self, error: &str) -> (v: Vec<HostStep>)
        ensures
            *final(self) == (Host { mode: None, ..*old(self) }),
            steps(v@) == seq![
                HostWords::Log("屏幕推流失败: "@ + error@),
                HostWords::Buttons(None),
            ],
    {
        self.mode = None;
        and(and(no_steps(), log2("屏幕推流失败: ", error)), HostStep::Buttons(None))
    }

    /// The button of the main screen is clicked.
    pub fn on_screen_push(&mut self, main_display: u32) -> (v: Vec<HostStep>)
        ensures
            (*final(self), steps(v@)) == screen_click(*old(self), main_display),
    {
        match self.mode {
            Some(PushMode::ScreenMain) => self.stop_current_push(),
            _ => self.start_screen_push(main_display, PushMode::ScreenMain),
        }
    }

    /// The button of the virtual screen is clicked.
    pub fn on_vd_push(&mut self, display: Option<u32>) -> (v: Vec<HostStep>)
        ensures
            (*final(self), steps(v@)) == vd_click(*old(self), display),
    {
        match self.mode {
            Some(PushMode::ScreenVd) => return self.stop_current_push(),
            _ => {},
        }
        match display {
            None => and(no_steps(), log("请先创建虚拟屏幕")),
            Some(id) => self.start_screen_push(id, PushMode::ScreenVd),
        }
    }

    /// The button of the video is clicked.
    pub fn on_video_push(&mut self) -> (v: Vec<HostStep>)
        ensures
            (*final(self), steps(v@)) == video_click(*old(self)),
    {
        match self.mode {
            Some(PushMode::Video) => self.stop_current_push(),
            _ => and(and(no_steps(), log("正在打开文件选择器…")), HostStep::PickVideo),
        }
    }

    /// A video was chosen.
    pub fn video_picked(&mut self, path: &str) -> (v: Vec<HostStep>)
        ensures
            (*final(self), steps(v@)) == video_chosen(*old(self), path@),
    {
        let mut v: Vec<HostStep> = and(no_steps(), log2("已选择: ", path));
        if video::on_external_volume(path) {
            v = and(
                v,
                log(
                    "正在准备视频（外置/网络卷，首次会复制到本地缓存，请稍候）…",
                ),
            );
        }
        let mut stop: Vec<HostStep> = self.stop_current_push();
        let ghost first = v@;
        let ghost second = stop@;
        v.append(&mut stop);
        assert(v@ =~= first + second);
        assert(steps(v@) =~= steps(first) + steps(second));
        self.mode = Some(PushMode::Video);
        self.video_stop = false;
        let v: Vec<HostStep> = and(
            and(and(v, HostStep::Buttons(Some(PushMode::Video))), log2("视频推流开始: ", path)),
            HostStep::StartVideo(String::from_str(path)),
        );
        assert(steps(v@) =~= video_chosen(*old(self), path@).1);
        v
    }

    /// Pushing the video could not be started.
    pub fn video_failed(&mut self, error: &str) -> (v: Vec<HostStep>)
        ensures
            *final(self) == (Host { mode: None, ..*old(self) }),
            steps(v@) == seq![
                HostWords::Log("视频推流启动失败: "@ + error@),
                HostWords::Buttons(None),
            ],
    {
        self.mode = None;
        and(and(no_steps(), log2("视频推流启动失败: ", error)), HostStep::Buttons(None))
    }

    /// The video has ended.
    pub fn video_done(&mut self) -> (v: Vec<HostStep>)
        ensures
            (*final(self), steps(v@)) == video_ended(*old(self)),
    {
        match self.mode {
            Some(PushMode::Video) => {
                self.mode = None;
                and(no_steps(), HostStep::Buttons(None))
            },
            _ => no_steps(),
        }
    }
}

/// What is logged where no video was chosen; `error` is what kept the chooser from opening.
pub fn not_picked(error: Option<&str>) -> (v: Vec<HostStep>)
    ensures
        steps(v@) == match error {
            None => seq![HostWords::Log("未选择视频（已取消）"@)],
            Some(e) => seq![HostWords::Log("打开文件选择器失败: "@ + e@)],
        },
{
    match error {
        None => and(no_steps(), log("未选择视频（已取消）")),
        Some(e) => and(no_steps(), log2("打开文件选择器失败: ", e)),
    }
}

/// A second click on a button stops what the first one started, and nothing is pushed then.
pub proof fn law_second_click_stops(h: Host, display: u32, path: Seq<char>)
    ensures
        h.mode != Some(PushMode::ScreenMain) ==> screen_click(
            screen_click(h, display).0,
            display,
        ).0.mode is None,
        h.mode != Some(PushMode::ScreenVd) ==> vd_click(
            vd_click(h, Some(display)).0,
            Some(display),
        ).0.mode is None,
        video_click(video_chosen(h, path).0).0.mode is None,
        video_click(video_chosen(h, path).0).0.video_stop,
{
}

/// Two things are never pushed at once: whatever is started, what was pushed before is stopped
/// first, a screen by stopping its stream and a video by telling its threads to end.
pub proof fn law_old_push_is_stopped_first(h: Host, display: u32, mode: PushMode)
    ensures
        ({
            let s = start_screen_steps(h, display, mode);
            &&& s.last() == HostWords::StartScreen(display)
            &&& h.mode == Some(PushMode::ScreenMain) || h.mode == Some(PushMode::ScreenVd) ==> s[0]
                == HostWords::StopScreen
            &&& h.mode == Some(PushMode::Video) ==> stopped(h).video_stop
        }),
{
}

/// A video that ends late does not clear what was started after it.
pub proof fn law_late_end_changes_nothing(h: Host)
    requires
        h.mode != Some(PushMode::Video),
    ensures
        video_ended(h).0 == h,
        video_ended(h).1.len() == 0,
{
}

/// Whether a screen is pushed.
pub open spec fn is_screen(mode: Option<PushMode>) -> bool {
    mode == Some(PushMode::ScreenMain) || mode == Some(PushMode::ScreenVd)
}

/// Whether a screen is pushed after a row of steps.
pub open spec fn screen_runs(before: bool, done: Seq<HostWords>) -> bool
    decreases done.len(),
{
    if done.len() == 0 {
        before
    } else if done.last() == HostWords::StopScreen {
        false
    } else {
        done.last() is StartScreen || screen_runs(before, done.drop_last())
    }
}

/// What the buttons show after a row of steps.
pub open spec fn shown(before: Option<PushMode>, done: Seq<HostWords>) -> Option<PushMode>
    decreases done.len(),
{
    if done.len() == 0 {
        before
    } else {
        match done.last() {
            HostWords::Buttons(mode) => mode,
            _ => shown(before, done.drop_last()),
        }
    }
}

/// Two rows of steps one after the other.
proof fn lemma_rows_of_steps(before: bool, mode: Option<PushMode>, a: Seq<HostWords>, b: Seq<HostWords>)
    ensures
        screen_runs(before, a + b) == screen_runs(screen_runs(before, a), b),
        shown(mode, a + b) == shown(shown(mode, a), b),
    decreases b.len(),
{
    if b.len() == 0 {
        assert(a + b =~= a);
    } else {
        lemma_rows_of_steps(before, mode, a, b.drop_last());
        assert((a + b).drop_last() =~= a + b.drop_last());
        assert((a + b).last() == b.last());
    }
}

/// One step more.
proof fn lemma_one_step(before: bool, mode: Option<PushMode>, a: Seq<HostWords>, x: HostWords)
    ensures
        screen_runs(before, a.push(x)) == if x == HostWords::StopScreen {
            false
        } else {
            x is StartScreen || screen_runs(before, a)
        },
        shown(mode, a.push(x)) == match x {
            HostWords::Buttons(m) => m,
            _ => shown(mode, a),
        },
{
    assert(a.push(x).drop_last() =~= a);
}

/// Stopping ends the screen and shows nothing on the buttons, whatever was pushed.
proof fn lemma_stop_steps(h: Host)
    ensures
        screen_runs(is_screen(h.mode), stop_steps(h)) == false,
        shown(h.mode, stop_steps(h)) is None,
{
    let e = Seq::<HostWords>::empty();
    let r = is_screen(h.mode);
    match h.mode {
        Some(PushMode::Video) => {
            let a = HostWords::Log("视频推流已停止"@);
            lemma_one_step(r, h.mode, e, a);
            lemma_one_step(r, h.mode, e.push(a), HostWords::Buttons(None));
            assert(stop_steps(h) =~= e.push(a).push(HostWords::Buttons(None)));
        },
        None => {
            lemma_one_step(r, h.mode, e, HostWords::Buttons(None));
            assert(stop_steps(h) =~= e.push(HostWords::Buttons(None)));
        },
        _ => {
            let a = HostWords::Log("屏幕推流已停止"@);
            lemma_one_step(r, h.mode, e, HostWords::StopScreen);
            lemma_one_step(r, h.mode, e.push(HostWords::StopScreen), a);
            lemma_one_step(
                r,
                h.mode,
                e.push(HostWords::StopScreen).push(a),
                HostWords::Buttons(None),
            );
            assert(stop_steps(h) =~= e.push(HostWords::StopScreen).push(a).push(
                HostWords::Buttons(None),
            ));
        },
    }
}

/// Starting a screen ends with that screen pushed and shown.
proof fn lemma_start_steps(h: Host, display: u32, mode: PushMode)
    ensures
        screen_runs(is_screen(h.mode), start_screen_steps(h, display, mode)),
        shown(h.mode, start_screen_steps(h, display, mode)) == Some(mode),
{
    let r = is_screen(h.mode);
    let s = stop_steps(h);
    let a = HostWords::Log(
        "屏幕推流开始（显示器 0x"@ + text::small_hex(display as nat) + "）"@,
    );
    let b = HostWords::Buttons(Some(mode));
    lemma_one_step(r, h.mode, s.push(a), b);
    lemma_one_step(r, h.mode, s.push(a).push(b), HostWords::StartScreen(display));
}

/// Something that happens to the window.
pub enum HostEvent {
    /// The button of the main screen, which is that display.
    Screen(u32),
    /// The button of the virtual screen, which is that display if there is one.
    Vd(Option<u32>),
    /// The button of the video.
    Video,
    /// A video is chosen.
    Chosen(Seq<char>),
    /// The video has ended.
    Ended,
}

/// The window after something happened, and the steps that are taken.
pub open spec fn host_next(h: Host, event: HostEvent) -> (Host, Seq<HostWords>) {
    match event {
        HostEvent::Screen(display) => screen_click(h, display),
        HostEvent::Vd(display) => vd_click(h, display),
        HostEvent::Video => video_click(h),
        HostEvent::Chosen(path) => video_chosen(h, path),
        HostEvent::Ended => video_ended(h),
    }
}

/// Whatever happens, a screen is pushed after its steps exactly if the window takes it that one
/// is, and the buttons show what is pushed: no screen is left running, and none is started that
/// the window does not know of.
pub proof fn law_window_knows_what_is_pushed(h: Host, event: HostEvent)
    ensures
        ({
            let (after, done) = host_next(h, event);
            &&& screen_runs(is_screen(h.mode), done) == is_screen(after.mode)
            &&& shown(h.mode, done) == after.mode
        }),
{
    lemma_stop_steps(h);
    let r = is_screen(h.mode);
    let e = Seq::<HostWords>::empty();
    match event {
        HostEvent::Screen(display) => {
            lemma_start_steps(h, display, PushMode::ScreenMain);
        },
        HostEvent::Vd(display) => {
            let a = HostWords::Log("请先创建虚拟屏幕"@);
            lemma_one_step(r, h.mode, e, a);
            assert(seq![a] =~= e.push(a));
            if display is Some {
                lemma_start_steps(h, display->0, PushMode::ScreenVd);
            }
        },
        HostEvent::Video => {
            let a = HostWords::Log("正在打开文件选择器…"@);
            lemma_one_step(r, h.mode, e, a);
            lemma_one_step(r, h.mode, e.push(a), HostWords::PickVideo);
            assert(seq![a, HostWords::PickVideo] =~= e.push(a).push(HostWords::PickVideo));
        },
        HostEvent::Chosen(path) => {
            let a = HostWords::Log("已选择: "@ + path);
            let b = HostWords::Log(
                "正在准备视频（外置/网络卷，首次会复制到本地缓存，请稍候）…"@,
            );
            let begin = if video::is_external(path) {
                seq![a, b]
            } else {
                seq![a]
            };
            lemma_one_step(r, h.mode, e, a);
            lemma_one_step(r, h.mode, e.push(a), b);
            if video::is_external(path) {
                assert(begin =~= e.push(a).push(b));
            } else {
                assert(begin =~= e.push(a));
            }
            lemma_rows_of_steps(r, h.mode, begin, stop_steps(h));
            let m = begin + stop_steps(h);
            let x = HostWords::Buttons(Some(PushMode::Video));
            let y = HostWords::Log("视频推流开始: "@ + path);
            let z = HostWords::StartVideo(path);
            lemma_one_step(r, h.mode, m, x);
            lemma_one_step(r, h.mode, m.push(x), y);
            lemma_one_step(r, h.mode, m.push(x).push(y), z);
            assert(m + seq![x, y, z] =~= m.push(x).push(y).push(z));
        },
        HostEvent::Ended => {
            let x = HostWords::Buttons(None);
            lemma_one_step(r, h.mode, e, x);
            assert(seq![x] =~= e.push(x));
        },
    }
}

/// A click on the button of what is not pushed starts it, on the display that it is for; without a
/// virtual screen there is nothing to start, and a video is first chosen, which stops nothing yet.
/// A chosen video is started, and the one before is told to end.
pub proof fn law_first_click_starts(h: Host, display: u32, path: Seq<char>)
    ensures
        h.mode != Some(PushMode::ScreenMain) ==> screen_click(h, display).0.mode == Some(
            PushMode::ScreenMain,
        ) && screen_click(h, display).1.last() == HostWords::StartScreen(display),
        h.mode != Some(PushMode::ScreenVd) ==> vd_click(h, Some(display)).0.mode == Some(
            PushMode::ScreenVd,
        ) && vd_click(h, Some(display)).1.last() == HostWords::StartScreen(display),
        h.mode != Some(PushMode::ScreenVd) ==> vd_click(h, None).0 == h,
        h.mode != Some(PushMode::Video) ==> video_click(h).0 == h && video_click(h).1.last()
            == HostWords::PickVideo,
        video_chosen(h, path).0 == (Host { mode: Some(PushMode::Video), video_stop: false }),
        video_chosen(h, path).1.last() == HostWords::StartVideo(path),
        h.mode == Some(PushMode::Video) ==> screen_click(h, display).0.video_stop,
        h.mode != Some(PushMode::Video) ==> stopped(h).video_stop == h.video_stop,
{
}

// ---- the virtual screen ----

/// What a click on the button that creates and destroys the virtual screen does.
pub fn on_vd_create(display: Option<u32>) -> (v: Vec<HostStep>)
    ensures
        steps(v@) == if display is Some {
            seq![
                HostWords::DestroyScreen,
                HostWords::Log("虚拟屏幕已销毁"@),
                HostWords::ScreenButton(false),
                HostWords::Enabled(
                    HostButtons { install: false, uninstall: true, push: true, vd_push: false },
                ),
            ]
        } else {
            seq![HostWords::CreateScreen]
        },
{
    match display {
        Some(_) => and(
            and(
                and(and(no_steps(), HostStep::DestroyScreen), log("虚拟屏幕已销毁")),
                HostStep::ScreenButton(false),
            ),
            enabled(false, true, true, false),
        ),
        None => and(no_steps(), HostStep::CreateScreen),
    }
}

/// What follows when a virtual screen was created, or not.
pub fn vd_created(r: Result<u32, String>) -> (v: Vec<HostStep>)
    ensures
        steps(v@) == match r {
            Ok(id) => seq![
                HostWords::Log("虚拟屏幕已创建 0x"@ + text::small_hex(id as nat)),
                HostWords::ScreenButton(true),
                HostWords::Enabled(
                    HostButtons { install: false, uninstall: true, push: true, vd_push: true },
                ),
            ],
            Err(e) => seq![
                HostWords::Log("创建虚拟屏幕失败: "@ + e@),
                HostWords::Status("✕"@, "操作失败"@, e@),
            ],
        },
{
    match r {
        Ok(id) => {
            let mut line: String = String::from_str("虚拟屏幕已创建 0x");
            text::push_small_hex(&mut line, id as u64);
            and(
                and(and(no_steps(), HostStep::Log(line)), HostStep::ScreenButton(true)),
                enabled(false, true, true, true),
            )
        },
        Err(e) => and(
            and(no_steps(), log2("创建虚拟屏幕失败: ", e.as_str())),
            status("✕", "操作失败", e.as_str()),
        ),
    }
}

/// What the button of the virtual screen says.
pub fn vd_button(exists_now: bool) -> (s: &'static str)
    ensures
        s@ == if exists_now {
            "销毁虚拟屏幕"@
        } else {
            "创建虚拟屏幕"@
        },
{
    if exists_now {
        "销毁虚拟屏幕"
    } else {
        "创建虚拟屏幕"
    }
}

// ---- installing and uninstalling ----

/// No button can be pressed.
pub open spec fn all_off() -> HostButtons {
    HostButtons { install: false, uninstall: false, push: false, vd_push: false }
}

/// Only installing can be pressed.
pub open spec fn only_install() -> HostButtons {
    HostButtons { install: true, uninstall: false, push: false, vd_push: false }
}

/// What installing begins with.
pub fn on_install() -> (v: Vec<HostStep>)
    ensures
        steps(v@) == seq![
            HostWords::Log("激活扩展: "@ + BUNDLE_ID@),
            HostWords::Status(
                "⏳"@,
                "正在安装…"@,
                "正在请求系统激活摄像头扩展。"@,
            ),
            HostWords::Enabled(all_off()),
            HostWords::Submit(true),
        ],
{
    and(
        and(
            and(
                and(no_steps(), log2("激活扩展: ", BUNDLE_ID)),
                status("⏳", "正在安装…", "正在请求系统激活摄像头扩展。"),
            ),
            enabled(false, false, false, false),
        ),
        HostStep::Submit(true),
    )
}

/// What follows when the system answers the request to install.
pub open spec fn install_steps(ev: SysextEvent) -> Seq<HostWords> {
    match ev {
        SysextEvent::NeedsApproval => seq![
            HostWords::Log("需要用户在系统设置中批准，已打开系统设置"@),
            HostWords::Status(
                "⚠️"@,
                "等待系统批准"@,
                "请到 系统设置 → 通用 → 登录项与扩展 → 扩展 → 按类别 → 相机扩展，打开 vdev-camera。"@,
            ),
            HostWords::OpenSettings,
        ],
        SysextEvent::Finished(n) => if n == 0 {
            seq![
                HostWords::Log("请求完成，正在确认摄像头…"@),
                HostWords::Status("⏳"@, "正在确认…"@, "最长约 15 秒。"@),
                HostWords::Confirm,
            ]
        } else {
            seq![
                HostWords::Status(
                    "✕"@,
                    "操作失败"@,
                    "系统返回未预期结果 "@ + text::decimal(n as nat),
                ),
            ]
        },
        SysextEvent::Failed(e) => seq![
            HostWords::Status("✕"@, "操作失败"@, e@),
            HostWords::Enabled(only_install()),
        ],
    }
}

/// What follows when the system answers the request to install.
pub fn install_event(ev: &SysextEvent) -> (v: Vec<HostStep>)
    ensures
        steps(v@) == install_steps(*ev),
{
    match ev {
        SysextEvent::NeedsApproval => and(
            and(
                and(no_steps(), log("需要用户在系统设置中批准，已打开系统设置")),
                status(
                    "⚠️",
                    "等待系统批准",
                    "请到 系统设置 → 通用 → 登录项与扩展 → 扩展 → 按类别 → 相机扩展，打开 vdev-camera。",
                ),
            ),
            HostStep::OpenSettings,
        ),
        SysextEvent::Finished(n) => {
            if *n == 0 {
                and(
                    and(
                        and(no_steps(), log("请求完成，正在确认摄像头…")),
                        status("⏳", "正在确认…", "最长约 15 秒。"),
                    ),
                    HostStep::Confirm,
                )
            } else {
                let mut detail: String = String::from_str("系统返回未预期结果 ");
                text::push_decimal(&mut detail, *n as u64);
                and(no_steps(), HostStep::Status("✕", "操作失败", detail))
            }
        },
        SysextEvent::Failed(e) => and(
            and(no_steps(), status("✕", "操作失败", e.as_str())),
            enabled(true, false, false, false),
        ),
    }
}

/// What follows when the camera was looked for after an installation: where it did not appear, the
/// extension is repaired.
pub fn install_confirmed(found: bool, has_screen: bool) -> (v: Vec<HostStep>)
    ensures
        steps(v@) == if found {
            seq![
                HostWords::Log("检测到 vdev-camera，安装成功"@),
                HostWords::Status(
                    "✓"@,
                    "已安装，摄像头可用"@,
                    "打开 QuickTime → 新建影片录制 → 选择 vdev-camera。"@,
                ),
                HostWords::Enabled(
                    HostButtons {
                        install: false,
                        uninstall: true,
                        push: true,
                        vd_push: has_screen,
                    },
                ),
            ]
        } else {
            seq![
                HostWords::Log("15 秒内未检测到摄像头，触发自动修复"@),
                HostWords::Status(
                    "⏳"@,
                    "正在自动修复…"@,
                    "停用→重新启用扩展，最长约 30 秒。"@,
                ),
                HostWords::Recover,
            ]
        },
{
    if found {
        and(
            and(
                and(no_steps(), log("检测到 vdev-camera，安装成功")),
                status(
                    "✓",
                    "已安装，摄像头可用",
                    "打开 QuickTime → 新建影片录制 → 选择 vdev-camera。",
                ),
            ),
            enabled(false, true, true, has_screen),
        )
    } else {
        and(
            and(
                and(no_steps(), log("15 秒内未检测到摄像头，触发自动修复")),
                status(
                    "⏳",
                    "正在自动修复…",
                    "停用→重新启用扩展，最长约 30 秒。",
                ),
            ),
            HostStep::Recover,
        )
    }
}

/// What uninstalling begins with.
pub fn on_uninstall() -> (v: Vec<HostStep>)
    ensures
        steps(v@) == seq![
            HostWords::Log("停用扩展: "@ + BUNDLE_ID@),
            HostWords::Status(
                "⏳"@,
                "正在卸载…"@,
                "正在从系统移除摄像头扩展。"@,
            ),
            HostWords::Enabled(all_off()),
            HostWords::Submit(false),
        ],
{
    and(
        and(
            and(
                and(no_steps(), log2("停用扩展: ", BUNDLE_ID)),
                status("⏳", "正在卸载…", "正在从系统移除摄像头扩展。"),
            ),
            enabled(false, false, false, false),
        ),
        HostStep::Submit(false),
    )
}

/// What follows when the system answers the request to uninstall.
pub open spec fn uninstall_steps(ev: SysextEvent) -> Seq<HostWords> {
    match ev {
        SysextEvent::Finished(_) => seq![
            HostWords::Log("卸载完成"@),
            HostWords::Status("○"@, "已卸载"@, "vdev-camera 已从系统移除。"@),
            HostWords::Enabled(only_install()),
        ],
        SysextEvent::Failed(e) => seq![
            HostWords::Status("✕"@, "操作失败"@, e@),
            HostWords::Enabled(only_install()),
        ],
        SysextEvent::NeedsApproval => seq![HostWords::Log("卸载需要系统确认"@)],
    }
}

/// What follows when the system answers the request to uninstall.
pub fn uninstall_event(ev: &SysextEvent) -> (v: Vec<HostStep>)
    ensures
        steps(v@) == uninstall_steps(*ev),
{
    match ev {
        SysextEvent::Finished(_) => and(
            and(
                and(no_steps(), log("卸载完成")),
                status("○", "已卸载", "vdev-camera 已从系统移除。"),
            ),
            enabled(true, false, false, false),
        ),
        SysextEvent::Failed(e) => and(
            and(no_steps(), status("✕", "操作失败", e.as_str())),
            enabled(true, false, false, false),
        ),
        SysextEvent::NeedsApproval => and(no_steps(), log("卸载需要系统确认")),
    }
}

/// What is logged where a request could not be made.
pub fn submit_failed(error: &str) -> (v: Vec<HostStep>)
    ensures
        steps(v@) == seq![HostWords::Log("提交失败: "@ + error@)],
{
    and(no_steps(), log2("提交失败: ", error))
}

/// What can keep a request from being made.
#[derive(Clone, Copy, Debug, PartialEq, Eq, Structural)]
pub enum SubmitError {
    /// The system has no manager of extensions.
    NoManagerClass,
    /// The manager is not available.
    NoManager,
    /// The system has no requests for extensions.
    NoRequestClass,
    /// The request could not be made.
    NoRequest,
}

/// The words of the error.
pub open spec fn submit_words(e: SubmitError) -> Seq<char> {
    match e {
        SubmitError::NoManagerClass => "ObjC class not found: OSSystemExtensionManager"@,
        SubmitError::NoManager => "OSSystemExtensionManager 不可用"@,
        SubmitError::NoRequestClass => "ObjC class not found: OSSystemExtensionRequest"@,
        SubmitError::NoRequest => "创建 OSSystemExtensionRequest 失败"@,
    }
}

/// Whether a request can be made, by what the system has of what it takes, each looked for only
/// where the one before was found.
pub fn submit(
    manager_class: bool,
    manager: bool,
    request_class: bool,
    request: bool,
) -> (r: Result<(), SubmitError>)
    ensures
        r is Ok <==> manager_class && manager && request_class && request,
        r matches Err(e) ==> e == if !manager_class {
            SubmitError::NoManagerClass
        } else if !manager {
            SubmitError::NoManager
        } else if !request_class {
            SubmitError::NoRequestClass
        } else {
            SubmitError::NoRequest
        },
{
    if !manager_class {
        return Err(SubmitError::NoManagerClass);
    }
    if !manager {
        return Err(SubmitError::NoManager);
    }
    if !request_class {
        return Err(SubmitError::NoRequestClass);
    }
    if !request {
        return Err(SubmitError::NoRequest);
    }
    Ok(())
}

impl SubmitError {
    /// The error in words.
    pub fn message(self) -> (s: &'static str)
        ensures
            s@ == submit_words(self),
    {
        match self {
            SubmitError::NoManagerClass => "ObjC class not found: OSSystemExtensionManager",
            SubmitError::NoManager => "OSSystemExtensionManager 不可用",
            SubmitError::NoRequestClass => "ObjC class not found: OSSystemExtensionRequest",
            SubmitError::NoRequest => "创建 OSSystemExtensionRequest 失败",
        }
    }
}

/// After every answer that ends the installing or the uninstalling badly, installing can be tried
/// again.
pub proof fn law_failure_can_be_retried(ev: SysextEvent)
    requires
        ev is Failed,
    ensures
        install_steps(ev).last() == HostWords::Enabled(only_install()),
        uninstall_steps(ev).last() == HostWords::Enabled(only_install()),
{
}

// ---- looking for the camera ----

/// What to do after looking for the camera.
#[derive(Clone, Copy, Debug, PartialEq, Eq, Structural)]
pub enum ConfirmStep {
    /// It is there.
    Found,
    /// Wait so many milliseconds, and look again.
    Again(u32),
    /// Wait so many milliseconds, and take it that it is not there.
    NotFound(u32),
}

/// What to do after looking for the camera for the `n`-th time.
pub open spec fn confirm_next(n: u32, found: bool) -> ConfirmStep {
    if found {
        ConfirmStep::Found
    } else if n < CONFIRM_TRIES {
        ConfirmStep::Again(CONFIRM_PAUSE_MS)
    } else {
        ConfirmStep::NotFound(CONFIRM_PAUSE_MS)
    }
}

/// The camera is looked for thirty times, half a second apart, which makes the fifteen seconds
/// that are promised; it is found whenever it is seen, and given up only after the last look.
pub proof fn law_camera_is_looked_for_fifteen_seconds(n: u32)
    ensures
        confirm_next(n, true) == ConfirmStep::Found,
        confirm_next(n, false) == if n < 30 {
            ConfirmStep::Again(500)
        } else {
            ConfirmStep::NotFound(500)
        },
{
}

/// What to do after looking for the `n`-th time, the first being 1.
pub fn confirm_step(n: u32, found: bool) -> (step: ConfirmStep)
    ensures
        step == if found {
            ConfirmStep::Found
        } else if n < CONFIRM_TRIES {
            ConfirmStep::Again(CONFIRM_PAUSE_MS)
        } else {
            ConfirmStep::NotFound(CONFIRM_PAUSE_MS)
        },
        step == confirm_next(n, found),
{
    if found {
        ConfirmStep::Found
    } else if n < CONFIRM_TRIES {
        ConfirmStep::Again(CONFIRM_PAUSE_MS)
    } else {
        ConfirmStep::NotFound(CONFIRM_PAUSE_MS)
    }
}

// ---- repairing ----

/// What a click on the button that repairs does.
pub fn on_recover() -> (v: Vec<HostStep>)
    ensures
        steps(v@) == seq![
            HostWords::Log("手动触发自动修复…"@),
            HostWords::Status(
                "⏳"@,
                "正在自动修复…"@,
                "停用→重新启用扩展，最长约 30 秒。"@,
            ),
            HostWords::Recover,
        ],
{
    and(
        and(
            and(no_steps(), log("手动触发自动修复…")),
            status(
                "⏳",
                "正在自动修复…",
                "停用→重新启用扩展，最长约 30 秒。",
            ),
        ),
        HostStep::Recover,
    )
}

/// What repairing begins with.
pub fn recover_extension() -> (v: Vec<HostStep>)
    ensures
        steps(v@) == seq![
            HostWords::Log("自动修复：先停用再重新启用扩展…"@),
            HostWords::Submit(false),
        ],
{
    and(
        and(no_steps(), log("自动修复：先停用再重新启用扩展…")),
        HostStep::Submit(false),
    )
}

/// What follows when the system answers the request to disable: the extension is enabled again
/// after a pause, also where the answer was not the expected one.
pub open spec fn disabled_steps(ev: SysextEvent) -> Seq<HostWords> {
    match ev {
        SysextEvent::Finished(n) => seq![
            HostWords::Log(
                if n == 0 {
                    "已停用，等待 6s 后重新启用…"@
                } else {
                    "停用返回非零结果 "@ + text::decimal(n as nat)
                        + "，仍尝试重新启用…"@
                },
            ),
            HostWords::EnableLater(RECOVER_PAUSE_MS),
        ],
        SysextEvent::NeedsApproval => seq![HostWords::Log("停用需要系统确认"@)],
        SysextEvent::Failed(e) => seq![HostWords::Log("停用失败: "@ + e@)],
    }
}

/// What follows when the system answers the request to disable.
pub fn recover_disabled(ev: &SysextEvent) -> (v: Vec<HostStep>)
    ensures
        steps(v@) == disabled_steps(*ev),
{
    match ev {
        SysextEvent::Finished(n) => {
            let line: HostStep = if *n == 0 {
                log("已停用，等待 6s 后重新启用…")
            } else {
                let mut s: String = String::from_str("停用返回非零结果 ");
                text::push_decimal(&mut s, *n as u64);
                s.append("，仍尝试重新启用…");
                HostStep::Log(s)
            };
            and(and(no_steps(), line), HostStep::EnableLater(RECOVER_PAUSE_MS))
        },
        SysextEvent::NeedsApproval => and(no_steps(), log("停用需要系统确认")),
        SysextEvent::Failed(e) => and(no_steps(), log2("停用失败: ", e.as_str())),
    }
}

/// What enabling again begins with.
pub fn recover_enable() -> (v: Vec<HostStep>)
    ensures
        steps(v@) == seq![HostWords::Log("重新启用…"@), HostWords::Submit(true)],
{
    and(and(no_steps(), log("重新启用…")), HostStep::Submit(true))
}

/// What follows when the system answers the request to enable again.
pub open spec fn enabled_steps(ev: SysextEvent) -> Seq<HostWords> {
    match ev {
        SysextEvent::Finished(n) => if n == 0 {
            seq![HostWords::Log("启用完成，确认摄像头…"@), HostWords::Confirm]
        } else {
            seq![
                HostWords::Log(
                    "重新启用返回非零结果 "@ + text::decimal(n as nat)
                        + "，请到 系统设置 → … → 相机扩展 手动检查"@,
                ),
            ]
        },
        SysextEvent::NeedsApproval => seq![
            HostWords::Log("重新启用需要批准：系统设置 → … → 相机扩展"@),
        ],
        SysextEvent::Failed(e) => seq![HostWords::Log("重新启用失败: "@ + e@)],
    }
}

/// What follows when the system answers the request to enable again.
pub fn recover_enabled(ev: &SysextEvent) -> (v: Vec<HostStep>)
    ensures
        steps(v@) == enabled_steps(*ev),
{
    match ev {
        SysextEvent::Finished(n) => {
            if *n == 0 {
                and(
                    and(no_steps(), log("启用完成，确认摄像头…")),
                    HostStep::Confirm,
                )
            } else {
                let mut s: String = String::from_str("重新启用返回非零结果 ");
                text::push_decimal(&mut s, *n as u64);
                s.append("，请到 系统设置 → … → 相机扩展 手动检查");
                and(no_steps(), HostStep::Log(s))
            }
        },
        SysextEvent::NeedsApproval => and(
            no_steps(),
            log("重新启用需要批准：系统设置 → … → 相机扩展"),
        ),
        SysextEvent::Failed(e) => and(no_steps(), log2("重新启用失败: ", e.as_str())),
    }
}

/// What is logged when the camera was looked for after repairing.
pub fn recover_confirmed(found: bool) -> (v: Vec<HostStep>)
    ensures
        steps(v@) == if found {
            seq![HostWords::Log("✅ 摄像头已恢复"@)]
        } else {
            seq![
                HostWords::Log(
                    "❌ 仍未出现：请到 系统设置 → … → 相机扩展 关闭再打开，或重启电脑"@,
                ),
            ]
        },
{
    if found {
        and(no_steps(), log("✅ 摄像头已恢复"))
    } else {
        and(
            no_steps(),
            log("❌ 仍未出现：请到 系统设置 → … → 相机扩展 关闭再打开，或重启电脑"),
        )
    }
}

/// Whether a line of the repairing opens the system settings: where it says that something is to
/// be allowed.
pub fn opens_settings(line: &str) -> (yes: bool)
    ensures
        yes == text::is_part(line@, "批准"@),
{
    text::contains(line, "批准")
}

/// Every answer of the system is logged: no result of the repairing passes in silence.
pub proof fn law_every_answer_is_logged(ev: SysextEvent)
    ensures
        disabled_steps(ev)[0] is Log,
        enabled_steps(ev)[0] is Log,
{
}

/// A repair is carried through: whatever the result of the disabling is, the extension is enabled
/// again, six seconds later; once that succeeded, the camera is looked for, and only then. Where
/// the system wants a confirmation or refuses, nothing follows but the log.
pub proof fn law_repair_is_carried_through(ev: SysextEvent)
    ensures
        ev is Finished ==> disabled_steps(ev).last() == HostWords::EnableLater(6000),
        !(ev is Finished) ==> disabled_steps(ev).len() == 1,
        ev == SysextEvent::Finished(0) ==> enabled_steps(ev).last() == HostWords::Confirm,
        ev != SysextEvent::Finished(0) ==> enabled_steps(ev).len() == 1 && enabled_steps(ev)[0]
            is Log,
{
}

/// An installation that the system finished is followed by looking for the camera exactly if its
/// result is success; where it waits for the user, the settings are opened. An uninstallation that
/// is finished leaves installing as the only thing to do.
pub proof fn law_installation_follows_the_answer(ev: SysextEvent)
    ensures
        install_steps(ev).last() == HostWords::Confirm <==> ev == SysextEvent::Finished(0),
        install_steps(ev).last() == HostWords::OpenSettings <==> ev is NeedsApproval,
        ev is Finished && ev != SysextEvent::Finished(0) ==> install_steps(ev).len() == 1
            && install_steps(ev)[0] is Status,
        ev is Finished ==> uninstall_steps(ev).last() == HostWords::Enabled(
            HostButtons { install: true, uninstall: false, push: false, vd_push: false },
        ),
        only_install() == (HostButtons {
            install: true,
            uninstall: false,
            push: false,
            vd_push: false,
        }),
{
}

// ---- the state ----

/// What the state of the camera and of the sound card changes in the window.
pub fn refresh_status(found: bool, has_screen: bool, audio: bool) -> (v: Vec<HostStep>)
    ensures
        steps(v@) == seq![
            HostWords::Log("刷新状态…"@),
            if found {
                HostWords::Status(
                    "✓"@,
                    "已安装，摄像头可用"@,
                    "系统已能看到 vdev-camera。打开 QuickTime → 新建影片录制 → 选择 vdev-camera。"@,
                )
            } else {
                HostWords::Status(
                    "○"@,
                    "虚拟摄像头未安装"@,
                    "点击「安装虚拟摄像头」，然后在系统提示中允许扩展。"@,
                )
            },
            HostWords::Enabled(
                HostButtons {
                    install: !found,
                    uninstall: found,
                    push: found,
                    vd_push: found && has_screen,
                },
            ),
            if audio {
                HostWords::AudioStatus(
                    "✓"@,
                    "虚拟声卡可用"@,
                    "系统已能看到 vdev-audio。会议/录制软件把麦克风选成 vdev-audio 即可收到视频音轨。"@,
                )
            } else {
                HostWords::AudioStatus(
                    "○"@,
                    "虚拟声卡未安装"@,
                    "未检测到 vdev-audio。在 crates/vdev-audio 下执行 make install 安装。"@,
                )
            },
            HostWords::Log(
                if audio {
                    "检测到虚拟声卡：vdev-audio"@
                } else {
                    "未检测到虚拟声卡：vdev-audio（cd crates/vdev-audio && make install）"@
                },
            ),
        ],
{
    let camera: HostStep = if found {
        status(
            "✓",
            "已安装，摄像头可用",
            "系统已能看到 vdev-camera。打开 QuickTime → 新建影片录制 → 选择 vdev-camera。",
        )
    } else {
        status(
            "○",
            "虚拟摄像头未安装",
            "点击「安装虚拟摄像头」，然后在系统提示中允许扩展。",
        )
    };
    let card: HostStep = if audio {
        HostStep::AudioStatus(
            "✓",
            "虚拟声卡可用",
            "系统已能看到 vdev-audio。会议/录制软件把麦克风选成 vdev-audio 即可收到视频音轨。",
        )
    } else {
        HostStep::AudioStatus(
            "○",
            "虚拟声卡未安装",
            "未检测到 vdev-audio。在 crates/vdev-audio 下执行 make install 安装。",
        )
    };
    let line: &str = if audio {
        "检测到虚拟声卡：vdev-audio"
    } else {
        "未检测到虚拟声卡：vdev-audio（cd crates/vdev-audio && make install）"
    };
    and(
        and(
            and(
                and(and(no_steps(), log("刷新状态…")), camera),
                enabled(!found, found, found, found && has_screen),
            ),
            card,
        ),
        log(line),
    )
}

// ---- the player ----

/// A text with every blank replaced by `%20`.
pub open spec fn without_blanks(s: Seq<char>) -> Seq<char>
    decreases s.len(),
{
    if s.len() == 0 {
        Seq::empty()
    } else if s.last() == ' ' {
        without_blanks(s.drop_last()) + "%20"@
    } else {
        without_blanks(s.drop_last()).push(s.last())
    }
}

/// A path becomes an address character by character: a blank becomes `%20`, every other character
/// stays, and none is left out; so no blank is left.
pub proof fn law_blanks_are_written_out(a: Seq<char>, b: Seq<char>, c: char)
    ensures
        without_blanks(a + b) == without_blanks(a) + without_blanks(b),
        without_blanks(seq![' ']) == seq!['%', '2', '0'],
        c != ' ' ==> without_blanks(seq![c]) == seq![c],
        !without_blanks(a).contains(' '),
{
    lemma_blanks_apart(a, b);
    lemma_no_blank_left(a);
    reveal_strlit("%20");
    assert(without_blanks(Seq::<char>::empty()) =~= Seq::<char>::empty());
    assert(seq![' '].drop_last() =~= Seq::<char>::empty());
    assert(without_blanks(seq![' ']) =~= seq!['%', '2', '0']);
    assert(seq![c].drop_last() =~= Seq::<char>::empty());
    if c != ' ' {
        assert(without_blanks(seq![c]) =~= seq![c]);
    }
}

proof fn lemma_blanks_apart(a: Seq<char>, b: Seq<char>)
    ensures
        without_blanks(a + b) == without_blanks(a) + without_blanks(b),
    decreases b.len(),
{
    if b.len() == 0 {
        assert(a + b =~= a);
        assert(without_blanks(a) + without_blanks(b) =~= without_blanks(a));
    } else {
        lemma_blanks_apart(a, b.drop_last());
        assert((a + b).drop_last() =~= a + b.drop_last());
        assert(without_blanks(a + b) =~= without_blanks(a) + without_blanks(b));
    }
}

proof fn lemma_no_blank_left(a: Seq<char>)
    ensures
        forall|i: int| 0 <= i < without_blanks(a).len() ==> #[trigger] without_blanks(a)[i] != ' ',
    decreases a.len(),
{
    if a.len() > 0 {
        lemma_no_blank_left(a.drop_last());
        reveal_strlit("%20");
        let s = without_blanks(a);
        let t = without_blanks(a.drop_last());
        assert forall|i: int| 0 <= i < s.len() implies #[trigger] s[i] != ' ' by {
            if i < t.len() {
                assert(t[i] != ' ');
            } else if a.last() == ' ' {
                assert(s[i] == "%20"@[i - t.len()]);
            }
        }
    }
}

/// The address of a file.
pub fn file_url(path: &str) -> (url: String)
    ensures
        url@ == "file://"@ + without_blanks(path@),
{
    let chars: Vec<char> = text::chars_of(path);
    let mut url: String = String::from_str("file://");
    let mut i: usize = 0;
    assert(url@ =~= "file://"@ + without_blanks(chars@.take(0)));
    while i < chars.len()
        invariant
            i <= chars@.len(),
            url@ == "file://"@ + without_blanks(chars@.take(i as int)),
        decreases chars@.len() - i,
    {
        assert(chars@.take(i + 1).drop_last() =~= chars@.take(i as int));
        if chars[i] == ' ' {
            url.append("%20");
        } else {
            url.push(chars[i]);
        }
        i = i + 1;
        assert(url@ =~= "file://"@ + without_blanks(chars@.take(i as int)));
    }
    assert(chars@.take(chars@.len() as int) =~= chars@);
    url
}

/// Opens the player.
pub fn open_quicktime() -> (v: Vec<HostStep>)
    ensures
        steps(v@) == seq![HostWords::OpenUrl("file://"@ + without_blanks(QUICKTIME_PATH@))],
{
    and(no_steps(), HostStep::OpenUrl(file_url(QUICKTIME_PATH)))
}

/// What the system says of a request, in one word.
pub fn event_text(ev: &SysextEvent) -> (s: String)
    ensures
        s@ == match *ev {
            SysextEvent::NeedsApproval => "NeedsApproval"@,
            SysextEvent::Finished(n) => "Finished("@ + text::decimal(n as nat) + ")"@,
            SysextEvent::Failed(e) => "Failed("@ + e@ + ")"@,
        },
{
    match ev {
        SysextEvent::NeedsApproval => String::from_str("NeedsApproval"),
        SysextEvent::Finished(n) => {
            let mut s: String = String::from_str("Finished(");
            text::push_decimal(&mut s, *n as u64);
            s.append(")");
            s
        },
        SysextEvent::Failed(e) => {
            let mut s: String = String::from_str("Failed(");
            s.append(e.as_str());
            s.append(")");
            s
        },
    }
}

} // verus!
