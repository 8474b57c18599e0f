//! Testing the virtual sound card: play a tone into it, and listen at the same time whether it
//! comes out again.
use crate::text;
use vstd::prelude::*;
use vstd::string::*;

verus! {

/// The pause between the start of listening and the start of playing, in milliseconds.
pub const LISTEN_FIRST_MS: u32 = 500;

/// How far a test has come.
#[derive(Clone, Copy, Debug, PartialEq, Eq, Structural)]
pub enum TestPhase {
    /// Start listening.
    StartCapture,
    /// Play; where the test listens, after a pause.
    Inject,
    /// Wait until the listening has ended.
    WaitCapture,
    /// Understand what was heard.
    Parse,
    /// The test has ended.
    Done(TestEnd),
}

/// How a test ends.
#[derive(Clone, Copy, Debug, PartialEq, Eq, Structural)]
pub enum TestEnd {
    /// Something was recorded.
    Heard,
    /// The tone was played, and nobody listened.
    Played,
    /// A step failed.
    Failed(TestFailure),
}

/// What can fail.
#[derive(Clone, Copy, Debug, PartialEq, Eq, Structural)]
pub enum TestFailure {
    StartCapture,
    RunInject,
    Inject,
    WaitCapture,
    Parse,
}

/// The outcome of a step.
#[derive(Clone, Copy, Debug, PartialEq, Eq, Structural)]
pub enum TestEvent {
    /// The listening was started, or not.
    Started(bool),
    /// The playing could not be run, or ran and succeeded or failed.
    Injected(Option<bool>),
    /// The end of the listening came, or could not be waited for.
    Waited(bool),
    /// What was heard was understood, or not.
    Parsed(bool),
}

/// Where a test begins.
pub fn test_begin(loopback: bool) -> (phase: TestPhase)
    ensures
        phase == if loopback {
            TestPhase::StartCapture
        } else {
            TestPhase::Inject
        },
{
    if loopback {
        TestPhase::StartCapture
    } else {
        TestPhase::Inject
    }
}

/// The phase after an outcome. A test that does not listen ends with the playing, however that
/// ended, if only it ran.
pub open spec fn test_next(loopback: bool, phase: TestPhase, event: TestEvent) -> TestPhase {
    match (phase, event) {
        (TestPhase::StartCapture, TestEvent::Started(ok)) => if ok {
            TestPhase::Inject
        } else {
            TestPhase::Done(TestEnd::Failed(TestFailure::StartCapture))
        },
        (TestPhase::Inject, TestEvent::Injected(None)) => TestPhase::Done(
            TestEnd::Failed(TestFailure::RunInject),
        ),
        (TestPhase::Inject, TestEvent::Injected(Some(ok))) => if !loopback {
            TestPhase::Done(TestEnd::Played)
        } else if ok {
            TestPhase::WaitCapture
        } else {
            TestPhase::Done(TestEnd::Failed(TestFailure::Inject))
        },
        (TestPhase::WaitCapture, TestEvent::Waited(ok)) => if ok {
            TestPhase::Parse
        } else {
            TestPhase::Done(TestEnd::Failed(TestFailure::WaitCapture))
        },
        (TestPhase::Parse, TestEvent::Parsed(ok)) => if ok {
            TestPhase::Done(TestEnd::Heard)
        } else {
            TestPhase::Done(TestEnd::Failed(TestFailure::Parse))
        },
        _ => phase,
    }
}

/// The phase after an outcome.
pub fn spawn_audio_test(loopback: bool, phase: TestPhase, event: TestEvent) -> (r: TestPhase)
    ensures
        r == test_next(loopback, phase, event),
{
    match (phase, event) {
        (TestPhase::StartCapture, TestEvent::Started(ok)) => if ok {
            TestPhase::Inject
        } else {
            TestPhase::Done(TestEnd::Failed(TestFailure::StartCapture))
        },
        (TestPhase::Inject, TestEvent::Injected(None)) => TestPhase::Done(
            TestEnd::Failed(TestFailure::RunInject),
        ),
        (TestPhase::Inject, TestEvent::Injected(Some(ok))) => if !loopback {
            TestPhase::Done(TestEnd::Played)
        } else if ok {
            TestPhase::WaitCapture
        } else {
            TestPhase::Done(TestEnd::Failed(TestFailure::Inject))
        },
        (TestPhase::WaitCapture, TestEvent::Waited(ok)) => if ok {
            TestPhase::Parse
        } else {
            TestPhase::Done(TestEnd::Failed(TestFailure::WaitCapture))
        },
        (TestPhase::Parse, TestEvent::Parsed(ok)) => if ok {
            TestPhase::Done(TestEnd::Heard)
        } else {
            TestPhase::Done(TestEnd::Failed(TestFailure::Parse))
        },
        _ => phase,
    }
}

/// Where a test stands after a row of outcomes.
pub open spec fn phase_after(loopback: bool, events: Seq<TestEvent>) -> TestPhase
    decreases events.len(),
{
    if events.len() == 0 {
        if loopback {
            TestPhase::StartCapture
        } else {
            TestPhase::Inject
        }
    } else {
        test_next(loopback, phase_after(loopback, events.drop_last()), events.last())
    }
}

/// A row of outcomes has that one in it.
pub open spec fn happened(events: Seq<TestEvent>, e: TestEvent) -> bool {
    exists|i: int| 0 <= i < events.len() && #[trigger] events[i] == e
}

/// A test that listens plays only once the listening has begun, so that it hears what it plays and
/// nothing older; and it counts as heard only if the playing succeeded and what was recorded was
/// understood.
pub proof fn law_test_listens_to_what_it_plays(events: Seq<TestEvent>)
    ensures
        phase_after(true, events) == TestPhase::Inject ==> happened(
            events,
            TestEvent::Started(true),
        ),
        phase_after(true, events) == TestPhase::WaitCapture ==> happened(
            events,
            TestEvent::Injected(Some(true)),
        ) && happened(events, TestEvent::Started(true)),
        phase_after(true, events) == TestPhase::Parse ==> happened(
            events,
            TestEvent::Injected(Some(true)),
        ) && happened(events, TestEvent::Started(true)),
        phase_after(true, events) == TestPhase::Done(TestEnd::Heard) ==> {
            &&& happened(events, TestEvent::Started(true))
            &&& happened(events, TestEvent::Injected(Some(true)))
            &&& happened(events, TestEvent::Parsed(true))
        },
        phase_after(true, events) != TestPhase::Done(TestEnd::Played),
    decreases events.len(),
{
    if events.len() > 0 {
        let rest = events.drop_last();
        law_test_listens_to_what_it_plays(rest);
        assert forall|e: TestEvent| happened(rest, e) implies happened(events, e) by {
            let i = choose|i: int| 0 <= i < rest.len() && #[trigger] rest[i] == e;
            assert(events[i] == e);
        }
        assert(events[events.len() - 1] == events.last());
        assert(happened(events, events.last()));
    }
}

/// A test in which nothing fails runs to its end: with listening, the listening is started, the
/// tone is played, the end of the listening is awaited, and what was heard is understood; without,
/// the playing is all, and however it went, it was played.
pub proof fn law_smooth_test_is_heard(event: TestEvent, ok: bool)
    ensures
        phase_after(true, Seq::empty()) == TestPhase::StartCapture,
        phase_after(false, Seq::empty()) == TestPhase::Inject,
        test_next(true, TestPhase::StartCapture, TestEvent::Started(true)) == TestPhase::Inject,
        test_next(true, TestPhase::Inject, TestEvent::Injected(Some(true)))
            == TestPhase::WaitCapture,
        test_next(true, TestPhase::WaitCapture, TestEvent::Waited(true)) == TestPhase::Parse,
        test_next(true, TestPhase::Parse, TestEvent::Parsed(true)) == TestPhase::Done(
            TestEnd::Heard,
        ),
        test_next(false, TestPhase::Inject, TestEvent::Injected(Some(ok))) == TestPhase::Done(
            TestEnd::Played,
        ),
        forall|loopback: bool, end: TestEnd|
            #[trigger] test_next(loopback, TestPhase::Done(end), event) == TestPhase::Done(end),
{
}

/// Each step of a test fails under its own name, and a playing that did not run fails whether or
/// not somebody listens.
pub proof fn law_failed_test_says_where(loopback: bool)
    ensures
        test_next(loopback, TestPhase::StartCapture, TestEvent::Started(false)) == TestPhase::Done(
            TestEnd::Failed(TestFailure::StartCapture),
        ),
        test_next(loopback, TestPhase::Inject, TestEvent::Injected(None)) == TestPhase::Done(
            TestEnd::Failed(TestFailure::RunInject),
        ),
        test_next(true, TestPhase::Inject, TestEvent::Injected(Some(false))) == TestPhase::Done(
            TestEnd::Failed(TestFailure::Inject),
        ),
        test_next(loopback, TestPhase::WaitCapture, TestEvent::Waited(false)) == TestPhase::Done(
            TestEnd::Failed(TestFailure::WaitCapture),
        ),
        test_next(loopback, TestPhase::Parse, TestEvent::Parsed(false)) == TestPhase::Done(
            TestEnd::Failed(TestFailure::Parse),
        ),
{
}

// ---- arguments and texts ----

/// The arguments that play a tone.
pub fn inject_args(tone: &str, amplitude: &str, duration: &str) -> (args: Vec<String>)
    ensures
        text::texts(args@) == seq![
            "inject"@,
            "--tone"@,
            tone@,
            "--amplitude"@,
            amplitude@,
            "--duration"@,
            duration@,
        ],
{
    let mut args: Vec<String> = Vec::new();
    args.push(String::from_str("inject"));
    args.push(String::from_str("--tone"));
    args.push(String::from_str(tone));
    args.push(String::from_str("--amplitude"));
    args.push(String::from_str(amplitude));
    args.push(String::from_str("--duration"));
    args.push(String::from_str(duration));
    args
}

/// The arguments that listen.
pub fn capture_args(duration: &str) -> (args: Vec<String>)
    ensures
        text::texts(args@) == seq![
            "capture"@,
            "--duration"@,
            duration@,
            "--skip"@,
            "1"@,
            "--json"@,
        ],
{
    let mut args: Vec<String> = Vec::new();
    args.push(String::from_str("capture"));
    args.push(String::from_str("--duration"));
    args.push(String::from_str(duration));
    args.push(String::from_str("--skip"));
    args.push(String::from_str("1"));
    args.push(String::from_str("--json"));
    args
}

/// What is shown while a test runs.
pub fn busy_text(loopback: bool) -> (s: &'static str)
    ensures
        s@ == if loopback {
            "环回自测中：并发 注入 → 采集（约需时长 + 2 秒）…"@
        } else {
            "注入中…"@
        },
{
    if loopback {
        "环回自测中：并发 注入 → 采集（约需时长 + 2 秒）…"
    } else {
        "注入中…"
    }
}

/// What is logged when a test begins.
pub fn begin_line(loopback: bool, tone: &str, amplitude: &str, duration: &str) -> (s: String)
    ensures
        s@ == (if loopback {
            "环回自测："@
        } else {
            "注入音频："@
        }) + tone@ + " Hz / 幅度 "@ + amplitude@ + " / "@ + duration@ + (if loopback {
            "s（capture ‖ inject）"@
        } else {
            "s"@
        }),
{
    let mut s: String = String::from_str(
        if loopback {
            "环回自测："
        } else {
            "注入音频："
        },
    );
    s.append(tone);
    s.append(" Hz / 幅度 ");
    s.append(amplitude);
    s.append(" / ");
    s.append(duration);
    if loopback {
        s.append("s（capture ‖ inject）");
    } else {
        s.append("s");
    }
    s
}

/// What failed, in words; `detail` is the error or what the tool wrote, and `raw` what was heard.
pub open spec fn failure_words(f: TestFailure, detail: Seq<char>, raw: Seq<char>) -> Seq<char> {
    match f {
        TestFailure::StartCapture => "启动 capture 失败："@ + detail,
        TestFailure::RunInject => "运行 inject 失败："@ + detail,
        TestFailure::Inject => "inject 失败："@ + text::trimmed(detail),
        TestFailure::WaitCapture => "等待 capture 失败："@ + detail,
        TestFailure::Parse => "解析 capture 输出失败："@ + detail + "（原始："@
            + text::trimmed(raw) + "）"@,
    }
}

/// What failed, in words.
pub fn failure_text(f: TestFailure, detail: &str, raw: &str) -> (s: String)
    ensures
        s@ == failure_words(f, detail@, raw@),
{
    match f {
        TestFailure::StartCapture => {
            let mut s: String = String::from_str("启动 capture 失败：");
            s.append(detail);
            s
        },
        TestFailure::RunInject => {
            let mut s: String = String::from_str("运行 inject 失败：");
            s.append(detail);
            s
        },
        TestFailure::Inject => {
            let mut s: String = String::from_str("inject 失败：");
            let t: String = text::trim(detail);
            s.append(t.as_str());
            s
        },
        TestFailure::WaitCapture => {
            let mut s: String = String::from_str("等待 capture 失败：");
            s.append(detail);
            s
        },
        TestFailure::Parse => {
            let mut s: String = String::from_str("解析 capture 输出失败：");
            s.append(detail);
            s.append("（原始：");
            let t: String = text::trim(raw);
            s.append(t.as_str());
            s.append("）");
            s
        },
    }
}

/// What was heard, with its levels and length as texts.
pub struct Level {
    /// Whether it is above the level that counts as near silence.
    pub loud: bool,
    pub rms: String,
    pub peak: String,
    pub frames: u64,
    pub seconds: String,
}

/// What is said of the level.
pub open spec fn verdict_words(loud: bool) -> Seq<char> {
    if loud {
        "通过（采到有效音频）"@
    } else {
        "未通过（接近静音：确认已安装驱动且端点未被独占）"@
    }
}

/// What is said of the level.
fn verdict(loud: bool) -> (s: &'static str)
    ensures
        s@ == verdict_words(loud),
{
    if loud {
        "通过（采到有效音频）"
    } else {
        "未通过（接近静音：确认已安装驱动且端点未被独占）"
    }
}

/// What is shown, and what is logged, of what was heard.
pub fn heard_texts(l: &Level) -> (r: (String, String))
    ensures
        r.0@ == "环回自测 "@ + verdict_words(l.loud) + "：RMS "@ + l.rms@ + " dBFS / 峰值 "@
            + l.peak@ + " dBFS（"@ + text::decimal(l.frames as nat) + " 帧 ≈ "@
            + l.seconds@ + "s）"@,
        r.1@ == "环回自测：RMS "@ + l.rms@ + " dBFS / 峰值 "@ + l.peak@ + " dBFS → "@
            + verdict_words(l.loud),
{
    let mut shown: String = String::from_str("环回自测 ");
    shown.append(verdict(l.loud));
    shown.append("：RMS ");
    shown.append(l.rms.as_str());
    shown.append(" dBFS / 峰值 ");
    shown.append(l.peak.as_str());
    shown.append(" dBFS（");
    text::push_decimal(&mut shown, l.frames);
    shown.append(" 帧 ≈ ");
    shown.append(l.seconds.as_str());
    shown.append("s）");
    let mut logged: String = String::from_str("环回自测：RMS ");
    logged.append(l.rms.as_str());
    logged.append(" dBFS / 峰值 ");
    logged.append(l.peak.as_str());
    logged.append(" dBFS → ");
    logged.append(verdict(l.loud));
    (shown, logged)
}

/// What is shown, and what is logged, of a tone that nobody listened to.
pub fn played_texts() -> (r: (&'static str, &'static str))
    ensures
        r.0@ == "注入完成（未做采集）。点「环回自测」可一键验证环回。"@,
        r.1@ == "注入完成"@,
{
    ("注入完成（未做采集）。点「环回自测」可一键验证环回。", "注入完成")
}

/// What is shown, and what is logged, of a test that failed.
pub fn failed_texts(error: &str) -> (r: (String, String))
    ensures
        r.0@ == "测试失败："@ + error@,
        r.1@ == "❌ "@ + error@,
{
    let mut shown: String = String::from_str("测试失败：");
    shown.append(error);
    let mut logged: String = String::from_str("❌ ");
    logged.append(error);
    (shown, logged)
}

/// What is shown, and what is logged, where the test could not be started at all.
pub fn no_thread_texts(error: &str) -> (r: (String, String))
    ensures
        r.0@ == "创建测试线程失败："@ + error@,
        r.1@ == "创建测试线程失败: "@ + error@,
{
    let mut shown: String = String::from_str("创建测试线程失败：");
    shown.append(error);
    let mut logged: String = String::from_str("创建测试线程失败: ");
    logged.append(error);
    (shown, logged)
}

} // verus!
