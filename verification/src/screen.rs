//! Pushing a screen to the camera: the steps that start it, what each failure leaves behind, the
//! sessions, and the thread that keeps a still picture alive.
use crate::text;
use vstd::prelude::*;
use vstd::string::*;

verus! {

/// The width of the pictures that are sent.
pub const FRAME_WIDTH: u32 = 1920;

/// The height of the pictures that are sent.
pub const FRAME_HEIGHT: u32 = 1080;

/// The time after which the last picture is sent again, in milliseconds.
pub const STALE_MS: u64 = 500;

/// The pause of the thread that sends it again, in milliseconds.
pub const KEEP_ALIVE_PAUSE_MS: u32 = 200;

/// The pause while the thread to be stopped is not yet under way, in milliseconds.
pub const STOP_PAUSE_MS: u32 = 5;

/// The status of a picture that is complete.
pub const FRAME_COMPLETE: i32 = 0;

/// Why a screen cannot be pushed.
#[derive(Clone, Copy, Debug, PartialEq, Eq, Structural)]
pub enum ScreenError {
    /// One is pushed already.
    AlreadyRunning,
    /// The user did not allow it.
    NoAccess,
    /// No stream could be made of the display.
    Create(u32),
    /// The stream could not be started.
    Start(i32),
}

/// The words of an error.
pub open spec fn error_words(e: ScreenError) -> Seq<char> {
    match e {
        ScreenError::AlreadyRunning => "屏幕推流已在运行"@,
        ScreenError::NoAccess =>
            "需要屏幕录制权限：系统设置 → 隐私与安全性 → 屏幕录制"@,
        ScreenError::Create(id) => "CGDisplayStreamCreate 失败（显示器 0x"@
            + text::small_hex(id as nat) + "）"@,
        ScreenError::Start(rc) => "CGDisplayStreamStart 失败 rc="@ + text::signed_decimal(
            rc as int,
        ),
    }
}

impl ScreenError {
    /// The error in words.
    pub fn message(self) -> (s: String)
        ensures
            s@ == error_words(self),
    {
        match self {
            ScreenError::AlreadyRunning => String::from_str("屏幕推流已在运行"),
            ScreenError::NoAccess => String::from_str(
                "需要屏幕录制权限：系统设置 → 隐私与安全性 → 屏幕录制",
            ),
            ScreenError::Create(id) => {
                let mut s: String = String::from_str("CGDisplayStreamCreate 失败（显示器 0x");
                text::push_small_hex(&mut s, id as u64);
                s.append("）");
                s
            },
            ScreenError::Start(rc) => {
                let mut s: String = String::from_str("CGDisplayStreamStart 失败 rc=");
                text::push_signed(&mut s, rc as i64);
                s
            },
        }
    }
}

/// The pushing of a screen.
#[derive(Clone, Copy, Debug, PartialEq, Eq, Structural)]
pub struct Screen {
    /// A screen is pushed, or is about to be.
    pub running: bool,
    /// The number of the session; it grows with every start and every stop.
    pub session: u64,
    /// There is a thread to wait for.
    pub has_thread: bool,
}

/// What starting has come to.
#[derive(Clone, Copy, Debug, PartialEq, Eq, Structural)]
pub enum StartPhase {
    /// See whether the user allowed it.
    CheckAccess,
    /// Make a stream.
    Create,
    /// Start the stream.
    Start,
    /// Start the threads.
    Spawn,
    /// The screen is pushed.
    Started,
    /// It is not, and why; whether the user is to be asked for permission, and whether the stream
    /// is to be given back.
    Failed { error: ScreenError, ask: bool, release: bool },
}

/// The outcome of a step of starting.
#[derive(Clone, Copy, Debug, PartialEq, Eq, Structural)]
pub enum StartEvent {
    /// Whether the user allowed it.
    Allowed(bool),
    /// Whether there is a stream of the display.
    Created(bool, u32),
    /// The code of starting the stream; zero is success.
    Code(i32),
    /// The threads run.
    Spawned,
}

/// The pushing and the starting after an outcome. Whatever fails, nothing is pushed afterwards.
pub open spec fn start_next(s: Screen, phase: StartPhase, event: StartEvent) -> (
    Screen,
    StartPhase,
) {
    match (phase, event) {
        (StartPhase::CheckAccess, StartEvent::Allowed(ok)) => if ok {
            (s, StartPhase::Create)
        } else {
            (
                Screen { running: false, ..s },
                StartPhase::Failed { error: ScreenError::NoAccess, ask: true, release: false },
            )
        },
        (StartPhase::Create, StartEvent::Created(ok, id)) => if ok {
            (s, StartPhase::Start)
        } else {
            (
                Screen { running: false, ..s },
                StartPhase::Failed { error: ScreenError::Create(id), ask: false, release: false },
            )
        },
        (StartPhase::Start, StartEvent::Code(rc)) => if rc == 0 {
            (s, StartPhase::Spawn)
        } else {
            (
                Screen { running: false, ..s },
                StartPhase::Failed { error: ScreenError::Start(rc), ask: false, release: true },
            )
        },
        (StartPhase::Spawn, StartEvent::Spawned) => (
            Screen { has_thread: true, ..s },
            StartPhase::Started,
        ),
        _ => (s, phase),
    }
}

/// The number of the next session; the numbers begin again after the last one.
pub open spec fn next_session(session: u64) -> u64 {
    if session == u64::MAX {
        0
    } else {
        (session + 1) as u64
    }
}

/// The pushing once starting was asked for, and the number of the session; where a screen is pushed
/// already, nothing changes.
pub open spec fn begun(s: Screen) -> (Screen, Result<u64, ScreenError>) {
    if s.running {
        (s, Err(ScreenError::AlreadyRunning))
    } else {
        let session = next_session(s.session);
        (Screen { running: true, session, ..s }, Ok(session))
    }
}

impl Screen {
    /// Nothing was ever pushed.
    pub fn new() -> (s: Screen)
        ensures
            s == (Screen { running: false, session: 0, has_thread: false }),
    {
        Screen { running: false, session: 0, has_thread: false }
    }

    /// Whether a screen is pushed, or is about to be.
    pub fn is_running(&self) -> (yes: bool)
        ensures
            yes == self.running,
    {
        self.running
    }

    /// Begins to start; gives the number of the session, or the error where one is pushed already.
    pub fn start(&mut self) -> (r: Result<u64, ScreenError>)
        requires
            !old(self).running ==> old(self).session < u64::MAX,
        ensures
            (*final(self), r) == begun(*old(self)),
    {
        if self.running {
            return Err(ScreenError::AlreadyRunning);
        }
        self.running = true;
        self.session = self.session + 1;
        Ok(self.session)
    }

    /// Takes the outcome of a step of starting.
    pub fn start_step(&mut self, phase: StartPhase, event: StartEvent) -> (r: StartPhase)
        ensures
            (*final(self), r) == start_next(*old(self), phase, event),
    {
        match (phase, event) {
            (StartPhase::CheckAccess, StartEvent::Allowed(ok)) => if ok {
                StartPhase::Create
            } else {
                self.running = false;
                StartPhase::Failed { error: ScreenError::NoAccess, ask: true, release: false }
            },
            (StartPhase::Create, StartEvent::Created(ok, id)) => if ok {
                StartPhase::Start
            } else {
                self.running = false;
                StartPhase::Failed { error: ScreenError::Create(id), ask: false, release: false }
            },
            (StartPhase::Start, StartEvent::Code(rc)) => if rc == 0 {
                StartPhase::Spawn
            } else {
                self.running = false;
                StartPhase::Failed { error: ScreenError::Start(rc), ask: false, release: true }
            },
            (StartPhase::Spawn, StartEvent::Spawned) => {
                self.has_thread = true;
                StartPhase::Started
            },
            _ => phase,
        }
    }

    /// Begins to stop: the session ends in any case. Gives whether there is a thread to stop and
    /// to wait for.
    pub fn stop(&mut self) -> (join: bool)
        ensures
            join == old(self).has_thread,
            *final(self) == (Screen {
                session: next_session(old(self).session),
                has_thread: false,
                ..*old(self)
            }),
    {
        self.session = self.session.wrapping_add(1);
        let join: bool = self.has_thread;
        self.has_thread = false;
        join
    }

    /// The thread has ended and has given everything back.
    pub fn thread_ended(&mut self)
        ensures
            *final(self) == (Screen { running: false, ..*old(self) }),
    {
        self.running = false;
    }
}

/// The pushing and the starting after a row of outcomes, from a start that was not refused.
pub open spec fn start_after(s: Screen, events: Seq<StartEvent>) -> (Screen, StartPhase)
    decreases events.len(),
{
    if events.len() == 0 {
        (begun(s).0, StartPhase::CheckAccess)
    } else {
        let before = start_after(s, events.drop_last());
        start_next(before.0, before.1, events.last())
    }
}

/// A start that fails leaves things as they were. While a screen is pushed, a start is refused and
/// nothing changes. Otherwise, whatever the steps come to and wherever one fails, no screen is
/// pushed afterwards, no thread was added, and the next start is not refused.
pub proof fn law_failed_start_can_be_repeated(s: Screen, events: Seq<StartEvent>)
    ensures
        s.running ==> begun(s) == (
            s,
            Err::<u64, ScreenError>(ScreenError::AlreadyRunning),
        ),
        !s.running && start_after(s, events).1 is Failed ==> {
            let t = start_after(s, events).0;
            &&& !t.running
            &&& t.has_thread == s.has_thread
            &&& begun(t).1 is Ok
        },
{
    if !s.running {
        lemma_start_so_far(s, events);
    }
}

/// What holds at every point of a start: it runs until it fails, and the thread comes last.
proof fn lemma_start_so_far(s: Screen, events: Seq<StartEvent>)
    requires
        !s.running,
    ensures
        ({
            let (t, phase) = start_after(s, events);
            &&& t.running == !(phase is Failed)
            &&& !(phase is Started) ==> t.has_thread == s.has_thread
        }),
    decreases events.len(),
{
    if events.len() > 0 {
        lemma_start_so_far(s, events.drop_last());
    }
}

/// A start in which nothing fails goes through its four steps in order and ends with the screen
/// pushed, in a new session and with a thread.
pub proof fn law_smooth_start_pushes_the_screen(s: Screen, id: u32)
    requires
        !s.running,
    ensures
        ({
            let asked = begun(s);
            let allowed = start_next(asked.0, StartPhase::CheckAccess, StartEvent::Allowed(true));
            let made = start_next(allowed.0, allowed.1, StartEvent::Created(true, id));
            let started = start_next(made.0, made.1, StartEvent::Code(0));
            let under_way = start_next(started.0, started.1, StartEvent::Spawned);
            &&& asked.1 == Ok::<u64, ScreenError>(asked.0.session)
            &&& allowed.1 == StartPhase::Create
            &&& made.1 == StartPhase::Start
            &&& started.1 == StartPhase::Spawn
            &&& under_way == (
                Screen { running: true, session: asked.0.session, has_thread: true },
                StartPhase::Started,
            )
            &&& asked.0.session != s.session
            &&& s.session < u64::MAX ==> asked.0.session == s.session + 1
        }),
{
}

/// Each step of a start fails in its own way: without permission the user is asked for it, and a
/// stream that was made but did not start is given back; nothing else is asked for or given back.
pub proof fn law_failed_start_says_why(s: Screen, id: u32, rc: i32)
    requires
        rc != 0,
    ensures
        start_next(s, StartPhase::CheckAccess, StartEvent::Allowed(false)).1
            == (StartPhase::Failed { error: ScreenError::NoAccess, ask: true, release: false }),
        start_next(s, StartPhase::Create, StartEvent::Created(false, id)).1
            == (StartPhase::Failed { error: ScreenError::Create(id), ask: false, release: false }),
        start_next(s, StartPhase::Start, StartEvent::Code(rc)).1 == (StartPhase::Failed {
            error: ScreenError::Start(rc),
            ask: false,
            release: true,
        }),
{
}

/// What can be done while stopping.
#[derive(Clone, Copy, Debug, PartialEq, Eq, Structural)]
pub enum StopStep {
    /// Wait so many milliseconds until the thread is under way.
    Wait(u32),
    /// Stop its loop, and wait for its end.
    StopLoop,
    /// Wait for its end.
    Join,
}

/// What to do while stopping, by whether the thread has ended and whether its loop is known.
pub fn stop_step(finished: bool, has_loop: bool) -> (step: StopStep)
    ensures
        step == if finished {
            StopStep::Join
        } else if has_loop {
            StopStep::StopLoop
        } else {
            StopStep::Wait(STOP_PAUSE_MS)
        },
{
    if finished {
        StopStep::Join
    } else if has_loop {
        StopStep::StopLoop
    } else {
        StopStep::Wait(STOP_PAUSE_MS)
    }
}

// ---- keeping a still picture alive ----

/// What the thread does that keeps a picture alive.
#[derive(Clone, Copy, Debug, PartialEq, Eq, Structural)]
pub enum KeepAlive {
    /// Its session is over: end.
    Exit,
    /// Send the last picture again, and pause.
    Resend,
    /// Pause.
    Pause,
}

/// What the thread of session `mine` does while the session is `now`, by how old the last picture
/// is and whether there is one.
pub open spec fn keep_alive_next(mine: u64, now: u64, age_ms: u64, has_frame: bool) -> KeepAlive {
    if mine != now {
        KeepAlive::Exit
    } else if age_ms >= STALE_MS && has_frame {
        KeepAlive::Resend
    } else {
        KeepAlive::Pause
    }
}

/// What the thread does that keeps a picture alive.
pub fn spawn_keep_alive(mine: u64, now: u64, age_ms: u64, has_frame: bool) -> (k: KeepAlive)
    ensures
        k == keep_alive_next(mine, now, age_ms, has_frame),
{
    if mine != now {
        return KeepAlive::Exit;
    }
    if age_ms >= STALE_MS && has_frame {
        return KeepAlive::Resend;
    }
    KeepAlive::Pause
}

/// A still picture is kept alive while its session lasts: the last picture is sent again exactly
/// when there is one and it is half a second old or older, and the thread ends exactly when the
/// session is no longer its own. Starting and stopping each end the sessions before them.
pub proof fn law_still_picture_is_kept_alive(
    s: Screen,
    mine: u64,
    now: u64,
    age_ms: u64,
    has_frame: bool,
)
    ensures
        ({
            let k = keep_alive_next(mine, now, age_ms, has_frame);
            &&& k == KeepAlive::Exit <==> mine != now
            &&& k == KeepAlive::Resend <==> mine == now && has_frame && age_ms >= 500
        }),
        begun(s).1 is Ok ==> keep_alive_next(s.session, begun(s).0.session, age_ms, has_frame)
            == KeepAlive::Exit,
        keep_alive_next(s.session, next_session(s.session), age_ms, has_frame) == KeepAlive::Exit,
{
}

/// Starting and stopping.
#[derive(Clone, Copy, Debug, PartialEq, Eq, Structural)]
pub enum SessionOp {
    /// A start that is not refused.
    Start,
    /// A start that is refused.
    Refused,
    /// A stop.
    Stop,
}

/// The number of the session after a row of starts and stops.
pub open spec fn session_after(session: int, ops: Seq<SessionOp>) -> int
    decreases ops.len(),
{
    if ops.len() == 0 {
        session
    } else if ops.last() == SessionOp::Refused {
        session_after(session, ops.drop_last())
    } else {
        session_after(session, ops.drop_last()) + 1
    }
}

/// Pictures of an old session never come back: once a session was stopped, its thread ends when it
/// next looks, however soon and however often pushing is started again.
pub proof fn law_old_pictures_never_come_back(
    mine: u64,
    ops: Seq<SessionOp>,
    age_ms: u64,
    has_frame: bool,
)
    requires
        ops.len() > 0,
        ops[0] == SessionOp::Stop,
        session_after(mine as int, ops) <= u64::MAX,
    ensures
        keep_alive_next(mine, session_after(mine as int, ops) as u64, age_ms, has_frame)
            == KeepAlive::Exit,
{
    lemma_session_grows(mine as int, ops);
}

proof fn lemma_session_grows(session: int, ops: Seq<SessionOp>)
    requires
        ops.len() > 0,
        ops[0] == SessionOp::Stop,
    ensures
        session_after(session, ops) > session,
    decreases ops.len(),
{
    if ops.len() == 1 {
        assert(ops.drop_last().len() == 0);
        assert(session_after(session, ops.drop_last()) == session);
    } else {
        assert(ops.drop_last()[0] == ops[0]);
        lemma_session_grows(session, ops.drop_last());
    }
}

/// Whether a picture is to be sent: it is complete and has something in it.
pub fn takes_frame(status: i32, has_surface: bool) -> (yes: bool)
    ensures
        yes == (status == FRAME_COMPLETE && has_surface),
{
    status == FRAME_COMPLETE && has_surface
}

} // verus!
