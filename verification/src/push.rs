//! Pushing the test picture to the virtual camera: what a click does, what happens when a step of
//! it fails, and when each frame is due.
use crate::text;
use vstd::prelude::*;
use vstd::string::*;

verus! {

/// The width of the picture.
pub const PUSH_WIDTH: u32 = 640;

/// The height of the picture.
pub const PUSH_HEIGHT: u32 = 360;

/// The frames per second.
pub const PUSH_FPS: u32 = 30;

/// The time from one frame to the next, in nanoseconds.
pub const FRAME_NS: u64 = 33_333_333;

/// What a click on the button does.
#[derive(Clone, Copy, Debug, PartialEq, Eq, Structural)]
pub enum PushAction {
    /// Nothing is pushed: start.
    Start,
    /// Something is pushed: stop.
    Stop,
}

/// What a click does, by whether something is pushed.
pub fn next_push_action(running: bool) -> (action: PushAction)
    ensures
        action == if running {
            PushAction::Stop
        } else {
            PushAction::Start
        },
{
    if running {
        PushAction::Stop
    } else {
        PushAction::Start
    }
}

/// The state of the pushing.
#[derive(Clone, Copy, Debug, PartialEq, Eq, Structural)]
pub struct Push {
    /// Something is pushed, or is about to be.
    pub running: bool,
    /// The button offers to stop.
    pub offers_stop: bool,
    /// There is a thread to wait for.
    pub has_thread: bool,
}

/// What happens.
#[derive(Clone, Copy, Debug, PartialEq, Eq, Structural)]
pub enum PushEvent {
    /// The button is clicked.
    Click,
    /// The channel was opened, or not.
    Opened(bool),
    /// The thread was started, or not.
    Spawned(bool),
    /// The thread ended.
    Ended,
}

/// What is to be done.
#[derive(Clone, Copy, Debug, PartialEq, Eq, Structural)]
pub enum PushDo {
    /// Open the channel.
    OpenChannel,
    /// Start the thread.
    StartThread,
    /// Wait for the thread, if there is one.
    JoinThread,
    /// Nothing more.
    Nothing,
}

/// Nothing is pushed.
pub open spec fn idle() -> Push {
    Push { running: false, offers_stop: false, has_thread: false }
}

/// The state after what happens, and what is to be done.
pub open spec fn push_next(p: Push, event: PushEvent) -> (Push, PushDo) {
    match event {
        PushEvent::Click => if p.running {
            (idle(), PushDo::JoinThread)
        } else {
            (Push { running: true, ..p }, PushDo::OpenChannel)
        },
        PushEvent::Opened(ok) => if ok {
            (Push { offers_stop: true, ..p }, PushDo::StartThread)
        } else {
            (Push { running: false, ..p }, PushDo::Nothing)
        },
        PushEvent::Spawned(ok) => if ok {
            (Push { has_thread: true, ..p }, PushDo::Nothing)
        } else {
            (Push { running: false, offers_stop: false, ..p }, PushDo::Nothing)
        },
        PushEvent::Ended => (Push { running: false, offers_stop: false, ..p }, PushDo::Nothing),
    }
}

/// The state after what happens, and what is to be done.
pub fn toggle_push(p: Push, event: PushEvent) -> (r: (Push, PushDo))
    ensures
        r == push_next(p, event),
{
    match event {
        PushEvent::Click => match next_push_action(p.running) {
            PushAction::Stop => (
                Push { running: false, offers_stop: false, has_thread: false },
                PushDo::JoinThread,
            ),
            PushAction::Start => (
                Push { running: true, offers_stop: p.offers_stop, has_thread: p.has_thread },
                PushDo::OpenChannel,
            ),
        },
        PushEvent::Opened(ok) => if ok {
            (
                Push { running: p.running, offers_stop: true, has_thread: p.has_thread },
                PushDo::StartThread,
            )
        } else {
            (
                Push { running: false, offers_stop: p.offers_stop, has_thread: p.has_thread },
                PushDo::Nothing,
            )
        },
        PushEvent::Spawned(ok) => if ok {
            (
                Push { running: p.running, offers_stop: p.offers_stop, has_thread: true },
                PushDo::Nothing,
            )
        } else {
            (
                Push { running: false, offers_stop: false, has_thread: p.has_thread },
                PushDo::Nothing,
            )
        },
        PushEvent::Ended => (
            Push { running: false, offers_stop: false, has_thread: p.has_thread },
            PushDo::Nothing,
        ),
    }
}

/// A start that fails leaves no trace, wherever it fails: the next click starts again.
pub proof fn law_failed_start_is_undone(p: Push)
    requires
        !p.running,
        !p.offers_stop,
    ensures
        ({
            let clicked = push_next(p, PushEvent::Click);
            let refused = push_next(clicked.0, PushEvent::Opened(false));
            let opened = push_next(clicked.0, PushEvent::Opened(true));
            let broken = push_next(opened.0, PushEvent::Spawned(false));
            &&& clicked.1 == PushDo::OpenChannel
            &&& refused.0 == p
            &&& opened.1 == PushDo::StartThread
            &&& broken.0 == p
            &&& push_next(refused.0, PushEvent::Click).1 == PushDo::OpenChannel
            &&& push_next(broken.0, PushEvent::Click).1 == PushDo::OpenChannel
        }),
{
}

/// One click starts, the next one stops and waits for the thread, and then all is as before.
pub proof fn law_second_click_stops(p: Push)
    requires
        p == idle(),
    ensures
        ({
            let clicked = push_next(p, PushEvent::Click).0;
            let opened = push_next(clicked, PushEvent::Opened(true)).0;
            let started = push_next(opened, PushEvent::Spawned(true)).0;
            let stopped = push_next(started, PushEvent::Click);
            &&& started == Push { running: true, offers_stop: true, has_thread: true }
            &&& stopped.1 == PushDo::JoinThread
            &&& stopped.0 == p
        }),
{
}

/// A thread that ends by itself lets the next click start again.
pub proof fn law_ended_thread_can_be_restarted(p: Push)
    ensures
        ({
            let ended = push_next(p, PushEvent::Ended).0;
            &&& !ended.offers_stop
            &&& push_next(ended, PushEvent::Click).1 == PushDo::OpenChannel
        }),
{
}

/// A click always does one of two things: while something is pushed, or about to be, it waits for
/// the thread and leaves nothing behind; else it opens the channel, and only that is new.
pub proof fn law_click_stops_or_starts(p: Push)
    ensures
        push_next(p, PushEvent::Click) == if p.running {
            (Push { running: false, offers_stop: false, has_thread: false }, PushDo::JoinThread)
        } else {
            (Push { running: true, ..p }, PushDo::OpenChannel)
        },
{
}

/// The pushing after a row of events.
pub open spec fn push_after(p: Push, events: Seq<PushEvent>) -> Push
    decreases events.len(),
{
    if events.len() == 0 {
        p
    } else {
        push_next(push_after(p, events.drop_last()), events.last()).0
    }
}

/// As long as a channel is opened only after a click that started, the button offers to stop only
/// while something is pushed: every end takes the offer back.
pub proof fn law_stop_is_offered_only_while_pushing(events: Seq<PushEvent>)
    requires
        forall|i: int|
            0 <= i < events.len() && #[trigger] events[i] is Opened ==> push_after(
                idle(),
                events.take(i),
            ).running && !push_after(idle(), events.take(i)).offers_stop,
    ensures
        push_after(idle(), events).offers_stop ==> push_after(idle(), events).running,
    decreases events.len(),
{
    if events.len() > 0 {
        let rest = events.drop_last();
        assert forall|i: int| 0 <= i < rest.len() && #[trigger] rest[i] is Opened implies
            push_after(idle(), rest.take(i)).running && !push_after(
            idle(),
            rest.take(i),
        ).offers_stop by {
            assert(events[i] is Opened);
            assert(rest.take(i) =~= events.take(i));
        }
        law_stop_is_offered_only_while_pushing(rest);
        let i = events.len() - 1;
        assert(events.take(i) =~= rest);
        if events[i] is Opened {
            assert(push_after(idle(), events.take(i)).running);
        }
    }
}

/// The thread is started exactly when the channel was opened, and the channel is opened exactly
/// when a click finds nothing pushed; a thread is waited for exactly when a click finds something
/// pushed.
pub proof fn law_what_is_done_follows_what_happens(p: Push, event: PushEvent)
    ensures
        push_next(p, event).1 == PushDo::StartThread <==> event == PushEvent::Opened(true),
        push_next(p, event).1 == PushDo::OpenChannel <==> event == PushEvent::Click && !p.running,
        push_next(p, event).1 == PushDo::JoinThread <==> event == PushEvent::Click && p.running,
        event == PushEvent::Spawned(true) ==> push_next(p, event).0 == (Push {
            has_thread: true,
            ..p
        }),
        event == PushEvent::Opened(true) ==> push_next(p, event).0 == (Push {
            offers_stop: true,
            ..p
        }),
        event == PushEvent::Ended || event == PushEvent::Spawned(false) ==> push_next(p, event).0
            == (Push { running: false, offers_stop: false, ..p }),
{
}

/// What the button says.
pub fn push_button(p: Push) -> (s: &'static str)
    ensures
        s@ == if p.offers_stop {
            "停止推流"@
        } else {
            "开始推流"@
        },
{
    if p.offers_stop {
        "停止推流"
    } else {
        "开始推流"
    }
}

/// What is logged when something happens, if anything; `error` is what went wrong and `frames` how
/// many frames were pushed. A click is logged only where it stops.
pub open spec fn push_words(p: Push, event: PushEvent, error: Seq<char>, frames: u64) -> Option<
    Seq<char>,
> {
    match event {
        PushEvent::Click => if p.running {
            Some("推流已停止"@)
        } else {
            None
        },
        PushEvent::Opened(ok) => if ok {
            Some(
                "推流开始（棋盘格 "@ + text::decimal(PUSH_WIDTH as nat) + "x"@
                    + text::decimal(PUSH_HEIGHT as nat) + "@"@ + text::decimal(PUSH_FPS as nat)
                    + "fps）…"@,
            )
        } else {
            Some("打开推流通道失败: "@ + error)
        },
        PushEvent::Spawned(ok) => if ok {
            None
        } else {
            Some("创建推流线程失败: "@ + error)
        },
        PushEvent::Ended => Some(
            "推流线程结束，共 "@ + text::decimal(frames as nat) + " 帧"@,
        ),
    }
}

/// What is logged when something happens, if anything.
pub fn push_log(p: Push, event: PushEvent, error: &str, frames: u64) -> (r: Option<String>)
    ensures
        match r {
            Some(s) => push_words(p, event, error@, frames) == Some(s@),
            None => push_words(p, event, error@, frames) is None,
        },
{
    match event {
        PushEvent::Click => if p.running {
            Some(String::from_str("推流已停止"))
        } else {
            None
        },
        PushEvent::Opened(ok) => {
            if ok {
                let mut s: String = String::from_str("推流开始（棋盘格 ");
                text::push_decimal(&mut s, PUSH_WIDTH as u64);
                s.append("x");
                text::push_decimal(&mut s, PUSH_HEIGHT as u64);
                s.append("@");
                text::push_decimal(&mut s, PUSH_FPS as u64);
                s.append("fps）…");
                Some(s)
            } else {
                let mut s: String = String::from_str("打开推流通道失败: ");
                s.append(error);
                Some(s)
            }
        },
        PushEvent::Spawned(ok) => if ok {
            None
        } else {
            let mut s: String = String::from_str("创建推流线程失败: ");
            s.append(error);
            Some(s)
        },
        PushEvent::Ended => {
            let mut s: String = String::from_str("推流线程结束，共 ");
            text::push_decimal(&mut s, frames);
            s.append(" 帧");
            Some(s)
        },
    }
}

/// What is logged when a frame cannot be pushed.
pub fn push_failed_log(error: &str) -> (s: String)
    ensures
        s@ == "推流失败: "@ + error@,
{
    let mut s: String = String::from_str("推流失败: ");
    s.append(error);
    s
}

/// How long to wait after `count` frames, `elapsed` nanoseconds after the start.
pub open spec fn pause_of(count: u32, elapsed: u64) -> Option<u64> {
    if count * FRAME_NS >= elapsed {
        Some((count * FRAME_NS - elapsed) as u64)
    } else {
        None
    }
}

/// Frames keep their pace: a pause ends when the next frame is due, which is a thirtieth of a
/// second, in whole nanoseconds, after the one before was, however long that one took; a frame
/// that is late is not waited for.
pub proof fn law_frames_keep_their_pace(count: u32, elapsed: u64)
    ensures
        pause_of(count, elapsed) matches Some(p) ==> elapsed + p == count * 33_333_333,
        pause_of(count, elapsed) is None <==> elapsed > count * 33_333_333,
{
    assert(count * FRAME_NS == count * 33_333_333 && count * 33_333_333 <= u64::MAX)
        by (nonlinear_arith)
        requires
            FRAME_NS == 33_333_333,
            count <= u32::MAX,
    ;
}

/// How long to wait after `count` frames, `elapsed` nanoseconds after the start: until the next
/// frame is due, or not at all where it is late.
pub fn frame_pause(count: u32, elapsed: u64) -> (r: Option<u64>)
    ensures
        r == if count * FRAME_NS >= elapsed {
            Some((count * FRAME_NS - elapsed) as u64)
        } else {
            None
        },
        r == pause_of(count, elapsed),
{
    let due: u64 = count as u64 * FRAME_NS;
    if due >= elapsed {
        Some(due - elapsed)
    } else {
        None
    }
}

} // verus!
