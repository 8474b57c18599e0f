//! Playing the sound of a video on the virtual sound card: which device it is, the steps that set
//! the playing up, the samples from the decoder through the queue to the callback, and the end.
use crate::spsc;
use crate::spsc::SpscRing;
use crate::text;
use crate::wasapi;
use vstd::prelude::*;
use vstd::string::*;

verus! {

/// The channels of the sound.
pub const CHANNELS: u32 = 2;

/// The samples that are in the queue before the playing starts: a tenth of a second.
pub const PREFILL: usize = 9600;

/// The pause while the queue has no room, in milliseconds.
pub const ROOM_PAUSE_MS: u32 = 2;

// ---- the device ----

/// A sound device.
pub struct Device {
    pub id: u32,
    pub name: String,
}

/// The names of a row of devices.
pub open spec fn names_of(devices: Seq<Device>) -> Seq<Seq<char>> {
    devices.map_values(|d: Device| d.name@)
}

/// The device whose name has `keyword` in it, whatever the case: the first of them.
pub open spec fn is_device(devices: Seq<Device>, keyword: Seq<char>, i: int) -> bool {
    wasapi::is_first_with(
        wasapi::lowered(names_of(devices)),
        text::lowercase(keyword),
        i,
    )
}

/// No device has `keyword` in its name.
pub open spec fn no_device(devices: Seq<Device>, keyword: Seq<char>) -> bool {
    wasapi::none_has(wasapi::lowered(names_of(devices)), text::lowercase(keyword))
}

/// The devices that will do, the better ones first.
pub open spec fn keywords() -> Seq<Seq<char>> {
    seq!["vdev-audio"@, "BlackHole"@, "VB-Cable"@, "VB-Audio"@]
}

/// The first device whose name has `keyword` in it, whatever the case.
pub fn find_device_id(devices: &Vec<Device>, keyword: &str) -> (r: Option<u32>)
    ensures
        match r {
            Some(id) => exists|i: int|
                #[trigger] is_device(devices@, keyword@, i) && devices@[i].id == id,
            None => no_device(devices@, keyword@),
        },
{
    let mut names: Vec<String> = Vec::new();
    let mut i: usize = 0;
    while i < devices.len()
        invariant
            i <= devices@.len(),
            names@.len() == i,
            forall|k: int| 0 <= k < i ==> (#[trigger] names@[k])@ == devices@[k].name@,
        decreases devices@.len() - i,
    {
        names.push(String::from_str(devices[i].name.as_str()));
        i = i + 1;
    }
    assert(text::texts(names@) =~= names_of(devices@));
    let low: Vec<String> = wasapi::all_lowered(&names);
    let part: String = text::to_lowercase(keyword);
    match wasapi::first_with(&low, part.as_str()) {
        Some(k) => {
            assert(is_device(devices@, keyword@, k as int));
            Some(devices[k].id)
        },
        None => None,
    }
}

/// The device of the first keyword that has one.
pub open spec fn is_best(devices: Seq<Device>, k: int, i: int) -> bool {
    &&& 0 <= k < keywords().len()
    &&& is_device(devices, keywords()[k], i)
    &&& forall|j: int| 0 <= j < k ==> no_device(devices, #[trigger] keywords()[j])
}

/// The device to play on: that of the best keyword that has one.
pub open spec fn is_choice(devices: Seq<Device>, r: Option<u32>) -> bool {
    match r {
        Some(id) => exists|k: int, i: int|
            #[trigger] is_best(devices, k, i) && devices[i].id == id,
        None => forall|j: int|
            0 <= j < keywords().len() ==> no_device(devices, #[trigger] keywords()[j]),
    }
}

/// The device to play on.
pub fn choose_device(devices: &Vec<Device>) -> (r: Option<u32>)
    ensures
        is_choice(devices@, r),
{
    match find_device_id(devices, "vdev-audio") {
        Some(id) => {
            proof {
                let i = choose|i: int|
                    #[trigger] is_device(devices@, "vdev-audio"@, i) && devices@[i].id == id;
                assert(is_best(devices@, 0, i));
            }
            return Some(id);
        },
        None => {},
    }
    match find_device_id(devices, "BlackHole") {
        Some(id) => {
            proof {
                let i = choose|i: int|
                    #[trigger] is_device(devices@, "BlackHole"@, i) && devices@[i].id == id;
                assert(is_best(devices@, 1, i));
            }
            return Some(id);
        },
        None => {},
    }
    match find_device_id(devices, "VB-Cable") {
        Some(id) => {
            proof {
                let i = choose|i: int|
                    #[trigger] is_device(devices@, "VB-Cable"@, i) && devices@[i].id == id;
                assert(is_best(devices@, 2, i));
            }
            return Some(id);
        },
        None => {},
    }
    match find_device_id(devices, "VB-Audio") {
        Some(id) => {
            proof {
                let i = choose|i: int|
                    #[trigger] is_device(devices@, "VB-Audio"@, i) && devices@[i].id == id;
                assert(is_best(devices@, 3, i));
            }
            Some(id)
        },
        None => None,
    }
}

/// The device on which the sound of a video is played: the one to play on, if the video has sound.
/// Without a device nothing is played.
pub fn start_audio_push(devices: &Vec<Device>, has_track: bool) -> (r: Option<u32>)
    ensures
        !has_track ==> r is None,
        has_track ==> is_choice(devices@, r),
{
    if has_track {
        choose_device(devices)
    } else {
        None
    }
}

/// What is logged of the device that was chosen, or that there is none.
pub fn device_line(device: Option<u32>) -> (s: String)
    ensures
        s@ == match device {
            Some(id) => "音频推流: 使用设备 "@ + text::decimal(id as nat)
                + " 播放视频音轨"@,
            None =>
                "音频推流: 未找到虚拟声卡（vdev-audio/BlackHole），跳过——请先安装 vdev-audio 驱动"@,
        },
{
    match device {
        Some(id) => {
            let mut s: String = String::from_str("音频推流: 使用设备 ");
            text::push_decimal(&mut s, id as u64);
            s.append(" 播放视频音轨");
            s
        },
        None => String::from_str(
            "音频推流: 未找到虚拟声卡（vdev-audio/BlackHole），跳过——请先安装 vdev-audio 驱动",
        ),
    }
}

// ---- where the log goes ----

/// Where a line of the log goes.
#[derive(Clone, Copy, Debug, PartialEq, Eq, Structural)]
pub enum LogTo {
    /// To the window.
    Callback,
    /// To the error output.
    Stderr,
}

/// The log of the playing.
pub struct AudioLog<F> {
    /// The callback that takes the lines, if one was set.
    pub callback: Option<F>,
}

/// The log after a callback was set or removed.
pub open spec fn told<F>(log: AudioLog<F>, cb: Option<F>) -> AudioLog<F> {
    AudioLog { callback: cb, ..log }
}

/// Where the next line goes.
pub open spec fn goes_to<F>(log: AudioLog<F>) -> LogTo {
    match log.callback {
        Some(_) => LogTo::Callback,
        None => LogTo::Stderr,
    }
}

impl<F: Fn(String)> AudioLog<F> {
    /// Sets or removes the callback.
    pub fn set_log_cb(&mut self, cb: Option<F>)
        ensures
            *final(self) == told(*old(self), cb),
    {
        self.callback = cb;
    }

    /// Logs a line: the callback is called with it, if there is one. Otherwise the line is for the
    /// error output.
    pub fn alog(&self, line: &str) -> (to: LogTo)
        requires
            self.callback matches Some(f) ==> forall|s: String| #[trigger] f.requires((s,)),
        ensures
            to == goes_to(*self),
            self.callback matches Some(f) ==> exists|s: String|
                s@ == line@ && #[trigger] f.ensures((s,), ()),
    {
        match &self.callback {
            Some(f) => {
                let s: String = String::from_str(line);
                let ghost given = s;
                f(s);
                assert(f.ensures((given,), ()));
                LogTo::Callback
            },
            None => LogTo::Stderr,
        }
    }
}

/// The log after callbacks were set or removed one after the other.
pub open spec fn log_after<F>(log: AudioLog<F>, set: Seq<Option<F>>) -> AudioLog<F>
    decreases set.len(),
{
    if set.len() == 0 {
        log
    } else {
        told(log_after(log, set.drop_last()), set.last())
    }
}

/// Only the callback that was set last takes lines, whatever was set before; once it was removed,
/// none does, and lines go to the error output.
pub proof fn law_last_callback_takes_the_lines<F>(
    log: AudioLog<F>,
    set: Seq<Option<F>>,
    cb: Option<F>,
)
    ensures
        log_after(log, set.push(cb)).callback == cb,
        goes_to(log_after(log, set.push(cb))) == if cb is Some {
            LogTo::Callback
        } else {
            LogTo::Stderr
        },
{
}

/// The own device is played on whenever there is one, whatever others there are; without it the
/// others will do in their order; and nothing is chosen only where none of the four is there.
pub proof fn law_better_device_is_chosen(devices: Seq<Device>, r: Option<u32>, i: int)
    requires
        is_choice(devices, r),
    ensures
        is_device(devices, "vdev-audio"@, i) ==> r == Some(devices[i].id),
        no_device(devices, "vdev-audio"@) && is_device(devices, "BlackHole"@, i) ==> r == Some(
            devices[i].id,
        ),
        no_device(devices, "vdev-audio"@) && no_device(devices, "BlackHole"@) && is_device(
            devices,
            "VB-Cable"@,
            i,
        ) ==> r == Some(devices[i].id),
        no_device(devices, "vdev-audio"@) && no_device(devices, "BlackHole"@) && no_device(
            devices,
            "VB-Cable"@,
        ) && is_device(devices, "VB-Audio"@, i) ==> r == Some(devices[i].id),
        no_device(devices, "vdev-audio"@) && no_device(devices, "BlackHole"@) && no_device(
            devices,
            "VB-Cable"@,
        ) && no_device(devices, "VB-Audio"@) ==> r is None,
{
    let ks = keywords();
    assert(ks[0] == "vdev-audio"@ && ks[1] == "BlackHole"@ && ks[2] == "VB-Cable"@ && ks[3]
        == "VB-Audio"@);
    match r {
        Some(id) => {
            let (k, m) = choose|k: int, m: int|
                #[trigger] is_best(devices, k, m) && devices[m].id == id;
            lemma_one_device(devices, ks[k], ks[0], m, i);
            lemma_one_device(devices, ks[k], ks[1], m, i);
            lemma_one_device(devices, ks[k], ks[2], m, i);
            lemma_one_device(devices, ks[k], ks[3], m, i);
            assert(k > 0 ==> no_device(devices, ks[0]));
            assert(k > 1 ==> no_device(devices, ks[1]));
            assert(k > 2 ==> no_device(devices, ks[2]));
        },
        None => {
            assert(no_device(devices, ks[0]) && no_device(devices, ks[1]) && no_device(
                devices,
                ks[2],
            ) && no_device(devices, ks[3]));
            lemma_one_device(devices, ks[0], ks[0], i, i);
            lemma_one_device(devices, ks[1], ks[1], i, i);
            lemma_one_device(devices, ks[2], ks[2], i, i);
            lemma_one_device(devices, ks[3], ks[3], i, i);
        },
    }
}

/// A keyword has one device at most, and where it has one, it is not without.
proof fn lemma_one_device(devices: Seq<Device>, a: Seq<char>, b: Seq<char>, m: int, i: int)
    ensures
        a == b && is_device(devices, a, m) && is_device(devices, b, i) ==> m == i,
        !(is_device(devices, a, m) && no_device(devices, a)),
        !(is_device(devices, b, i) && no_device(devices, b)),
{
    let low = wasapi::lowered(names_of(devices));
    if is_device(devices, a, m) {
        assert(text::is_part(low[m], text::lowercase(a)));
    }
    if is_device(devices, b, i) {
        assert(text::is_part(low[i], text::lowercase(b)));
    }
}

// ---- setting up ----

/// The steps that set the playing up, in order.
#[derive(Clone, Copy, Debug, PartialEq, Eq, Structural)]
pub enum Setup {
    /// Find the sound in the video.
    FindTrack,
    /// Make a reader for it.
    MakeReader,
    /// Start reading.
    StartReading,
    /// Find the output unit.
    FindUnit,
    /// Make an instance of it.
    MakeUnit,
    /// Switch its output on and its input off; whether that works does not matter.
    EnableOutput,
    /// Initialise it.
    Initialize,
    /// Set its device.
    SetDevice,
    /// Set its format.
    SetFormat,
    /// Set its callback.
    SetCallback,
    /// Everything is set up.
    Ready,
    /// A step failed.
    Failed,
}

/// The step after one that succeeded or failed.
pub open spec fn setup_next(s: Setup, ok: bool) -> Setup {
    if !ok && s != Setup::EnableOutput && s != Setup::Ready {
        Setup::Failed
    } else {
        match s {
            Setup::FindTrack => Setup::MakeReader,
            Setup::MakeReader => Setup::StartReading,
            Setup::StartReading => Setup::FindUnit,
            Setup::FindUnit => Setup::MakeUnit,
            Setup::MakeUnit => Setup::EnableOutput,
            Setup::EnableOutput => Setup::Initialize,
            Setup::Initialize => Setup::SetDevice,
            Setup::SetDevice => Setup::SetFormat,
            Setup::SetFormat => Setup::SetCallback,
            Setup::SetCallback => Setup::Ready,
            Setup::Ready => Setup::Ready,
            Setup::Failed => Setup::Failed,
        }
    }
}

/// The step after one that succeeded or failed.
pub fn setup_step(s: Setup, ok: bool) -> (r: Setup)
    ensures
        r == setup_next(s, ok),
{
    if !ok {
        match s {
            Setup::EnableOutput => {},
            Setup::Ready => {},
            _ => return Setup::Failed,
        }
    }
    match s {
        Setup::FindTrack => Setup::MakeReader,
        Setup::MakeReader => Setup::StartReading,
        Setup::StartReading => Setup::FindUnit,
        Setup::FindUnit => Setup::MakeUnit,
        Setup::MakeUnit => Setup::EnableOutput,
        Setup::EnableOutput => Setup::Initialize,
        Setup::Initialize => Setup::SetDevice,
        Setup::SetDevice => Setup::SetFormat,
        Setup::SetFormat => Setup::SetCallback,
        Setup::SetCallback => Setup::Ready,
        Setup::Ready => Setup::Ready,
        Setup::Failed => Setup::Failed,
    }
}

/// What is logged when a step fails, if anything; `rc` is the code of the failure.
pub open spec fn setup_words(s: Setup, rc: i32) -> Option<Seq<char>> {
    match s {
        Setup::FindTrack => Some("音频推流: 视频没有音轨，跳过"@),
        Setup::MakeReader => Some("音频推流: AVAssetReader 创建失败"@),
        Setup::StartReading => Some("音频推流: startReading 失败"@),
        Setup::FindUnit => Some("音频推流: 找不到 HALOutput AudioUnit"@),
        Setup::MakeUnit => Some("音频推流: AudioComponentInstanceNew 失败"@),
        Setup::Initialize => Some("音频推流: AudioUnitInitialize 失败"@),
        Setup::SetDevice => Some("音频推流: 设置 CurrentDevice 失败"@),
        Setup::SetCallback => Some(
            "音频推流: SetRenderCallback 失败 rc="@ + text::signed_decimal(rc as int),
        ),
        _ => None,
    }
}

/// What is logged when a step fails, if anything.
pub fn setup_line(s: Setup, rc: i32) -> (r: Option<String>)
    ensures
        match r {
            Some(t) => setup_words(s, rc) == Some(t@),
            None => setup_words(s, rc) is None,
        },
{
    match s {
        Setup::FindTrack => Some(String::from_str("音频推流: 视频没有音轨，跳过")),
        Setup::MakeReader => Some(String::from_str("音频推流: AVAssetReader 创建失败")),
        Setup::StartReading => Some(String::from_str("音频推流: startReading 失败")),
        Setup::FindUnit => Some(String::from_str("音频推流: 找不到 HALOutput AudioUnit")),
        Setup::MakeUnit => Some(
            String::from_str("音频推流: AudioComponentInstanceNew 失败"),
        ),
        Setup::Initialize => Some(String::from_str("音频推流: AudioUnitInitialize 失败")),
        Setup::SetDevice => Some(String::from_str("音频推流: 设置 CurrentDevice 失败")),
        Setup::SetCallback => {
            let mut t: String = String::from_str("音频推流: SetRenderCallback 失败 rc=");
            text::push_signed(&mut t, rc as i64);
            Some(t)
        },
        _ => None,
    }
}

/// The error where the format cannot be set.
pub fn format_error(rc: i32) -> (s: String)
    ensures
        s@ == "AudioUnitSetProperty(StreamFormat) 失败 rc="@ + text::signed_decimal(rc as int),
{
    let mut s: String = String::from_str("AudioUnitSetProperty(StreamFormat) 失败 rc=");
    text::push_signed(&mut s, rc as i64);
    s
}

// ---- the callback ----

/// The playing: the queue, and what was counted.
pub struct AudioPush {
    pub ring: SpscRing,
    /// How often there were fewer samples than asked for.
    pub underruns: u64,
    /// What the first call of the callback had, for the report.
    pub first_buffers: u32,
    pub first_bytes: u32,
    pub first_frames: u32,
}

/// A number that keeps the first value that is not zero.
pub open spec fn first_nonzero(kept: u32, x: u32) -> u32 {
    if kept == 0 {
        x
    } else {
        kept
    }
}

/// How many samples the callback writes: those that are asked for, as far as its buffer goes.
pub open spec fn asked_samples(frames: u32, bytes: u32) -> int {
    spsc::least(frames * CHANNELS, bytes as int / 4)
}

/// How many samples the callback writes.
pub fn samples_to_write(frames: u32, bytes: u32) -> (n: usize)
    ensures
        n == asked_samples(frames, bytes),
{
    proof {
        assert(frames * CHANNELS <= 0x1_FFFF_FFFE) by (nonlinear_arith)
            requires
                CHANNELS == 2,
                frames <= u32::MAX,
        ;
    }
    let samples: u64 = frames as u64 * CHANNELS as u64;
    let room: u64 = bytes as u64 / 4;
    if samples < room {
        samples as usize
    } else {
        room as usize
    }
}

/// What the callback writes: what is in the queue, and silence for the rest.
pub open spec fn played(queue: Seq<u32>, n: int) -> Seq<u32> {
    Seq::new(
        n as nat,
        |i: int|
            if i < queue.len() {
                queue[i]
            } else {
                0
            },
    )
}

impl AudioPush {
    /// The queue is in order.
    pub open spec fn wf(self) -> bool {
        self.ring.wf()
    }

    /// Nothing was played yet.
    pub fn new() -> (p: AudioPush)
        ensures
            p.wf(),
            p.ring@ == Seq::<u32>::empty(),
            p.underruns == 0,
            p.first_buffers == 0,
            p.first_bytes == 0,
            p.first_frames == 0,
    {
        AudioPush {
            ring: SpscRing::new(),
            underruns: 0,
            first_buffers: 0,
            first_bytes: 0,
            first_frames: 0,
        }
    }

    /// The callback asks for `frames` frames and has `buffers` buffers, the first of `bytes`
    /// bytes; `has_data` is whether that one has memory. What it writes comes from the queue; what
    /// is missing is silence and counts once.
    pub fn render_cb(&mut self, frames: u32, buffers: u32, bytes: u32, has_data: bool) -> (r: Option<
        Vec<u32>,
    >)
        requires
            old(self).wf(),
            old(self).underruns < u64::MAX,
        ensures
            final(self).wf(),
            final(self).first_buffers == first_nonzero(old(self).first_buffers, buffers),
            final(self).first_bytes == if buffers > 0 {
                first_nonzero(old(self).first_bytes, bytes)
            } else {
                old(self).first_bytes
            },
            final(self).first_frames == first_nonzero(old(self).first_frames, frames),
            r is Some <==> buffers > 0 && has_data,
            r is None ==> final(self).ring@ == old(self).ring@ && final(self).underruns == old(
                self,
            ).underruns,
            r matches Some(out) ==> {
                let n = asked_samples(frames, bytes);
                let taken = spsc::least(n, old(self).ring@.len() as int);
                &&& out@ == played(old(self).ring@, n)
                &&& final(self).ring@ == old(self).ring@.skip(taken)
                &&& final(self).underruns == old(self).underruns + (if taken < n {
                    1int
                } else {
                    0int
                })
            },
    {
        if self.first_buffers == 0 {
            self.first_buffers = buffers;
        }
        if buffers > 0 && self.first_bytes == 0 {
            self.first_bytes = bytes;
        }
        if self.first_frames == 0 {
            self.first_frames = frames;
        }
        if buffers == 0 || !has_data {
            return None;
        }
        let n: usize = samples_to_write(frames, bytes);
        let ghost queue = self.ring@;
        let mut out: Vec<u32> = self.ring.ring_pop(n);
        let taken: usize = out.len();
        while out.len() < n
            invariant
                taken <= out@.len() <= n,
                taken == spsc::least(n as int, queue.len() as int),
                out@ == played(queue, out@.len() as int),
            decreases n - out@.len(),
        {
            out.push(0);
            assert(out@ =~= played(queue, out@.len() as int));
        }
        if taken < n {
            self.underruns = self.underruns + 1;
        }
        Some(out)
    }
}

/// The callback writes as many samples as two for each frame, or as many as its buffer holds of
/// four bytes each, whichever comes first, and never less than fits both.
pub proof fn law_callback_fills_its_buffer(frames: u32, bytes: u32)
    ensures
        ({
            let n = asked_samples(frames, bytes);
            &&& 0 <= n <= 2 * frames
            &&& 4 * n <= bytes
            &&& n == 2 * frames || 4 * (n + 1) > bytes
        }),
{
}

/// What two calls of the callback write, one after the other, is what one call for both would
/// write: the samples of the queue, each once and in order, and then silence.
pub proof fn law_callbacks_play_the_queue_in_order(queue: Seq<u32>, a: nat, b: nat)
    ensures
        played(queue, a as int).len() == a,
        forall|i: int|
            0 <= i < a ==> #[trigger] played(queue, a as int)[i] == if i < queue.len() {
                queue[i]
            } else {
                0u32
            },
        ({
            let taken = if a < queue.len() {
                a as int
            } else {
                queue.len() as int
            };
            played(queue, a as int) + played(queue.skip(taken), b as int) == played(
                queue,
                (a + b) as int,
            )
        }),
{
    let taken = if a < queue.len() {
        a as int
    } else {
        queue.len() as int
    };
    assert(played(queue, a as int) + played(queue.skip(taken), b as int) =~= played(
        queue,
        (a + b) as int,
    ));
}

// ---- the decoder ----

/// Whether the playing starts now: once, when enough is in the queue.
pub fn starts_now(started: bool, used: usize) -> (yes: bool)
    ensures
        yes == (!started && used >= PREFILL),
{
    !started && used >= PREFILL
}

/// What is to be done next.
#[derive(Clone, Copy, Debug, PartialEq, Eq, Structural)]
pub enum Play {
    /// A step of the setting up.
    Setting(Setup),
    /// See whether it was stopped, and fetch the next piece of sound.
    Fetch,
    /// See how much room the queue has for a piece of so many samples.
    Room(usize),
    /// Put the piece in the queue.
    Put(usize),
    /// See how much is in the queue.
    Look,
    /// Start the output unit.
    Start,
    /// Stop it.
    StopUnit,
    /// Take it down.
    Uninitialize,
    /// Give it back.
    Dispose,
    /// Nothing; whether the sound was played.
    Over(bool),
}

/// The outcome of what was done.
#[derive(Clone, Copy, Debug, PartialEq, Eq, Structural)]
pub enum PlayEvent {
    /// It succeeded or failed.
    Did(bool),
    /// It was stopped or not, and there was a piece of so many samples or none.
    Fetched(bool, Option<usize>),
    /// So many samples: of room, that were put, or that are in the queue.
    Count(usize),
}

/// The playing of one sound.
#[derive(Clone, Copy, Debug, PartialEq, Eq, Structural)]
pub struct Player {
    pub play: Play,
    /// The output unit was started.
    pub started: bool,
    /// How many samples were put in the queue.
    pub pushed: usize,
}

/// The start of the end: the unit is stopped first where it was started.
pub open spec fn closing(p: Player) -> Player {
    Player {
        play: if p.started {
            Play::StopUnit
        } else {
            Play::Uninitialize
        },
        ..p
    }
}

/// The playing after an outcome.
pub open spec fn play_next(p: Player, event: PlayEvent) -> Player {
    match (p.play, event) {
        (Play::Setting(s), PlayEvent::Did(ok)) => Player {
            play: match setup_next(s, ok) {
                Setup::Ready => Play::Fetch,
                Setup::Failed => Play::Over(false),
                next => Play::Setting(next),
            },
            ..p
        },
        (Play::Fetch, PlayEvent::Fetched(stopped, piece)) => if stopped {
            closing(p)
        } else {
            match piece {
                None => closing(p),
                Some(n) => Player {
                    play: if n == 0 {
                        Play::Look
                    } else {
                        Play::Room(n)
                    },
                    ..p
                },
            }
        },
        (Play::Room(n), PlayEvent::Count(free)) => Player {
            play: if free < n {
                Play::Room(n)
            } else {
                Play::Put(n)
            },
            ..p
        },
        (Play::Put(_), PlayEvent::Count(put)) => Player {
            play: Play::Look,
            pushed: (p.pushed + put) as usize,
            ..p
        },
        (Play::Look, PlayEvent::Count(used)) => Player {
            play: if !p.started && used >= PREFILL {
                Play::Start
            } else {
                Play::Fetch
            },
            ..p
        },
        (Play::Start, PlayEvent::Did(ok)) => if ok {
            Player { play: Play::Fetch, started: true, ..p }
        } else {
            closing(p)
        },
        (Play::StopUnit, PlayEvent::Did(_)) => Player { play: Play::Uninitialize, ..p },
        (Play::Uninitialize, PlayEvent::Did(_)) => Player { play: Play::Dispose, ..p },
        (Play::Dispose, PlayEvent::Did(_)) => Player { play: Play::Over(true), ..p },
        _ => p,
    }
}

impl Player {
    /// The playing of a sound begins with the setting up.
    pub fn begin() -> (p: Player)
        ensures
            p == (Player { play: Play::Setting(Setup::FindTrack), started: false, pushed: 0 }),
    {
        Player { play: Play::Setting(Setup::FindTrack), started: false, pushed: 0 }
    }

    /// The start of the end.
    fn close(&mut self)
        ensures
            *final(self) == closing(*old(self)),
    {
        if self.started {
            self.play = Play::StopUnit;
        } else {
            self.play = Play::Uninitialize;
        }
    }

    /// The playing after an outcome; gives the pause before the next step, in milliseconds.
    pub fn run_audio(&mut self, event: PlayEvent) -> (pause: u32)
        requires
            old(self).play is Put && event is Count ==> old(self).pushed + event->Count_0
                <= usize::MAX,
        ensures
            *final(self) == play_next(*old(self), event),
            pause == if old(self).play is Room && final(self).play is Room && event is Count {
                ROOM_PAUSE_MS
            } else {
                0
            },
    {
        match (self.play, event) {
            (Play::Setting(s), PlayEvent::Did(ok)) => {
                match setup_step(s, ok) {
                    Setup::Ready => {
                        self.play = Play::Fetch;
                    },
                    Setup::Failed => {
                        self.play = Play::Over(false);
                    },
                    next => {
                        self.play = Play::Setting(next);
                    },
                }
            },
            (Play::Fetch, PlayEvent::Fetched(stopped, piece)) => {
                if stopped {
                    self.close();
                } else {
                    match piece {
                        None => self.close(),
                        Some(n) => {
                            if n == 0 {
                                self.play = Play::Look;
                            } else {
                                self.play = Play::Room(n);
                            }
                        },
                    }
                }
            },
            (Play::Room(n), PlayEvent::Count(free)) => {
                if free < n {
                    return ROOM_PAUSE_MS;
                }
                self.play = Play::Put(n);
            },
            (Play::Put(_), PlayEvent::Count(put)) => {
                self.pushed = self.pushed + put;
                self.play = Play::Look;
            },
            (Play::Look, PlayEvent::Count(used)) => {
                if starts_now(self.started, used) {
                    self.play = Play::Start;
                } else {
                    self.play = Play::Fetch;
                }
            },
            (Play::Start, PlayEvent::Did(ok)) => {
                if ok {
                    self.started = true;
                    self.play = Play::Fetch;
                } else {
                    self.close();
                }
            },
            (Play::StopUnit, PlayEvent::Did(_)) => {
                self.play = Play::Uninitialize;
            },
            (Play::Uninitialize, PlayEvent::Did(_)) => {
                self.play = Play::Dispose;
            },
            (Play::Dispose, PlayEvent::Did(_)) => {
                self.play = Play::Over(true);
            },
            _ => {},
        }
        0
    }
}

/// A piece is put in the queue only when there is room for all of it, so no sample is lost.
pub proof fn law_no_sample_is_lost(p: Player, queue: Seq<u32>, piece: Seq<u32>)
    requires
        queue.len() < spsc::RING_LEN,
        piece.len() <= usize::MAX,
        p.play == Play::Room(piece.len() as usize),
        play_next(p, PlayEvent::Count((spsc::RING_LEN - 1 - queue.len()) as usize)).play is Put,
    ensures
        spsc::pushed(queue, piece) == queue + piece,
{
    spsc::law_samples_come_out_in_order(queue, piece);
}

/// The playing after a row of outcomes.
pub open spec fn play_after(p: Player, events: Seq<PlayEvent>) -> Player
    decreases events.len(),
{
    if events.len() == 0 {
        p
    } else {
        play_next(play_after(p, events.drop_last()), events.last())
    }
}

/// What holds of every state: the setting up and its failure come before the unit was started, and
/// it is stopped only where it was.
pub open spec fn consistent(p: Player) -> bool {
    &&& p.play is Setting ==> !p.started
    &&& p.play == Play::Over(false) ==> !p.started
    &&& p.play is Start ==> !p.started
    &&& p.play is StopUnit ==> p.started
}

/// Whatever happens, the unit is started at most once, and taking it down while it may still run
/// is impossible: from the moment it was started, the only way to take it down leads through
/// stopping it.
pub proof fn law_started_unit_is_stopped(events: Seq<PlayEvent>, event: PlayEvent)
    ensures
        ({
            let p = play_after(
                Player { play: Play::Setting(Setup::FindTrack), started: false, pushed: 0 },
                events,
            );
            let q = play_next(p, event);
            &&& consistent(p)
            &&& p.play != Play::Uninitialize && q.play == Play::Uninitialize && p.started
                ==> p.play == Play::StopUnit
            &&& q.play == Play::Start ==> !q.started
        }),
    decreases events.len(),
{
    if events.len() > 0 {
        law_started_unit_is_stopped(events.drop_last(), events.last());
    }
}

/// The setting up goes through its ten steps in this order, each once, and the first piece is
/// fetched after the last of them.
pub proof fn law_setup_goes_through_every_step(p: Player, k: nat)
    requires
        p.play == Play::Setting(Setup::FindTrack),
        k <= 10,
    ensures
        play_after(p, Seq::new(k, |i: int| PlayEvent::Did(true))) == (Player {
            play: if k == 10 {
                Play::Fetch
            } else {
                Play::Setting(
                    seq![
                        Setup::FindTrack,
                        Setup::MakeReader,
                        Setup::StartReading,
                        Setup::FindUnit,
                        Setup::MakeUnit,
                        Setup::EnableOutput,
                        Setup::Initialize,
                        Setup::SetDevice,
                        Setup::SetFormat,
                        Setup::SetCallback,
                    ][k as int],
                )
            },
            ..p
        }),
    decreases k,
{
    if k > 0 {
        let less = (k - 1) as nat;
        law_setup_goes_through_every_step(p, less);
        let events = Seq::new(k, |i: int| PlayEvent::Did(true));
        assert(events.drop_last() =~= Seq::new(less, |i: int| PlayEvent::Did(true)));
    }
}

/// A step of the setting up that fails ends the playing without sound, all but the switching of
/// the output, which goes on as if it had succeeded. Both ends of the setting up stay.
pub proof fn law_failed_setup_plays_nothing(p: Player, s: Setup)
    requires
        p.play == Play::Setting(s),
        s != Setup::Ready,
    ensures
        s != Setup::EnableOutput ==> play_next(p, PlayEvent::Did(false)).play == Play::Over(false),
        s == Setup::EnableOutput ==> play_next(p, PlayEvent::Did(false)) == play_next(
            p,
            PlayEvent::Did(true),
        ) && play_next(p, PlayEvent::Did(false)).play == Play::Setting(Setup::Initialize),
        forall|ok: bool| #[trigger] setup_next(Setup::Ready, ok) == Setup::Ready,
        forall|ok: bool| #[trigger] setup_next(Setup::Failed, ok) == Setup::Failed,
{
}

/// After a look at the queue the next step is to start the unit, if it is not started and 9600
/// samples are there, and else to fetch; the queue is looked at again only after another fetch.
/// What is fetched is put, all of it counting, unless it is empty, and then the queue is looked at.
pub proof fn law_look_is_followed_by_a_fetch(p: Player, used: usize, event: PlayEvent)
    ensures
        p.play == Play::Look ==> play_next(p, PlayEvent::Count(used)) == (Player {
            play: if !p.started && used >= 9600 {
                Play::Start
            } else {
                Play::Fetch
            },
            ..p
        }),
        p.play != Play::Look && play_next(p, event).play == Play::Look ==> p.play is Put || (p.play
            == Play::Fetch && event == PlayEvent::Fetched(false, Some(0))),
        !(p.play is Put) && play_next(p, event).play is Put ==> p.play is Room,
        !(p.play is Room) && play_next(p, event).play is Room ==> p.play == Play::Fetch,
        p.play != Play::Start && play_next(p, event).play == Play::Start ==> p.play == Play::Look,
        p.play == Play::Fetch ==> play_next(p, PlayEvent::Fetched(false, Some(used))) == (Player {
            play: if used == 0 {
                Play::Look
            } else {
                Play::Room(used)
            },
            ..p
        }),
        p.play is Put && p.pushed + used <= usize::MAX ==> play_next(p, PlayEvent::Count(used))
            == (Player { play: Play::Look, pushed: (p.pushed + used) as usize, ..p }),
        p.play == Play::Start ==> play_next(p, PlayEvent::Did(true)) == (Player {
            play: Play::Fetch,
            started: true,
            ..p
        }),
{
}

/// A piece waits, however often, until the queue has room for all of it, and is then put.
pub proof fn law_piece_waits_for_room(p: Player, n: usize, tight: Seq<usize>, free: usize)
    requires
        p.play == Play::Room(n),
        n <= free,
        forall|i: int| 0 <= i < tight.len() ==> #[trigger] tight[i] < n,
    ensures
        ({
            let waits = tight.map_values(|c: usize| PlayEvent::Count(c));
            &&& play_after(p, waits) == p
            &&& play_next(play_after(p, waits), PlayEvent::Count(free)) == (Player {
                play: Play::Put(n),
                ..p
            })
        }),
    decreases tight.len(),
{
    let waits = tight.map_values(|c: usize| PlayEvent::Count(c));
    if tight.len() > 0 {
        let less = tight.drop_last();
        law_piece_waits_for_room(p, n, less, free);
        assert(waits.drop_last() =~= less.map_values(|c: usize| PlayEvent::Count(c)));
        assert(waits.last() == PlayEvent::Count(tight.last()));
    }
}

/// How many samples the pieces have together.
pub open spec fn total(pieces: Seq<usize>) -> int
    decreases pieces.len(),
{
    if pieces.len() == 0 {
        0
    } else {
        total(pieces.drop_last()) + pieces.last()
    }
}

/// The playing after pieces came that the queue had room for, of which nothing was played while
/// the unit was not started, and after the unit was started where that was to be done.
pub open spec fn fed(p: Player, pieces: Seq<usize>, free: usize) -> Player
    decreases pieces.len(),
{
    if pieces.len() == 0 {
        p
    } else {
        let before = fed(p, pieces.drop_last(), free);
        let n = pieces.last();
        let looked = play_next(
            play_next(
                play_next(
                    play_next(before, PlayEvent::Fetched(false, Some(n))),
                    PlayEvent::Count(free),
                ),
                PlayEvent::Count(n),
            ),
            PlayEvent::Count(total(pieces) as usize),
        );
        if looked.play == Play::Start {
            play_next(looked, PlayEvent::Did(true))
        } else {
            looked
        }
    }
}

/// As long as pieces come and the queue has room for them, each is put and the next is fetched,
/// and the unit is started with the piece that brings the queue to 9600 samples: neither earlier
/// nor later.
pub proof fn law_fed_player_starts(p: Player, pieces: Seq<usize>, free: usize)
    requires
        p.play == Play::Fetch,
        !p.started,
        p.pushed + total(pieces) <= usize::MAX,
        forall|i: int| 0 <= i < pieces.len() ==> 0 < #[trigger] pieces[i] <= free,
    ensures
        0 <= total(pieces),
        fed(p, pieces, free) == (Player {
            play: Play::Fetch,
            started: total(pieces) >= 9600,
            pushed: (p.pushed + total(pieces)) as usize,
        }),
    decreases pieces.len(),
{
    if pieces.len() > 0 {
        let rest = pieces.drop_last();
        assert(0 < pieces[pieces.len() - 1] <= free);
        assert forall|i: int| 0 <= i < rest.len() implies 0 < #[trigger] rest[i] <= free by {
            assert(0 < pieces[i] <= free);
        }
        law_fed_player_starts(p, rest, free);
    }
}

/// When it is stopped, or no further piece comes, the playing ends: the unit is stopped if it was
/// started, and only then, it is taken down and given back, whatever these report, and the sound
/// counts as played. The same follows a unit that does not start.
pub proof fn law_end_gives_the_unit_back(
    p: Player,
    event: PlayEvent,
    stop: bool,
    down: bool,
    back: bool,
)
    requires
        (p.play == Play::Fetch && event is Fetched && (event->Fetched_0 || event->Fetched_1
            is None)) || (p.play == Play::Start && event == PlayEvent::Did(false)),
    ensures
        ({
            let ending = play_next(p, event);
            let stopped = if p.started {
                play_next(ending, PlayEvent::Did(stop))
            } else {
                ending
            };
            let taken_down = play_next(stopped, PlayEvent::Did(down));
            let given_back = play_next(taken_down, PlayEvent::Did(back));
            &&& p.started ==> ending.play == Play::StopUnit
            &&& stopped.play == Play::Uninitialize
            &&& taken_down.play == Play::Dispose
            &&& given_back == (Player { play: Play::Over(true), ..p })
            &&& play_next(given_back, event) == given_back
        }),
{
}

/// What is logged when the playing starts, or cannot.
pub fn start_line(ok: bool) -> (s: &'static str)
    ensures
        s@ == if ok {
            "音频推流: AudioUnit 已启动"@
        } else {
            "音频推流: AudioOutputUnitStart 失败"@
        },
{
    if ok {
        "音频推流: AudioUnit 已启动"
    } else {
        "音频推流: AudioOutputUnitStart 失败"
    }
}

/// What is logged at the end.
pub fn end_line(pushed: usize, p: &AudioPush) -> (s: String)
    requires
        p.first_frames * 8 <= u32::MAX,
    ensures
        s@ == "音频推流: 结束，共推 "@ + text::decimal(pushed as nat) + " samples，欠载 "@
            + text::decimal(p.underruns as nat) + "，回调 nbufs="@ + text::decimal(
            p.first_buffers as nat,
        ) + " dataSize="@ + text::decimal(p.first_bytes as nat) + " frames="@ + text::decimal(
            p.first_frames as nat,
        ) + "（期望 frames*8="@ + text::decimal((p.first_frames * 8) as nat) + "）"@,
{
    let mut s: String = String::from_str("音频推流: 结束，共推 ");
    text::push_decimal(&mut s, pushed as u64);
    s.append(" samples，欠载 ");
    text::push_decimal(&mut s, p.underruns);
    s.append("，回调 nbufs=");
    text::push_decimal(&mut s, p.first_buffers as u64);
    s.append(" dataSize=");
    text::push_decimal(&mut s, p.first_bytes as u64);
    s.append(" frames=");
    text::push_decimal(&mut s, p.first_frames as u64);
    s.append("（期望 frames*8=");
    text::push_decimal(&mut s, p.first_frames as u64 * 8);
    s.append("）");
    s
}

} // verus!
