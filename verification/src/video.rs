//! Pushing a video to the camera: where it is read from, the steps that set the reading up, when
//! each picture is due, and how a picture is brought to size.
use crate::screen;
use crate::text;
use vstd::prelude::*;
use vstd::string::*;

verus! {

/// A time as a fraction: `value` divided by `timescale`.
#[derive(Clone, Copy, Debug, PartialEq, Eq, Structural)]
pub struct CMTime {
    pub value: i64,
    pub timescale: i32,
    pub flags: u32,
    pub epoch: i64,
}

// ---- where it is read from ----

/// Where a video is read from.
#[derive(Clone, Copy, Debug, PartialEq, Eq, Structural)]
pub enum LocalPath {
    /// Where it is.
    AsIs,
    /// From the copy that there is.
    Cached,
    /// From a copy that is to be made first.
    CopyFirst,
}

/// A path on an external or network volume.
pub open spec fn is_external(path: Seq<char>) -> bool {
    text::stands_at(path, "/Volumes/"@, 0)
}

/// Whether a path is on an external or network volume.
pub fn on_external_volume(path: &str) -> (yes: bool)
    ensures
        yes == is_external(path@),
{
    text::starts_with(path, "/Volumes/")
}

/// Where a video is read from: one on an external volume from a copy, which is made once.
pub fn prepare_local_path(path: &str, copy_exists: bool) -> (r: LocalPath)
    ensures
        r == if !is_external(path@) {
            LocalPath::AsIs
        } else if copy_exists {
            LocalPath::Cached
        } else {
            LocalPath::CopyFirst
        },
{
    if !on_external_volume(path) {
        return LocalPath::AsIs;
    }
    if copy_exists {
        LocalPath::Cached
    } else {
        LocalPath::CopyFirst
    }
}

/// The name of a copy: a number made of the path, in sixteen digits, and the extension.
pub fn copy_name(hash: u64, extension: Option<&str>) -> (s: String)
    ensures
        s@ == text::padded_hex(hash as nat, 16) + "."@ + (match extension {
            Some(e) => e@,
            None => "mp4"@,
        }),
{
    let mut s: String = String::new();
    text::push_padded_hex(&mut s, hash, 16);
    assert(s@ =~= text::padded_hex(hash as nat, 16));
    s.append(".");
    match extension {
        Some(e) => {
            s.append(e);
        },
        None => {
            s.append("mp4");
        },
    }
    s
}

/// What is said before a copy is made.
pub fn copy_line(from: &str, to: &str) -> (s: String)
    ensures
        s@ == "视频推流: 复制 "@ + from@ + " -> "@ + to@,
{
    let mut s: String = String::from_str("视频推流: 复制 ");
    s.append(from);
    s.append(" -> ");
    s.append(to);
    s
}

// ---- when a picture is due ----

/// The clock of a video: when the pushing started, and the time of its first picture.
#[derive(Clone, Copy, Debug, PartialEq, Eq, Structural)]
pub struct VideoClock {
    pub start_ns: u64,
    pub base_ns: Option<i64>,
}

/// When a picture is due: as long after the start as it is after the first one, and at once where
/// it is before that.
pub open spec fn due(start_ns: u64, base_ns: i64, pts_ns: i64) -> u64 {
    let after = if pts_ns > base_ns {
        pts_ns - base_ns
    } else {
        0
    };
    if start_ns + after > u64::MAX {
        u64::MAX
    } else {
        (start_ns + after) as u64
    }
}

/// The time of the first picture, once there was one.
pub open spec fn base_of(c: VideoClock, pts_ns: i64) -> i64 {
    match c.base_ns {
        Some(b) => b,
        None => pts_ns,
    }
}

impl VideoClock {
    /// No picture yet.
    pub fn new(start_ns: u64) -> (c: VideoClock)
        ensures
            c == (VideoClock { start_ns, base_ns: None }),
    {
        VideoClock { start_ns, base_ns: None }
    }

    /// When the picture of that time is due; the first one sets the clock.
    pub fn target_ns(&mut self, pts_ns: i64) -> (t: u64)
        requires
            i64::MIN <= pts_ns - base_of(*old(self), pts_ns) <= i64::MAX,
        ensures
            t == due(old(self).start_ns, base_of(*old(self), pts_ns), pts_ns),
            *final(self) == (VideoClock {
                base_ns: Some(base_of(*old(self), pts_ns)),
                ..*old(self)
            }),
    {
        let base: i64 = match self.base_ns {
            Some(b) => b,
            None => pts_ns,
        };
        self.base_ns = Some(base);
        let after: u64 = if pts_ns > base {
            (pts_ns - base) as u64
        } else {
            0
        };
        if self.start_ns > u64::MAX - after {
            u64::MAX
        } else {
            self.start_ns + after
        }
    }
}

/// How long to wait for a picture that is due at `target`, if it is not late.
pub fn wait_ns(target: u64, now: u64) -> (r: Option<u64>)
    ensures
        r == if target > now {
            Some((target - now) as u64)
        } else {
            None
        },
{
    if target > now {
        Some(target - now)
    } else {
        None
    }
}

/// The first picture is due at once; pictures are due in the order of their times and as far apart
/// as these, whatever the rate of the video.
pub proof fn law_pictures_keep_their_pace(start_ns: u64, first: i64, a: i64, b: i64)
    requires
        first <= a <= b,
        start_ns + (b - first) <= u64::MAX,
    ensures
        due(start_ns, first, first) == start_ns,
        due(start_ns, first, b) - due(start_ns, first, a) == b - a,
{
}

/// The clock after pictures of these times.
pub open spec fn clock_after(c: VideoClock, times: Seq<i64>) -> VideoClock
    decreases times.len(),
{
    if times.len() == 0 {
        c
    } else {
        let before = clock_after(c, times.drop_last());
        VideoClock { base_ns: Some(base_of(before, times.last())), ..before }
    }
}

/// The first picture sets the clock, and no later one moves it: each is due as long after the
/// start as it comes after the first one, and at once where it comes before that.
pub proof fn law_first_picture_sets_the_clock(start_ns: u64, times: Seq<i64>, pts_ns: i64)
    requires
        times.len() > 0,
    ensures
        ({
            let c = clock_after(VideoClock { start_ns, base_ns: None }, times);
            &&& c.start_ns == start_ns
            &&& base_of(c, pts_ns) == times[0]
        }),
        start_ns + (pts_ns - times[0]) <= u64::MAX && pts_ns >= times[0] ==> due(
            start_ns,
            times[0],
            pts_ns,
        ) == start_ns + (pts_ns - times[0]),
        pts_ns < times[0] ==> due(start_ns, times[0], pts_ns) == start_ns,
        start_ns + (pts_ns - times[0]) > u64::MAX ==> due(start_ns, times[0], pts_ns) == u64::MAX,
    decreases times.len(),
{
    if times.len() > 1 {
        law_first_picture_sets_the_clock(start_ns, times.drop_last(), times.last());
    } else {
        assert(times.drop_last().len() == 0);
        assert(clock_after(VideoClock { start_ns, base_ns: None }, times.drop_last())
            == VideoClock { start_ns, base_ns: None });
    }
}

// ---- the reading ----

/// The steps that set the reading up, in order.
#[derive(Clone, Copy, Debug, PartialEq, Eq, Structural)]
pub enum VideoSetup {
    MakeReader,
    FindKind,
    FindTrack,
    MakeOutput,
    StartReading,
}

/// What is to be done next.
#[derive(Clone, Copy, Debug, PartialEq, Eq, Structural)]
pub enum VideoStep {
    /// A step of the setting up.
    Setting(VideoSetup),
    /// See whether it was stopped, and fetch the next picture.
    Fetch,
    /// Give back what has no picture in it, and fetch the next.
    Drop,
    /// Bring the picture to size, wait until it is due, send it and give it back.
    Show,
    /// Nothing: the video has ended or was stopped.
    Over,
    /// Nothing: a step of the setting up failed.
    Failed(VideoSetup),
}

/// The outcome of what was done.
#[derive(Clone, Copy, Debug, PartialEq, Eq, Structural)]
pub enum VideoEvent {
    /// It succeeded or failed.
    Did(bool),
    /// It was stopped or not, and there was a sample, with or without a picture, or none.
    Fetched(bool, Option<bool>),
}

/// What is to be done after an outcome.
pub open spec fn video_next(step: VideoStep, event: VideoEvent) -> VideoStep {
    match (step, event) {
        (VideoStep::Setting(s), VideoEvent::Did(ok)) => if !ok {
            VideoStep::Failed(s)
        } else {
            match s {
                VideoSetup::MakeReader => VideoStep::Setting(VideoSetup::FindKind),
                VideoSetup::FindKind => VideoStep::Setting(VideoSetup::FindTrack),
                VideoSetup::FindTrack => VideoStep::Setting(VideoSetup::MakeOutput),
                VideoSetup::MakeOutput => VideoStep::Setting(VideoSetup::StartReading),
                VideoSetup::StartReading => VideoStep::Fetch,
            }
        },
        (VideoStep::Fetch, VideoEvent::Fetched(stopped, sample)) => if stopped {
            VideoStep::Over
        } else {
            match sample {
                None => VideoStep::Over,
                Some(false) => VideoStep::Drop,
                Some(true) => VideoStep::Show,
            }
        },
        (VideoStep::Drop, VideoEvent::Did(_)) => VideoStep::Fetch,
        (VideoStep::Show, VideoEvent::Did(_)) => VideoStep::Fetch,
        _ => step,
    }
}

/// What is to be done after an outcome.
pub fn run(step: VideoStep, event: VideoEvent) -> (r: VideoStep)
    ensures
        r == video_next(step, event),
{
    match (step, event) {
        (VideoStep::Setting(s), VideoEvent::Did(ok)) => if !ok {
            VideoStep::Failed(s)
        } else {
            match s {
                VideoSetup::MakeReader => VideoStep::Setting(VideoSetup::FindKind),
                VideoSetup::FindKind => VideoStep::Setting(VideoSetup::FindTrack),
                VideoSetup::FindTrack => VideoStep::Setting(VideoSetup::MakeOutput),
                VideoSetup::MakeOutput => VideoStep::Setting(VideoSetup::StartReading),
                VideoSetup::StartReading => VideoStep::Fetch,
            }
        },
        (VideoStep::Fetch, VideoEvent::Fetched(stopped, sample)) => if stopped {
            VideoStep::Over
        } else {
            match sample {
                None => VideoStep::Over,
                Some(false) => VideoStep::Drop,
                Some(true) => VideoStep::Show,
            }
        },
        (VideoStep::Drop, VideoEvent::Did(_)) => VideoStep::Fetch,
        (VideoStep::Show, VideoEvent::Did(_)) => VideoStep::Fetch,
        _ => step,
    }
}

/// A video that was stopped shows no further picture: the next fetch ends it, whatever there was to
/// fetch.
pub proof fn law_stopped_video_ends(sample: Option<bool>, event: VideoEvent)
    ensures
        video_next(VideoStep::Fetch, VideoEvent::Fetched(true, sample)) == VideoStep::Over,
        video_next(VideoStep::Over, event) == VideoStep::Over,
{
}

/// What is to be done after a row of outcomes.
pub open spec fn step_after(step: VideoStep, events: Seq<VideoEvent>) -> VideoStep
    decreases events.len(),
{
    if events.len() == 0 {
        step
    } else {
        video_next(step_after(step, events.drop_last()), events.last())
    }
}

/// The setting up goes through its five steps in this order, each once, and the first picture is
/// fetched after the last of them. A step that fails ends it there, for good.
pub proof fn law_setup_goes_through_every_step(k: nat, event: VideoEvent)
    requires
        k <= 5,
    ensures
        ({
            let steps = seq![
                VideoSetup::MakeReader,
                VideoSetup::FindKind,
                VideoSetup::FindTrack,
                VideoSetup::MakeOutput,
                VideoSetup::StartReading,
            ];
            let at = step_after(
                VideoStep::Setting(VideoSetup::MakeReader),
                Seq::new(k, |i: int| VideoEvent::Did(true)),
            );
            let broken = video_next(at, VideoEvent::Did(false));
            &&& k == 5 ==> at == VideoStep::Fetch
            &&& k < 5 ==> at == VideoStep::Setting(steps[k as int]) && broken == VideoStep::Failed(
                steps[k as int],
            ) && video_next(broken, event) == broken
        }),
    decreases k,
{
    if k > 0 {
        let less = (k - 1) as nat;
        law_setup_goes_through_every_step(less, event);
        let events = Seq::new(k, |i: int| VideoEvent::Did(true));
        assert(events.drop_last() =~= Seq::new(less, |i: int| VideoEvent::Did(true)));
    }
}

/// What is to be done, and how many pictures were shown, after so many samples were fetched and
/// dealt with; each has a picture or none. `fared` is how the dealing ended.
pub open spec fn shown(samples: Seq<bool>, fared: bool) -> (VideoStep, int)
    decreases samples.len(),
{
    if samples.len() == 0 {
        (VideoStep::Fetch, 0)
    } else {
        let (step, n) = shown(samples.drop_last(), fared);
        let fetched = video_next(step, VideoEvent::Fetched(false, Some(samples.last())));
        (
            video_next(fetched, VideoEvent::Did(fared)),
            if fetched == VideoStep::Show {
                n + 1
            } else {
                n
            },
        )
    }
}

/// How many of the samples have a picture.
pub open spec fn pictures(samples: Seq<bool>) -> int
    decreases samples.len(),
{
    if samples.len() == 0 {
        0
    } else if samples.last() {
        pictures(samples.drop_last()) + 1
    } else {
        pictures(samples.drop_last())
    }
}

/// Every picture of a video is shown, once, and nothing else is; a sample without one is dropped
/// and does not end the video, nor does a picture that could not be sent. The video ends when no
/// sample is left.
pub proof fn law_every_picture_is_shown(samples: Seq<bool>, fared: bool)
    ensures
        shown(samples, fared) == (VideoStep::Fetch, pictures(samples)),
        video_next(shown(samples, fared).0, VideoEvent::Fetched(false, None)) == VideoStep::Over,
        video_next(VideoStep::Fetch, VideoEvent::Fetched(false, Some(false))) == VideoStep::Drop,
    decreases samples.len(),
{
    if samples.len() > 0 {
        law_every_picture_is_shown(samples.drop_last(), fared);
    }
}

/// The error of a step of the setting up; `detail` is what the making of the output said.
pub open spec fn setup_words(s: VideoSetup, detail: Seq<char>) -> Seq<char> {
    match s {
        VideoSetup::MakeReader => "AVAssetReader 创建失败"@,
        VideoSetup::FindKind => "AVMediaTypeVideo 不可用"@,
        VideoSetup::FindTrack => "没有视频轨"@,
        VideoSetup::MakeOutput => "assetReaderTrackOutput 抛异常: "@ + detail,
        VideoSetup::StartReading => "视频解码启动失败"@,
    }
}

/// The error of a step of the setting up.
pub fn setup_error(s: VideoSetup, detail: &str) -> (t: String)
    ensures
        t@ == setup_words(s, detail@),
{
    match s {
        VideoSetup::MakeReader => String::from_str("AVAssetReader 创建失败"),
        VideoSetup::FindKind => String::from_str("AVMediaTypeVideo 不可用"),
        VideoSetup::FindTrack => String::from_str("没有视频轨"),
        VideoSetup::MakeOutput => {
            let mut t: String = String::from_str("assetReaderTrackOutput 抛异常: ");
            t.append(detail);
            t
        },
        VideoSetup::StartReading => String::from_str("视频解码启动失败"),
    }
}

/// What the thread does that keeps the picture alive while the decoding is slow: it ends with the
/// video.
pub fn keep_alive(done: bool, age_ms: u64, has_frame: bool) -> (k: screen::KeepAlive)
    ensures
        k == if done {
            screen::KeepAlive::Exit
        } else if age_ms >= screen::STALE_MS && has_frame {
            screen::KeepAlive::Resend
        } else {
            screen::KeepAlive::Pause
        },
        !done ==> k == screen::keep_alive_next(0, 0, age_ms, has_frame),
{
    if done {
        return screen::KeepAlive::Exit;
    }
    if age_ms >= screen::STALE_MS && has_frame {
        return screen::KeepAlive::Resend;
    }
    screen::KeepAlive::Pause
}

/// What is said of something that went wrong beyond what was foreseen.
pub fn panic_detail(detail: Option<String>) -> (s: String)
    ensures
        s@ == match detail {
            Some(d) => d@,
            None => "未知异常"@,
        },
{
    match detail {
        Some(d) => d,
        None => String::from_str("未知异常"),
    }
}

/// The error where the system's file chooser went wrong.
pub fn chooser_error(detail: &str) -> (s: String)
    ensures
        s@ == "系统文件选择器异常: "@ + detail@,
{
    let mut s: String = String::from_str("系统文件选择器异常: ");
    s.append(detail);
    s
}

// ---- bringing a picture to size ----

/// How a picture is brought to size.
#[derive(Clone, Copy, Debug, PartialEq, Eq, Structural)]
pub enum ScalePlan {
    /// It has its size: take it as it is, with its own row length.
    Keep(usize),
    /// Scale it into a buffer of so many bytes, with rows of that length.
    Scale { stride: usize, bytes: usize },
}

/// How a picture is brought to size.
pub fn scale_bgra(
    src_w: usize,
    src_h: usize,
    src_stride: usize,
    dst_w: usize,
    dst_h: usize,
) -> (plan: ScalePlan)
    requires
        (src_w != dst_w || src_h != dst_h) ==> dst_w * 4 * dst_h <= usize::MAX && dst_w * 4
            <= usize::MAX,
    ensures
        plan == if src_w == dst_w && src_h == dst_h {
            ScalePlan::Keep(src_stride)
        } else {
            ScalePlan::Scale { stride: (dst_w * 4) as usize, bytes: (dst_w * 4 * dst_h) as usize }
        },
{
    if src_w == dst_w && src_h == dst_h {
        return ScalePlan::Keep(src_stride);
    }
    let stride: usize = dst_w * 4;
    ScalePlan::Scale { stride, bytes: stride * dst_h }
}

/// The picture that is sent: the scaled one, or the one that there was where scaling failed.
pub fn scaled_or_raw(
    scaled: Option<(Vec<u8>, usize)>,
    raw: Vec<u8>,
    src_stride: usize,
) -> (r: (Vec<u8>, usize))
    ensures
        match scaled {
            Some(s) => r == s,
            None => r == (raw, src_stride),
        },
{
    match scaled {
        Some(s) => s,
        None => (raw, src_stride),
    }
}

} // verus!
