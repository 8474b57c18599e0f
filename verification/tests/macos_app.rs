use std::cell::RefCell;
use std::sync::atomic::{AtomicUsize, Ordering};
use std::sync::Arc;

use vdev::audio::{
    choose_device, device_line, end_line, find_device_id, format_error, samples_to_write,
    setup_line, setup_step, start_audio_push, start_line, starts_now, AudioLog, AudioPush, Device, LogTo, Play, PlayEvent, Player, Setup,
};
use vdev::camera::find_vdev;
use vdev::frame::{
    after_send, connect_error, connect_step, encode_frame, must_connect, send_or_reconnect,
    ConnectStep, FrameSender, SendError, Sent,
};
use vdev::host::{
    confirm_step, event_text, file_url, install_confirmed, install_event, not_picked, on_install,
    on_recover, on_uninstall, on_vd_create, open_quicktime, opens_settings, recover_confirmed,
    recover_disabled, recover_enable, recover_enabled, recover_extension, refresh_status,
    set_btn_texts, submit, submit_failed, uninstall_event, vd_button, vd_created, ConfirmStep,
    Host, HostButtons, HostStep, PushMode, SubmitError, SysextEvent,
};
use vdev::screen::{
    spawn_keep_alive, stop_step, takes_frame, KeepAlive, Screen, ScreenError, StartEvent,
    StartPhase, StopStep,
};
use vdev::spsc::{SpscRing, RING_LEN};
use vdev::video::{
    chooser_error, copy_line, copy_name, keep_alive, panic_detail, prepare_local_path, run,
    scale_bgra, scaled_or_raw, setup_error, wait_ns, LocalPath, ScalePlan, VideoClock,
    VideoEvent, VideoSetup, VideoStep,
};
use vdev::vscreen::ScreenSlot;

fn strings(parts: &[&str]) -> Vec<String> {
    parts.iter().map(|s| s.to_string()).collect()
}

// ---- sending pictures ----

/// A client whose first `fail_left` sends fail.
struct FakeClient {
    fail_left: AtomicUsize,
    sends: AtomicUsize,
}

impl FakeClient {
    fn new(fail_left: usize) -> Self {
        Self {
            fail_left: AtomicUsize::new(fail_left),
            sends: AtomicUsize::new(0),
        }
    }
}

impl FrameSender for FakeClient {
    fn send_frame(
        &mut self,
        _data: &[u8],
        _w: u32,
        _h: u32,
        _stride: u32,
        _pts_ns: u64,
    ) -> Result<(), SendError> {
        self.sends.fetch_add(1, Ordering::Relaxed);
        let f = self.fail_left.load(Ordering::Relaxed);
        if f > 0 {
            self.fail_left.store(f - 1, Ordering::Relaxed);
            return Err(SendError {});
        }
        Ok(())
    }
}

#[test]
fn send_failure_resets_client_and_next_frame_reconnects() {
    let connects = Arc::new(AtomicUsize::new(0));
    let mk_connect = |c: Arc<AtomicUsize>| {
        move || {
            c.fetch_add(1, Ordering::Relaxed);
            Some(FakeClient::new(0))
        }
    };
    let mut client: Option<FakeClient> = Some(FakeClient::new(1));

    assert!(!send_or_reconnect(
        &mut client,
        mk_connect(connects.clone()),
        &[0u8; 16],
        4,
        4,
        16,
        0
    ));
    assert!(client.is_none(), "发送失败后客户端应被重置为 None");
    assert_eq!(
        connects.load(Ordering::Relaxed),
        0,
        "已有客户端时本帧不应触发重连"
    );

    assert!(send_or_reconnect(
        &mut client,
        mk_connect(connects.clone()),
        &[0u8; 16],
        4,
        4,
        16,
        0
    ));
    assert_eq!(
        connects.load(Ordering::Relaxed),
        1,
        "失败后下一帧应恰好重连一次"
    );

    assert!(send_or_reconnect(
        &mut client,
        mk_connect(connects.clone()),
        &[0u8; 16],
        4,
        4,
        16,
        0
    ));
    assert_eq!(
        connects.load(Ordering::Relaxed),
        1,
        "连接健康时不应重复重连"
    );
}

#[test]
fn connect_failure_keeps_client_none_and_retries_each_frame() {
    let connects = Arc::new(AtomicUsize::new(0));
    let mut client: Option<FakeClient> = None;
    for i in 0..3 {
        let c2 = connects.clone();
        let ok = send_or_reconnect(
            &mut client,
            move || {
                c2.fetch_add(1, Ordering::Relaxed);
                None
            },
            &[0u8; 16],
            4,
            4,
            16,
            0,
        );
        assert!(!ok, "第 {i} 帧在连接失败时应返回 false");
        assert!(client.is_none(), "连接失败后客户端应保持 None");
    }
    assert_eq!(connects.load(Ordering::Relaxed), 3, "每帧都应重试连接");
}

#[test]
fn the_picture_is_handed_over_once() {
    let mut client = None;
    assert!(send_or_reconnect(&mut client, || Some(FakeClient::new(0)), &[1, 2], 1, 2, 3, 4));
    assert_eq!(client.map(|c| c.sends.load(Ordering::Relaxed)), Some(1));
}

#[test]
fn connections_are_kept_only_while_they_work() {
    assert_eq!(after_send(Some(Ok(()))), Sent { ok: true, keep: true });
    assert_eq!(after_send(Some(Err(SendError {}))), Sent { ok: false, keep: false });
    assert_eq!(after_send(None), Sent { ok: false, keep: false });
    assert!(must_connect(false) && !must_connect(true));
}

#[test]
fn packets_begin_with_the_header() {
    let p = encode_frame(&[9, 8], 0x0102, 3, 4, 0x0506_0708_090A_0B0C);
    let mut expected = Vec::new();
    expected.extend_from_slice(b"RFDV");
    expected.extend_from_slice(&1u32.to_le_bytes());
    expected.extend_from_slice(&0x0102u32.to_le_bytes());
    expected.extend_from_slice(&3u32.to_le_bytes());
    expected.extend_from_slice(&4u32.to_le_bytes());
    expected.extend_from_slice(&0x0506_0708_090A_0B0Cu64.to_le_bytes());
    expected.extend_from_slice(&2u64.to_le_bytes());
    expected.extend_from_slice(&[9, 8]);
    assert_eq!(p, expected);
}

#[test]
fn connecting_is_tried_thirty_times() {
    assert_eq!(connect_step(1, true), ConnectStep::Connected);
    assert_eq!(connect_step(29, false), ConnectStep::Again(1000));
    assert_eq!(connect_step(30, false), ConnectStep::GiveUp(1000));
    assert_eq!(connect_error(), "连接扩展 FrameChannel 失败（扩展未运行？）");
}

// ---- the queue of samples ----

#[test]
fn samples_come_out_in_order() {
    let mut r = SpscRing::new();
    assert_eq!((r.ring_used(), r.ring_free()), (0, RING_LEN - 1));
    assert_eq!(r.ring_push(&[1, 2, 3]), 3);
    assert_eq!(r.ring_pop(2), vec![1, 2]);
    assert_eq!(r.ring_push(&[4]), 1);
    assert_eq!(r.ring_pop(9), vec![3, 4]);
    assert_eq!(r.ring_pop(1), vec![]);
}

#[test]
fn full_queue_takes_only_what_fits() {
    let mut r = SpscRing::new();
    let big: Vec<u32> = (0..RING_LEN as u32 + 5).collect();
    assert_eq!(r.ring_push(&big), RING_LEN - 1);
    assert_eq!(r.ring_free(), 0);
    assert_eq!(r.ring_push(&[7]), 0);
    assert_eq!(r.ring_pop(RING_LEN), big[..RING_LEN - 1].to_vec());
    assert_eq!(r.ring_push(&[1, 2, 3]), 3);
    assert_eq!(r.ring_pop(3), vec![1, 2, 3]);
}

#[test]
fn missing_samples_are_silence() {
    let mut p = AudioPush::new();
    assert_eq!(p.render_cb(2, 0, 64, true), None);
    p.ring.ring_push(&[5, 6, 7]);
    assert_eq!(p.render_cb(1, 1, 64, true), Some(vec![5, 6]));
    assert_eq!(p.underruns, 0);
    assert_eq!(p.render_cb(2, 1, 64, true), Some(vec![7, 0, 0, 0]));
    assert_eq!(p.underruns, 1);
    assert_eq!(p.render_cb(4, 1, 9, true), Some(vec![0, 0]));
    assert_eq!(p.render_cb(4, 1, 9, false), None);
    assert_eq!((p.first_frames, p.first_buffers, p.first_bytes), (2, 1, 64));
    assert_eq!(
        end_line(10, &p),
        "音频推流: 结束，共推 10 samples，欠载 2，回调 nbufs=1 dataSize=64 frames=2（期望 frames*8=16）"
    );
}

// ---- the sound of a video ----

fn devices() -> Vec<Device> {
    ["Built-in", "BlackHole 2ch", "VDEV-Audio"]
        .iter()
        .enumerate()
        .map(|(i, n)| Device { id: 10 + i as u32, name: n.to_string() })
        .collect()
}

#[test]
fn own_card_comes_first() {
    assert_eq!(find_device_id(&devices(), "blackhole"), Some(11));
    assert_eq!(choose_device(&devices()), Some(12));
    assert_eq!(choose_device(&devices()[..2].iter().map(|d| Device { id: d.id, name: d.name.clone() }).collect()), Some(11));
    assert_eq!(choose_device(&vec![]), None);
    assert_eq!(start_audio_push(&devices(), true), Some(12));
    assert_eq!(start_audio_push(&devices(), false), None);
    assert_eq!(start_audio_push(&vec![], true), None);
    assert_eq!((samples_to_write(4, 100), samples_to_write(100, 35)), (8, 8));
    assert_eq!(device_line(Some(12)), "音频推流: 使用设备 12 播放视频音轨");
    assert_eq!(
        device_line(None),
        "音频推流: 未找到虚拟声卡（vdev-audio/BlackHole），跳过——请先安装 vdev-audio 驱动"
    );
}

#[test]
fn log_goes_where_it_was_told() {
    let first = RefCell::new(Vec::new());
    let second = RefCell::new(Vec::new());
    let to_first: Box<dyn Fn(String)> = Box::new(|s| first.borrow_mut().push(s));
    let to_second: Box<dyn Fn(String)> = Box::new(|s| second.borrow_mut().push(s));
    let mut log = AudioLog { callback: None };
    assert_eq!(log.alog("a"), LogTo::Stderr);
    log.set_log_cb(Some(to_first));
    assert_eq!(log.alog("b"), LogTo::Callback);
    log.set_log_cb(Some(to_second));
    assert_eq!(log.alog("c"), LogTo::Callback);
    log.set_log_cb(None);
    assert_eq!(log.alog("d"), LogTo::Stderr);
    drop(log);
    assert_eq!(first.into_inner(), strings(&["b"]));
    assert_eq!(second.into_inner(), strings(&["c"]));
}

#[test]
fn unit_is_set_up_step_by_step() {
    let mut s = Setup::FindTrack;
    let mut n = 0;
    while s != Setup::Ready {
        s = setup_step(s, true);
        n += 1;
    }
    assert_eq!(n, 10);
    assert_eq!(setup_step(Setup::EnableOutput, false), Setup::Initialize);
    assert_eq!(setup_step(Setup::SetFormat, false), Setup::Failed);
    assert_eq!(
        setup_line(Setup::SetCallback, -50).as_deref(),
        Some("音频推流: SetRenderCallback 失败 rc=-50")
    );
    assert_eq!(setup_line(Setup::FindTrack, 0).as_deref(), Some("音频推流: 视频没有音轨，跳过"));
    assert_eq!(setup_line(Setup::SetFormat, 1), None);
    assert_eq!(format_error(-1), "AudioUnitSetProperty(StreamFormat) 失败 rc=-1");
}

#[test]
fn started_unit_is_stopped() {
    let mut p = Player::begin();
    while matches!(p.play, Play::Setting(_)) {
        p.run_audio(PlayEvent::Did(true));
    }
    assert_eq!(p.play, Play::Fetch);
    p.run_audio(PlayEvent::Fetched(false, Some(9600)));
    assert_eq!(p.run_audio(PlayEvent::Count(100)), 2);
    assert_eq!(p.play, Play::Room(9600));
    assert_eq!(p.run_audio(PlayEvent::Count(65535)), 0);
    p.run_audio(PlayEvent::Count(9600));
    assert_eq!((p.play, p.pushed), (Play::Look, 9600));
    p.run_audio(PlayEvent::Count(9600));
    assert_eq!(p.play, Play::Start);
    p.run_audio(PlayEvent::Did(true));
    p.run_audio(PlayEvent::Fetched(false, Some(0)));
    p.run_audio(PlayEvent::Count(9600));
    assert_eq!(p.play, Play::Fetch);
    p.run_audio(PlayEvent::Fetched(true, Some(4)));
    assert_eq!(p.play, Play::StopUnit);
    p.run_audio(PlayEvent::Did(true));
    p.run_audio(PlayEvent::Did(true));
    p.run_audio(PlayEvent::Did(true));
    assert_eq!(p.play, Play::Over(true));
    assert!(starts_now(false, 9600) && !starts_now(false, 9599) && !starts_now(true, 9600));
    assert_eq!(start_line(true), "音频推流: AudioUnit 已启动");
    assert_eq!(start_line(false), "音频推流: AudioOutputUnitStart 失败");
}

#[test]
fn unit_that_was_not_started_is_not_stopped() {
    let mut p = Player::begin();
    while matches!(p.play, Play::Setting(_)) {
        p.run_audio(PlayEvent::Did(true));
    }
    p.run_audio(PlayEvent::Fetched(false, None));
    assert_eq!(p.play, Play::Uninitialize);
    let mut p = Player::begin();
    p.run_audio(PlayEvent::Did(false));
    assert_eq!(p.play, Play::Over(false));
}

#[test]
fn camera_is_found_whatever_the_case() {
    assert!(find_vdev(&strings(&["FaceTime", "My VDEV-Camera"])));
    assert!(!find_vdev(&strings(&["FaceTime", "vdev"])));
}

// ---- pushing a screen ----

#[test]
fn failed_starts_can_be_repeated() {
    let mut s = Screen::new();
    assert_eq!(s.start(), Ok(1));
    assert_eq!(s.start(), Err(ScreenError::AlreadyRunning));
    let p = s.start_step(StartPhase::CheckAccess, StartEvent::Allowed(false));
    assert_eq!(
        p,
        StartPhase::Failed { error: ScreenError::NoAccess, ask: true, release: false }
    );
    assert!(!s.is_running());
    assert_eq!(s.start(), Ok(2));
    let p = s.start_step(StartPhase::CheckAccess, StartEvent::Allowed(true));
    let p = s.start_step(p, StartEvent::Created(false, 0x2A));
    assert_eq!(
        p,
        StartPhase::Failed { error: ScreenError::Create(0x2A), ask: false, release: false }
    );
    assert_eq!(s.start(), Ok(3));
    let p = s.start_step(StartPhase::Create, StartEvent::Created(true, 1));
    let p = s.start_step(p, StartEvent::Code(-4));
    assert_eq!(
        p,
        StartPhase::Failed { error: ScreenError::Start(-4), ask: false, release: true }
    );
    assert!(!s.is_running());
}

#[test]
fn stopping_ends_the_session() {
    let mut s = Screen::new();
    let mine = s.start().expect("start");
    let p = s.start_step(StartPhase::Start, StartEvent::Code(0));
    assert_eq!(p, StartPhase::Spawn);
    assert_eq!(s.start_step(p, StartEvent::Spawned), StartPhase::Started);
    assert_eq!(spawn_keep_alive(mine, s.session, 500, true), KeepAlive::Resend);
    assert_eq!(spawn_keep_alive(mine, s.session, 499, true), KeepAlive::Pause);
    assert_eq!(spawn_keep_alive(mine, s.session, 500, false), KeepAlive::Pause);
    assert!(s.stop());
    assert_eq!(spawn_keep_alive(mine, s.session, 500, true), KeepAlive::Exit);
    s.thread_ended();
    assert!(!s.is_running());
    assert!(!s.stop());
    assert!(s.start().is_ok());
    assert_eq!(spawn_keep_alive(mine, s.session, 500, true), KeepAlive::Exit);
}

#[test]
fn stop_waits_for_the_loop() {
    assert_eq!(stop_step(false, false), StopStep::Wait(5));
    assert_eq!(stop_step(false, true), StopStep::StopLoop);
    assert_eq!(stop_step(true, true), StopStep::Join);
    assert_eq!(stop_step(true, false), StopStep::Join);
    assert!(takes_frame(0, true) && !takes_frame(1, true) && !takes_frame(0, false));
}

#[test]
fn screen_errors_in_words() {
    assert_eq!(ScreenError::AlreadyRunning.message(), "屏幕推流已在运行");
    assert_eq!(
        ScreenError::NoAccess.message(),
        "需要屏幕录制权限：系统设置 → 隐私与安全性 → 屏幕录制"
    );
    assert_eq!(
        ScreenError::Create(0x2A).message(),
        "CGDisplayStreamCreate 失败（显示器 0x2a）"
    );
    assert_eq!(ScreenError::Start(-4).message(), "CGDisplayStreamStart 失败 rc=-4");
}

#[test]
fn one_virtual_screen_at_most() {
    let mut slot = ScreenSlot::slot();
    assert_eq!(slot.display_id(), None);
    assert_eq!(slot.create_display(Some(7)), (None, Some(7)));
    assert_eq!(slot.display_id(), Some(7));
    assert_eq!(slot.destroy(), Some(7));
    assert_eq!(slot.destroy(), None);
    assert_eq!(slot.create_display(Some(8)), (None, Some(8)));
    assert_eq!(slot.create_display(Some(9)), (Some(8), Some(9)));
    assert_eq!(slot.create_display(None), (Some(9), None));
    assert_eq!(slot.display_id(), None);
}

// ---- pushing a video ----

#[test]
fn videos_on_other_volumes_are_copied_once() {
    assert_eq!(prepare_local_path("/Users/a.mp4", false), LocalPath::AsIs);
    assert_eq!(prepare_local_path("/Volumes", true), LocalPath::AsIs);
    assert_eq!(prepare_local_path("/Volumes/d/a.mp4", true), LocalPath::Cached);
    assert_eq!(prepare_local_path("/Volumes/d/a.mp4", false), LocalPath::CopyFirst);
    assert_eq!(copy_name(0xAB, Some("mov")), "00000000000000ab.mov");
    assert_eq!(copy_name(u64::MAX, None), "ffffffffffffffff.mp4");
    assert_eq!(copy_line("a", "b"), "视频推流: 复制 a -> b");
}

#[test]
fn pictures_keep_their_pace() {
    let mut c = VideoClock::new(1_000);
    assert_eq!(c.target_ns(500), 1_000);
    assert_eq!(c.target_ns(700), 1_200);
    assert_eq!(c.target_ns(100), 1_000);
    let mut late = VideoClock::new(u64::MAX - 1);
    late.target_ns(0);
    assert_eq!(late.target_ns(9), u64::MAX);
    assert_eq!(wait_ns(1_200, 1_000), Some(200));
    assert_eq!(wait_ns(1_000, 1_000), None);
}

#[test]
fn video_runs_until_it_ends_or_is_stopped() {
    let mut s = VideoStep::Setting(VideoSetup::MakeReader);
    for _ in 0..5 {
        s = run(s, VideoEvent::Did(true));
    }
    assert_eq!(s, VideoStep::Fetch);
    assert_eq!(run(s, VideoEvent::Fetched(false, Some(false))), VideoStep::Drop);
    assert_eq!(run(s, VideoEvent::Fetched(false, Some(true))), VideoStep::Show);
    assert_eq!(run(s, VideoEvent::Fetched(false, None)), VideoStep::Over);
    assert_eq!(run(s, VideoEvent::Fetched(true, Some(true))), VideoStep::Over);
    assert_eq!(run(VideoStep::Show, VideoEvent::Did(true)), VideoStep::Fetch);
    assert_eq!(
        run(VideoStep::Setting(VideoSetup::FindTrack), VideoEvent::Did(false)),
        VideoStep::Failed(VideoSetup::FindTrack)
    );
}

#[test]
fn video_errors_in_words() {
    assert_eq!(setup_error(VideoSetup::MakeReader, ""), "AVAssetReader 创建失败");
    assert_eq!(setup_error(VideoSetup::FindKind, ""), "AVMediaTypeVideo 不可用");
    assert_eq!(setup_error(VideoSetup::FindTrack, ""), "没有视频轨");
    assert_eq!(setup_error(VideoSetup::MakeOutput, "x"), "assetReaderTrackOutput 抛异常: x");
    assert_eq!(setup_error(VideoSetup::StartReading, ""), "视频解码启动失败");
    assert_eq!(panic_detail(None), "未知异常");
    assert_eq!(panic_detail(Some("p".to_string())), "p");
    assert_eq!(chooser_error("p"), "系统文件选择器异常: p");
}

#[test]
fn old_pictures_are_sent_again_only_while_the_video_runs() {
    assert_eq!(keep_alive(true, 900, true), KeepAlive::Exit);
    assert_eq!(keep_alive(false, 900, true), KeepAlive::Resend);
    assert_eq!(keep_alive(false, 100, true), KeepAlive::Pause);
}

#[test]
fn pictures_are_brought_to_size() {
    assert_eq!(scale_bgra(4, 2, 20, 4, 2), ScalePlan::Keep(20));
    assert_eq!(scale_bgra(4, 2, 20, 8, 4), ScalePlan::Scale { stride: 32, bytes: 128 });
    assert_eq!(scaled_or_raw(Some((vec![1], 4)), vec![2], 8), (vec![1], 4));
    assert_eq!(scaled_or_raw(None, vec![2], 8), (vec![2], 8));
}

// ---- the window ----

fn buttons(b: HostButtons) -> String {
    format!("{}{}{}{}", b.install as u8, b.uninstall as u8, b.push as u8, b.vd_push as u8)
}

fn words(steps: Vec<HostStep>) -> Vec<String> {
    steps
        .into_iter()
        .map(|s| match s {
            HostStep::Log(l) => format!("log {l}"),
            HostStep::Status(g, t, d) => format!("status {g}|{t}|{d}"),
            HostStep::AudioStatus(g, t, d) => format!("audio {g}|{t}|{d}"),
            HostStep::Enabled(b) => format!("enabled {}", buttons(b)),
            HostStep::Buttons(m) => format!("buttons {m:?}"),
            HostStep::ScreenButton(b) => format!("screen button {b}"),
            HostStep::OpenSettings => "settings".to_string(),
            HostStep::OpenUrl(u) => format!("open {u}"),
            HostStep::Submit(b) => format!("submit {b}"),
            HostStep::Confirm => "confirm".to_string(),
            HostStep::Recover => "recover".to_string(),
            HostStep::EnableLater(ms) => format!("later {ms}"),
            HostStep::StartScreen(d) => format!("start {d}"),
            HostStep::StopScreen => "stop".to_string(),
            HostStep::CreateScreen => "create".to_string(),
            HostStep::DestroyScreen => "destroy".to_string(),
            HostStep::PickVideo => "pick".to_string(),
            HostStep::StartVideo(p) => format!("video {p}"),
        })
        .collect()
}

#[test]
fn second_click_stops_the_screen() {
    let mut h = Host::new();
    assert_eq!(
        words(h.on_screen_push(0x1A)),
        strings(&[
            "buttons None",
            "log 屏幕推流开始（显示器 0x1a）",
            "buttons Some(ScreenMain)",
            "start 26"
        ])
    );
    assert_eq!(h.mode, Some(PushMode::ScreenMain));
    assert_eq!(
        words(h.on_screen_push(0x1A)),
        strings(&["stop", "log 屏幕推流已停止", "buttons None"])
    );
    assert_eq!(h.mode, None);
}

#[test]
fn the_old_push_is_stopped_before_the_new_one() {
    let mut h = Host::new();
    assert_eq!(words(h.on_video_push()), strings(&["log 正在打开文件选择器…", "pick"]));
    assert_eq!(
        words(h.video_picked("/Volumes/a.mp4")),
        strings(&[
            "log 已选择: /Volumes/a.mp4",
            "log 正在准备视频（外置/网络卷，首次会复制到本地缓存，请稍候）…",
            "buttons None",
            "buttons Some(Video)",
            "log 视频推流开始: /Volumes/a.mp4",
            "video /Volumes/a.mp4"
        ])
    );
    assert!(!h.video_stop);
    assert_eq!(words(h.on_vd_push(None)), strings(&["log 请先创建虚拟屏幕"]));
    assert_eq!(
        words(h.on_vd_push(Some(3)))[..2],
        strings(&["log 视频推流已停止", "buttons None"])
    );
    assert!(h.video_stop);
    assert_eq!(h.mode, Some(PushMode::ScreenVd));
    assert!(words(h.video_done()).is_empty());
    assert_eq!(h.mode, Some(PushMode::ScreenVd));
}

#[test]
fn failed_pushes_are_forgotten() {
    let mut h = Host::new();
    h.on_screen_push(1);
    assert_eq!(words(h.screen_failed("e")), strings(&["log 屏幕推流失败: e", "buttons None"]));
    assert_eq!(h.mode, None);
    h.video_picked("a");
    assert_eq!(words(h.video_failed("e")), strings(&["log 视频推流启动失败: e", "buttons None"]));
    h.video_picked("a");
    assert_eq!(words(h.video_done()), strings(&["buttons None"]));
    assert_eq!(words(not_picked(None)), strings(&["log 未选择视频（已取消）"]));
    assert_eq!(words(not_picked(Some("e"))), strings(&["log 打开文件选择器失败: e"]));
}

#[test]
fn buttons_say_what_a_click_does() {
    let t = set_btn_texts(Some(PushMode::Video));
    assert_eq!((t.screen, t.video, t.vd), ("屏幕推流", "停止视频推流", "推虚拟屏幕"));
    let t = set_btn_texts(Some(PushMode::ScreenMain));
    assert_eq!(t.screen, "停止屏幕推流");
    let t = set_btn_texts(Some(PushMode::ScreenVd));
    assert_eq!(t.vd, "停止推虚拟屏");
    assert_eq!(vd_button(true), "销毁虚拟屏幕");
    assert_eq!(vd_button(false), "创建虚拟屏幕");
}

#[test]
fn virtual_screen_is_made_and_destroyed() {
    assert_eq!(words(on_vd_create(None)), strings(&["create"]));
    assert_eq!(
        words(on_vd_create(Some(1))),
        strings(&["destroy", "log 虚拟屏幕已销毁", "screen button false", "enabled 0110"])
    );
    assert_eq!(
        words(vd_created(Ok(0xFF))),
        strings(&["log 虚拟屏幕已创建 0xff", "screen button true", "enabled 0111"])
    );
    assert_eq!(
        words(vd_created(Err("e".to_string()))),
        strings(&["log 创建虚拟屏幕失败: e", "status ✕|操作失败|e"])
    );
}

#[test]
fn installing_follows_the_answers() {
    assert_eq!(
        words(on_install()),
        strings(&[
            "log 激活扩展: com.vdev.camera.host.extension",
            "status ⏳|正在安装…|正在请求系统激活摄像头扩展。",
            "enabled 0000",
            "submit true"
        ])
    );
    assert_eq!(words(install_event(&SysextEvent::NeedsApproval))[2], "settings");
    assert_eq!(words(install_event(&SysextEvent::Finished(0)))[2], "confirm");
    assert_eq!(
        words(install_event(&SysextEvent::Finished(4))),
        strings(&["status ✕|操作失败|系统返回未预期结果 4"])
    );
    assert_eq!(
        words(install_event(&SysextEvent::Failed("e".to_string()))),
        strings(&["status ✕|操作失败|e", "enabled 1000"])
    );
    assert_eq!(words(install_confirmed(true, true))[2], "enabled 0111");
    assert_eq!(words(install_confirmed(false, true))[2], "recover");
    assert_eq!(words(on_uninstall())[3], "submit false");
    assert_eq!(
        words(uninstall_event(&SysextEvent::Finished(9))),
        strings(&["log 卸载完成", "status ○|已卸载|vdev-camera 已从系统移除。", "enabled 1000"])
    );
    assert_eq!(
        words(uninstall_event(&SysextEvent::NeedsApproval)),
        strings(&["log 卸载需要系统确认"])
    );
    assert_eq!(words(submit_failed("e")), strings(&["log 提交失败: e"]));
}

#[test]
fn requests_need_the_whole_system() {
    assert_eq!(submit(true, true, true, true), Ok(()));
    let all = [
        (submit(false, true, true, true), "ObjC class not found: OSSystemExtensionManager"),
        (submit(true, false, true, true), "OSSystemExtensionManager 不可用"),
        (submit(true, true, false, true), "ObjC class not found: OSSystemExtensionRequest"),
        (submit(true, true, true, false), "创建 OSSystemExtensionRequest 失败"),
    ];
    for (r, text) in all {
        assert_eq!(r.map_err(SubmitError::message), Err(text));
    }
}

#[test]
fn repairing_disables_and_enables() {
    assert_eq!(words(on_recover())[2], "recover");
    assert_eq!(
        words(recover_extension()),
        strings(&["log 自动修复：先停用再重新启用扩展…", "submit false"])
    );
    assert_eq!(
        words(recover_disabled(&SysextEvent::Finished(0))),
        strings(&["log 已停用，等待 6s 后重新启用…", "later 6000"])
    );
    assert_eq!(
        words(recover_disabled(&SysextEvent::Finished(2))),
        strings(&["log 停用返回非零结果 2，仍尝试重新启用…", "later 6000"])
    );
    assert_eq!(
        words(recover_disabled(&SysextEvent::Failed("e".to_string()))),
        strings(&["log 停用失败: e"])
    );
    assert_eq!(words(recover_enable()), strings(&["log 重新启用…", "submit true"]));
    assert_eq!(
        words(recover_enabled(&SysextEvent::Finished(0))),
        strings(&["log 启用完成，确认摄像头…", "confirm"])
    );
    assert_eq!(
        words(recover_enabled(&SysextEvent::Finished(7))),
        strings(&["log 重新启用返回非零结果 7，请到 系统设置 → … → 相机扩展 手动检查"])
    );
    assert_eq!(words(recover_confirmed(true)), strings(&["log ✅ 摄像头已恢复"]));
    assert!(opens_settings("重新启用需要批准：系统设置"));
    assert!(!opens_settings("停用需要系统确认"));
}

#[test]
fn camera_is_looked_for_thirty_times() {
    assert_eq!(confirm_step(1, true), ConfirmStep::Found);
    assert_eq!(confirm_step(29, false), ConfirmStep::Again(500));
    assert_eq!(confirm_step(30, false), ConfirmStep::NotFound(500));
}

#[test]
fn state_is_shown() {
    let w = words(refresh_status(true, false, false));
    assert_eq!(w[0], "log 刷新状态…");
    assert_eq!(w[2], "enabled 0110");
    assert_eq!(
        w[4],
        "log 未检测到虚拟声卡：vdev-audio（cd crates/vdev-audio && make install）"
    );
    let w = words(refresh_status(false, true, true));
    assert_eq!(w[2], "enabled 1000");
    assert_eq!(w[4], "log 检测到虚拟声卡：vdev-audio");
}

#[test]
fn player_is_opened_by_its_address() {
    assert_eq!(file_url("/a b  c"), "file:///a%20b%20%20c");
    assert_eq!(
        words(open_quicktime()),
        strings(&["open file:///System/Applications/QuickTime%20Player.app"])
    );
    assert_eq!(event_text(&SysextEvent::Finished(3)), "Finished(3)");
    assert_eq!(event_text(&SysextEvent::Failed("e".to_string())), "Failed(e)");
    assert_eq!(event_text(&SysextEvent::NeedsApproval), "NeedsApproval");
}
