use vdev::audio_test::{
    begin_line, busy_text, capture_args, failed_texts, failure_text, heard_texts, inject_args,
    no_thread_texts, played_texts, spawn_audio_test, test_begin, Level, TestEnd, TestEvent,
    TestFailure, TestPhase,
};
use vdev::camera::camera_visible;
use vdev::desk::{wire_ui, Step, UiEvent};
use vdev::dsp_ui::{
    block_frames, cut_into_blocks, decode_samples, parse_wav, wav_write_f32, xorshift, DspError,
    WavData,
};
use vdev::journal::Log;
use vdev::panel::{
    display_inf_dir, monitors_text, num_or, outcome_line, refresh_audio_status,
    refresh_display_status, refresh_hid_status, refresh_line, refresh_status, tool_file,
    tool_layout, tool_name, tool_place, tool_variable, Buttons, CliOutcome, DisplayMode,
    DisplayMonitor, InfDir, Panel, Reply, Tool, ToolPlace,
};
use vdev::push::{
    frame_pause, next_push_action, push_button, push_failed_log, push_log, toggle_push, Push,
    PushAction, PushDo, PushEvent,
};
use vdev::riff::Sample;
use vdev::studio::{
    curve_note, default_output_name, demo_begin_line, demo_line, demo_text, no_input_texts,
    output_beside_input, output_field, picked_line, render_begin_texts, render_failed_texts,
    render_no_thread_texts, rendered_line, spawn_dsp_render, RenderReport,
};

fn strings(parts: &[&str]) -> Vec<String> {
    parts.iter().map(|s| s.to_string()).collect()
}

// ---- pushing ----

#[test]
fn idle_click_yields_start() {
    assert_eq!(next_push_action(false), PushAction::Start);
}

#[test]
fn running_click_yields_stop() {
    assert_eq!(next_push_action(true), PushAction::Stop);
}

fn idle() -> Push {
    Push { running: false, offers_stop: false, has_thread: false }
}

#[test]
fn two_clicks_start_and_stop() {
    let (p, d) = toggle_push(idle(), PushEvent::Click);
    assert_eq!(d, PushDo::OpenChannel);
    assert_eq!(push_button(p), "开始推流");
    let (p, d) = toggle_push(p, PushEvent::Opened(true));
    assert_eq!(d, PushDo::StartThread);
    assert_eq!(push_button(p), "停止推流");
    let (p, _) = toggle_push(p, PushEvent::Spawned(true));
    let (p, d) = toggle_push(p, PushEvent::Click);
    assert_eq!(d, PushDo::JoinThread);
    assert_eq!(p, idle());
}

#[test]
fn failed_starts_leave_no_trace() {
    let (p, _) = toggle_push(idle(), PushEvent::Click);
    assert_eq!(toggle_push(p, PushEvent::Opened(false)).0, idle());
    let (p, _) = toggle_push(p, PushEvent::Opened(true));
    assert_eq!(toggle_push(p, PushEvent::Spawned(false)).0, idle());
    let (p, _) = toggle_push(p, PushEvent::Spawned(true));
    let (p, _) = toggle_push(p, PushEvent::Ended);
    assert_eq!(toggle_push(p, PushEvent::Click).1, PushDo::OpenChannel);
}

#[test]
fn push_is_logged() {
    let running = Push { running: true, ..idle() };
    assert_eq!(push_log(running, PushEvent::Click, "", 0).as_deref(), Some("推流已停止"));
    assert_eq!(push_log(idle(), PushEvent::Click, "", 0), None);
    assert_eq!(
        push_log(running, PushEvent::Opened(true), "", 0).as_deref(),
        Some("推流开始（棋盘格 640x360@30fps）…")
    );
    assert_eq!(
        push_log(running, PushEvent::Opened(false), "e", 0).as_deref(),
        Some("打开推流通道失败: e")
    );
    assert_eq!(push_log(running, PushEvent::Spawned(true), "", 0), None);
    assert_eq!(
        push_log(running, PushEvent::Spawned(false), "e", 0).as_deref(),
        Some("创建推流线程失败: e")
    );
    assert_eq!(
        push_log(running, PushEvent::Ended, "", 42).as_deref(),
        Some("推流线程结束，共 42 帧")
    );
    assert_eq!(push_failed_log("e"), "推流失败: e");
}

#[test]
fn frames_are_paced() {
    assert_eq!(frame_pause(3, 90_000_000), Some(9_999_999));
    assert_eq!(frame_pause(3, 99_999_999), Some(0));
    assert_eq!(frame_pause(3, 100_000_000), None);
}

// ---- the log ----

#[test]
fn log_keeps_the_newest_three_hundred() {
    let mut log = Log::new();
    assert_eq!(log.shown(), "");
    for i in 0..305 {
        log.append_log(&format!("line {i}"));
    }
    assert_eq!(log.lines.len(), 300);
    assert_eq!(log.lines[0], "line 5");
    assert_eq!(log.lines[299], "line 304");
    assert!(log.shown().starts_with("line 5\nline 6\n"));
}

// ---- the panels ----

#[test]
fn tools_are_looked_for_by_name() {
    assert_eq!(tool_name(Tool::Audio), "vdev-audio-win");
    assert_eq!(tool_variable(Tool::Hid), "VDEV_HID_WIN_EXE");
    assert_eq!(tool_file(Tool::Display), "vdev-display-win.exe");
    assert_eq!(
        tool_layout(Tool::Camera),
        strings(&["..", "..", "..", "vdev-camera-win", "target", "release", "vdev-camera-win.exe"])
    );
    assert_eq!(
        tool_layout(Tool::Audio),
        strings(&[
            "..",
            "..",
            "..",
            "vdev-audio-win",
            "target",
            "x86_64-pc-windows-msvc",
            "release",
            "vdev-audio-win.exe"
        ])
    );
    assert_eq!(tool_place(true, true, true), Some(ToolPlace::Variable));
    assert_eq!(tool_place(false, true, true), Some(ToolPlace::Beside));
    assert_eq!(tool_place(false, false, true), Some(ToolPlace::Built));
    assert_eq!(tool_place(false, false, false), None);
    assert_eq!(display_inf_dir(false, true), InfDir::Here);
    assert_eq!(display_inf_dir(true, true), InfDir::Dist);
    assert_eq!(display_inf_dir(true, false), InfDir::Beside);
    assert_eq!(num_or(Some(2.5f64), 1.0), 2.5);
    assert_eq!(num_or(None, 1.0f64), 1.0);
}

#[test]
fn tool_outcomes_are_logged_without_blanks() {
    let ran = |ok: bool| CliOutcome::Ran {
        ok,
        out: " done\r\n".to_string(),
        err: "\u{3000}bad\t".to_string(),
    };
    assert_eq!(outcome_line(Tool::Audio, &ran(true)), "✅ done");
    assert_eq!(outcome_line(Tool::Audio, &ran(false)), "❌ CLI 失败: bad");
    assert_eq!(
        outcome_line(Tool::Audio, &CliOutcome::NotRun("e".to_string())),
        "❌ 调用 CLI 失败: e"
    );
    assert_eq!(
        outcome_line(Tool::Hid, &CliOutcome::Missing),
        "❌ 未找到 vdev-hid-win.exe（设置 VDEV_HID_WIN_EXE 或放到 GUI 同目录）"
    );
}

#[test]
fn panels_show_what_the_tools_answer() {
    let r = refresh_audio_status(Reply::Present(true));
    assert_eq!((r.glyph, r.title.as_str()), ("✓", "已安装，虚拟声卡可用"));
    assert_eq!(r.buttons, Some(Buttons { install: false, uninstall: true, extra: true }));
    assert_eq!(r.log, Some("✅ 检测到 vdev 虚拟声卡设备"));
    let r = refresh_hid_status(Reply::Present(false));
    assert_eq!((r.glyph, r.title.as_str()), ("○", "虚拟键盘未安装"));
    assert_eq!(r.buttons, Some(Buttons { install: true, uninstall: false, extra: false }));
    let r = refresh_hid_status(Reply::NotRun);
    assert_eq!(r.title, "状态查询失败");
    assert_eq!(r.detail, "无法运行 vdev-hid-win --json kernel status。");
    assert!(r.buttons.is_none() && r.log.is_none());
    let r = refresh_display_status(Reply::NoTool);
    assert_eq!(r.title, "未找到 vdev-display-win");
    assert_eq!(
        r.detail,
        "请把 vdev-display-win.exe 放到 GUI 同目录，或设置 VDEV_DISPLAY_WIN_EXE。"
    );
    let r = refresh_audio_status(Reply::NotText);
    assert_eq!((r.title.as_str(), r.detail.as_str()), ("状态解析失败", "CLI 输出非 UTF-8。"));
    let r = refresh_display_status(Reply::NotParsed);
    assert_eq!(r.detail, "无法解析 vdev-display-win 输出。");
    let r = refresh_status(false);
    assert_eq!(r.log, Some("未检测到 vdev-camera（先安装）"));
    assert_eq!(refresh_line(Tool::Camera), "刷新状态…");
}

#[test]
fn failed_questions_leave_the_buttons() {
    let mut p = Panel {
        glyph: "✓",
        title: "t".to_string(),
        detail: "d".to_string(),
        buttons: Buttons { install: false, uninstall: true, extra: true },
    };
    p.apply(refresh_audio_status(Reply::NotRun));
    assert_eq!(p.glyph, "!");
    assert_eq!(p.buttons, Buttons { install: false, uninstall: true, extra: true });
    p.apply(refresh_audio_status(Reply::Present(false)));
    assert_eq!(p.buttons, Buttons { install: true, uninstall: false, extra: false });
}

#[test]
fn screens_are_listed() {
    assert_eq!(monitors_text(&vec![]), "暂无虚拟显示器");
    let ms = vec![
        DisplayMonitor {
            id: 1,
            name: Some("main".to_string()),
            enabled: true,
            modes: vec![
                DisplayMode { width: 1920, height: 1080, refresh_rates: vec![60, 120] },
                DisplayMode { width: 800, height: 600, refresh_rates: vec![] },
            ],
        },
        DisplayMonitor { id: 20, name: None, enabled: false, modes: vec![] },
    ];
    assert_eq!(
        monitors_text(&ms),
        "显示器 1 main [启用]\n  1920x1080@60/120\n  800x600@\n显示器 20  [禁用]"
    );
}

#[test]
fn camera_is_visible_under_its_exact_name() {
    assert!(camera_visible(&strings(&["x", "vdev-camera"])));
    assert!(!camera_visible(&strings(&["VDEV-CAMERA", "vdev-camera 2"])));
}

// ---- the controls ----

fn words(steps: Vec<Step>) -> Vec<String> {
    steps
        .into_iter()
        .map(|s| match s {
            Step::Log(l) => format!("log {l}"),
            Step::Run(t, args) => format!("run {} {}", tool_name(t), args.join("|")),
            Step::Refresh(t) => format!("refresh {}", tool_name(t)),
            Step::TogglePush => "push".to_string(),
            Step::AudioTest(b) => format!("test {b}"),
            Step::SetGain(i) => format!("gain {i}"),
            Step::ZeroGains => "zero".to_string(),
            Step::SetBypass(b) => format!("bypass {b}"),
            Step::RefreshCurve => "curve".to_string(),
            Step::PickWav => "pick".to_string(),
            Step::MakeDemo => "demo".to_string(),
            Step::Render => "render".to_string(),
        })
        .collect()
}

#[test]
fn controls_delegate_and_refresh() {
    assert_eq!(
        words(wire_ui(&UiEvent::Install)),
        strings(&[
            "log 安装虚拟摄像头…（委托 vdev-camera-win CLI）",
            "run vdev-camera-win install",
            "refresh vdev-camera-win"
        ])
    );
    assert_eq!(
        words(wire_ui(&UiEvent::DisplayAdd)),
        strings(&[
            "log 添加 1920x1080 虚拟屏…",
            "run vdev-display-win add|1920x1080",
            "refresh vdev-display-win"
        ])
    );
    assert_eq!(
        words(wire_ui(&UiEvent::DisplayInstall(Some("C:\\d".to_string()))))[1],
        "run vdev-display-win install|--inf-dir|C:\\d"
    );
    assert_eq!(
        words(wire_ui(&UiEvent::DisplayInstall(None)))[1..],
        strings(&["log ❌ 未找到 vdev-display-win.exe", "refresh vdev-display-win"])
    );
    assert_eq!(
        words(wire_ui(&UiEvent::HidUninstall)),
        strings(&[
            "log 卸载虚拟键盘…（将请求管理员权限）",
            "run vdev-hid-win kernel|uninstall",
            "refresh vdev-hid-win"
        ])
    );
    assert_eq!(words(wire_ui(&UiEvent::HidRefresh)), strings(&["refresh vdev-hid-win"]));
    assert_eq!(words(wire_ui(&UiEvent::AudioLoopback)), strings(&["test true"]));
    assert_eq!(words(wire_ui(&UiEvent::Push)), strings(&["push"]));
}

#[test]
fn keys_and_mouse_are_passed_on() {
    assert_eq!(
        words(wire_ui(&UiEvent::HidKey(" a ".to_string()))),
        strings(&["log 注入按键：a", "run vdev-hid-win kernel|key|a"])
    );
    assert_eq!(
        words(wire_ui(&UiEvent::HidKey(" \t".to_string()))),
        strings(&["log ⚠️ 键名为空"])
    );
    assert_eq!(
        words(wire_ui(&UiEvent::HidMouseClick("left ".to_string()))),
        strings(&["log 注入鼠标点击：left", "run vdev-hid-win kernel|mouse|click|left"])
    );
    assert_eq!(
        words(wire_ui(&UiEvent::HidMouseMove(-20, 5))),
        strings(&["log 注入鼠标相对移动（-20,5）", "run vdev-hid-win kernel|mouse|move|-20|5"])
    );
}

#[test]
fn sound_controls_redraw_the_curve() {
    assert_eq!(words(wire_ui(&UiEvent::EqChanged(-3))), strings(&["gain 0", "curve"]));
    assert_eq!(words(wire_ui(&UiEvent::EqChanged(7))), strings(&["gain 7", "curve"]));
    assert_eq!(
        words(wire_ui(&UiEvent::BypassToggled(false))),
        strings(&["bypass true", "curve", "log EQ 旁路：开（整链恒等）"])
    );
    assert_eq!(
        words(wire_ui(&UiEvent::BypassToggled(true))),
        strings(&["bypass false", "curve", "log EQ 旁路：关"])
    );
    assert_eq!(
        words(wire_ui(&UiEvent::ZeroAll)),
        strings(&["zero", "curve", "log EQ 全部归零"])
    );
    assert_eq!(
        words(wire_ui(&UiEvent::LevelingToggled(true, "-14".to_string()))),
        strings(&["log 响度归一化：开 · 目标 -14 LUFS"])
    );
    assert_eq!(
        words(wire_ui(&UiEvent::LimiterToggled(false, "-1".to_string()))),
        strings(&["log 真峰值限幅：关 · ceiling -1 dBFS"])
    );
}

// ---- testing the sound card ----

#[test]
fn loopback_listens_before_it_plays() {
    let mut p = test_begin(true);
    assert_eq!(p, TestPhase::StartCapture);
    p = spawn_audio_test(true, p, TestEvent::Started(true));
    assert_eq!(p, TestPhase::Inject);
    p = spawn_audio_test(true, p, TestEvent::Injected(Some(true)));
    p = spawn_audio_test(true, p, TestEvent::Waited(true));
    p = spawn_audio_test(true, p, TestEvent::Parsed(true));
    assert_eq!(p, TestPhase::Done(TestEnd::Heard));
}

#[test]
fn every_failing_step_ends_the_test() {
    let cases = [
        (TestPhase::StartCapture, TestEvent::Started(false), TestFailure::StartCapture),
        (TestPhase::Inject, TestEvent::Injected(None), TestFailure::RunInject),
        (TestPhase::Inject, TestEvent::Injected(Some(false)), TestFailure::Inject),
        (TestPhase::WaitCapture, TestEvent::Waited(false), TestFailure::WaitCapture),
        (TestPhase::Parse, TestEvent::Parsed(false), TestFailure::Parse),
    ];
    for (phase, event, failure) in cases {
        assert_eq!(
            spawn_audio_test(true, phase, event),
            TestPhase::Done(TestEnd::Failed(failure))
        );
    }
    assert_eq!(
        spawn_audio_test(false, test_begin(false), TestEvent::Injected(Some(false))),
        TestPhase::Done(TestEnd::Played)
    );
}

#[test]
fn test_texts() {
    assert_eq!(
        inject_args("1000", "0.5", "3"),
        strings(&["inject", "--tone", "1000", "--amplitude", "0.5", "--duration", "3"])
    );
    assert_eq!(
        capture_args("5"),
        strings(&["capture", "--duration", "5", "--skip", "1", "--json"])
    );
    assert_eq!(busy_text(false), "注入中…");
    assert_eq!(
        begin_line(true, "1000", "0.50", "3.0"),
        "环回自测：1000 Hz / 幅度 0.50 / 3.0s（capture ‖ inject）"
    );
    assert_eq!(begin_line(false, "1000", "0.50", "3.0"), "注入音频：1000 Hz / 幅度 0.50 / 3.0s");
    assert_eq!(failure_text(TestFailure::Inject, " e\n", ""), "inject 失败：e");
    assert_eq!(
        failure_text(TestFailure::Parse, "e", " {} "),
        "解析 capture 输出失败：e（原始：{}）"
    );
    assert_eq!(failure_text(TestFailure::StartCapture, "e", ""), "启动 capture 失败：e");
    assert_eq!(failure_text(TestFailure::RunInject, "e", ""), "运行 inject 失败：e");
    assert_eq!(failure_text(TestFailure::WaitCapture, "e", ""), "等待 capture 失败：e");
    let l = Level {
        loud: true,
        rms: "-9.1".to_string(),
        peak: "-6.0".to_string(),
        frames: 48_000,
        seconds: "1.00".to_string(),
    };
    let (shown, logged) = heard_texts(&l);
    assert_eq!(
        shown,
        "环回自测 通过（采到有效音频）：RMS -9.1 dBFS / 峰值 -6.0 dBFS（48000 帧 ≈ 1.00s）"
    );
    assert_eq!(logged, "环回自测：RMS -9.1 dBFS / 峰值 -6.0 dBFS → 通过（采到有效音频）");
    assert_eq!(played_texts().1, "注入完成");
    assert_eq!(failed_texts("e"), ("测试失败：e".to_string(), "❌ e".to_string()));
    assert_eq!(no_thread_texts("e").1, "创建测试线程失败: e");
}

// ---- processing files ----

#[test]
fn outputs_are_named_after_inputs() {
    assert_eq!(default_output_name(Some("song")), "song_dsp.wav");
    assert_eq!(default_output_name(None), "out_dsp.wav");
    assert!(output_beside_input(Some("C:\\music")));
    assert!(output_beside_input(Some("")));
    assert!(!output_beside_input(None));
    assert_eq!(spawn_dsp_render("  ", "x", "d"), None);
    assert_eq!(
        spawn_dsp_render(" in.wav ", " ", "d"),
        Some(("in.wav".to_string(), "d".to_string()))
    );
    assert_eq!(
        spawn_dsp_render("in.wav", " o ", "d"),
        Some(("in.wav".to_string(), "o".to_string()))
    );
    assert_eq!(output_field(" ", "d"), "d");
    assert_eq!(output_field(" o", "d"), " o");
}

#[test]
fn processing_texts() {
    assert_eq!(no_input_texts().1, "⚠️ 未指定输入 wav");
    assert_eq!(
        render_begin_texts("i", "o"),
        ("渲染中…\n输入 i\n输出 o".to_string(), "DSP 离线渲染：i → o".to_string())
    );
    assert_eq!(render_failed_texts("e").0, "渲染失败：e");
    assert_eq!(render_no_thread_texts("e").0, "创建渲染线程失败：e");
    assert_eq!(
        rendered_line("-9.00", "-1.00", "+0.00"),
        "✅ 渲染完成：输出 RMS -9.00 dBFS / 真峰值 -1.00 dBTP / 伺服 +0.00 dB"
    );
    assert_eq!(demo_begin_line("p"), "生成示例 wav：p（48 kHz / 立体声 / 6 s）");
    assert_eq!(
        demo_text(48_000, 2, 288_000, "6.00"),
        "示例素材已生成：48000 Hz / 2 声道 / 288000 帧（6.00 s）。点「渲染并测量」跑整链。"
    );
    assert_eq!(demo_line(None), "✅ 示例 wav 已生成");
    assert_eq!(demo_line(Some("e")), "❌ 生成示例 wav 失败：e");
    assert_eq!(picked_line(Some("p")), "已选择 wav：p");
    assert!(picked_line(None).starts_with("⚠️ 未选择文件"));
    assert_eq!(curve_note(true, true, "", "", ""), "EQ 旁路：整链恒等，频响平直于 0 dB");
    assert_eq!(curve_note(false, true, "", "", ""), "全 0 增益：频响平直于 0 dB");
    assert_eq!(
        curve_note(false, false, "-6.0", "+6.0", "48000"),
        "增益 -6.0 .. +6.0 dB · 128 点 · 48000 Hz（vdev-dsp GraphicEq 系数）"
    );
    let r = RenderReport {
        output_path: "o.wav".to_string(),
        sample_rate: 48_000,
        channels: 2,
        frames: 10,
        seconds: "0.00".to_string(),
        out_rms: "-1.000".to_string(),
        in_rms: "-2.000".to_string(),
        true_peak: "-3.000".to_string(),
        ceiling: "-1.00".to_string(),
        over_ceiling: "-2.000".to_string(),
        servo: "+0.00".to_string(),
        elapsed: "0.001".to_string(),
        speed: "9.0".to_string(),
    };
    assert_eq!(
        r.summary(),
        "输出 o.wav | 48000 Hz / 2ch / 10 帧（0.00 s）\n输出 RMS -1.000 dBFS（输入 -2.000）\n真峰值 -3.000 dBTP vs ceiling -1.00 dBFS（余量 -2.000 dB）\n伺服增益 +0.00 dB\n耗时 0.001 s = 9.0x realtime"
    );
}

fn f32_file(channels: u16, samples: &[f32]) -> Vec<u8> {
    let bits: Vec<u32> = samples.iter().map(|s| s.to_bits()).collect();
    wav_write_f32(48_000, channels, &bits).expect("write")
}

#[test]
fn written_float_file_is_read_back() {
    let bytes = f32_file(2, &[0.5, -0.25, 1.0, 0.0]);
    let w = parse_wav(&bytes).ok().expect("parse");
    assert_eq!((w.sample_rate, w.channels, w.frames()), (48_000, 2, 2));
    let back: Vec<u32> = w
        .samples
        .iter()
        .map(|s| match s {
            Sample::Float32(b) => *b,
            _ => panic!("kind"),
        })
        .collect();
    assert_eq!(back, vec![0.5f32.to_bits(), (-0.25f32).to_bits(), 1.0f32.to_bits(), 0]);
    assert_eq!(w.renderable(), Ok(2));
}

fn dsp_error(b: &[u8]) -> DspError {
    match parse_wav(b) {
        Err(e) => e,
        Ok(_) => panic!("accepted"),
    }
}

#[test]
fn unreadable_files_are_refused_with_a_reason() {
    assert_eq!(dsp_error(b"RIFF").message(), "文件太短，不是 RIFF/WAVE");
    assert_eq!(dsp_error(b"RIFX\0\0\0\0WAVE").message(), "不是 RIFF/WAVE 文件");
    assert_eq!(dsp_error(b"RIFF\0\0\0\0WAVE").message(), "缺少 fmt chunk");
    assert_eq!(
        dsp_error(b"RIFF\0\0\0\0WAVEfmt \x02\0\0\0\x01\0").message(),
        "fmt chunk 太短"
    );
    let good = f32_file(1, &[0.5]);
    assert_eq!(dsp_error(&good[..40]).message(), "缺少 data chunk");
    let mut b = good.clone();
    b[22] = 3;
    assert_eq!(dsp_error(&b).message(), "不支持 3 声道（只支持 1/2）");
    let mut b = good.clone();
    b[24..28].copy_from_slice(&[0; 4]);
    assert_eq!(dsp_error(&b).message(), "采样率为 0");
    let mut b = good.clone();
    b[34] = 12;
    assert_eq!(dsp_error(&b).message(), "不支持的采样格式：format tag=3, 12 bit");
    assert_eq!(
        wav_write_f32(48_000, 3, &[]).expect_err("channels").message(),
        "只支持 1/2 声道，收到 3"
    );
    assert_eq!(DspError::TooLong.message(), "音频太长");
    let none = WavData { sample_rate: 48_000, channels: 2, samples: vec![Sample::Float32(0)] };
    assert_eq!(none.renderable().expect_err("empty").message(), "输入 wav 没有采样");
    let no_rate = WavData { sample_rate: 0, channels: 1, samples: vec![Sample::Float32(0)] };
    assert_eq!(no_rate.renderable().expect_err("rate").message(), "输入采样率为 0");
}

#[test]
fn truncated_last_chunk_does_not_count() {
    let good = f32_file(1, &[0.5, 0.25]);
    assert_eq!(dsp_error(&good[..good.len() - 1]), DspError::NoData);
}

#[test]
fn every_width_is_decoded() {
    assert_eq!(
        decode_samples(1, 8, &[0, 128, 255]),
        Ok(vec![
            Sample::Part { value: -128, of: 128 },
            Sample::Part { value: 0, of: 128 },
            Sample::Part { value: 127, of: 128 }
        ])
    );
    assert_eq!(
        decode_samples(1, 16, &[0xFF, 0x7F, 0x00]),
        Ok(vec![Sample::Part { value: 32767, of: 32768 }])
    );
    assert_eq!(
        decode_samples(1, 24, &[1, 0, 0x80, 0xFF, 0xFF, 0x7F]),
        Ok(vec![
            Sample::Part { value: -8_388_607, of: 8_388_608 },
            Sample::Part { value: 8_388_607, of: 8_388_608 }
        ])
    );
    assert_eq!(
        decode_samples(1, 32, &[0, 0, 0, 0x80]),
        Ok(vec![Sample::Part { value: i32::MIN, of: 0x8000_0000 }])
    );
    assert_eq!(
        decode_samples(3, 64, &0.5f64.to_le_bytes()),
        Ok(vec![Sample::Float64(0.5f64.to_bits())])
    );
    assert_eq!(
        decode_samples(2, 16, &[]),
        Err(DspError::Unsupported { tag: 2, bits: 16 })
    );
}

#[test]
fn blocks_cover_everything_once() {
    assert_eq!(block_frames(48_000), 480);
    assert_eq!(block_frames(11_050), 111);
    assert_eq!(block_frames(49), 1);
    assert_eq!(cut_into_blocks(5, 1, 2), vec![(0, 2), (2, 4), (4, 5)]);
    assert_eq!(cut_into_blocks(4, 0, 9), vec![(0, 2), (2, 4)]);
    assert_eq!(cut_into_blocks(0, 480, 2), vec![]);
}

#[test]
fn noise_is_repeatable() {
    let mut seed = 0x2545_F491_u32;
    let mut x = seed;
    x ^= x << 13;
    x ^= x >> 17;
    x ^= x << 5;
    assert_eq!(xorshift(&mut seed), x >> 8);
    assert_eq!(seed, x);
}
