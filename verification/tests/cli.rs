use vdev::cli::{capture_lines, inject_lines, status_lines};
use vdev::cmdline::{command_line, elevated_exit_code, quote_arg};
use vdev::install::{
    after_read, class_name, cleaned_line, collect_vdev_nodes, failure_line, failure_text,
    fallback_line, find_device, hardware_id_value, hwid_matches, install_plan, install_step,
    installed_line, instance_id, is_gone, left_over_text, node_step, plan_line, read_units,
    removed_line, status, uninstall_begin, uninstall_step, vdev_instance_ids, Failure,
    InstallEvent, InstallPhase, InstallPlan, NodeEvent, NodePhase, ReadStep, Removal,
    UninstallPhase, HARDWARE_ID,
};
use vdev::riff::Sample;
use vdev::text::{encode_utf16, from_utf16_lossy, zero_terminated};
use vdev::wasapi::{
    capture_step, detect_format, find_endpoint, inject_step, load_sample, source_frame,
    store_sample, take_packet, CaptureReport, CaptureStep, FormatError, InjectReport, InjectStep,
    SampleFmt,
};
use vdev::wav::{parse_wav, write_wav16, Wav, WavError};

fn multi(parts: &[&str]) -> Vec<u16> {
    let mut v: Vec<u16> = Vec::new();
    for p in parts {
        v.extend(p.encode_utf16());
        v.push(0);
    }
    v.push(0);
    v
}

fn to_f32(s: Sample) -> f32 {
    match s {
        Sample::Part { value, of } => value as f32 / of as f32,
        Sample::Float32(bits) => f32::from_bits(bits),
        Sample::Float64(bits) => f64::from_bits(bits) as f32,
    }
}

fn to_i16(v: f32) -> i16 {
    (v.clamp(-1.0, 1.0) * 32767.0).round() as i16
}

fn strings(parts: &[&str]) -> Vec<String> {
    parts.iter().map(|s| s.to_string()).collect()
}

// ---- command lines ----

#[test]
fn quote_arg_escapes_spaces_quotes_and_backslashes() {
    assert_eq!(quote_arg("install"), "install");
    assert_eq!(quote_arg("--inf-dir"), "--inf-dir");
    assert_eq!(
        quote_arg(r"C:\Program Files\vdev\vdev-audio-win.exe"),
        "\"C:\\Program Files\\vdev\\vdev-audio-win.exe\""
    );
    assert_eq!(quote_arg(""), "\"\"");
    assert_eq!(quote_arg("a\tb"), "\"a\tb\"");
    assert_eq!(quote_arg("a\"b"), "\"a\\\"b\"");
    assert_eq!(
        quote_arg(r"ends with backslash\"),
        "\"ends with backslash\\\\\""
    );
    assert_eq!(quote_arg(r"a\b"), r"a\b");
    assert_eq!(quote_arg(r#"say "hi"\"#), "\"say \\\"hi\\\"\\\\\"");
}

#[test]
fn elevated_exit_code_is_nonzero_when_child_result_unavailable() {
    assert_eq!(elevated_exit_code(true, true, 0), 0);
    assert_eq!(elevated_exit_code(true, true, 3010), 3010);
    assert_eq!(elevated_exit_code(true, false, 0), 1);
    assert_eq!(elevated_exit_code(false, false, 0), 1);
}

#[test]
fn exit_code_keeps_its_bits() {
    assert_eq!(elevated_exit_code(true, true, 0xC000_013A), 0xC000_013Au32 as i32);
}

/// Splits a command line as the C runtime does.
fn split_line(line: &str) -> Vec<String> {
    let chars: Vec<char> = line.chars().collect();
    let mut args = Vec::new();
    let mut i = 0;
    loop {
        while i < chars.len() && (chars[i] == ' ' || chars[i] == '\t') {
            i += 1;
        }
        if i == chars.len() {
            return args;
        }
        let mut cur = String::new();
        let mut quoted = false;
        while i < chars.len() && (quoted || (chars[i] != ' ' && chars[i] != '\t')) {
            let mut n = 0;
            while i < chars.len() && chars[i] == '\\' {
                n += 1;
                i += 1;
            }
            if i < chars.len() && chars[i] == '"' {
                for _ in 0..n / 2 {
                    cur.push('\\');
                }
                if n % 2 == 1 {
                    cur.push('"');
                } else {
                    quoted = !quoted;
                }
                i += 1;
            } else {
                for _ in 0..n {
                    cur.push('\\');
                }
                if i < chars.len() && (quoted || (chars[i] != ' ' && chars[i] != '\t')) {
                    cur.push(chars[i]);
                    i += 1;
                }
            }
        }
        args.push(cur);
    }
}

#[test]
fn arguments_survive_the_command_line() {
    let args = strings(&["install", "--inf-dir", r"C:\my dir\", "", r#"a"b\"#, "x\ty", r"\\srv"]);
    assert_eq!(split_line(&command_line(&args)), args);
}

// ---- device nodes ----

#[test]
fn hwid_matches_exact_segment_case_insensitive() {
    let ids = multi(&[r"Root\vdev-audio", r"ROOT\OTHER"]);
    assert!(hwid_matches(&ids, r"Root\vdev-audio"));
    assert!(hwid_matches(&ids, r"root\VDEV-AUDIO"));
}

#[test]
fn hwid_rejects_prefix_sibling() {
    let ids = multi(&[r"Root\vdev-audio-extra"]);
    assert!(!hwid_matches(&ids, r"Root\vdev-audio"));
    let ids2 = multi(&[r"Root\vdev"]);
    assert!(!hwid_matches(&ids2, r"Root\vdev-audio"));
}

#[test]
fn hwid_needs_its_closing_zero() {
    let open: Vec<u16> = r"Root\vdev-audio".encode_utf16().collect();
    assert!(!hwid_matches(&open, r"Root\vdev-audio"));
    assert!(hwid_matches(&multi(&["x", r"Root\vdev-audio"]), r"Root\vdev-audio"));
}

#[test]
fn install_plan_is_idempotent() {
    assert_eq!(install_plan(0), InstallPlan::Create);
    assert_eq!(install_plan(1), InstallPlan::Reuse);
    assert_eq!(install_plan(2), InstallPlan::Recreate);
    assert_eq!(install_plan(3), InstallPlan::Recreate);
}

#[test]
fn nodes_are_collected_in_order() {
    let all = vec![
        multi(&["a"]),
        multi(&[r"ROOT\VDEV-AUDIO"]),
        multi(&[r"Root\vdev-audio-extra"]),
        multi(&["b", HARDWARE_ID]),
    ];
    assert_eq!(collect_vdev_nodes(&all), vec![1, 3]);
    assert_eq!(find_device(&all), Some(1));
    assert_eq!(find_device(&vec![multi(&["a"])]), None);
}

#[test]
fn hardware_id_is_stored_with_two_zeros() {
    let bytes = hardware_id_value();
    let units = read_units(&bytes);
    assert_eq!(units, multi(&[HARDWARE_ID]));
    assert!(hwid_matches(&units, HARDWARE_ID));
    assert_eq!(&bytes[..4], &[0x52, 0, 0x6F, 0]);
}

#[test]
fn odd_byte_at_the_end_is_left_out() {
    assert_eq!(read_units(&[0x34, 0x12, 0x78, 0x56, 0xFF]), vec![0x1234, 0x5678]);
}

#[test]
fn reads_grow_only_where_the_buffer_was_too_small() {
    assert_eq!(after_read(true, 0, 0), ReadStep::Done);
    assert_eq!(after_read(false, 0x8007_007A, 64), ReadStep::Grow(64));
    assert_eq!(after_read(false, 0x8007_007A, 0), ReadStep::GiveUp);
    assert_eq!(after_read(false, 5, 64), ReadStep::GiveUp);
}

#[test]
fn units_are_decoded_like_std_does() {
    let rows: [&[u16]; 9] = [
        &[],
        &[0x41, 0, 0xFFFF],
        &[0xD83D, 0xDE00],
        &[0xD83D],
        &[0xDE00, 0xD83D],
        &[0xD83D, 0xD83D, 0xDE00, 0x42],
        &[0xD83D, 0x42],
        &[0xD800, 0xDC00, 0xDBFF, 0xDFFF],
        &[0xD7FF, 0xE000, 0xDFFF],
    ];
    for row in rows {
        assert_eq!(from_utf16_lossy(row), String::from_utf16_lossy(row));
    }
    let said = "ROOT\\MEDIA 音 \u{1F600}\u{10FFFF}";
    assert_eq!(from_utf16_lossy(&encode_utf16(said)), said);
}

#[test]
fn instance_id_ends_at_the_first_zero() {
    let mut units: Vec<u16> = r"ROOT\MEDIA\0007".encode_utf16().collect();
    units.push(0);
    units.push(0x41);
    assert_eq!(instance_id(&units), r"ROOT\MEDIA\0007");
    assert_eq!(instance_id(&[0x41, 0xD800, 0x42]), "A\u{FFFD}B");
    assert_eq!(class_name(&units), zero_terminated(r"ROOT\MEDIA\0007"));
}

#[test]
fn unreadable_ids_are_left_out() {
    let reads = vec![Some(zero_terminated("A")), None, Some(zero_terminated("音"))];
    assert_eq!(vdev_instance_ids(&reads), strings(&["A", "音"]));
}

#[test]
fn status_decodes_what_is_stored() {
    let driver = zero_terminated("oem7.inf");
    let st = status(true, &driver, &[]);
    assert!(st.present);
    assert_eq!(st.driver.as_deref(), Some("oem7.inf"));
    assert_eq!(st.friendly_name, None);
    assert_eq!(
        status_lines(&st),
        strings(&["虚拟声卡设备：已安装", "  驱动：oem7.inf"])
    );
    let none = status(false, &driver, &driver);
    assert!(!none.present && none.driver.is_none() && none.friendly_name.is_none());
    assert_eq!(
        status_lines(&none),
        strings(&["虚拟声卡设备：未安装（先运行 vdev-audio-win install；内核驱动需测试签名）"])
    );
}

#[test]
fn a_removed_node_is_one_that_was_seen_gone() {
    // The removal reports success three times over and the node stays: the fallback is run.
    let mut r = Removal::begin(1);
    assert_eq!(r.step(NodeEvent::Code(0)), (0, None));
    assert_eq!(r.step(NodeEvent::Code(0)), (0, None));
    assert_eq!(r.phase, NodePhase::Remove(1));
    assert_eq!(r.step(NodeEvent::Code(0)), (0, None));
    for _ in 0..4 {
        assert_eq!(r.step(NodeEvent::Gone(false)), (500, None));
    }
    assert_eq!(r.phase, NodePhase::RunFallback(0));
    r.step(NodeEvent::Ran(true));
    assert_eq!(r.step(NodeEvent::Gone(true)), (0, Some(0)));
    assert!(r.is_done());
    assert_eq!(r.outcome(), Ok(1));
}

#[test]
fn a_failed_node_stops_no_other() {
    let mut r = Removal::begin(3);
    r.step(NodeEvent::Code(0x17));
    r.step(NodeEvent::Code(0));
    r.step(NodeEvent::Code(0x0D));
    r.step(NodeEvent::Code(0));
    r.step(NodeEvent::Code(0));
    assert_eq!(r.step(NodeEvent::Code(0x17)), (400, None));
    assert_eq!(r.step(NodeEvent::Code(0x17)), (400, None));
    assert_eq!(r.step(NodeEvent::Code(0x17)), (0, None));
    assert_eq!(r.step(NodeEvent::Gone(true)), (0, None));
    assert!(r.is_done());
    assert_eq!(r.removed, 1);
    assert_eq!(r.failures, vec![(0, Failure::Unknown(0x17)), (1, Failure::Locate(0x0D))]);
    assert_eq!(
        r.outcome(),
        Err("有 2 个 vdev-audio 设备节点未能移除（管理员权限？设备被占用？）".to_string())
    );
}

#[test]
fn failing_fallback_is_a_failure() {
    let run = NodePhase::RunFallback(0x17);
    assert_eq!(
        node_step(run, NodeEvent::Ran(false)).0,
        NodePhase::Failed(Failure::Fallback(0x17))
    );
    assert_eq!(
        node_step(run, NodeEvent::NotRun).0,
        NodePhase::Failed(Failure::NoFallback(0x17))
    );
    let last = NodePhase::Look { last: 1, n: 4, fallback: true };
    assert_eq!(
        node_step(last, NodeEvent::Gone(false)),
        (NodePhase::Failed(Failure::StillThere), 500)
    );
}

#[test]
fn failures_are_reported_in_full() {
    assert_eq!(
        failure_text(Failure::Unknown(0x17), None, ""),
        "CM_Get_Device_IDW 0x00000017"
    );
    assert_eq!(
        failure_text(Failure::Locate(0xABCD), None, ""),
        "CM_Locate_DevNodeW 0x0000ABCD"
    );
    assert_eq!(failure_text(Failure::StillThere, None, ""), "pnputil 报成功但节点仍在");
    assert_eq!(
        failure_text(Failure::Fallback(0x17), Some(-5), "denied"),
        "CfgMgr 0x00000017；pnputil exit=Some(-5) denied"
    );
    assert_eq!(
        failure_text(Failure::Fallback(1), None, ""),
        "CfgMgr 0x00000001；pnputil exit=None "
    );
    assert_eq!(
        failure_text(Failure::NoFallback(0x17), None, "not found"),
        "CfgMgr 0x00000017；pnputil 无法执行: not found"
    );
    assert_eq!(failure_line(Some("ID"), "why"), "  ! 未能移除 ID：why");
    assert_eq!(failure_line(None, "why"), "  ! 未能移除 <unknown>：why");
    assert_eq!(
        fallback_line(0x17),
        "  （CfgMgr 回 0x00000017 但节点未消失，已用 pnputil 兜底移除）"
    );
}

#[test]
fn gone_ignores_case() {
    let listed = strings(&[r"ROOT\MEDIA\0001"]);
    assert!(!is_gone(&listed, r"root\media\0001"));
    assert!(is_gone(&listed, r"root\media\0002"));
}

fn run_install(events: &[InstallEvent]) -> Vec<InstallPhase> {
    let mut phase = InstallPhase::CheckInf;
    let mut seen = vec![phase];
    for e in events {
        phase = install_step(phase, *e).0;
        seen.push(phase);
    }
    seen
}

#[test]
fn reinstalling_keeps_the_one_node() {
    let ok = InstallEvent::Did(true);
    let seen = run_install(&[ok, ok, InstallEvent::Nodes(1), ok, InstallEvent::Nodes(1)]);
    assert_eq!(seen.last(), Some(&InstallPhase::Installed));
    assert!(!seen.contains(&InstallPhase::CreateNode));
    assert!(!seen.contains(&InstallPhase::RemoveNodes));
}

#[test]
fn several_nodes_are_cleared_first() {
    let ok = InstallEvent::Did(true);
    let seen = run_install(&[ok, ok, InstallEvent::Nodes(3), ok, ok, ok, InstallEvent::Nodes(1)]);
    assert_eq!(
        &seen[3..],
        &[
            InstallPhase::RemoveNodes,
            InstallPhase::CreateNode,
            InstallPhase::InstallDriver,
            InstallPhase::Recount(0),
            InstallPhase::Installed
        ]
    );
}

#[test]
fn install_fails_without_exactly_one_node() {
    let mut phase = InstallPhase::Recount(0);
    for k in 1..=6 {
        let (next, pause) = install_step(phase, InstallEvent::Nodes(2));
        assert_eq!((next, pause), (InstallPhase::Recount(k), 500));
        phase = next;
    }
    assert_eq!(
        install_step(phase, InstallEvent::Nodes(2)),
        (InstallPhase::WrongCount, 0)
    );
    assert_eq!(
        install_step(InstallPhase::CheckInf, InstallEvent::Did(false)).0,
        InstallPhase::NoInf
    );
    assert_eq!(
        install_step(InstallPhase::InstallDriver, InstallEvent::Did(false)).0,
        InstallPhase::Broken
    );
}

#[test]
fn install_messages() {
    assert_eq!(plan_line(&vec![]), None);
    assert_eq!(
        plan_line(&strings(&["A"])).as_deref(),
        Some("已存在设备节点 A，就地更新驱动（不重建节点，端点 GUID 保持不变）")
    );
    assert_eq!(
        plan_line(&strings(&["A", "B"])).as_deref(),
        Some("检测到 2 个 vdev-audio 节点（应为 1）：A, B，先全部清理后重建")
    );
    assert_eq!(cleaned_line(2), "已清理 2 个残留设备节点");
    assert_eq!(
        installed_line(&strings(&["A"])),
        Ok("虚拟声卡驱动已安装（设备节点 A）".to_string())
    );
    assert_eq!(
        installed_line(&vec![]),
        Err("安装后 vdev-audio 节点数为 0（应为 1）：<none>（残留节点请先 uninstall 清理）".to_string())
    );
    assert_eq!(
        installed_line(&strings(&["A", "B"])),
        Err("安装后 vdev-audio 节点数为 2（应为 1）：A, B（残留节点请先 uninstall 清理）".to_string())
    );
}

#[test]
fn uninstall_succeeds_only_with_nothing_left() {
    assert_eq!(uninstall_begin(0), UninstallPhase::NothingFound);
    assert_eq!(uninstall_begin(2), UninstallPhase::Recount(0));
    assert_eq!(
        uninstall_step(UninstallPhase::Recount(3), 0),
        (UninstallPhase::Gone, 0)
    );
    assert_eq!(
        uninstall_step(UninstallPhase::Recount(3), 1),
        (UninstallPhase::Recount(4), 500)
    );
    assert_eq!(
        uninstall_step(UninstallPhase::Recount(6), 1),
        (UninstallPhase::LeftOver, 0)
    );
    assert_eq!(removed_line(0), "未找到 vdev 虚拟声卡设备");
    assert_eq!(removed_line(2), "已移除 2 个 vdev 虚拟声卡设备节点");
    assert_eq!(
        left_over_text(&strings(&["A", "B"])),
        "卸载后仍有 2 个 vdev-audio 节点残留：A, B（可能被占用，请重试或重启后重试）"
    );
}

// ---- WAVE files ----

#[test]
fn wav16_roundtrip() {
    let src = vec![0.0f32, 0.5, -0.5, 0.999, -0.999];
    let quantised: Vec<i16> = src.iter().map(|v| to_i16(*v)).collect();
    let bytes = write_wav16(48_000, 1, &quantised);
    let w = parse_wav(&bytes).ok().expect("parse");
    assert_eq!(w.sample_rate, 48_000);
    assert_eq!(w.channels, 1);
    assert_eq!(w.frames(), src.len());
    for (a, b) in src.iter().zip(w.samples.iter()) {
        let b = to_f32(*b);
        assert!((a - b).abs() < 2.0 / 32768.0, "{a} vs {b}");
    }
}

#[test]
fn parse_float32_wav() {
    let mut bytes = Vec::new();
    bytes.extend_from_slice(b"RIFF");
    bytes.extend_from_slice(&(36u32 + 8).to_le_bytes());
    bytes.extend_from_slice(b"WAVEfmt ");
    bytes.extend_from_slice(&16u32.to_le_bytes());
    bytes.extend_from_slice(&3u16.to_le_bytes());
    bytes.extend_from_slice(&1u16.to_le_bytes());
    bytes.extend_from_slice(&48_000u32.to_le_bytes());
    bytes.extend_from_slice(&192_000u32.to_le_bytes());
    bytes.extend_from_slice(&4u16.to_le_bytes());
    bytes.extend_from_slice(&32u16.to_le_bytes());
    bytes.extend_from_slice(b"data");
    bytes.extend_from_slice(&8u32.to_le_bytes());
    bytes.extend_from_slice(&1.0f32.to_le_bytes());
    bytes.extend_from_slice(&(-0.25f32).to_le_bytes());
    let w = parse_wav(&bytes).ok().expect("parse float wav");
    let samples: Vec<f32> = w.samples.iter().map(|s| to_f32(*s)).collect();
    assert_eq!(samples, vec![1.0, -0.25]);
}

#[test]
fn reject_non_wav() {
    assert!(parse_wav(b"not a wav at all").is_err());
}

#[test]
fn sample_wraps_channel_index() {
    let w = Wav {
        sample_rate: 48_000,
        channels: 1,
        samples: vec![Sample::Float32(0.25f32.to_bits()), Sample::Float32(0.5f32.to_bits())],
    };
    assert_eq!(to_f32(w.sample(0, 1)), 0.25);
    assert_eq!(to_f32(w.sample(1, 5)), 0.5);
    assert_eq!(to_f32(w.sample(9, 0)), 0.0);
}

fn wav_file(fmt: &[u8], chunks: &[(&[u8], &[u8])]) -> Vec<u8> {
    let mut b = Vec::new();
    b.extend_from_slice(b"RIFF\0\0\0\0WAVE");
    b.extend_from_slice(b"fmt ");
    b.extend_from_slice(&(fmt.len() as u32).to_le_bytes());
    b.extend_from_slice(fmt);
    if fmt.len() % 2 == 1 {
        b.push(0);
    }
    for (id, body) in chunks {
        b.extend_from_slice(id);
        b.extend_from_slice(&(body.len() as u32).to_le_bytes());
        b.extend_from_slice(body);
        if body.len() % 2 == 1 {
            b.push(0);
        }
    }
    b
}

fn plain_fmt(tag: u16, channels: u16, bits: u16) -> Vec<u8> {
    let mut f = Vec::new();
    f.extend_from_slice(&tag.to_le_bytes());
    f.extend_from_slice(&channels.to_le_bytes());
    f.extend_from_slice(&44_100u32.to_le_bytes());
    f.extend_from_slice(&0u32.to_le_bytes());
    f.extend_from_slice(&0u16.to_le_bytes());
    f.extend_from_slice(&bits.to_le_bytes());
    f
}

fn wav_error(b: &[u8]) -> WavError {
    match parse_wav(b) {
        Err(e) => e,
        Ok(_) => panic!("accepted"),
    }
}

#[test]
fn wav_errors_say_what_is_wrong() {
    assert_eq!(wav_error(b"RIFF"), WavError::NotWave);
    assert_eq!(wav_error(b"RIFF\0\0\0\0WAVE"), WavError::NoFormat);
    assert_eq!(wav_error(&wav_file(&plain_fmt(1, 1, 16), &[])), WavError::NoData);
    assert_eq!(
        wav_error(&wav_file(&plain_fmt(1, 0, 16), &[(b"data", &[0, 0])])),
        WavError::NoChannels
    );
    let odd = wav_error(&wav_file(&plain_fmt(1, 1, 24), &[(b"data", &[0, 0, 0])]));
    assert_eq!(odd, WavError::Unsupported { tag: 1, bits: 24 });
    assert_eq!(
        odd.message(),
        "不支持的 WAV 格式：tag=1 bits=24（支持 16bit PCM / 32bit float）"
    );
    assert_eq!(wav_error(&wav_file(&[1, 0, 1], &[])), WavError::CutShort16);
    assert_eq!(wav_error(&wav_file(&[1, 0, 1, 0, 0], &[])), WavError::CutShort32);
    assert_eq!(
        wav_error(&wav_file(&plain_fmt(1, 1, 16)[..12], &[])),
        WavError::CutShort16
    );
    assert_eq!(WavError::NotWave.message(), "不是 RIFF/WAVE 文件");
    assert_eq!(WavError::CutShort16.message(), "WAV 截断（u16）");
    assert_eq!(WavError::CutShort32.message(), "WAV 截断（u32）");
    assert_eq!(WavError::NoFormat.message(), "WAV 缺少 fmt 块");
    assert_eq!(WavError::NoData.message(), "WAV 缺少 data 块");
    assert_eq!(WavError::NoChannels.message(), "WAV 声道数为 0");
}

#[test]
fn wav_chunks_are_walked_with_padding() {
    let b = wav_file(
        &plain_fmt(1, 1, 16),
        &[(b"LIST", &[1, 2, 3]), (b"data", &[0x00, 0x40, 0x00, 0x80])],
    );
    let w = parse_wav(&b).ok().expect("parse");
    assert_eq!(w.sample_rate, 44_100);
    assert_eq!(
        w.samples,
        vec![
            Sample::Part { value: 16384, of: 32768 },
            Sample::Part { value: -32768, of: 32768 }
        ]
    );
}

#[test]
fn wav_data_that_is_cut_short_is_read_as_far_as_it_goes() {
    let mut b = wav_file(&plain_fmt(3, 1, 32), &[(b"data", &[0, 0, 0, 0x3F, 0, 0, 0, 0xBF])]);
    b.truncate(b.len() - 3);
    let w = parse_wav(&b).ok().expect("parse");
    assert_eq!(w.samples, vec![Sample::Float32(0x3F00_0000)]);
}

#[test]
fn wav_extensible_takes_the_sub_format() {
    let mut fmt = plain_fmt(0xFFFE, 2, 32);
    fmt.extend_from_slice(&[22, 0, 32, 0, 3, 0, 0, 0]);
    fmt.extend_from_slice(&[3, 0, 0, 0]);
    fmt.extend_from_slice(&[0; 12]);
    let data = 0.5f32.to_le_bytes();
    let w = parse_wav(&wav_file(&fmt, &[(b"data", &data)])).ok().expect("parse");
    assert_eq!(w.samples, vec![Sample::Float32(0.5f32.to_bits())]);
    fmt[24] = 1;
    assert_eq!(
        wav_error(&wav_file(&fmt, &[(b"data", &data)])),
        WavError::Unsupported { tag: 1, bits: 32 }
    );
    fmt[14] = 16;
    let w = parse_wav(&wav_file(&fmt, &[(b"data", &[0, 0x40])])).ok().expect("parse");
    assert_eq!(w.samples, vec![Sample::Part { value: 16384, of: 32768 }]);
}

#[test]
fn wav_of_32_bit_integers_is_refused() {
    let b = wav_file(&plain_fmt(1, 1, 32), &[(b"data", &[0, 0, 0, 0x40])]);
    assert_eq!(wav_error(&b), WavError::Unsupported { tag: 1, bits: 32 });
    let b = wav_file(&plain_fmt(3, 1, 64), &[(b"data", &[0; 8])]);
    assert_eq!(wav_error(&b), WavError::Unsupported { tag: 3, bits: 64 });
}

#[test]
fn wav_with_another_chunk_reads_the_same() {
    let plain = write_wav16(48_000, 1, &[1, -2, 3]);
    let want = parse_wav(&plain).ok().expect("parse");
    let chunk: [u8; 12] = [b'L', b'I', b'S', b'T', 3, 0, 0, 0, 7, 8, 9, 0];
    for at in [12, 36, plain.len()] {
        let mut b = plain[..at].to_vec();
        b.extend_from_slice(&chunk);
        b.extend_from_slice(&plain[at..]);
        let w = parse_wav(&b).ok().expect("parse");
        assert_eq!((w.sample_rate, w.channels), (want.sample_rate, want.channels));
        assert_eq!(w.samples, want.samples);
    }
}

#[test]
fn wav_writes_whole_frames_only() {
    let b = write_wav16(8_000, 2, &[1, 2, 3]);
    assert_eq!(b.len(), 44 + 4);
    assert_eq!(&b[4..8], &40u32.to_le_bytes());
    assert_eq!(&b[28..32], &32_000u32.to_le_bytes());
    assert_eq!(&b[32..34], &4u16.to_le_bytes());
    let w = parse_wav(&b).ok().expect("parse");
    assert_eq!((w.channels, w.frames()), (2, 1));
    let none = write_wav16(8_000, 0, &[-1]);
    assert_eq!(parse_wav(&none).ok().expect("parse").channels, 1);
}

// ---- endpoints ----

#[test]
fn endpoint_is_found_whatever_the_case() {
    let names = strings(&["Speakers", "扬声器 (VDEV Audio)", "vdev mic"]);
    assert_eq!(find_endpoint(&names, "Vdev"), Ok(1));
    assert_eq!(
        find_endpoint(&names, "none"),
        Err("未找到名字含「none」的活动端点。当前可用：Speakers / 扬声器 (VDEV Audio) / vdev mic".to_string())
    );
    assert_eq!(find_endpoint(&strings(&["ÀVDEV"]), "àv"), Ok(0));
}

fn mix_format(tag: u16, bits: u16, extra: u16, sub: u8) -> Vec<u8> {
    let mut f = plain_fmt(tag, 2, bits);
    f.extend_from_slice(&extra.to_le_bytes());
    f.extend_from_slice(&[0; 6]);
    f.push(sub);
    f.extend_from_slice(&[0; 15]);
    f
}

#[test]
fn formats_are_told_apart() {
    assert_eq!(detect_format(&mix_format(3, 32, 0, 0)), Ok(SampleFmt::F32));
    assert_eq!(detect_format(&mix_format(1, 16, 0, 0)), Ok(SampleFmt::I16));
    assert_eq!(detect_format(&mix_format(0xFFFE, 32, 22, 3)), Ok(SampleFmt::F32));
    assert_eq!(detect_format(&mix_format(0xFFFE, 16, 22, 1)), Ok(SampleFmt::I16));
    assert_eq!(
        detect_format(&mix_format(0xFFFE, 24, 22, 1)),
        Err(FormatError::Bits(24))
    );
    assert_eq!(
        detect_format(&mix_format(0xFFFE, 16, 10, 1)),
        Err(FormatError::ShortExtension(10))
    );
    assert_eq!(detect_format(&mix_format(1, 24, 0, 0)), Err(FormatError::Tag(1)));
    assert_eq!(detect_format(&mix_format(3, 64, 0, 0)), Err(FormatError::Tag(3)));
    assert_eq!(
        detect_format(&mix_format(0xFFFE, 64, 22, 3)),
        Err(FormatError::Bits(64))
    );
    assert_eq!(
        detect_format(&mix_format(0xFFFE, 16, 22, 3)),
        Err(FormatError::Bits(16))
    );
    assert_eq!(
        FormatError::ShortExtension(10).message(),
        "WAVEFORMATEXTENSIBLE.cbSize=10 太小"
    );
    assert_eq!(
        FormatError::Bits(24).message(),
        "不支持的 WAVEFORMATEXTENSIBLE 位深 24（支持 16bit PCM / 32bit float）"
    );
    assert_eq!(
        FormatError::Tag(6).message(),
        "不支持的 wFormatTag=6（支持 PCM 16bit / IEEE float 32bit）"
    );
}

#[test]
fn stored_samples_are_loaded() {
    let mut b = vec![0xAAu8; 12];
    store_sample(&mut b, 1, SampleFmt::F32, 0.25f32.to_bits());
    assert_eq!(load_sample(&b, 1, SampleFmt::F32), Sample::Float32(0.25f32.to_bits()));
    assert_eq!(&b[..4], &[0xAA; 4]);
    store_sample(&mut b, 0, SampleFmt::I16, 0x8001);
    assert_eq!(
        load_sample(&b, 0, SampleFmt::I16),
        Sample::Part { value: -32767, of: 32768 }
    );
    assert_eq!(load_sample(&b, 1, SampleFmt::F32), Sample::Float32(0.25f32.to_bits()));
}

#[test]
fn playing_fills_the_room_and_stops_at_the_end() {
    assert_eq!(inject_step(0, 1000, 480, 480), InjectStep::Wait(2));
    assert_eq!(inject_step(0, 1000, 480, 100), InjectStep::Write(380));
    assert_eq!(inject_step(900, 1000, 480, 100), InjectStep::Write(100));
    assert_eq!(inject_step(1000, 1000, 480, 0), InjectStep::Done);
    assert_eq!(source_frame(7, 3), 1);
    assert_eq!(source_frame(7, 0), 0);
}

#[test]
fn packets_count_after_the_skip_and_without_silence() {
    assert_eq!(capture_step(true, 5), CaptureStep::Done);
    assert_eq!(capture_step(false, 0), CaptureStep::Wait(5));
    assert_eq!(capture_step(false, 5), CaptureStep::Read);
    let data = [0x00u8, 0x40, 0x00, 0xC0];
    let mut kept = Vec::new();
    assert_eq!(take_packet(&mut kept, Some(&data), 1, 0, false, 2, SampleFmt::I16), 0);
    assert_eq!(take_packet(&mut kept, Some(&data), 1, 2, true, 2, SampleFmt::I16), 0);
    assert_eq!(take_packet(&mut kept, None, 1, 0, true, 2, SampleFmt::I16), 0);
    assert!(kept.is_empty());
    assert_eq!(take_packet(&mut kept, Some(&data), 1, 1, true, 2, SampleFmt::I16), 1);
    assert_eq!(
        kept,
        vec![
            Sample::Part { value: 16384, of: 32768 },
            Sample::Part { value: -16384, of: 32768 }
        ]
    );
}

#[test]
fn reports_are_printed() {
    let r = InjectReport {
        endpoint: "vdev 扬声器".to_string(),
        endpoint_id: "{0}".to_string(),
        sample_rate: 48_000,
        channels: 2,
        frames: 96_000,
    };
    assert_eq!(
        inject_lines(&r, "2.00"),
        strings(&[
            "注入端点：vdev 扬声器",
            "  端点 ID：{0}",
            "  格式：48000 Hz / 2 ch（注入 96000 帧 ≈ 2.00s）",
            "注入完成：Play 到该端点的声音即被「vdev 麦克风」听到（可用 capture 验证）",
        ])
    );
    let c = CaptureReport {
        endpoint: "vdev 麦克风".to_string(),
        endpoint_id: "{1}".to_string(),
        sample_rate: 48_000,
        channels: 2,
        frames: 48_000,
        wav: Some("out.wav".to_string()),
    };
    assert_eq!(
        capture_lines(&c, "1.00", "-12.0", "-9.0", true),
        strings(&[
            "采集端点：vdev 麦克风",
            "  端点 ID：{1}",
            "  格式：48000 Hz / 2 ch（采集 48000 帧 ≈ 1.00s）",
            "  电平：RMS -12.0 dBFS / 峰值 -9.0 dBFS",
            "  已保存：out.wav",
            "判定：采到有效音频（RMS > −60 dBFS）",
        ])
    );
    let quiet = CaptureReport { wav: None, ..c };
    assert_eq!(
        capture_lines(&quiet, "1.00", "-100.0", "-100.0", false).last().map(String::as_str),
        Some("判定：接近静音（RMS ≤ −60 dBFS）——若刚注入过，可用 --skip 避开环回积压")
    );
}
