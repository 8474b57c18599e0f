//! What the command line prints.
use crate::install::DeviceStatus;
use crate::text;
use crate::wasapi::{CaptureReport, InjectReport};
use vstd::prelude::*;
use vstd::string::*;

verus! {

/// What is printed of an optional text, with its label in front.
pub open spec fn labelled(label: Seq<char>, s: Option<String>) -> Seq<Seq<char>> {
    match s {
        Some(s) => seq![label + s@],
        None => Seq::empty(),
    }
}

/// What is printed of the device.
pub open spec fn status_words(st: DeviceStatus) -> Seq<Seq<char>> {
    if st.present {
        seq!["虚拟声卡设备：已安装"@] + labelled("  名称："@, st.friendly_name)
            + labelled("  驱动："@, st.driver)
    } else {
        seq![
            "虚拟声卡设备：未安装（先运行 vdev-audio-win install；内核驱动需测试签名）"@,
        ]
    }
}

/// Adds a line.
fn push_line(lines: &mut Vec<String>, line: String)
    ensures
        text::texts(final(lines)@) == text::texts(old(lines)@).push(line@),
{
    lines.push(line);
    assert(text::texts(lines@) =~= text::texts(old(lines)@).push(line@));
}

/// Adds a line made of a label and a text.
fn push_labelled(lines: &mut Vec<String>, label: &str, t: &str)
    ensures
        text::texts(final(lines)@) == text::texts(old(lines)@).push(label@ + t@),
{
    let mut s: String = String::from_str(label);
    s.append(t);
    push_line(lines, s);
}

/// What is printed of the device.
pub fn status_lines(st: &DeviceStatus) -> (lines: Vec<String>)
    ensures
        text::texts(lines@) == status_words(*st),
{
    let mut lines: Vec<String> = Vec::new();
    assert(text::texts(lines@) =~= Seq::<Seq<char>>::empty());
    if !st.present {
        push_line(
            &mut lines,
            String::from_str(
                "虚拟声卡设备：未安装（先运行 vdev-audio-win install；内核驱动需测试签名）",
            ),
        );
        return lines;
    }
    push_line(&mut lines, String::from_str("虚拟声卡设备：已安装"));
    match &st.friendly_name {
        Some(name) => push_labelled(&mut lines, "  名称：", name.as_str()),
        None => {},
    }
    match &st.driver {
        Some(driver) => push_labelled(&mut lines, "  驱动：", driver.as_str()),
        None => {},
    }
    assert(text::texts(lines@) =~= status_words(*st));
    lines
}

/// The line of a format and a length; `verb` says what was done and `seconds` is the length.
pub open spec fn format_words(
    rate: u32,
    channels: u16,
    verb: Seq<char>,
    frames: u64,
    seconds: Seq<char>,
) -> Seq<char> {
    "  格式："@ + text::decimal(rate as nat) + " Hz / "@ + text::decimal(channels as nat)
        + " ch（"@ + verb + " "@ + text::decimal(frames as nat) + " 帧 ≈ "@ + seconds
        + "s）"@
}

/// The line of a format and a length.
fn format_line(rate: u32, channels: u16, verb: &str, frames: u64, seconds: &str) -> (s: String)
    ensures
        s@ == format_words(rate, channels, verb@, frames, seconds@),
{
    let mut s: String = String::from_str("  格式：");
    text::push_decimal(&mut s, rate as u64);
    s.append(" Hz / ");
    text::push_decimal(&mut s, channels as u64);
    s.append(" ch（");
    s.append(verb);
    s.append(" ");
    text::push_decimal(&mut s, frames);
    s.append(" 帧 ≈ ");
    s.append(seconds);
    s.append("s）");
    s
}

/// What is printed of what was played; `seconds` is its length with two decimals.
pub fn inject_lines(r: &InjectReport, seconds: &str) -> (lines: Vec<String>)
    ensures
        text::texts(lines@) == seq![
            "注入端点："@ + r.endpoint@,
            "  端点 ID："@ + r.endpoint_id@,
            format_words(r.sample_rate, r.channels, "注入"@, r.frames, seconds@),
            "注入完成：Play 到该端点的声音即被「vdev 麦克风」听到（可用 capture 验证）"@,
        ],
{
    let mut lines: Vec<String> = Vec::new();
    assert(text::texts(lines@) =~= Seq::<Seq<char>>::empty());
    push_labelled(&mut lines, "注入端点：", r.endpoint.as_str());
    push_labelled(&mut lines, "  端点 ID：", r.endpoint_id.as_str());
    push_line(
        &mut lines,
        format_line(r.sample_rate, r.channels, "注入", r.frames, seconds),
    );
    push_line(
        &mut lines,
        String::from_str(
            "注入完成：Play 到该端点的声音即被「vdev 麦克风」听到（可用 capture 验证）",
        ),
    );
    lines
}

/// What is printed of what was recorded; `seconds` is its length, `rms` and `peak` its levels, and
/// `loud` whether it is above the level that counts as near silence.
pub open spec fn capture_words(
    r: CaptureReport,
    seconds: Seq<char>,
    rms: Seq<char>,
    peak: Seq<char>,
    loud: bool,
) -> Seq<Seq<char>> {
    seq![
        "采集端点："@ + r.endpoint@,
        "  端点 ID："@ + r.endpoint_id@,
        format_words(r.sample_rate, r.channels, "采集"@, r.frames, seconds),
        "  电平：RMS "@ + rms + " dBFS / 峰值 "@ + peak + " dBFS"@,
    ] + labelled("  已保存："@, r.wav) + seq![
        if loud {
            "判定：采到有效音频（RMS > −60 dBFS）"@
        } else {
            "判定：接近静音（RMS ≤ −60 dBFS）——若刚注入过，可用 --skip 避开环回积压"@
        },
    ]
}

/// What is printed of what was recorded.
pub fn capture_lines(
    r: &CaptureReport,
    seconds: &str,
    rms: &str,
    peak: &str,
    loud: bool,
) -> (lines: Vec<String>)
    ensures
        text::texts(lines@) == capture_words(*r, seconds@, rms@, peak@, loud),
{
    let mut lines: Vec<String> = Vec::new();
    assert(text::texts(lines@) =~= Seq::<Seq<char>>::empty());
    push_labelled(&mut lines, "采集端点：", r.endpoint.as_str());
    push_labelled(&mut lines, "  端点 ID：", r.endpoint_id.as_str());
    push_line(
        &mut lines,
        format_line(r.sample_rate, r.channels, "采集", r.frames, seconds),
    );
    let mut level: String = String::from_str("  电平：RMS ");
    level.append(rms);
    level.append(" dBFS / 峰值 ");
    level.append(peak);
    level.append(" dBFS");
    push_line(&mut lines, level);
    match &r.wav {
        Some(path) => push_labelled(&mut lines, "  已保存：", path.as_str()),
        None => {},
    }
    if loud {
        push_line(&mut lines, String::from_str("判定：采到有效音频（RMS > −60 dBFS）"));
    } else {
        push_line(
            &mut lines,
            String::from_str(
                "判定：接近静音（RMS ≤ −60 dBFS）——若刚注入过，可用 --skip 避开环回积压",
            ),
        );
    }
    assert(text::texts(lines@) =~= capture_words(*r, seconds@, rms@, peak@, loud));
    lines
}

} // verus!
