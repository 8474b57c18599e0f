//! Processing a file: which file goes in, which comes out, and what is shown of it.
use crate::text;
use vstd::prelude::*;
use vstd::string::*;

verus! {

/// The name of the file that comes out, after that of the one that goes in.
pub open spec fn output_words(stem: Option<Seq<char>>) -> Seq<char> {
    (match stem {
        Some(s) => s,
        None => "out"@,
    }) + "_dsp.wav"@
}

/// The view of an optional text.
pub open spec fn maybe(s: Option<&str>) -> Option<Seq<char>> {
    match s {
        Some(s) => Some(s@),
        None => None,
    }
}

/// The name of the file that comes out, by the name without extension of the one that goes in.
pub fn default_output_name(stem: Option<&str>) -> (s: String)
    ensures
        s@ == output_words(maybe(stem)),
{
    let mut s: String = match stem {
        Some(t) => String::from_str(t),
        None => String::from_str("out"),
    };
    s.append("_dsp.wav");
    s
}

/// Whether the file that comes out stands beside the one that goes in: wherever that has a
/// directory. The one of a mere name is the current directory, given as an empty text.
pub fn output_beside_input(parent: Option<&str>) -> (yes: bool)
    ensures
        yes == parent is Some,
{
    parent.is_some()
}

/// Which file goes in and which comes out, if one was given; the fields are taken without the
/// blanks around them, and an empty one for the output means the default.
pub open spec fn render_files(
    input: Seq<char>,
    output: Seq<char>,
    default_output: Seq<char>,
) -> Option<(Seq<char>, Seq<char>)> {
    if text::trimmed(input).len() == 0 {
        None
    } else if text::trimmed(output).len() == 0 {
        Some((text::trimmed(input), default_output))
    } else {
        Some((text::trimmed(input), text::trimmed(output)))
    }
}

/// Which file goes in and which comes out, if one was given.
pub fn spawn_dsp_render(input: &str, output: &str, default_output: &str) -> (r: Option<
    (String, String),
>)
    ensures
        match r {
            Some(f) => render_files(input@, output@, default_output@) == Some((f.0@, f.1@)),
            None => render_files(input@, output@, default_output@) is None,
        },
{
    let i: String = text::trim(input);
    if text::chars_of(i.as_str()).len() == 0 {
        return None;
    }
    let o: String = text::trim(output);
    if text::chars_of(o.as_str()).len() == 0 {
        return Some((i, String::from_str(default_output)));
    }
    Some((i, o))
}

/// What the output field shows once a file was chosen: what it has, or the default where it is
/// empty.
pub fn output_field(current: &str, default_output: &str) -> (s: String)
    ensures
        s@ == if text::trimmed(current@).len() == 0 {
            default_output@
        } else {
            current@
        },
{
    let t: String = text::trim(current);
    if text::chars_of(t.as_str()).len() == 0 {
        String::from_str(default_output)
    } else {
        String::from_str(current)
    }
}

/// What is shown, and what is logged, where no file was given.
pub fn no_input_texts() -> (r: (&'static str, &'static str))
    ensures
        r.0@ == "请先选择或输入一个 wav 路径（可点「生成示例 wav」）。"@,
        r.1@ == "⚠️ 未指定输入 wav"@,
{
    ("请先选择或输入一个 wav 路径（可点「生成示例 wav」）。", "⚠️ 未指定输入 wav")
}

/// What is shown, and what is logged, when the processing begins.
pub fn render_begin_texts(input: &str, output: &str) -> (r: (String, String))
    ensures
        r.0@ == "渲染中…\n输入 "@ + input@ + "\n输出 "@ + output@,
        r.1@ == "DSP 离线渲染："@ + input@ + " → "@ + output@,
{
    let mut shown: String = String::from_str("渲染中…\n输入 ");
    shown.append(input);
    shown.append("\n输出 ");
    shown.append(output);
    let mut logged: String = String::from_str("DSP 离线渲染：");
    logged.append(input);
    logged.append(" → ");
    logged.append(output);
    (shown, logged)
}

/// What is shown, and what is logged, when the processing failed.
pub fn render_failed_texts(error: &str) -> (r: (String, String))
    ensures
        r.0@ == "渲染失败："@ + error@,
        r.1@ == "❌ DSP 渲染失败："@ + error@,
{
    let mut shown: String = String::from_str("渲染失败：");
    shown.append(error);
    let mut logged: String = String::from_str("❌ DSP 渲染失败：");
    logged.append(error);
    (shown, logged)
}

/// What is shown, and what is logged, where the processing could not be started at all.
pub fn render_no_thread_texts(error: &str) -> (r: (String, String))
    ensures
        r.0@ == "创建渲染线程失败："@ + error@,
        r.1@ == "创建渲染线程失败: "@ + error@,
{
    let mut shown: String = String::from_str("创建渲染线程失败：");
    shown.append(error);
    let mut logged: String = String::from_str("创建渲染线程失败: ");
    logged.append(error);
    (shown, logged)
}

/// What came out, its measures as texts.
pub struct RenderReport {
    pub output_path: String,
    pub sample_rate: u32,
    pub channels: u16,
    pub frames: usize,
    pub seconds: String,
    pub out_rms: String,
    pub in_rms: String,
    pub true_peak: String,
    pub ceiling: String,
    pub over_ceiling: String,
    pub servo: String,
    pub elapsed: String,
    pub speed: String,
}

impl RenderReport {
    /// What is shown of what came out.
    pub fn summary(&self) -> (s: String)
        ensures
            s@ == "输出 "@ + self.output_path@ + " | "@ + text::decimal(self.sample_rate as nat)
                + " Hz / "@ + text::decimal(self.channels as nat) + "ch / "@ + text::decimal(
                self.frames as nat,
            ) + " 帧（"@ + self.seconds@ + " s）\n输出 RMS "@ + self.out_rms@
                + " dBFS（输入 "@ + self.in_rms@ + "）\n真峰值 "@ + self.true_peak@
                + " dBTP vs ceiling "@ + self.ceiling@ + " dBFS（余量 "@
                + self.over_ceiling@ + " dB）\n伺服增益 "@ + self.servo@ + " dB\n耗时 "@
                + self.elapsed@ + " s = "@ + self.speed@ + "x realtime"@,
    {
        let mut s: String = String::from_str("输出 ");
        s.append(self.output_path.as_str());
        s.append(" | ");
        text::push_decimal(&mut s, self.sample_rate as u64);
        s.append(" Hz / ");
        text::push_decimal(&mut s, self.channels as u64);
        s.append("ch / ");
        text::push_decimal(&mut s, self.frames as u64);
        s.append(" 帧（");
        s.append(self.seconds.as_str());
        s.append(" s）\n输出 RMS ");
        s.append(self.out_rms.as_str());
        s.append(" dBFS（输入 ");
        s.append(self.in_rms.as_str());
        s.append("）\n真峰值 ");
        s.append(self.true_peak.as_str());
        s.append(" dBTP vs ceiling ");
        s.append(self.ceiling.as_str());
        s.append(" dBFS（余量 ");
        s.append(self.over_ceiling.as_str());
        s.append(" dB）\n伺服增益 ");
        s.append(self.servo.as_str());
        s.append(" dB\n耗时 ");
        s.append(self.elapsed.as_str());
        s.append(" s = ");
        s.append(self.speed.as_str());
        s.append("x realtime");
        s
    }
}

/// What is logged of what came out.
pub fn rendered_line(rms: &str, true_peak: &str, servo: &str) -> (s: String)
    ensures
        s@ == "✅ 渲染完成：输出 RMS "@ + rms@ + " dBFS / 真峰值 "@ + true_peak@
            + " dBTP / 伺服 "@ + servo@ + " dB"@,
{
    let mut s: String = String::from_str("✅ 渲染完成：输出 RMS ");
    s.append(rms);
    s.append(" dBFS / 真峰值 ");
    s.append(true_peak);
    s.append(" dBTP / 伺服 ");
    s.append(servo);
    s.append(" dB");
    s
}

/// What is logged before the sample file is made.
pub fn demo_begin_line(path: &str) -> (s: String)
    ensures
        s@ == "生成示例 wav："@ + path@ + "（48 kHz / 立体声 / 6 s）"@,
{
    let mut s: String = String::from_str("生成示例 wav：");
    s.append(path);
    s.append("（48 kHz / 立体声 / 6 s）");
    s
}

/// What is shown of the sample file.
pub fn demo_text(rate: u32, channels: u16, frames: usize, seconds: &str) -> (s: String)
    ensures
        s@ == "示例素材已生成："@ + text::decimal(rate as nat) + " Hz / "@ + text::decimal(
            channels as nat,
        ) + " 声道 / "@ + text::decimal(frames as nat) + " 帧（"@ + seconds@
            + " s）。点「渲染并测量」跑整链。"@,
{
    let mut s: String = String::from_str("示例素材已生成：");
    text::push_decimal(&mut s, rate as u64);
    s.append(" Hz / ");
    text::push_decimal(&mut s, channels as u64);
    s.append(" 声道 / ");
    text::push_decimal(&mut s, frames as u64);
    s.append(" 帧（");
    s.append(seconds);
    s.append(" s）。点「渲染并测量」跑整链。");
    s
}

/// What is logged of the sample file.
pub fn demo_line(error: Option<&str>) -> (s: String)
    ensures
        s@ == match maybe(error) {
            None => "✅ 示例 wav 已生成"@,
            Some(e) => "❌ 生成示例 wav 失败："@ + e,
        },
{
    match error {
        None => String::from_str("✅ 示例 wav 已生成"),
        Some(e) => {
            let mut s: String = String::from_str("❌ 生成示例 wav 失败：");
            s.append(e);
            s
        },
    }
}

/// What is logged of a file that was picked, or not.
pub fn picked_line(path: Option<&str>) -> (s: String)
    ensures
        s@ == match maybe(path) {
            Some(p) => "已选择 wav："@ + p,
            None =>
                "⚠️ 未选择文件（或系统对话框不可用：可直接手输路径或点「生成示例 wav」）"@,
        },
{
    match path {
        Some(p) => {
            let mut s: String = String::from_str("已选择 wav：");
            s.append(p);
            s
        },
        None => String::from_str(
            "⚠️ 未选择文件（或系统对话框不可用：可直接手输路径或点「生成示例 wav」）",
        ),
    }
}

/// What is noted beside the response curve: that there is nothing to see where the bypass is on or
/// every gain is zero, or else the range of the gains.
pub fn curve_note(bypass: bool, flat: bool, trough: &str, peak: &str, rate: &str) -> (s: String)
    ensures
        s@ == if bypass {
            "EQ 旁路：整链恒等，频响平直于 0 dB"@
        } else if flat {
            "全 0 增益：频响平直于 0 dB"@
        } else {
            "增益 "@ + trough@ + " .. "@ + peak@ + " dB · "@ + text::decimal(
                crate::dsp_ui::CURVE_POINTS as nat,
            ) + " 点 · "@ + rate@ + " Hz（vdev-dsp GraphicEq 系数）"@
        },
{
    if bypass {
        return String::from_str("EQ 旁路：整链恒等，频响平直于 0 dB");
    }
    if flat {
        return String::from_str("全 0 增益：频响平直于 0 dB");
    }
    let mut s: String = String::from_str("增益 ");
    s.append(trough);
    s.append(" .. ");
    s.append(peak);
    s.append(" dB · ");
    text::push_decimal(&mut s, crate::dsp_ui::CURVE_POINTS as u64);
    s.append(" 点 · ");
    s.append(rate);
    s.append(" Hz（vdev-dsp GraphicEq 系数）");
    s
}

/// Rendering takes the two files that the user named, without the blanks around them. Without one
/// to read there is nothing to render, whatever else was named; without one to write the default
/// is written.
pub proof fn law_named_files_are_taken(input: Seq<char>, output: Seq<char>, default_output: Seq<char>)
    ensures
        render_files(input, output, default_output) is None <==> text::trimmed(input).len() == 0,
        render_files(input, output, default_output) matches Some(files) ==> {
            &&& files.0 == text::trimmed(input)
            &&& text::trimmed(output).len() > 0 ==> files.1 == text::trimmed(output)
            &&& text::trimmed(output).len() == 0 ==> files.1 == default_output
        },
{
}

} // verus!
