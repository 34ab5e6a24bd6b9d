//! Media files: telling their kind, naming what is made from them, and
//! writing sizes for people to read.

use vstd::prelude::*;
use crate::command::{log_file_name, log_name_for, media_stem, media_stem_of};
use crate::decimal::{decimal_digits, decimal_string, push_decimal};
use crate::paths::{extension, file_name, join, path_extension, path_file_name, path_join};
use crate::logging::LogTag;
use crate::stream::{Action, ActionView};
use crate::text::{
    chars_of, lines_of, lowercase, lowercase_chars, matches_at, occurs_at, same_chars, string_of,
    text_lines,
};

verus! {

/// Whether files with this extension, in lower case, hold video.
pub open spec fn is_video_extension(ext: Seq<char>) -> bool {
    ||| ext == "mp4"@
    ||| ext == "mov"@
    ||| ext == "mkv"@
    ||| ext == "avi"@
    ||| ext == "webm"@
    ||| ext == "m4v"@
}

/// Whether files with this extension, in lower case, hold audio.
pub open spec fn is_audio_extension(ext: Seq<char>) -> bool {
    ||| ext == "mp3"@
    ||| ext == "wav"@
    ||| ext == "m4a"@
    ||| ext == "flac"@
    ||| ext == "aac"@
    ||| ext == "ogg"@
    ||| ext == "opus"@
}

/// The kind of a file with the given extension: `video/` or `audio/` and
/// the extension in lower case for the extensions that are known, and
/// `application/octet-stream` for any other.
pub open spec fn media_kind_of(ext: Seq<char>) -> Seq<char> {
    let lower = lowercase(ext);
    if is_video_extension(lower) {
        "video/"@ + lower
    } else if is_audio_extension(lower) {
        "audio/"@ + lower
    } else {
        "application/octet-stream"@
    }
}

/// Whether `ext` is one of the given six or seven.
fn one_of(ext: &Vec<char>, names: &[&str]) -> (b: bool)
    ensures
        b == exists|i: int| 0 <= i < names@.len() && ext@ == (#[trigger] names@[i])@,
{
    let mut i: usize = 0;
    while i < names.len()
        invariant
            i <= names.len(),
            forall|j: int| 0 <= j < i ==> ext@ != (#[trigger] names@[j])@,
        decreases names.len() - i,
    {
        let name = chars_of(names[i]);
        if same_chars(ext, &name) {
            return true;
        }
        i += 1;
    }
    false
}

/// The kind of a file with the given extension.
pub fn media_kind_for_extension(ext: &str) -> (kind: String)
    ensures
        kind@ == media_kind_of(ext@),
{
    let lower = lowercase_chars(ext);
    let video = ["mp4", "mov", "mkv", "avi", "webm", "m4v"];
    let audio = ["mp3", "wav", "m4a", "flac", "aac", "ogg", "opus"];
    let text = string_of(&lower, 0, lower.len());
    assert(text@ =~= lower@);
    if one_of(&lower, video.as_slice()) {
        "video/".to_owned().concat(text.as_str())
    } else if one_of(&lower, audio.as_slice()) {
        "audio/".to_owned().concat(text.as_str())
    } else {
        "application/octet-stream".to_owned()
    }
}

/// Guesses the kind of a media file from the extension of its path.
///
/// A path without an extension is of kind `application/octet-stream`.
pub fn guess_media_kind(path: &str) -> (kind: String)
    ensures
        kind@ == media_kind_of(
            match path_extension(path@) {
                Some(ext) => ext,
                None => Seq::empty(),
            },
        ),
{
    match extension(path) {
        Some(ext) => media_kind_for_extension(ext.as_str()),
        None => {
            let kind = media_kind_for_extension("");
            proof {
                reveal_strlit("");
                assert(""@ =~= Seq::<char>::empty());
            }
            kind
        },
    }
}

/// What the user is told about a file.
#[derive(Clone, Debug, PartialEq, Eq)]
pub struct FileInfo {
    pub name: String,
    pub size: u64,
    pub kind: String,
}

/// What the user is told about the file at `path`, which holds `size`
/// bytes: its name, its size and its kind. `None` for a path that names no
/// file.
pub fn file_info(path: &str, size: u64) -> (info: Option<FileInfo>)
    ensures
        match info {
            Some(i) => {
                &&& path_file_name(path@) == Some(i.name@)
                &&& i.size == size
                &&& i.kind@ == media_kind_of(
                    match path_extension(path@) {
                        Some(ext) => ext,
                        None => Seq::empty(),
                    },
                )
            },
            None => path_file_name(path@) is None,
        },
{
    match file_name(path) {
        Some(name) => Some(FileInfo { name, size, kind: guess_media_kind(path) }),
        None => None,
    }
}

/// Whether an extension marks a file of converted audio: `wav`, in any case.
pub open spec fn is_wav(ext: Option<Seq<char>>) -> bool {
    match ext {
        Some(e) => lowercase(e) == "wav"@,
        None => false,
    }
}

/// Whether an extension marks a file of converted audio.
pub fn is_wav_extension(ext: Option<&str>) -> (b: bool)
    ensures
        b == is_wav(
            match ext {
                Some(e) => Some(e@),
                None => None,
            },
        ),
{
    match ext {
        Some(e) => {
            let lower = lowercase_chars(e);
            let wav = chars_of("wav");
            same_chars(&lower, &wav)
        },
        None => false,
    }
}

/// Whether the file at `path` is converted audio left over from a run.
pub fn is_wav_file(path: &str) -> (b: bool)
    ensures
        b == is_wav(path_extension(path@)),
{
    match extension(path) {
        Some(e) => is_wav_extension(Some(e.as_str())),
        None => is_wav_extension(None),
    }
}

/// The local path that a file URL names: what follows `file://`, without
/// one slash at its start. `None` for a URL of another scheme.
pub open spec fn local_path_of(url: Seq<char>) -> Option<Seq<char>> {
    if occurs_at(url, "file://"@, 0) {
        let rest = url.skip(7);
        if rest.len() > 0 && rest[0] == '/' {
            Some(rest.skip(1))
        } else {
            Some(rest)
        }
    } else {
        None
    }
}

/// The local path that a file URL names.
pub fn path_from_file_url(url: &str) -> (path: Option<String>)
    ensures
        match path {
            Some(p) => local_path_of(url@) == Some(p@),
            None => local_path_of(url@) is None,
        },
{
    let v = chars_of(url);
    let scheme = chars_of("file://");
    proof {
        reveal_strlit("file://");
    }
    if !matches_at(&v, 0, &scheme) {
        return None;
    }
    let start: usize = if v.len() > 7 && v[7] == '/' {
        8
    } else {
        7
    };
    let path = string_of(&v, start, v.len());
    proof {
        let rest = v@.skip(7);
        if rest.len() > 0 && rest[0] == '/' {
            assert(rest.skip(1) =~= v@.subrange(8, v.len() as int));
        } else {
            assert(rest =~= v@.subrange(7, v.len() as int));
        }
    }
    Some(path)
}

/// The arguments that make the converter write `input` as mono audio at
/// 16 kHz to `output`, replacing what is there.
pub open spec fn conversion_arguments(input: Seq<char>, output: Seq<char>) -> Seq<Seq<char>> {
    seq!["-i"@, input, "-ar"@, "16000"@, "-ac"@, "1"@, output, "-y"@]
}

/// The arguments for a conversion of `input` to `output`.
pub fn conversion_args(input: &str, output: &str) -> (args: Vec<String>)
    ensures
        args.deep_view() == conversion_arguments(input@, output@),
{
    let mut args: Vec<String> = Vec::new();
    args.push("-i".to_owned());
    args.push(input.to_owned());
    args.push("-ar".to_owned());
    args.push("16000".to_owned());
    args.push("-ac".to_owned());
    args.push("1".to_owned());
    args.push(output.to_owned());
    args.push("-y".to_owned());
    assert(args.deep_view() =~= conversion_arguments(input@, output@));
    args
}

/// The name of the converted audio, from the stem of its source.
pub fn wav_file_name(stem: &str) -> (name: String)
    ensures
        name@ == stem@ + ".wav"@,
{
    stem.to_owned().concat(".wav")
}

/// The directory of a run that starts `millis` milliseconds after the
/// start of 1970: the directory of that number under `temp_dir`.
pub fn run_directory(temp_dir: &str, millis: u64) -> (dir: String)
    ensures
        dir@ == path_join(temp_dir@, decimal_digits(millis as nat)),
{
    let name = decimal_string(millis);
    join(temp_dir, name.as_str())
}

/// What a conversion works on and what it leaves in the directory of its run.
#[derive(Clone, Debug, PartialEq, Eq)]
pub struct ConversionPlan {
    /// The converted audio.
    pub output_path: String,
    /// The log of the run.
    pub log_path: String,
    /// The arguments of the converter.
    pub args: Vec<String>,
}

/// Plans the conversion of the media file at `input_path` in the run
/// directory `run_dir`. What the run leaves is named by the stem of
/// `source`, the name or path under which the user gave the file.
pub fn plan_conversion(run_dir: &str, source: &str, input_path: &str) -> (plan: ConversionPlan)
    ensures
        plan.output_path@ == path_join(run_dir@, media_stem_of(source@) + ".wav"@),
        plan.log_path@ == path_join(run_dir@, log_name_for(media_stem_of(source@))),
        plan.args.deep_view() == conversion_arguments(input_path@, plan.output_path@),
{
    let stem = media_stem(source);
    let output_name = wav_file_name(stem.as_str());
    let output_path = join(run_dir, output_name.as_str());
    let log_name = log_file_name(stem.as_str());
    let log_path = join(run_dir, log_name.as_str());
    let args = conversion_args(input_path, output_path.as_str());
    ConversionPlan { output_path, log_path, args }
}

/// Entries of the log with the given tag, one for each of `lines`.
pub open spec fn tagged(tag: LogTag, lines: Seq<Seq<char>>) -> Seq<ActionView> {
    Seq::new(lines.len(), |i: int| ActionView::Log { tag, text: lines[i] })
}

/// What the log gets of a run of the converter: each line that it wrote to
/// standard output, then each line that it wrote to standard error.
pub open spec fn conversion_log_of(stdout: Seq<char>, stderr: Seq<char>) -> Seq<ActionView> {
    tagged(LogTag::ConverterStdout, text_lines(stdout)) + tagged(
        LogTag::ConverterStderr,
        text_lines(stderr),
    )
}

/// Appends to `out` an entry of the log with the given tag for each of `lines`.
fn push_tagged(out: &mut Vec<Action>, tag: LogTag, lines: Vec<String>)
    ensures
        final(out).deep_view() == old(out).deep_view() + tagged(tag, lines.deep_view()),
{
    let ghost before = out.deep_view();
    let ghost all = tagged(tag, lines.deep_view());
    let mut i: usize = 0;
    assert(before + all.take(0) =~= before);
    while i < lines.len()
        invariant
            i <= lines.len(),
            all == tagged(tag, lines.deep_view()),
            out.deep_view() == before + all.take(i as int),
        decreases lines.len() - i,
    {
        assert(lines.deep_view()[i as int] == lines@[i as int]@);
        let ghost done = out.deep_view();
        out.push(Action::Log { tag, text: lines[i].clone() });
        assert(out.deep_view() =~= done.push(ActionView::Log { tag, text: lines@[i as int]@ }));
        assert(all.take(i + 1) =~= all.take(i as int).push(all[i as int]));
        i += 1;
    }
    assert(all.take(lines.len() as int) =~= all);
}

/// What the log gets of a run of the converter, given what it wrote to its
/// two output streams.
pub fn conversion_log(stdout: &str, stderr: &str) -> (entries: Vec<Action>)
    ensures
        entries.deep_view() == conversion_log_of(stdout@, stderr@),
{
    let mut entries: Vec<Action> = Vec::new();
    assert(entries.deep_view() =~= Seq::<ActionView>::empty());
    push_tagged(&mut entries, LogTag::ConverterStdout, lines_of(stdout));
    push_tagged(&mut entries, LogTag::ConverterStderr, lines_of(stderr));
    assert(entries.deep_view() =~= conversion_log_of(stdout@, stderr@));
    entries
}

/// What the user is told when a conversion has succeeded.
#[derive(Clone, Debug, PartialEq, Eq)]
pub struct ProcessResult {
    pub success: bool,
    pub message: String,
    pub output_path: Option<String>,
    /// The duration of the media in milliseconds, where it is known.
    pub duration_ms: Option<u64>,
}

/// What the user is told when the converter has run.
///
/// If it succeeded: where the converted audio is. The duration of the media
/// is not looked for. If it failed: what it wrote to standard error.
pub fn conversion_result(success: bool, output_path: String, stderr: &str) -> (r: Result<
    ProcessResult,
    String,
>)
    ensures
        success ==> (r matches Ok(p) && {
            &&& p.success
            &&& p.message@ == "文件转换成功，准备开始语音识别..."@
            &&& p.output_path == Some(output_path)
            &&& p.duration_ms is None
        }),
        !success ==> (r matches Err(e) && e@ == "FFmpeg 执行失败: "@ + stderr@),
{
    if success {
        Ok(
            ProcessResult {
                success: true,
                message: "文件转换成功，准备开始语音识别...".to_owned(),
                output_path: Some(output_path),
                duration_ms: None,
            },
        )
    } else {
        Err("FFmpeg 执行失败: ".to_owned().concat(stderr))
    }
}

/// Where the subtitles of a transcription are, and where a copy of them
/// goes: the binary writes them beside the audio, under its name with
/// `.srt` added; the copy keeps that file name in the target directory.
#[derive(Clone, Debug, PartialEq, Eq)]
pub struct SubtitleCopy {
    pub source: String,
    pub target: String,
}

/// The path of the subtitles for the audio at `audio_path`.
pub open spec fn subtitles_of(audio_path: Seq<char>) -> Seq<char> {
    audio_path + ".srt"@
}

/// The path of the subtitles for the audio at `audio_path`.
pub fn subtitle_path(audio_path: &str) -> (path: String)
    ensures
        path@ == subtitles_of(audio_path@),
{
    audio_path.to_owned().concat(".srt")
}

/// Plans the copy of the subtitles of `audio_path` into `target_directory`.
/// `None` where the path of the subtitles names no file.
pub fn plan_subtitle_copy(audio_path: &str, target_directory: &str) -> (plan: Option<
    SubtitleCopy,
>)
    ensures
        match plan {
            Some(p) => {
                &&& p.source@ == subtitles_of(audio_path@)
                &&& path_file_name(subtitles_of(audio_path@)) matches Some(name) && p.target@
                    == path_join(target_directory@, name)
            },
            None => path_file_name(subtitles_of(audio_path@)) is None,
        },
{
    let source = subtitle_path(audio_path);
    match file_name(source.as_str()) {
        Some(name) => {
            let target = join(target_directory, name.as_str());
            Some(SubtitleCopy { source, target })
        },
        None => None,
    }
}

/// Which unit a size is written in: bytes below 1024, and so on up to
/// terabytes, which also serve for anything larger.
pub open spec fn unit_index(bytes: nat) -> nat {
    if bytes < 1024 {
        0
    } else if bytes < 1024 * 1024 {
        1
    } else if bytes < 1024 * 1024 * 1024 {
        2
    } else if bytes < 1024 * 1024 * 1024 * 1024 {
        3
    } else {
        4
    }
}

/// The number of bytes in one unit.
pub open spec fn unit_size(unit: nat) -> nat {
    if unit == 0 {
        1
    } else if unit == 1 {
        1024
    } else if unit == 2 {
        1024 * 1024
    } else if unit == 3 {
        1024 * 1024 * 1024
    } else {
        1024 * 1024 * 1024 * 1024
    }
}

/// The name of a unit.
pub open spec fn unit_name(unit: nat) -> Seq<char> {
    if unit == 0 {
        "B"@
    } else if unit == 1 {
        "KB"@
    } else if unit == 2 {
        "MB"@
    } else if unit == 3 {
        "GB"@
    } else {
        "TB"@
    }
}

/// The quotient `a / b` rounded to the nearest whole number, and to the
/// even one where two are equally near.
pub open spec fn rounded_quotient(a: nat, b: nat) -> nat {
    let whole = a / b;
    let rest = a % b;
    if 2 * rest > b || (2 * rest == b && whole % 2 == 1) {
        whole + 1
    } else {
        whole
    }
}

/// `bytes` in tenths of a unit of `size` bytes, rounded to the nearest
/// tenth, and to the even one where two are equally near.
pub open spec fn tenths(bytes: nat, size: nat) -> nat {
    rounded_quotient(bytes * 10, size)
}

/// The least count that has more than 53 significant bits.
pub const DOUBLE_LIMIT: u64 = 0x20_0000_0000_0000;

/// The step between the counts that a double-precision number holds
/// exactly, around `n`: one below `DOUBLE_LIMIT`, and twice as much for
/// each further bit of `n`.
pub open spec fn double_step(n: nat) -> nat
    decreases n,
{
    if n < DOUBLE_LIMIT {
        1
    } else {
        2 * double_step(n / 2)
    }
}

/// The count `n` as a double-precision number holds it: with its 53 most
/// significant bits, rounded to the nearest such count and to the even one
/// where two are equally near.
pub open spec fn as_double(n: nat) -> nat {
    rounded_quotient(n, double_step(n)) * double_step(n)
}

/// A size as people read it: `0 B` for nothing, else the size in its unit
/// with one place after the point, a space, and the name of the unit. The
/// size is held in double precision before it is divided and rounded.
pub open spec fn file_size_text(bytes: nat) -> Seq<char> {
    if bytes == 0 {
        "0 B"@
    } else {
        let unit = unit_index(bytes);
        let t = tenths(as_double(bytes), unit_size(unit));
        decimal_digits(t / 10) + seq!['.'] + decimal_digits(t % 10) + seq![' '] + unit_name(unit)
    }
}

/// Whether `step` is a power of two of no more than eleven bits.
pub open spec fn is_step(step: nat) -> bool {
    ||| step == 1
    ||| step == 2
    ||| step == 4
    ||| step == 8
    ||| step == 16
    ||| step == 32
    ||| step == 64
    ||| step == 128
    ||| step == 256
    ||| step == 512
    ||| step == 1024
    ||| step == 2048
}

/// Halving a count that has more than 53 significant bits doubles the step.
proof fn lemma_step_doubles(bytes: u64, m: u64, step: u64)
    requires
        is_step(step as nat),
        m >= DOUBLE_LIMIT,
        m * step <= bytes,
    ensures
        step < 2048,
        is_step((step * 2) as nat),
        (m / 2) * (step * 2) <= bytes,
        bytes >= DOUBLE_LIMIT,
{
    assert((m / 2) * (step * 2) <= m * step) by (nonlinear_arith)
        requires
            (m / 2) * 2 <= m,
            step >= 1,
    ;
    if step == 1 {
    } else if step == 2 {
    } else if step == 4 {
    } else if step == 8 {
    } else if step == 16 {
    } else if step == 32 {
    } else if step == 64 {
    } else if step == 128 {
    } else if step == 256 {
    } else if step == 512 {
    } else if step == 1024 {
    } else if step == 2048 {
        assert(m * step == m * 2048);
        assert(m * 2048 >= 0x1_0000_0000_0000_0000);
    }
}

/// A count rounded up to the next multiple of the step is no more than
/// two to the power of 64.
proof fn lemma_step_bound(bytes: u64, step: u64)
    requires
        is_step(step as nat),
    ensures
        (bytes / step + 1) * step <= 0x1_0000_0000_0000_0000,
        (bytes / step) * step <= bytes,
{
    if step == 1 {
    } else if step == 2 {
    } else if step == 4 {
    } else if step == 8 {
    } else if step == 16 {
    } else if step == 32 {
    } else if step == 64 {
    } else if step == 128 {
    } else if step == 256 {
    } else if step == 512 {
    } else if step == 1024 {
    } else if step == 2048 {
    }
}

/// The count `bytes` as a double-precision number holds it.
pub fn to_double(bytes: u64) -> (d: u128)
    ensures
        d == as_double(bytes as nat),
        bytes < DOUBLE_LIMIT ==> d == bytes,
        d <= 0x1_0000_0000_0000_0000,
{
    let mut m: u64 = bytes;
    let mut step: u64 = 1;
    while m >= DOUBLE_LIMIT
        invariant
            is_step(step as nat),
            m * step <= bytes,
            m == bytes || bytes >= DOUBLE_LIMIT,
            double_step(bytes as nat) == step * double_step(m as nat),
        decreases m,
    {
        proof {
            lemma_step_doubles(bytes, m, step);
        }
        assert(step * double_step(m as nat) == (step * 2) * double_step(m as nat / 2)) by {
            assert(double_step(m as nat) == 2 * double_step(m as nat / 2));
            assert(step * (2 * double_step(m as nat / 2)) == (step * 2) * double_step(
                m as nat / 2,
            )) by (nonlinear_arith);
        }
        m = m / 2;
        step = step * 2;
    }
    assert(double_step(m as nat) == 1);
    assert(double_step(bytes as nat) == step) by (nonlinear_arith)
        requires
            double_step(bytes as nat) == step * double_step(m as nat),
            double_step(m as nat) == 1,
    ;
    let whole = bytes / step;
    let rest = bytes % step;
    let up: u64 = if 2 * rest > step || (2 * rest == step && whole % 2 == 1) {
        1
    } else {
        0
    };
    proof {
        lemma_step_bound(bytes, step);
        assert((whole + up) * step <= (whole + 1) * step) by (nonlinear_arith)
            requires
                up <= 1,
                step >= 1,
        ;
        assert(bytes < DOUBLE_LIMIT ==> step == 1 && rest == 0);
    }
    let d = (whole as u128 + up as u128) * (step as u128);
    assert(d == rounded_quotient(bytes as nat, step as nat) * step);
    d
}

/// `bytes`, held in double precision, in tenths of a unit of `size` bytes.
fn double_tenths(bytes: u64, size: u64) -> (t: u128)
    requires
        size >= 1,
        size >= 2 || bytes < DOUBLE_LIMIT,
    ensures
        t == tenths(as_double(bytes as nat), size as nat),
        t / 10 <= u64::MAX,
{
    let d = to_double(bytes);
    let scaled: u128 = d * 10;
    let whole: u128 = scaled / (size as u128);
    let rest: u128 = scaled % (size as u128);
    assert(whole <= 0x5_0000_0000_0000_0000) by (nonlinear_arith)
        requires
            whole == scaled / (size as u128),
            size >= 1,
            size >= 2 || scaled < 0x140_0000_0000_0000,
            scaled <= 0xa_0000_0000_0000_0000,
    ;
    if 2 * rest > size as u128 || (2 * rest == size as u128 && whole % 2 == 1) {
        whole + 1
    } else {
        whole
    }
}

/// Writes a size in bytes as people read it, such as `1.5 KB`.
///
/// The unit is the largest of B, KB, MB, GB and TB that the size reaches,
/// each 1024 times the one before. The size is held in double precision,
/// divided by the unit, and rounded to one place after the point.
pub fn format_file_size(bytes: u64) -> (text: String)
    ensures
        text@ == file_size_text(bytes as nat),
{
    if bytes == 0 {
        return "0 B".to_owned();
    }
    let (size, name): (u64, &str) = if bytes < 1024 {
        (1, "B")
    } else if bytes < 1024 * 1024 {
        (1024, "KB")
    } else if bytes < 1024 * 1024 * 1024 {
        (1024 * 1024, "MB")
    } else if bytes < 1024 * 1024 * 1024 * 1024 {
        (1024 * 1024 * 1024, "GB")
    } else {
        (1024 * 1024 * 1024 * 1024, "TB")
    };
    assert(size == unit_size(unit_index(bytes as nat)));
    assert(name@ == unit_name(unit_index(bytes as nat)));
    let t = double_tenths(bytes, size);
    let mut text = String::new();
    push_decimal(&mut text, (t / 10) as u64);
    text.push('.');
    push_decimal(&mut text, (t % 10) as u64);
    text.push(' ');
    text.append(name);
    assert(text@ =~= decimal_digits(t as nat / 10) + seq!['.'] + decimal_digits(t as nat % 10)
        + seq![' '] + name@);
    text
}

/// Writes a size in bytes in units of `size` bytes, with one place after
/// the point: the size is held in double precision, divided by the unit,
/// and rounded.
pub fn push_in_units(out: &mut String, bytes: u64, size: u64)
    requires
        size >= 2,
    ensures
        final(out)@ == old(out)@ + decimal_digits(
            tenths(as_double(bytes as nat), size as nat) / 10,
        ) + seq!['.'] + decimal_digits(tenths(as_double(bytes as nat), size as nat) % 10),
{
    let t = double_tenths(bytes, size);
    push_decimal(out, (t / 10) as u64);
    out.push('.');
    push_decimal(out, (t % 10) as u64);
    assert(final(out)@ =~= old(out)@ + decimal_digits(t as nat / 10) + seq!['.'] + decimal_digits(
        t as nat % 10,
    ));
}

} // verus!
