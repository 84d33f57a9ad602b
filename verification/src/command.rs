//! Command builder: maps a conversion request to the ordered argument
//! list handed to the transcoder, deterministically.
//!
//! Image-to-image requests (both path extensions in a fixed image set)
//! route to a separate, simpler builder and never touch the video path's
//! duration, frame-rate or audio strategies.  Video requests begin with
//! the input path and the overwrite flag, then the duration strategy
//! (trim, or speed retiming in compress mode), the frame rate, the audio
//! toggle, the codec selection keyed on the target format, and end with
//! the progress-reporting flag and the output path.

use vstd::prelude::*;

verus! {

use vstd::string::StrSliceExecFns;
use vstd::string::StringExecFns;
use crate::text::last_char_before;
use crate::text::rfind_char_before;
use crate::text::seq_lower;
use crate::text::eq_lower;
use crate::text::str_eq;
use crate::text::substring;
use crate::num::u8_numeral;
use crate::num::is_u8_numeral;
use crate::num::u64_digits;
use crate::num::milli_str;
use crate::num::u64_to_string;
use crate::num::format_milli;

/// One conversion request, as handed in by the caller.  The duration is
/// in milliseconds and the target frame rate in thousandths of a frame
/// per second.
#[derive(Clone, Debug)]
pub struct ConversionRequest {
    pub input_path: String,
    pub output_path: String,
    pub format: String,
    pub quality: Option<String>,
    pub width: Option<u32>,
    pub height: Option<u32>,
    pub duration_ms: Option<u64>,
    pub duration_mode: Option<String>,
    pub fps_milli: Option<u64>,
    pub disable_audio: Option<bool>,
}

/// The mathematical value of a `ConversionRequest`.
pub struct RequestV {
    pub input_path: Seq<char>,
    pub output_path: Seq<char>,
    pub format: Seq<char>,
    pub quality: Option<Seq<char>>,
    pub width: Option<u32>,
    pub height: Option<u32>,
    pub duration_ms: Option<u64>,
    pub duration_mode: Option<Seq<char>>,
    pub fps_milli: Option<u64>,
    pub disable_audio: Option<bool>,
}

impl View for ConversionRequest {
    type V = RequestV;

    open spec fn view(&self) -> RequestV {
        RequestV {
            input_path: self.input_path@,
            output_path: self.output_path@,
            format: self.format@,
            quality: self.quality.deep_view(),
            width: self.width,
            height: self.height,
            duration_ms: self.duration_ms,
            duration_mode: self.duration_mode.deep_view(),
            fps_milli: self.fps_milli,
            disable_audio: self.disable_audio,
        }
    }
}

/// A path separator.
pub open spec fn is_sep(c: char) -> bool {
    c == '/' || c == '\\'
}

/// Index of the last path separator strictly before `end`.
pub open spec fn last_sep_before(s: Seq<char>, end: int) -> Option<int>
    decreases end,
{
    if end <= 0 || end > s.len() {
        None
    } else if is_sep(s[end - 1]) {
        Some(end - 1)
    } else {
        last_sep_before(s, end - 1)
    }
}

/// The extension of a path: what follows the last dot of its file name,
/// provided something precedes that dot; empty otherwise.
pub open spec fn ext_of(path: Seq<char>) -> Seq<char> {
    let fs = match last_sep_before(path, path.len() as int) {
        None => 0int,
        Some(i) => i + 1,
    };
    match last_char_before(path, '.', path.len() as int) {
        None => Seq::empty(),
        Some(d) => if d > fs {
            path.subrange(d + 1, path.len() as int)
        } else {
            Seq::empty()
        },
    }
}

proof fn lemma_last_sep_skip(s: Seq<char>, end: int, i: int)
    requires
        0 <= i <= end <= s.len(),
        forall|j: int| i <= j < end ==> !is_sep(s[j]),
    ensures
        last_sep_before(s, end) == last_sep_before(s, i),
    decreases end - i,
{
    if i < end {
        lemma_last_sep_skip(s, end - 1, i);
    }
}

fn find_last_sep(s: &str) -> (r: Option<usize>)
    ensures
        match r {
            Some(i) => last_sep_before(s@, s@.len() as int) == Some(i as int) && i < s@.len(),
            None => last_sep_before(s@, s@.len() as int) is None,
        },
{
    let n = s.unicode_len();
    let mut i: usize = n;
    while i > 0
        invariant
            i <= n,
            n == s@.len(),
            forall|j: int| i <= j < n ==> !is_sep(s@[j]),
        decreases i,
    {
        i -= 1;
        let c = s.get_char(i);
        if c == '/' || c == '\\' {
            proof {
                lemma_last_sep_skip(s@, n as int, i + 1);
            }
            return Some(i);
        }
    }
    proof {
        lemma_last_sep_skip(s@, n as int, 0);
    }
    None
}

/// The extension of a path, as `ext_of` says.
pub fn extension_of(path: &str) -> (r: String)
    ensures
        r@ == ext_of(path@),
{
    let n = path.unicode_len();
    let fs: usize = match find_last_sep(path) {
        Some(i) => i + 1,
        None => 0,
    };
    match rfind_char_before(path, '.', n) {
        None => String::new(),
        Some(d) => {
            if d > fs {
                substring(path, d + 1, n)
            } else {
                String::new()
            }
        },
    }
}

/// Is this token, folded to lower case, one of the image extensions?
pub open spec fn spec_is_image_format(fmt: Seq<char>) -> bool {
    let e = seq_lower(fmt);
    e == "jpg"@ || e == "jpeg"@ || e == "png"@ || e == "webp"@ || e == "bmp"@ || e == "gif"@ || e
        == "tiff"@ || e == "ico"@
}

/// Is this token one of the image extensions, case folded?
pub fn is_image_format(fmt: &str) -> (b: bool)
    ensures
        b == spec_is_image_format(fmt@),
{
    eq_lower(fmt, "jpg") || eq_lower(fmt, "jpeg") || eq_lower(fmt, "png") || eq_lower(fmt, "webp")
        || eq_lower(fmt, "bmp") || eq_lower(fmt, "gif") || eq_lower(fmt, "tiff") || eq_lower(
        fmt,
        "ico",
    )
}

/// An image-pair request: both path extensions are image extensions.
pub open spec fn spec_is_image_request(r: RequestV) -> bool {
    spec_is_image_format(ext_of(r.input_path)) && spec_is_image_format(ext_of(r.output_path))
}

/// Does this request route to the image builder?
pub fn is_image_request(req: &ConversionRequest) -> (b: bool)
    ensures
        b == spec_is_image_request(req@),
{
    let ie = extension_of(req.input_path.as_str());
    let oe = extension_of(req.output_path.as_str());
    is_image_format(ie.as_str()) && is_image_format(oe.as_str())
}

/// The constant-rate-factor value of a quality choice: the named tiers
/// map to fixed values, a numeric 8-bit value passes through verbatim,
/// and anything else falls back to the middle tier.
pub open spec fn crf_of_quality(q: Option<Seq<char>>) -> Seq<char> {
    match q {
        Some(s) => if s == "low"@ {
            "28"@
        } else if s == "medium"@ {
            "23"@
        } else if s == "high"@ {
            "18"@
        } else if u8_numeral(s) {
            s
        } else {
            "23"@
        },
        None => "23"@,
    }
}

/// The constant-rate-factor value of a quality choice, as the spec says.
pub fn crf_value(q: &Option<String>) -> (r: String)
    ensures
        r@ == crf_of_quality(q.deep_view()),
{
    match q {
        Some(s) => {
            if str_eq(s.as_str(), "low") {
                String::from_str("28")
            } else if str_eq(s.as_str(), "medium") {
                String::from_str("23")
            } else if str_eq(s.as_str(), "high") {
                String::from_str("18")
            } else if is_u8_numeral(s.as_str()) {
                s.clone()
            } else {
                String::from_str("23")
            }
        },
        None => String::from_str("23"),
    }
}

/// The quality level of an image-to-webp conversion: tier-mapped, a
/// numeric 8-bit value verbatim, the default otherwise.
pub open spec fn webp_quality_of(q: Option<Seq<char>>) -> Seq<char> {
    match q {
        Some(s) => if s == "low"@ {
            "60"@
        } else if s == "medium"@ {
            "80"@
        } else if s == "high"@ {
            "95"@
        } else if u8_numeral(s) {
            s
        } else {
            "80"@
        },
        None => "80"@,
    }
}

fn webp_quality_value(q: &Option<String>) -> (r: String)
    ensures
        r@ == webp_quality_of(q.deep_view()),
{
    match q {
        Some(s) => {
            if str_eq(s.as_str(), "low") {
                String::from_str("60")
            } else if str_eq(s.as_str(), "medium") {
                String::from_str("80")
            } else if str_eq(s.as_str(), "high") {
                String::from_str("95")
            } else if is_u8_numeral(s.as_str()) {
                s.clone()
            } else {
                String::from_str("80")
            }
        },
        None => String::from_str("80"),
    }
}

/// The text of a scale filter for the given dimensions.
pub open spec fn scale_filter(w: u32, h: u32) -> Seq<char> {
    "scale="@ + u64_digits(w as int) + ":"@ + u64_digits(h as int)
}

fn scale_filter_exec(w: u32, h: u32) -> (r: String)
    ensures
        r@ == scale_filter(w, h),
{
    let mut r = String::from_str("scale=");
    r.append(u64_to_string(w as u64).as_str());
    r.append(":");
    r.append(u64_to_string(h as u64).as_str());
    assert(r@ =~= scale_filter(w, h));
    r
}

/// The retiming speed factor in thousandths: source duration over
/// requested duration, saturated at the integer limits; an impossible
/// zero-length request saturates high and so strips audio.
pub open spec fn speed_factor_milli(orig_ms: int, req_ms: int) -> u64 {
    if req_ms <= 0 {
        u64::MAX
    } else if orig_ms * 1000 / req_ms > u64::MAX {
        u64::MAX
    } else {
        (orig_ms * 1000 / req_ms) as u64
    }
}

/// The retiming speed factor, as the spec says.
pub fn speed_factor(orig_ms: u64, req_ms: u64) -> (f: u64)
    ensures
        f == speed_factor_milli(orig_ms as int, req_ms as int),
{
    if req_ms == 0 {
        return u64::MAX;
    }
    let q: u128 = (orig_ms as u128) * 1000 / (req_ms as u128);
    if q > u64::MAX as u128 {
        u64::MAX
    } else {
        q as u64
    }
}

/// The arguments of the duration strategy.  A set duration in trim mode
/// (or any unrecognized mode) emits a time limit.  Compress mode against
/// a known source duration emits a retiming video filter, combined with
/// a scale filter when dimensions were given, and an audio tempo filter
/// when the factor lies within the tolerable window, else an audio
/// strip; against an unknown source duration it emits nothing at all.
/// With no duration, given dimensions emit a plain scale filter.
pub open spec fn duration_args(r: RequestV, src_dur: Option<u64>) -> Seq<Seq<char>> {
    match r.duration_ms {
        None => match (r.width, r.height) {
            (Some(w), Some(h)) => seq!["-vf"@, scale_filter(w, h)],
            _ => Seq::empty(),
        },
        Some(d) => {
            if r.duration_mode == Some("compress"@) {
                match src_dur {
                    None => Seq::empty(),
                    Some(orig) => {
                        let f = speed_factor_milli(orig as int, d as int);
                        let vf = match (r.width, r.height) {
                            (Some(w), Some(h)) => scale_filter(w, h) + ",setpts=PTS/"@ + milli_str(
                                f as int,
                            ),
                            _ => "setpts=PTS/"@ + milli_str(f as int),
                        };
                        let base = seq!["-filter:v"@, vf];
                        if 500 <= f <= 4000 {
                            base + seq!["-filter:a"@, "atempo="@ + milli_str(f as int)]
                        } else {
                            base + seq!["-an"@]
                        }
                    },
                }
            } else {
                seq!["-t"@, milli_str(d as int)]
            }
        },
    }
}

/// The codec arguments keyed on the target format: the default format
/// gets the H.264 codec with a medium preset, the VP9 format runs in
/// pure quality mode with zero bitrate, and every other format takes
/// the H.264 codec with the rate factor alone.
pub open spec fn codec_args(fmt: Seq<char>, q: Option<Seq<char>>) -> Seq<Seq<char>> {
    let crf = crf_of_quality(q);
    if fmt == "mp4"@ {
        seq!["-c:v"@, "libx264"@, "-crf"@, crf, "-preset"@, "medium"@]
    } else if fmt == "webm"@ {
        seq!["-c:v"@, "libvpx-vp9"@, "-crf"@, crf, "-b:v"@, "0"@]
    } else {
        seq!["-c:v"@, "libx264"@, "-crf"@, crf]
    }
}

/// The whole argument list of a video conversion.
pub open spec fn video_args(r: RequestV, src_dur: Option<u64>) -> Seq<Seq<char>> {
    seq!["-i"@, r.input_path, "-y"@] + duration_args(r, src_dur) + (match r.fps_milli {
        Some(fp) => seq!["-r"@, milli_str(fp as int)],
        None => Seq::empty(),
    }) + (if r.disable_audio == Some(true) {
        seq!["-an"@]
    } else {
        Seq::empty()
    }) + codec_args(r.format, r.quality) + seq!["-progress"@, "pipe:1"@, r.output_path]
}

/// The whole argument list of an image conversion: webp output sets an
/// explicit quality, ico output forces a scale filter (32 by 32 when no
/// size was given) and a PNG-family frame codec, and any other image
/// pair only scales when dimensions were given.
pub open spec fn image_args(r: RequestV) -> Seq<Seq<char>> {
    let oe = seq_lower(ext_of(r.output_path));
    let mid = if oe == "webp"@ {
        seq!["-c:v"@, "libwebp"@, "-quality"@, webp_quality_of(r.quality)] + (match (
            r.width,
            r.height,
        ) {
            (Some(w), Some(h)) => seq!["-vf"@, scale_filter(w, h)],
            _ => Seq::empty(),
        })
    } else if oe == "ico"@ {
        (match (r.width, r.height) {
            (Some(w), Some(h)) => seq!["-vf"@, scale_filter(w, h)],
            _ => seq!["-vf"@, "scale=32:32"@],
        }) + seq!["-c:v"@, "png"@]
    } else {
        match (r.width, r.height) {
            (Some(w), Some(h)) => seq!["-vf"@, scale_filter(w, h)],
            _ => Seq::empty(),
        }
    };
    seq!["-i"@, r.input_path] + mid + seq!["-y"@, r.output_path]
}

/// What the builder emits: image pairs take the image arguments, all
/// else the video arguments.
pub open spec fn build_args_spec(r: RequestV, src_dur: Option<u64>) -> Seq<Seq<char>> {
    if spec_is_image_request(r) {
        image_args(r)
    } else {
        video_args(r, src_dur)
    }
}

/// Law: in compress mode against an unknown source duration the
/// duration strategy adds no argument at all — in particular, no
/// retiming filter is emitted.
pub proof fn lemma_compress_unknown_source_is_noop(r: RequestV, d: u64)
    requires
        r.duration_ms == Some(d),
        r.duration_mode == Some("compress"@),
    ensures
        duration_args(r, None) =~= Seq::<Seq<char>>::empty(),
{
}

/// Law: an image-pair request builds exactly the image arguments, which
/// name no duration, frame-rate or audio strategy, whatever source
/// duration is at hand.
pub proof fn lemma_image_pair_routing(r: RequestV, src_dur: Option<u64>)
    requires
        spec_is_image_request(r),
    ensures
        build_args_spec(r, src_dur) == image_args(r),
{
}

fn duration_args_exec(req: &ConversionRequest, src_dur: Option<u64>) -> (args: Vec<String>)
    ensures
        args.deep_view() == duration_args(req@, src_dur),
{
    let mut args: Vec<String> = Vec::new();
    match req.duration_ms {
        None => {
            if let (Some(w), Some(h)) = (req.width, req.height) {
                args.push(String::from_str("-vf"));
                args.push(scale_filter_exec(w, h));
            }
            assert(args.deep_view() =~= duration_args(req@, src_dur));
        },
        Some(d) => {
            let compress = match &req.duration_mode {
                Some(m) => str_eq(m.as_str(), "compress"),
                None => false,
            };
            assert(compress == (req@.duration_mode == Some("compress"@)));
            if compress {
                if let Some(orig) = src_dur {
                    let f = speed_factor(orig, d);
                    let mut vf: String = match (req.width, req.height) {
                        (Some(w), Some(h)) => {
                            let mut v = scale_filter_exec(w, h);
                            v.append(",setpts=PTS/");
                            v
                        },
                        _ => String::from_str("setpts=PTS/"),
                    };
                    vf.append(format_milli(f).as_str());
                    args.push(String::from_str("-filter:v"));
                    args.push(vf);
                    if 500 <= f && f <= 4000 {
                        let mut af = String::from_str("atempo=");
                        af.append(format_milli(f).as_str());
                        args.push(String::from_str("-filter:a"));
                        args.push(af);
                    } else {
                        args.push(String::from_str("-an"));
                    }
                }
                assert(args.deep_view() =~= duration_args(req@, src_dur));
            } else {
                args.push(String::from_str("-t"));
                args.push(format_milli(d));
                assert(args.deep_view() =~= duration_args(req@, src_dur));
            }
        },
    }
    args
}

fn codec_args_exec(req: &ConversionRequest) -> (args: Vec<String>)
    ensures
        args.deep_view() == codec_args(req@.format, req@.quality),
{
    let crf = crf_value(&req.quality);
    let mut args: Vec<String> = Vec::new();
    args.push(String::from_str("-c:v"));
    if str_eq(req.format.as_str(), "mp4") {
        args.push(String::from_str("libx264"));
        args.push(String::from_str("-crf"));
        args.push(crf);
        args.push(String::from_str("-preset"));
        args.push(String::from_str("medium"));
    } else if str_eq(req.format.as_str(), "webm") {
        args.push(String::from_str("libvpx-vp9"));
        args.push(String::from_str("-crf"));
        args.push(crf);
        args.push(String::from_str("-b:v"));
        args.push(String::from_str("0"));
    } else {
        args.push(String::from_str("libx264"));
        args.push(String::from_str("-crf"));
        args.push(crf);
    }
    assert(args.deep_view() =~= codec_args(req@.format, req@.quality));
    args
}

fn image_args_exec(req: &ConversionRequest) -> (args: Vec<String>)
    ensures
        args.deep_view() == image_args(req@),
{
    let mut args: Vec<String> = Vec::new();
    args.push(String::from_str("-i"));
    args.push(req.input_path.clone());
    let oe = extension_of(req.output_path.as_str());
    if eq_lower(oe.as_str(), "webp") {
        args.push(String::from_str("-c:v"));
        args.push(String::from_str("libwebp"));
        args.push(String::from_str("-quality"));
        args.push(webp_quality_value(&req.quality));
        if let (Some(w), Some(h)) = (req.width, req.height) {
            args.push(String::from_str("-vf"));
            args.push(scale_filter_exec(w, h));
        }
    } else if eq_lower(oe.as_str(), "ico") {
        args.push(String::from_str("-vf"));
        if let (Some(w), Some(h)) = (req.width, req.height) {
            args.push(scale_filter_exec(w, h));
        } else {
            args.push(String::from_str("scale=32:32"));
        }
        args.push(String::from_str("-c:v"));
        args.push(String::from_str("png"));
    } else {
        if let (Some(w), Some(h)) = (req.width, req.height) {
            args.push(String::from_str("-vf"));
            args.push(scale_filter_exec(w, h));
        }
    }
    args.push(String::from_str("-y"));
    args.push(req.output_path.clone());
    assert(args.deep_view() =~= image_args(req@));
    args
}

/// Build the whole transcoder argument list for a request.  In compress
/// mode the caller hands in the source duration it probed, or nothing
/// when the probe failed; outside compress mode the value is unused.
pub fn build_conversion_args(req: &ConversionRequest, source_duration_ms: Option<u64>) -> (args:
    Vec<String>)
    ensures
        args.deep_view() == build_args_spec(req@, source_duration_ms),
{
    if is_image_request(req) {
        return image_args_exec(req);
    }
    let mut args: Vec<String> = Vec::new();
    args.push(String::from_str("-i"));
    args.push(req.input_path.clone());
    args.push(String::from_str("-y"));
    let ghost head = args.deep_view();
    assert(head =~= seq!["-i"@, req@.input_path, "-y"@]);
    let mut dur = duration_args_exec(req, source_duration_ms);
    args.append(&mut dur);
    if let Some(fp) = req.fps_milli {
        args.push(String::from_str("-r"));
        args.push(format_milli(fp));
    }
    if let Some(true) = req.disable_audio {
        args.push(String::from_str("-an"));
    }
    let ghost before_codec = args.deep_view();
    assert(before_codec =~= seq!["-i"@, req@.input_path, "-y"@] + duration_args(
        req@,
        source_duration_ms,
    ) + (match req@.fps_milli {
        Some(fp) => seq!["-r"@, milli_str(fp as int)],
        None => Seq::empty(),
    }) + (if req@.disable_audio == Some(true) {
        seq!["-an"@]
    } else {
        Seq::empty()
    }));
    let mut codec = codec_args_exec(req);
    args.append(&mut codec);
    args.push(String::from_str("-progress"));
    args.push(String::from_str("pipe:1"));
    args.push(req.output_path.clone());
    assert(args.deep_view() =~= video_args(req@, source_duration_ms));
    args
}

/// The fixed argument list of the one-shot image-to-webp conversion.
pub fn build_webp_default_args(input_path: &str, output_path: &str) -> (args: Vec<String>)
    ensures
        args.deep_view() =~= seq![
            "-i"@,
            input_path@,
            "-c:v"@,
            "libwebp"@,
            "-quality"@,
            "80"@,
            "-y"@,
            output_path@,
        ],
{
    let mut args: Vec<String> = Vec::new();
    args.push(String::from_str("-i"));
    args.push(input_path.to_owned());
    args.push(String::from_str("-c:v"));
    args.push(String::from_str("libwebp"));
    args.push(String::from_str("-quality"));
    args.push(String::from_str("80"));
    args.push(String::from_str("-y"));
    args.push(output_path.to_owned());
    args
}

/// Must the caller probe the source duration before building?  Only a
/// compress-mode request with a duration needs it, and never an image
/// pair.
pub fn needs_source_duration(req: &ConversionRequest) -> (b: bool)
    ensures
        b == (!spec_is_image_request(req@) && req@.duration_ms is Some && req@.duration_mode
            == Some("compress"@)),
{
    if is_image_request(req) {
        return false;
    }
    let has_dur = req.duration_ms.is_some();
    let compress = match &req.duration_mode {
        Some(m) => str_eq(m.as_str(), "compress"),
        None => false,
    };
    has_dur && compress
}

/// The total-duration reference for progress percentages: the literal
/// requested duration in trim mode, else whatever duration the probe of
/// the input reported.
pub fn progress_reference_duration(req: &ConversionRequest, probed_ms: Option<u64>) -> (r: Option<
    u64,
>)
    ensures
        r == (if req@.duration_mode == Some("trim"@) && req@.duration_ms is Some {
            req@.duration_ms
        } else {
            probed_ms
        }),
{
    let trim = match &req.duration_mode {
        Some(m) => str_eq(m.as_str(), "trim"),
        None => false,
    };
    if trim && req.duration_ms.is_some() {
        req.duration_ms
    } else {
        probed_ms
    }
}

/// The format tokens the conversion surface accepts.
pub open spec fn supported_formats() -> Seq<Seq<char>> {
    seq![
        "mp4"@,
        "avi"@,
        "mov"@,
        "mkv"@,
        "webm"@,
        "flv"@,
        "wmv"@,
        "m4v"@,
        "mp3"@,
        "wav"@,
        "flac"@,
        "aac"@,
        "ogg"@,
        "wma"@,
        "m4a"@,
        "jpg"@,
        "jpeg"@,
        "png"@,
        "webp"@,
        "bmp"@,
        "gif"@,
        "tiff"@,
        "ico"@,
    ]
}

/// Every format token the conversion surface accepts: video, audio and
/// image formats in their fixed order.
pub fn get_supported_formats() -> (r: Vec<&'static str>)
    ensures
        r.deep_view() == supported_formats(),
{
    let mut r: Vec<&'static str> = Vec::new();
    r.push("mp4");
    r.push("avi");
    r.push("mov");
    r.push("mkv");
    r.push("webm");
    r.push("flv");
    r.push("wmv");
    r.push("m4v");
    r.push("mp3");
    r.push("wav");
    r.push("flac");
    r.push("aac");
    r.push("ogg");
    r.push("wma");
    r.push("m4a");
    r.push("jpg");
    r.push("jpeg");
    r.push("png");
    r.push("webp");
    r.push("bmp");
    r.push("gif");
    r.push("tiff");
    r.push("ico");
    assert(r.deep_view() =~= supported_formats());
    r
}

} // verus!
