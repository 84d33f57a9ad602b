//! Diagnostic text parser: extracts duration, resolution, codecs, frame
//! rate and bitrate from the free-form diagnostic output of the
//! transcoder, line by line.
//!
//! All extraction is best effort: a missing or malformed field leaves the
//! corresponding record field unset and never fails the call.  Later
//! matching lines overwrite earlier ones for the same field.  The exact
//! matching rules (field markers, the exclusion of tokens holding `@` or
//! `.` when matching a resolution) are a compatibility contract with the
//! tool's current log format and are stated here as spec functions.

use vstd::prelude::*;

verus! {

use vstd::string::StrSliceExecFns;
use crate::text::find_sub;
use crate::text::contains_sub;
use crate::text::first_char_from;
use crate::text::last_char_before;
use crate::text::lemma_first_occur_props;
use crate::text::lemma_first_char_props;
use crate::text::find_substr;
use crate::text::find_char_from;
use crate::text::rfind_char_before;
use crate::text::contains_str;
use crate::text::substring;
use crate::num::all_digits;
use crate::num::parse_u64_spec;
use crate::num::parse_u32_spec;
use crate::num::parse_milli_spec;
use crate::num::parse_u64_range;
use crate::num::parse_u32;
use crate::num::parse_milli;

/// Media metadata scraped from diagnostic text.  Every field is optional:
/// absence means "not found in the text", never an error.  The duration
/// and the frame rate are fixed point, in milliseconds and in thousandths
/// of a frame per second.
#[derive(Clone, Debug)]
pub struct MediaInfo {
    pub duration_ms: Option<u64>,
    pub width: Option<u32>,
    pub height: Option<u32>,
    pub video_codec: Option<String>,
    pub audio_codec: Option<String>,
    pub bitrate: Option<String>,
    pub fps_milli: Option<u64>,
    pub file_size: Option<u64>,
}

/// The mathematical value of a `MediaInfo`.
pub struct MediaInfoV {
    pub duration_ms: Option<u64>,
    pub width: Option<u32>,
    pub height: Option<u32>,
    pub video_codec: Option<Seq<char>>,
    pub audio_codec: Option<Seq<char>>,
    pub bitrate: Option<Seq<char>>,
    pub fps_milli: Option<u64>,
    pub file_size: Option<u64>,
}

impl View for MediaInfo {
    type V = MediaInfoV;

    open spec fn view(&self) -> MediaInfoV {
        MediaInfoV {
            duration_ms: self.duration_ms,
            width: self.width,
            height: self.height,
            video_codec: self.video_codec.deep_view(),
            audio_codec: self.audio_codec.deep_view(),
            bitrate: self.bitrate.deep_view(),
            fps_milli: self.fps_milli,
            file_size: self.file_size,
        }
    }
}

/// A record with every field unset.
pub open spec fn empty_media_info() -> MediaInfoV {
    MediaInfoV {
        duration_ms: None,
        width: None,
        height: None,
        video_codec: None,
        audio_codec: None,
        bitrate: None,
        fps_milli: None,
        file_size: None,
    }
}

impl MediaInfo {
    /// A record with every field unset.
    pub fn empty() -> (m: MediaInfo)
        ensures
            m@ == empty_media_info(),
    {
        MediaInfo {
            duration_ms: None,
            width: None,
            height: None,
            video_codec: None,
            audio_codec: None,
            bitrate: None,
            fps_milli: None,
            file_size: None,
        }
    }
}

/// The text between a marker and the next space after it: the rule for
/// codec and bitrate tokens.
pub open spec fn token_after_marker(line: Seq<char>, marker: Seq<char>) -> Option<Seq<char>> {
    match find_sub(line, marker) {
        None => None,
        Some(i) => match first_char_from(line, ' ', i + marker.len()) {
            None => None,
            Some(j) => Some(line.subrange(i + marker.len(), j)),
        },
    }
}

/// The text between the duration marker and the next comma after it.
pub open spec fn spec_extract_duration(line: Seq<char>) -> Option<Seq<char>> {
    match find_sub(line, "Duration: "@) {
        None => None,
        Some(i) => match first_char_from(line, ',', i + "Duration: "@.len()) {
            None => None,
            Some(j) => Some(line.subrange(i + "Duration: "@.len(), j)),
        },
    }
}

/// What an `H:MM:SS[.fraction]` clock string is worth in milliseconds:
/// exactly three colon-separated fields, hours and minutes plain digit
/// strings, seconds a decimal; absent or malformed fields yield nothing.
pub open spec fn spec_parse_duration(s: Seq<char>) -> Option<u64> {
    match first_char_from(s, ':', 0) {
        None => None,
        Some(i1) => match first_char_from(s, ':', i1 + 1) {
            None => None,
            Some(i2) => if first_char_from(s, ':', i2 + 1) is Some {
                None
            } else {
                match (
                    parse_u64_spec(s.subrange(0, i1)),
                    parse_u64_spec(s.subrange(i1 + 1, i2)),
                    parse_milli_spec(s.subrange(i2 + 1, s.len() as int)),
                ) {
                    (Some(h), Some(m), Some(sec)) => {
                        let total = h * 3600000 + m * 60000 + sec;
                        if total <= u64::MAX {
                            Some(total as u64)
                        } else {
                            None
                        }
                    },
                    _ => None,
                }
            },
        },
    }
}

/// A resolution-part delimiter: the line is cut at commas and spaces.
pub open spec fn is_delim(c: char) -> bool {
    c == ',' || c == ' '
}

/// Index of the first delimiter at or after `from`.
pub open spec fn first_delim_from(s: Seq<char>, from: int) -> Option<int>
    decreases s.len() - from,
{
    if from < 0 {
        first_delim_from(s, 0)
    } else if from >= s.len() {
        None
    } else if is_delim(s[from]) {
        Some(from)
    } else {
        first_delim_from(s, from + 1)
    }
}

proof fn lemma_first_delim_skip(s: Seq<char>, from: int, i: int)
    requires
        0 <= from <= i,
        forall|j: int| from <= j < i ==> !is_delim(s[j]),
    ensures
        first_delim_from(s, from) == first_delim_from(s, i),
    decreases i - from,
{
    if from < i {
        lemma_first_delim_skip(s, from + 1, i);
    }
}

proof fn lemma_first_delim_props(s: Seq<char>, from: int)
    ensures
        match first_delim_from(s, from) {
            Some(i) => (if from < 0 {
                0
            } else {
                from
            }) <= i < s.len() && is_delim(s[i]),
            None => true,
        },
    decreases s.len() - from,
{
    if from < 0 {
        lemma_first_delim_props(s, 0);
    } else if from >= s.len() {
    } else if is_delim(s[from]) {
    } else {
        lemma_first_delim_props(s, from + 1);
    }
}

/// Index of the first delimiter at or after `from`, as the spec says.
fn find_delim_from(s: &str, from: usize) -> (r: Option<usize>)
    requires
        from <= s@.len(),
    ensures
        match r {
            Some(i) => first_delim_from(s@, from as int) == Some(i as int) && from <= i
                < s@.len(),
            None => first_delim_from(s@, from as int) is None,
        },
{
    let n = s.unicode_len();
    let mut i: usize = from;
    while i < n
        invariant
            n == s@.len(),
            from <= i <= n,
            forall|j: int| from <= j < i ==> !is_delim(s@[j]),
        decreases n - i,
    {
        let c = s.get_char(i);
        if c == ',' || c == ' ' {
            proof {
                lemma_first_delim_skip(s@, from as int, i as int);
            }
            return Some(i);
        }
        i += 1;
    }
    proof {
        lemma_first_delim_skip(s@, from as int, i as int);
    }
    None
}

/// Is this part a resolution token: digits, one `x`, digits, with no `@`
/// and no `.` anywhere in it?  Either digit run may be empty.
pub open spec fn res_part(p: Seq<char>) -> bool {
    match first_char_from(p, 'x', 0) {
        None => false,
        Some(x) => first_char_from(p, '@', 0) is None && first_char_from(p, '.', 0) is None
            && all_digits(p.subrange(0, x)) && all_digits(p.subrange(x + 1, p.len() as int)),
    }
}

/// The width and height a resolution part denotes: the digit runs on
/// either side of its first `x`, each worth nothing when empty or out of
/// the 32-bit range.
pub open spec fn dims_of_part(p: Seq<char>) -> (Option<u32>, Option<u32>) {
    match first_char_from(p, 'x', 0) {
        None => (None, None),
        Some(x) => (
            parse_u32_spec(p.subrange(0, x)),
            parse_u32_spec(p.subrange(x + 1, p.len() as int)),
        ),
    }
}

/// The first resolution part of the line, cut at commas and spaces,
/// scanning from `a`.
pub open spec fn scan_res(s: Seq<char>, a: int) -> Option<Seq<char>>
    decreases s.len() - a
        when 0 <= a <= s.len()
        via scan_res_dec
{
    let e = match first_delim_from(s, a) {
        None => s.len() as int,
        Some(d) => d,
    };
    let part = s.subrange(a, e);
    if res_part(part) {
        Some(part)
    } else if e == s.len() {
        None
    } else {
        scan_res(s, e + 1)
    }
}

#[via_fn]
proof fn scan_res_dec(s: Seq<char>, a: int) {
    lemma_first_delim_props(s, a);
}

/// The width and height of the line's first resolution part, if any.
pub open spec fn spec_video_dims(line: Seq<char>) -> (Option<u32>, Option<u32>) {
    match scan_res(line, 0) {
        None => (None, None),
        Some(p) => dims_of_part(p),
    }
}

/// The frame rate named just before the first ` fps` marker: the token
/// between the last space before the marker and the marker itself.
pub open spec fn spec_video_fps(line: Seq<char>) -> Option<u64> {
    match find_sub(line, " fps"@) {
        None => None,
        Some(fp) => match last_char_before(line, ' ', fp) {
            None => None,
            Some(sp) => parse_milli_spec(line.subrange(sp + 1, fp)),
        },
    }
}

/// Everything a video-stream line yields: codec token, and best-effort
/// width, height and frame rate.  Nothing is yielded without a codec.
pub open spec fn spec_extract_video(line: Seq<char>) -> Option<
    (Seq<char>, Option<u32>, Option<u32>, Option<u64>),
> {
    match token_after_marker(line, "Video: "@) {
        None => None,
        Some(c) => Some((c, spec_video_dims(line).0, spec_video_dims(line).1, spec_video_fps(line))),
    }
}

/// The token between a marker and the next space after it, extracted.
fn extract_token_after(line: &str, marker: &str) -> (r: Option<String>)
    ensures
        match r {
            Some(t) => token_after_marker(line@, marker@) == Some(t@),
            None => token_after_marker(line@, marker@) is None,
        },
{
    match find_substr(line, marker) {
        None => None,
        Some(i) => {
            let n = line.unicode_len();
            let ml = marker.unicode_len();
            proof {
                lemma_first_occur_props(line@, marker@, 0);
                assert(i + ml <= n);
            }
            match find_char_from(line, ' ', i + ml) {
                None => None,
                Some(j) => Some(substring(line, i + ml, j)),
            }
        },
    }
}

/// The `H:MM:SS[.fraction]` text after the duration marker, up to the
/// comma that closes it.
pub fn extract_duration_from_line(line: &str) -> (r: Option<String>)
    ensures
        match r {
            Some(t) => spec_extract_duration(line@) == Some(t@),
            None => spec_extract_duration(line@) is None,
        },
{
    match find_substr(line, "Duration: ") {
        None => None,
        Some(i) => {
            let n = line.unicode_len();
            proof {
                lemma_first_occur_props(line@, "Duration: "@, 0);
                reveal_strlit("Duration: ");
                assert(i + 10 <= n);
            }
            match find_char_from(line, ',', i + 10) {
                None => None,
                Some(j) => Some(substring(line, i + 10, j)),
            }
        },
    }
}

/// Convert a clock string to milliseconds, as the spec function says.
pub fn parse_duration(s: &str) -> (r: Option<u64>)
    ensures
        r == spec_parse_duration(s@),
{
    let n = s.unicode_len();
    let i1 = match find_char_from(s, ':', 0) {
        Some(i) => i,
        None => {
            return None;
        },
    };
    let i2 = match find_char_from(s, ':', i1 + 1) {
        Some(i) => i,
        None => {
            return None;
        },
    };
    if let Some(_) = find_char_from(s, ':', i2 + 1) {
        return None;
    }
    let h = match parse_u64_range(s, 0, i1) {
        Some(v) => v,
        None => {
            return None;
        },
    };
    let m = match parse_u64_range(s, i1 + 1, i2) {
        Some(v) => v,
        None => {
            return None;
        },
    };
    let secs = substring(s, i2 + 1, n);
    let sec = match parse_milli(secs.as_str()) {
        Some(v) => v,
        None => {
            return None;
        },
    };
    let total: u128 = (h as u128) * 3600000 + (m as u128) * 60000 + (sec as u128);
    if total <= u64::MAX as u128 {
        Some(total as u64)
    } else {
        None
    }
}

/// Is every character in `[a, b)` of `s` a digit?
fn digits_in_range(s: &str, a: usize, b: usize) -> (r: bool)
    requires
        a <= b <= s@.len(),
    ensures
        r == all_digits(s@.subrange(a as int, b as int)),
{
    let ghost sub = s@.subrange(a as int, b as int);
    let mut i: usize = a;
    while i < b
        invariant
            a <= i <= b <= s@.len(),
            sub == s@.subrange(a as int, b as int),
            all_digits(sub.subrange(0, i - a)),
        decreases b - i,
    {
        let c = s.get_char(i);
        assert(sub[i - a] == c);
        if c < '0' || c > '9' {
            assert(!all_digits(sub));
            return false;
        }
        i += 1;
    }
    proof {
        assert(sub.subrange(0, b - a) =~= sub);
    }
    true
}

/// Read a part as a resolution token, yielding its width and height
/// parses when it qualifies.
fn part_resolution(p: &str) -> (r: Option<(Option<u32>, Option<u32>)>)
    ensures
        r is Some <==> res_part(p@),
        match r {
            Some(wh) => wh == dims_of_part(p@),
            None => true,
        },
{
    let n = p.unicode_len();
    let x = match find_char_from(p, 'x', 0) {
        Some(x) => x,
        None => {
            return None;
        },
    };
    if let Some(_) = find_char_from(p, '@', 0) {
        return None;
    }
    if let Some(_) = find_char_from(p, '.', 0) {
        return None;
    }
    if !digits_in_range(p, 0, x) {
        return None;
    }
    if !digits_in_range(p, x + 1, n) {
        return None;
    }
    let ws = substring(p, 0, x);
    let hs = substring(p, x + 1, n);
    Some((parse_u32(ws.as_str()), parse_u32(hs.as_str())))
}

/// The width and height of the line's first resolution part.
#[verifier::loop_isolation(false)]
fn scan_resolution(line: &str) -> (r: (Option<u32>, Option<u32>))
    ensures
        r == spec_video_dims(line@),
{
    let n = line.unicode_len();
    let mut a: usize = 0;
    loop
        invariant
            a <= n,
            n == line@.len(),
            scan_res(line@, 0) == scan_res(line@, a as int),
        decreases n + 1 - a,
    {
        let e: usize = match find_delim_from(line, a) {
            Some(d) => d,
            None => n,
        };
        let part = substring(line, a, e);
        if let Some(wh) = part_resolution(part.as_str()) {
            return wh;
        }
        if e == n {
            return (None, None);
        }
        a = e + 1;
    }
}

/// The frame rate token just before the first ` fps` marker.
fn extract_fps(line: &str) -> (r: Option<u64>)
    ensures
        r == spec_video_fps(line@),
{
    match find_substr(line, " fps") {
        None => None,
        Some(fp) => {
            match rfind_char_before(line, ' ', fp) {
                None => None,
                Some(sp) => {
                    let tok = substring(line, sp + 1, fp);
                    parse_milli(tok.as_str())
                },
            }
        },
    }
}

/// Codec, width, height and frame rate of a video-stream line.
pub fn extract_video_info_from_line(line: &str) -> (r: Option<
    (String, Option<u32>, Option<u32>, Option<u64>),
>)
    ensures
        match r {
            Some(t) => spec_extract_video(line@) == Some((t.0@, t.1, t.2, t.3)),
            None => spec_extract_video(line@) is None,
        },
{
    match extract_token_after(line, "Video: ") {
        None => None,
        Some(codec) => {
            let (w, h) = scan_resolution(line);
            let fps = extract_fps(line);
            Some((codec, w, h, fps))
        },
    }
}

/// The codec token of an audio-stream line.
pub fn extract_audio_codec_from_line(line: &str) -> (r: Option<String>)
    ensures
        match r {
            Some(t) => token_after_marker(line@, "Audio: "@) == Some(t@),
            None => token_after_marker(line@, "Audio: "@) is None,
        },
{
    extract_token_after(line, "Audio: ")
}

/// The bitrate token after the bitrate marker, as reported, unit suffix
/// and all.
pub fn extract_bitrate_from_line(line: &str) -> (r: Option<String>)
    ensures
        match r {
            Some(t) => token_after_marker(line@, "bitrate: "@) == Some(t@),
            None => token_after_marker(line@, "bitrate: "@) is None,
        },
{
    extract_token_after(line, "bitrate: ")
}

/// One diagnostic line folded into the record: duration lines, stream
/// lines and bitrate lines each overwrite their fields, in this order.
pub open spec fn apply_diag_line(m: MediaInfoV, line: Seq<char>) -> MediaInfoV {
    let m1 = if contains_sub(line, "Duration:"@) {
        match spec_extract_duration(line) {
            Some(d) => MediaInfoV { duration_ms: spec_parse_duration(d), ..m },
            None => m,
        }
    } else {
        m
    };
    let m2 = if contains_sub(line, "Stream"@) && contains_sub(line, "Video:"@) {
        match spec_extract_video(line) {
            Some(v) => MediaInfoV {
                video_codec: Some(v.0),
                width: v.1,
                height: v.2,
                fps_milli: v.3,
                ..m1
            },
            None => m1,
        }
    } else {
        m1
    };
    let m3 = if contains_sub(line, "Stream"@) && contains_sub(line, "Audio:"@) {
        match token_after_marker(line, "Audio: "@) {
            Some(c) => MediaInfoV { audio_codec: Some(c), ..m2 },
            None => m2,
        }
    } else {
        m2
    };
    if contains_sub(line, "bitrate:"@) {
        match token_after_marker(line, "bitrate: "@) {
            Some(b) => MediaInfoV { bitrate: Some(b), ..m3 },
            None => m3,
        }
    } else {
        m3
    }
}

/// A line with a trailing carriage return loses it.
pub open spec fn strip_cr(l: Seq<char>) -> Seq<char> {
    if l.len() > 0 && l[l.len() - 1] == '\r' {
        l.drop_last()
    } else {
        l
    }
}

/// The lines of `s` from position `a` on: cut at every line feed, each
/// line stripped of one trailing carriage return, no final empty line.
pub open spec fn lines_from(s: Seq<char>, a: int) -> Seq<Seq<char>>
    decreases s.len() - a
        when 0 <= a <= s.len()
        via lines_from_dec
{
    if a == s.len() {
        Seq::empty()
    } else {
        match first_char_from(s, '\n', a) {
            None => seq![strip_cr(s.subrange(a, s.len() as int))],
            Some(j) => seq![strip_cr(s.subrange(a, j))] + lines_from(s, j + 1),
        }
    }
}

#[via_fn]
proof fn lines_from_dec(s: Seq<char>, a: int) {
    lemma_first_char_props(s, '\n', a);
}

/// The lines of the whole text.
pub open spec fn spec_lines(s: Seq<char>) -> Seq<Seq<char>> {
    lines_from(s, 0)
}

/// The record that a run of lines folds to, starting from `m0`.
pub open spec fn fold_lines(m0: MediaInfoV, lines: Seq<Seq<char>>) -> MediaInfoV
    decreases lines.len(),
{
    if lines.len() == 0 {
        m0
    } else {
        fold_lines(apply_diag_line(m0, lines[0]), lines.drop_first())
    }
}

/// The record that a whole diagnostic text denotes.
pub open spec fn media_info_of(text: Seq<char>) -> MediaInfoV {
    fold_lines(empty_media_info(), spec_lines(text))
}

/// One line folded into the record, as `apply_diag_line` says.
fn apply_line(m: MediaInfo, line: &str) -> (r: MediaInfo)
    ensures
        r@ == apply_diag_line(m@, line@),
{
    let mut m = m;
    if contains_str(line, "Duration:") {
        if let Some(d) = extract_duration_from_line(line) {
            m.duration_ms = parse_duration(d.as_str());
        }
    }
    if contains_str(line, "Stream") && contains_str(line, "Video:") {
        if let Some(v) = extract_video_info_from_line(line) {
            let (codec, w, h, fps) = v;
            m.video_codec = Some(codec);
            m.width = w;
            m.height = h;
            m.fps_milli = fps;
        }
    }
    if contains_str(line, "Stream") && contains_str(line, "Audio:") {
        if let Some(c) = extract_audio_codec_from_line(line) {
            m.audio_codec = Some(c);
        }
    }
    if contains_str(line, "bitrate:") {
        if let Some(b) = extract_bitrate_from_line(line) {
            m.bitrate = Some(b);
        }
    }
    m
}

/// Scan a whole diagnostic capture into a `MediaInfo`, line by line.
/// Later matching lines overwrite earlier ones for the same field; the
/// file size is never set from text.
#[verifier::loop_isolation(false)]
#[verifier::rlimit(60)]
pub fn parse_media_info(text: &str) -> (m: MediaInfo)
    ensures
        m@ == media_info_of(text@),
{
    let n = text.unicode_len();
    let mut m = MediaInfo::empty();
    let mut a: usize = 0;
    while a < n
        invariant
            a <= n,
            media_info_of(text@) == fold_lines(m@, lines_from(text@, a as int)),
        decreases n - a,
    {
        let e: usize = match find_char_from(text, '\n', a) {
            Some(j) => j,
            None => n,
        };
        // the line, with one trailing carriage return stripped
        let line = if e > a && text.get_char(e - 1) == '\r' {
            proof {
                assert(text@.subrange(a as int, e as int).drop_last() =~= text@.subrange(
                    a as int,
                    e - 1,
                ));
            }
            substring(text, a, e - 1)
        } else {
            substring(text, a, e)
        };
        assert(line@ == strip_cr(text@.subrange(a as int, e as int)));
        let ghost prev = m@;
        m = apply_line(m, line.as_str());
        proof {
            let rest = lines_from(text@, a as int);
            if e < n {
                assert(rest == seq![strip_cr(text@.subrange(a as int, e as int))] + lines_from(
                    text@,
                    e + 1,
                ));
                assert(rest.drop_first() =~= lines_from(text@, e + 1));
            } else {
                assert(rest == seq![strip_cr(text@.subrange(a as int, e as int))]);
                assert(rest.drop_first() =~= lines_from(text@, n as int));
            }
            assert(rest[0] == line@);
            assert(fold_lines(prev, rest) == fold_lines(m@, rest.drop_first()));
        }
        if e == n {
            return m;
        }
        a = e + 1;
    }
    m
}

} // verus!
