//! Progress line parser: decodes one line of whitespace-separated
//! `key=value` tokens from the transcoder's machine-oriented progress
//! stream into a typed record.
//!
//! Unrecognized keys are ignored, malformed values leave their field
//! unset, and a line carrying neither a frame count nor a phase token
//! yields no record at all.  The percentage is derived, in thousandths
//! of a percent, when both the elapsed output time and a total duration
//! are known.

use vstd::prelude::*;

verus! {

use vstd::string::StrSliceExecFns;
use crate::text::first_char_from;
use crate::text::find_char_from;
use crate::text::str_eq;
use crate::text::substring;
use crate::num::parse_u64_spec;
use crate::num::parse_milli_spec;
use crate::num::parse_u64;
use crate::num::parse_milli;

/// One decoded progress report.  Rates and the percentage are fixed
/// point in thousandths; the elapsed output time is in microseconds as
/// reported; the phase token (`continue` or `end`) is kept verbatim.
#[derive(Clone, Debug)]
pub struct ConversionProgress {
    pub frame: Option<u64>,
    pub fps_milli: Option<u64>,
    pub bitrate: Option<String>,
    pub total_size: Option<u64>,
    pub out_time_us: Option<u64>,
    pub speed_milli: Option<u64>,
    pub progress: Option<String>,
    pub percent_milli: Option<u64>,
}

/// The mathematical value of a `ConversionProgress`.
pub struct ProgressV {
    pub frame: Option<u64>,
    pub fps_milli: Option<u64>,
    pub bitrate: Option<Seq<char>>,
    pub total_size: Option<u64>,
    pub out_time_us: Option<u64>,
    pub speed_milli: Option<u64>,
    pub progress: Option<Seq<char>>,
    pub percent_milli: Option<u64>,
}

impl View for ConversionProgress {
    type V = ProgressV;

    open spec fn view(&self) -> ProgressV {
        ProgressV {
            frame: self.frame,
            fps_milli: self.fps_milli,
            bitrate: self.bitrate.deep_view(),
            total_size: self.total_size,
            out_time_us: self.out_time_us,
            speed_milli: self.speed_milli,
            progress: self.progress.deep_view(),
            percent_milli: self.percent_milli,
        }
    }
}

/// A report with every field unset.
pub open spec fn empty_progress() -> ProgressV {
    ProgressV {
        frame: None,
        fps_milli: None,
        bitrate: None,
        total_size: None,
        out_time_us: None,
        speed_milli: None,
        progress: None,
        percent_milli: None,
    }
}

/// ASCII whitespace, the separator between progress tokens.
pub open spec fn is_space(c: char) -> bool {
    c == ' ' || c == '\t' || c == '\n' || c == '\r' || c == '\u{b}' || c == '\u{c}'
}

/// Index of the first whitespace character at or after `from`.
pub open spec fn first_space_from(s: Seq<char>, from: int) -> Option<int>
    decreases s.len() - from,
{
    if from < 0 {
        first_space_from(s, 0)
    } else if from >= s.len() {
        None
    } else if is_space(s[from]) {
        Some(from)
    } else {
        first_space_from(s, from + 1)
    }
}

proof fn lemma_first_space_skip(s: Seq<char>, from: int, i: int)
    requires
        0 <= from <= i,
        forall|j: int| from <= j < i ==> !is_space(s[j]),
    ensures
        first_space_from(s, from) == first_space_from(s, i),
    decreases i - from,
{
    if from < i {
        lemma_first_space_skip(s, from + 1, i);
    }
}

proof fn lemma_first_space_props(s: Seq<char>, from: int)
    ensures
        match first_space_from(s, from) {
            Some(i) => (if from < 0 {
                0
            } else {
                from
            }) <= i < s.len() && is_space(s[i]),
            None => true,
        },
    decreases s.len() - from,
{
    if from < 0 {
        lemma_first_space_props(s, 0);
    } else if from >= s.len() {
    } else if is_space(s[from]) {
    } else {
        lemma_first_space_props(s, from + 1);
    }
}

/// Index of the first whitespace character at or after `from`, as the
/// spec says.
fn find_space_from(s: &str, from: usize) -> (r: Option<usize>)
    requires
        from <= s@.len(),
    ensures
        match r {
            Some(i) => first_space_from(s@, from as int) == Some(i as int) && from <= i
                < s@.len(),
            None => first_space_from(s@, from as int) is None,
        },
{
    let n = s.unicode_len();
    let mut i: usize = from;
    while i < n
        invariant
            n == s@.len(),
            from <= i <= n,
            forall|j: int| from <= j < i ==> !is_space(s@[j]),
        decreases n - i,
    {
        let c = s.get_char(i);
        if c == ' ' || c == '\t' || c == '\n' || c == '\r' || c == '\u{b}' || c == '\u{c}' {
            proof {
                lemma_first_space_skip(s@, from as int, i as int);
            }
            return Some(i);
        }
        i += 1;
    }
    proof {
        lemma_first_space_skip(s@, from as int, i as int);
    }
    None
}

/// `v` with every trailing `x` removed: the speed value is reported with
/// an `x` suffix.
pub open spec fn strip_trailing_x(v: Seq<char>) -> Seq<char>
    decreases v.len(),
{
    if v.len() > 0 && v[v.len() - 1] == 'x' {
        strip_trailing_x(v.drop_last())
    } else {
        v
    }
}

proof fn lemma_strip_x(v: Seq<char>, t: int)
    requires
        0 <= t <= v.len(),
        forall|j: int| t <= j < v.len() ==> v[j] == 'x',
        t > 0 ==> v[t - 1] != 'x',
    ensures
        strip_trailing_x(v) == v.subrange(0, t),
    decreases v.len(),
{
    if v.len() > t {
        assert(v[v.len() - 1] == 'x');
        assert(forall|j: int| t <= j < v.drop_last().len() ==> v.drop_last()[j] == 'x');
        assert(t > 0 ==> v.drop_last()[t - 1] != 'x');
        lemma_strip_x(v.drop_last(), t);
        assert(v.drop_last().subrange(0, t) =~= v.subrange(0, t));
    } else {
        assert(v.subrange(0, t) =~= v);
    }
}

fn strip_x(v: &str) -> (r: String)
    ensures
        r@ == strip_trailing_x(v@),
{
    let n = v.unicode_len();
    let mut t: usize = n;
    while t > 0 && v.get_char(t - 1) == 'x'
        invariant
            t <= n,
            n == v@.len(),
            forall|j: int| t <= j < n ==> v@[j] == 'x',
        decreases t,
    {
        t -= 1;
    }
    proof {
        lemma_strip_x(v@, t as int);
    }
    substring(v, 0, t)
}

/// The derived completion percentage in thousandths of a percent:
/// elapsed microseconds over total milliseconds, clamped to one hundred
/// percent, and one hundred percent when no time has to pass at all.
pub open spec fn percent_milli_of(out_us: int, dur_ms: int) -> u64 {
    if dur_ms <= 0 {
        100000u64
    } else if out_us * 100 / dur_ms > 100000 {
        100000u64
    } else {
        (out_us * 100 / dur_ms) as u64
    }
}

fn percent_exec(us: u64, d: u64) -> (r: u64)
    ensures
        r == percent_milli_of(us as int, d as int),
        r <= 100000,
{
    if d == 0 {
        return 100000;
    }
    let q: u128 = (us as u128) * 100 / (d as u128);
    if q > 100000 {
        100000
    } else {
        q as u64
    }
}

/// One `key=value` token folded into the report.  `frame`, `fps`,
/// `total_size` and `out_time_us` overwrite their field with the parse
/// of the value; `bitrate` and `progress` keep the value verbatim;
/// `speed` is taken only when its `x`-stripped value parses; a
/// `progress` token also derives the percentage when the elapsed time
/// and the total duration are both at hand.  Anything else is ignored.
pub open spec fn apply_token(p: ProgressV, tok: Seq<char>, dur: Option<u64>) -> ProgressV {
    match first_char_from(tok, '=', 0) {
        None => p,
        Some(eq) => {
            let key = tok.subrange(0, eq);
            let val = tok.subrange(eq + 1, tok.len() as int);
            if key == "frame"@ {
                ProgressV { frame: parse_u64_spec(val), ..p }
            } else if key == "fps"@ {
                ProgressV { fps_milli: parse_milli_spec(val), ..p }
            } else if key == "bitrate"@ {
                ProgressV { bitrate: Some(val), ..p }
            } else if key == "total_size"@ {
                ProgressV { total_size: parse_u64_spec(val), ..p }
            } else if key == "out_time_us"@ {
                ProgressV { out_time_us: parse_u64_spec(val), ..p }
            } else if key == "speed"@ {
                match parse_milli_spec(strip_trailing_x(val)) {
                    Some(v) => ProgressV { speed_milli: Some(v), ..p },
                    None => p,
                }
            } else if key == "progress"@ {
                let p2 = ProgressV { progress: Some(val), ..p };
                match (p.out_time_us, dur) {
                    (Some(us), Some(d)) => ProgressV {
                        percent_milli: Some(percent_milli_of(us as int, d as int)),
                        ..p2
                    },
                    _ => p2,
                }
            } else {
                p
            }
        },
    }
}

/// The report that the tokens of `s` from position `a` on fold to,
/// starting from `p`.
pub open spec fn fold_tokens(p: ProgressV, s: Seq<char>, a: int, dur: Option<u64>) -> ProgressV
    decreases s.len() - a
        when 0 <= a <= s.len()
        via fold_tokens_dec
{
    if a == s.len() {
        p
    } else if is_space(s[a]) {
        fold_tokens(p, s, a + 1, dur)
    } else {
        let e = match first_space_from(s, a) {
            None => s.len() as int,
            Some(j) => j,
        };
        fold_tokens(apply_token(p, s.subrange(a, e), dur), s, e, dur)
    }
}

#[via_fn]
proof fn fold_tokens_dec(p: ProgressV, s: Seq<char>, a: int, dur: Option<u64>) {
    lemma_first_space_props(s, a);
}

/// The report a whole line folds to.
pub open spec fn line_progress(line: Seq<char>, dur: Option<u64>) -> ProgressV {
    fold_tokens(empty_progress(), line, 0, dur)
}

/// What the parser yields for a line: the folded report, or nothing
/// when the line carried neither a frame count nor a phase token.
pub open spec fn spec_parse_progress(line: Seq<char>, dur: Option<u64>) -> Option<ProgressV> {
    let p = line_progress(line, dur);
    if p.frame is Some || p.progress is Some {
        Some(p)
    } else {
        None
    }
}

impl ConversionProgress {
    /// A report with every field unset.
    pub fn empty() -> (p: ConversionProgress)
        ensures
            p@ == empty_progress(),
    {
        ConversionProgress {
            frame: None,
            fps_milli: None,
            bitrate: None,
            total_size: None,
            out_time_us: None,
            speed_milli: None,
            progress: None,
            percent_milli: None,
        }
    }
}

/// One token folded into the report, as `apply_token` says.
fn apply_token_exec(p: ConversionProgress, tok: &str, dur: Option<u64>) -> (r: ConversionProgress)
    ensures
        r@ == apply_token(p@, tok@, dur),
{
    let n = tok.unicode_len();
    let eq = match find_char_from(tok, '=', 0) {
        Some(e) => e,
        None => {
            return p;
        },
    };
    let key = substring(tok, 0, eq);
    let val = substring(tok, eq + 1, n);
    let mut p = p;
    if str_eq(key.as_str(), "frame") {
        p.frame = parse_u64(val.as_str());
    } else if str_eq(key.as_str(), "fps") {
        p.fps_milli = parse_milli(val.as_str());
    } else if str_eq(key.as_str(), "bitrate") {
        p.bitrate = Some(val);
    } else if str_eq(key.as_str(), "total_size") {
        p.total_size = parse_u64(val.as_str());
    } else if str_eq(key.as_str(), "out_time_us") {
        p.out_time_us = parse_u64(val.as_str());
    } else if str_eq(key.as_str(), "speed") {
        let stripped = strip_x(val.as_str());
        if let Some(v) = parse_milli(stripped.as_str()) {
            p.speed_milli = Some(v);
        }
    } else if str_eq(key.as_str(), "progress") {
        let had_us = p.out_time_us;
        p.progress = Some(val);
        if let Some(us) = had_us {
            if let Some(d) = dur {
                p.percent_milli = Some(percent_exec(us, d));
            }
        }
    }
    p
}

/// Decode one progress line against an optional total duration in
/// milliseconds.  Yields a report exactly when the line carries a
/// `frame` or a `progress` token; every field of the report is as the
/// token fold says.
#[verifier::loop_isolation(false)]
pub fn parse_progress_line(line: &str, total_duration_ms: Option<u64>) -> (r: Option<
    ConversionProgress,
>)
    ensures
        match r {
            Some(p) => spec_parse_progress(line@, total_duration_ms) == Some(p@),
            None => spec_parse_progress(line@, total_duration_ms) is None,
        },
        r is Some <==> (line_progress(line@, total_duration_ms).frame is Some || line_progress(
            line@,
            total_duration_ms,
        ).progress is Some),
{
    let n = line.unicode_len();
    let mut p = ConversionProgress::empty();
    let mut a: usize = 0;
    while a < n
        invariant
            a <= n,
            line_progress(line@, total_duration_ms) == fold_tokens(
                p@,
                line@,
                a as int,
                total_duration_ms,
            ),
        decreases n - a,
    {
        let c = line.get_char(a);
        if c == ' ' || c == '\t' || c == '\n' || c == '\r' || c == '\u{b}' || c == '\u{c}' {
            a += 1;
        } else {
            proof {
                lemma_first_space_props(line@, a as int);
            }
            let e: usize = match find_space_from(line, a) {
                Some(j) => j,
                None => n,
            };
            let tok = substring(line, a, e);
            p = apply_token_exec(p, tok.as_str(), total_duration_ms);
            a = e;
        }
    }
    if p.frame.is_some() || p.progress.is_some() {
        Some(p)
    } else {
        None
    }
}

} // verus!
