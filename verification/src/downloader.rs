//! The driver of the external media extractor: what it is called with, how
//! its progress lines are read, and what of them is shown.
use vstd::prelude::*;
use crate::download_router::{DecisionView, RoutingDecision};
use crate::snde::{format_speed, spec_format_speed, ProgressStatus};
use crate::text::{
    all_digits, chars_of, contains, find, is_digit, is_text, next_char, next_in_class, parse_u64,
    push_str, slice_chars, spec_contains, spec_digit_value, spec_digits_value, spec_find,
    spec_is_digit, spec_next_char, spec_next_in_class, spec_trim, string_of, texts, trim, CharClass,
};
use crate::urls::{last_segment, parse_url, spec_last_segment, spec_url_parts};

verus! {

/// Progress shown while a download is not finished never exceeds this:
/// 99.00 %.
pub const MAX_RUNNING_PROGRESS: u32 = 9900;

/// Progress shown during post-processing is at least this: 90.00 %.
pub const MIN_POSTPROCESS_PROGRESS: u32 = 9000;

/// A drop from at least this progress ...
pub const RESET_FROM: u32 = 8500;

/// ... to at most this progress is the start of a new stream.
pub const RESET_TO: u32 = 500;

/// Events are at least this many milliseconds apart, unless something
/// changed materially.
pub const MIN_EMIT_INTERVAL_MS: u64 = 180;

/// A change of progress of one percentage point is material.
pub const MATERIAL_PROGRESS_STEP: u32 = 100;

/// A change of speed by a tenth is material.
pub const MATERIAL_SPEED_DIVISOR: u64 = 10;

/// A change of the time left by five seconds is material.
pub const MATERIAL_ETA_STEP: u64 = 5;

/// One progress event of a download by the extractor.
#[derive(Debug, Clone)]
pub struct DownloadProgress {
    pub id: String,
    /// Hundredths of a percent, `0..=10000`.
    pub progress: u32,
    pub speed: String,
    pub eta: String,
    pub status: ProgressStatus,
    pub downloaded_bytes: Option<i64>,
    pub total_bytes: Option<i64>,
    pub filename: Option<String>,
    pub engine_badge: Option<String>,
}

/// The number that `s` writes with up to two decimals, in hundredths:
/// digits, then optionally a dot and digits, at least one digit in all.
/// Decimals beyond the second are dropped.
pub open spec fn spec_fixed2_value(s: Seq<char>) -> Option<nat> {
    let dot = spec_next_char(s, '.', 0);
    let whole = s.take(dot);
    let frac = if dot < s.len() {
        s.skip(dot + 1)
    } else {
        Seq::empty()
    };
    if all_digits(whole) && all_digits(frac) && whole.len() + frac.len() > 0 {
        let tenths = if frac.len() > 0 {
            spec_digit_value(frac[0])
        } else {
            0
        };
        let hundredths = if frac.len() > 1 {
            spec_digit_value(frac[1])
        } else {
            0
        };
        Some((spec_digits_value(whole) * 100 + tenths * 10 + hundredths) as nat)
    } else {
        None
    }
}

/// The percentage that `s` writes, in hundredths of a percent, held inside
/// `[0, 99.00 %]`: a leading `-` makes it 0.
pub open spec fn spec_percent_value(s: Seq<char>) -> Option<u32> {
    let negative = s.len() > 0 && s[0] == '-';
    let body = if negative {
        s.skip(1)
    } else {
        s
    };
    match spec_fixed2_value(body) {
        None => None,
        Some(v) => if negative {
            Some(0)
        } else if v > MAX_RUNNING_PROGRESS {
            Some(MAX_RUNNING_PROGRESS)
        } else {
            Some(v as u32)
        },
    }
}

/// `c` can stand in a number: a digit, the dot or the minus sign.
pub open spec fn spec_is_number_char(c: char) -> bool {
    spec_is_digit(c) || c == '.' || c == '-'
}

/// The characters of `s` that can stand in a number.
pub open spec fn spec_number_chars(s: Seq<char>) -> Seq<char> {
    s.filter(|c: char| spec_is_number_char(c))
}

/// `s` without any `needle`, searched from the left.
pub open spec fn spec_remove_all(s: Seq<char>, needle: Seq<char>) -> Seq<char>
    decreases s.len(),
{
    if needle.len() == 0 {
        s
    } else {
        match spec_find(s, needle) {
            Some(i) => if 0 <= i && i + needle.len() <= s.len() {
                s.take(i) + spec_remove_all(s.skip(i + needle.len()), needle)
            } else {
                s
            },
            None => s,
        }
    }
}

/// A field of a progress line as it is shown: without surrounding white
/// space and without `N/A`.
pub open spec fn spec_shown_field(field: Seq<char>) -> Seq<char> {
    spec_remove_all(spec_trim(field), "N/A"@)
}

/// What one line of the extractor's output says.
pub enum ExtractorLine {
    /// Progress of the download: hundredths of a percent, speed, time left.
    Progress(u32, String, String),
    /// A post-processing step is running.
    PostProcessing,
    /// Anything else.
    Other,
}

/// The mathematical content of an `ExtractorLine`.
pub enum LineView {
    Progress(u32, Seq<char>, Seq<char>),
    PostProcessing,
    Other,
}

impl View for ExtractorLine {
    type V = LineView;

    open spec fn view(&self) -> LineView {
        match self {
            ExtractorLine::Progress(p, s, e) => LineView::Progress(*p, s@, e@),
            ExtractorLine::PostProcessing => LineView::PostProcessing,
            ExtractorLine::Other => LineView::Other,
        }
    }
}

/// A line of the progress template, `percent|speed|eta|...`: its first
/// three fields, read as progress, speed and time left. A line with fewer
/// than three fields, or whose first field holds no number, is none.
pub open spec fn spec_template_line(line: Seq<char>) -> Option<LineView> {
    let b0 = spec_next_char(line, '|', 0);
    if b0 >= line.len() {
        None
    } else {
        let b1 = spec_next_char(line, '|', b0 + 1);
        if b1 >= line.len() {
            None
        } else {
            let b2 = spec_next_char(line, '|', b1 + 1);
            match spec_percent_value(spec_number_chars(line.subrange(0, b0))) {
                None => None,
                Some(p) => Some(
                    LineView::Progress(
                        p,
                        spec_shown_field(line.subrange(b0 + 1, b1)),
                        spec_shown_field(line.subrange(b1 + 1, b2)),
                    ),
                ),
            }
        }
    }
}

/// The first word of `s` at or after `from` that ends with `%`, without
/// that sign. Words stand between white space.
pub open spec fn spec_percent_word(s: Seq<char>, from: int) -> Option<Seq<char>>
    decreases s.len() - from,
{
    if from >= s.len() || from < 0 {
        None
    } else {
        let start = spec_next_in_class(s, CharClass::NotSpace, from);
        let end = spec_next_in_class(s, CharClass::Space, start);
        if start >= s.len() || end <= start || start < from || end > s.len() {
            None
        } else if s[end - 1] == '%' {
            Some(s.subrange(start, end - 1))
        } else {
            spec_percent_word(s, end)
        }
    }
}

/// The word that follows the first `key` in `s`; empty where `key` does not
/// occur.
pub open spec fn spec_word_after(s: Seq<char>, key: Seq<char>) -> Seq<char> {
    match spec_find(s, key) {
        Some(i) => if 0 <= i && i + key.len() <= s.len() {
            let rest = s.skip(i + key.len());
            let start = spec_next_in_class(rest, CharClass::NotSpace, 0);
            rest.subrange(start, spec_next_in_class(rest, CharClass::Space, start))
        } else {
            Seq::empty()
        },
        None => Seq::empty(),
    }
}

/// A line of the extractor's plain progress output,
/// `[download]  50.0% of 100MiB at 10MiB/s ETA 00:05`.
pub open spec fn spec_plain_line(line: Seq<char>) -> Option<LineView> {
    if !spec_contains(line, "[download]"@) {
        None
    } else {
        match spec_percent_word(line, 0) {
            None => None,
            Some(word) => match spec_percent_value(word) {
                None => None,
                Some(p) => Some(
                    LineView::Progress(
                        p,
                        spec_word_after(line, "at "@),
                        spec_word_after(line, "ETA "@),
                    ),
                ),
            },
        }
    }
}

/// The marks by which the extractor announces a post-processing step:
/// merging, audio extraction, the embedding of thumbnail, subtitles and
/// metadata, and any other run of the converter.
pub open spec fn spec_is_postprocessing(line: Seq<char>) -> bool {
    spec_contains(line, "[Merger]"@) || spec_contains(line, "[ExtractAudio]"@) || spec_contains(
        line,
        "[EmbedThumbnail]"@,
    ) || spec_contains(line, "[EmbedSubtitle]"@) || spec_contains(line, "[Metadata]"@)
        || spec_contains(line, "[ffmpeg]"@)
}

/// What a line says: progress by the template, else progress in plain
/// form, else a post-processing step, else nothing of interest.
pub open spec fn spec_classify_line(line: Seq<char>) -> LineView {
    match spec_template_line(line) {
        Some(p) => p,
        None => match spec_plain_line(line) {
            Some(p) => p,
            None => if spec_is_postprocessing(line) {
                LineView::PostProcessing
            } else {
                LineView::Other
            },
        },
    }
}

/// Whether every character of `s` is a decimal digit.
pub fn is_all_digits(s: &Vec<char>) -> (b: bool)
    ensures
        b == all_digits(s@),
{
    let mut i: usize = 0;
    while i < s.len()
        invariant
            i <= s.len(),
            forall|j: int| 0 <= j < i ==> spec_is_digit(#[trigger] s@[j]),
        decreases s.len() - i,
    {
        if !is_digit(s[i]) {
            return false;
        }
        i += 1;
    }
    true
}

/// The value of a digit.
fn digit_value(c: char) -> (v: u64)
    requires
        spec_is_digit(c),
    ensures
        v == spec_digit_value(c),
        v <= 9,
{
    (c as u32 - '0' as u32) as u64
}

/// The number that `s` writes with up to two decimals, in hundredths, held
/// at the top of `u64`.
pub fn fixed2_value(s: &Vec<char>) -> (v: Option<u64>)
    ensures
        v is Some == spec_fixed2_value(s@) is Some,
        v is Some ==> v->0 == (if spec_fixed2_value(s@)->0 > u64::MAX {
            u64::MAX as nat
        } else {
            spec_fixed2_value(s@)->0
        }),
{
    let dot = next_char(s, '.', 0);
    let whole = slice_chars(s, 0, dot);
    let frac = if dot < s.len() {
        slice_chars(s, dot + 1, s.len())
    } else {
        Vec::new()
    };
    proof {
        assert(s@.take(dot as int) =~= s@.subrange(0, dot as int));
        if dot < s@.len() {
            assert(s@.skip(dot + 1) =~= s@.subrange(dot + 1, s@.len() as int));
        }
    }
    if !(is_all_digits(&whole) && is_all_digits(&frac) && whole.len() + frac.len() > 0) {
        return None;
    }
    let tenths: u64 = if frac.len() > 0 {
        digit_value(frac[0])
    } else {
        0
    };
    let hundredths: u64 = if frac.len() > 1 {
        digit_value(frac[1])
    } else {
        0
    };
    let small: u64 = tenths * 10 + hundredths;
    let whole_value: Option<u64> = if whole.len() == 0 {
        proof {
            assert(spec_digits_value(whole@) == 0);
        }
        Some(0)
    } else {
        parse_u64(&whole)
    };
    proof {
        if whole@.len() > 0 {
            assert(whole@[0] != '+');
        }
    }
    match whole_value {
        Some(w) => {
            if w > (u64::MAX - small) / 100 {
                Some(u64::MAX)
            } else {
                Some(w * 100 + small)
            }
        },
        None => Some(u64::MAX),
    }
}

/// The percentage that `s` writes, in hundredths of a percent.
pub fn percent_value(s: &Vec<char>) -> (v: Option<u32>)
    ensures
        v == spec_percent_value(s@),
{
    let negative = s.len() > 0 && s[0] == '-';
    let body = if negative {
        slice_chars(s, 1, s.len())
    } else {
        slice_chars(s, 0, s.len())
    };
    proof {
        assert(s@.skip(1) =~= s@.subrange(1, s@.len() as int)) by {
            if s@.len() > 0 {
            }
        }
        assert(s@.subrange(0, s@.len() as int) =~= s@);
    }
    match fixed2_value(&body) {
        None => None,
        Some(v) => if negative {
            Some(0)
        } else if v > MAX_RUNNING_PROGRESS as u64 {
            Some(MAX_RUNNING_PROGRESS)
        } else {
            Some(v as u32)
        },
    }
}

/// The characters of `s` that can stand in a number.
pub fn number_chars(s: &Vec<char>) -> (out: Vec<char>)
    ensures
        out@ == spec_number_chars(s@),
{
    let mut out: Vec<char> = Vec::new();
    let ghost keep = |c: char| spec_is_number_char(c);
    let mut i: usize = 0;
    proof {
        reveal(Seq::filter);
        assert(s@.take(0).filter(keep) =~= Seq::<char>::empty());
    }
    while i < s.len()
        invariant
            i <= s.len(),
            keep == (|c: char| spec_is_number_char(c)),
            out@ == s@.take(i as int).filter(keep),
        decreases s.len() - i,
    {
        let c = s[i];
        proof {
            reveal(Seq::filter);
            assert(s@.take(i + 1).drop_last() =~= s@.take(i as int));
            assert(s@.take(i + 1).last() == c);
        }
        if is_digit(c) || c == '.' || c == '-' {
            out.push(c);
        }
        i += 1;
    }
    proof {
        assert(s@.take(i as int) =~= s@);
    }
    out
}

/// `s` without any `needle`.
pub fn remove_all(s: &Vec<char>, needle: &Vec<char>) -> (out: Vec<char>)
    ensures
        out@ == spec_remove_all(s@, needle@),
    decreases s@.len(),
{
    if needle.len() == 0 {
        return slice_chars(s, 0, s.len());
    }
    match find(s, needle) {
        Some(i) => {
            let mut out = slice_chars(s, 0, i);
            let rest = slice_chars(s, i + needle.len(), s.len());
            let tail = remove_all(&rest, needle);
            crate::text::push_chars(&mut out, &tail);
            proof {
                assert(s@.take(i as int) =~= s@.subrange(0, i as int));
                assert(s@.skip(i + needle@.len()) =~= s@.subrange(
                    i + needle@.len(),
                    s@.len() as int,
                ));
            }
            out
        },
        None => {
            proof {
                assert(s@.subrange(0, s@.len() as int) =~= s@);
            }
            slice_chars(s, 0, s.len())
        },
    }
}

/// A field of a progress line as it is shown.
pub fn shown_field(field: &Vec<char>) -> (out: String)
    ensures
        out@ == spec_shown_field(field@),
{
    let t = trim(field);
    let na = chars_of("N/A");
    let cleaned = remove_all(&t, &na);
    string_of(&cleaned)
}

/// The word that follows the first `key` in `s`.
pub fn word_after(s: &Vec<char>, key: &str) -> (out: String)
    ensures
        out@ == spec_word_after(s@, key@),
{
    let k = chars_of(key);
    match find(s, &k) {
        Some(i) => {
            let rest = slice_chars(s, i + k.len(), s.len());
            let start = next_in_class(&rest, CharClass::NotSpace, 0);
            let end = next_in_class(&rest, CharClass::Space, start);
            proof {
                assert(s@.skip(i + k@.len()) =~= s@.subrange(i + k@.len(), s@.len() as int));
            }
            let word = slice_chars(&rest, start, end);
            string_of(&word)
        },
        None => String::new(),
    }
}

/// Reads a line of the progress template.
pub fn parse_progress_template(line: &str) -> (out: Option<ExtractorLine>)
    ensures
        out is Some == spec_template_line(line@) is Some,
        out is Some ==> out->0@ == spec_template_line(line@)->0,
{
    let l = chars_of(line);
    let b0 = next_char(&l, '|', 0);
    if b0 >= l.len() {
        return None;
    }
    let b1 = next_char(&l, '|', b0 + 1);
    if b1 >= l.len() {
        return None;
    }
    let b2 = next_char(&l, '|', b1 + 1);
    let first = slice_chars(&l, 0, b0);
    let digits = number_chars(&first);
    match percent_value(&digits) {
        None => None,
        Some(p) => {
            let speed = slice_chars(&l, b0 + 1, b1);
            let eta = slice_chars(&l, b1 + 1, b2);
            Some(ExtractorLine::Progress(p, shown_field(&speed), shown_field(&eta)))
        },
    }
}

/// The first word of `s` that ends with `%`, without that sign.
pub fn percent_word(s: &Vec<char>) -> (out: Option<Vec<char>>)
    ensures
        out is Some == spec_percent_word(s@, 0) is Some,
        out is Some ==> out->0@ == spec_percent_word(s@, 0)->0,
{
    let len = s.len();
    let mut from: usize = 0;
    while from < len
        invariant
            from <= len,
            len == s@.len(),
            spec_percent_word(s@, 0) == spec_percent_word(s@, from as int),
        decreases len - from,
    {
        let start = next_in_class(s, CharClass::NotSpace, from);
        let end = next_in_class(s, CharClass::Space, start);
        if start >= len || end <= start {
            return None;
        }
        if s[end - 1] == '%' {
            return Some(slice_chars(s, start, end - 1));
        }
        from = end;
    }
    None
}

/// Reads a line of the extractor's plain progress output.
pub fn parse_progress(line: &str) -> (out: Option<ExtractorLine>)
    ensures
        out is Some == spec_plain_line(line@) is Some,
        out is Some ==> out->0@ == spec_plain_line(line@)->0,
{
    let l = chars_of(line);
    if !contains(&l, &chars_of("[download]")) {
        return None;
    }
    match percent_word(&l) {
        None => None,
        Some(word) => match percent_value(&word) {
            None => None,
            Some(p) => Some(
                ExtractorLine::Progress(p, word_after(&l, "at "), word_after(&l, "ETA ")),
            ),
        },
    }
}

/// Whether a line announces a post-processing step.
pub fn is_postprocessing(line: &str) -> (b: bool)
    ensures
        b == spec_is_postprocessing(line@),
{
    let l = chars_of(line);
    contains(&l, &chars_of("[Merger]")) || contains(&l, &chars_of("[ExtractAudio]")) || contains(
        &l,
        &chars_of("[EmbedThumbnail]"),
    ) || contains(&l, &chars_of("[EmbedSubtitle]")) || contains(&l, &chars_of("[Metadata]"))
        || contains(&l, &chars_of("[ffmpeg]"))
}

/// What a line of the extractor's output says. Lines that are not
/// understood are passed over; reading never fails.
pub fn classify_line(line: &str) -> (out: ExtractorLine)
    ensures
        out@ == spec_classify_line(line@),
{
    match parse_progress_template(line) {
        Some(p) => p,
        None => match parse_progress(line) {
            Some(p) => p,
            None => if is_postprocessing(line) {
                ExtractorLine::PostProcessing
            } else {
                ExtractorLine::Other
            },
        },
    }
}

/// The number at the start of `s`: its longest prefix of digits and dots.
pub open spec fn spec_number_prefix_len(s: Seq<char>) -> int {
    spec_next_in_class(s, CharClass::NotNumberChar, 0)
}

/// Bytes in a unit of transfer speed; `None` for text that names none.
pub open spec fn spec_rate_unit(unit: Seq<char>) -> Option<u64> {
    if unit == "B/s"@ {
        Some(1u64)
    } else if unit == "KiB/s"@ {
        Some(1024u64)
    } else if unit == "MiB/s"@ {
        Some(1048576u64)
    } else if unit == "GiB/s"@ {
        Some(1073741824u64)
    } else {
        None
    }
}

/// The speed in bytes per second that a label such as `10.5MiB/s` states,
/// held at the top of `u64`; `None` for a label that is not of this form.
pub open spec fn spec_parse_rate(label: Seq<char>) -> Option<u64> {
    let n = spec_number_prefix_len(label);
    match (spec_fixed2_value(label.take(n)), spec_rate_unit(label.skip(n))) {
        (Some(v), Some(unit)) => {
            let hundredths = if v > u64::MAX {
                u64::MAX as nat
            } else {
                v
            };
            if hundredths * unit / 100 > u64::MAX {
                Some(u64::MAX)
            } else {
                Some((hundredths * unit / 100) as u64)
            }
        },
        _ => None,
    }
}

/// The speed after one more observation: seven parts old, three parts new;
/// the first observation is taken as it is.
pub open spec fn spec_smooth(prev: u64, observed: u64) -> u64 {
    if prev == 0 {
        observed
    } else {
        ((prev * 7 + observed * 3) / 10) as u64
    }
}

/// The progress shown after a line reported `percent`: progress never goes
/// back, except that a drop from at least 85 % to at most 5 % begins a new
/// stream and is shown as it is.
pub open spec fn spec_shown_progress(last: u32, percent: u32) -> u32 {
    if last >= RESET_FROM && percent <= RESET_TO {
        percent
    } else if percent >= last {
        percent
    } else {
        last
    }
}

/// The progress shown during post-processing: the last progress, held
/// inside `[90 %, 99 %]`.
pub open spec fn spec_postprocess_progress(last: u32) -> u32 {
    if last < MIN_POSTPROCESS_PROGRESS {
        MIN_POSTPROCESS_PROGRESS
    } else if last > MAX_RUNNING_PROGRESS {
        MAX_RUNNING_PROGRESS
    } else {
        last
    }
}

/// Monotone progress: what is shown after a progress line is not below
/// what was shown before, unless the line begins a new stream; and what is
/// shown during post-processing is not below what was shown before, as
/// long as that was no more than 99 %.
pub proof fn lemma_shown_progress_monotone(last: u32, percent: u32)
    ensures
        spec_shown_progress(last, percent) >= last || (last >= RESET_FROM && percent <= RESET_TO
            && spec_shown_progress(last, percent) == percent),
        last <= MAX_RUNNING_PROGRESS && percent <= MAX_RUNNING_PROGRESS ==> spec_shown_progress(
            last,
            percent,
        ) <= MAX_RUNNING_PROGRESS,
        last <= MAX_RUNNING_PROGRESS ==> spec_postprocess_progress(last) >= last,
        MIN_POSTPROCESS_PROGRESS <= spec_postprocess_progress(last) <= MAX_RUNNING_PROGRESS,
{
}

/// `a` and `b` differ by at least a tenth of `a`, or one of them is 0 and
/// the other is not.
pub open spec fn spec_speed_differs(a: u64, b: u64) -> bool {
    let diff = if a >= b {
        a - b
    } else {
        b - a
    };
    diff > 0 && diff * MATERIAL_SPEED_DIVISOR >= a
}

/// What the tracker remembers between two lines.
#[derive(Debug, Clone)]
pub struct ProgressTracker {
    /// The progress shown last.
    pub last_progress: u32,
    /// The smoothed speed in bytes per second; 0 before the first
    /// observation.
    pub smoothed_speed: u64,
    /// When the last event was emitted.
    pub last_emit_ms: Option<u64>,
    /// Progress, speed and time left of the last event.
    pub emitted_progress: u32,
    pub emitted_speed: u64,
    pub emitted_eta: String,
}

/// The mathematical content of a `ProgressTracker`.
pub struct TrackerView {
    pub last_progress: u32,
    pub smoothed_speed: u64,
    pub last_emit_ms: Option<u64>,
    pub emitted_progress: u32,
    pub emitted_speed: u64,
    pub emitted_eta: Seq<char>,
}

impl View for ProgressTracker {
    type V = TrackerView;

    open spec fn view(&self) -> TrackerView {
        TrackerView {
            last_progress: self.last_progress,
            smoothed_speed: self.smoothed_speed,
            last_emit_ms: self.last_emit_ms,
            emitted_progress: self.emitted_progress,
            emitted_speed: self.emitted_speed,
            emitted_eta: self.emitted_eta@,
        }
    }
}

/// What is to be shown after a line.
pub struct ProgressUpdate {
    pub progress: u32,
    pub speed: String,
    pub eta: String,
    pub status: ProgressStatus,
}

/// The mathematical content of a `ProgressUpdate`.
pub struct UpdateView {
    pub progress: u32,
    pub speed: Seq<char>,
    pub eta: Seq<char>,
    pub status: ProgressStatus,
}

impl View for ProgressUpdate {
    type V = UpdateView;

    open spec fn view(&self) -> UpdateView {
        UpdateView {
            progress: self.progress,
            speed: self.speed@,
            eta: self.eta@,
            status: self.status,
        }
    }
}

impl TrackerView {
    /// The tracker of a download that has shown nothing yet.
    pub open spec fn fresh() -> TrackerView {
        TrackerView {
            last_progress: 0,
            smoothed_speed: 0,
            last_emit_ms: None,
            emitted_progress: 0,
            emitted_speed: 0,
            emitted_eta: Seq::empty(),
        }
    }

    /// What a line makes of the numbers to show: progress, smoothed speed,
    /// speed label, time left, status. Lines of no interest show nothing.
    pub open spec fn candidate(self, line: LineView) -> Option<(UpdateView, u64)> {
        match line {
            LineView::Progress(percent, speed, eta) => {
                let smoothed = match spec_parse_rate(speed) {
                    Some(observed) => spec_smooth(self.smoothed_speed, observed),
                    None => self.smoothed_speed,
                };
                Some(
                    (
                        UpdateView {
                            progress: spec_shown_progress(self.last_progress, percent),
                            speed: match spec_parse_rate(speed) {
                                Some(_) => spec_format_speed(smoothed),
                                None => speed,
                            },
                            eta,
                            status: ProgressStatus::Downloading,
                        },
                        smoothed,
                    ),
                )
            },
            LineView::PostProcessing => Some(
                (
                    UpdateView {
                        progress: spec_postprocess_progress(self.last_progress),
                        speed: Seq::empty(),
                        eta: Seq::empty(),
                        status: ProgressStatus::Merging,
                    },
                    self.smoothed_speed,
                ),
            ),
            LineView::Other => None,
        }
    }

    /// An update is due at `now_ms`: it is the first, or the last event is
    /// at least 180 ms old (or lies in the future), or progress moved by a
    /// percentage point, or the speed changed by a tenth, or the time left
    /// reads differently.
    pub open spec fn is_due(self, update: UpdateView, smoothed: u64, now_ms: u64) -> bool {
        match self.last_emit_ms {
            None => true,
            Some(t) => {
                ||| now_ms < t
                ||| now_ms - t >= MIN_EMIT_INTERVAL_MS
                ||| update.progress >= self.emitted_progress + MATERIAL_PROGRESS_STEP
                ||| update.progress + MATERIAL_PROGRESS_STEP <= self.emitted_progress
                ||| spec_speed_differs(self.emitted_speed, smoothed)
                ||| update.eta != self.emitted_eta
            },
        }
    }

    /// The update emitted for a line read at `now_ms`.
    pub open spec fn emits(self, line: LineView, now_ms: u64) -> Option<UpdateView> {
        match self.candidate(line) {
            Some(c) => if self.is_due(c.0, c.1, now_ms) {
                Some(c.0)
            } else {
                None
            },
            None => None,
        }
    }

    /// The tracker after a line read at `now_ms`.
    pub open spec fn after(self, line: LineView, now_ms: u64) -> TrackerView {
        match self.candidate(line) {
            Some(c) => if self.is_due(c.0, c.1, now_ms) {
                TrackerView {
                    last_progress: c.0.progress,
                    smoothed_speed: c.1,
                    last_emit_ms: Some(now_ms),
                    emitted_progress: c.0.progress,
                    emitted_speed: c.1,
                    emitted_eta: c.0.eta,
                }
            } else {
                TrackerView { last_progress: c.0.progress, smoothed_speed: c.1, ..self }
            },
            None => self,
        }
    }

    /// The last update of a download: 100 % when it completed, the progress
    /// reached when it failed or was cancelled.
    pub open spec fn final_update(self, status: ProgressStatus) -> UpdateView {
        UpdateView {
            progress: if status == ProgressStatus::Completed {
                10000
            } else {
                self.last_progress
            },
            speed: Seq::empty(),
            eta: Seq::empty(),
            status,
        }
    }
}

/// Bytes in a unit of transfer speed.
fn rate_unit(unit: &Vec<char>) -> (v: Option<u64>)
    ensures
        v == spec_rate_unit(unit@),
{
    if is_text(unit, "B/s") {
        Some(1)
    } else if is_text(unit, "KiB/s") {
        Some(1024)
    } else if is_text(unit, "MiB/s") {
        Some(1048576)
    } else if is_text(unit, "GiB/s") {
        Some(1073741824)
    } else {
        None
    }
}

/// The speed in bytes per second that a label states.
pub fn parse_rate(label: &str) -> (v: Option<u64>)
    ensures
        v == spec_parse_rate(label@),
{
    let l = chars_of(label);
    let n = next_in_class(&l, CharClass::NotNumberChar, 0);
    let number = slice_chars(&l, 0, n);
    let unit = slice_chars(&l, n, l.len());
    proof {
        assert(l@.take(n as int) =~= l@.subrange(0, n as int));
        assert(l@.skip(n as int) =~= l@.subrange(n as int, l@.len() as int));
    }
    match (fixed2_value(&number), rate_unit(&unit)) {
        (Some(v), Some(u)) => {
            assert(v * u <= 0xFFFF_FFFF_FFFF_FFFF * 0x4000_0000) by (nonlinear_arith)
                requires
                    0 <= v <= 0xFFFF_FFFF_FFFF_FFFF,
                    0 <= u <= 0x4000_0000,
            ;
            let scaled: u128 = (v as u128) * (u as u128) / 100;
            if scaled > 18446744073709551615 {
                Some(18446744073709551615)
            } else {
                Some(scaled as u64)
            }
        },
        _ => None,
    }
}

/// The speed after one more observation.
pub fn smooth(prev: u64, observed: u64) -> (v: u64)
    ensures
        v == spec_smooth(prev, observed),
{
    if prev == 0 {
        observed
    } else {
        (((prev as u128) * 7 + (observed as u128) * 3) / 10) as u64
    }
}

impl ProgressTracker {
    /// The tracker of a download that has shown nothing yet.
    pub fn new() -> (t: Self)
        ensures
            t@ == TrackerView::fresh(),
    {
        ProgressTracker {
            last_progress: 0,
            smoothed_speed: 0,
            last_emit_ms: None,
            emitted_progress: 0,
            emitted_speed: 0,
            emitted_eta: String::new(),
        }
    }

    /// Takes in one line of the extractor's output, read at `now_ms`, and
    /// hands out the update to show, if one is due. What is shown never
    /// goes back, except at the start of a new stream.
    pub fn observe(&mut self, line: ExtractorLine, now_ms: u64) -> (update: Option<ProgressUpdate>)
        ensures
            final(self)@ == old(self)@.after(line@, now_ms),
            update is Some == old(self)@.emits(line@, now_ms) is Some,
            update is Some ==> update->0@ == old(self)@.emits(line@, now_ms)->0,
            final(self).last_progress >= old(self).last_progress || (line@ matches LineView::Progress(
                p,
                _,
                _,
            ) && old(self).last_progress >= RESET_FROM && p <= RESET_TO) || old(
                self,
            ).last_progress > MAX_RUNNING_PROGRESS,
    {
        let (candidate, smoothed) = match line {
            ExtractorLine::Progress(percent, speed, eta) => {
                let observed = parse_rate(speed.as_str());
                let smoothed = match observed {
                    Some(o) => smooth(self.smoothed_speed, o),
                    None => self.smoothed_speed,
                };
                let shown: u32 = if self.last_progress >= RESET_FROM && percent <= RESET_TO {
                    percent
                } else if percent >= self.last_progress {
                    percent
                } else {
                    self.last_progress
                };
                let label = match observed {
                    Some(_) => format_speed(smoothed),
                    None => speed,
                };
                (
                    ProgressUpdate {
                        progress: shown,
                        speed: label,
                        eta,
                        status: ProgressStatus::Downloading,
                    },
                    smoothed,
                )
            },
            ExtractorLine::PostProcessing => {
                let shown: u32 = if self.last_progress < MIN_POSTPROCESS_PROGRESS {
                    MIN_POSTPROCESS_PROGRESS
                } else if self.last_progress > MAX_RUNNING_PROGRESS {
                    MAX_RUNNING_PROGRESS
                } else {
                    self.last_progress
                };
                (
                    ProgressUpdate {
                        progress: shown,
                        speed: String::new(),
                        eta: String::new(),
                        status: ProgressStatus::Merging,
                    },
                    self.smoothed_speed,
                )
            },
            ExtractorLine::Other => {
                return None;
            },
        };
        let due = match self.last_emit_ms {
            None => true,
            Some(t) => {
                let diff: u64 = if self.emitted_speed >= smoothed {
                    self.emitted_speed - smoothed
                } else {
                    smoothed - self.emitted_speed
                };
                now_ms < t || now_ms - t >= MIN_EMIT_INTERVAL_MS || (candidate.progress as u64)
                    >= (self.emitted_progress as u64) + (MATERIAL_PROGRESS_STEP as u64) || (
                candidate.progress as u64) + (MATERIAL_PROGRESS_STEP as u64) <= (
                self.emitted_progress as u64) || (diff > 0 && (diff as u128) * (
                MATERIAL_SPEED_DIVISOR as u128) >= (self.emitted_speed as u128)) || !(candidate.eta
                    == self.emitted_eta)
            },
        };
        self.last_progress = candidate.progress;
        self.smoothed_speed = smoothed;
        if due {
            self.last_emit_ms = Some(now_ms);
            self.emitted_progress = candidate.progress;
            self.emitted_speed = smoothed;
            self.emitted_eta = candidate.eta.clone();
            Some(candidate)
        } else {
            None
        }
    }

    /// The last update of a download that ended with `status`.
    pub fn finish(&self, status: ProgressStatus) -> (update: ProgressUpdate)
        ensures
            update@ == self@.final_update(status),
            update.progress >= self.last_progress || self.last_progress > 10000,
    {
        ProgressUpdate {
            progress: match status {
                ProgressStatus::Completed => 10000,
                _ => self.last_progress,
            },
            speed: String::new(),
            eta: String::new(),
            status,
        }
    }
}

/// The event that carries an update of download `id`.
pub fn progress_event(id: &str, badge: &str, update: ProgressUpdate) -> (e: DownloadProgress)
    ensures
        e.id@ == id@,
        e.progress == update.progress,
        e.speed == update.speed,
        e.eta == update.eta,
        e.status == update.status,
        e.downloaded_bytes is None,
        e.total_bytes is None,
        e.filename is None,
        e.engine_badge is Some && e.engine_badge->0@ == badge@,
{
    DownloadProgress {
        id: String::from_str(id),
        progress: update.progress,
        speed: update.speed,
        eta: update.eta,
        status: update.status,
        downloaded_bytes: None,
        total_bytes: None,
        filename: None,
        engine_badge: Some(String::from_str(badge)),
    }
}

/// A request to download by the extractor.
#[derive(Debug, Clone)]
pub struct DownloadRequest {
    pub id: String,
    pub url: String,
    pub output_path: String,
    /// A format selector of the extractor, if the caller chose one.
    pub format: Option<String>,
    pub audio_only: bool,
    /// `best`, `4k`, `2160p`, `1080p`, `720p`, `480p` or `360p`.
    pub quality: Option<String>,
    pub embed_thumbnail: bool,
    pub embed_metadata: bool,
    pub download_subtitles: bool,
    pub audio_quality: String,
    pub audio_format: String,
    pub video_format: String,
    pub use_sponsorblock: bool,
}

/// The mathematical content of a `DownloadRequest`.
pub struct RequestView {
    pub id: Seq<char>,
    pub url: Seq<char>,
    pub output_path: Seq<char>,
    pub format: Option<Seq<char>>,
    pub audio_only: bool,
    pub quality: Option<Seq<char>>,
    pub embed_thumbnail: bool,
    pub embed_metadata: bool,
    pub download_subtitles: bool,
    pub audio_quality: Seq<char>,
    pub audio_format: Seq<char>,
    pub video_format: Seq<char>,
    pub use_sponsorblock: bool,
}

impl View for DownloadRequest {
    type V = RequestView;

    open spec fn view(&self) -> RequestView {
        RequestView {
            id: self.id@,
            url: self.url@,
            output_path: self.output_path@,
            format: match self.format {
                Some(f) => Some(f@),
                None => None,
            },
            audio_only: self.audio_only,
            quality: match self.quality {
                Some(q) => Some(q@),
                None => None,
            },
            embed_thumbnail: self.embed_thumbnail,
            embed_metadata: self.embed_metadata,
            download_subtitles: self.download_subtitles,
            audio_quality: self.audio_quality@,
            audio_format: self.audio_format@,
            video_format: self.video_format@,
            use_sponsorblock: self.use_sponsorblock,
        }
    }
}

/// The extractor as it is installed.
#[derive(Debug, Clone)]
pub struct YtDlpInfo {
    pub version: String,
    pub path: String,
    /// The program is one that came with the application.
    pub is_embedded: bool,
}

/// Where the extractor and the converter are.
#[derive(Debug, Clone)]
pub struct Downloader {
    /// Empty where the extractor was not found.
    pub yt_dlp_path: String,
    pub ffmpeg_path: Option<String>,
}

/// What a server says of a file it offers directly.
#[derive(Debug, Clone)]
pub struct DirectFileInfo {
    /// 0 where the server states no size.
    pub file_size: i64,
    pub filename: Option<String>,
    pub content_type: Option<String>,
    pub is_media: bool,
}

/// The format selector for a quality.
pub open spec fn spec_quality_selector(quality: Seq<char>) -> Seq<char> {
    if quality == "1080p"@ {
        "bestvideo[height<=1080]+bestaudio/best[height<=1080]/best"@
    } else if quality == "720p"@ {
        "bestvideo[height<=720]+bestaudio/best[height<=720]/best"@
    } else if quality == "480p"@ {
        "bestvideo[height<=480]+bestaudio/best[height<=480]/best"@
    } else if quality == "360p"@ {
        "bestvideo[height<=360]+bestaudio/best[height<=360]/best"@
    } else {
        "bestvideo+bestaudio/best"@
    }
}

/// The arguments that select what is downloaded: audio extraction for an
/// audio-only request; else the caller's format selector, if there is one
/// (an empty one selects nothing); else the selector of the requested
/// quality, merged into the requested container.
pub open spec fn spec_format_args(req: RequestView) -> Seq<Seq<char>> {
    if req.audio_only {
        seq!["-x"@, "--audio-format"@, req.audio_format, "--audio-quality"@, req.audio_quality]
    } else {
        match req.format {
            Some(f) => if f.len() > 0 {
                seq!["-f"@, f]
            } else {
                Seq::empty()
            },
            None => match req.quality {
                Some(q) => seq![
                    "-f"@,
                    spec_quality_selector(q),
                    "--merge-output-format"@,
                    req.video_format,
                ],
                None => Seq::empty(),
            },
        }
    }
}

/// The arguments for what is embedded and removed.
pub open spec fn spec_option_args(req: RequestView) -> Seq<Seq<char>> {
    (if req.embed_thumbnail {
        seq!["--embed-thumbnail"@]
    } else {
        Seq::empty()
    }) + (if req.embed_metadata {
        seq!["--embed-metadata"@]
    } else {
        Seq::empty()
    }) + (if req.download_subtitles && !req.audio_only {
        seq!["--write-subs"@, "--embed-subs"@, "--sub-langs"@, "en,en-US,en-GB"@]
    } else {
        Seq::empty()
    }) + (if req.use_sponsorblock {
        seq!["--sponsorblock-remove"@, "all"@]
    } else {
        Seq::empty()
    })
}

/// The arguments that every download begins with: progress by the
/// template, the converter's location if known, and the output template.
pub open spec fn spec_head_args(req: RequestView, ffmpeg_location: Option<Seq<char>>) -> Seq<
    Seq<char>,
> {
    seq![
        "--progress"@,
        "--newline"@,
        "--no-warnings"@,
        "--progress-template"@,
        "download:%(progress._percent_str)s|%(progress._speed_str)s|%(progress._eta_str)s|%(progress._downloaded_bytes_str)s|%(progress._total_bytes_str)s"@,
    ] + (match ffmpeg_location {
        Some(loc) => seq!["--ffmpeg-location"@, loc],
        None => Seq::empty(),
    }) + seq!["-o"@, req.output_path + "/%(title)s.%(ext)s"@]
}

/// The arguments of a download: how it begins, what to download, what to
/// embed, and the URL last.
pub open spec fn spec_download_args(req: RequestView, ffmpeg_location: Option<Seq<char>>) -> Seq<
    Seq<char>,
> {
    spec_head_args(req, ffmpeg_location) + spec_format_args(req) + spec_option_args(req) + seq![
        req.url,
    ]
}

/// The arguments of a metadata query: one JSON document, no playlist, a
/// socket timeout of 15 s, one retry of the extractor and two of a
/// request, chapter marks if asked for, and the URL last.
pub open spec fn spec_metadata_args(url: Seq<char>, check_sponsorblock: bool) -> Seq<Seq<char>> {
    seq![
        "-j"@,
        "--no-playlist"@,
        "--no-warnings"@,
        "--socket-timeout"@,
        "15"@,
        "--extractor-retries"@,
        "1"@,
        "--retries"@,
        "2"@,
    ] + (if check_sponsorblock {
        seq!["--sponsorblock-mark"@, "all"@]
    } else {
        Seq::empty()
    }) + seq![url]
}

/// Appends the argument `s`.
pub fn push_arg(args: &mut Vec<String>, s: &str)
    ensures
        texts(final(args)@) == texts(old(args)@).push(s@),
{
    args.push(String::from_str(s));
    proof {
        assert(texts(args@) =~= texts(old(args)@).push(s@));
    }
}

/// The format selector for a quality.
pub fn quality_selector(quality: &str) -> (selector: &'static str)
    ensures
        selector@ == spec_quality_selector(quality@),
{
    let q = chars_of(quality);
    if is_text(&q, "1080p") {
        "bestvideo[height<=1080]+bestaudio/best[height<=1080]/best"
    } else if is_text(&q, "720p") {
        "bestvideo[height<=720]+bestaudio/best[height<=720]/best"
    } else if is_text(&q, "480p") {
        "bestvideo[height<=480]+bestaudio/best[height<=480]/best"
    } else if is_text(&q, "360p") {
        "bestvideo[height<=360]+bestaudio/best[height<=360]/best"
    } else {
        "bestvideo+bestaudio/best"
    }
}

/// The arguments that every download begins with.
pub fn head_args(request: &DownloadRequest, ffmpeg_location: Option<&str>) -> (args: Vec<String>)
    ensures
        texts(args@) == spec_head_args(
            request@,
            match ffmpeg_location {
                Some(l) => Some(l@),
                None => None,
            },
        ),
{
    let mut args: Vec<String> = Vec::new();
    proof {
        assert(texts(args@) =~= Seq::<Seq<char>>::empty());
    }
    push_arg(&mut args, "--progress");
    push_arg(&mut args, "--newline");
    push_arg(&mut args, "--no-warnings");
    push_arg(&mut args, "--progress-template");
    push_arg(
        &mut args,
        "download:%(progress._percent_str)s|%(progress._speed_str)s|%(progress._eta_str)s|%(progress._downloaded_bytes_str)s|%(progress._total_bytes_str)s",
    );
    match ffmpeg_location {
        Some(loc) => {
            push_arg(&mut args, "--ffmpeg-location");
            push_arg(&mut args, loc);
        },
        None => {},
    }
    push_arg(&mut args, "-o");
    let mut template = chars_of(request.output_path.as_str());
    push_str(&mut template, "/%(title)s.%(ext)s");
    let template = string_of(&template);
    push_arg(&mut args, template.as_str());
    proof {
        assert(texts(args@) =~= spec_head_args(
            request@,
            match ffmpeg_location {
                Some(l) => Some(l@),
                None => None,
            },
        ));
    }
    args
}

/// Appends the arguments that select what is downloaded.
pub fn push_format_args(args: &mut Vec<String>, request: &DownloadRequest)
    ensures
        texts(final(args)@) == texts(old(args)@) + spec_format_args(request@),
{
    let ghost head = texts(args@);
    if request.audio_only {
        push_arg(args, "-x");
        push_arg(args, "--audio-format");
        push_arg(args, request.audio_format.as_str());
        push_arg(args, "--audio-quality");
        push_arg(args, request.audio_quality.as_str());
    } else {
        match &request.format {
            Some(f) => {
                if f.as_str().unicode_len() > 0 {
                    push_arg(args, "-f");
                    push_arg(args, f.as_str());
                }
            },
            None => match &request.quality {
                Some(q) => {
                    push_arg(args, "-f");
                    push_arg(args, quality_selector(q.as_str()));
                    push_arg(args, "--merge-output-format");
                    push_arg(args, request.video_format.as_str());
                },
                None => {},
            },
        }
    }
    proof {
        assert(texts(args@) =~= head + spec_format_args(request@));
    }
}

/// Appends the arguments for what is embedded and removed.
pub fn push_option_args(args: &mut Vec<String>, request: &DownloadRequest)
    ensures
        texts(final(args)@) == texts(old(args)@) + spec_option_args(request@),
{
    let ghost head = texts(args@);
    if request.embed_thumbnail {
        push_arg(args, "--embed-thumbnail");
    }
    if request.embed_metadata {
        push_arg(args, "--embed-metadata");
    }
    if request.download_subtitles && !request.audio_only {
        push_arg(args, "--write-subs");
        push_arg(args, "--embed-subs");
        push_arg(args, "--sub-langs");
        push_arg(args, "en,en-US,en-GB");
    }
    if request.use_sponsorblock {
        push_arg(args, "--sponsorblock-remove");
        push_arg(args, "all");
    }
    proof {
        assert(texts(args@) =~= head + spec_option_args(request@));
    }
}

impl Downloader {
    /// The arguments of a metadata query.
    pub fn metadata_args(url: &str, check_sponsorblock: bool) -> (args: Vec<String>)
        ensures
            texts(args@) == spec_metadata_args(url@, check_sponsorblock),
    {
        let mut args: Vec<String> = Vec::new();
        proof {
            assert(texts(args@) =~= Seq::<Seq<char>>::empty());
        }
        push_arg(&mut args, "-j");
        push_arg(&mut args, "--no-playlist");
        push_arg(&mut args, "--no-warnings");
        push_arg(&mut args, "--socket-timeout");
        push_arg(&mut args, "15");
        push_arg(&mut args, "--extractor-retries");
        push_arg(&mut args, "1");
        push_arg(&mut args, "--retries");
        push_arg(&mut args, "2");
        if check_sponsorblock {
            push_arg(&mut args, "--sponsorblock-mark");
            push_arg(&mut args, "all");
        }
        push_arg(&mut args, url);
        proof {
            assert(texts(args@) =~= spec_metadata_args(url@, check_sponsorblock));
        }
        args
    }

    /// The arguments of a download.
    pub fn download_args(request: &DownloadRequest, ffmpeg_location: Option<&str>) -> (args: Vec<
        String,
    >)
        ensures
            texts(args@) == spec_download_args(
                request@,
                match ffmpeg_location {
                    Some(l) => Some(l@),
                    None => None,
                },
            ),
    {
        let mut args = head_args(request, ffmpeg_location);
        push_format_args(&mut args, request);
        push_option_args(&mut args, request);
        push_arg(&mut args, request.url.as_str());
        proof {
            assert(texts(args@) =~= spec_download_args(
                request@,
                match ffmpeg_location {
                    Some(l) => Some(l@),
                    None => None,
                },
            ));
        }
        args
    }

    /// What is reported of the installed extractor: the version it printed,
    /// without surrounding white space, and whether it is the one that
    /// came with the application, which is known by `binaries` in its
    /// path.
    pub fn yt_dlp_info(&self, version_output: &str) -> (info: YtDlpInfo)
        ensures
            info.version@ == spec_trim(version_output@),
            info.path@ == self.yt_dlp_path@,
            info.is_embedded == spec_contains(self.yt_dlp_path@, "binaries"@),
    {
        let v = chars_of(version_output);
        let version = trim(&v);
        let path = chars_of(self.yt_dlp_path.as_str());
        YtDlpInfo {
            version: string_of(&version),
            path: self.yt_dlp_path.clone(),
            is_embedded: contains(&path, &chars_of("binaries")),
        }
    }
}

/// A download goes to the native engine where routing chose it, the
/// request is not for audio only, the size is known, and the probe found
/// range support.
pub open spec fn spec_use_native_engine(decision: DecisionView, audio_only: bool) -> bool {
    &&& decision.engine.spec_is_native()
    &&& !audio_only
    &&& decision.file_size is Some
    &&& decision.probe_result is Some
    &&& decision.probe_result->0.supports_range
}

/// Whether a download goes to the native engine.
pub fn use_native_engine(decision: &RoutingDecision, audio_only: bool) -> (b: bool)
    ensures
        b == spec_use_native_engine(decision@, audio_only),
{
    let ranged = match &decision.probe_result {
        Some(p) => p.supports_range,
        None => false,
    };
    decision.engine.is_native() && !audio_only && decision.file_size.is_some() && ranged
}

/// The file name that the native engine starts with: the last segment of
/// the URL's path, or `download_` and the id where the URL has none.
pub open spec fn spec_native_file_name(url: Seq<char>, id: Seq<char>) -> Seq<char> {
    match spec_url_parts(url) {
        Some(parts) => match spec_last_segment(parts.path) {
            Some(seg) => seg,
            None => "download_"@ + id,
        },
        None => "download_"@ + id,
    }
}

/// The file name that the native engine starts with.
pub fn native_file_name(url: &str, id: &str) -> (name: String)
    ensures
        name@ == spec_native_file_name(url@, id@),
{
    let found = match parse_url(url) {
        Some(parsed) => last_segment(parsed.path.as_str()),
        None => None,
    };
    match found {
        Some(seg) => seg,
        None => {
            let mut out = chars_of("download_");
            push_str(&mut out, id);
            string_of(&out)
        },
    }
}

/// Whether a content type is one of media: video, audio, or bytes of
/// unknown kind. A server that states no type is given the benefit of the
/// doubt.
pub open spec fn spec_is_media_type(content_type: Option<Seq<char>>) -> bool {
    match content_type {
        Some(ct) => crate::text::spec_starts_with(ct, "video/"@) || crate::text::spec_starts_with(
            ct,
            "audio/"@,
        ) || spec_contains(ct, "octet-stream"@),
        None => true,
    }
}

/// Whether a content type is one of media.
pub fn is_media_type(content_type: Option<&str>) -> (b: bool)
    ensures
        b == spec_is_media_type(
            match content_type {
                Some(c) => Some(c@),
                None => None,
            },
        ),
{
    match content_type {
        Some(ct) => {
            let c = chars_of(ct);
            crate::text::starts_with(&c, &chars_of("video/")) || crate::text::starts_with(
                &c,
                &chars_of("audio/"),
            ) || contains(&c, &chars_of("octet-stream"))
        },
        None => true,
    }
}

/// Metadata stays in the cache for this long: five minutes.
pub const CACHE_TTL_MS: u64 = 300000;

/// The cache holds no more entries than this.
pub const CACHE_CAP: usize = 64;

/// One answer of the extractor, kept for a while.
pub struct CacheEntry<T> {
    pub url: String,
    pub sponsorblock: bool,
    /// When the answer was stored, in milliseconds.
    pub stored_at_ms: u64,
    pub value: T,
}

/// Answers of the extractor to metadata queries, by URL and chapter-mark
/// flag, oldest first.
pub struct MetadataCache<T> {
    pub entries: Vec<CacheEntry<T>>,
}

/// The entry answers queries for `url` with the flag `sponsorblock`.
pub open spec fn entry_is_for<T>(e: CacheEntry<T>, url: Seq<char>, sponsorblock: bool) -> bool {
    e.url@ == url && e.sponsorblock == sponsorblock
}

/// The entry is still good at `now_ms`: it was stored no more than five
/// minutes ago, and not in the future.
pub open spec fn entry_is_fresh<T>(e: CacheEntry<T>, now_ms: u64) -> bool {
    e.stored_at_ms <= now_ms && now_ms - e.stored_at_ms < CACHE_TTL_MS
}

/// `i` is the first entry that answers a query at `now_ms`.
pub open spec fn is_cache_hit<T>(
    entries: Seq<CacheEntry<T>>,
    url: Seq<char>,
    sponsorblock: bool,
    now_ms: u64,
    i: int,
) -> bool {
    &&& 0 <= i < entries.len()
    &&& entry_is_for(entries[i], url, sponsorblock)
    &&& entry_is_fresh(entries[i], now_ms)
    &&& forall|j: int|
        0 <= j < i ==> !(entry_is_for(#[trigger] entries[j], url, sponsorblock) && entry_is_fresh(
            entries[j],
            now_ms,
        ))
}

/// No entry answers a query at `now_ms`.
pub open spec fn is_cache_miss<T>(
    entries: Seq<CacheEntry<T>>,
    url: Seq<char>,
    sponsorblock: bool,
    now_ms: u64,
) -> bool {
    forall|j: int|
        0 <= j < entries.len() ==> !(entry_is_for(#[trigger] entries[j], url, sponsorblock)
            && entry_is_fresh(entries[j], now_ms))
}

/// The entries that stay when an answer for `url` and `sponsorblock` is
/// stored at `now_ms`: those for other queries that are still good.
pub open spec fn spec_cache_kept<T>(
    entries: Seq<CacheEntry<T>>,
    url: Seq<char>,
    sponsorblock: bool,
    now_ms: u64,
) -> Seq<CacheEntry<T>> {
    entries.filter(
        |e: CacheEntry<T>| !entry_is_for(e, url, sponsorblock) && entry_is_fresh(e, now_ms),
    )
}

/// The newest entries of `entries`, one fewer than the cache holds.
pub open spec fn spec_cache_room<T>(entries: Seq<CacheEntry<T>>) -> Seq<CacheEntry<T>> {
    if entries.len() >= CACHE_CAP {
        entries.skip(entries.len() - CACHE_CAP + 1)
    } else {
        entries
    }
}

impl<T> MetadataCache<T> {
    /// An empty cache.
    pub fn new() -> (c: Self)
        ensures
            c.entries@.len() == 0,
    {
        MetadataCache { entries: Vec::new() }
    }

    /// The answer to a query at `now_ms`, if the cache holds one that is
    /// still good.
    pub fn get(&self, url: &str, sponsorblock: bool, now_ms: u64) -> (found: Option<&T>)
        ensures
            match found {
                Some(v) => exists|i: int|
                    is_cache_hit(self.entries@, url@, sponsorblock, now_ms, i) && *v
                        == self.entries@[i].value,
                None => is_cache_miss(self.entries@, url@, sponsorblock, now_ms),
            },
    {
        let key = String::from_str(url);
        let mut i: usize = 0;
        while i < self.entries.len()
            invariant
                i <= self.entries.len(),
                key@ == url@,
                forall|j: int|
                    0 <= j < i ==> !(entry_is_for(#[trigger] self.entries@[j], url@, sponsorblock)
                        && entry_is_fresh(self.entries@[j], now_ms)),
            decreases self.entries.len() - i,
        {
            let e = &self.entries[i];
            if e.url == key && e.sponsorblock == sponsorblock && e.stored_at_ms <= now_ms && now_ms
                - e.stored_at_ms < CACHE_TTL_MS {
                proof {
                    assert(is_cache_hit(self.entries@, url@, sponsorblock, now_ms, i as int));
                }
                return Some(&e.value);
            }
            i += 1;
        }
        None
    }

    /// Stores an answer at `now_ms`. Entries for the same query and entries
    /// that are no longer good are dropped; of the rest the oldest go,
    /// should the cache be full; the new entry comes last.
    pub fn put(&mut self, url: &str, sponsorblock: bool, value: T, now_ms: u64)
        ensures
            final(self).entries@.len() <= CACHE_CAP,
            final(self).entries@.len() >= 1,
            final(self).entries@.drop_last() == spec_cache_room(
                spec_cache_kept(old(self).entries@, url@, sponsorblock, now_ms),
            ),
            final(self).entries@.last().url@ == url@,
            final(self).entries@.last().sponsorblock == sponsorblock,
            final(self).entries@.last().stored_at_ms == now_ms,
            final(self).entries@.last().value == value,
    {
        let key = String::from_str(url);
        let ghost before = self.entries@;
        let ghost keep = |e: CacheEntry<T>|
            !entry_is_for(e, url@, sponsorblock) && entry_is_fresh(e, now_ms);
        let mut i: usize = 0;
        let ghost mut k: int = 0;
        proof {
            reveal(Seq::filter);
            assert(before.take(0).filter(keep) =~= Seq::<CacheEntry<T>>::empty());
            assert(before.skip(0) =~= before);
        }
        while i < self.entries.len()
            invariant
                key@ == url@,
                keep == (|e: CacheEntry<T>|
                    !entry_is_for(e, url@, sponsorblock) && entry_is_fresh(e, now_ms)),
                0 <= k <= before.len(),
                i <= self.entries@.len(),
                i == before.take(k).filter(keep).len(),
                self.entries@ == before.take(k).filter(keep) + before.skip(k),
            decreases before.len() - k,
        {
            let e = &self.entries[i];
            let stays = !(e.url == key && e.sponsorblock == sponsorblock) && e.stored_at_ms
                <= now_ms && now_ms - e.stored_at_ms < CACHE_TTL_MS;
            proof {
                reveal(Seq::filter);
                assert(self.entries@[i as int] == before[k]);
                assert(before.take(k + 1).drop_last() =~= before.take(k));
                assert(before.take(k + 1).last() == before[k]);
                assert(stays == keep(before[k]));
            }
            if stays {
                proof {
                    assert(self.entries@ =~= before.take(k + 1).filter(keep) + before.skip(k + 1));
                }
                i += 1;
            } else {
                self.entries.remove(i);
                proof {
                    assert(self.entries@ =~= before.take(k + 1).filter(keep) + before.skip(k + 1));
                }
            }
            proof {
                k = k + 1;
            }
        }
        proof {
            assert(k == before.len()) by {
                if k < before.len() {
                    assert(self.entries@.len() == i + (before.len() - k));
                }
            }
            assert(before.take(k) =~= before);
            assert(self.entries@ =~= spec_cache_kept(before, url@, sponsorblock, now_ms));
        }
        let ghost kept = self.entries@;
        while self.entries.len() >= CACHE_CAP
            invariant
                self.entries@.len() <= kept.len(),
                self.entries@ == kept.skip(kept.len() - self.entries@.len()),
                kept.len() >= CACHE_CAP ==> self.entries@.len() >= CACHE_CAP - 1,
                kept.len() < CACHE_CAP ==> self.entries@.len() == kept.len(),
            decreases self.entries.len(),
        {
            let ghost cur = self.entries@;
            self.entries.remove(0);
            proof {
                assert(self.entries@ =~= cur.skip(1));
                assert(self.entries@ =~= kept.skip(kept.len() - self.entries@.len()));
            }
        }
        proof {
            assert(kept.skip(0) =~= kept);
            assert(self.entries@ =~= spec_cache_room(kept));
        }
        let ghost room = self.entries@;
        self.entries.push(CacheEntry { url: key, sponsorblock, stored_at_ms: now_ms, value });
        proof {
            assert(self.entries@.drop_last() =~= room);
        }
    }
}

/// A format as the extractor describes it.
#[derive(Debug, Clone)]
pub struct RawFormat {
    pub format_id: Option<String>,
    pub ext: Option<String>,
    pub resolution: Option<String>,
    pub width: Option<i64>,
    pub height: Option<i64>,
    pub filesize: Option<i64>,
    pub filesize_approx: Option<i64>,
    pub vcodec: Option<String>,
    pub acodec: Option<String>,
    pub format_note: Option<String>,
}

/// A format that a download can be made in.
#[derive(Debug, Clone)]
pub struct FormatInfo {
    pub format_id: String,
    pub ext: String,
    pub resolution: Option<String>,
    pub filesize: Option<i64>,
    pub filesize_approx: Option<i64>,
    pub vcodec: Option<String>,
    pub acodec: Option<String>,
    pub format_note: Option<String>,
    pub quality_label: Option<String>,
}

/// A codec as it is shown: the extractor's `none` means there is none.
pub open spec fn spec_codec(codec: Option<Seq<char>>) -> Option<Seq<char>> {
    match codec {
        Some(c) => if c == "none"@ {
            None
        } else {
            Some(c)
        },
        None => None,
    }
}

/// The text of an optional string.
pub open spec fn text_of(s: Option<String>) -> Option<Seq<char>> {
    match s {
        Some(t) => Some(t@),
        None => None,
    }
}

/// The resolution of a format: as the extractor states it, or width `x`
/// height where it states those.
pub open spec fn spec_resolution(
    resolution: Option<Seq<char>>,
    width: Option<i64>,
    height: Option<i64>,
) -> Option<Seq<char>> {
    match resolution {
        Some(r) => Some(r),
        None => match (width, height) {
            (Some(w), Some(h)) => Some(spec_signed(w) + seq!['x'] + spec_signed(h)),
            _ => None,
        },
    }
}

/// A signed number in base ten.
pub open spec fn spec_signed(v: i64) -> Seq<char> {
    if v < 0 {
        seq!['-'] + crate::text::spec_decimal((-(v as int)) as nat)
    } else {
        crate::text::spec_decimal(v as nat)
    }
}

/// Appends a signed number in base ten.
fn push_signed(out: &mut Vec<char>, v: i64)
    ensures
        final(out)@ == old(out)@ + spec_signed(v),
{
    if v < 0 {
        out.push('-');
        let magnitude: u128 = (-(v as i128)) as u128;
        crate::text::push_decimal(out, magnitude);
        proof {
            assert(out@ =~= old(out)@ + spec_signed(v));
        }
    } else {
        crate::text::push_decimal(out, v as u128);
    }
}

/// A codec as it is shown.
fn shown_codec(codec: Option<String>) -> (out: Option<String>)
    ensures
        text_of(out) == spec_codec(text_of(codec)),
{
    match codec {
        Some(c) => {
            let chars = chars_of(c.as_str());
            if is_text(&chars, "none") {
                None
            } else {
                Some(c)
            }
        },
        None => None,
    }
}

/// The mathematical content of a `RawFormat`.
pub struct RawFormatView {
    pub format_id: Option<Seq<char>>,
    pub ext: Option<Seq<char>>,
    pub resolution: Option<Seq<char>>,
    pub width: Option<i64>,
    pub height: Option<i64>,
    pub filesize: Option<i64>,
    pub filesize_approx: Option<i64>,
    pub vcodec: Option<Seq<char>>,
    pub acodec: Option<Seq<char>>,
    pub format_note: Option<Seq<char>>,
}

impl View for RawFormat {
    type V = RawFormatView;

    open spec fn view(&self) -> RawFormatView {
        RawFormatView {
            format_id: text_of(self.format_id),
            ext: text_of(self.ext),
            resolution: text_of(self.resolution),
            width: self.width,
            height: self.height,
            filesize: self.filesize,
            filesize_approx: self.filesize_approx,
            vcodec: text_of(self.vcodec),
            acodec: text_of(self.acodec),
            format_note: text_of(self.format_note),
        }
    }
}

/// The mathematical content of a `FormatInfo`.
pub struct FormatView {
    pub format_id: Seq<char>,
    pub ext: Seq<char>,
    pub resolution: Option<Seq<char>>,
    pub filesize: Option<i64>,
    pub filesize_approx: Option<i64>,
    pub vcodec: Option<Seq<char>>,
    pub acodec: Option<Seq<char>>,
    pub format_note: Option<Seq<char>>,
    pub quality_label: Option<Seq<char>>,
}

impl View for FormatInfo {
    type V = FormatView;

    open spec fn view(&self) -> FormatView {
        FormatView {
            format_id: self.format_id@,
            ext: self.ext@,
            resolution: text_of(self.resolution),
            filesize: self.filesize,
            filesize_approx: self.filesize_approx,
            vcodec: text_of(self.vcodec),
            acodec: text_of(self.acodec),
            format_note: text_of(self.format_note),
            quality_label: text_of(self.quality_label),
        }
    }
}

/// The format that a description stands for. A description without an id
/// is no format; one without an extension gets `unknown`; the quality
/// label is the format note.
pub open spec fn spec_format(raw: RawFormatView) -> Option<FormatView> {
    match raw.format_id {
        None => None,
        Some(id) => Some(
            FormatView {
                format_id: id,
                ext: match raw.ext {
                    Some(e) => e,
                    None => "unknown"@,
                },
                resolution: spec_resolution(raw.resolution, raw.width, raw.height),
                filesize: raw.filesize,
                filesize_approx: raw.filesize_approx,
                vcodec: spec_codec(raw.vcodec),
                acodec: spec_codec(raw.acodec),
                format_note: raw.format_note,
                quality_label: raw.format_note,
            },
        ),
    }
}

impl FormatInfo {
    /// The format that the extractor describes.
    pub fn from_raw(raw: RawFormat) -> (f: Option<FormatInfo>)
        ensures
            f is Some == spec_format(raw@) is Some,
            f is Some ==> f->0@ == spec_format(raw@)->0,
    {
        let format_id = match raw.format_id {
            Some(id) => id,
            None => {
                return None;
            },
        };
        let ext = match raw.ext {
            Some(e) => e,
            None => String::from_str("unknown"),
        };
        let resolution = match raw.resolution {
            Some(r) => Some(r),
            None => match (raw.width, raw.height) {
                (Some(w), Some(h)) => {
                    let mut out: Vec<char> = Vec::new();
                    push_signed(&mut out, w);
                    out.push('x');
                    push_signed(&mut out, h);
                    proof {
                        assert(out@ =~= spec_signed(w) + seq!['x'] + spec_signed(h));
                    }
                    Some(string_of(&out))
                },
                _ => None,
            },
        };
        let quality_label = match &raw.format_note {
            Some(n) => Some(n.clone()),
            None => None,
        };
        Some(
            FormatInfo {
                format_id,
                ext,
                resolution,
                filesize: raw.filesize,
                filesize_approx: raw.filesize_approx,
                vcodec: shown_codec(raw.vcodec),
                acodec: shown_codec(raw.acodec),
                format_note: raw.format_note,
                quality_label,
            },
        )
    }
}

/// A chapter of a recording, its times in milliseconds.
#[derive(Debug, Clone)]
pub struct Chapter {
    pub start_ms: i64,
    pub end_ms: i64,
    pub title: String,
}

/// What the extractor says of a URL, as it says it.
#[derive(Debug, Clone)]
pub struct RawMediaInfo {
    pub title: Option<String>,
    /// Duration in seconds.
    pub duration: Option<i64>,
    pub thumbnail: Option<String>,
    pub formats: Vec<RawFormat>,
    pub extractor: Option<String>,
    pub extractor_key: Option<String>,
    pub uploader: Option<String>,
    pub description: Option<String>,
    pub view_count: Option<i64>,
    pub like_count: Option<i64>,
    pub upload_date: Option<String>,
    pub webpage_url: Option<String>,
    pub chapters: Option<Vec<Chapter>>,
}

/// What is known of a URL.
#[derive(Debug, Clone)]
pub struct MediaInfo {
    pub title: String,
    pub duration: Option<i64>,
    pub thumbnail: Option<String>,
    pub formats: Vec<FormatInfo>,
    pub platform: String,
    pub uploader: Option<String>,
    pub description: Option<String>,
    pub view_count: Option<i64>,
    pub like_count: Option<i64>,
    pub upload_date: Option<String>,
    pub webpage_url: Option<String>,
    pub chapters: Option<Vec<Chapter>>,
}

/// The views of a list of descriptions.
pub open spec fn raw_views(list: Seq<RawFormat>) -> Seq<RawFormatView> {
    Seq::new(list.len(), |i: int| list[i]@)
}

/// The views of a list of formats.
pub open spec fn format_views(list: Seq<FormatInfo>) -> Seq<FormatView> {
    Seq::new(list.len(), |i: int| list[i]@)
}

impl MediaInfo {
    /// What is known of a URL, from what the extractor says: a missing
    /// title reads `Unknown`; the platform is the extractor's name, or its
    /// key, or `unknown`; the formats are the descriptions that have an id,
    /// in their order.
    pub fn from_raw(raw: RawMediaInfo) -> (info: MediaInfo)
        ensures
            info.title@ == (match raw.title {
                Some(t) => t@,
                None => "Unknown"@,
            }),
            info.platform@ == (match raw.extractor {
                Some(e) => e@,
                None => match raw.extractor_key {
                    Some(k) => k@,
                    None => "unknown"@,
                },
            }),
            format_views(info.formats@) == raw_views(raw.formats@).filter_map(
                |r: RawFormatView| spec_format(r),
            ),
            info.duration == raw.duration,
            info.thumbnail == raw.thumbnail,
            info.uploader == raw.uploader,
            info.description == raw.description,
            info.view_count == raw.view_count,
            info.like_count == raw.like_count,
            info.upload_date == raw.upload_date,
            info.webpage_url == raw.webpage_url,
            info.chapters == raw.chapters,
    {
        let mut formats: Vec<FormatInfo> = Vec::new();
        let mut raws = raw.formats;
        let ghost all = raw_views(raws@);
        let ghost f = |r: RawFormatView| spec_format(r);
        // The descriptions are taken from the back, so the formats come out
        // in reverse and are turned round at the end.
        let mut reversed: Vec<FormatInfo> = Vec::new();
        proof {
            assert(all.skip(all.len() as int).filter_map(f) =~= Seq::<FormatView>::empty()) by {
                assert(all.skip(all.len() as int).len() == 0);
            }
        }
        while raws.len() > 0
            invariant
                f == (|r: RawFormatView| spec_format(r)),
                raws@.len() <= all.len(),
                raw_views(raws@) == all.take(raws@.len() as int),
                format_views(reversed@).reverse() == all.skip(raws@.len() as int).filter_map(f),
            decreases raws.len(),
        {
            let ghost n = raws@.len() as int;
            let ghost before = format_views(reversed@);
            let ghost old_raws = raws@;
            let last = raws.pop().unwrap();
            proof {
                assert(raw_views(old_raws)[n - 1] == old_raws[n - 1]@);
                assert(all.take(n)[n - 1] == all[n - 1]);
                assert(raw_views(raws@) =~= all.take(n - 1));
                assert(last@ == all[n - 1]);
                lemma_filter_map_front(all.skip(n - 1), f);
                assert(all.skip(n - 1).drop_first() =~= all.skip(n));
            }
            match FormatInfo::from_raw(last) {
                Some(format) => {
                    let ghost v = format@;
                    reversed.push(format);
                    proof {
                        assert(format_views(reversed@) =~= before.push(v));
                        assert(before.push(v).reverse() =~= seq![v] + before.reverse());
                    }
                },
                None => {},
            }
        }
        proof {
            assert(all.skip(0) =~= all);
        }
        let ghost target = format_views(reversed@).reverse();
        while reversed.len() > 0
            invariant
                format_views(formats@) + format_views(reversed@).reverse() == target,
            decreases reversed.len(),
        {
            let ghost rest = format_views(reversed@);
            let ghost done = format_views(formats@);
            let format = reversed.pop().unwrap();
            let ghost v = format@;
            formats.push(format);
            proof {
                assert(format_views(reversed@) =~= rest.drop_last());
                assert(rest.last() == v);
                assert(format_views(formats@) =~= done.push(v));
                assert(rest.reverse() =~= seq![v] + rest.drop_last().reverse());
                assert(done.push(v) + rest.drop_last().reverse() =~= done + rest.reverse());
            }
        }
        proof {
            assert(format_views(reversed@).reverse() =~= Seq::<FormatView>::empty());
            assert(format_views(formats@) + Seq::<FormatView>::empty() =~= format_views(formats@));
        }
        let title = match raw.title {
            Some(t) => t,
            None => String::from_str("Unknown"),
        };
        let platform = match raw.extractor {
            Some(e) => e,
            None => match raw.extractor_key {
                Some(k) => k,
                None => String::from_str("unknown"),
            },
        };
        MediaInfo {
            title,
            duration: raw.duration,
            thumbnail: raw.thumbnail,
            formats,
            platform,
            uploader: raw.uploader,
            description: raw.description,
            view_count: raw.view_count,
            like_count: raw.like_count,
            upload_date: raw.upload_date,
            webpage_url: raw.webpage_url,
            chapters: raw.chapters,
        }
    }
}

/// Filtering and mapping a list is filtering and mapping its first element,
/// then the rest.
proof fn lemma_filter_map_front<A, B>(s: Seq<A>, f: spec_fn(A) -> Option<B>)
    requires
        s.len() > 0,
    ensures
        s.filter_map(f) == (match f(s[0]) {
            Some(b) => seq![b] + s.drop_first().filter_map(f),
            None => s.drop_first().filter_map(f),
        }),
    decreases s.len(),
{
    if s.len() == 1 {
        assert(s.drop_last() =~= Seq::<A>::empty());
        assert(s.drop_first() =~= Seq::<A>::empty());
        assert(s.drop_last().filter_map(f) =~= Seq::<B>::empty());
        assert(s.last() == s[0]);
        match f(s[0]) {
            Some(b) => {
                assert(Seq::<B>::empty() + seq![b] =~= seq![b] + Seq::<B>::empty());
            },
            None => {},
        }
    } else {
        lemma_filter_map_front(s.drop_last(), f);
        assert(s.drop_last()[0] == s[0]);
        assert(s.drop_last().drop_first() =~= s.drop_first().drop_last());
        assert(s.drop_first().last() == s.last());
        let front = s.drop_last().drop_first().filter_map(f);
        match (f(s[0]), f(s.last())) {
            (Some(b), Some(l)) => {
                assert((seq![b] + front) + seq![l] =~= seq![b] + (front + seq![l]));
            },
            _ => {},
        }
    }
}

impl DirectFileInfo {
    /// What a server says of a file it offers directly, from the headers
    /// of its answer: the size from `Content-Length` (0 where that is no
    /// number), the name the server proposes or else the last segment of
    /// the URL's path (unless that is empty or `download`), and whether
    /// the content type is one of media.
    pub fn from_headers(
        url: &str,
        content_length: Option<&str>,
        content_type: Option<String>,
        content_disposition: Option<&str>,
    ) -> (info: Self)
        ensures
            info.file_size == spec_direct_size(
                match content_length {
                    Some(c) => Some(c@),
                    None => None,
                },
            ),
            text_of(info.filename) == spec_direct_name(
                url@,
                match content_disposition {
                    Some(c) => Some(c@),
                    None => None,
                },
            ),
            info.content_type == content_type,
            info.is_media == spec_is_media_type(text_of(content_type)),
    {
        let file_size: i64 = match content_length {
            Some(c) => {
                let chars = chars_of(c);
                match parse_u64(&chars) {
                    Some(v) => if v <= 9223372036854775807 {
                        v as i64
                    } else {
                        0
                    },
                    None => 0,
                }
            },
            None => 0,
        };
        let proposed = match content_disposition {
            Some(h) => crate::snde::disposition_name(h),
            None => None,
        };
        let filename = match proposed {
            Some(n) => Some(n),
            None => {
                let seg = match parse_url(url) {
                    Some(parsed) => last_segment(parsed.path.as_str()),
                    None => None,
                };
                match seg {
                    Some(s) => {
                        let chars = chars_of(s.as_str());
                        if chars.len() == 0 || is_text(&chars, "download") {
                            None
                        } else {
                            Some(s)
                        }
                    },
                    None => None,
                }
            },
        };
        let is_media = match &content_type {
            Some(ct) => is_media_type(Some(ct.as_str())),
            None => is_media_type(None),
        };
        DirectFileInfo { file_size, filename, content_type, is_media }
    }
}

/// The size that a `Content-Length` value states; 0 where it states none
/// that fits.
pub open spec fn spec_direct_size(content_length: Option<Seq<char>>) -> i64 {
    match content_length {
        Some(c) => match crate::text::spec_parse_u64(c) {
            Some(v) => if v <= i64::MAX {
                v as i64
            } else {
                0
            },
            None => 0,
        },
        None => 0,
    }
}

/// The name of a file offered directly.
pub open spec fn spec_direct_name(url: Seq<char>, content_disposition: Option<Seq<char>>) -> Option<
    Seq<char>,
> {
    let proposed = match content_disposition {
        Some(h) => crate::snde::spec_disposition_name(h),
        None => None,
    };
    match proposed {
        Some(n) => Some(n),
        None => match spec_url_parts(url) {
            Some(parts) => match spec_last_segment(parts.path) {
                Some(seg) => if seg.len() == 0 || seg == "download"@ {
                    None
                } else {
                    Some(seg)
                },
                None => None,
            },
            None => None,
        },
    }
}

/// A place where a helper program may be.
pub struct BinaryCandidate {
    pub path: String,
    /// A file is there.
    pub exists: bool,
}

/// `i` is the first candidate at which a file is.
pub open spec fn is_first_existing(candidates: Seq<BinaryCandidate>, i: int) -> bool {
    &&& 0 <= i < candidates.len()
    &&& candidates[i].exists
    &&& forall|j: int| 0 <= j < i ==> !(#[trigger] candidates[j]).exists
}

/// The helper program to use: the first of the candidates at which a file
/// is. The candidates are given in order of preference, the application's
/// own directory before what came packaged; the user's search path is not
/// among them.
pub fn pick_binary(candidates: &Vec<BinaryCandidate>) -> (found: Option<usize>)
    ensures
        match found {
            Some(i) => is_first_existing(candidates@, i as int),
            None => forall|j: int| 0 <= j < candidates@.len() ==> !(#[trigger] candidates@[j]).exists,
        },
{
    let mut i: usize = 0;
    while i < candidates.len()
        invariant
            i <= candidates.len(),
            forall|j: int| 0 <= j < i ==> !(#[trigger] candidates@[j]).exists,
        decreases candidates.len() - i,
    {
        if candidates[i].exists {
            return Some(i);
        }
        i += 1;
    }
    None
}

} // verus!
