//! Performance metrics: frame times and input latency over the last samples,
//! and a frame count. Times are read from the monotonic clock.

use vstd::prelude::*;
use crate::text::{chars_of, concat_string, decimal_digits, string_from_chars};

verus! {

/// Samples kept for averaging.
pub const MAX_SAMPLES: usize = 100;

/// `Instant::now`.
#[verifier::external_body]
fn clock_now() -> std::time::Instant {
    std::time::Instant::now()
}

/// `Instant::elapsed` in nanoseconds (`Duration::as_nanos`): it depends on
/// the clock, so nothing is promised of its value.
#[verifier::external_body]
fn nanos_elapsed(since: &std::time::Instant) -> u128 {
    since.elapsed().as_nanos()
}

/// `Instant::elapsed`: the time since `since`, as a `Duration`.
#[verifier::external_body]
fn elapsed_duration(since: &std::time::Instant) -> std::time::Duration {
    since.elapsed()
}

/// What `Debug` prints for a `Duration` of `secs` seconds and `nanos`
/// nanoseconds (such as `1.5s`, `250ms` or `0ns`).
pub uninterp spec fn duration_debug_text(secs: u64, nanos: u32) -> Seq<char>;

/// `Debug` for `std::time::Duration::new(secs, nanos)`: its text, left to the
/// name `duration_debug_text`.
#[verifier::external_body]
fn duration_text(secs: u64, nanos: u32) -> (s: String)
    requires
        nanos < 1_000_000_000,
    ensures
        s@ == duration_debug_text(secs, nanos),
{
    format!("{:?}", std::time::Duration::new(secs, nanos))
}

/// The smallest sample.
pub open spec fn sample_min(s: Seq<u64>) -> u64
    decreases s.len(),
{
    if s.len() <= 1 { s[0] } else if s.last() < sample_min(s.drop_last()) { s.last() } else { sample_min(s.drop_last()) }
}

/// The largest sample.
pub open spec fn sample_max(s: Seq<u64>) -> u64
    decreases s.len(),
{
    if s.len() <= 1 { s[0] } else if s.last() > sample_max(s.drop_last()) { s.last() } else { sample_max(s.drop_last()) }
}

proof fn lemma_sample_min_max(s: Seq<u64>)
    requires
        s.len() > 0,
    ensures
        s.contains(sample_min(s)),
        s.contains(sample_max(s)),
        forall|i: int| 0 <= i < s.len() ==> sample_min(s) <= #[trigger] s[i] <= sample_max(s),
    decreases s.len(),
{
    if s.len() > 1 {
        let t = s.drop_last();
        lemma_sample_min_max(t);
        assert forall|i: int| 0 <= i < s.len() implies sample_min(s) <= #[trigger] s[i] <= sample_max(s) by {
            if i < t.len() {
                assert(s[i] == t[i]);
            }
        }
        let j = choose|j: int| 0 <= j < t.len() && t[j] == sample_min(t);
        let k = choose|k: int| 0 <= k < t.len() && t[k] == sample_max(t);
        assert(s[j] == t[j] && s[k] == t[k]);
        assert(s[s.len() - 1] == s.last());
    } else {
        assert(s[0] == s[0]);
    }
}

/// Text for a fraction in milliseconds with two decimals, or `0.00` when
/// there is nothing to average.
pub open spec fn ms2_or_zero(num: nat, den: nat) -> Seq<char> {
    if den > 0 { fixed2(num, den) } else { "0.00"@ }
}

/// The summary of enabled metrics with `memory_bytes` of memory in use and
/// `uptime_nanos` since collection started: the frame rate, the average,
/// shortest and longest frame time and the average input latency in
/// milliseconds, the memory in megabytes, the frame count and the uptime.
pub open spec fn summary_text(m: Metrics, memory_bytes: u64, uptime_nanos: u64) -> Seq<char> {
    let f = m.frame_times@;
    let l = m.input_latencies@;
    let fsum = sample_sum(f) as nat;
    "FPS: "@ + (if fsum > 0 { fixed1(1_000_000_000 * f.len(), fsum) } else { "0.0"@ })
        + " | Frame: "@ + ms2_or_zero(fsum, 1_000_000 * f.len())
        + "ms (min "@ + (if f.len() > 0 { fixed2(sample_min(f) as nat, 1_000_000) } else { "0.00"@ })
        + ", max "@ + (if f.len() > 0 { fixed2(sample_max(f) as nat, 1_000_000) } else { "0.00"@ })
        + ") | Input latency: "@ + ms2_or_zero(sample_sum(l) as nat, 1_000_000 * l.len())
        + "ms | Memory: "@ + fixed1(memory_bytes as nat, 1_048_576)
        + "MB | Frames: "@ + decimal_digits(m.total_frames as nat)
        + " | Uptime: "@ + duration_debug_text((uptime_nanos / 1_000_000_000) as u64, (uptime_nanos % 1_000_000_000) as u32)
}

/// One timed frame (`frame_end` after a `frame_start`, collection on): the
/// frame is counted and its time joins the samples.
pub open spec fn frame_timed(a: Metrics, b: Metrics) -> bool {
    &&& b.enabled == a.enabled
    &&& b.total_frames == a.total_frames + 1
    &&& exists|t: u64| b.frame_times@ == #[trigger] with_sample(a.frame_times@, t)
}

/// Over `n` timed frames the count grows by `n` and the samples kept grow
/// with them up to the last 100.
pub proof fn law_frames_counted(tr: Seq<Metrics>)
    requires
        tr.len() > 0,
        tr[0].frame_times@.len() <= MAX_SAMPLES,
        forall|i: int| 0 <= i < tr.len() - 1 ==> #[trigger] frame_timed(tr[i], tr[i + 1]),
    ensures
        tr.last().total_frames == tr[0].total_frames + (tr.len() - 1),
        tr.last().frame_times@.len() == if tr[0].frame_times@.len() + (tr.len() - 1) <= MAX_SAMPLES {
            tr[0].frame_times@.len() + (tr.len() - 1)
        } else {
            MAX_SAMPLES as int
        },
    decreases tr.len(),
{
    if tr.len() > 1 {
        let u = tr.drop_last();
        assert forall|i: int| 0 <= i < u.len() - 1 implies #[trigger] frame_timed(u[i], u[i + 1]) by {
            assert(frame_timed(tr[i], tr[i + 1]));
        }
        law_frames_counted(u);
        let j = tr.len() - 2;
        assert(frame_timed(tr[j], tr[j + 1]));
        assert(tr[j + 1] == tr.last());
        let t = choose|t: u64| tr.last().frame_times@ == with_sample(u.last().frame_times@, t);
        assert(u.last() == tr[tr.len() - 2]);
    }
}

/// Performance metrics tracker.
pub struct Metrics {
    /// Frame time samples (nanoseconds), oldest first.
    pub frame_times: Vec<u64>,
    /// Input latency samples (nanoseconds), oldest first.
    pub input_latencies: Vec<u64>,
    /// When the current frame started.
    pub last_frame_start: Option<std::time::Instant>,
    /// When the last input arrived.
    pub last_input_time: Option<std::time::Instant>,
    /// Frames rendered.
    pub total_frames: u64,
    /// When collection started, for the uptime.
    pub start_time: std::time::Instant,
    /// Whether metrics are collected.
    pub enabled: bool,
}

/// A sample list after one more sample: the oldest goes when it is full.
pub open spec fn with_sample(s: Seq<u64>, v: u64) -> Seq<u64> {
    if s.len() >= MAX_SAMPLES { s.drop_first().push(v) } else { s.push(v) }
}

/// The sum of the samples.
pub open spec fn sample_sum(s: Seq<u64>) -> int
    decreases s.len(),
{
    if s.len() == 0 { 0 } else { sample_sum(s.drop_last()) + s.last() }
}

proof fn lemma_sample_sum_bound(s: Seq<u64>)
    ensures
        0 <= sample_sum(s) <= s.len() * u64::MAX,
    decreases s.len(),
{
    if s.len() > 0 {
        lemma_sample_sum_bound(s.drop_last());
    }
}

fn push_sample(s: &mut Vec<u64>, v: u64)
    requires
        old(s)@.len() <= MAX_SAMPLES,
    ensures
        final(s)@ == with_sample(old(s)@, v),
        final(s)@.len() <= MAX_SAMPLES,
{
    if s.len() >= MAX_SAMPLES {
        s.remove(0);
        proof {
            assert(s@ =~= old(s)@.drop_first());
        }
    }
    s.push(v);
}

fn sum_samples(s: &Vec<u64>) -> (r: u128)
    requires
        s@.len() <= MAX_SAMPLES,
    ensures
        r == sample_sum(s@),
{
    let mut acc: u128 = 0;
    let mut i: usize = 0;
    while i < s.len()
        invariant
            i <= s@.len() <= MAX_SAMPLES,
            acc == sample_sum(s@.subrange(0, i as int)),
        decreases s@.len() - i,
    {
        proof {
            assert(s@.subrange(0, i as int + 1).drop_last() =~= s@.subrange(0, i as int));
            lemma_sample_sum_bound(s@.subrange(0, i as int));
        }
        acc = acc + s[i] as u128;
        i += 1;
    }
    proof {
        assert(s@.subrange(0, s@.len() as int) =~= s@);
    }
    acc
}

/// `value` rounded to one decimal place (half up), as text: the digits,
/// a point and one digit.
pub open spec fn fixed1(num: nat, den: nat) -> Seq<char> {
    let n = (num * 20 + den) / (2 * den);
    decimal_digits(n / 10) + seq!['.'] + seq![((n % 10) + '0' as nat) as char]
}

/// `num / den` rounded to two decimal places (half up), as text.
pub open spec fn fixed2(num: nat, den: nat) -> Seq<char> {
    let n = (num * 200 + den) / (2 * den);
    decimal_digits(n / 100) + seq!['.'] + seq![(((n / 10) % 10) + '0' as nat) as char, ((n % 10) + '0' as nat) as char]
}

fn u128_digits(n: u128) -> (v: Vec<char>)
    ensures
        v@ == decimal_digits(n as nat),
    decreases n,
{
    if n < 10 {
        let mut v = Vec::new();
        v.push(((n as u32) + ('0' as u32)) as u8 as char);
        assert(v@ =~= decimal_digits(n as nat));
        v
    } else {
        let mut v = u128_digits(n / 10);
        v.push((((n % 10) as u32) + ('0' as u32)) as u8 as char);
        v
    }
}

fn fixed1_text(num: u128, den: u128) -> (v: Vec<char>)
    requires
        den > 0,
        num <= 0xffff_ffff_ffff_ffff_ffff_ffffu128,
        den <= 0xffff_ffff_ffff_ffff_ffff_ffffu128,
    ensures
        v@ == fixed1(num as nat, den as nat),
{
    let n = (num * 20 + den) / (2 * den);
    let mut v = u128_digits(n / 10);
    v.push('.');
    v.push((((n % 10) as u32) + ('0' as u32)) as u8 as char);
    proof {
        assert(v@ =~= fixed1(num as nat, den as nat));
    }
    v
}

fn fixed2_text(num: u128, den: u128) -> (v: Vec<char>)
    requires
        den > 0,
        num <= 0xffff_ffff_ffff_ffff_ffff_ffffu128,
        den <= 0xffff_ffff_ffff_ffff_ffff_ffffu128,
    ensures
        v@ == fixed2(num as nat, den as nat),
{
    let n = (num * 200 + den) / (2 * den);
    let mut v = u128_digits(n / 100);
    v.push('.');
    v.push(((((n / 10) % 10) as u32) + ('0' as u32)) as u8 as char);
    v.push((((n % 10) as u32) + ('0' as u32)) as u8 as char);
    proof {
        assert(v@ =~= fixed2(num as nat, den as nat));
    }
    v
}

impl Default for Metrics {
    fn default() -> (m: Metrics)
        ensures
            !m.enabled,
            m.frame_times@.len() == 0,
            m.input_latencies@.len() == 0,
            m.total_frames == 0,
    {
        Metrics::new()
    }
}

impl Metrics {
    pub open spec fn wf(&self) -> bool {
        self.frame_times@.len() <= MAX_SAMPLES && self.input_latencies@.len() <= MAX_SAMPLES
    }

    /// A tracker with nothing recorded, collection off.
    pub fn new() -> (m: Metrics)
        ensures
            m.wf(),
            !m.enabled,
            m.frame_times@.len() == 0,
            m.input_latencies@.len() == 0,
            m.last_frame_start.is_none(),
            m.last_input_time.is_none(),
            m.total_frames == 0,
    {
        Metrics {
            frame_times: Vec::new(),
            input_latencies: Vec::new(),
            last_frame_start: None,
            last_input_time: None,
            total_frames: 0,
            start_time: clock_now(),
            enabled: false,
        }
    }

    /// Turn collection on (starting afresh) or off.
    pub fn set_enabled(&mut self, enabled: bool)
        ensures
            final(self).enabled == enabled,
            enabled ==> final(self).frame_times@.len() == 0 && final(self).input_latencies@.len() == 0
                && final(self).total_frames == 0 && final(self).last_frame_start.is_none()
                && final(self).last_input_time.is_none(),
            !enabled ==> *final(self) == (Metrics { enabled: false, ..*old(self) }),
            old(self).wf() ==> final(self).wf(),
    {
        self.enabled = enabled;
        if enabled {
            self.reset();
        }
    }

    pub fn is_enabled(&self) -> (b: bool)
        ensures
            b == self.enabled,
    {
        self.enabled
    }

    /// Forget everything recorded; the uptime starts again.
    pub fn reset(&mut self)
        ensures
            final(self).wf(),
            final(self).enabled == old(self).enabled,
            final(self).frame_times@.len() == 0,
            final(self).input_latencies@.len() == 0,
            final(self).last_frame_start.is_none(),
            final(self).last_input_time.is_none(),
            final(self).total_frames == 0,
    {
        self.frame_times = Vec::new();
        self.input_latencies = Vec::new();
        self.last_frame_start = None;
        self.last_input_time = None;
        self.total_frames = 0;
        self.start_time = clock_now();
    }

    /// A frame starts (when collecting).
    pub fn frame_start(&mut self)
        ensures
            old(self).enabled ==> final(self).last_frame_start.is_some(),
            !old(self).enabled ==> *final(self) == *old(self),
            final(self).frame_times == old(self).frame_times,
            final(self).input_latencies == old(self).input_latencies,
            final(self).total_frames == old(self).total_frames,
            final(self).enabled == old(self).enabled,
    {
        if self.enabled {
            self.last_frame_start = Some(clock_now());
        }
    }

    /// A frame ends: its time since the start is recorded and counted.
    pub fn frame_end(&mut self)
        requires
            old(self).wf(),
            old(self).total_frames < u64::MAX,
        ensures
            final(self).wf(),
            final(self).enabled == old(self).enabled,
            final(self).input_latencies == old(self).input_latencies,
            old(self).enabled && old(self).last_frame_start.is_some() ==> {
                &&& frame_timed(*old(self), *final(self))
                &&& final(self).total_frames == old(self).total_frames + 1
                &&& exists|t: u64| final(self).frame_times@ == with_sample(old(self).frame_times@, t)
                &&& final(self).last_frame_start.is_none()
            },
            !(old(self).enabled && old(self).last_frame_start.is_some()) ==> *final(self) == *old(self),
    {
        if !self.enabled {
            return;
        }
        let start = self.last_frame_start.take();
        match start {
            Some(s) => {
                let elapsed = nanos_elapsed(&s) as u64;
                push_sample(&mut self.frame_times, elapsed);
                self.total_frames = self.total_frames + 1;
            },
            None => {},
        }
    }

    /// An input event arrived (when collecting).
    pub fn input_received(&mut self)
        ensures
            old(self).enabled ==> final(self).last_input_time.is_some(),
            !old(self).enabled ==> *final(self) == *old(self),
            final(self).frame_times == old(self).frame_times,
            final(self).input_latencies == old(self).input_latencies,
            final(self).total_frames == old(self).total_frames,
            final(self).enabled == old(self).enabled,
    {
        if self.enabled {
            self.last_input_time = Some(clock_now());
        }
    }

    /// The last input was processed: its latency is recorded.
    pub fn input_rendered(&mut self)
        requires
            old(self).wf(),
        ensures
            final(self).wf(),
            final(self).enabled == old(self).enabled,
            final(self).frame_times == old(self).frame_times,
            final(self).total_frames == old(self).total_frames,
            old(self).enabled && old(self).last_input_time.is_some() ==> {
                &&& exists|t: u64| final(self).input_latencies@ == with_sample(old(self).input_latencies@, t)
                &&& final(self).last_input_time.is_none()
            },
            !(old(self).enabled && old(self).last_input_time.is_some()) ==>
                final(self).input_latencies == old(self).input_latencies,
    {
        if !self.enabled {
            return;
        }
        let start = self.last_input_time.take();
        match start {
            Some(s) => {
                let latency = nanos_elapsed(&s) as u64;
                push_sample(&mut self.input_latencies, latency);
            },
            None => {},
        }
    }

    /// Frames rendered.
    pub fn total_frames(&self) -> (n: u64)
        ensures
            n == self.total_frames,
    {
        self.total_frames
    }

    /// Time since collection started.
    pub fn uptime(&self) -> std::time::Duration {
        elapsed_duration(&self.start_time)
    }

    /// Sum and count of the frame time samples, in nanoseconds.
    pub fn frame_time_total(&self) -> (r: (u128, usize))
        requires
            self.wf(),
        ensures
            r.0 == sample_sum(self.frame_times@),
            r.1 == self.frame_times@.len(),
    {
        (sum_samples(&self.frame_times), self.frame_times.len())
    }

    /// Sum and count of the input latency samples, in nanoseconds.
    pub fn input_latency_total(&self) -> (r: (u128, usize))
        requires
            self.wf(),
        ensures
            r.0 == sample_sum(self.input_latencies@),
            r.1 == self.input_latencies@.len(),
    {
        (sum_samples(&self.input_latencies), self.input_latencies.len())
    }

    /// The shortest frame time sample, in nanoseconds.
    pub fn min_frame_time_ns(&self) -> (r: Option<u64>)
        ensures
            self.frame_times@.len() == 0 <==> r.is_none(),
            r.is_some() ==> self.frame_times@.contains(r.unwrap())
                && forall|i: int| 0 <= i < self.frame_times@.len() ==> r.unwrap() <= #[trigger] self.frame_times@[i],
    {
        if self.frame_times.len() == 0 {
            return None;
        }
        let mut best = self.frame_times[0];
        let mut i: usize = 1;
        while i < self.frame_times.len()
            invariant
                1 <= i <= self.frame_times@.len(),
                self.frame_times@.contains(best),
                forall|j: int| 0 <= j < i ==> best <= #[trigger] self.frame_times@[j],
            decreases self.frame_times@.len() - i,
        {
            if self.frame_times[i] < best {
                best = self.frame_times[i];
            }
            i += 1;
        }
        Some(best)
    }

    /// The longest frame time sample, in nanoseconds.
    pub fn max_frame_time_ns(&self) -> (r: Option<u64>)
        ensures
            self.frame_times@.len() == 0 <==> r.is_none(),
            r.is_some() ==> self.frame_times@.contains(r.unwrap())
                && forall|i: int| 0 <= i < self.frame_times@.len() ==> #[trigger] self.frame_times@[i] <= r.unwrap(),
    {
        if self.frame_times.len() == 0 {
            return None;
        }
        let mut best = self.frame_times[0];
        let mut i: usize = 1;
        while i < self.frame_times.len()
            invariant
                1 <= i <= self.frame_times@.len(),
                self.frame_times@.contains(best),
                forall|j: int| 0 <= j < i ==> #[trigger] self.frame_times@[j] <= best,
            decreases self.frame_times@.len() - i,
        {
            if self.frame_times[i] > best {
                best = self.frame_times[i];
            }
            i += 1;
        }
        Some(best)
    }

    /// A one-line summary: `Metrics disabled`, or (see `summary_text`) the
    /// frame rate, the average, shortest and longest frame time and the
    /// average input latency (in milliseconds, rounded half up), the memory
    /// in use (`memory_bytes`, in megabytes), the frame count and the uptime
    /// (`uptime_nanos`). The caller measures memory and uptime.
    pub fn summary(&self, memory_bytes: u64, uptime_nanos: u64) -> (s: String)
        requires
            self.wf(),
        ensures
            !self.enabled ==> s@ == "Metrics disabled"@,
            self.enabled ==> s@ == summary_text(*self, memory_bytes, uptime_nanos),
    {
        if !self.enabled {
            return "Metrics disabled".to_string();
        }
        let (fsum, fcount) = sum_pair(self);
        let (isum, icount) = self.input_latency_total();
        proof {
            lemma_sample_sum_bound(self.frame_times@);
            lemma_sample_sum_bound(self.input_latencies@);
        }
        let mut text = chars_of("FPS: ");
        let fps = if fsum > 0 { fixed1_text(1_000_000_000u128 * fcount as u128, fsum) } else { chars_of("0.0") };
        text = join(&text, &fps);
        text = join(&text, &chars_of(" | Frame: "));
        let avg = if fcount > 0 { fixed2_text(fsum, 1_000_000u128 * fcount as u128) } else { chars_of("0.00") };
        text = join(&text, &avg);
        text = join(&text, &chars_of("ms (min "));
        proof {
            if self.frame_times@.len() > 0 {
                lemma_sample_min_max(self.frame_times@);
            }
        }
        let min = match self.min_frame_time_ns() { Some(v) => fixed2_text(v as u128, 1_000_000), None => chars_of("0.00") };
        text = join(&text, &min);
        text = join(&text, &chars_of(", max "));
        let max = match self.max_frame_time_ns() { Some(v) => fixed2_text(v as u128, 1_000_000), None => chars_of("0.00") };
        text = join(&text, &max);
        text = join(&text, &chars_of(") | Input latency: "));
        let lat = if icount > 0 { fixed2_text(isum, 1_000_000u128 * icount as u128) } else { chars_of("0.00") };
        text = join(&text, &lat);
        text = join(&text, &chars_of("ms | Memory: "));
        let mem = fixed1_text(memory_bytes as u128, 1_048_576);
        text = join(&text, &mem);
        text = join(&text, &chars_of("MB | Frames: "));
        let frames = crate::text::u64_to_decimal(self.total_frames);
        text = join(&text, &frames);
        text = join(&text, &chars_of(" | Uptime: "));
        let up = duration_text(uptime_nanos / 1_000_000_000, (uptime_nanos % 1_000_000_000) as u32);
        let up_chars = chars_of(up.as_str());
        text = join(&text, &up_chars);
        string_from_chars(text.as_slice())
    }
}

fn sum_pair(m: &Metrics) -> (r: (u128, usize))
    requires
        m.wf(),
    ensures
        r.0 == sample_sum(m.frame_times@),
        r.1 == m.frame_times@.len(),
        r.1 <= MAX_SAMPLES,
{
    m.frame_time_total()
}

fn join(a: &Vec<char>, b: &Vec<char>) -> (v: Vec<char>)
    ensures
        v@ == a@ + b@,
{
    let mut v = a.clone();
    let mut i: usize = 0;
    while i < b.len()
        invariant
            i <= b@.len(),
            v@ == a@ + b@.subrange(0, i as int),
        decreases b@.len() - i,
    {
        v.push(b[i]);
        i += 1;
        proof {
            assert(v@ =~= a@ + b@.subrange(0, i as int));
        }
    }
    proof {
        assert(b@.subrange(0, b@.len() as int) =~= b@);
    }
    v
}

} // verus!
