//! The progress half of one encode attempt: parse the tool's
//! machine-readable progress lines, compute percent and the estimated
//! remainder, throttle emissions, and classify the terminal outcome.
//!
//! The loop that reads the pipe lives outside; it hands each line in here
//! and tells whether the wall-clock emission interval has elapsed. Every
//! decision below that is verified. Emitted percents never decrease within
//! one attempt, and a successful attempt ends with a synthetic
//! full-completion event.

use vstd::prelude::*;
use vstd::string::StringExecFns;
use vstd::string::StrSliceExecFns;
use crate::encoders::views;
use crate::error_protocol::encoded_error;
use crate::error_protocol::error_canceled_by_user;
use crate::model::ProgressEvent;
use crate::probe::decimal_milli;
use crate::probe::parse_decimal_milli;
use crate::probe::trim_of;
use crate::probe::trim_str;
use crate::probe::well_formed_decimal;
use crate::strings::has_substring_at;
use crate::strings::str_eq;
use crate::strings::strip_prefix_str;

verus! {

/// The percent step and the near-completion threshold of the throttle, in
/// thousandths of a percent.
pub const PROGRESS_EMIT_PERCENT_STEP_MILLI: u32 = 250;

pub const PROGRESS_NEAR_END_MILLI: u32 = 99900;

/// What one line of the tool's progress stream says.
pub enum ProgressLine {
    /// Elapsed stream time, in microseconds; a negative report clamps to
    /// zero.
    OutTime(u64),
    /// The speed multiplier, in thousandths.
    Speed(u64),
    /// The marker that closes one progress block.
    Continue,
    /// Anything else, ignored.
    Other,
}

/// The elapsed time a `out_time_ms=` payload names, in microseconds: a
/// plain decimal, trimmed; a leading minus clamps to zero; anything else
/// is unusable.
pub open spec fn out_time_of(rest: Seq<char>) -> Option<u64> {
    let t = trim_of(rest);
    if t.len() > 0 && t[0] == '-' {
        if well_formed_decimal(t.skip(1)) && decimal_milli(t.skip(1)) <= u64::MAX {
            Some(0u64)
        } else {
            None
        }
    } else {
        if well_formed_decimal(t) && decimal_milli(t) <= u64::MAX {
            Some((decimal_milli(t) / 1000) as u64)
        } else {
            None
        }
    }
}

/// The speed a `speed=` payload names, in thousandths: digits with an `x`
/// right at the end, as the tool prints it.
pub open spec fn speed_of(rest: Seq<char>) -> Option<u64> {
    if rest.len() > 0 && rest.last() == 'x' {
        let t = trim_of(rest.drop_last());
        if well_formed_decimal(t) && decimal_milli(t) <= u64::MAX {
            Some(decimal_milli(t) as u64)
        } else {
            None
        }
    } else {
        None
    }
}

/// How one line of the progress stream is read.
pub open spec fn classify(line: Seq<char>) -> ProgressLine {
    if has_substring_at(line, "out_time_ms="@, 0) {
        match out_time_of(line.skip("out_time_ms="@.len() as int)) {
            Some(v) => ProgressLine::OutTime(v),
            None => ProgressLine::Other,
        }
    } else if has_substring_at(line, "speed="@, 0) {
        match speed_of(line.skip("speed="@.len() as int)) {
            Some(v) => ProgressLine::Speed(v),
            None => ProgressLine::Other,
        }
    } else if trim_of(line) == "progress=continue"@ {
        ProgressLine::Continue
    } else {
        ProgressLine::Other
    }
}

fn parse_out_time(rest: &str) -> (r: Option<u64>)
    ensures
        r == out_time_of(rest@),
{
    let t = trim_str(rest);
    if t.unicode_len() > 0 && t.get_char(0) == '-' {
        let tail = t.substring_char(1, t.unicode_len());
        proof {
            assert(tail@ =~= trim_of(rest@).skip(1));
        }
        match parse_decimal_milli(tail) {
            Some(_) => Some(0),
            None => None,
        }
    } else {
        match parse_decimal_milli(t) {
            Some(m) => Some(m / 1000),
            None => None,
        }
    }
}

fn parse_speed(rest: &str) -> (r: Option<u64>)
    ensures
        r == speed_of(rest@),
{
    let n = rest.unicode_len();
    if n == 0 {
        return None;
    }
    if rest.get_char(n - 1) != 'x' {
        return None;
    }
    let inner = rest.substring_char(0, n - 1);
    proof {
        assert(inner@ =~= rest@.drop_last());
    }
    let t = trim_str(inner);
    parse_decimal_milli(t)
}

/// Reads one line of the progress stream.
pub fn parse_progress_line(line: &str) -> (r: ProgressLine)
    ensures
        r == classify(line@),
{
    match strip_prefix_str(line, "out_time_ms=") {
        Some(rest) => {
            return match parse_out_time(rest) {
                Some(v) => ProgressLine::OutTime(v),
                None => ProgressLine::Other,
            };
        },
        None => {},
    }
    match strip_prefix_str(line, "speed=") {
        Some(rest) => {
            return match parse_speed(rest) {
                Some(v) => ProgressLine::Speed(v),
                None => ProgressLine::Other,
            };
        },
        None => {},
    }
    let t = trim_str(line);
    if str_eq(t, "progress=continue") {
        ProgressLine::Continue
    } else {
        ProgressLine::Other
    }
}

/// The completed share of the stream, in thousandths of a percent, capped
/// at one hundred percent.
pub open spec fn percent_milli_of(out_time_us: u64, duration_ms: u64) -> u32
    recommends
        duration_ms > 0,
{
    let p = (out_time_us as int) * 100 / (duration_ms as int);
    if p > 100000 {
        100000u32
    } else {
        p as u32
    }
}

/// The estimated remainder in milliseconds: the remaining stream time over
/// the speed, capped; absent without a positive speed.
pub open spec fn eta_ms_of(out_time_us: u64, duration_ms: u64, speed_milli: u64) -> Option<u64> {
    if speed_milli > 0 {
        let elapsed_ms = out_time_us / 1000;
        let remain_ms: int = if duration_ms > elapsed_ms {
            duration_ms - elapsed_ms
        } else {
            0
        };
        let eta = remain_ms * 1000 / (speed_milli as int);
        Some(
            if eta > u64::MAX {
                u64::MAX
            } else {
                eta as u64
            },
        )
    } else {
        None
    }
}

/// Whether a progress block is worth an event: close to the end, a quarter
/// percent past the last event, or enough wall time gone by — and never
/// behind the last event, so emitted percents cannot decrease.
pub open spec fn should_emit(
    percent_milli: u32,
    last_emitted_milli: u32,
    interval_elapsed: bool,
) -> bool {
    &&& percent_milli >= last_emitted_milli
    &&& (percent_milli >= PROGRESS_NEAR_END_MILLI || percent_milli >= last_emitted_milli
        + PROGRESS_EMIT_PERCENT_STEP_MILLI || interval_elapsed)
}

/// The running progress state of one encode attempt, with the percents of
/// everything emitted so far kept alongside as history.
pub struct ProgressTracker {
    pub duration_ms: u64,
    pub label: String,
    pub out_time_us: u64,
    pub speed_milli: u64,
    pub last_emitted_milli: u32,
    pub history: Ghost<Seq<int>>,
}

impl ProgressTracker {
    /// The tracker's invariant: a positive duration, a last emission within
    /// range, and a never-decreasing emission history that ends at the last
    /// emission.
    pub open spec fn wf(self) -> bool {
        &&& self.duration_ms > 0
        &&& self.last_emitted_milli <= 100000
        &&& forall|i: int, j: int|
            0 <= i <= j < self.history@.len() ==> #[trigger] self.history@[i]
                <= #[trigger] self.history@[j]
        &&& forall|i: int| 0 <= i < self.history@.len() ==> 0 <= #[trigger] self.history@[i]
            <= 100000
        &&& self.history@.len() > 0 ==> self.history@.last() == self.last_emitted_milli
    }

    /// A fresh tracker for one attempt.
    pub fn new(duration_ms: u64, label: String) -> (t: Self)
        requires
            duration_ms > 0,
        ensures
            t.wf(),
            t.duration_ms == duration_ms,
            t.label@ == label@,
            t.out_time_us == 0,
            t.speed_milli == 0,
            t.last_emitted_milli == 0,
            t.history@ == Seq::<int>::empty(),
    {
        ProgressTracker {
            duration_ms,
            label,
            out_time_us: 0,
            speed_milli: 0,
            last_emitted_milli: 0,
            history: Ghost(Seq::empty()),
        }
    }

    /// Feeds one line of the progress stream into the tracker. Time and
    /// speed lines update the state; a block marker computes the percent
    /// and the remainder and hands back an event when the throttle allows
    /// one. `interval_elapsed` says whether the emission interval has gone
    /// by on the wall clock since the last event.
    pub fn observe_line(&mut self, line: &str, interval_elapsed: bool) -> (ev: Option<
        ProgressEvent,
    >)
        requires
            old(self).wf(),
        ensures
            final(self).wf(),
            final(self).duration_ms == old(self).duration_ms,
            final(self).label@ == old(self).label@,
            final(self).out_time_us == (match classify(line@) {
                ProgressLine::OutTime(v) => v,
                _ => old(self).out_time_us,
            }),
            final(self).speed_milli == (match classify(line@) {
                ProgressLine::Speed(v) => v,
                _ => old(self).speed_milli,
            }),
            ev is Some <==> (classify(line@) is Continue && should_emit(
                percent_milli_of(old(self).out_time_us, old(self).duration_ms),
                old(self).last_emitted_milli,
                interval_elapsed,
            )),
            match ev {
                Some(e) => {
                    &&& e.percent_milli == percent_milli_of(
                        old(self).out_time_us,
                        old(self).duration_ms,
                    )
                    &&& e.percent_milli >= old(self).last_emitted_milli
                    &&& e.speed_milli == (if old(self).speed_milli > 0 {
                        Some(old(self).speed_milli)
                    } else {
                        None::<u64>
                    })
                    &&& e.eta_ms == eta_ms_of(
                        old(self).out_time_us,
                        old(self).duration_ms,
                        old(self).speed_milli,
                    )
                    &&& e.label@ == old(self).label@
                    &&& final(self).last_emitted_milli == e.percent_milli
                    &&& final(self).history@ == old(self).history@.push(e.percent_milli as int)
                },
                None => {
                    &&& final(self).last_emitted_milli == old(self).last_emitted_milli
                    &&& final(self).history@ == old(self).history@
                },
            },
    {
        match parse_progress_line(line) {
            ProgressLine::OutTime(v) => {
                self.out_time_us = v;
                return None;
            },
            ProgressLine::Speed(v) => {
                self.speed_milli = v;
                return None;
            },
            ProgressLine::Other => {
                return None;
            },
            ProgressLine::Continue => {},
        }
        let percent = self.percent_now();
        if !(percent >= PROGRESS_NEAR_END_MILLI || (percent >= self.last_emitted_milli
            && percent - self.last_emitted_milli >= PROGRESS_EMIT_PERCENT_STEP_MILLI)
            || interval_elapsed) || percent < self.last_emitted_milli {
            return None;
        }
        proof {
            assert(percent >= self.last_emitted_milli);
        }
        let eta = self.eta_now();
        let e = ProgressEvent {
            percent_milli: percent,
            speed_milli: if self.speed_milli > 0 {
                Some(self.speed_milli)
            } else {
                None
            },
            eta_ms: eta,
            label: self.label.clone(),
        };
        self.last_emitted_milli = percent;
        proof {
            self.history@ = self.history@.push(percent as int);
        }
        Some(e)
    }

    /// The completed share right now, in thousandths of a percent.
    pub fn percent_now(&self) -> (p: u32)
        requires
            self.duration_ms > 0,
        ensures
            p == percent_milli_of(self.out_time_us, self.duration_ms),
            p <= 100000,
    {
        let wide: u128 = (self.out_time_us as u128) * 100 / (self.duration_ms as u128);
        if wide > 100000 {
            100000
        } else {
            wide as u32
        }
    }

    /// The estimated remainder right now, in milliseconds.
    pub fn eta_now(&self) -> (r: Option<u64>)
        ensures
            r == eta_ms_of(self.out_time_us, self.duration_ms, self.speed_milli),
    {
        if self.speed_milli == 0 {
            return None;
        }
        let elapsed_ms = self.out_time_us / 1000;
        let remain_ms: u64 = if self.duration_ms > elapsed_ms {
            self.duration_ms - elapsed_ms
        } else {
            0
        };
        let eta: u128 = (remain_ms as u128) * 1000 / (self.speed_milli as u128);
        if eta > u64::MAX as u128 {
            Some(u64::MAX)
        } else {
            Some(eta as u64)
        }
    }

    /// The synthetic full-completion event of a successful attempt: a
    /// hundred percent, the last observed speed, and no remainder. It is
    /// recorded like every other emission, so it never falls behind one.
    pub fn emit_final(&mut self) -> (e: ProgressEvent)
        requires
            old(self).wf(),
        ensures
            final(self).wf(),
            e.percent_milli == 100000,
            e.speed_milli == (if old(self).speed_milli > 0 {
                Some(old(self).speed_milli)
            } else {
                None::<u64>
            }),
            e.eta_ms == Some(0u64),
            e.label@ == old(self).label@,
            e.percent_milli >= old(self).last_emitted_milli,
            final(self).history@ == old(self).history@.push(100000),
            final(self).last_emitted_milli == 100000,
    {
        let e = ProgressEvent {
            percent_milli: 100000,
            speed_milli: if self.speed_milli > 0 {
                Some(self.speed_milli)
            } else {
                None
            },
            eta_ms: Some(0),
            label: self.label.clone(),
        };
        self.last_emitted_milli = 100000;
        proof {
            self.history@ = self.history@.push(100000);
        }
        e
    }
}

/// Emitted percents within one attempt never decrease, and after the
/// synthetic final event the history closes at full completion.
pub proof fn lemma_progress_monotone(t: ProgressTracker)
    requires
        t.wf(),
    ensures
        forall|i: int, j: int|
            0 <= i <= j < t.history@.len() ==> #[trigger] t.history@[i] <= #[trigger] t.history@[j],
        t.history@.len() > 0 && t.history@.last() == 100000 ==> forall|i: int|
            0 <= i < t.history@.len() ==> #[trigger] t.history@[i] <= 100000,
{
}

/// What closing an attempt returns: success for a clean exit; the
/// cancellation error when the run was canceled; otherwise the tool's
/// captured error text behind a fixed preface.
pub open spec fn exit_post(
    exit_success: bool,
    cancel_requested: bool,
    stderr_text: Seq<char>,
    r: Result<(), String>,
) -> bool {
    match r {
        Ok(u) => exit_success,
        Err(m) => {
            &&& !exit_success
            &&& (if cancel_requested {
                m@ == encoded_error("CANCELED_BY_USER"@, "Conversion canceled by user."@)
            } else {
                m@ == "ffmpeg failed: "@ + stderr_text
            })
        },
    }
}

/// Classifies the tool's exit: cancellation wins over a plain failure, and
/// a failure carries the captured error-stream text.
pub fn classify_exit(exit_success: bool, cancel_requested: bool, stderr_text: &str) -> (r: Result<
    (),
    String,
>)
    ensures
        exit_post(exit_success, cancel_requested, stderr_text@, r),
{
    if exit_success {
        return Ok(());
    }
    if cancel_requested {
        return Err(error_canceled_by_user());
    }
    let mut m = String::from_str("ffmpeg failed: ");
    m.append(stderr_text);
    Err(m)
}

/// The machine-readable progress flags appended to every attempt's
/// arguments.
pub fn with_progress_args(args: &Vec<String>) -> (r: Vec<String>)
    ensures
        views(r@) == views(args@) + seq![
            "-progress"@,
            "pipe:1"@,
            "-nostats"@,
            "-loglevel"@,
            "error"@,
        ],
{
    let mut out: Vec<String> = Vec::new();
    let ghost avs = views(args@);
    let mut k: usize = 0;
    proof {
        assert(views(out@) =~= avs.take(0));
    }
    while k < args.len()
        invariant
            k <= args@.len(),
            avs == views(args@),
            views(out@) == avs.take(k as int),
        decreases args@.len() - k,
    {
        crate::rate_control::push_owned(&mut out, args[k].clone());
        proof {
            assert(avs[k as int] == args@[k as int]@);
            assert(avs.take(k as int + 1) =~= avs.take(k as int).push(avs[k as int]));
        }
        k = k + 1;
    }
    proof {
        assert(avs.take(avs.len() as int) =~= avs);
    }
    crate::rate_control::push_lit(&mut out, "-progress");
    crate::rate_control::push_lit(&mut out, "pipe:1");
    crate::rate_control::push_lit(&mut out, "-nostats");
    crate::rate_control::push_lit(&mut out, "-loglevel");
    crate::rate_control::push_lit(&mut out, "error");
    proof {
        assert(views(out@) =~= avs + seq![
            "-progress"@,
            "pipe:1"@,
            "-nostats"@,
            "-loglevel"@,
            "error"@,
        ]);
    }
    out
}

} // verus!
