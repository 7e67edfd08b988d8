//! The fallback orchestration of one conversion: try the candidate
//! encoders in their resolved order, stop at the first success, abort
//! immediately on cancellation — cancellation is never swallowed by the
//! fallback policy — and aggregate an error once every candidate failed.
//!
//! Running one attempt means spawning the tool, which happens outside the
//! library: the loop out there asks `next_step` what to do, performs the
//! attempt, and reports the outcome back through `record_outcome`.

use vstd::prelude::*;
use vstd::string::StringExecFns;
use crate::encoders::views;
use crate::error_protocol::carries_code;
use crate::error_protocol::encoded_error;
use crate::error_protocol::error_canceled_by_user;
use crate::error_protocol::is_canceled_by_user_error;
use crate::model::ConvertSummary;
use crate::planning::ConversionPlan;
use crate::planning::encode_args;
use crate::state::cancel_set;
use crate::state::ConvertState;

verus! {

/// Candidate names joined for the aggregated error message.
pub open spec fn joined(names: Seq<Seq<char>>) -> Seq<char>
    decreases names.len(),
{
    if names.len() == 0 {
        Seq::empty()
    } else if names.len() == 1 {
        names[0]
    } else {
        joined(names.drop_last()) + ", "@ + names.last()
    }
}

/// The aggregated error once every candidate failed: all attempted
/// encoders, and the last individual error.
pub open spec fn exhausted_message(candidates: Seq<Seq<char>>, last_error: Seq<char>) -> Seq<
    char,
> {
    "All AV1 encoder attempts failed ("@ + joined(candidates) + "). Last error: "@ + last_error
}

fn join_names(names: &Vec<String>) -> (r: String)
    ensures
        r@ == joined(views(names@)),
{
    let ghost vs = views(names@);
    let mut r = String::new();
    let mut i: usize = 0;
    proof {
        assert(vs.take(0) =~= Seq::<Seq<char>>::empty());
    }
    while i < names.len()
        invariant
            i <= names@.len(),
            vs == views(names@),
            r@ == joined(vs.take(i as int)),
        decreases names@.len() - i,
    {
        proof {
            reveal_strlit(", ");
            assert(vs[i as int] == names@[i as int]@);
            assert(vs.take(i as int + 1).drop_last() =~= vs.take(i as int));
            assert(vs.take(i as int + 1).last() == vs[i as int]);
        }
        if i == 0 {
            r.append(names[i].as_str());
            proof {
                assert(r@ =~= joined(vs.take(1)));
            }
        } else {
            r.append(", ");
            r.append(names[i].as_str());
            proof {
                assert(r@ =~= joined(vs.take(i as int + 1)));
            }
        }
        i = i + 1;
    }
    proof {
        assert(vs.take(vs.len() as int) =~= vs);
    }
    r
}

/// The walking state of one fallback pass: which candidate comes next, and
/// the last individual failure.
pub struct FallbackRun {
    pub next_index: usize,
    pub last_error: String,
}

/// What the orchestration loop is told to do next.
pub enum FallbackStep {
    /// Stop at once and surface this cancellation error.
    Canceled(String),
    /// Run one attempt with this encoder and these tool arguments.
    Try(String, Vec<String>),
    /// Every candidate failed; surface this aggregated error.
    Exhausted(String),
}

impl FallbackRun {
    /// A fresh pass, standing before the first candidate.
    pub fn new() -> (r: Self)
        ensures
            r.next_index == 0,
            r.last_error@ == Seq::<char>::empty(),
    {
        FallbackRun { next_index: 0, last_error: String::new() }
    }

    /// Decides the next move. Cancellation wins over everything: whenever
    /// it is requested the pass aborts with the cancellation error, never
    /// with the aggregated one, however many candidates remain.
    pub fn next_step(&self, plan: &ConversionPlan, cancel_requested: bool) -> (s: FallbackStep)
        ensures
            cancel_requested ==> (s matches FallbackStep::Canceled(m) && m@ == encoded_error(
                "CANCELED_BY_USER"@,
                "Conversion canceled by user."@,
            )),
            !cancel_requested && self.next_index < plan.encoder_candidates@.len() ==> (s matches
                FallbackStep::Try(e, args) && e@
                == plan.encoder_candidates@[self.next_index as int]@ && views(args@)
                == encode_args(
                plan.input_path@,
                plan.output_path@,
                plan.video_bitrate_kbps,
                plan.audio_bitrate_kbps,
                plan.encoder_candidates@[self.next_index as int]@,
            )),
            !cancel_requested && self.next_index >= plan.encoder_candidates@.len() ==> (s matches
                FallbackStep::Exhausted(m) && m@ == exhausted_message(
                views(plan.encoder_candidates@),
                self.last_error@,
            )),
    {
        if cancel_requested {
            return FallbackStep::Canceled(error_canceled_by_user());
        }
        if self.next_index < plan.encoder_candidates.len() {
            let encoder = plan.encoder_candidates[self.next_index].clone();
            let args = crate::planning::build_encode_args(plan, encoder.as_str());
            return FallbackStep::Try(encoder, args);
        }
        let mut m = String::from_str("All AV1 encoder attempts failed (");
        m.append(join_names(&plan.encoder_candidates).as_str());
        m.append("). Last error: ");
        m.append(self.last_error.as_str());
        proof {
            assert(m@ =~= exhausted_message(views(plan.encoder_candidates@), self.last_error@));
        }
        FallbackStep::Exhausted(m)
    }

    /// Takes one attempt's outcome. A success closes the pass with the
    /// summary. A cancellation error closes it at once with that very
    /// error. Any other failure is recorded — encoder name and message —
    /// and the pass moves to the next candidate.
    pub fn record_outcome(
        &mut self,
        plan: &ConversionPlan,
        outcome: Result<(), String>,
    ) -> (done: Option<Result<ConvertSummary, String>>)
        requires
            old(self).next_index < plan.encoder_candidates@.len(),
        ensures
            match outcome {
                Ok(u) => done matches Some(r) && r matches Ok(s) && {
                    &&& s.output_path@ == plan.output_path@
                    &&& s.target_size_bytes == plan.target_size_bytes
                    &&& s.audio_bitrate_kbps == plan.audio_bitrate_kbps
                    &&& s.video_bitrate_kbps == plan.video_bitrate_kbps
                    &&& s.av1_encoder@ == plan.encoder_candidates@[old(self).next_index as int]@
                },
                Err(m) => {
                    if carries_code(m@, "CANCELED_BY_USER"@) {
                        done matches Some(r) && r matches Err(e) && e@ == m@
                    } else {
                        &&& done is None
                        &&& final(self).next_index == old(self).next_index + 1
                        &&& final(self).last_error@
                            == plan.encoder_candidates@[old(self).next_index as int]@ + ": "@ + m@
                    }
                },
            },
    {
        match outcome {
            Ok(u) => {
                let s = ConvertSummary {
                    output_path: plan.output_path.clone(),
                    target_size_bytes: plan.target_size_bytes,
                    audio_bitrate_kbps: plan.audio_bitrate_kbps,
                    video_bitrate_kbps: plan.video_bitrate_kbps,
                    av1_encoder: plan.encoder_candidates[self.next_index].clone(),
                };
                Some(Ok(s))
            },
            Err(m) => {
                if is_canceled_by_user_error(m.as_str()) {
                    return Some(Err(m));
                }
                let n = plan.encoder_candidates.len();
                let mut e = plan.encoder_candidates[self.next_index].clone();
                e.append(": ");
                e.append(m.as_str());
                proof {
                    reveal_strlit(": ");
                    assert(e@ =~= plan.encoder_candidates@[self.next_index as int]@ + ": "@
                        + m@);
                }
                self.last_error = e;
                self.next_index = self.next_index + 1;
                None
            },
        }
    }
}

/// The cancellation pre-flight check: the cancellation error as soon as
/// any cancel signal is up, and nothing otherwise.
pub fn abort_if_cancel_requested(st: &ConvertState) -> (r: Result<(), String>)
    ensures
        match r {
            Ok(u) => !cancel_set(*st),
            Err(m) => cancel_set(*st) && m@ == encoded_error(
                "CANCELED_BY_USER"@,
                "Conversion canceled by user."@,
            ),
        },
{
    if crate::state::is_cancel_requested(st) {
        return Err(error_canceled_by_user());
    }
    Ok(())
}

/// The automatically chosen encoder: the front of the candidate order with
/// no request, so the best-regarded available encoder.
pub fn pick_auto_av1_encoder(available: &Vec<String>) -> (r: Result<String, String>)
    ensures
        match r {
            Ok(e) => views(available@).len() > 0 && e@ == crate::encoders::candidate_order(
                None,
                views(available@),
            )[0],
            Err(m) => views(available@).len() == 0 && m@
                == "No supported AV1 encoder found in ffmpeg."@,
        },
{
    let candidates = match crate::encoders::resolve_encoder_candidates(None, available) {
        Ok(c) => c,
        Err(m) => {
            return Err(m);
        },
    };
    let first = candidates[0].clone();
    proof {
        assert(views(candidates@)[0] == candidates@[0]@);
    }
    Ok(first)
}

} // verus!
