//! Bitrate planning: derive the target video bitrate from the input size,
//! the stream duration and the audio bitrate, or fail when the source is too
//! small to leave a usable video bitrate.
//!
//! Duration is carried in whole milliseconds, which keeps every step exact
//! integer floor arithmetic: the target size is eight thousand times the
//! byte count divided by the duration in milliseconds, floored, and then
//! floored again into whole kilobits per second.

use vstd::prelude::*;
use vstd::string::StringExecFns;
use crate::encoders::views;
use crate::strings::dec_rep;
use crate::strings::u64_to_string;

verus! {

/// The least video bitrate a plan may carry.
pub const MIN_VIDEO_BITRATE_KBPS: u32 = 100;

/// Total kilobits per second that fit in the target size over the duration:
/// `floor(floor(target_size_bytes * 8000 / duration_ms) / 1000)`.
pub open spec fn spec_total_kbps(target_size_bytes: u64, duration_ms: u64) -> int
    recommends
        duration_ms > 0,
{
    ((target_size_bytes as int) * 8000) / (duration_ms as int) / 1000
}

/// The planned video bitrate before the floor check: total minus audio.
pub open spec fn spec_video_kbps(target_size_bytes: u64, duration_ms: u64, audio_kbps: u32) -> int
    recommends
        duration_ms > 0,
{
    spec_total_kbps(target_size_bytes, duration_ms) - audio_kbps
}

/// A nonnegative value squeezed into `u32`, capping at the largest value the
/// plan can carry.
pub open spec fn clamped_kbps(v: int) -> u32
    recommends
        v >= 0,
{
    if v > u32::MAX {
        u32::MAX
    } else {
        v as u32
    }
}

/// The decimal rendering of a possibly negative value.
pub open spec fn int_dec(v: int) -> Seq<char> {
    if v < 0 {
        seq!['-'] + dec_rep((-v) as nat)
    } else {
        dec_rep(v as nat)
    }
}

/// The message of the too-low-bitrate error, naming the offending value.
pub open spec fn low_bitrate_message(v: int) -> Seq<char> {
    "Computed video bitrate too low ("@ + int_dec(v) + " kbps). Use a larger source file."@
}

/// What the planner returns on given inputs: the clamped video bitrate when
/// it reaches the floor, and the too-low error otherwise.
pub open spec fn planner_post(
    target_size_bytes: u64,
    duration_ms: u64,
    audio_kbps: u32,
    r: Result<u32, String>,
) -> bool {
    let v = spec_video_kbps(target_size_bytes, duration_ms, audio_kbps);
    match r {
        Ok(k) => v >= MIN_VIDEO_BITRATE_KBPS && k == clamped_kbps(v),
        Err(m) => v < MIN_VIDEO_BITRATE_KBPS && m@ == low_bitrate_message(v),
    }
}

/// Plans the video bitrate for a target size, a duration and an audio
/// bitrate. Fails when the remaining video bitrate would sink under the
/// floor of 100 kbps.
pub fn compute_video_bitrate_kbps(
    target_size_bytes: u64,
    duration_ms: u64,
    audio_bitrate_kbps: u32,
) -> (r: Result<u32, String>)
    requires
        duration_ms > 0,
    ensures
        planner_post(target_size_bytes, duration_ms, audio_bitrate_kbps, r),
{
    let total_bps: u128 = (target_size_bytes as u128) * 8000 / (duration_ms as u128);
    let total_kbps: u128 = total_bps / 1000;
    let audio: u128 = audio_bitrate_kbps as u128;
    proof {
        assert(total_kbps == spec_total_kbps(target_size_bytes, duration_ms));
    }
    let ghost v = spec_video_kbps(target_size_bytes, duration_ms, audio_bitrate_kbps);
    if total_kbps < audio + (MIN_VIDEO_BITRATE_KBPS as u128) {
        let m = if total_kbps >= audio {
            proof {
                assert((total_kbps - audio) as u64 == v);
            }
            u64_to_string((total_kbps - audio) as u64)
        } else {
            proof {
                reveal_strlit("-");
                assert((audio - total_kbps) as u64 == -v);
            }
            let mut neg = String::from_str("-");
            neg.append(u64_to_string((audio - total_kbps) as u64).as_str());
            neg
        };
        proof {
            assert(m@ =~= int_dec(v));
        }
        let mut text = String::from_str("Computed video bitrate too low (");
        text.append(m.as_str());
        text.append(" kbps). Use a larger source file.");
        proof {
            assert(text@ =~= low_bitrate_message(v));
        }
        Err(text)
    } else {
        let v: u128 = total_kbps - audio;
        if v > u32::MAX as u128 {
            Ok(u32::MAX)
        } else {
            Ok(v as u32)
        }
    }
}

/// A fully built conversion plan. Immutable once built: the orchestration
/// loop only reads it.
#[derive(Debug)]
pub struct ConversionPlan {
    pub ffmpeg_path: String,
    pub output_path: String,
    pub duration_ms: u64,
    pub target_size_bytes: u64,
    pub audio_bitrate_kbps: u32,
    pub video_bitrate_kbps: u32,
    pub encoder_candidates: Vec<String>,
    pub input_path: String,
}

impl ConversionPlan {
    /// What every built plan guarantees: a positive duration to divide by,
    /// a video bitrate at or over the floor, and at least one candidate.
    pub open spec fn wf(self) -> bool {
        &&& self.duration_ms > 0
        &&& self.video_bitrate_kbps >= MIN_VIDEO_BITRATE_KBPS
        &&& self.encoder_candidates@.len() > 0
    }
}

/// The full argument list of one encode attempt: overwrite, input, video
/// codec, rate control, audio codec and bitrate, the fast-start container
/// flag, and the output path.
pub open spec fn encode_args(
    input_path: Seq<char>,
    output_path: Seq<char>,
    video_kbps: u32,
    audio_kbps: u32,
    encoder: Seq<char>,
) -> Seq<Seq<char>> {
    seq!["-y"@, "-i"@, input_path, "-c:v"@, encoder] + crate::rate_control::rate_args(
        video_kbps,
        true,
        encoder,
    ) + seq![
        "-c:a"@,
        "aac"@,
        "-b:a"@,
        crate::rate_control::kbps_arg(audio_kbps as nat),
        "-movflags"@,
        "+faststart"@,
        output_path,
    ]
}

fn push_audio_kbps(args: &mut Vec<String>, kbps: u32)
    ensures
        views(final(args)@) == views(old(args)@).push(
            crate::rate_control::kbps_arg(kbps as nat),
        ),
{
    crate::rate_control::push_kbps(args, kbps as u64);
}

/// Builds the tool's argument list for one attempt with `encoder`. Strict
/// size targeting is always on.
pub fn build_encode_args(plan: &ConversionPlan, encoder: &str) -> (r: Vec<String>)
    ensures
        views(r@) == encode_args(
            plan.input_path@,
            plan.output_path@,
            plan.video_bitrate_kbps,
            plan.audio_bitrate_kbps,
            encoder@,
        ),
{
    let mut args: Vec<String> = Vec::new();
    crate::rate_control::push_lit(&mut args, "-y");
    crate::rate_control::push_lit(&mut args, "-i");
    crate::rate_control::push_owned(&mut args, plan.input_path.clone());
    crate::rate_control::push_lit(&mut args, "-c:v");
    crate::rate_control::push_lit(&mut args, encoder);
    let rate = crate::rate_control::video_rate_args(plan.video_bitrate_kbps, true, encoder);
    let ghost head = views(args@);
    let ghost rate_views = views(rate@);
    let mut k: usize = 0;
    proof {
        assert(views(args@) =~= head + rate_views.take(0));
    }
    while k < rate.len()
        invariant
            k <= rate@.len(),
            head == seq!["-y"@, "-i"@, plan.input_path@, "-c:v"@, encoder@],
            rate_views == views(rate@),
            views(args@) == head + rate_views.take(k as int),
        decreases rate@.len() - k,
    {
        let ghost before = views(args@);
        crate::rate_control::push_owned(&mut args, rate[k].clone());
        proof {
            assert(rate_views[k as int] == rate@[k as int]@);
            assert(rate_views.take(k as int + 1) =~= rate_views.take(k as int).push(
                rate_views[k as int],
            ));
            assert(views(args@) =~= head + rate_views.take(k as int + 1));
        }
        k = k + 1;
    }
    proof {
        assert(rate_views.take(rate_views.len() as int) =~= rate_views);
    }
    crate::rate_control::push_lit(&mut args, "-c:a");
    crate::rate_control::push_lit(&mut args, "aac");
    crate::rate_control::push_lit(&mut args, "-b:a");
    push_audio_kbps(&mut args, plan.audio_bitrate_kbps);
    crate::rate_control::push_lit(&mut args, "-movflags");
    crate::rate_control::push_lit(&mut args, "+faststart");
    crate::rate_control::push_owned(&mut args, plan.output_path.clone());
    proof {
        assert(views(args@) =~= encode_args(
            plan.input_path@,
            plan.output_path@,
            plan.video_bitrate_kbps,
            plan.audio_bitrate_kbps,
            encoder@,
        ));
    }
    args
}

/// What building a plan returns on an error: the output-naming error, the
/// resolver's error, or the planner's error, checked in that order.
pub open spec fn plan_err(
    input_path: Seq<char>,
    requested: Option<Seq<char>>,
    avail: Seq<Seq<char>>,
    input_size_bytes: u64,
    duration_ms: u64,
    audio_kbps: u32,
    m: Seq<char>,
) -> bool {
    if crate::output::name_of(input_path).len() == 0 {
        if input_path.len() <= 1 {
            m == "Input path has no parent folder."@
        } else {
            m == "Input path has no file name."@
        }
    } else if avail.len() == 0 {
        m == "No supported AV1 encoder found in ffmpeg."@
    } else if requested matches Some(req) && !avail.contains(req) {
        m == "Requested AV1 encoder is unavailable: "@ + requested.unwrap()
    } else {
        let v = spec_video_kbps(input_size_bytes / 2, duration_ms, audio_kbps);
        v < MIN_VIDEO_BITRATE_KBPS && m == low_bitrate_message(v)
    }
}

/// Builds the conversion plan from the request and the probed facts: the
/// default output path beside the input, the resolved candidate order, a
/// target of half the input size, and the planned video bitrate.
pub fn build_conversion_plan(
    request: &crate::model::ConvertRequest,
    ffmpeg_path: String,
    input_size_bytes: u64,
    duration_ms: u64,
    audio_bitrate_kbps: u32,
    available_encoders: &Vec<String>,
) -> (r: Result<ConversionPlan, String>)
    requires
        duration_ms > 0,
    ensures
        match r {
            Ok(p) => {
                &&& p.wf()
                &&& p.ffmpeg_path@ == ffmpeg_path@
                &&& p.input_path@ == request.input_path@
                &&& crate::output::name_of(request.input_path@).len() > 0
                &&& p.output_path@ == crate::output::dir_of(request.input_path@)
                    + crate::output::stem_of(crate::output::name_of(request.input_path@))
                    + ".av1.mp4"@
                &&& p.duration_ms == duration_ms
                &&& p.target_size_bytes == input_size_bytes / 2
                &&& p.audio_bitrate_kbps == audio_bitrate_kbps
                &&& spec_video_kbps(input_size_bytes / 2, duration_ms, audio_bitrate_kbps)
                    >= MIN_VIDEO_BITRATE_KBPS
                &&& p.video_bitrate_kbps == clamped_kbps(
                    spec_video_kbps(input_size_bytes / 2, duration_ms, audio_bitrate_kbps),
                )
                &&& views(p.encoder_candidates@) == crate::encoders::candidate_order(
                    crate::encoders::requested_of(request.av1_encoder),
                    views(available_encoders@),
                )
            },
            Err(m) => plan_err(
                request.input_path@,
                crate::encoders::requested_of(request.av1_encoder),
                views(available_encoders@),
                input_size_bytes,
                duration_ms,
                audio_bitrate_kbps,
                m@,
            ),
        },
{
    let output_path = match crate::output::default_output_for_input(request.input_path.as_str()) {
        Ok(o) => o,
        Err(m) => {
            return Err(m);
        },
    };
    let requested: Option<&str> = match request.av1_encoder {
        Some(ref e) => Some(e.as_str()),
        None => None,
    };
    proof {
        assert(crate::encoders::requested_view(requested) == crate::encoders::requested_of(
            request.av1_encoder,
        ));
    }
    let encoder_candidates = match crate::encoders::resolve_encoder_candidates(
        requested,
        available_encoders,
    ) {
        Ok(c) => c,
        Err(m) => {
            return Err(m);
        },
    };
    let target_size_bytes = input_size_bytes / 2;
    let video_bitrate_kbps = match compute_video_bitrate_kbps(
        target_size_bytes,
        duration_ms,
        audio_bitrate_kbps,
    ) {
        Ok(v) => v,
        Err(m) => {
            return Err(m);
        },
    };
    let plan = ConversionPlan {
        ffmpeg_path,
        output_path,
        duration_ms,
        target_size_bytes,
        audio_bitrate_kbps,
        video_bitrate_kbps,
        encoder_candidates,
        input_path: request.input_path.clone(),
    };
    Ok(plan)
}

/// The planner is deterministic: two results for the same inputs agree, both
/// in which side they take and in the value or message they carry.
pub proof fn lemma_planner_deterministic(
    target_size_bytes: u64,
    duration_ms: u64,
    audio_kbps: u32,
    r1: Result<u32, String>,
    r2: Result<u32, String>,
)
    requires
        duration_ms > 0,
        planner_post(target_size_bytes, duration_ms, audio_kbps, r1),
        planner_post(target_size_bytes, duration_ms, audio_kbps, r2),
    ensures
        match (r1, r2) {
            (Ok(k1), Ok(k2)) => k1 == k2,
            (Err(m1), Err(m2)) => m1@ == m2@,
            _ => false,
        },
{
}

} // verus!
