//! Rate-control arguments for one encode attempt: the target video bitrate,
//! and, under strict size targeting, matching minimum and maximum rates and
//! a buffer of at least double the target, floored at a fixed minimum.

use vstd::prelude::*;
use vstd::string::StringExecFns;
use crate::encoders::views;
use crate::strings::dec_rep;
use crate::strings::str_eq;
use crate::strings::u64_to_string;

verus! {

/// A kilobit-per-second value as the tool reads it: digits and a `k`.
pub open spec fn kbps_arg(v: nat) -> Seq<char> {
    dec_rep(v) + seq!['k']
}

/// The buffer size under strict targeting: double the video bitrate, but
/// never under a thousand.
pub open spec fn buf_kbps(video_kbps: u32) -> nat {
    if 2 * video_kbps > 1000 {
        (2 * video_kbps) as nat
    } else {
        1000
    }
}

/// The rate-control arguments: the bitrate always; under strict targeting
/// also the constant-rate mode for the accelerated encoder that wants it
/// named, equal minimum and maximum rates, and the buffer size.
pub open spec fn rate_args(video_kbps: u32, strict_size: bool, encoder: Seq<char>) -> Seq<
    Seq<char>,
> {
    let base = seq!["-b:v"@, kbps_arg(video_kbps as nat)];
    if strict_size {
        let mode = if encoder == "av1_nvenc"@ {
            seq!["-rc"@, "cbr"@]
        } else {
            Seq::empty()
        };
        base + mode + seq![
            "-minrate"@,
            kbps_arg(video_kbps as nat),
            "-maxrate"@,
            kbps_arg(video_kbps as nat),
            "-bufsize"@,
            kbps_arg(buf_kbps(video_kbps)),
        ]
    } else {
        base
    }
}

pub(crate) fn push_kbps(args: &mut Vec<String>, v: u64)
    ensures
        views(final(args)@) == views(old(args)@).push(kbps_arg(v as nat)),
{
    let mut s = u64_to_string(v);
    s.append("k");
    proof {
        reveal_strlit("k");
        assert(s@ =~= kbps_arg(v as nat));
    }
    args.push(s);
    proof {
        assert(views(args@) =~= views(old(args)@).push(kbps_arg(v as nat)));
    }
}

pub(crate) fn push_lit(args: &mut Vec<String>, s: &str)
    ensures
        views(final(args)@) == views(old(args)@).push(s@),
{
    args.push(String::from_str(s));
    proof {
        assert(views(args@) =~= views(old(args)@).push(s@));
    }
}

pub(crate) fn push_owned(args: &mut Vec<String>, s: String)
    ensures
        views(final(args)@) == views(old(args)@).push(s@),
{
    let ghost v = s@;
    args.push(s);
    proof {
        assert(views(args@) =~= views(old(args)@).push(v));
    }
}

/// Builds the rate-control arguments for one attempt.
pub fn video_rate_args(video_bitrate_kbps: u32, strict_size: bool, encoder: &str) -> (r: Vec<
    String,
>)
    ensures
        views(r@) == rate_args(video_bitrate_kbps, strict_size, encoder@),
{
    let mut args: Vec<String> = Vec::new();
    push_lit(&mut args, "-b:v");
    push_kbps(&mut args, video_bitrate_kbps as u64);
    if strict_size {
        if str_eq(encoder, "av1_nvenc") {
            push_lit(&mut args, "-rc");
            push_lit(&mut args, "cbr");
        }
        let buf: u64 = if 2 * (video_bitrate_kbps as u64) > 1000 {
            2 * (video_bitrate_kbps as u64)
        } else {
            1000
        };
        push_lit(&mut args, "-minrate");
        push_kbps(&mut args, video_bitrate_kbps as u64);
        push_lit(&mut args, "-maxrate");
        push_kbps(&mut args, video_bitrate_kbps as u64);
        push_lit(&mut args, "-bufsize");
        push_kbps(&mut args, buf);
    }
    proof {
        assert(views(args@) =~= rate_args(video_bitrate_kbps, strict_size, encoder@));
    }
    args
}

} // verus!
