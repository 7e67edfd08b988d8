//! The process-wide conversion state: the single active conversion and its
//! control record, the set of tracked tool processes, the encoder
//! capability cache, and the global cancel flag. The state is an owned
//! context value; whoever runs conversions holds it (under a lock when
//! shared) and performs the process-control actions these functions decide
//! on: which process gets the cooperative quit command, and which get the
//! forceful kill.

use vstd::prelude::*;
use vstd::string::StringExecFns;
use crate::error_protocol::error_no_active_conversion;

verus! {

/// The control record of the running conversion: the process and whether
/// this particular attempt was asked to stop.
#[derive(Debug)]
pub struct ConversionControl {
    pub pid: u32,
    pub cancel_requested: bool,
}

impl ConversionControl {
    /// A fresh record for a just-spawned process.
    pub fn new(pid: u32) -> (c: Self)
        ensures
            c.pid == pid,
            !c.cancel_requested,
    {
        ConversionControl { pid, cancel_requested: false }
    }

    /// The process this record controls.
    pub fn pid(&self) -> (p: u32)
        ensures
            p == self.pid,
    {
        self.pid
    }

    /// Asks this attempt to stop.
    pub fn mark_cancel_requested(&mut self)
        ensures
            final(self).pid == old(self).pid,
            final(self).cancel_requested,
    {
        self.cancel_requested = true;
    }

    /// Withdraws the stop request.
    pub fn clear_cancel_requested(&mut self)
        ensures
            final(self).pid == old(self).pid,
            !final(self).cancel_requested,
    {
        self.cancel_requested = false;
    }

    /// Whether this attempt was asked to stop.
    pub fn is_cancel_requested(&self) -> (r: bool)
        ensures
            r == self.cancel_requested,
    {
        self.cancel_requested
    }
}

/// The identifiers of every tracked tool process.
pub struct ActiveFfmpegPids(pub Vec<u32>);

/// The capability cache: the encoders the tool reported, once asked.
pub struct Av1EncoderCache(pub Option<Vec<String>>);

/// The single active conversion, when one runs.
pub struct ActiveConversionControl(pub Option<ConversionControl>);

/// The process-wide cancel flag.
pub struct GlobalCancelFlag(pub bool);

/// The whole conversion state.
pub struct ConvertState {
    pub pids: ActiveFfmpegPids,
    pub active: ActiveConversionControl,
    pub encoder_cache: Av1EncoderCache,
    pub global_cancel: GlobalCancelFlag,
}

/// The capability cache as character sequences, or nothing.
pub open spec fn cache_views(c: Option<Vec<String>>) -> Option<Seq<Seq<char>>> {
    match c {
        Some(v) => Some(crate::encoders::views(v@)),
        None => None,
    }
}

/// Two states that cannot be told apart: same flags, same active record,
/// same tracked processes, same cached capabilities.
pub open spec fn state_equiv(a: ConvertState, b: ConvertState) -> bool {
    &&& a.global_cancel.0 == b.global_cancel.0
    &&& a.active.0 == b.active.0
    &&& a.pids.0@ == b.pids.0@
    &&& cache_views(a.encoder_cache.0) == cache_views(b.encoder_cache.0)
}

/// Whether any cancellation signal is up: the global flag or the active
/// attempt's own flag.
pub open spec fn cancel_set(s: ConvertState) -> bool {
    s.global_cancel.0 || (s.active.0 matches Some(c) && c.cancel_requested)
}

impl ConvertState {
    /// A fresh state: nothing running, nothing tracked, nothing cached,
    /// nothing canceled.
    pub fn new() -> (s: Self)
        ensures
            s.pids.0@ == Seq::<u32>::empty(),
            s.active.0 is None,
            s.encoder_cache.0 is None,
            !s.global_cancel.0,
            !cancel_set(s),
    {
        ConvertState {
            pids: ActiveFfmpegPids(Vec::new()),
            active: ActiveConversionControl(None),
            encoder_cache: Av1EncoderCache(None),
            global_cancel: GlobalCancelFlag(false),
        }
    }
}

/// Tracks a spawned tool process. Tracking the same process twice changes
/// nothing.
pub fn register_ffmpeg_pid(st: &mut ConvertState, pid: u32)
    ensures
        final(st).pids.0@ == (if old(st).pids.0@.contains(pid) {
            old(st).pids.0@
        } else {
            old(st).pids.0@.push(pid)
        }),
        final(st).active.0 == old(st).active.0,
        final(st).global_cancel.0 == old(st).global_cancel.0,
        cache_views(final(st).encoder_cache.0) == cache_views(old(st).encoder_cache.0),
{
    let mut i: usize = 0;
    while i < st.pids.0.len()
        invariant
            i <= st.pids.0@.len(),
            forall|k: int| 0 <= k < i ==> st.pids.0@[k] != pid,
        decreases st.pids.0@.len() - i,
    {
        if st.pids.0[i] == pid {
            return ;
        }
        i = i + 1;
    }
    st.pids.0.push(pid);
}

/// Stops tracking a process, wherever it stands in the list.
pub fn unregister_ffmpeg_pid(st: &mut ConvertState, pid: u32)
    ensures
        final(st).pids.0@ == old(st).pids.0@.filter(|p: u32| p != pid),
        final(st).active.0 == old(st).active.0,
        final(st).global_cancel.0 == old(st).global_cancel.0,
        cache_views(final(st).encoder_cache.0) == cache_views(old(st).encoder_cache.0),
{
    let ghost all = st.pids.0@;
    let mut kept: Vec<u32> = Vec::new();
    let mut i: usize = 0;
    proof {
        reveal(Seq::filter);
        assert(all.take(0) =~= Seq::<u32>::empty());
        assert(kept@ =~= all.take(0).filter(|p: u32| p != pid));
    }
    while i < st.pids.0.len()
        invariant
            i <= st.pids.0@.len(),
            all == st.pids.0@,
            kept@ == all.take(i as int).filter(|p: u32| p != pid),
        decreases st.pids.0@.len() - i,
    {
        let p = st.pids.0[i];
        proof {
            reveal(Seq::filter);
            assert(all.take(i as int + 1).drop_last() =~= all.take(i as int));
            assert(all.take(i as int + 1).last() == all[i as int]);
        }
        if p != pid {
            kept.push(p);
        }
        i = i + 1;
    }
    proof {
        assert(all.take(all.len() as int) =~= all);
    }
    st.pids.0 = kept;
}

/// What promoting a process to the active conversion does: it fails
/// without touching anything while another conversion holds the slot, and
/// otherwise installs a fresh control record.
pub open spec fn register_active_post(
    a: ConvertState,
    pid: u32,
    r: Result<(), String>,
    b: ConvertState,
) -> bool {
    &&& b.pids.0@ == a.pids.0@
    &&& b.global_cancel.0 == a.global_cancel.0
    &&& cache_views(b.encoder_cache.0) == cache_views(a.encoder_cache.0)
    &&& match r {
        Ok(u) => {
            &&& a.active.0 is None
            &&& b.active.0 == Some(ConversionControl { pid, cancel_requested: false })
        },
        Err(m) => {
            &&& a.active.0 is Some
            &&& b.active.0 == a.active.0
            &&& m@ == "Another conversion is already running."@
        },
    }
}

/// Promotes a spawned process to the single active conversion. Fails
/// immediately, rather than queuing, while another conversion is active:
/// this enforces single-flight at the lowest level.
pub fn register_active_conversion(st: &mut ConvertState, pid: u32) -> (r: Result<(), String>)
    ensures
        register_active_post(*old(st), pid, r, *final(st)),
{
    match st.active.0 {
        Some(_) => Err(String::from_str("Another conversion is already running.")),
        None => {
            st.active.0 = Some(ConversionControl::new(pid));
            Ok(())
        },
    }
}

/// What releasing the active conversion does: it clears the slot when the
/// given process holds it, and changes nothing otherwise.
pub open spec fn unregister_active_post(a: ConvertState, pid: u32, b: ConvertState) -> bool {
    &&& b.pids.0@ == a.pids.0@
    &&& b.global_cancel.0 == a.global_cancel.0
    &&& cache_views(b.encoder_cache.0) == cache_views(a.encoder_cache.0)
    &&& b.active.0 == (if a.active.0 matches Some(c) && c.pid == pid {
        None::<ConversionControl>
    } else {
        a.active.0
    })
}

/// Releases the active-conversion slot, but only for the process that
/// holds it: a stale release from an earlier attempt cannot evict a newer
/// conversion.
pub fn unregister_active_conversion(st: &mut ConvertState, pid: u32)
    ensures
        unregister_active_post(*old(st), pid, *final(st)),
{
    let clear = match st.active.0 {
        Some(ref c) => c.pid == pid,
        None => false,
    };
    if clear {
        st.active.0 = None;
    }
}

/// A copy of the active conversion's control record, or the no-active
/// error.
pub fn get_active_conversion(st: &ConvertState) -> (r: Result<ConversionControl, String>)
    ensures
        match r {
            Ok(c) => st.active.0 == Some(c),
            Err(m) => st.active.0 is None && m@ == crate::error_protocol::encoded_error(
                "NO_ACTIVE_CONVERSION"@,
                "No conversion is currently running."@,
            ),
        },
{
    match st.active.0 {
        Some(ref c) => Ok(ConversionControl { pid: c.pid, cancel_requested: c.cancel_requested }),
        None => Err(error_no_active_conversion()),
    }
}

/// Sets or clears the active attempt's own cancel flag, when one runs.
pub fn set_active_conversion_cancel_requested(st: &mut ConvertState, requested: bool)
    ensures
        final(st).pids.0@ == old(st).pids.0@,
        final(st).global_cancel.0 == old(st).global_cancel.0,
        cache_views(final(st).encoder_cache.0) == cache_views(old(st).encoder_cache.0),
        final(st).active.0 == (match old(st).active.0 {
            Some(c) => Some(ConversionControl { pid: c.pid, cancel_requested: requested }),
            None => None::<ConversionControl>,
        }),
{
    match st.active.0 {
        Some(ref c) => {
            st.active.0 = Some(ConversionControl { pid: c.pid, cancel_requested: requested });
        },
        None => {},
    }
}

/// Whether the active attempt, if any, was asked to stop.
pub fn is_active_conversion_cancel_requested(st: &ConvertState) -> (r: bool)
    ensures
        r == (st.active.0 matches Some(c) && c.cancel_requested),
{
    match st.active.0 {
        Some(ref c) => c.cancel_requested,
        None => false,
    }
}

/// The tracked process identifiers, as they stand.
pub fn collect_registered_ffmpeg_pids(st: &ConvertState) -> (r: Vec<u32>)
    ensures
        r@ == st.pids.0@,
{
    let mut out: Vec<u32> = Vec::new();
    let mut i: usize = 0;
    while i < st.pids.0.len()
        invariant
            i <= st.pids.0@.len(),
            out@ == st.pids.0@.take(i as int),
        decreases st.pids.0@.len() - i,
    {
        out.push(st.pids.0[i]);
        proof {
            assert(st.pids.0@.take(i as int + 1) =~= st.pids.0@.take(i as int).push(
                st.pids.0@[i as int],
            ));
        }
        i = i + 1;
    }
    proof {
        assert(st.pids.0@.take(st.pids.0@.len() as int) =~= st.pids.0@);
    }
    out
}

/// Forgets every tracked process.
pub fn clear_registered_ffmpeg_pids(st: &mut ConvertState)
    ensures
        final(st).pids.0@ == Seq::<u32>::empty(),
        final(st).active.0 == old(st).active.0,
        final(st).global_cancel.0 == old(st).global_cancel.0,
        cache_views(final(st).encoder_cache.0) == cache_views(old(st).encoder_cache.0),
{
    st.pids.0 = Vec::new();
}

/// Raises the global cancel flag. Nothing else moves.
pub fn request_cancel(st: &mut ConvertState)
    ensures
        final(st).global_cancel.0,
        final(st).active.0 == old(st).active.0,
        final(st).pids.0@ == old(st).pids.0@,
        cache_views(final(st).encoder_cache.0) == cache_views(old(st).encoder_cache.0),
        cancel_set(*final(st)),
{
    st.global_cancel.0 = true;
}

/// Whether any cancellation signal is up: the global flag, or the running
/// attempt's own flag, so a request aimed at either is seen.
pub fn is_cancel_requested(st: &ConvertState) -> (r: bool)
    ensures
        r == cancel_set(*st),
{
    if st.global_cancel.0 {
        return true;
    }
    is_active_conversion_cancel_requested(st)
}

/// What clearing the cancellation signals does: both flags go down and
/// nothing else moves.
pub open spec fn clear_cancel_post(a: ConvertState, b: ConvertState) -> bool {
    &&& !b.global_cancel.0
    &&& b.active.0 == (match a.active.0 {
        Some(c) => Some(ConversionControl { pid: c.pid, cancel_requested: false }),
        None => None::<ConversionControl>,
    })
    &&& b.pids.0@ == a.pids.0@
    &&& cache_views(b.encoder_cache.0) == cache_views(a.encoder_cache.0)
    &&& !cancel_set(b)
}

/// Clears both cancellation signals, so a stale request from an earlier
/// attempt cannot poison a new conversion.
pub fn clear_cancel_requested(st: &mut ConvertState)
    ensures
        clear_cancel_post(*old(st), *final(st)),
{
    st.global_cancel.0 = false;
    set_active_conversion_cancel_requested(st, false);
}

/// The forceful sweep: every cancellation signal up, every tracked process
/// handed back for killing, and the tracked set cleared, so no tool
/// process outlives its session.
pub fn terminate_all_active_ffmpeg(st: &mut ConvertState) -> (kill_pids: Vec<u32>)
    ensures
        kill_pids@ == old(st).pids.0@,
        final(st).pids.0@ == Seq::<u32>::empty(),
        final(st).global_cancel.0,
        final(st).active.0 == (match old(st).active.0 {
            Some(c) => Some(ConversionControl { pid: c.pid, cancel_requested: true }),
            None => None::<ConversionControl>,
        }),
        cache_views(final(st).encoder_cache.0) == cache_views(old(st).encoder_cache.0),
{
    request_cancel(st);
    set_active_conversion_cancel_requested(st, true);
    let kill_pids = collect_registered_ffmpeg_pids(st);
    clear_registered_ffmpeg_pids(st);
    kill_pids
}

/// The process-control actions one cancellation decides on: which process
/// gets the cooperative quit command, and which get the forceful kill.
pub struct CancelActions {
    pub quit_pid: Option<u32>,
    pub kill_pids: Vec<u32>,
}

/// Cancels the running conversion: raises every signal, names the active
/// process for the cooperative quit command, and escalates to the forceful
/// sweep. With nothing running it is a harmless no-op success — a race
/// between "just finished" and "cancel requested" is expected.
pub fn cancel_active_conversion(st: &mut ConvertState) -> (a: CancelActions)
    ensures
        final(st).global_cancel.0,
        final(st).pids.0@ == Seq::<u32>::empty(),
        a.kill_pids@ == old(st).pids.0@,
        a.quit_pid == (match old(st).active.0 {
            Some(c) => Some(c.pid),
            None => None::<u32>,
        }),
        final(st).active.0 == (match old(st).active.0 {
            Some(c) => Some(ConversionControl { pid: c.pid, cancel_requested: true }),
            None => None::<ConversionControl>,
        }),
        cache_views(final(st).encoder_cache.0) == cache_views(old(st).encoder_cache.0),
{
    request_cancel(st);
    let quit_pid = match st.active.0 {
        Some(ref c) => Some(c.pid),
        None => None,
    };
    set_active_conversion_cancel_requested(st, true);
    let kill_pids = terminate_all_active_ffmpeg(st);
    CancelActions { quit_pid, kill_pids }
}

/// The cached capabilities, when the tool was already asked.
pub fn get_cached_av1_encoders(st: &ConvertState) -> (r: Option<Vec<String>>)
    ensures
        cache_views(r) == cache_views(st.encoder_cache.0),
{
    match st.encoder_cache.0 {
        Some(ref v) => {
            let mut out: Vec<String> = Vec::new();
            let mut i: usize = 0;
            while i < v.len()
                invariant
                    i <= v@.len(),
                    crate::encoders::views(out@) == crate::encoders::views(v@).take(i as int),
                decreases v@.len() - i,
            {
                crate::rate_control::push_owned(&mut out, v[i].clone());
                proof {
                    assert(crate::encoders::views(v@)[i as int] == v@[i as int]@);
                    assert(crate::encoders::views(v@).take(i as int + 1) =~= crate::encoders::views(
                        v@,
                    ).take(i as int).push(crate::encoders::views(v@)[i as int]));
                }
                i = i + 1;
            }
            proof {
                assert(crate::encoders::views(v@).take(crate::encoders::views(v@).len() as int)
                    =~= crate::encoders::views(v@));
            }
            Some(out)
        },
        None => None,
    }
}

/// Fills the capability cache. The cache never expires within a run.
pub fn set_cached_av1_encoders(st: &mut ConvertState, encoders: Vec<String>)
    ensures
        cache_views(final(st).encoder_cache.0) == Some(crate::encoders::views(encoders@)),
        final(st).active.0 == old(st).active.0,
        final(st).pids.0@ == old(st).pids.0@,
        final(st).global_cancel.0 == old(st).global_cancel.0,
{
    st.encoder_cache.0 = Some(encoders);
}

/// Starting a second conversion while one is active fails immediately;
/// once the first releases the slot, a new conversion may start, whatever
/// the processes involved.
pub proof fn lemma_single_flight(
    s0: ConvertState,
    s1: ConvertState,
    s2: ConvertState,
    s3: ConvertState,
    s4: ConvertState,
    pid1: u32,
    pid2: u32,
    r1: Result<(), String>,
    r2: Result<(), String>,
    r3: Result<(), String>,
)
    requires
        s0.active.0 is None,
        register_active_post(s0, pid1, r1, s1),
        register_active_post(s1, pid2, r2, s2),
        unregister_active_post(s2, pid1, s3),
        register_active_post(s3, pid2, r3, s4),
    ensures
        r1 is Ok,
        r2 is Err,
        r3 is Ok,
        s4.active.0 == Some(ConversionControl { pid: pid2, cancel_requested: false }),
{
}

/// Clearing cancellation when nothing was canceled leaves the state as if
/// nothing had happened, and clearing twice is the same as clearing once.
pub proof fn lemma_clear_cancel_idempotent(
    s0: ConvertState,
    s1: ConvertState,
    s2: ConvertState,
)
    requires
        clear_cancel_post(s0, s1),
        clear_cancel_post(s1, s2),
    ensures
        !cancel_set(s0) ==> state_equiv(s1, s0),
        state_equiv(s2, s1),
{
}

} // verus!
