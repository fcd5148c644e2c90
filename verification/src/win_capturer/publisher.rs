//! The capture session's live settings.
//!
//! The capture thread reads the settings every frame. A change that it cannot
//! apply live latches `needs_rebuild`; the thread then ends its session and
//! builds a new one from the settings of that moment.

use vstd::prelude::*;

verus! {

/// How long the capture thread pauses after a session that failed, in
/// milliseconds.
pub const SESSION_RETRY_MS: u64 = 500;

/// The settings, and what the capture thread is to do next.
#[derive(Debug, Clone, Copy, PartialEq, Eq, Structural)]
pub struct State {
    pub width: u32,
    pub height: u32,
    pub fps: u32,
    pub bitrate_kbps: u32,
    pub display_id: u32,
    /// Cleared by `stop`, so that the getters report 0 rather than stale
    /// values.
    pub running: bool,
    /// Set by `start`, and cleared once the capture thread has ended.
    pub capturing: bool,
    /// Latched when a settings change asks for a new session.
    pub needs_rebuild: bool,
    /// Tells the capture thread to end.
    pub shutdown: bool,
}

impl Default for State {
    /// Nothing runs.
    fn default() -> (r: Self)
        ensures
            r == (State {
                width: 0,
                height: 0,
                fps: 0,
                bitrate_kbps: 0,
                display_id: 0,
                running: false,
                capturing: false,
                needs_rebuild: false,
                shutdown: false,
            }),
    {
        State {
            width: 0,
            height: 0,
            fps: 0,
            bitrate_kbps: 0,
            display_id: 0,
            running: false,
            capturing: false,
            needs_rebuild: false,
            shutdown: false,
        }
    }
}

/// Whether there is a capturer: it runs, or it was told to stop and its thread
/// has not ended yet.
pub open spec fn active(s: State) -> bool {
    s.running || s.capturing
}

/// The outcome of a setter: where there is a capturer, it takes the settings
/// `set`, and where there is none, they stay and the caller is told.
pub open spec fn applied(
    before: State,
    set: State,
    after: State,
    r: Result<(), &'static str>,
) -> bool {
    if active(before) {
        r is Ok && after == set
    } else {
        r matches Err(e) && e@ == "capturer not started"@ && after == before
    }
}

/// The settings with another display, where it is another one.
pub open spec fn with_display(s: State, display_id: u32) -> State {
    if s.display_id == display_id {
        s
    } else {
        State { display_id, needs_rebuild: true, ..s }
    }
}

/// The settings with another bitrate.
pub open spec fn with_bitrate(s: State, kbps: u32) -> State {
    State { bitrate_kbps: kbps, needs_rebuild: true, ..s }
}

/// The settings with another frame rate.
pub open spec fn with_fps(s: State, fps: u32) -> State {
    State { fps, needs_rebuild: true, ..s }
}

/// The settings with another resolution.
pub open spec fn with_resolution(s: State, width: u32, height: u32) -> State {
    State { width, height, needs_rebuild: true, ..s }
}

/// What is shown of a number that holds while the capturer runs.
pub open spec fn shown(s: State, n: u32) -> u32 {
    if s.running {
        n
    } else {
        0
    }
}

/// The state once the publisher is told to stop.
pub open spec fn stopped(s: State) -> State {
    State { shutdown: true, running: false, ..s }
}

/// The state once the capture thread has ended.
pub open spec fn ended(s: State) -> State {
    State { shutdown: false, running: false, capturing: false, ..s }
}

/// Begin a session. `display_id == 0` means the primary display. It is refused
/// until the thread of the session before has ended.
pub fn start(
    s: &mut State,
    width: u32,
    height: u32,
    fps: u32,
    bitrate_kbps: u32,
    display_id: u32,
) -> (r: Result<(), &'static str>)
    ensures
        if active(*old(s)) {
            r matches Err(e) && e@ == "publisher already running"@ && *final(s) == *old(s)
        } else {
            r is Ok && *final(s) == (State {
                width,
                height,
                fps,
                bitrate_kbps,
                display_id,
                running: true,
                capturing: true,
                needs_rebuild: false,
                shutdown: false,
            })
        },
{
    if s.running || s.capturing {
        return Err("publisher already running");
    }
    s.width = width;
    s.height = height;
    s.fps = fps;
    s.bitrate_kbps = bitrate_kbps;
    s.display_id = display_id;
    s.running = true;
    s.capturing = true;
    s.needs_rebuild = false;
    s.shutdown = false;
    Ok(())
}

/// Stop the publisher. Idempotent; safe to call before `start`.
pub fn stop(s: &mut State)
    ensures
        *final(s) == stopped(*old(s)),
{
    s.shutdown = true;
    s.running = false;
}

/// Note that the capture thread has ended.
pub fn thread_ended(s: &mut State)
    ensures
        *final(s) == ended(*old(s)),
{
    s.shutdown = false;
    s.running = false;
    s.capturing = false;
}

/// Switch the running publisher to a different monitor.
pub fn select_display(s: &mut State, display_id: u32) -> (r: Result<(), &'static str>)
    ensures
        applied(*old(s), with_display(*old(s), display_id), *final(s), r),
{
    if !s.running && !s.capturing {
        return Err("capturer not started");
    }
    if s.display_id == display_id {
        return Ok(());
    }
    s.display_id = display_id;
    s.needs_rebuild = true;
    Ok(())
}

/// The selected display, or 0 if no capturer is running.
pub fn active_display_id(s: &State) -> (r: u32)
    ensures
        r == shown(*s, s.display_id),
{
    if s.running {
        s.display_id
    } else {
        0
    }
}

/// Set the bitrate. It takes effect with the next session.
pub fn set_bitrate_kbps(s: &mut State, kbps: u32) -> (r: Result<(), &'static str>)
    ensures
        applied(*old(s), with_bitrate(*old(s), kbps), *final(s), r),
{
    if !s.running && !s.capturing {
        return Err("capturer not started");
    }
    s.bitrate_kbps = kbps;
    s.needs_rebuild = true;
    Ok(())
}

/// The configured bitrate, or 0 if no capturer is running.
pub fn bitrate_kbps(s: &State) -> (r: u32)
    ensures
        r == shown(*s, s.bitrate_kbps),
{
    if s.running {
        s.bitrate_kbps
    } else {
        0
    }
}

/// Set the frame rate. It takes effect with the next session.
pub fn set_fps(s: &mut State, fps: u32) -> (r: Result<(), &'static str>)
    ensures
        applied(*old(s), with_fps(*old(s), fps), *final(s), r),
{
    if !s.running && !s.capturing {
        return Err("capturer not started");
    }
    s.fps = fps;
    s.needs_rebuild = true;
    Ok(())
}

/// The configured frame rate, or 0 if no capturer is running.
pub fn fps(s: &State) -> (r: u32)
    ensures
        r == shown(*s, s.fps),
{
    if s.running {
        s.fps
    } else {
        0
    }
}

/// Switch the output resolution. It takes effect with the next session.
pub fn set_resolution(s: &mut State, width: u32, height: u32) -> (r: Result<(), &'static str>)
    ensures
        applied(*old(s), with_resolution(*old(s), width, height), *final(s), r),
{
    if !s.running && !s.capturing {
        return Err("capturer not started");
    }
    s.width = width;
    s.height = height;
    s.needs_rebuild = true;
    Ok(())
}

/// `(width, height)`, or `(0, 0)` if no capturer is running.
pub fn resolution(s: &State) -> (r: (u32, u32))
    ensures
        r == (shown(*s, s.width), shown(*s, s.height)),
{
    if s.running {
        (s.width, s.height)
    } else {
        (0, 0)
    }
}

/// The settings that a session is built from.
#[derive(Debug, Clone, Copy, PartialEq, Eq, Structural)]
pub struct CaptureSnapshot {
    pub width: u32,
    pub height: u32,
    pub fps: u32,
    pub bitrate_kbps: u32,
    pub display_id: u32,
}

/// The settings of this moment.
pub open spec fn snapshot_of(s: State) -> CaptureSnapshot {
    CaptureSnapshot {
        width: s.width,
        height: s.height,
        fps: s.fps,
        bitrate_kbps: s.bitrate_kbps,
        display_id: s.display_id,
    }
}

/// The next session, if any, and the state that it leaves.
pub open spec fn session_step(s: State) -> (Option<CaptureSnapshot>, State) {
    if s.shutdown {
        (None, s)
    } else {
        (Some(snapshot_of(s)), State { needs_rebuild: false, ..s })
    }
}

/// The next session of the capture thread, built from the settings of this
/// moment. `None` ends the thread.
pub fn next_session(s: &mut State) -> (r: Option<CaptureSnapshot>)
    ensures
        (r, *final(s)) == session_step(*old(s)),
{
    if s.shutdown {
        return None;
    }
    s.needs_rebuild = false;
    Some(
        CaptureSnapshot {
            width: s.width,
            height: s.height,
            fps: s.fps,
            bitrate_kbps: s.bitrate_kbps,
            display_id: s.display_id,
        },
    )
}

/// Which monitor a session captures.
#[derive(Debug, Clone, Copy, PartialEq, Eq, Structural)]
pub enum MonitorChoice {
    Primary,
    /// The monitor with this index, or the primary one where there is none.
    IndexOrPrimary(u32),
}

impl CaptureSnapshot {
    /// The monitor of the session.
    pub fn monitor(&self) -> (r: MonitorChoice)
        ensures
            r == (if self.display_id == 0 {
                MonitorChoice::Primary
            } else {
                MonitorChoice::IndexOrPrimary(self.display_id)
            }),
    {
        if self.display_id == 0 {
            MonitorChoice::Primary
        } else {
            MonitorChoice::IndexOrPrimary(self.display_id)
        }
    }

    /// The bitrate in bits per second, at most `u32::MAX`.
    pub fn bitrate_bps(&self) -> (r: u32)
        ensures
            r as int == if self.bitrate_kbps * 1000 > u32::MAX {
                u32::MAX as int
            } else {
                self.bitrate_kbps * 1000
            },
    {
        if self.bitrate_kbps > u32::MAX / 1000 {
            u32::MAX
        } else {
            self.bitrate_kbps * 1000
        }
    }
}

/// What to do with a captured frame.
#[derive(Debug, Clone, Copy, PartialEq, Eq, Structural)]
pub enum FrameStep {
    /// End the session.
    Stop,
    /// Encode the frame.
    Encode,
}

/// What is done with a frame of `frame_w` by `frame_h` pixels, and the state
/// that it leaves.
pub open spec fn frame_step(s: State, snapshot: CaptureSnapshot, frame_w: u32, frame_h: u32) -> (
    FrameStep,
    State,
) {
    if s.shutdown || s.needs_rebuild {
        (FrameStep::Stop, s)
    } else if frame_w != snapshot.width || frame_h != snapshot.height {
        (FrameStep::Stop, State { needs_rebuild: true, ..s })
    } else {
        (FrameStep::Encode, s)
    }
}

/// Decide on a frame of the session `snapshot`. The session ends on shutdown
/// and on a settings change. A frame of another size than the session's asks
/// for a new session.
pub fn on_frame_arrived(
    s: &mut State,
    snapshot: &CaptureSnapshot,
    frame_w: u32,
    frame_h: u32,
) -> (r: FrameStep)
    ensures
        (r, *final(s)) == frame_step(*old(s), *snapshot, frame_w, frame_h),
{
    if s.shutdown || s.needs_rebuild {
        return FrameStep::Stop;
    }
    if frame_w != snapshot.width || frame_h != snapshot.height {
        s.needs_rebuild = true;
        return FrameStep::Stop;
    }
    FrameStep::Encode
}

/// What follows from whether a NAL unit was taken, and the state that it leaves.
pub open spec fn nal_step(s: State, taken: bool) -> (FrameStep, State) {
    if taken {
        (FrameStep::Encode, s)
    } else {
        (FrameStep::Stop, State { shutdown: true, ..s })
    }
}

/// Note whether a NAL unit was taken. Where the receiver is gone the publisher
/// shuts down and the session ends.
pub fn on_nal_sent(s: &mut State, taken: bool) -> (r: FrameStep)
    ensures
        (r, *final(s)) == nal_step(*old(s), taken),
{
    if taken {
        FrameStep::Encode
    } else {
        s.shutdown = true;
        FrameStep::Stop
    }
}

/// While the capturer runs, what was set is what is shown.
pub proof fn law_setting_is_shown(s: State, n: u32, width: u32, height: u32)
    requires
        s.running,
    ensures
        shown(with_display(s, n), with_display(s, n).display_id) == n,
        shown(with_bitrate(s, n), with_bitrate(s, n).bitrate_kbps) == n,
        shown(with_fps(s, n), with_fps(s, n).fps) == n,
        shown(with_resolution(s, width, height), with_resolution(s, width, height).width)
            == width,
        shown(with_resolution(s, width, height), with_resolution(s, width, height).height)
            == height,
{
}

/// Every setter asks for a new session, but for the display that is already
/// selected, which changes nothing.
pub proof fn law_change_asks_for_a_new_session(s: State, n: u32, width: u32, height: u32)
    ensures
        n != s.display_id ==> with_display(s, n).needs_rebuild,
        with_display(s, s.display_id) == s,
        with_bitrate(s, n).needs_rebuild,
        with_fps(s, n).needs_rebuild,
        with_resolution(s, width, height).needs_rebuild,
{
}

/// Where a new session is asked for, the session ends with its next frame,
/// whatever its size, and the next session has the settings of that moment and
/// goes on to encode frames of its size.
pub proof fn law_new_session_has_the_latest_settings(
    s: State,
    running_session: CaptureSnapshot,
    frame_w: u32,
    frame_h: u32,
)
    requires
        s.needs_rebuild,
        !s.shutdown,
    ensures
        frame_step(s, running_session, frame_w, frame_h) == (FrameStep::Stop, s),
        session_step(s).0 == Some(snapshot_of(s)),
        ({
            let next = session_step(s).1;
            frame_step(next, snapshot_of(s), s.width, s.height) == (FrameStep::Encode, next)
        }),
{
}

/// Only the setters and `start` change the settings: neither a frame, nor a
/// NAL unit, nor a new session does.
pub proof fn law_settings_are_kept(
    s: State,
    session: CaptureSnapshot,
    frame_w: u32,
    frame_h: u32,
    taken: bool,
)
    ensures
        snapshot_of(frame_step(s, session, frame_w, frame_h).1) == snapshot_of(s),
        snapshot_of(nal_step(s, taken).1) == snapshot_of(s),
        snapshot_of(session_step(s).1) == snapshot_of(s),
        snapshot_of(stopped(s)) == snapshot_of(s),
{
}

/// A publisher that was stopped shows nothing but 0, ends its session with the
/// next frame and builds no other. To stop it again changes nothing.
pub proof fn law_stop_is_final(s: State, session: CaptureSnapshot, frame_w: u32, frame_h: u32, n: u32)
    ensures
        shown(stopped(s), n) == 0,
        frame_step(stopped(s), session, frame_w, frame_h) == (FrameStep::Stop, stopped(s)),
        session_step(stopped(s)) == (None::<CaptureSnapshot>, stopped(s)),
        stopped(stopped(s)) == stopped(s),
{
}

/// To stop a publisher leaves its thread there until it has ended: `start` is
/// refused meanwhile, and taken afterwards. Nothing that the thread does in
/// between changes that.
pub proof fn law_start_waits_for_the_thread(
    s: State,
    session: CaptureSnapshot,
    frame_w: u32,
    frame_h: u32,
    taken: bool,
)
    requires
        s.capturing,
    ensures
        active(stopped(s)),
        active(frame_step(stopped(s), session, frame_w, frame_h).1),
        active(nal_step(stopped(s), taken).1),
        active(session_step(stopped(s)).1),
        !active(ended(s)),
        !active(ended(stopped(s))),
{
}

/// Where the receiver is gone, the session ends and no other is built.
pub proof fn law_receiver_gone_ends_the_thread(s: State)
    ensures
        nal_step(s, false).0 == FrameStep::Stop,
        session_step(nal_step(s, false).1).0 is None,
{
}

/// A session has the settings of its moment, one by one, and takes the request
/// for a new session back. Nothing else changes. On shutdown there is none, and
/// nothing changes.
pub proof fn law_session_has_the_settings(s: State)
    ensures
        s.shutdown ==> session_step(s).0 is None && session_step(s).1 == s,
        !s.shutdown ==> {
            let (session, after) = session_step(s);
            &&& session is Some
            &&& session->0.width == s.width
            &&& session->0.height == s.height
            &&& session->0.fps == s.fps
            &&& session->0.bitrate_kbps == s.bitrate_kbps
            &&& session->0.display_id == s.display_id
            &&& after == State { needs_rebuild: false, ..s }
        },
{
}

/// What is set is what the next session has, and a setter changes no other
/// setting.
pub proof fn law_setters_reach_the_session(s: State, n: u32, width: u32, height: u32)
    requires
        !s.shutdown,
    ensures
        session_step(with_display(s, n)).0 == Some(
            CaptureSnapshot {
                width: s.width,
                height: s.height,
                fps: s.fps,
                bitrate_kbps: s.bitrate_kbps,
                display_id: n,
            },
        ),
        session_step(with_bitrate(s, n)).0 == Some(
            CaptureSnapshot {
                width: s.width,
                height: s.height,
                fps: s.fps,
                bitrate_kbps: n,
                display_id: s.display_id,
            },
        ),
        session_step(with_fps(s, n)).0 == Some(
            CaptureSnapshot {
                width: s.width,
                height: s.height,
                fps: n,
                bitrate_kbps: s.bitrate_kbps,
                display_id: s.display_id,
            },
        ),
        session_step(with_resolution(s, width, height)).0 == Some(
            CaptureSnapshot {
                width,
                height,
                fps: s.fps,
                bitrate_kbps: s.bitrate_kbps,
                display_id: s.display_id,
            },
        ),
{
}

/// Setters leave everything but their own setting and the request for a new
/// session as it was: whether the capturer runs, and whether it is to end.
pub proof fn law_setters_change_one_setting(s: State, n: u32, width: u32, height: u32)
    ensures
        n != s.display_id ==> with_display(s, n) == (State {
            display_id: n,
            needs_rebuild: true,
            ..s
        }),
        n == s.display_id ==> with_display(s, n) == s,
        with_bitrate(s, n) == (State { bitrate_kbps: n, needs_rebuild: true, ..s }),
        with_fps(s, n) == (State { fps: n, needs_rebuild: true, ..s }),
        with_resolution(s, width, height) == (State { width, height, needs_rebuild: true, ..s }),
{
}

/// A setter succeeds exactly while there is a capturer, one that runs or one
/// whose thread has not ended, and then takes effect. Otherwise it says that
/// none was started, and nothing changes.
pub proof fn law_setters_need_a_capturer(
    before: State,
    set: State,
    after: State,
    r: Result<(), &'static str>,
)
    requires
        applied(before, set, after, r),
    ensures
        r is Ok <==> before.running || before.capturing,
        r is Ok ==> after == set,
        r matches Err(e) ==> e@ == "capturer not started"@ && after == before,
{
}

/// Numbers are shown while the capturer runs, as they are, and as 0 otherwise.
pub proof fn law_shown_while_running(s: State, n: u32)
    ensures
        s.running ==> shown(s, n) == n,
        !s.running ==> shown(s, n) == 0,
{
}

/// `stop` raises the shutdown signal and ends the running state; the end of the
/// thread takes the signal back and leaves no capturer. Neither touches a
/// setting.
pub proof fn law_stop_and_end(s: State)
    ensures
        stopped(s) == (State { shutdown: true, running: false, ..s }),
        ended(s) == (State { shutdown: false, running: false, capturing: false, ..s }),
        active(s) <==> s.running || s.capturing,
        active(stopped(s)) <==> s.capturing,
        !active(ended(s)),
{
}

/// A frame is encoded exactly when nothing speaks against it: no shutdown, no
/// request for a new session, and the session's own size. A frame of another
/// size is what asks for a new session; nothing else changes.
pub proof fn law_frames_are_encoded_unless(
    s: State,
    session: CaptureSnapshot,
    frame_w: u32,
    frame_h: u32,
)
    ensures
        ({
            let (step, after) = frame_step(s, session, frame_w, frame_h);
            let fits = frame_w == session.width && frame_h == session.height;
            &&& step == FrameStep::Encode <==> !s.shutdown && !s.needs_rebuild && fits
            &&& after.needs_rebuild <==> s.needs_rebuild || (!s.shutdown && !fits)
            &&& after == State { needs_rebuild: after.needs_rebuild, ..s }
        }),
{
}

/// A NAL unit that is taken changes nothing; one that is not ends the session
/// and raises the shutdown signal, and changes nothing else.
pub proof fn law_nal_units_are_taken_or_end_it(s: State)
    ensures
        nal_step(s, true) == (FrameStep::Encode, s),
        nal_step(s, false) == (FrameStep::Stop, State { shutdown: true, ..s }),
{
}

/// What a setter sets is what the next session has, where the setter succeeds,
/// and what the getter shows, while the capturer runs. Everything else of the
/// session is as it was set before.
pub proof fn law_set_then_capture(
    fps_set: &mut State,
    kbps_set: &mut State,
    size_set: &mut State,
    display_set: &mut State,
    n: u32,
    width: u32,
    height: u32,
    results: (
        Result<(), &'static str>,
        Result<(), &'static str>,
        Result<(), &'static str>,
        Result<(), &'static str>,
    ),
    sessions: (
        Option<CaptureSnapshot>,
        Option<CaptureSnapshot>,
        Option<CaptureSnapshot>,
        Option<CaptureSnapshot>,
    ),
    before: State,
    froms: (&mut State, &mut State, &mut State, &mut State),
)
    requires
        before.running,
        !before.shutdown,
        *fps_set == before,
        *kbps_set == before,
        *size_set == before,
        *display_set == before,
        call_ensures(set_fps, (fps_set, n), results.0),
        call_ensures(set_bitrate_kbps, (kbps_set, n), results.1),
        call_ensures(set_resolution, (size_set, width, height), results.2),
        call_ensures(select_display, (display_set, n), results.3),
        *froms.0 == *final(fps_set),
        *froms.1 == *final(kbps_set),
        *froms.2 == *final(size_set),
        *froms.3 == *final(display_set),
        call_ensures(next_session, (froms.0,), sessions.0),
        call_ensures(next_session, (froms.1,), sessions.1),
        call_ensures(next_session, (froms.2,), sessions.2),
        call_ensures(next_session, (froms.3,), sessions.3),
    ensures
        results.0 is Ok && results.1 is Ok && results.2 is Ok && results.3 is Ok,
        sessions.0 == Some(
            CaptureSnapshot {
                width: before.width,
                height: before.height,
                fps: n,
                bitrate_kbps: before.bitrate_kbps,
                display_id: before.display_id,
            },
        ),
        sessions.1 == Some(
            CaptureSnapshot {
                width: before.width,
                height: before.height,
                fps: before.fps,
                bitrate_kbps: n,
                display_id: before.display_id,
            },
        ),
        sessions.2 == Some(
            CaptureSnapshot {
                width,
                height,
                fps: before.fps,
                bitrate_kbps: before.bitrate_kbps,
                display_id: before.display_id,
            },
        ),
        sessions.3 == Some(
            CaptureSnapshot {
                width: before.width,
                height: before.height,
                fps: before.fps,
                bitrate_kbps: before.bitrate_kbps,
                display_id: n,
            },
        ),
{
}

/// `start` begins with the settings that it was given: the getters show them,
/// and the first session has them.
pub proof fn law_start_then_capture(
    s: &mut State,
    size: (u32, u32),
    rate: u32,
    kbps: u32,
    display: u32,
    r: Result<(), &'static str>,
    then: &mut State,
    session: Option<CaptureSnapshot>,
    shown_size: (u32, u32),
    shown_rate: u32,
    shown_kbps: u32,
    shown_display: u32,
)
    requires
        call_ensures(start, (s, size.0, size.1, rate, kbps, display), r),
        *then == *final(s),
        call_ensures(resolution, (&*final(s),), shown_size),
        call_ensures(fps, (&*final(s),), shown_rate),
        call_ensures(bitrate_kbps, (&*final(s),), shown_kbps),
        call_ensures(active_display_id, (&*final(s),), shown_display),
        call_ensures(next_session, (then,), session),
    ensures
        r is Ok <==> !old(s).running && !old(s).capturing,
        r is Err ==> *final(s) == *old(s) && r->Err_0@ == "publisher already running"@,
        r is Ok ==> shown_size == size && shown_rate == rate && shown_kbps == kbps
            && shown_display == display,
        r is Ok ==> session == Some(
            CaptureSnapshot {
                width: size.0,
                height: size.1,
                fps: rate,
                bitrate_kbps: kbps,
                display_id: display,
            },
        ),
        r is Ok ==> !final(then).needs_rebuild && final(then).running && final(then).capturing,
{
}

/// After `stop` the getters show 0 and no session is built. The end of the
/// thread leaves no capturer, and takes the signal to end back.
pub proof fn law_stop_then_nothing(
    s: &mut State,
    then: &mut State,
    session: Option<CaptureSnapshot>,
    last: &mut State,
    shown_size: (u32, u32),
    shown_rate: u32,
    shown_kbps: u32,
    shown_display: u32,
)
    requires
        call_ensures(stop, (s,), ()),
        *then == *final(s),
        call_ensures(next_session, (then,), session),
        call_ensures(resolution, (&*final(s),), shown_size),
        call_ensures(fps, (&*final(s),), shown_rate),
        call_ensures(bitrate_kbps, (&*final(s),), shown_kbps),
        call_ensures(active_display_id, (&*final(s),), shown_display),
        *last == *final(then),
        call_ensures(thread_ended, (last,), ()),
    ensures
        session is None,
        *final(then) == *final(s),
        shown_size == (0u32, 0u32),
        shown_rate == 0 && shown_kbps == 0 && shown_display == 0,
        !final(last).running && !final(last).capturing && !final(last).shutdown,
{
}

/// A frame is encoded exactly when nothing speaks against it, and a NAL unit
/// that is not taken ends the session and the thread.
pub proof fn law_frames_and_units(
    s: &mut State,
    session: &CaptureSnapshot,
    frame: (u32, u32),
    step: FrameStep,
    t: &mut State,
    taken: bool,
    sent: FrameStep,
)
    requires
        call_ensures(on_frame_arrived, (s, session, frame.0, frame.1), step),
        call_ensures(on_nal_sent, (t, taken), sent),
    ensures
        step == FrameStep::Encode <==> !old(s).shutdown && !old(s).needs_rebuild && frame.0
            == session.width && frame.1 == session.height,
        step == FrameStep::Encode ==> *final(s) == *old(s),
        final(s).needs_rebuild <==> old(s).needs_rebuild || (!old(s).shutdown && (frame.0
            != session.width || frame.1 != session.height)),
        *final(s) == (State { needs_rebuild: final(s).needs_rebuild, ..*old(s) }),
        sent == FrameStep::Encode <==> taken,
        taken ==> *final(t) == *old(t),
        !taken ==> *final(t) == (State { shutdown: true, ..*old(t) }),
{
}

/// A session captures the primary monitor for display 0 and otherwise the one
/// of its display. Its bitrate in bits is a thousand times that in kilobits, as
/// far as that fits.
pub proof fn law_session_parameters(session: CaptureSnapshot, monitor: MonitorChoice, bps: u32)
    requires
        call_ensures(CaptureSnapshot::monitor, (&session,), monitor),
        call_ensures(CaptureSnapshot::bitrate_bps, (&session,), bps),
    ensures
        session.display_id == 0 <==> monitor == MonitorChoice::Primary,
        session.display_id != 0 ==> monitor == MonitorChoice::IndexOrPrimary(session.display_id),
        session.bitrate_kbps <= 4_294_967 ==> bps == 1000 * session.bitrate_kbps,
        session.bitrate_kbps > 4_294_967 ==> bps == 0xffff_ffff,
{
}

/// A publisher begins with nothing running: it shows 0, takes no setting, and
/// can be started. After a session that failed it pauses for half a second.
pub proof fn law_fresh_publisher(
    fresh: State,
    s: &mut State,
    size: (u32, u32),
    fps: u32,
    bitrate_kbps: u32,
    display_id: u32,
    r: Result<(), &'static str>,
)
    requires
        call_ensures(State::default, (), fresh),
        *s == fresh,
        call_ensures(start, (s, size.0, size.1, fps, bitrate_kbps, display_id), r),
    ensures
        !active(fresh) && !fresh.shutdown && !fresh.needs_rebuild,
        shown(fresh, fresh.width) == 0 && shown(fresh, fresh.fps) == 0,
        r is Ok,
        active(*final(s)),
        final(s).width == size.0 && final(s).height == size.1,
        final(s).fps == fps && final(s).bitrate_kbps == bitrate_kbps,
        final(s).display_id == display_id,
        SESSION_RETRY_MS == 500,
{
}

} // verus!
