//! The decisions of the OFF-mode playback worker, which shows the hardware
//! image or GIF on the LCD while streaming is off. The worker itself (device
//! access, waiting, the stop flag) runs outside; it reports what happened
//! and is told what to do next.

use vstd::prelude::*;

verus! {

/// How hardware media is played.
#[derive(Clone, Copy, Debug, PartialEq, Eq, Structural)]
pub enum PlaybackMode {
    /// A single picture: sent once, retried until it gets through.
    Static,
    /// An animation: its frames are sent in turn for as long as playback runs.
    Animation,
}

/// Media with exactly one frame is static; any other is animated.
pub fn playback_mode(frame_count: usize) -> (m: PlaybackMode)
    ensures
        m == (if frame_count == 1 { PlaybackMode::Static } else { PlaybackMode::Animation }),
{
    if frame_count == 1 {
        PlaybackMode::Static
    } else {
        PlaybackMode::Animation
    }
}

/// Attempts made to show a static picture.
pub const STATIC_ATTEMPTS: u32 = 30;
/// Wait after a failed attempt at a static picture, in milliseconds.
pub const STATIC_RETRY_MS: u64 = 100;
/// Wait after the device could not be opened during an animation.
pub const OPEN_RETRY_MS: u64 = 200;
/// Wait after a frame of an animation could not be sent.
pub const SEND_RETRY_MS: u64 = 100;

/// Playback of a static picture: up to 30 attempts to open the device and
/// send the picture, 100 ms apart.
pub struct StaticPlayback {
    /// Attempts made so far.
    pub attempts: u32,
    /// The picture was shown.
    pub shown: bool,
    /// Playback was stopped before an attempt.
    pub stopped: bool,
    /// The error of the last failed attempt (empty when none failed).
    pub last_error: String,
}

impl StaticPlayback {
    pub open spec fn wf(&self) -> bool {
        self.attempts <= STATIC_ATTEMPTS
    }

    /// Playback before the first attempt.
    pub fn new() -> (p: StaticPlayback)
        ensures
            p.wf(),
            p.attempts == 0 && !p.shown && !p.stopped && p.last_error@.len() == 0,
    {
        StaticPlayback { attempts: 0, shown: false, stopped: false, last_error: String::new() }
    }

    /// Whether another attempt is made, given whether playback has been told
    /// to stop: not once the picture is shown or all attempts are used;
    /// otherwise yes unless stopped, in which case playback ends quietly.
    pub fn wants_attempt(&mut self, stop_requested: bool) -> (go: bool)
        requires
            old(self).wf(),
        ensures
            final(self).wf(),
            go == (!old(self).shown && !old(self).stopped && old(self).attempts < STATIC_ATTEMPTS
                && !stop_requested),
            final(self).stopped == (old(self).stopped || (!old(self).shown && old(self).attempts
                < STATIC_ATTEMPTS && stop_requested)),
            final(self).attempts == old(self).attempts,
            final(self).shown == old(self).shown,
            final(self).last_error@ == old(self).last_error@,
    {
        if self.shown || self.stopped || self.attempts >= STATIC_ATTEMPTS {
            return false;
        }
        if stop_requested {
            self.stopped = true;
            return false;
        }
        true
    }

    /// Records the outcome of an attempt. Returns how long to wait before
    /// the next one: nothing once the picture is shown, 100 ms after a
    /// failure.
    pub fn record(&mut self, result: Result<(), String>) -> (wait_ms: Option<u64>)
        requires
            old(self).wf(),
            old(self).attempts < STATIC_ATTEMPTS,
        ensures
            final(self).wf(),
            final(self).attempts == old(self).attempts + 1,
            final(self).stopped == old(self).stopped,
            match result {
                Ok(()) => final(self).shown && wait_ms is None && final(self).last_error@
                    == old(self).last_error@,
                Err(e) => final(self).shown == old(self).shown && wait_ms == Some(STATIC_RETRY_MS)
                    && final(self).last_error@ == e@,
            },
    {
        self.attempts = self.attempts + 1;
        match result {
            Ok(()) => {
                self.shown = true;
                None
            },
            Err(e) => {
                self.last_error = e;
                Some(STATIC_RETRY_MS)
            },
        }
    }

    /// The error reported when playback ends: after every attempt failed
    /// without a stop, the last error, unless it is empty.
    pub fn failure(&self) -> (r: Option<String>)
        ensures
            r is Some <==> (!self.shown && !self.stopped && self.attempts == STATIC_ATTEMPTS
                && self.last_error@.len() > 0),
            r matches Some(e) ==> e@ == self.last_error@,
    {
        if !self.shown && !self.stopped && self.attempts == STATIC_ATTEMPTS && !self.last_error.as_str().is_empty() {
            Some(self.last_error.clone())
        } else {
            None
        }
    }
}

/// What the animation worker does next.
#[derive(Clone, Copy, Debug, PartialEq, Eq, Structural)]
pub enum AnimationStep {
    /// Open the device.
    Open,
    /// Send the frame with this index.
    Send(usize),
}

/// Playback of an animation: frames are sent in turn, each followed by its
/// delay, reopening the device whenever it fails.
pub struct AnimationPlayback {
    /// Number of frames.
    pub frame_count: usize,
    /// The frame sent next.
    pub index: usize,
    /// The device is open.
    pub connected: bool,
    /// The error of the last failure (empty when none failed).
    pub last_error: String,
}

impl AnimationPlayback {
    /// The next frame is one of the animation's.
    pub open spec fn wf(&self) -> bool {
        self.index < self.frame_count
    }

    /// Playback of an animation of `frame_count` frames, from the first.
    pub fn new(frame_count: usize) -> (p: AnimationPlayback)
        requires
            frame_count > 0,
        ensures
            p.wf(),
            p.frame_count == frame_count && p.index == 0 && !p.connected,
            p.last_error@.len() == 0,
    {
        AnimationPlayback { frame_count, index: 0, connected: false, last_error: String::new() }
    }

    /// Open the device when it is closed, else send the current frame.
    pub fn next_step(&self) -> (s: AnimationStep)
        requires
            self.wf(),
        ensures
            s == (if self.connected { AnimationStep::Send(self.index) } else { AnimationStep::Open }),
    {
        if self.connected {
            AnimationStep::Send(self.index)
        } else {
            AnimationStep::Open
        }
    }

    /// The device was opened, or could not be: after a failure, wait 200 ms.
    pub fn opened(&mut self, result: Result<(), String>) -> (wait_ms: Option<u64>)
        requires
            old(self).wf(),
        ensures
            final(self).wf(),
            final(self).frame_count == old(self).frame_count,
            final(self).index == old(self).index,
            match result {
                Ok(()) => final(self).connected && wait_ms is None && final(self).last_error@
                    == old(self).last_error@,
                Err(e) => final(self).connected == old(self).connected && wait_ms == Some(
                    OPEN_RETRY_MS,
                ) && final(self).last_error@ == e@,
            },
    {
        match result {
            Ok(()) => {
                self.connected = true;
                None
            },
            Err(e) => {
                self.last_error = e;
                Some(OPEN_RETRY_MS)
            },
        }
    }

    /// A frame was sent, or could not be. On success the next frame is the
    /// following one (after the last, the first again) and the wait is the
    /// sent frame's delay; on failure the device is closed, the same frame
    /// is tried again after 100 ms.
    pub fn sent(&mut self, result: Result<(), String>, delay_ms: u64) -> (wait_ms: u64)
        requires
            old(self).wf(),
            old(self).connected,
        ensures
            final(self).wf(),
            final(self).frame_count == old(self).frame_count,
            match result {
                Ok(()) => final(self).index == next_frame(old(self).index as int, old(self).frame_count as int)
                    && final(self).connected && wait_ms == delay_ms && final(self).last_error@
                    == old(self).last_error@,
                Err(e) => final(self).index == old(self).index && !final(self).connected && wait_ms
                    == SEND_RETRY_MS && final(self).last_error@ == e@,
            },
    {
        match result {
            Ok(()) => {
                let next = self.index + 1;
                proof {
                    if next < self.frame_count {
                        vstd::arithmetic::div_mod::lemma_small_mod(next as nat, self.frame_count as nat);
                    } else {
                        vstd::arithmetic::div_mod::lemma_mod_self_0(self.frame_count as int);
                    }
                }
                self.index = if next == self.frame_count { 0 } else { next };
                delay_ms
            },
            Err(e) => {
                self.last_error = e;
                self.connected = false;
                SEND_RETRY_MS
            },
        }
    }

    /// The error reported when playback ends: the last error, if there was
    /// one, unless playback was stopped.
    pub fn failure(&self, stop_requested: bool) -> (r: Option<String>)
        ensures
            r is Some <==> (self.last_error@.len() > 0 && !stop_requested),
            r matches Some(e) ==> e@ == self.last_error@,
    {
        if !self.last_error.as_str().is_empty() && !stop_requested {
            Some(self.last_error.clone())
        } else {
            None
        }
    }
}

/// The frame sent after frame `index` of an animation of `n` frames.
pub open spec fn next_frame(index: int, n: int) -> int {
    (index + 1) % n
}

/// The frame sent after `k` successful sends from frame `start`.
pub open spec fn frames_ahead(start: int, n: int, k: nat) -> int
    decreases k,
{
    if k == 0 {
        start
    } else {
        next_frame(frames_ahead(start, n, (k - 1) as nat), n)
    }
}

proof fn lemma_frames_ahead(n: int, start: int, k: nat)
    requires
        n > 0,
        0 <= start < n,
    ensures
        frames_ahead(start, n, k) == (start + k) % n,
    decreases k,
{
    if k == 0 {
        vstd::arithmetic::div_mod::lemma_small_mod(start as nat, n as nat);
    } else {
        lemma_frames_ahead(n, start, (k - 1) as nat);
        vstd::arithmetic::div_mod::lemma_add_mod_noop(start + k - 1, 1, n);
        vstd::arithmetic::div_mod::lemma_mod_twice(1, n);
        if n > 1 {
            vstd::arithmetic::div_mod::lemma_small_mod(1nat, n as nat);
        } else {
            vstd::arithmetic::div_mod::lemma_mod_bound(start + k - 1, n);
        }
    }
}

/// Cycling law: while the device accepts every frame, an animation of `n`
/// frames started at frame `start` sends frame `(start + k) mod n` after `k`
/// sends; so it shows every frame once per round, in order, and is back at
/// its first frame after `n` sends.
pub proof fn lemma_animation_cycles(n: int, start: int, k: nat)
    requires
        n > 0,
        0 <= start < n,
    ensures
        frames_ahead(start, n, k) == (start + k) % n,
        frames_ahead(start, n, n as nat) == start,
{
    lemma_frames_ahead(n, start, k);
    lemma_frames_ahead(n, start, n as nat);
    vstd::arithmetic::div_mod::lemma_mod_add_multiples_vanish(start, n);
    vstd::arithmetic::div_mod::lemma_small_mod(start as nat, n as nat);
}

} // verus!
