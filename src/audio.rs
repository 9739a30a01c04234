//! The playback transport: the state machine that the main loop drives, the
//! clock it reads, and the decisions of the real-time output callback.
use vstd::prelude::*;

verus! {

#[derive(Clone, Copy, Debug, PartialEq, Eq, Structural)]
pub enum PlayerState {
    Stopped,
    Playing,
    Paused,
    Loading,
}

/// Transport state of one loaded track. Times are milliseconds on a monotonic
/// clock that the caller reads; sample positions index the interleaved
/// decoded samples.
#[derive(Clone, Copy, Debug, PartialEq, Eq, Structural)]
pub struct AudioPlayer {
    pub state: PlayerState,
    /// Next sample that the output callback plays.
    pub index: usize,
    /// When playback last entered `Playing`.
    pub start_time: Option<u64>,
    /// Whether an output stream has been opened for this track.
    pub stream_open: bool,
    /// Whether decoding the track has failed.
    pub failed: bool,
}

/// What the output callback does with one buffer request.
#[derive(Clone, Copy, Debug, PartialEq, Eq, Structural)]
pub struct OutputPlan {
    /// First decoded sample to copy.
    pub first: usize,
    /// How many samples to copy; the rest of the buffer is silence.
    pub count: usize,
}

/// The player after `start`, and whether that call must open the stream.
pub open spec fn start_spec(p: AudioPlayer) -> (AudioPlayer, bool) {
    (AudioPlayer { stream_open: true, ..p }, !p.stream_open)
}

/// The clock: elapsed milliseconds since entering `Playing`, 0 in any other state.
pub open spec fn time_spec(p: AudioPlayer, now_ms: u64) -> u64 {
    if p.state != PlayerState::Playing {
        0
    } else {
        match p.start_time {
            Some(t) => if now_ms >= t {
                (now_ms - t) as u64
            } else {
                0
            },
            None => 0,
        }
    }
}

impl AudioPlayer {
    /// A player whose track is still loading.
    pub fn new() -> (r: AudioPlayer)
        ensures
            r == (AudioPlayer {
                state: PlayerState::Loading,
                index: 0,
                start_time: None,
                stream_open: false,
                failed: false,
            }),
    {
        AudioPlayer {
            state: PlayerState::Loading,
            index: 0,
            start_time: None,
            stream_open: false,
            failed: false,
        }
    }

    /// The decode task has begun: a loading player becomes stopped.
    pub fn mark_loaded(&mut self)
        ensures
            *final(self) == (if old(self).state == PlayerState::Loading {
                AudioPlayer { state: PlayerState::Stopped, ..*old(self) }
            } else {
                *old(self)
            }),
    {
        if self.state == PlayerState::Loading {
            self.state = PlayerState::Stopped;
        }
    }

    /// Decoding failed; the failure stays visible to the main loop.
    pub fn mark_failed(&mut self)
        ensures
            *final(self) == (AudioPlayer { failed: true, ..*old(self) }),
    {
        self.failed = true;
    }

    /// Whether decoding has failed.
    pub fn has_failed(&self) -> (r: bool)
        ensures
            r == self.failed,
    {
        self.failed
    }

    /// Marks the output stream as open; the result says whether the caller
    /// must open it now, which is only on the first call.
    pub fn start(&mut self) -> (r: bool)
        ensures
            (*final(self), r) == start_spec(*old(self)),
    {
        let open_now = !self.stream_open;
        self.stream_open = true;
        open_now
    }

    /// Starts playing at `now_ms`; no change while already playing.
    pub fn play(&mut self, now_ms: u64)
        ensures
            *final(self) == (if old(self).state == PlayerState::Playing {
                *old(self)
            } else {
                AudioPlayer { state: PlayerState::Playing, start_time: Some(now_ms), ..*old(self) }
            }),
    {
        if self.state != PlayerState::Playing {
            self.state = PlayerState::Playing;
            self.start_time = Some(now_ms);
        }
    }

    /// Pauses a playing player; in any other state nothing changes.
    pub fn pause(&mut self)
        ensures
            *final(self) == (if old(self).state == PlayerState::Playing {
                AudioPlayer { state: PlayerState::Paused, ..*old(self) }
            } else {
                *old(self)
            }),
    {
        if self.state == PlayerState::Playing {
            self.state = PlayerState::Paused;
        }
    }

    /// Stops from any state, rewinding and clearing the start time.
    pub fn stop(&mut self)
        ensures
            *final(self) == (AudioPlayer {
                state: PlayerState::Stopped,
                index: 0,
                start_time: None,
                ..*old(self)
            }),
    {
        self.state = PlayerState::Stopped;
        self.index = 0;
        self.start_time = None;
    }

    /// The playback clock at `now_ms`: exactly 0 unless playing.
    pub fn get_time_ms(&self, now_ms: u64) -> (r: u64)
        ensures
            r == time_spec(*self, now_ms),
            self.state != PlayerState::Playing ==> r == 0,
    {
        if self.state != PlayerState::Playing {
            return 0;
        }
        match self.start_time {
            Some(t) => if now_ms >= t {
                now_ms - t
            } else {
                0
            },
            None => 0,
        }
    }

    pub fn is_playing(&self) -> (r: bool)
        ensures
            r == (self.state == PlayerState::Playing),
    {
        self.state == PlayerState::Playing
    }

    pub fn is_loaded(&self) -> (r: bool)
        ensures
            r == (self.state != PlayerState::Loading),
    {
        self.state != PlayerState::Loading
    }

    /// One output-buffer request of `requested` samples while `available`
    /// samples are decoded. Unless playing, nothing is copied. Otherwise the
    /// samples from the cursor on are copied as far as they go, the cursor
    /// moves past them, and running short of decoded samples stops playback.
    pub fn fill(&mut self, available: usize, requested: usize) -> (r: OutputPlan)
        ensures
            r.first == old(self).index,
            old(self).state != PlayerState::Playing ==> r.count == 0 && *final(self) == *old(self),
            old(self).state == PlayerState::Playing ==> {
                let left: int = if old(self).index <= available {
                    available - old(self).index
                } else {
                    0
                };
                &&& r.count == (if requested <= left {
                    requested as int
                } else {
                    left
                })
                &&& final(self).index == old(self).index + r.count
                &&& final(self).state == (if requested <= left {
                    PlayerState::Playing
                } else {
                    PlayerState::Stopped
                })
                &&& final(self).start_time == old(self).start_time
                &&& final(self).stream_open == old(self).stream_open
                &&& final(self).failed == old(self).failed
            },
    {
        let first = self.index;
        if self.state != PlayerState::Playing {
            return OutputPlan { first, count: 0 };
        }
        let left: usize = if first <= available {
            available - first
        } else {
            0
        };
        if requested <= left {
            self.index = first + requested;
            OutputPlan { first, count: requested }
        } else {
            self.index = first + left;
            self.state = PlayerState::Stopped;
            OutputPlan { first, count: left }
        }
    }
}

/// Starting twice opens one output stream: the second call never asks for
/// one, and the two calls together ask at most once.
pub proof fn lemma_start_idempotent(p: AudioPlayer)
    ensures
        !start_spec(start_spec(p).0).1,
        start_spec(start_spec(p).0).0 == start_spec(p).0,
        (if start_spec(p).1 {
            1int
        } else {
            0
        }) + (if start_spec(start_spec(p).0).1 {
            1int
        } else {
            0
        }) <= 1,
{
}

} // verus!
