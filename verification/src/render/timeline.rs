//! When a caption ends — the one thing every timed renderer needs and none of
//! them can work out alone.
//!
//! Most ARIB captions carry no duration ([`Duration::Indefinite`]): they stay up
//! until the next caption replaces them, so nothing can be written the moment a
//! caption is decoded. Only the *next* caption — or a clear-screen, which is how
//! the last one ends when nothing follows — says where the previous one stopped.
//!
//! [`Timeline`] holds that one caption back and closes it when the answer
//! arrives. It is generic over what a renderer keeps: WebVTT keeps text and a
//! position hint, ASS keeps the whole caption. The timing is the same either
//! way, and having it in two places is how the two would drift apart.
use vstd::prelude::*;

use crate::model::{Caption, Duration};

verus! {

/// A renderer's value together with the span it is on screen for.
#[derive(Clone, Debug, PartialEq, Eq)]
pub struct Timed<T> {
    pub start_ms: i64,
    pub end_ms: i64,
    pub value: T,
}

/// How long a caption with no end time may stay up when nothing follows it.
///
/// A stream can simply stop — the programme ends, the tuner is preempted —
/// leaving the last caption open forever. Somebody has to choose a number;
/// this is it.
pub const MAX_OPEN_MS: i64 = 30_000;

/// The end given to a caption that is still on screen.
///
/// Waiting for the real end is what makes a live subtitle track late: the end
/// only arrives with the *next* caption, and Japanese captions are 2 to 8
/// seconds apart. A consumer that must publish now — an HLS segmenter — needs
/// the cue at its correct start with an approximate end. Typical caption is
/// 2-3 s, so this errs slightly long; the real end replaces it as soon as it is
/// known.
pub const PROVISIONAL_MS: i64 = 5_000;

/// The caption held back, waiting for its end.
#[derive(Debug)]
pub struct Pending<T> {
    pub start_ms: i64,
    /// Set only when the caption carried an explicit duration.
    pub end_ms: Option<i64>,
    pub value: T,
}

/// Turns decoded captions into spans, resolving the open-ended ones.
#[derive(Debug)]
pub struct Timeline<T> {
    pending: Option<Pending<T>>,
}

/// The held caption's start has a next millisecond, the earliest end that
/// closing it may give.
pub open spec fn closable<T>(p: Option<Pending<T>>) -> bool {
    p matches Some(q) ==> q.start_ms < i64::MAX
}

/// The end a caption states, its start plus its duration, is an `i64`.
pub open spec fn end_fits(pts: i64, duration: Duration) -> bool {
    duration matches Duration::Millis(ms) ==> pts + ms <= i64::MAX
}

/// The held caption, if it stated no end, can be given one `extra` after its
/// start.
pub open spec fn open_end_fits<T>(p: Option<Pending<T>>, extra: i64) -> bool {
    p matches Some(q) ==> (q.end_ms is None ==> q.start_ms + extra <= i64::MAX)
}

/// The end a caption states: its start plus its duration, if it has one.
pub open spec fn stated_end(pts: i64, duration: Duration) -> Option<i64> {
    match duration {
        Duration::Millis(ms) => Some((pts + ms) as i64),
        Duration::Indefinite => None,
    }
}

/// The span a pending caption gets when the next one arrives at `at_ms`: an
/// explicit duration wins but never past the caption that replaced it, and a
/// span is never empty.
pub open spec fn closed_at<T>(p: Option<Pending<T>>, at_ms: i64) -> Option<Timed<T>> {
    match p {
        None => None,
        Some(p) => {
            let end = match p.end_ms {
                Some(explicit) => if explicit <= at_ms {
                    explicit
                } else {
                    at_ms
                },
                None => at_ms,
            };
            let end = if end >= p.start_ms + 1 {
                end
            } else {
                (p.start_ms + 1) as i64
            };
            Some(Timed { start_ms: p.start_ms, end_ms: end, value: p.value })
        },
    }
}

impl<T> Default for Timeline<T> {
    fn default() -> (t: Timeline<T>)
        ensures
            t.spec_pending() is None,
    {
        Timeline { pending: None }
    }
}

impl<T> Timeline<T> {
    /// The caption held back, if any.
    pub closed spec fn spec_pending(&self) -> Option<Pending<T>> {
        self.pending
    }

    pub fn new() -> (t: Timeline<T>)
        ensures
            t.spec_pending() is None,
    {
        Timeline { pending: None }
    }

    /// Feed one decoded caption along with what a renderer would show for it,
    /// or `None` when it shows nothing — a clear-screen puts nothing on screen
    /// but still ends what was there.
    ///
    /// Returns the span this caption *closed*, which is normally the one before
    /// it. A caption with no PTS cannot be timed, and must not close anything
    /// either: superimpose arrives that way (private_stream_2 has no PTS) and
    /// it is not part of the subtitle timeline at all.
    pub fn push(&mut self, caption: &Caption, value: Option<T>) -> (closed: Option<Timed<T>>)
        requires
            caption.pts_ms matches Some(pts) ==> closable(old(self).spec_pending()) && (value is Some
                ==> end_fits(pts, caption.duration)),
        ensures
            match caption.pts_ms {
                None => closed is None && final(self).spec_pending() == old(self).spec_pending(),
                Some(pts) => {
                    &&& closed == closed_at(old(self).spec_pending(), pts)
                    &&& final(self).spec_pending() == match value {
                        Some(v) => Some(
                            Pending {
                                start_ms: pts,
                                end_ms: stated_end(pts, caption.duration),
                                value: v,
                            },
                        ),
                        None => None::<Pending<T>>,
                    }
                },
            },
    {
        let pts = match caption.pts_ms {
            Some(p) => p,
            None => return None,
        };
        let closed = self.close_at(pts);
        if let Some(value) = value {
            let end_ms = match caption.duration {
                Duration::Millis(ms) => Some(pts + ms as i64),
                Duration::Indefinite => None,
            };
            self.pending = Some(Pending { start_ms: pts, end_ms, value });
        }
        closed
    }

    /// Close the open span, for when the stream ends. A caption that stated
    /// no end is given [`MAX_OPEN_MS`].
    pub fn flush(&mut self) -> (closed: Option<Timed<T>>)
        requires
            open_end_fits(old(self).spec_pending(), MAX_OPEN_MS),
        ensures
            final(self).spec_pending() is None,
            match old(self).spec_pending() {
                None => closed is None,
                Some(p) => closed == Some(
                    Timed {
                        start_ms: p.start_ms,
                        end_ms: match p.end_ms {
                            Some(e) => e,
                            None => (p.start_ms + MAX_OPEN_MS) as i64,
                        },
                        value: p.value,
                    },
                ),
            },
    {
        let pending = match self.pending.take() {
            Some(p) => p,
            None => return None,
        };
        let end_ms = match pending.end_ms {
            Some(e) => e,
            None => pending.start_ms + MAX_OPEN_MS,
        };
        Some(Timed { start_ms: pending.start_ms, end_ms, value: pending.value })
    }

    /// The start time of the caption still waiting for its end, if any.
    pub fn open_since(&self) -> (t: Option<i64>)
        ensures
            t == match self.spec_pending() {
                Some(p) => Some(p.start_ms),
                None => None::<i64>,
            },
    {
        match &self.pending {
            Some(p) => Some(p.start_ms),
            None => None,
        }
    }

    fn close_at(&mut self, at_ms: i64) -> (closed: Option<Timed<T>>)
        requires
            closable(old(self).spec_pending()),
        ensures
            final(self).spec_pending() is None,
            closed == closed_at(old(self).spec_pending(), at_ms),
    {
        let pending = match self.pending.take() {
            Some(p) => p,
            None => return None,
        };
        // An explicit duration wins, but never past the caption that replaced
        // it: a broadcast that says "3 s" and then sends a new line after 1 s
        // means the new line.
        let end_ms = match pending.end_ms {
            Some(explicit) => if explicit <= at_ms {
                explicit
            } else {
                at_ms
            },
            None => at_ms,
        };
        // Guard against a PTS that did not advance: a zero-length span is
        // invisible and some players reject it.
        let end_ms = if end_ms >= pending.start_ms + 1 {
            end_ms
        } else {
            pending.start_ms + 1
        };
        Some(Timed { start_ms: pending.start_ms, end_ms, value: pending.value })
    }
}

impl<T: Clone> Timeline<T> {
    /// The caption currently on screen as a publishable span, its end
    /// provisional ([`PROVISIONAL_MS`]) unless the broadcast stated one.
    ///
    /// This is what a live consumer emits immediately and then supersedes with
    /// the closed span. The alternative — waiting for the real end — is a
    /// subtitle track that runs seconds behind the picture.
    pub fn pending(&self) -> (t: Option<Timed<T>>)
        requires
            open_end_fits(self.spec_pending(), PROVISIONAL_MS),
        ensures
            match self.spec_pending() {
                None => t is None,
                Some(p) => t matches Some(span) && span.start_ms == p.start_ms && span.end_ms
                    == match p.end_ms {
                    Some(e) => e,
                    None => (p.start_ms + PROVISIONAL_MS) as i64,
                } && cloned(p.value, span.value),
            },
    {
        match &self.pending {
            None => None,
            Some(pending) => {
                let end_ms = match pending.end_ms {
                    Some(e) => e,
                    None => pending.start_ms + PROVISIONAL_MS,
                };
                Some(Timed { start_ms: pending.start_ms, end_ms, value: pending.value.clone() })
            },
        }
    }
}

/// A PTS wraps every 2^33 ticks of the 90 kHz clock: about 26.5 hours, in
/// milliseconds.
pub const WRAP_MS: i64 = 95_443_717;

/// A time relative to an anchor, reading a time more than half a wrap before
/// it as one from after the clock went round.
pub open spec fn spec_rebase(pts_ms: i64, anchor_ms: i64) -> int {
    let t = pts_ms - anchor_ms;
    if t < -(WRAP_MS / 2) {
        t + WRAP_MS
    } else {
        t
    }
}

/// Where a recording's clock starts, so a sidecar's times are the player's.
///
/// Caption times are broadcast PTS: hours into the day, not seconds into the
/// file. An `.ass` or `.vtt` sitting beside a recording has to use the same
/// zero as the player, which for a transport stream is the earliest PTS in it.
/// `anchor_ms` is that value. PTS is 33 bits at 90 kHz, so it wraps every
/// ~26.5 hours; a recording that crosses the wrap has captions numerically
/// *before* its own start, and the only reading that makes sense is that the
/// clock went round once.
pub fn rebase(pts_ms: i64, anchor_ms: i64) -> (t: i64)
    requires
        i64::MIN <= pts_ms - anchor_ms <= i64::MAX,
    ensures
        t == spec_rebase(pts_ms, anchor_ms),
{
    let t = pts_ms - anchor_ms;
    if t < -(WRAP_MS / 2) {
        t + WRAP_MS
    } else {
        t
    }
}

/// Rebasing gives back the time elapsed since the anchor, for any time less
/// than half a wrap after it — also when the clock went round in between and
/// the PTS is numerically smaller than the anchor.
pub proof fn law_rebase_recovers_elapsed_time(anchor_ms: i64, elapsed_ms: i64, pts_ms: i64)
    requires
        0 <= anchor_ms < WRAP_MS,
        0 <= elapsed_ms < WRAP_MS / 2,
        pts_ms == (anchor_ms + elapsed_ms) % (WRAP_MS as int),
    ensures
        spec_rebase(pts_ms, anchor_ms) == elapsed_ms,
{
}

/// A closed span always ends after it starts.
pub proof fn law_closed_spans_are_never_empty<T>(p: Option<Pending<T>>, at_ms: i64)
    requires
        closable(p),
    ensures
        closed_at(p, at_ms) matches Some(span) ==> span.end_ms > span.start_ms,
{
}

/// A caption that stated no duration ends exactly where the next caption
/// starts, unless that one came no later than it did.
pub proof fn law_open_span_ends_at_the_next_caption<T>(p: Pending<T>, at_ms: i64)
    requires
        p.end_ms is None,
        at_ms > p.start_ms,
    ensures
        closed_at(Some(p), at_ms) == Some(Timed { start_ms: p.start_ms, end_ms: at_ms, value: p.value }),
{
}

/// Spans never overlap: a span closed by a caption that came after it ends
/// no later than that caption starts, whatever duration it stated.
pub proof fn law_spans_do_not_overlap<T>(p: Pending<T>, at_ms: i64)
    requires
        at_ms > p.start_ms,
    ensures
        closed_at(Some(p), at_ms) matches Some(span) && span.start_ms == p.start_ms
            && span.end_ms <= at_ms,
{
}

/// The end the next caption at `t` gives a caption that started at `s` and
/// stated duration `d`: its stated end or `t`, whichever comes first, but
/// never before the millisecond after `s`.
pub open spec fn end_at_next(s: i64, d: Duration, t: i64) -> int {
    let e = match d {
        Duration::Millis(ms) => if s + ms <= t {
            s + ms
        } else {
            t as int
        },
        Duration::Indefinite => t as int,
    };
    if e >= s + 1 {
        e
    } else {
        s + 1
    }
}

/// A caption that `push` held back — started at `s`, stated duration `d`,
/// shown as `v` — is closed by the next caption at `t` with the end
/// [`end_at_next`] gives; flushed, it ends at its stated end or
/// [`MAX_OPEN_MS`] after it started; published while open, it ends at its
/// stated end or [`PROVISIONAL_MS`] after it started.
pub proof fn law_a_held_caption_ends_as_stated_or_at_the_next<T>(s: i64, d: Duration, v: T, t: i64)
    requires
        s < i64::MAX,
        end_fits(s, d),
    ensures
        ({
            let p = Pending { start_ms: s, end_ms: stated_end(s, d), value: v };
            &&& closed_at(Some(p), t) == Some(
                Timed { start_ms: s, end_ms: end_at_next(s, d, t) as i64, value: v },
            )
            &&& p.end_ms == match d {
                Duration::Millis(ms) => Some((s + ms) as i64),
                Duration::Indefinite => None::<i64>,
            }
        }),
{
}

} // verus!
