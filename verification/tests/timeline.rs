use arib_caption::model::{Caption, CaptionRegion, Duration};
use arib_caption::render::timeline::{rebase, Timeline, MAX_OPEN_MS};

fn caption(pts_ms: i64, duration: Duration) -> Caption {
    Caption {
        pts_ms: Some(pts_ms),
        duration,
        regions: vec![CaptionRegion::default()],
        ..Default::default()
    }
}

#[test]
fn a_span_ends_where_the_next_one_starts() {
    let mut line: Timeline<&str> = Timeline::new();
    assert_eq!(line.push(&caption(1_000, Duration::Indefinite), Some("one")), None);
    let closed = line
        .push(&caption(3_500, Duration::Indefinite), Some("two"))
        .expect("the first span is now closed");
    assert_eq!((closed.start_ms, closed.end_ms, closed.value), (1_000, 3_500, "one"));
    assert_eq!(line.open_since(), Some(3_500));
}

/// A caption that shows nothing still ends what was showing — that is what
/// a clear-screen is for.
#[test]
fn a_caption_with_nothing_to_show_closes_but_does_not_open() {
    let mut line: Timeline<&str> = Timeline::new();
    line.push(&caption(1_000, Duration::Indefinite), Some("gone"));
    let closed = line
        .push(&caption(2_000, Duration::Indefinite), None)
        .expect("closed by the clear");
    assert_eq!((closed.start_ms, closed.end_ms), (1_000, 2_000));
    assert_eq!(line.open_since(), None);
}

#[test]
fn a_caption_with_no_pts_is_not_on_the_timeline_at_all() {
    let mut line: Timeline<&str> = Timeline::new();
    line.push(&caption(1_000, Duration::Indefinite), Some("held"));
    let mut no_pts = caption(0, Duration::Indefinite);
    no_pts.pts_ms = None;
    assert_eq!(line.push(&no_pts, Some("superimpose")), None);
    assert_eq!(line.open_since(), Some(1_000), "the held span survives it");
}

#[test]
fn a_recording_that_crosses_the_pts_wrap_stays_monotonic() {
    const WRAP_MS: i64 = (1 << 33) / 90;
    let anchor = WRAP_MS - 10_000; // ten seconds before the clock goes round
    assert_eq!(rebase(anchor, anchor), 0);
    assert_eq!(rebase(WRAP_MS - 1_000, anchor), 9_000);
    // The same instant expressed after the wrap: 1 s past it is 11 s in.
    assert_eq!(rebase(1_000, anchor), 11_000);
}

// ── laws, on concrete values ────────────────────────────────────────

#[test]
fn rebase_gives_back_the_elapsed_time() {
    assert_eq!(rebase(5_000 + 1_234, 5_000), 1_234);
    assert_eq!(rebase(0, 0), 0);
}

#[test]
fn a_stated_duration_ends_the_span_unless_the_next_caption_comes_first() {
    let mut line: Timeline<u8> = Timeline::new();
    line.push(&caption(1_000, Duration::Millis(2_000)), Some(1));
    let closed = line.push(&caption(10_000, Duration::Indefinite), Some(2)).unwrap();
    assert_eq!((closed.start_ms, closed.end_ms), (1_000, 3_000));
}

#[test]
fn a_span_nothing_closed_is_bounded_on_flush_and_never_empty() {
    let mut line: Timeline<u8> = Timeline::new();
    line.push(&caption(1_000, Duration::Indefinite), Some(1));
    let closed = line.flush().unwrap();
    assert_eq!((closed.start_ms, closed.end_ms), (1_000, 1_000 + MAX_OPEN_MS));
    assert!(line.flush().is_none());
    // Two captions at the same instant: the first span still has length.
    let mut line: Timeline<u8> = Timeline::new();
    line.push(&caption(1_000, Duration::Indefinite), Some(1));
    let closed = line.push(&caption(1_000, Duration::Indefinite), Some(2)).unwrap();
    assert!(closed.end_ms > closed.start_ms);
}

#[test]
fn the_pending_span_is_visible_before_it_closes() {
    let mut line: Timeline<u8> = Timeline::new();
    assert!(line.pending().is_none());
    line.push(&caption(2_000, Duration::Millis(500)), Some(7));
    let p = line.pending().unwrap();
    assert_eq!((p.start_ms, p.end_ms, p.value), (2_000, 2_500, 7));
}

#[test]
fn spans_do_not_overlap_whatever_duration_they_state() {
    let mut line: Timeline<u8> = Timeline::new();
    line.push(&caption(1_000, Duration::Millis(9_000)), Some(1));
    let first = line.push(&caption(2_000, Duration::Millis(500)), Some(2)).unwrap();
    let second = line.push(&caption(5_000, Duration::Indefinite), Some(3)).unwrap();
    assert_eq!((first.start_ms, first.end_ms), (1_000, 2_000));
    assert_eq!((second.start_ms, second.end_ms), (2_000, 2_500));
    assert!(first.end_ms <= second.start_ms);
}

/// Any PTS is taken as long as the sums made on it stay in an `i64`: a start
/// far from zero still closes at the next caption and flushes after the
/// open-ended allowance.
#[test]
fn times_far_from_zero_are_taken_while_their_sums_fit() {
    let far = i64::MAX - MAX_OPEN_MS;
    let mut line: Timeline<&str> = Timeline::new();
    assert!(line.push(&caption(far - 10, Duration::Millis(3)), Some("one")).is_none());
    let closed = line
        .push(&caption(far, Duration::Indefinite), Some("two"))
        .expect("the first span is now closed");
    assert_eq!((closed.start_ms, closed.end_ms), (far - 10, far - 7));
    let last = line.flush().expect("the open span");
    assert_eq!((last.start_ms, last.end_ms), (far, i64::MAX));
    assert_eq!(rebase(i64::MIN + 5, i64::MIN), 5);
    assert_eq!(rebase(far, far - 1_000), 1_000);
}
