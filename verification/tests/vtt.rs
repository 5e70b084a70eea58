use arib_caption::model::{Caption, CaptionRegion, Duration};
use arib_caption::render::vtt::{
    escape, timestamp, to_file, to_segment, Cue, CueStream, MAX_OPEN_MS, PROVISIONAL_MS,
};

fn caption(pts_ms: i64, text: &str, duration: Duration) -> Caption {
    Caption {
        text: text.into(),
        pts_ms: Some(pts_ms),
        duration,
        regions: vec![CaptionRegion {
            y: 480,
            ..Default::default()
        }],
        ..Default::default()
    }
}

#[test]
fn an_open_caption_ends_where_the_next_one_starts() {
    let mut stream = CueStream::new();
    assert_eq!(
        stream.push(&caption(1_000, "ひとつめ", Duration::Indefinite)),
        None,
        "the first caption closes nothing"
    );
    let cue = stream
        .push(&caption(3_500, "ふたつめ", Duration::Indefinite))
        .expect("the first cue is now closed");
    assert_eq!(cue.start_ms, 1_000);
    assert_eq!(cue.end_ms, 3_500);
    assert_eq!(cue.text, "ひとつめ");
    assert_eq!(stream.open_since(), Some(3_500));
}

#[test]
fn a_clear_screen_ends_the_caption_before_it() {
    let mut stream = CueStream::new();
    stream.push(&caption(1_000, "きえます", Duration::Indefinite));
    let mut clear = caption(2_000, "", Duration::Indefinite);
    clear.regions.clear();
    clear.clear_screen = true;
    let cue = stream.push(&clear).expect("closed by the clear");
    assert_eq!((cue.start_ms, cue.end_ms), (1_000, 2_000));
    assert_eq!(stream.open_since(), None);
}

#[test]
fn an_explicit_duration_is_honoured_but_never_overruns() {
    let mut stream = CueStream::new();
    stream.push(&caption(1_000, "みじかい", Duration::Millis(2_000)));
    // Nothing follows for a while: the explicit end stands.
    let cue = stream.push(&caption(10_000, "つぎ", Duration::Indefinite)).unwrap();
    assert_eq!(cue.end_ms, 3_000);

    // Something follows sooner than the stated duration: it wins.
    let mut stream = CueStream::new();
    stream.push(&caption(1_000, "みじかい", Duration::Millis(5_000)));
    let cue = stream.push(&caption(2_000, "つぎ", Duration::Indefinite)).unwrap();
    assert_eq!(cue.end_ms, 2_000);
}

/// The caption on screen is publishable before its end is known — the
/// point being that a live consumer never has to wait for the next caption.
#[test]
fn the_pending_caption_is_publishable_with_a_provisional_end() {
    let mut stream = CueStream::new();
    assert!(stream.pending().is_none());

    stream.push(&caption(1_000, "いま出ている", Duration::Indefinite));
    let open = stream.pending().expect("a pending cue");
    assert_eq!(open.start_ms, 1_000);
    assert_eq!(open.end_ms, 1_000 + PROVISIONAL_MS);
    assert_eq!(open.text, "いま出ている");

    // A stated duration is not provisional at all.
    let mut stream = CueStream::new();
    stream.push(&caption(1_000, "みじかい", Duration::Millis(2_000)));
    assert_eq!(stream.pending().unwrap().end_ms, 3_000);

    // Once it closes, the real end supersedes it and nothing is pending.
    let closed = stream
        .push(&caption(1_500, "つぎ", Duration::Indefinite))
        .expect("closed");
    assert_eq!(closed.end_ms, 1_500);
    assert_eq!(stream.pending().unwrap().start_ms, 1_500);
}

#[test]
fn flush_bounds_a_cue_nothing_ever_closed() {
    let mut stream = CueStream::new();
    stream.push(&caption(1_000, "さいご", Duration::Indefinite));
    let cue = stream.flush().expect("flushed");
    assert_eq!(cue.end_ms, 1_000 + MAX_OPEN_MS);
    assert!(stream.flush().is_none());
}

#[test]
fn the_continuation_arrow_is_dropped() {
    let mut stream = CueStream::new();
    stream.push(&caption(0, "つづく➡", Duration::Indefinite));
    let cue = stream.push(&caption(1_000, "つぎ", Duration::Indefinite)).unwrap();
    assert_eq!(cue.text, "つづく");
}

/// A caption the broadcast left at the bottom is placed by us and not left
/// to the player's default.
#[test]
fn ordinary_captions_are_placed_just_above_the_progress_bar() {
    let mut stream = CueStream::new();
    stream.push(&caption(0, "した", Duration::Indefinite));
    let cue = stream.push(&caption(1_000, "つぎ", Duration::Indefinite)).unwrap();
    assert!(!cue.top);
    let block = cue.to_block();
    assert!(block.contains("line:94%"), "{block}");
    assert!(!block.contains("line:94\n"), "{block}");
    assert!(!block.contains("line:94%,"), "{block}");
}

#[test]
fn top_captions_get_a_line_setting() {
    let mut top = caption(0, "うえ", Duration::Indefinite);
    top.regions[0].y = 40;
    let mut stream = CueStream::new();
    stream.push(&top);
    let cue = stream.push(&caption(1_000, "した", Duration::Indefinite)).unwrap();
    assert!(cue.top);
    assert!(cue.to_block().contains("line:1"), "{}", cue.to_block());
}

#[test]
fn markup_in_caption_text_is_escaped() {
    let cue = Cue {
        start_ms: 0,
        end_ms: 1_000,
        text: "<b> & </b>".into(),
        top: false,
    };
    assert!(cue.to_block().contains("&lt;b&gt; &amp; &lt;/b&gt;"));
}

#[test]
fn a_file_and_a_segment_differ_by_the_timestamp_map() {
    let cues = vec![Cue {
        start_ms: 13_427_175,
        end_ms: 13_429_243,
        text: "国内アーティスト楽曲の多くが".into(),
        top: false,
    }];
    let file = to_file(&cues);
    assert!(file.starts_with("WEBVTT\n\n"));
    assert!(file.contains("03:43:47.175 --> 03:43:49.243"));

    let segment = to_segment(&cues);
    assert!(segment.contains("X-TIMESTAMP-MAP=MPEGTS:0,LOCAL:00:00:00.000"));
    assert!(segment.contains("03:43:47.175 --> 03:43:49.243"));
}

// ── further cases ──────────────────────────────────────────────────

#[test]
fn timestamps_are_hours_minutes_seconds_and_millis() {
    assert_eq!(timestamp(0), "00:00:00.000");
    assert_eq!(timestamp(3_723_004), "01:02:03.004");
    assert_eq!(timestamp(-5), "00:00:00.000");
}

#[test]
fn escaped_text_has_no_markup_left() {
    let e = escape("<a>&<b>");
    assert_eq!(e, "&lt;a&gt;&amp;&lt;b&gt;");
    assert!(!e.contains('<') && !e.contains('>'));
}

#[test]
fn an_open_cue_and_its_close_share_start_text_and_placement() {
    let mut stream = CueStream::new();
    stream.push(&caption(1_000, "あ", Duration::Indefinite));
    let open = stream.pending().unwrap();
    let closed = stream.push(&caption(4_000, "い", Duration::Indefinite)).unwrap();
    assert_eq!(
        (open.start_ms, open.text.clone(), open.top),
        (closed.start_ms, closed.text, closed.top)
    );
}
