# arib_caption

A decoder for ARIB STD-B24 — the standard governing closed captions on
Japanese digital television — with the caption model and its renderers kept
apart, verified with Verus.

```text
TS ──► ts ──► pes::parse ──► decoder::Decoder ──► model::Caption
                                                       │
                                  render::vtt (live) ◄─┤
                             render::ass (recordings) ◄┤
                            render::json (elsewhere)  ◄┘
```

## Layout

- `src/` — the library, proved by Verus against its contracts; its few calls
  into `std`, `encoding_rs` and `md5` sit behind trusted wrappers.
  - `ts.rs` — TS packet splitting, PSI section reassembly, caption and
    superimpose PID discovery, and the PES packet type.
  - `pes.rs` — data groups (management and statement) and the data unit loop.
  - `b24/` — code sets, control codes, character tables, and the conversion
    of graphic-set codes to Unicode (kanji through `encoding_rs`).
  - `decoder/` — the statement-body state machine. `machine.rs` states it as
    functions from state and input to state and output; `mod.rs` is the
    executable decoder proved against them; `laws.rs` holds what the machine
    guarantees across calls.
  - `model.rs` — what decoding produces.
  - `render/` — the timeline that decides when a caption ends, WebVTT, JSON,
    the exact parts of ASS (colours, times, escaping, appearance tags, runs,
    and DRCS bitmaps as rectangles), and the JSON line a live consumer reads
    per cue.
  - `inspect.rs` — one line per data group, for looking underneath the
    captions.
  - `cli.rs` — the values a command line gives: PIDs and a sidecar's time
    zero.
- `tests/` — behaviour on concrete inputs.
- `app/` — the command-line program: reading standard input, PES reassembly
  over the shared MPEG-TS/PES engine, and the floating-point layout of ASS
  scripts.
