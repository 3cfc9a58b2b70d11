# dgx-pixels-tui

Terminal front end for AI pixel-art generation, with its decision logic
verified by Verus.

- `src/` — the verified library: screens and key handling, the prompt
  buffer, job and gallery state, the handling of backend messages, the
  image caches (a least-recently-used cache and a size-bounded Sixel
  preview cache on `dashmap`), model comparisons and their reports, and the
  texts the screens show. Each function carries a `requires`/`ensures`
  contract; laws that relate several functions are proof functions named
  `law_*`.
- `tests/` — tests of the library.
- `app/` — the program: terminal setup and drawing (ratatui, crossterm),
  the event loop, logging, MessagePack encoding of the backend protocol,
  report files, image decoding and `img2sixel`, and the few computations
  done in floating point.
