# rpdf

A study workspace: an infinite canvas for spatial notes and a PDF reader with
annotation, recoloring and read-aloud with follow-along highlighting.

The decisions of the application live in a library verified with Verus (`src/`);
the window, the file system and the external programs it runs live in `app/`.

## Layout

- `src/text.rs` — whitespace, trimming, splitting and decimal rendering, with their
  specifications.
- `src/reading.rs` — text extraction results, text quality, reading spans, and the
  choice between native PDF text and OCR text.
- `src/ocr.rs` — the OCR fallback's command lines and page-image order.
- `src/speech.rs`, `src/local_speech.rs` — diagnosis of Speech Dispatcher failures and
  the steps of speaking a text.
- `src/export.rs`, `src/paths.rs` — SVG export planning, escaping, and path handling.
- `src/workspace.rs`, `src/model.rs`, `src/domain.rs` — workspace state, colours,
  navigation, ids, banners, and the coordinate-free document model.
- `src/backend.rs`, `src/dto.rs` — the desktop backend's services and data contracts.
- `src/pressure.rs` — classification of pointer devices for pressure samples.
- `src/laws.rs` — properties that span several functions.
- `app/` — the egui application, persistence, and the backend's I/O side.
- `tests/` — tests of the library.
