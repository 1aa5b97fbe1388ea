# unity_dlp

A native plugin that embeds CPython and yt-dlp to resolve media metadata, with
its decision logic verified by Verus.

- `src/` — the verified library:
  - `ffi` — the initialisation lifecycle behind the C ABI (claim, abandon,
    complete, shutdown, extraction checks), the capped error slot, the
    output-buffer protocol and the result codes, with the lifecycle laws.
  - `extract` — the extraction error model, classification by exception
    class, the in-flight ceiling, the time budgets, and how worker and
    snippet outcomes become results.
  - `python_host` — the `\n`-delimited packages path parser and the shim
    outcome.
  - `jsc_provider` — the script wrapper and QuickJS evaluation under a heap
    ceiling and a time budget.
  - `logging`, `cli`, `loadcheck`, `text` — log levels and lines, the tools'
    argument handling, and string helpers.
- `app/` — the exported `extern "C"` functions, the embedded interpreter
  (PyO3), the `unity_dlp_js` Python module, the stderr logger, and the CLI and
  load checker entry points. They keep their state in the verified
  `Lifecycle` and hand every decision to `src/`.
  The V8 backend (rustyscript), which Windows and macOS builds select with
  the `js-v8` feature, lives in `app/jsc_v8.rs`: rustyscript is not among
  this crate's dependencies, so that file is not built here, and the
  verified library evaluates scripts with QuickJS only.
- `tests/` — the test suite.
