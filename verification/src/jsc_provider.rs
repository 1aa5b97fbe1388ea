use vstd::prelude::*;

use crate::text::joined;

verus! {

broadcast use vstd::string::group_string_axioms;

/// Wall-clock ceiling for one script, in seconds. Below the extraction
/// timeout, so a runaway script is reported as a JS failure.
pub const JS_TIMEOUT_SECS: u64 = 5;

/// Heap ceiling for one script on desktop platforms, in bytes.
pub const JS_MAX_HEAP_BYTES_DESKTOP: usize = 256 * 1024 * 1024;

/// Heap ceiling for one script on Android and iOS, in bytes.
pub const JS_MAX_HEAP_BYTES_MOBILE: usize = 64 * 1024 * 1024;

/// The heap ceiling for the platform.
pub fn js_max_heap_bytes(mobile: bool) -> (r: usize)
    ensures
        r == (if mobile {
            JS_MAX_HEAP_BYTES_MOBILE
        } else {
            JS_MAX_HEAP_BYTES_DESKTOP
        }),
{
    if mobile {
        JS_MAX_HEAP_BYTES_MOBILE
    } else {
        JS_MAX_HEAP_BYTES_DESKTOP
    }
}

/// Opens an isolated scope and redirects `console.log`, `console.warn` and
/// `console.error` into an array of lines.
pub const JS_PRELUDE: &'static str = "(function(){var __out=[];globalThis.console={log:function(){__out.push([].slice.call(arguments).join(' '));},warn:function(){__out.push([].slice.call(arguments).join(' '));},error:function(){__out.push([].slice.call(arguments).join(' '));}};";

/// Returns the captured lines joined by newlines and closes the scope. It
/// starts on a new line, so a script ending in a `//` comment cannot swallow
/// it.
pub const JS_EPILOGUE: &'static str = "\n;return __out.join('\\n');})()";

/// The epilogue starts on a line of its own.
pub proof fn lemma_epilogue_starts_a_line()
    ensures
        JS_EPILOGUE@.len() > 0,
        JS_EPILOGUE@[0] == '\n',
{
    reveal_strlit("\n;return __out.join('\\n');})()");
}

/// `script` inside the capturing wrapper.
pub fn wrap_script(script: &str) -> (r: String)
    ensures
        r@ == JS_PRELUDE@ + script@ + JS_EPILOGUE@,
        r@[(JS_PRELUDE@.len() + script@.len()) as int] == '\n',
{
    let mut src = JS_PRELUDE.to_owned();
    src.append(script);
    src.append(JS_EPILOGUE);
    proof {
        lemma_epilogue_starts_a_line();
        let whole = JS_PRELUDE@ + script@ + JS_EPILOGUE@;
        assert(whole[(JS_PRELUDE@.len() + script@.len()) as int] == JS_EPILOGUE@[0]);
    }
    src
}

#[verifier::external_type_specification]
#[verifier::external_body]
pub struct ExRuntime(rquickjs::Runtime);

#[verifier::external_type_specification]
#[verifier::external_body]
pub struct ExContext(rquickjs::Context);

#[verifier::external_type_specification]
#[verifier::external_body]
pub struct ExInstant(std::time::Instant);

/// `std::time::Instant::now`. Nothing is claimed of the reading.
#[verifier::external_body]
fn clock_now() -> std::time::Instant {
    std::time::Instant::now()
}

/// `Instant::checked_add` of `secs` seconds: `None` when the later instant
/// cannot be represented. Nothing else is claimed of the instant.
#[verifier::external_body]
fn clock_after(start: std::time::Instant, secs: u64) -> Option<std::time::Instant> {
    start.checked_add(std::time::Duration::from_secs(secs))
}

/// `Instant`'s `>=`. Nothing is claimed of the answer, which rests on clock
/// readings.
#[verifier::external_body]
fn clock_at_or_after(now: &std::time::Instant, deadline: &std::time::Instant) -> bool {
    *now >= *deadline
}

/// Whether the clock has reached `deadline`; polled by the engine while a
/// script runs.
pub fn deadline_reached(deadline: &std::time::Instant) -> bool {
    let now = clock_now();
    clock_at_or_after(&now, deadline)
}

/// rquickjs `Runtime::new`: a fresh QuickJS runtime, or the engine's error
/// rendered. Nothing is claimed of either.
#[verifier::external_body]
fn new_runtime() -> Result<rquickjs::Runtime, String> {
    match rquickjs::Runtime::new() {
        Ok(rt) => Ok(rt),
        Err(e) => Err(e.to_string()),
    }
}

/// rquickjs `Runtime::set_memory_limit`.
#[verifier::external_body]
fn set_memory_limit(rt: &rquickjs::Runtime, limit: usize) {
    rt.set_memory_limit(limit)
}

/// rquickjs `Runtime::set_interrupt_handler`, with a handler that stops the
/// script once `deadline_reached` says the deadline has passed.
#[verifier::external_body]
fn set_interrupt_deadline(rt: &rquickjs::Runtime, deadline: std::time::Instant) {
    rt.set_interrupt_handler(Some(Box::new(move || deadline_reached(&deadline))))
}

/// rquickjs `Context::full`: a context with the full set of intrinsics, or
/// the engine's error rendered. Nothing is claimed of either.
#[verifier::external_body]
fn full_context(rt: &rquickjs::Runtime) -> Result<rquickjs::Context, String> {
    match rquickjs::Context::full(rt) {
        Ok(ctx) => Ok(ctx),
        Err(e) => Err(e.to_string()),
    }
}

#[verifier::external_type_specification]
#[verifier::external_body]
pub struct ExCtx<'js>(rquickjs::Ctx<'js>);

/// rquickjs `Ctx::eval` of `src` to a string, or the engine's error rendered.
/// Nothing is claimed of either: the outcome rests on the engine, its memory
/// ceiling and the clock.
#[verifier::external_body]
fn ctx_eval_to_string(ctx: &rquickjs::Ctx<'_>, src: &str) -> Result<String, String> {
    match ctx.eval::<String, _>(src.as_bytes()) {
        Ok(out) => Ok(out),
        Err(e) => Err(e.to_string()),
    }
}

/// Evaluate `src` in the context the engine hands to `Context::with`.
fn eval_in_context(ctx: rquickjs::Ctx<'_>, src: &str) -> Result<String, String> {
    ctx_eval_to_string(&ctx, src)
}

/// rquickjs `Context::with`, entering `ctx` to evaluate `src`. Nothing is
/// claimed of the outcome.
#[verifier::external_body]
fn eval_to_string(ctx: &rquickjs::Context, src: &str) -> Result<String, String> {
    ctx.with(|c| eval_in_context(c, src))
}

/// A failure of the engine, as `run_js_limited` reports it: the stage that
/// failed, then the engine's text.
pub open spec fn is_engine_failure(m: Seq<char>) -> bool {
    ||| exists|e: Seq<char>| m == "rquickjs init: "@ + e
    ||| exists|e: Seq<char>| m == "rquickjs context: "@ + e
    ||| exists|e: Seq<char>| m == "rquickjs: "@ + e
}

pub open spec fn unrepresentable_deadline_text() -> Seq<char> {
    "rquickjs: the script deadline cannot be represented"@
}

/// Evaluate already-wrapped source in a fresh QuickJS runtime limited to
/// `heap_limit` bytes and `JS_TIMEOUT_SECS` seconds.
fn run_wrapped(src: &str, heap_limit: usize) -> (r: Result<String, String>)
    ensures
        r matches Err(m) ==> is_engine_failure(m@),
{
    let rt = match new_runtime() {
        Ok(rt) => rt,
        Err(e) => {
            let m = joined("rquickjs init: ", e.as_str());
            assert(m@ == "rquickjs init: "@ + e@);
            return Err(m);
        },
    };
    set_memory_limit(&rt, heap_limit);
    let start = clock_now();
    match clock_after(start, JS_TIMEOUT_SECS) {
        Some(deadline) => set_interrupt_deadline(&rt, deadline),
        None => {
            let m = joined("rquickjs: ", "the script deadline cannot be represented");
            assert(m@ == "rquickjs: "@ + "the script deadline cannot be represented"@);
            return Err(m);
        },
    }
    let ctx = match full_context(&rt) {
        Ok(ctx) => ctx,
        Err(e) => {
            let m = joined("rquickjs context: ", e.as_str());
            assert(m@ == "rquickjs context: "@ + e@);
            return Err(m);
        },
    };
    match eval_to_string(&ctx, src) {
        Ok(out) => Ok(out),
        Err(e) => {
            let m = joined("rquickjs: ", e.as_str());
            assert(m@ == "rquickjs: "@ + e@);
            Err(m)
        },
    }
}

/// Evaluate `script` in an isolated QuickJS context under the heap ceiling
/// `heap_limit` and the time budget, and return its captured console output.
pub fn run_js_limited(script: &str, heap_limit: usize) -> (r: Result<String, String>)
    ensures
        r matches Err(m) ==> is_engine_failure(m@),
{
    let src = wrap_script(script);
    run_wrapped(src.as_str(), heap_limit)
}

/// Evaluate `script` in an isolated QuickJS context under the desktop
/// ceilings, and return the captured `console.log` output.
pub fn run_js(script: &str) -> (r: Result<String, String>)
    ensures
        r matches Err(m) ==> is_engine_failure(m@),
{
    run_js_limited(script, JS_MAX_HEAP_BYTES_DESKTOP)
}

} // verus!
