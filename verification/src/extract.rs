use vstd::prelude::*;

use crate::jsc_provider::JS_TIMEOUT_SECS;
use crate::text::{joined, joined3, decimal, decimal_digits};

verus! {

broadcast use vstd::string::group_string_axioms;

/// How long the caller waits for a result before abandoning the worker, in
/// seconds. Longer than the snippet's own timeout, so that in the ordinary case
/// the snippet reports its richer error first.
pub const EXTRACT_DEADLINE_SECS: u64 = 20;

/// Deadline the Python snippet applies to its own worker, in seconds.
pub const PY_EXTRACT_TIMEOUT_SECS: u64 = 15;

/// Per-socket timeout applied to yt-dlp's network reads, in seconds. It is
/// reasserted after caller options are merged, so a caller cannot raise it.
pub const PY_SOCKET_TIMEOUT_SECS: u64 = 10;

/// Ceiling on extractions running at once.
pub const MAX_IN_FLIGHT: usize = 4;

/// Ceiling on the serialised result on desktop platforms, in bytes.
pub const MAX_RESULT_BYTES_DESKTOP: usize = 64 * 1024 * 1024;

/// Ceiling on the serialised result on Android and iOS, in bytes.
pub const MAX_RESULT_BYTES_MOBILE: usize = 16 * 1024 * 1024;

/// The budgets fire innermost first: a runaway script surfaces as a JS failure
/// before the snippet's timeout, and the snippet's timeout fires before the
/// caller's deadline, so no outer budget masks the better error of an inner one.
pub proof fn lemma_budgets_fire_innermost_first()
    ensures
        JS_TIMEOUT_SECS < PY_EXTRACT_TIMEOUT_SECS,
        PY_EXTRACT_TIMEOUT_SECS < EXTRACT_DEADLINE_SECS,
{
}

/// The result ceiling for the platform: lower on mobile, where an OOM kill is
/// least survivable.
pub fn max_result_bytes(mobile: bool) -> (r: usize)
    ensures
        r == (if mobile {
            MAX_RESULT_BYTES_MOBILE
        } else {
            MAX_RESULT_BYTES_DESKTOP
        }),
{
    if mobile {
        MAX_RESULT_BYTES_MOBILE
    } else {
        MAX_RESULT_BYTES_DESKTOP
    }
}

/// Which kind of failure an extraction ended in.
#[derive(PartialEq, Eq, Structural, Clone, Copy, Debug)]
pub enum ErrorKind {
    Python,
    Network,
    Js,
    Timeout,
    Busy,
    TooLarge,
}

/// Why an extraction did not produce a result.
#[derive(Debug)]
pub enum ExtractError {
    /// yt-dlp or the interpreter raised something not covered below.
    Python(String),
    /// The failure was an `OSError`.
    Network(String),
    /// The embedded JS engine failed.
    Js(String),
    /// The deadline expired, or Python raised `TimeoutError`.
    Timeout(String),
    /// Too many extractions already in flight.
    Busy(String),
    /// The serialised result exceeded the result ceiling.
    TooLarge(String),
}

impl ExtractError {
    pub open spec fn kind(&self) -> ErrorKind {
        match self {
            ExtractError::Python(_) => ErrorKind::Python,
            ExtractError::Network(_) => ErrorKind::Network,
            ExtractError::Js(_) => ErrorKind::Js,
            ExtractError::Timeout(_) => ErrorKind::Timeout,
            ExtractError::Busy(_) => ErrorKind::Busy,
            ExtractError::TooLarge(_) => ErrorKind::TooLarge,
        }
    }

    pub open spec fn text(&self) -> Seq<char> {
        match self {
            ExtractError::Python(m) => m@,
            ExtractError::Network(m) => m@,
            ExtractError::Js(m) => m@,
            ExtractError::Timeout(m) => m@,
            ExtractError::Busy(m) => m@,
            ExtractError::TooLarge(m) => m@,
        }
    }

    /// Build the error of the given kind carrying `message`.
    pub fn of_kind(kind: ErrorKind, message: String) -> (r: ExtractError)
        ensures
            r.kind() == kind,
            r.text() == message@,
    {
        match kind {
            ErrorKind::Python => ExtractError::Python(message),
            ErrorKind::Network => ExtractError::Network(message),
            ErrorKind::Js => ExtractError::Js(message),
            ErrorKind::Timeout => ExtractError::Timeout(message),
            ErrorKind::Busy => ExtractError::Busy(message),
            ErrorKind::TooLarge => ExtractError::TooLarge(message),
        }
    }

    /// The message carried by the error, whatever its kind.
    pub fn message(&self) -> (r: &str)
        ensures
            r@ == self.text(),
    {
        match self {
            ExtractError::Python(m) => m.as_str(),
            ExtractError::Network(m) => m.as_str(),
            ExtractError::Js(m) => m.as_str(),
            ExtractError::Timeout(m) => m.as_str(),
            ExtractError::Busy(m) => m.as_str(),
            ExtractError::TooLarge(m) => m.as_str(),
        }
    }
}

/// An error of `kind` whose message is `text`.
pub open spec fn is_error(r: Result<String, ExtractError>, kind: ErrorKind, text: Seq<char>) -> bool {
    r matches Err(e) && e.kind() == kind && e.text() == text
}

/// The class of a Python exception, as far as classification reads it: whether
/// it is the JS engine's error, a `TimeoutError`, or an `OSError`.
#[derive(Clone, Copy, Debug)]
pub struct RaisedException {
    pub is_js_error: bool,
    pub is_timeout_error: bool,
    pub is_os_error: bool,
}

/// The kind an exception's class selects. The JS engine's error wins; then
/// `TimeoutError`, tested before `OSError` because it derives from it; then any
/// other `OSError` is a network failure; everything else is a Python failure.
pub open spec fn kind_of_raised(raised: RaisedException) -> ErrorKind {
    if raised.is_js_error {
        ErrorKind::Js
    } else if raised.is_timeout_error {
        ErrorKind::Timeout
    } else if raised.is_os_error {
        ErrorKind::Network
    } else {
        ErrorKind::Python
    }
}

/// Classify a raised exception by its class, never by its rendered text, and
/// build the error of that kind carrying `message`.
pub fn classify(raised: RaisedException, message: String) -> (r: ExtractError)
    ensures
        r.kind() == kind_of_raised(raised),
        r.text() == message@,
{
    let kind = if raised.is_js_error {
        ErrorKind::Js
    } else if raised.is_timeout_error {
        ErrorKind::Timeout
    } else if raised.is_os_error {
        ErrorKind::Network
    } else {
        ErrorKind::Python
    };
    ExtractError::of_kind(kind, message)
}

pub open spec fn busy_text() -> Seq<char> {
    decimal_digits(MAX_IN_FLIGHT as nat) + " extractions already in flight; try again later"@
}

/// Admission of one more extraction when `in_flight` are running: refused as
/// busy at the ceiling, otherwise the count the slot brings it to.
pub fn acquire_slot(in_flight: usize) -> (r: Result<usize, ExtractError>)
    ensures
        in_flight >= MAX_IN_FLIGHT ==> (r matches Err(e) && e.kind() == ErrorKind::Busy && e.text()
            == busy_text()),
        in_flight < MAX_IN_FLIGHT ==> r == Ok::<usize, ExtractError>((in_flight + 1) as usize),
        r is Ok <==> acquired(in_flight as nat) is Some,
        r matches Ok(n) ==> acquired(in_flight as nat) == Some(n as nat),
{
    if in_flight >= MAX_IN_FLIGHT {
        let count = decimal(MAX_IN_FLIGHT as u64);
        Err(ExtractError::Busy(joined(count.as_str(), " extractions already in flight; try again later")))
    } else {
        Ok(in_flight + 1)
    }
}

/// The count after a finished extraction gives its slot back.
pub fn release_slot(in_flight: usize) -> (r: usize)
    requires
        in_flight > 0,
    ensures
        r == in_flight - 1,
{
    in_flight - 1
}

/// The count `acquire_slot` moves to from `in_flight`, if it admits one more.
pub open spec fn acquired(in_flight: nat) -> Option<nat> {
    if in_flight >= MAX_IN_FLIGHT {
        None
    } else {
        Some(in_flight + 1)
    }
}

/// Starting within the ceiling, a taken slot keeps the count within it, and
/// giving the slot back returns the count to where it was.
pub proof fn lemma_in_flight_stays_bounded(in_flight: nat)
    requires
        in_flight <= MAX_IN_FLIGHT,
    ensures
        acquired(in_flight) matches Some(n) ==> n <= MAX_IN_FLIGHT && n - 1 == in_flight,
        in_flight == MAX_IN_FLIGHT ==> acquired(in_flight) is None,
{
}

/// One change to the in-flight count: an extraction asking for a slot, or a
/// finished one giving its slot back.
pub enum SlotEvent {
    /// `acquire_slot`; a permit exists afterwards only if it was admitted.
    Acquire,
    /// `release_slot` by the holder of a permit.
    Release,
}

/// The in-flight count after `events`, starting from zero, as `acquire_slot`
/// and `release_slot` move it.
pub open spec fn slot_count(events: Seq<SlotEvent>) -> nat
    decreases events.len(),
{
    if events.len() == 0 {
        0
    } else {
        let n = slot_count(events.drop_last());
        match events.last() {
            SlotEvent::Acquire => match acquired(n) {
                Some(m) => m,
                None => n,
            },
            SlotEvent::Release => if n > 0 {
                (n - 1) as nat
            } else {
                n
            },
        }
    }
}

/// The permits alive after `events`: one for each admitted acquire, less one
/// for each release.
pub open spec fn live_permits(events: Seq<SlotEvent>) -> int
    decreases events.len(),
{
    if events.len() == 0 {
        0
    } else {
        let before = live_permits(events.drop_last());
        match events.last() {
            SlotEvent::Acquire => if acquired(slot_count(events.drop_last())) is Some {
                before + 1
            } else {
                before
            },
            SlotEvent::Release => before - 1,
        }
    }
}

/// Only the holder of a live permit gives a slot back.
pub open spec fn releases_hold_permits(events: Seq<SlotEvent>) -> bool
    decreases events.len(),
{
    if events.len() == 0 {
        true
    } else {
        &&& releases_hold_permits(events.drop_last())
        &&& events.last() is Release ==> live_permits(events.drop_last()) > 0
    }
}

/// Over any sequence of acquires and releases from zero, the in-flight count
/// equals the number of live permits and never exceeds the ceiling.
pub proof fn lemma_in_flight_counts_permits(events: Seq<SlotEvent>)
    requires
        releases_hold_permits(events),
    ensures
        slot_count(events) == live_permits(events),
        slot_count(events) <= MAX_IN_FLIGHT,
    decreases events.len(),
{
    if events.len() > 0 {
        lemma_in_flight_counts_permits(events.drop_last());
    }
}

/// How waiting on the extraction worker ended.
pub enum WorkerOutcome {
    /// The worker sent its result.
    Finished(Result<String, ExtractError>),
    /// The worker thread could not be started; the rendered OS error.
    SpawnFailed(String),
    /// The deadline passed first.
    TimedOut,
    /// The worker ended without sending anything.
    Disconnected,
}

pub open spec fn deadline_text() -> Seq<char> {
    "extraction exceeded "@ + decimal_digits(EXTRACT_DEADLINE_SECS as nat) + "s and was abandoned"@
}

/// The result the caller reports for how waiting on the worker ended.
pub fn settle(outcome: WorkerOutcome) -> (r: Result<String, ExtractError>)
    ensures
        outcome matches WorkerOutcome::Finished(res) ==> r == res,
        outcome matches WorkerOutcome::SpawnFailed(e) ==> is_error(
            r,
            ErrorKind::Python,
            "could not start extraction thread: "@ + e@,
        ),
        outcome matches WorkerOutcome::TimedOut ==> is_error(r, ErrorKind::Timeout, deadline_text()),
        outcome matches WorkerOutcome::Disconnected ==> is_error(
            r,
            ErrorKind::Python,
            "extraction thread ended without producing a result"@,
        ),
{
    match outcome {
        WorkerOutcome::Finished(res) => res,
        WorkerOutcome::SpawnFailed(e) => Err(
            ExtractError::Python(joined("could not start extraction thread: ", e.as_str())),
        ),
        WorkerOutcome::TimedOut => {
            let secs = decimal(EXTRACT_DEADLINE_SECS);
            Err(
                ExtractError::Timeout(
                    joined3("extraction exceeded ", secs.as_str(), "s and was abandoned"),
                ),
            )
        },
        WorkerOutcome::Disconnected => Err(
            ExtractError::Python("extraction thread ended without producing a result".to_owned()),
        ),
    }
}

/// What running the extraction snippet left behind.
pub enum SnippetOutcome {
    /// Injecting the named local failed; the rendered Python error.
    SetupFailed(String, String),
    /// The snippet raised; the exception's class and its rendered text.
    Raised(RaisedException, String),
    /// The snippet reported an oversized result of this many bytes, or a size
    /// that could not be read as one.
    TooLarge(Option<usize>),
    /// The snippet produced this serialised result.
    Produced(String),
    /// The snippet left no result behind.
    Missing,
    /// Reading the result failed; the rendered Python error.
    ReadFailed(String),
    /// The result was not a string; the rendered Python error.
    NotAString(String),
}

pub open spec fn too_large_text(size: nat, ceiling: nat) -> Seq<char> {
    "extraction result is "@ + decimal_digits(size) + " bytes, over the "@ + decimal_digits(
        ceiling,
    ) + "-byte limit"@
}

/// The extraction result for what the snippet left behind, under the result
/// ceiling `ceiling`.
pub fn settle_snippet(outcome: SnippetOutcome, ceiling: usize) -> (r: Result<String, ExtractError>)
    ensures
        outcome matches SnippetOutcome::SetupFailed(name, e) ==> is_error(
            r,
            ErrorKind::Python,
            "set "@ + name@ + ": "@ + e@,
        ),
        outcome matches SnippetOutcome::Raised(raised, e) ==> is_error(
            r,
            kind_of_raised(raised),
            "yt-dlp extraction failed: "@ + e@,
        ),
        outcome matches SnippetOutcome::TooLarge(size) ==> is_error(
            r,
            ErrorKind::TooLarge,
            too_large_text(
                (match size {
                    Some(n) => n,
                    None => 0usize,
                }) as nat,
                ceiling as nat,
            ),
        ),
        outcome matches SnippetOutcome::Produced(s) ==> (r matches Ok(t) && t@ == s@),
        outcome matches SnippetOutcome::Missing ==> is_error(
            r,
            ErrorKind::Python,
            "extraction produced no result"@,
        ),
        outcome matches SnippetOutcome::ReadFailed(e) ==> is_error(
            r,
            ErrorKind::Python,
            "read _result: "@ + e@,
        ),
        outcome matches SnippetOutcome::NotAString(e) ==> is_error(
            r,
            ErrorKind::Python,
            "_result is not a string: "@ + e@,
        ),
{
    match outcome {
        SnippetOutcome::SetupFailed(name, e) => {
            let mut m = joined3("set ", name.as_str(), ": ");
            m.append(e.as_str());
            Err(ExtractError::Python(m))
        },
        SnippetOutcome::Raised(raised, e) => Err(
            classify(raised, joined("yt-dlp extraction failed: ", e.as_str())),
        ),
        SnippetOutcome::TooLarge(size) => {
            let n = match size {
                Some(n) => n,
                None => 0usize,
            };
            let size_text = decimal(n as u64);
            let ceiling_text = decimal(ceiling as u64);
            let mut m = joined3("extraction result is ", size_text.as_str(), " bytes, over the ");
            m.append(ceiling_text.as_str());
            m.append("-byte limit");
            Err(ExtractError::TooLarge(m))
        },
        SnippetOutcome::Produced(s) => Ok(s),
        SnippetOutcome::Missing => Err(
            ExtractError::Python("extraction produced no result".to_owned()),
        ),
        SnippetOutcome::ReadFailed(e) => Err(
            ExtractError::Python(joined("read _result: ", e.as_str())),
        ),
        SnippetOutcome::NotAString(e) => Err(
            ExtractError::Python(joined("_result is not a string: ", e.as_str())),
        ),
    }
}

} // verus!
