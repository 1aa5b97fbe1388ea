use vstd::prelude::*;
use vstd::string::StringSliceAdditionalSpecFns;
use vstd::utf8::*;

use crate::extract::{ErrorKind, ExtractError};
use crate::text::joined;

verus! {

broadcast use vstd::string::group_string_axioms, vstd::utf8::group_utf8_lib, vstd::slice::group_slice_axioms;

/// Upper bound on the stored error string, in bytes.
pub const MAX_LAST_ERROR_BYTES: usize = 4096;

/// Appended to an error message that had to be cut to fit.
pub const LAST_ERROR_TRUNCATED_SUFFIX: &'static str = "... [truncated]";

/// The UTF-8 bytes of a character sequence.
pub open spec fn utf8_bytes(s: Seq<char>) -> Seq<u8> {
    encode_utf8(s)
}

/// The greatest character boundary of `bytes` that is not past `limit`.
pub open spec fn floor_char_boundary(bytes: Seq<u8>, limit: int) -> int
    decreases limit,
{
    if limit <= 0 {
        0
    } else if is_char_boundary(bytes, limit) {
        limit
    } else {
        floor_char_boundary(bytes, limit - 1)
    }
}

/// What the error slot stores for `msg`: the message itself when it fits in
/// `MAX_LAST_ERROR_BYTES`, otherwise its longest prefix that ends on a
/// character boundary and leaves room for the truncation marker, followed by
/// that marker.
pub open spec fn clamped_bytes(msg: Seq<char>) -> Seq<u8> {
    let bytes = utf8_bytes(msg);
    if bytes.len() <= MAX_LAST_ERROR_BYTES {
        bytes
    } else {
        let keep = MAX_LAST_ERROR_BYTES - LAST_ERROR_TRUNCATED_SUFFIX@.len();
        bytes.subrange(0, floor_char_boundary(bytes, keep)) + utf8_bytes(
            LAST_ERROR_TRUNCATED_SUFFIX@,
        )
    }
}

/// The text the error slot stores for `msg`.
pub open spec fn clamped_text(msg: Seq<char>) -> Seq<char> {
    decode_utf8(clamped_bytes(msg))
}

proof fn lemma_encode_utf8_concat(a: Seq<char>, b: Seq<char>)
    ensures
        encode_utf8(a + b) == encode_utf8(a) + encode_utf8(b),
    decreases a.len(),
{
    if a.len() == 0 {
        assert(a + b =~= b);
    } else {
        lemma_encode_utf8_concat(a.drop_first(), b);
        assert((a + b).drop_first() =~= a.drop_first() + b);
        assert((a + b)[0] == a[0]);
    }
}

proof fn lemma_floor_char_boundary(bytes: Seq<u8>, limit: int)
    requires
        valid_utf8(bytes),
        0 <= limit <= bytes.len(),
    ensures
        0 <= floor_char_boundary(bytes, limit) <= limit,
        is_char_boundary(bytes, floor_char_boundary(bytes, limit)),
        forall|j: int|
            floor_char_boundary(bytes, limit) < j <= limit ==> !is_char_boundary(bytes, j),
    decreases limit,
{
    if limit > 0 && !is_char_boundary(bytes, limit) {
        lemma_floor_char_boundary(bytes, limit - 1);
    }
}

proof fn lemma_suffix_is_ascii()
    ensures
        LAST_ERROR_TRUNCATED_SUFFIX@.len() == 15,
        utf8_bytes(LAST_ERROR_TRUNCATED_SUFFIX@).len() == 15,
{
    reveal_strlit("... [truncated]");
    assert(is_ascii_chars(LAST_ERROR_TRUNCATED_SUFFIX@));
}

/// Cap an error message at `MAX_LAST_ERROR_BYTES`, cutting on a character
/// boundary and marking the cut.
pub fn clamp_error_message(msg: String) -> (r: String)
    ensures
        r@ == clamped_text(msg@),
        utf8_bytes(r@) == clamped_bytes(msg@),
        utf8_bytes(r@).len() <= MAX_LAST_ERROR_BYTES,
        utf8_bytes(msg@).len() <= MAX_LAST_ERROR_BYTES ==> r@ == msg@,
        utf8_bytes(msg@).len() > MAX_LAST_ERROR_BYTES ==> exists|k: int|
            0 <= k <= msg@.len() && r@ == msg@.take(k) + LAST_ERROR_TRUNCATED_SUFFIX@,
        utf8_bytes(msg@).len() > MAX_LAST_ERROR_BYTES ==> utf8_bytes(r@).len()
            >= MAX_LAST_ERROR_BYTES - 3,
{
    proof {
        lemma_suffix_is_ascii();
        if utf8_bytes(msg@).len() > MAX_LAST_ERROR_BYTES {
            let k = lemma_cut_keeps_head(msg@);
            lemma_truncation_keeps_most(msg@);
        }
    }
    let text = msg.as_str();
    let byte_len = text.as_bytes().len();
    if byte_len > MAX_LAST_ERROR_BYTES {
        let keep = MAX_LAST_ERROR_BYTES - LAST_ERROR_TRUNCATED_SUFFIX.len();
        let ghost bytes = text.spec_bytes();
        let mut cut = keep;
        while cut > 0 && !text.is_char_boundary(cut)
            invariant
                cut <= keep,
                keep == MAX_LAST_ERROR_BYTES - 15,
                bytes == text.spec_bytes(),
                bytes.len() > MAX_LAST_ERROR_BYTES,
                floor_char_boundary(bytes, cut as int) == floor_char_boundary(bytes, keep as int),
            decreases cut,
        {
            cut = cut - 1;
        }
        proof {
            lemma_floor_char_boundary(bytes, keep as int);
            assert(floor_char_boundary(bytes, cut as int) == cut);
        }
        let (head, _tail) = text.split_at(cut);
        let mut out = head.to_owned();
        out.append(LAST_ERROR_TRUNCATED_SUFFIX);
        proof {
            lemma_encode_utf8_concat(head@, LAST_ERROR_TRUNCATED_SUFFIX@);
            assert(utf8_bytes(head@) == bytes.subrange(0, cut as int));
            assert(out@ == head@ + LAST_ERROR_TRUNCATED_SUFFIX@);
            assert(bytes == utf8_bytes(msg@));
            encode_utf8_decode_utf8(out@);
        }
        out
    } else {
        proof {
            encode_utf8_decode_utf8(msg@);
        }
        msg
    }
}

/// Result code of every exported entry point.
pub type UnityDlpResult = i32;

pub const UNITY_DLP_OK: UnityDlpResult = 0;
/// Init succeeded but the JS-challenge shim did not register.
pub const UNITY_DLP_OK_DEGRADED: UnityDlpResult = 1;
pub const UNITY_DLP_ERR_INIT: UnityDlpResult = -1;
pub const UNITY_DLP_ERR_PYTHON: UnityDlpResult = -2;
pub const UNITY_DLP_ERR_JS: UnityDlpResult = -3;
pub const UNITY_DLP_ERR_NET: UnityDlpResult = -4;
/// The output buffer is too small; the required length is reported.
pub const UNITY_DLP_ERR_BUF: UnityDlpResult = -5;
/// The extraction deadline expired and the worker was abandoned.
pub const UNITY_DLP_ERR_TIMEOUT: UnityDlpResult = -6;
/// Too many extractions already in flight.
pub const UNITY_DLP_ERR_BUSY: UnityDlpResult = -7;
/// The result is larger than the library will materialise.
pub const UNITY_DLP_ERR_TOO_LARGE: UnityDlpResult = -8;

/// The version string the library reports.
pub const VERSION: &'static str = "unity_dlp/0.1.0 (phase-2)";

/// A C string argument as the boundary found it.
pub enum CText {
    /// A null pointer.
    Null,
    /// A string that is not valid UTF-8.
    NotUtf8,
    /// A valid UTF-8 string.
    Text(String),
}

/// Where the interpreter's initialisation stands.
#[derive(PartialEq, Eq, Structural, Clone, Copy, Debug)]
pub enum InitState {
    Uninit,
    /// Claimed by one caller; the interpreter is not usable yet.
    Initialising,
    Ready,
    /// Start-up failed; terminal.
    Failed,
}

/// The library's process-wide state, as the contracts see it.
pub struct LifecycleView {
    pub state: InitState,
    /// The code the first successful init returned.
    pub init_code: i32,
    /// Why start-up failed, kept for the terminal state.
    pub failure: Option<Seq<char>>,
    /// The error slot.
    pub last_error: Seq<char>,
}

/// The state's invariant: the error slot is within its cap, the echoed code
/// is one a successful init returns, and a failed state keeps its reason.
pub open spec fn lifecycle_wf(v: LifecycleView) -> bool {
    &&& utf8_bytes(v.last_error).len() <= MAX_LAST_ERROR_BYTES
    &&& (v.init_code == UNITY_DLP_OK || v.init_code == UNITY_DLP_OK_DEGRADED)
    &&& (v.state == InitState::Failed ==> v.failure is Some)
}

pub open spec fn initial_lifecycle() -> LifecycleView {
    LifecycleView {
        state: InitState::Uninit,
        init_code: UNITY_DLP_OK,
        failure: None,
        last_error: Seq::empty(),
    }
}

/// `v` with `msg` stored in the error slot.
pub open spec fn with_error(v: LifecycleView, msg: Seq<char>) -> LifecycleView {
    LifecycleView { last_error: clamped_text(msg), ..v }
}

pub open spec fn with_state(v: LifecycleView, state: InitState) -> LifecycleView {
    LifecycleView { state, ..v }
}

/// What a call to init does first.
#[derive(PartialEq, Eq, Structural, Clone, Copy, Debug)]
pub enum InitStart {
    /// This caller claimed initialisation and must now run it.
    Run,
    /// Nothing to run; return this code.
    Return(i32),
}

pub open spec fn in_progress_text() -> Seq<char> {
    "initialisation is already in progress on another thread"@
}

pub open spec fn generic_failure_text() -> Seq<char> {
    "interpreter initialisation failed"@
}

/// Claiming initialisation. From `Uninit` the caller claims it; while another
/// caller is initialising, the call is refused; after a failure, the original
/// reason is restored to the error slot and the failure reported again; once
/// ready, the first init's code is echoed.
pub open spec fn begin_init_spec(v: LifecycleView) -> (LifecycleView, InitStart) {
    match v.state {
        InitState::Uninit => (with_state(v, InitState::Initialising), InitStart::Run),
        InitState::Initialising => (
            with_error(v, in_progress_text()),
            InitStart::Return(UNITY_DLP_ERR_INIT),
        ),
        InitState::Failed => (
            with_error(
                v,
                match v.failure {
                    Some(f) => f,
                    None => generic_failure_text(),
                },
            ),
            InitStart::Return(UNITY_DLP_ERR_INIT),
        ),
        InitState::Ready => (v, InitStart::Return(v.init_code)),
    }
}

/// Giving initialisation up before the interpreter was touched (an argument
/// was not UTF-8): the reason goes to the error slot and the state returns to
/// `Uninit`, so a later call may try again.
pub open spec fn abandon_init_spec(v: LifecycleView, reason: Seq<char>) -> (LifecycleView, i32) {
    (with_state(with_error(v, reason), InitState::Uninit), UNITY_DLP_ERR_INIT)
}

/// Recording the interpreter's start-up outcome: a clean start is ready with
/// OK; a start whose shim did not register is ready, degraded, with the reason
/// in the error slot; a failed start is terminal, with its reason kept and in
/// the error slot.
pub open spec fn complete_init_spec(v: LifecycleView, outcome: Result<Option<Seq<char>>, Seq<char>>) -> (
    LifecycleView,
    i32,
) {
    match outcome {
        Ok(None) => (
            LifecycleView { state: InitState::Ready, init_code: UNITY_DLP_OK, ..v },
            UNITY_DLP_OK,
        ),
        Ok(Some(shim_error)) => (
            LifecycleView {
                state: InitState::Ready,
                init_code: UNITY_DLP_OK_DEGRADED,
                ..with_error(v, shim_error)
            },
            UNITY_DLP_OK_DEGRADED,
        ),
        Err(e) => (
            LifecycleView { state: InitState::Failed, failure: Some(e), ..with_error(v, e) },
            UNITY_DLP_ERR_INIT,
        ),
    }
}

/// Shutting down: a ready library becomes uninitialised; in any other state
/// nothing changes. Either way the call reports OK.
pub open spec fn shutdown_spec(v: LifecycleView) -> (LifecycleView, i32) {
    if v.state == InitState::Ready {
        (with_state(v, InitState::Uninit), UNITY_DLP_OK)
    } else {
        (v, UNITY_DLP_OK)
    }
}

pub open spec fn null_argument_text() -> Seq<char> {
    "null pointer argument"@
}

pub open spec fn not_initialised_text() -> Seq<char> {
    "library not initialised; call unity_dlp_init first"@
}

pub open spec fn bad_url_text() -> Seq<char> {
    "url is not valid UTF-8"@
}

/// The options an extraction forwards: none for a null, non-UTF-8 or empty
/// argument, otherwise the text.
pub open spec fn options_spec(opts: CText) -> Option<Seq<char>> {
    match opts {
        CText::Text(s) => if s@.len() > 0 {
            Some(s@)
        } else {
            None
        },
        _ => None,
    }
}

/// The checks before an extraction runs: both required pointers present, the
/// library ready, the URL valid UTF-8. A refusal stores its reason and
/// returns `ERR_INIT`; an accepted call leaves the state alone.
pub open spec fn begin_extract_spec(v: LifecycleView, url: CText, out_len_is_null: bool) -> (
    LifecycleView,
    Result<Seq<char>, i32>,
) {
    if url is Null || out_len_is_null {
        (with_error(v, null_argument_text()), Err(UNITY_DLP_ERR_INIT))
    } else if v.state != InitState::Ready {
        (with_error(v, not_initialised_text()), Err(UNITY_DLP_ERR_INIT))
    } else {
        match url {
            CText::Text(s) => (v, Ok(s@)),
            _ => (with_error(v, bad_url_text()), Err(UNITY_DLP_ERR_INIT)),
        }
    }
}

/// The result code for an extraction failure of `kind`.
pub open spec fn code_for(kind: ErrorKind) -> i32 {
    match kind {
        ErrorKind::Timeout => UNITY_DLP_ERR_TIMEOUT,
        ErrorKind::Busy => UNITY_DLP_ERR_BUSY,
        ErrorKind::Network => UNITY_DLP_ERR_NET,
        ErrorKind::Js => UNITY_DLP_ERR_JS,
        ErrorKind::TooLarge => UNITY_DLP_ERR_TOO_LARGE,
        ErrorKind::Python => UNITY_DLP_ERR_PYTHON,
    }
}

/// The result code for an extraction failure, decided by its kind alone.
pub fn error_code(e: &ExtractError) -> (r: i32)
    ensures
        r == code_for(e.kind()),
{
    match e {
        ExtractError::Timeout(_) => UNITY_DLP_ERR_TIMEOUT,
        ExtractError::Busy(_) => UNITY_DLP_ERR_BUSY,
        ExtractError::Network(_) => UNITY_DLP_ERR_NET,
        ExtractError::Js(_) => UNITY_DLP_ERR_JS,
        ExtractError::TooLarge(_) => UNITY_DLP_ERR_TOO_LARGE,
        ExtractError::Python(_) => UNITY_DLP_ERR_PYTHON,
    }
}

/// Decode the two init arguments: a null argument is the empty string, and an
/// argument that is not UTF-8 refuses the call with the reason naming it.
pub fn init_arguments(python_home: CText, packages_path: CText) -> (r: Result<(String, String), String>)
    ensures
        python_home is NotUtf8 ==> (r matches Err(m) && m@ == "python_home is not valid UTF-8"@),
        !(python_home is NotUtf8) && packages_path is NotUtf8 ==> (r matches Err(m) && m@
            == "packages_path is not valid UTF-8"@),
        python_home matches CText::Text(h) ==> (!(packages_path is NotUtf8) ==> (r matches Ok(
            (x, _),
        ) && x@ == h@)),
        packages_path matches CText::Text(p) ==> (!(python_home is NotUtf8) ==> (r matches Ok(
            (_, y),
        ) && y@ == p@)),
        python_home is Null && !(packages_path is NotUtf8) ==> (r matches Ok((x, _)) && x@.len()
            == 0),
        packages_path is Null && !(python_home is NotUtf8) ==> (r matches Ok((_, y)) && y@.len()
            == 0),
        !(python_home is NotUtf8) && !(packages_path is NotUtf8) ==> (r matches Ok((h, p)) && h@
            == text_or_empty(python_home) && p@ == text_or_empty(packages_path)),
{
    let home = match python_home {
        CText::Null => String::new(),
        CText::NotUtf8 => {
            return Err("python_home is not valid UTF-8".to_owned());
        },
        CText::Text(s) => s,
    };
    let packages = match packages_path {
        CText::Null => String::new(),
        CText::NotUtf8 => {
            return Err("packages_path is not valid UTF-8".to_owned());
        },
        CText::Text(s) => s,
    };
    Ok((home, packages))
}

pub open spec fn text_or_empty(t: CText) -> Seq<char> {
    match t {
        CText::Text(s) => s@,
        _ => Seq::empty(),
    }
}

/// How a result is handed back through a caller's buffer.
#[derive(PartialEq, Eq, Structural, Clone, Copy, Debug)]
pub struct Delivery {
    pub code: i32,
    /// The value to store through `out_len`, if any.
    pub out_len: Option<i32>,
    /// Whether the result is copied into the buffer.
    pub copy: bool,
}

/// The buffer protocol for a result of `len` bytes: a length the ABI's
/// `int32_t` cannot express reports zero and `ERR_BUF`; otherwise the length
/// is reported, and the result is copied only into a present buffer at least
/// that large.
pub open spec fn delivery_spec(len: nat, buf_is_null: bool, out_cap: i32) -> Delivery {
    if len > i32::MAX {
        Delivery { code: UNITY_DLP_ERR_BUF, out_len: Some(0), copy: false }
    } else if buf_is_null || out_cap < len {
        Delivery { code: UNITY_DLP_ERR_BUF, out_len: Some(len as i32), copy: false }
    } else {
        Delivery { code: UNITY_DLP_OK, out_len: Some(len as i32), copy: true }
    }
}

pub fn deliver(len: usize, buf_is_null: bool, out_cap: i32) -> (r: Delivery)
    ensures
        r == delivery_spec(len as nat, buf_is_null, out_cap),
{
    if len > i32::MAX as usize {
        Delivery { code: UNITY_DLP_ERR_BUF, out_len: Some(0), copy: false }
    } else {
        let needed = len as i32;
        if buf_is_null || out_cap < needed {
            Delivery { code: UNITY_DLP_ERR_BUF, out_len: Some(needed), copy: false }
        } else {
            Delivery { code: UNITY_DLP_OK, out_len: Some(needed), copy: true }
        }
    }
}

pub open spec fn oversize_text() -> Seq<char> {
    "result exceeds the 2 GiB limit the ABI can express"@
}

/// Copy `src` to the front of `dst`, leaving the rest of `dst` untouched.
pub fn copy_into(dst: &mut [u8], src: &[u8])
    requires
        src@.len() <= old(dst)@.len(),
    ensures
        final(dst)@ == src@ + old(dst)@.skip(src@.len() as int),
{
    let n = src.len();
    let mut i: usize = 0;
    while i < n
        invariant
            n == src@.len(),
            i <= n,
            n <= dst@.len(),
            dst@.len() == old(dst)@.len(),
            forall|j: int| 0 <= j < i ==> dst@[j] == src@[j],
            forall|j: int| i <= j < dst@.len() ==> dst@[j] == old(dst)@[j],
        decreases n - i,
    {
        dst[i] = src[i];
        i = i + 1;
    }
    assert(dst@ =~= src@ + old(dst)@.skip(n as int));
}

/// What a panic carried, as far as the report reads it.
pub enum PanicPayload {
    /// A `&str` payload.
    Str(String),
    /// A `String` payload.
    Owned(String),
    /// Anything else.
    Other,
}

/// The text a panic is reported with.
pub fn panic_detail(payload: PanicPayload) -> (r: String)
    ensures
        payload matches PanicPayload::Str(s) ==> r@ == s@,
        payload matches PanicPayload::Owned(s) ==> r@ == s@,
        payload is Other ==> r@ == "unknown panic payload"@,
{
    match payload {
        PanicPayload::Str(s) => s,
        PanicPayload::Owned(s) => s,
        PanicPayload::Other => "unknown panic payload".to_owned(),
    }
}

/// The library's process-wide state: initialisation, the first init's code,
/// the failure reason, and the error slot.
pub struct Lifecycle {
    state: InitState,
    init_code: i32,
    failure: Option<String>,
    last_error: String,
}

pub open spec fn opt_view(o: Option<String>) -> Option<Seq<char>> {
    match o {
        Some(s) => Some(s@),
        None => None,
    }
}

impl View for Lifecycle {
    type V = LifecycleView;

    closed spec fn view(&self) -> LifecycleView {
        LifecycleView {
            state: self.state,
            init_code: self.init_code,
            failure: opt_view(self.failure),
            last_error: self.last_error@,
        }
    }
}

impl Lifecycle {
    pub open spec fn wf(&self) -> bool {
        lifecycle_wf(self@)
    }

    /// The state before any call: uninitialised, with an empty error slot.
    pub fn new() -> (r: Lifecycle)
        ensures
            r@ == initial_lifecycle(),
            r.wf(),
    {
        let r = Lifecycle {
            state: InitState::Uninit,
            init_code: UNITY_DLP_OK,
            failure: None,
            last_error: String::new(),
        };
        proof {
            reveal_with_fuel(encode_utf8, 1);
        }
        r
    }

    /// True once init has completed successfully.
    pub fn is_ready(&self) -> (r: bool)
        ensures
            r == (self@.state == InitState::Ready),
    {
        match self.state {
            InitState::Ready => true,
            _ => false,
        }
    }

    /// The text in the error slot.
    pub fn last_error(&self) -> (r: &str)
        ensures
            r@ == self@.last_error,
    {
        self.last_error.as_str()
    }

    /// Store `msg` in the error slot, capped.
    pub fn set_last_error(&mut self, msg: String)
        requires
            old(self).wf(),
        ensures
            final(self)@ == with_error(old(self)@, msg@),
            final(self).wf(),
    {
        self.last_error = clamp_error_message(msg);
    }

    /// Claim initialisation, or answer without running it.
    pub fn begin_init(&mut self) -> (r: InitStart)
        requires
            old(self).wf(),
        ensures
            (final(self)@, r) == begin_init_spec(old(self)@),
            final(self).wf(),
    {
        match self.state {
            InitState::Uninit => {
                self.state = InitState::Initialising;
                InitStart::Run
            },
            InitState::Initialising => {
                self.set_last_error(
                    "initialisation is already in progress on another thread".to_owned(),
                );
                InitStart::Return(UNITY_DLP_ERR_INIT)
            },
            InitState::Failed => {
                let reason = match &self.failure {
                    Some(f) => f.clone(),
                    None => "interpreter initialisation failed".to_owned(),
                };
                self.set_last_error(reason);
                InitStart::Return(UNITY_DLP_ERR_INIT)
            },
            InitState::Ready => InitStart::Return(self.init_code),
        }
    }

    /// Give initialisation up before the interpreter was touched.
    pub fn abandon_init(&mut self, reason: String) -> (r: i32)
        requires
            old(self).wf(),
        ensures
            (final(self)@, r) == abandon_init_spec(old(self)@, reason@),
            final(self).wf(),
    {
        self.set_last_error(reason);
        self.state = InitState::Uninit;
        UNITY_DLP_ERR_INIT
    }

    /// Record the interpreter's start-up outcome and return the init code.
    pub fn complete_init(&mut self, outcome: Result<Option<String>, String>) -> (r: i32)
        requires
            old(self).wf(),
        ensures
            (final(self)@, r) == complete_init_spec(
                old(self)@,
                match outcome {
                    Ok(Some(m)) => Ok(Some(m@)),
                    Ok(None) => Ok(None),
                    Err(e) => Err(e@),
                },
            ),
            final(self).wf(),
    {
        match outcome {
            Ok(None) => {
                self.init_code = UNITY_DLP_OK;
                self.state = InitState::Ready;
                UNITY_DLP_OK
            },
            Ok(Some(shim_error)) => {
                self.set_last_error(shim_error);
                self.init_code = UNITY_DLP_OK_DEGRADED;
                self.state = InitState::Ready;
                UNITY_DLP_OK_DEGRADED
            },
            Err(e) => {
                self.failure = Some(e.clone());
                self.set_last_error(e);
                self.state = InitState::Failed;
                UNITY_DLP_ERR_INIT
            },
        }
    }

    /// Shut the library down.
    pub fn shutdown(&mut self) -> (r: i32)
        requires
            old(self).wf(),
        ensures
            (final(self)@, r) == shutdown_spec(old(self)@),
            final(self).wf(),
    {
        if self.is_ready() {
            self.state = InitState::Uninit;
        }
        UNITY_DLP_OK
    }

    /// The checks before an extraction: on success the URL to extract and the
    /// options to forward; on refusal the code to return.
    pub fn begin_extract(&mut self, url: CText, out_len_is_null: bool, opts: CText) -> (r: Result<
        (String, Option<String>),
        i32,
    >)
        requires
            old(self).wf(),
        ensures
            final(self)@ == begin_extract_spec(old(self)@, url, out_len_is_null).0,
            begin_extract_spec(old(self)@, url, out_len_is_null).1 matches Err(code) ==> r == Err::<
                (String, Option<String>),
                i32,
            >(code),
            begin_extract_spec(old(self)@, url, out_len_is_null).1 matches Ok(u) ==> (r matches Ok(
                (t, o),
            ) && t@ == u && opt_view(o) == options_spec(opts)),
            old(self)@.state == InitState::Ready && !out_len_is_null ==> (url matches CText::Text(
                s,
            ) ==> (r matches Ok((t, _)) && t@ == s@ && final(self)@ == old(self)@)),
            final(self).wf(),
    {
        let url_is_null = match url {
            CText::Null => true,
            _ => false,
        };
        if url_is_null || out_len_is_null {
            self.set_last_error("null pointer argument".to_owned());
            return Err(UNITY_DLP_ERR_INIT);
        }
        if !self.is_ready() {
            self.set_last_error("library not initialised; call unity_dlp_init first".to_owned());
            return Err(UNITY_DLP_ERR_INIT);
        }
        let url_text = match url {
            CText::Text(s) => s,
            _ => {
                self.set_last_error("url is not valid UTF-8".to_owned());
                return Err(UNITY_DLP_ERR_INIT);
            },
        };
        let options = match opts {
            CText::Text(s) => if s.as_str().is_empty() {
                None
            } else {
                Some(s)
            },
            _ => None,
        };
        Ok((url_text, options))
    }

    /// Record an extraction failure and return its code.
    pub fn fail_extract(&mut self, e: &ExtractError) -> (r: i32)
        requires
            old(self).wf(),
        ensures
            final(self)@ == with_error(old(self)@, e.text()),
            r == code_for(e.kind()),
            final(self).wf(),
    {
        let message = e.message();
        self.set_last_error(message.to_owned());
        error_code(e)
    }

    /// Hand an extraction result of `len` bytes back through the caller's
    /// buffer; a length the ABI cannot express also stores its reason.
    pub fn deliver_result(&mut self, len: usize, buf_is_null: bool, out_cap: i32) -> (r: Delivery)
        requires
            old(self).wf(),
        ensures
            r == delivery_spec(len as nat, buf_is_null, out_cap),
            len > i32::MAX ==> final(self)@ == with_error(old(self)@, oversize_text()),
            len <= i32::MAX ==> final(self)@ == old(self)@,
            final(self).wf(),
    {
        if len > i32::MAX as usize {
            self.set_last_error(
                "result exceeds the 2 GiB limit the ABI can express".to_owned(),
            );
        }
        deliver(len, buf_is_null, out_cap)
    }

    /// Hand the error slot back through the caller's buffer: refused without
    /// an `out_len`, otherwise by the buffer protocol on the slot's bytes.
    pub fn deliver_last_error(&self, out_len_is_null: bool, buf_is_null: bool, out_cap: i32) -> (r:
        Delivery)
        requires
            self.wf(),
        ensures
            out_len_is_null ==> r == (Delivery {
                code: UNITY_DLP_ERR_INIT,
                out_len: None,
                copy: false,
            }),
            !out_len_is_null ==> r == delivery_spec(
                utf8_bytes(self@.last_error).len(),
                buf_is_null,
                out_cap,
            ),
    {
        if out_len_is_null {
            return Delivery { code: UNITY_DLP_ERR_INIT, out_len: None, copy: false };
        }
        let len = self.last_error.as_str().as_bytes().len();
        deliver(len, buf_is_null, out_cap)
    }

    /// Record a panic caught at the boundary and return the entry point's
    /// panic code.
    pub fn record_panic(&mut self, detail: &str, on_panic: i32) -> (r: i32)
        requires
            old(self).wf(),
        ensures
            final(self)@ == with_error(old(self)@, "panic in native library: "@ + detail@),
            r == on_panic,
            final(self).wf(),
    {
        self.set_last_error(joined("panic in native library: ", detail));
        on_panic
    }
}


/// Every transition keeps the state's invariant.
pub proof fn lemma_transitions_keep_invariant(
    v: LifecycleView,
    msg: Seq<char>,
    outcome: Result<Option<Seq<char>>, Seq<char>>,
    url: CText,
    out_len_is_null: bool,
)
    requires
        lifecycle_wf(v),
    ensures
        lifecycle_wf(with_error(v, msg)),
        lifecycle_wf(begin_init_spec(v).0),
        lifecycle_wf(abandon_init_spec(v, msg).0),
        lifecycle_wf(complete_init_spec(v, outcome).0),
        lifecycle_wf(shutdown_spec(v).0),
        lifecycle_wf(begin_extract_spec(v, url, out_len_is_null).0),
{
    lemma_clamped_text_fits(msg);
    lemma_clamped_text_fits(in_progress_text());
    lemma_clamped_text_fits(null_argument_text());
    lemma_clamped_text_fits(not_initialised_text());
    lemma_clamped_text_fits(bad_url_text());
    match v.failure {
        Some(f) => lemma_clamped_text_fits(f),
        None => lemma_clamped_text_fits(generic_failure_text()),
    }
    match outcome {
        Ok(Some(m)) => lemma_clamped_text_fits(m),
        Err(e) => lemma_clamped_text_fits(e),
        _ => {},
    }
}

/// The text the error slot stores is within the cap.
pub proof fn lemma_clamped_text_fits(msg: Seq<char>)
    ensures
        utf8_bytes(clamped_text(msg)).len() <= MAX_LAST_ERROR_BYTES,
        utf8_bytes(clamped_text(msg)) == clamped_bytes(msg),
{
    lemma_suffix_is_ascii();
    let bytes = utf8_bytes(msg);
    if bytes.len() > MAX_LAST_ERROR_BYTES {
        let keep = MAX_LAST_ERROR_BYTES - 15;
        lemma_floor_char_boundary(bytes, keep);
        let cut = floor_char_boundary(bytes, keep);
        valid_utf8_split(bytes, cut);
        valid_utf8_concat(bytes.subrange(0, cut), utf8_bytes(LAST_ERROR_TRUNCATED_SUFFIX@));
    }
    decode_utf8_encode_utf8(clamped_bytes(msg));
}

/// In valid UTF-8, some character boundary lies at most three bytes below any
/// position: no character takes more than four bytes.
proof fn lemma_boundary_near(bytes: Seq<u8>, i: int) -> (j: int)
    requires
        valid_utf8(bytes),
        0 <= i <= bytes.len(),
    ensures
        0 <= j <= i,
        i - 3 <= j,
        is_char_boundary(bytes, j),
    decreases bytes.len(),
{
    if i == 0 {
        0
    } else {
        let l = length_of_first_scalar(bytes);
        assert(1 <= l <= 4 && l <= bytes.len());
        if i < l {
            0
        } else {
            let tail = pop_first_scalar(bytes);
            assert(tail.len() == bytes.len() - l);
            let k = lemma_boundary_near(tail, i - l);
            assert(is_char_boundary(bytes, k + l) == is_char_boundary(tail, k));
            k + l
        }
    }
}

/// A message that had to be cut keeps all but at most three bytes of the room
/// left for it: its stored form is never shorter than 4093 bytes.
pub proof fn lemma_truncation_keeps_most(msg: Seq<char>)
    requires
        utf8_bytes(msg).len() > MAX_LAST_ERROR_BYTES,
    ensures
        utf8_bytes(clamped_text(msg)).len() >= MAX_LAST_ERROR_BYTES - 3,
        utf8_bytes(clamped_text(msg)).len() <= MAX_LAST_ERROR_BYTES,
{
    lemma_suffix_is_ascii();
    lemma_clamped_text_fits(msg);
    let bytes = utf8_bytes(msg);
    let keep = MAX_LAST_ERROR_BYTES - 15;
    lemma_floor_char_boundary(bytes, keep);
    let j = lemma_boundary_near(bytes, keep);
    assert(j <= floor_char_boundary(bytes, keep));
}

/// A cut message keeps its head: the stored text is a prefix of the message
/// followed by the truncation marker, and in bytes that prefix ends at the
/// last character boundary that leaves room for the marker.
pub proof fn lemma_cut_keeps_head(msg: Seq<char>) -> (k: int)
    requires
        utf8_bytes(msg).len() > MAX_LAST_ERROR_BYTES,
    ensures
        0 <= k <= msg.len(),
        clamped_text(msg) == msg.take(k) + LAST_ERROR_TRUNCATED_SUFFIX@,
        utf8_bytes(msg.take(k)).len() <= MAX_LAST_ERROR_BYTES - LAST_ERROR_TRUNCATED_SUFFIX@.len(),
        clamped_bytes(msg) == utf8_bytes(msg).take(utf8_bytes(msg.take(k)).len() as int)
            + utf8_bytes(LAST_ERROR_TRUNCATED_SUFFIX@),
        forall|j: int|
            utf8_bytes(msg.take(k)).len() < j <= MAX_LAST_ERROR_BYTES
                - LAST_ERROR_TRUNCATED_SUFFIX@.len() ==> !is_char_boundary(utf8_bytes(msg), j),
{
    lemma_suffix_is_ascii();
    let bytes = utf8_bytes(msg);
    let keep = MAX_LAST_ERROR_BYTES - 15;
    lemma_floor_char_boundary(bytes, keep);
    let cut = floor_char_boundary(bytes, keep);
    let head = bytes.subrange(0, cut);
    let rest = bytes.subrange(cut, bytes.len() as int);
    valid_utf8_split(bytes, cut);
    decode_utf8_split(bytes, cut);
    encode_utf8_decode_utf8(msg);
    let p = decode_utf8(head);
    decode_utf8_encode_utf8(head);
    assert(msg == p + decode_utf8(rest));
    assert(msg.take(p.len() as int) =~= p);
    lemma_encode_utf8_concat(p, LAST_ERROR_TRUNCATED_SUFFIX@);
    assert(clamped_bytes(msg) == utf8_bytes(p + LAST_ERROR_TRUNCATED_SUFFIX@));
    encode_utf8_decode_utf8(p + LAST_ERROR_TRUNCATED_SUFFIX@);
    assert(bytes.take(cut) =~= head);
    p.len() as int
}

/// Clamping is idempotent: clamping an already stored message changes nothing.
pub proof fn lemma_clamp_idempotent(msg: Seq<char>)
    ensures
        clamped_text(clamped_text(msg)) == clamped_text(msg),
{
    lemma_clamped_text_fits(msg);
    let once = clamped_text(msg);
    assert(clamped_bytes(once) == utf8_bytes(once));
    encode_utf8_decode_utf8(once);
}

/// A failed start-up is terminal: a later init reports the failure again and
/// restores its original reason to the error slot, and shutdown leaves it
/// failed.
pub proof fn lemma_failed_is_terminal(v: LifecycleView)
    requires
        lifecycle_wf(v),
        v.state == InitState::Failed,
    ensures
        begin_init_spec(v).0.state == InitState::Failed,
        begin_init_spec(v).1 == InitStart::Return(UNITY_DLP_ERR_INIT),
        begin_init_spec(v).0.last_error == clamped_text(v.failure->0),
        shutdown_spec(v).0.state == InitState::Failed,
{
}

/// The reason a start-up failed survives later use of the error slot: after
/// the slot is overwritten with anything, the next init puts the reason back.
pub proof fn lemma_failure_reason_survives(v: LifecycleView, reason: Seq<char>, later: Seq<char>)
    ensures
        ({
            let failed = complete_init_spec(v, Err(reason));
            let overwritten = with_error(failed.0, later);
            &&& failed.1 == UNITY_DLP_ERR_INIT
            &&& begin_init_spec(overwritten).1 == InitStart::Return(UNITY_DLP_ERR_INIT)
            &&& begin_init_spec(overwritten).0.last_error == clamped_text(reason)
        }),
{
}

/// Every init after a successful one echoes the code the first returned, and
/// changes nothing.
pub proof fn lemma_first_init_code_is_echoed(v: LifecycleView, shim: Option<Seq<char>>)
    ensures
        ({
            let done = complete_init_spec(v, Ok(shim));
            &&& begin_init_spec(done.0).1 == InitStart::Return(done.1)
            &&& begin_init_spec(done.0).0 == done.0
            &&& done.1 == (if shim is None {
                UNITY_DLP_OK
            } else {
                UNITY_DLP_OK_DEGRADED
            })
        }),
{
}

/// While one caller is initialising, another is refused without disturbing
/// the claim.
pub proof fn lemma_concurrent_init_refused(v: LifecycleView)
    requires
        v.state == InitState::Initialising,
    ensures
        begin_init_spec(v).0.state == InitState::Initialising,
        begin_init_spec(v).1 == InitStart::Return(UNITY_DLP_ERR_INIT),
        begin_init_spec(v).0.last_error == clamped_text(in_progress_text()),
{
}

/// Shutdown always reports OK and is idempotent; after shutting a ready
/// library down, the next init runs initialisation again.
pub proof fn lemma_shutdown(v: LifecycleView)
    ensures
        shutdown_spec(v).1 == UNITY_DLP_OK,
        shutdown_spec(shutdown_spec(v).0) == shutdown_spec(v),
        v.state == InitState::Ready ==> begin_init_spec(shutdown_spec(v).0).1 == InitStart::Run,
        v.state != InitState::Ready ==> shutdown_spec(v).0 == v,
{
}

/// An extraction only ever proceeds on a ready library, and an accepted call
/// leaves the state as it was.
pub proof fn lemma_extract_needs_ready(v: LifecycleView, url: CText, out_len_is_null: bool)
    ensures
        begin_extract_spec(v, url, out_len_is_null).1 is Ok ==> v.state == InitState::Ready
            && begin_extract_spec(v, url, out_len_is_null).0 == v,
        v.state != InitState::Ready ==> begin_extract_spec(v, url, out_len_is_null).1 == Err::<
            Seq<char>,
            i32,
        >(UNITY_DLP_ERR_INIT),
{
}

/// A delivery copies only into a buffer that holds the whole result, and
/// whenever it reports a length, that length is the result's.
pub proof fn lemma_delivery_fits(len: nat, buf_is_null: bool, out_cap: i32)
    ensures
        delivery_spec(len, buf_is_null, out_cap).copy ==> !buf_is_null && len <= out_cap,
        delivery_spec(len, buf_is_null, out_cap).copy <==> delivery_spec(len, buf_is_null, out_cap).code
            == UNITY_DLP_OK,
        len <= i32::MAX ==> delivery_spec(len, buf_is_null, out_cap).out_len == Some(len as i32),
{
}


/// One transition of the library's state, as the entry points apply them
/// under the state's lock.
pub enum Step {
    /// `Lifecycle::begin_init`.
    BeginInit,
    /// `Lifecycle::abandon_init` with this reason.
    AbandonInit(Seq<char>),
    /// `Lifecycle::complete_init` with this outcome.
    CompleteInit(Result<Option<Seq<char>>, Seq<char>>),
    /// `Lifecycle::shutdown`.
    Shutdown,
    /// Any call that only stores a message: `set_last_error`, `fail_extract`,
    /// `record_panic`, an oversized `deliver_result`.
    SetError(Seq<char>),
    /// `Lifecycle::begin_extract` with these arguments.
    BeginExtract(CText, bool),
}

pub open spec fn step_spec(v: LifecycleView, s: Step) -> LifecycleView {
    match s {
        Step::BeginInit => begin_init_spec(v).0,
        Step::AbandonInit(r) => abandon_init_spec(v, r).0,
        Step::CompleteInit(o) => complete_init_spec(v, o).0,
        Step::Shutdown => shutdown_spec(v).0,
        Step::SetError(m) => with_error(v, m),
        Step::BeginExtract(url, n) => begin_extract_spec(v, url, n).0,
    }
}

/// The state after applying `steps` in order to `v`.
pub open spec fn replay(v: LifecycleView, steps: Seq<Step>) -> LifecycleView
    decreases steps.len(),
{
    if steps.len() == 0 {
        v
    } else {
        step_spec(replay(v, steps.drop_last()), steps.last())
    }
}

/// Only the caller holding the claim finishes initialisation: every
/// abandon or completion is applied while the state is `Initialising`.
pub open spec fn follows_protocol(v: LifecycleView, steps: Seq<Step>) -> bool
    decreases steps.len(),
{
    if steps.len() == 0 {
        true
    } else {
        &&& follows_protocol(v, steps.drop_last())
        &&& (steps.last() is AbandonInit || steps.last() is CompleteInit) ==> replay(
            v,
            steps.drop_last(),
        ).state == InitState::Initialising
    }
}

/// Scanning back from the latest step, a successful initialisation comes
/// before any shutdown.
pub open spec fn succeeded_since_shutdown(steps: Seq<Step>) -> bool
    decreases steps.len(),
{
    if steps.len() == 0 {
        false
    } else {
        match steps.last() {
            Step::Shutdown => false,
            Step::CompleteInit(Ok(_)) => true,
            _ => succeeded_since_shutdown(steps.drop_last()),
        }
    }
}

/// The code of the latest successful initialisation, OK before there is one.
pub open spec fn latest_success_code(steps: Seq<Step>) -> i32
    decreases steps.len(),
{
    if steps.len() == 0 {
        UNITY_DLP_OK
    } else {
        match steps.last() {
            Step::CompleteInit(Ok(None)) => UNITY_DLP_OK,
            Step::CompleteInit(Ok(Some(_))) => UNITY_DLP_OK_DEGRADED,
            _ => latest_success_code(steps.drop_last()),
        }
    }
}

/// How many callers hold the initialisation claim: one more for each init
/// that claimed it, one fewer for each that gave it up or completed.
pub open spec fn outstanding_claims(v: LifecycleView, steps: Seq<Step>) -> int
    decreases steps.len(),
{
    if steps.len() == 0 {
        0
    } else {
        let before = outstanding_claims(v, steps.drop_last());
        match steps.last() {
            Step::BeginInit => if replay(v, steps.drop_last()).state == InitState::Uninit {
                before + 1
            } else {
                before
            },
            Step::AbandonInit(_) => before - 1,
            Step::CompleteInit(_) => before - 1,
            _ => before,
        }
    }
}

/// Over any history of calls from the initial state: the library is ready
/// exactly when a successful initialisation happened with no shutdown after
/// it; at most one caller holds the initialisation claim, and exactly one
/// while the state is `Initialising`; and the code a ready library echoes is
/// that of its latest successful initialisation.
pub proof fn lemma_lifecycle_history(steps: Seq<Step>)
    requires
        follows_protocol(initial_lifecycle(), steps),
    ensures
        replay(initial_lifecycle(), steps).state == InitState::Ready <==> succeeded_since_shutdown(
            steps,
        ),
        outstanding_claims(initial_lifecycle(), steps) == (if replay(
            initial_lifecycle(),
            steps,
        ).state == InitState::Initialising {
            1int
        } else {
            0int
        }),
        replay(initial_lifecycle(), steps).init_code == latest_success_code(steps),
    decreases steps.len(),
{
    if steps.len() > 0 {
        lemma_lifecycle_history(steps.drop_last());
    }
}

/// What an init call answers after any history: it claims initialisation
/// only when no one holds the claim and the library is not ready or failed;
/// it returns OK or degraded only when a successful initialisation happened
/// with no shutdown after it, and then the code of that initialisation.
pub proof fn lemma_init_answers_after_history(steps: Seq<Step>)
    requires
        follows_protocol(initial_lifecycle(), steps),
    ensures
        ({
            let v = replay(initial_lifecycle(), steps);
            &&& begin_init_spec(v).1 == InitStart::Run <==> v.state == InitState::Uninit
                && outstanding_claims(initial_lifecycle(), steps) == 0
            &&& (begin_init_spec(v).1 == InitStart::Return(UNITY_DLP_OK) || begin_init_spec(v).1
                == InitStart::Return(UNITY_DLP_OK_DEGRADED)) ==> succeeded_since_shutdown(steps)
                && begin_init_spec(v).1 == InitStart::Return(latest_success_code(steps))
        }),
{
    lemma_lifecycle_history(steps);
}


/// A URL given as valid UTF-8 text goes on to extraction unchanged, whatever
/// its characters, once the library is ready and `out_len` is present; the
/// state is left as it was.
pub proof fn lemma_ready_accepts_every_utf8_url(v: LifecycleView, url: String, opts: CText)
    requires
        v.state == InitState::Ready,
    ensures
        begin_extract_spec(v, CText::Text(url), false).1 == Ok::<Seq<char>, i32>(url@),
        begin_extract_spec(v, CText::Text(url), false).0 == v,
{
}

/// An init argument given as valid UTF-8 text is decoded to exactly that
/// text, whatever its characters; a null argument decodes to the empty
/// string.
pub proof fn lemma_init_arguments_pass_through(s: String)
    ensures
        text_or_empty(CText::Text(s)) == s@,
        text_or_empty(CText::Null) == Seq::<char>::empty(),
{
}

} // verus!
