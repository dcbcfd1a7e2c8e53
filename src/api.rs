use vstd::prelude::*;

use crate::broker::{JobKind, PollOutcome, RequestId};
use crate::objects::SourceConfig;
use crate::types::{ErrorKind, Scope};

verus! {

/// Query parameters of a symbolication request.
pub struct SymbolicateParams {
    /// How long to wait for the result before answering "still running".
    pub timeout: Option<u64>,
    pub scope: Scope,
}

impl SymbolicateParams {
    /// No timeout, global scope.
    pub fn new() -> (r: SymbolicateParams)
        ensures
            r.timeout is None,
            r.scope is Global,
    {
        SymbolicateParams { timeout: None, scope: Scope::Global }
    }
}

/// Marker for a request the service cannot take on right now.
#[derive(Clone, Copy, Debug, PartialEq, Eq, Structural)]
pub struct ServiceUnavailable;

/// An error response from an api.
pub struct ApiErrorResponse {
    detail: Option<String>,
    causes: Option<Vec<String>>,
}

impl ApiErrorResponse {
    pub closed spec fn detail_view(&self) -> Option<Seq<char>> {
        match self.detail {
            Some(d) => Some(d@),
            None => None,
        }
    }

    pub closed spec fn has_causes(&self) -> bool {
        self.causes is Some
    }

    /// Creates an error response with a detail message
    pub fn with_detail(s: &str) -> (r: ApiErrorResponse)
        ensures
            r.detail_view() == Some(s@),
            !r.has_causes(),
    {
        ApiErrorResponse { detail: Some(s.to_owned()), causes: None }
    }

    pub fn detail(&self) -> (r: Option<&String>)
        ensures
            match r {
                Some(d) => self.detail_view() == Some(d@),
                None => self.detail_view() is None,
            },
    {
        self.detail.as_ref()
    }

    pub fn causes(&self) -> (r: Option<&Vec<String>>)
        ensures
            r is Some <==> self.has_causes(),
    {
        self.causes.as_ref()
    }
}

/// HTTP status for the outcome of a poll: 200 with the result (also when the
/// job failed: the failure is the payload), 503 while the job is still
/// running, so that the client retries, and 404 for an unknown or evicted id.
pub fn poll_status(outcome: &PollOutcome) -> (r: u16)
    ensures
        r == match outcome {
            PollOutcome::Ready(_) => 200u16,
            PollOutcome::StillRunning => 503u16,
            PollOutcome::Unknown => 404u16,
        },
{
    match outcome {
        PollOutcome::Ready(_) => 200,
        PollOutcome::StillRunning => 503,
        PollOutcome::Unknown => 404,
    }
}

/// HTTP status for a failure of the service itself.
pub fn error_status(e: ErrorKind) -> (r: u16)
    ensures
        r == match e {
            ErrorKind::NotFound => 404u16,
            ErrorKind::StillProcessing => 503u16,
            ErrorKind::Overloaded => 503u16,
            ErrorKind::BackendUnavailable => 502u16,
            ErrorKind::MalformedInput => 400u16,
        },
{
    match e {
        ErrorKind::NotFound => 404,
        ErrorKind::StillProcessing => 503,
        ErrorKind::Overloaded => 503,
        ErrorKind::BackendUnavailable => 502,
        ErrorKind::MalformedInput => 400,
    }
}

/// What a part of an upload form carries.
#[derive(Clone, Copy, Debug, PartialEq, Eq, Structural)]
pub enum PartRole {
    /// The artifact to symbolicate.
    Artifact,
    /// JSON list of sources replacing the default ones.
    Sources,
    /// JSON request options.
    Options,
    /// Unknown fields are always ignored.
    Ignored,
}

/// Name of the form field that carries the artifact of a job kind.
pub open spec fn artifact_field(kind: JobKind) -> Seq<char> {
    match kind {
        JobKind::Minidump => "upload_file_minidump"@,
        JobKind::AppleCrashReport => "apple_crash_report"@,
        JobKind::RawStacktrace => "stacktraces"@,
    }
}

pub open spec fn part_role_spec(name: Seq<char>, kind: JobKind) -> PartRole {
    if name == artifact_field(kind) {
        PartRole::Artifact
    } else if name == "sources"@ {
        PartRole::Sources
    } else if name == "options"@ {
        PartRole::Options
    } else {
        PartRole::Ignored
    }
}

fn text_eq(a: &str, b: &str) -> (r: bool)
    ensures
        r == (a@ == b@),
{
    let n = a.unicode_len();
    if n != b.unicode_len() {
        return false;
    }
    let mut k: usize = 0;
    while k < n
        invariant
            n == a@.len(),
            n == b@.len(),
            k <= n,
            forall|q: int| 0 <= q < k ==> a@[q] == b@[q],
        decreases n - k,
    {
        if a.get_char(k) != b.get_char(k) {
            return false;
        }
        k += 1;
    }
    assert(a@ =~= b@);
    true
}

/// Classifies a form field of an upload for a job of `kind`.
pub fn part_role(name: &str, kind: JobKind) -> (r: PartRole)
    ensures
        r == part_role_spec(name@, kind),
{
    let field = match kind {
        JobKind::Minidump => "upload_file_minidump",
        JobKind::AppleCrashReport => "apple_crash_report",
        JobKind::RawStacktrace => "stacktraces",
    };
    if text_eq(name, field) {
        PartRole::Artifact
    } else if text_eq(name, "sources") {
        PartRole::Sources
    } else if text_eq(name, "options") {
        PartRole::Options
    } else {
        PartRole::Ignored
    }
}

/// The artifact of an upload, or a client error when the form had none.
pub fn require_artifact(artifact: Option<Vec<u8>>) -> (r: Result<Vec<u8>, ErrorKind>)
    ensures
        match artifact {
            Some(a) => r == Ok::<Vec<u8>, ErrorKind>(a),
            None => r == Err::<Vec<u8>, ErrorKind>(ErrorKind::MalformedInput),
        },
{
    match artifact {
        Some(a) => Ok(a),
        None => Err(ErrorKind::MalformedInput),
    }
}

/// The sources a request names, or the configured defaults when it names none.
pub fn choose_sources(requested: Option<Vec<SourceConfig>>, defaults: Vec<SourceConfig>) -> (r: Vec<
    SourceConfig,
>)
    ensures
        match requested {
            Some(s) => r@ == s@,
            None => r@ == defaults@,
        },
{
    match requested {
        Some(s) => s,
        None => defaults,
    }
}

/// Value of a decimal digit string.
pub open spec fn decimal_value(s: Seq<char>) -> int
    decreases s.len(),
{
    if s.len() == 0 {
        0
    } else {
        10 * decimal_value(s.drop_last()) + (s.last() as int - '0' as int)
    }
}

pub open spec fn is_digit(c: char) -> bool {
    '0' <= c && c <= '9'
}

proof fn lemma_decimal_grows(s: Seq<char>, k: int)
    requires
        0 <= k <= s.len(),
        forall|q: int| 0 <= q < s.len() ==> is_digit(#[trigger] s[q]),
    ensures
        decimal_value(s.subrange(0, k)) <= decimal_value(s),
        0 <= decimal_value(s.subrange(0, k)),
    decreases s.len() - k,
{
    if k < s.len() {
        lemma_decimal_grows(s, k + 1);
        assert(s.subrange(0, k + 1).drop_last() =~= s.subrange(0, k));
    } else {
        assert(s.subrange(0, k) =~= s);
        lemma_decimal_nonneg(s);
    }
}

proof fn lemma_decimal_nonneg(s: Seq<char>)
    requires
        forall|q: int| 0 <= q < s.len() ==> is_digit(#[trigger] s[q]),
    ensures
        0 <= decimal_value(s),
    decreases s.len(),
{
    if s.len() > 0 {
        lemma_decimal_nonneg(s.drop_last());
    }
}

pub open spec fn digit_char(d: nat) -> char {
    seq!['0', '1', '2', '3', '4', '5', '6', '7', '8', '9'][d as int]
}

/// Decimal spelling of `v`, without sign or leading zeros.
pub open spec fn decimal_text(v: nat) -> Seq<char>
    decreases v,
{
    if v < 10 {
        seq![digit_char(v)]
    } else {
        decimal_text(v / 10).push(digit_char(v % 10))
    }
}

/// Relies on the `Display` impl of `u64` (through `ToString`): it writes the
/// value in decimal, without sign or leading zeros.
#[verifier::external_body]
fn decimal_string(v: u64) -> (r: String)
    ensures
        r@ == decimal_text(v as nat),
{
    v.to_string()
}

impl RequestId {
    /// The text form of the id, used as a URL path segment.
    pub fn to_text(&self) -> (r: String)
        ensures
            r@ == decimal_text(self.value as nat),
    {
        decimal_string(self.value)
    }
}

proof fn lemma_digit(d: nat)
    requires
        d < 10,
    ensures
        is_digit(digit_char(d)),
        digit_char(d) as int - '0' as int == d,
{
    let t = seq!['0', '1', '2', '3', '4', '5', '6', '7', '8', '9'];
    assert(digit_char(d) == t[d as int]);
    if d == 0 {
        assert(t[0] == '0');
    } else if d == 1 {
        assert(t[1] == '1');
    } else if d == 2 {
        assert(t[2] == '2');
    } else if d == 3 {
        assert(t[3] == '3');
    } else if d == 4 {
        assert(t[4] == '4');
    } else if d == 5 {
        assert(t[5] == '5');
    } else if d == 6 {
        assert(t[6] == '6');
    } else if d == 7 {
        assert(t[7] == '7');
    } else if d == 8 {
        assert(t[8] == '8');
    } else {
        assert(t[9] == '9');
    }
}

/// The text form of a request id reads back as the same id: it is a
/// non-empty digit string whose decimal value is the id.
pub proof fn lemma_request_id_text_round_trip(v: nat)
    ensures
        decimal_text(v).len() > 0,
        forall|q: int| 0 <= q < decimal_text(v).len() ==> is_digit(#[trigger] decimal_text(v)[q]),
        decimal_value(decimal_text(v)) == v,
    decreases v,
{
    if v < 10 {
        lemma_digit(v);
        assert(decimal_text(v).drop_last() =~= Seq::<char>::empty());
        assert(decimal_value(Seq::<char>::empty()) == 0);
        assert(decimal_text(v).last() == digit_char(v));
    } else {
        lemma_request_id_text_round_trip(v / 10);
        lemma_digit(v % 10);
        let s = decimal_text(v);
        assert(s.drop_last() =~= decimal_text(v / 10));
        assert(s.last() == digit_char(v % 10));
        assert(decimal_value(s) == 10 * decimal_value(s.drop_last()) + (s.last() as int - '0' as int));
        assert(10 * (v / 10) + v % 10 == v);
        assert forall|q: int| 0 <= q < s.len() implies is_digit(#[trigger] s[q]) by {
            if q < s.len() - 1 {
                assert(s[q] == decimal_text(v / 10)[q]);
            }
        }
    }
}

/// Reads a request id from its text form, a non-empty string of decimal
/// digits whose value fits 64 bits.
pub fn parse_request_id(text: &str) -> (r: Option<RequestId>)
    ensures
        r is Some <==> (text@.len() > 0 && (forall|q: int|
            0 <= q < text@.len() ==> is_digit(#[trigger] text@[q])) && decimal_value(text@)
            <= u64::MAX),
        match r {
            Some(id) => id.value == decimal_value(text@),
            None => true,
        },
{
    let n = text.unicode_len();
    if n == 0 {
        return None;
    }
    let mut value: u64 = 0;
    let mut k: usize = 0;
    while k < n
        invariant
            n == text@.len(),
            k <= n,
            forall|q: int| 0 <= q < k ==> is_digit(#[trigger] text@[q]),
            value == decimal_value(text@.subrange(0, k as int)),
        decreases n - k,
    {
        let c = text.get_char(k);
        if !('0' <= c && c <= '9') {
            return None;
        }
        let d = (c as u32 - '0' as u32) as u64;
        proof {
            assert(text@.subrange(0, k + 1).drop_last() =~= text@.subrange(0, k as int));
        }
        if value > (u64::MAX - d) / 10 {
            proof {
                assert(decimal_value(text@.subrange(0, k + 1)) > u64::MAX);
                if forall|q: int| 0 <= q < text@.len() ==> is_digit(#[trigger] text@[q]) {
                    lemma_decimal_grows(text@, k + 1);
                }
            }
            return None;
        }
        value = value * 10 + d;
        k += 1;
    }
    proof {
        assert(text@.subrange(0, n as int) =~= text@);
    }
    Some(RequestId { value })
}

} // verus!
