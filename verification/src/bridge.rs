//! The REAPER file-IPC protocol: request ids, request framing, heartbeat
//! freshness, and the decisions of one request/response exchange. The
//! caller does the file reads, writes and sleeps.

use vstd::prelude::*;
use crate::text::{decimal, decimal_string, digit_char, lemma_decimal_injective};

verus! {

/// A lowercase hexadecimal digit.
pub open spec fn is_lower_hex(c: char) -> bool {
    ('0' <= c <= '9') || ('a' <= c <= 'f')
}

/// `uuid::Uuid::new_v4()` written with `Uuid::simple()`'s `Display`: the
/// contract claims the 32 lowercase hexadecimal digits that this format
/// always has; which digits come is random and not stated. The call panics
/// only when the operating system gives no random bytes.
#[verifier::external_body]
fn random_uuid_simple() -> (res: String)
    ensures
        res@.len() == 32,
        forall|i: int| 0 <= i < 32 ==> is_lower_hex(#[trigger] res@[i]),
{
    uuid::Uuid::new_v4().simple().to_string()
}

/// The id a request gets: the client's id, a dash, the request's number.
pub open spec fn request_id(client: Seq<char>, n: nat) -> Seq<char> {
    client + "-"@ + decimal(n)
}

/// The name of the file a request is written to.
pub open spec fn request_file_name(id: Seq<char>) -> Seq<char> {
    "req_"@ + id + ".json"@
}

/// The name of the file the bridge answers a request in.
pub open spec fn response_file_name(id: Seq<char>) -> Seq<char> {
    "resp_"@ + id + ".json"@
}

/// A client id: eight lowercase hexadecimal digits.
pub open spec fn valid_client_id(id: Seq<char>) -> bool {
    id.len() == 8 && forall|i: int| 0 <= i < 8 ==> is_lower_hex(#[trigger] id[i])
}

/// One client's numbering of its requests to the bridge. The client id is
/// random per session, so that two clients sharing one bridge directory do
/// not pick the same file names.
pub struct BridgeSession {
    client_id: String,
    counter: u64,
}

impl View for BridgeSession {
    /// The client id and the number of requests made so far.
    type V = (Seq<char>, nat);

    closed spec fn view(&self) -> (Seq<char>, nat) {
        (self.client_id@, self.counter as nat)
    }
}

/// The ids and file names of one request.
#[derive(Clone, Debug)]
pub struct RequestIds {
    pub id: String,
    pub request_file: String,
    pub response_file: String,
}

impl BridgeSession {
    /// A session with a fresh random client id and no request made yet.
    pub fn new() -> (res: Self)
        ensures
            valid_client_id(res@.0),
            res@.1 == 0,
    {
        let full = random_uuid_simple();
        Self::from_uuid_simple(full.as_str())
    }

    /// A session whose client id is the first eight digits of `full`, a UUID
    /// written in simple form, with no request made yet.
    pub fn from_uuid_simple(full: &str) -> (res: Self)
        requires
            full@.len() == 32,
            forall|i: int| 0 <= i < 32 ==> is_lower_hex(#[trigger] full@[i]),
        ensures
            res@.0 == full@.subrange(0, 8),
            res@.1 == 0,
            valid_client_id(res@.0),
    {
        proof {
            assert(vstd::utf8::is_ascii_chars(full@)) by {
                assert forall|i: int| 0 <= i < full@.len() implies '\0' <= #[trigger] full@[i]
                    <= '\u{7f}' by {
                    assert(is_lower_hex(full@[i]));
                }
            }
        }
        let short = full.substring_ascii(0, 8);
        let client_id = String::from_str(short);
        proof {
            assert forall|i: int| 0 <= i < 8 implies is_lower_hex(#[trigger] client_id@[i]) by {
                assert(client_id@[i] == full@[i]);
            }
        }
        BridgeSession { client_id, counter: 0 }
    }

    /// This session's client id.
    pub fn client_id(&self) -> (res: &str)
        ensures
            res@ == self@.0,
    {
        self.client_id.as_str()
    }

    /// The number of requests made so far.
    pub fn counter(&self) -> (res: u64)
        ensures
            res == self@.1,
    {
        self.counter
    }

    /// Numbers the next request and names its files.
    pub fn next_request(&mut self) -> (res: RequestIds)
        requires
            old(self)@.1 < u64::MAX,
        ensures
            final(self)@.0 == old(self)@.0,
            final(self)@.1 == old(self)@.1 + 1,
            res.id@ == request_id(old(self)@.0, final(self)@.1),
            res.request_file@ == request_file_name(res.id@),
            res.response_file@ == response_file_name(res.id@),
    {
        self.counter = self.counter + 1;
        let mut id = self.client_id.clone();
        id.append("-");
        let n = decimal_string(self.counter);
        id.append(n.as_str());
        let mut request_file = String::from_str("req_");
        request_file.append(id.as_str());
        request_file.append(".json");
        let mut response_file = String::from_str("resp_");
        response_file.append(id.as_str());
        response_file.append(".json");
        RequestIds { id, request_file, response_file }
    }
}

/// Request ids never collide: two ids are equal only when both the client
/// ids (neither holding a dash) and the request numbers are.
pub proof fn lemma_request_ids_collide_only_when_equal(
    c1: Seq<char>,
    c2: Seq<char>,
    a: nat,
    b: nat,
)
    requires
        forall|i: int| 0 <= i < c1.len() ==> #[trigger] c1[i] != '-',
        forall|i: int| 0 <= i < c2.len() ==> #[trigger] c2[i] != '-',
        request_id(c1, a) == request_id(c2, b),
    ensures
        c1 == c2,
        a == b,
{
    reveal_strlit("-");
    let id = request_id(c1, a);
    assert(id[c1.len() as int] == '-');
    assert(request_id(c2, b)[c2.len() as int] == '-');
    if c1.len() < c2.len() {
        assert(id[c1.len() as int] == c2[c1.len() as int]);
    } else if c2.len() < c1.len() {
        assert(id[c2.len() as int] == c1[c2.len() as int]);
    }
    assert(c1 =~= id.subrange(0, c1.len() as int));
    assert(c2 =~= request_id(c2, b).subrange(0, c2.len() as int));
    assert(decimal(a) =~= id.subrange(c1.len() + 1int, id.len() as int));
    assert(decimal(b) =~= request_id(c2, b).subrange(c2.len() + 1int, id.len() as int));
    lemma_decimal_injective(a, b);
}

/// A valid client id holds no dash.
pub proof fn lemma_client_id_has_no_dash(id: Seq<char>)
    requires
        valid_client_id(id),
    ensures
        forall|i: int| 0 <= i < id.len() ==> #[trigger] id[i] != '-',
{
    assert forall|i: int| 0 <= i < id.len() implies #[trigger] id[i] != '-' by {
        assert(is_lower_hex(id[i]));
    }
}

/// Two clients sharing a bridge directory never name a request alike:
/// requests of sessions with different client ids, or different requests of
/// one session, get different ids and so different files.
#[verifier::spinoff_prover]
pub proof fn lemma_sessions_never_collide(c1: Seq<char>, c2: Seq<char>, a: nat, b: nat)
    requires
        valid_client_id(c1),
        valid_client_id(c2),
        c1 != c2 || a != b,
    ensures
        request_id(c1, a) != request_id(c2, b),
        request_file_name(request_id(c1, a)) != request_file_name(request_id(c2, b)),
        response_file_name(request_id(c1, a)) != response_file_name(request_id(c2, b)),
{
    lemma_client_id_has_no_dash(c1);
    lemma_client_id_has_no_dash(c2);
    if request_id(c1, a) == request_id(c2, b) {
        lemma_request_ids_collide_only_when_equal(c1, c2, a, b);
    }
    let i1 = request_id(c1, a);
    let i2 = request_id(c2, b);
    if request_file_name(i1) == request_file_name(i2) {
        reveal_strlit("req_");
        reveal_strlit(".json");
        assert(request_file_name(i1).len() == 9 + i1.len());
        assert(request_file_name(i2).len() == 9 + i2.len());
        assert(i1 =~= request_file_name(i1).subrange(4, 4 + i1.len() as int));
        assert(i2 =~= request_file_name(i2).subrange(4, 4 + i2.len() as int));
        assert(i1 == i2);
    }
    if response_file_name(i1) == response_file_name(i2) {
        reveal_strlit("resp_");
        reveal_strlit(".json");
        assert(response_file_name(i1).len() == 10 + i1.len());
        assert(response_file_name(i2).len() == 10 + i2.len());
        assert(i1 =~= response_file_name(i1).subrange(5, 5 + i1.len() as int));
        assert(i2 =~= response_file_name(i2).subrange(5, 5 + i2.len() as int));
        assert(i1 == i2);
    }
}

/// The lowercase hexadecimal digit for `d < 16`.
pub open spec fn hex_digit(d: nat) -> char {
    if d < 10 {
        digit_char(d)
    } else if d == 10 {
        'a'
    } else if d == 11 {
        'b'
    } else if d == 12 {
        'c'
    } else if d == 13 {
        'd'
    } else if d == 14 {
        'e'
    } else {
        'f'
    }
}

/// How one character is written inside a JSON string.
pub open spec fn json_escape_char(c: char) -> Seq<char> {
    if c == '"' {
        seq!['\\', '"']
    } else if c == '\\' {
        seq!['\\', '\\']
    } else if c == '\u{8}' {
        seq!['\\', 'b']
    } else if c == '\u{c}' {
        seq!['\\', 'f']
    } else if c == '\n' {
        seq!['\\', 'n']
    } else if c == '\r' {
        seq!['\\', 'r']
    } else if c == '\t' {
        seq!['\\', 't']
    } else if (c as u32) < 0x20 {
        seq!['\\', 'u', '0', '0', hex_digit((c as u32 / 16) as nat), hex_digit((c as u32 % 16) as nat)]
    } else {
        seq![c]
    }
}

/// The characters of `s` escaped for a JSON string.
pub open spec fn json_escape(s: Seq<char>) -> Seq<char>
    decreases s.len(),
{
    if s.len() == 0 {
        seq![]
    } else {
        json_escape(s.drop_last()) + json_escape_char(s.last())
    }
}

/// `s` as a JSON string literal.
pub open spec fn json_string_literal(s: Seq<char>) -> Seq<char> {
    seq!['"'] + json_escape(s) + seq!['"']
}

/// `serde_json::to_string` on a string slice: the contract claims the JSON
/// string literal serde_json's compact formatter writes, quotes around the
/// text with `"`, `\`, and the control characters below U+0020 escaped
/// (the short forms where JSON has one, else `\u00` and two lowercase hex
/// digits), every other character as it is. Serializing a string slice
/// cannot fail.
#[verifier::external_body]
fn json_string(s: &str) -> (res: String)
    ensures
        res@ == json_string_literal(s@),
{
    serde_json::to_string(s).unwrap_or_default()
}

/// The request file's content: a JSON object with the request's `args`
/// (given as JSON text), `id` and `op`, keys in sorted order, the order
/// serde_json writes an object in while its `preserve_order` feature is
/// off (no dependency of this crate turns it on).
pub open spec fn request_payload_text(id: Seq<char>, op: Seq<char>, args_json: Seq<char>) -> Seq<
    char,
> {
    "{\"args\":"@ + args_json + ",\"id\":"@ + json_string_literal(id) + ",\"op\":"@
        + json_string_literal(op) + "}"@
}

/// Frames a request for the bridge.
pub fn request_payload(id: &str, op: &str, args_json: &str) -> (res: String)
    ensures
        res@ == request_payload_text(id@, op@, args_json@),
{
    let mut res = String::from_str("{\"args\":");
    res.append(args_json);
    res.append(",\"id\":");
    let quoted_id = json_string(id);
    res.append(quoted_id.as_str());
    res.append(",\"op\":");
    let quoted_op = json_string(op);
    res.append(quoted_op.as_str());
    res.append("}");
    res
}

/// How long the heartbeat file may go untouched, in nanoseconds, before the
/// bridge counts as gone: two seconds.
pub const HEARTBEAT_STALE_AFTER_NANOS: u128 = 2_000_000_000;

/// Whether the bridge is alive, given how long ago its heartbeat file was
/// touched (`None` when the file or its time cannot be read, or the time
/// lies in the future).
pub fn heartbeat_fresh(age_nanos: Option<u128>) -> (res: bool)
    ensures
        res == (age_nanos matches Some(a) && a < 2_000_000_000),
{
    match age_nanos {
        Some(a) => a < HEARTBEAT_STALE_AFTER_NANOS,
        None => false,
    }
}

/// The error when the heartbeat file at `heartbeat_path` is missing or stale.
pub open spec fn heartbeat_missing_text(heartbeat_path: Seq<char>) -> Seq<char> {
    "REAPER bridge heartbeat not found or stale at "@ + heartbeat_path
        + ". Is REAPER running with reaper_bridge.lua loaded (Actions -> Show action list -> run reaper_bridge.lua)?"@
}

/// The error when the heartbeat file at `heartbeat_path` is missing or stale.
pub fn heartbeat_missing_message(heartbeat_path: &str) -> (res: String)
    ensures
        res@ == heartbeat_missing_text(heartbeat_path@),
{
    let mut res = String::from_str("REAPER bridge heartbeat not found or stale at ");
    res.append(heartbeat_path);
    res.append(
        ". Is REAPER running with reaper_bridge.lua loaded (Actions -> Show action list -> run reaper_bridge.lua)?",
    );
    res
}

/// What to do next while waiting for a response file.
#[derive(Debug)]
pub enum PollStep {
    /// Sleep one poll interval, then look again.
    Sleep,
    /// The response arrived with this content: remove the file and read it.
    Respond(String),
    /// The deadline passed: fail with this message.
    TimedOut(String),
}

/// The error when no response came before the deadline.
pub open spec fn timed_out_text(op: Seq<char>, id: Seq<char>) -> Seq<char> {
    "timed out waiting for bridge response to op '"@ + op + "' (id="@ + id + ")"@
}

/// One look at the response file. `response` is `None` when the file does
/// not exist, `Some(None)` when it exists but could not be read (yet), and
/// `Some(Some(content))` when it was read. A read response is answered
/// whatever the time; otherwise the call sleeps until the deadline passes
/// and then times out, so every call ends by its deadline.
pub fn poll_step(op: &str, id: &str, response: Option<Option<String>>, deadline_passed: bool) -> (res:
    PollStep)
    ensures
        match response {
            Some(Some(c)) => res matches PollStep::Respond(r) && r@ == c@,
            _ => if deadline_passed {
                res matches PollStep::TimedOut(m) && m@ == timed_out_text(op@, id@)
            } else {
                res is Sleep
            },
        },
        deadline_passed ==> !(res is Sleep),
{
    match response {
        Some(Some(c)) => PollStep::Respond(c),
        _ => if deadline_passed {
            let mut m = String::from_str("timed out waiting for bridge response to op '");
            m.append(op);
            m.append("' (id=");
            m.append(id);
            m.append(")");
            PollStep::TimedOut(m)
        } else {
            PollStep::Sleep
        },
    }
}

/// Names the text `{:?}` writes for a string slice (std's `Debug`): the
/// string quoted, with escapes for quotes, backslashes and characters
/// std's Unicode tables count as not printable.
pub uninterp spec fn debug_quoted(s: Seq<char>) -> Seq<char>;

/// `format!("{:?}", s)` on a string slice (std): the contract says only
/// that the result is the named debug text of the argument.
#[verifier::external_body]
fn debug_string(s: &str) -> (res: String)
    ensures
        res@ == debug_quoted(s@),
{
    format!("{:?}", s)
}

/// Names the JSON text of member `key` of what `content` parses to as
/// JSON: `None` when it is not JSON, `Some(None)` when it is no object or
/// has no such member, `Some(Some(text))` with the member written back as
/// JSON otherwise.
pub uninterp spec fn json_member_text(content: Seq<char>, key: Seq<char>) -> Option<
    Option<Seq<char>>,
>;

/// Names the boolean member `key` of what `content` parses to as JSON:
/// `None` when it is not JSON, `Some(None)` when it is no object, has no
/// such member or the member is no boolean, `Some(Some(b))` otherwise.
pub uninterp spec fn json_member_bool_value(content: Seq<char>, key: Seq<char>) -> Option<
    Option<bool>,
>;

/// An optional optional string by its characters.
pub open spec fn opt_opt_text(o: Option<Option<String>>) -> Option<Option<Seq<char>>> {
    match o {
        Some(inner) => Some(opt_text(inner)),
        None => None,
    }
}

/// `serde_json::from_str` into a `serde_json::Value`, then `Value::get`
/// with `key` and the member written back with `Value`'s `Display`: the
/// contract says only that the result is the named member text.
#[verifier::external_body]
fn json_member(content: &str, key: &str) -> (res: Option<Option<String>>)
    ensures
        opt_opt_text(res) == json_member_text(content@, key@),
{
    let value: serde_json::Value = serde_json::from_str(content).ok()?;
    Some(value.get(key).map(serde_json::Value::to_string))
}

/// `serde_json::from_str` into a `serde_json::Value`, then `Value::get`
/// with `key` and `Value::as_bool`: the contract says only that the result
/// is the named boolean member.
#[verifier::external_body]
fn json_member_bool(content: &str, key: &str) -> (res: Option<Option<bool>>)
    ensures
        res == json_member_bool_value(content@, key@),
{
    let value: serde_json::Value = serde_json::from_str(content).ok()?;
    Some(value.get(key).and_then(serde_json::Value::as_bool))
}

/// What a response file's text parses to: `None` when it is not JSON,
/// else its `ok` member when that is a boolean, and the JSON text of its
/// `error` and `result` members when they are present.
pub open spec fn bridge_response_fields(content: Seq<char>) -> Option<
    (Option<bool>, Option<Seq<char>>, Option<Seq<char>>),
> {
    match (
        json_member_bool_value(content, "ok"@),
        json_member_text(content, "error"@),
        json_member_text(content, "result"@),
    ) {
        (Some(ok), Some(error_json), Some(result_json)) => Some((ok, error_json, result_json)),
        _ => None,
    }
}

/// The members of a response that decide the outcome.
#[derive(Clone, Debug)]
pub struct ResponseFields {
    pub ok: Option<bool>,
    pub error_json: Option<String>,
    pub result_json: Option<String>,
}

impl View for ResponseFields {
    type V = (Option<bool>, Option<Seq<char>>, Option<Seq<char>>);

    open spec fn view(&self) -> Self::V {
        (self.ok, opt_text(self.error_json), opt_text(self.result_json))
    }
}

/// An optional string by its characters.
pub open spec fn opt_text(o: Option<String>) -> Option<Seq<char>> {
    match o {
        Some(s) => Some(s@),
        None => None,
    }
}

/// An optional parse by its view.
pub open spec fn fields_view(f: Option<ResponseFields>) -> Option<
    (Option<bool>, Option<Seq<char>>, Option<Seq<char>>),
> {
    match f {
        Some(r) => Some(r@),
        None => None,
    }
}

/// Reads the `ok`, `error` and `result` members of a bridge response.
pub fn parse_bridge_response(content: &str) -> (res: Option<ResponseFields>)
    ensures
        fields_view(res) == bridge_response_fields(content@),
{
    let ok_key = "ok";
    let error_key = "error";
    let result_key = "result";
    let ok = json_member_bool(content, ok_key);
    let error_json = json_member(content, error_key);
    let result_json = json_member(content, result_key);
    match (ok, error_json, result_json) {
        (Some(ok), Some(error_json), Some(result_json)) => Some(
            ResponseFields { ok, error_json, result_json },
        ),
        _ => None,
    }
}

/// The error for a response that is not JSON.
pub open spec fn malformed_text(content: Seq<char>) -> Seq<char> {
    "malformed response from bridge: "@ + debug_quoted(content)
}

/// The error for a response that reports failure.
pub open spec fn bridge_error_text(op: Seq<char>, error_json: Option<Seq<char>>) -> Seq<char> {
    "REAPER bridge error for op '"@ + op + "': "@ + match error_json {
        Some(e) => e,
        None => "null"@,
    }
}

/// What a call gives for a response with text `content` that parses to
/// `fields`: the JSON text of its `result` (`{}` when absent) when `ok` is
/// `true`; the malformed-response error when it is not JSON; the bridge's
/// error otherwise, a missing or non-boolean `ok` counting as failure.
pub open spec fn bridge_outcome(
    op: Seq<char>,
    content: Seq<char>,
    fields: Option<(Option<bool>, Option<Seq<char>>, Option<Seq<char>>)>,
) -> Result<Seq<char>, Seq<char>> {
    match fields {
        None => Err(malformed_text(content)),
        Some((ok, error_json, result_json)) => if ok == Some(true) {
            Ok(
                match result_json {
                    Some(r) => r,
                    None => "{}"@,
                },
            )
        } else {
            Err(bridge_error_text(op, error_json))
        },
    }
}

/// A call succeeds exactly when the response parses and reports `ok` as
/// `true`, and then gives the response's `result` text (`{}` when it has
/// none); a failure names the op, and a response that is not JSON fails
/// with the malformed-response error.
pub proof fn lemma_outcome_follows_ok(
    op: Seq<char>,
    content: Seq<char>,
    fields: Option<(Option<bool>, Option<Seq<char>>, Option<Seq<char>>)>,
)
    ensures
        bridge_outcome(op, content, fields) is Ok <==> (fields matches Some((ok, _, _)) && ok
            == Some(true)),
        fields matches Some((Some(true), _, Some(r))) ==> bridge_outcome(op, content, fields)
            == Ok::<Seq<char>, Seq<char>>(r),
        fields matches Some((Some(true), _, None)) ==> bridge_outcome(op, content, fields)
            == Ok::<Seq<char>, Seq<char>>("{}"@),
        fields is None ==> bridge_outcome(op, content, fields) == Err::<Seq<char>, Seq<char>>(
            "malformed response from bridge: "@ + debug_quoted(content),
        ),
        (fields matches Some((ok, _, _)) && ok != Some(true)) ==> (bridge_outcome(
            op,
            content,
            fields,
        ) matches Err(m) && m.len() >= 28 + op.len() && m.subrange(28, 28 + op.len() as int) == op),
{
    reveal_strlit("REAPER bridge error for op '");
    if let Some((ok, e, r)) = fields {
        if ok != Some(true) {
            let m = bridge_error_text(op, e);
            assert(m.subrange(28, 28 + op.len() as int) =~= op);
        }
    }
}

/// A result of strings by its characters.
pub open spec fn text_result(r: Result<String, String>) -> Result<Seq<char>, Seq<char>> {
    match r {
        Ok(s) => Ok(s@),
        Err(e) => Err(e@),
    }
}

/// The outcome of a response with text `content`, given its parse
/// (`None` when it is not JSON).
pub fn response_outcome(op: &str, content: &str, fields: &Option<ResponseFields>) -> (res: Result<
    String,
    String,
>)
    ensures
        text_result(res) == bridge_outcome(op@, content@, fields_view(*fields)),
{
    match fields {
        None => {
            let mut m = String::from_str("malformed response from bridge: ");
            let quoted = debug_string(content);
            m.append(quoted.as_str());
            Err(m)
        },
        Some(f) => {
            let ok = match f.ok {
                Some(b) => b,
                None => false,
            };
            if ok {
                match &f.result_json {
                    Some(r) => Ok(r.clone()),
                    None => {
                        proof {
                            reveal_strlit("{}");
                        }
                        Ok(String::from_str("{}"))
                    },
                }
            } else {
                let mut m = String::from_str("REAPER bridge error for op '");
                m.append(op);
                m.append("': ");
                match &f.error_json {
                    Some(e) => m.append(e.as_str()),
                    None => m.append("null"),
                }
                Err(m)
            }
        },
    }
}

/// The outcome of the response with text `content` to op `op`: the JSON
/// text of its result, or the error the call fails with.
pub fn response_result(op: &str, content: &str) -> (res: Result<String, String>)
    ensures
        text_result(res) == bridge_outcome(op@, content@, bridge_response_fields(content@)),
{
    let fields = parse_bridge_response(content);
    response_outcome(op, content, &fields)
}

} // verus!
