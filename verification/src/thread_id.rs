//! Thread ids: parsing a client's text as a UUID and writing it in the
//! canonical hyphenated lower-case form, and the JSON-RPC errors that a
//! request is refused with.
use vstd::prelude::*;
use vstd::string::StringExecFns;
use crate::text::{append_chars, slice_chars};

verus! {

/// The JSON-RPC error code of a request that is not valid.
pub const INVALID_REQUEST_ERROR_CODE: i64 = -32600;

/// The JSON-RPC error code of a failure on the server's side.
pub const INTERNAL_ERROR_CODE: i64 = -32603;

/// An error answered to a JSON-RPC request.
#[derive(Debug, Clone, PartialEq, Eq)]
pub struct JsonRpcError {
    pub code: i64,
    pub message: String,
}

pub struct JsonRpcErrorView {
    pub code: i64,
    pub message: Seq<char>,
}

impl View for JsonRpcError {
    type V = JsonRpcErrorView;

    open spec fn view(&self) -> JsonRpcErrorView {
        JsonRpcErrorView { code: self.code, message: self.message@ }
    }
}

/// The error for a request that is not valid, with the given message.
pub fn invalid_request(message: String) -> (e: JsonRpcError)
    ensures
        e@ == (JsonRpcErrorView { code: INVALID_REQUEST_ERROR_CODE, message: message@ }),
{
    JsonRpcError { code: INVALID_REQUEST_ERROR_CODE, message }
}

/// The error for a failure on the server's side, with the given message.
pub fn internal_error(message: String) -> (e: JsonRpcError)
    ensures
        e@ == (JsonRpcErrorView { code: INTERNAL_ERROR_CODE, message: message@ }),
{
    JsonRpcError { code: INTERNAL_ERROR_CODE, message }
}

/// What `uuid::Uuid::parse_str` gives for a text: the 128-bit value of the
/// UUID it reads, or the text that its error displays.
pub uninterp spec fn uuid_parse_outcome(text: Seq<char>) -> Result<u128, Seq<char>>;

/// A parse outcome with its error text as a character sequence.
pub open spec fn outcome_text(r: Result<u128, String>) -> Result<u128, Seq<char>> {
    match r {
        Ok(v) => Ok(v),
        Err(e) => Err(e@),
    }
}

/// Trusted: calls `uuid::Uuid::parse_str` on `text`, and hands back the
/// parsed UUID as its 128-bit value (`Uuid::as_u128`, big-endian) or the
/// error's display text. The contract claims that this outcome is the one
/// `uuid_parse_outcome` names for the text (it depends on the text alone),
/// and that a text in the canonical hyphenated lower-case form of a value
/// parses to that value (`parse_hyphenated` reads the 32 hex digits around
/// hyphens at 8, 13, 18 and 23, most significant first). Which other texts
/// parse, and the error texts, are left unsaid.
#[verifier::external_body]
fn uuid_parse_str(text: &str) -> (r: Result<u128, String>)
    ensures
        outcome_text(r) == uuid_parse_outcome(text@),
        is_canonical_uuid_text(text@) ==> r is Ok && hyphenated(r->Ok_0) == text@,
{
    match uuid::Uuid::parse_str(text) {
        Ok(u) => Ok(u.as_u128()),
        Err(e) => Err(e.to_string()),
    }
}

/// The lower-case hexadecimal digit for `d` (below 16).
pub open spec fn hex_digit(d: nat) -> char {
    if d < 10 {
        ((d + 48) as u8) as char
    } else {
        ((d + 87) as u8) as char
    }
}

/// The last `n` hexadecimal digits of `v`, most significant first.
pub open spec fn hex_digits(v: nat, n: nat) -> Seq<char>
    decreases n,
{
    if n == 0 {
        Seq::empty()
    } else {
        hex_digits(v / 16, (n - 1) as nat).push(hex_digit(v % 16))
    }
}

/// The canonical text of a UUID: its 32 lower-case hexadecimal digits in
/// groups of 8, 4, 4, 4 and 12, separated by `-`.
pub open spec fn hyphenated(v: u128) -> Seq<char> {
    let h = hex_digits(v as nat, 32);
    h.subrange(0, 8) + seq!['-'] + h.subrange(8, 12) + seq!['-'] + h.subrange(12, 16) + seq!['-']
        + h.subrange(16, 20) + seq!['-'] + h.subrange(20, 32)
}

/// Whether a text is the canonical hyphenated lower-case form of some UUID.
pub open spec fn is_canonical_uuid_text(text: Seq<char>) -> bool {
    exists|v: u128| #[trigger] hyphenated(v) == text
}

/// The message of a refused thread id.
pub open spec fn invalid_thread_id_message(err: Seq<char>) -> Seq<char> {
    "invalid thread id: "@ + err
}

/// What a thread id is, given what `uuid` made of its text: the canonical
/// text of the parsed value, or the refusal naming the parse error.
pub open spec fn thread_id_of_outcome(outcome: Result<u128, Seq<char>>) -> Result<
    Seq<char>,
    JsonRpcErrorView,
> {
    match outcome {
        Ok(v) => Ok(hyphenated(v)),
        Err(e) => Err(
            JsonRpcErrorView {
                code: INVALID_REQUEST_ERROR_CODE,
                message: invalid_thread_id_message(e),
            },
        ),
    }
}

/// What parsing a thread id gives: its canonical text, or the refusal.
pub open spec fn parsed_thread_id(text: Seq<char>) -> Result<Seq<char>, JsonRpcErrorView> {
    thread_id_of_outcome(uuid_parse_outcome(text))
}

pub open spec fn thread_id_result_view(r: Result<String, JsonRpcError>) -> Result<
    Seq<char>,
    JsonRpcErrorView,
> {
    match r {
        Ok(s) => Ok(s@),
        Err(e) => Err(e@),
    }
}

pub proof fn lemma_hex_digits_len(v: nat, n: nat)
    ensures
        hex_digits(v, n).len() == n,
    decreases n,
{
    if n > 0 {
        lemma_hex_digits_len(v / 16, (n - 1) as nat);
    }
}

/// Appends the last `n` hexadecimal digits of `v` to `out`.
fn push_hex_digits(v: u128, n: usize, out: &mut Vec<char>)
    ensures
        final(out)@ == old(out)@ + hex_digits(v as nat, n as nat),
    decreases n,
{
    if n == 0 {
        assert(old(out)@ + hex_digits(v as nat, 0) =~= old(out)@);
    } else {
        push_hex_digits(v / 16, n - 1, out);
        let d = (v % 16) as u8;
        let c = if d < 10 {
            (48u8 + d) as char
        } else {
            (87u8 + d) as char
        };
        out.push(c);
        assert(out@ =~= old(out)@ + hex_digits(v as nat, n as nat));
    }
}

/// The canonical text of a UUID value.
pub fn hyphenated_text(v: u128) -> (s: String)
    ensures
        s@ == hyphenated(v),
{
    let mut digits: Vec<char> = Vec::new();
    push_hex_digits(v, 32, &mut digits);
    proof {
        lemma_hex_digits_len(v as nat, 32);
    }
    assert(digits@ =~= hex_digits(v as nat, 32));
    let mut out = slice_chars(&digits, 0, 8);
    out.push('-');
    let g1 = slice_chars(&digits, 8, 12);
    append_chars(&mut out, &g1);
    out.push('-');
    let g2 = slice_chars(&digits, 12, 16);
    append_chars(&mut out, &g2);
    out.push('-');
    let g3 = slice_chars(&digits, 16, 20);
    append_chars(&mut out, &g3);
    out.push('-');
    let g4 = slice_chars(&digits, 20, 32);
    append_chars(&mut out, &g4);
    assert(out@ =~= hyphenated(v));
    crate::text::from_chars(&out)
}

/// A thread id from what `uuid` made of its text: the canonical text of the
/// parsed value, or the invalid-request error that quotes the parse error.
pub fn thread_id_from_uuid_outcome(outcome: Result<u128, String>) -> (r: Result<
    String,
    JsonRpcError,
>)
    ensures
        thread_id_result_view(r) == thread_id_of_outcome(outcome_text(outcome)),
{
    match outcome {
        Ok(v) => Ok(hyphenated_text(v)),
        Err(e) => {
            let message = String::from_str("invalid thread id: ").concat(e.as_str());
            Err(invalid_request(message))
        },
    }
}

/// A thread id in its canonical text, or the invalid-request error that
/// names what `uuid` found wrong with it.
pub fn parse_thread_id(thread_id: &str) -> (r: Result<String, JsonRpcError>)
    ensures
        match r {
            Ok(s) => parsed_thread_id(thread_id@) == Ok::<Seq<char>, JsonRpcErrorView>(s@),
            Err(e) => parsed_thread_id(thread_id@) == Err::<Seq<char>, JsonRpcErrorView>(e@),
        },
        is_canonical_uuid_text(thread_id@) ==> (r matches Ok(s) && s@ == thread_id@),
{
    thread_id_from_uuid_outcome(uuid_parse_str(thread_id))
}

} // verus!
