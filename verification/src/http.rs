//! HTTP/1.1 as the camera speaks it: one GET request for each connection, and a
//! small answer that ends where the connection does.
//!
//! An `Exchange` decides what to do with the connection; the program that owns the
//! socket does it and reports how it went, and how much time has passed.

use crate::text::append_decimal;
use crate::text::chars_of;
use crate::text::find_second_word;
use crate::text::parse_u16;
use vstd::prelude::*;
use vstd::slice::slice_subrange;
use vstd::slice::slice_to_vec;
use vstd::string::StringExecFns;

verus! {

/// The TCP port of the camera's control interface.
pub const HTTP_PORT: u16 = 8080;

/// The control interface answers with tiny JSON bodies; anything bigger is bogus.
pub const MAX_BODY: usize = 1024 * 1024;

/// An IPv4 address.
#[derive(Clone, Copy, Debug, PartialEq, Eq, Structural)]
pub struct Address {
    pub a: u8,
    pub b: u8,
    pub c: u8,
    pub d: u8,
}

/// The address in dotted decimal notation.
pub open spec fn dotted(ip: Address) -> Seq<char> {
    crate::text::decimal(ip.a as nat) + "."@ + crate::text::decimal(ip.b as nat) + "."@
        + crate::text::decimal(ip.c as nat) + "."@ + crate::text::decimal(ip.d as nat)
}

impl Address {
    /// The address in dotted decimal notation.
    pub fn text(&self) -> (s: String)
        ensures
            s@ == dotted(*self),
    {
        let mut s = String::new();
        append_decimal(&mut s, self.a as u64);
        s.append(".");
        append_decimal(&mut s, self.b as u64);
        s.append(".");
        append_decimal(&mut s, self.c as u64);
        s.append(".");
        append_decimal(&mut s, self.d as u64);
        assert(s@ =~= dotted(*self));
        s
    }
}

/// What a result with texts holds.
pub open spec fn texts(r: Result<String, String>) -> Result<Seq<char>, Seq<char>> {
    match r {
        Ok(s) => Ok(s@),
        Err(e) => Err(e@),
    }
}

// ---------------------------------------------------------------------------
// Requests
// ---------------------------------------------------------------------------

/// The text of a request for `path`. The connection is not kept open, so that the
/// answer simply runs to its end.
pub open spec fn request_text(ip: Address, path: Seq<char>) -> Seq<char> {
    "GET "@ + path + " HTTP/1.1\r\nHost: "@ + dotted(ip) + ":"@ + crate::text::decimal(
        HTTP_PORT as nat,
    ) + "\r\nConnection: close\r\n\r\n"@
}

/// Writes a request for `path`.
pub fn request(ip: Address, path: &str) -> (s: String)
    ensures
        s@ == request_text(ip, path@),
{
    let mut s = String::new();
    s.append("GET ");
    s.append(path);
    s.append(" HTTP/1.1\r\nHost: ");
    let host = ip.text();
    s.append(host.as_str());
    s.append(":");
    append_decimal(&mut s, HTTP_PORT as u64);
    s.append("\r\nConnection: close\r\n\r\n");
    assert(s@ =~= request_text(ip, path@));
    s
}

// ---------------------------------------------------------------------------
// Responses
// ---------------------------------------------------------------------------

/// The text that `String::from_utf8_lossy` makes of bytes.
pub uninterp spec fn lossy_text(bytes: Seq<u8>) -> Seq<char>;

/// Calls `String::from_utf8_lossy`, which decodes UTF-8 and puts replacement
/// characters where the bytes are not valid. The text depends on the bytes alone;
/// of valid bytes it is what they encode. Where the replacement characters stand in
/// the text of other bytes is not said.
#[verifier::external_body]
fn from_utf8_lossy(bytes: &[u8]) -> (s: String)
    ensures
        s@ == lossy_text(bytes@),
        vstd::utf8::valid_utf8(bytes@) ==> s@ == vstd::utf8::decode_utf8(bytes@),
{
    String::from_utf8_lossy(bytes).into_owned()
}

/// The empty line behind the header, with the end of the line before it, stands here.
pub open spec fn blank_line_at(raw: Seq<u8>, i: int) -> bool {
    &&& 0 <= i
    &&& i + 4 <= raw.len()
    &&& raw[i] == 13
    &&& raw[i + 1] == 10
    &&& raw[i + 2] == 13
    &&& raw[i + 3] == 10
}

/// The bytes that part a header from its body.
pub open spec fn blank_line() -> Seq<u8> {
    seq![13u8, 10, 13, 10]
}

/// The first place, `from` or behind it, where the header ends.
pub open spec fn header_end(raw: Seq<u8>, from: int) -> Option<int>
    decreases raw.len() - from,
{
    if from + 4 > raw.len() {
        None
    } else if blank_line_at(raw, from) {
        Some(from)
    } else {
        header_end(raw, from + 1)
    }
}

/// The status code in the first line of a header: its second word, as a number.
pub open spec fn status(head: Seq<char>) -> Option<u16> {
    match crate::text::second_word(head) {
        Some(word) => crate::text::number_u16(word),
        None => None,
    }
}

/// What a response with this header and this body comes to: the body if the status
/// code says success, else what is wrong.
pub open spec fn reply(head: Seq<char>, body: Seq<char>) -> Result<Seq<char>, Seq<char>> {
    match status(head) {
        None => Err("malformed HTTP status line"@),
        Some(code) => if 200 <= code < 300 {
            Ok(body)
        } else {
            Err("HTTP status "@ + crate::text::decimal(code as nat))
        },
    }
}

/// What a raw response comes to.
pub open spec fn response(raw: Seq<u8>) -> Result<Seq<char>, Seq<char>> {
    match header_end(raw, 0) {
        None => Err("malformed HTTP response"@),
        Some(end) => reply(lossy_text(raw.take(end)), lossy_text(raw.skip(end + 4))),
    }
}

/// The header and the body of the raw response are valid UTF-8.
pub open spec fn decodes(raw: Seq<u8>, end: int) -> bool {
    vstd::utf8::valid_utf8(raw.take(end)) && vstd::utf8::valid_utf8(raw.skip(end + 4))
}

/// The header of the raw response, if it is valid UTF-8, is read as the text that it
/// encodes; and so is the body, whatever the header is.
pub open spec fn texts_are_decoded(raw: Seq<u8>) -> bool {
    header_end(raw, 0) matches Some(end) ==> {
        &&& vstd::utf8::valid_utf8(raw.take(end)) ==> lossy_text(raw.take(end))
            == vstd::utf8::decode_utf8(raw.take(end))
        &&& vstd::utf8::valid_utf8(raw.skip(end + 4)) ==> lossy_text(raw.skip(end + 4))
            == vstd::utf8::decode_utf8(raw.skip(end + 4))
    }
}

/// Finds the end of the header.
fn find_header_end(raw: &[u8]) -> (end: Option<usize>)
    ensures
        end is Some == header_end(raw@, 0) is Some,
        end matches Some(e) ==> header_end(raw@, 0) == Some(e as int) && e + 4 <= raw@.len(),
{
    if raw.len() < 4 {
        return None;
    }
    let last: usize = raw.len() - 4;
    let mut i: usize = 0;
    while i <= last
        invariant
            i <= last + 1,
            last + 4 == raw@.len(),
            header_end(raw@, 0) == header_end(raw@, i as int),
        decreases last + 1 - i,
    {
        if raw[i] == 13 && raw[i + 1] == 10 && raw[i + 2] == 13 && raw[i + 3] == 10 {
            return Some(i);
        }
        i += 1;
    }
    None
}

/// Reads the status code of a header.
pub fn status_of(head: &str) -> (code: Option<u16>)
    ensures
        code == status(head@),
{
    let chars = chars_of(head);
    match find_second_word(chars.as_slice()) {
        Some((start, end)) => parse_u16(slice_subrange(chars.as_slice(), start, end)),
        None => None,
    }
}

/// Judges a response by its decoded header, and hands out its decoded body.
pub fn read_reply(head: &str, body: String) -> (r: Result<String, String>)
    ensures
        texts(r) == reply(head@, body@),
{
    match status_of(head) {
        None => Err("malformed HTTP status line".to_string()),
        Some(code) => {
            if 200 <= code && code < 300 {
                Ok(body)
            } else {
                let mut e = "HTTP status ".to_string();
                append_decimal(&mut e, code as u64);
                Err(e)
            }
        },
    }
}

/// Splits a raw response into header and body; an error unless the status code says
/// success.
pub fn parse_response(raw: &[u8]) -> (r: Result<String, String>)
    ensures
        texts(r) == response(raw@),
        texts_are_decoded(raw@),
        header_end(raw@, 0) matches Some(end) ==> decodes(raw@, end) ==> texts(r) == reply(
            vstd::utf8::decode_utf8(raw@.take(end)),
            vstd::utf8::decode_utf8(raw@.skip(end + 4)),
        ),
{
    match find_header_end(raw) {
        None => Err("malformed HTTP response".to_string()),
        Some(end) => {
            let n: usize = raw.len();
            let head_bytes = slice_subrange(raw, 0, end);
            let body_bytes = slice_subrange(raw, end + 4, n);
            assert(head_bytes@ =~= raw@.take(end as int));
            assert(body_bytes@ =~= raw@.skip(end + 4));
            let head = from_utf8_lossy(head_bytes);
            let body = from_utf8_lossy(body_bytes);
            read_reply(head.as_str(), body)
        },
    }
}

// ---------------------------------------------------------------------------
// The exchange
// ---------------------------------------------------------------------------

/// How far an exchange has come.
#[derive(Clone, Copy, Debug, PartialEq, Eq, Structural)]
pub enum Stage {
    Connecting,
    Sending,
    Receiving,
}

/// One request and its answer, with a deadline for the whole.
pub struct Exchange {
    pub ip: Address,
    pub path: String,
    /// The time from the beginning to the deadline, in nanoseconds.
    pub timeout: u128,
    pub stage: Stage,
    /// What has been received.
    pub raw: Vec<u8>,
}

/// What an `Exchange` holds.
pub struct ExchangeModel {
    pub ip: Address,
    pub path: Seq<char>,
    pub timeout: u128,
    pub stage: Stage,
    pub raw: Seq<u8>,
}

impl View for Exchange {
    type V = ExchangeModel;

    open spec fn view(&self) -> ExchangeModel {
        ExchangeModel {
            ip: self.ip,
            path: self.path@,
            timeout: self.timeout,
            stage: self.stage,
            raw: self.raw@,
        }
    }
}

/// What to do with the connection. The times are in nanoseconds, and never zero.
pub enum Action {
    /// Connect to the address within this time.
    Connect { within: u128 },
    /// Send all of the request within this time.
    Send { within: u128, request: Vec<u8> },
    /// Read what comes next within this time.
    Receive { within: u128 },
    /// Close the connection: this is the result.
    Finish(Result<String, String>),
}

/// What an `Action` holds.
pub enum ActionModel {
    Connect { within: int },
    Send { within: int, request: Seq<u8> },
    Receive { within: int },
    Finish(Result<Seq<char>, Seq<char>>),
}

impl View for Action {
    type V = ActionModel;

    open spec fn view(&self) -> ActionModel {
        match self {
            Action::Connect { within } => ActionModel::Connect { within: *within as int },
            Action::Send { within, request } => ActionModel::Send {
                within: *within as int,
                request: request@,
            },
            Action::Receive { within } => ActionModel::Receive { within: *within as int },
            Action::Finish(r) => ActionModel::Finish(texts(*r)),
        }
    }
}

/// What the last action came to: the bytes that were read, or what went wrong.
pub open spec fn outcome_model(outcome: Result<Vec<u8>, String>) -> Result<Seq<u8>, Seq<char>> {
    match outcome {
        Ok(bytes) => Ok(bytes@),
        Err(e) => Err(e@),
    }
}

/// The exchange fails if the deadline has passed at the beginning of a stage.
pub open spec fn late(what: Seq<char>) -> ActionModel {
    ActionModel::Finish(Err("timeout during "@ + what))
}

/// The first action of an exchange.
pub open spec fn first_action(e: ExchangeModel, elapsed: int) -> ActionModel {
    if elapsed < e.timeout {
        ActionModel::Connect { within: e.timeout - elapsed }
    } else {
        late("connect"@)
    }
}

/// The bytes of the exchange's request.
pub open spec fn request_bytes(e: ExchangeModel) -> Seq<u8> {
    vstd::utf8::encode_utf8(request_text(e.ip, e.path))
}

/// Waits for more of the response.
pub open spec fn more(e: ExchangeModel, elapsed: int) -> ActionModel {
    if elapsed < e.timeout {
        ActionModel::Receive { within: e.timeout - elapsed }
    } else {
        late("response"@)
    }
}

/// The exchange and what it does next, once an action came to `outcome` when
/// `elapsed` had passed since the beginning. Nothing read means that the response is
/// complete.
pub open spec fn after(
    e: ExchangeModel,
    outcome: Result<Seq<u8>, Seq<char>>,
    elapsed: int,
) -> (ExchangeModel, ActionModel) {
    match outcome {
        Err(error) => (e, ActionModel::Finish(Err(error))),
        Ok(bytes) => match e.stage {
            Stage::Connecting => (
                ExchangeModel { stage: Stage::Sending, ..e },
                if elapsed < e.timeout {
                    ActionModel::Send { within: e.timeout - elapsed, request: request_bytes(e) }
                } else {
                    late("send"@)
                },
            ),
            Stage::Sending => (
                ExchangeModel { stage: Stage::Receiving, ..e },
                more(e, elapsed),
            ),
            Stage::Receiving => if bytes.len() == 0 {
                (e, ActionModel::Finish(response(e.raw)))
            } else {
                (
                    ExchangeModel { raw: e.raw + bytes, ..e },
                    if e.raw.len() + bytes.len() > MAX_BODY {
                        ActionModel::Finish(Err("response too large"@))
                    } else {
                        more(e, elapsed)
                    },
                )
            },
        },
    }
}

/// An exchange that has not begun.
pub open spec fn fresh_exchange(ip: Address, path: Seq<char>, timeout_secs: int) -> ExchangeModel {
    ExchangeModel {
        ip,
        path,
        timeout: (timeout_secs * 1_000_000_000) as u128,
        stage: Stage::Connecting,
        raw: Seq::empty(),
    }
}

/// A result that says what took too long.
fn timed_out(what: &str) -> (a: Action)
    ensures
        a@ == late(what@),
{
    Action::Finish(Err(crate::text::joined("timeout during ", what)))
}

impl Exchange {
    /// A request for `path`, with a deadline for connecting, sending and receiving
    /// together.
    pub fn new(ip: Address, path: &str, timeout_secs: u64) -> (e: Self)
        ensures
            e@ == fresh_exchange(ip, path@, timeout_secs as int),
            e.timeout == timeout_secs * 1_000_000_000,
    {
        let e = Exchange {
            ip,
            path: path.to_string(),
            timeout: timeout_secs as u128 * 1_000_000_000,
            stage: Stage::Connecting,
            raw: Vec::new(),
        };
        assert(e@.raw =~= Seq::empty());
        e
    }

    /// The first action.
    pub fn begin(&self, elapsed: u128) -> (a: Action)
        ensures
            a@ == first_action(self@, elapsed as int),
    {
        if elapsed < self.timeout {
            Action::Connect { within: self.timeout - elapsed }
        } else {
            timed_out("connect")
        }
    }

    /// What to do now that the last action came to `outcome`: the bytes that were read
    /// (of connecting and sending, none), or what went wrong. `elapsed` is the time
    /// since the beginning, in nanoseconds.
    pub fn next(&mut self, outcome: Result<Vec<u8>, String>, elapsed: u128) -> (a: Action)
        ensures
            (final(self)@, a@) == after(old(self)@, outcome_model(outcome), elapsed as int),
            old(self).stage is Receiving && outcome is Ok && outcome->Ok_0@.len() == 0
                ==> texts_are_decoded(old(self).raw@),
    {
        let bytes = match outcome {
            Ok(bytes) => bytes,
            Err(error) => return Action::Finish(Err(error)),
        };
        match self.stage {
            Stage::Connecting => {
                self.stage = Stage::Sending;
                if elapsed < self.timeout {
                    let text = request(self.ip, self.path.as_str());
                    Action::Send {
                        within: self.timeout - elapsed,
                        request: slice_to_vec(text.as_str().as_bytes()),
                    }
                } else {
                    timed_out("send")
                }
            },
            Stage::Sending => {
                self.stage = Stage::Receiving;
                if elapsed < self.timeout {
                    Action::Receive { within: self.timeout - elapsed }
                } else {
                    timed_out("response")
                }
            },
            Stage::Receiving => {
                if bytes.len() == 0 {
                    return Action::Finish(parse_response(self.raw.as_slice()));
                }
                self.raw.extend_from_slice(bytes.as_slice());
                assert(self.raw@ =~= old(self).raw@ + bytes@);
                if self.raw.len() > MAX_BODY {
                    return Action::Finish(Err("response too large".to_string()));
                }
                if elapsed < self.timeout {
                    Action::Receive { within: self.timeout - elapsed }
                } else {
                    timed_out("response")
                }
            },
        }
    }
}

// ---------------------------------------------------------------------------
// What holds of every exchange
// ---------------------------------------------------------------------------

/// The time that an action may take.
pub open spec fn waits(a: ActionModel) -> Option<int> {
    match a {
        ActionModel::Connect { within } => Some(within),
        ActionModel::Send { within, request } => Some(within),
        ActionModel::Receive { within } => Some(within),
        ActionModel::Finish(r) => None,
    }
}

/// The deadline holds for the whole: every action is given exactly the time that is
/// left, and none is begun when none is left.
pub proof fn law_the_deadline_is_total(
    e: ExchangeModel,
    outcome: Result<Seq<u8>, Seq<char>>,
    elapsed: int,
)
    ensures
        waits(first_action(e, elapsed)) matches Some(t) ==> t > 0 && elapsed + t == e.timeout,
        waits(after(e, outcome, elapsed).1) matches Some(t) ==> t > 0 && elapsed + t == e.timeout,
        after(e, outcome, elapsed).0.timeout == e.timeout,
{
}

/// Whatever is late fails: past the deadline an exchange succeeds only if it had all of
/// the response before, and learns late that there is no more.
pub proof fn law_late_exchanges_fail(
    e: ExchangeModel,
    outcome: Result<Seq<u8>, Seq<char>>,
    elapsed: int,
)
    requires
        elapsed >= e.timeout,
    ensures
        first_action(e, elapsed) == late("connect"@),
        ({
            let action = after(e, outcome, elapsed).1;
            &&& action is Finish
            &&& action->Finish_0 is Ok ==> e.stage is Receiving && outcome is Ok
                && outcome->Ok_0.len() == 0 && action->Finish_0 == response(e.raw)
        }),
{
}

/// No exchange that goes on holds more than the greatest response.
pub proof fn law_the_response_is_bounded(
    e: ExchangeModel,
    outcome: Result<Seq<u8>, Seq<char>>,
    elapsed: int,
)
    requires
        e.raw.len() <= MAX_BODY,
    ensures
        !(after(e, outcome, elapsed).1 is Finish) ==> after(e, outcome, elapsed).0.raw.len()
            <= MAX_BODY,
{
}

/// The exchange after these reads, one behind the other.
pub open spec fn after_reads(
    e: ExchangeModel,
    reads: Seq<Seq<u8>>,
    elapsed: Seq<int>,
) -> ExchangeModel
    decreases reads.len(),
{
    if reads.len() == 0 {
        e
    } else {
        after(
            after_reads(e, reads.drop_last(), elapsed.drop_last()),
            Ok(reads.last()),
            elapsed.last(),
        ).0
    }
}

/// The response does not depend on the pieces in which it arrives: of a connection
/// that is in time, and of a response that is not too large, what the exchange comes
/// to is what all of the bytes together come to.
pub proof fn law_pieces_are_immaterial(
    e: ExchangeModel,
    reads: Seq<Seq<u8>>,
    elapsed: Seq<int>,
    end: int,
)
    requires
        e.stage is Receiving,
        reads.len() == elapsed.len(),
        e.raw.len() + reads.flatten().len() <= MAX_BODY,
        forall|i: int| 0 <= i < reads.len() ==> (#[trigger] reads[i]).len() > 0,
        forall|i: int| 0 <= i < elapsed.len() ==> #[trigger] elapsed[i] < e.timeout,
    ensures
        after_reads(e, reads, elapsed) == (ExchangeModel { raw: e.raw + reads.flatten(), ..e }),
        reads.len() > 0 ==> after(
            after_reads(e, reads.drop_last(), elapsed.drop_last()),
            Ok(reads.last()),
            elapsed.last(),
        ).1 is Receive,
        after(after_reads(e, reads, elapsed), Ok(Seq::empty()), end).1 == ActionModel::Finish(
            response(e.raw + reads.flatten()),
        ),
    decreases reads.len(),
{
    if reads.len() == 0 {
        assert(e.raw + reads.flatten() =~= e.raw) by {
            assert(reads =~= Seq::empty());
        }
    } else {
        let front = reads.drop_last();
        front.lemma_flatten_push(reads.last());
        assert(front.push(reads.last()) =~= reads);
        law_pieces_are_immaterial(e, front, elapsed.drop_last(), end);
        assert(e.raw + front.flatten() + reads.last() =~= e.raw + reads.flatten());
    }
}

proof fn lemma_no_header_end_before(raw: Seq<u8>, from: int, to: int)
    requires
        0 <= from <= to,
        to + 4 <= raw.len(),
        forall|i: int| from <= i < to ==> !blank_line_at(raw, i),
    ensures
        header_end(raw, from) == header_end(raw, to),
    decreases to - from,
{
    if from < to {
        assert(!blank_line_at(raw, from));
        lemma_no_header_end_before(raw, from + 1, to);
    }
}

/// A response is parted at its first empty line: the header is what stands before
/// it, the body all that stands behind it, further empty lines too.
pub proof fn law_the_first_empty_line_parts(head: Seq<u8>, body: Seq<u8>)
    requires
        forall|i: int|
            0 <= i < head.len() ==> !#[trigger] blank_line_at(head + blank_line(), i),
    ensures
        header_end(head + blank_line() + body, 0) == Some(head.len() as int),
        response(head + blank_line() + body) == reply(lossy_text(head), lossy_text(body)),
{
    let short = head + blank_line();
    let raw = short + body;
    let n = head.len() as int;
    assert forall|i: int| 0 <= i < head.len() implies !blank_line_at(raw, i) by {
        assert(!blank_line_at(short, i));
        assert(forall|k: int| 0 <= k < short.len() ==> raw[k] == short[k]);
    }
    lemma_no_header_end_before(raw, 0, head.len() as int);
    assert(blank_line_at(raw, head.len() as int)) by {
        assert(forall|k: int| 0 <= k < short.len() ==> raw[k] == short[k]);
        assert(short[n] == 13u8);
        assert(short[n + 1] == 10u8);
        assert(short[n + 2] == 13u8);
        assert(short[n + 3] == 10u8);
    }
    assert(raw.take(head.len() as int) =~= head);
    assert(raw.skip(n + 4) =~= body);
}

/// What a server sends as text is what is read: of a response that is UTF-8, the header
/// and the body decode to the texts that were encoded.
pub proof fn law_texts_are_read_back(head: Seq<char>, body: Seq<char>)
    requires
        forall|i: int|
            0 <= i < vstd::utf8::encode_utf8(head).len() ==> !#[trigger] blank_line_at(
                vstd::utf8::encode_utf8(head) + blank_line(),
                i,
            ),
    ensures
        ({
            let first = vstd::utf8::encode_utf8(head);
            let raw = first + blank_line() + vstd::utf8::encode_utf8(body);
            let end = first.len() as int;
            &&& header_end(raw, 0) == Some(end)
            &&& decodes(raw, end)
            &&& vstd::utf8::decode_utf8(raw.take(end)) == head
            &&& vstd::utf8::decode_utf8(raw.skip(end + 4)) == body
        }),
{
    let first = vstd::utf8::encode_utf8(head);
    let second = vstd::utf8::encode_utf8(body);
    let raw = first + blank_line() + second;
    let end = first.len() as int;
    law_the_first_empty_line_parts(first, second);
    assert(raw.take(end) =~= first);
    assert(raw.skip(end + 4) =~= second);
    vstd::utf8::encode_utf8_valid_utf8(head);
    vstd::utf8::encode_utf8_valid_utf8(body);
    vstd::utf8::encode_utf8_decode_utf8(head);
    vstd::utf8::encode_utf8_decode_utf8(body);
}

/// The code of a status line is read: a protocol version, a space and the code, with
/// whatever stands behind a white character after it.
pub proof fn law_the_status_line_is_read(version: Seq<char>, code: u16, rest: Seq<char>)
    requires
        version.len() > 0,
        forall|i: int| 0 <= i < version.len() ==> !crate::text::is_white(#[trigger] version[i]),
        rest.len() > 0 ==> crate::text::is_white(rest[0]),
    ensures
        status(version + seq![' '] + crate::text::decimal(code as nat) + rest) == Some(code),
{
    crate::text::law_number_behind_a_word(version, code as nat, rest);
    crate::text::law_numbers_are_read_back(code);
}

/// Only a status code of success hands out the body; every other one is an error.
pub proof fn law_only_success_is_ok(head: Seq<char>, body: Seq<char>)
    ensures
        reply(head, body) is Ok <==> (status(head) is Some && 200 <= status(head)->0 < 300),
        reply(head, body) is Ok ==> reply(head, body)->Ok_0 == body,
{
}

} // verus!
