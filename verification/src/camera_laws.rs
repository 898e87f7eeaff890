//! The dialogue with the camera, from the search to the stop, said of what goes over the
//! wire and what comes back.

use crate::gopro::after_probe;
use crate::gopro::camera_at;
use crate::gopro::candidates;
use crate::gopro::probe;
use crate::gopro::scan_step;
use crate::gopro::search_on;
use crate::gopro::start_outcome;
use crate::gopro::start_plan;
use crate::gopro::stop_plan;
use crate::gopro::virtual_name;
use crate::gopro::CameraTaskModel;
use crate::gopro::InterfaceModel;
use crate::gopro::ScanModel;
use crate::gopro::ScanStepModel;
use crate::http::after;
use crate::http::blank_line_at;
use crate::http::first_action;
use crate::http::fresh_exchange;
use crate::http::header_end;
use crate::http::lossy_text;
use crate::http::reply;
use crate::http::request_text;
use crate::http::response;
use crate::http::status;
use crate::http::ActionModel;
use crate::http::Address;
use crate::http::ExchangeModel;
use crate::http::Stage;
use crate::text::decimal;
use crate::text::lowercase;
use vstd::prelude::*;

verus! {

// ---------------------------------------------------------------------------
// Requests and responses
// ---------------------------------------------------------------------------

/// A request: a GET of the path, the camera's address and port as host, and a connection
/// that is to be closed.
pub proof fn law_requests_are_plain_gets(ip: Address, path: Seq<char>)
    ensures
        request_text(ip, path) == "GET "@ + path + " HTTP/1.1\r\nHost: "@ + (decimal(ip.a as nat)
            + "."@ + decimal(ip.b as nat) + "."@ + decimal(ip.c as nat) + "."@ + decimal(
            ip.d as nat,
        )) + ":"@ + decimal(8080) + "\r\nConnection: close\r\n\r\n"@,
{
}

/// Carriage return, line feed, and both again.
pub open spec fn crlf_crlf_at(raw: Seq<u8>, i: int) -> bool {
    0 <= i && i + 4 <= raw.len() && raw.subrange(i, i + 4) == seq![13u8, 10u8, 13u8, 10u8]
}

proof fn lemma_blank_line(raw: Seq<u8>, i: int)
    ensures
        blank_line_at(raw, i) == crlf_crlf_at(raw, i),
{
    if 0 <= i && i + 4 <= raw.len() {
        let part = raw.subrange(i, i + 4);
        let line = seq![13u8, 10u8, 13u8, 10u8];
        assert(part[0] == raw[i] && part[1] == raw[i + 1] && part[2] == raw[i + 2] && part[3]
            == raw[i + 3]);
        if blank_line_at(raw, i) {
            assert(part =~= line);
        }
    }
}

proof fn lemma_header_end(raw: Seq<u8>, from: int)
    requires
        0 <= from,
    ensures
        header_end(raw, from) matches Some(e) ==> from <= e && crlf_crlf_at(raw, e) && forall|i: int|
            from <= i < e ==> !#[trigger] crlf_crlf_at(raw, i),
        header_end(raw, from) is None ==> forall|i: int|
            from <= i ==> !#[trigger] crlf_crlf_at(raw, i),
    decreases raw.len() - from,
{
    lemma_blank_line(raw, from);
    if from + 4 <= raw.len() && !blank_line_at(raw, from) {
        lemma_header_end(raw, from + 1);
    }
}

/// The header ends at the first empty line; without one the response is malformed.
pub proof fn law_the_header_ends_at_the_first_empty_line(raw: Seq<u8>, e: int)
    ensures
        (forall|i: int| 0 <= i ==> !#[trigger] crlf_crlf_at(raw, i)) ==> response(raw) == Err::<
            Seq<char>,
            Seq<char>,
        >("malformed HTTP response"@),
        crlf_crlf_at(raw, e) && (forall|i: int| 0 <= i < e ==> !#[trigger] crlf_crlf_at(raw, i))
            ==> response(raw) == reply(lossy_text(raw.take(e)), lossy_text(raw.skip(e + 4))),
{
    lemma_header_end(raw, 0);
}

/// A response is Ok, with its body, exactly if its status code is one of 200 to 299; any
/// other code is told, and a header without one is malformed.
pub proof fn law_responses_are_judged_by_their_code(head: Seq<char>, body: Seq<char>)
    ensures
        status(head) matches Some(code) ==> {
            &&& 200 <= code <= 299 ==> reply(head, body) == Ok::<Seq<char>, Seq<char>>(body)
            &&& code < 200 || code > 299 ==> reply(head, body) == Err::<Seq<char>, Seq<char>>(
                "HTTP status "@ + decimal(code as nat),
            )
        },
        status(head) is None ==> reply(head, body) == Err::<Seq<char>, Seq<char>>(
            "malformed HTTP status line"@,
        ),
{
}

/// The code is the number in the second word of the header, whatever stands around it;
/// without a second word, or if that is no number of 16 bits, there is none.
pub proof fn law_the_code_is_the_second_word(
    lead: Seq<char>,
    version: Seq<char>,
    gap: Seq<char>,
    code: nat,
    rest: Seq<char>,
)
    requires
        crate::text_laws::blank(lead),
        crate::text_laws::solid(version),
        version.len() > 0,
        crate::text_laws::blank(gap),
        gap.len() > 0,
        rest.len() > 0 ==> crate::text::is_white(rest[0]),
    ensures
        status(lead + version + gap + decimal(code) + rest) == if code <= 65535 {
            Some(code as u16)
        } else {
            None
        },
        crate::text_laws::blank(rest) ==> status(lead + version + rest) is None,
{
    crate::text::lemma_decimal(code);
    crate::text_laws::law_the_second_word_is_found(lead, version, gap, decimal(code), rest);
    if code <= 65535 {
        crate::text::law_numbers_are_read_back(code as u16);
    } else {
        crate::text_laws::law_large_numbers_are_not_read(code);
    }
    if crate::text_laws::blank(rest) {
        crate::text_laws::law_fewer_words_have_no_second(lead, version, rest);
    }
}

// ---------------------------------------------------------------------------
// Exchanges
// ---------------------------------------------------------------------------

/// An exchange begins with nothing received, and as many seconds as it was given.
pub proof fn law_an_exchange_begins_fresh(ip: Address, path: Seq<char>, secs: u64)
    ensures
        ({
            let e = fresh_exchange(ip, path, secs as int);
            &&& e.ip == ip
            &&& e.path == path
            &&& e.timeout == secs * 1_000_000_000
            &&& e.stage is Connecting
            &&& e.raw.len() == 0
        }),
{
}

/// An exchange that is in time connects, sends its request, and receives; each action is
/// given all of the time that is left.
pub proof fn law_an_exchange_goes_on_in_time(
    e: ExchangeModel,
    bytes: Seq<u8>,
    elapsed: int,
)
    requires
        elapsed < e.timeout,
    ensures
        first_action(e, elapsed) == (ActionModel::Connect { within: e.timeout - elapsed }),
        e.stage is Connecting ==> after(e, Ok(bytes), elapsed) == (
            ExchangeModel { stage: Stage::Sending, ..e },
            ActionModel::Send {
                within: e.timeout - elapsed,
                request: vstd::utf8::encode_utf8(request_text(e.ip, e.path)),
            },
        ),
        e.stage is Sending ==> after(e, Ok(bytes), elapsed) == (
            ExchangeModel { stage: Stage::Receiving, ..e },
            ActionModel::Receive { within: e.timeout - elapsed },
        ),
        e.stage is Receiving && bytes.len() > 0 && e.raw.len() + bytes.len() <= 1_048_576
            ==> after(e, Ok(bytes), elapsed) == (
            ExchangeModel { raw: e.raw + bytes, ..e },
            ActionModel::Receive { within: e.timeout - elapsed },
        ),
{
}

/// An exchange ends: with the response when there is no more, with an error that says
/// what was too late or too large, or with what went wrong.
pub proof fn law_an_exchange_ends_with_its_reason(
    e: ExchangeModel,
    bytes: Seq<u8>,
    error: Seq<char>,
    elapsed: int,
)
    ensures
        after(e, Err(error), elapsed) == (e, ActionModel::Finish(Err(error))),
        e.stage is Receiving && bytes.len() == 0 ==> after(e, Ok(bytes), elapsed) == (
            e,
            ActionModel::Finish(response(e.raw)),
        ),
        e.stage is Receiving && bytes.len() > 0 && e.raw.len() + bytes.len() > 1_048_576 ==> after(
            e,
            Ok(bytes),
            elapsed,
        ).1 == ActionModel::Finish(Err("response too large"@)),
        elapsed >= e.timeout ==> {
            &&& first_action(e, elapsed) == ActionModel::Finish(
                Err("timeout during "@ + "connect"@),
            )
            &&& e.stage is Connecting ==> after(e, Ok(bytes), elapsed).1 == ActionModel::Finish(
                Err("timeout during "@ + "send"@),
            )
            &&& e.stage is Sending ==> after(e, Ok(bytes), elapsed).1 == ActionModel::Finish(
                Err("timeout during "@ + "response"@),
            )
            &&& e.stage is Receiving && bytes.len() > 0 && e.raw.len() + bytes.len() <= 1_048_576
                ==> after(e, Ok(bytes), elapsed).1 == ActionModel::Finish(
                Err("timeout during "@ + "response"@),
            )
        },
{
}

// ---------------------------------------------------------------------------
// The search
// ---------------------------------------------------------------------------

/// The name begins with one of the prefixes of virtual interfaces, in whatever case.
pub open spec fn has_virtual_prefix(name: Seq<char>) -> bool {
    exists|prefix: Seq<char>| #[trigger]
        is_virtual_prefix(prefix) && prefix.is_prefix_of(lowercase(name))
}

/// The prefixes of virtual, container and bridge interfaces.
pub open spec fn is_virtual_prefix(prefix: Seq<char>) -> bool {
    prefix == "br-"@ || prefix == "veth"@ || prefix == "docker"@ || prefix == "virbr"@ || prefix
        == "tap"@ || prefix == "tun"@ || prefix == "vmnet"@ || prefix == "zt"@
}

/// An interface is virtual exactly if its name begins with one of the eight prefixes.
pub proof fn law_eight_prefixes_are_virtual(name: Seq<char>)
    ensures
        virtual_name(name) <==> has_virtual_prefix(name),
{
    if virtual_name(name) {
        assert(is_virtual_prefix("br-"@));
        assert(is_virtual_prefix("veth"@));
        assert(is_virtual_prefix("docker"@));
        assert(is_virtual_prefix("virbr"@));
        assert(is_virtual_prefix("tap"@));
        assert(is_virtual_prefix("tun"@));
        assert(is_virtual_prefix("vmnet"@));
        assert(is_virtual_prefix("zt"@));
    }
}

/// Every real interface in a network of the camera's kind leads to the camera's place in
/// it: whatever its name, unless it begins with one of the eight prefixes.
pub proof fn law_real_interfaces_lead_to_the_camera(
    list: Seq<InterfaceModel>,
    j: int,
    b: u8,
    c: u8,
    d: u8,
)
    requires
        0 <= j < list.len(),
        !list[j].loopback,
        !has_virtual_prefix(list[j].name),
        list[j].v4 == Some(Address { a: 172, b, c, d }),
        20 <= b <= 29,
    ensures
        candidates(list).contains(Address { a: 172, b, c, d: 51 }),
{
    law_eight_prefixes_are_virtual(list[j].name);
    crate::gopro::law_every_camera_network_is_a_candidate(list, j);
}

/// No other interface leads anywhere.
pub proof fn law_other_interfaces_lead_nowhere(i: InterfaceModel)
    requires
        i.loopback || has_virtual_prefix(i.name) || i.v4 is None || i.v4->0.a != 172 || i.v4->0.b
            < 20 || i.v4->0.b > 29,
    ensures
        camera_at(i) is None,
        candidates(seq![i]).len() == 0,
{
    law_eight_prefixes_are_virtual(i.name);
    assert(seq![i].drop_last() =~= Seq::empty());
    assert(candidates(Seq::empty()).len() == 0);
}

/// The candidates come in the order of the interfaces.
pub proof fn law_candidates_come_in_order(a: Seq<InterfaceModel>, b: Seq<InterfaceModel>)
    ensures
        candidates(a + b) == candidates(a) + candidates(b),
    decreases b.len(),
{
    if b.len() == 0 {
        assert(a + b =~= a);
        assert(candidates(a) + candidates(b) =~= candidates(a));
    } else {
        law_candidates_come_in_order(a, b.drop_last());
        assert((a + b).drop_last() =~= a + b.drop_last());
        assert((a + b).last() == b.last());
        assert(candidates(a + b) =~= candidates(a) + candidates(b));
    }
}

/// The search begins at the first candidate of the interfaces that are listed; without a
/// list there is none.
pub proof fn law_the_search_begins_at_the_first(list: Seq<InterfaceModel>)
    ensures
        search_on(Some(list)).candidates == candidates(list),
        search_on(Some(list)).at == 0,
        search_on(None).candidates.len() == 0,
        scan_step(search_on(None)) == ScanStepModel::Done(None),
        candidates(list).len() > 0 ==> scan_step(search_on(Some(list))) == ScanStepModel::Probe(
            probe(candidates(list)[0]),
        ),
        candidates(list).len() == 0 ==> scan_step(search_on(Some(list))) == ScanStepModel::Done(
            None,
        ),
{
}

/// Each candidate is asked for the version of its webcam mode, with two seconds to answer.
pub proof fn law_candidates_are_asked_for_their_version(ip: Address)
    ensures
        probe(ip) == (ExchangeModel {
            ip,
            path: "/gopro/webcam/version"@,
            timeout: 2_000_000_000,
            stage: Stage::Connecting,
            raw: Seq::empty(),
        }),
{
}

/// The search asks its candidates in turn: an answer ends it there, silence goes on to
/// the next, and behind the last there is nothing.
pub proof fn law_the_search_goes_on_until_an_answer(s: ScanModel)
    requires
        0 <= s.at,
    ensures
        s.at < s.candidates.len() ==> {
            &&& scan_step(s) == ScanStepModel::Probe(probe(s.candidates[s.at]))
            &&& after_probe(s, true).1 == ScanStepModel::Done(Some(s.candidates[s.at]))
            &&& after_probe(s, false).0 == (ScanModel { at: s.at + 1, ..s })
            &&& s.at + 1 < s.candidates.len() ==> after_probe(s, false).1 == ScanStepModel::Probe(
                probe(s.candidates[s.at + 1]),
            )
            &&& s.at + 1 == s.candidates.len() ==> after_probe(s, false).1 == ScanStepModel::Done(
                None,
            )
        },
        s.at >= s.candidates.len() ==> scan_step(s) == ScanStepModel::Done(None) && after_probe(
            s,
            true,
        ).1 == ScanStepModel::Done(None),
{
}

// ---------------------------------------------------------------------------
// Control
// ---------------------------------------------------------------------------

/// A control request with four seconds to answer.
pub open spec fn asks(task: CameraTaskModel, ip: Address, path: Seq<char>) -> bool {
    task == CameraTaskModel::Request(
        ExchangeModel {
            ip,
            path,
            timeout: 4_000_000_000,
            stage: Stage::Connecting,
            raw: Seq::empty(),
        },
    )
}

/// Starting asks the camera to stop, then to exit, waits for 600 milliseconds and asks it
/// to start; stopping asks it to stop, then to exit.
pub proof fn law_the_camera_is_started_and_stopped(ip: Address)
    ensures
        start_plan(ip).len() == 4,
        asks(start_plan(ip)[0], ip, "/gopro/webcam/stop"@),
        asks(start_plan(ip)[1], ip, "/gopro/webcam/exit"@),
        start_plan(ip)[2] == CameraTaskModel::Pause(600),
        asks(start_plan(ip)[3], ip, "/gopro/webcam/start"@),
        stop_plan(ip).len() == 2,
        asks(stop_plan(ip)[0], ip, "/gopro/webcam/stop"@),
        asks(stop_plan(ip)[1], ip, "/gopro/webcam/exit"@),
{
}

/// Only the answer to the last request tells whether the camera started.
pub proof fn law_the_last_answer_tells(
    before: Seq<Result<String, String>>,
    other: Seq<Result<String, String>>,
    last: Result<String, String>,
)
    ensures
        start_outcome(before.push(last)) == start_outcome(other.push(last)),
        last is Ok ==> start_outcome(before.push(last)) is Ok,
        last matches Err(e) ==> start_outcome(before.push(last)) == Err::<(), Seq<char>>(e@),
{
}

} // verus!
