//! Finding the camera and controlling its webcam mode.

use crate::http::Address;
use crate::http::Exchange;
use crate::http::ExchangeModel;
use crate::text::ascii_lowercase;
use crate::text::begins_with;
use vstd::prelude::*;

verus! {

/// The camera's host number in the network that it makes over USB.
pub const GOPRO_HOST_OCTET: u8 = 51;

/// The deadline of a control request, in seconds.
pub const REQUEST_TIMEOUT: u64 = 4;

/// The deadline of a probe, in seconds: short, so that scanning stays quick.
pub const PROBE_TIMEOUT: u64 = 2;

/// The pause, in milliseconds, between clearing a stale session and starting one.
pub const START_PAUSE: u64 = 600;

// ---------------------------------------------------------------------------
// Interfaces
// ---------------------------------------------------------------------------

/// A network interface of this machine, with one of its addresses.
pub struct Interface {
    pub name: String,
    pub loopback: bool,
    /// The address, if it is an IPv4 address.
    pub v4: Option<Address>,
}

/// What an `Interface` holds.
pub struct InterfaceModel {
    pub name: Seq<char>,
    pub loopback: bool,
    pub v4: Option<Address>,
}

impl View for Interface {
    type V = InterfaceModel;

    open spec fn view(&self) -> InterfaceModel {
        InterfaceModel { name: self.name@, loopback: self.loopback, v4: self.v4 }
    }
}

/// What a list of interfaces holds.
pub open spec fn interfaces_model(list: Seq<Interface>) -> Seq<InterfaceModel> {
    list.map_values(|i: Interface| i@)
}

/// The name of a virtual, container or bridge interface, in whatever case.
pub open spec fn virtual_name(name: Seq<char>) -> bool {
    let n = crate::text::lowercase(name);
    ||| "br-"@.is_prefix_of(n)
    ||| "veth"@.is_prefix_of(n)
    ||| "docker"@.is_prefix_of(n)
    ||| "virbr"@.is_prefix_of(n)
    ||| "tap"@.is_prefix_of(n)
    ||| "tun"@.is_prefix_of(n)
    ||| "vmnet"@.is_prefix_of(n)
    ||| "zt"@.is_prefix_of(n)
}

/// Tests for virtual, container and bridge interfaces, which are never probed.
pub fn is_virtual(name: &str) -> (b: bool)
    ensures
        b == virtual_name(name@),
{
    let n = ascii_lowercase(name);
    let n = n.as_slice();
    begins_with(n, "br-") || begins_with(n, "veth") || begins_with(n, "docker") || begins_with(
        n,
        "virbr",
    ) || begins_with(n, "tap") || begins_with(n, "tun") || begins_with(n, "vmnet") || begins_with(
        n,
        "zt",
    )
}

/// Where the camera would be if this interface were its USB network: a network
/// 172.20.x.y to 172.29.x.y, with the camera at a fixed host number.
pub open spec fn camera_at(i: InterfaceModel) -> Option<Address> {
    match i.v4 {
        Some(ip) => if !i.loopback && !virtual_name(i.name) && ip.a == 172 && 20 <= ip.b <= 29 {
            Some(Address { a: ip.a, b: ip.b, c: ip.c, d: GOPRO_HOST_OCTET })
        } else {
            None
        },
        None => None,
    }
}

/// The places where the camera may be, in the order of the interfaces.
pub open spec fn candidates(list: Seq<InterfaceModel>) -> Seq<Address>
    decreases list.len(),
{
    if list.len() == 0 {
        Seq::empty()
    } else {
        let front = candidates(list.drop_last());
        match camera_at(list.last()) {
            Some(ip) => front.push(ip),
            None => front,
        }
    }
}

impl Interface {
    /// Where the camera would be if this interface were its USB network.
    pub fn candidate(&self) -> (ip: Option<Address>)
        ensures
            ip == camera_at(self@),
    {
        if self.loopback || is_virtual(self.name.as_str()) {
            return None;
        }
        match self.v4 {
            Some(ip) => {
                if ip.a == 172 && 20 <= ip.b && ip.b <= 29 {
                    Some(Address { a: ip.a, b: ip.b, c: ip.c, d: GOPRO_HOST_OCTET })
                } else {
                    None
                }
            },
            None => None,
        }
    }
}

// ---------------------------------------------------------------------------
// Detection
// ---------------------------------------------------------------------------

/// A search for the camera: the places where it may be are probed in turn, until
/// one answers.
pub struct Scan {
    pub candidates: Vec<Address>,
    /// The place that is probed now.
    pub at: usize,
}

/// What a `Scan` holds.
pub struct ScanModel {
    pub candidates: Seq<Address>,
    pub at: int,
}

impl View for Scan {
    type V = ScanModel;

    open spec fn view(&self) -> ScanModel {
        ScanModel { candidates: self.candidates@, at: self.at as int }
    }
}

/// What a search does next.
pub enum ScanStep {
    /// Carry out this exchange, and report what it came to.
    Probe(Exchange),
    /// The search is over: this is where the camera is, if anywhere.
    Done(Option<Address>),
}

/// What a `ScanStep` holds.
pub enum ScanStepModel {
    Probe(ExchangeModel),
    Done(Option<Address>),
}

impl View for ScanStep {
    type V = ScanStepModel;

    open spec fn view(&self) -> ScanStepModel {
        match self {
            ScanStep::Probe(e) => ScanStepModel::Probe(e@),
            ScanStep::Done(ip) => ScanStepModel::Done(*ip),
        }
    }
}

/// The question whether a camera is there: a request for the version of its webcam
/// mode.
pub open spec fn probe(ip: Address) -> ExchangeModel {
    crate::http::fresh_exchange(ip, "/gopro/webcam/version"@, PROBE_TIMEOUT as int)
}

/// What a search does at its place.
pub open spec fn scan_step(s: ScanModel) -> ScanStepModel {
    if s.at < s.candidates.len() {
        ScanStepModel::Probe(probe(s.candidates[s.at]))
    } else {
        ScanStepModel::Done(None)
    }
}

/// The search, and what it does next, once the probe was answered or not. A search
/// that is over stays over.
pub open spec fn after_probe(s: ScanModel, answered: bool) -> (ScanModel, ScanStepModel) {
    if s.at >= s.candidates.len() {
        (s, ScanStepModel::Done(None))
    } else if answered {
        (s, ScanStepModel::Done(Some(s.candidates[s.at])))
    } else {
        let next = ScanModel { at: s.at + 1, ..s };
        (next, scan_step(next))
    }
}

/// What an optional list of interfaces holds.
pub open spec fn listed_model(listed: Option<Vec<Interface>>) -> Option<Seq<InterfaceModel>> {
    match listed {
        Some(list) => Some(interfaces_model(list@)),
        None => None,
    }
}

/// The search on these interfaces, before its first probe.
pub open spec fn search_on(listed: Option<Seq<InterfaceModel>>) -> ScanModel {
    ScanModel {
        candidates: match listed {
            Some(list) => candidates(list),
            None => Seq::empty(),
        },
        at: 0,
    }
}

/// Begins the search for the camera on the machine's interfaces. Without a list of
/// interfaces nothing is found.
pub fn detect(listed: Option<Vec<Interface>>) -> (s: Scan)
    ensures
        s@ == search_on(listed_model(listed)),
        s@.at == 0,
        s@.candidates == match listed {
            Some(list) => candidates(interfaces_model(list@)),
            None => Seq::empty(),
        },
{
    let mut found: Vec<Address> = Vec::new();
    if let Some(list) = &listed {
        let ghost all = interfaces_model(list@);
        let mut i: usize = 0;
        assert(all.take(0) =~= Seq::empty());
        while i < list.len()
            invariant
                i <= list@.len(),
                all == interfaces_model(list@),
                found@ == candidates(all.take(i as int)),
            decreases list@.len() - i,
        {
            if let Some(ip) = list[i].candidate() {
                found.push(ip);
            }
            i += 1;
            assert(all.take(i as int).drop_last() =~= all.take(i - 1));
        }
        assert(all.take(i as int) =~= all);
    }
    Scan { candidates: found, at: 0 }
}

impl Scan {
    /// What the search does first.
    pub fn begin(&self) -> (step: ScanStep)
        ensures
            step@ == scan_step(self@),
    {
        if self.at < self.candidates.len() {
            ScanStep::Probe(
                Exchange::new(self.candidates[self.at], "/gopro/webcam/version", PROBE_TIMEOUT),
            )
        } else {
            ScanStep::Done(None)
        }
    }

    /// What the search does now that the probe came to `reply`.
    pub fn next(&mut self, reply: Result<String, String>) -> (step: ScanStep)
        ensures
            (final(self)@, step@) == after_probe(old(self)@, reply is Ok),
    {
        let n: usize = self.candidates.len();
        if self.at >= n {
            return ScanStep::Done(None);
        }
        match reply {
            Ok(_) => ScanStep::Done(Some(self.candidates[self.at])),
            Err(_) => {
                self.at += 1;
                self.begin()
            },
        }
    }
}

/// Where a search ends up if the addresses answer as told.
pub open spec fn scanned(s: ScanModel, answers: spec_fn(Address) -> bool) -> Option<Address>
    decreases s.candidates.len() - s.at,
{
    if 0 <= s.at < s.candidates.len() {
        let (next, step) = after_probe(s, answers(s.candidates[s.at]));
        match step {
            ScanStepModel::Done(ip) => ip,
            ScanStepModel::Probe(_) => scanned(next, answers),
        }
    } else {
        None
    }
}

/// The first place, in the order of the interfaces, whose address answers.
pub open spec fn first_answering(
    places: Seq<Address>,
    answers: spec_fn(Address) -> bool,
) -> Option<Address>
    decreases places.len(),
{
    if places.len() == 0 {
        None
    } else if answers(places[0]) {
        Some(places[0])
    } else {
        first_answering(places.skip(1), answers)
    }
}

/// The search finds the first candidate that answers, and nothing if none does.
pub proof fn law_the_first_that_answers_is_found(
    s: ScanModel,
    answers: spec_fn(Address) -> bool,
)
    requires
        0 <= s.at <= s.candidates.len(),
    ensures
        scanned(s, answers) == first_answering(s.candidates.skip(s.at), answers),
    decreases s.candidates.len() - s.at,
{
    let rest = s.candidates.skip(s.at);
    if s.at < s.candidates.len() {
        assert(rest.skip(1) =~= s.candidates.skip(s.at + 1));
        law_the_first_that_answers_is_found(ScanModel { at: s.at + 1, ..s }, answers);
    }
}

/// No address is probed but the camera's own in a network of the camera's kind that
/// a real interface of this machine is in.
pub proof fn law_only_camera_networks_are_probed(list: Seq<InterfaceModel>, k: int)
    requires
        0 <= k < candidates(list).len(),
    ensures
        ({
            let ip = candidates(list)[k];
            &&& ip.a == 172
            &&& 20 <= ip.b <= 29
            &&& ip.d == GOPRO_HOST_OCTET
            &&& exists|j: int|
                0 <= j < list.len() && camera_at(#[trigger] list[j]) == Some(ip)
                    && !list[j].loopback && !virtual_name(list[j].name)
        }),
    decreases list.len(),
{
    let ip = candidates(list)[k];
    let front = list.drop_last();
    if k < candidates(front).len() {
        law_only_camera_networks_are_probed(front, k);
        let j = choose|j: int|
            0 <= j < front.len() && camera_at(#[trigger] front[j]) == Some(ip)
                && !front[j].loopback && !virtual_name(front[j].name);
        assert(list[j] == front[j]);
    } else {
        assert(camera_at(list[list.len() - 1]) == Some(ip));
    }
}

/// Every network of the camera's kind that a real interface of this machine is in is
/// probed, unless the camera is found before.
pub proof fn law_every_camera_network_is_a_candidate(list: Seq<InterfaceModel>, j: int)
    requires
        0 <= j < list.len(),
        camera_at(list[j]) is Some,
    ensures
        candidates(list).contains(camera_at(list[j])->0),
    decreases list.len(),
{
    let front = list.drop_last();
    let ip = camera_at(list[j])->0;
    if j < front.len() {
        law_every_camera_network_is_a_candidate(front, j);
        let i = choose|i: int| 0 <= i < candidates(front).len() && candidates(front)[i] == ip;
        assert(candidates(list)[i] == ip);
    } else {
        assert(candidates(list)[candidates(list).len() - 1] == ip);
    }
}

// ---------------------------------------------------------------------------
// Control
// ---------------------------------------------------------------------------

/// A control request.
pub open spec fn control(ip: Address, path: Seq<char>) -> ExchangeModel {
    crate::http::fresh_exchange(ip, path, REQUEST_TIMEOUT as int)
}

/// A control request for `path`.
pub fn http_get(ip: Address, path: &str) -> (e: Exchange)
    ensures
        e@ == control(ip, path@),
{
    Exchange::new(ip, path, REQUEST_TIMEOUT)
}

/// One step of a plan.
pub enum CameraTask {
    /// Carry out this exchange.
    Request(Exchange),
    /// Wait, so many milliseconds.
    Pause(u64),
}

/// What a `CameraTask` holds.
pub enum CameraTaskModel {
    Request(ExchangeModel),
    Pause(u64),
}

impl View for CameraTask {
    type V = CameraTaskModel;

    open spec fn view(&self) -> CameraTaskModel {
        match self {
            CameraTask::Request(e) => CameraTaskModel::Request(e@),
            CameraTask::Pause(ms) => CameraTaskModel::Pause(*ms),
        }
    }
}

/// What a plan holds.
pub open spec fn plan_model(plan: Seq<CameraTask>) -> Seq<CameraTaskModel> {
    plan.map_values(|t: CameraTask| t@)
}

/// Ends a webcam session: stop, then exit.
pub open spec fn stop_plan(ip: Address) -> Seq<CameraTaskModel> {
    seq![
        CameraTaskModel::Request(control(ip, "/gopro/webcam/stop"@)),
        CameraTaskModel::Request(control(ip, "/gopro/webcam/exit"@)),
    ]
}

/// Starts a webcam session: whatever is left of another one is ended first.
pub open spec fn start_plan(ip: Address) -> Seq<CameraTaskModel> {
    stop_plan(ip).push(CameraTaskModel::Pause(START_PAUSE)).push(
        CameraTaskModel::Request(control(ip, "/gopro/webcam/start"@)),
    )
}

/// The plan that clears any stale session and starts the webcam stream. Sending stop
/// before exit reliably clears a session that an unclean shutdown left running.
pub fn start(ip: Address) -> (plan: Vec<CameraTask>)
    ensures
        plan_model(plan@) == start_plan(ip),
{
    let mut plan = stop(ip);
    plan.push(CameraTask::Pause(START_PAUSE));
    plan.push(CameraTask::Request(http_get(ip, "/gopro/webcam/start")));
    assert(plan_model(plan@) =~= start_plan(ip));
    plan
}

/// The plan that ends the webcam stream.
pub fn stop(ip: Address) -> (plan: Vec<CameraTask>)
    ensures
        plan_model(plan@) == stop_plan(ip),
{
    let mut plan: Vec<CameraTask> = Vec::new();
    plan.push(CameraTask::Request(http_get(ip, "/gopro/webcam/stop")));
    plan.push(CameraTask::Request(http_get(ip, "/gopro/webcam/exit")));
    assert(plan_model(plan@) =~= stop_plan(ip));
    plan
}

/// What starting came to: the answers of the plan's requests but the last do not
/// matter.
pub open spec fn start_outcome(replies: Seq<Result<String, String>>) -> Result<(), Seq<char>> {
    match replies.last() {
        Ok(_) => Ok(()),
        Err(e) => Err(e@),
    }
}

/// Judges a start by the answers of the plan's requests, in their order.
pub fn started(replies: Vec<Result<String, String>>) -> (r: Result<(), String>)
    requires
        replies@.len() > 0,
    ensures
        r is Ok == start_outcome(replies@) is Ok,
        r matches Err(e) ==> start_outcome(replies@) == Err::<(), Seq<char>>(e@),
{
    let mut replies = replies;
    match replies.pop() {
        Some(Ok(_)) => Ok(()),
        Some(Err(e)) => Err(e),
        None => Ok(()),
    }
}

/// Starting stops and exits before it starts: the plan is the plan of stopping, and
/// behind it a pause and the start.
pub proof fn law_starting_begins_with_stopping(ip: Address)
    ensures
        stop_plan(ip).is_prefix_of(start_plan(ip)),
        start_plan(ip).last() == CameraTaskModel::Request(control(ip, "/gopro/webcam/start"@)),
{
}

} // verus!
