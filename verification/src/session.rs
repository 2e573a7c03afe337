//! The life of one admitted connection, from its header to its tunnel.
//!
//! A session decides; the program around it reads, resolves, dials and writes,
//! and hands back what came of it.

use vstd::prelude::*;

use crate::address::{ip_literal, IpAddress, SocketAddress};
use crate::config::ProxyConfig;
use crate::connect::{
    connect_request, optional_text, parse_connect, request_head, ConnectRequest, HeaderBlock,
    MAX_CONNECT_HEADERS,
};
use crate::denial::{denied_with, Denial, DenialView};
use crate::hostname::{canonical_hostname, canonical_name};
use crate::policy::{EchPolicy, Policy, TlsAuthority};
use crate::route::{
    approved, first_denial, resolve_addresses, route, route_result, routed, selected,
    LookupOutcome, LookupView, Route, RouteView,
};
use crate::tls::{
    acceptor_calls, acceptor_verdict, bytes_taken, fed, judged, lemma_fed_takes_a_prefix,
    ClientHelloError, ClientHelloReader, HelloStep, StepView,
};
use crate::usage::{saturated, with_denial, with_upload, Usage};

verus! {

/// What the guest is told once its tunnel stands.
pub const CONNECT_SUCCESS_RESPONSE: &'static str = "HTTP/1.1 200 Connection Established\r\n\r\n";

/// What became of reading the CONNECT header.
#[derive(Debug)]
pub enum HeaderOutcome {
    Read(HeaderBlock),
    TooLarge,
    Eof,
    Failed,
    TimedOut,
    /// The clock cannot express the end of the handshake: nothing was read.
    NoDeadline,
}

/// What a header outcome says.
#[verifier::ext_equal]
pub enum HeaderOutcomeView {
    Read(Seq<u8>, int),
    TooLarge,
    Eof,
    Failed,
    TimedOut,
    NoDeadline,
}

impl View for HeaderOutcome {
    type V = HeaderOutcomeView;

    open spec fn view(&self) -> HeaderOutcomeView {
        match self {
            HeaderOutcome::Read(block) => HeaderOutcomeView::Read(block.bytes@, block.end as int),
            HeaderOutcome::TooLarge => HeaderOutcomeView::TooLarge,
            HeaderOutcome::Eof => HeaderOutcomeView::Eof,
            HeaderOutcome::Failed => HeaderOutcomeView::Failed,
            HeaderOutcome::TimedOut => HeaderOutcomeView::TimedOut,
            HeaderOutcome::NoDeadline => HeaderOutcomeView::NoDeadline,
        }
    }
}

/// What became of dialing.
#[derive(Clone, Copy, Debug, PartialEq, Eq, Structural)]
pub enum DialOutcome {
    /// No dial permit was free before the deadline.
    NoPermit,
    Connected,
    /// No approved address could be connected.
    Unreachable,
}

/// What became of a write that had to end by the handshake deadline.
#[derive(Clone, Copy, Debug, PartialEq, Eq, Structural)]
pub enum WriteOutcome {
    Written,
    Failed,
    TimedOut,
}

/// How a tunnel ended.
#[derive(Clone, Copy, Debug, PartialEq, Eq, Structural)]
pub enum TunnelOutcome {
    /// Both sides finished.
    Finished,
    /// A byte ceiling was exceeded.
    LimitExceeded,
    /// No byte travelled for the idle timeout.
    Idle,
    Failed,
}

/// What happened to a session.
#[derive(Debug)]
pub enum Event {
    Header(HeaderOutcome),
    Lookup(LookupOutcome),
    Dial(DialOutcome),
    Response(WriteOutcome),
    Forward(WriteOutcome),
    /// The clock was read.
    Clock { now: u128, handshake_deadline: u128 },
    /// A read of the `ClientHello` returned these bytes.
    HelloBytes(Vec<u8>),
    HelloFailed,
    HelloTimedOut,
    Tunnel(TunnelOutcome),
}

/// What an event says.
#[verifier::ext_equal]
pub enum EventView {
    Header(HeaderOutcomeView),
    Lookup(LookupView),
    Dial(DialOutcome),
    Response(WriteOutcome),
    Forward(WriteOutcome),
    Clock { now: u128, handshake_deadline: u128 },
    HelloBytes(Seq<u8>),
    HelloFailed,
    HelloTimedOut,
    Tunnel(TunnelOutcome),
}

impl View for Event {
    type V = EventView;

    open spec fn view(&self) -> EventView {
        match self {
            Event::Header(outcome) => EventView::Header(outcome@),
            Event::Lookup(outcome) => EventView::Lookup(outcome@),
            Event::Dial(outcome) => EventView::Dial(*outcome),
            Event::Response(outcome) => EventView::Response(*outcome),
            Event::Forward(outcome) => EventView::Forward(*outcome),
            Event::Clock { now, handshake_deadline } => EventView::Clock {
                now: *now,
                handshake_deadline: *handshake_deadline,
            },
            Event::HelloBytes(bytes) => EventView::HelloBytes(bytes@),
            Event::HelloFailed => EventView::HelloFailed,
            Event::HelloTimedOut => EventView::HelloTimedOut,
            Event::Tunnel(outcome) => EventView::Tunnel(*outcome),
        }
    }
}

/// What to do next.
#[derive(Debug)]
pub enum Action {
    /// Resolve this absolute hostname.
    Resolve(String),
    /// Dial these addresses, in this order.
    Dial(Vec<SocketAddress>),
    /// Tell the guest that the tunnel stands.
    WriteSuccess,
    /// Send these bytes upstream.
    Forward(Vec<u8>),
    /// Read the clock: the handshake deadline is due before an inspection.
    ReadClock,
    /// Read at most so many bytes of the `ClientHello`.
    ReadHello(usize),
    /// Copy both ways. So many uploaded bytes have been forwarded already.
    Tunnel(usize),
    /// Count a denial, answer with it, and close.
    Deny(Denial),
    /// Count a denial, and close without an answer.
    Reject(&'static str),
    /// Count a denial of a tunnel that stands, and drop it.
    Drop(&'static str),
    /// The tunnel finished normally.
    Complete,
    /// The connection broke; nothing is counted.
    Abort,
}

/// What an action says.
#[verifier::ext_equal]
pub enum ActionView {
    Resolve(Seq<char>),
    Dial(Seq<SocketAddress>),
    WriteSuccess,
    Forward(Seq<u8>),
    ReadClock,
    ReadHello(int),
    Tunnel(int),
    Deny(DenialView),
    Reject(Seq<char>),
    Drop(Seq<char>),
    Complete,
    Abort,
}

impl View for Action {
    type V = ActionView;

    open spec fn view(&self) -> ActionView {
        match self {
            Action::Resolve(name) => ActionView::Resolve(name@),
            Action::Dial(addresses) => ActionView::Dial(addresses@),
            Action::WriteSuccess => ActionView::WriteSuccess,
            Action::Forward(bytes) => ActionView::Forward(bytes@),
            Action::ReadClock => ActionView::ReadClock,
            Action::ReadHello(count) => ActionView::ReadHello(*count as int),
            Action::Tunnel(count) => ActionView::Tunnel(*count as int),
            Action::Deny(denial) => ActionView::Deny(denial@),
            Action::Reject(reason) => ActionView::Reject(reason@),
            Action::Drop(reason) => ActionView::Drop(reason@),
            Action::Complete => ActionView::Complete,
            Action::Abort => ActionView::Abort,
        }
    }
}

impl Action {
    /// The reason for which a denial is to be counted, if one is.
    pub open spec fn denied_for(self) -> Option<&'static str> {
        match self {
            Action::Deny(denial) => Some(denial.reason),
            Action::Reject(reason) => Some(reason),
            Action::Drop(reason) => Some(reason),
            _ => None,
        }
    }

    /// The reason for which a denial is to be counted, if one is.
    pub fn denial_reason(&self) -> (reason: Option<&'static str>)
        ensures
            reason == self.denied_for(),
            reason is Some <==> is_denial(self@),
    {
        match self {
            Action::Deny(denial) => Some(denial.reason),
            Action::Reject(reason) => Some(*reason),
            Action::Drop(reason) => Some(*reason),
            _ => None,
        }
    }
}

/// Whether an action counts a denial.
pub open spec fn is_denial(action: ActionView) -> bool {
    action is Deny || action is Reject || action is Drop
}

/// The usage of a lease after a step of one of its sessions.
pub open spec fn accounted(usage: Usage, action: ActionView, uploaded: u64) -> Usage {
    let counted = with_upload(usage, uploaded);
    if is_denial(action) {
        with_denial(counted)
    } else {
        counted
    }
}

/// A granted request and the bytes that came along with its header.
#[derive(Debug)]
pub struct Pending {
    pub request: ConnectRequest,
    pub upload: Vec<u8>,
}

#[verifier::ext_equal]
pub struct PendingView {
    pub host: Seq<char>,
    pub port: u16,
    pub upload: Seq<u8>,
}

impl View for Pending {
    type V = PendingView;

    open spec fn view(&self) -> PendingView {
        PendingView { host: self.request.host@, port: self.request.port, upload: self.upload@ }
    }
}

/// A `ClientHello` under inspection.
pub struct Inspection {
    pub host: String,
    pub ech: EchPolicy,
    pub reader: ClientHelloReader,
    pub configured: usize,
}

#[verifier::ext_equal]
pub struct InspectionView {
    pub host: Seq<char>,
    pub ech: EchPolicy,
    pub wire: Seq<u8>,
    pub calls: Seq<Option<Seq<u8>>>,
    pub taken: int,
    pub max: int,
    pub configured: int,
}

impl View for Inspection {
    type V = InspectionView;

    open spec fn view(&self) -> InspectionView {
        InspectionView {
            host: self.host@,
            ech: self.ech,
            wire: self.reader.wire_bytes@,
            calls: acceptor_calls(self.reader.acceptor),
            taken: self.reader.taken as int,
            max: self.reader.max_bytes as int,
            configured: self.configured as int,
        }
    }
}

/// What a session waits for.
pub enum Stage {
    Header,
    Lookup(Pending),
    Dial(Pending),
    Respond(Pending),
    Forward(usize),
    /// The tunnel stands, and is to be inspected.
    Due(Pending, EchPolicy),
    Inspect(Inspection),
    ForwardHello(usize),
    Tunnel,
    Finished,
}

#[verifier::ext_equal]
pub enum StageView {
    Header,
    Lookup(PendingView),
    Dial(PendingView),
    Respond(PendingView),
    Forward(int),
    Due(PendingView, EchPolicy),
    Inspect(InspectionView),
    ForwardHello(int),
    Tunnel,
    Finished,
}

impl View for Stage {
    type V = StageView;

    open spec fn view(&self) -> StageView {
        match self {
            Stage::Header => StageView::Header,
            Stage::Lookup(pending) => StageView::Lookup(pending@),
            Stage::Dial(pending) => StageView::Dial(pending@),
            Stage::Respond(pending) => StageView::Respond(pending@),
            Stage::Forward(count) => StageView::Forward(*count as int),
            Stage::Due(pending, ech) => StageView::Due(pending@, *ech),
            Stage::Inspect(inspection) => StageView::Inspect(inspection@),
            Stage::ForwardHello(count) => StageView::ForwardHello(*count as int),
            Stage::Tunnel => StageView::Tunnel,
            Stage::Finished => StageView::Finished,
        }
    }
}

/// What one event leads to: the next stage, what to do, and how many uploaded
/// bytes to count.
#[verifier::ext_equal]
pub struct StepResult {
    pub stage: StageView,
    pub action: ActionView,
    pub uploaded: int,
}

pub open spec fn going(stage: StageView, action: ActionView, uploaded: int) -> StepResult {
    StepResult { stage, action, uploaded }
}

pub open spec fn ended(action: ActionView, uploaded: int) -> StepResult {
    StepResult { stage: StageView::Finished, action, uploaded }
}

pub open spec fn denied(denial: DenialView) -> StepResult {
    ended(ActionView::Deny(denial), 0)
}

pub open spec fn rejected(reason: Seq<char>, uploaded: int) -> StepResult {
    ended(ActionView::Reject(reason), uploaded)
}

/// What follows from a request, given how its destination is reached: its port,
/// the bytes that came along, and its destination are judged in this order.
pub open spec fn after_route(
    policy: Policy,
    pending: PendingView,
    route: Result<RouteView, DenialView>,
) -> StepResult {
    if !policy.ports@.contains(pending.port) {
        denied(denied_with(403, "port-denied"))
    } else if policy.max_upload_bytes is Some && pending.upload.len()
        > policy.max_upload_bytes->0 {
        ended(
            ActionView::Deny(denied_with(413, "upload-limit")),
            pending.upload.len() as int,
        )
    } else {
        match route {
            Err(denial) => denied(denial),
            Ok(RouteView::Approved(addresses)) => going(
                StageView::Dial(pending),
                ActionView::Dial(addresses),
                0,
            ),
            Ok(RouteView::Lookup(name)) => going(
                StageView::Lookup(pending),
                ActionView::Resolve(name),
                0,
            ),
        }
    }
}

/// What follows from a request.
pub open spec fn after_request(
    policy: Policy,
    config: ProxyConfig,
    pending: PendingView,
) -> StepResult {
    after_route(
        policy,
        pending,
        routed(policy, config, pending.host, pending.port, ip_literal(pending.host)),
    )
}

pub open spec fn after_header(
    policy: Policy,
    config: ProxyConfig,
    outcome: HeaderOutcomeView,
) -> StepResult {
    match outcome {
        HeaderOutcomeView::TooLarge => denied(denied_with(431, "header-too-large")),
        HeaderOutcomeView::Eof => denied(denied_with(400, "header-eof")),
        HeaderOutcomeView::Failed => denied(denied_with(400, "header-read-failed")),
        HeaderOutcomeView::TimedOut => denied(denied_with(408, "header-timeout")),
        HeaderOutcomeView::NoDeadline => rejected("invalid-handshake-deadline"@, 0),
        HeaderOutcomeView::Read(bytes, end) => if end > bytes.len() {
            denied(denied_with(400, "header-read-failed"))
        } else {
            match connect_request(request_head(bytes.take(end), MAX_CONNECT_HEADERS as nat)) {
                Err(reason) => denied(DenialView { status: 400, reason }),
                Ok((host, port)) => after_request(
                    policy,
                    config,
                    PendingView { host, port, upload: bytes.skip(end) },
                ),
            }
        },
    }
}

pub open spec fn after_lookup(
    policy: Policy,
    config: ProxyConfig,
    pending: PendingView,
    outcome: LookupView,
) -> StepResult {
    match approved(policy, config, pending.port, outcome) {
        Ok(addresses) => going(StageView::Dial(pending), ActionView::Dial(addresses), 0),
        Err(denial) => denied(denial),
    }
}

/// The reason code for a destination that could not be connected.
pub open spec fn dial_failure(config: ProxyConfig) -> Seq<char> {
    if config.upstream_proxy is Some {
        "upstream-proxy-failed"@
    } else {
        "dial-failed"@
    }
}

pub open spec fn after_dial(
    config: ProxyConfig,
    pending: PendingView,
    outcome: DialOutcome,
) -> StepResult {
    match outcome {
        DialOutcome::NoPermit => denied(denied_with(503, "dial-capacity")),
        DialOutcome::Unreachable => denied(
            DenialView { status: 502, reason: dial_failure(config) },
        ),
        DialOutcome::Connected => going(StageView::Respond(pending), ActionView::WriteSuccess, 0),
    }
}

/// The most bytes of `ClientHello` to read: the configured limit, or less where
/// the tunnel may not upload as much.
pub open spec fn hello_limit(max_upload_bytes: Option<u64>, configured: int) -> int {
    match max_upload_bytes {
        Some(limit) => if limit < configured {
            limit as int
        } else {
            configured
        },
        None => configured,
    }
}

/// The reason code for a `ClientHello` that could not be read.
pub open spec fn hello_failure(error: ClientHelloError, max: int, configured: int) -> Seq<char> {
    match error {
        ClientHelloError::TooLarge => if max < configured {
            "upload-limit"@
        } else {
            "client-hello-too-large"@
        },
        ClientHelloError::Invalid => "client-hello-invalid"@,
        ClientHelloError::UnexpectedEof => "client-hello-eof"@,
    }
}

/// The reason for which a `ClientHello` may not pass, given the canonical form
/// of the name that it shows and of the granted host.
pub open spec fn names_refusal(
    shown: Option<Seq<char>>,
    granted: Option<Seq<char>>,
    ech_present: bool,
    ech: EchPolicy,
) -> Option<Seq<char>> {
    if shown is None {
        Some("tls-sni-missing"@)
    } else if granted is None {
        Some("tls-authority-not-hostname"@)
    } else if shown != granted {
        Some("tls-sni-mismatch"@)
    } else if ech_present && ech == EchPolicy::Reject {
        Some("ech-denied"@)
    } else {
        None
    }
}

/// The reason for which a `ClientHello` with this visible name may not pass.
pub open spec fn hello_refusal(
    server_name: Option<Seq<char>>,
    ech_present: bool,
    host: Seq<char>,
    ech: EchPolicy,
) -> Option<Seq<char>> {
    let shown = match server_name {
        Some(name) => canonical_name(name),
        None => None,
    };
    names_refusal(shown, canonical_name(host), ech_present, ech)
}

/// What follows from a look at the `ClientHello` bytes so far.
pub open spec fn after_look(inspection: InspectionView, uploaded: int) -> StepResult {
    match fed(inspection.wire, inspection.calls, inspection.taken) {
        None => rejected("client-hello-invalid"@, uploaded),
        Some((calls, taken)) => match judged(
            inspection.wire,
            acceptor_verdict(calls),
            inspection.max,
        ) {
            StepView::Read(count) => going(
                StageView::Inspect(
                    InspectionView { calls: calls.push(None), taken, ..inspection },
                ),
                ActionView::ReadHello(count),
                uploaded,
            ),
            StepView::Failed(error) => rejected(
                hello_failure(error, inspection.max, inspection.configured),
                uploaded,
            ),
            StepView::Complete(name, ech_present) => match hello_refusal(
                name,
                ech_present,
                inspection.host,
                inspection.ech,
            ) {
                Some(reason) => rejected(reason, uploaded),
                None => going(
                    StageView::ForwardHello(inspection.wire.len() as int),
                    ActionView::Forward(inspection.wire),
                    uploaded,
                ),
            },
        },
    }
}

pub open spec fn after_response(
    policy: Policy,
    pending: PendingView,
    outcome: WriteOutcome,
) -> StepResult {
    let count = pending.upload.len() as int;
    match outcome {
        WriteOutcome::Failed => ended(ActionView::Abort, 0),
        WriteOutcome::TimedOut => rejected("connect-response-timeout"@, 0),
        WriteOutcome::Written => match policy.tls_authority {
            TlsAuthority::Disabled => going(
                StageView::Forward(count),
                ActionView::Forward(pending.upload),
                count,
            ),
            TlsAuthority::RequireVisibleSni { ech } => going(
                StageView::Due(pending, ech),
                ActionView::ReadClock,
                0,
            ),
        },
    }
}

/// What follows once the clock was read ahead of an inspection: a handshake
/// deadline that has come wins over bytes that are there already, and those are
/// not even counted.
pub open spec fn after_clock(
    policy: Policy,
    config: ProxyConfig,
    pending: PendingView,
    ech: EchPolicy,
    now: u128,
    handshake_deadline: u128,
) -> StepResult {
    let count = pending.upload.len() as int;
    let configured = config.max_client_hello_bytes as int;
    let max = hello_limit(policy.max_upload_bytes, configured);
    if now >= handshake_deadline {
        rejected("client-hello-timeout"@, 0)
    } else if count > max {
        rejected(hello_failure(ClientHelloError::TooLarge, max, configured), count)
    } else {
        after_look(
            InspectionView {
                host: pending.host,
                ech,
                wire: pending.upload,
                calls: Seq::empty(),
                taken: 0,
                max,
                configured,
            },
            count,
        )
    }
}

pub open spec fn after_forward(
    count: int,
    outcome: WriteOutcome,
    timeout: Seq<char>,
) -> StepResult {
    match outcome {
        WriteOutcome::Written => going(StageView::Tunnel, ActionView::Tunnel(count), 0),
        WriteOutcome::Failed => rejected("upstream-write-failed"@, 0),
        WriteOutcome::TimedOut => rejected(timeout, 0),
    }
}

pub open spec fn after_hello_bytes(inspection: InspectionView, chunk: Seq<u8>) -> StepResult {
    let count = chunk.len() as int;
    if chunk.len() == 0 {
        rejected(
            hello_failure(
                ClientHelloError::UnexpectedEof,
                inspection.max,
                inspection.configured,
            ),
            count,
        )
    } else if inspection.wire.len() + chunk.len() > inspection.max {
        rejected(
            hello_failure(ClientHelloError::Invalid, inspection.max, inspection.configured),
            count,
        )
    } else {
        after_look(InspectionView { wire: inspection.wire + chunk, ..inspection }, count)
    }
}

pub open spec fn after_tunnel(outcome: TunnelOutcome) -> StepResult {
    match outcome {
        TunnelOutcome::Finished => ended(ActionView::Complete, 0),
        TunnelOutcome::LimitExceeded => ended(ActionView::Drop("transfer-limit"@), 0),
        TunnelOutcome::Idle => ended(ActionView::Drop("tunnel-idle-timeout"@), 0),
        TunnelOutcome::Failed => ended(ActionView::Abort, 0),
    }
}

/// What an event leads to. An event that the session does not wait for ends it.
pub open spec fn stepped(
    policy: Policy,
    config: ProxyConfig,
    stage: StageView,
    event: EventView,
) -> StepResult {
    match (stage, event) {
        (StageView::Header, EventView::Header(outcome)) => after_header(policy, config, outcome),
        (StageView::Lookup(pending), EventView::Lookup(outcome)) => after_lookup(
            policy,
            config,
            pending,
            outcome,
        ),
        (StageView::Dial(pending), EventView::Dial(outcome)) => after_dial(
            config,
            pending,
            outcome,
        ),
        (StageView::Respond(pending), EventView::Response(outcome)) => after_response(
            policy,
            pending,
            outcome,
        ),
        (
            StageView::Due(pending, ech),
            EventView::Clock { now, handshake_deadline },
        ) => after_clock(policy, config, pending, ech, now, handshake_deadline),
        (StageView::Forward(count), EventView::Forward(outcome)) => after_forward(
            count,
            outcome,
            "initial-upload-timeout"@,
        ),
        (StageView::Inspect(inspection), EventView::HelloBytes(chunk)) => after_hello_bytes(
            inspection,
            chunk,
        ),
        (StageView::Inspect(_), EventView::HelloFailed) => rejected("client-hello-invalid"@, 0),
        (StageView::Inspect(_), EventView::HelloTimedOut) => rejected("client-hello-timeout"@, 0),
        (StageView::ForwardHello(count), EventView::Forward(outcome)) => after_forward(
            count,
            outcome,
            "client-hello-timeout"@,
        ),
        (StageView::ForwardHello(_), EventView::HelloTimedOut) => rejected(
            "client-hello-timeout"@,
            0,
        ),
        (StageView::Tunnel, EventView::Tunnel(outcome)) => after_tunnel(outcome),
        _ => ended(ActionView::Abort, 0),
    }
}

/// What one event leads to.
pub struct Step {
    pub stage: Stage,
    pub action: Action,
    /// How many uploaded bytes to count.
    pub uploaded: u64,
}

impl View for Step {
    type V = StepResult;

    open spec fn view(&self) -> StepResult {
        StepResult { stage: self.stage@, action: self.action@, uploaded: self.uploaded as int }
    }
}

impl Step {
    fn going(stage: Stage, action: Action, uploaded: u64) -> (step: Self)
        ensures
            step@ == going(stage@, action@, uploaded as int),
            step.stage == stage,
    {
        Step { stage, action, uploaded }
    }

    fn ended(action: Action, uploaded: u64) -> (step: Self)
        ensures
            step@ == ended(action@, uploaded as int),
            step.stage == Stage::Finished,
    {
        Step { stage: Stage::Finished, action, uploaded }
    }

    fn denied(denial: Denial) -> (step: Self)
        ensures
            step@ == denied(denial@),
            step.stage == Stage::Finished,
    {
        Step::ended(Action::Deny(denial), 0)
    }

    fn rejected(reason: &'static str, uploaded: u64) -> (step: Self)
        ensures
            step@ == rejected(reason@, uploaded as int),
            step.stage == Stage::Finished,
    {
        Step::ended(Action::Reject(reason), uploaded)
    }
}

impl Stage {
    /// A `ClientHello` under inspection is within its limit.
    pub open spec fn well_formed(self) -> bool {
        self matches Stage::Inspect(inspection) ==> inspection.reader.well_formed()
    }
}

/// Judge a request.
pub fn judge_request(policy: &Policy, config: &ProxyConfig, pending: Pending) -> (step: Step)
    ensures
        step.stage.well_formed(),
        step@ == after_request(*policy, *config, pending@),
{
    let route = route(policy, config, &pending.request);
    judge_route(policy, pending, route)
}

/// Judge a request, given how its destination is reached.
pub fn judge_route(policy: &Policy, pending: Pending, route: Result<Route, Denial>) -> (step: Step)
    ensures
        step.stage.well_formed(),
        step@ == after_route(*policy, pending@, route_result(route)),
{
    if !policy.allows_port(pending.request.port) {
        return Step::denied(Denial::new(403, "port-denied"));
    }
    let count: u64 = pending.upload.len() as u64;
    if let Some(limit) = policy.max_upload_bytes {
        if count > limit {
            return Step::ended(Action::Deny(Denial::new(413, "upload-limit")), count);
        }
    }
    match route {
        Err(denial) => Step::denied(denial),
        Ok(Route::Approved(addresses)) => Step::going(
            Stage::Dial(pending),
            Action::Dial(addresses),
            0,
        ),
        Ok(Route::Lookup(name)) => Step::going(Stage::Lookup(pending), Action::Resolve(name), 0),
    }
}

/// Judge what became of reading the header.
pub fn judge_header(policy: &Policy, config: &ProxyConfig, outcome: HeaderOutcome) -> (step: Step)
    ensures
        step.stage.well_formed(),
        step@ == after_header(*policy, *config, outcome@),
{
    match outcome {
        HeaderOutcome::TooLarge => Step::denied(Denial::new(431, "header-too-large")),
        HeaderOutcome::Eof => Step::denied(Denial::new(400, "header-eof")),
        HeaderOutcome::Failed => Step::denied(Denial::new(400, "header-read-failed")),
        HeaderOutcome::TimedOut => Step::denied(Denial::new(408, "header-timeout")),
        HeaderOutcome::NoDeadline => Step::rejected("invalid-handshake-deadline", 0),
        HeaderOutcome::Read(block) => {
            if block.end > block.bytes.len() {
                return Step::denied(Denial::new(400, "header-read-failed"));
            }
            let ghost all = block.bytes@;
            let mut header = block.bytes;
            let upload = header.split_off(block.end);
            assert(header@ =~= all.take(block.end as int));
            assert(upload@ =~= all.skip(block.end as int));
            match parse_connect(header.as_slice()) {
                Err(reason) => Step::denied(Denial::new(400, reason)),
                Ok(request) => judge_request(policy, config, Pending { request, upload }),
            }
        },
    }
}

/// The reason code for a destination that could not be connected.
pub fn failure_reason(config: &ProxyConfig) -> (reason: &'static str)
    ensures
        reason@ == dial_failure(*config),
{
    if config.upstream_proxy.is_some() {
        "upstream-proxy-failed"
    } else {
        "dial-failed"
    }
}

/// The most bytes of `ClientHello` to read.
pub fn hello_byte_limit(max_upload_bytes: Option<u64>, configured: usize) -> (max: usize)
    ensures
        max == hello_limit(max_upload_bytes, configured as int),
{
    match max_upload_bytes {
        Some(limit) => if limit < configured as u64 {
            limit as usize
        } else {
            configured
        },
        None => configured,
    }
}

/// The reason code for a `ClientHello` that could not be read.
pub fn hello_failure_reason(error: ClientHelloError, max: usize, configured: usize) -> (reason:
    &'static str)
    ensures
        reason@ == hello_failure(error, max as int, configured as int),
{
    match error {
        ClientHelloError::TooLarge => if max < configured {
            "upload-limit"
        } else {
            "client-hello-too-large"
        },
        ClientHelloError::Invalid => "client-hello-invalid",
        ClientHelloError::UnexpectedEof => "client-hello-eof",
    }
}

/// Whether a `ClientHello` with this visible name may pass.
///
/// # Errors
///
/// Returns the reason code for which it may not.
pub fn authorize_hello(
    server_name: &Option<String>,
    ech_present: bool,
    host: &str,
    ech: EchPolicy,
) -> (result: Result<(), &'static str>)
    ensures
        match result {
            Ok(()) => hello_refusal(
                optional_text(*server_name),
                ech_present,
                host@,
                ech,
            ) is None,
            Err(reason) => hello_refusal(
                optional_text(*server_name),
                ech_present,
                host@,
                ech,
            ) == Some(reason@),
        },
{
    let shown = match server_name {
        Some(name) => canonical_hostname(name.as_str()),
        None => None,
    };
    authorize_names(shown, canonical_hostname(host), ech_present, ech)
}

/// Whether a `ClientHello` may pass, given the canonical form of the name that
/// it shows and of the granted host.
///
/// # Errors
///
/// Returns the reason code for which it may not.
pub fn authorize_names(
    shown: Option<String>,
    granted: Option<String>,
    ech_present: bool,
    ech: EchPolicy,
) -> (result: Result<(), &'static str>)
    ensures
        ({
            let refusal = names_refusal(
                optional_text(shown),
                optional_text(granted),
                ech_present,
                ech,
            );
            match result {
                Ok(()) => refusal is None,
                Err(reason) => refusal == Some(reason@),
            }
        }),
{
    let shown = match shown {
        Some(shown) => shown,
        None => return Err("tls-sni-missing"),
    };
    let granted = match granted {
        Some(granted) => granted,
        None => return Err("tls-authority-not-hostname"),
    };
    if shown != granted {
        return Err("tls-sni-mismatch");
    }
    if ech_present && ech == EchPolicy::Reject {
        return Err("ech-denied");
    }
    Ok(())
}

/// Look at the `ClientHello` bytes so far.
fn look(inspection: Inspection, uploaded: u64) -> (step: Step)
    requires
        inspection.reader.well_formed(),
    ensures
        step.stage.well_formed(),
        step@ == after_look(inspection@, uploaded as int),
{
    let mut inspection = inspection;
    let max: usize = inspection.reader.max_bytes;
    match inspection.reader.advance() {
        HelloStep::Read(count) => Step::going(
            Stage::Inspect(inspection),
            Action::ReadHello(count),
            uploaded,
        ),
        HelloStep::Failed(error) => Step::rejected(
            hello_failure_reason(error, max, inspection.configured),
            uploaded,
        ),
        HelloStep::Complete(name, ech_present) => match authorize_hello(
            &name,
            ech_present,
            inspection.host.as_str(),
            inspection.ech,
        ) {
            Err(reason) => Step::rejected(reason, uploaded),
            Ok(()) => {
                let hello = inspection.reader.wire_bytes;
                Step::going(Stage::ForwardHello(hello.len()), Action::Forward(hello), uploaded)
            },
        },
    }
}

/// Judge what became of telling the guest that the tunnel stands.
pub fn judge_response(policy: &Policy, pending: Pending, outcome: WriteOutcome) -> (step: Step)
    ensures
        step.stage.well_formed(),
        step@ == after_response(*policy, pending@, outcome),
{
    match outcome {
        WriteOutcome::Failed => Step::ended(Action::Abort, 0),
        WriteOutcome::TimedOut => Step::rejected("connect-response-timeout", 0),
        WriteOutcome::Written => {
            let count: usize = pending.upload.len();
            match policy.tls_authority {
                TlsAuthority::Disabled => Step::going(
                    Stage::Forward(count),
                    Action::Forward(pending.upload),
                    count as u64,
                ),
                TlsAuthority::RequireVisibleSni { ech } => Step::going(
                    Stage::Due(pending, ech),
                    Action::ReadClock,
                    0,
                ),
            }
        },
    }
}

/// Judge the clock ahead of an inspection.
pub fn judge_clock(
    policy: &Policy,
    config: &ProxyConfig,
    pending: Pending,
    ech: EchPolicy,
    now: u128,
    handshake_deadline: u128,
) -> (step: Step)
    ensures
        step.stage.well_formed(),
        step@ == after_clock(*policy, *config, pending@, ech, now, handshake_deadline),
{
    if now >= handshake_deadline {
        return Step::rejected("client-hello-timeout", 0);
    }
    let count: usize = pending.upload.len();
    let configured: usize = config.max_client_hello_bytes;
    let max: usize = hello_byte_limit(policy.max_upload_bytes, configured);
    match ClientHelloReader::new(pending.upload, max) {
        Err(error) => Step::rejected(hello_failure_reason(error, max, configured), count as u64),
        Ok(reader) => look(
            Inspection { host: pending.request.host, ech, reader, configured },
            count as u64,
        ),
    }
}

/// Judge what a read of the `ClientHello` returned.
fn judge_hello_bytes(inspection: Inspection, chunk: Vec<u8>) -> (step: Step)
    requires
        inspection.reader.well_formed(),
    ensures
        step.stage.well_formed(),
        step@ == after_hello_bytes(inspection@, chunk@),
{
    let mut inspection = inspection;
    let count: u64 = chunk.len() as u64;
    let max: usize = inspection.reader.max_bytes;
    let configured: usize = inspection.configured;
    if chunk.len() > max - inspection.reader.wire_bytes.len() {
        return Step::rejected(
            hello_failure_reason(ClientHelloError::Invalid, max, configured),
            count,
        );
    }
    match inspection.reader.push(chunk.as_slice()) {
        Err(error) => Step::rejected(hello_failure_reason(error, max, configured), count),
        Ok(()) => look(inspection, count),
    }
}

fn judge_forward(count: usize, outcome: WriteOutcome, timeout: &'static str) -> (step: Step)
    ensures
        step.stage.well_formed(),
        step@ == after_forward(count as int, outcome, timeout@),
{
    match outcome {
        WriteOutcome::Written => Step::going(Stage::Tunnel, Action::Tunnel(count), 0),
        WriteOutcome::Failed => Step::rejected("upstream-write-failed", 0),
        WriteOutcome::TimedOut => Step::rejected(timeout, 0),
    }
}

/// One admitted connection.
pub struct Session {
    pub stage: Stage,
}

impl Session {
    pub open spec fn well_formed(self) -> bool {
        self.stage.well_formed()
    }

    /// A session that waits for its header.
    pub fn new() -> (session: Self)
        ensures
            session.well_formed(),
            session.stage@ == StageView::Header,
    {
        Session { stage: Stage::Header }
    }

    /// Take an event, and say what to do next and how many uploaded bytes to
    /// count.
    pub fn step(&mut self, policy: &Policy, config: &ProxyConfig, event: Event) -> (result: (
        Action,
        u64,
    ))
        requires
            old(self).well_formed(),
        ensures
            final(self).well_formed(),
            stepped(*policy, *config, old(self).stage@, event@) == (StepResult {
                stage: final(self).stage@,
                action: result.0@,
                uploaded: result.1 as int,
            }),
    {
        let mut stage = Stage::Finished;
        std::mem::swap(&mut stage, &mut self.stage);
        let step = match (stage, event) {
            (Stage::Header, Event::Header(outcome)) => judge_header(policy, config, outcome),
            (Stage::Lookup(pending), Event::Lookup(outcome)) => match resolve_addresses(
                policy,
                config,
                pending.request.port,
                &outcome,
            ) {
                Ok(addresses) => Step::going(Stage::Dial(pending), Action::Dial(addresses), 0),
                Err(denial) => Step::denied(denial),
            },
            (Stage::Dial(pending), Event::Dial(outcome)) => match outcome {
                DialOutcome::NoPermit => Step::denied(Denial::new(503, "dial-capacity")),
                DialOutcome::Unreachable => Step::denied(
                    Denial::new(502, failure_reason(config)),
                ),
                DialOutcome::Connected => Step::going(
                    Stage::Respond(pending),
                    Action::WriteSuccess,
                    0,
                ),
            },
            (Stage::Respond(pending), Event::Response(outcome)) => judge_response(
                policy,
                pending,
                outcome,
            ),
            (Stage::Due(pending, ech), Event::Clock { now, handshake_deadline }) => judge_clock(
                policy,
                config,
                pending,
                ech,
                now,
                handshake_deadline,
            ),
            (Stage::Forward(count), Event::Forward(outcome)) => judge_forward(
                count,
                outcome,
                "initial-upload-timeout",
            ),
            (Stage::Inspect(inspection), Event::HelloBytes(chunk)) => judge_hello_bytes(
                inspection,
                chunk,
            ),
            (Stage::Inspect(_), Event::HelloFailed) => Step::rejected("client-hello-invalid", 0),
            (Stage::Inspect(_), Event::HelloTimedOut) => Step::rejected("client-hello-timeout", 0),
            (Stage::ForwardHello(count), Event::Forward(outcome)) => judge_forward(
                count,
                outcome,
                "client-hello-timeout",
            ),
            (Stage::ForwardHello(_), Event::HelloTimedOut) => Step::rejected(
                "client-hello-timeout",
                0,
            ),
            (Stage::Tunnel, Event::Tunnel(outcome)) => match outcome {
                TunnelOutcome::Finished => Step::ended(Action::Complete, 0),
                TunnelOutcome::LimitExceeded => Step::ended(Action::Drop("transfer-limit"), 0),
                TunnelOutcome::Idle => Step::ended(Action::Drop("tunnel-idle-timeout"), 0),
                TunnelOutcome::Failed => Step::ended(Action::Abort, 0),
            },
            _ => Step::ended(Action::Abort, 0),
        };
        self.stage = step.stage;
        (step.action, step.uploaded)
    }
}

/// Whether an action ends the session.
pub open spec fn ends(action: ActionView) -> bool {
    match action {
        ActionView::Deny(_) | ActionView::Reject(_) | ActionView::Drop(_) | ActionView::Complete
        | ActionView::Abort => true,
        _ => false,
    }
}

/// A session is finished exactly when it is told to end, and then nothing
/// starts it again.
pub proof fn law_sessions_end_once(
    policy: Policy,
    config: ProxyConfig,
    stage: StageView,
    event: EventView,
)
    ensures
        ends(stepped(policy, config, stage, event).action) <==> stepped(
            policy,
            config,
            stage,
            event,
        ).stage == StageView::Finished,
        stepped(policy, config, StageView::Finished, event) == ended(ActionView::Abort, 0),
{
}

/// Where these events lead a new session.
pub open spec fn stage_after(
    policy: Policy,
    config: ProxyConfig,
    events: Seq<EventView>,
) -> StageView
    decreases events.len(),
{
    if events.len() == 0 {
        StageView::Header
    } else {
        stepped(
            policy,
            config,
            stage_after(policy, config, events.drop_last()),
            events.last(),
        ).stage
    }
}

/// Whether one of these events makes a new session count a denial.
pub open spec fn denied_within(
    policy: Policy,
    config: ProxyConfig,
    events: Seq<EventView>,
) -> bool
    decreases events.len(),
{
    if events.len() == 0 {
        false
    } else {
        denied_within(policy, config, events.drop_last()) || is_denial(
            stepped(
                policy,
                config,
                stage_after(policy, config, events.drop_last()),
                events.last(),
            ).action,
        )
    }
}

/// The uploaded bytes that these events make a new session count.
pub open spec fn uploaded_within(
    policy: Policy,
    config: ProxyConfig,
    events: Seq<EventView>,
) -> int
    decreases events.len(),
{
    if events.len() == 0 {
        0
    } else {
        uploaded_within(policy, config, events.drop_last()) + stepped(
            policy,
            config,
            stage_after(policy, config, events.drop_last()),
            events.last(),
        ).uploaded
    }
}

/// The usage of a lease after a new session of it took these events.
pub open spec fn usage_after(
    policy: Policy,
    config: ProxyConfig,
    events: Seq<EventView>,
    usage: Usage,
) -> Usage
    decreases events.len(),
{
    if events.len() == 0 {
        usage
    } else {
        let earlier = events.drop_last();
        let result = stepped(policy, config, stage_after(policy, config, earlier), events.last());
        accounted(
            usage_after(policy, config, earlier, usage),
            result.action,
            result.uploaded as u64,
        )
    }
}

proof fn lemma_uploads_are_counts(
    policy: Policy,
    config: ProxyConfig,
    stage: StageView,
    event: EventView,
)
    ensures
        0 <= stepped(policy, config, stage, event).uploaded,
{
}

/// Whatever happens to a session, it counts at most one denial, and none before
/// it has ended. It counts the uploaded bytes of all its steps together, and
/// changes no other counter of its lease.
pub proof fn law_sessions_count_at_most_one_denial(
    policy: Policy,
    config: ProxyConfig,
    events: Seq<EventView>,
    usage: Usage,
)
    requires
        uploaded_within(policy, config, events) <= u64::MAX,
    ensures
        0 <= uploaded_within(policy, config, events),
        ({
            let after = usage_after(policy, config, events, usage);
            let denied = denied_within(policy, config, events);
            &&& denied ==> stage_after(policy, config, events) == StageView::Finished
            &&& after == (Usage {
                denied_connections: if denied {
                    saturated(usage.denied_connections, 1)
                } else {
                    usage.denied_connections
                },
                uploaded_bytes: saturated(
                    usage.uploaded_bytes,
                    uploaded_within(policy, config, events) as u64,
                ),
                ..usage
            })
        }),
    decreases events.len(),
{
    if events.len() > 0 {
        let earlier = events.drop_last();
        let stage = stage_after(policy, config, earlier);
        lemma_uploads_are_counts(policy, config, stage, events.last());
        law_sessions_count_at_most_one_denial(policy, config, earlier, usage);
        law_sessions_end_once(policy, config, stage, events.last());
    }
}

/// Nothing is resolved or dialed before the header has been read and granted,
/// and what is dialed was approved: a granted literal, or a whole approved
/// answer.
pub proof fn law_dialing_needs_approval(
    policy: Policy,
    config: ProxyConfig,
    stage: StageView,
    event: EventView,
)
    ensures
        ({
            let result = stepped(policy, config, stage, event);
            &&& result.action matches ActionView::Resolve(name) ==> {
                &&& stage == StageView::Header
                &&& result.stage matches StageView::Lookup(pending) && routed(
                    policy,
                    config,
                    pending.host,
                    pending.port,
                    ip_literal(pending.host),
                ) == Ok::<RouteView, DenialView>(RouteView::Lookup(name)) && policy.ports@.contains(
                    pending.port,
                )
            }
            &&& result.action matches ActionView::Dial(addresses) ==> match (stage, event) {
                (StageView::Header, EventView::Header(_)) => result.stage matches StageView::Dial(
                    pending,
                ) && routed(
                    policy,
                    config,
                    pending.host,
                    pending.port,
                    ip_literal(pending.host),
                ) == Ok::<RouteView, DenialView>(RouteView::Approved(addresses))
                    && policy.ports@.contains(pending.port),
                (StageView::Lookup(pending), EventView::Lookup(outcome)) => approved(
                    policy,
                    config,
                    pending.port,
                    outcome,
                ) == Ok::<Seq<SocketAddress>, DenialView>(addresses),
                _ => false,
            }
        }),
{
}

/// The guest is told of a tunnel only after a destination was connected.
pub proof fn law_success_needs_a_connection(
    policy: Policy,
    config: ProxyConfig,
    stage: StageView,
    event: EventView,
)
    ensures
        stepped(policy, config, stage, event).action == ActionView::WriteSuccess ==> stage
            is Dial && event == EventView::Dial(DialOutcome::Connected),
{
}

/// The bytes of a `ClientHello` that the session holds.
pub open spec fn hello_so_far(stage: StageView, event: EventView) -> Seq<u8> {
    match (stage, event) {
        (StageView::Due(pending, _), _) => pending.upload,
        (StageView::Inspect(inspection), EventView::HelloBytes(chunk)) => inspection.wire + chunk,
        _ => Seq::empty(),
    }
}

/// The destination that the session was granted.
pub open spec fn granted_host(stage: StageView) -> Seq<char> {
    match stage {
        StageView::Due(pending, _) => pending.host,
        StageView::Inspect(inspection) => inspection.host,
        _ => Seq::empty(),
    }
}

/// How the session handles encrypted `ClientHello`s.
pub open spec fn session_ech(stage: StageView) -> EchPolicy {
    match stage {
        StageView::Due(_, ech) => ech,
        StageView::Inspect(inspection) => inspection.ech,
        _ => EchPolicy::Reject,
    }
}

/// The most `ClientHello` bytes that the session reads.
pub open spec fn session_hello_limit(
    policy: Policy,
    config: ProxyConfig,
    stage: StageView,
) -> int {
    match stage {
        StageView::Inspect(inspection) => inspection.max,
        _ => hello_limit(policy.max_upload_bytes, config.max_client_hello_bytes as int),
    }
}

impl StageView {
    /// The acceptor has taken a prefix of the bytes under inspection.
    pub open spec fn well_formed(self) -> bool {
        match self {
            StageView::Inspect(inspection) => 0 <= inspection.taken <= inspection.wire.len()
                && bytes_taken(inspection.calls) == inspection.wire.take(inspection.taken),
            _ => true,
        }
    }
}

/// A tunnel under inspection forwards the bytes it has read, all of them and
/// unchanged, and only once they are a complete `ClientHello` whose visible
/// name is the granted host, without an encrypted `ClientHello` that the policy
/// rejects. A refused `ClientHello` is never forwarded.
pub proof fn law_only_authorized_hellos_are_forwarded(
    policy: Policy,
    config: ProxyConfig,
    stage: StageView,
    event: EventView,
)
    requires
        stage.well_formed(),
        stepped(policy, config, stage, event).stage is ForwardHello,
    ensures
        stepped(policy, config, stage, event).action == ActionView::Forward(
            hello_so_far(stage, event),
        ),
        exists|calls: Seq<Option<Seq<u8>>>, name: Option<Seq<char>>, ech_present: bool|
            bytes_taken(calls).is_prefix_of(hello_so_far(stage, event)) && judged(
                hello_so_far(stage, event),
                #[trigger] acceptor_verdict(calls),
                session_hello_limit(policy, config, stage),
            ) == StepView::Complete(name, ech_present) && (#[trigger] hello_refusal(
                name,
                ech_present,
                granted_host(stage),
                session_ech(stage),
            )) is None,
{
    let wire = hello_so_far(stage, event);
    let (before, taken) = match stage {
        StageView::Inspect(inspection) => (inspection.calls, inspection.taken),
        _ => (Seq::empty(), 0),
    };
    let (calls, _) = fed(wire, before, taken)->0;
    assert(bytes_taken(before) =~= wire.take(taken)) by {
        if let StageView::Inspect(inspection) = stage {
            assert(inspection.wire.take(taken) =~= wire.take(taken));
        }
    }
    lemma_fed_takes_a_prefix(wire, before, taken);
    let seen = judged(
        wire,
        acceptor_verdict(calls),
        session_hello_limit(policy, config, stage),
    );
    let name = seen->Complete_0;
    let ech_present = seen->Complete_1;
    assert(hello_refusal(
        name,
        ech_present,
        granted_host(stage),
        session_ech(stage),
    ) is None);
}

/// A handshake deadline that has come when an inspection is due ends the tunnel:
/// nothing is inspected, counted or forwarded, whatever has arrived.
pub proof fn law_expired_handshakes_inspect_nothing(
    policy: Policy,
    config: ProxyConfig,
    pending: PendingView,
    ech: EchPolicy,
    now: u128,
    handshake_deadline: u128,
)
    requires
        handshake_deadline <= now,
    ensures
        stepped(
            policy,
            config,
            StageView::Due(pending, ech),
            EventView::Clock { now, handshake_deadline },
        ) == rejected("client-hello-timeout"@, 0),
{
}

/// Under a policy that rejects encrypted `ClientHello`s, none is authorized.
pub proof fn law_encrypted_hellos_need_permission(
    server_name: Option<Seq<char>>,
    host: Seq<char>,
)
    ensures
        hello_refusal(server_name, true, host, EchPolicy::Reject) is Some,
{
}

/// Whether a number of uploaded bytes is within the ceiling of a tunnel.
pub open spec fn uploadable(policy: Policy, count: int) -> bool {
    policy.max_upload_bytes matches Some(limit) ==> count <= limit
}

/// Whether what a session holds of the guest's bytes is within the ceiling of
/// its tunnel.
pub open spec fn within_upload_limit(policy: Policy, stage: StageView) -> bool {
    match stage {
        StageView::Lookup(pending) => uploadable(policy, pending.upload.len() as int),
        StageView::Dial(pending) => uploadable(policy, pending.upload.len() as int),
        StageView::Respond(pending) => uploadable(policy, pending.upload.len() as int),
        StageView::Forward(count) => uploadable(policy, count),
        StageView::Due(pending, _) => uploadable(policy, pending.upload.len() as int),
        StageView::Inspect(inspection) => inspection.wire.len() <= inspection.max && uploadable(
            policy,
            inspection.max,
        ),
        StageView::ForwardHello(count) => uploadable(policy, count),
        _ => true,
    }
}

/// Nothing past the upload ceiling of a tunnel is forwarded before the tunnel
/// itself meters its bytes, and the tunnel is told how much of the ceiling is
/// used up.
pub proof fn law_early_uploads_stay_within_the_limit(
    policy: Policy,
    config: ProxyConfig,
    stage: StageView,
    event: EventView,
)
    requires
        within_upload_limit(policy, stage),
    ensures
        within_upload_limit(policy, StageView::Header),
        within_upload_limit(policy, stepped(policy, config, stage, event).stage),
        match stepped(policy, config, stage, event).action {
            ActionView::Forward(bytes) => uploadable(policy, bytes.len() as int),
            ActionView::Tunnel(count) => uploadable(policy, count) && (stage == StageView::Forward(
                count,
            ) || stage == StageView::ForwardHello(count)),
            _ => true,
        },
{
    let result = stepped(policy, config, stage, event);
    match (stage, event) {
        (StageView::Header, EventView::Header(outcome)) => {
            assert(result == after_header(policy, config, outcome));
        },
        (StageView::Due(pending, ech), EventView::Clock { now, handshake_deadline }) => {
            assert(result == after_clock(policy, config, pending, ech, now, handshake_deadline));
        },
        (StageView::Inspect(inspection), EventView::HelloBytes(chunk)) => {
            assert(result == after_hello_bytes(inspection, chunk));
        },
        (StageView::Respond(pending), EventView::Response(outcome)) => {
            assert(result == after_response(policy, pending, outcome));
        },
        _ => {},
    }
}

/// The reason codes for a denied connection that a session knows.
pub open spec fn is_reason_code(reason: Seq<char>) -> bool {
    ||| reason == "header-too-large"@
    ||| reason == "header-eof"@
    ||| reason == "header-read-failed"@
    ||| reason == "header-timeout"@
    ||| reason == "invalid-handshake-deadline"@
    ||| reason == "incomplete-header"@
    ||| reason == "too-many-headers"@
    ||| reason == "malformed-header"@
    ||| reason == "connect-required"@
    ||| reason == "unsupported-http-version"@
    ||| reason == "missing-authority"@
    ||| reason == "userinfo-not-allowed"@
    ||| reason == "invalid-authority"@
    ||| reason == "missing-port"@
    ||| reason == "missing-host"@
    ||| reason == "invalid-ipv6-literal"@
    ||| reason == "invalid-port"@
    ||| reason == "host-header-mismatch"@
    ||| reason == "port-denied"@
    ||| reason == "upload-limit"@
    ||| reason == "proxy-endpoint-denied"@
    ||| reason == "proxy-network-denied"@
    ||| reason == "ip-literal-denied"@
    ||| reason == "invalid-hostname"@
    ||| reason == "host-denied"@
    ||| reason == "dns-capacity"@
    ||| reason == "dns-timeout"@
    ||| reason == "dns-failed"@
    ||| reason == "dns-empty"@
    ||| reason == "dns-answer-too-large"@
    ||| reason == "resolved-address-denied"@
    ||| reason == "dial-capacity"@
    ||| reason == "dial-failed"@
    ||| reason == "upstream-proxy-failed"@
    ||| reason == "connect-response-timeout"@
    ||| reason == "initial-upload-timeout"@
    ||| reason == "upstream-write-failed"@
    ||| reason == "client-hello-too-large"@
    ||| reason == "client-hello-invalid"@
    ||| reason == "client-hello-eof"@
    ||| reason == "client-hello-timeout"@
    ||| reason == "tls-sni-missing"@
    ||| reason == "tls-authority-not-hostname"@
    ||| reason == "tls-sni-mismatch"@
    ||| reason == "ech-denied"@
    ||| reason == "transfer-limit"@
    ||| reason == "tunnel-idle-timeout"@
}

proof fn lemma_answer_reasons(
    policy: Policy,
    config: ProxyConfig,
    addresses: Seq<IpAddress>,
    port: u16,
)
    ensures
        first_denial(policy, config, addresses, port) matches Some(denied) ==> is_reason_code(
            denied.reason,
        ),
    decreases addresses.len(),
{
    if addresses.len() > 0 {
        lemma_answer_reasons(policy, config, addresses.drop_last(), port);
    }
}

/// A reason code is one of a fixed list: it never holds text that the guest
/// sent.
pub proof fn law_reasons_hold_no_guest_text(
    policy: Policy,
    config: ProxyConfig,
    stage: StageView,
    event: EventView,
)
    ensures
        match stepped(policy, config, stage, event).action {
            ActionView::Deny(denied) => is_reason_code(denied.reason),
            ActionView::Reject(reason) => is_reason_code(reason),
            ActionView::Drop(reason) => is_reason_code(reason),
            _ => true,
        },
{
    if let (StageView::Lookup(pending), EventView::Lookup(LookupView::Answered(answers))) = (
        stage,
        event,
    ) {
        lemma_answer_reasons(
            policy,
            config,
            selected(config.dns_address_family, answers),
            pending.port,
        );
    }
}

/// A request goes on exactly if its header was read whole and asks for a
/// destination, its port is granted, the bytes that came along are within the
/// upload limit, and its destination can be reached; and then with just that
/// destination and just the bytes behind the header. An approved address is
/// dialed at once, and a hostname is resolved first.
pub proof fn law_granted_requests_go_on(
    policy: Policy,
    config: ProxyConfig,
    bytes: Seq<u8>,
    end: int,
)
    requires
        0 <= end <= bytes.len(),
    ensures
        ({
            let event = EventView::Header(HeaderOutcomeView::Read(bytes, end));
            let result = stepped(policy, config, StageView::Header, event);
            match connect_request(request_head(bytes.take(end), 64)) {
                Err(reason) => result.action == ActionView::Deny(
                    DenialView { status: 400, reason },
                ),
                Ok((host, port)) => {
                    let pending = PendingView { host, port, upload: bytes.skip(end) };
                    let route = routed(policy, config, host, port, ip_literal(host));
                    if policy.ports@.contains(port) && (policy.max_upload_bytes matches Some(limit)
                        ==> bytes.len() - end <= limit) && route is Ok {
                        match route->Ok_0 {
                            RouteView::Approved(addresses) => result.action == ActionView::Dial(
                                addresses,
                            ) && result.stage == StageView::Dial(pending),
                            RouteView::Lookup(name) => result.action == ActionView::Resolve(name)
                                && result.stage == StageView::Lookup(pending),
                        }
                    } else {
                        result.action is Deny && result.stage == StageView::Finished
                    }
                },
            }
        }),
{
}

/// What was granted is kept on the way to the tunnel: a lookup that approves
/// addresses leads to a dial of all of them, a connection to the news of it, and
/// each time for the same destination and the same early bytes.
pub proof fn law_granted_requests_are_kept(
    policy: Policy,
    config: ProxyConfig,
    pending: PendingView,
    answers: Seq<IpAddress>,
)
    ensures
        ({
            let event = EventView::Lookup(LookupView::Answered(answers));
            let looked_up = stepped(policy, config, StageView::Lookup(pending), event);
            match approved(policy, config, pending.port, LookupView::Answered(answers)) {
                Ok(addresses) => looked_up == going(
                    StageView::Dial(pending),
                    ActionView::Dial(addresses),
                    0,
                ),
                Err(denial) => looked_up == ended(ActionView::Deny(denial), 0),
            }
        }),
        stepped(
            policy,
            config,
            StageView::Dial(pending),
            EventView::Dial(DialOutcome::Connected),
        ) == going(StageView::Respond(pending), ActionView::WriteSuccess, 0),
        stepped(
            policy,
            config,
            StageView::Dial(pending),
            EventView::Dial(DialOutcome::Unreachable),
        ).action is Deny,
        stepped(
            policy,
            config,
            StageView::Dial(pending),
            EventView::Dial(DialOutcome::NoPermit),
        ).action is Deny,
{
}

/// Without inspection, the bytes that came along with the header are counted
/// once, forwarded unchanged, and credited to the tunnel that follows.
pub proof fn law_early_bytes_reach_the_destination(
    policy: Policy,
    config: ProxyConfig,
    pending: PendingView,
)
    requires
        policy.tls_authority == TlsAuthority::Disabled,
    ensures
        ({
            let count = pending.upload.len() as int;
            let written = stepped(
                policy,
                config,
                StageView::Respond(pending),
                EventView::Response(WriteOutcome::Written),
            );
            let forwarded = stepped(
                policy,
                config,
                written.stage,
                EventView::Forward(WriteOutcome::Written),
            );
            &&& written.action == ActionView::Forward(pending.upload)
            &&& written.uploaded == count
            &&& forwarded.action == ActionView::Tunnel(count)
            &&& forwarded.stage == StageView::Tunnel
            &&& forwarded.uploaded == 0
        }),
{
}

/// Under inspection nothing is forwarded before the clock was read and the
/// `ClientHello` was looked at; and a `ClientHello` that passed is credited to
/// the tunnel that follows.
pub proof fn law_inspected_tunnels_wait_for_the_hello(
    policy: Policy,
    config: ProxyConfig,
    pending: PendingView,
    ech: EchPolicy,
    count: int,
)
    requires
        policy.tls_authority == (TlsAuthority::RequireVisibleSni { ech }),
    ensures
        stepped(
            policy,
            config,
            StageView::Respond(pending),
            EventView::Response(WriteOutcome::Written),
        ) == going(StageView::Due(pending, ech), ActionView::ReadClock, 0),
        stepped(
            policy,
            config,
            StageView::ForwardHello(count),
            EventView::Forward(WriteOutcome::Written),
        ) == going(StageView::Tunnel, ActionView::Tunnel(count), 0),
{
}

/// A `ClientHello` passes exactly if the name that it shows and the granted host
/// have the same canonical form, and it carries no encrypted `ClientHello` or
/// the policy allows one.
pub proof fn law_matching_hellos_pass(
    server_name: Option<Seq<char>>,
    ech_present: bool,
    host: Seq<char>,
    ech: EchPolicy,
)
    ensures
        hello_refusal(server_name, ech_present, host, ech) is None <==> ({
            &&& server_name matches Some(name) && canonical_name(name) is Some && canonical_name(
                name,
            ) == canonical_name(host)
            &&& ech_present ==> ech == EchPolicy::AllowOuterSni
        }),
{
}

/// A look at a `ClientHello` that is complete and passes forwards all bytes so
/// far; one that does not pass is rejected; and one that is not complete is read
/// on. Every look counts the bytes that it was given.
pub proof fn law_hellos_are_forwarded_whole(inspection: InspectionView, uploaded: int)
    requires
        fed(inspection.wire, inspection.calls, inspection.taken) is Some,
    ensures
        ({
            let (calls, taken) = fed(inspection.wire, inspection.calls, inspection.taken)->0;
            let seen = judged(inspection.wire, acceptor_verdict(calls), inspection.max);
            let result = after_look(inspection, uploaded);
            &&& result.uploaded == uploaded
            &&& match seen {
                StepView::Complete(name, ech_present) => if hello_refusal(
                    name,
                    ech_present,
                    inspection.host,
                    inspection.ech,
                ) is None {
                    result.action == ActionView::Forward(inspection.wire) && result.stage
                        == StageView::ForwardHello(inspection.wire.len() as int)
                } else {
                    result.action is Reject
                },
                StepView::Read(count) => result.action == ActionView::ReadHello(count)
                    && result.stage == StageView::Inspect(
                    InspectionView { calls: calls.push(None), taken, ..inspection },
                ),
                StepView::Failed(_) => result.action is Reject,
            }
        }),
{
}

/// An inspection that is due in time looks at all bytes that came along, under
/// the smaller of both limits; and every later read adds to them.
pub proof fn law_inspections_see_every_byte(
    policy: Policy,
    config: ProxyConfig,
    pending: PendingView,
    ech: EchPolicy,
    now: u128,
    handshake_deadline: u128,
    inspection: InspectionView,
    chunk: Seq<u8>,
)
    requires
        now < handshake_deadline,
    ensures
        ({
            let configured = config.max_client_hello_bytes as int;
            let max = hello_limit(policy.max_upload_bytes, configured);
            let event = EventView::Clock { now, handshake_deadline };
            let result = stepped(policy, config, StageView::Due(pending, ech), event);
            &&& result.uploaded == pending.upload.len()
            &&& max == configured || policy.max_upload_bytes == Some(max as u64)
            &&& max <= configured
            &&& policy.max_upload_bytes matches Some(limit) ==> max <= limit
            &&& pending.upload.len() > max ==> result.action is Reject
            &&& pending.upload.len() <= max ==> result == after_look(
                InspectionView {
                    host: pending.host,
                    ech,
                    wire: pending.upload,
                    calls: Seq::empty(),
                    taken: 0,
                    max,
                    configured,
                },
                pending.upload.len() as int,
            )
        }),
        ({
            let result = stepped(
                policy,
                config,
                StageView::Inspect(inspection),
                EventView::HelloBytes(chunk),
            );
            &&& result.uploaded == chunk.len()
            &&& 0 < chunk.len() && inspection.wire.len() + chunk.len() <= inspection.max ==> result
                == after_look(
                InspectionView { wire: inspection.wire + chunk, ..inspection },
                chunk.len() as int,
            )
            &&& chunk.len() == 0 ==> result.action is Reject
        }),
{
}

/// A tunnel is complete exactly if it finished by itself. One that broke is not
/// counted, and one that was cut off is denied.
pub proof fn law_tunnels_end_as_they_ended(
    policy: Policy,
    config: ProxyConfig,
    outcome: TunnelOutcome,
)
    ensures
        ({
            let result = stepped(policy, config, StageView::Tunnel, EventView::Tunnel(outcome));
            &&& result.stage == StageView::Finished
            &&& result.uploaded == 0
            &&& result.action == ActionView::Complete <==> outcome == TunnelOutcome::Finished
            &&& result.action == ActionView::Abort <==> outcome == TunnelOutcome::Failed
            &&& is_denial(result.action) <==> outcome == TunnelOutcome::LimitExceeded || outcome
                == TunnelOutcome::Idle
        }),
{
}

/// A step of a session counts its uploaded bytes and, where its action denies
/// the connection, one denial; no other counter changes.
pub proof fn law_steps_are_counted(usage: Usage, action: ActionView, uploaded: u64)
    ensures
        accounted(usage, action, uploaded) == (Usage {
            uploaded_bytes: saturated(usage.uploaded_bytes, uploaded),
            denied_connections: if action is Deny || action is Reject || action is Drop {
                saturated(usage.denied_connections, 1)
            } else {
                usage.denied_connections
            },
            ..usage
        }),
{
}

/// A `ClientHello` that does not fit is the fault of the upload limit exactly if
/// that is the smaller one; and the smaller one is what holds.
pub proof fn law_the_smaller_limit_holds(max_upload_bytes: Option<u64>, configured: int)
    requires
        0 <= configured,
    ensures
        ({
            let max = hello_limit(max_upload_bytes, configured);
            &&& max_upload_bytes is None ==> max == configured
            &&& max_upload_bytes matches Some(limit) ==> max == (if limit < configured {
                limit as int
            } else {
                configured
            })
            &&& hello_failure(ClientHelloError::TooLarge, max, configured) == (if (
            max_upload_bytes matches Some(limit) && limit < configured) {
                "upload-limit"@
            } else {
                "client-hello-too-large"@
            })
        }),
{
}

/// A write that fails or takes too long ends the session without a tunnel:
/// where the guest could not be told, nothing is counted; every other such end
/// is a denial.
pub proof fn law_failed_writes_end_the_session(
    policy: Policy,
    config: ProxyConfig,
    pending: PendingView,
    count: int,
    outcome: WriteOutcome,
)
    requires
        outcome != WriteOutcome::Written,
    ensures
        ({
            let told = stepped(
                policy,
                config,
                StageView::Respond(pending),
                EventView::Response(outcome),
            );
            let forwarded = stepped(
                policy,
                config,
                StageView::Forward(count),
                EventView::Forward(outcome),
            );
            let passed = stepped(
                policy,
                config,
                StageView::ForwardHello(count),
                EventView::Forward(outcome),
            );
            &&& told.stage == StageView::Finished && forwarded.stage == StageView::Finished
            &&& passed.stage == StageView::Finished
            &&& told.action == ActionView::Abort <==> outcome == WriteOutcome::Failed
            &&& outcome == WriteOutcome::TimedOut ==> told.action is Reject
            &&& forwarded.action is Reject && passed.action is Reject
            &&& told.uploaded == 0 && forwarded.uploaded == 0 && passed.uploaded == 0
        }),
{
}

} // verus!
