//! The course of a transfer's control side, step by step: what a server or a
//! client does next, by what has just happened. Reading, writing, opening,
//! binding and moving data is left to whoever takes the steps.

use crate::control::{host_basename, Ack, Hello, TransferParams, MODE_RECV, MODE_SEND};
use crate::crypto::{AeadBox, SecretKey};
use crate::error::{GirthError, IoError};
use crate::rate::RateWarmStart;
use crate::runtime::TransferPhase;
use crate::transfer::{
    accept_ack, ack_err, answer, authenticate, check_integrity, check_received, check_source_len,
    client_hello, connection_ended, open_session, served_object_name, AuthState, Direction,
    ServerLimits, Session,
};
use std::sync::Arc;
use vstd::prelude::*;

verus! {

// --- the server's side of a connection --------------------------------------

/// What a server has to know of its host.
#[derive(Debug, Clone, Copy)]
pub struct Host {
    /// Whether there are AES instructions.
    pub aes_hardware: bool,
    /// Whether `\` separates the parts of a path, as `/` does.
    pub backslash: bool,
}

/// A request that a server is serving.
pub struct Request {
    pub hello: Hello,
    pub session: Session,
    pub auth: Option<AuthState>,
}

/// Where a server stands with a connection.
pub enum Stage {
    /// It waits for a request.
    Idle,
    /// It waits for the authorizer's word.
    Authorizing(Hello, Session),
    /// It waits for the object to be opened.
    Opening(Request),
    /// It waits for the checksum of an object of this size.
    Summing(Request, i64),
    /// It waits for a data socket, for an object of this size and checksum.
    Binding(Request, i64, u32),
    /// It waits for the grant to be sent.
    Granting(Request),
    /// It waits for the data plane.
    Moving(Request),
    /// It waits for the received object to be read back.
    ReadingBack(Request),
    /// The connection is over.
    Over,
}

/// What has happened on a server's connection.
pub enum Event {
    /// The server was asked to stop.
    Stopped,
    /// A request came, or could not be read.
    Request(Result<Hello, IoError>),
    /// The authorizer's word: absent on an open server, else the token to expect
    /// or the reason to refuse.
    Token(Option<Result<Vec<u8>, String>>),
    /// The sink was opened and sized.
    SinkOpened(Result<(), IoError>),
    /// The source was opened; it has so many bytes.
    SourceOpened(Result<u64, IoError>),
    /// The source's checksum.
    Summed(Result<u32, IoError>),
    /// A data socket was bound to this port.
    Bound(Result<u16, IoError>),
    /// The grant was sent.
    Sent(Result<(), IoError>),
    /// The data plane is done.
    Moved(Result<(), IoError>),
    /// The received object was flushed and, where the sink can, read back.
    ReadBack(Result<Option<u32>, IoError>),
}

/// What a server has to do next.
pub enum Action {
    ReadRequest,
    /// Ask the authorizer about a request of this mode, for the object of this
    /// name.
    Authorize { mode: String, name: String },
    /// Open the sink of this name and size it.
    OpenSink { name: String, size: u64 },
    /// Open the source of this name.
    OpenSource { name: String },
    Checksum,
    Bind,
    /// Send the refusal and close the connection.
    Refuse(Ack),
    /// Send the refusal, then read the next request.
    Decline(Ack),
    /// Send the grant; the data plane will have this key.
    Grant(Ack, Option<Arc<AeadBox>>),
    /// Run the data plane.
    Run,
    /// Flush the sink and read its checksum back.
    ReadBack,
    /// Close the connection.
    End(Result<(), IoError>),
}

/// Whether the connection ends without a failure.
pub open spec fn ends_well(after: Stage, action: Action) -> bool {
    after is Over && action is End && action->End_0 is Ok
}

/// Whether the connection ends with the failure `e`.
pub open spec fn ends_with(after: Stage, action: Action, e: IoError) -> bool {
    after is Over && action is End && action->End_0 == Err::<(), IoError>(e)
}

/// Whether the connection ends with the refusal `a`.
pub open spec fn refuses(after: Stage, action: Action, a: crate::control::AckView) -> bool {
    after is Over && action is Refuse && action->Refuse_0@ == a
}

/// Whether the request is declined with the refusal `a`, and the connection goes
/// on.
pub open spec fn declines(after: Stage, action: Action, a: crate::control::AckView) -> bool {
    after is Idle && action is Decline && action->Decline_0@ == a
}

/// Whether the connection ends because something happened that was not waited
/// for.
pub open spec fn out_of_turn(after: Stage, action: Action) -> bool {
    &&& after is Over
    &&& action is End
    &&& action->End_0 is Err
    &&& action->End_0->Err_0.kind == crate::error::IoKind::Other
    &&& action->End_0->Err_0.message@ == "event out of turn"@
}

/// How a server with these parameters and limits goes on when `event` happens in
/// `stage`.
pub open spec fn server_stepped(
    stage: Stage,
    event: Event,
    params: TransferParams,
    limits: ServerLimits,
    host: Host,
    after: Stage,
    action: Action,
) -> bool {
    match stage {
        Stage::Idle => match event {
            Event::Stopped => ends_well(after, action),
            Event::Request(Err(e)) => if e.kind == crate::error::IoKind::UnexpectedEof || e.kind
                == crate::error::IoKind::ConnectionReset {
                ends_well(after, action)
            } else {
                ends_with(after, action, e)
            },
            Event::Request(Ok(h)) => match crate::transfer::request_refusal(h@, limits) {
                Some(a) => refuses(after, action, a),
                None => match after {
                    Stage::Authorizing(hello, session) => hello == h
                        && crate::transfer::is_session_for(session, h@, params) && asks_about(
                        h@,
                        host,
                        action,
                    ),
                    _ => false,
                },
            },
            _ => out_of_turn(after, action),
        },
        Stage::Authorizing(h, s) => match event {
            Event::Token(lookup) => token_stepped(h, s, lookup, host, after, action),
            _ => out_of_turn(after, action),
        },
        Stage::Opening(req) => match event {
            Event::SinkOpened(r) if req.session.direction == Direction::Push => match r {
                Err(e) => declines(after, action, crate::transfer::refusal(e.message@, false)),
                Ok(_) => after == Stage::Binding(req, 0, 0) && action is Bind,
            },
            Event::SourceOpened(r) if req.session.direction == Direction::Pull => match r {
                Err(e) => declines(after, action, crate::transfer::refusal(e.message@, false)),
                Ok(len) => match crate::transfer::unservable(len, limits) {
                    Some(text) => declines(
                        after,
                        action,
                        crate::transfer::refusal(text, false),
                    ),
                    None => after == Stage::Summing(req, len as i64) && action is Checksum,
                },
            },
            _ => out_of_turn(after, action),
        },
        Stage::Summing(req, size) => match event {
            Event::Summed(Err(e)) => declines(
                after,
                action,
                crate::transfer::refusal(e.message@, false),
            ),
            Event::Summed(Ok(crc)) => after == Stage::Binding(req, size, crc) && action is Bind,
            _ => out_of_turn(after, action),
        },
        Stage::Binding(req, size, crc) => match event {
            Event::Bound(Err(e)) => ends_with(after, action, e),
            Event::Bound(Ok(port)) => bound_stepped(
                req,
                size,
                crc,
                port,
                host.aes_hardware,
                after,
                action,
            ),
            _ => out_of_turn(after, action),
        },
        Stage::Granting(req) => match event {
            Event::Sent(Err(e)) => ends_with(after, action, e),
            Event::Sent(Ok(_)) => after == Stage::Moving(req) && action is Run,
            _ => out_of_turn(after, action),
        },
        Stage::Moving(req) => match event {
            Event::Moved(Err(e)) => ends_with(after, action, e),
            Event::Moved(Ok(_)) => if req.session.direction == Direction::Push {
                after == Stage::ReadingBack(req) && action is ReadBack
            } else {
                after is Idle && action is ReadRequest
            },
            _ => out_of_turn(after, action),
        },
        Stage::ReadingBack(req) => match event {
            Event::ReadBack(Err(e)) => ends_with(after, action, e),
            Event::ReadBack(Ok(got)) => if got is None || got == Some(req.hello.crc32c) {
                after is Idle && action is ReadRequest
            } else {
                &&& after is Over
                &&& action is End
                &&& action->End_0 is Err
                &&& crate::transfer::tells_corruption(
                    action->End_0->Err_0,
                    req.hello.name@,
                    got->Some_0,
                    req.hello.crc32c,
                )
            },
            _ => out_of_turn(after, action),
        },
        Stage::Over => out_of_turn(after, action),
    }
}

/// The name under which a host serves the object of a request.
pub open spec fn served_name(h: crate::control::HelloView, host: Host) -> Seq<char> {
    crate::control::host_name_of_path(h.name, host.backslash)
}

/// Whether `action` asks the authorizer about a request: about its mode, and about
/// the name under which the object would be read or written.
pub open spec fn asks_about(h: crate::control::HelloView, host: Host, action: Action) -> bool {
    &&& action is Authorize
    &&& action->mode@ == h.mode
    &&& action->Authorize_name@ == served_name(h, host)
}

/// How a server goes on with a request when the authorizer has spoken: it refuses
/// a client that is not let in, declines a name that cannot be served, and else
/// opens the object.
pub open spec fn token_stepped(
    h: Hello,
    s: Session,
    lookup: Option<Result<Vec<u8>, String>>,
    host: Host,
    after: Stage,
    action: Action,
) -> bool {
    let name = served_name(h@, host);
    match crate::transfer::auth_verdict(h@, lookup) {
        Err(a) => refuses(after, action, a),
        Ok(identity) => if !crate::transfer::is_plain_name(name, host.backslash) {
            declines(after, action, crate::transfer::refusal("invalid object name"@, false))
        } else {
            &&& after is Opening
            &&& after->Opening_0.hello == h
            &&& after->Opening_0.session == s
            &&& crate::transfer::auth_of(after->Opening_0.auth) == identity
            &&& match s.direction {
                Direction::Push => action is OpenSink && action->OpenSink_name@ == name
                    && action->OpenSink_size == crate::stats::max_int(h.size as int, 0),
                Direction::Pull => action is OpenSource && action->OpenSource_name@ == name,
            }
        },
    }
}

/// How a server goes on when the data socket is bound: it grants the request, or
/// declines it where no key can be agreed on.
pub open spec fn bound_stepped(
    req: Request,
    size: i64,
    crc: u32,
    port: u16,
    aes_hardware: bool,
    after: Stage,
    action: Action,
) -> bool {
    exists|prefer: Seq<String>| #[trigger]
        crate::crypto::is_local_ciphers(prefer, aes_hardware) && match action {
            Action::Grant(a, key) => after == Stage::Granting(req) && crate::transfer::answered(
                req.hello@,
                prefer,
                req.session.id,
                port as i64,
                size,
                crc,
                crate::transfer::auth_of(req.auth),
                Ok((a, key)),
            ),
            Action::Decline(a) => after is Idle && crate::transfer::answered(
                req.hello@,
                prefer,
                req.session.id,
                port as i64,
                size,
                crc,
                crate::transfer::auth_of(req.auth),
                Err(a),
            ),
            _ => false,
        }
}

/// Ends a connection because something happened that was not waited for.
fn end_out_of_turn() -> (r: (Stage, Action))
    ensures
        out_of_turn(r.0, r.1),
{
    (Stage::Over, Action::End(Err(IoError::other("event out of turn"))))
}

/// Ends a connection with a failure.
fn end_with(e: IoError) -> (r: (Stage, Action))
    ensures
        ends_with(r.0, r.1, e),
{
    (Stage::Over, Action::End(Err(e)))
}

/// Declines a request.
fn decline(text: &str) -> (r: (Stage, Action))
    ensures
        declines(r.0, r.1, crate::transfer::refusal(text@, false)),
{
    (Stage::Idle, Action::Decline(ack_err(text, false)))
}

/// Goes on with a request when the authorizer has spoken.
fn on_token(
    h: Hello,
    s: Session,
    lookup: Option<Result<Vec<u8>, String>>,
    host: &Host,
) -> (r: (Stage, Action))
    ensures
        token_stepped(h, s, lookup, *host, r.0, r.1),
{
    let auth = match authenticate(&h, lookup) {
        Ok(a) => a,
        Err(a) => {
            return (Stage::Over, Action::Refuse(a));
        },
    };
    let name = match served_object_name(h.name.as_str(), host.backslash) {
        Ok(n) => n,
        Err(e) => {
            return decline(e.message.as_str());
        },
    };
    let size: u64 = if h.size > 0 {
        h.size as u64
    } else {
        0
    };
    let action = match s.direction {
        Direction::Push => Action::OpenSink { name, size },
        Direction::Pull => Action::OpenSource { name },
    };
    (Stage::Opening(Request { hello: h, session: s, auth }), action)
}

/// Goes on when the data socket is bound.
fn on_bound(req: Request, size: i64, crc: u32, port: u16, aes_hardware: bool) -> (r: (
    Stage,
    Action,
))
    ensures
        bound_stepped(req, size, crc, port, aes_hardware, r.0, r.1),
{
    match answer(&req.hello, req.session.id, port as i64, size, crc, &req.auth, aes_hardware) {
        Ok((a, key)) => (Stage::Granting(req), Action::Grant(a, key)),
        Err(a) => (Stage::Idle, Action::Decline(a)),
    }
}

/// Takes one step of a server's connection. It begins with `Stage::Idle` and
/// `Action::ReadRequest`; after a transfer it is there again.
pub fn server_step(
    stage: Stage,
    event: Event,
    params: &TransferParams,
    limits: &ServerLimits,
    host: &Host,
) -> (r: (Stage, Action))
    ensures
        server_stepped(stage, event, *params, *limits, *host, r.0, r.1),
{
    match stage {
        Stage::Idle => match event {
            Event::Stopped => (Stage::Over, Action::End(Ok(()))),
            Event::Request(Err(e)) => if connection_ended(&e) {
                (Stage::Over, Action::End(Ok(())))
            } else {
                end_with(e)
            },
            Event::Request(Ok(h)) => match open_session(&h, params, limits) {
                Ok(s) => {
                    let mode = h.mode.as_str().to_owned();
                    let name = host_basename(h.name.as_str(), host.backslash);
                    (Stage::Authorizing(h, s), Action::Authorize { mode, name })
                },
                Err(a) => (Stage::Over, Action::Refuse(a)),
            },
            _ => end_out_of_turn(),
        },
        Stage::Authorizing(h, s) => match event {
            Event::Token(lookup) => on_token(h, s, lookup, host),
            _ => end_out_of_turn(),
        },
        Stage::Opening(req) => match event {
            Event::SinkOpened(r) => if req.session.direction == Direction::Push {
                match r {
                    Err(e) => decline(e.message.as_str()),
                    Ok(_) => (Stage::Binding(req, 0, 0), Action::Bind),
                }
            } else {
                end_out_of_turn()
            },
            Event::SourceOpened(r) => if req.session.direction == Direction::Pull {
                match r {
                    Err(e) => decline(e.message.as_str()),
                    Ok(len) => match check_source_len(len, limits) {
                        Err(text) => decline(text.as_str()),
                        Ok(size) => (Stage::Summing(req, size), Action::Checksum),
                    },
                }
            } else {
                end_out_of_turn()
            },
            _ => end_out_of_turn(),
        },
        Stage::Summing(req, size) => match event {
            Event::Summed(Err(e)) => decline(e.message.as_str()),
            Event::Summed(Ok(crc)) => (Stage::Binding(req, size, crc), Action::Bind),
            _ => end_out_of_turn(),
        },
        Stage::Binding(req, size, crc) => match event {
            Event::Bound(Err(e)) => end_with(e),
            Event::Bound(Ok(port)) => on_bound(req, size, crc, port, host.aes_hardware),
            _ => end_out_of_turn(),
        },
        Stage::Granting(req) => match event {
            Event::Sent(Err(e)) => end_with(e),
            Event::Sent(Ok(_)) => (Stage::Moving(req), Action::Run),
            _ => end_out_of_turn(),
        },
        Stage::Moving(req) => match event {
            Event::Moved(Err(e)) => end_with(e),
            Event::Moved(Ok(_)) => match req.session.direction {
                Direction::Push => (Stage::ReadingBack(req), Action::ReadBack),
                Direction::Pull => (Stage::Idle, Action::ReadRequest),
            },
            _ => end_out_of_turn(),
        },
        Stage::ReadingBack(req) => match event {
            Event::ReadBack(Err(e)) => end_with(e),
            Event::ReadBack(Ok(got)) => match check_received(
                req.hello.name.as_str(),
                got,
                req.hello.crc32c,
            ) {
                Ok(()) => (Stage::Idle, Action::ReadRequest),
                Err(e) => end_with(e),
            },
            _ => end_out_of_turn(),
        },
        Stage::Over => end_out_of_turn(),
    }
}

// --- laws of the server's side ----------------------------------------------

/// Whether a request has passed what a server asks of it before it touches an
/// object: the version, the limits, the client's proof, and the name.
pub open spec fn request_passed(
    req: Request,
    params: TransferParams,
    limits: ServerLimits,
    host: Host,
) -> bool {
    &&& crate::transfer::request_refusal(req.hello@, limits) is None
    &&& crate::transfer::is_session_for(req.session, req.hello@, params)
    &&& crate::transfer::is_plain_name(served_name(req.hello@, host), host.backslash)
    &&& match req.auth {
        Some(a) => req.hello@.auth_mac == Some(a.client_mac@) && a.client_mac@
            == crate::transfer::proof_for(a.token@, req.hello@),
        None => true,
    }
}

/// Whether what a server knows in `stage` has passed its checks.
pub open spec fn stage_sound(
    stage: Stage,
    params: TransferParams,
    limits: ServerLimits,
    host: Host,
) -> bool {
    match stage {
        Stage::Idle => true,
        Stage::Over => true,
        Stage::Authorizing(h, s) => crate::transfer::request_refusal(h@, limits) is None
            && crate::transfer::is_session_for(s, h@, params),
        Stage::Opening(req) => request_passed(req, params, limits, host),
        Stage::Summing(req, size) => request_passed(req, params, limits, host) && 0 <= size
            <= limits.max_object_size,
        Stage::Binding(req, size, crc) => request_passed(req, params, limits, host) && 0 <= size
            <= crate::stats::max_int(limits.max_object_size as int, 0),
        Stage::Granting(req) => request_passed(req, params, limits, host),
        Stage::Moving(req) => request_passed(req, params, limits, host),
        Stage::ReadingBack(req) => request_passed(req, params, limits, host),
    }
}

/// Law: no object is opened and no data moves for a request that has not passed
/// the server's checks. Every step keeps that.
pub proof fn server_steps_keep_checks(
    stage: Stage,
    event: Event,
    params: TransferParams,
    limits: ServerLimits,
    host: Host,
    after: Stage,
    action: Action,
)
    requires
        stage_sound(stage, params, limits, host),
        server_stepped(stage, event, params, limits, host, after, action),
    ensures
        stage_sound(after, params, limits, host),
        action is OpenSink ==> after is Opening && crate::transfer::is_plain_name(
            action->OpenSink_name@,
            host.backslash,
        ) && action->OpenSink_size <= limits.max_object_size,
        action is OpenSource ==> after is Opening && crate::transfer::is_plain_name(
            action->OpenSource_name@,
            host.backslash,
        ),
        action is Run ==> after is Moving,
{
}

/// Law: a client that the authorizer does not let in gets a refusal that says so,
/// and the connection ends there. With a token to expect, only a client whose
/// proof is made with that token goes on.
pub proof fn unproven_client_is_refused(
    h: Hello,
    s: Session,
    lookup: Option<Result<Vec<u8>, String>>,
    params: TransferParams,
    limits: ServerLimits,
    host: Host,
    after: Stage,
    action: Action,
)
    requires
        server_stepped(
            Stage::Authorizing(h, s),
            Event::Token(lookup),
            params,
            limits,
            host,
            after,
            action,
        ),
    ensures
        lookup matches Some(Err(_)) ==> after is Over && action is Refuse
            && action->Refuse_0.auth_required && !action->Refuse_0.ok,
        lookup matches Some(Ok(token)) ==> (after is Over && action is Refuse
            && !action->Refuse_0.ok) || h@.auth_mac == Some(
            crate::transfer::proof_for(token@, h@),
        ),
{
}

/// Law: a refused or declined request is answered with a refusal, before anything
/// was granted. A refusal ends the connection; after a declined request it waits
/// for the next one.
pub proof fn refusals_come_before_grants(
    stage: Stage,
    event: Event,
    params: TransferParams,
    limits: ServerLimits,
    host: Host,
    after: Stage,
    action: Action,
)
    requires
        server_stepped(stage, event, params, limits, host, after, action),
        action is Refuse || action is Decline,
    ensures
        action is Refuse ==> after is Over && !action->Refuse_0.ok && (stage is Idle || stage
            is Authorizing),
        action is Decline ==> after is Idle && !action->Decline_0.ok && (stage is Authorizing
            || stage is Opening || stage is Summing || stage is Binding),
{
}

/// Law: once a connection is over nothing opens it again.
pub proof fn over_stays_over(
    event: Event,
    params: TransferParams,
    limits: ServerLimits,
    host: Host,
    after: Stage,
    action: Action,
)
    requires
        server_stepped(Stage::Over, event, params, limits, host, after, action),
    ensures
        after is Over,
        action is End,
{
}

/// A connection as it went: the stage before and after each event, and what each
/// one led to.
pub struct Course {
    pub stages: Seq<Stage>,
    pub events: Seq<Event>,
    pub actions: Seq<Action>,
}

impl Course {
    /// Whether a server took the `i`-th step.
    pub open spec fn stepped(
        self,
        i: int,
        params: TransferParams,
        limits: ServerLimits,
        host: Host,
    ) -> bool {
        server_stepped(
            self.stages[i],
            self.events[i],
            params,
            limits,
            host,
            self.stages[i + 1],
            self.actions[i],
        )
    }

    /// Whether a server took every step, from where a connection begins.
    pub open spec fn possible(
        self,
        params: TransferParams,
        limits: ServerLimits,
        host: Host,
    ) -> bool {
        &&& self.stages.len() == self.events.len() + 1
        &&& self.actions.len() == self.events.len()
        &&& self.stages[0] is Idle
        &&& forall|i: int|
            0 <= i < self.events.len() ==> #[trigger] self.stepped(i, params, limits, host)
    }
}

/// Law: at every point of every connection, what the server works on has passed
/// its checks.
pub proof fn connections_keep_checks(
    c: Course,
    n: int,
    params: TransferParams,
    limits: ServerLimits,
    host: Host,
)
    requires
        c.possible(params, limits, host),
        0 <= n < c.stages.len(),
    ensures
        stage_sound(c.stages[n], params, limits, host),
    decreases n,
{
    if n > 0 {
        connections_keep_checks(c, n - 1, params, limits, host);
        assert(c.stepped(n - 1, params, limits, host));
        server_steps_keep_checks(
            c.stages[n - 1],
            c.events[n - 1],
            params,
            limits,
            host,
            c.stages[n],
            c.actions[n - 1],
        );
    }
}

/// Law: a server moves data only for a request that has passed its checks and
/// whose grant has just been sent, under the session id of that grant.
pub proof fn data_moves_only_after_grant(
    c: Course,
    i: int,
    params: TransferParams,
    limits: ServerLimits,
    host: Host,
)
    requires
        c.possible(params, limits, host),
        0 <= i < c.actions.len(),
        c.actions[i] is Run,
    ensures
        0 < i,
        c.actions[i - 1] is Grant,
        c.actions[i - 1]->Grant_0.ok,
        c.events[i] is Sent,
        c.events[i]->Sent_0 is Ok,
        c.stages[i + 1] is Moving,
        c.stages[i + 1]->Moving_0.session.id == c.actions[i - 1]->Grant_0.session,
        request_passed(c.stages[i + 1]->Moving_0, params, limits, host),
{
    assert(c.stepped(i, params, limits, host));
    assert(c.stages[i] is Granting);
    assert(c.stepped(i - 1, params, limits, host));
    connections_keep_checks(c, i + 1, params, limits, host);
}

/// Law: the authorizer is asked about every object that is opened, just before,
/// and under the name under which it is opened; for writing where the client
/// pushes, for reading where it pulls.
pub proof fn opened_objects_were_asked_about(
    c: Course,
    i: int,
    params: TransferParams,
    limits: ServerLimits,
    host: Host,
)
    requires
        c.possible(params, limits, host),
        0 <= i < c.actions.len(),
        c.actions[i] is OpenSink || c.actions[i] is OpenSource,
    ensures
        0 < i,
        c.actions[i - 1] is Authorize,
        c.events[i] is Token,
        !(c.events[i]->Token_0 matches Some(Err(_))),
        c.actions[i] is OpenSink ==> c.actions[i]->OpenSink_name@
            == c.actions[i - 1]->Authorize_name@ && c.actions[i - 1]->mode@ == MODE_SEND@,
        c.actions[i] is OpenSource ==> c.actions[i]->OpenSource_name@
            == c.actions[i - 1]->Authorize_name@ && c.actions[i - 1]->mode@ == MODE_RECV@,
{
    assert(c.stepped(i, params, limits, host));
    assert(c.stages[i] is Authorizing);
    assert(c.stepped(i - 1, params, limits, host));
    assert(c.stages[i - 1] is Idle);
}

// --- the client's side of a transfer ----------------------------------------

/// What a client wants.
pub struct Job {
    pub direction: Direction,
    pub name: String,
    pub params: TransferParams,
    pub warm: Option<RateWarmStart>,
    pub token: Option<Vec<u8>>,
    pub aes_hardware: bool,
}

/// Where a client stands with a transfer.
pub enum ClientStage {
    /// It waits for the size and checksum of the object that it pushes.
    Summing,
    /// It waits for its hello to be sent.
    Greeting(Hello, Option<SecretKey>),
    /// It waits for the server's ack.
    Awaiting(Hello, Option<SecretKey>),
    /// It waits for the sink to be sized.
    Allocating(Ack, Option<Arc<AeadBox>>),
    /// It waits for a data socket, for an object of this size.
    Binding(Ack, Option<Arc<AeadBox>>, i64),
    /// It waits for the data plane.
    Moving(Ack),
    /// It waits for the received object to be read back.
    ReadingBack(Ack),
    /// The transfer is over.
    Over,
}

/// What has happened on a client's side.
pub enum ClientEvent {
    /// The size and the checksum of the object.
    Summed(Result<(i64, u32), IoError>),
    /// The hello was sent.
    Sent(Result<(), IoError>),
    /// The ack came, or could not be read.
    Answered(Result<Ack, IoError>),
    /// The sink was sized.
    Allocated(Result<(), IoError>),
    /// The data socket was bound and the peer resolved.
    Bound(Result<(), IoError>),
    /// The data plane is done.
    Moved(Result<(), IoError>),
    /// The received object was flushed and, where the sink can, read back.
    ReadBack(Result<Option<u32>, IoError>),
}

/// What a client has to do next.
pub enum ClientAction {
    /// Find out the object's size and checksum.
    Checksum,
    /// Send the hello that the stage holds.
    SendHello,
    ReadAck,
    /// Size the sink.
    Allocate(u64),
    /// Bind a data socket, and resolve the server's data port.
    Bind { udp_port: i64 },
    /// Run the data plane of this session, with this key.
    Run { session: u32, size: i64, key: Option<Arc<AeadBox>> },
    /// Flush the sink and read its checksum back.
    ReadBack,
    /// The transfer is over.
    End(Result<(), GirthError>),
}

/// Whether the transfer ends with the error `e`.
pub open spec fn fails_with(after: ClientStage, action: ClientAction, e: GirthError) -> bool {
    after is Over && action is End && action->End_0 == Err::<(), GirthError>(e)
}

/// Whether the transfer ends because something happened that was not waited for.
pub open spec fn client_out_of_turn(after: ClientStage, action: ClientAction) -> bool {
    &&& after is Over
    &&& action is End
    &&& action->End_0 is Err
    &&& action->End_0->Err_0 is Protocol
    &&& action->End_0->Err_0->Protocol_0@ == "event out of turn"@
}

/// The mode that a direction has in a hello.
pub open spec fn mode_of(d: Direction) -> Seq<char> {
    match d {
        Direction::Push => MODE_SEND@,
        Direction::Pull => MODE_RECV@,
    }
}

/// The token of a job, as bytes.
pub open spec fn job_token(job: Job) -> Option<Seq<u8>> {
    match job.token {
        Some(t) => Some(t@),
        None => None,
    }
}

/// Whether the client greets for an object of this size and checksum.
pub open spec fn greets(
    job: Job,
    size: i64,
    crc: u32,
    after: ClientStage,
    action: ClientAction,
) -> bool {
    match after {
        ClientStage::Greeting(hello, secret) => action is SendHello
            && crate::transfer::opens_handshake(
            mode_of(job.direction),
            job.name@,
            size,
            crc,
            job.params,
            job.warm,
            job_token(job),
            job.aes_hardware,
            hello@,
            secret,
        ),
        _ => false,
    }
}

/// How a client begins: a push with the object's checksum, a pull with its hello.
pub open spec fn client_began(job: Job, after: ClientStage, action: ClientAction) -> bool {
    match job.direction {
        Direction::Push => after is Summing && action is Checksum,
        Direction::Pull => greets(job, 0, 0, after, action),
    }
}

/// How a client with this job goes on when `event` happens in `stage`.
pub open spec fn client_stepped(
    job: Job,
    stage: ClientStage,
    event: ClientEvent,
    after: ClientStage,
    action: ClientAction,
) -> bool {
    match stage {
        ClientStage::Summing => match event {
            ClientEvent::Summed(Err(e)) => fails_with(after, action, crate::error::from_io(e)),
            ClientEvent::Summed(Ok((size, crc))) => greets(job, size, crc, after, action),
            _ => client_out_of_turn(after, action),
        },
        ClientStage::Greeting(hello, secret) => match event {
            ClientEvent::Sent(Err(e)) => fails_with(after, action, crate::error::from_io(e)),
            ClientEvent::Sent(Ok(_)) => after == ClientStage::Awaiting(hello, secret) && action
                is ReadAck,
            _ => client_out_of_turn(after, action),
        },
        ClientStage::Awaiting(hello, secret) => match event {
            ClientEvent::Answered(Err(e)) => fails_with(after, action, crate::error::from_io(e)),
            ClientEvent::Answered(Ok(a)) => ack_stepped(job, hello, secret, a, after, action),
            _ => client_out_of_turn(after, action),
        },
        ClientStage::Allocating(a, key) => match event {
            ClientEvent::Allocated(Err(e)) => fails_with(after, action, crate::error::from_io(e)),
            ClientEvent::Allocated(Ok(_)) => after == ClientStage::Binding(a, key, a.size)
                && action == (ClientAction::Bind { udp_port: a.udp_port }),
            _ => client_out_of_turn(after, action),
        },
        ClientStage::Binding(a, key, size) => match event {
            ClientEvent::Bound(Err(e)) => fails_with(after, action, crate::error::from_io(e)),
            ClientEvent::Bound(Ok(_)) => after == ClientStage::Moving(a) && action == (
            ClientAction::Run { session: a.session, size, key }),
            _ => client_out_of_turn(after, action),
        },
        ClientStage::Moving(a) => match event {
            ClientEvent::Moved(Err(e)) => fails_with(after, action, crate::error::from_io(e)),
            ClientEvent::Moved(Ok(_)) => if job.direction == Direction::Pull {
                after == ClientStage::ReadingBack(a) && action is ReadBack
            } else {
                after is Over && action is End && action->End_0 is Ok
            },
            _ => client_out_of_turn(after, action),
        },
        ClientStage::ReadingBack(a) => match event {
            ClientEvent::ReadBack(Err(e)) => fails_with(after, action, crate::error::from_io(e)),
            ClientEvent::ReadBack(Ok(got)) => if got is None || got == Some(a.crc32c) {
                after is Over && action is End && action->End_0 is Ok
            } else {
                after is Over && action is End && action->End_0 is Err && action->End_0->Err_0
                    is Integrity
            },
            _ => client_out_of_turn(after, action),
        },
        ClientStage::Over => client_out_of_turn(after, action),
    }
}

/// How a client goes on with the server's ack: a pull sizes its sink, a push
/// binds its socket, and a refusal or a failed check ends the transfer.
pub open spec fn ack_stepped(
    job: Job,
    hello: Hello,
    secret: Option<SecretKey>,
    a: Ack,
    after: ClientStage,
    action: ClientAction,
) -> bool {
    match after {
        ClientStage::Allocating(ack, key) => job.direction == Direction::Pull && ack == a && action
            == ClientAction::Allocate(crate::stats::max_int(a.size as int, 0) as u64)
            && ack_passes(job, hello@, secret, a@, Ok(key)),
        ClientStage::Binding(ack, key, size) => job.direction == Direction::Push && ack == a && size
            == hello.size && action == (ClientAction::Bind { udp_port: a.udp_port }) && ack_passes(
            job,
            hello@,
            secret,
            a@,
            Ok(key),
        ),
        ClientStage::Over => action is End && action->End_0 is Err && ack_passes(
            job,
            hello@,
            secret,
            a@,
            Err(action->End_0->Err_0),
        ),
        _ => false,
    }
}

/// Whether `r` is the client's judgement of the server's ack.
pub open spec fn ack_passes(
    job: Job,
    hello: crate::control::HelloView,
    secret: Option<SecretKey>,
    a: crate::control::AckView,
    r: Result<Option<Arc<AeadBox>>, GirthError>,
) -> bool {
    crate::transfer::ack_judged(
        a,
        job.params.encrypt,
        job_token(job),
        hello.auth_mac,
        match secret {
            Some(k) => Some(k@),
            None => None,
        },
        r,
    )
}

/// Greets for an object of this size and checksum.
fn greet(job: &Job, size: i64, crc: u32) -> (r: (ClientStage, ClientAction))
    ensures
        greets(*job, size, crc, r.0, r.1),
{
    let mode = match job.direction {
        Direction::Push => MODE_SEND,
        Direction::Pull => MODE_RECV,
    };
    let token: Option<&[u8]> = match &job.token {
        Some(t) => Some(t.as_slice()),
        None => None,
    };
    let (hello, secret) = client_hello(
        mode,
        job.name.as_str(),
        size,
        crc,
        &job.params,
        job.warm,
        token,
        job.aes_hardware,
    );
    (ClientStage::Greeting(hello, secret), ClientAction::SendHello)
}

/// Ends a transfer with an I/O failure.
fn fail_with(e: IoError) -> (r: (ClientStage, ClientAction))
    ensures
        fails_with(r.0, r.1, crate::error::from_io(e)),
{
    (ClientStage::Over, ClientAction::End(Err(GirthError::from(e))))
}

/// Ends a transfer because something happened that was not waited for.
fn fail_out_of_turn() -> (r: (ClientStage, ClientAction))
    ensures
        client_out_of_turn(r.0, r.1),
{
    (
        ClientStage::Over,
        ClientAction::End(Err(GirthError::Protocol("event out of turn".to_owned()))),
    )
}

/// Goes on with the server's ack.
fn on_ack(job: &Job, hello: Hello, secret: Option<SecretKey>, a: Ack) -> (r: (
    ClientStage,
    ClientAction,
))
    ensures
        ack_stepped(*job, hello, secret, a, r.0, r.1),
{
    let token: Option<&[u8]> = match &job.token {
        Some(t) => Some(t.as_slice()),
        None => None,
    };
    let client_mac: Option<&[u8]> = match &hello.auth_mac {
        Some(m) => Some(m.as_slice()),
        None => None,
    };
    match accept_ack(&a, job.params.encrypt, token, client_mac, secret.as_ref()) {
        Err(e) => (ClientStage::Over, ClientAction::End(Err(e))),
        Ok(key) => match job.direction {
            Direction::Push => {
                let udp_port: i64 = a.udp_port;
                (ClientStage::Binding(a, key, hello.size), ClientAction::Bind { udp_port })
            },
            Direction::Pull => {
                let size: u64 = if a.size > 0 {
                    a.size as u64
                } else {
                    0
                };
                (ClientStage::Allocating(a, key), ClientAction::Allocate(size))
            },
        },
    }
}

/// Begins a client's transfer.
pub fn client_begin(job: &Job) -> (r: (ClientStage, ClientAction))
    ensures
        client_began(*job, r.0, r.1),
{
    match job.direction {
        Direction::Push => (ClientStage::Summing, ClientAction::Checksum),
        Direction::Pull => greet(job, 0, 0),
    }
}

/// Takes one step of a client's transfer.
pub fn client_step(job: &Job, stage: ClientStage, event: ClientEvent) -> (r: (
    ClientStage,
    ClientAction,
))
    ensures
        client_stepped(*job, stage, event, r.0, r.1),
{
    match stage {
        ClientStage::Summing => match event {
            ClientEvent::Summed(Err(e)) => fail_with(e),
            ClientEvent::Summed(Ok((size, crc))) => greet(job, size, crc),
            _ => fail_out_of_turn(),
        },
        ClientStage::Greeting(hello, secret) => match event {
            ClientEvent::Sent(Err(e)) => fail_with(e),
            ClientEvent::Sent(Ok(_)) => (
                ClientStage::Awaiting(hello, secret),
                ClientAction::ReadAck,
            ),
            _ => fail_out_of_turn(),
        },
        ClientStage::Awaiting(hello, secret) => match event {
            ClientEvent::Answered(Err(e)) => fail_with(e),
            ClientEvent::Answered(Ok(a)) => on_ack(job, hello, secret, a),
            _ => fail_out_of_turn(),
        },
        ClientStage::Allocating(a, key) => match event {
            ClientEvent::Allocated(Err(e)) => fail_with(e),
            ClientEvent::Allocated(Ok(_)) => {
                let udp_port: i64 = a.udp_port;
                let size: i64 = a.size;
                (ClientStage::Binding(a, key, size), ClientAction::Bind { udp_port })
            },
            _ => fail_out_of_turn(),
        },
        ClientStage::Binding(a, key, size) => match event {
            ClientEvent::Bound(Err(e)) => fail_with(e),
            ClientEvent::Bound(Ok(_)) => {
                let session: u32 = a.session;
                (ClientStage::Moving(a), ClientAction::Run { session, size, key })
            },
            _ => fail_out_of_turn(),
        },
        ClientStage::Moving(a) => match event {
            ClientEvent::Moved(Err(e)) => fail_with(e),
            ClientEvent::Moved(Ok(_)) => match job.direction {
                Direction::Pull => (ClientStage::ReadingBack(a), ClientAction::ReadBack),
                Direction::Push => (ClientStage::Over, ClientAction::End(Ok(()))),
            },
            _ => fail_out_of_turn(),
        },
        ClientStage::ReadingBack(a) => match event {
            ClientEvent::ReadBack(Err(e)) => fail_with(e),
            ClientEvent::ReadBack(Ok(got)) => match check_integrity(got, a.crc32c) {
                Ok(()) => (ClientStage::Over, ClientAction::End(Ok(()))),
                Err(e) => (ClientStage::Over, ClientAction::End(Err(e))),
            },
            _ => fail_out_of_turn(),
        },
        ClientStage::Over => fail_out_of_turn(),
    }
}

/// The phase of a transfer whose client is about to take this action.
pub open spec fn phase_of(action: ClientAction) -> TransferPhase {
    match action {
        ClientAction::Run { .. } => TransferPhase::Transferring,
        ClientAction::ReadBack => TransferPhase::Verifying,
        ClientAction::End(Ok(_)) => TransferPhase::Complete,
        ClientAction::End(Err(_)) => TransferPhase::Failed,
        _ => TransferPhase::Connecting,
    }
}

/// The phase of a transfer whose client is about to take this action.
pub fn client_phase(action: &ClientAction) -> (r: TransferPhase)
    ensures
        r == phase_of(*action),
{
    match action {
        ClientAction::Run { .. } => TransferPhase::Transferring,
        ClientAction::ReadBack => TransferPhase::Verifying,
        ClientAction::End(Ok(_)) => TransferPhase::Complete,
        ClientAction::End(Err(_)) => TransferPhase::Failed,
        _ => TransferPhase::Connecting,
    }
}

// --- laws of the client's side ----------------------------------------------

/// Whether an ack lets a client's data move: the server granted the request,
/// proved the token where the client has one, and there is a key exactly where
/// the client asked for encryption.
pub open spec fn ack_sound(job: Job, a: Ack, key: Option<Arc<AeadBox>>) -> bool {
    &&& a.ok
    &&& (key is Some) == job.params.encrypt
    &&& job_token(job) matches Some(t) ==> exists|mac: Seq<u8>| #[trigger]
        crate::transfer::server_proven(t, mac, a@)
}

/// Whether what a client knows in `stage` lets it go on.
pub open spec fn client_sound(job: Job, stage: ClientStage) -> bool {
    match stage {
        ClientStage::Greeting(hello, _) => job_token(job) is Some ==> hello@.auth_mac is Some,
        ClientStage::Awaiting(hello, _) => job_token(job) is Some ==> hello@.auth_mac is Some,
        ClientStage::Allocating(a, key) => ack_sound(job, a, key),
        ClientStage::Binding(a, key, _) => ack_sound(job, a, key),
        _ => true,
    }
}

/// Law: a client moves no data on a refusal, to a server that has not proved the
/// token, or in clear where it asked for encryption. Every step keeps that.
pub proof fn client_steps_keep_checks(
    job: Job,
    stage: ClientStage,
    event: ClientEvent,
    after: ClientStage,
    action: ClientAction,
)
    requires
        client_sound(job, stage),
        client_stepped(job, stage, event, after, action),
    ensures
        client_sound(job, after),
        action is Run ==> (action->key is Some) == job.params.encrypt,
        action matches ClientAction::Run { .. } ==> stage is Binding,
{
    match stage {
        ClientStage::Awaiting(hello, secret) => {
            match event {
                ClientEvent::Answered(Ok(a)) => {
                    if job_token(job) is Some {
                        assert(after is Over || crate::transfer::server_proven(
                            job_token(job)->Some_0,
                            hello@.auth_mac->Some_0,
                            a@,
                        ));
                    }
                },
                _ => {},
            }
        },
        _ => {},
    }
}

/// A client's transfer as it went: the stages, what each one had to do, and the
/// events between them.
pub struct ClientCourse {
    pub stages: Seq<ClientStage>,
    pub actions: Seq<ClientAction>,
    pub events: Seq<ClientEvent>,
}

impl ClientCourse {
    /// Whether a client took the step after the `i`-th stage.
    pub open spec fn stepped(self, job: Job, i: int) -> bool {
        client_stepped(
            job,
            self.stages[i],
            self.events[i],
            self.stages[i + 1],
            self.actions[i + 1],
        )
    }

    /// Whether a client began the transfer and took every step.
    pub open spec fn possible(self, job: Job) -> bool {
        &&& self.stages.len() == self.events.len() + 1
        &&& self.actions.len() == self.events.len() + 1
        &&& client_began(job, self.stages[0], self.actions[0])
        &&& forall|i: int| 0 <= i < self.events.len() ==> #[trigger] self.stepped(job, i)
    }
}

/// Law: at every point of every transfer, what the client goes by has passed its
/// checks.
pub proof fn transfers_keep_checks(job: Job, c: ClientCourse, n: int)
    requires
        c.possible(job),
        0 <= n < c.stages.len(),
    ensures
        client_sound(job, c.stages[n]),
    decreases n,
{
    if n > 0 {
        transfers_keep_checks(job, c, n - 1);
        assert(c.stepped(job, n - 1));
        client_steps_keep_checks(
            job,
            c.stages[n - 1],
            c.events[n - 1],
            c.stages[n],
            c.actions[n],
        );
    }
}

/// Law: a client's data moves under the session of an ack that has passed its
/// checks, with the key that was agreed on with it.
pub proof fn data_moves_only_on_sound_ack(job: Job, c: ClientCourse, i: int)
    requires
        c.possible(job),
        0 <= i < c.actions.len(),
        c.actions[i] is Run,
    ensures
        0 < i,
        c.stages[i - 1] is Binding,
        ack_sound(job, c.stages[i - 1]->Binding_0, c.stages[i - 1]->Binding_1),
        c.actions[i]->session == c.stages[i - 1]->Binding_0.session,
        c.actions[i]->key == c.stages[i - 1]->Binding_1,
{
    assert(0 < i);
    assert(c.stepped(job, i - 1));
    transfers_keep_checks(job, c, i - 1);
}

/// Law: a transfer that ends well has moved its data, and a pulled object whose
/// checksum was read back is the one that the server announced.
pub proof fn good_end_is_verified(
    job: Job,
    stage: ClientStage,
    event: ClientEvent,
    after: ClientStage,
    action: ClientAction,
)
    requires
        client_stepped(job, stage, event, after, action),
        action is End,
        action->End_0 is Ok,
    ensures
        after is Over,
        job.direction == Direction::Push ==> stage is Moving || stage is ReadingBack,
        job.direction == Direction::Pull ==> stage is ReadingBack,
        stage is ReadingBack ==> event is ReadBack && event->ReadBack_0 is Ok && (
        event->ReadBack_0->Ok_0 is None || event->ReadBack_0->Ok_0 == Some(
            stage->ReadingBack_0.crc32c,
        )),
{
}

/// The failure that an event tells of, if it tells of one.
pub open spec fn failure_in(event: ClientEvent) -> Option<IoError> {
    match event {
        ClientEvent::Summed(Err(e)) => Some(e),
        ClientEvent::Sent(Err(e)) => Some(e),
        ClientEvent::Answered(Err(e)) => Some(e),
        ClientEvent::Allocated(Err(e)) => Some(e),
        ClientEvent::Bound(Err(e)) => Some(e),
        ClientEvent::Moved(Err(e)) => Some(e),
        ClientEvent::ReadBack(Err(e)) => Some(e),
        _ => None,
    }
}

/// Law: a transfer that the caller asks to end while its data moves ends as
/// stopped, and no other transfer does.
pub proof fn stopped_iff_asked_to_end(
    job: Job,
    stage: ClientStage,
    event: ClientEvent,
    after: ClientStage,
    action: ClientAction,
)
    requires
        client_stepped(job, stage, event, after, action),
    ensures
        stage is Moving && event is Moved && event->Moved_0 is Err
            && event->Moved_0->Err_0.kind == crate::error::IoKind::Stopped ==> fails_with(
            after,
            action,
            GirthError::Stopped,
        ),
        fails_with(after, action, GirthError::Stopped) ==> failure_in(event) is Some && failure_in(
            event,
        )->Some_0.kind == crate::error::IoKind::Stopped,
{
}

/// The phase of a transfer whose client stands here.
pub open spec fn phase_at(stage: ClientStage) -> TransferPhase {
    match stage {
        ClientStage::Moving(_) => TransferPhase::Transferring,
        ClientStage::ReadingBack(_) => TransferPhase::Verifying,
        _ => TransferPhase::Connecting,
    }
}

/// Law: a transfer's phases only move forward.
pub proof fn phases_move_forward(
    job: Job,
    stage: ClientStage,
    event: ClientEvent,
    after: ClientStage,
    action: ClientAction,
)
    requires
        client_stepped(job, stage, event, after, action),
    ensures
        phase_at(stage).number() <= phase_of(action).number(),
        !(after is Over) ==> phase_of(action) == phase_at(after),
{
}

// --- laws of both sides -----------------------------------------------------

/// Law: a client goes on with what a server grants it. Where both have the same
/// token, or neither has one, a grant for the client's hello is never taken for a
/// failure, and both ends hold the same key. They move an object of the same size
/// in blocks of the same size under the same session.
pub proof fn grant_is_accepted(
    job: Job,
    size: i64,
    crc: u32,
    greeting: ClientStage,
    greeting_action: ClientAction,
    req: Request,
    params: TransferParams,
    object_size: i64,
    object_crc: u32,
    port: u16,
    server_aes: bool,
    granting: Stage,
    a: Ack,
    server_key: Option<Arc<AeadBox>>,
    after: ClientStage,
    action: ClientAction,
)
    requires
        greets(job, size, crc, greeting, greeting_action),
        req.hello@ == greeting->Greeting_0@,
        crate::transfer::is_session_for(req.session, req.hello@, params),
        job.params.block_size <= i64::MAX,
        match job_token(job) {
            Some(t) => crate::transfer::auth_of(req.auth) == Some(
                (t, req.hello@.auth_mac->Some_0),
            ),
            None => req.auth is None,
        },
        bound_stepped(
            req,
            object_size,
            object_crc,
            port,
            server_aes,
            granting,
            Action::Grant(a, server_key),
        ),
        ack_stepped(job, greeting->Greeting_0, greeting->Greeting_1, a, after, action),
    ensures
        !(after is Over),
        match (server_key, held_key(after)) {
            (Some(s), Some(c)) => job.params.encrypt && s.suite() == c.suite() && s.key()
                == c.key(),
            (None, None) => !job.params.encrypt,
            _ => false,
        },
        a.session == req.session.id,
        req.session.params.block_size == job.params.block_size,
        req.session.direction == job.direction,
        match after {
            ClientStage::Binding(_, _, moved) => moved == size && moved == req.hello.size,
            ClientStage::Allocating(ack, _) => ack.size == object_size,
            _ => false,
        },
{
    mode_strings_differ();
    let hello = req.hello@;
    let auth = crate::transfer::auth_of(req.auth);
    let prefer = choose|prefer: Seq<String>| #[trigger]
        crate::crypto::is_local_ciphers(prefer, server_aes) && crate::transfer::answered(
            hello,
            prefer,
            req.session.id,
            port as i64,
            object_size,
            object_crc,
            auth,
            Ok((a, server_key)),
        );
    let public = match a.pub_key {
        Some(k) => k@,
        None => Seq::empty(),
    };
    if job_token(job) is Some {
        crate::transfer::honest_server_is_proven(
            hello,
            req.session.id,
            port as i64,
            object_size,
            object_crc,
            hello.encrypt,
            a.cipher@,
            public,
            job_token(job)->Some_0,
            hello.auth_mac->Some_0,
        );
    }
    if job.params.encrypt {
        crate::crypto::chosen_is_preferred(prefer, crate::transfer::listed_ciphers(hello));
    }
    assert(!(after is Over));
    grant_pairs_both_ends(
        job,
        size,
        crc,
        greeting,
        greeting_action,
        req,
        params,
        object_size,
        object_crc,
        port,
        server_aes,
        granting,
        a,
        server_key,
        a,
        after,
        action,
    );
}

/// Law: a client that goes on with a server's grant, and that server, are the two
/// ends of one transfer: under the same session, for an object of the same size in
/// blocks of the same size, and with the same key or both in clear. `b` is the
/// grant `a` as the client got it.
pub proof fn grant_pairs_both_ends(
    job: Job,
    size: i64,
    crc: u32,
    greeting: ClientStage,
    greeting_action: ClientAction,
    req: Request,
    params: TransferParams,
    object_size: i64,
    object_crc: u32,
    port: u16,
    server_aes: bool,
    granting: Stage,
    a: Ack,
    server_key: Option<Arc<AeadBox>>,
    b: Ack,
    after: ClientStage,
    action: ClientAction,
)
    requires
        greets(job, size, crc, greeting, greeting_action),
        req.hello@ == greeting->Greeting_0@,
        crate::transfer::is_session_for(req.session, req.hello@, params),
        job.params.block_size <= i64::MAX,
        bound_stepped(
            req,
            object_size,
            object_crc,
            port,
            server_aes,
            granting,
            Action::Grant(a, server_key),
        ),
        b@ == a@,
        ack_stepped(job, greeting->Greeting_0, greeting->Greeting_1, b, after, action),
        !(after is Over),
    ensures
        match (server_key, held_key(after)) {
            (Some(s), Some(c)) => job.params.encrypt && s.suite() == c.suite() && s.key()
                == c.key(),
            (None, None) => !job.params.encrypt,
            _ => false,
        },
        b.session == req.session.id,
        b.crc32c == object_crc,
        req.session.params.block_size == job.params.block_size,
        req.session.direction == job.direction,
        match after {
            ClientStage::Binding(ack, _, moved) => ack == b && moved == size && moved
                == req.hello.size,
            ClientStage::Allocating(ack, _) => ack == b && ack.size == object_size,
            _ => false,
        },
{
    mode_strings_differ();
    let hello = req.hello@;
    let auth = crate::transfer::auth_of(req.auth);
    let prefer = choose|prefer: Seq<String>| #[trigger]
        crate::crypto::is_local_ciphers(prefer, server_aes) && crate::transfer::answered(
            hello,
            prefer,
            req.session.id,
            port as i64,
            object_size,
            object_crc,
            auth,
            Ok((a, server_key)),
        );
    if job.params.encrypt {
        crate::crypto::chosen_is_preferred(prefer, crate::transfer::listed_ciphers(hello));
        assert(crate::control::bytes_or_empty(a.pub_key) == crate::control::bytes_or_empty(
            b.pub_key,
        )) by {
            assert(a@.pub_key == b@.pub_key);
        }
        crate::transfer::handshake_agrees_on_key(
            mode_of(job.direction),
            job.name@,
            size,
            crc,
            job.params,
            job.warm,
            job_token(job),
            job.aes_hardware,
            hello,
            greeting->Greeting_1->Some_0,
            prefer,
            server_aes,
            req.session.id,
            port as i64,
            object_size,
            object_crc,
            auth,
            a,
            server_key->Some_0,
            held_key(after)->Some_0,
        );
    }
}

/// The two modes are told apart.
proof fn mode_strings_differ()
    ensures
        MODE_SEND@ != MODE_RECV@,
{
    reveal_strlit("send");
    reveal_strlit("recv");
    assert(MODE_SEND@[0] != MODE_RECV@[0]);
}

/// The data key that a client holds.
pub open spec fn held_key(stage: ClientStage) -> Option<Arc<AeadBox>> {
    match stage {
        ClientStage::Allocating(_, key) => key,
        ClientStage::Binding(_, key, _) => key,
        _ => None,
    }
}

} // verus!
