//! What holds of the course of a connection and of a transfer: what each event
//! leads to, and what decides how it ends.

use crate::control::{host_basename, Ack, Hello, TransferParams};
use crate::crypto::{AeadBox, SecretKey};
use crate::error::{GirthError, IoError, IoKind};
use crate::runtime::TransferPhase;
use crate::session::{
    client_begin, client_phase, client_step, server_step, Action, ClientAction, ClientEvent,
    ClientStage, Event, Host, Job, Request, Stage,
};
use crate::transfer::{
    accept_ack, authenticate, check_received, check_source_len, open_session, served_object_name,
    verify_server_auth, AuthState, Direction, ServerLimits, Session,
};
use std::sync::Arc;
use vstd::prelude::*;

verus! {

// --- the server -------------------------------------------------------------

/// Law: a server goes on with a request exactly where it is of its version and
/// breaks none of its limits, and then asks the authorizer about it, in the mode
/// and the block size that the client asked for; any other is refused and the
/// connection ends.
pub proof fn servers_take_requests_within_limits()
    ensures
        forall|h: Hello, p: &TransferParams, l: &ServerLimits, host: &Host, r: (Stage, Action)|
         #[trigger]
            call_ensures(server_step, (Stage::Idle, Event::Request(Ok(h)), p, l, host), r) ==> {
                let fine = h.version == 1 && forall|k: int|
                    0 <= k < 12 ==> !#[trigger] crate::laws::handshake::breaks(h, *l, k);
                &&& r.1 is Authorize <==> fine
                &&& r.1 is Refuse <==> !fine
                &&& fine ==> {
                    &&& r.0 is Authorizing
                    &&& r.0->Authorizing_0 == h
                    &&& r.0->Authorizing_1.params.adaptive == h.adaptive
                    &&& r.0->Authorizing_1.params.block_size == h.block_size
                    &&& r.0->Authorizing_1.direction == Direction::Push <==> h.mode@ == "send"@
                    &&& r.1->mode@ == h.mode@
                }
                &&& !fine ==> r.0 is Over && !r.1->Refuse_0.ok
            },
        forall|e: IoError, p: &TransferParams, l: &ServerLimits, host: &Host, r: (Stage, Action)|
         #[trigger]
            call_ensures(server_step, (Stage::Idle, Event::Request(Err(e)), p, l, host), r) ==> {
                let gone = e.kind == IoKind::UnexpectedEof || e.kind == IoKind::ConnectionReset;
                &&& r.0 is Over && r.1 is End
                &&& r.1->End_0 is Ok <==> gone
                &&& !gone ==> r.1->End_0->Err_0 == e
            },
        forall|p: &TransferParams, l: &ServerLimits, host: &Host, r: (Stage, Action)| #[trigger]
            call_ensures(server_step, (Stage::Idle, Event::Stopped, p, l, host), r) ==> r.0 is Over
                && r.1 is End && r.1->End_0 is Ok,
{
    reveal_strlit("send");
    reveal_strlit("recv");
    assert("send"@[0] != "recv"@[0]);
    assert forall|h: Hello, p: &TransferParams, l: &ServerLimits, host: &Host, r: (Stage, Action)|
     #[trigger]
        call_ensures(server_step, (Stage::Idle, Event::Request(Ok(h)), p, l, host), r) implies {
        let fine = h.version == 1 && forall|k: int|
            0 <= k < 12 ==> !#[trigger] crate::laws::handshake::breaks(h, *l, k);
        &&& r.1 is Authorize <==> fine
        &&& r.1 is Refuse <==> !fine
        &&& fine ==> {
            &&& r.0 is Authorizing
            &&& r.0->Authorizing_0 == h
            &&& r.0->Authorizing_1.params.adaptive == h.adaptive
            &&& r.0->Authorizing_1.params.block_size == h.block_size
            &&& r.0->Authorizing_1.direction == Direction::Push <==> h.mode@ == "send"@
            &&& r.1->mode@ == h.mode@
        }
        &&& !fine ==> r.0 is Over && !r.1->Refuse_0.ok
    } by {
        crate::laws::handshake::limits_are_the_rules(h, *l);
    }
}

/// Law: a client that is let in has the object opened that its request names, for
/// writing where it pushes and for reading where it pulls, at the size that it
/// announced. An open server lets everybody in; one that wants a token only those
/// whose proof is the one that the token gives.
pub proof fn servers_open_for_those_let_in()
    ensures
        forall|
            h: Hello,
            s: Session,
            lookup: Option<Result<Vec<u8>, String>>,
            p: &TransferParams,
            l: &ServerLimits,
            host: &Host,
            r: (Stage, Action),
        |
            #![trigger call_ensures(server_step, (Stage::Authorizing(h, s), Event::Token(lookup), p, l, host), r)]
            call_ensures(
                server_step,
                (Stage::Authorizing(h, s), Event::Token(lookup), p, l, host),
                r,
            ) ==> {
                let let_in = lookup is None || (lookup->Some_0 is Ok && h.auth_mac is Some
                    && h.auth_mac->Some_0@ == crate::auth::client_mac_of(
                    lookup->Some_0->Ok_0@,
                    h.version,
                    h.mode@,
                    h.name@,
                    h.size,
                    crate::control::bytes_or_empty(h.pub_key),
                ));
                &&& r.1 is Refuse <==> !let_in
                &&& r.1 is Refuse ==> r.0 is Over && !r.1->Refuse_0.ok && r.1->Refuse_0.auth_required
                &&& r.0 is Opening ==> r.0->Opening_0.hello == h && r.0->Opening_0.session == s
                &&& r.0 is Opening && s.direction == Direction::Push ==> r.1 is OpenSink
                &&& r.0 is Opening && s.direction == Direction::Pull ==> r.1 is OpenSource
                &&& r.1 is OpenSink ==> let_in && r.0 is Opening && s.direction == Direction::Push
                &&& r.1 is OpenSource ==> let_in && r.0 is Opening && s.direction
                    == Direction::Pull
                &&& r.1 is OpenSink && h.size >= 0 ==> r.1->OpenSink_size == h.size
                &&& r.1 is OpenSink && h.size < 0 ==> r.1->OpenSink_size == 0
                &&& let_in && !(r.0 is Opening) ==> r.0 is Idle && r.1 is Decline
                    && !r.1->Decline_0.ok && r.1->Decline_0.err@ == "invalid object name"@
            },
{
}

/// Law: an object that was opened is granted with what was found of it: a pushed
/// one with nothing, a pulled one with its size and checksum, at the port that was
/// bound and under the session that was opened. What cannot be opened, summed or
/// served is declined with the reason, and the connection goes on.
pub proof fn servers_grant_what_they_opened()
    ensures
        forall|req: Request, p: &TransferParams, l: &ServerLimits, host: &Host, r: (Stage, Action)|
         #[trigger]
            call_ensures(
                server_step,
                (Stage::Opening(req), Event::SinkOpened(Ok(())), p, l, host),
                r,
            ) && req.session.direction == Direction::Push ==> r.0 == Stage::Binding(req, 0, 0)
                && r.1 is Bind,
        forall|
            req: Request,
            len: u64,
            p: &TransferParams,
            l: &ServerLimits,
            host: &Host,
            r: (Stage, Action),
        |
            #![trigger call_ensures(server_step, (Stage::Opening(req), Event::SourceOpened(Ok(len)), p, l, host), r)]
            call_ensures(
                server_step,
                (Stage::Opening(req), Event::SourceOpened(Ok(len)), p, l, host),
                r,
            ) && req.session.direction == Direction::Pull ==> {
                let fine = len <= l.max_object_size && len <= 0x7fff_ffff_ffff_ffff;
                &&& fine ==> r.0 == Stage::Summing(req, len as i64) && r.1 is Checksum
                &&& !fine ==> r.0 is Idle && r.1 is Decline && !r.1->Decline_0.ok
            },
        forall|
            req: Request,
            e: IoError,
            p: &TransferParams,
            l: &ServerLimits,
            host: &Host,
            r: (Stage, Action),
        |
            #![trigger call_ensures(server_step, (Stage::Opening(req), Event::SinkOpened(Err(e)), p, l, host), r)]
            call_ensures(
                server_step,
                (Stage::Opening(req), Event::SinkOpened(Err(e)), p, l, host),
                r,
            ) && req.session.direction == Direction::Push ==> r.0 is Idle && r.1 is Decline
                && !r.1->Decline_0.ok && r.1->Decline_0.err@ == e.message@
                && !r.1->Decline_0.auth_required,
        forall|
            req: Request,
            e: IoError,
            p: &TransferParams,
            l: &ServerLimits,
            host: &Host,
            r: (Stage, Action),
        |
            #![trigger call_ensures(server_step, (Stage::Opening(req), Event::SourceOpened(Err(e)), p, l, host), r)]
            call_ensures(
                server_step,
                (Stage::Opening(req), Event::SourceOpened(Err(e)), p, l, host),
                r,
            ) && req.session.direction == Direction::Pull ==> r.0 is Idle && r.1 is Decline
                && !r.1->Decline_0.ok && r.1->Decline_0.err@ == e.message@
                && !r.1->Decline_0.auth_required,
        forall|
            req: Request,
            size: i64,
            got: Result<u32, IoError>,
            p: &TransferParams,
            l: &ServerLimits,
            host: &Host,
            r: (Stage, Action),
        |
            #![trigger call_ensures(server_step, (Stage::Summing(req, size), Event::Summed(got), p, l, host), r)]
            call_ensures(
                server_step,
                (Stage::Summing(req, size), Event::Summed(got), p, l, host),
                r,
            ) ==> {
                &&& got matches Ok(crc) ==> r.0 == Stage::Binding(req, size, crc) && r.1 is Bind
                &&& got matches Err(e) ==> r.0 is Idle && r.1 is Decline && !r.1->Decline_0.ok
                    && r.1->Decline_0.err@ == e.message@ && !r.1->Decline_0.auth_required
            },
        forall|
            req: Request,
            size: i64,
            crc: u32,
            got: Result<u16, IoError>,
            p: &TransferParams,
            l: &ServerLimits,
            host: &Host,
            r: (Stage, Action),
        |
            #![trigger call_ensures(server_step, (Stage::Binding(req, size, crc), Event::Bound(got), p, l, host), r)]
            call_ensures(
                server_step,
                (Stage::Binding(req, size, crc), Event::Bound(got), p, l, host),
                r,
            ) ==> {
                &&& got matches Err(e) ==> r.0 is Over && r.1 == Action::End(Err(e))
                &&& got is Ok ==> (r.1 is Grant && r.0 == Stage::Granting(req)) || (r.1 is Decline
                    && r.0 is Idle && !r.1->Decline_0.ok)
                &&& got is Ok && !req.hello.encrypt ==> r.1 is Grant
                &&& r.1 is Grant ==> {
                    let a = r.1->Grant_0;
                    &&& got is Ok
                    &&& a.ok
                    &&& a.udp_port == got->Ok_0
                    &&& a.session == req.session.id
                    &&& a.size == size
                    &&& a.crc32c == crc
                    &&& a.name@ == req.hello.name@
                    &&& a.encrypt == req.hello.encrypt
                    &&& r.1->Grant_1 is Some <==> req.hello.encrypt
                }
            },
{
}

/// Law: data moves once the grant was sent. A pushed object is read back and must
/// have the announced checksum; a pulled one ends the transfer for the server.
/// After a good transfer the next request is read; a failure ends the connection.
pub proof fn servers_judge_what_was_moved()
    ensures
        forall|
            req: Request,
            got: Result<(), IoError>,
            p: &TransferParams,
            l: &ServerLimits,
            host: &Host,
            r: (Stage, Action),
        |
            #![trigger call_ensures(server_step, (Stage::Granting(req), Event::Sent(got), p, l, host), r)]
            call_ensures(server_step, (Stage::Granting(req), Event::Sent(got), p, l, host), r) ==> {
                &&& got is Ok ==> r.0 == Stage::Moving(req) && r.1 is Run
                &&& got matches Err(e) ==> r.0 is Over && r.1 == Action::End(Err(e))
            },
        forall|
            req: Request,
            got: Result<(), IoError>,
            p: &TransferParams,
            l: &ServerLimits,
            host: &Host,
            r: (Stage, Action),
        |
            #![trigger call_ensures(server_step, (Stage::Moving(req), Event::Moved(got), p, l, host), r)]
            call_ensures(server_step, (Stage::Moving(req), Event::Moved(got), p, l, host), r) ==> {
                &&& got is Ok && req.session.direction == Direction::Push ==> r.0
                    == Stage::ReadingBack(req) && r.1 is ReadBack
                &&& got is Ok && req.session.direction == Direction::Pull ==> r.0 is Idle && r.1
                    is ReadRequest
                &&& got matches Err(e) ==> r.0 is Over && r.1 == Action::End(Err(e))
            },
        forall|
            req: Request,
            got: Result<Option<u32>, IoError>,
            p: &TransferParams,
            l: &ServerLimits,
            host: &Host,
            r: (Stage, Action),
        |
            #![trigger call_ensures(server_step, (Stage::ReadingBack(req), Event::ReadBack(got), p, l, host), r)]
            call_ensures(
                server_step,
                (Stage::ReadingBack(req), Event::ReadBack(got), p, l, host),
                r,
            ) ==> {
                &&& r.0 is Idle <==> got is Ok && (got->Ok_0 is None || got->Ok_0->Some_0
                    == req.hello.crc32c)
                &&& r.0 is Idle ==> r.1 is ReadRequest
                &&& !(r.0 is Idle) ==> r.0 is Over && r.1 is End && r.1->End_0 is Err
                &&& got matches Err(e) ==> r.1 == Action::End(Err(e))
            },
        forall|event: Event, p: &TransferParams, l: &ServerLimits, host: &Host, r: (Stage, Action)|
         #[trigger]
            call_ensures(server_step, (Stage::Over, event, p, l, host), r) ==> r.0 is Over && r.1
                is End && r.1->End_0 is Err,
{
}

/// Whether `a` is a refusal for this reason, and nothing else.
pub open spec fn is_refusal(a: Ack, reason: Seq<char>) -> bool {
    &&& !a.ok
    &&& a.err@ == reason
    &&& !a.auth_required
    &&& a.udp_port == 0
    &&& a.session == 0
    &&& a.size == 0
    &&& a.crc32c == 0
    &&& a.name@.len() == 0
    &&& !a.encrypt
    &&& a.cipher@.len() == 0
    &&& a.pub_key is None
    &&& a.auth_mac is None
}

/// Law: a server answers a request as its checks judge it. One that opens no
/// session is refused with what the check says; of one that does, the session goes
/// on, and the authorizer is asked about the object under the name that it has on
/// this host.
pub proof fn servers_follow_their_checks()
    ensures
        forall|
            h: Hello,
            p: &TransferParams,
            l: &ServerLimits,
            host: &Host,
            r: (Stage, Action),
            s: Result<Session, Ack>,
        |
            #![trigger call_ensures(server_step, (Stage::Idle, Event::Request(Ok(h)), p, l, host), r), call_ensures(open_session, (&h, p, l), s)]
            call_ensures(server_step, (Stage::Idle, Event::Request(Ok(h)), p, l, host), r)
                && call_ensures(open_session, (&h, p, l), s) ==> {
                &&& r.1 is Refuse <==> s is Err
                &&& s matches Err(a) ==> r.1->Refuse_0@ == a@
                &&& s matches Ok(s) ==> r.0->Authorizing_1.params == s.params
                    && r.0->Authorizing_1.direction == s.direction
            },
        forall|
            h: Hello,
            p: &TransferParams,
            l: &ServerLimits,
            host: &Host,
            r: (Stage, Action),
            name: &str,
            b: String,
        |
            #![trigger call_ensures(server_step, (Stage::Idle, Event::Request(Ok(h)), p, l, host), r), call_ensures(host_basename, (name, host.backslash), b)]
            call_ensures(server_step, (Stage::Idle, Event::Request(Ok(h)), p, l, host), r)
                && call_ensures(host_basename, (name, host.backslash), b) && name@ == h.name@
                && r.1 is Authorize ==> r.1->Authorize_name@ == b@,
{
}

/// Law: a server lets a client in as the check of its proof says, and keeps what
/// that check found; it opens the object under the name that is served, and
/// declines a request whose name is not.
pub proof fn servers_open_what_may_be_served()
    ensures
        forall|
            h: Hello,
            s: Session,
            lookup: Option<Result<Vec<u8>, String>>,
            p: &TransferParams,
            l: &ServerLimits,
            host: &Host,
            r: (Stage, Action),
            v: Result<Option<AuthState>, Ack>,
        |
            #![trigger call_ensures(server_step, (Stage::Authorizing(h, s), Event::Token(lookup), p, l, host), r), call_ensures(authenticate, (&h, lookup), v)]
            call_ensures(
                server_step,
                (Stage::Authorizing(h, s), Event::Token(lookup), p, l, host),
                r,
            ) && call_ensures(authenticate, (&h, lookup), v) ==> {
                &&& r.1 is Refuse <==> v is Err
                &&& v matches Err(a) ==> r.1->Refuse_0@ == a@
                &&& r.0 is Opening ==> {
                    let kept = r.0->Opening_0.auth;
                    &&& kept is Some <==> v->Ok_0 is Some
                    &&& kept is Some ==> kept->Some_0.token@ == v->Ok_0->Some_0.token@
                        && kept->Some_0.client_mac@ == v->Ok_0->Some_0.client_mac@
                }
            },
        forall|
            h: Hello,
            s: Session,
            lookup: Option<Result<Vec<u8>, String>>,
            p: &TransferParams,
            l: &ServerLimits,
            host: &Host,
            r: (Stage, Action),
            name: &str,
            n: Result<String, IoError>,
        |
            #![trigger call_ensures(server_step, (Stage::Authorizing(h, s), Event::Token(lookup), p, l, host), r), call_ensures(served_object_name, (name, host.backslash), n)]
            call_ensures(
                server_step,
                (Stage::Authorizing(h, s), Event::Token(lookup), p, l, host),
                r,
            ) && call_ensures(served_object_name, (name, host.backslash), n) && name@ == h.name@
                && !(r.1 is Refuse) ==> {
                &&& r.0 is Opening <==> n is Ok
                &&& n is Err ==> r.0 is Idle && r.1 is Decline && is_refusal(
                    r.1->Decline_0,
                    "invalid object name"@,
                )
                &&& r.1 is OpenSink ==> r.1->OpenSink_name@ == n->Ok_0@
                &&& r.1 is OpenSource ==> r.1->OpenSource_name@ == n->Ok_0@
            },
{
}

/// Law: a server declines an object with the reason that its check gives; it
/// proves to a client the token that the client proved; and it tells of a
/// corrupted object as the check of its checksum does.
pub proof fn servers_tell_what_their_checks_find()
    ensures
        forall|
            req: Request,
            len: u64,
            p: &TransferParams,
            l: &ServerLimits,
            host: &Host,
            r: (Stage, Action),
            c: Result<i64, String>,
        |
            #![trigger call_ensures(server_step, (Stage::Opening(req), Event::SourceOpened(Ok(len)), p, l, host), r), call_ensures(check_source_len, (len, l), c)]
            call_ensures(
                server_step,
                (Stage::Opening(req), Event::SourceOpened(Ok(len)), p, l, host),
                r,
            ) && call_ensures(check_source_len, (len, l), c) && req.session.direction
                == Direction::Pull ==> {
                &&& c matches Ok(size) ==> r.0 == Stage::Summing(req, size)
                &&& c matches Err(reason) ==> r.1 is Decline && is_refusal(
                    r.1->Decline_0,
                    reason@,
                )
            },
        forall|
            req: Request,
            size: i64,
            crc: u32,
            port: u16,
            p: &TransferParams,
            l: &ServerLimits,
            host: &Host,
            a: Ack,
            key: Option<Arc<AeadBox>>,
            after: Stage,
            token: &[u8],
            mac: &[u8],
            v: Result<(), GirthError>,
        |
            #![trigger call_ensures(server_step, (Stage::Binding(req, size, crc), Event::Bound(Ok(port)), p, l, host), (after, Action::Grant(a, key))), call_ensures(verify_server_auth, (Some(token), Some(mac), &a), v)]
            call_ensures(
                server_step,
                (Stage::Binding(req, size, crc), Event::Bound(Ok(port)), p, l, host),
                (after, Action::Grant(a, key)),
            ) && call_ensures(verify_server_auth, (Some(token), Some(mac), &a), v) && req.auth
                is Some && req.auth->Some_0.token@ == token@ && req.auth->Some_0.client_mac@ == mac@
                ==> v is Ok,
        forall|
            req: Request,
            size: i64,
            crc: u32,
            port: u16,
            p: &TransferParams,
            l: &ServerLimits,
            host: &Host,
            r: (Stage, Action),
        |
            #![trigger call_ensures(server_step, (Stage::Binding(req, size, crc), Event::Bound(Ok(port)), p, l, host), r)]
            call_ensures(
                server_step,
                (Stage::Binding(req, size, crc), Event::Bound(Ok(port)), p, l, host),
                r,
            ) ==> {
                &&& r.1 matches Action::Grant(a, key) ==> (a.auth_mac is Some <==> req.auth is Some)
                    && a.err@.len() == 0 && !a.auth_required && (key is Some ==> key->Some_0.suite()
                    == a.cipher@)
                &&& r.1 matches Action::Decline(a) ==> req.hello.encrypt && (is_refusal(
                    a,
                    "no common cipher suite"@,
                ) || is_refusal(a, "girth: bad peer public key"@))
            },
        forall|
            req: Request,
            got: Option<u32>,
            p: &TransferParams,
            l: &ServerLimits,
            host: &Host,
            r: (Stage, Action),
            name: &str,
            c: Result<(), IoError>,
        |
            #![trigger call_ensures(server_step, (Stage::ReadingBack(req), Event::ReadBack(Ok(got)), p, l, host), r), call_ensures(check_received, (name, got, req.hello.crc32c), c)]
            call_ensures(
                server_step,
                (Stage::ReadingBack(req), Event::ReadBack(Ok(got)), p, l, host),
                r,
            ) && call_ensures(check_received, (name, got, req.hello.crc32c), c) && name@
                == req.hello.name@ ==> {
                &&& r.1 is ReadRequest <==> c is Ok
                &&& c matches Err(e) ==> r.1->End_0->Err_0.kind == e.kind
                    && r.1->End_0->Err_0.message@ == e.message@
            },
{
}

/// Whether a server waits for such an event where it stands.
pub open spec fn is_awaited(stage: Stage, event: Event) -> bool {
    match stage {
        Stage::Idle => event is Stopped || event is Request,
        Stage::Authorizing(_, _) => event is Token,
        Stage::Opening(req) => (event is SinkOpened && req.session.direction == Direction::Push)
            || (event is SourceOpened && req.session.direction == Direction::Pull),
        Stage::Summing(_, _) => event is Summed,
        Stage::Binding(_, _, _) => event is Bound,
        Stage::Granting(_) => event is Sent,
        Stage::Moving(_) => event is Moved,
        Stage::ReadingBack(_) => event is ReadBack,
        Stage::Over => false,
    }
}

/// Law: an event that a server does not wait for ends the connection, and the
/// failure says so.
pub proof fn servers_take_events_in_turn()
    ensures
        forall|
            stage: Stage,
            event: Event,
            p: &TransferParams,
            l: &ServerLimits,
            host: &Host,
            r: (Stage, Action),
        |
            #![trigger call_ensures(server_step, (stage, event, p, l, host), r)]
            call_ensures(server_step, (stage, event, p, l, host), r) && !is_awaited(stage, event)
                ==> {
                &&& r.0 is Over && r.1 is End && r.1->End_0 is Err
                &&& r.1->End_0->Err_0.kind == IoKind::Other
                &&& r.1->End_0->Err_0.message@ == "event out of turn"@
            },
{
}

// --- the client -------------------------------------------------------------

/// Whether `hello` is the greeting of a job for an object of this size and
/// checksum.
pub open spec fn is_greeting(job: Job, size: i64, crc: u32, hello: Hello) -> bool {
    &&& hello.version == 1
    &&& job.direction == Direction::Push ==> hello.mode@ == "send"@
    &&& job.direction == Direction::Pull ==> hello.mode@ == "recv"@
    &&& hello.name@ == job.name@
    &&& hello.size == size
    &&& hello.crc32c == crc
    &&& hello.adaptive == job.params.adaptive
    &&& hello.encrypt == job.params.encrypt
    &&& hello.rate_bps == job.params.rate_bps
    &&& hello.max_bps == job.params.max_bps
    &&& hello.alpha_bps == job.params.alpha_bps
    &&& job.params.block_size <= i64::MAX ==> hello.block_size == job.params.block_size
    &&& hello.auth_mac is Some <==> job.token is Some
    &&& hello.pub_key is Some <==> job.params.encrypt
}

proof fn greeting_is_of_the_job(job: Job, size: i64, crc: u32, s: ClientStage, a: ClientAction)
    requires
        crate::session::greets(job, size, crc, s, a),
    ensures
        s is Greeting,
        a is SendHello,
        is_greeting(job, size, crc, s->Greeting_0),
{
    let h = s->Greeting_0@;
    assert(h.version == 1 && h.size == size && h.rate_bps == job.params.rate_bps);
}

/// Law: a pull begins with a greeting, a push with the size and the checksum of its
/// object, which its greeting then tells; a greeting that was sent is followed by
/// the ack.
pub proof fn clients_greet_for_their_job()
    ensures
        forall|job: &Job, r: (ClientStage, ClientAction)| #[trigger]
            call_ensures(client_begin, (job,), r) ==> {
                &&& job.direction == Direction::Push ==> r.0 is Summing && r.1 is Checksum
                &&& job.direction == Direction::Pull ==> r.0 is Greeting && r.1 is SendHello
                    && is_greeting(*job, 0, 0, r.0->Greeting_0)
            },
        forall|job: &Job, got: Result<(i64, u32), IoError>, r: (ClientStage, ClientAction)|
         #[trigger]
            call_ensures(client_step, (job, ClientStage::Summing, ClientEvent::Summed(got)), r)
                ==> {
                &&& got matches Ok((size, crc)) ==> r.0 is Greeting && r.1 is SendHello
                    && is_greeting(*job, size, crc, r.0->Greeting_0)
                &&& got is Err ==> r.0 is Over && r.1 is End && r.1->End_0 is Err
            },
        forall|
            job: &Job,
            hello: Hello,
            secret: Option<SecretKey>,
            got: Result<(), IoError>,
            r: (ClientStage, ClientAction),
        |
            #![trigger call_ensures(client_step, (job, ClientStage::Greeting(hello, secret), ClientEvent::Sent(got)), r)]
            call_ensures(
                client_step,
                (job, ClientStage::Greeting(hello, secret), ClientEvent::Sent(got)),
                r,
            ) ==> {
                &&& got is Ok ==> r.0 == ClientStage::Awaiting(hello, secret) && r.1 is ReadAck
                &&& got is Err ==> r.0 is Over && r.1 is End && r.1->End_0 is Err
            },
{
    assert forall|job: &Job, r: (ClientStage, ClientAction)| #[trigger]
        call_ensures(client_begin, (job,), r) && job.direction == Direction::Pull implies r.0
        is Greeting && r.1 is SendHello && is_greeting(*job, 0, 0, r.0->Greeting_0) by {
        greeting_is_of_the_job(*job, 0, 0, r.0, r.1);
    }
    assert forall|job: &Job, got: Result<(i64, u32), IoError>, r: (ClientStage, ClientAction)|
     #[trigger]
        call_ensures(client_step, (job, ClientStage::Summing, ClientEvent::Summed(got)), r) && got
            is Ok implies r.0 is Greeting && r.1 is SendHello && is_greeting(
        *job,
        got->Ok_0.0,
        got->Ok_0.1,
        r.0->Greeting_0,
    ) by {
        greeting_is_of_the_job(*job, got->Ok_0.0, got->Ok_0.1, r.0, r.1);
    }
}

/// Law: a client goes on only with a grant, encrypted exactly where it asked for
/// that; a pull sizes its sink as the server says, a push binds for its own
/// object; a refusal ends the transfer.
pub proof fn clients_go_on_with_grants()
    ensures
        forall|
            job: &Job,
            hello: Hello,
            secret: Option<SecretKey>,
            a: Ack,
            r: (ClientStage, ClientAction),
        |
            #![trigger call_ensures(client_step, (job, ClientStage::Awaiting(hello, secret), ClientEvent::Answered(Ok(a))), r)]
            call_ensures(
                client_step,
                (job, ClientStage::Awaiting(hello, secret), ClientEvent::Answered(Ok(a))),
                r,
            ) ==> {
                &&& !(r.0 is Over) ==> a.ok && a.encrypt == job.params.encrypt
                &&& r.0 is Over ==> r.1 is End && r.1->End_0 is Err
                &&& !a.ok && a.auth_required ==> r.1->End_0->Err_0 is AuthDenied
                &&& a.ok && job.token is None && !a.encrypt && !job.params.encrypt ==> !(r.0
                    is Over)
                &&& !(r.0 is Over) && job.direction == Direction::Pull ==> {
                    &&& r.0 is Allocating
                    &&& r.0->Allocating_0 == a
                    &&& r.1 is Allocate
                    &&& a.size >= 0 ==> r.1->Allocate_0 == a.size
                    &&& a.size < 0 ==> r.1->Allocate_0 == 0
                    &&& r.0->Allocating_1 is Some <==> job.params.encrypt
                }
                &&& !(r.0 is Over) && job.direction == Direction::Push ==> {
                    &&& r.0 is Binding
                    &&& r.0->Binding_0 == a
                    &&& r.0->Binding_2 == hello.size
                    &&& r.1 == (ClientAction::Bind { udp_port: a.udp_port })
                    &&& r.0->Binding_1 is Some <==> job.params.encrypt
                }
            },
        forall|
            job: &Job,
            a: Ack,
            key: Option<Arc<AeadBox>>,
            got: Result<(), IoError>,
            r: (ClientStage, ClientAction),
        |
            #![trigger call_ensures(client_step, (job, ClientStage::Allocating(a, key), ClientEvent::Allocated(got)), r)]
            call_ensures(
                client_step,
                (job, ClientStage::Allocating(a, key), ClientEvent::Allocated(got)),
                r,
            ) ==> {
                &&& got is Ok ==> r.0 == ClientStage::Binding(a, key, a.size) && r.1 == (
                ClientAction::Bind { udp_port: a.udp_port })
                &&& got is Err ==> r.0 is Over && r.1 is End && r.1->End_0 is Err
            },
        forall|
            job: &Job,
            a: Ack,
            key: Option<Arc<AeadBox>>,
            size: i64,
            got: Result<(), IoError>,
            r: (ClientStage, ClientAction),
        |
            #![trigger call_ensures(client_step, (job, ClientStage::Binding(a, key, size), ClientEvent::Bound(got)), r)]
            call_ensures(
                client_step,
                (job, ClientStage::Binding(a, key, size), ClientEvent::Bound(got)),
                r,
            ) ==> {
                &&& got is Ok ==> r.0 == ClientStage::Moving(a) && r.1 == (ClientAction::Run {
                    session: a.session,
                    size,
                    key,
                })
                &&& got is Err ==> r.0 is Over && r.1 is End && r.1->End_0 is Err
            },
{
}

/// Law: a push ends well when its data has moved; a pull when, besides, its object
/// has the checksum that the server announced, or was not read back. A failure is
/// told as what it is: a timeout as one that can be retried, a stop as a stop.
pub proof fn clients_judge_what_was_moved()
    ensures
        forall|job: &Job, a: Ack, got: Result<(), IoError>, r: (ClientStage, ClientAction)|
         #[trigger]
            call_ensures(client_step, (job, ClientStage::Moving(a), ClientEvent::Moved(got)), r)
                ==> {
                &&& got is Ok && job.direction == Direction::Pull ==> r.0
                    == ClientStage::ReadingBack(a) && r.1 is ReadBack
                &&& got is Ok && job.direction == Direction::Push ==> r.0 is Over && r.1 is End
                    && r.1->End_0 is Ok
                &&& got matches Err(e) ==> {
                    &&& r.0 is Over && r.1 is End && r.1->End_0 is Err
                    &&& r.1->End_0->Err_0 is Stopped <==> e.kind == IoKind::Stopped
                    &&& r.1->End_0->Err_0 is Timeout <==> e.kind == IoKind::TimedOut || e.kind
                        == IoKind::WouldBlock
                    &&& e.kind == IoKind::Other ==> r.1->End_0->Err_0 == GirthError::Io(e)
                }
            },
        forall|
            job: &Job,
            a: Ack,
            got: Result<Option<u32>, IoError>,
            r: (ClientStage, ClientAction),
        |
            #![trigger call_ensures(client_step, (job, ClientStage::ReadingBack(a), ClientEvent::ReadBack(got)), r)]
            call_ensures(
                client_step,
                (job, ClientStage::ReadingBack(a), ClientEvent::ReadBack(got)),
                r,
            ) ==> {
                &&& r.0 is Over && r.1 is End
                &&& r.1->End_0 is Ok <==> got is Ok && (got->Ok_0 is None || got->Ok_0->Some_0
                    == a.crc32c)
                &&& got is Ok && got->Ok_0 is Some && got->Ok_0->Some_0 != a.crc32c
                    ==> r.1->End_0->Err_0 is Integrity
            },
        forall|job: &Job, event: ClientEvent, r: (ClientStage, ClientAction)| #[trigger]
            call_ensures(client_step, (job, ClientStage::Over, event), r) ==> r.0 is Over && r.1
                is End && r.1->End_0 is Err,
        forall|action: &ClientAction, r: TransferPhase| #[trigger]
            call_ensures(client_phase, (action,), r) ==> {
                &&& r == TransferPhase::Transferring <==> *action is Run
                &&& r == TransferPhase::Verifying <==> *action is ReadBack
                &&& r == TransferPhase::Complete <==> *action is End && (*action)->End_0 is Ok
                &&& r == TransferPhase::Failed <==> *action is End && (*action)->End_0 is Err
                &&& r != TransferPhase::Queued
            },
{
}

/// Whether a client waits for such an event where it stands.
pub open spec fn is_due(stage: ClientStage, event: ClientEvent) -> bool {
    match stage {
        ClientStage::Summing => event is Summed,
        ClientStage::Greeting(_, _) => event is Sent,
        ClientStage::Awaiting(_, _) => event is Answered,
        ClientStage::Allocating(_, _) => event is Allocated,
        ClientStage::Binding(_, _, _) => event is Bound,
        ClientStage::Moving(_) => event is Moved,
        ClientStage::ReadingBack(_) => event is ReadBack,
        ClientStage::Over => false,
    }
}

/// Whether an event tells of the failure `e`.
pub open spec fn tells_failure(event: ClientEvent, e: IoError) -> bool {
    match event {
        ClientEvent::Summed(r) => r is Err && r->Err_0 == e,
        ClientEvent::Sent(r) => r is Err && r->Err_0 == e,
        ClientEvent::Answered(r) => r is Err && r->Err_0 == e,
        ClientEvent::Allocated(r) => r is Err && r->Err_0 == e,
        ClientEvent::Bound(r) => r is Err && r->Err_0 == e,
        ClientEvent::Moved(r) => r is Err && r->Err_0 == e,
        ClientEvent::ReadBack(r) => r is Err && r->Err_0 == e,
    }
}

/// Law: a failure ends a client's transfer as the error that stands for it; an
/// event that the client does not wait for ends it as a breach of the protocol.
pub proof fn clients_end_with_failures()
    ensures
        forall|
            job: &Job,
            stage: ClientStage,
            event: ClientEvent,
            r: (ClientStage, ClientAction),
            e: IoError,
            g: GirthError,
        |
            #![trigger call_ensures(client_step, (job, stage, event), r), call_ensures(<GirthError as From<IoError>>::from, (e,), g)]
            call_ensures(client_step, (job, stage, event), r) && call_ensures(
                <GirthError as From<IoError>>::from,
                (e,),
                g,
            ) && is_due(stage, event) && tells_failure(event, e) ==> r.0 is Over && r.1
                == ClientAction::End(Err(g)),
        forall|
            job: &Job,
            stage: ClientStage,
            event: ClientEvent,
            r: (ClientStage, ClientAction),
        |
            #![trigger call_ensures(client_step, (job, stage, event), r)]
            call_ensures(client_step, (job, stage, event), r) && !is_due(stage, event) ==> {
                &&& r.0 is Over && r.1 is End && r.1->End_0 is Err
                &&& r.1->End_0->Err_0 is Protocol
                &&& r.1->End_0->Err_0->Protocol_0@ == "event out of turn"@
            },
{
}

/// Whether these are the bytes that may be there.
pub open spec fn are_bytes(b: Option<&[u8]>, v: Option<Vec<u8>>) -> bool {
    &&& b is Some <==> v is Some
    &&& b is Some ==> b->Some_0@ == v->Some_0@
}

/// Law: a client goes on with an ack exactly where its checks take it, and to a
/// server that has not proved the token it moves nothing.
pub proof fn clients_follow_their_checks()
    ensures
        forall|
            job: &Job,
            hello: Hello,
            secret: Option<SecretKey>,
            a: Ack,
            r: (ClientStage, ClientAction),
        |
            #![trigger call_ensures(client_step, (job, ClientStage::Awaiting(hello, secret), ClientEvent::Answered(Ok(a))), r)]
            call_ensures(
                client_step,
                (job, ClientStage::Awaiting(hello, secret), ClientEvent::Answered(Ok(a))),
                r,
            ) && job.token is Some && hello.auth_mac is Some && a.ok ==> {
                let proven = a.auth_mac is Some && a.auth_mac->Some_0@
                    == crate::auth::server_mac_of(
                    job.token->Some_0@,
                    a.session,
                    crate::control::bytes_or_empty(a.pub_key),
                    hello.auth_mac->Some_0@,
                );
                &&& !proven ==> r.1 is End && r.1->End_0 is Err && r.1->End_0->Err_0 is AuthDenied
                &&& proven && !a.encrypt && !job.params.encrypt ==> !(r.0 is Over)
            },
        forall|
            job: &Job,
            hello: Hello,
            secret: SecretKey,
            a: Ack,
            r: (ClientStage, ClientAction),
            token: Option<&[u8]>,
            mac: Option<&[u8]>,
            c: Result<Option<Arc<AeadBox>>, GirthError>,
        |
            #![trigger call_ensures(client_step, (job, ClientStage::Awaiting(hello, Some(secret)), ClientEvent::Answered(Ok(a))), r), call_ensures(accept_ack, (&a, job.params.encrypt, token, mac, Some(&secret)), c)]
            call_ensures(
                client_step,
                (job, ClientStage::Awaiting(hello, Some(secret)), ClientEvent::Answered(Ok(a))),
                r,
            ) && call_ensures(accept_ack, (&a, job.params.encrypt, token, mac, Some(&secret)), c)
                && are_bytes(token, job.token) && are_bytes(mac, hello.auth_mac) ==> {
                &&& r.0 is Over <==> c is Err
                &&& c matches Err(e) ==> (r.1->End_0->Err_0 is AuthDenied <==> e is AuthDenied)
                &&& c matches Err(e) ==> (r.1->End_0->Err_0 is VersionMismatch <==> e
                    is VersionMismatch)
                &&& c matches Err(e) ==> (r.1->End_0->Err_0 is NotFound <==> e is NotFound)
            },
        forall|
            job: &Job,
            hello: Hello,
            a: Ack,
            r: (ClientStage, ClientAction),
            token: Option<&[u8]>,
            mac: Option<&[u8]>,
            c: Result<Option<Arc<AeadBox>>, GirthError>,
        |
            #![trigger call_ensures(client_step, (job, ClientStage::Awaiting(hello, None), ClientEvent::Answered(Ok(a))), r), call_ensures(accept_ack, (&a, job.params.encrypt, token, mac, None), c)]
            call_ensures(
                client_step,
                (job, ClientStage::Awaiting(hello, None), ClientEvent::Answered(Ok(a))),
                r,
            ) && call_ensures(accept_ack, (&a, job.params.encrypt, token, mac, None), c)
                && are_bytes(token, job.token) && are_bytes(mac, hello.auth_mac) ==> {
                &&& r.0 is Over <==> c is Err
                &&& c matches Err(e) ==> (r.1->End_0->Err_0 is AuthDenied <==> e is AuthDenied)
                &&& c matches Err(e) ==> (r.1->End_0->Err_0 is Protocol <==> e is Protocol)
            },
{
}

} // verus!
