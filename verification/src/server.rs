//! What the proxy does with each payload that a client sends, what it
//! answers on its HTTP routes and when it compresses what it sends.
use vstd::prelude::*;
use vstd::string::StringSliceAdditionalSpecFns;

use crate::deserializer::{scan_event, GatewayEvent};
use crate::model::{Identify, Resume};
use crate::state::{is_session_id, Inner, Session};
use crate::text::{
    is_white_space_char, last_word, last_word_is, lemma_trailing_word_split, str_eq, trailing_word,
};

verus! {

/// The kinds of client payloads that the proxy tells apart by opcode.
#[derive(Clone, Copy, Debug, PartialEq, Eq)]
pub enum MessageKind {
    /// No opcode could be read: the payload is skipped.
    Unreadable,
    /// Opcode 1.
    Heartbeat,
    /// Opcode 2.
    Identify,
    /// Opcode 6.
    Resume,
    /// Any other opcode: the payload is meant for Discord.
    Other,
}

/// The kind of a payload by its opcode.
pub open spec fn kind_of_opcode(op: u8) -> MessageKind {
    if op == 1 {
        MessageKind::Heartbeat
    } else if op == 2 {
        MessageKind::Identify
    } else if op == 6 {
        MessageKind::Resume
    } else {
        MessageKind::Other
    }
}

/// The kind of every readable client payload by its opcode: a heartbeat
/// exactly for opcode 1, an IDENTIFY exactly for 2, a RESUME exactly for 6,
/// and for every other opcode a payload that is passed on to the shard.
pub proof fn lemma_kinds_by_opcode(op: u8)
    ensures
        (kind_of_opcode(op) == MessageKind::Heartbeat) == (op == 1),
        (kind_of_opcode(op) == MessageKind::Identify) == (op == 2),
        (kind_of_opcode(op) == MessageKind::Resume) == (op == 6),
        (kind_of_opcode(op) == MessageKind::Other) == (op != 1 && op != 2 && op != 6),
        kind_of_opcode(op) != MessageKind::Unreadable,
{
}

/// Scans a client payload for its opcode and tells its kind.
pub fn message_kind(payload: &str) -> (r: MessageKind)
    ensures
        r == (match scan_event(payload.spec_bytes()) {
            None => MessageKind::Unreadable,
            Some(e) => kind_of_opcode(e.op),
        }),
        (r == MessageKind::Unreadable) == (scan_event(payload.spec_bytes()) is None),
        (r == MessageKind::Heartbeat) == (scan_event(payload.spec_bytes()) matches Some(e) && e.op
            == 1),
        (r == MessageKind::Identify) == (scan_event(payload.spec_bytes()) matches Some(e) && e.op
            == 2),
        (r == MessageKind::Resume) == (scan_event(payload.spec_bytes()) matches Some(e) && e.op
            == 6),
        (r == MessageKind::Other) == (scan_event(payload.spec_bytes()) matches Some(e) && e.op != 1
            && e.op != 2 && e.op != 6),
{
    proof {
        if let Some(e) = scan_event(payload.spec_bytes()) {
            lemma_kinds_by_opcode(e.op);
        }
    }
    match GatewayEvent::from_json(payload) {
        None => MessageKind::Unreadable,
        Some(event) => {
            let op = event.op();
            if op == 1 {
                MessageKind::Heartbeat
            } else if op == 2 {
                MessageKind::Identify
            } else if op == 6 {
                MessageKind::Resume
            } else {
                MessageKind::Other
            }
        },
    }
}

/// A client payload, read as far as the proxy needs it.
pub enum ClientEvent {
    Heartbeat,
    Identify(Identify),
    Resume(Resume),
    /// An IDENTIFY or RESUME whose data could not be read.
    Malformed,
    /// A payload for Discord.
    Other,
}

/// What a client connection knows between payloads.
#[derive(Clone, Copy, Debug, PartialEq, Eq)]
pub struct ClientState {
    /// The shard that the client identified for; its other payloads go there.
    pub shard: Option<u64>,
    /// Whether events are already forwarded to the client.
    pub forwarding: bool,
}

impl ClientState {
    /// A connection that has neither identified nor resumed.
    pub fn new() -> (r: Self)
        ensures
            r.shard is None,
            !r.forwarding,
    {
        ClientState { shard: None, forwarding: false }
    }
}

/// How events of a shard start to reach a client.
pub struct Forward {
    /// The session, whose ID goes into the READY payload.
    pub session_id: String,
    pub shard_id: u64,
    /// A new session gets a READY and the guilds; a resumed one gets RESUMED.
    pub send_guilds: bool,
    /// The last sequence number that the client has seen.
    pub seq: usize,
    /// The compression that the session asked for.
    pub compress: Option<bool>,
}

/// What the proxy does for a client payload.
pub enum ClientAction {
    /// Nothing: the payload is dropped.
    Ignore,
    /// Answer with a HEARTBEAT_ACK.
    SendHeartbeatAck,
    /// Close the connection.
    Disconnect,
    /// A new session was created; forwarding starts with it unless it
    /// already runs for this connection.
    Identified { session_id: String, shard_id: u64, forward: Option<Forward> },
    /// The session was taken up again and forwarding starts.
    Resumed(Forward),
    /// Answer with an INVALID_SESSION.
    SendInvalidSession,
    /// Send the payload to the shard as it is.
    ForwardToShard(u64),
    /// Drop the payload: the client has not identified yet.
    DropBeforeIdentify,
}

/// Whether a token from a client is the proxy's token: Discord tokens may be
/// prefixed by `Bot `, so the last word counts.
pub open spec fn token_accepted(given: Seq<char>, token: Seq<char>) -> bool {
    last_word(given) == Some(token)
}

/// A token is accepted when it stands after a prefix that ends in white
/// space, such as `Bot `, or alone: the token itself must be a non-empty
/// word without white space.
pub proof fn lemma_prefixed_token_accepted(before: Seq<char>, token: Seq<char>)
    requires
        token.len() > 0,
        forall|i: int| 0 <= i < token.len() ==> !is_white_space_char(#[trigger] token[i]),
        before.len() == 0 || is_white_space_char(before.last()),
    ensures
        token_accepted(before + token, token),
{
    let s = before + token;
    let k = before.len() as int;
    assert forall|i: int| k <= i < s.len() implies !is_white_space_char(#[trigger] s[i]) by {
        assert(s[i] == token[i - k]);
    }
    lemma_trailing_word_split(s, k, s.len() as int);
    assert(s.subrange(0, s.len() as int) =~= s);
    assert(s.subrange(k, s.len() as int) =~= token);
    assert(s.subrange(0, k) =~= before);
    assert(trailing_word(before) =~= Seq::<char>::empty());
    assert(s.last() == token.last());
    assert(!is_white_space_char(token[token.len() - 1]));
}

/// Handles one client payload: answers heartbeats, checks an IDENTIFY
/// (shard count, shard ID and token) and creates its session, takes up the
/// session of a RESUME, and passes any other payload to the identified
/// shard. Forwarding of events starts at most once per connection.
pub fn client_step<S>(
    state: &mut ClientState,
    event: ClientEvent,
    proxy: &mut Inner<S>,
    token: &str,
) -> (r: ClientAction)
    ensures
        final(proxy).shards == old(proxy).shards,
        final(proxy).shard_count == old(proxy).shard_count,
        old(state).forwarding ==> final(state).forwarding,
        match event {
            ClientEvent::Heartbeat => r is SendHeartbeatAck && *final(state) == *old(state)
                && final(proxy).sessions@ == old(proxy).sessions@,
            ClientEvent::Malformed => r is Ignore && *final(state) == *old(state)
                && final(proxy).sessions@ == old(proxy).sessions@,
            ClientEvent::Other => *final(state) == *old(state) && final(proxy).sessions@ == old(
                proxy,
            ).sessions@ && match old(state).shard {
                Some(id) => r == ClientAction::ForwardToShard(id),
                None => r is DropBeforeIdentify,
            },
            ClientEvent::Identify(identify) => {
                let shard_id = identify.d.shard@[0];
                let shard_count = identify.d.shard@[1];
                if shard_count != old(proxy).shard_count || shard_id >= shard_count
                    || !token_accepted(identify.d.token@, token@) {
                    r is Disconnect && *final(state) == *old(state) && final(proxy).sessions@
                        == old(proxy).sessions@
                } else {
                    let session = Session { shard_id: shard_id as u64, compress: identify.d.compress };
                    &&& r matches ClientAction::Identified { session_id, shard_id: id, forward }
                    &&& is_session_id(session_id@)
                    &&& id == shard_id as u64
                    &&& final(proxy).sessions@ == old(proxy).sessions@.insert(session_id@, session)
                    &&& final(state).shard == Some(shard_id as u64)
                    &&& final(state).forwarding
                    &&& match forward {
                        None => old(state).forwarding,
                        Some(f) => !old(state).forwarding && f.session_id@ == session_id@
                            && f.shard_id == shard_id as u64 && f.send_guilds && f.seq == 0
                            && f.compress == identify.d.compress,
                    }
                }
            },
            ClientEvent::Resume(resume) => {
                &&& final(proxy).sessions@ == old(proxy).sessions@
                &&& final(state).shard == old(state).shard
                &&& if !token_accepted(resume.d.token@, token@) {
                    r is Disconnect && final(state).forwarding == old(state).forwarding
                } else if old(proxy).sessions@.contains_key(resume.d.session_id@)
                    && !old(state).forwarding {
                    let session = old(proxy).sessions@[resume.d.session_id@];
                    &&& r matches ClientAction::Resumed(f)
                    &&& f.session_id@ == resume.d.session_id@
                    &&& f.shard_id == session.shard_id
                    &&& !f.send_guilds
                    &&& f.seq == resume.d.seq
                    &&& f.compress == session.compress
                    &&& final(state).forwarding
                } else {
                    r is SendInvalidSession && final(state).forwarding == old(state).forwarding
                }
            },
        },
{
    match event {
        ClientEvent::Heartbeat => ClientAction::SendHeartbeatAck,
        ClientEvent::Malformed => ClientAction::Ignore,
        ClientEvent::Other => match state.shard {
            Some(id) => ClientAction::ForwardToShard(id),
            None => ClientAction::DropBeforeIdentify,
        },
        ClientEvent::Identify(identify) => {
            let shard_id = identify.d.shard[0];
            let shard_count = identify.d.shard[1];
            if shard_count as u64 != proxy.shard_count {
                return ClientAction::Disconnect;
            }
            if shard_id >= shard_count {
                return ClientAction::Disconnect;
            }
            if !last_word_is(identify.d.token.as_str(), token) {
                return ClientAction::Disconnect;
            }
            let session = Session { shard_id: shard_id as u64, compress: identify.d.compress };
            let session_id = proxy.create_session(session);
            state.shard = Some(shard_id as u64);
            let forward = if !state.forwarding {
                state.forwarding = true;
                Some(
                    Forward {
                        session_id: session_id.clone(),
                        shard_id: shard_id as u64,
                        send_guilds: true,
                        seq: 0,
                        compress: identify.d.compress,
                    },
                )
            } else {
                None
            };
            ClientAction::Identified { session_id, shard_id: shard_id as u64, forward }
        },
        ClientEvent::Resume(resume) => {
            if !last_word_is(resume.d.token.as_str(), token) {
                return ClientAction::Disconnect;
            }
            match proxy.get_session(resume.d.session_id.as_str()) {
                Some(session) => {
                    if !state.forwarding {
                        state.forwarding = true;
                        ClientAction::Resumed(
                            Forward {
                                session_id: resume.d.session_id,
                                shard_id: session.shard_id,
                                send_guilds: false,
                                seq: resume.d.seq,
                                compress: session.compress,
                            },
                        )
                    } else {
                        ClientAction::SendInvalidSession
                    }
                },
                None => ClientAction::SendInvalidSession,
            }
        },
    }
}

/// The HTTP routes of the proxy.
#[derive(Clone, Copy, Debug, PartialEq, Eq)]
pub enum Route {
    /// `GET /metrics`: the Prometheus metrics.
    Metrics,
    /// `GET /shard-count`: the total shard count.
    ShardCount,
    /// Anything else is taken as a websocket upgrade, for backwards
    /// compatibility, where one would usually answer 404.
    Upgrade,
}

/// Picks the route for a request by its method and path.
pub fn route(is_get: bool, path: &str) -> (r: Route)
    ensures
        r == (if is_get && path@ == "/metrics"@ {
            Route::Metrics
        } else if is_get && path@ == "/shard-count"@ {
            Route::ShardCount
        } else {
            Route::Upgrade
        }),
{
    if is_get && str_eq(path, "/metrics") {
        Route::Metrics
    } else if is_get && str_eq(path, "/shard-count") {
        Route::ShardCount
    } else {
        Route::Upgrade
    }
}

/// Whether payloads to a client are compressed once its IDENTIFY or RESUME
/// has been handled: they are when the query string asked for it, or when
/// the session's compression (if any was handed over) is `Some(true)`.
pub fn compression_after_identify(query_zlib: bool, handed_over: Option<Option<bool>>) -> (r: bool)
    ensures
        r == (query_zlib || handed_over == Some(Some(true))),
{
    match handed_over {
        Some(Some(true)) => true,
        _ => query_zlib,
    }
}

/// The bytes that end a zlib sync flush.
pub open spec fn trailer() -> Seq<u8> {
    seq![0x00u8, 0x00u8, 0xffu8, 0xffu8]
}

/// Whether a compressed message ends with the sync flush trailer, that is,
/// whether it is complete.
pub fn ends_with_trailer(output: &[u8]) -> (r: bool)
    ensures
        r == (output@.len() >= 4 && output@.subrange(output@.len() - 4, output@.len() as int)
            == trailer()),
{
    let n = output.len();
    if n < 4 {
        return false;
    }
    let r = output[n - 4] == 0x00 && output[n - 3] == 0x00 && output[n - 2] == 0xff && output[n
        - 1] == 0xff;
    let ghost tail = output@.subrange(n - 4, n as int);
    assert(tail[0] == output@[n - 4] && tail[1] == output@[n - 3] && tail[2] == output@[n - 2]
        && tail[3] == output@[n - 1]);
    if r {
        assert(tail =~= trailer());
    }
    r
}

/// What a call of the zlib compressor returned.
#[derive(Clone, Copy, Debug, PartialEq, Eq)]
pub enum FlateStatus {
    /// Progress was made.
    Progress,
    /// No progress was possible: the output needs more space.
    BufError,
    /// The stream ended.
    StreamEnd,
}

/// Where the compression of one message stands: its bytes are being fed in,
/// the compressor is being flushed, or the message is complete.
#[derive(Clone, Copy, Debug, PartialEq, Eq, Structural)]
pub enum CompressState {
    Feeding,
    Flushing,
    Done,
}

/// The next call of the compressor for a message.
#[derive(Clone, Copy, Debug, PartialEq, Eq)]
pub enum CompressCall {
    /// Compress the message from `offset` on, without flushing.
    Feed { offset: usize },
    /// Reserve `reserve` more bytes of output, then compress nothing with a
    /// sync flush.
    Flush { reserve: usize },
    /// The message is complete.
    Stop,
}

/// Chooses the next compressor call for a message of `input_len` bytes of
/// which `consumed` went in so far, with `output` written so far: while not
/// all of it went in, feed the rest; then flush until the output ends with
/// the sync flush trailer.
pub fn next_compress_call(state: CompressState, consumed: usize, input_len: usize, output: &[u8]) -> (r: (
    CompressState,
    CompressCall,
))
    ensures
        r == (if state == CompressState::Feeding && consumed < input_len {
            (CompressState::Feeding, CompressCall::Feed { offset: consumed })
        } else if state == CompressState::Done || (output@.len() >= 4 && output@.subrange(
            output@.len() - 4,
            output@.len() as int,
        ) == trailer()) {
            (CompressState::Done, CompressCall::Stop)
        } else {
            (CompressState::Flushing, CompressCall::Flush { reserve: 5 })
        }),
{
    if state == CompressState::Feeding && consumed < input_len {
        return (CompressState::Feeding, CompressCall::Feed { offset: consumed });
    }
    if state == CompressState::Done || ends_with_trailer(output) {
        (CompressState::Done, CompressCall::Stop)
    } else {
        (CompressState::Flushing, CompressCall::Flush { reserve: 5 })
    }
}

/// After a compressor call returned `status`: the state that follows, and how
/// many more bytes of output to reserve. While feeding, a `BufError` asks
/// for 4096 more bytes and the end of the stream stops the feeding; while
/// flushing, the end of the stream completes the message.
pub fn after_compress_call(state: CompressState, status: FlateStatus) -> (r: (CompressState, usize))
    ensures
        r == (match state {
            CompressState::Feeding => match status {
                FlateStatus::Progress => (CompressState::Feeding, 0usize),
                FlateStatus::BufError => (CompressState::Feeding, 4096usize),
                FlateStatus::StreamEnd => (CompressState::Flushing, 0usize),
            },
            CompressState::Flushing => match status {
                FlateStatus::StreamEnd => (CompressState::Done, 0usize),
                _ => (CompressState::Flushing, 0usize),
            },
            CompressState::Done => (CompressState::Done, 0usize),
        }),
{
    match state {
        CompressState::Feeding => match status {
            FlateStatus::Progress => (CompressState::Feeding, 0),
            FlateStatus::BufError => (CompressState::Feeding, 4096),
            FlateStatus::StreamEnd => (CompressState::Flushing, 0),
        },
        CompressState::Flushing => match status {
            FlateStatus::StreamEnd => (CompressState::Done, 0),
            _ => (CompressState::Flushing, 0),
        },
        CompressState::Done => (CompressState::Done, 0),
    }
}

} // verus!
