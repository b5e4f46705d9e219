//! The network message reactor: demultiplexes one inbound byte-message
//! stream into typed reactions. Gossip and RPC calls decode the payload and
//! hand it to the registered handler; an RPC response is parsed by its first
//! byte and delivered to the pending caller — a response nobody waits for is
//! only warned about and dropped, never an error.

use vstd::prelude::*;

verus! {

/// Where an inbound message was addressed.
pub enum EndpointScheme {
    Gossip,
    RpcCall,
    RpcResponse,
}

/// An endpoint: its scheme and, for RPC traffic, the call identifier.
pub struct Endpoint {
    pub scheme: EndpointScheme,
    pub rpc_id: u64,
}

/// One inbound network message: the raw payload.
pub struct NetworkMessage {
    pub content: Vec<u8>,
}

/// A parsed RPC response: the first payload byte decides success, the rest
/// is the body or the error text.
pub enum RpcResponse {
    Success(Vec<u8>),
    Error(Vec<u8>),
}

/// What a handler reports back about the peer.
pub enum TrustFeedback {
    Neutral,
    Good,
    Bad,
}

/// A message type that travels the wire.
pub trait MessageCodec: Sized {
    fn encode_msg(&mut self) -> Vec<u8>;

    fn decode_msg(bytes: &Vec<u8>) -> Option<Self>;
}

/// A registered message handler.
pub trait MessageHandler {
    type Message;

    fn process(&self, message: Self::Message) -> TrustFeedback;
}

/// The pending-call table: which (session, rpc id) pairs await a response.
pub struct RpcMap {
    pub entries: Vec<(u64, u64)>,
}

/// Whether a pair is pending in the table.
pub open spec fn pending_contains(s: Seq<(u64, u64)>, session: u64, rpc_id: u64) -> bool {
    exists|i: int| 0 <= i < s.len() && s[i] == (session, rpc_id)
}

impl RpcMap {
    /// An empty table.
    pub fn new() -> (r: RpcMap)
        ensures
            r.entries@.len() == 0,
    {
        RpcMap { entries: Vec::new() }
    }

    /// Whether the pair is pending.
    pub fn contains(&self, session: u64, rpc_id: u64) -> (r: bool)
        ensures
            r == pending_contains(self.entries@, session, rpc_id),
    {
        let mut i: usize = 0;
        while i < self.entries.len()
            invariant
                i <= self.entries@.len(),
                forall|k: int| 0 <= k < i ==> self.entries@[k] != (session, rpc_id),
            decreases self.entries@.len() - i,
        {
            let e = self.entries[i];
            if e.0 == session && e.1 == rpc_id {
                return true;
            }
            i = i + 1;
        }
        false
    }

    /// Registers a pending call.
    pub fn insert(&mut self, session: u64, rpc_id: u64)
        ensures
            final(self).entries@ == old(self).entries@.push((session, rpc_id)),
            pending_contains(final(self).entries@, session, rpc_id),
    {
        self.entries.push((session, rpc_id));
        proof {
            assert(self.entries@.last() == (session, rpc_id));
        }
    }

    /// Takes a pending call out of the table; afterwards at least one fewer
    /// copy of the pair is pending, everything else stays.
    pub fn take(&mut self, session: u64, rpc_id: u64) -> (r: bool)
        ensures
            r == pending_contains(old(self).entries@, session, rpc_id),
            !r ==> final(self).entries@ == old(self).entries@,
            r ==> exists|i: int|
                0 <= i < old(self).entries@.len() && old(self).entries@[i] == (session, rpc_id)
                    && final(self).entries@ == old(self).entries@.remove(i),
    {
        let mut i: usize = 0;
        while i < self.entries.len()
            invariant
                i <= self.entries@.len(),
                self.entries@ == old(self).entries@,
                forall|k: int| 0 <= k < i ==> self.entries@[k] != (session, rpc_id),
            decreases self.entries@.len() - i,
        {
            let e = self.entries[i];
            if e.0 == session && e.1 == rpc_id {
                self.entries.remove(i);
                return true;
            }
            i = i + 1;
        }
        false
    }
}

/// What one reaction amounted to.
pub enum ReactOutcome {
    Handled(TrustFeedback),
    Responded(RpcResponse),
    WarnedNoPending,
}

/// Why a reaction failed.
pub enum NetError {
    Decode,
}

/// Parses an RPC response payload: an empty payload is an error response;
/// otherwise the first byte decides success and the rest is the body.
pub fn parse_rpc_response(content: &Vec<u8>) -> (r: RpcResponse)
    ensures
        content@.len() == 0 ==> r is Error,
        (content@.len() > 0 && content@[0] == 0) ==> (r matches RpcResponse::Success(b) && b@
            == content@.subrange(1, content@.len() as int)),
        (content@.len() > 0 && content@[0] != 0) ==> (r matches RpcResponse::Error(b) && b@
            == content@.subrange(1, content@.len() as int)),
{
    let n = content.len();
    if n == 0 {
        let mut text: Vec<u8> = Vec::new();
        text.push(0x65);
        text.push(0x6d);
        text.push(0x70);
        text.push(0x74);
        text.push(0x79);
        return RpcResponse::Error(text);
    }
    let body = crate::bytesutil::get_bytes(content, 1, n - 1);
    if content[0] == 0 {
        RpcResponse::Success(body)
    } else {
        RpcResponse::Error(body)
    }
}

/// Reacts to one inbound message. Gossip and RPC calls decode and dispatch
/// to the handler; an RPC response is parsed and delivered to the pending
/// caller, and when nobody waits for it the reactor only warns and reports
/// success — the table is left as it was.
pub fn react_message<M: MessageCodec, H: MessageHandler<Message = M>>(
    handler: &H,
    rpc_map: &mut RpcMap,
    session_id: u64,
    endpoint: &Endpoint,
    message: &NetworkMessage,
) -> (r: Result<ReactOutcome, NetError>)
    ensures
        (endpoint.scheme is Gossip || endpoint.scheme is RpcCall) ==> final(rpc_map).entries@
            == old(rpc_map).entries@ && (r matches Ok(o) ==> o is Handled) && (r is Err ==> r
            == Result::<ReactOutcome, NetError>::Err(NetError::Decode)),
        (endpoint.scheme is RpcResponse && !pending_contains(
            old(rpc_map).entries@,
            session_id,
            endpoint.rpc_id,
        )) ==> r == Result::<ReactOutcome, NetError>::Ok(ReactOutcome::WarnedNoPending)
            && final(rpc_map).entries@ == old(rpc_map).entries@,
        (endpoint.scheme is RpcResponse && pending_contains(
            old(rpc_map).entries@,
            session_id,
            endpoint.rpc_id,
        )) ==> (r matches Ok(o) && o is Responded) && exists|i: int|
            0 <= i < old(rpc_map).entries@.len() && old(rpc_map).entries@[i] == (
            session_id,
            endpoint.rpc_id,
        ) && final(rpc_map).entries@ == old(rpc_map).entries@.remove(i),
        endpoint.scheme is RpcResponse ==> (r matches Ok(o) ==> (o matches
            ReactOutcome::Responded(resp) ==> rpc_response_parsed(message.content@, resp))),
{
    match endpoint.scheme {
        EndpointScheme::Gossip => {
            let decoded = M::decode_msg(&message.content);
            match decoded {
                Some(m) => {
                    let feedback = handler.process(m);
                    Ok(ReactOutcome::Handled(feedback))
                },
                None => Err(NetError::Decode),
            }
        },
        EndpointScheme::RpcCall => {
            let decoded = M::decode_msg(&message.content);
            match decoded {
                Some(m) => {
                    let feedback = handler.process(m);
                    Ok(ReactOutcome::Handled(feedback))
                },
                None => Err(NetError::Decode),
            }
        },
        EndpointScheme::RpcResponse => {
            let resp = parse_rpc_response(&message.content);
            if !rpc_map.contains(session_id, endpoint.rpc_id) {
                return Ok(ReactOutcome::WarnedNoPending);
            }
            let taken = rpc_map.take(session_id, endpoint.rpc_id);
            Ok(ReactOutcome::Responded(resp))
        },
    }
}

/// How a response body relates to the raw payload it was parsed from.
pub open spec fn rpc_response_parsed(content: Seq<u8>, resp: RpcResponse) -> bool {
    if content.len() == 0 {
        resp is Error
    } else if content[0] == 0 {
        resp matches RpcResponse::Success(b) && b@ == content.subrange(1, content.len() as int)
    } else {
        resp matches RpcResponse::Error(b) && b@ == content.subrange(1, content.len() as int)
    }
}

/// The reactor interface: one reaction per inbound message, with the
/// response-delivery duties every reactor owes.
pub trait Reactor {
    fn react(
        &self,
        rpc_map: &mut RpcMap,
        session_id: u64,
        endpoint: &Endpoint,
        message: &NetworkMessage,
    ) -> (r: Result<ReactOutcome, NetError>)
        ensures
            (endpoint.scheme is RpcResponse && !pending_contains(
                old(rpc_map).entries@,
                session_id,
                endpoint.rpc_id,
            )) ==> r == Result::<ReactOutcome, NetError>::Ok(ReactOutcome::WarnedNoPending)
                && final(rpc_map).entries@ == old(rpc_map).entries@,
            (endpoint.scheme is RpcResponse && pending_contains(
                old(rpc_map).entries@,
                session_id,
                endpoint.rpc_id,
            )) ==> (r matches Ok(o) && o is Responded),
            endpoint.scheme is RpcResponse ==> (r matches Ok(o) ==> (o matches
                ReactOutcome::Responded(resp) ==> rpc_response_parsed(message.content@, resp))),
    ;
}

/// A reactor bound to one message type and its handler.
#[verifier::reject_recursive_types(M)]
pub struct MessageReactor<M: MessageCodec, H: MessageHandler<Message = M>> {
    pub msg_handler: H,
    pub pin_m: core::marker::PhantomData<M>,
}

/// Builds a reactor around a handler.
pub fn generate<M: MessageCodec, H: MessageHandler<Message = M>>(h: H) -> (r: MessageReactor<
    M,
    H,
>)
    ensures
        r.msg_handler == h,
{
    MessageReactor { msg_handler: h, pin_m: core::marker::PhantomData }
}

/// Builds a reactor whose handler does nothing: the receiving side of an RPC
/// response endpoint.
pub fn rpc_resp<M: MessageCodec>() -> (r: MessageReactor<M, NoopHandler<M>>) {
    MessageReactor { msg_handler: NoopHandler::new(), pin_m: core::marker::PhantomData }
}

impl<M: MessageCodec, H: MessageHandler<Message = M>> Reactor for MessageReactor<M, H> {
    fn react(
        &self,
        rpc_map: &mut RpcMap,
        session_id: u64,
        endpoint: &Endpoint,
        message: &NetworkMessage,
    ) -> (r: Result<ReactOutcome, NetError>) {
        react_message(&self.msg_handler, rpc_map, session_id, endpoint, message)
    }
}

/// A handler that accepts everything and reports neutral trust.
#[verifier::reject_recursive_types(M)]
pub struct NoopHandler<M> {
    pub pin_m: core::marker::PhantomData<M>,
}

impl<M: MessageCodec> NoopHandler<M> {
    pub fn new() -> (r: NoopHandler<M>) {
        NoopHandler { pin_m: core::marker::PhantomData }
    }
}

impl<M: MessageCodec> MessageHandler for NoopHandler<M> {
    type Message = M;

    fn process(&self, message: M) -> (r: TrustFeedback)
        ensures
            r == TrustFeedback::Neutral,
    {
        TrustFeedback::Neutral
    }
}

} // verus!
