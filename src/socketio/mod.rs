use vstd::prelude::*;

use crate::da::celestia::CelestiaReceipt;
use crate::da::eip4844::{
    blob_tx_commitment_of, encoded, padded, prepare_blob_tx, zeros, BlobTxSubmission,
    Eip4844Receipt,
};
use crate::da::{base64_decoded, parse_envelope, BlobData, DaError, DecodeError};
use crate::socketio::model::{
    da_layer_tag, Address, Amount, DaLayer, PostingIntent, PostingInterest, TaskResponsibility, Uuid,
};

pub mod model;

verus! {

/// The message the operator signs to authenticate the connection.
pub fn auth_message() -> (r: &'static str)
    ensures
        r@ == "connection"@,
{
    "connection"
}

/// Milliseconds between two polls of the liveness flag.
pub const POLL_INTERVAL_MS: u64 = 1000;

/// Milliseconds to wait before connecting again after the connection was lost.
pub const RECONNECT_BACKOFF_MS: u64 = 1000;

/// The interest to emit for an advertised job, given the client's balance of
/// the reward token: the first acceptable backend, when the balance covers the
/// reward and the job names a backend.
pub open spec fn interest_for(
    intent: &PostingIntent,
    client_balance: Amount,
    operator_address: Address,
) -> Option<PostingInterest> {
    if client_balance.value() >= intent.reward_amount.value() && intent.acceptable_da_layers@.len()
        > 0 {
        Some(
            PostingInterest {
                task_id: intent.task_id,
                operator_address,
                da_layer: intent.acceptable_da_layers@[0],
            },
        )
    } else {
        None
    }
}

/// Decides whether to bid on an advertised job.
pub fn process_posting_intent(
    intent: &PostingIntent,
    client_balance: Amount,
    operator_address: Address,
) -> (r: Option<PostingInterest>)
    ensures
        r == interest_for(intent, client_balance, operator_address),
{
    if client_balance.ge(&intent.reward_amount) && intent.acceptable_da_layers.len() > 0 {
        Some(
            PostingInterest {
                task_id: intent.task_id,
                operator_address,
                da_layer: intent.acceptable_da_layers[0],
            },
        )
    } else {
        None
    }
}

/// Proof of publication from either backend.
pub enum Receipt {
    Namespace(CelestiaReceipt),
    BlobTx(Eip4844Receipt),
}

/// Big-endian bytes of a 64-bit number.
pub open spec fn be_u64(v: u64) -> Seq<u8> {
    seq![
        ((v >> 56u64) & 0xff) as u8,
        ((v >> 48u64) & 0xff) as u8,
        ((v >> 40u64) & 0xff) as u8,
        ((v >> 32u64) & 0xff) as u8,
        ((v >> 24u64) & 0xff) as u8,
        ((v >> 16u64) & 0xff) as u8,
        ((v >> 8u64) & 0xff) as u8,
        (v & 0xff) as u8,
    ]
}

/// The 32-byte contract-call word of a 64-bit number.
pub open spec fn abi_word(v: u64) -> Seq<u8> {
    zeros(24) + be_u64(v)
}

/// The settlement context of a receipt, in contract-call encoding: the
/// namespace as a left-aligned 29-byte word and the height, or the beacon slot.
pub open spec fn context_of(r: &Receipt) -> Seq<u8> {
    match r {
        Receipt::Namespace(c) => c.namespace.0@ + zeros(3) + abi_word(c.height),
        Receipt::BlobTx(e) => abi_word(e.beacon_block_slot),
    }
}

/// Appends the contract-call word of `v` to `out`.
fn push_word(out: &mut Vec<u8>, v: u64)
    ensures
        final(out)@ == old(out)@ + abi_word(v),
{
    let mut i: usize = 0;
    while i < 24
        invariant
            i <= 24,
            out@ == old(out)@ + zeros(i as nat),
        decreases 24 - i,
    {
        out.push(0);
        assert(zeros((i + 1) as nat) =~= zeros(i as nat).push(0u8));
        i += 1;
    }
    out.push(((v >> 56) & 0xff) as u8);
    out.push(((v >> 48) & 0xff) as u8);
    out.push(((v >> 40) & 0xff) as u8);
    out.push(((v >> 32) & 0xff) as u8);
    out.push(((v >> 24) & 0xff) as u8);
    out.push(((v >> 16) & 0xff) as u8);
    out.push(((v >> 8) & 0xff) as u8);
    out.push((v & 0xff) as u8);
    assert(out@ =~= old(out)@ + abi_word(v));
}

/// Encodes a receipt into the settlement call's context argument.
pub fn settlement_context(receipt: &Receipt) -> (r: Vec<u8>)
    ensures
        r@ == context_of(receipt),
{
    let mut out: Vec<u8> = Vec::new();
    match receipt {
        Receipt::Namespace(c) => {
            let mut i: usize = 0;
            while i < 29
                invariant
                    i <= 29,
                    out@ == c.namespace.0@.take(i as int),
                decreases 29 - i,
            {
                out.push(c.namespace.0[i]);
                assert(c.namespace.0@.take(i + 1) =~= c.namespace.0@.take(i as int).push(
                    c.namespace.0@[i as int],
                ));
                i += 1;
            }
            out.push(0);
            out.push(0);
            out.push(0);
            assert(out@ =~= c.namespace.0@ + zeros(3));
            push_word(&mut out, c.height);
        },
        Receipt::BlobTx(e) => {
            push_word(&mut out, e.beacon_block_slot);
            assert(out@ =~= abi_word(e.beacon_block_slot));
        },
    }
    out
}

/// The arguments of the settlement call that records a publication.
pub struct SettlementCall {
    pub operator: Address,
    pub task_id: Uuid,
    pub signature: Vec<u8>,
    pub commitment: Vec<u8>,
    pub context: Vec<u8>,
    pub da_layer: u8,
    pub submission_time: Amount,
    pub client_address: Address,
    pub reward_token: Address,
    pub reward_amount: Amount,
}

/// Builds the settlement call for a published assignment, from the receipt
/// and the assignment's signature bytes.
pub fn settlement_call(
    task: TaskResponsibility,
    operator: Address,
    signature: Vec<u8>,
    receipt: &Receipt,
) -> (r: SettlementCall)
    ensures
        r.operator == operator,
        r.task_id == task.task_id,
        r.signature@ == signature@,
        r.commitment@ == task.commitment@,
        r.context@ == context_of(receipt),
        r.da_layer == da_layer_tag(task.da_layer),
        r.submission_time == task.submission_time,
        r.client_address == task.client_address,
        r.reward_token == task.reward_token,
        r.reward_amount == task.reward_amount,
{
    let context = settlement_context(receipt);
    SettlementCall {
        operator,
        task_id: task.task_id,
        signature,
        commitment: task.commitment,
        context,
        da_layer: task.da_layer.into(),
        submission_time: task.submission_time,
        client_address: task.client_address,
        reward_token: task.reward_token,
        reward_amount: task.reward_amount,
    }
}


/// Why an assignment was dropped before anything was published.
#[derive(Clone, Copy, Debug, PartialEq, Eq)]
pub enum TaskError {
    Decode(DecodeError),
    Da(DaError),
}

/// What an assignment asks of its backend once its payload has been read.
pub enum TaskPlan {
    /// Derive the namespace backend's commitment of the payload, gate on it
    /// and submit.
    Namespace(BlobData),
    /// Send these blobs, already gated on their commitment.
    BlobTx(BlobTxSubmission),
}

/// The payload value held by base64 text of its canonical encoding.
pub open spec fn decoded_payload(s: Seq<char>) -> Option<(Option<Seq<u8>>, Seq<u8>)> {
    match base64_decoded(s) {
        None => None,
        Some(b) => parse_envelope(b),
    }
}

/// The data of the payload held by base64 text, empty when there is none.
pub open spec fn decoded_data(s: Seq<char>) -> Seq<u8> {
    match decoded_payload(s) {
        Some(v) => v.1,
        None => Seq::empty(),
    }
}

/// Reads the payload of an assignment and routes it to its backend. The
/// blob-transaction backend derives its commitment and gates on it here; the
/// namespace backend does so in `prepare_namespace`, once the commitment has
/// been derived. An assignment whose payload reads fails only on a
/// commitment mismatch.
pub fn process_task_responsibility(task: &TaskResponsibility) -> (r: Result<TaskPlan, TaskError>)
    ensures
        match r {
            Err(TaskError::Decode(_)) => decoded_payload(task.data@) is None,
            Err(TaskError::Da(e)) => {
                &&& task.da_layer == DaLayer::Eip4844
                &&& decoded_payload(task.data@) is Some
                &&& e == DaError::CommitmentMismatch
                &&& task.commitment@ != blob_tx_commitment_of(decoded_data(task.data@))
            },
            Ok(TaskPlan::Namespace(blob)) => {
                &&& task.da_layer == DaLayer::Celestia
                &&& decoded_payload(task.data@) == Some(blob@)
            },
            Ok(TaskPlan::BlobTx(s)) => {
                &&& task.da_layer == DaLayer::Eip4844
                &&& decoded_payload(task.data@) is Some
                &&& task.commitment@ == blob_tx_commitment_of(decoded_data(task.data@))
                &&& s.commitment@ == task.commitment@
                &&& s.blobs@ == padded(encoded(decoded_data(task.data@)))
            },
        },
        decoded_payload(task.data@) is Some ==> (r is Ok <==> (task.da_layer == DaLayer::Celestia
            || task.commitment@ == blob_tx_commitment_of(decoded_data(task.data@)))),
{
    let blob = match BlobData::from_str(task.data.as_str()) {
        Err(e) => {
            return Err(TaskError::Decode(e));
        },
        Ok(b) => b,
    };
    match task.da_layer {
        DaLayer::Celestia => Ok(TaskPlan::Namespace(blob)),
        DaLayer::Eip4844 => match prepare_blob_tx(task.commitment.as_slice(), blob) {
            Err(e) => Err(TaskError::Da(e)),
            Ok(s) => Ok(TaskPlan::BlobTx(s)),
        },
    }
}


/// States of the event connection.
#[derive(Clone, Copy, Debug, PartialEq, Eq)]
pub enum ConnState {
    Disconnected,
    Connecting,
    Authenticated,
    Active,
    /// Deliberate shutdown; terminal.
    Cancelled,
}

/// What happens to the connection.
#[derive(Clone, Copy, Debug, PartialEq, Eq)]
pub enum ConnEvent {
    /// The supervisor starts, or the backoff after a lost connection elapsed.
    Start,
    /// The server accepted the signed credentials.
    HandshakeOk,
    /// Connecting or authenticating failed.
    HandshakeFailed,
    /// The transport reported that the connection closed.
    Closed,
    /// The poll interval elapsed.
    Tick,
    /// Shutdown was requested.
    Cancel,
}

/// What the supervisor asks its runner to do.
#[derive(Clone, Copy, Debug, PartialEq, Eq)]
pub enum ConnAction {
    Nothing,
    /// Sign the authentication message and connect with it.
    Connect,
    /// Give up this connection and start again after the backoff.
    ConnectionLost,
    /// Tear the connection down and stop.
    Disconnect,
    /// Stop; there is no connection to tear down.
    Stop,
}

/// The connection supervisor: the connection's state and the liveness flag
/// that health checks read.
#[derive(Clone, Copy, Debug, PartialEq, Eq)]
pub struct Supervisor {
    pub state: ConnState,
    pub live: bool,
}

/// One step of the supervisor: the next supervisor and the action to take.
pub open spec fn next(s: Supervisor, e: ConnEvent) -> (Supervisor, ConnAction) {
    match (s.state, e) {
        (ConnState::Cancelled, _) => (s, ConnAction::Nothing),
        (ConnState::Disconnected, ConnEvent::Cancel) => (
            Supervisor { state: ConnState::Cancelled, live: false },
            ConnAction::Stop,
        ),
        (_, ConnEvent::Cancel) => (
            Supervisor { state: ConnState::Cancelled, live: false },
            ConnAction::Disconnect,
        ),
        (ConnState::Disconnected, ConnEvent::Start) => (
            Supervisor { state: ConnState::Connecting, live: false },
            ConnAction::Connect,
        ),
        (ConnState::Connecting, ConnEvent::HandshakeOk) => (
            Supervisor { state: ConnState::Authenticated, live: true },
            ConnAction::Nothing,
        ),
        (ConnState::Connecting, ConnEvent::HandshakeFailed) => (
            Supervisor { state: ConnState::Disconnected, live: false },
            ConnAction::ConnectionLost,
        ),
        (ConnState::Authenticated, ConnEvent::HandshakeOk) | (
            ConnState::Active,
            ConnEvent::HandshakeOk,
        ) => (Supervisor { state: s.state, live: true }, ConnAction::Nothing),
        (ConnState::Authenticated, ConnEvent::Closed) | (ConnState::Active, ConnEvent::Closed) => (
            Supervisor { state: s.state, live: false },
            ConnAction::Nothing,
        ),
        (ConnState::Authenticated, ConnEvent::Tick) | (ConnState::Active, ConnEvent::Tick) => if s.live {
            (Supervisor { state: ConnState::Active, live: true }, ConnAction::Nothing)
        } else {
            (Supervisor { state: ConnState::Disconnected, live: false }, ConnAction::ConnectionLost)
        },
        _ => (s, ConnAction::Nothing),
    }
}

impl Supervisor {
    /// A supervisor before its first connection.
    pub fn new() -> (r: Supervisor)
        ensures
            r == (Supervisor { state: ConnState::Disconnected, live: false }),
    {
        Supervisor { state: ConnState::Disconnected, live: false }
    }

    /// Takes one event and returns the action it calls for.
    pub fn step(&mut self, e: ConnEvent) -> (a: ConnAction)
        ensures
            (*final(self), a) == next(*old(self), e),
    {
        let disconnected = Supervisor { state: ConnState::Disconnected, live: false };
        let cancelled = Supervisor { state: ConnState::Cancelled, live: false };
        match (self.state, e) {
            (ConnState::Cancelled, _) => ConnAction::Nothing,
            (ConnState::Disconnected, ConnEvent::Cancel) => {
                *self = cancelled;
                ConnAction::Stop
            },
            (_, ConnEvent::Cancel) => {
                *self = cancelled;
                ConnAction::Disconnect
            },
            (ConnState::Disconnected, ConnEvent::Start) => {
                *self = Supervisor { state: ConnState::Connecting, live: false };
                ConnAction::Connect
            },
            (ConnState::Connecting, ConnEvent::HandshakeOk) => {
                *self = Supervisor { state: ConnState::Authenticated, live: true };
                ConnAction::Nothing
            },
            (ConnState::Connecting, ConnEvent::HandshakeFailed) => {
                *self = disconnected;
                ConnAction::ConnectionLost
            },
            (ConnState::Authenticated, ConnEvent::HandshakeOk) | (
                ConnState::Active,
                ConnEvent::HandshakeOk,
            ) => {
                self.live = true;
                ConnAction::Nothing
            },
            (ConnState::Authenticated, ConnEvent::Closed) | (
                ConnState::Active,
                ConnEvent::Closed,
            ) => {
                self.live = false;
                ConnAction::Nothing
            },
            (ConnState::Authenticated, ConnEvent::Tick) | (ConnState::Active, ConnEvent::Tick) => {
                if self.live {
                    *self = Supervisor { state: ConnState::Active, live: true };
                    ConnAction::Nothing
                } else {
                    *self = disconnected;
                    ConnAction::ConnectionLost
                }
            },
            _ => ConnAction::Nothing,
        }
    }
}

/// A connection that drops while active is noticed at the next poll, at most
/// one poll interval (one second) later: the supervisor reports
/// `ConnectionLost` and returns to `Disconnected`, from which the next start
/// connects again; the loss is not terminal.
pub proof fn lemma_reconnection(s: Supervisor)
    requires
        s.state == ConnState::Active,
    ensures
        POLL_INTERVAL_MS <= 1000,
        ({
            let (s1, a1) = next(s, ConnEvent::Closed);
            let (s2, a2) = next(s1, ConnEvent::Tick);
            let (s3, a3) = next(s2, ConnEvent::Start);
            &&& !s1.live
            &&& a1 == ConnAction::Nothing
            &&& s2.state == ConnState::Disconnected
            &&& a2 == ConnAction::ConnectionLost
            &&& s3.state == ConnState::Connecting
            &&& a3 == ConnAction::Connect
        }),
{
}

/// Cancellation wins from every state and is terminal: no later event
/// leaves `Cancelled` or asks for a new connection.
pub proof fn lemma_cancel_terminal(s: Supervisor, e: ConnEvent)
    ensures
        next(s, ConnEvent::Cancel).0.state == ConnState::Cancelled,
        ({
            let c = next(s, ConnEvent::Cancel).0;
            &&& next(c, e).0 == c
            &&& next(c, e).1 == ConnAction::Nothing
        }),
{
}

} // verus!
