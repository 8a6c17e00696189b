use kuda_operator::da::celestia::{CelestiaReceipt, Namespace};
use kuda_operator::da::eip4844::Eip4844Receipt;
use kuda_operator::health::{health_check, Status};
use kuda_operator::socketio::model::{
    Address, Amount, DaLayer, PostingIntent, PostingInterest, TaskResponsibility, Uuid,
};
use kuda_operator::socketio::{
    auth_message, process_posting_intent, process_task_responsibility, settlement_call,
    settlement_context, ConnAction, ConnEvent, ConnState, Receipt, Supervisor, TaskError,
    TaskPlan, POLL_INTERVAL_MS, RECONNECT_BACKOFF_MS,
};
use kuda_operator::da::{DaError, DecodeError};

fn amount(v: u128) -> Amount {
    Amount { hi: 0, lo: v }
}

fn intent(layers: Vec<DaLayer>) -> PostingIntent {
    PostingIntent {
        task_id: Uuid([1u8; 16]),
        size: 100,
        client_address: Address([0u8; 20]),
        reward_amount: amount(100),
        reward_token: Address([0xa0u8; 20]),
        acceptable_da_layers: layers,
    }
}

#[test]
fn balance_gate() {
    let op = Address([9u8; 20]);
    let i = intent(vec![DaLayer::Celestia, DaLayer::Eip4844]);
    assert_eq!(process_posting_intent(&i, amount(99), op), None);
    assert_eq!(
        process_posting_intent(&i, amount(100), op),
        Some(PostingInterest { task_id: Uuid([1u8; 16]), operator_address: op, da_layer: DaLayer::Celestia })
    );
    let j = intent(vec![DaLayer::Eip4844, DaLayer::Celestia]);
    assert_eq!(process_posting_intent(&j, amount(101), op).unwrap().da_layer, DaLayer::Eip4844);
    assert_eq!(process_posting_intent(&intent(vec![]), amount(1000), op), None);
}

#[test]
fn amounts_compare_across_halves() {
    assert!(Amount { hi: 1, lo: 0 }.ge(&Amount { hi: 0, lo: u128::MAX }));
    assert!(!Amount { hi: 0, lo: u128::MAX }.ge(&Amount { hi: 1, lo: 0 }));
    assert!(Amount { hi: 2, lo: 5 }.ge(&Amount { hi: 2, lo: 5 }));
    assert!(!Amount { hi: 2, lo: 4 }.ge(&Amount { hi: 2, lo: 5 }));
}

#[test]
fn da_layer_tags_and_names() {
    assert_eq!(u8::from(DaLayer::Celestia), 0);
    assert_eq!(u8::from(DaLayer::Eip4844), 1);
    assert_eq!(DaLayer::Celestia.name(), "Celestia");
    assert_eq!(DaLayer::Eip4844.name(), "4844");
    assert_eq!(auth_message(), "connection");
}

#[test]
fn reconnection_after_liveness_drops() {
    assert!(POLL_INTERVAL_MS <= 1000);
    assert_eq!(RECONNECT_BACKOFF_MS, 1000);
    let mut s = Supervisor::new();
    assert_eq!(s.step(ConnEvent::Start), ConnAction::Connect);
    assert_eq!(s.step(ConnEvent::HandshakeOk), ConnAction::Nothing);
    assert!(s.live);
    assert_eq!(s.step(ConnEvent::Tick), ConnAction::Nothing);
    assert_eq!(s.state, ConnState::Active);
    assert_eq!(s.step(ConnEvent::Closed), ConnAction::Nothing);
    assert!(!s.live);
    assert_eq!(s.step(ConnEvent::Tick), ConnAction::ConnectionLost);
    assert_eq!(s.state, ConnState::Disconnected);
    assert_eq!(s.step(ConnEvent::Start), ConnAction::Connect);
    assert_eq!(s.state, ConnState::Connecting);
}

#[test]
fn failed_handshake_is_retried() {
    let mut s = Supervisor::new();
    s.step(ConnEvent::Start);
    assert_eq!(s.step(ConnEvent::HandshakeFailed), ConnAction::ConnectionLost);
    assert_eq!(s.state, ConnState::Disconnected);
    assert_eq!(s.step(ConnEvent::Start), ConnAction::Connect);
}

#[test]
fn cancellation_is_terminal() {
    let mut s = Supervisor::new();
    s.step(ConnEvent::Start);
    s.step(ConnEvent::HandshakeOk);
    assert_eq!(s.step(ConnEvent::Cancel), ConnAction::Disconnect);
    assert_eq!(s.state, ConnState::Cancelled);
    assert_eq!(s.step(ConnEvent::Start), ConnAction::Nothing);
    assert_eq!(s.step(ConnEvent::Tick), ConnAction::Nothing);
    assert_eq!(s.state, ConnState::Cancelled);
    let mut idle = Supervisor::new();
    assert_eq!(idle.step(ConnEvent::Cancel), ConnAction::Stop);
}

#[test]
fn settlement_contexts() {
    let mut ns = [0u8; 29];
    ns[28] = 0xaa;
    let c = Receipt::Namespace(CelestiaReceipt { height: 0x0102, commitment: vec![1; 32], namespace: Namespace(ns) });
    let ctx = settlement_context(&c);
    assert_eq!(ctx.len(), 64);
    assert_eq!(&ctx[..29], &ns);
    assert!(ctx[29..62].iter().all(|b| *b == 0));
    assert_eq!(&ctx[62..], &[1u8, 2]);
    let e = Receipt::BlobTx(Eip4844Receipt { beacon_block_slot: 0x0a0b0c, commitment: vec![2; 48] });
    let ctx = settlement_context(&e);
    assert_eq!(ctx.len(), 32);
    assert!(ctx[..29].iter().all(|b| *b == 0));
    assert_eq!(&ctx[29..], &[0x0au8, 0x0b, 0x0c]);
}

fn task(data: &str, layer: DaLayer, commitment: Vec<u8>) -> TaskResponsibility {
    TaskResponsibility {
        task_id: Uuid([4u8; 16]),
        data: data.to_string(),
        commitment,
        da_layer: layer,
        signature: "00".to_string(),
        submission_time: amount(77),
        client_address: Address([5u8; 20]),
        reward_token: Address([6u8; 20]),
        reward_amount: amount(100),
    }
}

#[test]
fn task_routing() {
    let text = "AAsAAABoZWxsbyB3b3JsZA==";
    assert_eq!(
        process_task_responsibility(&task("%%", DaLayer::Celestia, vec![])).err(),
        Some(TaskError::Decode(DecodeError::Base64))
    );
    match process_task_responsibility(&task(text, DaLayer::Celestia, vec![1])) {
        Ok(TaskPlan::Namespace(b)) => assert_eq!(b.data, b"hello world".to_vec()),
        _ => panic!("expected the namespace backend"),
    }
    assert_eq!(
        process_task_responsibility(&task(text, DaLayer::Eip4844, vec![1; 48])).err(),
        Some(TaskError::Da(DaError::CommitmentMismatch))
    );
    let good = kuda_operator::da::eip4844::blob_tx_commitment(b"hello world");
    match process_task_responsibility(&task(text, DaLayer::Eip4844, good.clone())) {
        Ok(TaskPlan::BlobTx(s)) => assert_eq!(s.commitment, good),
        _ => panic!("expected the blob-transaction backend"),
    }
}

#[test]
fn settlement_call_fields() {
    let t = task("", DaLayer::Eip4844, vec![3; 48]);
    let r = Receipt::BlobTx(Eip4844Receipt { beacon_block_slot: 5, commitment: vec![3; 48] });
    let call = settlement_call(t, Address([8u8; 20]), vec![0xee; 65], &r);
    assert_eq!(call.operator, Address([8u8; 20]));
    assert_eq!(call.task_id, Uuid([4u8; 16]));
    assert_eq!(call.da_layer, 1);
    assert_eq!(call.context.len(), 32);
    assert_eq!(call.context[31], 5);
    assert_eq!(call.submission_time, amount(77));
    assert_eq!(call.signature, vec![0xee; 65]);
}

#[test]
fn health_follows_liveness() {
    let up = health_check(true);
    assert_eq!(up.status(), Status::Pass);
    assert_eq!(up.status_code(), 200);
    assert!(up.description().is_none());
    let down = health_check(false);
    assert_eq!(down.status(), Status::Fail);
    assert_eq!(down.status_code(), 500);
    assert_eq!(down.description().unwrap(), "Socket IO not connected");
}
