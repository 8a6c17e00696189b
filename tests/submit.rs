use kuda_operator::da::celestia::{prepare_namespace, Namespace};
use kuda_operator::da::eip4844::{
    beacon_block_slot, blob_tx_commitment, blobs, encode, prepare_blob_tx, prepare_blob_tx_with,
};
use kuda_operator::da::{verify_commitment, BlobData, DaError};

fn hello(namespace: Option<Namespace>) -> BlobData {
    BlobData { namespace, data: b"hello world".to_vec() }
}

#[test]
fn gate_compares_bytes() {
    assert_eq!(verify_commitment(&[1, 2, 3], &[1, 2, 3]), Ok(()));
    assert_eq!(verify_commitment(&[1, 2, 3], &[1, 2, 4]), Err(DaError::CommitmentMismatch));
    assert_eq!(verify_commitment(&[1, 2], &[1, 2, 3]), Err(DaError::CommitmentMismatch));
    assert_eq!(verify_commitment(&[], &[]), Ok(()));
}

#[test]
fn blob_tx_refuses_wrong_commitment() {
    let mut sent = 0;
    let wrong = vec![0u8; 48];
    match prepare_blob_tx(&wrong, hello(None)) {
        Ok(_) => sent += 1,
        Err(e) => assert_eq!(e, DaError::CommitmentMismatch),
    }
    assert_eq!(sent, 0);
}

#[test]
fn blob_tx_accepts_derived_commitment_without_namespace() {
    let commitment = blob_tx_commitment(b"hello world");
    assert_eq!(commitment.len(), 48);
    let s = prepare_blob_tx(&commitment, hello(None)).unwrap();
    assert_eq!(s.commitment, commitment);
    assert_eq!(s.blobs, blobs(&encode(b"hello world")));
}

#[test]
fn blob_tx_commitment_depends_on_payload() {
    let a = blob_tx_commitment(b"hello world");
    let b = blob_tx_commitment(b"hello worle");
    assert_ne!(a, b);
}

#[test]
fn blob_tx_with_derived_value() {
    let c = vec![5u8; 48];
    assert_eq!(
        prepare_blob_tx_with(&c, b"x", vec![6u8; 48]).err(),
        Some(DaError::CommitmentMismatch)
    );
    let s = prepare_blob_tx_with(&c, b"x", c.clone()).unwrap();
    assert_eq!(s.commitment, c);
}

#[test]
fn namespace_backend_requires_namespace() {
    let c = vec![1u8; 32];
    assert_eq!(
        prepare_namespace(&c, hello(None), Some(c.clone())).err(),
        Some(DaError::MissingNamespace)
    );
    let ns = Namespace([0u8; 29]);
    let s = prepare_namespace(&c, hello(Some(ns)), Some(c.clone())).unwrap();
    assert_eq!(s.namespace, ns);
    assert_eq!(s.data, b"hello world".to_vec());
    assert_eq!(s.commitment, c);
}

#[test]
fn namespace_backend_gates_commitment() {
    let ns = Namespace([0u8; 29]);
    assert_eq!(
        prepare_namespace(&[1u8; 32], hello(Some(ns)), Some(vec![2u8; 32])).err(),
        Some(DaError::CommitmentMismatch)
    );
    assert_eq!(
        prepare_namespace(&[1u8; 32], hello(Some(ns)), None).err(),
        Some(DaError::CommitmentUnavailable)
    );
}

#[test]
fn beacon_slot_formula() {
    assert_eq!(beacon_block_slot(100, 1_000 + 36, 1_000), Ok(103));
    assert_eq!(beacon_block_slot(100, 1_000 + 47, 1_000), Ok(103));
    assert_eq!(beacon_block_slot(7, 500, 500), Ok(7));
    assert_eq!(beacon_block_slot(7, 499, 500), Err(DaError::InconsistentBlock));
    assert_eq!(beacon_block_slot(u64::MAX, 24, 0), Err(DaError::InconsistentBlock));
}

#[test]
fn blob_tx_commitment_for_large_payload() {
    let data: Vec<u8> = (0..31 * 5000).map(|i| (i % 100) as u8 + 1).collect();
    let c = blob_tx_commitment(&data);
    assert_eq!(c.len(), 48);
    assert!(prepare_blob_tx(&c, BlobData { namespace: None, data }).is_ok());
}
