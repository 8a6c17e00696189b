use kuda_operator::da::eip4844::{
    blob_tx_commitment, blobs, encode, TerminationCoder, BYTES_PER_BLOB,
};

#[test]
fn test_termination_coder() {
    let data = b"hello world".to_vec();

    let mut grid: Vec<u8> = Vec::new();
    let mut coder = TerminationCoder::default();
    coder.code(&mut grid, &data);
    assert_eq!(coder.0, data.len());
    let blobs = blobs(&grid);
    let decoded = coder.decode_all(&blobs).unwrap();
    assert_eq!(decoded[0], data);

    let blob = &blobs[..BYTES_PER_BLOB];
    let mut expected_blob = vec![0u8];
    expected_blob.extend_from_slice(&data);
    assert_eq!(&blob[..12], expected_blob);
    let commitment = format!("0x{}", hex::encode(blob_tx_commitment(&data)));
    assert_eq!(commitment, "0xb93ab7583ad8a57b2edd262889391f37a83ab41107dc02c1a68220841379ae828343e84ac1c70fb7c2640ee3522c4c36");
}

fn round_trip(data: &[u8]) -> Vec<Vec<u8>> {
    let mut grid: Vec<u8> = Vec::new();
    let mut coder = TerminationCoder::default();
    coder.code(&mut grid, data);
    coder.decode_all(&blobs(&grid)).unwrap()
}

#[test]
fn hello_world_first_element_layout() {
    let grid = encode(b"hello world");
    assert_eq!(grid.len(), 32);
    assert_eq!(grid[0], 0x00);
    assert_eq!(&grid[1..12], b"hello world");
    assert_eq!(grid[12], 0x80);
    assert!(grid[13..32].iter().all(|b| *b == 0));
}

#[test]
fn round_trip_empty_payload() {
    let grid = encode(b"");
    assert_eq!(grid, {
        let mut g = vec![0u8, 0x80];
        g.extend_from_slice(&[0u8; 30]);
        g
    });
    assert_eq!(round_trip(b""), vec![Vec::<u8>::new()]);
}

#[test]
fn round_trip_multiples_of_31() {
    for n in [31usize, 62, 93, 31 * 100] {
        let data: Vec<u8> = (0..n).map(|i| (i % 100) as u8 + 1).collect();
        let grid = encode(&data);
        assert_eq!(grid.len(), 32 * (n / 31 + 1));
        assert_eq!(&grid[grid.len() - 32..grid.len() - 30], &[0u8, 0x80]);
        assert_eq!(round_trip(&data), vec![data]);
    }
}

#[test]
fn round_trip_assorted_lengths() {
    for n in [1usize, 30, 32, 61, 63, 500, 4096] {
        let data: Vec<u8> = (0..n).map(|i| (i * 7 % 256) as u8).filter(|b| *b != 0x80).collect();
        assert_eq!(round_trip(&data), vec![data]);
    }
}

#[test]
fn round_trip_spanning_two_blobs() {
    let n = 31 * 4096 + 5;
    let data: Vec<u8> = (0..n).map(|i| (i % 100) as u8 + 1).collect();
    let grid = encode(&data);
    let padded = blobs(&grid);
    assert_eq!(padded.len(), 2 * BYTES_PER_BLOB);
    assert_eq!(round_trip(&data), vec![data]);
}

#[test]
fn required_fe_rounds_up() {
    let coder = TerminationCoder::default();
    assert_eq!(coder.required_fe(b""), 0);
    assert_eq!(coder.required_fe(&[1u8; 31]), 1);
    assert_eq!(coder.required_fe(&[1u8; 32]), 2);
    assert_eq!(coder.required_fe(&[1u8; 62]), 2);
}

#[test]
fn two_payloads_in_one_grid() {
    let mut grid: Vec<u8> = Vec::new();
    let mut coder = TerminationCoder::default();
    coder.code(&mut grid, b"first payload");
    coder.code(&mut grid, b"second");
    assert_eq!(coder.0, 19);
    let decoded = coder.decode_all(&blobs(&grid)).unwrap();
    assert_eq!(decoded, vec![b"first payload".to_vec(), b"second".to_vec()]);
}

#[test]
fn payload_without_terminator_fails() {
    let mut grid = vec![0u8; 64];
    for b in grid.iter_mut().skip(1).take(31) {
        *b = 7;
    }
    let coder = TerminationCoder(40);
    assert_eq!(coder.decode_all(&grid), None);
}

#[test]
fn chunk_ending_in_terminator_is_cut_short() {
    // A whole 31-byte chunk ending in 0x80 reads as a terminator.
    let mut data = vec![5u8; 31];
    data[30] = 0x80;
    let mut grid: Vec<u8> = Vec::new();
    let mut coder = TerminationCoder::default();
    coder.code(&mut grid, &data);
    assert_eq!(coder.decode_all(&grid), None);
    assert_eq!(coder.decode_all(&blobs(&grid)), None);
}

#[test]
fn blobs_pad_to_whole_blobs() {
    assert_eq!(blobs(&[]).len(), BYTES_PER_BLOB);
    let grid = encode(b"abc");
    let padded = blobs(&grid);
    assert_eq!(padded.len(), BYTES_PER_BLOB);
    assert_eq!(&padded[..32], &grid[..]);
    assert!(padded[32..].iter().all(|b| *b == 0));
}

#[test]
fn running_out_of_elements_fails() {
    assert_eq!(TerminationCoder(1).decode_all(&[]), None);
    assert_eq!(TerminationCoder(0).decode_all(&[]), Some(vec![]));
    let grid = encode(b"abc");
    assert_eq!(TerminationCoder(4).decode_all(&grid), None);
    assert_eq!(TerminationCoder(3).decode_all(&grid), Some(vec![b"abc".to_vec()]));
}
