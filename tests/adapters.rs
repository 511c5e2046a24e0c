use zk_session_games::adapters::{BattleshipVerifierAdapter, VerifyProofCommand};
use zk_session_games::payload::{PayloadParser, PublicInputs, VerifierError};

fn split_to_limbs(v: &[u8; 32]) -> ([u8; 32], [u8; 32]) {
    let mut hi = [0u8; 32];
    let mut lo = [0u8; 32];
    hi[16..32].copy_from_slice(&v[0..16]);
    lo[16..32].copy_from_slice(&v[16..32]);
    (hi, lo)
}

fn make_inputs(board: &[u8; 32], hash: &[u8; 32]) -> Vec<[u8; 32]> {
    let (b_hi, b_lo) = split_to_limbs(board);
    let (h_hi, h_lo) = split_to_limbs(hash);
    vec![b_hi, b_lo, h_hi, h_lo]
}

fn encode_payload(a: &[u8], b: &[u8], c: &[u8], inputs: &[[u8; 32]]) -> Vec<u8> {
    let mut payload = Vec::new();
    payload.extend_from_slice(&(inputs.len() as u32).to_be_bytes());
    payload.extend_from_slice(a);
    payload.extend_from_slice(b);
    payload.extend_from_slice(c);
    for limb in inputs {
        payload.extend_from_slice(limb);
    }
    payload
}

fn setup() -> ([u8; 32], [u8; 32]) {
    ([7u8; 32], [9u8; 32])
}

/// The adapter's answer with a Groth16 verifier that accepts every proof
/// carrying at least four public inputs.
fn battleship_verify(board: &[u8; 32], hash: &[u8; 32], payload: &[u8]) -> bool {
    match BattleshipVerifierAdapter::prepare_verification(board, hash, payload) {
        Some(parsed) => parsed.public_inputs.len() >= 4,
        None => false,
    }
}

fn wordle_verify(commitment: &[u8; 32], hash: &[u8; 32], payload: &[u8]) -> bool {
    VerifyProofCommand::execute(commitment, hash, payload).is_some()
}

#[test]
fn test_verify_valid_payload() {
    let (board, hash) = setup();
    let payload = encode_payload(&[0u8; 64], &[0u8; 128], &[0u8; 64], &make_inputs(&board, &hash));
    assert!(battleship_verify(&board, &hash, &payload));
}

#[test]
fn test_verify_rejects_binding_mismatch() {
    let (board, hash) = setup();
    let wrong_hash = [11u8; 32];
    let payload = encode_payload(&[0u8; 64], &[0u8; 128], &[0u8; 64], &make_inputs(&board, &wrong_hash));
    assert!(!battleship_verify(&board, &hash, &payload));
}

#[test]
fn test_verify_rejects_malformed_payload() {
    let (board, hash) = setup();
    assert!(!battleship_verify(&board, &hash, &[1u8, 2u8, 3u8]));
}

#[test]
fn test_verify_rejects_empty_payload() {
    let commitment = [1u8; 32];
    let hash = [2u8; 32];
    assert!(!wordle_verify(&commitment, &hash, &[]));
}

#[test]
fn test_verify_rejects_short_payload() {
    let commitment = [1u8; 32];
    let hash = [2u8; 32];
    assert!(!wordle_verify(&commitment, &hash, &[0u8; 100]));
}

#[test]
fn test_verify_rejects_mismatched_binding() {
    let mut payload_bytes = [0u8; 4 + 256 + 15 * 32];
    payload_bytes[3] = 15;
    let commitment = [1u8; 32];
    let hash = [2u8; 32];
    assert!(!wordle_verify(&commitment, &hash, &payload_bytes));
}

#[test]
fn word_adapter_accepts_bound_payload_of_fifteen_inputs() {
    let commitment = [1u8; 32];
    let hash = [2u8; 32];
    let mut inputs = make_inputs(&commitment, &hash);
    inputs.resize(15, [0u8; 32]);
    let payload = encode_payload(&[3u8; 64], &[4u8; 128], &[5u8; 64], &inputs);
    let parsed = VerifyProofCommand::execute(&commitment, &hash, &payload).unwrap();
    assert_eq!(parsed.public_inputs, inputs);
    inputs.truncate(14);
    let payload = encode_payload(&[3u8; 64], &[4u8; 128], &[5u8; 64], &inputs);
    assert!(VerifyProofCommand::execute(&commitment, &hash, &payload).is_none());
}

#[test]
fn parse_reads_the_layout() {
    let a: Vec<u8> = (0..64).map(|i| i as u8).collect();
    let b: Vec<u8> = (0..128).map(|i| (i + 64) as u8).collect();
    let c: Vec<u8> = (0..64).map(|i| (i + 192) as u8).collect();
    let inputs = vec![[1u8; 32], [2u8; 32], [3u8; 32]];
    let payload = encode_payload(&a, &b, &c, &inputs);
    assert_eq!(payload.len(), 260 + 96);
    let parsed = PayloadParser::parse(&payload).unwrap();
    assert_eq!(parsed.proof.a, a);
    assert_eq!(parsed.proof.b, b);
    assert_eq!(parsed.proof.c, c);
    assert_eq!(parsed.public_inputs, inputs);
    let empty = PayloadParser::parse(&encode_payload(&a, &b, &c, &[])).unwrap();
    assert!(empty.public_inputs.is_empty());
}

#[test]
fn parse_errors() {
    assert_eq!(PayloadParser::parse(&[0u8; 259]), Err(VerifierError::MalformedProof));
    let mut p = vec![0u8; 260 + 32];
    p[3] = 2;
    assert_eq!(PayloadParser::parse(&p), Err(VerifierError::InvalidPayloadLength));
    p[3] = 0;
    assert_eq!(PayloadParser::parse(&p), Err(VerifierError::InvalidPayloadLength));
    // A count whose payload length would not fit in 32 bits.
    let mut q = vec![0u8; 260];
    q[0] = 0x08;
    assert_eq!(PayloadParser::parse(&q), Err(VerifierError::MalformedProof));
    // A count whose input bytes fit but whose total length does not.
    let mut r = vec![0u8; 260];
    r[0] = 0x07;
    r[1] = 0xff;
    r[2] = 0xff;
    r[3] = 0xf8;
    assert_eq!(PayloadParser::parse(&r), Err(VerifierError::MalformedProof));
}

#[test]
fn reading_helpers() {
    let p = [0x12u8, 0x34, 0x56, 0x78, 0x9a];
    assert_eq!(PayloadParser::read_u32_be(&p, 0), Ok(0x12345678));
    assert_eq!(PayloadParser::read_u32_be(&p, 1), Ok(0x3456789a));
    assert_eq!(PayloadParser::read_u32_be(&p, 2), Err(VerifierError::MalformedProof));
    assert_eq!(PayloadParser::read_array(&p, 1, 3), Ok(vec![0x34, 0x56, 0x78]));
    assert_eq!(PayloadParser::read_array(&p, 3, 3), Err(VerifierError::MalformedProof));
    let long: Vec<u8> = (0..40).map(|i| i as u8).collect();
    let limb = PayloadParser::read_limb(&long, 8).unwrap();
    assert_eq!(limb[0], 8);
    assert_eq!(limb[31], 39);
    assert_eq!(PayloadParser::read_limb(&long, 9), Err(VerifierError::MalformedProof));
}

#[test]
fn limbs_are_right_aligned_halves() {
    let mut v = [0u8; 32];
    for (i, b) in v.iter_mut().enumerate() {
        *b = (i + 1) as u8;
    }
    let (hi, lo) = PublicInputs::split_u256_to_fr_limbs(&v);
    assert_eq!(&hi[0..16], &[0u8; 16]);
    assert_eq!(&hi[16..32], &v[0..16]);
    assert_eq!(&lo[0..16], &[0u8; 16]);
    assert_eq!(&lo[16..32], &v[16..32]);
}

#[test]
fn binding_validation() {
    let (c, h) = setup();
    let inputs = make_inputs(&c, &h);
    assert_eq!(PublicInputs::validate_binding(&inputs, &c, &h), Ok(()));
    assert!(BattleshipVerifierAdapter::binding_inputs_match(&inputs, &c, &h));
    assert_eq!(PublicInputs::validate_binding(&inputs[..3].to_vec(), &c, &h), Err(VerifierError::MalformedPublicInputs));
    for k in 0..4 {
        let mut changed = inputs.clone();
        changed[k][31] ^= 1;
        assert_eq!(PublicInputs::validate_binding(&changed, &c, &h), Err(VerifierError::BindingMismatch));
        assert!(!BattleshipVerifierAdapter::binding_inputs_match(&changed, &c, &h));
    }
    // Swapped order does not bind.
    let swapped = vec![inputs[2], inputs[3], inputs[0], inputs[1]];
    assert_eq!(PublicInputs::validate_binding(&swapped, &c, &h), Err(VerifierError::BindingMismatch));
    assert!(BattleshipVerifierAdapter::parse_payload(&[0u8; 3]).is_none());
}
