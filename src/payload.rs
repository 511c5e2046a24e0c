use vstd::prelude::*;

use crate::bytes::{be_u32_value, bytes_equal};

verus! {

/// Bytes of the big-endian public-input count that opens a payload.
pub const PAYLOAD_HEADER_BYTES: u32 = 4;
/// Bytes of a serialized BN254 G1 point.
pub const G1_BYTES: u32 = 64;
/// Bytes of a serialized BN254 G2 point.
pub const G2_BYTES: u32 = 128;
/// Bytes of one public input (a field element).
pub const FR_BYTES: u32 = 32;
/// Bytes of a serialized proof: points A, B and C.
pub const PROOF_BYTES: u32 = G1_BYTES + G2_BYTES + G1_BYTES;
pub const A_OFFSET: u32 = PAYLOAD_HEADER_BYTES;
pub const B_OFFSET: u32 = A_OFFSET + G1_BYTES;
pub const C_OFFSET: u32 = B_OFFSET + G2_BYTES;
pub const INPUTS_OFFSET: u32 = PAYLOAD_HEADER_BYTES + PROOF_BYTES;

/// A Groth16 proof as its three serialized curve points.
#[derive(Clone, Debug, PartialEq, Eq)]
pub struct Groth16Proof {
    pub a: Vec<u8>,
    pub b: Vec<u8>,
    pub c: Vec<u8>,
}

/// A decoded payload: the proof and its public inputs, each 32 bytes.
#[derive(Clone, Debug, PartialEq, Eq)]
pub struct ParsedPayload {
    pub proof: Groth16Proof,
    pub public_inputs: Vec<[u8; 32]>,
}

#[derive(Clone, Copy, Debug, PartialEq, Eq, Structural)]
pub enum VerifierError {
    NotInitialized,
    MalformedPublicInputs,
    InvalidProof,
    MalformedProof,
    InvalidPayloadLength,
    BindingMismatch,
}

/// The errors of the Groth16 verifier service.
#[derive(Clone, Copy, Debug, PartialEq, Eq, Structural)]
pub enum Groth16Error {
    NotInitialized,
    MalformedPublicInputs,
    InvalidProof,
    MalformedProof,
}

/// The public-input count that a payload announces.
pub open spec fn announced_count(p: Seq<u8>) -> int {
    be_u32_value(p.subrange(0, 4))
}

/// The length of a payload that carries `n` public inputs.
pub open spec fn payload_len_for(n: int) -> int {
    INPUTS_OFFSET + FR_BYTES * n
}

/// Why a payload does not decode, if it does not.
pub open spec fn parse_error(p: Seq<u8>) -> Option<VerifierError> {
    if p.len() < INPUTS_OFFSET {
        Some(VerifierError::MalformedProof)
    } else if payload_len_for(announced_count(p)) > u32::MAX {
        Some(VerifierError::MalformedProof)
    } else if p.len() != payload_len_for(announced_count(p)) {
        Some(VerifierError::InvalidPayloadLength)
    } else {
        None
    }
}

/// The bytes of public input `i` in a payload.
pub open spec fn limb_at(p: Seq<u8>, i: int) -> Seq<u8> {
    p.subrange(INPUTS_OFFSET + FR_BYTES * i, INPUTS_OFFSET + FR_BYTES * i + FR_BYTES)
}

/// `r` holds exactly what payload `p` lays out.
pub open spec fn decodes_to(r: ParsedPayload, p: Seq<u8>) -> bool {
    &&& r.proof.a@ == p.subrange(A_OFFSET as int, B_OFFSET as int)
    &&& r.proof.b@ == p.subrange(B_OFFSET as int, C_OFFSET as int)
    &&& r.proof.c@ == p.subrange(C_OFFSET as int, INPUTS_OFFSET as int)
    &&& r.public_inputs@.len() == announced_count(p)
    &&& forall|i: int|
        0 <= i < r.public_inputs@.len() ==> #[trigger] r.public_inputs@[i]@ == limb_at(p, i)
}

/// A 32-byte buffer holding the first half of `v` right-aligned.
pub open spec fn limb_hi(v: Seq<u8>) -> Seq<u8> {
    Seq::new(16, |i: int| 0u8) + v.subrange(0, 16)
}

/// A 32-byte buffer holding the second half of `v` right-aligned.
pub open spec fn limb_lo(v: Seq<u8>) -> Seq<u8> {
    Seq::new(16, |i: int| 0u8) + v.subrange(16, 32)
}

/// The first four public inputs encode the commitment and the binding hash.
pub open spec fn binding_matches(inputs: Seq<[u8; 32]>, commitment: Seq<u8>, hash: Seq<u8>) -> bool {
    &&& inputs.len() >= 4
    &&& inputs[0]@ == limb_hi(commitment)
    &&& inputs[1]@ == limb_lo(commitment)
    &&& inputs[2]@ == limb_hi(hash)
    &&& inputs[3]@ == limb_lo(hash)
}

/// What binding validation answers for these inputs.
pub open spec fn binding_result(inputs: Seq<[u8; 32]>, commitment: Seq<u8>, hash: Seq<u8>) -> Result<(), VerifierError> {
    if inputs.len() < 4 {
        Err(VerifierError::MalformedPublicInputs)
    } else if binding_matches(inputs, commitment, hash) {
        Ok(())
    } else {
        Err(VerifierError::BindingMismatch)
    }
}

/// The layout of the public inputs that tie a proof to one session and move.
pub struct PublicInputs;

impl PublicInputs {
    /// Splits a 32-byte value into two field-sized limbs: the high half and the
    /// low half, each right-aligned in 32 zero-padded bytes.
    pub fn split_u256_to_fr_limbs(value: &[u8; 32]) -> (r: ([u8; 32], [u8; 32]))
        ensures
            r.0@ == limb_hi(value@),
            r.1@ == limb_lo(value@),
    {
        let mut hi = [0u8; 32];
        let mut lo = [0u8; 32];
        let mut i: usize = 0;
        while i < 16
            invariant
                0 <= i <= 16,
                hi@.len() == 32,
                lo@.len() == 32,
                forall|j: int| 0 <= j < 16 ==> hi@[j] == 0u8 && lo@[j] == 0u8,
                forall|j: int| 16 <= j < 16 + i ==> hi@[j] == value@[j - 16] && lo@[j] == value@[j],
            decreases 16 - i,
        {
            hi[16 + i] = value[i];
            lo[16 + i] = value[16 + i];
            i += 1;
        }
        assert(hi@ =~= limb_hi(value@));
        assert(lo@ =~= limb_lo(value@));
        (hi, lo)
    }

    /// Checks that public inputs 0 to 3 are, in order, the high and low limbs
    /// of the commitment and then of the binding hash.
    pub fn validate_binding(
        public_inputs: &Vec<[u8; 32]>,
        commitment: &[u8; 32],
        public_inputs_hash: &[u8; 32],
    ) -> (r: Result<(), VerifierError>)
        ensures
            r == binding_result(public_inputs@, commitment@, public_inputs_hash@),
    {
        if public_inputs.len() < 4 {
            return Err(VerifierError::MalformedPublicInputs);
        }
        let (c_hi, c_lo) = Self::split_u256_to_fr_limbs(commitment);
        let (h_hi, h_lo) = Self::split_u256_to_fr_limbs(public_inputs_hash);
        let m0 = bytes_equal(public_inputs[0].as_slice(), c_hi.as_slice());
        let m1 = bytes_equal(public_inputs[1].as_slice(), c_lo.as_slice());
        let m2 = bytes_equal(public_inputs[2].as_slice(), h_hi.as_slice());
        let m3 = bytes_equal(public_inputs[3].as_slice(), h_lo.as_slice());
        if m0 && m1 && m2 && m3 {
            Ok(())
        } else {
            Err(VerifierError::BindingMismatch)
        }
    }
}

/// Decoder of the proof payload layout.
pub struct PayloadParser;

impl PayloadParser {
    /// Decodes a payload: a big-endian count N, proof points A, B and C, then
    /// N public inputs of 32 bytes. Nothing is decoded from a payload whose
    /// length is not exactly what N announces.
    pub fn parse(payload: &[u8]) -> (r: Result<ParsedPayload, VerifierError>)
        ensures
            match r {
                Ok(v) => parse_error(payload@) is None && decodes_to(v, payload@),
                Err(e) => parse_error(payload@) == Some(e),
            },
    {
        if payload.len() < INPUTS_OFFSET as usize {
            return Err(VerifierError::MalformedProof);
        }
        let count = match Self::read_u32_be(payload, 0) {
            Ok(v) => v,
            Err(e) => return Err(e),
        };
        let input_bytes = match count.checked_mul(FR_BYTES) {
            Some(v) => v,
            None => return Err(VerifierError::MalformedProof),
        };
        let expected_len = match INPUTS_OFFSET.checked_add(input_bytes) {
            Some(v) => v,
            None => return Err(VerifierError::MalformedProof),
        };
        if payload.len() != expected_len as usize {
            return Err(VerifierError::InvalidPayloadLength);
        }
        let a = match Self::read_array(payload, A_OFFSET, G1_BYTES) {
            Ok(v) => v,
            Err(e) => return Err(e),
        };
        let b = match Self::read_array(payload, B_OFFSET, G2_BYTES) {
            Ok(v) => v,
            Err(e) => return Err(e),
        };
        let c = match Self::read_array(payload, C_OFFSET, G1_BYTES) {
            Ok(v) => v,
            Err(e) => return Err(e),
        };
        let mut public_inputs: Vec<[u8; 32]> = Vec::new();
        let mut cursor: u32 = INPUTS_OFFSET;
        let mut k: u32 = 0;
        while k < count
            invariant
                payload@.len() == payload_len_for(count as int),
                payload_len_for(count as int) <= u32::MAX,
                count as int == announced_count(payload@),
                k <= count,
                cursor as int == INPUTS_OFFSET + FR_BYTES * k,
                public_inputs@.len() == k,
                forall|i: int| 0 <= i < k ==> #[trigger] public_inputs@[i]@ == limb_at(payload@, i),
            decreases count - k,
        {
            let limb = match Self::read_limb(payload, cursor) {
                Ok(v) => v,
                Err(e) => return Err(e),
            };
            public_inputs.push(limb);
            cursor = cursor + FR_BYTES;
            k = k + 1;
        }
        Ok(ParsedPayload { proof: Groth16Proof { a, b, c }, public_inputs })
    }

    /// The big-endian 32-bit value at `offset`.
    pub fn read_u32_be(payload: &[u8], offset: u32) -> (r: Result<u32, VerifierError>)
        ensures
            offset + 4 <= payload@.len() && offset + 4 <= u32::MAX ==> r == Ok::<u32, VerifierError>(
                be_u32_value(payload@.subrange(offset as int, offset + 4)) as u32,
            ),
            offset + 4 > payload@.len() || offset + 4 > u32::MAX ==> r == Err::<u32, VerifierError>(
                VerifierError::MalformedProof,
            ),
    {
        let end = match offset.checked_add(4) {
            Some(v) => v,
            None => return Err(VerifierError::MalformedProof),
        };
        if end as usize > payload.len() {
            return Err(VerifierError::MalformedProof);
        }
        let o = offset as usize;
        let b0 = payload[o] as u32;
        let b1 = payload[o + 1] as u32;
        let b2 = payload[o + 2] as u32;
        let b3 = payload[o + 3] as u32;
        Ok(b0 * 0x100_0000 + b1 * 0x1_0000 + b2 * 0x100 + b3)
    }

    /// The `len` bytes that start at `offset`.
    pub fn read_array(payload: &[u8], offset: u32, len: u32) -> (r: Result<Vec<u8>, VerifierError>)
        ensures
            offset + len <= payload@.len() && offset + len <= u32::MAX ==> (r matches Ok(v) && v@
                == payload@.subrange(offset as int, offset + len)),
            offset + len > payload@.len() || offset + len > u32::MAX ==> r == Err::<Vec<u8>, VerifierError>(
                VerifierError::MalformedProof,
            ),
    {
        let end = match offset.checked_add(len) {
            Some(v) => v,
            None => return Err(VerifierError::MalformedProof),
        };
        if end as usize > payload.len() {
            return Err(VerifierError::MalformedProof);
        }
        let mut out: Vec<u8> = Vec::new();
        let mut i: usize = offset as usize;
        while i < end as usize
            invariant
                offset <= i <= end,
                end == offset + len,
                end <= payload@.len(),
                out@ == payload@.subrange(offset as int, i as int),
            decreases end - i,
        {
            out.push(payload[i]);
            assert(payload@.subrange(offset as int, i + 1) == payload@.subrange(offset as int, i as int).push(payload@[i as int]));
            i += 1;
        }
        Ok(out)
    }

    /// The 32-byte public input that starts at `offset`.
    pub fn read_limb(payload: &[u8], offset: u32) -> (r: Result<[u8; 32], VerifierError>)
        ensures
            offset + FR_BYTES <= payload@.len() && offset + FR_BYTES <= u32::MAX ==> (r matches Ok(v)
                && v@ == payload@.subrange(offset as int, offset + FR_BYTES)),
            offset + FR_BYTES > payload@.len() || offset + FR_BYTES > u32::MAX ==> r == Err::<
                [u8; 32],
                VerifierError,
            >(VerifierError::MalformedProof),
    {
        let end = match offset.checked_add(FR_BYTES) {
            Some(v) => v,
            None => return Err(VerifierError::MalformedProof),
        };
        if end as usize > payload.len() {
            return Err(VerifierError::MalformedProof);
        }
        let mut out = [0u8; 32];
        let base = offset as usize;
        let mut i: usize = 0;
        while i < 32
            invariant
                i <= 32,
                base == offset,
                end == offset + 32,
                end <= payload@.len(),
                out@.len() == 32,
                forall|j: int| 0 <= j < i ==> out@[j] == payload@[offset + j],
            decreases 32 - i,
        {
            out[i] = payload[base + i];
            i += 1;
        }
        assert(out@ =~= payload@.subrange(offset as int, offset + FR_BYTES));
        Ok(out)
    }
}

} // verus!
