use vstd::prelude::*;

use crate::payload::{
    announced_count, binding_matches, binding_result, decodes_to, limb_at, parse_error, ParsedPayload,
    PayloadParser, PublicInputs,
};

verus! {

/// Number of public inputs that a word-game proof carries: the four binding
/// limbs, five letters, five feedback codes and the correctness flag.
pub const WORD_PROOF_PUBLIC_INPUTS: u32 = 15;

/// The proof adapter of the grid game: it accepts a payload only when it
/// decodes and its first four public inputs bind it to the given commitment
/// and binding hash; the decoded proof then goes to the Groth16 verifier.
pub struct BattleshipVerifierAdapter;

impl BattleshipVerifierAdapter {
    /// The decoded payload, if it decodes at all.
    pub fn parse_payload(payload: &[u8]) -> (r: Option<ParsedPayload>)
        ensures
            r is Some <==> parse_error(payload@) is None,
            r matches Some(v) ==> decodes_to(v, payload@),
    {
        match PayloadParser::parse(payload) {
            Ok(v) => Some(v),
            Err(_) => None,
        }
    }

    /// Whether the public inputs open with the limbs of the commitment and hash.
    pub fn binding_inputs_match(
        public_inputs: &Vec<[u8; 32]>,
        board_commitment: &[u8; 32],
        public_inputs_hash: &[u8; 32],
    ) -> (r: bool)
        ensures
            r == binding_matches(public_inputs@, board_commitment@, public_inputs_hash@),
    {
        PublicInputs::validate_binding(public_inputs, board_commitment, public_inputs_hash).is_ok()
    }

    /// What must go to the Groth16 verifier for this request: the decoded
    /// payload, or nothing when the request is to be refused outright.
    pub fn prepare_verification(
        board_commitment: &[u8; 32],
        public_inputs_hash: &[u8; 32],
        payload: &[u8],
    ) -> (r: Option<ParsedPayload>)
        ensures
            r is Some <==> (parse_error(payload@) is None && exists|v: ParsedPayload|
                decodes_to(v, payload@) && binding_matches(
                    v.public_inputs@,
                    board_commitment@,
                    public_inputs_hash@,
                )),
            r matches Some(v) ==> decodes_to(v, payload@) && binding_matches(
                v.public_inputs@,
                board_commitment@,
                public_inputs_hash@,
            ),
    {
        let parsed = match Self::parse_payload(payload) {
            Some(v) => v,
            None => return None,
        };
        if !Self::binding_inputs_match(&parsed.public_inputs, board_commitment, public_inputs_hash) {
            proof {
                assert forall|v: ParsedPayload| decodes_to(v, payload@) implies !binding_matches(
                    v.public_inputs@,
                    board_commitment@,
                    public_inputs_hash@,
                ) by {
                    lemma_decoded_inputs_unique(v, parsed, payload@);
                }
            }
            return None;
        }
        Some(parsed)
    }
}

/// Two decodings of one payload carry the same public inputs.
proof fn lemma_decoded_inputs_unique(v: ParsedPayload, w: ParsedPayload, p: Seq<u8>)
    requires
        decodes_to(v, p),
        decodes_to(w, p),
    ensures
        forall|i: int| 0 <= i < v.public_inputs@.len() ==> #[trigger] v.public_inputs@[i]@ == w.public_inputs@[i]@,
        v.public_inputs@.len() == w.public_inputs@.len(),
{
    assert forall|i: int| 0 <= i < v.public_inputs@.len() implies #[trigger] v.public_inputs@[i]@ == w.public_inputs@[i]@ by {
        assert(v.public_inputs@[i]@ == limb_at(p, i));
        assert(w.public_inputs@[i]@ == limb_at(p, i));
    }
}

/// The proof adapter of the word game.
pub struct WordleVerifierAdapter;

/// The word-game adapter's verification request.
pub struct VerifyProofCommand;

impl VerifyProofCommand {
    /// What must go to the Groth16 verifier for this request: the decoded
    /// payload when it decodes, carries exactly the word game's public inputs
    /// and is bound to the commitment and hash; nothing otherwise, without
    /// saying why.
    pub fn execute(word_commitment: &[u8; 32], public_inputs_hash: &[u8; 32], payload: &[u8]) -> (r:
        Option<ParsedPayload>)
        ensures
            r is Some <==> (parse_error(payload@) is None && announced_count(payload@)
                == WORD_PROOF_PUBLIC_INPUTS && exists|v: ParsedPayload|
                decodes_to(v, payload@) && binding_matches(
                    v.public_inputs@,
                    word_commitment@,
                    public_inputs_hash@,
                )),
            r matches Some(v) ==> decodes_to(v, payload@) && binding_matches(
                v.public_inputs@,
                word_commitment@,
                public_inputs_hash@,
            ),
    {
        let parsed = match PayloadParser::parse(payload) {
            Ok(v) => v,
            Err(_) => return None,
        };
        if parsed.public_inputs.len() != WORD_PROOF_PUBLIC_INPUTS as usize {
            return None;
        }
        match PublicInputs::validate_binding(&parsed.public_inputs, word_commitment, public_inputs_hash) {
            Ok(()) => Some(parsed),
            Err(_) => {
                proof {
                    assert(binding_result(parsed.public_inputs@, word_commitment@, public_inputs_hash@) is Err);
                    assert forall|v: ParsedPayload| decodes_to(v, payload@) implies !binding_matches(
                        v.public_inputs@,
                        word_commitment@,
                        public_inputs_hash@,
                    ) by {
                        lemma_decoded_inputs_unique(v, parsed, payload@);
                    }
                }
                None
            },
        }
    }
}

} // verus!
