//! A verified arithmetization core for proving SHAKE-256 evaluations.
//!
//! Given a batch of 72-byte messages, the crate builds, for every component
//! of the proof system (the SHAKE-256 session, the Keccak-f[1600]
//! permutation, the single Keccak round, and the four lookup-table
//! providers), the concrete witness trace and the lookup-request logs that a
//! STARK driver commits to, together with proofs that the recorded states
//! follow the Keccak-f[1600] specification and that every lookup relation
//! balances against its provider or against the public data.

pub mod constants;
pub mod keccak;
pub mod preprocessed;
pub mod public_data;
pub mod trace;
pub mod utils;

use vstd::prelude::*;

verus! {

/// Why verification rejects a proof: the signed lookup multiplicities do
/// not cancel, here because the public data disagrees with the witness.
#[derive(Debug)]
pub enum VerificationError {
    InvalidLogupSum,
}

/// The public data agrees with the witness: message by message, the
/// session trace consumes exactly the claimed input and emits exactly the
/// claimed output on the session bus, so the public contributions cancel
/// the trace's.
pub open spec fn public_data_matches(
    t: trace::Traces,
    pd: public_data::PublicData,
) -> bool {
    &&& pd.inputs@.len() == t.n_messages
    &&& pd.outputs@.len() == t.n_messages
    &&& t.n_messages <= t.shake256@.len()
    &&& forall|i: int|
        0 <= i < t.n_messages ==> (#[trigger] pd.inputs@[i])@.len() == 72
    &&& forall|i: int|
        0 <= i < t.n_messages ==> (#[trigger] t.shake256@[i]).shake256@.len() == 2
    &&& forall|i: int|
        0 <= i < t.n_messages ==> (#[trigger] t.shake256@[i]).shake256@[0]@
            == trace::shake256::spec_shake_input_tuple(pd.inputs@[i]@)
    &&& forall|i: int|
        0 <= i < t.n_messages ==> (#[trigger] t.shake256@[i]).shake256@[1]@ == pd.outputs@[i]@
}

/// Check the public boundary of the lookup argument: the session-bus
/// tuples of the witness against the claimed inputs and outputs.  Any
/// disagreement means the signed multiplicity of some session tuple does
/// not cancel.
#[verifier::rlimit(100)]
pub fn verify_public_data(t: &trace::Traces, pd: &public_data::PublicData) -> (r: Result<
    (),
    VerificationError,
>)
    ensures
        r is Ok <==> public_data_matches(*t, *pd),
{
    if pd.inputs.len() != t.n_messages {
        return Err(VerificationError::InvalidLogupSum);
    }
    if pd.outputs.len() != t.n_messages {
        return Err(VerificationError::InvalidLogupSum);
    }
    if t.n_messages > t.shake256.len() {
        return Err(VerificationError::InvalidLogupSum);
    }
    for i in 0..t.n_messages
        invariant
            pd.inputs@.len() == t.n_messages,
            pd.outputs@.len() == t.n_messages,
            t.n_messages <= t.shake256@.len(),
            forall|k: int| 0 <= k < i ==> (#[trigger] pd.inputs@[k])@.len() == 72,
            forall|k: int| 0 <= k < i ==> (#[trigger] t.shake256@[k]).shake256@.len() == 2,
            forall|k: int|
                0 <= k < i ==> (#[trigger] t.shake256@[k]).shake256@[0]@
                    == trace::shake256::spec_shake_input_tuple(pd.inputs@[k]@),
            forall|k: int|
                0 <= k < i ==> (#[trigger] t.shake256@[k]).shake256@[1]@ == pd.outputs@[k]@,
    {
        let row = &t.shake256[i];
        let msg = &pd.inputs[i];
        if msg.len() != 72 {
            return Err(VerificationError::InvalidLogupSum);
        }
        if row.shake256.len() != 2 {
            return Err(VerificationError::InvalidLogupSum);
        }
        // The expected consumed tuple: the message, zero-padded.
        let mut expected: Vec<u8> = Vec::new();
        for j in 0..72usize
            invariant
                msg@.len() == 72,
                expected@.len() == j,
                forall|k: int| 0 <= k < j ==> expected@[k] == msg@[k],
        {
            expected.push(msg[j]);
        }
        for j in 72..1360usize
            invariant
                msg@.len() == 72,
                expected@.len() == j,
                forall|k: int| 0 <= k < 72 ==> expected@[k] == msg@[k],
                forall|k: int| 72 <= k < j ==> expected@[k] == 0u8,
        {
            expected.push(0u8);
        }
        proof {
            assert(expected@ =~= trace::shake256::spec_shake_input_tuple(msg@));
        }
        if !crate::utils::bytes_eq(&row.shake256[0], &expected) {
            return Err(VerificationError::InvalidLogupSum);
        }
        if !crate::utils::bytes_eq(&row.shake256[1], &pd.outputs[i]) {
            return Err(VerificationError::InvalidLogupSum);
        }
    }
    Ok(())
}

/// End-to-end soundness of the public boundary: the witness built for a
/// batch and the public data built for the same batch always pass the
/// public-data check.
pub proof fn lemma_honest_public_data_accepted(
    t: trace::Traces,
    pd: public_data::PublicData,
    messages: Seq<Vec<u8>>,
)
    requires
        forall|i: int| 0 <= i < messages.len() ==> (#[trigger] messages[i])@.len() == 72,
        t.n_messages == messages.len(),
        t.n_messages <= t.shake256@.len(),
        forall|i: int|
            0 <= i < messages.len() ==> (#[trigger] t.shake256@[i]).valid(messages[i]@, 1),
        pd.inputs@.len() == messages.len(),
        forall|i: int| 0 <= i < messages.len() ==> (#[trigger] pd.inputs@[i])@ == messages[i]@,
        pd.outputs@.len() == messages.len(),
        forall|i: int|
            0 <= i < messages.len() ==> (#[trigger] pd.outputs@[i])@
                == trace::shake256::spec_shake256_output(messages[i]@),
    ensures
        public_data_matches(t, pd),
{
    assert forall|i: int| 0 <= i < t.n_messages implies (#[trigger] t.shake256@[i]).shake256@[0]@
        == trace::shake256::spec_shake_input_tuple(pd.inputs@[i]@) by {
        assert(t.shake256@[i].valid(messages[i]@, 1));
    }
    assert forall|i: int| 0 <= i < t.n_messages implies (#[trigger] t.shake256@[i]).shake256@[1]@
        == pd.outputs@[i]@ by {
        assert(t.shake256@[i].valid(messages[i]@, 1));
    }
    assert forall|i: int| 0 <= i < t.n_messages implies (#[trigger] t.shake256@[i]).shake256@.len()
        == 2 by {
        assert(t.shake256@[i].valid(messages[i]@, 1));
    }
}

} // verus!
