//! The public pair the proof speaks about: the batch of 72-byte messages
//! and their 1360-byte SHAKE-256 outputs.  The outputs are computed by an
//! outside reference implementation, which this crate's own specification
//! of SHAKE-256 holds to account.

use vstd::prelude::*;

use crate::trace::shake256::spec_shake256_output;

verus! {

/// Relies on tiny_keccak's `Shake::v256` with `update` and `finalize`:
/// the FIPS 202 SHAKE-256 extendable-output function with rate 1088 bits
/// and domain separator 0x1F, read out for 1360 bytes.
#[verifier::external_body]
fn shake256_oracle(input: &Vec<u8>) -> (r: Vec<u8>)
    requires
        input@.len() == 72,
    ensures
        r@ == spec_shake256_output(input@),
{
    let mut out = vec![0u8; 1360];
    let mut shake = tiny_keccak::Shake::v256();
    tiny_keccak::Hasher::update(&mut shake, input.as_slice());
    tiny_keccak::Hasher::finalize(shake, &mut out);
    out
}

/// The public data of a proof: the messages and their outputs.
pub struct PublicData {
    /// The 72-byte messages.
    pub inputs: Vec<Vec<u8>>,
    /// The 1360-byte outputs.
    pub outputs: Vec<Vec<u8>>,
}

impl PublicData {
    /// Build the public data of a batch: the outputs are the reference
    /// SHAKE-256 evaluations of the messages.
    pub fn new(inputs: &Vec<Vec<u8>>) -> (r: PublicData)
        requires
            forall|i: int| 0 <= i < inputs@.len() ==> (#[trigger] inputs@[i])@.len() == 72,
        ensures
            r.inputs@.len() == inputs@.len(),
            forall|i: int| 0 <= i < inputs@.len() ==> (#[trigger] r.inputs@[i])@ == inputs@[i]@,
            r.outputs@.len() == inputs@.len(),
            forall|i: int|
                0 <= i < inputs@.len() ==> (#[trigger] r.outputs@[i])@ == spec_shake256_output(
                    inputs@[i]@,
                ),
    {
        let mut ins: Vec<Vec<u8>> = Vec::new();
        let mut outs: Vec<Vec<u8>> = Vec::new();
        for i in 0..inputs.len()
            invariant
                forall|k: int| 0 <= k < inputs@.len() ==> (#[trigger] inputs@[k])@.len() == 72,
                ins@.len() == i,
                outs@.len() == i,
                i <= inputs@.len(),
                forall|k: int| 0 <= k < i ==> (#[trigger] ins@[k])@ == inputs@[k]@,
                forall|k: int|
                    0 <= k < i ==> (#[trigger] outs@[k])@ == spec_shake256_output(inputs@[k]@),
        {
            ins.push(crate::utils::copy_bytes(&inputs[i]));
            outs.push(shake256_oracle(&inputs[i]));
        }
        PublicData { inputs: ins, outputs: outs }
    }
}

} // verus!
