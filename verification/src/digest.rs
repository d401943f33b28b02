//! Optional state-hash diagnostic: a SHA-256 digest over the full readable
//! linear-memory range of a module.
use vstd::prelude::*;

use crate::module::ModuleState;
use sha2::Digest;

verus! {

/// The SHA-256 digest of a byte sequence. The function itself is left
/// uninterpreted: it names what `sha2` computes, a value that depends on the
/// input bytes alone.
pub uninterp spec fn sha256_of(bytes: Seq<u8>) -> Seq<u8>;

/// Relies on `sha2::Sha256` through the `Digest` trait: the digest is a
/// function of the input bytes alone and is always 32 bytes long.
#[verifier::external_body]
fn sha256(bytes: &Vec<u8>) -> (r: Vec<u8>)
    ensures
        r@ == sha256_of(bytes@),
        r@.len() == 32,
{
    sha2::Sha256::digest(bytes.as_slice()).to_vec()
}

/// Hashes the module's full readable memory range: the digest is exactly
/// the SHA-256 of the memory image.
pub fn compute_state_hash(module: &ModuleState) -> (r: Vec<u8>)
    requires
        module.wf(),
    ensures
        r@ == sha256_of(module@.mem),
        r@.len() == 32,
{
    let len = module.memory_size();
    let bytes = match module.read_bytes(0, len as i32) {
        Ok(bytes) => bytes,
        Err(_) => {
            proof {
                assert(false);
            }
            Vec::new()
        },
    };
    proof {
        assert(bytes@ =~= module@.mem);
    }
    sha256(&bytes)
}

} // verus!
