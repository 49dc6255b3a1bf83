//! Raw bytes as they came from the network: `bytes::Bytes`, a buffer that is
//! cheap to clone and that the library carries without looking inside.

use bytes::Bytes;
use vstd::prelude::*;

verus! {

/// `bytes::Bytes`, declared so that it can stand in signatures. Nothing of
/// its representation is visible to proofs.
#[verifier::external_type_specification]
#[verifier::external_body]
pub struct ExBytes(Bytes);

/// The bytes that a `bytes::Bytes` buffer holds, in order: what its `Deref`
/// to `[u8]` shows.
pub uninterp spec fn bytes_content(buffer: Bytes) -> Seq<u8>;

} // verus!
