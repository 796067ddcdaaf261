//! The boundary to the `explode` crate, which decompresses the payload.

use explode::Error as ExplodeError;
use vstd::prelude::*;

verus! {

/// `explode::Error`, the error that the decompressor reports. Nothing is
/// known of its contents here: it is only carried to the caller.
#[verifier::external_type_specification]
#[verifier::external_body]
pub struct ExExplodeError(ExplodeError);

/// What `explode::explode` makes of the compressed bytes `data`: the
/// decompressed bytes, or `None` where it reports an error.
pub uninterp spec fn exploded(data: Seq<u8>) -> Option<Seq<u8>>;

/// `explode::explode` decompresses a block of bytes held in memory. It keeps
/// no state between calls and reads nothing but `data`, so what it returns
/// is a function of `data`. The contract claims that, and that the call
/// returns whatever `data` holds: it gives the bytes that [`exploded`]
/// names, or an error where it names none.
pub assume_specification[ explode::explode ](data: &[u8]) -> (r: Result<Vec<u8>, ExplodeError>)
    ensures
        match r {
            Ok(out) => exploded(data@) == Some(out@),
            Err(_) => exploded(data@).is_none(),
        },
;

} // verus!
