//! The COSE_Sign1 envelope around the claims.
//!
//! The envelope is unwrapped, not verified: the two headers and the signature
//! are counted and then left unread.

use vstd::prelude::*;
use crate::cbor::{Cbor, CborView};
use crate::error::FormatError;

verus! {

/// The CBOR tag of a COSE single-signer object.
pub const SIGN1_TAG: u64 = 18;

/// The payload of the envelope `envelope`.
///
/// An envelope is the tag 18 on an array of exactly four items: protected
/// header, unprotected header, payload, signature. The payload is a byte
/// string. Anything else is [`FormatError::NotCOSESign1`].
pub open spec fn payload(envelope: CborView) -> Result<Seq<u8>, FormatError> {
    match envelope {
        CborView::Tag(tag, content) => match *content {
            CborView::Array(parts) => if tag == SIGN1_TAG && parts.len() == 4 {
                match parts[2] {
                    CborView::Bytes(bytes) => Ok(bytes),
                    _ => Err(FormatError::NotCOSESign1),
                }
            } else {
                Err(FormatError::NotCOSESign1)
            },
            _ => Err(FormatError::NotCOSESign1),
        },
        _ => Err(FormatError::NotCOSESign1),
    }
}

/// The envelope around the payload `bytes`, with the given headers and
/// signature.
pub open spec fn envelope(
    protected: CborView,
    unprotected: CborView,
    bytes: Seq<u8>,
    signature: CborView,
) -> CborView {
    CborView::Tag(
        SIGN1_TAG,
        Box::new(CborView::Array(seq![protected, unprotected, CborView::Bytes(bytes), signature])),
    )
}

/// Unwrapping an envelope gives its payload back, whatever the headers and
/// the signature are.
pub proof fn lemma_payload_of_envelope(
    protected: CborView,
    unprotected: CborView,
    bytes: Seq<u8>,
    signature: CborView,
)
    ensures
        payload(envelope(protected, unprotected, bytes, signature)) == Ok::<_, FormatError>(bytes),
{
}

/// An item without the tag 18 is no envelope.
pub proof fn lemma_payload_needs_tag(item: CborView)
    requires
        !(item is Tag && item->Tag_0 == SIGN1_TAG),
    ensures
        payload(item) == Err::<Seq<u8>, _>(FormatError::NotCOSESign1),
{
}

/// Takes the payload out of a COSE_Sign1 envelope.
pub fn unwrap(envelope: &Cbor) -> (r: Result<&Vec<u8>, FormatError>)
    ensures
        match r {
            Ok(bytes) => payload(envelope@) == Ok::<Seq<u8>, FormatError>(bytes@),
            Err(e) => payload(envelope@) == Err::<Seq<u8>, FormatError>(e),
        },
{
    proof {
        reveal_with_fuel(Cbor::item, 3);
    }
    match envelope {
        Cbor::Tag(tag, content) => match &**content {
            Cbor::Array(parts) => {
                if *tag == SIGN1_TAG && parts.len() == 4 {
                    match &parts[2] {
                        Cbor::Bytes(bytes) => Ok(bytes),
                        _ => Err(FormatError::NotCOSESign1),
                    }
                } else {
                    Err(FormatError::NotCOSESign1)
                }
            },
            _ => Err(FormatError::NotCOSESign1),
        },
        _ => Err(FormatError::NotCOSESign1),
    }
}

} // verus!
