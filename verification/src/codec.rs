//! The binary codec of the channel's payload: `bincode` over `ndarray`'s
//! serde representation of an array.
//!
//! Nothing in this file is proved. The two functions with a body call the
//! codec, and their contracts say what is taken on trust about it.

use vstd::prelude::*;
use crate::array::{ArrayModel, DenseArray};

verus! {

/// What `bincode::serialize` returns for `ndarray`'s array of the shape and
/// elements of `array`: the encoding, or the text of the codec's error.
pub uninterp spec fn encoded(array: ArrayModel) -> Result<Seq<u8>, Seq<char>>;

/// What `bincode::deserialize` returns for `bytes`, read as an `ndarray` array
/// of bytes with a dynamic number of axes: the array, or the text of the
/// codec's error.
pub uninterp spec fn decoded(bytes: Seq<u8>) -> Result<ArrayModel, Seq<char>>;

/// Whether the codec encodes `array` and gives `bytes` for it.
pub open spec fn is_encoding_of(bytes: Seq<u8>, array: ArrayModel) -> bool {
    encoded(array) matches Ok(b) && b == bytes
}

/// Whether `outcome` is what reading `bytes` back owes: where `bytes` is the
/// encoding of a well-formed array, that array.
pub open spec fn reads_back(bytes: Seq<u8>, outcome: Result<ArrayModel, Seq<char>>) -> bool {
    forall|a: ArrayModel|
        a.wf() && #[trigger] is_encoding_of(bytes, a) ==> outcome == Ok::<ArrayModel, Seq<char>>(a)
}

/// An outcome of encoding, as mathematical values.
pub open spec fn encoding_view(outcome: Result<Vec<u8>, String>) -> Result<Seq<u8>, Seq<char>> {
    match outcome {
        Ok(bytes) => Ok(bytes@),
        Err(text) => Err(text@),
    }
}

/// An outcome of decoding, as mathematical values.
pub open spec fn decoding_view(outcome: Result<DenseArray, String>) -> Result<
    ArrayModel,
    Seq<char>,
> {
    match outcome {
        Ok(array) => Ok(array@),
        Err(text) => Err(text@),
    }
}

/// Calls `bincode::serialize` on the `ndarray` view of `array`
/// (`ArrayViewD::from_shape` over its shape and elements).
///
/// Trusted: the outcome is a function of the shape and the elements alone,
/// named [`encoded`]. An error of the codec is handed on as its text. Nothing
/// is claimed about when the codec succeeds or what the bytes are.
#[verifier::external_body]
pub(crate) fn encode(array: &DenseArray) -> (outcome: Result<Vec<u8>, String>)
    requires
        array.wf(),
    ensures
        encoding_view(outcome) == encoded(array@),
{
    let shape = ndarray::IxDyn(&array.shape);
    let view = ndarray::ArrayViewD::from_shape(shape, &array.data).unwrap();
    match bincode::serialize(&view) {
        Ok(bytes) => Ok(bytes),
        Err(e) => Err(e.to_string()),
    }
}

/// Calls `bincode::deserialize` on `bytes`, for an `ndarray::ArrayD<u8>`.
///
/// Trusted: the outcome is a function of the bytes alone, named [`decoded`];
/// an array that comes out has as many elements as its shape asks for; and
/// the codec reads back what it wrote, so that bytes which are the encoding
/// of a well-formed array decode to that array. An error of the codec is
/// handed on as its text.
#[verifier::external_body]
pub(crate) fn decode(bytes: &[u8]) -> (outcome: Result<DenseArray, String>)
    ensures
        decoding_view(outcome) == decoded(bytes@),
        outcome matches Ok(array) ==> array.wf(),
        reads_back(bytes@, decoding_view(outcome)),
{
    match bincode::deserialize::<ndarray::ArrayD<u8>>(bytes) {
        Ok(nd) => Ok(DenseArray { shape: nd.shape().to_vec(), data: nd.iter().copied().collect() }),
        Err(e) => Err(e.to_string()),
    }
}

} // verus!
