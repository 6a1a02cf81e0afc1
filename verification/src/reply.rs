//! Reading the reply to an instantiation sub-message: the address of
//! the contract that was created.
use vstd::prelude::*;

verus! {

/// The error cw-utils gives for a reply it cannot read.
#[verifier::external_type_specification]
#[verifier::external_body]
pub struct ExParseReplyError(cw_utils::ParseReplyError);

/// The address that the protobuf-encoded instantiation response `data`
/// holds, if it can be decoded.
pub uninterp spec fn instantiate_response_address(data: Seq<u8>) -> Option<Seq<char>>;

/// Decodes an instantiation response with
/// `cw_utils::parse_instantiate_response_data`. The contract claims that
/// the decoding depends on the bytes alone: the address given back is
/// the one named for them, and an error comes exactly where none is.
#[verifier::external_body]
fn parse_instantiate_response(data: &Vec<u8>) -> (r: Result<String, cw_utils::ParseReplyError>)
    ensures
        r matches Ok(a) ==> instantiate_response_address(data@) == Some(a@),
        r is Err ==> instantiate_response_address(data@) is None,
{
    match cw_utils::parse_instantiate_response_data(data.as_slice()) {
        Ok(res) => Ok(res.contract_address),
        Err(e) => Err(e),
    }
}

/// Why a reply could not be read.
#[derive(Clone, Copy, Debug, PartialEq, Eq, Structural)]
pub enum ReplyError {
    /// The sub-message failed.
    SubMsgFailure {},
    /// The sub-message succeeded without data.
    MissingData {},
    /// The data is not an instantiation response.
    ParseFailure {},
}

/// The result of reading a reply: the new contract's address, or why
/// there is none.
pub open spec fn reply_address(result: Result<Option<Vec<u8>>, String>) -> Result<Seq<char>, ReplyError> {
    match result {
        Err(_) => Err(ReplyError::SubMsgFailure {}),
        Ok(None) => Err(ReplyError::MissingData {}),
        Ok(Some(data)) => match instantiate_response_address(data@) {
            Some(a) => Ok(a),
            None => Err(ReplyError::ParseFailure {}),
        },
    }
}

/// The address of the contract an instantiation sub-message created,
/// from the sub-message's result: its data on success, its error text
/// on failure.
pub fn parse_reply_instantiate_data(result: &Result<Option<Vec<u8>>, String>) -> (r: Result<String, ReplyError>)
    ensures
        match reply_address(*result) {
            Ok(a) => r matches Ok(s) && s@ == a,
            Err(e) => r == Err::<String, ReplyError>(e),
        },
{
    match result {
        Err(_) => Err(ReplyError::SubMsgFailure {}),
        Ok(None) => Err(ReplyError::MissingData {}),
        Ok(Some(data)) => match parse_instantiate_response(data) {
            Ok(a) => Ok(a),
            Err(_) => Err(ReplyError::ParseFailure {}),
        },
    }
}

} // verus!
