//! The Cyberpixie protocol: request and response headers.

pub mod packet;
pub mod types;

use vstd::prelude::*;

use self::types::{ImageId, ImageInfo, PeerInfo};
use crate::errors::Error;

verus! {

/// A request sent to a device.
#[derive(Clone, Copy, PartialEq, Eq, Structural, Debug)]
pub enum RequestHeader {
    Handshake(PeerInfo),
    AddImage(ImageInfo),
    /// Start showing image with the specified ID
    ShowImage(ImageId),
    /// Hide currently showing image
    HideImage,
    ClearImages,
    Debug,
}

/// A response of a device.
#[derive(Clone, Copy, PartialEq, Eq, Structural, Debug)]
pub enum ResponseHeader {
    Empty,
    Handshake(PeerInfo),
    AddImage(ImageId),
    Error(Error),
}

/// What a response means to a request that expects an empty answer.
pub open spec fn spec_empty_result(resp: ResponseHeader) -> Result<(), Error> {
    match resp {
        ResponseHeader::Empty => Ok(()),
        ResponseHeader::Error(err) => Err(err),
        _ => Err(Error::UnexpectedResponse),
    }
}

/// What a response means to a handshake request.
pub open spec fn spec_handshake_result(resp: ResponseHeader) -> Result<PeerInfo, Error> {
    match resp {
        ResponseHeader::Handshake(info) => Ok(info),
        ResponseHeader::Error(err) => Err(err),
        _ => Err(Error::UnexpectedResponse),
    }
}

/// What a response means to a request that adds an image.
pub open spec fn spec_add_image_result(resp: ResponseHeader) -> Result<ImageId, Error> {
    match resp {
        ResponseHeader::AddImage(id) => Ok(id),
        ResponseHeader::Error(err) => Err(err),
        _ => Err(Error::UnexpectedResponse),
    }
}

impl ResponseHeader {
    /// Interprets this response as an answer without data.
    pub fn empty(self) -> (r: Result<(), Error>)
        ensures
            r == spec_empty_result(self),
    {
        match self {
            Self::Empty => Ok(()),
            Self::Error(err) => Err(err),
            _ => Err(Error::UnexpectedResponse),
        }
    }

    /// Interprets this response as a handshake answer.
    pub fn handshake(self) -> (r: Result<PeerInfo, Error>)
        ensures
            r == spec_handshake_result(self),
    {
        match self {
            Self::Handshake(info) => Ok(info),
            Self::Error(err) => Err(err),
            _ => Err(Error::UnexpectedResponse),
        }
    }

    /// Interprets this response as an answer to an added image.
    pub fn add_image(self) -> (r: Result<ImageId, Error>)
        ensures
            r == spec_add_image_result(self),
    {
        match self {
            Self::AddImage(id) => Ok(id),
            Self::Error(err) => Err(err),
            _ => Err(Error::UnexpectedResponse),
        }
    }
}

/// Possible header types.
#[derive(Clone, Copy, PartialEq, Eq, Structural, Debug)]
pub enum Headers {
    Request(RequestHeader),
    Response(ResponseHeader),
}

impl From<RequestHeader> for Headers {
    fn from(value: RequestHeader) -> (h: Self) {
        Self::Request(value)
    }
}

impl vstd::std_specs::convert::FromSpecImpl<RequestHeader> for Headers {
    open spec fn obeys_from_spec() -> bool {
        true
    }

    open spec fn from_spec(value: RequestHeader) -> Self {
        Headers::Request(value)
    }
}

impl From<ResponseHeader> for Headers {
    fn from(value: ResponseHeader) -> (h: Self) {
        Self::Response(value)
    }
}

impl vstd::std_specs::convert::FromSpecImpl<ResponseHeader> for Headers {
    open spec fn obeys_from_spec() -> bool {
        true
    }

    open spec fn from_spec(value: ResponseHeader) -> Self {
        Headers::Response(value)
    }
}

/// An error reported by a device reaches the caller unchanged, whichever answer the
/// caller expected.
pub proof fn lemma_error_response_passes_through(err: Error)
    ensures
        spec_empty_result(ResponseHeader::Error(err)) == Err::<(), Error>(err),
        spec_handshake_result(ResponseHeader::Error(err)) == Err::<PeerInfo, Error>(err),
        spec_add_image_result(ResponseHeader::Error(err)) == Err::<ImageId, Error>(err),
{
}

/// A response answers a request only when it is of the kind the request expects, and then
/// with the data it carries; an error reported by the device reaches the caller as that
/// error, and any other response is unexpected.
pub proof fn lemma_response_results(resp: ResponseHeader)
    ensures
        spec_empty_result(resp) is Ok <==> resp is Empty,
        spec_handshake_result(resp) is Ok <==> resp is Handshake,
        spec_add_image_result(resp) is Ok <==> resp is AddImage,
        resp matches ResponseHeader::Handshake(info) ==> spec_handshake_result(resp) == Ok::<
            PeerInfo,
            Error,
        >(info),
        resp matches ResponseHeader::AddImage(id) ==> spec_add_image_result(resp) == Ok::<
            ImageId,
            Error,
        >(id),
        !(resp is Empty) && !(resp is Error) ==> spec_empty_result(resp) == Err::<(), Error>(
            Error::UnexpectedResponse,
        ),
        !(resp is Handshake) && !(resp is Error) ==> spec_handshake_result(resp) == Err::<
            PeerInfo,
            Error,
        >(Error::UnexpectedResponse),
        !(resp is AddImage) && !(resp is Error) ==> spec_add_image_result(resp) == Err::<
            ImageId,
            Error,
        >(Error::UnexpectedResponse),
{
}

} // verus!
