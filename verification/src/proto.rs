//! The binding of the codec and the handler to one connection, seen as two
//! buffers: the bytes that have arrived and the bytes to be sent.

use crate::buffer::contents;
use crate::codec::{decoded, encoded, remainder, FormatError, LineCodec};
use crate::echo::{response, Echo};
use bytes::BytesMut;
use vstd::prelude::*;

verus! {

/// What one exchange on a connection did.
#[derive(Debug, Clone, Copy, PartialEq, Eq, Structural)]
pub enum Exchange {
    /// No complete line has arrived: nothing was taken, nothing is sent.
    Pending,
    /// One request was taken and its response is ready to be sent.
    Answered,
    /// One request was taken, but the counter can count no further.
    Unanswered,
}

/// The line protocol: requests and responses are lines, framed by
/// `LineCodec`, answered one by one in the order in which they arrive.
pub struct LineProto;

impl LineProto {
    /// The codec that frames a connection's byte stream.
    pub fn bind_transport(&self) -> (codec: LineCodec) {
        LineCodec
    }

    /// One exchange on a connection: takes the first complete request out of
    /// `inbound`, has `service` answer it, and appends the framed response to
    /// `outbound`. An incomplete or malformed request is never answered.
    pub fn exchange(
        &self,
        service: &Echo,
        inbound: &mut BytesMut,
        outbound: &mut BytesMut,
    ) -> (res: Result<Exchange, FormatError>)
        ensures
            contents(*final(inbound)) == remainder(contents(*old(inbound))),
            match decoded(contents(*old(inbound))) {
                Ok(None) => {
                    &&& res == Ok::<Exchange, FormatError>(Exchange::Pending)
                    &&& contents(*final(outbound)) == contents(*old(outbound))
                },
                Err(e) => {
                    &&& res == Err::<Exchange, FormatError>(e)
                    &&& contents(*final(outbound)) == contents(*old(outbound))
                },
                Ok(Some(request)) => {
                    ||| {
                        &&& res == Ok::<Exchange, FormatError>(Exchange::Answered)
                        &&& exists|count: int|
                            1 <= count <= i32::MAX && contents(*final(outbound))
                                == contents(*old(outbound)) + encoded(
                                #[trigger] response(request, count),
                            )
                    }
                    ||| {
                        &&& res == Ok::<Exchange, FormatError>(Exchange::Unanswered)
                        &&& contents(*final(outbound)) == contents(*old(outbound))
                    }
                },
            },
    {
        let mut codec = self.bind_transport();
        match codec.decode(inbound) {
            Err(e) => Err(e),
            Ok(None) => Ok(Exchange::Pending),
            Ok(Some(request)) => match service.call(request) {
                None => Ok(Exchange::Unanswered),
                Some(line) => {
                    let _ = codec.encode(line, outbound);
                    Ok(Exchange::Answered)
                },
            },
        }
    }
}

} // verus!
