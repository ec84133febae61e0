//! Refusing a request.

use vstd::prelude::*;
use crate::codec::Writer;
use crate::common::{SpdmDeviceIo, SpdmTransportEncap};
use crate::error::SpdmResult;
use crate::message::error_response::{SpdmErrorCode, SpdmErrorResponsePayload};
use crate::message::header::{SpdmMessageHeader, SpdmRequestResponseCode};
use crate::protocol::SpdmVersion;
use crate::responder::context::ResponderContext;

verus! {

/// An ERROR response with the code `error_code` and the data `error_data` on the wire,
/// in `version`.
pub open spec fn spec_error_message(
    version: SpdmVersion,
    error_code: SpdmErrorCode,
    error_data: u8,
) -> Seq<u8> {
    seq![version.spec_u8(), 0x7Fu8, error_code.spec_u8(), error_data]
}

/// Write an ERROR response with the code `error_code` and the data `error_data` into
/// `writer`, or nothing where it does not fit.
pub fn write_error_message(
    version: SpdmVersion,
    error_code: SpdmErrorCode,
    error_data: u8,
    writer: &mut Writer,
) -> (ok: bool)
    ensures
        ok == old(writer).has_room(4),
        ok ==> final(writer).appended_to(
            *old(writer),
            spec_error_message(version, error_code, error_data),
        ),
        !ok ==> *final(writer) == *old(writer),
{
    if writer.left() < 4 {
        return false;
    }
    let ghost w0 = *writer;
    let header = SpdmMessageHeader {
        version,
        request_response_code: SpdmRequestResponseCode::SpdmResponseError,
    };
    let payload = SpdmErrorResponsePayload { error_code, error_data, extended_data: None };
    let _ = header.encode(writer);
    let _ = payload.spdm_encode(writer);
    assert(writer@ =~= w0@ + spec_error_message(version, error_code, error_data));
    true
}

impl<'a, D: SpdmDeviceIo, T: SpdmTransportEncap> ResponderContext<'a, D, T> {
    /// Write an ERROR response in the negotiated version into `writer`.
    pub fn write_spdm_error(&self, error_code: SpdmErrorCode, error_data: u8, writer: &mut Writer) -> (ok:
        bool)
        ensures
            ok == old(writer).has_room(4),
            ok ==> final(writer).appended_to(
                *old(writer),
                spec_error_message(
                    self.common.negotiate_info.spdm_version_sel,
                    error_code,
                    error_data,
                ),
            ),
            !ok ==> *final(writer) == *old(writer),
    {
        write_error_message(
            self.common.negotiate_info.spdm_version_sel,
            error_code,
            error_data,
            writer,
        )
    }

    /// Answer with an ERROR response, in the clear. The state of the connection stays
    /// as it is; a failure is the transport's or the device's.
    pub fn send_spdm_error(&mut self, error_code: SpdmErrorCode, error_data: u8) -> (r: SpdmResult)
        ensures
            final(self).common.spec_same_state(old(self).common),
            final(self).common.spec_sent_in_clear(old(self).common, r),
    {
        let mut writer = Writer::init(4);
        let _ = self.write_spdm_error(error_code, error_data, &mut writer);
        self.send_message(writer.used_slice())
    }
}

} // verus!
