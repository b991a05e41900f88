//! The response to a request, and the ways to read it.

use crate::error::ResponseErr;
use crate::status::{status_of, Status};
use crate::text::{chars_of, decode, starts_with};
use openssl::x509::X509;
use vstd::prelude::*;
use vstd::utf8::{decode_utf8, valid_utf8};

verus! {

/// The status of a response that carries content.
pub const SUCCESS: u8 = 20;

/// A response of a Gemini server.
#[derive(Debug)]
pub struct Response {
    /// The status code of the header.
    pub status: u8,
    /// The meta of the header: what it means depends on the status. With
    /// status 20 it is the media type of the content.
    pub meta: String,
    /// The body, as it came.
    pub content: Vec<u8>,
    /// The certificate of the responding server.
    pub certificate: X509,
}

/// Whether a meta names gemtext as the media type: it begins with
/// `text/gemini`.
pub open spec fn names_gemtext(meta: Seq<char>) -> bool {
    "text/gemini"@.is_prefix_of(meta)
}

/// The PEM that a certificate serializes to: `None` where it cannot be
/// serialized. It is data of the certificate, and of nothing else.
pub uninterp spec fn pem_of(certificate: X509) -> Option<Seq<u8>>;

/// `X509Ref::to_pem` of the `openssl` crate: the certificate serialized as
/// PEM. The contract names the outcome, which the certificate alone
/// decides, and says nothing more of it.
#[verifier::external_body]
fn x509_to_pem(certificate: &X509) -> (r: Result<Vec<u8>, openssl::error::ErrorStack>)
    ensures
        match r {
            Ok(bytes) => pem_of(*certificate) == Some(bytes@),
            Err(_) => pem_of(*certificate) is None,
        },
{
    certificate.to_pem()
}

/// `X509Ref::to_text` of the `openssl` crate: the certificate printed for
/// people to read. Nothing is claimed of the result: how the dump is worded
/// is up to the OpenSSL that the program is linked with.
#[verifier::external_body]
fn x509_to_text(certificate: &X509) -> (r: Result<Vec<u8>, openssl::error::ErrorStack>) {
    certificate.to_text()
}

/// Reads as text the PEM that the serializing of a certificate gave.
pub fn pem_text(pem: Result<Vec<u8>, openssl::error::ErrorStack>) -> (r: Result<String, ResponseErr>)
    ensures
        match r {
            Ok(text) => pem matches Ok(bytes) && valid_utf8(bytes@) && text@ == decode_utf8(bytes@),
            Err(ResponseErr::SerializingToPem(e)) => pem == Err::<Vec<u8>, _>(e),
            Err(ResponseErr::PemInvalidUtf8(_)) => pem matches Ok(bytes) && !valid_utf8(bytes@),
            Err(_) => false,
        },
{
    match pem {
        Ok(bytes) => match decode(bytes.as_slice()) {
            Ok(text) => Ok(text),
            Err(e) => Err(ResponseErr::PemInvalidUtf8(e)),
        },
        Err(e) => Err(ResponseErr::SerializingToPem(e)),
    }
}

/// Reads as text the dump that the printing of a certificate gave.
pub fn info_text(info: Result<Vec<u8>, openssl::error::ErrorStack>) -> (r: Result<
    String,
    ResponseErr,
>)
    ensures
        match r {
            Ok(text) => info matches Ok(bytes) && valid_utf8(bytes@) && text@ == decode_utf8(
                bytes@,
            ),
            Err(ResponseErr::FailedToInspectCert(e)) => info == Err::<Vec<u8>, _>(e),
            Err(ResponseErr::CertInfoIsntValidUtf8(_)) => info matches Ok(bytes) && !valid_utf8(
                bytes@,
            ),
            Err(_) => false,
        },
{
    match info {
        Ok(bytes) => match decode(bytes.as_slice()) {
            Ok(text) => Ok(text),
            Err(e) => Err(ResponseErr::CertInfoIsntValidUtf8(e)),
        },
        Err(e) => Err(ResponseErr::FailedToInspectCert(e)),
    }
}

impl Response {
    /// Whether the response says that its content is gemtext.
    pub fn is_gemtext(&self) -> (r: bool)
        ensures
            r == names_gemtext(self.meta@),
    {
        let meta = chars_of(self.meta.as_str());
        let gemtext = chars_of("text/gemini");
        starts_with(meta.as_slice(), gemtext.as_slice())
    }

    /// Fails unless the status of the response is `s`. The error holds the
    /// status that was expected, the status received, and the meta.
    pub fn require_status(&self, s: u8) -> (r: Result<(), ResponseErr>)
        ensures
            match r {
                Ok(()) => self.status == s,
                Err(ResponseErr::UnexpectedStatus(expected, actual, meta)) => {
                    &&& self.status != s
                    &&& expected == status_of(s)
                    &&& actual == status_of(self.status)
                    &&& meta@ == self.meta@
                },
                Err(_) => false,
            },
    {
        if self.status != s {
            Err(
                ResponseErr::UnexpectedStatus(
                    Status::from(s),
                    Status::from(self.status),
                    self.meta.clone(),
                ),
            )
        } else {
            Ok(())
        }
    }

    /// The content as text, whatever the media type. The status has to be
    /// 20, and the content UTF-8.
    pub fn text(&self) -> (r: Result<String, ResponseErr>)
        ensures
            match r {
                Ok(text) => {
                    &&& self.status == SUCCESS
                    &&& valid_utf8(self.content@)
                    &&& text@ == decode_utf8(self.content@)
                },
                Err(ResponseErr::UnexpectedStatus(expected, actual, meta)) => {
                    &&& self.status != SUCCESS
                    &&& expected == Status::Success
                    &&& actual == status_of(self.status)
                    &&& meta@ == self.meta@
                },
                Err(ResponseErr::Utf8Content(_)) => {
                    &&& self.status == SUCCESS
                    &&& !valid_utf8(self.content@)
                },
                Err(_) => false,
            },
    {
        match self.require_status(SUCCESS) {
            Ok(()) => {},
            Err(e) => {
                return Err(e);
            },
        }
        match decode(self.content.as_slice()) {
            Ok(text) => Ok(text),
            Err(e) => Err(ResponseErr::Utf8Content(e)),
        }
    }

    /// The content as gemtext. The status has to be 20, the meta has to
    /// name gemtext, and the content has to be UTF-8; they are looked at in
    /// this order.
    pub fn gemtext(&self) -> (r: Result<String, ResponseErr>)
        ensures
            match r {
                Ok(text) => {
                    &&& self.status == SUCCESS
                    &&& names_gemtext(self.meta@)
                    &&& valid_utf8(self.content@)
                    &&& text@ == decode_utf8(self.content@)
                },
                Err(ResponseErr::UnexpectedStatus(expected, actual, meta)) => {
                    &&& self.status != SUCCESS
                    &&& expected == Status::Success
                    &&& actual == status_of(self.status)
                    &&& meta@ == self.meta@
                },
                Err(ResponseErr::UnexpectedFiletype(expected, actual)) => {
                    &&& self.status == SUCCESS
                    &&& !names_gemtext(self.meta@)
                    &&& expected@ == "text/gemini"@
                    &&& actual@ == self.meta@
                },
                Err(ResponseErr::Utf8Content(_)) => {
                    &&& self.status == SUCCESS
                    &&& names_gemtext(self.meta@)
                    &&& !valid_utf8(self.content@)
                },
                Err(_) => false,
            },
    {
        match self.require_status(SUCCESS) {
            Ok(()) => {},
            Err(e) => {
                return Err(e);
            },
        }
        if self.is_gemtext() {
            return self.text();
        }
        Err(ResponseErr::UnexpectedFiletype("text/gemini".to_owned(), self.meta.clone()))
    }

    /// The certificate of the server as PEM: the PEM that it serializes
    /// to, read as UTF-8.
    pub fn certificate_pem(&self) -> (r: Result<String, ResponseErr>)
        ensures
            match r {
                Ok(text) => {
                    &&& pem_of(self.certificate) matches Some(bytes)
                    &&& valid_utf8(bytes)
                    &&& text@ == decode_utf8(bytes)
                },
                Err(ResponseErr::SerializingToPem(_)) => pem_of(self.certificate) is None,
                Err(ResponseErr::PemInvalidUtf8(_)) => {
                    &&& pem_of(self.certificate) matches Some(bytes)
                    &&& !valid_utf8(bytes)
                },
                Err(_) => false,
            },
    {
        pem_text(x509_to_pem(&self.certificate))
    }

    /// The certificate of the server, printed for people to read. What
    /// comes out is what `info_text` makes of what the printing gives.
    pub fn certificate_info(&self) -> (r: Result<String, ResponseErr>)
        ensures
            match r {
                Ok(_) => true,
                Err(ResponseErr::FailedToInspectCert(_)) => true,
                Err(ResponseErr::CertInfoIsntValidUtf8(_)) => true,
                Err(_) => false,
            },
    {
        info_text(x509_to_text(&self.certificate))
    }
}

} // verus!
