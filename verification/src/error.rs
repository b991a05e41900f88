//! What can go wrong with a request, and with reading a response.

use crate::status::Status;
use crate::user_agent::UserAgent;
use vstd::prelude::*;

verus! {

/// `url::ParseError`: why the `url` crate refused a string.
#[verifier::external_type_specification]
#[verifier::external_body]
pub struct ExParseError(url::ParseError);

/// `std::io::Error`: a failure of the socket or of a file.
#[verifier::external_type_specification]
#[verifier::external_body]
pub struct ExIoError(std::io::Error);

/// `core::str::Utf8Error`: where a run of bytes stops being UTF-8.
#[verifier::external_type_specification]
#[verifier::external_body]
pub struct ExUtf8Error(core::str::Utf8Error);

/// `openssl::error::ErrorStack`: the errors that OpenSSL queued.
#[verifier::external_type_specification]
#[verifier::external_body]
pub struct ExErrorStack(openssl::error::ErrorStack);

/// `tokio::time::error::Elapsed`: a deadline that passed.
#[verifier::external_type_specification]
#[verifier::external_body]
pub struct ExElapsed(tokio::time::error::Elapsed);

/// Why a request failed. Nothing is retried: the first failure ends the
/// request.
#[derive(Debug)]
pub enum ActorError {
    /// The URL, with the scheme in front, could not be parsed.
    Url(url::ParseError),
    /// Writing the request or reading the response failed.
    Stream(std::io::Error),
    /// The response header is not UTF-8.
    Utf8Header(core::str::Utf8Error),
    /// The TLS layer failed.
    SslErr(openssl::error::ErrorStack),
    /// The client key or certificate file is missing or malformed.
    KeyCertFileError(openssl::error::ErrorStack),
    /// The TCP connection could not be established.
    TcpError(std::io::Error),
    /// The response header has no space between status and meta.
    MalformedHeader,
    /// The status of the response header, which the variant carries, is no
    /// number from 0 to 255.
    MalformedStatus(String),
    /// The URL names no domain.
    DomainErr,
    /// The server's robots.txt disallows the request: the rule that denied
    /// it, and the agent that the client declared.
    RobotDenied(String, UserAgent),
    /// The TCP connection was not established in time.
    Timeout(tokio::time::error::Elapsed),
    /// The server presented no certificate.
    NoCertificate,
    /// The server's certificate names no domain.
    NoDomains,
    /// The server's certificate is for other domains: the names that it
    /// holds, and the domain that was asked for.
    DomainUncerified(Vec<String>, String),
}

/// Why a response could not be read as what the caller asked for.
#[derive(Debug)]
pub enum ResponseErr {
    /// The content is not UTF-8.
    Utf8Content(core::str::Utf8Error),
    /// The status is not the expected one: the expected status, the status
    /// received, and the meta that came with it.
    UnexpectedStatus(Status, Status, String),
    /// The media type is not the expected one: the expected type, and the
    /// meta received.
    UnexpectedFiletype(String, String),
    /// Writing the content to a file failed.
    FileWrite(std::io::Error),
    /// Creating the file for the content failed.
    FileCreate(std::io::Error),
    /// The server's certificate could not be serialized as PEM.
    SerializingToPem(openssl::error::ErrorStack),
    /// The PEM of the server's certificate is not UTF-8.
    PemInvalidUtf8(core::str::Utf8Error),
    /// The server's certificate could not be printed as text.
    FailedToInspectCert(openssl::error::ErrorStack),
    /// The printed form of the server's certificate is not UTF-8.
    CertInfoIsntValidUtf8(core::str::Utf8Error),
}

} // verus!
