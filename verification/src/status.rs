//! The status codes of Gemini responses.

use crate::text::{decimal, decimal_of};
use vstd::prelude::*;
use vstd::string::StringExecFns;

verus! {

/// The status of a response, by its two-digit code.
#[derive(Debug, Clone, Copy, PartialEq, Eq, Structural)]
pub enum Status {
    /// 10: the requested resource accepts a line of textual user input.
    Input,
    /// 11: as `Input`, for sensitive input such as passwords, which clients
    /// should not echo to the screen.
    SensitiveInput,
    /// 20: the request was handled successfully and a body follows.
    Success,
    /// 30: the resource is temporarily found at another URL.
    RedirectTemporary,
    /// 31: the resource is from now on found at another URL.
    RedirectPermanent,
    /// 40: the request failed; a later identical request may succeed.
    TemporaryFailure,
    /// 41: the server is unavailable due to overload or maintenance.
    ServerUnavailable,
    /// 42: a CGI process, or similar system, died or timed out.
    CgiError,
    /// 43: a proxy request failed because the remote host did not complete
    /// the transaction.
    ProxyError,
    /// 44: rate limiting is in effect; the meta is the number of seconds to
    /// wait.
    SlowDown,
    /// 50: the request failed, and identical requests will fail too.
    PermanentFailure,
    /// 51: the resource could not be found, but may exist in the future.
    NotFound,
    /// 52: the resource is no longer available and will not be again.
    Gone,
    /// 53: the resource belongs to a domain that this server does not serve,
    /// and it accepts no proxy requests.
    ProxyRequestRefused,
    /// 59: the server could not parse the request.
    BadRequest,
    /// 60: the resource requires a client certificate.
    ClientCertificateRequired,
    /// 61: the client certificate is not authorised for this resource.
    CertificateNotAuthorised,
    /// 62: the client certificate is not valid.
    CertificateNotValid,
    /// Any other code, which the variant carries.
    BadStatus(u8),
}

/// The status that the code `n` stands for.
pub open spec fn status_of(n: u8) -> Status {
    if n == 10 {
        Status::Input
    } else if n == 11 {
        Status::SensitiveInput
    } else if n == 20 {
        Status::Success
    } else if n == 30 {
        Status::RedirectTemporary
    } else if n == 31 {
        Status::RedirectPermanent
    } else if n == 40 {
        Status::TemporaryFailure
    } else if n == 41 {
        Status::ServerUnavailable
    } else if n == 42 {
        Status::CgiError
    } else if n == 43 {
        Status::ProxyError
    } else if n == 44 {
        Status::SlowDown
    } else if n == 50 {
        Status::PermanentFailure
    } else if n == 51 {
        Status::NotFound
    } else if n == 52 {
        Status::Gone
    } else if n == 53 {
        Status::ProxyRequestRefused
    } else if n == 59 {
        Status::BadRequest
    } else if n == 60 {
        Status::ClientCertificateRequired
    } else if n == 61 {
        Status::CertificateNotAuthorised
    } else if n == 62 {
        Status::CertificateNotValid
    } else {
        Status::BadStatus(n)
    }
}

impl From<u8> for Status {
    fn from(n: u8) -> (r: Self) {
        match n {
            10 => Status::Input,
            11 => Status::SensitiveInput,
            20 => Status::Success,
            30 => Status::RedirectTemporary,
            31 => Status::RedirectPermanent,
            40 => Status::TemporaryFailure,
            41 => Status::ServerUnavailable,
            42 => Status::CgiError,
            43 => Status::ProxyError,
            44 => Status::SlowDown,
            50 => Status::PermanentFailure,
            51 => Status::NotFound,
            52 => Status::Gone,
            53 => Status::ProxyRequestRefused,
            59 => Status::BadRequest,
            60 => Status::ClientCertificateRequired,
            61 => Status::CertificateNotAuthorised,
            62 => Status::CertificateNotValid,
            _ => Status::BadStatus(n),
        }
    }
}

impl vstd::std_specs::convert::FromSpecImpl<u8> for Status {
    open spec fn obeys_from_spec() -> bool {
        true
    }

    open spec fn from_spec(n: u8) -> Status {
        status_of(n)
    }
}

impl Status {
    /// The code of this status.
    pub open spec fn code(self) -> u8 {
        match self {
            Status::Input => 10,
            Status::SensitiveInput => 11,
            Status::Success => 20,
            Status::RedirectTemporary => 30,
            Status::RedirectPermanent => 31,
            Status::TemporaryFailure => 40,
            Status::ServerUnavailable => 41,
            Status::CgiError => 42,
            Status::ProxyError => 43,
            Status::SlowDown => 44,
            Status::PermanentFailure => 50,
            Status::NotFound => 51,
            Status::Gone => 52,
            Status::ProxyRequestRefused => 53,
            Status::BadRequest => 59,
            Status::ClientCertificateRequired => 60,
            Status::CertificateNotAuthorised => 61,
            Status::CertificateNotValid => 62,
            Status::BadStatus(n) => n,
        }
    }

    /// The name of this status.
    pub open spec fn label(self) -> Seq<char> {
        match self {
            Status::Input => "Input"@,
            Status::SensitiveInput => "SensitiveInput"@,
            Status::Success => "Success"@,
            Status::RedirectTemporary => "RedirectTemporary"@,
            Status::RedirectPermanent => "RedirectPermanent"@,
            Status::TemporaryFailure => "TemporaryFailure"@,
            Status::ServerUnavailable => "ServerUnavailable"@,
            Status::CgiError => "CgiError"@,
            Status::ProxyError => "ProxyError"@,
            Status::SlowDown => "SlowDown"@,
            Status::PermanentFailure => "PermanentFailure"@,
            Status::NotFound => "NotFound"@,
            Status::Gone => "Gone"@,
            Status::ProxyRequestRefused => "ProxyRequestRefused"@,
            Status::BadRequest => "BadRequest"@,
            Status::ClientCertificateRequired => "ClientCertificateRequired"@,
            Status::CertificateNotAuthorised => "CertificateNotAuthorised"@,
            Status::CertificateNotValid => "CertificateNotValid"@,
            Status::BadStatus(_) => "BadStatus"@,
        }
    }

    /// The number that this status stands for. For `BadStatus` it is the
    /// code that the variant carries.
    pub fn value(&self) -> (r: u8)
        ensures
            r == self.code(),
    {
        match self {
            Status::Input => 10,
            Status::SensitiveInput => 11,
            Status::Success => 20,
            Status::RedirectTemporary => 30,
            Status::RedirectPermanent => 31,
            Status::TemporaryFailure => 40,
            Status::ServerUnavailable => 41,
            Status::CgiError => 42,
            Status::ProxyError => 43,
            Status::SlowDown => 44,
            Status::PermanentFailure => 50,
            Status::NotFound => 51,
            Status::Gone => 52,
            Status::ProxyRequestRefused => 53,
            Status::BadRequest => 59,
            Status::ClientCertificateRequired => 60,
            Status::CertificateNotAuthorised => 61,
            Status::CertificateNotValid => 62,
            Status::BadStatus(n) => *n,
        }
    }

    /// The name of this status.
    pub fn name(&self) -> (r: &'static str)
        ensures
            r@ == self.label(),
    {
        match self {
            Status::Input => "Input",
            Status::SensitiveInput => "SensitiveInput",
            Status::Success => "Success",
            Status::RedirectTemporary => "RedirectTemporary",
            Status::RedirectPermanent => "RedirectPermanent",
            Status::TemporaryFailure => "TemporaryFailure",
            Status::ServerUnavailable => "ServerUnavailable",
            Status::CgiError => "CgiError",
            Status::ProxyError => "ProxyError",
            Status::SlowDown => "SlowDown",
            Status::PermanentFailure => "PermanentFailure",
            Status::NotFound => "NotFound",
            Status::Gone => "Gone",
            Status::ProxyRequestRefused => "ProxyRequestRefused",
            Status::BadRequest => "BadRequest",
            Status::ClientCertificateRequired => "ClientCertificateRequired",
            Status::CertificateNotAuthorised => "CertificateNotAuthorised",
            Status::CertificateNotValid => "CertificateNotValid",
            Status::BadStatus(_) => "BadStatus",
        }
    }

    /// The code in decimal, a space, and the name: `20 Success`.
    pub fn to_string(&self) -> (r: String)
        ensures
            r@ == decimal_of(self.code() as nat) + seq![' '] + self.label(),
    {
        let mut s = decimal(self.value() as u64);
        s.push(' ');
        s.append(self.name());
        s
    }
}

/// Whether `n` is one of the codes that have a variant of their own.
pub open spec fn is_defined(n: u8) -> bool {
    ||| n == 10 || n == 11
    ||| n == 20
    ||| n == 30 || n == 31
    ||| 40 <= n <= 44
    ||| 50 <= n <= 53 || n == 59
    ||| 60 <= n <= 62
}

/// Turning a code into a status and back gives the code, for every code.
pub proof fn lemma_code_of_status(n: u8)
    ensures
        status_of(n).code() == n,
        status_of(n) is BadStatus <==> !is_defined(n),
{
}

/// Turning a status into its code and back gives the status, unless it is a
/// `BadStatus` that carries a defined code.
pub proof fn lemma_status_of_code(s: Status)
    ensures
        status_of(s.code()) == s <==> (s is BadStatus ==> !is_defined(s.code())),
{
}

} // verus!
