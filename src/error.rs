//! Error kinds that cross the host/guest boundary, and their numeric codes.

use vstd::prelude::*;

verus! {

/// Errors of the generic driver layer.
#[derive(Debug, Clone, Copy, PartialEq, Eq, Structural)]
pub enum ErrorKind {
    ConnectError,
    EofError,
    MemoryNotExport,
    BadFileDescriptor,
    DriverNotFound,
    Addrnotavail,
    DriverBadOpen,
    DriverBadParams,
    PermissionDeny,
    Unknown,
}

pub open spec fn error_kind_text(k: ErrorKind) -> Seq<char> {
    match k {
        ErrorKind::ConnectError => "Connect Error."@,
        ErrorKind::MemoryNotExport => "Memoery not export"@,
        ErrorKind::DriverNotFound => "Driver not found."@,
        ErrorKind::DriverBadOpen => "Driver bad open."@,
        ErrorKind::BadFileDescriptor => "Bad file descriptor."@,
        ErrorKind::DriverBadParams => "Driver bad params."@,
        ErrorKind::Addrnotavail => "Address is not avail."@,
        ErrorKind::Unknown => "Unknown error."@,
        ErrorKind::EofError => "End of file error."@,
        ErrorKind::PermissionDeny => "Permision deny."@,
    }
}

impl ErrorKind {
    /// The human-readable text of the error.
    pub fn message(&self) -> (r: &'static str)
        ensures
            r@ == error_kind_text(*self),
    {
        match self {
            ErrorKind::ConnectError => "Connect Error.",
            ErrorKind::MemoryNotExport => "Memoery not export",
            ErrorKind::DriverNotFound => "Driver not found.",
            ErrorKind::DriverBadOpen => "Driver bad open.",
            ErrorKind::BadFileDescriptor => "Bad file descriptor.",
            ErrorKind::DriverBadParams => "Driver bad params.",
            ErrorKind::Addrnotavail => "Address is not avail.",
            ErrorKind::Unknown => "Unknown error.",
            ErrorKind::EofError => "End of file error.",
            ErrorKind::PermissionDeny => "Permision deny.",
        }
    }
}

/// Errors of the HTTP host calls.
#[derive(Debug, Clone, Copy, PartialEq, Eq, Structural)]
pub enum HttpErrorKind {
    InvalidDriver,
    InvalidHandle,
    MemoryAccessError,
    BufferTooSmall,
    HeaderNotFound,
    Utf8Error,
    DestinationNotAllowed,
    InvalidMethod,
    InvalidEncoding,
    InvalidUrl,
    RequestError,
    RuntimeError,
    TooManySessions,
    PermissionDeny,
}

pub open spec fn http_error_text(k: HttpErrorKind) -> Seq<char> {
    match k {
        HttpErrorKind::InvalidDriver => "Invalid Driver"@,
        HttpErrorKind::InvalidHandle => "Invalid Error"@,
        HttpErrorKind::MemoryAccessError => "Memoery Access Error"@,
        HttpErrorKind::BufferTooSmall => "Buffer too small"@,
        HttpErrorKind::HeaderNotFound => "Header not found"@,
        HttpErrorKind::Utf8Error => "Utf8 error"@,
        HttpErrorKind::DestinationNotAllowed => "Destination not allowed"@,
        HttpErrorKind::InvalidMethod => "Invalid method"@,
        HttpErrorKind::InvalidEncoding => "Invalid encoding"@,
        HttpErrorKind::InvalidUrl => "Invalid url"@,
        HttpErrorKind::RequestError => "Request url"@,
        HttpErrorKind::RuntimeError => "Runtime error"@,
        HttpErrorKind::TooManySessions => "Too many sessions"@,
        HttpErrorKind::PermissionDeny => "Permision deny."@,
    }
}

/// The guest-side code of each kind; 0 stands for success and is no kind.
pub open spec fn http_error_code(k: HttpErrorKind) -> u32 {
    match k {
        HttpErrorKind::InvalidHandle => 1,
        HttpErrorKind::MemoryAccessError => 2,
        HttpErrorKind::BufferTooSmall => 3,
        HttpErrorKind::HeaderNotFound => 4,
        HttpErrorKind::Utf8Error => 5,
        HttpErrorKind::DestinationNotAllowed => 6,
        HttpErrorKind::InvalidMethod => 7,
        HttpErrorKind::InvalidEncoding => 8,
        HttpErrorKind::InvalidUrl => 9,
        HttpErrorKind::RequestError => 10,
        HttpErrorKind::RuntimeError => 11,
        HttpErrorKind::TooManySessions => 12,
        HttpErrorKind::PermissionDeny => 13,
        HttpErrorKind::InvalidDriver => 14,
    }
}

/// The kind that a guest-side code stands for; codes of no kind read as `RuntimeError`.
pub open spec fn http_error_of_code(code: u32) -> HttpErrorKind {
    if code == 1 {
        HttpErrorKind::InvalidHandle
    } else if code == 2 {
        HttpErrorKind::MemoryAccessError
    } else if code == 3 {
        HttpErrorKind::BufferTooSmall
    } else if code == 4 {
        HttpErrorKind::HeaderNotFound
    } else if code == 5 {
        HttpErrorKind::Utf8Error
    } else if code == 6 {
        HttpErrorKind::DestinationNotAllowed
    } else if code == 7 {
        HttpErrorKind::InvalidMethod
    } else if code == 8 {
        HttpErrorKind::InvalidEncoding
    } else if code == 9 {
        HttpErrorKind::InvalidUrl
    } else if code == 10 {
        HttpErrorKind::RequestError
    } else if code == 11 {
        HttpErrorKind::RuntimeError
    } else if code == 12 {
        HttpErrorKind::TooManySessions
    } else if code == 13 {
        HttpErrorKind::PermissionDeny
    } else if code == 14 {
        HttpErrorKind::InvalidDriver
    } else {
        HttpErrorKind::RuntimeError
    }
}

impl HttpErrorKind {
    /// The human-readable text of the error.
    pub fn message(&self) -> (r: &'static str)
        ensures
            r@ == http_error_text(*self),
    {
        match self {
            HttpErrorKind::InvalidDriver => "Invalid Driver",
            HttpErrorKind::InvalidHandle => "Invalid Error",
            HttpErrorKind::MemoryAccessError => "Memoery Access Error",
            HttpErrorKind::BufferTooSmall => "Buffer too small",
            HttpErrorKind::HeaderNotFound => "Header not found",
            HttpErrorKind::Utf8Error => "Utf8 error",
            HttpErrorKind::DestinationNotAllowed => "Destination not allowed",
            HttpErrorKind::InvalidMethod => "Invalid method",
            HttpErrorKind::InvalidEncoding => "Invalid encoding",
            HttpErrorKind::InvalidUrl => "Invalid url",
            HttpErrorKind::RequestError => "Request url",
            HttpErrorKind::RuntimeError => "Runtime error",
            HttpErrorKind::TooManySessions => "Too many sessions",
            HttpErrorKind::PermissionDeny => "Permision deny.",
        }
    }

    /// The guest-side code of this kind.
    pub fn code(&self) -> (r: u32)
        ensures
            r == http_error_code(*self),
            r != 0,
    {
        match self {
            HttpErrorKind::InvalidHandle => 1,
            HttpErrorKind::MemoryAccessError => 2,
            HttpErrorKind::BufferTooSmall => 3,
            HttpErrorKind::HeaderNotFound => 4,
            HttpErrorKind::Utf8Error => 5,
            HttpErrorKind::DestinationNotAllowed => 6,
            HttpErrorKind::InvalidMethod => 7,
            HttpErrorKind::InvalidEncoding => 8,
            HttpErrorKind::InvalidUrl => 9,
            HttpErrorKind::RequestError => 10,
            HttpErrorKind::RuntimeError => 11,
            HttpErrorKind::TooManySessions => 12,
            HttpErrorKind::PermissionDeny => 13,
            HttpErrorKind::InvalidDriver => 14,
        }
    }

    /// The kind that a guest-side code stands for.
    pub fn from_code(code: u32) -> (r: HttpErrorKind)
        ensures
            r == http_error_of_code(code),
    {
        match code {
            1 => HttpErrorKind::InvalidHandle,
            2 => HttpErrorKind::MemoryAccessError,
            3 => HttpErrorKind::BufferTooSmall,
            4 => HttpErrorKind::HeaderNotFound,
            5 => HttpErrorKind::Utf8Error,
            6 => HttpErrorKind::DestinationNotAllowed,
            7 => HttpErrorKind::InvalidMethod,
            8 => HttpErrorKind::InvalidEncoding,
            9 => HttpErrorKind::InvalidUrl,
            10 => HttpErrorKind::RequestError,
            11 => HttpErrorKind::RuntimeError,
            12 => HttpErrorKind::TooManySessions,
            13 => HttpErrorKind::PermissionDeny,
            14 => HttpErrorKind::InvalidDriver,
            _ => HttpErrorKind::RuntimeError,
        }
    }
}

/// Errors of the raw HTTP client used by the IPFS driver.
#[derive(Debug, Clone, Copy, PartialEq, Eq, Structural)]
pub enum IpfsErrorKind {
    InvalidHandle,
    Utf8Error,
    InvalidMethod,
    InvalidEncoding,
    InvalidParameter,
    RequestError,
    RuntimeError,
    TooManySessions,
    PermissionDeny,
}

pub open spec fn ipfs_error_text(k: IpfsErrorKind) -> Seq<char> {
    match k {
        IpfsErrorKind::InvalidHandle => "Invalid Error"@,
        IpfsErrorKind::Utf8Error => "Utf8 error"@,
        IpfsErrorKind::InvalidMethod => "Invalid method"@,
        IpfsErrorKind::InvalidEncoding => "Invalid encoding"@,
        IpfsErrorKind::InvalidParameter => "Invalid parameter"@,
        IpfsErrorKind::RequestError => "Request url"@,
        IpfsErrorKind::RuntimeError => "Runtime error"@,
        IpfsErrorKind::TooManySessions => "Too many sessions"@,
        IpfsErrorKind::PermissionDeny => "Permision deny."@,
    }
}

impl IpfsErrorKind {
    /// The human-readable text of the error.
    pub fn message(&self) -> (r: &'static str)
        ensures
            r@ == ipfs_error_text(*self),
    {
        match self {
            IpfsErrorKind::InvalidHandle => "Invalid Error",
            IpfsErrorKind::Utf8Error => "Utf8 error",
            IpfsErrorKind::InvalidMethod => "Invalid method",
            IpfsErrorKind::InvalidEncoding => "Invalid encoding",
            IpfsErrorKind::InvalidParameter => "Invalid parameter",
            IpfsErrorKind::RequestError => "Request url",
            IpfsErrorKind::RuntimeError => "Runtime error",
            IpfsErrorKind::TooManySessions => "Too many sessions",
            IpfsErrorKind::PermissionDeny => "Permision deny.",
        }
    }
}

/// Errors of the socket host calls.
#[derive(Debug, Clone, Copy, PartialEq, Eq, Structural)]
pub enum BlocklessSocketErrorKind {
    AddressInUse,
    ConnectRefused,
    ConnectionReset,
    ParameterError,
}

pub open spec fn socket_error_text(k: BlocklessSocketErrorKind) -> Seq<char> {
    match k {
        BlocklessSocketErrorKind::AddressInUse => "Address in use"@,
        BlocklessSocketErrorKind::ConnectRefused => "Connection refused"@,
        BlocklessSocketErrorKind::ConnectionReset => "Connection reset"@,
        BlocklessSocketErrorKind::ParameterError => "Parameter error"@,
    }
}

/// The guest-side code of each kind; 0 stands for success and is no kind.
pub open spec fn socket_error_code(k: BlocklessSocketErrorKind) -> u32 {
    match k {
        BlocklessSocketErrorKind::AddressInUse => 1,
        BlocklessSocketErrorKind::ConnectRefused => 2,
        BlocklessSocketErrorKind::ConnectionReset => 3,
        BlocklessSocketErrorKind::ParameterError => 4,
    }
}

/// The kind that a guest-side code stands for; codes of no kind read as `ParameterError`.
pub open spec fn socket_error_of_code(code: u32) -> BlocklessSocketErrorKind {
    if code == 1 {
        BlocklessSocketErrorKind::AddressInUse
    } else if code == 2 {
        BlocklessSocketErrorKind::ConnectRefused
    } else if code == 3 {
        BlocklessSocketErrorKind::ConnectionReset
    } else if code == 4 {
        BlocklessSocketErrorKind::ParameterError
    } else {
        BlocklessSocketErrorKind::ParameterError
    }
}

impl BlocklessSocketErrorKind {
    /// The human-readable text of the error.
    pub fn message(&self) -> (r: &'static str)
        ensures
            r@ == socket_error_text(*self),
    {
        match self {
            BlocklessSocketErrorKind::AddressInUse => "Address in use",
            BlocklessSocketErrorKind::ConnectRefused => "Connection refused",
            BlocklessSocketErrorKind::ConnectionReset => "Connection reset",
            BlocklessSocketErrorKind::ParameterError => "Parameter error",
        }
    }

    /// The guest-side code of this kind.
    pub fn code(&self) -> (r: u32)
        ensures
            r == socket_error_code(*self),
            r != 0,
    {
        match self {
            BlocklessSocketErrorKind::AddressInUse => 1,
            BlocklessSocketErrorKind::ConnectRefused => 2,
            BlocklessSocketErrorKind::ConnectionReset => 3,
            BlocklessSocketErrorKind::ParameterError => 4,
        }
    }

    /// The kind that a guest-side code stands for.
    pub fn from_code(code: u32) -> (r: BlocklessSocketErrorKind)
        ensures
            r == socket_error_of_code(code),
    {
        match code {
            1 => BlocklessSocketErrorKind::AddressInUse,
            2 => BlocklessSocketErrorKind::ConnectRefused,
            3 => BlocklessSocketErrorKind::ConnectionReset,
            4 => BlocklessSocketErrorKind::ParameterError,
            _ => BlocklessSocketErrorKind::ParameterError,
        }
    }
}

/// Every HTTP error kind survives the trip through its guest-side code.
pub proof fn lemma_http_code_round_trip(k: HttpErrorKind)
    ensures
        http_error_of_code(http_error_code(k)) == k,
        http_error_code(k) != 0,
{
}

/// Every socket error kind survives the trip through its guest-side code.
pub proof fn lemma_socket_code_round_trip(k: BlocklessSocketErrorKind)
    ensures
        socket_error_of_code(socket_error_code(k)) == k,
        socket_error_code(k) != 0,
{
}

} // verus!
