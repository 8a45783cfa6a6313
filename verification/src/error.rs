//! Error taxonomy for calls into the surrounding system.
//!
//! A failed call is labelled with the name of the API that failed, the
//! numeric code it reported, and optionally the source position of the
//! call.  The labelling combinators attach those labels to any `Result`
//! whose error carries the matching kind of code.

use vstd::prelude::*;

verus! {

/// Numeric code a failed call reported, if any.
#[derive(Clone, Copy, PartialEq, Eq, Structural, Debug)]
pub enum ErrorCode {
    NoCode,
    DWord(u32),
    HResult(i32),
}

/// Source position a failure was labelled with.
#[derive(Clone, Copy, PartialEq, Eq, Debug)]
pub struct FileLine(pub &'static str, pub u32);

/// A failed call into the surrounding system, or a plain message.
#[derive(Debug)]
pub enum Error {
    /// Which API failed, the code it reported, and where it was called.
    Api(&'static str, ErrorCode, Option<FileLine>),
    /// A failure with no structure worth keeping.
    Message(String),
}

/// Classify a result handle: negative codes signal failure.
pub fn check_hresult(hr: i32) -> (r: Result<i32, i32>)
    ensures
        hr >= 0 ==> r == Ok::<i32, i32>(hr),
        hr < 0 ==> r == Err::<i32, i32>(hr),
{
    if hr < 0 {
        Err(hr)
    } else {
        Ok(hr)
    }
}

/// Classify an API return code that signals failure by zero.  The caller
/// hands in the error code the system reported beside it.
pub fn check_nonzero(rc: i32, last_error: u32) -> (r: Result<i32, u32>)
    ensures
        rc == 0 ==> r == Err::<i32, u32>(last_error),
        rc != 0 ==> r == Ok::<i32, u32>(rc),
{
    if rc == 0 {
        Err(last_error)
    } else {
        Ok(rc)
    }
}

/// Classify a possibly absent reference, with no error code to report.
pub fn check_nonnull_no_error_code<T>(ptr: Option<&T>) -> (r: Result<&T, ()>)
    ensures
        ptr matches Some(p) ==> r == Ok::<&T, ()>(p),
        ptr is None ==> r == Err::<&T, ()>(()),
{
    match ptr {
        Some(p) => Ok(p),
        None => Err(()),
    }
}

/// Replace any failure by a plain message.
pub trait LabelErrorMessage<T>: Sized {
    /// Whether the receiver is a success.
    spec fn is_success(&self) -> bool;

    /// The success value of the receiver.
    spec fn success_value(&self) -> T;

    /// Keep a success; label a failure with the message.
    fn map_message(self, msg: String) -> (r: Result<T, Error>)
        ensures
            self.is_success() ==> (r matches Ok(v) && v == self.success_value()),
            !self.is_success() ==> r == Err::<T, Error>(Error::Message(msg)),
    ;
}

impl<T, E> LabelErrorMessage<T> for Result<T, E> {
    open spec fn is_success(&self) -> bool {
        self is Ok
    }

    open spec fn success_value(&self) -> T {
        self->Ok_0
    }

    fn map_message(self, msg: String) -> (r: Result<T, Error>) {
        match self {
            Ok(v) => Ok(v),
            Err(_) => Err(Error::Message(msg)),
        }
    }
}

/// Label a failure that carries no code with the API that failed.
pub trait LabelErrorNone<T>: Sized {
    /// Whether the receiver is a success.
    spec fn is_success(&self) -> bool;

    /// The success value of the receiver.
    spec fn success_value(&self) -> T;

    /// Keep a success; label a failure with the API name.
    fn map_api(self, api: &'static str) -> (r: Result<T, Error>)
        ensures
            self.is_success() ==> (r matches Ok(v) && v == self.success_value()),
            !self.is_success() ==> r == Err::<T, Error>(Error::Api(api, ErrorCode::NoCode, None)),
    ;

    /// Keep a success; label a failure with the API name and the source
    /// position of the call.
    fn map_api_file_line(self, api: &'static str, file: &'static str, line: u32) -> (r: Result<
        T,
        Error,
    >)
        ensures
            self.is_success() ==> (r matches Ok(v) && v == self.success_value()),
            !self.is_success() ==> r == Err::<T, Error>(
                Error::Api(api, ErrorCode::NoCode, Some(FileLine(file, line))),
            ),
    ;
}

impl<T> LabelErrorNone<T> for Result<T, ()> {
    open spec fn is_success(&self) -> bool {
        self is Ok
    }

    open spec fn success_value(&self) -> T {
        self->Ok_0
    }

    fn map_api(self, api: &'static str) -> (r: Result<T, Error>) {
        match self {
            Ok(v) => Ok(v),
            Err(()) => Err(Error::Api(api, ErrorCode::NoCode, None)),
        }
    }

    fn map_api_file_line(self, api: &'static str, file: &'static str, line: u32) -> (r: Result<
        T,
        Error,
    >) {
        match self {
            Ok(v) => Ok(v),
            Err(()) => Err(Error::Api(api, ErrorCode::NoCode, Some(FileLine(file, line)))),
        }
    }
}

/// Label a failure that carries a double-word error code.
pub trait LabelErrorDWord<T>: Sized {
    /// Whether the receiver is a success.
    spec fn is_success(&self) -> bool;

    /// The success value of the receiver.
    spec fn success_value(&self) -> T;

    /// The error code of the receiver.
    spec fn failure_code(&self) -> u32;

    /// Keep a success; label a failure with the API name and its code.
    fn map_api_rc(self, api: &'static str) -> (r: Result<T, Error>)
        ensures
            self.is_success() ==> (r matches Ok(v) && v == self.success_value()),
            !self.is_success() ==> r == Err::<T, Error>(
                Error::Api(api, ErrorCode::DWord(self.failure_code()), None),
            ),
    ;

    /// Keep a success; label a failure with the API name, its code, and the
    /// source position of the call.
    fn map_api_rc_file_line(self, api: &'static str, file: &'static str, line: u32) -> (r: Result<
        T,
        Error,
    >)
        ensures
            self.is_success() ==> (r matches Ok(v) && v == self.success_value()),
            !self.is_success() ==> r == Err::<T, Error>(
                Error::Api(
                    api,
                    ErrorCode::DWord(self.failure_code()),
                    Some(FileLine(file, line)),
                ),
            ),
    ;
}

impl<T> LabelErrorDWord<T> for Result<T, u32> {
    open spec fn is_success(&self) -> bool {
        self is Ok
    }

    open spec fn success_value(&self) -> T {
        self->Ok_0
    }

    open spec fn failure_code(&self) -> u32 {
        self->Err_0
    }

    fn map_api_rc(self, api: &'static str) -> (r: Result<T, Error>) {
        match self {
            Ok(v) => Ok(v),
            Err(rc) => Err(Error::Api(api, ErrorCode::DWord(rc), None)),
        }
    }

    fn map_api_rc_file_line(self, api: &'static str, file: &'static str, line: u32) -> (r: Result<
        T,
        Error,
    >) {
        match self {
            Ok(v) => Ok(v),
            Err(rc) => Err(Error::Api(api, ErrorCode::DWord(rc), Some(FileLine(file, line)))),
        }
    }
}

/// Label a failure that carries a result handle.
pub trait LabelErrorHResult<T>: Sized {
    /// Whether the receiver is a success.
    spec fn is_success(&self) -> bool;

    /// The success value of the receiver.
    spec fn success_value(&self) -> T;

    /// The error code of the receiver.
    spec fn failure_code(&self) -> i32;

    /// Keep a success; label a failure with the API name and its code.
    fn map_api_hr(self, api: &'static str) -> (r: Result<T, Error>)
        ensures
            self.is_success() ==> (r matches Ok(v) && v == self.success_value()),
            !self.is_success() ==> r == Err::<T, Error>(
                Error::Api(api, ErrorCode::HResult(self.failure_code()), None),
            ),
    ;

    /// Keep a success; label a failure with the API name, its code, and the
    /// source position of the call.
    fn map_api_hr_file_line(self, api: &'static str, file: &'static str, line: u32) -> (r: Result<
        T,
        Error,
    >)
        ensures
            self.is_success() ==> (r matches Ok(v) && v == self.success_value()),
            !self.is_success() ==> r == Err::<T, Error>(
                Error::Api(
                    api,
                    ErrorCode::HResult(self.failure_code()),
                    Some(FileLine(file, line)),
                ),
            ),
    ;
}

impl<T> LabelErrorHResult<T> for Result<T, i32> {
    open spec fn is_success(&self) -> bool {
        self is Ok
    }

    open spec fn success_value(&self) -> T {
        self->Ok_0
    }

    open spec fn failure_code(&self) -> i32 {
        self->Err_0
    }

    fn map_api_hr(self, api: &'static str) -> (r: Result<T, Error>) {
        match self {
            Ok(v) => Ok(v),
            Err(hr) => Err(Error::Api(api, ErrorCode::HResult(hr), None)),
        }
    }

    fn map_api_hr_file_line(self, api: &'static str, file: &'static str, line: u32) -> (r: Result<
        T,
        Error,
    >) {
        match self {
            Ok(v) => Ok(v),
            Err(hr) => Err(Error::Api(api, ErrorCode::HResult(hr), Some(FileLine(file, line)))),
        }
    }
}

} // verus!
