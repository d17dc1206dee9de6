use vstd::prelude::*;

verus! {

/// I/O failures carried by the store-loading errors.
#[verifier::external_type_specification]
#[verifier::external_body]
pub struct ExIoError(std::io::Error);

/// Everything that can go wrong while reading an `Authorization` header or
/// while loading an htpasswd store.
#[derive(Debug)]
pub enum Error {
    HeaderNotLongEnough,
    CannotConvertHeaderToString,
    UnsupportedScheme { scheme: String },
    MissingScheme,
    MalformedCredentials,
    CannotExtractUsername,
    CannotExtractPassword,
    EmptyPassword,
    CannotOpenHtpasswdFile { path_string: String, io_error: std::io::Error },
    CannotReadHtpasswdFile { path_string: String, io_error: std::io::Error },
    MalformedHtpasswdLine { path_string: String, line: usize },
    InvalidPasswordString { path_string: String, line: usize },
    DuplicateUser { user: String },
}

impl Error {
    /// The name of the variant, as a stable label for logs.
    pub open spec fn spec_kind(&self) -> &'static str {
        match self {
            Error::HeaderNotLongEnough => "HeaderNotLongEnough",
            Error::CannotConvertHeaderToString => "CannotConvertHeaderToString",
            Error::UnsupportedScheme { .. } => "UnsupportedScheme",
            Error::MissingScheme => "MissingScheme",
            Error::MalformedCredentials => "MalformedCredentials",
            Error::CannotExtractUsername => "CannotExtractUsername",
            Error::CannotExtractPassword => "CannotExtractPassword",
            Error::EmptyPassword => "EmptyPassword",
            Error::CannotOpenHtpasswdFile { .. } => "CannotOpenHtpasswdFile",
            Error::CannotReadHtpasswdFile { .. } => "CannotReadHtpasswdFile",
            Error::MalformedHtpasswdLine { .. } => "MalformedHtpasswdLine",
            Error::InvalidPasswordString { .. } => "InvalidPasswordString",
            Error::DuplicateUser { .. } => "DuplicateUser",
        }
    }

    /// The name of the variant.
    pub fn kind(&self) -> (r: &'static str)
        ensures
            r@ == self.spec_kind()@,
    {
        match self {
            Error::HeaderNotLongEnough => "HeaderNotLongEnough",
            Error::CannotConvertHeaderToString => "CannotConvertHeaderToString",
            Error::UnsupportedScheme { .. } => "UnsupportedScheme",
            Error::MissingScheme => "MissingScheme",
            Error::MalformedCredentials => "MalformedCredentials",
            Error::CannotExtractUsername => "CannotExtractUsername",
            Error::CannotExtractPassword => "CannotExtractPassword",
            Error::EmptyPassword => "EmptyPassword",
            Error::CannotOpenHtpasswdFile { .. } => "CannotOpenHtpasswdFile",
            Error::CannotReadHtpasswdFile { .. } => "CannotReadHtpasswdFile",
            Error::MalformedHtpasswdLine { .. } => "MalformedHtpasswdLine",
            Error::InvalidPasswordString { .. } => "InvalidPasswordString",
            Error::DuplicateUser { .. } => "DuplicateUser",
        }
    }
}

/// Why a line of an htpasswd source cannot be loaded, in terms of the model.
pub enum LoadFault {
    /// The line is not `user:{SHA}digest` with the separator exactly once.
    MalformedLine { line: nat },
    /// The digest part is not valid base64.
    BadPasswordEncoding { line: nat },
    /// The user already has a record.
    DuplicateUser { user: Seq<char> },
}

impl Error {
    /// This error is the one that reports `fault` for the source named `origin`.
    pub open spec fn reports(&self, origin: Seq<char>, fault: LoadFault) -> bool {
        match fault {
            LoadFault::MalformedLine { line } => match self {
                Error::MalformedHtpasswdLine { path_string, line: l } => path_string@ == origin
                    && l == line,
                _ => false,
            },
            LoadFault::BadPasswordEncoding { line } => match self {
                Error::InvalidPasswordString { path_string, line: l } => path_string@ == origin
                    && l == line,
                _ => false,
            },
            LoadFault::DuplicateUser { user } => match self {
                Error::DuplicateUser { user: u } => u@ == user,
                _ => false,
            },
        }
    }
}

} // verus!
