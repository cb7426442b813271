use vstd::prelude::*;

verus! {

/// The category of a [`KoralError`], used by contracts and callers to tell
/// failures apart without looking at their messages.
#[derive(Debug, Clone, Copy, PartialEq, Eq, Structural)]
pub enum ErrorKind {
    FlagValueParse,
    MissingArgument,
    InvalidFlag,
    UnknownFlag,
    Validation,
    Io,
    Other,
}

/// The error taxonomy of the parser, the dispatcher and the extractors.
#[derive(Debug, Clone)]
pub enum KoralError {
    /// A flag's string payload could not be converted to its typed value.
    FlagValueParseError(String),
    /// A required flag is absent, a value flag ran out of tokens, or an
    /// extractor found nothing to extract.
    MissingArgument(String),
    /// An invalid flag or command was specified.
    InvalidFlag(String),
    /// A token named no known flag (strict mode only).
    UnknownFlag(String),
    /// A validator rejected a payload, or a flag was used against its shape.
    Validation(String),
    /// An I/O failure reported by the embedding application.
    IoError(String),
    /// Any other failure raised by middleware or handlers.
    Other(String),
}

/// Result type of the library's fallible operations.
pub type KoralResult<T> = Result<T, KoralError>;

impl KoralError {
    pub open spec fn spec_kind(&self) -> ErrorKind {
        match self {
            KoralError::FlagValueParseError(_) => ErrorKind::FlagValueParse,
            KoralError::MissingArgument(_) => ErrorKind::MissingArgument,
            KoralError::InvalidFlag(_) => ErrorKind::InvalidFlag,
            KoralError::UnknownFlag(_) => ErrorKind::UnknownFlag,
            KoralError::Validation(_) => ErrorKind::Validation,
            KoralError::IoError(_) => ErrorKind::Io,
            KoralError::Other(_) => ErrorKind::Other,
        }
    }

    pub open spec fn spec_message(&self) -> Seq<char> {
        match self {
            KoralError::FlagValueParseError(m) => m@,
            KoralError::MissingArgument(m) => m@,
            KoralError::InvalidFlag(m) => m@,
            KoralError::UnknownFlag(m) => m@,
            KoralError::Validation(m) => m@,
            KoralError::IoError(m) => m@,
            KoralError::Other(m) => m@,
        }
    }

    /// Builds an error of the given kind carrying `message`.
    pub fn from_kind(kind: ErrorKind, message: String) -> (r: KoralError)
        ensures
            r.spec_kind() == kind,
            r.spec_message() == message@,
    {
        match kind {
            ErrorKind::FlagValueParse => KoralError::FlagValueParseError(message),
            ErrorKind::MissingArgument => KoralError::MissingArgument(message),
            ErrorKind::InvalidFlag => KoralError::InvalidFlag(message),
            ErrorKind::UnknownFlag => KoralError::UnknownFlag(message),
            ErrorKind::Validation => KoralError::Validation(message),
            ErrorKind::Io => KoralError::IoError(message),
            ErrorKind::Other => KoralError::Other(message),
        }
    }

    /// The category of this error.
    pub fn kind(&self) -> (r: ErrorKind)
        ensures
            r == self.spec_kind(),
    {
        match self {
            KoralError::FlagValueParseError(_) => ErrorKind::FlagValueParse,
            KoralError::MissingArgument(_) => ErrorKind::MissingArgument,
            KoralError::InvalidFlag(_) => ErrorKind::InvalidFlag,
            KoralError::UnknownFlag(_) => ErrorKind::UnknownFlag,
            KoralError::Validation(_) => ErrorKind::Validation,
            KoralError::IoError(_) => ErrorKind::Io,
            KoralError::Other(_) => ErrorKind::Other,
        }
    }

    /// The message carried by this error.
    pub fn message(&self) -> (r: &String)
        ensures
            r@ == self.spec_message(),
    {
        match self {
            KoralError::FlagValueParseError(m) => m,
            KoralError::MissingArgument(m) => m,
            KoralError::InvalidFlag(m) => m,
            KoralError::UnknownFlag(m) => m,
            KoralError::Validation(m) => m,
            KoralError::IoError(m) => m,
            KoralError::Other(m) => m,
        }
    }

    /// The text shown to a user: a heading for the kind, then the message
    /// (an `Other` error shows its message alone).
    pub fn to_string(&self) -> (r: String)
        ensures
            r@ == spec_heading(self.spec_kind()) + self.spec_message(),
    {
        let heading = kind_heading(self.kind());
        String::from_str(heading).concat(self.message().as_str())
    }
}

/// The heading that [`KoralError::to_string`] puts before each kind's message.
pub open spec fn spec_heading(kind: ErrorKind) -> Seq<char> {
    match kind {
        ErrorKind::FlagValueParse => "Flag parse error: "@,
        ErrorKind::MissingArgument => "Missing argument: "@,
        ErrorKind::InvalidFlag => "Invalid flag/command: "@,
        ErrorKind::UnknownFlag => "Unknown flag: "@,
        ErrorKind::Validation => "Validation error: "@,
        ErrorKind::Io => "IO error: "@,
        ErrorKind::Other => ""@,
    }
}

/// Executable form of [`spec_heading`].
pub fn kind_heading(kind: ErrorKind) -> (r: &'static str)
    ensures
        r@ == spec_heading(kind),
{
    match kind {
        ErrorKind::FlagValueParse => "Flag parse error: ",
        ErrorKind::MissingArgument => "Missing argument: ",
        ErrorKind::InvalidFlag => "Invalid flag/command: ",
        ErrorKind::UnknownFlag => "Unknown flag: ",
        ErrorKind::Validation => "Validation error: ",
        ErrorKind::Io => "IO error: ",
        ErrorKind::Other => "",
    }
}

/// Conversion of foreign failures into the library's error type.
pub trait KoralResultExt<T>: Sized {
    /// The converted result.
    spec fn converted(self) -> KoralResult<T>;

    /// Turns an error into [`KoralError::Other`], keeping its message.
    fn koral_err(self) -> (r: KoralResult<T>)
        ensures
            r == self.converted(),
    ;
}

impl<T> KoralResultExt<T> for Result<T, String> {
    open spec fn converted(self) -> KoralResult<T> {
        match self {
            Ok(v) => Ok(v),
            Err(e) => Err(KoralError::Other(e)),
        }
    }

    fn koral_err(self) -> (r: KoralResult<T>) {
        match self {
            Ok(v) => Ok(v),
            Err(e) => Err(KoralError::Other(e)),
        }
    }
}

} // verus!
