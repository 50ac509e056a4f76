use vstd::prelude::*;

verus! {

/// The shape of a configurable value, without its data.
#[derive(Clone, Copy, Debug, PartialEq, Eq, Structural)]
pub enum ValueKind {
    String,
    Integer,
    UnsignedInteger,
    Float,
    Boolean,
    Enum,
}

/// Transport-independent classes of failure.
#[derive(Clone, Copy, Debug, PartialEq, Eq, Structural)]
pub enum ErrorKind {
    BadRequest,
    NotFound,
    AlreadyExists,
    IO,
    Fatal,
}

/// Every failure of the library, with what a caller needs to report it.
#[derive(Clone, Debug)]
pub enum Error {
    /// The value's shape is not the one the type names.
    TypeMismatch { expected: ValueKind, found: ValueKind },
    /// A string setting's pattern does not compile.
    InvalidRegex,
    /// A string does not match its setting's pattern.
    RegexMismatch,
    /// A number is below its inclusive lower bound.
    TooSmall,
    /// A number is above its inclusive upper bound.
    TooLarge,
    /// An enum tag is not one of the allowed options.
    NotAnOption,
    /// The setting cannot be changed at runtime.
    NotMutable,
    /// A required setting was given no value.
    RequiredValueMissing,
    /// A setting with this id is already present.
    SettingExists,
    /// No setting has this id.
    SettingNotFound,
    /// No section has this id.
    SectionNotFound,
    /// A download was asked for without a URL to fetch.
    MissingDownloadUrl,
    /// The instance's lifecycle state does not allow this operation.
    InvalidState,
    /// This setting cannot be read or changed on this instance.
    UnsupportedSetting,
    /// An instance already has this name.
    InstanceExists,
    /// No instance has this uuid.
    InstanceNotFound,
    /// A file or process operation failed.
    Io { detail: String },
    /// The persisted instance configuration cannot be read back.
    MalformedConfig { detail: String },
}

impl Error {
    pub open spec fn spec_kind(&self) -> ErrorKind {
        match self {
            Error::SettingExists => ErrorKind::AlreadyExists,
            Error::InstanceExists => ErrorKind::AlreadyExists,
            Error::SettingNotFound => ErrorKind::NotFound,
            Error::SectionNotFound => ErrorKind::NotFound,
            Error::InstanceNotFound => ErrorKind::NotFound,
            Error::Io { .. } => ErrorKind::IO,
            Error::MalformedConfig { .. } => ErrorKind::Fatal,
            _ => ErrorKind::BadRequest,
        }
    }

    /// The class of this failure.
    pub fn kind(&self) -> (r: ErrorKind)
        ensures
            r == self.spec_kind(),
    {
        match self {
            Error::SettingExists => ErrorKind::AlreadyExists,
            Error::InstanceExists => ErrorKind::AlreadyExists,
            Error::SettingNotFound => ErrorKind::NotFound,
            Error::SectionNotFound => ErrorKind::NotFound,
            Error::InstanceNotFound => ErrorKind::NotFound,
            Error::Io { .. } => ErrorKind::IO,
            Error::MalformedConfig { .. } => ErrorKind::Fatal,
            _ => ErrorKind::BadRequest,
        }
    }
}

} // verus!
