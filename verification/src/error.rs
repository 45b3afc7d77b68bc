//! The failures of the program, and what each of them says about itself.
use vstd::prelude::*;

verus! {

/// What a failure reported by the system (an I/O error, a GLib error) says
/// about itself: its message, and its short description.
#[derive(Debug)]
pub struct ExternalError {
    pub message: String,
    pub description: String,
}

/// Every way in which setting up or restoring the home directories can fail.
#[derive(Debug)]
pub enum Error {
    /// An I/O error.
    Io(ExternalError),
    /// An error reported by GLib (reading the configuration file).
    GLibError(ExternalError),
    /// The user could not be found in the system's user database.
    NoUserFound(String),
    /// The path is not a directory.
    NotDirectory(String),
    /// `rsync` failed; this is what it wrote to its standard error.
    RsyncError(String),
    /// There is no configuration file at this path.
    NoConfFileFound(String),
    /// The configuration file lists no user names.
    EmptyUsernames,
    /// There are no backup files at this path.
    NoBackupFilesFound(String),
}

/// The message that describes `e` to a reader.
pub open spec fn message_of(e: Error) -> Seq<char> {
    match e {
        Error::Io(inner) => inner.message@,
        Error::GLibError(inner) => inner.message@,
        Error::NoUserFound(username) => "Couldn't find user '"@ + username@ + "'"@,
        Error::NotDirectory(path) => path@ + " is not directory"@,
        Error::RsyncError(msg) => "Error while using `rsync` command saying: "@ + msg@,
        Error::NoConfFileFound(path) => "Couldn't find configuration file in "@ + path@
            + " , you may want to run home-keeper --help to for more info configuration"@,
        Error::EmptyUsernames => "usernames is empty in configuration file"@,
        Error::NoBackupFilesFound(path) => "Couldn't find backup files in: "@ + path@,
    }
}

/// The short description of `e`.
pub open spec fn description_of(e: Error) -> Seq<char> {
    match e {
        Error::Io(inner) => inner.description@,
        Error::GLibError(inner) => inner.description@,
        Error::NoUserFound(_) => "Username not found"@,
        Error::NotDirectory(_) => "Path is not directory"@,
        Error::RsyncError(_) => "Error while using `rsync` command"@,
        Error::NoConfFileFound(_) => "Configuration file not found"@,
        Error::EmptyUsernames => "usernames is empty"@,
        Error::NoBackupFilesFound(_) => "Backup files not found"@,
    }
}

/// `prefix` followed by `rest`, as a new string.
fn joined(prefix: &str, rest: &str) -> (r: String)
    ensures
        r@ == prefix@ + rest@,
{
    let mut r = String::from_str(prefix);
    r.append(rest);
    r
}

impl Error {
    /// The message that describes this error to a reader.
    pub fn message(&self) -> (r: String)
        ensures
            r@ == message_of(*self),
    {
        match self {
            Error::Io(inner) => inner.message.clone(),
            Error::GLibError(inner) => inner.message.clone(),
            Error::NoUserFound(username) => {
                let mut r = joined("Couldn't find user '", username.as_str());
                r.append("'");
                r
            },
            Error::NotDirectory(path) => joined(path.as_str(), " is not directory"),
            Error::RsyncError(msg) => joined(
                "Error while using `rsync` command saying: ",
                msg.as_str(),
            ),
            Error::NoConfFileFound(path) => {
                let mut r = joined("Couldn't find configuration file in ", path.as_str());
                r.append(" , you may want to run home-keeper --help to for more info configuration");
                r
            },
            Error::EmptyUsernames => String::from_str("usernames is empty in configuration file"),
            Error::NoBackupFilesFound(path) => joined(
                "Couldn't find backup files in: ",
                path.as_str(),
            ),
        }
    }

    /// The short description of this error.
    pub fn description(&self) -> (r: &str)
        ensures
            r@ == description_of(*self),
    {
        match self {
            Error::Io(inner) => inner.description.as_str(),
            Error::GLibError(inner) => inner.description.as_str(),
            Error::NoUserFound(_) => "Username not found",
            Error::NotDirectory(_) => "Path is not directory",
            Error::RsyncError(_) => "Error while using `rsync` command",
            Error::NoConfFileFound(_) => "Configuration file not found",
            Error::EmptyUsernames => "usernames is empty",
            Error::NoBackupFilesFound(_) => "Backup files not found",
        }
    }

    /// The failure of the system that lies beneath this error, if there is one.
    pub fn cause(&self) -> (r: Option<&ExternalError>)
        ensures
            match *self {
                Error::Io(inner) => r == Some(&inner),
                Error::GLibError(inner) => r == Some(&inner),
                _ => r is None,
            },
    {
        match self {
            Error::Io(inner) => Some(inner),
            Error::GLibError(inner) => Some(inner),
            _ => None,
        }
    }
}

} // verus!
