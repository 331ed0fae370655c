//! The error taxonomy shared by every core operation. No error is silently
//! swallowed: each operation returns a `Result` the caller must inspect, and
//! `TodoErr` explicitly marks a not-yet-built command so it can never be
//! mistaken for success.

use vstd::prelude::*;
use vstd::string::StringExecFns;

use crate::permission::Permission;

verus! {

/// Everything a core operation can fail with. I/O, version-control and
/// storage causes are carried as plain diagnostic strings; the scoped
/// variants carry the values a caller or a test needs to distinguish the
/// cases.
#[derive(Clone, Debug, PartialEq, Eq)]
pub enum Error {
    /// An I/O failure at the filesystem edge, with its diagnostic.
    Io(String),
    /// A version-control failure below "create a root commit".
    Git(String),
    /// The descriptor text is not a canonical project encoding.
    JsonDecode,
    /// The bootstrap root held this many files when it had to be empty.
    FolderNotEmpty(String, usize),
    /// The given text does not parse as a PEM-encoded RSA public key.
    InvalidPublicKey(String),
    /// The stored project descriptor could not be loaded.
    LoadProjectError,
    /// A user with this public key and name already exists (key first,
    /// name second; either field alone may be the conflict).
    DuplicateUser(String, String),
    /// No user owns the given public key.
    UserNotFound,
    /// The caller holds none of these acceptable permissions.
    AuthorizationDenied(Vec<Permission>),
    /// The storage backend failed, with its cause.
    StorageError(String),
    /// Explicit marker for a not-yet-built command.
    TodoErr,
}

/// The one-line description of each error variant.
pub open spec fn description_of(e: Error) -> Seq<char> {
    match e {
        Error::Io(_) => "IO error occurred"@,
        Error::Git(_) => "Libgit2 error occurred"@,
        Error::JsonDecode => "Json decoding error occurred"@,
        Error::FolderNotEmpty(_, _) => "Root folder was not empty"@,
        Error::InvalidPublicKey(_) => "Invalid public key"@,
        Error::LoadProjectError => "Loading project failed"@,
        Error::DuplicateUser(_, _) => "User already exists"@,
        Error::UserNotFound => "User not found"@,
        Error::AuthorizationDenied(_) => "Required permissions not held"@,
        Error::StorageError(_) => "Storage backend failed"@,
        Error::TodoErr => "Todo"@,
    }
}

/// The full diagnostic of each error variant, payloads rendered: the root
/// and count of a non-empty folder, the name and key of a duplicate user,
/// the offending key, and each carried cause.
pub open spec fn message_of(e: Error) -> Seq<char> {
    match e {
        Error::Io(d) => "IO error occurred: "@ + d@,
        Error::Git(d) => "Libgit2 error occurred: "@ + d@,
        Error::JsonDecode => "Json decoding error occurred"@,
        Error::FolderNotEmpty(root, n) => root@ + " was not empty: "@
            + crate::codec::enc_nat(n as nat) + " files exist"@,
        Error::InvalidPublicKey(k) => "Public key '"@ + k@ + "' is invalid"@,
        Error::LoadProjectError => "Loading project failed"@,
        Error::DuplicateUser(k, u) => "User '"@ + u@ + "' with key '"@ + k@
            + "' already exists"@,
        Error::UserNotFound => "User not found"@,
        Error::AuthorizationDenied(_) => "Required permissions not held"@,
        Error::StorageError(d) => "Storage backend failed: "@ + d@,
        Error::TodoErr => "TodoErr"@,
    }
}

impl Error {
    /// The full diagnostic of the error, payloads included, for the command
    /// surface to print.
    pub fn message(&self) -> (r: String)
        ensures
            r@ == message_of(*self),
    {
        match self {
            Error::Io(d) => {
                let mut out = String::from_str("IO error occurred: ");
                out.append(d.as_str());
                out
            },
            Error::Git(d) => {
                let mut out = String::from_str("Libgit2 error occurred: ");
                out.append(d.as_str());
                out
            },
            Error::JsonDecode => String::from_str("Json decoding error occurred"),
            Error::FolderNotEmpty(root, n) => {
                let mut out = root.clone();
                out.append(" was not empty: ");
                let num = crate::codec::u64_to_string(*n as u64);
                out.append(num.as_str());
                out.append(" files exist");
                proof {
                    assert(out@ =~= message_of(*self));
                }
                out
            },
            Error::InvalidPublicKey(k) => {
                let mut out = String::from_str("Public key '");
                out.append(k.as_str());
                out.append("' is invalid");
                proof {
                    assert(out@ =~= message_of(*self));
                }
                out
            },
            Error::LoadProjectError => String::from_str("Loading project failed"),
            Error::DuplicateUser(k, u) => {
                let mut out = String::from_str("User '");
                out.append(u.as_str());
                out.append("' with key '");
                out.append(k.as_str());
                out.append("' already exists");
                proof {
                    assert(out@ =~= message_of(*self));
                }
                out
            },
            Error::UserNotFound => String::from_str("User not found"),
            Error::AuthorizationDenied(_) => String::from_str("Required permissions not held"),
            Error::StorageError(d) => {
                let mut out = String::from_str("Storage backend failed: ");
                out.append(d.as_str());
                out
            },
            Error::TodoErr => String::from_str("TodoErr"),
        }
    }

    /// A one-line description of the error, for diagnostics.
    pub fn description(&self) -> (r: String)
        ensures
            r@ == description_of(*self),
    {
        match self {
            Error::Io(_) => String::from_str("IO error occurred"),
            Error::Git(_) => String::from_str("Libgit2 error occurred"),
            Error::JsonDecode => String::from_str("Json decoding error occurred"),
            Error::FolderNotEmpty(_, _) => String::from_str("Root folder was not empty"),
            Error::InvalidPublicKey(_) => String::from_str("Invalid public key"),
            Error::LoadProjectError => String::from_str("Loading project failed"),
            Error::DuplicateUser(_, _) => String::from_str("User already exists"),
            Error::UserNotFound => String::from_str("User not found"),
            Error::AuthorizationDenied(_) => String::from_str("Required permissions not held"),
            Error::StorageError(_) => String::from_str("Storage backend failed"),
            Error::TodoErr => String::from_str("Todo"),
        }
    }
}

} // verus!
