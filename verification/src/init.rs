//! Project bootstrap: turning an empty directory into a versioned store
//! holding the initial descriptor and a genesis commit. The filesystem and
//! version-control work happens outside; this module decides. A driver asks
//! `next_action` what to perform, performs it, and reports what happened
//! through `handle`; the state advances `NotStarted → FolderPrepared →
//! DescriptorWritten → RepositoryInitialized → Committed`, and any reported
//! failure lands in the terminal `Failed` state with the exact error, never
//! silently mistakable for success.

use vstd::prelude::*;

use crate::codec::{enc_project, encode_project};
use crate::error::Error;
use crate::keys;
use crate::project_types::{initial_project, Project};

verus! {

/// Where the bootstrap stands. `Committed` and `Failed` are terminal.
#[derive(Debug, Clone, PartialEq, Eq)]
pub enum InitState {
    NotStarted,
    FolderPrepared,
    DescriptorWritten,
    RepositoryInitialized,
    Committed,
    Failed(Error),
}

/// What the driver must perform next.
#[derive(Debug, Clone, Copy, PartialEq, Eq, Structural)]
pub enum InitAction {
    /// Create the root if absent and count the entries it holds.
    PrepareFolder,
    /// Write the descriptor text at its fixed path under the root.
    WriteDescriptor,
    /// Initialize a version-control repository at the root.
    InitRepository,
    /// Create the genesis commit holding exactly the descriptor.
    CommitDescriptor,
    /// Nothing: a terminal state was reached.
    Done,
}

/// What the driver observed while performing the pending action.
#[derive(Debug, Clone, PartialEq, Eq)]
pub enum InitEvent {
    /// The root exists and holds this many entries.
    FolderChecked(usize),
    /// The root could not be created or read, with the diagnostic.
    FolderFailed(String),
    /// The descriptor file is in place.
    DescriptorStored,
    /// The descriptor file could not be written.
    DescriptorFailed(String),
    /// The repository exists.
    RepositoryReady,
    /// The repository could not be initialized.
    RepositoryFailed(String),
    /// The genesis commit exists.
    CommitDone,
    /// The commit could not be created.
    CommitFailed(String),
}

/// The action each state calls for.
pub open spec fn action_of(state: InitState) -> InitAction {
    match state {
        InitState::NotStarted => InitAction::PrepareFolder,
        InitState::FolderPrepared => InitAction::WriteDescriptor,
        InitState::DescriptorWritten => InitAction::InitRepository,
        InitState::RepositoryInitialized => InitAction::CommitDescriptor,
        InitState::Committed => InitAction::Done,
        InitState::Failed(_) => InitAction::Done,
    }
}

/// Whether `event` can answer the action that `state` calls for.
pub open spec fn expects(state: InitState, event: InitEvent) -> bool {
    match (state, event) {
        (InitState::NotStarted, InitEvent::FolderChecked(_)) => true,
        (InitState::NotStarted, InitEvent::FolderFailed(_)) => true,
        (InitState::FolderPrepared, InitEvent::DescriptorStored) => true,
        (InitState::FolderPrepared, InitEvent::DescriptorFailed(_)) => true,
        (InitState::DescriptorWritten, InitEvent::RepositoryReady) => true,
        (InitState::DescriptorWritten, InitEvent::RepositoryFailed(_)) => true,
        (InitState::RepositoryInitialized, InitEvent::CommitDone) => true,
        (InitState::RepositoryInitialized, InitEvent::CommitFailed(_)) => true,
        _ => false,
    }
}

/// One bootstrap in progress: the root it works at, the descriptor text it
/// will persist, and where it stands.
#[derive(Debug, Clone, PartialEq, Eq)]
pub struct ProjectInit {
    pub root: String,
    pub descriptor: String,
    pub state: InitState,
}

impl ProjectInit {
    /// Begins a bootstrap: validates the administrator key and fixes the
    /// descriptor as the canonical encoding of the initial project. Nothing
    /// has touched the filesystem yet.
    pub fn new(root: &str, admin_pub_key: &str) -> (r: Result<ProjectInit, Error>)
        requires
            keys::fits_key_buffer(admin_pub_key),
        ensures
            match r {
                Ok(pi) => keys::is_valid_rsa_pem(admin_pub_key@) && pi.root@ == root@
                    && pi.descriptor@ == enc_project(initial_project(admin_pub_key@))
                    && pi.state == InitState::NotStarted,
                Err(e) => !keys::is_valid_rsa_pem(admin_pub_key@)
                    && (e matches Error::InvalidPublicKey(k) && k@ == admin_pub_key@),
            },
    {
        let proj = match Project::empty(admin_pub_key) {
            Ok(p) => p,
            Err(e) => {
                return Err(e);
            },
        };
        let descriptor = encode_project(&proj);
        Ok(ProjectInit { root: root.to_owned(), descriptor, state: InitState::NotStarted })
    }

    /// The action the driver must perform next.
    pub fn next_action(&self) -> (r: InitAction)
        ensures
            r == action_of(self.state),
    {
        match &self.state {
            InitState::NotStarted => InitAction::PrepareFolder,
            InitState::FolderPrepared => InitAction::WriteDescriptor,
            InitState::DescriptorWritten => InitAction::InitRepository,
            InitState::RepositoryInitialized => InitAction::CommitDescriptor,
            InitState::Committed => InitAction::Done,
            InitState::Failed(_) => InitAction::Done,
        }
    }

    /// Advances on what the driver observed. Success events move to the next
    /// stage; a non-empty root fails with `FolderNotEmpty` carrying the root
    /// and the count (at least one); failure reports land in `Failed` with
    /// the filesystem cause as `Io` and the version-control cause as `Git`.
    pub fn handle(&mut self, event: InitEvent)
        requires
            expects(old(self).state, event),
        ensures
            final(self).root == old(self).root,
            final(self).descriptor == old(self).descriptor,
            match event {
                InitEvent::FolderChecked(n) => if n == 0 {
                    final(self).state == InitState::FolderPrepared
                } else {
                    &&& final(self).state matches InitState::Failed(e)
                    &&& e matches Error::FolderNotEmpty(r, m) && r@ == old(self).root@ && m == n
                        && m >= 1
                },
                InitEvent::FolderFailed(m) => final(self).state matches InitState::Failed(e)
                    && (e matches Error::Io(d) && d == m),
                InitEvent::DescriptorStored => final(self).state
                    == InitState::DescriptorWritten,
                InitEvent::DescriptorFailed(m) => final(self).state matches InitState::Failed(e)
                    && (e matches Error::Io(d) && d == m),
                InitEvent::RepositoryReady => final(self).state
                    == InitState::RepositoryInitialized,
                InitEvent::RepositoryFailed(m) => final(self).state matches InitState::Failed(e)
                    && (e matches Error::Git(d) && d == m),
                InitEvent::CommitDone => final(self).state == InitState::Committed,
                InitEvent::CommitFailed(m) => final(self).state matches InitState::Failed(e)
                    && (e matches Error::Git(d) && d == m),
            },
    {
        match event {
            InitEvent::FolderChecked(n) => {
                if n == 0 {
                    self.state = InitState::FolderPrepared;
                } else {
                    self.state = InitState::Failed(
                        Error::FolderNotEmpty(self.root.clone(), n),
                    );
                }
            },
            InitEvent::FolderFailed(m) => {
                self.state = InitState::Failed(Error::Io(m));
            },
            InitEvent::DescriptorStored => {
                self.state = InitState::DescriptorWritten;
            },
            InitEvent::DescriptorFailed(m) => {
                self.state = InitState::Failed(Error::Io(m));
            },
            InitEvent::RepositoryReady => {
                self.state = InitState::RepositoryInitialized;
            },
            InitEvent::RepositoryFailed(m) => {
                self.state = InitState::Failed(Error::Git(m));
            },
            InitEvent::CommitDone => {
                self.state = InitState::Committed;
            },
            InitEvent::CommitFailed(m) => {
                self.state = InitState::Failed(Error::Git(m));
            },
        }
    }
}

/// The folder-emptiness rule of the bootstrap: a root holding anything at
/// all is refused with the exact count. The filesystem half — creating the
/// folder and counting its entries — lives with the caller, which hands the
/// observed count in.
pub fn make_project_folder(root: &str, file_count: usize) -> (r: Result<(), Error>)
    ensures
        match r {
            Ok(()) => file_count == 0,
            Err(e) => file_count >= 1 && (e matches Error::FolderNotEmpty(rt, n) && rt@ == root@
                && n == file_count),
        },
{
    if file_count == 0 {
        Ok(())
    } else {
        Err(Error::FolderNotEmpty(root.to_owned(), file_count))
    }
}

/// The descriptor text a fresh project persists: the canonical encoding of
/// the initial project for this administrator. Fails exactly when the key is
/// invalid; writing the file is the caller's part.
pub fn make_protonfile(admin_pub_key: &str) -> (r: Result<String, Error>)
    requires
        keys::fits_key_buffer(admin_pub_key),
    ensures
        match r {
            Ok(s) => keys::is_valid_rsa_pem(admin_pub_key@) && s@ == enc_project(
                initial_project(admin_pub_key@),
            ),
            Err(e) => !keys::is_valid_rsa_pem(admin_pub_key@)
                && (e matches Error::InvalidPublicKey(k) && k@ == admin_pub_key@),
        },
{
    let proj = match Project::empty(admin_pub_key) {
        Ok(p) => p,
        Err(e) => {
            return Err(e);
        },
    };
    Ok(encode_project(&proj))
}

} // verus!
