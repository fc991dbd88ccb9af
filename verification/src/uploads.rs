//! File uploads: which backend takes a file, how many may run at once, and what
//! a backend's report is worth.

use vstd::prelude::*;

use crate::bytes::{same_bytes, thirty_two};
use crate::ids::sixteen;
use crate::permits::{given_back, held, taken, UserCounts};

verus! {

/// The most uploads of one connection.
pub const MAX_UPLOADS_PER_CONNECTION: usize = 2;

/// The most uploads of one user.
pub const MAX_UPLOADS_PER_USER: usize = 4;

/// The most uploads in all.
pub const MAX_UPLOADS_GLOBAL: usize = 16;

/// The most commands that wait for an upload.
pub const UPLOAD_COMMAND_QUEUE_MESSAGES: usize = 4;

/// How long an upload may be inactive.
pub const UPLOAD_INACTIVITY_TIMEOUT_MS: u64 = 30_000;

/// How many bytes an upload's identifier has.
pub const UPLOAD_ID_BYTES: usize = 16;

/// How many bytes a SHA-256 digest has.
pub const UPLOAD_SHA256_BYTES: usize = 32;

/// Why a declaration or a chunk is refused.
#[derive(Debug, Clone, Copy, PartialEq, Eq, Structural)]
pub enum UploadValidationError {
    /// The file is larger than is allowed.
    FileTooLarge,
    /// The digest has the wrong length.
    InvalidDigest,
    /// The identifier is not this upload's.
    InvalidUploadId,
}

/// Why an upload is refused or failed.
#[derive(Debug, Clone, Copy, PartialEq, Eq, Structural)]
pub enum UploadError {
    Validation(UploadValidationError),
    /// Too many uploads run already.
    LimitExceeded,
    /// The user has no Unix account that the file could belong to.
    MissingAccount,
    /// The backend's report makes no sense.
    MalformedBackendResponse,
}

/// Who writes the files.
#[derive(Debug, Clone, PartialEq, Eq)]
pub enum Backend {
    /// The daemon itself, below a directory.
    SameUid { root: String },
    /// A spawner that writes as the user's account.
    Spawner { socket: String },
}

/// A file as a client declares it.
#[derive(Debug, Clone, PartialEq, Eq)]
pub struct UploadDeclaration {
    pub original_name: String,
    pub total_bytes: u64,
    pub sha256: Vec<u8>,
}

/// What a spawner is asked to receive.
#[derive(Debug, Clone, PartialEq, Eq)]
pub struct ReceiveUploadRequest {
    pub account: String,
    pub original_name: String,
    pub total_bytes: u64,
    pub sha256: Vec<u8>,
    pub maximum_chunk_bytes: u32,
}

/// Where an upload goes.
#[derive(Debug, Clone, PartialEq, Eq)]
pub enum UploadPlan {
    /// The daemon writes the file below a directory, from chunks up to a size.
    SameUid { root: String, declaration: UploadDeclaration, maximum_chunk_bytes: u32 },
    /// A spawner is asked to receive it.
    Spawner { socket: String, request: ReceiveUploadRequest },
}

/// Takes uploads, and counts those that run.
pub struct UploadService {
    backend: Backend,
    max_file_bytes: u64,
    counts: UserCounts,
}

/// Holds one place among the uploads of a user.
pub struct UploadPermit {
    user: String,
}

impl UploadPermit {
    /// Whose place it is.
    pub closed spec fn user(&self) -> Seq<char> {
        self.user@
    }
}

/// What a backend reports of an upload.
#[derive(Debug, Clone, PartialEq, Eq)]
pub enum UploadReply {
    Finished { upload_id: Vec<u8>, remote_path: String, bytes_written: u64, sha256: Vec<u8> },
    Other,
}

/// A file that was uploaded.
#[derive(Debug, Clone, PartialEq, Eq)]
pub struct FinishedUpload {
    pub upload_id: [u8; 16],
    pub remote_path: String,
    pub bytes_written: u64,
    pub sha256: [u8; 32],
}

/// Where a declared file goes, or why it is refused: a declaration that is not
/// valid first, and for a spawner a user without an account.
pub open spec fn planned(
    backend: Backend,
    valid: Result<(), UploadValidationError>,
    account: Option<&str>,
    declaration: UploadDeclaration,
    maximum_chunk_bytes: u32,
    r: Result<UploadPlan, UploadError>,
) -> bool {
    match (valid, backend, account) {
        (Err(fault), _, _) => r == Err::<UploadPlan, UploadError>(UploadError::Validation(fault)),
        (Ok(_), Backend::SameUid { root }, _) => {
            &&& r matches Ok(UploadPlan::SameUid { root: below, declaration: d, maximum_chunk_bytes: m })
            &&& below@ == root@
            &&& d == declaration
            &&& m == maximum_chunk_bytes
        },
        (Ok(_), Backend::Spawner { socket }, Some(name)) => {
            &&& r matches Ok(UploadPlan::Spawner { socket: at, request })
            &&& at@ == socket@
            &&& request.account@ == name@
            &&& request.original_name == declaration.original_name
            &&& request.total_bytes == declaration.total_bytes
            &&& request.sha256 == declaration.sha256
            &&& request.maximum_chunk_bytes == maximum_chunk_bytes
        },
        (Ok(_), Backend::Spawner { .. }, None) => r == Err::<UploadPlan, UploadError>(
            UploadError::MissingAccount,
        ),
    }
}

impl UploadService {
    /// Who writes the files.
    pub closed spec fn backend(&self) -> Backend {
        self.backend
    }

    /// The largest file that is taken.
    pub closed spec fn max_file_bytes(&self) -> u64 {
        self.max_file_bytes
    }

    /// How many uploads each user runs.
    pub closed spec fn active(&self) -> Map<Seq<char>, nat> {
        self.counts@
    }

    /// How many uploads run.
    pub closed spec fn total(&self) -> nat {
        self.counts.total()
    }

    /// Whether the counts are sound.
    pub closed spec fn wf(&self) -> bool {
        self.counts.wf()
    }

    /// A service that writes the files itself.
    pub fn same_uid(root: String, max_file_bytes: u64) -> (r: UploadService)
        ensures
            r.wf(),
            r.backend() == (Backend::SameUid { root }),
            r.max_file_bytes() == max_file_bytes,
            r.active() == Map::<Seq<char>, nat>::empty(),
            r.total() == 0,
    {
        UploadService {
            backend: Backend::SameUid { root },
            max_file_bytes,
            counts: UserCounts::new(),
        }
    }

    /// A service that has a spawner write the files.
    pub fn spawner(socket: String, max_file_bytes: u64) -> (r: UploadService)
        ensures
            r.wf(),
            r.backend() == (Backend::Spawner { socket }),
            r.max_file_bytes() == max_file_bytes,
            r.active() == Map::<Seq<char>, nat>::empty(),
            r.total() == 0,
    {
        UploadService {
            backend: Backend::Spawner { socket },
            max_file_bytes,
            counts: UserCounts::new(),
        }
    }

    /// Takes a place for a user's upload, unless all places are taken, or all of
    /// this user's.
    pub fn try_acquire(&mut self, user: &str) -> (r: Result<UploadPermit, UploadError>)
        requires
            old(self).wf(),
        ensures
            final(self).wf(),
            final(self).backend() == old(self).backend(),
            final(self).max_file_bytes() == old(self).max_file_bytes(),
            r is Ok <==> old(self).total() < MAX_UPLOADS_GLOBAL && held(old(self).active(), user@)
                < MAX_UPLOADS_PER_USER,
            r matches Ok(p) ==> p.user() == user@ && final(self).active() == taken(
                old(self).active(),
                user@,
            ) && final(self).total() == old(self).total() + 1,
            r matches Err(e) ==> e == UploadError::LimitExceeded && *final(self) == *old(self),
    {
        if self.counts.take(user, MAX_UPLOADS_GLOBAL, MAX_UPLOADS_PER_USER) {
            Ok(UploadPermit { user: user.to_owned() })
        } else {
            Err(UploadError::LimitExceeded)
        }
    }

    /// Gives a place back.
    pub fn release(&mut self, permit: UploadPermit)
        requires
            old(self).wf(),
        ensures
            final(self).wf(),
            final(self).backend() == old(self).backend(),
            final(self).max_file_bytes() == old(self).max_file_bytes(),
            final(self).active() == given_back(old(self).active(), permit.user()),
            final(self).total() == old(self).total() - (if old(self).active().dom().contains(
                permit.user(),
            ) {
                1int
            } else {
                0
            }),
    {
        self.counts.give_back(permit.user.as_str());
    }

    /// How many users run uploads.
    pub fn active_users(&self) -> (r: usize)
        requires
            self.wf(),
        ensures
            r == self.active().len(),
    {
        self.counts.users()
    }

    /// The size up to which a declaration is valid.
    pub fn file_limit(&self) -> (r: u64)
        ensures
            r == self.max_file_bytes(),
    {
        self.max_file_bytes
    }

    /// Where a declared file goes, or why it is refused. Whether the declaration is
    /// valid, up to the size that [`UploadService::file_limit`] gives, is known.
    pub fn begin(
        &self,
        valid: Result<(), UploadValidationError>,
        account: Option<&str>,
        declaration: UploadDeclaration,
        maximum_chunk_bytes: u32,
    ) -> (r: Result<UploadPlan, UploadError>)
        ensures
            planned(self.backend(), valid, account, declaration, maximum_chunk_bytes, r),
    {
        if let Err(fault) = valid {
            return Err(UploadError::Validation(fault));
        }
        match &self.backend {
            Backend::SameUid { root } => Ok(
                UploadPlan::SameUid {
                    root: root.as_str().to_owned(),
                    declaration,
                    maximum_chunk_bytes,
                },
            ),
            Backend::Spawner { socket } => match account {
                Some(name) => Ok(
                    UploadPlan::Spawner {
                        socket: socket.as_str().to_owned(),
                        request: ReceiveUploadRequest {
                            account: name.to_owned(),
                            original_name: declaration.original_name,
                            total_bytes: declaration.total_bytes,
                            sha256: declaration.sha256,
                            maximum_chunk_bytes,
                        },
                    },
                ),
                None => Err(UploadError::MissingAccount),
            },
        }
    }

    /// Whether this daemon removes the files that have been kept long enough.
    /// What a spawner wrote belongs to its users, and is removed with their
    /// rights.
    pub fn reaps_expired(&self) -> (r: bool)
        ensures
            r == self.backend() is SameUid,
    {
        match &self.backend {
            Backend::SameUid { .. } => true,
            Backend::Spawner { .. } => false,
        }
    }
}

/// Checks that an identifier is this upload's, before its backend is asked to
/// finish it.
pub fn check_upload_id(expected_id: &[u8], claimed_id: &[u8]) -> (r: Result<(), UploadError>)
    ensures
        r == (if claimed_id@ == expected_id@ {
            Ok::<(), UploadError>(())
        } else {
            Err(UploadError::Validation(UploadValidationError::InvalidUploadId))
        }),
{
    if same_bytes(claimed_id, expected_id) {
        Ok(())
    } else {
        Err(UploadError::Validation(UploadValidationError::InvalidUploadId))
    }
}

/// What a backend's report is worth: its identifier and digest must have the right
/// lengths.
pub open spec fn report_fits(reply: UploadReply) -> bool {
    reply matches UploadReply::Finished { upload_id, sha256, .. } && upload_id@.len()
        == UPLOAD_ID_BYTES && sha256@.len() == UPLOAD_SHA256_BYTES
}

/// Ends an upload on its backend's report.
pub fn finish(reply: UploadReply) -> (r: Result<FinishedUpload, UploadError>)
    ensures
        r is Ok <==> report_fits(reply),
        r matches Err(e) ==> e == UploadError::MalformedBackendResponse,
        r matches Ok(f) ==> (reply matches UploadReply::Finished {
            upload_id,
            remote_path,
            bytes_written,
            sha256,
        } && f.upload_id@ == upload_id@ && f.remote_path == remote_path && f.bytes_written
            == bytes_written && f.sha256@ == sha256@),
{
    match reply {
        UploadReply::Finished { upload_id, remote_path, bytes_written, sha256 } => {
            match (sixteen(upload_id.as_slice()), thirty_two(sha256.as_slice())) {
                (Some(upload_id), Some(sha256)) => Ok(
                    FinishedUpload { upload_id, remote_path, bytes_written, sha256 },
                ),
                _ => Err(UploadError::MalformedBackendResponse),
            }
        },
        UploadReply::Other => Err(UploadError::MalformedBackendResponse),
    }
}

} // verus!
