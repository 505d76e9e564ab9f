//! Sending of a local file, or of a whole local directory, to a remote host.
//!
//! An [`Upload`] decides what has to be done next and is told how it turned out. It never touches a
//! file itself.

use vstd::prelude::*;
use vstd::slice::slice_to_vec;

use crate::path::{file_name, is_entry_name, join, sanitize_sftp_path};
use crate::transfer::{place, FileStatus, TransferError};

verus! {

/// What an upload is waiting for.
#[derive(Debug, PartialEq, Eq)]
pub enum UploadStage<P> {
    /// The local file or directory `source` has to be opened; it goes to `target`.
    Open { source: P, target: P },
    /// The remote path has to be examined, to find out where `source` goes.
    Place { source: P, name: P, remote: P, directory: bool },
    /// The remote path has to be examined, to find out whether it can be used as a directory.
    Check { source: P, remote: P },
    /// The remote directory has to be created.
    MakeDirectory { source: P, remote: P },
    /// The local directory `source` has to be opened for listing.
    List { source: P, remote: P },
    /// The file opened last, called `name`, has to be sent to the remote path.
    Send { name: P, remote: P },
    /// The next entry of the directory listed last has to be read.
    NextEntry,
    /// Everything has been sent.
    Done,
    /// The upload cannot go on.
    Failed { error: TransferError },
}

/// How the work that an upload was waiting for turned out.
#[derive(Debug, PartialEq, Eq)]
pub enum UploadEvent<P> {
    /// A local file or directory was opened.
    Opened { directory: bool },
    /// A remote path was examined.
    Examined { status: FileStatus },
    /// A remote directory was created.
    Created,
    /// A local directory was opened for listing.
    Listed,
    /// An entry of the directory listed last was read.
    Entry { name: P },
    /// There is no further entry in the directory listed last, which is closed.
    EndOfDirectory,
    /// A file was sent.
    Sent,
}

/// A directory that is being sent.
#[derive(Debug, PartialEq, Eq)]
pub struct Folder<P> {
    pub local: P,
    pub remote: P,
}

impl View for UploadStage<Vec<u8>> {
    type V = UploadStage<Seq<u8>>;

    open spec fn view(&self) -> UploadStage<Seq<u8>> {
        match *self {
            UploadStage::Open { source, target } => UploadStage::Open {
                source: source@,
                target: target@,
            },
            UploadStage::Place { source, name, remote, directory } => UploadStage::Place {
                source: source@,
                name: name@,
                remote: remote@,
                directory,
            },
            UploadStage::Check { source, remote } => UploadStage::Check {
                source: source@,
                remote: remote@,
            },
            UploadStage::MakeDirectory { source, remote } => UploadStage::MakeDirectory {
                source: source@,
                remote: remote@,
            },
            UploadStage::List { source, remote } => UploadStage::List {
                source: source@,
                remote: remote@,
            },
            UploadStage::Send { name, remote } => UploadStage::Send {
                name: name@,
                remote: remote@,
            },
            UploadStage::NextEntry => UploadStage::NextEntry,
            UploadStage::Done => UploadStage::Done,
            UploadStage::Failed { error } => UploadStage::Failed { error },
        }
    }
}

impl View for UploadEvent<Vec<u8>> {
    type V = UploadEvent<Seq<u8>>;

    open spec fn view(&self) -> UploadEvent<Seq<u8>> {
        match *self {
            UploadEvent::Opened { directory } => UploadEvent::Opened { directory },
            UploadEvent::Examined { status } => UploadEvent::Examined { status },
            UploadEvent::Created => UploadEvent::Created,
            UploadEvent::Listed => UploadEvent::Listed,
            UploadEvent::Entry { name } => UploadEvent::Entry { name: name@ },
            UploadEvent::EndOfDirectory => UploadEvent::EndOfDirectory,
            UploadEvent::Sent => UploadEvent::Sent,
        }
    }
}

impl View for Folder<Vec<u8>> {
    type V = Folder<Seq<u8>>;

    open spec fn view(&self) -> Folder<Seq<u8>> {
        Folder { local: self.local@, remote: self.remote@ }
    }
}

/// The state of an upload.
#[verifier::ext_equal]
pub struct UploadState {
    /// The directories that are being sent, the innermost last.
    pub folders: Seq<Folder<Seq<u8>>>,
    /// What the upload is waiting for.
    pub stage: UploadStage<Seq<u8>>,
}

impl UploadState {
    /// The state in which the upload of `source` to `target` starts.
    pub open spec fn start(source: Seq<u8>, target: Seq<u8>) -> UploadState {
        UploadState { folders: Seq::empty(), stage: UploadStage::Open { source, target } }
    }

    /// Whether entries are only awaited while a directory is being sent.
    pub open spec fn wf(self) -> bool {
        self.stage is NextEntry ==> self.folders.len() > 0
    }

    /// Whether an event is one that the upload is waiting for.
    pub open spec fn accepts(self, event: UploadEvent<Seq<u8>>) -> bool {
        match (self.stage, event) {
            (UploadStage::Open { source, target }, UploadEvent::Opened { directory }) =>
                crate::path::path_file_name(source) is Some,
            (
                UploadStage::Place { source, name, remote, directory },
                UploadEvent::Examined { status },
            ) => true,
            (UploadStage::Check { source, remote }, UploadEvent::Examined { status }) => true,
            (UploadStage::MakeDirectory { source, remote }, UploadEvent::Created) => true,
            (UploadStage::List { source, remote }, UploadEvent::Listed) => true,
            (UploadStage::Send { name, remote }, UploadEvent::Sent) => true,
            (UploadStage::NextEntry, UploadEvent::Entry { name }) => crate::path::is_file_name(
                name,
            ),
            (UploadStage::NextEntry, UploadEvent::EndOfDirectory) => true,
            _ => false,
        }
    }

    /// The text that tells why the upload cannot go on after an event, if it cannot.
    pub open spec fn refusal(self, event: UploadEvent<Seq<u8>>) -> Option<Seq<char>> {
        if self.accepts(event) {
            None
        } else {
            match (self.stage, event) {
                (UploadStage::Open { source, target }, UploadEvent::Opened { directory }) => Some(
                    if directory {
                        "invalid directory name"@
                    } else {
                        "invalid file name"@
                    },
                ),
                (UploadStage::NextEntry, UploadEvent::Entry { name }) => Some(
                    "could not retrieve file name"@,
                ),
                _ => Some("unexpected event"@),
            }
        }
    }

    /// The state that waits for the next entry of the innermost of `folders`.
    pub open spec fn resume(folders: Seq<Folder<Seq<u8>>>) -> UploadState {
        if folders.len() == 0 {
            UploadState { folders, stage: UploadStage::Done }
        } else {
            UploadState { folders, stage: UploadStage::NextEntry }
        }
    }

    /// The state after an event.
    pub open spec fn next(self, event: UploadEvent<Seq<u8>>) -> UploadState {
        match (self.stage, event) {
            (UploadStage::Open { source, target }, UploadEvent::Opened { directory }) => {
                let name = crate::path::path_file_name(source)->0;
                let remote = crate::path::sanitized(target);
                UploadState {
                    stage: UploadStage::Place { source, name, remote, directory },
                    ..self
                }
            },
            (
                UploadStage::Place { source, name, remote, directory },
                UploadEvent::Examined { status },
            ) => {
                let remote = crate::transfer::placed(remote, status, name);
                let stage = if directory {
                    UploadStage::Check { source, remote }
                } else {
                    UploadStage::Send { name, remote }
                };
                UploadState { stage, ..self }
            },
            (UploadStage::Check { source, remote }, UploadEvent::Examined { status }) => {
                let stage = match status {
                    FileStatus::File => UploadStage::Failed { error: TransferError::NotADirectory },
                    FileStatus::Missing => UploadStage::MakeDirectory { source, remote },
                    FileStatus::Directory => UploadStage::List { source, remote },
                };
                UploadState { stage, ..self }
            },
            (UploadStage::MakeDirectory { source, remote }, UploadEvent::Created) => {
                UploadState { stage: UploadStage::List { source, remote }, ..self }
            },
            (UploadStage::List { source, remote }, UploadEvent::Listed) => {
                UploadState::resume(self.folders.push(Folder { local: source, remote }))
            },
            (UploadStage::Send { name, remote }, UploadEvent::Sent) => {
                UploadState::resume(self.folders)
            },
            (UploadStage::NextEntry, UploadEvent::Entry { name }) => {
                let folder = self.folders.last();
                let source = crate::path::joined(folder.local, name);
                let target = crate::path::joined(folder.remote, name);
                UploadState { stage: UploadStage::Open { source, target }, ..self }
            },
            (UploadStage::NextEntry, UploadEvent::EndOfDirectory) => {
                UploadState::resume(self.folders.drop_last())
            },
            _ => self,
        }
    }
}

/// The upload of a local file or directory.
#[derive(Debug, PartialEq, Eq)]
pub struct Upload {
    folders: Vec<Folder<Vec<u8>>>,
    stage: UploadStage<Vec<u8>>,
}

impl View for Upload {
    type V = UploadState;

    closed spec fn view(&self) -> UploadState {
        UploadState {
            folders: self.folders@.map_values(|folder: Folder<Vec<u8>>| folder@),
            stage: self.stage@,
        }
    }
}

impl Upload {
    #[verifier::type_invariant]
    spec fn is_consistent(&self) -> bool {
        self.stage is NextEntry ==> self.folders@.len() > 0
    }

    /// Starts the upload of `source` to the remote path `target`.
    pub fn new(source: &[u8], target: &[u8]) -> (upload: Upload)
        ensures
            upload@ == UploadState::start(source@, target@),
            upload@.wf(),
    {
        let upload = Upload {
            folders: Vec::new(),
            stage: UploadStage::Open { source: slice_to_vec(source), target: slice_to_vec(target) },
        };
        assert(upload@ =~= UploadState::start(source@, target@));
        upload
    }

    /// Returns what the upload is waiting for.
    pub fn stage(&self) -> (stage: &UploadStage<Vec<u8>>)
        ensures
            stage@ == self@.stage,
    {
        &self.stage
    }

    /// Tells whether the upload is waiting for an event of this kind.
    ///
    /// It does not take an event about a source without a file name, nor an entry whose name is not
    /// the name of a file.
    pub fn accepts(&self, event: &UploadEvent<Vec<u8>>) -> (yes: bool)
        ensures
            yes == self@.accepts(event@),
    {
        match (&self.stage, event) {
            (UploadStage::Open { source, target }, UploadEvent::Opened { directory }) => file_name(
                source.as_slice(),
            ).is_some(),
            (
                UploadStage::Place { source, name, remote, directory },
                UploadEvent::Examined { status },
            ) => true,
            (UploadStage::Check { source, remote }, UploadEvent::Examined { status }) => true,
            (UploadStage::MakeDirectory { source, remote }, UploadEvent::Created) => true,
            (UploadStage::List { source, remote }, UploadEvent::Listed) => true,
            (UploadStage::Send { name, remote }, UploadEvent::Sent) => true,
            (UploadStage::NextEntry, UploadEvent::Entry { name }) => is_entry_name(name.as_slice()),
            (UploadStage::NextEntry, UploadEvent::EndOfDirectory) => true,
            _ => false,
        }
    }

    /// Returns the text that tells why the upload cannot go on after an event, if it cannot.
    pub fn refusal(&self, event: &UploadEvent<Vec<u8>>) -> (refusal: Option<&'static str>)
        ensures
            match refusal {
                Some(refusal) => self@.refusal(event@) == Some(refusal@),
                None => self@.refusal(event@) is None,
            },
    {
        if self.accepts(event) {
            return None;
        }
        match (&self.stage, event) {
            (UploadStage::Open { source, target }, UploadEvent::Opened { directory }) => Some(
                if *directory {
                    "invalid directory name"
                } else {
                    "invalid file name"
                },
            ),
            (UploadStage::NextEntry, UploadEvent::Entry { name }) => Some(
                "could not retrieve file name",
            ),
            _ => Some("unexpected event"),
        }
    }

    fn resume(&mut self, folders: Vec<Folder<Vec<u8>>>)
        requires
            old(self)@.stage is Done,
        ensures
            final(self)@ == UploadState::resume(
                folders@.map_values(|folder: Folder<Vec<u8>>| folder@),
            ),
    {
        let empty = folders.len() == 0;
        self.folders = folders;
        self.stage = if empty {
            UploadStage::Done
        } else {
            UploadStage::NextEntry
        };
    }

    /// Goes on after an event.
    pub fn step(&mut self, event: UploadEvent<Vec<u8>>)
        requires
            old(self)@.accepts(event@),
        ensures
            final(self)@ == old(self)@.next(event@),
            final(self)@.wf(),
    {
        proof {
            use_type_invariant(&*self);
        }
        let mut stage = UploadStage::Done;
        std::mem::swap(&mut stage, &mut self.stage);
        match stage {
            UploadStage::Open { source, target } => {
                let directory = match event {
                    UploadEvent::Opened { directory } => directory,
                    _ => false,
                };
                let name = file_name(source.as_slice()).unwrap();
                // Prepare the remote path to be handled correctly by the server
                let remote = sanitize_sftp_path(target.as_slice());
                self.stage = UploadStage::Place { source, name, remote, directory };
            },
            UploadStage::Place { source, name, remote, directory } => {
                let status = match event {
                    UploadEvent::Examined { status } => status,
                    _ => FileStatus::Missing,
                };
                let remote = place(remote.as_slice(), status, name.as_slice());
                self.stage = if directory {
                    UploadStage::Check { source, remote }
                } else {
                    UploadStage::Send { name, remote }
                };
            },
            UploadStage::Check { source, remote } => {
                let status = match event {
                    UploadEvent::Examined { status } => status,
                    _ => FileStatus::Missing,
                };
                self.stage = match status {
                    FileStatus::File => UploadStage::Failed { error: TransferError::NotADirectory },
                    FileStatus::Missing => UploadStage::MakeDirectory { source, remote },
                    FileStatus::Directory => UploadStage::List { source, remote },
                };
            },
            UploadStage::MakeDirectory { source, remote } => {
                self.stage = UploadStage::List { source, remote };
            },
            UploadStage::List { source, remote } => {
                let ghost before = self@.folders;
                let mut folders: Vec<Folder<Vec<u8>>> = Vec::new();
                std::mem::swap(&mut folders, &mut self.folders);
                folders.push(Folder { local: source, remote });
                self.resume(folders);
                assert(self@.folders =~= before.push(Folder { local: source@, remote: remote@ }));
            },
            UploadStage::Send { name, remote } => {
                let mut folders: Vec<Folder<Vec<u8>>> = Vec::new();
                std::mem::swap(&mut folders, &mut self.folders);
                self.resume(folders);
            },
            UploadStage::NextEntry => {
                match event {
                    UploadEvent::Entry { name } => {
                        let folder = &self.folders[self.folders.len() - 1];
                        let source = join(folder.local.as_slice(), name.as_slice());
                        let target = join(folder.remote.as_slice(), name.as_slice());
                        self.stage = UploadStage::Open { source, target };
                    },
                    _ => {
                        let ghost before = self@.folders;
                        let mut folders: Vec<Folder<Vec<u8>>> = Vec::new();
                        std::mem::swap(&mut folders, &mut self.folders);
                        let _ = folders.pop();
                        self.resume(folders);
                        assert(self@.folders =~= before.drop_last());
                    },
                }
            },
            UploadStage::Done => {},
            UploadStage::Failed { error } => {},
        }
    }
}

impl UploadState {
    /// Whether every local path that the upload deals with is within `source`, and every remote
    /// path within `target`.
    pub open spec fn is_within(self, source: Seq<u8>, target: Seq<u8>) -> bool {
        let remote_base = crate::path::sanitized(target);
        &&& forall|i: int|
            #![trigger self.folders[i]]
            0 <= i < self.folders.len() ==> {
                &&& crate::path::is_within(source, self.folders[i].local)
                &&& crate::path::is_within(remote_base, self.folders[i].remote)
            }
        &&& match self.stage {
            UploadStage::Open { source: local, target: remote } => {
                &&& crate::path::is_within(source, local)
                &&& crate::path::is_within(remote_base, crate::path::sanitized(remote))
            },
            UploadStage::Place { source: local, name, remote, directory } => {
                &&& crate::path::is_within(source, local)
                &&& crate::path::is_within(remote_base, remote)
                &&& crate::path::is_file_name(name)
            },
            UploadStage::Check { source: local, remote } => {
                &&& crate::path::is_within(source, local)
                &&& crate::path::is_within(remote_base, remote)
            },
            UploadStage::MakeDirectory { source: local, remote } => {
                &&& crate::path::is_within(source, local)
                &&& crate::path::is_within(remote_base, remote)
            },
            UploadStage::List { source: local, remote } => {
                &&& crate::path::is_within(source, local)
                &&& crate::path::is_within(remote_base, remote)
            },
            UploadStage::Send { name, remote } => crate::path::is_within(remote_base, remote),
            UploadStage::NextEntry => true,
            UploadStage::Done => true,
            UploadStage::Failed { error } => true,
        }
    }
}

/// An upload starts within its source and its target.
pub proof fn law_upload_starts_within(source: Seq<u8>, target: Seq<u8>)
    ensures
        UploadState::start(source, target).is_within(source, target),
{
}

/// Whatever entries the directories hold and whatever is found on the remote host, an upload never
/// reads a local path outside its source, and never examines, creates or writes a remote path
/// outside its target.
pub proof fn law_upload_stays_within(
    state: UploadState,
    event: UploadEvent<Seq<u8>>,
    source: Seq<u8>,
    target: Seq<u8>,
)
    requires
        state.wf(),
        state.accepts(event),
        state.is_within(source, target),
    ensures
        state.next(event).is_within(source, target),
{
    let next = state.next(event);
    match (state.stage, event) {
        (
            UploadStage::Place { source: local, name, remote, directory },
            UploadEvent::Examined { status },
        ) => {
            crate::path::law_joined_within(crate::path::sanitized(target), remote, name);
        },
        (UploadStage::NextEntry, UploadEvent::Entry { name }) => {
            let folder = state.folders.last();
            crate::path::law_joined_within(source, folder.local, name);
            crate::path::law_joined_within(crate::path::sanitized(target), folder.remote, name);
            crate::path::law_sanitized_joined(target, folder.remote, name);
        },
        _ => {},
    }
}

/// A single file is sent under its own name into the target if that is a directory, and to the
/// target itself if it is not.
pub proof fn law_upload_of_file(source: Seq<u8>, target: Seq<u8>, status: FileStatus)
    requires
        crate::path::path_file_name(source) is Some,
    ensures
        ({
            let name = crate::path::path_file_name(source)->0;
            let opened = UploadState::start(source, target).next(
                UploadEvent::Opened { directory: false },
            );
            let ready = opened.next(UploadEvent::Examined { status });
            &&& opened.stage == UploadStage::Place {
                source,
                name,
                remote: crate::path::sanitized(target),
                directory: false,
            }
            &&& ready.stage == UploadStage::Send {
                name,
                remote: crate::transfer::placed(crate::path::sanitized(target), status, name),
            }
            &&& ready.next(UploadEvent::Sent).stage == UploadStage::<Seq<u8>>::Done
        }),
{
}

/// An entry of a directory that is being sent goes to the path of the same name in the remote
/// directory, whether it is a file or a directory itself.
pub proof fn law_upload_of_entry(
    state: UploadState,
    name: Seq<u8>,
    directory: bool,
    source: Seq<u8>,
    target: Seq<u8>,
)
    requires
        state.wf(),
        state.is_within(source, target),
        state.stage is NextEntry,
        crate::path::is_file_name(name),
    ensures
        ({
            let folder = state.folders.last();
            let entry = state.next(UploadEvent::Entry { name });
            &&& entry.accepts(UploadEvent::Opened { directory })
            &&& entry.next(UploadEvent::Opened { directory }) == (UploadState {
                folders: state.folders,
                stage: UploadStage::Place {
                    source: crate::path::joined(folder.local, name),
                    name,
                    remote: crate::path::joined(folder.remote, name),
                    directory,
                },
            })
        }),
{
    let folder = state.folders.last();
    crate::path::law_joined_components(folder.local, name);
    crate::path::law_sanitized_joined(target, folder.remote, name);
}

/// Nothing happens any more once an upload is done or has failed.
pub proof fn law_upload_ends(state: UploadState, event: UploadEvent<Seq<u8>>)
    requires
        state.stage is Done || state.stage is Failed,
    ensures
        !state.accepts(event),
{
}

/// Whatever directories are being sent, an upload takes the news that it is waiting for and no other:
/// about a source that has a file name, any path that is examined, and any entry whose name can stand
/// for one.
pub proof fn law_upload_waits_for(
    folders: Seq<Folder<Seq<u8>>>,
    source: Seq<u8>,
    other: Seq<u8>,
    name: Seq<u8>,
    directory: bool,
    status: FileStatus,
)
    ensures
        ({
            let opened = UploadEvent::Opened { directory };
            let examined = UploadEvent::Examined { status };
            let entry = UploadEvent::Entry { name };
            let open = UploadState { folders, stage: UploadStage::Open { source, target: other } };
            let place = UploadState {
                folders,
                stage: UploadStage::Place { source, name, remote: other, directory },
            };
            let check = UploadState { folders, stage: UploadStage::Check { source, remote: other } };
            let make = UploadState {
                folders,
                stage: UploadStage::MakeDirectory { source, remote: other },
            };
            let list = UploadState { folders, stage: UploadStage::List { source, remote: other } };
            let send = UploadState { folders, stage: UploadStage::Send { name, remote: other } };
            let next = UploadState { folders, stage: UploadStage::NextEntry };
            &&& open.accepts(opened) <==> crate::path::path_file_name(source) is Some
            &&& place.accepts(examined) && check.accepts(examined)
            &&& make.accepts(UploadEvent::Created)
            &&& list.accepts(UploadEvent::Listed)
            &&& send.accepts(UploadEvent::Sent)
            &&& next.accepts(UploadEvent::EndOfDirectory)
            &&& next.accepts(entry) <==> crate::path::is_file_name(name)
            &&& !open.accepts(examined) && !open.accepts(UploadEvent::Sent) && !open.accepts(entry)
            &&& !place.accepts(opened) && !check.accepts(UploadEvent::Listed) && !check.accepts(
                UploadEvent::Created,
            )
            &&& !send.accepts(UploadEvent::EndOfDirectory) && !list.accepts(entry) && !next.accepts(
                UploadEvent::Sent,
            )
        }),
{
}

/// Whatever directories are being sent, a file goes into the directory that the remote host has at its
/// target, or else to the target itself, and then the innermost directory goes on.
pub proof fn law_upload_of_any_file(
    folders: Seq<Folder<Seq<u8>>>,
    source: Seq<u8>,
    target: Seq<u8>,
    name: Seq<u8>,
    status: FileStatus,
)
    requires
        crate::path::path_file_name(source) == Some(name),
    ensures
        ({
            let base = crate::path::sanitized(target);
            let open = UploadState { folders, stage: UploadStage::Open { source, target } };
            let send = open.next(UploadEvent::Opened { directory: false }).next(
                UploadEvent::Examined { status },
            );
            &&& send.folders == folders
            &&& send.stage == UploadStage::Send {
                name,
                remote: if status is Directory {
                    crate::path::joined(base, name)
                } else {
                    base
                },
            }
            &&& send.next(UploadEvent::Sent).folders == folders
            &&& send.next(UploadEvent::Sent).stage == if folders.len() == 0 {
                UploadStage::<Seq<u8>>::Done
            } else {
                UploadStage::<Seq<u8>>::NextEntry
            }
        }),
{
}

/// Whatever directories are being sent, a directory goes into the directory that the remote host has at
/// its target, or else to the target itself. It is created there if nothing is there, used if a
/// directory is there, and refused if anything else is there. Then its entries are read, each of them
/// sent from and to the path of its name, and at their end the directory around it goes on.
pub proof fn law_upload_of_any_directory(
    folders: Seq<Folder<Seq<u8>>>,
    source: Seq<u8>,
    target: Seq<u8>,
    name: Seq<u8>,
    status: FileStatus,
    entry: Seq<u8>,
)
    requires
        crate::path::path_file_name(source) == Some(name),
    ensures
        ({
            let base = crate::path::sanitized(target);
            let remote = if status is Directory {
                crate::path::joined(base, name)
            } else {
                base
            };
            let open = UploadState { folders, stage: UploadStage::Open { source, target } };
            let check = open.next(UploadEvent::Opened { directory: true }).next(
                UploadEvent::Examined { status },
            );
            let list = check.next(UploadEvent::Examined { status: FileStatus::Directory });
            let make = check.next(UploadEvent::Examined { status: FileStatus::Missing });
            let reading = list.next(UploadEvent::Listed);
            let inside = folders.push(Folder { local: source, remote });
            let ended = reading.next(UploadEvent::EndOfDirectory);
            &&& check == (UploadState { folders, stage: UploadStage::Check { source, remote } })
            &&& list == (UploadState { folders, stage: UploadStage::List { source, remote } })
            &&& make == (UploadState {
                folders,
                stage: UploadStage::MakeDirectory { source, remote },
            })
            &&& make.next(UploadEvent::Created) == list
            &&& check.next(UploadEvent::Examined { status: FileStatus::File }).stage
                == UploadStage::<Seq<u8>>::Failed { error: TransferError::NotADirectory }
            &&& reading == (UploadState { folders: inside, stage: UploadStage::NextEntry })
            &&& reading.next(UploadEvent::Entry { name: entry }) == (UploadState {
                folders: inside,
                stage: UploadStage::Open {
                    source: crate::path::joined(source, entry),
                    target: crate::path::joined(remote, entry),
                },
            })
            &&& ended.folders == folders
            &&& ended.stage == if folders.len() == 0 {
                UploadStage::<Seq<u8>>::Done
            } else {
                UploadStage::<Seq<u8>>::NextEntry
            }
        }),
{
    let base = crate::path::sanitized(target);
    let remote = if status is Directory {
        crate::path::joined(base, name)
    } else {
        base
    };
    assert(folders.push(Folder { local: source, remote }).drop_last() =~= folders);
}

/// An upload that cannot go on always tells why, and one that can never does. A source without a file
/// name is refused by what it is, and an entry because it has no name of its own.
pub proof fn law_upload_refusal(
    state: UploadState,
    event: UploadEvent<Seq<u8>>,
    directory: bool,
    name: Seq<u8>,
)
    ensures
        state.refusal(event) is None <==> state.accepts(event),
        state.stage is Open && !state.accepts(UploadEvent::Opened { directory }) ==> state.refusal(
            UploadEvent::Opened { directory },
        ) == Some(
            if directory {
                "invalid directory name"@
            } else {
                "invalid file name"@
            },
        ),
        state.stage is NextEntry && !state.accepts(UploadEvent::Entry { name }) ==> state.refusal(
            UploadEvent::Entry { name },
        ) == Some("could not retrieve file name"@),
{
}

} // verus!
