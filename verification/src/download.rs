//! Fetching of a remote file, or of a whole remote directory.
//!
//! A [`Download`] decides what has to be done next and is told how it turned out. It never touches
//! a file itself.

use vstd::prelude::*;
use vstd::slice::slice_to_vec;

use crate::path::{file_name, is_entry_name, join, sanitize_sftp_path};
use crate::transfer::{place, FileStatus, TransferError};

verus! {

/// What a download is waiting for.
#[derive(Debug, PartialEq, Eq)]
pub enum DownloadStage<P> {
    /// The remote path has to be examined; what is there goes to the path `local`.
    Examine { remote: P, local: P },
    /// The local path has to be examined, to find out where the remote file called `name` goes.
    Place { remote: P, name: P, local: P },
    /// The remote file called `name` has to be written to the path `local`.
    Receive { remote: P, name: P, local: P },
    /// The local path has to be examined, to find out which directory the remote one becomes.
    Enter { remote: P, local: P },
    /// The local path has to be examined, to find out whether it has to be created.
    Probe { remote: P, local: P },
    /// The local directory has to be created.
    MakeDirectory { remote: P, local: P },
    /// The remote directory has to be listed.
    List { remote: P, local: P },
    /// Everything has been fetched.
    Done,
    /// The download cannot go on.
    Failed { error: TransferError },
}

/// How the work that a download was waiting for turned out.
#[derive(Debug, PartialEq, Eq)]
pub enum DownloadEvent<N> {
    /// A remote or local path was examined.
    Examined { status: FileStatus },
    /// A local directory was created.
    Created,
    /// A remote directory was listed, and has entries of these names.
    Listed { names: N },
    /// A file was written.
    Received,
}

/// A directory that is being fetched, with the names of the entries that are still to come.
#[derive(Debug, PartialEq, Eq)]
pub struct RemoteFolder<P, N> {
    pub remote: P,
    pub local: P,
    pub names: N,
}

impl View for DownloadStage<Vec<u8>> {
    type V = DownloadStage<Seq<u8>>;

    open spec fn view(&self) -> DownloadStage<Seq<u8>> {
        match *self {
            DownloadStage::Examine { remote, local } => DownloadStage::Examine {
                remote: remote@,
                local: local@,
            },
            DownloadStage::Place { remote, name, local } => DownloadStage::Place {
                remote: remote@,
                name: name@,
                local: local@,
            },
            DownloadStage::Receive { remote, name, local } => DownloadStage::Receive {
                remote: remote@,
                name: name@,
                local: local@,
            },
            DownloadStage::Enter { remote, local } => DownloadStage::Enter {
                remote: remote@,
                local: local@,
            },
            DownloadStage::Probe { remote, local } => DownloadStage::Probe {
                remote: remote@,
                local: local@,
            },
            DownloadStage::MakeDirectory { remote, local } => DownloadStage::MakeDirectory {
                remote: remote@,
                local: local@,
            },
            DownloadStage::List { remote, local } => DownloadStage::List {
                remote: remote@,
                local: local@,
            },
            DownloadStage::Done => DownloadStage::Done,
            DownloadStage::Failed { error } => DownloadStage::Failed { error },
        }
    }
}

impl View for DownloadEvent<Vec<Vec<u8>>> {
    type V = DownloadEvent<Seq<Seq<u8>>>;

    open spec fn view(&self) -> DownloadEvent<Seq<Seq<u8>>> {
        match *self {
            DownloadEvent::Examined { status } => DownloadEvent::Examined { status },
            DownloadEvent::Created => DownloadEvent::Created,
            DownloadEvent::Listed { names } => DownloadEvent::Listed {
                names: crate::path::byte_strings(names@),
            },
            DownloadEvent::Received => DownloadEvent::Received,
        }
    }
}

impl View for RemoteFolder<Vec<u8>, Vec<Vec<u8>>> {
    type V = RemoteFolder<Seq<u8>, Seq<Seq<u8>>>;

    open spec fn view(&self) -> RemoteFolder<Seq<u8>, Seq<Seq<u8>>> {
        RemoteFolder {
            remote: self.remote@,
            local: self.local@,
            names: crate::path::byte_strings(self.names@),
        }
    }
}

/// The state of a download.
#[verifier::ext_equal]
pub struct DownloadState {
    /// The directories that are being fetched, the innermost last.
    pub folders: Seq<RemoteFolder<Seq<u8>, Seq<Seq<u8>>>>,
    /// What the download is waiting for.
    pub stage: DownloadStage<Seq<u8>>,
}

/// Whether all of `names` are names of files or directories.
pub open spec fn are_file_names(names: Seq<Seq<u8>>) -> bool {
    forall|i: int| 0 <= i < names.len() ==> crate::path::is_file_name(#[trigger] names[i])
}

impl DownloadState {
    /// The state in which the download of `source` to `target` starts.
    pub open spec fn start(source: Seq<u8>, target: Seq<u8>) -> DownloadState {
        DownloadState {
            folders: Seq::empty(),
            stage: DownloadStage::Examine {
                remote: crate::path::sanitized(source),
                local: target,
            },
        }
    }

    /// Whether an event is one that the download is waiting for.
    pub open spec fn accepts(self, event: DownloadEvent<Seq<Seq<u8>>>) -> bool {
        match (self.stage, event) {
            (DownloadStage::Examine { remote, local }, DownloadEvent::Examined { status }) =>
                match status {
                    FileStatus::Missing => false,
                    FileStatus::File => crate::path::path_file_name(remote) is Some,
                    FileStatus::Directory => true,
                },
            (DownloadStage::Place { remote, name, local }, DownloadEvent::Examined { status }) =>
                true,
            (DownloadStage::Receive { remote, name, local }, DownloadEvent::Received) => true,
            (DownloadStage::Enter { remote, local }, DownloadEvent::Examined { status }) => status
                is Directory ==> crate::path::path_file_name(remote) is Some,
            (DownloadStage::Probe { remote, local }, DownloadEvent::Examined { status }) => true,
            (DownloadStage::MakeDirectory { remote, local }, DownloadEvent::Created) => true,
            (DownloadStage::List { remote, local }, DownloadEvent::Listed { names }) =>
                are_file_names(names),
            _ => false,
        }
    }

    /// The text that tells why the download cannot go on after an event, if it cannot.
    pub open spec fn refusal(self, event: DownloadEvent<Seq<Seq<u8>>>) -> Option<Seq<char>> {
        if self.accepts(event) {
            None
        } else {
            match (self.stage, event) {
                (DownloadStage::Examine { remote, local }, DownloadEvent::Examined { status }) =>
                    Some(
                    if status is File {
                        "invalid file name"@
                    } else {
                        "unexpected event"@
                    },
                ),
                (DownloadStage::Enter { remote, local }, DownloadEvent::Examined { status }) => Some(
                    "could not retrieve file name"@,
                ),
                (DownloadStage::List { remote, local }, DownloadEvent::Listed { names }) => Some(
                    "could not retrieve file name"@,
                ),
                _ => Some("unexpected event"@),
            }
        }
    }

    /// The state that deals with the next entry of the innermost of `folders` that has one left.
    pub open spec fn resume(
        folders: Seq<RemoteFolder<Seq<u8>, Seq<Seq<u8>>>>,
    ) -> DownloadState
        decreases folders.len(),
    {
        if folders.len() == 0 {
            DownloadState { folders, stage: DownloadStage::Done }
        } else if folders.last().names.len() == 0 {
            DownloadState::resume(folders.drop_last())
        } else {
            let folder = folders.last();
            let name = folder.names[0];
            DownloadState {
                folders: folders.drop_last().push(
                    RemoteFolder { names: folder.names.skip(1), ..folder },
                ),
                stage: DownloadStage::Examine {
                    remote: crate::path::joined(folder.remote, name),
                    local: crate::path::joined(folder.local, name),
                },
            }
        }
    }

    /// The state after an event.
    pub open spec fn next(self, event: DownloadEvent<Seq<Seq<u8>>>) -> DownloadState {
        match (self.stage, event) {
            (DownloadStage::Examine { remote, local }, DownloadEvent::Examined { status }) => {
                let stage = if status is Directory {
                    DownloadStage::Enter { remote, local }
                } else {
                    let name = crate::path::path_file_name(remote)->0;
                    DownloadStage::Place { remote, name, local }
                };
                DownloadState { stage, ..self }
            },
            (DownloadStage::Place { remote, name, local }, DownloadEvent::Examined { status }) => {
                let local = crate::transfer::placed(local, status, name);
                DownloadState { stage: DownloadStage::Receive { remote, name, local }, ..self }
            },
            (DownloadStage::Receive { remote, name, local }, DownloadEvent::Received) => {
                DownloadState::resume(self.folders)
            },
            (DownloadStage::Enter { remote, local }, DownloadEvent::Examined { status }) => {
                let stage = match status {
                    FileStatus::File => DownloadStage::Failed {
                        error: TransferError::NotADirectory,
                    },
                    FileStatus::Missing => DownloadStage::Probe { remote, local },
                    FileStatus::Directory => {
                        let name = crate::path::path_file_name(remote)->0;
                        DownloadStage::Probe { remote, local: crate::path::joined(local, name) }
                    },
                };
                DownloadState { stage, ..self }
            },
            (DownloadStage::Probe { remote, local }, DownloadEvent::Examined { status }) => {
                let stage = if status is Missing {
                    DownloadStage::MakeDirectory { remote, local }
                } else {
                    DownloadStage::List { remote, local }
                };
                DownloadState { stage, ..self }
            },
            (DownloadStage::MakeDirectory { remote, local }, DownloadEvent::Created) => {
                DownloadState { stage: DownloadStage::List { remote, local }, ..self }
            },
            (DownloadStage::List { remote, local }, DownloadEvent::Listed { names }) => {
                DownloadState::resume(self.folders.push(RemoteFolder { remote, local, names }))
            },
            _ => self,
        }
    }
}

/// The download of a remote file or directory.
#[derive(Debug, PartialEq, Eq)]
pub struct Download {
    folders: Vec<RemoteFolder<Vec<u8>, Vec<Vec<u8>>>>,
    stage: DownloadStage<Vec<u8>>,
}

impl View for Download {
    type V = DownloadState;

    closed spec fn view(&self) -> DownloadState {
        DownloadState {
            folders: self.folders@.map_values(
                |folder: RemoteFolder<Vec<u8>, Vec<Vec<u8>>>| folder@,
            ),
            stage: self.stage@,
        }
    }
}

fn are_entry_names(names: &Vec<Vec<u8>>) -> (yes: bool)
    ensures
        yes == are_file_names(crate::path::byte_strings(names@)),
{
    let ghost all = crate::path::byte_strings(names@);
    let mut i: usize = 0;
    while i < names.len()
        invariant
            i <= names@.len(),
            all == crate::path::byte_strings(names@),
            forall|j: int| 0 <= j < i ==> crate::path::is_file_name(#[trigger] all[j]),
        decreases names.len() - i,
    {
        assert(all[i as int] == names@[i as int]@);
        if !is_entry_name(names[i].as_slice()) {
            return false;
        }
        i = i + 1;
    }
    true
}

impl Download {
    /// Starts the download of the remote path `source` to the local path `target`.
    pub fn new(source: &[u8], target: &[u8]) -> (download: Download)
        ensures
            download@ == DownloadState::start(source@, target@),
    {
        // Prepare the remote path to be handled correctly by the server
        let remote = sanitize_sftp_path(source);
        let download = Download {
            folders: Vec::new(),
            stage: DownloadStage::Examine { remote, local: slice_to_vec(target) },
        };
        assert(download@ =~= DownloadState::start(source@, target@));
        download
    }

    /// Returns what the download is waiting for.
    pub fn stage(&self) -> (stage: &DownloadStage<Vec<u8>>)
        ensures
            stage@ == self@.stage,
    {
        &self.stage
    }

    /// Tells whether the download is waiting for an event of this kind.
    ///
    /// It takes neither a remote path at which there is nothing, nor one without a file name where
    /// the name is needed, nor entries whose names are not names of files.
    pub fn accepts(&self, event: &DownloadEvent<Vec<Vec<u8>>>) -> (yes: bool)
        ensures
            yes == self@.accepts(event@),
    {
        match (&self.stage, event) {
            (DownloadStage::Examine { remote, local }, DownloadEvent::Examined { status }) =>
                match *status {
                    FileStatus::Missing => false,
                    FileStatus::File => file_name(remote.as_slice()).is_some(),
                    FileStatus::Directory => true,
                },
            (DownloadStage::Place { remote, name, local }, DownloadEvent::Examined { status }) =>
                true,
            (DownloadStage::Receive { remote, name, local }, DownloadEvent::Received) => true,
            (DownloadStage::Enter { remote, local }, DownloadEvent::Examined { status }) =>
                match *status {
                    FileStatus::Directory => file_name(remote.as_slice()).is_some(),
                    _ => true,
                },
            (DownloadStage::Probe { remote, local }, DownloadEvent::Examined { status }) => true,
            (DownloadStage::MakeDirectory { remote, local }, DownloadEvent::Created) => true,
            (DownloadStage::List { remote, local }, DownloadEvent::Listed { names }) =>
                are_entry_names(names),
            _ => false,
        }
    }

    /// Returns the text that tells why the download cannot go on after an event, if it cannot.
    pub fn refusal(&self, event: &DownloadEvent<Vec<Vec<u8>>>) -> (refusal: Option<&'static str>)
        ensures
            match refusal {
                Some(refusal) => self@.refusal(event@) == Some(refusal@),
                None => self@.refusal(event@) is None,
            },
    {
        if self.accepts(event) {
            return None;
        }
        match (&self.stage, event) {
            (DownloadStage::Examine { remote, local }, DownloadEvent::Examined { status }) =>
                match *status {
                    FileStatus::File => Some("invalid file name"),
                    _ => Some("unexpected event"),
                },
            (DownloadStage::Enter { remote, local }, DownloadEvent::Examined { status }) => Some(
                "could not retrieve file name",
            ),
            (DownloadStage::List { remote, local }, DownloadEvent::Listed { names }) => Some(
                "could not retrieve file name",
            ),
            _ => Some("unexpected event"),
        }
    }

    fn resume(&mut self)
        ensures
            final(self)@ == DownloadState::resume(old(self)@.folders),
    {
        let ghost goal = DownloadState::resume(self@.folders);
        loop
            invariant
                goal == DownloadState::resume(old(self)@.folders),
                DownloadState::resume(self@.folders) == goal,
            decreases self.folders@.len(),
        {
            let ghost folders = self@.folders;
            match self.folders.pop() {
                None => {
                    self.stage = DownloadStage::Done;
                    assert(self@ =~= goal);
                    return;
                },
                Some(folder) => {
                    assert(folders.last() == folder@);
                    assert(self@.folders =~= folders.drop_last());
                    if folder.names.len() > 0 {
                        let mut names = folder.names;
                        let ghost all = crate::path::byte_strings(names@);
                        let name = names.remove(0);
                        assert(crate::path::byte_strings(names@) =~= all.skip(1));
                        assert(name@ == all[0]);
                        let remote = join(folder.remote.as_slice(), name.as_slice());
                        let local = join(folder.local.as_slice(), name.as_slice());
                        self.folders.push(
                            RemoteFolder { remote: folder.remote, local: folder.local, names },
                        );
                        self.stage = DownloadStage::Examine { remote, local };
                        assert(self@ =~= goal);
                        return;
                    }
                },
            }
        }
    }

    /// Goes on after an event.
    pub fn step(&mut self, event: DownloadEvent<Vec<Vec<u8>>>)
        requires
            old(self)@.accepts(event@),
        ensures
            final(self)@ == old(self)@.next(event@),
    {
        let mut stage = DownloadStage::Done;
        std::mem::swap(&mut stage, &mut self.stage);
        let status = match event {
            DownloadEvent::Examined { status } => status,
            _ => FileStatus::Missing,
        };
        match stage {
            DownloadStage::Examine { remote, local } => {
                self.stage = match status {
                    FileStatus::Directory => DownloadStage::Enter { remote, local },
                    _ => {
                        let name = file_name(remote.as_slice()).unwrap();
                        DownloadStage::Place { remote, name, local }
                    },
                };
            },
            DownloadStage::Place { remote, name, local } => {
                let local = place(local.as_slice(), status, name.as_slice());
                self.stage = DownloadStage::Receive { remote, name, local };
            },
            DownloadStage::Receive { remote, name, local } => {
                self.resume();
            },
            DownloadStage::Enter { remote, local } => {
                // Always create a new directory, do not copy files in the current directory
                self.stage = match status {
                    FileStatus::File => DownloadStage::Failed {
                        error: TransferError::NotADirectory,
                    },
                    FileStatus::Missing => DownloadStage::Probe { remote, local },
                    FileStatus::Directory => {
                        let name = file_name(remote.as_slice()).unwrap();
                        let local = join(local.as_slice(), name.as_slice());
                        DownloadStage::Probe { remote, local }
                    },
                };
            },
            DownloadStage::Probe { remote, local } => {
                self.stage = match status {
                    FileStatus::Missing => DownloadStage::MakeDirectory { remote, local },
                    _ => DownloadStage::List { remote, local },
                };
            },
            DownloadStage::MakeDirectory { remote, local } => {
                self.stage = DownloadStage::List { remote, local };
            },
            DownloadStage::List { remote, local } => {
                match event {
                    DownloadEvent::Listed { names } => {
                        let ghost folders = self@.folders;
                        let ghost folder = RemoteFolder {
                            remote: remote@,
                            local: local@,
                            names: crate::path::byte_strings(names@),
                        };
                        self.folders.push(RemoteFolder { remote, local, names });
                        assert(self@.folders =~= folders.push(folder));
                        self.resume();
                    },
                    _ => {},
                }
            },
            DownloadStage::Done => {},
            DownloadStage::Failed { error } => {},
        }
    }
}

impl DownloadState {
    /// Whether every remote path that the download deals with is within `source` and in the form
    /// that the server handles correctly, and every local path within `target`.
    pub open spec fn is_within(self, source: Seq<u8>, target: Seq<u8>) -> bool {
        let remote_base = crate::path::sanitized(source);
        &&& DownloadState::are_within(self.folders, source, target)
        &&& match self.stage {
            DownloadStage::Examine { remote, local } => {
                &&& crate::path::is_within(remote_base, remote)
                &&& crate::path::sanitized(remote) == remote
                &&& crate::path::is_within(target, local)
            },
            DownloadStage::Place { remote, name, local } => {
                &&& crate::path::is_within(remote_base, remote)
                &&& crate::path::is_within(target, local)
                &&& crate::path::is_file_name(name)
            },
            DownloadStage::Receive { remote, name, local } => {
                &&& crate::path::is_within(remote_base, remote)
                &&& crate::path::is_within(target, local)
            },
            DownloadStage::Enter { remote, local } => {
                &&& crate::path::is_within(remote_base, remote)
                &&& crate::path::is_within(target, local)
            },
            DownloadStage::Probe { remote, local } => {
                &&& crate::path::is_within(remote_base, remote)
                &&& crate::path::is_within(target, local)
            },
            DownloadStage::MakeDirectory { remote, local } => {
                &&& crate::path::is_within(remote_base, remote)
                &&& crate::path::is_within(target, local)
            },
            DownloadStage::List { remote, local } => {
                &&& crate::path::is_within(remote_base, remote)
                &&& crate::path::is_within(target, local)
            },
            DownloadStage::Done => true,
            DownloadStage::Failed { error } => true,
        }
    }

    /// Whether every directory of `folders` is within `source` and `target`, and only has entries
    /// that are in the directory.
    pub open spec fn are_within(
        folders: Seq<RemoteFolder<Seq<u8>, Seq<Seq<u8>>>>,
        source: Seq<u8>,
        target: Seq<u8>,
    ) -> bool {
        forall|i: int|
            #![trigger folders[i]]
            0 <= i < folders.len() ==> {
                &&& crate::path::is_within(crate::path::sanitized(source), folders[i].remote)
                &&& crate::path::is_within(target, folders[i].local)
                &&& are_file_names(folders[i].names)
            }
    }
}

/// A download starts within its source and its target.
pub proof fn law_download_starts_within(source: Seq<u8>, target: Seq<u8>)
    ensures
        DownloadState::start(source, target).is_within(source, target),
{
    crate::path::law_sanitized_idempotent(source);
}

proof fn lemma_resume_within(
    folders: Seq<RemoteFolder<Seq<u8>, Seq<Seq<u8>>>>,
    source: Seq<u8>,
    target: Seq<u8>,
)
    requires
        DownloadState::are_within(folders, source, target),
    ensures
        DownloadState::resume(folders).is_within(source, target),
    decreases folders.len(),
{
    if folders.len() > 0 {
        let folder = folders.last();
        if folder.names.len() == 0 {
            lemma_resume_within(folders.drop_last(), source, target);
        } else {
            let name = folder.names[0];
            crate::path::law_joined_within(crate::path::sanitized(source), folder.remote, name);
            crate::path::law_joined_within(target, folder.local, name);
            crate::path::law_sanitized_joined(source, folder.remote, name);
        }
    }
}

/// Whatever entries the remote directories claim to hold and whatever is found on the local host, a
/// download never fetches a remote path outside its source, and never examines, creates or writes a
/// local path outside its target.
pub proof fn law_download_stays_within(
    state: DownloadState,
    event: DownloadEvent<Seq<Seq<u8>>>,
    source: Seq<u8>,
    target: Seq<u8>,
)
    requires
        state.accepts(event),
        state.is_within(source, target),
    ensures
        state.next(event).is_within(source, target),
{
    match (state.stage, event) {
        (DownloadStage::Place { remote, name, local }, DownloadEvent::Examined { status }) => {
            crate::path::law_joined_within(target, local, name);
        },
        (DownloadStage::Receive { remote, name, local }, DownloadEvent::Received) => {
            lemma_resume_within(state.folders, source, target);
        },
        (DownloadStage::Enter { remote, local }, DownloadEvent::Examined { status }) => {
            if status is Directory {
                let name = crate::path::path_file_name(remote)->0;
                crate::path::law_joined_within(target, local, name);
            }
        },
        (DownloadStage::List { remote, local }, DownloadEvent::Listed { names }) => {
            lemma_resume_within(
                state.folders.push(RemoteFolder { remote, local, names }),
                source,
                target,
            );
        },
        _ => {},
    }
}

/// A single file is written under its own name into the target if that is a directory, and to the
/// target itself if it is not.
pub proof fn law_download_of_file(source: Seq<u8>, target: Seq<u8>, status: FileStatus)
    requires
        crate::path::path_file_name(crate::path::sanitized(source)) is Some,
    ensures
        ({
            let remote = crate::path::sanitized(source);
            let name = crate::path::path_file_name(remote)->0;
            let found = DownloadState::start(source, target).next(
                DownloadEvent::Examined { status: FileStatus::File },
            );
            let ready = found.next(DownloadEvent::Examined { status });
            &&& found.stage == DownloadStage::Place { remote, name, local: target }
            &&& ready.stage == DownloadStage::Receive {
                remote,
                name,
                local: crate::transfer::placed(target, status, name),
            }
            &&& ready.next(DownloadEvent::Received).stage == DownloadStage::<Seq<u8>>::Done
        }),
{
}

/// A directory is fetched into a new directory of its own if the target is already a directory, is
/// called like the target if nothing is there, and is refused if the target is a file.
pub proof fn law_download_of_directory(source: Seq<u8>, target: Seq<u8>)
    ensures
        ({
            let remote = crate::path::sanitized(source);
            let found = DownloadState::start(source, target).next(
                DownloadEvent::Examined { status: FileStatus::Directory },
            );
            &&& found.next(DownloadEvent::Examined { status: FileStatus::Missing }).stage
                == DownloadStage::Probe { remote, local: target }
            &&& found.next(DownloadEvent::Examined { status: FileStatus::File }).stage
                == DownloadStage::<Seq<u8>>::Failed { error: TransferError::NotADirectory }
            &&& crate::path::path_file_name(remote) matches Some(name) ==> found.next(
                DownloadEvent::Examined { status: FileStatus::Directory },
            ).stage == (DownloadStage::Probe { remote, local: crate::path::joined(target, name) })
        }),
{
}

/// The entries of a directory are fetched one after the other, each to the path of the same name, and
/// the directory that it is in goes on when there are no more. Each of them is examined first, so
/// that a file is fetched as a file and a directory as a directory.
pub proof fn law_download_of_entries(state: DownloadState, names: Seq<Seq<u8>>)
    requires
        state.stage is List,
        state.accepts(DownloadEvent::Listed { names }),
    ensures
        state.stage matches DownloadStage::List { remote, local } && {
            let next = state.next(DownloadEvent::Listed { names });
            if names.len() == 0 {
                next == DownloadState::resume(state.folders)
            } else {
                next == (DownloadState {
                    folders: state.folders.push(
                        RemoteFolder { remote, local, names: names.skip(1) },
                    ),
                    stage: DownloadStage::Examine {
                        remote: crate::path::joined(remote, names[0]),
                        local: crate::path::joined(local, names[0]),
                    },
                }) && next.accepts(DownloadEvent::Examined { status: FileStatus::File })
                    && next.accepts(DownloadEvent::Examined { status: FileStatus::Directory })
            }
        },
{
    if let DownloadStage::List { remote, local } = state.stage {
        let folders = state.folders.push(RemoteFolder { remote, local, names });
        assert(folders.drop_last() =~= state.folders);
        if names.len() > 0 {
            crate::path::law_joined_components(remote, names[0]);
        }
    }
}

/// Nothing happens any more once a download is done or has failed.
pub proof fn law_download_ends(state: DownloadState, event: DownloadEvent<Seq<Seq<u8>>>)
    requires
        state.stage is Done || state.stage is Failed,
    ensures
        !state.accepts(event),
{
}

/// Whatever directories are being fetched, a download takes the news that it is waiting for and no
/// other. It needs a name for a remote file and for a directory that goes into another one, and names
/// that can stand for entries.
pub proof fn law_download_waits_for(
    folders: Seq<RemoteFolder<Seq<u8>, Seq<Seq<u8>>>>,
    remote: Seq<u8>,
    local: Seq<u8>,
    name: Seq<u8>,
    names: Seq<Seq<u8>>,
    status: FileStatus,
)
    ensures
        ({
            let examined = DownloadEvent::Examined { status };
            let listed = DownloadEvent::Listed { names };
            let examine = DownloadState {
                folders,
                stage: DownloadStage::Examine { remote, local },
            };
            let place = DownloadState {
                folders,
                stage: DownloadStage::Place { remote, name, local },
            };
            let receive = DownloadState {
                folders,
                stage: DownloadStage::Receive { remote, name, local },
            };
            let enter = DownloadState { folders, stage: DownloadStage::Enter { remote, local } };
            let probe = DownloadState { folders, stage: DownloadStage::Probe { remote, local } };
            let make = DownloadState {
                folders,
                stage: DownloadStage::MakeDirectory { remote, local },
            };
            let list = DownloadState { folders, stage: DownloadStage::List { remote, local } };
            let has_name = crate::path::path_file_name(remote) is Some;
            &&& examine.accepts(examined) <==> status is Directory || (status is File && has_name)
            &&& place.accepts(examined) && probe.accepts(examined)
            &&& enter.accepts(examined) <==> has_name || !(status is Directory)
            &&& receive.accepts(DownloadEvent::Received)
            &&& make.accepts(DownloadEvent::Created)
            &&& list.accepts(listed) <==> forall|i: int|
                0 <= i < names.len() ==> crate::path::is_file_name(#[trigger] names[i])
            &&& !examine.accepts(listed) && !examine.accepts(DownloadEvent::Received)
            &&& !place.accepts(DownloadEvent::Received) && !probe.accepts(DownloadEvent::Created)
            &&& !list.accepts(examined) && !make.accepts(examined) && !receive.accepts(examined)
        }),
{
}

/// Whatever directories are being fetched, a remote file goes into the directory that the local host has
/// at its path, or else to the path itself, and then the innermost directory goes on.
pub proof fn law_download_of_any_file(
    folders: Seq<RemoteFolder<Seq<u8>, Seq<Seq<u8>>>>,
    remote: Seq<u8>,
    local: Seq<u8>,
    name: Seq<u8>,
    status: FileStatus,
)
    requires
        crate::path::path_file_name(remote) == Some(name),
    ensures
        ({
            let examine = DownloadState {
                folders,
                stage: DownloadStage::Examine { remote, local },
            };
            let place = examine.next(DownloadEvent::Examined { status: FileStatus::File });
            let receive = place.next(DownloadEvent::Examined { status });
            &&& place == (DownloadState {
                folders,
                stage: DownloadStage::Place { remote, name, local },
            })
            &&& receive == (DownloadState {
                folders,
                stage: DownloadStage::Receive {
                    remote,
                    name,
                    local: if status is Directory {
                        crate::path::joined(local, name)
                    } else {
                        local
                    },
                },
            })
            &&& receive.next(DownloadEvent::Received) == DownloadState::resume(folders)
        }),
{
}

/// Whatever directories are being fetched, a remote directory goes into the directory that the local
/// host has at its path, takes the path if nothing is there, and is refused if anything else is there.
/// It is created if nothing is there yet, and listed then.
pub proof fn law_download_of_any_directory(
    folders: Seq<RemoteFolder<Seq<u8>, Seq<Seq<u8>>>>,
    remote: Seq<u8>,
    local: Seq<u8>,
    name: Seq<u8>,
)
    requires
        crate::path::path_file_name(remote) == Some(name),
    ensures
        ({
            let missing = DownloadEvent::Examined { status: FileStatus::Missing };
            let file = DownloadEvent::Examined { status: FileStatus::File };
            let directory = DownloadEvent::Examined { status: FileStatus::Directory };
            let inside = crate::path::joined(local, name);
            let examine = DownloadState {
                folders,
                stage: DownloadStage::Examine { remote, local },
            };
            let enter = examine.next(directory);
            let probe = enter.next(missing);
            let list = DownloadState { folders, stage: DownloadStage::List { remote, local } };
            &&& enter == (DownloadState {
                folders,
                stage: DownloadStage::Enter { remote, local },
            })
            &&& probe == (DownloadState {
                folders,
                stage: DownloadStage::Probe { remote, local },
            })
            &&& enter.next(directory) == (DownloadState {
                folders,
                stage: DownloadStage::Probe { remote, local: inside },
            })
            &&& enter.next(file).stage == DownloadStage::<Seq<u8>>::Failed {
                error: TransferError::NotADirectory,
            }
            &&& probe.next(missing) == (DownloadState {
                folders,
                stage: DownloadStage::MakeDirectory { remote, local },
            })
            &&& probe.next(missing).next(DownloadEvent::Created) == list
            &&& probe.next(directory) == list
            &&& probe.next(file) == list
        }),
{
}

/// A download goes on with the first entry that is left in the innermost directory, from and to the path
/// of its name, with the directory around it if there is none, and is done if there is no directory.
pub proof fn law_download_goes_on(
    folders: Seq<RemoteFolder<Seq<u8>, Seq<Seq<u8>>>>,
    remote: Seq<u8>,
    local: Seq<u8>,
    name: Seq<u8>,
    names: Seq<Seq<u8>>,
)
    ensures
        DownloadState::resume(
            folders.push(RemoteFolder { remote, local, names: seq![name] + names }),
        ) == (DownloadState {
            folders: folders.push(RemoteFolder { remote, local, names }),
            stage: DownloadStage::Examine {
                remote: crate::path::joined(remote, name),
                local: crate::path::joined(local, name),
            },
        }),
        DownloadState::resume(
            folders.push(RemoteFolder { remote, local, names: Seq::empty() }),
        ) == DownloadState::resume(folders),
        DownloadState::resume(Seq::empty()).stage is Done,
{
    let ahead = folders.push(RemoteFolder { remote, local, names: seq![name] + names });
    let ended = folders.push(RemoteFolder { remote, local, names: Seq::<Seq<u8>>::empty() });
    assert(ahead.drop_last() =~= folders);
    assert(ended.drop_last() =~= folders);
    assert((seq![name] + names).skip(1) =~= names);
}

/// A download that cannot go on always tells why, and one that can never does. A remote file without a
/// name is refused as such, and a directory or an entry because its name cannot be retrieved.
pub proof fn law_download_refusal(
    state: DownloadState,
    event: DownloadEvent<Seq<Seq<u8>>>,
    names: Seq<Seq<u8>>,
    status: FileStatus,
)
    ensures
        state.refusal(event) is None <==> state.accepts(event),
        state.stage is Examine && status is File && !state.accepts(
            DownloadEvent::Examined { status },
        ) ==> state.refusal(DownloadEvent::Examined { status }) == Some("invalid file name"@),
        state.stage is Enter && !state.accepts(DownloadEvent::Examined { status }) ==> state.refusal(
            DownloadEvent::Examined { status },
        ) == Some("could not retrieve file name"@),
        state.stage is List && !state.accepts(DownloadEvent::Listed { names }) ==> state.refusal(
            DownloadEvent::Listed { names },
        ) == Some("could not retrieve file name"@),
{
}

} // verus!
