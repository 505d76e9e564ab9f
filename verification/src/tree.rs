//! Transfers of whole directory trees.
//!
//! An [`Upload`](crate::upload::Upload) or a [`Download`](crate::download::Download) only ever knows
//! about one path at a time. What follows runs them against a model of a directory tree on one host
//! and of the files on the other host, and states what arrives where in the end.

use vstd::prelude::*;

use crate::download::{DownloadEvent, DownloadStage, DownloadState, RemoteFolder};
use crate::transfer::{FileStatus, TransferError};
use crate::upload::{UploadEvent, UploadStage, UploadState};

verus! {

/// A file, or a directory with everything in it.
pub enum Tree {
    /// A file.
    File,
    /// A directory with its entries.
    Directory { entries: Box<Listing> },
}

/// The entries of a directory, in the order in which they are read.
pub enum Listing {
    /// There are no entries.
    Empty,
    /// There is an entry called `name`, and then others.
    Entry { name: Seq<u8>, tree: Box<Tree>, rest: Box<Listing> },
}

impl Tree {
    /// Whether all entries have names that a file or directory can have.
    pub open spec fn is_valid(self) -> bool
        decreases self,
    {
        match self {
            Tree::File => true,
            Tree::Directory { entries } => entries.is_valid(),
        }
    }
}

impl Listing {
    /// Whether all entries have names that a file or directory can have.
    pub open spec fn is_valid(self) -> bool
        decreases self,
    {
        match self {
            Listing::Empty => true,
            Listing::Entry { name, tree, rest } => {
                &&& crate::path::is_file_name(name)
                &&& tree.is_valid()
                &&& rest.is_valid()
            },
        }
    }
}

/// What an upload achieves.
#[verifier::ext_equal]
pub struct UploadOutcome {
    /// The files that are sent, in order, each with its local and its remote path.
    pub sent: Seq<(Seq<u8>, Seq<u8>)>,
    /// The directories that the remote host has then, in order, each with its local and its remote
    /// path.
    pub directories: Seq<(Seq<u8>, Seq<u8>)>,
    /// Whether everything is sent. If not, a directory could not be created because a file is
    /// there.
    pub complete: bool,
}

/// Where the remote host expects what is sent from `source` to `target`, if `host` tells what it
/// finds at its paths.
pub open spec fn destination(
    source: Seq<u8>,
    target: Seq<u8>,
    host: spec_fn(Seq<u8>) -> FileStatus,
) -> Seq<u8> {
    let base = crate::path::sanitized(target);
    crate::transfer::placed(base, host(base), crate::path::path_file_name(source)->0)
}

impl Tree {
    /// What the upload of the tree at `source` to `target` achieves: a file is sent to its
    /// destination, and the entries of a directory go below the destination of the directory.
    pub open spec fn outcome(
        self,
        source: Seq<u8>,
        target: Seq<u8>,
        host: spec_fn(Seq<u8>) -> FileStatus,
    ) -> UploadOutcome
        decreases self,
    {
        let remote = destination(source, target, host);
        match self {
            Tree::File => UploadOutcome {
                sent: seq![(source, remote)],
                directories: Seq::empty(),
                complete: true,
            },
            Tree::Directory { entries } => if host(remote) is File {
                UploadOutcome { sent: Seq::empty(), directories: Seq::empty(), complete: false }
            } else {
                let others = entries.outcome(source, remote, host);
                UploadOutcome {
                    directories: seq![(source, remote)] + others.directories,
                    ..others
                }
            },
        }
    }
}

impl Listing {
    /// What the upload of the entries of the directory `local` to the directory `remote` achieves:
    /// one entry is sent after the other, up to the first that cannot be.
    pub open spec fn outcome(
        self,
        local: Seq<u8>,
        remote: Seq<u8>,
        host: spec_fn(Seq<u8>) -> FileStatus,
    ) -> UploadOutcome
        decreases self,
    {
        match self {
            Listing::Empty => UploadOutcome {
                sent: Seq::empty(),
                directories: Seq::empty(),
                complete: true,
            },
            Listing::Entry { name, tree, rest } => {
                let first = tree.outcome(
                    crate::path::joined(local, name),
                    crate::path::joined(remote, name),
                    host,
                );
                if first.complete {
                    let others = rest.outcome(local, remote, host);
                    UploadOutcome {
                        sent: first.sent + others.sent,
                        directories: first.directories + others.directories,
                        ..others
                    }
                } else {
                    first
                }
            },
        }
    }
}

/// An upload while it runs.
#[verifier::ext_equal]
pub struct UploadRun {
    /// The state of the upload.
    pub upload: UploadState,
    /// What is found at the local path that is opened next or was opened last.
    pub tree: Tree,
    /// The local path that was opened last.
    pub path: Seq<u8>,
    /// The entries that are left in each directory that is being listed, the innermost last.
    pub listings: Seq<Listing>,
    /// The files that were sent so far, each with its local and its remote path.
    pub sent: Seq<(Seq<u8>, Seq<u8>)>,
    /// The directories that were found or created so far, each with its local and its remote path.
    pub directories: Seq<(Seq<u8>, Seq<u8>)>,
}

impl UploadRun {
    /// The start of the upload of `tree` from `source` to `target`.
    pub open spec fn start(tree: Tree, source: Seq<u8>, target: Seq<u8>) -> UploadRun {
        UploadRun {
            upload: UploadState::start(source, target),
            tree,
            path: source,
            listings: Seq::empty(),
            sent: Seq::empty(),
            directories: Seq::empty(),
        }
    }

    /// How the work that the upload is waiting for turns out, or nothing if it is not waiting.
    pub open spec fn event(self, host: spec_fn(Seq<u8>) -> FileStatus) -> Option<
        UploadEvent<Seq<u8>>,
    > {
        match self.upload.stage {
            UploadStage::Open { source, target } => Some(
                UploadEvent::Opened { directory: self.tree is Directory },
            ),
            UploadStage::Place { source, name, remote, directory } => Some(
                UploadEvent::Examined { status: host(remote) },
            ),
            UploadStage::Check { source, remote } => Some(
                UploadEvent::Examined { status: host(remote) },
            ),
            UploadStage::MakeDirectory { source, remote } => Some(UploadEvent::Created),
            UploadStage::List { source, remote } => Some(UploadEvent::Listed),
            UploadStage::Send { name, remote } => Some(UploadEvent::Sent),
            UploadStage::NextEntry => match self.listings.last() {
                Listing::Empty => Some(UploadEvent::EndOfDirectory),
                Listing::Entry { name, tree, rest } => Some(UploadEvent::Entry { name }),
            },
            UploadStage::Done => None,
            UploadStage::Failed { error } => None,
        }
    }

    /// The upload once the work that it is waiting for is done. An upload that does not take the
    /// event is stuck.
    pub open spec fn step(self, host: spec_fn(Seq<u8>) -> FileStatus) -> UploadRun {
        match self.event(host) {
            Some(event) => if self.upload.accepts(event) {
                let next = UploadRun { upload: self.upload.next(event), ..self };
                match self.upload.stage {
                    UploadStage::Open { source, target } => UploadRun { path: source, ..next },
                    UploadStage::List { source, remote } => match self.tree {
                        Tree::Directory { entries } => UploadRun {
                            listings: self.listings.push(*entries),
                            directories: self.directories.push((source, remote)),
                            ..next
                        },
                        Tree::File => next,
                    },
                    UploadStage::Send { name, remote } => UploadRun {
                        sent: self.sent.push((self.path, remote)),
                        ..next
                    },
                    UploadStage::NextEntry => match self.listings.last() {
                        Listing::Empty => UploadRun { listings: self.listings.drop_last(), ..next },
                        Listing::Entry { name, tree, rest } => UploadRun {
                            tree: *tree,
                            listings: self.listings.drop_last().push(*rest),
                            ..next
                        },
                    },
                    _ => next,
                }
            } else {
                self
            },
            None => self,
        }
    }

    /// The upload after a number of steps.
    pub open spec fn after(self, steps: nat, host: spec_fn(Seq<u8>) -> FileStatus) -> UploadRun
        decreases steps,
    {
        if steps == 0 {
            self
        } else {
            self.step(host).after((steps - 1) as nat, host)
        }
    }
}

proof fn lemma_upload_after_sum(
    run: UploadRun,
    first: nat,
    second: nat,
    host: spec_fn(Seq<u8>) -> FileStatus,
)
    ensures
        run.after(first + second, host) == run.after(first, host).after(second, host),
    decreases first,
{
    if first > 0 {
        lemma_upload_after_sum(run.step(host), (first - 1) as nat, second, host);
    }
}

/// Whether `end` is where an upload with this outcome gets from `run`, if it then goes on with
/// `folders` and `listings`.
spec fn is_upload_end(
    run: UploadRun,
    end: UploadRun,
    outcome: UploadOutcome,
    folders: Seq<crate::upload::Folder<Seq<u8>>>,
    listings: Seq<Listing>,
) -> bool {
    &&& end.sent == run.sent + outcome.sent
    &&& end.directories == run.directories + outcome.directories
    &&& outcome.complete ==> end.upload == UploadState::resume(folders) && end.listings == listings
    &&& !outcome.complete ==> end.upload.stage == UploadStage::<Seq<u8>>::Failed {
        error: TransferError::NotADirectory,
    }
}

proof fn lemma_upload_of_tree(
    run: UploadRun,
    source: Seq<u8>,
    target: Seq<u8>,
    host: spec_fn(Seq<u8>) -> FileStatus,
) -> (steps: nat)
    requires
        run.upload.stage == (UploadStage::Open { source, target }),
        crate::path::path_file_name(source) is Some,
        run.tree.is_valid(),
    ensures
        is_upload_end(
            run,
            run.after(steps, host),
            run.tree.outcome(source, target, host),
            run.upload.folders,
            run.listings,
        ),
    decreases run.tree,
{
    let tree = run.tree;
    let outcome = tree.outcome(source, target, host);
    let remote = destination(source, target, host);
    reveal_with_fuel(UploadRun::after, 6);
    let placing = run.step(host);
    let placed = placing.step(host);
    match tree {
        Tree::File => {
            let end = placed.step(host);
            assert(end.sent =~= run.sent + outcome.sent);
            assert(end.directories =~= run.directories + outcome.directories);
            assert(run.after(3, host) == end);
            3
        },
        Tree::Directory { entries } => {
            assert(placed.upload.stage == (UploadStage::Check { source, remote }));
            let checked = placed.step(host);
            if host(remote) is File {
                assert(checked.sent =~= run.sent + outcome.sent);
                assert(checked.directories =~= run.directories + outcome.directories);
                assert(run.after(3, host) == checked);
                3
            } else {
                let steps: nat = if host(remote) is Missing {
                    5
                } else {
                    4
                };
                let listed = run.after(steps, host);
                let folder = crate::upload::Folder { local: source, remote };
                assert(listed.upload == UploadState::resume(run.upload.folders.push(folder)));
                assert(listed.listings == run.listings.push(*entries));
                let others = lemma_upload_of_entries(listed, source, remote, *entries, host);
                lemma_upload_after_sum(run, steps, others, host);
                let end = listed.after(others, host);
                assert(end.sent =~= run.sent + outcome.sent);
                assert(end.directories =~= run.directories + outcome.directories);
                assert(listed.upload.folders.drop_last() =~= run.upload.folders);
                assert(listed.listings.drop_last() =~= run.listings);
                steps + others
            }
        },
    }
}

proof fn lemma_upload_of_entries(
    run: UploadRun,
    local: Seq<u8>,
    remote: Seq<u8>,
    entries: Listing,
    host: spec_fn(Seq<u8>) -> FileStatus,
) -> (steps: nat)
    requires
        run.upload.stage is NextEntry,
        run.upload.folders.len() > 0,
        run.upload.folders.last() == (crate::upload::Folder { local, remote }),
        run.listings.len() > 0,
        run.listings.last() == entries,
        entries.is_valid(),
    ensures
        is_upload_end(
            run,
            run.after(steps, host),
            entries.outcome(local, remote, host),
            run.upload.folders.drop_last(),
            run.listings.drop_last(),
        ),
    decreases entries,
{
    reveal_with_fuel(UploadRun::after, 2);
    let outcome = entries.outcome(local, remote, host);
    let next = run.step(host);
    assert(run.after(1, host) == next);
    match entries {
        Listing::Empty => {
            assert(next.sent =~= run.sent + outcome.sent);
            assert(next.directories =~= run.directories + outcome.directories);
            1
        },
        Listing::Entry { name, tree, rest } => {
            let source = crate::path::joined(local, name);
            let target = crate::path::joined(remote, name);
            crate::path::law_joined_components(local, name);
            let first = lemma_upload_of_tree(next, source, target, host);
            let between = next.after(first, host);
            lemma_upload_after_sum(run, 1, first, host);
            let first_outcome = tree.outcome(source, target, host);
            if first_outcome.complete {
                assert(between.listings.last() == *rest);
                let others = lemma_upload_of_entries(between, local, remote, *rest, host);
                lemma_upload_after_sum(run, 1 + first, others, host);
                let end = between.after(others, host);
                assert(end.sent =~= run.sent + outcome.sent);
                assert(end.directories =~= run.directories + outcome.directories);
                assert(between.listings.drop_last() =~= run.listings.drop_last());
                1 + first + others
            } else {
                1 + first
            }
        },
    }
}

/// An upload sends every file and creates every directory of a directory tree, each at its own
/// destination and in the order in which the directories list them. It ends after a number of steps,
/// and fails only if a directory has to be created where the remote host has a file.
///
/// The remote host may hold anything and does what it is asked to, but what it finds at a path that
/// it is asked about must not depend on when it is asked.
pub proof fn law_upload_of_tree(
    tree: Tree,
    source: Seq<u8>,
    target: Seq<u8>,
    host: spec_fn(Seq<u8>) -> FileStatus,
) -> (steps: nat)
    requires
        tree.is_valid(),
        crate::path::path_file_name(source) is Some,
    ensures
        ({
            let end = UploadRun::start(tree, source, target).after(steps, host);
            let outcome = tree.outcome(source, target, host);
            &&& end.sent == outcome.sent
            &&& end.directories == outcome.directories
            &&& outcome.complete ==> end.upload.stage is Done
            &&& !outcome.complete ==> end.upload.stage == UploadStage::<Seq<u8>>::Failed {
                error: TransferError::NotADirectory,
            }
        }),
{
    let start = UploadRun::start(tree, source, target);
    let steps = lemma_upload_of_tree(start, source, target, host);
    let outcome = tree.outcome(source, target, host);
    assert(start.sent + outcome.sent =~= outcome.sent);
    assert(start.directories + outcome.directories =~= outcome.directories);
    steps
}

impl Tree {
    /// The files of the tree, each given by the names that lead to it.
    pub open spec fn files(self) -> Seq<Seq<Seq<u8>>>
        decreases self,
    {
        match self {
            Tree::File => seq![Seq::empty()],
            Tree::Directory { entries } => entries.files(),
        }
    }

    /// The directories of the tree, itself included, each given by the names that lead to it.
    pub open spec fn directories(self) -> Seq<Seq<Seq<u8>>>
        decreases self,
    {
        match self {
            Tree::File => Seq::empty(),
            Tree::Directory { entries } => seq![Seq::empty()] + entries.directories(),
        }
    }
}

impl Listing {
    /// The files below the entries, each given by the names that lead to it.
    pub open spec fn files(self) -> Seq<Seq<Seq<u8>>>
        decreases self,
    {
        match self {
            Listing::Empty => Seq::empty(),
            Listing::Entry { name, tree, rest } => {
                prefixed(name, tree.files()) + rest.files()
            },
        }
    }

    /// The directories among and below the entries, each given by the names that lead to it.
    pub open spec fn directories(self) -> Seq<Seq<Seq<u8>>>
        decreases self,
    {
        match self {
            Listing::Empty => Seq::empty(),
            Listing::Entry { name, tree, rest } => {
                prefixed(name, tree.directories()) + rest.directories()
            },
        }
    }
}

/// What is found below an entry called `name`, seen from the directory that the entry is in.
pub open spec fn prefixed(name: Seq<u8>, paths: Seq<Seq<Seq<u8>>>) -> Seq<Seq<Seq<u8>>> {
    paths.map_values(|names: Seq<Seq<u8>>| seq![name] + names)
}

/// The path that a number of names lead to from `base`.
pub open spec fn below(base: Seq<u8>, names: Seq<Seq<u8>>) -> Seq<u8>
    decreases names.len(),
{
    if names.len() == 0 {
        base
    } else {
        below(crate::path::joined(base, names[0]), names.skip(1))
    }
}

/// The paths that lists of names lead to from `from`, each with the path that the same names lead to
/// from `to`.
pub open spec fn mirrored(
    paths: Seq<Seq<Seq<u8>>>,
    from: Seq<u8>,
    to: Seq<u8>,
) -> Seq<(Seq<u8>, Seq<u8>)> {
    paths.map_values(|names: Seq<Seq<u8>>| (below(from, names), below(to, names)))
}

proof fn lemma_mirrored_prefixed(
    name: Seq<u8>,
    paths: Seq<Seq<Seq<u8>>>,
    others: Seq<Seq<Seq<u8>>>,
    from: Seq<u8>,
    to: Seq<u8>,
)
    ensures
        mirrored(prefixed(name, paths) + others, from, to) == mirrored(
            paths,
            crate::path::joined(from, name),
            crate::path::joined(to, name),
        ) + mirrored(others, from, to),
{
    let all = prefixed(name, paths);
    assert forall|i: int| 0 <= i < paths.len() implies #[trigger] below(from, all[i]) == below(
        crate::path::joined(from, name),
        paths[i],
    ) && below(to, all[i]) == below(crate::path::joined(to, name), paths[i]) by {
        assert(all[i].skip(1) =~= paths[i]);
        assert(all[i][0] == name);
    }
    assert(mirrored(all + others, from, to) =~= mirrored(
        paths,
        crate::path::joined(from, name),
        crate::path::joined(to, name),
    ) + mirrored(others, from, to));
}

proof fn lemma_mirrored_directory(paths: Seq<Seq<Seq<u8>>>, from: Seq<u8>, to: Seq<u8>)
    ensures
        mirrored(seq![Seq::<Seq<u8>>::empty()] + paths, from, to) == seq![(from, to)] + mirrored(
            paths,
            from,
            to,
        ),
{
    assert(mirrored(seq![Seq::<Seq<u8>>::empty()] + paths, from, to) =~= seq![(from, to)]
        + mirrored(paths, from, to));
}

/// Whether nothing is found at a path nor below it.
pub open spec fn is_vacant(path: Seq<u8>, host: spec_fn(Seq<u8>) -> FileStatus) -> bool {
    forall|other: Seq<u8>| crate::path::is_within(path, other) ==> #[trigger] host(other) is Missing
}

/// Nothing is found at an entry of a path at and below which nothing is found, nor below the entry.
proof fn lemma_vacant_entry(path: Seq<u8>, name: Seq<u8>, host: spec_fn(Seq<u8>) -> FileStatus)
    requires
        is_vacant(path, host),
        crate::path::is_file_name(name),
    ensures
        is_vacant(crate::path::joined(path, name), host),
        host(crate::path::joined(path, name)) is Missing,
{
    let entry = crate::path::joined(path, name);
    crate::path::law_joined_within(path, path, name);
    assert(host(entry) is Missing);
    assert forall|other: Seq<u8>|
        crate::path::is_within(entry, other) implies #[trigger] host(other) is Missing by {
        let parts = crate::path::path_components(other);
        let above = crate::path::path_components(path);
        assert(above =~= parts.take(above.len() as int)) by {
            assert(crate::path::path_components(entry) =~= parts.take(
                crate::path::path_components(entry).len() as int,
            ));
        }
        assert(crate::path::is_within(path, other));
    }
}

proof fn lemma_mirrored_tree(
    tree: Tree,
    source: Seq<u8>,
    target: Seq<u8>,
    top: Seq<u8>,
    host: spec_fn(Seq<u8>) -> FileStatus,
)
    requires
        tree.is_valid(),
        crate::path::is_within(crate::path::sanitized(top), destination(source, target, host)),
        is_vacant(destination(source, target, host), host),
    ensures
        tree.outcome(source, target, host) == (UploadOutcome {
            sent: mirrored(tree.files(), source, destination(source, target, host)),
            directories: mirrored(tree.directories(), source, destination(source, target, host)),
            complete: true,
        }),
    decreases tree,
{
    let remote = destination(source, target, host);
    assert(crate::path::is_within(remote, remote));
    match tree {
        Tree::File => {
            assert(mirrored(tree.files(), source, remote) =~= seq![(source, remote)]);
            assert(mirrored(tree.directories(), source, remote) =~= Seq::empty());
        },
        Tree::Directory { entries } => {
            assert(host(remote) is Missing);
            lemma_mirrored_entries(*entries, source, remote, top, host);
            lemma_mirrored_directory(entries.directories(), source, remote);
        },
    }
}

proof fn lemma_mirrored_entries(
    entries: Listing,
    local: Seq<u8>,
    remote: Seq<u8>,
    top: Seq<u8>,
    host: spec_fn(Seq<u8>) -> FileStatus,
)
    requires
        entries.is_valid(),
        crate::path::is_within(crate::path::sanitized(top), remote),
        is_vacant(remote, host),
    ensures
        entries.outcome(local, remote, host) == (UploadOutcome {
            sent: mirrored(entries.files(), local, remote),
            directories: mirrored(entries.directories(), local, remote),
            complete: true,
        }),
    decreases entries,
{
    match entries {
        Listing::Empty => {
            assert(mirrored(entries.files(), local, remote) =~= Seq::empty());
            assert(mirrored(entries.directories(), local, remote) =~= Seq::empty());
        },
        Listing::Entry { name, tree, rest } => {
            let source = crate::path::joined(local, name);
            let target = crate::path::joined(remote, name);
            crate::path::law_sanitized_joined(top, remote, name);
            crate::path::law_joined_within(crate::path::sanitized(top), remote, name);
            lemma_vacant_entry(remote, name, host);
            assert(destination(source, target, host) == target);
            lemma_mirrored_tree(*tree, source, target, top, host);
            lemma_mirrored_entries(*rest, local, remote, top, host);
            lemma_mirrored_prefixed(name, tree.files(), rest.files(), local, remote);
            lemma_mirrored_prefixed(name, tree.directories(), rest.directories(), local, remote);
        },
    }
}

/// A directory tree arrives in the shape that it has: where the remote host has nothing yet, every
/// file of the tree is sent and every directory created, at the path below the destination of the
/// tree that mirrors its own path below the source.
pub proof fn law_upload_mirrors_the_tree(
    tree: Tree,
    source: Seq<u8>,
    target: Seq<u8>,
    host: spec_fn(Seq<u8>) -> FileStatus,
)
    requires
        tree.is_valid(),
        crate::path::path_file_name(source) is Some,
        is_vacant(destination(source, target, host), host),
    ensures
        tree.outcome(source, target, host) == (UploadOutcome {
            sent: mirrored(tree.files(), source, destination(source, target, host)),
            directories: mirrored(tree.directories(), source, destination(source, target, host)),
            complete: true,
        }),
{
    let base = crate::path::sanitized(target);
    let name = crate::path::path_file_name(source)->0;
    crate::path::law_joined_within(base, base, name);
    lemma_mirrored_tree(tree, source, target, target, host);
}

/// How a download ends.
pub enum DownloadEnd {
    /// Everything is fetched.
    Complete,
    /// A directory could not be created because a file is there.
    Refused,
}

/// What a download achieves.
#[verifier::ext_equal]
pub struct DownloadOutcome {
    /// The files that are fetched, in order, each with its remote and its local path.
    pub files: Seq<(Seq<u8>, Seq<u8>)>,
    /// The directories that the local host has then, in order, each with its remote and its local
    /// path.
    pub directories: Seq<(Seq<u8>, Seq<u8>)>,
    /// How the download ends.
    pub end: DownloadEnd,
}

/// Where the local host gets what is fetched from the remote path `remote` to `local`, if `host`
/// tells what it finds at its paths.
pub open spec fn local_destination(
    remote: Seq<u8>,
    local: Seq<u8>,
    host: spec_fn(Seq<u8>) -> FileStatus,
) -> Seq<u8> {
    crate::transfer::placed(local, host(local), crate::path::path_file_name(remote)->0)
}

impl Tree {
    /// What the download of the tree at `remote` to `local` achieves: a file is written to its
    /// destination, and the entries of a directory go below the destination of the directory.
    pub open spec fn fetched(
        self,
        remote: Seq<u8>,
        local: Seq<u8>,
        host: spec_fn(Seq<u8>) -> FileStatus,
    ) -> DownloadOutcome
        decreases self,
    {
        let place = local_destination(remote, local, host);
        match self {
            Tree::File => DownloadOutcome {
                files: seq![(remote, place)],
                directories: Seq::empty(),
                end: DownloadEnd::Complete,
            },
            Tree::Directory { entries } => if host(local) is File {
                DownloadOutcome {
                    files: Seq::empty(),
                    directories: Seq::empty(),
                    end: DownloadEnd::Refused,
                }
            } else {
                let others = entries.fetched(remote, place, host);
                DownloadOutcome {
                    directories: seq![(remote, place)] + others.directories,
                    ..others
                }
            },
        }
    }

    /// What the download of the tree from `source` to `target` achieves.
    pub open spec fn downloaded(
        self,
        source: Seq<u8>,
        target: Seq<u8>,
        host: spec_fn(Seq<u8>) -> FileStatus,
    ) -> DownloadOutcome {
        self.fetched(crate::path::sanitized(source), target, host)
    }
}

impl Listing {
    /// What the download of the entries of the directory `remote` to the directory `local`
    /// achieves: one entry is fetched after the other, up to the first that cannot be.
    pub open spec fn fetched(
        self,
        remote: Seq<u8>,
        local: Seq<u8>,
        host: spec_fn(Seq<u8>) -> FileStatus,
    ) -> DownloadOutcome
        decreases self,
    {
        match self {
            Listing::Empty => DownloadOutcome {
                files: Seq::empty(),
                directories: Seq::empty(),
                end: DownloadEnd::Complete,
            },
            Listing::Entry { name, tree, rest } => {
                let first = tree.fetched(
                    crate::path::joined(remote, name),
                    crate::path::joined(local, name),
                    host,
                );
                if first.end is Complete {
                    let others = rest.fetched(remote, local, host);
                    DownloadOutcome {
                        files: first.files + others.files,
                        directories: first.directories + others.directories,
                        ..others
                    }
                } else {
                    first
                }
            },
        }
    }

    /// The names of the entries.
    pub open spec fn names(self) -> Seq<Seq<u8>>
        decreases self,
    {
        match self {
            Listing::Empty => Seq::empty(),
            Listing::Entry { name, tree, rest } => seq![name] + rest.names(),
        }
    }
}

/// The entry that is fetched next, and the entries that are left in each directory then, the
/// innermost last.
pub open spec fn next_entry(listings: Seq<Listing>) -> (Tree, Seq<Listing>)
    decreases listings.len(),
{
    if listings.len() == 0 {
        (Tree::File, listings)
    } else {
        match listings.last() {
            Listing::Empty => next_entry(listings.drop_last()),
            Listing::Entry { name, tree, rest } => (*tree, listings.drop_last().push(*rest)),
        }
    }
}

/// A download while it runs.
#[verifier::ext_equal]
pub struct DownloadRun {
    /// The state of the download.
    pub download: DownloadState,
    /// What is found at the remote path that is being fetched.
    pub tree: Tree,
    /// The entries that are left in each directory that is being fetched, the innermost last.
    pub listings: Seq<Listing>,
    /// The files that were fetched so far, each with its remote and its local path.
    pub files: Seq<(Seq<u8>, Seq<u8>)>,
    /// The directories that were found or created so far, each with its remote and its local path.
    pub directories: Seq<(Seq<u8>, Seq<u8>)>,
}

impl DownloadRun {
    /// The start of the download of `tree` from `source` to `target`.
    pub open spec fn start(tree: Tree, source: Seq<u8>, target: Seq<u8>) -> DownloadRun {
        DownloadRun {
            download: DownloadState::start(source, target),
            tree,
            listings: Seq::empty(),
            files: Seq::empty(),
            directories: Seq::empty(),
        }
    }

    /// How the work that the download is waiting for turns out, or nothing if it is not waiting.
    pub open spec fn event(self, host: spec_fn(Seq<u8>) -> FileStatus) -> Option<
        DownloadEvent<Seq<Seq<u8>>>,
    > {
        match self.download.stage {
            DownloadStage::Examine { remote, local } => Some(
                DownloadEvent::Examined {
                    status: match self.tree {
                        Tree::File => FileStatus::File,
                        Tree::Directory { entries } => FileStatus::Directory,
                    },
                },
            ),
            DownloadStage::Place { remote, name, local } => Some(
                DownloadEvent::Examined { status: host(local) },
            ),
            DownloadStage::Receive { remote, name, local } => Some(DownloadEvent::Received),
            DownloadStage::Enter { remote, local } => Some(
                DownloadEvent::Examined { status: host(local) },
            ),
            DownloadStage::Probe { remote, local } => Some(
                DownloadEvent::Examined { status: host(local) },
            ),
            DownloadStage::MakeDirectory { remote, local } => Some(DownloadEvent::Created),
            DownloadStage::List { remote, local } => match self.tree {
                Tree::File => None,
                Tree::Directory { entries } => Some(
                    DownloadEvent::Listed { names: entries.names() },
                ),
            },
            DownloadStage::Done => None,
            DownloadStage::Failed { error } => None,
        }
    }

    /// The download once the work that it is waiting for is done. A download that does not take the
    /// event is stuck, and so is one that waits for the listing of a file.
    pub open spec fn step(self, host: spec_fn(Seq<u8>) -> FileStatus) -> DownloadRun {
        match self.event(host) {
            Some(event) => if self.download.accepts(event) {
                let next = DownloadRun { download: self.download.next(event), ..self };
                match self.download.stage {
                    DownloadStage::Receive { remote, name, local } => {
                        let (tree, listings) = next_entry(self.listings);
                        DownloadRun {
                            tree,
                            listings,
                            files: self.files.push((remote, local)),
                            ..next
                        }
                    },
                    DownloadStage::List { remote, local } => match self.tree {
                        Tree::File => next,
                        Tree::Directory { entries } => {
                            let (tree, listings) = next_entry(self.listings.push(*entries));
                            DownloadRun {
                                tree,
                                listings,
                                directories: self.directories.push((remote, local)),
                                ..next
                            }
                        },
                    },
                    _ => next,
                }
            } else {
                self
            },
            None => self,
        }
    }

    /// The download after a number of steps.
    pub open spec fn after(self, steps: nat, host: spec_fn(Seq<u8>) -> FileStatus) -> DownloadRun
        decreases steps,
    {
        if steps == 0 {
            self
        } else {
            self.step(host).after((steps - 1) as nat, host)
        }
    }
}

proof fn lemma_download_after_sum(
    run: DownloadRun,
    first: nat,
    second: nat,
    host: spec_fn(Seq<u8>) -> FileStatus,
)
    ensures
        run.after(first + second, host) == run.after(first, host).after(second, host),
    decreases first,
{
    if first > 0 {
        lemma_download_after_sum(run.step(host), (first - 1) as nat, second, host);
    }
}

proof fn lemma_names_are_valid(entries: Listing)
    requires
        entries.is_valid(),
    ensures
        crate::download::are_file_names(entries.names()),
    decreases entries,
{
    if let Listing::Entry { name, tree, rest } = entries {
        lemma_names_are_valid(*rest);
        let names = entries.names();
        assert forall|i: int| 0 <= i < names.len() implies crate::path::is_file_name(
            #[trigger] names[i],
        ) by {
            if i > 0 {
                assert(names[i] == rest.names()[i - 1]);
            }
        }
    }
}

/// Whether the name of what is fetched from `remote` to `local` is known wherever it is needed: for
/// a file, and for a directory that goes into another one.
pub open spec fn has_needed_name(
    tree: Tree,
    remote: Seq<u8>,
    local: Seq<u8>,
    host: spec_fn(Seq<u8>) -> FileStatus,
) -> bool {
    tree is File || host(local) is Directory ==> crate::path::path_file_name(remote) is Some
}

/// Whether `end` is where a download with this outcome gets from `run`, if it then goes on with
/// `folders` and `listings`.
spec fn is_download_end(
    run: DownloadRun,
    end: DownloadRun,
    outcome: DownloadOutcome,
    folders: Seq<RemoteFolder<Seq<u8>, Seq<Seq<u8>>>>,
    listings: Seq<Listing>,
) -> bool {
    &&& end.files == run.files + outcome.files
    &&& end.directories == run.directories + outcome.directories
    &&& match outcome.end {
        DownloadEnd::Complete => {
            &&& end.download == DownloadState::resume(folders)
            &&& (end.tree, end.listings) == next_entry(listings)
        },
        DownloadEnd::Refused => end.download.stage == DownloadStage::<Seq<u8>>::Failed {
            error: TransferError::NotADirectory,
        },
    }
}

proof fn lemma_download_of_tree(
    run: DownloadRun,
    remote: Seq<u8>,
    local: Seq<u8>,
    host: spec_fn(Seq<u8>) -> FileStatus,
) -> (steps: nat)
    requires
        run.download.stage == (DownloadStage::Examine { remote, local }),
        has_needed_name(run.tree, remote, local, host),
        run.tree.is_valid(),
    ensures
        is_download_end(
            run,
            run.after(steps, host),
            run.tree.fetched(remote, local, host),
            run.download.folders,
            run.listings,
        ),
    decreases run.tree,
{
    let tree = run.tree;
    let outcome = tree.fetched(remote, local, host);
    let place = local_destination(remote, local, host);
    reveal_with_fuel(DownloadRun::after, 6);
    let examined = run.step(host);
    match tree {
        Tree::File => {
            let placed = examined.step(host);
            let end = placed.step(host);
            assert(run.after(3, host) == end);
            assert(end.files =~= run.files + outcome.files);
            assert(end.directories =~= run.directories + outcome.directories);
            3
        },
        Tree::Directory { entries } => {
            assert(examined.download.stage == (DownloadStage::Enter { remote, local }));
            let entered = examined.step(host);
            if host(local) is File {
                assert(run.after(2, host) == entered);
                assert(entered.files =~= run.files + outcome.files);
                assert(entered.directories =~= run.directories + outcome.directories);
                2
            } else {
                let steps: nat = if host(place) is Missing {
                    4
                } else {
                    3
                };
                let ready = run.after(steps, host);
                assert(ready.download.stage == (DownloadStage::List { remote, local: place }));
                assert(ready.download.folders == run.download.folders);
                lemma_names_are_valid(*entries);
                let listed = ready.step(host);
                lemma_download_after_sum(run, steps, 1, host);
                assert(ready.after(1, host) == listed);
                let others = lemma_download_of_entries(
                    listed,
                    remote,
                    place,
                    *entries,
                    run.download.folders,
                    run.listings,
                    host,
                );
                lemma_download_after_sum(run, steps + 1, others, host);
                let end = listed.after(others, host);
                assert(end.files =~= run.files + outcome.files);
                assert(end.directories =~= run.directories + outcome.directories);
                steps + 1 + others
            }
        },
    }
}

proof fn lemma_download_of_entries(
    run: DownloadRun,
    remote: Seq<u8>,
    local: Seq<u8>,
    entries: Listing,
    folders: Seq<RemoteFolder<Seq<u8>, Seq<Seq<u8>>>>,
    listings: Seq<Listing>,
    host: spec_fn(Seq<u8>) -> FileStatus,
) -> (steps: nat)
    requires
        run.download == DownloadState::resume(
            folders.push(RemoteFolder { remote, local, names: entries.names() }),
        ),
        (run.tree, run.listings) == next_entry(listings.push(entries)),
        entries.is_valid(),
    ensures
        is_download_end(
            run,
            run.after(steps, host),
            entries.fetched(remote, local, host),
            folders,
            listings,
        ),
    decreases entries,
{
    let outcome = entries.fetched(remote, local, host);
    let all = folders.push(RemoteFolder { remote, local, names: entries.names() });
    assert(all.drop_last() =~= folders);
    assert(listings.push(entries).drop_last() =~= listings);
    match entries {
        Listing::Empty => {
            assert(run.files + outcome.files =~= run.files);
            assert(run.directories + outcome.directories =~= run.directories);
            0
        },
        Listing::Entry { name, tree, rest } => {
            let entry_remote = crate::path::joined(remote, name);
            let entry_local = crate::path::joined(local, name);
            crate::path::law_joined_components(remote, name);
            assert(entries.names().skip(1) =~= rest.names());
            assert(run.download.folders =~= folders.push(
                RemoteFolder { remote, local, names: rest.names() },
            ));
            let first = lemma_download_of_tree(run, entry_remote, entry_local, host);
            if tree.fetched(entry_remote, entry_local, host).end is Complete {
                let between = run.after(first, host);
                let others = lemma_download_of_entries(
                    between,
                    remote,
                    local,
                    *rest,
                    folders,
                    listings,
                    host,
                );
                lemma_download_after_sum(run, first, others, host);
                let end = between.after(others, host);
                assert(end.files =~= run.files + outcome.files);
                assert(end.directories =~= run.directories + outcome.directories);
                first + others
            } else {
                first
            }
        },
    }
}

/// A download fetches every file and creates every directory of a directory tree, each at its own
/// destination and in the order in which the directories list them. It ends after a number of steps,
/// and fails only if a directory has to be created where the local host has a file.
///
/// The local host may hold anything and does what it is asked to, but what it finds at a path that it
/// is asked about must not depend on when it is asked.
pub proof fn law_download_of_tree(
    tree: Tree,
    source: Seq<u8>,
    target: Seq<u8>,
    host: spec_fn(Seq<u8>) -> FileStatus,
) -> (steps: nat)
    requires
        tree.is_valid(),
        has_needed_name(tree, crate::path::sanitized(source), target, host),
    ensures
        ({
            let end = DownloadRun::start(tree, source, target).after(steps, host);
            let outcome = tree.downloaded(source, target, host);
            &&& end.files == outcome.files
            &&& end.directories == outcome.directories
            &&& match outcome.end {
                DownloadEnd::Complete => end.download.stage is Done,
                DownloadEnd::Refused => end.download.stage == DownloadStage::<Seq<u8>>::Failed {
                    error: TransferError::NotADirectory,
                },
            }
        }),
{
    let start = DownloadRun::start(tree, source, target);
    let outcome = tree.downloaded(source, target, host);
    let steps = lemma_download_of_tree(start, crate::path::sanitized(source), target, host);
    assert(start.files + outcome.files =~= outcome.files);
    assert(start.directories + outcome.directories =~= outcome.directories);
    steps
}

proof fn lemma_fetched_tree_is_mirrored(
    tree: Tree,
    remote: Seq<u8>,
    local: Seq<u8>,
    host: spec_fn(Seq<u8>) -> FileStatus,
)
    requires
        tree.is_valid(),
        tree is Directory ==> !(host(local) is File),
        is_vacant(local_destination(remote, local, host), host),
    ensures
        tree.fetched(remote, local, host) == (DownloadOutcome {
            files: mirrored(tree.files(), remote, local_destination(remote, local, host)),
            directories: mirrored(
                tree.directories(),
                remote,
                local_destination(remote, local, host),
            ),
            end: DownloadEnd::Complete,
        }),
    decreases tree,
{
    let place = local_destination(remote, local, host);
    match tree {
        Tree::File => {
            assert(mirrored(tree.files(), remote, place) =~= seq![(remote, place)]);
            assert(mirrored(tree.directories(), remote, place) =~= Seq::empty());
        },
        Tree::Directory { entries } => {
            lemma_fetched_entries_are_mirrored(*entries, remote, place, host);
            lemma_mirrored_directory(entries.directories(), remote, place);
        },
    }
}

proof fn lemma_fetched_entries_are_mirrored(
    entries: Listing,
    remote: Seq<u8>,
    local: Seq<u8>,
    host: spec_fn(Seq<u8>) -> FileStatus,
)
    requires
        entries.is_valid(),
        is_vacant(local, host),
    ensures
        entries.fetched(remote, local, host) == (DownloadOutcome {
            files: mirrored(entries.files(), remote, local),
            directories: mirrored(entries.directories(), remote, local),
            end: DownloadEnd::Complete,
        }),
    decreases entries,
{
    match entries {
        Listing::Empty => {
            assert(mirrored(entries.files(), remote, local) =~= Seq::empty());
            assert(mirrored(entries.directories(), remote, local) =~= Seq::empty());
        },
        Listing::Entry { name, tree, rest } => {
            let entry_remote = crate::path::joined(remote, name);
            let entry_local = crate::path::joined(local, name);
            lemma_vacant_entry(local, name, host);
            assert(local_destination(entry_remote, entry_local, host) == entry_local);
            lemma_fetched_tree_is_mirrored(*tree, entry_remote, entry_local, host);
            lemma_fetched_entries_are_mirrored(*rest, remote, local, host);
            lemma_mirrored_prefixed(name, tree.files(), rest.files(), remote, local);
            lemma_mirrored_prefixed(name, tree.directories(), rest.directories(), remote, local);
        },
    }
}

/// A directory tree is fetched in the shape that it has: where the local host has nothing yet, every
/// file of the tree is fetched and every directory created, at the path below the destination of the
/// tree that mirrors its own path below the source.
pub proof fn law_download_mirrors_the_tree(
    tree: Tree,
    source: Seq<u8>,
    target: Seq<u8>,
    host: spec_fn(Seq<u8>) -> FileStatus,
)
    requires
        tree.is_valid(),
        has_needed_name(tree, crate::path::sanitized(source), target, host),
        is_vacant(local_destination(crate::path::sanitized(source), target, host), host),
    ensures
        ({
            let remote = crate::path::sanitized(source);
            let place = local_destination(remote, target, host);
            tree.downloaded(source, target, host) == (DownloadOutcome {
                files: mirrored(tree.files(), remote, place),
                directories: mirrored(tree.directories(), remote, place),
                end: DownloadEnd::Complete,
            })
        }),
{
    let remote = crate::path::sanitized(source);
    let place = local_destination(remote, target, host);
    assert(crate::path::is_within(place, place));
    assert(host(place) is Missing);
    lemma_fetched_tree_is_mirrored(tree, remote, target, host);
}

/// A directory tree that is uploaded to a place where nothing is arrives there, and one that is uploaded
/// to a directory without an entry of its name arrives under its name in that directory.
pub proof fn law_upload_finds_its_place(
    tree: Tree,
    source: Seq<u8>,
    target: Seq<u8>,
    name: Seq<u8>,
    host: spec_fn(Seq<u8>) -> FileStatus,
)
    requires
        tree.is_valid(),
        crate::path::path_file_name(source) == Some(name),
    ensures
        ({
            let base = crate::path::sanitized(target);
            let inside = crate::path::joined(base, name);
            let outcome = tree.outcome(source, target, host);
            &&& is_vacant(base, host) ==> outcome.complete && outcome.sent == mirrored(
                tree.files(),
                source,
                base,
            ) && outcome.directories == mirrored(tree.directories(), source, base)
            &&& host(base) is Directory && is_vacant(inside, host) ==> outcome.complete
                && outcome.sent == mirrored(tree.files(), source, inside) && outcome.directories
                == mirrored(tree.directories(), source, inside)
        }),
{
    let base = crate::path::sanitized(target);
    if is_vacant(base, host) {
        assert(crate::path::is_within(base, base));
        assert(host(base) is Missing);
        law_upload_mirrors_the_tree(tree, source, target, host);
    }
    if host(base) is Directory && is_vacant(crate::path::joined(base, name), host) {
        law_upload_mirrors_the_tree(tree, source, target, host);
    }
}

/// A directory tree that is downloaded to a place where nothing is arrives there, and one that is
/// downloaded to a directory without an entry of its name arrives under its name in that directory.
pub proof fn law_download_finds_its_place(
    tree: Tree,
    source: Seq<u8>,
    target: Seq<u8>,
    name: Seq<u8>,
    host: spec_fn(Seq<u8>) -> FileStatus,
)
    requires
        tree.is_valid(),
        crate::path::path_file_name(crate::path::sanitized(source)) == Some(name),
    ensures
        ({
            let remote = crate::path::sanitized(source);
            let inside = crate::path::joined(target, name);
            let outcome = tree.downloaded(source, target, host);
            &&& is_vacant(target, host) ==> outcome.end is Complete && outcome.files == mirrored(
                tree.files(),
                remote,
                target,
            ) && outcome.directories == mirrored(tree.directories(), remote, target)
            &&& host(target) is Directory && is_vacant(inside, host) ==> outcome.end is Complete
                && outcome.files == mirrored(tree.files(), remote, inside) && outcome.directories
                == mirrored(tree.directories(), remote, inside)
        }),
{
    if is_vacant(target, host) {
        assert(crate::path::is_within(target, target));
        assert(host(target) is Missing);
        law_download_mirrors_the_tree(tree, source, target, host);
    }
    if host(target) is Directory && is_vacant(crate::path::joined(target, name), host) {
        law_download_mirrors_the_tree(tree, source, target, host);
    }
}

} // verus!
