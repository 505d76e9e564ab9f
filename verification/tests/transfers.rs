//! Uploads, downloads, and the plan of a copy.

use rutty::download::{Download, DownloadEvent, DownloadStage};
use rutty::scp::{plan_scp_transfer, ScpStep};
use rutty::transfer::{shown_name, FileStatus, TransferError, DIRECTORY_MODE};
use rutty::upload::{Upload, UploadEvent, UploadStage};

fn bytes(s: &str) -> Vec<u8> {
    s.as_bytes().to_vec()
}

fn strings(list: &[&str]) -> Vec<String> {
    list.iter().map(|s| s.to_string()).collect()
}

fn up(upload: &mut Upload, event: UploadEvent<Vec<u8>>) {
    assert!(upload.accepts(&event), "{:?} does not accept {:?}", upload, event);
    upload.step(event);
}

fn down(download: &mut Download, event: DownloadEvent<Vec<Vec<u8>>>) {
    assert!(download.accepts(&event), "{:?} does not accept {:?}", download, event);
    download.step(event);
}

#[test]
fn upload_of_a_file_into_a_directory() {
    let mut upload = Upload::new(b"/home/me/a.txt", b"~/docs");
    assert_eq!(
        *upload.stage(),
        UploadStage::Open { source: bytes("/home/me/a.txt"), target: bytes("~/docs") }
    );
    up(&mut upload, UploadEvent::Opened { directory: false });
    assert_eq!(
        *upload.stage(),
        UploadStage::Place {
            source: bytes("/home/me/a.txt"),
            name: bytes("a.txt"),
            remote: bytes("./docs"),
            directory: false
        }
    );
    up(&mut upload, UploadEvent::Examined { status: FileStatus::Directory });
    assert_eq!(*upload.stage(), UploadStage::Send { name: bytes("a.txt"), remote: bytes("./docs/a.txt") });
    up(&mut upload, UploadEvent::Sent);
    assert_eq!(*upload.stage(), UploadStage::Done);
}

#[test]
fn upload_of_a_file_under_another_name() {
    for status in [FileStatus::File, FileStatus::Missing] {
        let mut upload = Upload::new(b"a.txt", b"b.txt");
        up(&mut upload, UploadEvent::Opened { directory: false });
        up(&mut upload, UploadEvent::Examined { status });
        assert_eq!(*upload.stage(), UploadStage::Send { name: bytes("a.txt"), remote: bytes("b.txt") });
    }
}

#[test]
fn upload_of_a_directory() {
    let mut upload = Upload::new(b"src", b"~");
    up(&mut upload, UploadEvent::Opened { directory: true });
    up(&mut upload, UploadEvent::Examined { status: FileStatus::Directory });
    assert_eq!(*upload.stage(), UploadStage::Check { source: bytes("src"), remote: bytes("./src") });
    up(&mut upload, UploadEvent::Examined { status: FileStatus::Missing });
    assert_eq!(*upload.stage(), UploadStage::MakeDirectory { source: bytes("src"), remote: bytes("./src") });
    up(&mut upload, UploadEvent::Created);
    assert_eq!(*upload.stage(), UploadStage::List { source: bytes("src"), remote: bytes("./src") });
    up(&mut upload, UploadEvent::Listed);
    assert_eq!(*upload.stage(), UploadStage::NextEntry);

    up(&mut upload, UploadEvent::Entry { name: bytes("a") });
    assert_eq!(*upload.stage(), UploadStage::Open { source: bytes("src/a"), target: bytes("./src/a") });
    up(&mut upload, UploadEvent::Opened { directory: false });
    up(&mut upload, UploadEvent::Examined { status: FileStatus::Missing });
    assert_eq!(*upload.stage(), UploadStage::Send { name: bytes("a"), remote: bytes("./src/a") });
    up(&mut upload, UploadEvent::Sent);
    assert_eq!(*upload.stage(), UploadStage::NextEntry);

    up(&mut upload, UploadEvent::Entry { name: bytes("sub") });
    up(&mut upload, UploadEvent::Opened { directory: true });
    up(&mut upload, UploadEvent::Examined { status: FileStatus::Missing });
    up(&mut upload, UploadEvent::Examined { status: FileStatus::Missing });
    up(&mut upload, UploadEvent::Created);
    up(&mut upload, UploadEvent::Listed);
    up(&mut upload, UploadEvent::Entry { name: bytes("b") });
    assert_eq!(
        *upload.stage(),
        UploadStage::Open { source: bytes("src/sub/b"), target: bytes("./src/sub/b") }
    );
    up(&mut upload, UploadEvent::Opened { directory: false });
    up(&mut upload, UploadEvent::Examined { status: FileStatus::File });
    up(&mut upload, UploadEvent::Sent);
    up(&mut upload, UploadEvent::EndOfDirectory);
    assert_eq!(*upload.stage(), UploadStage::NextEntry);
    up(&mut upload, UploadEvent::EndOfDirectory);
    assert_eq!(*upload.stage(), UploadStage::Done);
    assert!(!upload.accepts(&UploadEvent::EndOfDirectory));
}

#[test]
fn upload_into_a_directory_that_is_already_there() {
    let mut upload = Upload::new(b"src", b"dst");
    up(&mut upload, UploadEvent::Opened { directory: true });
    up(&mut upload, UploadEvent::Examined { status: FileStatus::Directory });
    up(&mut upload, UploadEvent::Examined { status: FileStatus::Directory });
    assert_eq!(*upload.stage(), UploadStage::List { source: bytes("src"), remote: bytes("dst/src") });
}

#[test]
fn upload_of_a_directory_over_a_file() {
    let mut upload = Upload::new(b"src", b"dst");
    up(&mut upload, UploadEvent::Opened { directory: true });
    up(&mut upload, UploadEvent::Examined { status: FileStatus::File });
    up(&mut upload, UploadEvent::Examined { status: FileStatus::File });
    assert_eq!(*upload.stage(), UploadStage::Failed { error: TransferError::NotADirectory });
    assert_eq!(TransferError::NotADirectory.message(), "file exists and is not a directory");
    assert!(!upload.accepts(&UploadEvent::Listed));
}

#[test]
fn upload_needs_file_names() {
    let upload = Upload::new(b"/", b"dst");
    assert!(!upload.accepts(&UploadEvent::Opened { directory: true }));
    let upload = Upload::new(b"a/..", b"dst");
    assert!(!upload.accepts(&UploadEvent::Opened { directory: true }));
    let mut upload = Upload::new(b"src", b"dst");
    up(&mut upload, UploadEvent::Opened { directory: true });
    up(&mut upload, UploadEvent::Examined { status: FileStatus::Missing });
    up(&mut upload, UploadEvent::Examined { status: FileStatus::Directory });
    up(&mut upload, UploadEvent::Listed);
    assert!(!upload.accepts(&UploadEvent::Entry { name: bytes("..") }));
    assert!(!upload.accepts(&UploadEvent::Entry { name: bytes("../../etc") }));
    assert!(upload.accepts(&UploadEvent::Entry { name: bytes("etc") }));
}

#[test]
fn upload_takes_only_the_event_it_waits_for() {
    let upload = Upload::new(b"src", b"dst");
    assert!(!upload.accepts(&UploadEvent::Sent));
    assert!(!upload.accepts(&UploadEvent::Created));
    assert!(!upload.accepts(&UploadEvent::Listed));
    assert!(!upload.accepts(&UploadEvent::EndOfDirectory));
    assert!(!upload.accepts(&UploadEvent::Examined { status: FileStatus::File }));
    assert!(upload.accepts(&UploadEvent::Opened { directory: true }));
}

#[test]
fn download_of_a_file_into_a_directory() {
    let mut download = Download::new(b"~/a.txt", b"docs");
    assert_eq!(*download.stage(), DownloadStage::Examine { remote: bytes("./a.txt"), local: bytes("docs") });
    down(&mut download, DownloadEvent::Examined { status: FileStatus::File });
    assert_eq!(
        *download.stage(),
        DownloadStage::Place { remote: bytes("./a.txt"), name: bytes("a.txt"), local: bytes("docs") }
    );
    down(&mut download, DownloadEvent::Examined { status: FileStatus::Directory });
    assert_eq!(
        *download.stage(),
        DownloadStage::Receive { remote: bytes("./a.txt"), name: bytes("a.txt"), local: bytes("docs/a.txt") }
    );
    down(&mut download, DownloadEvent::Received);
    assert_eq!(*download.stage(), DownloadStage::Done);
    assert!(!download.accepts(&DownloadEvent::Received));
}

#[test]
fn download_of_a_file_under_another_name() {
    for status in [FileStatus::File, FileStatus::Missing] {
        let mut download = Download::new(b"a.txt", b"b.txt");
        down(&mut download, DownloadEvent::Examined { status: FileStatus::File });
        down(&mut download, DownloadEvent::Examined { status });
        assert_eq!(
            *download.stage(),
            DownloadStage::Receive { remote: bytes("a.txt"), name: bytes("a.txt"), local: bytes("b.txt") }
        );
    }
}

#[test]
fn download_of_a_directory() {
    let mut download = Download::new(b"~/src", b"here");
    down(&mut download, DownloadEvent::Examined { status: FileStatus::Directory });
    assert_eq!(*download.stage(), DownloadStage::Enter { remote: bytes("./src"), local: bytes("here") });
    down(&mut download, DownloadEvent::Examined { status: FileStatus::Directory });
    assert_eq!(*download.stage(), DownloadStage::Probe { remote: bytes("./src"), local: bytes("here/src") });
    down(&mut download, DownloadEvent::Examined { status: FileStatus::Missing });
    assert_eq!(
        *download.stage(),
        DownloadStage::MakeDirectory { remote: bytes("./src"), local: bytes("here/src") }
    );
    down(&mut download, DownloadEvent::Created);
    assert_eq!(*download.stage(), DownloadStage::List { remote: bytes("./src"), local: bytes("here/src") });
    down(&mut download, DownloadEvent::Listed { names: vec![bytes("a"), bytes("f"), bytes("b")] });
    assert_eq!(
        *download.stage(),
        DownloadStage::Examine { remote: bytes("./src/a"), local: bytes("here/src/a") }
    );
    down(&mut download, DownloadEvent::Examined { status: FileStatus::Directory });
    assert_eq!(
        *download.stage(),
        DownloadStage::Enter { remote: bytes("./src/a"), local: bytes("here/src/a") }
    );
    down(&mut download, DownloadEvent::Examined { status: FileStatus::Missing });
    down(&mut download, DownloadEvent::Examined { status: FileStatus::Missing });
    down(&mut download, DownloadEvent::Created);
    assert_eq!(
        *download.stage(),
        DownloadStage::List { remote: bytes("./src/a"), local: bytes("here/src/a") }
    );
    down(&mut download, DownloadEvent::Listed { names: vec![] });
    assert_eq!(
        *download.stage(),
        DownloadStage::Examine { remote: bytes("./src/f"), local: bytes("here/src/f") }
    );
    down(&mut download, DownloadEvent::Examined { status: FileStatus::File });
    assert_eq!(
        *download.stage(),
        DownloadStage::Place { remote: bytes("./src/f"), name: bytes("f"), local: bytes("here/src/f") }
    );
    down(&mut download, DownloadEvent::Examined { status: FileStatus::Missing });
    assert_eq!(
        *download.stage(),
        DownloadStage::Receive { remote: bytes("./src/f"), name: bytes("f"), local: bytes("here/src/f") }
    );
    down(&mut download, DownloadEvent::Received);
    assert_eq!(
        *download.stage(),
        DownloadStage::Examine { remote: bytes("./src/b"), local: bytes("here/src/b") }
    );
    down(&mut download, DownloadEvent::Examined { status: FileStatus::Directory });
    down(&mut download, DownloadEvent::Examined { status: FileStatus::Missing });
    down(&mut download, DownloadEvent::Examined { status: FileStatus::Directory });
    down(&mut download, DownloadEvent::Listed { names: vec![] });
    assert_eq!(*download.stage(), DownloadStage::Done);
}

#[test]
fn download_of_a_directory_over_a_file() {
    let mut download = Download::new(b"src", b"here");
    down(&mut download, DownloadEvent::Examined { status: FileStatus::Directory });
    down(&mut download, DownloadEvent::Examined { status: FileStatus::File });
    assert_eq!(*download.stage(), DownloadStage::Failed { error: TransferError::NotADirectory });
    assert!(!download.accepts(&DownloadEvent::Created));
}

#[test]
fn download_needs_file_names() {
    let download = Download::new(b"..", b"here");
    assert!(!download.accepts(&DownloadEvent::Examined { status: FileStatus::File }));
    assert!(!download.accepts(&DownloadEvent::Examined { status: FileStatus::Missing }));
    assert!(download.accepts(&DownloadEvent::Examined { status: FileStatus::Directory }));
    let mut download = Download::new(b"src", b"here");
    down(&mut download, DownloadEvent::Examined { status: FileStatus::Directory });
    down(&mut download, DownloadEvent::Examined { status: FileStatus::Missing });
    down(&mut download, DownloadEvent::Examined { status: FileStatus::File });
    assert!(!download.accepts(&DownloadEvent::Listed { names: vec![bytes("a"), bytes("..")] }));
    assert!(!download.accepts(&DownloadEvent::Listed { names: vec![bytes("/etc/passwd")] }));
    assert!(download.accepts(&DownloadEvent::Listed { names: vec![bytes("a"), bytes("b")] }));
}

#[test]
fn plan_of_an_upload() {
    assert_eq!(
        plan_scp_transfer(&strings(&["a", "b"]), "me@host:dir"),
        vec![
            ScpStep::ConnectTarget { remote: "me@host".to_string() },
            ScpStep::Upload { source: "a".to_string(), target: "dir".to_string() },
            ScpStep::Upload { source: "b".to_string(), target: "dir".to_string() },
        ]
    );
}

#[test]
fn plan_of_a_download() {
    assert_eq!(
        plan_scp_transfer(&strings(&["h1:a", "b", "h2:c:d"]), "dir"),
        vec![
            ScpStep::ConnectSource { remote: "h1".to_string() },
            ScpStep::Download { source: "a".to_string(), target: "dir".to_string() },
            ScpStep::Copy { source: "b".to_string(), target: "dir".to_string() },
            ScpStep::ConnectSource { remote: "h2".to_string() },
            ScpStep::Download { source: "c:d".to_string(), target: "dir".to_string() },
        ]
    );
}

#[test]
fn plan_between_remote_hosts_is_refused() {
    assert_eq!(
        plan_scp_transfer(&strings(&["a", "h1:b", "c"]), "h2:"),
        vec![
            ScpStep::ConnectTarget { remote: "h2".to_string() },
            ScpStep::Upload { source: "a".to_string(), target: "".to_string() },
            ScpStep::ConnectSource { remote: "h1".to_string() },
            ScpStep::Refuse { error: TransferError::BetweenRemoteHosts },
        ]
    );
    assert_eq!(
        TransferError::BetweenRemoteHosts.message(),
        "Cannot transfer files between two remote hosts"
    );
}

#[test]
fn plan_of_nothing() {
    assert_eq!(plan_scp_transfer(&[], "dir"), vec![]);
    assert_eq!(
        plan_scp_transfer(&[], "host:dir"),
        vec![ScpStep::ConnectTarget { remote: "host".to_string() }]
    );
}

#[test]
fn directories_are_created_group_writable() {
    assert_eq!(DIRECTORY_MODE, 0o775);
}

/// The entries of the directories of a small tree; whatever is not listed is a file.
fn entries_of(path: &str) -> Option<Vec<&'static str>> {
    match path {
        "/src" => Some(vec!["a", "sub", "b"]),
        "/src/sub" => Some(vec!["c", "empty"]),
        "/src/sub/empty" => Some(vec![]),
        _ => None,
    }
}

fn run_upload(source: &str, target: &str, status: fn(&str) -> FileStatus) -> (Vec<(String, String)>, bool) {
    let mut upload = Upload::new(source.as_bytes(), target.as_bytes());
    let mut path = String::new();
    let mut listings: Vec<Vec<&str>> = vec![];
    let mut sent = vec![];
    let text = |bytes: &Vec<u8>| String::from_utf8(bytes.clone()).unwrap();
    loop {
        let event = match upload.stage() {
            UploadStage::Open { source, .. } => {
                path = text(source);
                UploadEvent::Opened { directory: entries_of(&path).is_some() }
            }
            UploadStage::Place { remote, .. } | UploadStage::Check { remote, .. } => {
                UploadEvent::Examined { status: status(&text(remote)) }
            }
            UploadStage::MakeDirectory { .. } => UploadEvent::Created,
            UploadStage::List { source, .. } => {
                let mut entries = entries_of(&text(source)).unwrap();
                entries.reverse();
                listings.push(entries);
                UploadEvent::Listed
            }
            UploadStage::Send { remote, .. } => {
                sent.push((path.clone(), text(remote)));
                UploadEvent::Sent
            }
            UploadStage::NextEntry => match listings.last_mut().unwrap().pop() {
                Some(name) => UploadEvent::Entry { name: bytes(name) },
                None => {
                    listings.pop();
                    UploadEvent::EndOfDirectory
                }
            },
            UploadStage::Done => return (sent, true),
            UploadStage::Failed { .. } => return (sent, false),
        };
        up(&mut upload, event);
    }
}

fn pairs(list: &[(&str, &str)]) -> Vec<(String, String)> {
    list.iter().map(|(a, b)| (a.to_string(), b.to_string())).collect()
}

#[test]
fn uploaded_tree_keeps_its_shape() {
    let (sent, complete) = run_upload("/src", "~/dst", |_| FileStatus::Missing);
    assert_eq!(
        sent,
        pairs(&[("/src/a", "./dst/a"), ("/src/sub/c", "./dst/sub/c"), ("/src/b", "./dst/b")])
    );
    assert!(complete);
}

#[test]
fn uploaded_tree_goes_into_an_existing_directory() {
    let (sent, complete) = run_upload("/src", "dst", |path| match path {
        "dst" => FileStatus::Directory,
        _ => FileStatus::Missing,
    });
    assert_eq!(
        sent,
        pairs(&[("/src/a", "dst/src/a"), ("/src/sub/c", "dst/src/sub/c"), ("/src/b", "dst/src/b")])
    );
    assert!(complete);
}

#[test]
fn uploaded_tree_stops_where_a_file_is_in_the_way() {
    let (sent, complete) = run_upload("/src", "dst", |path| match path {
        "dst/sub" => FileStatus::File,
        _ => FileStatus::Missing,
    });
    assert_eq!(sent, pairs(&[("/src/a", "dst/a")]));
    assert!(!complete);
}

fn run_download(
    source: &str,
    target: &str,
    status: fn(&str) -> FileStatus,
) -> (Vec<(String, String)>, Vec<(String, String)>, bool) {
    let mut download = Download::new(source.as_bytes(), target.as_bytes());
    let mut files = vec![];
    let mut directories = vec![];
    let text = |bytes: &Vec<u8>| String::from_utf8(bytes.clone()).unwrap();
    loop {
        let event = match download.stage() {
            DownloadStage::Examine { remote, .. } => DownloadEvent::Examined {
                status: match entries_of(&text(remote)) {
                    Some(_) => FileStatus::Directory,
                    None => FileStatus::File,
                },
            },
            DownloadStage::Place { local, .. }
            | DownloadStage::Enter { local, .. }
            | DownloadStage::Probe { local, .. } => DownloadEvent::Examined { status: status(&text(local)) },
            DownloadStage::Receive { remote, local, .. } => {
                files.push((text(remote), text(local)));
                DownloadEvent::Received
            }
            DownloadStage::MakeDirectory { .. } => DownloadEvent::Created,
            DownloadStage::List { remote, local } => {
                directories.push((text(remote), text(local)));
                let entries = entries_of(&text(remote)).expect("a file cannot be listed");
                DownloadEvent::Listed { names: entries.into_iter().map(bytes).collect() }
            }
            DownloadStage::Done => return (files, directories, true),
            DownloadStage::Failed { .. } => return (files, directories, false),
        };
        down(&mut download, event);
    }
}

#[test]
fn downloaded_tree_keeps_its_shape() {
    let (files, directories, complete) = run_download("/src", "dst", |_| FileStatus::Missing);
    assert_eq!(files, pairs(&[("/src/a", "dst/a"), ("/src/sub/c", "dst/sub/c"), ("/src/b", "dst/b")]));
    assert_eq!(
        directories,
        pairs(&[("/src", "dst"), ("/src/sub", "dst/sub"), ("/src/sub/empty", "dst/sub/empty")])
    );
    assert!(complete);
}

#[test]
fn downloaded_tree_goes_into_an_existing_directory() {
    let (files, directories, complete) = run_download("/src", "dst", |path| match path {
        "dst" => FileStatus::Directory,
        _ => FileStatus::Missing,
    });
    assert_eq!(
        files,
        pairs(&[("/src/a", "dst/src/a"), ("/src/sub/c", "dst/src/sub/c"), ("/src/b", "dst/src/b")])
    );
    assert_eq!(directories[0], ("/src".to_string(), "dst/src".to_string()));
    assert!(complete);
}

#[test]
fn downloaded_tree_stops_where_a_file_is_in_the_way() {
    let (files, directories, complete) = run_download("/src", "dst", |path| match path {
        "dst/sub" => FileStatus::File,
        _ => FileStatus::Missing,
    });
    assert_eq!(files, pairs(&[("/src/a", "dst/a")]));
    assert_eq!(directories, pairs(&[("/src", "dst")]));
    assert!(!complete);
}

#[test]
fn download_of_a_directory_with_a_single_file() {
    let mut download = Download::new(b"source", b"target");
    down(&mut download, DownloadEvent::Examined { status: FileStatus::Directory });
    down(&mut download, DownloadEvent::Examined { status: FileStatus::Missing });
    down(&mut download, DownloadEvent::Examined { status: FileStatus::Missing });
    assert_eq!(*download.stage(), DownloadStage::MakeDirectory { remote: bytes("source"), local: bytes("target") });
    down(&mut download, DownloadEvent::Created);
    down(&mut download, DownloadEvent::Listed { names: vec![bytes("f")] });
    down(&mut download, DownloadEvent::Examined { status: FileStatus::File });
    down(&mut download, DownloadEvent::Examined { status: FileStatus::Missing });
    assert_eq!(
        *download.stage(),
        DownloadStage::Receive { remote: bytes("source/f"), name: bytes("f"), local: bytes("target/f") }
    );
    down(&mut download, DownloadEvent::Received);
    assert_eq!(*download.stage(), DownloadStage::Done);
}

#[test]
fn uploads_tell_why_they_cannot_go_on() {
    let mut upload = Upload::new(b"src", b"dst");
    assert_eq!(upload.refusal(&UploadEvent::Opened { directory: true }), None);
    assert_eq!(upload.refusal(&UploadEvent::Sent), Some("unexpected event"));
    let nameless = Upload::new(b"/", b"dst");
    assert_eq!(nameless.refusal(&UploadEvent::Opened { directory: true }), Some("invalid directory name"));
    assert_eq!(nameless.refusal(&UploadEvent::Opened { directory: false }), Some("invalid file name"));
    up(&mut upload, UploadEvent::Opened { directory: true });
    up(&mut upload, UploadEvent::Examined { status: FileStatus::Missing });
    up(&mut upload, UploadEvent::Examined { status: FileStatus::Directory });
    up(&mut upload, UploadEvent::Listed);
    assert_eq!(upload.refusal(&UploadEvent::Entry { name: bytes("..") }), Some("could not retrieve file name"));
}

#[test]
fn downloads_tell_why_they_cannot_go_on() {
    let mut download = Download::new(b"..", b"here");
    assert_eq!(
        download.refusal(&DownloadEvent::Examined { status: FileStatus::File }),
        Some("invalid file name")
    );
    assert_eq!(
        download.refusal(&DownloadEvent::Examined { status: FileStatus::Missing }),
        Some("unexpected event")
    );
    assert_eq!(download.refusal(&DownloadEvent::Received), Some("unexpected event"));
    down(&mut download, DownloadEvent::Examined { status: FileStatus::Directory });
    assert_eq!(
        download.refusal(&DownloadEvent::Examined { status: FileStatus::Directory }),
        Some("could not retrieve file name")
    );
    down(&mut download, DownloadEvent::Examined { status: FileStatus::Missing });
    down(&mut download, DownloadEvent::Examined { status: FileStatus::File });
    assert_eq!(
        download.refusal(&DownloadEvent::Listed { names: vec![bytes("a/b")] }),
        Some("could not retrieve file name")
    );
    assert_eq!(download.refusal(&DownloadEvent::Listed { names: vec![] }), None);
}

#[test]
fn names_are_shown_as_text() {
    assert_eq!(shown_name("n\u{e4}me".as_bytes()), Some("n\u{e4}me"));
    assert_eq!(shown_name(b""), Some(""));
    assert_eq!(shown_name(b"a\xff"), None);
}
