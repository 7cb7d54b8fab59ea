use std::path::{Component, Path, PathBuf};

use uniondesk::identity::DeviceId;
use uniondesk::paths::{config_dir, default_download_dir, ConfigDir, DirPath, PathPart};
use uniondesk::protocol::{FileChunk, FileEntry, TransferId};
use uniondesk::transfer::{
    average_rate, collect_entries, sanitize_component, sanitize_relative, total_size, unique_path,
    FileSender, FsKind, FsNode, IncomingTransfer, LocalPath, OutgoingFile, OutgoingTransfer,
    SenderStep, TransferError, UniqueStep, CHUNK_BYTES,
};
use uniondesk::view::TransferState;

fn parts(path: &Path) -> Vec<PathPart> {
    path.components()
        .map(|component| match component {
            Component::Prefix(p) => {
                PathPart::Prefix(p.as_os_str().to_string_lossy().to_string())
            }
            Component::RootDir => PathPart::Root,
            Component::CurDir => PathPart::Current,
            Component::ParentDir => PathPart::Parent,
            Component::Normal(name) => PathPart::Normal(name.to_string_lossy().to_string()),
        })
        .collect()
}

fn path_of(parts: &[PathPart]) -> PathBuf {
    let mut out = PathBuf::new();
    for part in parts {
        match part {
            PathPart::Prefix(text) | PathPart::Normal(text) => out.push(text),
            PathPart::Root => out.push("/"),
            PathPart::Current => out.push("."),
            PathPart::Parent => out.push(".."),
        }
    }
    out
}

#[test]
fn traversal_attempts_are_refused() {
    let root = &parts(Path::new("/tmp/root"));
    assert!(sanitize_relative("../../etc/passwd", root).is_err());
    assert!(sanitize_relative("/etc/passwd", root).is_err());
    assert!(sanitize_relative("C:/Windows/system32", root).is_err());
    assert!(sanitize_relative("a/../../b", root).is_err());
    assert!(sanitize_relative("..", root).is_err());
}

#[test]
fn nested_paths_land_under_the_root() {
    let root = PathBuf::from("/tmp/root");
    let resolved = path_of(&sanitize_relative("photos/2024/a.jpg", &parts(&root)).unwrap());
    assert_eq!(resolved, root.join("photos").join("2024").join("a.jpg"));
    assert!(resolved.starts_with(&root));
}

#[test]
fn windows_device_names_and_trailing_dots_are_refused() {
    assert!(sanitize_component("CON").is_err());
    assert!(sanitize_component("nul.txt").is_err());
    assert!(sanitize_component("report.").is_err());
    assert!(sanitize_component("report ").is_err());
    assert!(sanitize_component("report.txt").is_ok());
}

#[test]
fn every_unsafe_component_is_refused_by_name() {
    for bad in [
        "", ".", "..", " a", "a\u{3000}", "a/b", "a\\b", "a\0b", "a\tb", "com1", "LPT9.log",
        "aux.tar.gz", "prn", "x.",
    ] {
        assert_eq!(
            sanitize_component(bad),
            Err(TransferError::UnsafePath(bad.to_string())),
            "{bad:?}"
        );
    }
    for good in ["com0", "com10", "console", ".hidden", "a b", "a:b", "COM", "caf\u{e9}"] {
        assert_eq!(sanitize_component(good), Ok(good.to_string()));
    }
}

#[test]
fn backslashes_and_empty_pieces_count_as_separators() {
    let root = parts(Path::new("/r"));
    let landed = sanitize_relative("a\\\\b//c", &root).unwrap();
    assert_eq!(path_of(&landed), PathBuf::from("/r/a/b/c"));
    assert_eq!(
        sanitize_relative("", &root),
        Err(TransferError::UnsafePath(String::new()))
    );
    assert_eq!(
        sanitize_relative("ok/CON/x", &root),
        Err(TransferError::UnsafePath("CON".to_string()))
    );
    assert_eq!(
        sanitize_relative("a:b", &root),
        Err(TransferError::UnsafePath("a:b".to_string()))
    );
    let climbing = parts(Path::new("/r/../x"));
    assert_eq!(
        sanitize_relative("a", &climbing),
        Err(TransferError::UnsafePath("a".to_string()))
    );
}

fn pick(name: &str, taken: &[&str]) -> String {
    let mut asked = 0;
    let mut last = false;
    loop {
        match unique_path(name, asked, last) {
            UniqueStep::Ask(candidate) => {
                last = taken.contains(&candidate.as_str());
                asked += 1;
            }
            UniqueStep::Use(found) => return found,
        }
    }
}

#[test]
fn unique_path_never_steps_on_an_existing_file() {
    let second = pick("notes.txt", &["notes.txt"]);
    assert_ne!(second, "notes.txt");
    assert!(second.contains("notes (2)"));
    assert_eq!(second, "notes (2).txt");
}

#[test]
fn free_names_are_searched_in_order() {
    assert_eq!(pick("notes.txt", &[]), "notes.txt");
    assert_eq!(pick("a.tar.gz", &["a.tar.gz", "a.tar (2).gz"]), "a.tar (3).gz");
    assert_eq!(pick(".profile", &[".profile"]), ".profile (2)");
    assert_eq!(pick("plain", &["plain"]), "plain (2)");
    assert_eq!(
        unique_path("x.y", 9_998, true),
        UniqueStep::Ask("x (9999).y".to_string())
    );
    // However many names are taken, a taken one is never picked.
    assert_eq!(
        unique_path("x.y", 9_999, true),
        UniqueStep::Ask("x (10000).y".to_string())
    );
    assert_eq!(
        unique_path("x.y", 10_000, false),
        UniqueStep::Use("x (10000).y".to_string())
    );
}

fn node(text: &str, ticket: u64, kind: FsKind) -> FsNode {
    FsNode {
        path: LocalPath { text: format!("/src/{text}"), ticket },
        name: Some(text.to_string()),
        kind,
    }
}

#[test]
fn the_contents_of_a_folder_are_listed_by_name() {
    let file = |name: &str, ticket| node(name, ticket, FsKind::File { size: 1 });
    let tree = vec![
        file("z.txt", 1),
        node(
            "photos",
            2,
            FsKind::Folder(vec![
                file("b.jpg", 3),
                node("\u{e9}t\u{e9}", 4, FsKind::Folder(vec![file("2", 5), file("10", 6)])),
                file("B.jpg", 7),
                file("a.jpg", 8),
            ]),
        ),
        file("a.txt", 9),
    ];
    let files = collect_entries(&tree).unwrap();
    let shown: Vec<&str> = files.iter().map(|f| f.entry.relative_path.as_str()).collect();
    assert_eq!(
        shown,
        [
            "z.txt",
            "photos",
            "photos/B.jpg",
            "photos/a.jpg",
            "photos/b.jpg",
            "photos/\u{e9}t\u{e9}",
            "photos/\u{e9}t\u{e9}/10",
            "photos/\u{e9}t\u{e9}/2",
            "a.txt",
        ]
    );
    let sources: Vec<Option<u64>> =
        files.iter().map(|f| f.source.as_ref().map(|path| path.ticket)).collect();
    assert_eq!(sources[2..5], [Some(7), Some(8), Some(3)]);
    assert_eq!(sources[5], None);
}

#[test]
fn trees_are_flattened_with_their_structure() {
    let tree = vec![
        node(
            "photos",
            1,
            FsKind::Folder(vec![
                node("link", 2, FsKind::Symlink),
                node("raw", 3, FsKind::Folder(vec![node("a.jpg", 4, FsKind::File { size: 10 })])),
            ]),
        ),
        node("b.txt", 5, FsKind::File { size: 3 }),
    ];
    let files = collect_entries(&tree).unwrap();
    let shown: Vec<(u32, &str, bool, u64)> = files
        .iter()
        .map(|f| (f.entry.index, f.entry.relative_path.as_str(), f.entry.is_dir, f.entry.size))
        .collect();
    assert_eq!(
        shown,
        vec![
            (0, "photos", true, 0),
            (1, "photos/raw", true, 0),
            (2, "photos/raw/a.jpg", false, 10),
            (3, "b.txt", false, 3),
        ]
    );
    assert!(files[0].source.is_none());
    assert_eq!(files[2].source.as_ref().unwrap().ticket, 4);
    // The receiving side accepts what was offered.
    let root = parts(Path::new("/r"));
    for file in &files {
        assert!(sanitize_relative(&file.entry.relative_path, &root).is_ok());
    }
}

#[test]
fn the_first_error_of_a_walk_is_reported() {
    let broken = vec![node("x", 1, FsKind::Unreadable("denied".to_string()))];
    let err = collect_entries(&broken).unwrap_err();
    assert_eq!(err.message(), "i/o error on /src/x: denied");
    let listing = vec![node("d", 1, FsKind::UnreadableFolder("denied".to_string()))];
    assert_eq!(collect_entries(&listing).unwrap_err().message(), "i/o error on /src/d: denied");
    let nameless = vec![FsNode {
        path: LocalPath { text: "/".to_string(), ticket: 1 },
        name: None,
        kind: FsKind::Folder(Vec::new()),
    }];
    assert_eq!(collect_entries(&nameless).unwrap_err().message(), "/ has no file name");
    let reserved = vec![node("nul", 1, FsKind::File { size: 1 })];
    assert_eq!(
        collect_entries(&reserved).unwrap_err().message(),
        "path is not safe to write: nul"
    );
    assert_eq!(
        TransferError::UnknownTransfer.message(),
        "the peer sent data for an unknown transfer"
    );
    assert!(collect_entries(&Vec::new()).unwrap().is_empty());
}

fn entry(index: u32, size: u64) -> FileEntry {
    FileEntry {
        index,
        name: format!("f{index}"),
        relative_path: format!("d/f{index}"),
        size,
        is_dir: false,
    }
}

#[test]
fn sizes_add_up() {
    assert_eq!(total_size(&vec![entry(0, 5), entry(1, 6)]), Some(11));
    assert_eq!(total_size(&vec![entry(0, u64::MAX), entry(1, 1)]), None);
}

#[test]
fn transfers_start_at_zero() {
    let root = DirPath { text: "/dl".to_string(), parts: parts(Path::new("/dl")) };
    let incoming = IncomingTransfer::new(
        TransferId(4),
        DeviceId::from_text("p"),
        "Peer".to_string(),
        vec![entry(5, 1), entry(9, 2)],
        root,
        77,
    );
    assert_eq!(incoming.total_bytes, 3);
    assert_eq!(incoming.position_of(9), Some(1));
    assert_eq!(incoming.position_of(7), None);
    let view = incoming.view(TransferState::Pending, 8, None);
    assert!(view.needs_acceptance);
    assert_eq!(view.destination, Some("/dl".to_string()));
    assert_eq!(view.files[1].done_bytes, 0);
    assert_eq!(view.bytes_per_second, 8);
    let outgoing = OutgoingTransfer::new(
        TransferId(5),
        DeviceId::from_text("p"),
        "Peer".to_string(),
        vec![OutgoingFile { entry: entry(0, 9), source: None }],
        77,
    );
    assert_eq!(outgoing.total_bytes, 9);
    assert_eq!(outgoing.entries(), vec![entry(0, 9)]);
    let view = outgoing.view(TransferState::Pending, 0);
    assert!(!view.needs_acceptance);
    assert_eq!(view.destination, None);
}

#[test]
fn rates_are_averages_over_whole_seconds() {
    assert_eq!(average_rate(10, 1000, 14), 250);
    assert_eq!(average_rate(10, 1000, 10), 1000);
    assert_eq!(average_rate(10, 1000, 5), 1000);
}

#[test]
fn the_sender_walks_its_files_chunk_by_chunk() {
    let source = |ticket| Some(LocalPath { text: format!("/s/{ticket}"), ticket });
    let files = vec![
        OutgoingFile { entry: entry(0, 0), source: None },
        OutgoingFile { entry: entry(1, 5), source: source(1) },
        OutgoingFile { entry: entry(2, 1), source: source(2) },
    ];
    let (mut sender, step) = FileSender::start(TransferId(3), files);
    assert_eq!(step, SenderStep::Open(source(1).unwrap()));
    assert_eq!(sender.on_opened(None), SenderStep::Read);
    let first = FileChunk { transfer: TransferId(3), index: 1, offset: 0, data: vec![1, 2, 3] };
    assert_eq!(sender.on_read(vec![1, 2, 3]), SenderStep::Send(first));
    assert_eq!(sender.on_sent(3), SenderStep::Read);
    let second = FileChunk { transfer: TransferId(3), index: 1, offset: 3, data: vec![4, 5] };
    assert_eq!(sender.on_read(vec![4, 5]), SenderStep::Send(second));
    assert_eq!(sender.on_sent(2), SenderStep::Read);
    assert_eq!(sender.on_read(Vec::new()), SenderStep::Open(source(2).unwrap()));
    assert_eq!(
        sender.on_opened(Some("gone".to_string())),
        SenderStep::Fail("could not open /s/2: gone".to_string())
    );
    assert_eq!(
        sender.on_failed("x".to_string()),
        SenderStep::Fail("x".to_string())
    );
    assert_eq!(sender.on_read(Vec::new()), SenderStep::Finish);
    let (_, step) = FileSender::start(TransferId(3), Vec::new());
    assert_eq!(step, SenderStep::Finish);
    assert_eq!(CHUNK_BYTES, 48 * 1024);
}

#[test]
fn directories_have_fallbacks() {
    let home = parts(Path::new("/home/me"));
    assert_eq!(
        default_download_dir(None, Some(home.clone())),
        parts(Path::new("/home/me/UnionDesk"))
    );
    assert_eq!(
        default_download_dir(Some(parts(Path::new("/dl"))), Some(home)),
        parts(Path::new("/dl/UnionDesk"))
    );
    assert_eq!(
        default_download_dir(None, None),
        vec![PathPart::Current, PathPart::Normal("UnionDesk".to_string())]
    );
    assert_eq!(
        config_dir(Some("/cfg".to_string()), None),
        ConfigDir::Named("/cfg".to_string())
    );
    assert_eq!(
        config_dir(Some(String::new()), Some(parts(Path::new("/etc")))),
        ConfigDir::Parts(parts(Path::new("/etc/UnionDesk")))
    );
}
