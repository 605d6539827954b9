use derrick::error::WorkspaceError;
use derrick::paths::{
    checked_upload, download, file_from_entry, locate_file, same_bytes, split_location, upload,
    upload_directory_command, upload_from, working_directory, Upload, FILE_MODE,
};

#[test]
fn working_dir_is_relative_to_the_root() {
    assert_eq!(working_directory("/work/tmp/test-1", None), "/work/tmp/test-1");
    assert_eq!(working_directory("/work/tmp/test-1", Some("subdir")), "/work/tmp/test-1/subdir");
    assert_eq!(working_directory("/work/", Some("a/b")), "/work/a/b");
    assert_eq!(working_directory("/", Some("tmp")), "/tmp");
}

#[test]
fn absolute_looking_working_dir_stays_inside() {
    for dir in ["x", "x/y", "", "a b", "sub/"] {
        let absolute = format!("/{}", dir);
        assert_eq!(
            working_directory("/root/ws", Some(&absolute)),
            working_directory("/root/ws", Some(dir))
        );
    }
    assert_eq!(working_directory("/root/ws", Some("/")), "/root/ws");
    assert_eq!(working_directory("/root/ws", Some("///etc")), "/root/ws/etc");
}

#[test]
fn files_lie_below_the_working_directory() {
    assert_eq!(locate_file("/ws", None, "write.txt"), "/ws/write.txt");
    assert_eq!(locate_file("/ws", Some("sub"), "a/b/c.txt"), "/ws/sub/a/b/c.txt");
    assert_eq!(locate_file("/ws", Some("/sub"), "/a.txt"), "/ws/sub/a.txt");
    assert_eq!(locate_file("/", None, "/tmp/setup.sh"), "/tmp/setup.sh");
    assert_eq!(
        locate_file("/ws", None, "(unauthenticated)/[slug]/index.tsx"),
        "/ws/(unauthenticated)/[slug]/index.tsx"
    );
}

#[test]
fn split_location_parts() {
    assert_eq!(split_location("/tmp/setup.sh"), ("/tmp".to_string(), "setup.sh".to_string()));
    assert_eq!(split_location("/setup.sh"), ("/".to_string(), "setup.sh".to_string()));
    assert_eq!(split_location("setup.sh"), ("".to_string(), "setup.sh".to_string()));
    assert_eq!(split_location("/a/b/"), ("/a/b".to_string(), "".to_string()));
    assert_eq!(split_location(""), ("".to_string(), "".to_string()));
}

#[test]
fn upload_unpacks_in_the_files_directory() {
    let up = upload("/tmp/setup.sh", b"echo hi\n", None).unwrap();
    assert_eq!(up.directory, "/tmp");
    let nested = upload("a/b/c.txt", b"x", Some("work")).unwrap();
    assert_eq!(nested.directory, "/work/a/b");
    let top = upload("c.txt", b"x", None).unwrap();
    assert_eq!(top.directory, "/");
}

#[test]
fn upload_needs_a_file_name() {
    let expected = Err(WorkspaceError::Validation("No file name specified in path".to_string()));
    assert_eq!(upload("a/b/", b"x", None), expected);
    assert_eq!(upload("", b"x", None), expected);
    assert_eq!(upload("/", b"x", Some("/")), expected);
}

#[test]
fn upload_from_passes_the_packers_error_on() {
    assert_eq!(
        upload_from("/a/b.txt", Err("too long".to_string())),
        Err(WorkspaceError::Backend("too long".to_string()))
    );
    assert_eq!(
        upload_from("/a/b.txt", Ok(vec![1, 2, 3])),
        Ok(Upload { directory: "/a".to_string(), archive: vec![1, 2, 3] })
    );
    assert_eq!(
        upload_from("/a/", Ok(vec![1, 2, 3])),
        Err(WorkspaceError::Validation("No file name specified in path".to_string()))
    );
}

#[test]
fn file_from_entry_cases() {
    assert_eq!(file_from_entry(Ok(Some((b"c.txt".to_vec(), 0o644, vec![9, 8])))), Ok(vec![9, 8]));
    assert_eq!(
        file_from_entry(Ok(None)),
        Err(WorkspaceError::NotFound("No file found in archive".to_string()))
    );
    assert_eq!(
        file_from_entry(Err("bad header".to_string())),
        Err(WorkspaceError::Backend("bad header".to_string()))
    );
}

#[test]
fn what_is_uploaded_is_what_is_downloaded() {
    let contents: Vec<Vec<u8>> = vec![
        b"Hello, world!".to_vec(),
        "Hello, 🌍!\n".as_bytes().to_vec(),
        b"Hello, world!\n".to_vec(),
        vec![],
        vec![0, 159, 146, 150, 255, 254, 0, 10, 13],
        (0..=255u8).cycle().take(5000).collect(),
    ];
    for content in contents {
        let up = upload("a/b/c.txt", &content, None).unwrap();
        assert_eq!(download(&up.archive), Ok(content));
    }
}

#[test]
fn write_read_roundtrip_with_unicode() {
    let text = "Hello, 🌍!\n";
    let up = upload("a/b/c.txt", text.as_bytes(), None).unwrap();
    assert_eq!(up.directory, "/a/b");
    let back = download(&up.archive).unwrap();
    assert_eq!(String::from_utf8(back).unwrap(), text);
}

#[test]
fn roundtrip_with_brackets_in_the_path() {
    let up = upload("(unauthenticated)/[slug]/index.tsx", b"Hello, world!", None).unwrap();
    assert_eq!(up.directory, "/(unauthenticated)/[slug]");
    assert_eq!(download(&up.archive), Ok(b"Hello, world!".to_vec()));
}

#[test]
fn download_of_an_empty_archive_is_not_found() {
    assert_eq!(
        download(&[0u8; 1024]),
        Err(WorkspaceError::NotFound("No file found in archive".to_string()))
    );
    assert_eq!(
        download(&[]),
        Err(WorkspaceError::NotFound("No file found in archive".to_string()))
    );
}

#[test]
fn download_of_garbage_is_a_backend_error() {
    let garbage = vec![7u8; 512];
    assert!(matches!(download(&garbage), Err(WorkspaceError::Backend(_))));
}

#[test]
fn same_bytes_compares_contents() {
    assert!(same_bytes(b"", b""));
    assert!(same_bytes(b"abc", b"abc"));
    assert!(!same_bytes(b"abc", b"abd"));
    assert!(!same_bytes(b"abc", b"ab"));
    assert!(!same_bytes(b"", b"a"));
}

#[test]
fn upload_passes_only_if_the_archive_gives_the_file_back() {
    let prepared = Upload { directory: "/a".to_string(), archive: vec![1, 2, 3] };
    let refused = Err(WorkspaceError::Backend("The archive does not hold the file".to_string()));
    let entry = |name: &str, mode: u32, content: &[u8]| {
        Ok(Some((name.as_bytes().to_vec(), mode, content.to_vec())))
    };
    assert_eq!(
        checked_upload(prepared.clone(), "c.txt", b"xy", entry("c.txt", 0o644, b"xy")),
        Ok(prepared.clone())
    );
    assert_eq!(
        checked_upload(prepared.clone(), "c.txt", b"xy", entry("c.txt", 0o644, b"xz")),
        refused
    );
    assert_eq!(
        checked_upload(prepared.clone(), "c.txt", b"xy", entry("x", 0o644, b"xy")),
        refused
    );
    assert_eq!(
        checked_upload(prepared.clone(), "c.txt", b"xy", entry("c.txt", 0, b"xy")),
        refused
    );
    assert_eq!(checked_upload(prepared.clone(), "c.txt", b"xy", Ok(None)), refused);
    assert_eq!(checked_upload(prepared, "c.txt", b"xy", Err("broken".to_string())), refused);
}

#[test]
fn uploaded_file_has_its_name_and_mode() {
    assert_eq!(FILE_MODE, 0o644);
    let up = upload("a/b/c d.txt", b"content", None).unwrap();
    let mut archive = tar::Archive::new(up.archive.as_slice());
    let entry = archive.entries().unwrap().next().unwrap().unwrap();
    assert_eq!(entry.path_bytes().as_ref(), b"c d.txt");
    assert_eq!(entry.header().mode().unwrap(), 0o644);
    assert_eq!(entry.header().size().unwrap(), 7);
}

#[test]
fn directory_of_an_upload_is_made_first() {
    let up = upload("a/b/c.txt", b"x", Some("my work")).unwrap();
    assert_eq!(up.directory, "/my work/a/b");
    assert_eq!(upload_directory_command(&up), "mkdir -p '/my work/a/b'");
    let top = upload("/tmp/setup.sh", b"x", None).unwrap();
    assert_eq!(upload_directory_command(&top), "mkdir -p /tmp");
}
