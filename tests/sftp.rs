use rust_tunnel::sftp::{Data, File, FileAttributes, SFTPHandler, StatusCode};

fn entry(name: &str) -> File {
    File {
        filename: name.to_string(),
        longname: String::new(),
        attrs: FileAttributes::default(),
    }
}

fn sized(size: u64) -> FileAttributes {
    let mut attrs = FileAttributes::default();
    attrs.size = Some(size);
    attrs
}

fn open_dir(h: &mut SFTPHandler, path: &str) -> String {
    h.opendir(1, path.to_string(), true).unwrap().handle
}

fn open_file(h: &mut SFTPHandler, path: &str, size: u64) -> String {
    h.open(1, path.to_string(), size).unwrap().handle
}

#[test]
fn directory_listed_once() {
    let mut h = SFTPHandler::new();
    let handle = h.opendir(1, "/srv".to_string(), true).unwrap();
    assert_eq!(handle.id, 1);
    let tok = handle.handle;
    assert_eq!(h.path_of(&tok), Some("/srv".to_string()));
    assert_eq!(h.readdir_check(&tok), None);
    let name = h
        .readdir(2, tok.clone(), Some(vec![entry("a"), entry("b")]))
        .unwrap();
    assert_eq!(name.id, 2);
    assert_eq!(name.files.len(), 2);
    assert_eq!(name.files[0].filename, "a");
    assert_eq!(name.files[1].filename, "b");
    assert_eq!(h.readdir_check(&tok), Some(StatusCode::Eof));
    let again = h.readdir(3, tok.clone(), Some(vec![entry("a")]));
    assert!(matches!(again, Err(StatusCode::Eof)));
    let third = h.readdir(4, tok, None);
    assert!(matches!(third, Err(StatusCode::Eof)));
}

#[test]
fn handle_tokens_are_unique_while_open() {
    let mut h = SFTPHandler::new();
    let a = open_dir(&mut h, "/srv");
    let b = open_dir(&mut h, "/srv");
    let c = open_file(&mut h, "/srv", 0);
    assert_ne!(a, b);
    assert_ne!(a, c);
    assert_ne!(b, c);
    assert_eq!(a, "0000000000000000");
    assert_eq!(b, "0000000000000001");
    assert_eq!(h.path_of(&b), Some("/srv".to_string()));
    h.close(2, a.clone());
    let d = open_dir(&mut h, "/srv");
    assert_ne!(d, a);
    assert_ne!(d, b);
}

#[test]
fn same_directory_opened_twice_is_listed_for_each_handle() {
    let mut h = SFTPHandler::new();
    let a = open_dir(&mut h, "/srv");
    let b = open_dir(&mut h, "/srv");
    h.readdir(2, a.clone(), Some(vec![entry("x")])).unwrap();
    assert_eq!(h.readdir_check(&a), Some(StatusCode::Eof));
    assert_eq!(h.readdir_check(&b), None);
    let name = h.readdir(3, b, Some(vec![entry("x")])).unwrap();
    assert_eq!(name.files.len(), 1);
}

#[test]
fn same_file_opened_twice_has_two_cursors() {
    let mut h = SFTPHandler::new();
    let a = open_file(&mut h, "/f", 3);
    let b = open_file(&mut h, "/f", 3);
    let d = h.read(2, a.clone(), 64, Some(vec![1, 2, 3])).unwrap();
    assert_eq!(d.data, vec![1, 2, 3]);
    assert_eq!(h.read_check(&a), Some(StatusCode::Eof));
    assert_eq!(h.read_check(&b), None);
    let d = h.read(3, b, 64, Some(vec![1, 2, 3])).unwrap();
    assert_eq!(d.data, vec![1, 2, 3]);
}

#[test]
fn reopened_directory_is_listed_again() {
    let mut h = SFTPHandler::new();
    let a = open_dir(&mut h, "/srv");
    h.readdir(2, a.clone(), Some(vec![entry("a")])).unwrap();
    h.close(3, a);
    let b = open_dir(&mut h, "/srv");
    let name = h.readdir(5, b, Some(vec![entry("a")])).unwrap();
    assert_eq!(name.files.len(), 1);
}

#[test]
fn opendir_missing_path_is_no_such_file() {
    let mut h = SFTPHandler::new();
    assert!(matches!(
        h.opendir(7, "/missing".to_string(), false),
        Err(StatusCode::NoSuchFile)
    ));
    assert_eq!(
        h.readdir_check(&"0000000000000000".to_string()),
        Some(StatusCode::NoSuchFile)
    );
}

#[test]
fn readdir_on_unknown_handle_is_no_such_file() {
    let mut h = SFTPHandler::new();
    let r = h.readdir(1, "/nowhere".to_string(), Some(vec![entry("x")]));
    assert!(matches!(r, Err(StatusCode::NoSuchFile)));
}

#[test]
fn readdir_listing_failure_is_no_such_file() {
    let mut h = SFTPHandler::new();
    let a = open_dir(&mut h, "/srv");
    assert!(matches!(h.readdir(2, a.clone(), None), Err(StatusCode::NoSuchFile)));
    // the listing is still owed
    assert_eq!(h.readdir_check(&a), None);
}

#[test]
fn readdir_on_file_handle_is_no_such_file() {
    let mut h = SFTPHandler::new();
    let f = open_file(&mut h, "/f", 3);
    assert_eq!(h.readdir_check(&f), Some(StatusCode::NoSuchFile));
}

#[test]
fn read_cursor_stops_at_recorded_size() {
    let mut h = SFTPHandler::new();
    let f = open_file(&mut h, "/f", 10);
    assert_eq!(h.path_of(&f), Some("/f".to_string()));
    assert_eq!(h.read_check(&f), None);
    let d: Data = h.read(2, f.clone(), 4, Some(vec![1, 2, 3, 4])).unwrap();
    assert_eq!(d.id, 2);
    assert_eq!(d.data, vec![1, 2, 3, 4]);
    assert_eq!(h.read_check(&f), None);
    let d = h
        .read(3, f.clone(), 32, Some(vec![5, 6, 7, 8, 9, 10]))
        .unwrap();
    assert_eq!(d.data, vec![5, 6, 7, 8, 9, 10]);
    assert_eq!(h.read_check(&f), Some(StatusCode::Eof));
    assert!(matches!(h.read(4, f, 32, Some(vec![11])), Err(StatusCode::Eof)));
}

#[test]
fn read_returns_at_most_len_bytes() {
    let mut h = SFTPHandler::new();
    let f = open_file(&mut h, "/f", 100);
    let d = h.read(2, f, 3, Some(vec![9, 8, 7, 6, 5])).unwrap();
    assert_eq!(d.data, vec![9, 8, 7]);
}

#[test]
fn read_of_empty_file_is_end_of_data() {
    let mut h = SFTPHandler::new();
    let f = open_file(&mut h, "/empty", 0);
    assert_eq!(h.read_check(&f), Some(StatusCode::Eof));
    assert!(matches!(h.read(2, f, 8, Some(vec![])), Err(StatusCode::Eof)));
}

#[test]
fn read_unknown_handle_is_no_such_file() {
    let mut h = SFTPHandler::new();
    assert!(matches!(
        h.read(1, "/x".to_string(), 8, Some(vec![1])),
        Err(StatusCode::NoSuchFile)
    ));
    assert_eq!(h.path_of(&"/x".to_string()), None);
}

#[test]
fn read_of_vanished_file_is_no_such_file() {
    let mut h = SFTPHandler::new();
    let f = open_file(&mut h, "/f", 5);
    assert!(matches!(h.read(2, f.clone(), 8, None), Err(StatusCode::NoSuchFile)));
    assert_eq!(h.read_check(&f), None);
}

#[test]
fn read_on_directory_handle_is_no_such_file() {
    let mut h = SFTPHandler::new();
    let d = open_dir(&mut h, "/d");
    assert_eq!(h.read_check(&d), Some(StatusCode::NoSuchFile));
}

#[test]
fn written_bytes_read_back_unchanged() {
    let mut h = SFTPHandler::new();
    let bytes: Vec<u8> = b"hello, tunnel".to_vec();
    let w = open_file(&mut h, "/up", 0);
    let s = h.write(2, w.clone(), Ok(()));
    assert_eq!(s.status_code, StatusCode::Success);
    h.close(3, w);
    let r = open_file(&mut h, "/up", bytes.len() as u64);
    let d = h.read(5, r.clone(), 32768, Some(bytes.clone())).unwrap();
    assert_eq!(d.data, bytes);
    assert!(matches!(h.read(6, r, 32768, Some(vec![])), Err(StatusCode::Eof)));
}

#[test]
fn stat_of_missing_path_is_no_such_file() {
    let mut h = SFTPHandler::new();
    assert!(matches!(
        h.stat(9, "/does/not/exist".to_string(), None),
        Err(StatusCode::NoSuchFile)
    ));
    assert!(matches!(
        h.lstat(10, "/does/not/exist".to_string(), None),
        Err(StatusCode::NoSuchFile)
    ));
    assert!(matches!(
        h.fstat(11, "/does/not/exist".to_string(), Some(sized(1))),
        Err(StatusCode::NoSuchFile)
    ));
}

#[test]
fn fstat_returns_attributes_and_records_size() {
    let mut h = SFTPHandler::new();
    let f = open_file(&mut h, "/f", 0);
    assert_eq!(h.read_check(&f), Some(StatusCode::Eof));
    let a = h.fstat(2, f.clone(), Some(sized(5))).unwrap();
    assert_eq!(a.id, 2);
    assert_eq!(a.attrs.size, Some(5));
    assert_eq!(h.read_check(&f), None);
    let d = h.read(3, f.clone(), 64, Some(vec![1, 2, 3, 4, 5])).unwrap();
    assert_eq!(d.data.len(), 5);
    assert_eq!(h.read_check(&f), Some(StatusCode::Eof));
}

#[test]
fn stat_records_size_on_handles_of_that_path() {
    let mut h = SFTPHandler::new();
    let f = open_file(&mut h, "/f", 0);
    let g = open_file(&mut h, "/f", 0);
    let other = open_file(&mut h, "/other", 0);
    let a = h.lstat(2, "/f".to_string(), Some(sized(7))).unwrap();
    assert_eq!(a.attrs.size, Some(7));
    assert_eq!(h.read_check(&f), Some(StatusCode::Eof));
    let a = h.stat(3, "/f".to_string(), Some(sized(7))).unwrap();
    assert_eq!(a.id, 3);
    assert_eq!(a.attrs.size, Some(7));
    assert_eq!(h.read_check(&f), None);
    assert_eq!(h.read_check(&g), None);
    assert_eq!(h.read_check(&other), Some(StatusCode::Eof));
    let d = h.read(4, f.clone(), 64, Some(vec![0; 10])).unwrap();
    assert_eq!(d.data.len(), 7);
    assert_eq!(h.read_check(&f), Some(StatusCode::Eof));
}

#[test]
fn overlapping_reads_never_exceed_the_size() {
    let mut h = SFTPHandler::new();
    let f = open_file(&mut h, "/f", 10);
    let d = h.read(2, f.clone(), 5, Some(vec![0, 1, 2, 3, 4])).unwrap();
    assert_eq!(d.data.len(), 5);
    // a read at offset 1 with len 10 finds 9 bytes; only 5 are left to deliver
    let d = h
        .read(3, f.clone(), 10, Some(vec![1, 2, 3, 4, 5, 6, 7, 8, 9]))
        .unwrap();
    assert_eq!(d.data, vec![1, 2, 3, 4, 5]);
    assert_eq!(h.read_check(&f), Some(StatusCode::Eof));
}

#[test]
fn failed_operations_carry_the_error_text() {
    let mut h = SFTPHandler::new();
    let f = open_file(&mut h, "/ro", 0);
    let s = h.write(1, f, Err("Permission denied (os error 13)".to_string()));
    assert_eq!(s.id, 1);
    assert_eq!(s.status_code, StatusCode::Failure);
    assert_eq!(s.error_message, "Permission denied (os error 13)");
    assert_eq!(s.language_tag, "en-US");
    let s = h.remove(2, "/x".to_string(), Err("gone".to_string()));
    assert_eq!(s.status_code, StatusCode::Failure);
    assert_eq!(s.error_message, "gone");
    let s = h.rmdir(3, "/d".to_string(), Err("not empty".to_string()));
    assert_eq!(s.status_code, StatusCode::Failure);
    let s = h.mkdir(4, "/d".to_string(), Err("exists".to_string()));
    assert_eq!(s.id, 4);
    assert_eq!(s.error_message, "exists");
}

#[test]
fn write_on_unknown_handle_is_no_such_file() {
    let mut h = SFTPHandler::new();
    let s = h.write(8, "/a".to_string(), Ok(()));
    assert_eq!(s.id, 8);
    assert_eq!(s.status_code, StatusCode::NoSuchFile);
    assert_eq!(s.error_message, "No such file");
    let d = open_dir(&mut h, "/d");
    assert_eq!(h.write(9, d, Ok(())).status_code, StatusCode::NoSuchFile);
}

#[test]
fn successful_operations_report_ok() {
    let mut h = SFTPHandler::new();
    let f = open_file(&mut h, "/a", 0);
    for s in [
        h.write(1, f.clone(), Ok(())),
        h.remove(2, "/a".to_string(), Ok(())),
        h.mkdir(3, "/d".to_string(), Ok(())),
        h.rmdir(4, "/d".to_string(), Ok(())),
    ] {
        assert_eq!(s.status_code, StatusCode::Success);
        assert_eq!(s.error_message, "Ok");
        assert_eq!(s.language_tag, "en-US");
    }
}

#[test]
fn close_forgets_the_handle() {
    let mut h = SFTPHandler::new();
    let f = open_file(&mut h, "/f", 4);
    let s = h.close(2, f.clone());
    assert_eq!(s.id, 2);
    assert_eq!(s.status_code, StatusCode::Success);
    assert_eq!(s.error_message, "Ok");
    assert_eq!(h.read_check(&f), Some(StatusCode::NoSuchFile));
    assert_eq!(h.path_of(&f), None);
    let s = h.close(3, "/never".to_string());
    assert_eq!(s.status_code, StatusCode::Success);
}

#[test]
fn realpath_replies_with_one_name() {
    let mut h = SFTPHandler::new();
    let n = h.realpath(5, Some("/home/user".to_string())).unwrap();
    assert_eq!(n.id, 5);
    assert_eq!(n.files.len(), 1);
    assert_eq!(n.files[0].filename, "/home/user");
    assert_eq!(n.files[0].longname, "");
    assert_eq!(n.files[0].attrs.size, None);
    assert!(matches!(h.realpath(6, None), Err(StatusCode::NoSuchFile)));
}

#[test]
fn handshake_and_unimplemented() {
    let mut h = SFTPHandler::new();
    assert_eq!(h.init(6).version, 3);
    assert_eq!(h.unimplemented(), StatusCode::OpUnsupported);
}

#[test]
fn chunked_reads_deliver_exactly_the_file() {
    let mut h = SFTPHandler::new();
    let file: Vec<u8> = (0..1000u32).map(|i| (i % 251) as u8).collect();
    let big = open_file(&mut h, "/big", file.len() as u64);
    let mut delivered: Vec<u8> = Vec::new();
    let mut offset = 0usize;
    let mut id = 2u32;
    while h.read_check(&big).is_none() {
        let end = usize::min(offset + 300, file.len());
        let d = h
            .read(id, big.clone(), 300, Some(file[offset..end].to_vec()))
            .unwrap();
        offset += d.data.len();
        delivered.extend_from_slice(&d.data);
        id += 1;
    }
    assert_eq!(delivered, file);
    assert_eq!(id, 6);
    assert!(matches!(h.read(id, big, 300, Some(vec![])), Err(StatusCode::Eof)));
}
