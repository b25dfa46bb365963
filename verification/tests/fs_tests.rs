use beyond_os::fs::{FileSystem, FsError};

#[test]
fn create_and_read_file() {
    let mut fs = FileSystem::new(10000, 4096);

    fs.create_file("a.txt", b"hello").unwrap();
    let data = fs.read_file("a.txt").unwrap();
    assert_eq!(data, b"hello");

    let files = fs.list_files();
    let entry = files.iter().find(|e| e.name == "a.txt").unwrap();
    assert_eq!(entry.size, 5);
    assert_eq!(entry.block_count, 1);
    assert_eq!(fs.used_blocks(), 1);
}

#[test]
fn create_duplicate_fails() {
    let mut fs = FileSystem::new(16, 512);
    fs.create_file("a", b"x").unwrap();
    assert!(matches!(fs.create_file("a", b"y"), Err(FsError::AlreadyExists)));
    assert_eq!(fs.read_file("a").unwrap(), b"x");
}

#[test]
fn read_missing_fails() {
    let fs = FileSystem::new(16, 512);
    assert!(matches!(fs.read_file("nope"), Err(FsError::NotFound)));
}

#[test]
fn delete_frees_blocks() {
    let mut fs = FileSystem::new(4, 512);
    fs.create_file("a", &[7u8; 1024]).unwrap();
    assert_eq!(fs.used_blocks(), 2);
    fs.delete_file("a").unwrap();
    assert_eq!(fs.used_blocks(), 0);
    assert!(matches!(fs.read_file("a"), Err(FsError::NotFound)));
    assert!(matches!(fs.delete_file("a"), Err(FsError::NotFound)));
}

#[test]
fn no_space_reported() {
    let mut fs = FileSystem::new(2, 512);
    fs.create_file("a", &[1u8; 512]).unwrap();
    assert!(matches!(fs.create_file("big", &[2u8; 1024]), Err(FsError::NoSpace)));
    // the failed create changed nothing
    assert_eq!(fs.used_blocks(), 1);
    fs.create_file("b", &[3u8; 512]).unwrap();
    assert_eq!(fs.used_blocks(), 2);
}

#[test]
fn empty_file_uses_no_blocks() {
    let mut fs = FileSystem::new(8, 512);
    fs.create_file("empty", b"").unwrap();
    assert_eq!(fs.used_blocks(), 0);
    assert_eq!(fs.read_file("empty").unwrap(), b"");
}

#[test]
fn list_files_in_order() {
    let mut fs = FileSystem::new(8, 512);
    fs.create_file("one", b"1").unwrap();
    fs.create_file("two", b"2").unwrap();
    let names: Vec<String> = fs.list_files().iter().map(|e| e.name.clone()).collect();
    assert_eq!(names, vec!["one".to_string(), "two".to_string()]);
}

#[test]
fn listing_is_name_ordered() {
    // creation order does not decide the listing: names do
    let mut fs = FileSystem::new(8, 512);
    fs.create_file("b", b"2").unwrap();
    fs.create_file("a", b"1").unwrap();
    fs.create_file("c", b"3").unwrap();
    let names: Vec<String> = fs.list_files().iter().map(|e| e.name.clone()).collect();
    assert_eq!(names, vec!["a".to_string(), "b".to_string(), "c".to_string()]);
    // lookups are unaffected by the insertion position
    assert_eq!(fs.read_file("a").unwrap(), b"1");
    assert_eq!(fs.read_file("b").unwrap(), b"2");
    assert_eq!(fs.read_file("c").unwrap(), b"3");
}

#[test]
fn first_fit_reuses_freed_blocks() {
    let mut fs = FileSystem::new(4, 512);
    fs.create_file("a", &[1u8; 512]).unwrap();
    fs.create_file("b", &[2u8; 512]).unwrap();
    fs.delete_file("a").unwrap();
    // the freed first block is chosen again, first fit
    fs.create_file("c", &[3u8; 512]).unwrap();
    let files = fs.list_files();
    let c = files.iter().find(|e| e.name == "c").unwrap();
    assert_eq!(c.start_block, 0);
    assert_eq!(fs.used_blocks(), 2);
}
