use protocol_handlers::diode_fs::{DiodeFS, FsError};
use protocol_handlers::diode_fs_injector::DiodeFSInjector;
use protocol_handlers::filesystem_commit::{CommitType, FilesystemCommit};
use protocol_handlers::filesystem_item::{FileAttr, FileType, FilesystemItem, Timestamp};

const APPEND: u32 = 0o2000;
const NOW: Timestamp = Timestamp { sec: 1_600_000_000, nsec: 42 };
const LATER: Timestamp = Timestamp { sec: 1_700_000_000, nsec: 7 };

fn fs() -> DiodeFS {
    DiodeFS::with_append_flag(APPEND, NOW)
}

fn names(fs: &DiodeFS) -> Vec<String> {
    fs.get_filesystem_items().iter().map(|item| item.get_name()).collect()
}

fn listing(fs: &DiodeFS, inode: u64) -> Vec<(u64, i64, FileType, String)> {
    fs.readdir(inode, 0)
        .unwrap()
        .into_iter()
        .map(|entry| (entry.inode, entry.offset, entry.kind, entry.name))
        .collect()
}

#[test]
fn new_filesystem_holds_the_root_only() {
    for fs in [fs(), DiodeFS::new(NOW)] {
        let items = fs.get_filesystem_items();
        assert_eq!(items.len(), 1);
        assert_eq!(items[0].get_name(), "/");
        assert_eq!(items[0].get_inode(), 1);
        assert_eq!(items[0].get_parent_inode(), 0);
        assert_eq!(items[0].get_filetype(), FileType::Directory);
        assert_eq!(items[0].get_size(), 0);
        assert_eq!(items[0].get_attr().perm, 0o755);
        assert_eq!(items[0].get_attr().ino, 1);
        assert!(items[0].get_data().is_empty());
        assert!(fs.get_filesystem_commits().is_empty());
    }
}

#[test]
fn create_write_read() {
    let mut fs = fs();
    let attr = fs._create("a".to_string(), 1, 0, NOW).unwrap();
    assert_eq!(attr.ino, 2);
    assert_eq!(attr.kind, FileType::RegularFile);
    assert_eq!(fs._write(2, b"hello".to_vec(), 0, 0), Ok(5));
    assert_eq!(fs.getattr(2).unwrap().size, 5);
    assert_eq!(fs.read(2, 0, 5), Ok(b"hello".to_vec()));
    assert_eq!(fs.get_filesystem_commits().len(), 2);
    assert_eq!(fs.get_filesystem_commits()[0], FilesystemCommit::create("a".to_string(), 1, 0));
    assert_eq!(
        fs.get_filesystem_commits()[1],
        FilesystemCommit::write("a".to_string(), 2, b"hello".to_vec(), 0, 0)
    );
}

#[test]
fn created_file_has_the_length_of_its_name_as_size() {
    let mut fs = fs();
    let attr = fs._create("name.txt".to_string(), 1, 0x42, NOW).unwrap();
    assert_eq!(
        attr,
        FileAttr {
            ino: 2,
            size: 8,
            blocks: 0,
            atime: NOW,
            mtime: NOW,
            ctime: NOW,
            crtime: NOW,
            kind: FileType::RegularFile,
            perm: 0o644,
            nlink: 0,
            uid: 0,
            gid: 0,
            rdev: 0,
            flags: 0x42,
        }
    );
    let item = &fs.get_filesystem_items()[1];
    assert_eq!(item.get_attr(), attr);
    assert_eq!(item.get_inode(), 2);
    assert_eq!(item.get_parent_inode(), 1);
    assert!(item.get_data().is_empty());
    assert_eq!(fs._create("é".to_string(), 1, 0, NOW).unwrap().size, 2);
}

#[test]
fn create_with_empty_name_is_logged_but_not_made() {
    let mut fs = fs();
    assert_eq!(fs._create(String::new(), 1, 0, NOW), Err(FsError::NotFound));
    assert_eq!(fs.get_filesystem_items().len(), 1);
    assert_eq!(fs.get_filesystem_commits().len(), 1);
    assert_eq!(fs.get_filesystem_commits()[0].get_commit_type(), CommitType::Create);
}

#[test]
fn inodes_are_the_number_of_entries_plus_one() {
    let mut fs = fs();
    assert_eq!(fs._create("a".to_string(), 1, 0, NOW).unwrap().ino, 2);
    assert_eq!(fs._mkdir("d".to_string(), 1, NOW).ino, 3);
    assert_eq!(fs._create("b".to_string(), 3, 0, NOW).unwrap().ino, 4);
    assert_eq!(fs._unlink("a".to_string()), Ok(()));
    assert_eq!(fs._create("c".to_string(), 1, 0, NOW).unwrap().ino, 4);
}

#[test]
fn write_without_append_cuts_the_file_at_the_end_of_the_write() {
    let mut fs = fs();
    fs._create("a".to_string(), 1, 0, NOW).unwrap();
    assert_eq!(fs._write(2, b"hello world".to_vec(), 0, 0), Ok(11));
    assert_eq!(fs._write(2, b"HE".to_vec(), 0, 0), Ok(2));
    assert_eq!(fs.read(2, 0, 100), Ok(b"HE".to_vec()));
    assert_eq!(fs.getattr(2).unwrap().size, 2);
}

#[test]
fn write_with_append_keeps_what_follows() {
    let mut fs = fs();
    fs._create("a".to_string(), 1, 0, NOW).unwrap();
    assert_eq!(fs._write(2, b"hello world".to_vec(), 0, APPEND), Ok(11));
    assert_eq!(fs._write(2, b"HE".to_vec(), 0, APPEND | 1), Ok(2));
    assert_eq!(fs.read(2, 0, 100), Ok(b"HEllo world".to_vec()));
    assert_eq!(fs._write(2, b"!!".to_vec(), 10, APPEND), Ok(2));
    assert_eq!(fs.read(2, 0, 100), Ok(b"HEllo worl!!".to_vec()));
    assert_eq!(fs.getattr(2).unwrap().size, 12);
}

#[test]
fn write_past_the_end_fills_with_zeros() {
    let mut fs = fs();
    fs._create("a".to_string(), 1, 0, NOW).unwrap();
    assert_eq!(fs._write(2, b"ab".to_vec(), 3, 0), Ok(2));
    assert_eq!(fs.read(2, 0, 100), Ok(vec![0, 0, 0, b'a', b'b']));
    assert_eq!(fs._write(2, b"z".to_vec(), 7, APPEND), Ok(1));
    assert_eq!(fs.read(2, 0, 100), Ok(vec![0, 0, 0, b'a', b'b', 0, 0, b'z']));
    assert_eq!(fs._write(2, vec![], 2, 0), Ok(0));
    assert_eq!(fs.read(2, 0, 100), Ok(vec![0, 0]));
}

#[test]
fn write_to_a_missing_inode_changes_and_logs_nothing() {
    let mut fs = fs();
    assert_eq!(fs._write(9, b"x".to_vec(), 0, 0), Err(FsError::NotFound));
    assert!(fs.get_filesystem_commits().is_empty());
    assert_eq!(fs.get_filesystem_items().len(), 1);
}

#[test]
fn read_returns_the_slice_asked_for() {
    let mut fs = fs();
    fs._create("a".to_string(), 1, 0, NOW).unwrap();
    fs._write(2, b"0123456789".to_vec(), 0, 0).unwrap();
    assert_eq!(fs.read(2, 2, 3), Ok(b"234".to_vec()));
    assert_eq!(fs.read(2, 8, 5), Ok(b"89".to_vec()));
    assert_eq!(fs.read(2, 0, 10), Ok(b"0123456789".to_vec()));
    assert_eq!(fs.read(2, 9, 1), Ok(b"9".to_vec()));
    assert_eq!(fs.read(2, 5, 0), Ok(vec![]));
    assert_eq!(fs.read(2, 10, 4), Ok(vec![]));
    assert_eq!(fs.read(2, 11, 4), Ok(vec![]));
    assert_eq!(fs.read(2, -1, 4), Ok(vec![]));
    assert_eq!(fs.read(2, 3, u32::MAX), Ok(b"3456789".to_vec()));
    assert_eq!(fs.read(3, 0, 1), Err(FsError::NotFound));
}

#[test]
fn lookup_goes_by_name_alone() {
    let mut fs = fs();
    fs._mkdir("d".to_string(), 1, NOW);
    fs._create("f".to_string(), 2, 0, NOW).unwrap();
    assert_eq!(fs.lookup(1, &"f".to_string()).unwrap().ino, 3);
    assert_eq!(fs.lookup(2, &"f".to_string()).unwrap().ino, 3);
    assert_eq!(fs.lookup(1, &"/".to_string()).unwrap().ino, 1);
    assert_eq!(fs.lookup(1, &"nope".to_string()), Err(FsError::NotFound));
}

#[test]
fn getattr_and_open_go_by_inode() {
    let mut fs = fs();
    fs._create("f".to_string(), 1, 0, NOW).unwrap();
    assert_eq!(fs.getattr(1).unwrap().kind, FileType::Directory);
    assert_eq!(fs.getattr(2).unwrap().kind, FileType::RegularFile);
    assert_eq!(fs.getattr(3), Err(FsError::NotFound));
    assert_eq!(fs.open(2, 0x11), Ok((2, 0x11)));
    assert_eq!(fs.open(0, 0), Err(FsError::NotFound));
}

#[test]
fn readdir_lists_dots_then_children() {
    let mut fs = fs();
    fs._mkdir("d".to_string(), 1, NOW);
    fs._create("f".to_string(), 2, 0, NOW).unwrap();
    fs._create("g".to_string(), 1, 0, NOW).unwrap();
    assert_eq!(
        listing(&fs, 1),
        vec![
            (1, 0, FileType::Directory, ".".to_string()),
            (1, 1, FileType::Directory, "..".to_string()),
            (2, 2, FileType::Directory, "d".to_string()),
            (4, 2, FileType::RegularFile, "g".to_string()),
        ]
    );
    assert_eq!(
        listing(&fs, 2),
        vec![
            (1, 0, FileType::Directory, ".".to_string()),
            (1, 1, FileType::Directory, "..".to_string()),
            (3, 2, FileType::RegularFile, "f".to_string()),
        ]
    );
    assert_eq!(listing(&fs, 0).len(), 2);
    assert_eq!(fs.readdir(1, 1).unwrap_err(), FsError::NotFound);
    assert_eq!(fs.readdir(1, -1).unwrap_err(), FsError::NotFound);
}

#[test]
fn unlink_removes_the_first_entry_of_that_name() {
    let mut fs = fs();
    fs._create("f".to_string(), 1, 0, NOW).unwrap();
    fs._mkdir("d".to_string(), 1, NOW);
    fs._create("f".to_string(), 3, 0, NOW).unwrap();
    assert_eq!(fs._unlink("f".to_string()), Ok(()));
    assert_eq!(names(&fs), vec!["/", "d", "f"]);
    assert_eq!(fs.get_filesystem_items()[2].get_parent_inode(), 3);
    assert_eq!(fs._unlink("f".to_string()), Ok(()));
    assert_eq!(fs._unlink("f".to_string()), Err(FsError::NotFound));
    assert_eq!(names(&fs), vec!["/", "d"]);
    let unlinks = fs
        .get_filesystem_commits()
        .iter()
        .filter(|commit| commit.get_commit_type() == CommitType::Unlink)
        .count();
    assert_eq!(unlinks, 3);
}

#[test]
fn rmdir_needs_an_empty_directory() {
    let mut fs = fs();
    fs._mkdir("d".to_string(), 1, NOW);
    fs._create("f".to_string(), 2, 0, NOW).unwrap();
    let logged = fs.get_filesystem_commits().len();
    assert_eq!(fs._rmdir("d".to_string()), Err(FsError::NotImplemented));
    assert_eq!(fs._rmdir("nope".to_string()), Err(FsError::NotImplemented));
    assert_eq!(names(&fs), vec!["/", "d", "f"]);
    assert_eq!(fs.get_filesystem_commits().len(), logged);
    assert_eq!(fs._unlink("f".to_string()), Ok(()));
    assert_eq!(fs._rmdir("d".to_string()), Ok(()));
    assert_eq!(names(&fs), vec!["/"]);
    assert_eq!(
        fs.get_filesystem_commits().last(),
        Some(&FilesystemCommit::rmdir("d".to_string()))
    );
}

#[test]
fn rename_matches_name_and_directory() {
    let mut fs = fs();
    fs._mkdir("d".to_string(), 1, NOW);
    fs._create("x".to_string(), 1, 0, NOW).unwrap();
    fs._create("f".to_string(), 2, 0, NOW).unwrap();
    fs._create("f".to_string(), 1, 0, NOW).unwrap();
    fs._rename("f".to_string(), 1, "g".to_string(), 2);
    assert_eq!(names(&fs), vec!["/", "d", "x", "f", "g"]);
    assert_eq!(fs.get_filesystem_items()[4].get_parent_inode(), 2);
    assert_eq!(fs.get_filesystem_items()[4].get_inode(), 5);
    assert_eq!(fs.get_filesystem_items()[3].get_parent_inode(), 2);
    fs._rename("nope".to_string(), 1, "h".to_string(), 1);
    fs._rename("x".to_string(), 2, "h".to_string(), 1);
    assert_eq!(names(&fs), vec!["/", "d", "x", "f", "g"]);
    assert_eq!(
        fs.get_filesystem_commits().last(),
        Some(&FilesystemCommit::rename("x".to_string(), 2, "h".to_string(), 1))
    );
}

#[test]
fn commits_are_taken_oldest_first() {
    let mut fs = fs();
    assert_eq!(fs.take_commit(), None);
    fs._mkdir("d".to_string(), 1, NOW);
    fs._unlink("x".to_string()).unwrap_err();
    assert_eq!(fs.take_commit(), Some(FilesystemCommit::mkdir("d".to_string(), 1)));
    assert_eq!(fs.take_commit(), Some(FilesystemCommit::unlink("x".to_string())));
    assert_eq!(fs.take_commit(), None);
    assert_eq!(names(&fs), vec!["/", "d"]);
}

#[test]
fn item_setters_change_their_field() {
    let attr = FileAttr {
        ino: 5,
        size: 0,
        blocks: 0,
        atime: NOW,
        mtime: NOW,
        ctime: NOW,
        crtime: NOW,
        kind: FileType::RegularFile,
        perm: 0o600,
        nlink: 1,
        uid: 2,
        gid: 3,
        rdev: 4,
        flags: 5,
    };
    let mut item = FilesystemItem::new("n".to_string(), vec![1], 5, 1, attr);
    assert_eq!(item.get_size(), 0);
    item.set_data(vec![1, 2, 3]);
    assert_eq!(item.get_data(), vec![1, 2, 3]);
    assert_eq!(item.data_ref(), &vec![1, 2, 3]);
    assert_eq!(item.get_size(), 3);
    assert_eq!(item.get_attr(), FileAttr { size: 3, ..attr });
    item.set_name("m".to_string());
    assert_eq!(item.get_name(), "m");
    assert_eq!(item.name_ref(), "m");
    item.set_inode(9);
    item.set_parent_inode(8);
    assert_eq!((item.get_inode(), item.get_parent_inode()), (9, 8));
    item.set_attr(FileAttr { kind: FileType::Directory, ..attr });
    assert_eq!(item.get_filetype(), FileType::Directory);
    assert_eq!(item.get_size(), 0);
}

#[test]
fn replayed_commits_rebuild_the_filesystem() {
    let mut source = fs();
    source._mkdir("d".to_string(), 1, NOW);
    source._create("f".to_string(), 2, 0, NOW).unwrap();
    source._write(3, b"x".to_vec(), 0, 0).unwrap();
    let mut injector = DiodeFSInjector { filesystem: fs() };
    while let Some(commit) = source.take_commit() {
        let on_the_wire = commit.to_bytes();
        assert!(injector.handle_commit(FilesystemCommit::from_bytes(on_the_wire).unwrap(), NOW));
    }
    let mirror = &injector.filesystem;
    assert_eq!(names(mirror), vec!["/", "d", "f"]);
    let d = &mirror.get_filesystem_items()[1];
    let f = &mirror.get_filesystem_items()[2];
    assert_eq!(d.get_filetype(), FileType::Directory);
    assert_eq!(d.get_parent_inode(), 1);
    assert_eq!(f.get_filetype(), FileType::RegularFile);
    assert_eq!(f.get_data(), b"x".to_vec());
    assert_eq!(f.get_parent_inode(), d.get_inode());
    assert_eq!(f.get_size(), 1);
    assert_eq!(mirror.get_filesystem_commits().len(), 3);
    for (ours, theirs) in mirror.get_filesystem_items().iter().zip(source.get_filesystem_items()) {
        assert_eq!(ours.get_name(), theirs.get_name());
        assert_eq!(ours.get_data(), theirs.get_data());
        assert_eq!(ours.get_inode(), theirs.get_inode());
        assert_eq!(ours.get_parent_inode(), theirs.get_parent_inode());
        assert_eq!(ours.get_attr(), theirs.get_attr());
    }
}

#[test]
fn replay_follows_every_kind_of_commit() {
    let mut source = fs();
    source._mkdir("d".to_string(), 1, NOW);
    source._mkdir("e".to_string(), 1, NOW);
    source._create("f".to_string(), 2, 0, NOW).unwrap();
    source._write(4, b"hello".to_vec(), 0, 0).unwrap();
    source._write(4, b"J".to_vec(), 0, APPEND).unwrap();
    source._rename("f".to_string(), 2, "g".to_string(), 3);
    source._rmdir("d".to_string()).unwrap();
    source._create("h".to_string(), 1, 0, NOW).unwrap();
    source._unlink("h".to_string()).unwrap();
    let mut injector = DiodeFSInjector { filesystem: fs() };
    while let Some(commit) = source.take_commit() {
        assert!(injector.handle_commit(commit, NOW));
    }
    let mirror = &injector.filesystem;
    assert_eq!(names(mirror), vec!["/", "e", "g"]);
    assert_eq!(names(mirror), names(&source));
    assert_eq!(mirror.get_filesystem_items()[2].get_data(), b"Jello".to_vec());
    assert_eq!(mirror.get_filesystem_items()[2].get_parent_inode(), 3);
    assert_eq!(mirror.get_filesystem_commits().len(), 9);
}

#[test]
fn commits_that_cannot_be_applied_are_refused() {
    let mut injector = DiodeFSInjector { filesystem: fs() };
    let mut invalid = FilesystemCommit::unlink("x".to_string());
    invalid.commit_type = CommitType::Invalid;
    assert!(!injector.handle_commit(invalid, NOW));
    let mut misshapen = FilesystemCommit::create("x".to_string(), 1, 0);
    misshapen.parent_inode = None;
    assert!(!injector.handle_commit(misshapen, NOW));
    let mut extra = FilesystemCommit::unlink("x".to_string());
    extra.flags = Some(1);
    assert!(!injector.handle_commit(extra, NOW));
    injector.create("f".to_string(), 1, 0, NOW);
    assert!(!injector.handle_commit(FilesystemCommit::write("f".to_string(), 2, vec![1], -1, 0), NOW));
    assert!(!injector.handle_commit(FilesystemCommit::write("f".to_string(), 2, vec![1], i64::MAX, 0), NOW));
    assert_eq!(injector.filesystem.get_filesystem_items().len(), 2);
    assert_eq!(injector.filesystem.get_filesystem_commits().len(), 1);
    assert!(injector.filesystem.get_filesystem_items()[1].get_data().is_empty());
}

#[test]
fn injector_operations_are_those_of_the_filesystem() {
    let mut injector = DiodeFSInjector { filesystem: fs() };
    injector.mkdir("d".to_string(), 1, NOW);
    injector.create("f".to_string(), 2, 0, NOW);
    injector.write(3, b"abc".to_vec(), 1, 0);
    injector.rename("f".to_string(), 2, "g".to_string(), 1);
    injector.unlink("nope".to_string());
    injector.rmdir("d".to_string());
    assert_eq!(names(&injector.filesystem), vec!["/", "g"]);
    assert_eq!(injector.filesystem.read(3, 0, 10), Ok(vec![0, b'a', b'b', b'c']));
    let kinds: Vec<CommitType> = injector
        .filesystem
        .get_filesystem_commits()
        .iter()
        .map(|commit| commit.get_commit_type())
        .collect();
    assert_eq!(
        kinds,
        vec![
            CommitType::Mkdir,
            CommitType::Create,
            CommitType::Write,
            CommitType::Rename,
            CommitType::Unlink,
            CommitType::Rmdir,
        ]
    );
}

#[test]
fn entries_are_stamped_when_they_are_made() {
    let mut fs = DiodeFS::with_append_flag(APPEND, NOW);
    let root = fs.getattr(1).unwrap();
    assert_eq!((root.atime, root.mtime, root.ctime, root.crtime), (NOW, NOW, NOW, NOW));
    let file = fs._create("f".to_string(), 1, 0, LATER).unwrap();
    assert_eq!((file.atime, file.mtime, file.ctime, file.crtime), (LATER, LATER, LATER, LATER));
    let dir = fs._mkdir("d".to_string(), 1, LATER);
    assert_eq!((dir.atime, dir.mtime, dir.ctime, dir.crtime), (LATER, LATER, LATER, LATER));
    assert_eq!(fs.getattr(1).unwrap().crtime, NOW);
    assert_eq!(fs.getattr(2).unwrap(), file);
    assert_eq!(fs.lookup(1, &"d".to_string()).unwrap(), dir);
}

#[test]
fn write_and_rename_keep_the_times() {
    let mut fs = DiodeFS::with_append_flag(APPEND, NOW);
    let made = fs._create("f".to_string(), 1, 0, LATER).unwrap();
    fs._write(2, b"abc".to_vec(), 0, 0).unwrap();
    fs._rename("f".to_string(), 1, "g".to_string(), 1);
    let after = fs.getattr(2).unwrap();
    assert_eq!(after, FileAttr { size: 3, ..made });
}

#[test]
fn replayed_entries_are_stamped_with_the_time_of_the_replay() {
    let mut source = DiodeFS::with_append_flag(APPEND, NOW);
    source._mkdir("d".to_string(), 1, NOW);
    source._create("f".to_string(), 2, 0, NOW).unwrap();
    let mut injector = DiodeFSInjector { filesystem: DiodeFS::with_append_flag(APPEND, NOW) };
    while let Some(commit) = source.take_commit() {
        assert!(injector.handle_commit(commit, LATER));
    }
    let mirror = &injector.filesystem;
    assert_eq!(mirror.getattr(1).unwrap().crtime, NOW);
    for inode in [2u64, 3] {
        let ours = mirror.getattr(inode).unwrap();
        let theirs = source.getattr(inode).unwrap();
        assert_eq!(ours.crtime, LATER);
        assert_eq!(theirs.crtime, NOW);
        assert_eq!(
            ours,
            FileAttr { atime: LATER, mtime: LATER, ctime: LATER, crtime: LATER, ..theirs }
        );
    }
}
