use protocol_handlers::byte_order::{bits_of_offset, offset_from_bits};
use protocol_handlers::filesystem_commit::{CommitError, CommitType, FilesystemCommit};
use protocol_handlers::text::{bytes_of_text, text_of_bytes};

fn name_field(name: &str) -> Vec<u8> {
    [(name.len() as u64).to_ne_bytes().to_vec(), name.as_bytes().to_vec()].concat()
}

#[test]
fn create_commit_on_the_wire() {
    let commit = FilesystemCommit::create("a".to_string(), 1, 0x8002);
    let expected = [
        vec![0u8],
        name_field("a"),
        0x8002u32.to_ne_bytes().to_vec(),
        1u64.to_ne_bytes().to_vec(),
    ]
    .concat();
    assert_eq!(commit.to_bytes(), expected);
    assert_eq!(expected.len(), 1 + 8 + 1 + 4 + 8);
    assert_eq!(FilesystemCommit::from_bytes(expected), Ok(commit));
}

#[test]
fn write_commit_on_the_wire() {
    let commit = FilesystemCommit::write("f".to_string(), 2, b"hello".to_vec(), 7, 0);
    let expected = [
        vec![1u8],
        name_field("f"),
        0u32.to_ne_bytes().to_vec(),
        2u64.to_ne_bytes().to_vec(),
        7i64.to_ne_bytes().to_vec(),
        b"hello".to_vec(),
    ]
    .concat();
    assert_eq!(commit.to_bytes(), expected);
    assert_eq!(FilesystemCommit::from_bytes(expected), Ok(commit));
}

#[test]
fn unlink_and_rmdir_commits_on_the_wire() {
    let unlink = FilesystemCommit::unlink("gone".to_string());
    assert_eq!(unlink.to_bytes(), [vec![2u8], name_field("gone")].concat());
    assert_eq!(FilesystemCommit::from_bytes(unlink.to_bytes()), Ok(unlink));
    let rmdir = FilesystemCommit::rmdir("d".to_string());
    assert_eq!(rmdir.to_bytes(), [vec![4u8], name_field("d")].concat());
    assert_eq!(FilesystemCommit::from_bytes(rmdir.to_bytes()), Ok(rmdir));
}

#[test]
fn mkdir_commit_on_the_wire() {
    let commit = FilesystemCommit::mkdir("d".to_string(), 0x0102_0304_0506_0708);
    let expected =
        [vec![3u8], name_field("d"), 0x0102_0304_0506_0708u64.to_ne_bytes().to_vec()].concat();
    assert_eq!(commit.to_bytes(), expected);
    assert_eq!(FilesystemCommit::from_bytes(expected), Ok(commit));
}

#[test]
fn rename_commit_on_the_wire() {
    let commit = FilesystemCommit::rename("old".to_string(), 69, "newer".to_string(), 420);
    let expected = [
        vec![5u8],
        name_field("old"),
        name_field("newer"),
        69u64.to_ne_bytes().to_vec(),
        420u64.to_ne_bytes().to_vec(),
    ]
    .concat();
    assert_eq!(commit.to_bytes(), expected);
    assert_eq!(FilesystemCommit::from_bytes(expected), Ok(commit));
}

#[test]
fn integers_are_in_host_byte_order() {
    let bytes = FilesystemCommit::mkdir(String::new(), 1).to_bytes();
    assert_eq!(bytes.len(), 17);
    let one = if u16::from_ne_bytes([1, 0]) == 1 {
        vec![1u8, 0, 0, 0, 0, 0, 0, 0]
    } else {
        vec![0u8, 0, 0, 0, 0, 0, 0, 1]
    };
    assert_eq!(&bytes[9..], &one[..]);
    assert_eq!(&bytes[1..9], &[0u8; 8]);
}

#[test]
fn every_kind_of_commit_survives_the_wire() {
    let commits = vec![
        FilesystemCommit::create("file.txt".to_string(), 1, 0),
        FilesystemCommit::create(String::new(), u64::MAX, u32::MAX),
        FilesystemCommit::write("file.txt".to_string(), 2, vec![], 0, 0),
        FilesystemCommit::write("ü".to_string(), u64::MAX, vec![0, 255, 1], i64::MAX, 1024),
        FilesystemCommit::write("neg".to_string(), 3, vec![1], -1, 7),
        FilesystemCommit::write("min".to_string(), 3, vec![1], i64::MIN, 7),
        FilesystemCommit::unlink("file.txt".to_string()),
        FilesystemCommit::mkdir("dir".to_string(), 1),
        FilesystemCommit::rmdir("dir".to_string()),
        FilesystemCommit::rename("a".to_string(), 1, "日本語".to_string(), 2),
        FilesystemCommit::rename(String::new(), 0, String::new(), 0),
    ];
    for commit in commits {
        assert_eq!(FilesystemCommit::from_bytes(commit.to_bytes()), Ok(commit));
    }
}

#[test]
fn constructors_fill_the_fields_of_their_kind() {
    let create = FilesystemCommit::create("n".to_string(), 3, 4);
    assert_eq!(create.get_commit_type(), CommitType::Create);
    assert_eq!(create.get_name(), "n");
    assert_eq!(create.get_parent_inode(), Some(3));
    assert_eq!(create.get_flags(), Some(4));
    assert_eq!(create.get_inode(), None);
    assert_eq!(create.get_new_name(), None);
    assert_eq!(create.get_new_parent_inode(), None);
    assert_eq!(create.get_data_offset(), None);
    assert_eq!(create.get_data(), None);
    let write = FilesystemCommit::write("n".to_string(), 3, vec![1, 2], -5, 6);
    assert_eq!(write.get_commit_type(), CommitType::Write);
    assert_eq!(write.get_inode(), Some(3));
    assert_eq!(write.get_data(), Some(vec![1, 2]));
    assert_eq!(write.get_data_offset(), Some(-5));
    assert_eq!(write.get_flags(), Some(6));
    assert_eq!(write.get_parent_inode(), None);
    let rename = FilesystemCommit::rename("n".to_string(), 1, "m".to_string(), 2);
    assert_eq!(rename.get_commit_type(), CommitType::Rename);
    assert_eq!(rename.get_new_name(), Some("m".to_string()));
    assert_eq!(rename.get_parent_inode(), Some(1));
    assert_eq!(rename.get_new_parent_inode(), Some(2));
    assert_eq!(FilesystemCommit::unlink("n".to_string()).get_commit_type(), CommitType::Unlink);
    assert_eq!(FilesystemCommit::mkdir("n".to_string(), 1).get_commit_type(), CommitType::Mkdir);
    assert_eq!(FilesystemCommit::rmdir("n".to_string()).get_commit_type(), CommitType::Rmdir);
}

#[test]
fn type_byte_of_six_or_more_is_invalid() {
    for code in [6u8, 7, 100, 255] {
        let bytes = [vec![code], name_field("x"), vec![0u8; 32]].concat();
        assert_eq!(FilesystemCommit::from_bytes(bytes), Err(CommitError::InvalidType));
        assert_eq!(FilesystemCommit::from_bytes(vec![code]), Err(CommitError::InvalidType));
    }
}

#[test]
fn bytes_that_end_too_soon_are_truncated() {
    assert_eq!(FilesystemCommit::from_bytes(vec![]), Err(CommitError::Truncated));
    assert_eq!(FilesystemCommit::from_bytes(vec![0]), Err(CommitError::Truncated));
    assert_eq!(FilesystemCommit::from_bytes(vec![2, 0, 0, 0]), Err(CommitError::Truncated));
    let commits = vec![
        FilesystemCommit::create("abc".to_string(), 1, 2),
        FilesystemCommit::write("abc".to_string(), 1, vec![], 3, 4),
        FilesystemCommit::unlink("abc".to_string()),
        FilesystemCommit::mkdir("abc".to_string(), 1),
        FilesystemCommit::rmdir("abc".to_string()),
        FilesystemCommit::rename("abc".to_string(), 1, "de".to_string(), 2),
    ];
    for commit in commits {
        let bytes = commit.to_bytes();
        for len in 0..bytes.len() {
            assert_eq!(
                FilesystemCommit::from_bytes(bytes[..len].to_vec()),
                Err(CommitError::Truncated),
                "{:?} cut to {}",
                commit,
                len
            );
        }
    }
}

#[test]
fn name_longer_than_the_bytes_is_truncated() {
    let bytes = [vec![2u8], u64::MAX.to_ne_bytes().to_vec(), vec![b'a'; 16]].concat();
    assert_eq!(FilesystemCommit::from_bytes(bytes), Err(CommitError::Truncated));
    let bytes = [vec![2u8], 17u64.to_ne_bytes().to_vec(), vec![b'a'; 16]].concat();
    assert_eq!(FilesystemCommit::from_bytes(bytes), Err(CommitError::Truncated));
}

#[test]
fn name_that_is_not_utf8_is_invalid() {
    let bytes = [vec![2u8], 2u64.to_ne_bytes().to_vec(), vec![0xC3, 0x28]].concat();
    assert_eq!(FilesystemCommit::from_bytes(bytes), Err(CommitError::InvalidName));
    let bytes = [
        vec![5u8],
        name_field("ok"),
        1u64.to_ne_bytes().to_vec(),
        vec![0xFF],
        vec![0u8; 16],
    ]
    .concat();
    assert_eq!(FilesystemCommit::from_bytes(bytes), Err(CommitError::InvalidName));
}

#[test]
fn bytes_after_the_last_field_are_ignored() {
    let commit = FilesystemCommit::mkdir("d".to_string(), 9);
    let bytes = [commit.to_bytes(), vec![1, 2, 3]].concat();
    assert_eq!(FilesystemCommit::from_bytes(bytes), Ok(commit));
    let commit = FilesystemCommit::unlink("d".to_string());
    let bytes = [commit.to_bytes(), vec![1, 2, 3]].concat();
    assert_eq!(FilesystemCommit::from_bytes(bytes), Ok(commit));
}

#[test]
fn present_fields_go_out_in_a_fixed_order() {
    let commit = FilesystemCommit {
        commit_type: CommitType::Invalid,
        name: "n".to_string(),
        new_name: Some("m".to_string()),
        flags: Some(1),
        inode: Some(2),
        parent_inode: Some(3),
        new_parent_inode: Some(4),
        data_offset: Some(-1),
        data: Some(vec![9]),
    };
    let expected = [
        vec![6u8],
        name_field("n"),
        name_field("m"),
        1u32.to_ne_bytes().to_vec(),
        2u64.to_ne_bytes().to_vec(),
        3u64.to_ne_bytes().to_vec(),
        4u64.to_ne_bytes().to_vec(),
        (-1i64).to_ne_bytes().to_vec(),
        vec![9u8],
    ]
    .concat();
    assert_eq!(commit.to_bytes(), expected);
}

#[test]
fn offsets_are_twos_complement() {
    assert_eq!(bits_of_offset(0), 0);
    assert_eq!(bits_of_offset(5), 5);
    assert_eq!(bits_of_offset(-1), u64::MAX);
    assert_eq!(bits_of_offset(i64::MIN), 1u64 << 63);
    assert_eq!(bits_of_offset(i64::MAX), (1u64 << 63) - 1);
    for offset in [0i64, 1, -1, 42, -42, i64::MIN, i64::MAX] {
        assert_eq!(offset_from_bits(bits_of_offset(offset)), offset);
        assert_eq!(bits_of_offset(offset), offset as u64);
    }
}

#[test]
fn text_survives_its_bytes() {
    assert_eq!(bytes_of_text(&"aé日".to_string()), "aé日".as_bytes().to_vec());
    assert_eq!(text_of_bytes("aé日".as_bytes()), Some("aé日".to_string()));
    assert_eq!(text_of_bytes(&[]), Some(String::new()));
    assert_eq!(text_of_bytes(&[0x80]), None);
    assert_eq!(text_of_bytes(&[0xE6, 0x97]), None);
}

#[test]
fn supported_commits_have_the_fields_of_their_kind() {
    let commits = vec![
        FilesystemCommit::create("a".to_string(), 1, 0),
        FilesystemCommit::write("a".to_string(), 2, vec![1], 0, 0),
        FilesystemCommit::unlink("a".to_string()),
        FilesystemCommit::mkdir("a".to_string(), 1),
        FilesystemCommit::rmdir("a".to_string()),
        FilesystemCommit::rename("a".to_string(), 1, "b".to_string(), 1),
    ];
    for commit in &commits {
        assert!(commit.is_supported());
        let mut invalid = commit.clone();
        invalid.commit_type = CommitType::Invalid;
        assert!(!invalid.is_supported());
        let mut toggled = commit.clone();
        toggled.inode = match toggled.inode {
            Some(_) => None,
            None => Some(1),
        };
        assert!(!toggled.is_supported());
        let mut other = commit.clone();
        other.commit_type = match other.commit_type {
            CommitType::Create => CommitType::Mkdir,
            CommitType::Unlink | CommitType::Rmdir => CommitType::Create,
            _ => CommitType::Unlink,
        };
        assert!(!other.is_supported());
    }
    let mut unlink_as_rmdir = FilesystemCommit::unlink("a".to_string());
    unlink_as_rmdir.commit_type = CommitType::Rmdir;
    assert!(unlink_as_rmdir.is_supported());
}
