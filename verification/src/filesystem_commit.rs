//! One filesystem mutation as a record that can be sent and replayed.
//!
//! On the wire a commit is its type byte, the name as an eight-byte length
//! and UTF-8 bytes, and then the fields of its kind. Integers are written in
//! the byte order of the host.

use vstd::prelude::*;
use vstd::utf8::{decode_utf8, encode_utf8, valid_utf8};
use crate::byte_order::{
    append_bytes, bits_of_offset, byte_limit, copy_range, lemma_byte_limits,
    lemma_native_bytes_of_value, lemma_native_roundtrip, native_bytes, native_value, offset_bits,
    offset_from_bits, offset_of_bits, u32_from_ne_bytes, u32_to_ne_bytes, u64_from_ne_bytes,
    u64_to_ne_bytes,
};
use crate::text::{bytes_of_text, text_of_bytes};

verus! {

/// The kind of mutation a commit records.
#[derive(Clone, Copy, PartialEq, Eq, Debug, Structural)]
pub enum CommitType {
    Create,
    Write,
    Unlink,
    Mkdir,
    Rmdir,
    Rename,
    Invalid,
}

/// Why bytes are not a commit.
#[derive(Clone, Copy, PartialEq, Eq, Debug, Structural)]
pub enum CommitError {
    /// The bytes end before the commit does.
    Truncated,
    /// A name is not valid UTF-8.
    InvalidName,
    /// The type byte names no kind of commit.
    InvalidType,
}

/// A commit: its kind, the name it is about, and the fields its kind uses.
#[derive(Clone, PartialEq, Eq, Debug)]
pub struct FilesystemCommit {
    pub commit_type: CommitType,
    pub name: String,
    pub new_name: Option<String>,
    pub flags: Option<u32>,
    pub inode: Option<u64>,
    pub parent_inode: Option<u64>,
    pub new_parent_inode: Option<u64>,
    pub data_offset: Option<i64>,
    pub data: Option<Vec<u8>>,
}

/// What a commit is, with texts as character sequences.
pub struct CommitView {
    pub commit_type: CommitType,
    pub name: Seq<char>,
    pub new_name: Option<Seq<char>>,
    pub flags: Option<u32>,
    pub inode: Option<u64>,
    pub parent_inode: Option<u64>,
    pub new_parent_inode: Option<u64>,
    pub data_offset: Option<i64>,
    pub data: Option<Seq<u8>>,
}

impl View for FilesystemCommit {
    type V = CommitView;

    open spec fn view(&self) -> CommitView {
        CommitView {
            commit_type: self.commit_type,
            name: self.name@,
            new_name: match self.new_name {
                Some(text) => Some(text@),
                None => None,
            },
            flags: self.flags,
            inode: self.inode,
            parent_inode: self.parent_inode,
            new_parent_inode: self.new_parent_inode,
            data_offset: self.data_offset,
            data: match self.data {
                Some(bytes) => Some(bytes@),
                None => None,
            },
        }
    }
}

/// The commit that records the creation of a file.
pub open spec fn create_commit(name: Seq<char>, parent_inode: u64, flags: u32) -> CommitView {
    CommitView {
        commit_type: CommitType::Create,
        name,
        new_name: None,
        flags: Some(flags),
        inode: None,
        parent_inode: Some(parent_inode),
        new_parent_inode: None,
        data_offset: None,
        data: None,
    }
}

/// The commit that records a write into a file.
pub open spec fn write_commit(
    name: Seq<char>,
    inode: u64,
    data: Seq<u8>,
    data_offset: i64,
    flags: u32,
) -> CommitView {
    CommitView {
        commit_type: CommitType::Write,
        name,
        new_name: None,
        flags: Some(flags),
        inode: Some(inode),
        parent_inode: None,
        new_parent_inode: None,
        data_offset: Some(data_offset),
        data: Some(data),
    }
}

/// The commit that records the removal of a file.
pub open spec fn unlink_commit(name: Seq<char>) -> CommitView {
    CommitView {
        commit_type: CommitType::Unlink,
        name,
        new_name: None,
        flags: None,
        inode: None,
        parent_inode: None,
        new_parent_inode: None,
        data_offset: None,
        data: None,
    }
}

/// The commit that records the creation of a directory.
pub open spec fn mkdir_commit(name: Seq<char>, parent_inode: u64) -> CommitView {
    CommitView {
        commit_type: CommitType::Mkdir,
        name,
        new_name: None,
        flags: None,
        inode: None,
        parent_inode: Some(parent_inode),
        new_parent_inode: None,
        data_offset: None,
        data: None,
    }
}

/// The commit that records the removal of a directory.
pub open spec fn rmdir_commit(name: Seq<char>) -> CommitView {
    CommitView {
        commit_type: CommitType::Rmdir,
        name,
        new_name: None,
        flags: None,
        inode: None,
        parent_inode: None,
        new_parent_inode: None,
        data_offset: None,
        data: None,
    }
}

/// The commit that records a rename.
pub open spec fn rename_commit(
    name: Seq<char>,
    parent_inode: u64,
    new_name: Seq<char>,
    new_parent_inode: u64,
) -> CommitView {
    CommitView {
        commit_type: CommitType::Rename,
        name,
        new_name: Some(new_name),
        flags: None,
        inode: None,
        parent_inode: Some(parent_inode),
        new_parent_inode: Some(new_parent_inode),
        data_offset: None,
        data: None,
    }
}

/// A commit is of a supported kind when it has the shape that one of the
/// six constructors gives: the fields of its kind, and no others.
pub open spec fn commit_is_supported(commit: CommitView) -> bool {
    match commit.commit_type {
        CommitType::Create => commit.flags is Some && commit.parent_inode is Some && commit
            == create_commit(commit.name, commit.parent_inode.unwrap(), commit.flags.unwrap()),
        CommitType::Write => commit.flags is Some && commit.inode is Some && commit.data_offset
            is Some && commit.data is Some && commit == write_commit(
            commit.name,
            commit.inode.unwrap(),
            commit.data.unwrap(),
            commit.data_offset.unwrap(),
            commit.flags.unwrap(),
        ),
        CommitType::Unlink => commit == unlink_commit(commit.name),
        CommitType::Mkdir => commit.parent_inode is Some && commit == mkdir_commit(
            commit.name,
            commit.parent_inode.unwrap(),
        ),
        CommitType::Rmdir => commit == rmdir_commit(commit.name),
        CommitType::Rename => commit.new_name is Some && commit.parent_inode is Some
            && commit.new_parent_inode is Some && commit == rename_commit(
            commit.name,
            commit.parent_inode.unwrap(),
            commit.new_name.unwrap(),
            commit.new_parent_inode.unwrap(),
        ),
        CommitType::Invalid => false,
    }
}

/// The byte that stands for a kind of commit.
pub open spec fn type_byte(commit_type: CommitType) -> u8 {
    match commit_type {
        CommitType::Create => 0,
        CommitType::Write => 1,
        CommitType::Unlink => 2,
        CommitType::Mkdir => 3,
        CommitType::Rmdir => 4,
        CommitType::Rename => 5,
        CommitType::Invalid => 6,
    }
}

/// A text on the wire: the length of its UTF-8 bytes in eight bytes, then
/// those bytes.
pub open spec fn text_field(text: Seq<char>) -> Seq<u8> {
    native_bytes(encode_utf8(text).len(), 8) + encode_utf8(text)
}

/// A text field that may be absent; absent, it takes no bytes.
pub open spec fn optional_text_field(text: Option<Seq<char>>) -> Seq<u8> {
    match text {
        Some(text) => text_field(text),
        None => Seq::empty(),
    }
}

/// A four-byte integer that may be absent.
pub open spec fn optional_u32_field(value: Option<u32>) -> Seq<u8> {
    match value {
        Some(value) => native_bytes(value as nat, 4),
        None => Seq::empty(),
    }
}

/// An eight-byte integer that may be absent.
pub open spec fn optional_u64_field(value: Option<u64>) -> Seq<u8> {
    match value {
        Some(value) => native_bytes(value as nat, 8),
        None => Seq::empty(),
    }
}

/// A signed offset that may be absent: the eight bytes of its two's
/// complement.
pub open spec fn optional_offset_field(value: Option<i64>) -> Seq<u8> {
    match value {
        Some(value) => native_bytes(offset_bits(value) as nat, 8),
        None => Seq::empty(),
    }
}

/// The data that may be absent: the bytes as they are, without a length.
pub open spec fn optional_data_field(value: Option<Seq<u8>>) -> Seq<u8> {
    match value {
        Some(value) => value,
        None => Seq::empty(),
    }
}

/// The bytes of a commit on the wire: type byte, name, and then each field
/// that is present, in the order new name, flags, inode, parent inode, new
/// parent inode, data offset, data.
pub open spec fn commit_encode(commit: CommitView) -> Seq<u8> {
    seq![type_byte(commit.commit_type)] + text_field(commit.name) + optional_text_field(
        commit.new_name,
    ) + optional_u32_field(commit.flags) + optional_u64_field(commit.inode) + optional_u64_field(
        commit.parent_inode,
    ) + optional_u64_field(commit.new_parent_inode) + optional_offset_field(commit.data_offset)
        + optional_data_field(commit.data)
}

/// The four-byte integer at `pos`, if the bytes reach that far.
pub open spec fn read_u32(bytes: Seq<u8>, pos: int) -> Option<u32> {
    if 0 <= pos && pos + 4 <= bytes.len() {
        Some(native_value(bytes.subrange(pos, pos + 4)) as u32)
    } else {
        None
    }
}

/// The eight-byte integer at `pos`, if the bytes reach that far.
pub open spec fn read_u64(bytes: Seq<u8>, pos: int) -> Option<u64> {
    if 0 <= pos && pos + 8 <= bytes.len() {
        Some(native_value(bytes.subrange(pos, pos + 8)) as u64)
    } else {
        None
    }
}

/// The text at `pos` with the position after it.
pub open spec fn read_text(bytes: Seq<u8>, pos: int) -> Result<(Seq<char>, int), CommitError> {
    match read_u64(bytes, pos) {
        None => Err(CommitError::Truncated),
        Some(len) => {
            let start = pos + 8;
            let end = start + len;
            if end > bytes.len() {
                Err(CommitError::Truncated)
            } else if !valid_utf8(bytes.subrange(start, end)) {
                Err(CommitError::InvalidName)
            } else {
                Ok((decode_utf8(bytes.subrange(start, end)), end))
            }
        },
    }
}

/// The fields of a create commit, which start at `pos`.
pub open spec fn decode_create(bytes: Seq<u8>, name: Seq<char>, pos: int) -> Result<
    CommitView,
    CommitError,
> {
    match (read_u32(bytes, pos), read_u64(bytes, pos + 4)) {
        (Some(flags), Some(parent_inode)) => Ok(create_commit(name, parent_inode, flags)),
        _ => Err(CommitError::Truncated),
    }
}

/// The fields of a write commit, which start at `pos`; the data are all
/// the bytes that follow the offset.
pub open spec fn decode_write(bytes: Seq<u8>, name: Seq<char>, pos: int) -> Result<
    CommitView,
    CommitError,
> {
    match (read_u32(bytes, pos), read_u64(bytes, pos + 4), read_u64(bytes, pos + 12)) {
        (Some(flags), Some(inode), Some(bits)) => Ok(
            write_commit(
                name,
                inode,
                bytes.subrange(pos + 20, bytes.len() as int),
                offset_of_bits(bits),
                flags,
            ),
        ),
        _ => Err(CommitError::Truncated),
    }
}

/// The field of a mkdir commit, which starts at `pos`.
pub open spec fn decode_mkdir(bytes: Seq<u8>, name: Seq<char>, pos: int) -> Result<
    CommitView,
    CommitError,
> {
    match read_u64(bytes, pos) {
        Some(parent_inode) => Ok(mkdir_commit(name, parent_inode)),
        None => Err(CommitError::Truncated),
    }
}

/// The fields of a rename commit, which start at `pos`.
pub open spec fn decode_rename(bytes: Seq<u8>, name: Seq<char>, pos: int) -> Result<
    CommitView,
    CommitError,
> {
    match read_text(bytes, pos) {
        Err(error) => Err(error),
        Ok((new_name, after)) => match (read_u64(bytes, after), read_u64(bytes, after + 8)) {
            (Some(parent_inode), Some(new_parent_inode)) => Ok(
                rename_commit(name, parent_inode, new_name, new_parent_inode),
            ),
            _ => Err(CommitError::Truncated),
        },
    }
}

/// The commit that bytes hold, or why they hold none. A type byte of 6 or
/// more is rejected whatever follows it. Bytes after the last field of a
/// commit other than a write are ignored.
pub open spec fn commit_decode(bytes: Seq<u8>) -> Result<CommitView, CommitError> {
    if bytes.len() == 0 {
        Err(CommitError::Truncated)
    } else if bytes[0] >= 6 {
        Err(CommitError::InvalidType)
    } else {
        match read_text(bytes, 1) {
            Err(error) => Err(error),
            Ok((name, pos)) => if bytes[0] == 0 {
                decode_create(bytes, name, pos)
            } else if bytes[0] == 1 {
                decode_write(bytes, name, pos)
            } else if bytes[0] == 2 {
                Ok(unlink_commit(name))
            } else if bytes[0] == 3 {
                decode_mkdir(bytes, name, pos)
            } else if bytes[0] == 4 {
                Ok(rmdir_commit(name))
            } else {
                decode_rename(bytes, name, pos)
            },
        }
    }
}

/// Whether an outcome of decoding is the one the bytes call for.
pub open spec fn decodes_as(
    outcome: Result<FilesystemCommit, CommitError>,
    expected: Result<CommitView, CommitError>,
) -> bool {
    match expected {
        Ok(view) => outcome is Ok && outcome.unwrap()@ == view,
        Err(error) => outcome is Err && outcome.unwrap_err() == error,
    }
}

/// The byte for a kind of commit.
fn type_code(commit_type: CommitType) -> (code: u8)
    ensures
        code == type_byte(commit_type),
{
    match commit_type {
        CommitType::Create => 0,
        CommitType::Write => 1,
        CommitType::Unlink => 2,
        CommitType::Mkdir => 3,
        CommitType::Rmdir => 4,
        CommitType::Rename => 5,
        CommitType::Invalid => 6,
    }
}

/// Appends a four-byte integer.
fn put_u32(out: &mut Vec<u8>, value: u32)
    ensures
        final(out)@ == old(out)@ + native_bytes(value as nat, 4),
{
    let bytes: [u8; 4] = u32_to_ne_bytes(value);
    append_bytes(out, bytes.as_slice());
}

/// Appends an eight-byte integer.
fn put_u64(out: &mut Vec<u8>, value: u64)
    ensures
        final(out)@ == old(out)@ + native_bytes(value as nat, 8),
{
    let bytes: [u8; 8] = u64_to_ne_bytes(value);
    append_bytes(out, bytes.as_slice());
}

/// Appends a text with its length.
fn put_text(out: &mut Vec<u8>, text: &String)
    ensures
        final(out)@ == old(out)@ + text_field(text@),
{
    let raw: Vec<u8> = bytes_of_text(text);
    put_u64(out, raw.len() as u64);
    append_bytes(out, raw.as_slice());
    assert(out@ =~= old(out)@ + text_field(text@));
}

/// The four-byte integer at `pos`.
fn take_u32(data: &Vec<u8>, pos: usize) -> (value: Option<u32>)
    ensures
        value == read_u32(data@, pos as int),
{
    if data.len() < 4 || pos > data.len() - 4 {
        return None;
    }
    let bytes: [u8; 4] = [data[pos], data[pos + 1], data[pos + 2], data[pos + 3]];
    assert(bytes@ =~= data@.subrange(pos as int, pos + 4));
    Some(u32_from_ne_bytes(bytes))
}

/// The eight-byte integer at `pos`.
fn take_u64(data: &Vec<u8>, pos: usize) -> (value: Option<u64>)
    ensures
        value == read_u64(data@, pos as int),
{
    if data.len() < 8 || pos > data.len() - 8 {
        return None;
    }
    let bytes: [u8; 8] = [
        data[pos],
        data[pos + 1],
        data[pos + 2],
        data[pos + 3],
        data[pos + 4],
        data[pos + 5],
        data[pos + 6],
        data[pos + 7],
    ];
    assert(bytes@ =~= data@.subrange(pos as int, pos + 8));
    Some(u64_from_ne_bytes(bytes))
}

/// The text at `pos` and the position after it.
fn take_text(data: &Vec<u8>, pos: usize) -> (text: Result<(String, usize), CommitError>)
    ensures
        match read_text(data@, pos as int) {
            Ok((chars, after)) => text is Ok && text.unwrap().0@ == chars && text.unwrap().1
                == after,
            Err(error) => text is Err && text.unwrap_err() == error,
        },
{
    let field: Option<u64> = take_u64(data, pos);
    if field.is_none() {
        return Err(CommitError::Truncated);
    }
    let len: u64 = field.unwrap();
    let total: usize = data.len();
    assert(read_u64(data@, pos as int) is Some);
    let start: usize = pos + 8;
    let remaining: usize = total - start;
    if len > remaining as u64 {
        return Err(CommitError::Truncated);
    }
    let end: usize = start + len as usize;
    let raw: Vec<u8> = copy_range(data.as_slice(), start, end);
    match text_of_bytes(raw.as_slice()) {
        Some(text) => Ok((text, end)),
        None => Err(CommitError::InvalidName),
    }
}

impl FilesystemCommit {
    /// The commit for the creation of file `filename` under `parent_inode`.
    pub fn create(filename: String, parent_inode: u64, flags: u32) -> (commit: Self)
        ensures
            commit@ == create_commit(filename@, parent_inode, flags),
    {
        Self {
            commit_type: CommitType::Create,
            name: filename,
            parent_inode: Some(parent_inode),
            flags: Some(flags),
            inode: None,
            data_offset: None,
            data: None,
            new_name: None,
            new_parent_inode: None,
        }
    }

    /// The commit for a write of `data` at `data_offset` into the file
    /// `inode`, whose name is `filename`.
    pub fn write(filename: String, inode: u64, data: Vec<u8>, data_offset: i64, flags: u32) -> (commit:
        Self)
        ensures
            commit@ == write_commit(filename@, inode, data@, data_offset, flags),
    {
        Self {
            commit_type: CommitType::Write,
            name: filename,
            inode: Some(inode),
            data_offset: Some(data_offset),
            data: Some(data),
            flags: Some(flags),
            parent_inode: None,
            new_name: None,
            new_parent_inode: None,
        }
    }

    /// The commit for the removal of file `filename`.
    pub fn unlink(filename: String) -> (commit: Self)
        ensures
            commit@ == unlink_commit(filename@),
    {
        Self {
            commit_type: CommitType::Unlink,
            name: filename,
            inode: None,
            parent_inode: None,
            flags: None,
            data_offset: None,
            data: None,
            new_name: None,
            new_parent_inode: None,
        }
    }

    /// The commit for the creation of directory `dirname` under
    /// `parent_inode`.
    pub fn mkdir(dirname: String, parent_inode: u64) -> (commit: Self)
        ensures
            commit@ == mkdir_commit(dirname@, parent_inode),
    {
        Self {
            commit_type: CommitType::Mkdir,
            name: dirname,
            parent_inode: Some(parent_inode),
            inode: None,
            flags: None,
            data_offset: None,
            data: None,
            new_name: None,
            new_parent_inode: None,
        }
    }

    /// The commit for the removal of directory `dirname`.
    pub fn rmdir(dirname: String) -> (commit: Self)
        ensures
            commit@ == rmdir_commit(dirname@),
    {
        Self {
            commit_type: CommitType::Rmdir,
            name: dirname,
            inode: None,
            parent_inode: None,
            flags: None,
            data_offset: None,
            data: None,
            new_name: None,
            new_parent_inode: None,
        }
    }

    /// The commit for renaming `name` under `parent_inode` to `new_name`
    /// under `new_parent_inode`.
    pub fn rename(name: String, parent_inode: u64, new_name: String, new_parent_inode: u64) -> (commit:
        Self)
        ensures
            commit@ == rename_commit(name@, parent_inode, new_name@, new_parent_inode),
    {
        Self {
            commit_type: CommitType::Rename,
            name,
            parent_inode: Some(parent_inode),
            new_name: Some(new_name),
            new_parent_inode: Some(new_parent_inode),
            inode: None,
            flags: None,
            data_offset: None,
            data: None,
        }
    }

    pub fn get_commit_type(&self) -> (commit_type: CommitType)
        ensures
            commit_type == self@.commit_type,
    {
        self.commit_type
    }

    pub fn get_name(&self) -> (name: String)
        ensures
            name@ == self@.name,
    {
        self.name.clone()
    }

    pub fn get_new_name(&self) -> (new_name: Option<String>)
        ensures
            new_name is Some == self@.new_name is Some,
            new_name is Some ==> new_name.unwrap()@ == self@.new_name.unwrap(),
    {
        match &self.new_name {
            Some(text) => Some(text.clone()),
            None => None,
        }
    }

    pub fn get_flags(&self) -> (flags: Option<u32>)
        ensures
            flags == self@.flags,
    {
        self.flags
    }

    pub fn get_inode(&self) -> (inode: Option<u64>)
        ensures
            inode == self@.inode,
    {
        self.inode
    }

    pub fn get_parent_inode(&self) -> (parent_inode: Option<u64>)
        ensures
            parent_inode == self@.parent_inode,
    {
        self.parent_inode
    }

    pub fn get_new_parent_inode(&self) -> (new_parent_inode: Option<u64>)
        ensures
            new_parent_inode == self@.new_parent_inode,
    {
        self.new_parent_inode
    }

    pub fn get_data_offset(&self) -> (data_offset: Option<i64>)
        ensures
            data_offset == self@.data_offset,
    {
        self.data_offset
    }

    pub fn get_data(&self) -> (data: Option<Vec<u8>>)
        ensures
            data is Some == self@.data is Some,
            data is Some ==> data.unwrap()@ == self@.data.unwrap(),
    {
        match &self.data {
            Some(bytes) => Some(copy_range(bytes.as_slice(), 0, bytes.len())),
            None => None,
        }
    }

    /// Whether the commit has the fields of its kind, and no others.
    pub fn is_supported(&self) -> (supported: bool)
        ensures
            supported == commit_is_supported(self@),
    {
        let new_name: bool = self.new_name.is_some();
        let flags: bool = self.flags.is_some();
        let inode: bool = self.inode.is_some();
        let parent_inode: bool = self.parent_inode.is_some();
        let new_parent_inode: bool = self.new_parent_inode.is_some();
        let data_offset: bool = self.data_offset.is_some();
        let data: bool = self.data.is_some();
        match self.commit_type {
            CommitType::Create => !new_name && flags && !inode && parent_inode && !new_parent_inode
                && !data_offset && !data,
            CommitType::Write => !new_name && flags && inode && !parent_inode && !new_parent_inode
                && data_offset && data,
            CommitType::Unlink | CommitType::Rmdir => !new_name && !flags && !inode && !parent_inode
                && !new_parent_inode && !data_offset && !data,
            CommitType::Mkdir => !new_name && !flags && !inode && parent_inode && !new_parent_inode
                && !data_offset && !data,
            CommitType::Rename => new_name && !flags && !inode && parent_inode && new_parent_inode
                && !data_offset && !data,
            CommitType::Invalid => false,
        }
    }

    /// The commit as bytes for the wire.
    pub fn to_bytes(&self) -> (bytes: Vec<u8>)
        ensures
            bytes@ == commit_encode(self@),
    {
        let mut out: Vec<u8> = Vec::new();
        out.push(type_code(self.commit_type));
        put_text(&mut out, &self.name);
        match &self.new_name {
            Some(text) => {
                put_text(&mut out, text);
            },
            None => {},
        }
        match self.flags {
            Some(flags) => {
                put_u32(&mut out, flags);
            },
            None => {},
        }
        match self.inode {
            Some(inode) => {
                put_u64(&mut out, inode);
            },
            None => {},
        }
        match self.parent_inode {
            Some(parent_inode) => {
                put_u64(&mut out, parent_inode);
            },
            None => {},
        }
        match self.new_parent_inode {
            Some(new_parent_inode) => {
                put_u64(&mut out, new_parent_inode);
            },
            None => {},
        }
        match self.data_offset {
            Some(data_offset) => {
                put_u64(&mut out, bits_of_offset(data_offset));
            },
            None => {},
        }
        match &self.data {
            Some(data) => {
                append_bytes(&mut out, data.as_slice());
            },
            None => {},
        }
        assert(out@ =~= commit_encode(self@));
        out
    }

    /// Decodes a commit from the wire. The outcome is the one that
    /// `commit_decode` gives for these bytes: the commit, or the reason
    /// why there is none.
    pub fn from_bytes(data: Vec<u8>) -> (outcome: Result<Self, CommitError>)
        ensures
            decodes_as(outcome, commit_decode(data@)),
            outcome is Ok ==> commit_is_supported(outcome.unwrap()@),
    {
        if data.len() == 0 {
            return Err(CommitError::Truncated);
        }
        let code: u8 = data[0];
        if code >= 6 {
            return Err(CommitError::InvalidType);
        }
        let (name, pos) = match take_text(&data, 1) {
            Ok(pair) => pair,
            Err(error) => {
                return Err(error);
            },
        };
        if code == 0 {
            let flags: Option<u32> = take_u32(&data, pos);
            let parent_inode: Option<u64> = if pos <= usize::MAX - 4 {
                take_u64(&data, pos + 4)
            } else {
                None
            };
            match (flags, parent_inode) {
                (Some(flags), Some(parent_inode)) => Ok(
                    FilesystemCommit::create(name, parent_inode, flags),
                ),
                _ => Err(CommitError::Truncated),
            }
        } else if code == 1 {
            if data.len() - pos < 20 {
                return Err(CommitError::Truncated);
            }
            let flags: Option<u32> = take_u32(&data, pos);
            let inode: Option<u64> = take_u64(&data, pos + 4);
            let bits: Option<u64> = take_u64(&data, pos + 12);
            match (flags, inode, bits) {
                (Some(flags), Some(inode), Some(bits)) => {
                    let payload: Vec<u8> = copy_range(data.as_slice(), pos + 20, data.len());
                    Ok(FilesystemCommit::write(name, inode, payload, offset_from_bits(bits), flags))
                },
                _ => Err(CommitError::Truncated),
            }
        } else if code == 2 {
            Ok(FilesystemCommit::unlink(name))
        } else if code == 3 {
            match take_u64(&data, pos) {
                Some(parent_inode) => Ok(FilesystemCommit::mkdir(name, parent_inode)),
                None => Err(CommitError::Truncated),
            }
        } else if code == 4 {
            Ok(FilesystemCommit::rmdir(name))
        } else {
            let (new_name, after) = match take_text(&data, pos) {
                Ok(pair) => pair,
                Err(error) => {
                    return Err(error);
                },
            };
            if data.len() - after < 16 {
                return Err(CommitError::Truncated);
            }
            let parent_inode: Option<u64> = take_u64(&data, after);
            let new_parent_inode: Option<u64> = take_u64(&data, after + 8);
            match (parent_inode, new_parent_inode) {
                (Some(parent_inode), Some(new_parent_inode)) => Ok(
                    FilesystemCommit::rename(name, parent_inode, new_name, new_parent_inode),
                ),
                _ => Err(CommitError::Truncated),
            }
        }
    }
}

/// A four-byte integer written at `pos` is read back from there.
proof fn lemma_read_u32_written(bytes: Seq<u8>, pos: int, value: u32)
    requires
        0 <= pos,
        pos + 4 <= bytes.len(),
        bytes.subrange(pos, pos + 4) == native_bytes(value as nat, 4),
    ensures
        read_u32(bytes, pos) == Some(value),
{
    lemma_byte_limits();
    lemma_native_roundtrip(value as nat, 4);
}

/// An eight-byte integer written at `pos` is read back from there.
proof fn lemma_read_u64_written(bytes: Seq<u8>, pos: int, value: u64)
    requires
        0 <= pos,
        pos + 8 <= bytes.len(),
        bytes.subrange(pos, pos + 8) == native_bytes(value as nat, 8),
    ensures
        read_u64(bytes, pos) == Some(value),
{
    lemma_byte_limits();
    lemma_native_roundtrip(value as nat, 8);
}

/// The length of a text field is eight plus the length of the text's bytes.
proof fn lemma_text_field_len(text: Seq<char>)
    requires
        encode_utf8(text).len() < byte_limit(8),
    ensures
        text_field(text).len() == 8 + encode_utf8(text).len(),
{
    lemma_native_roundtrip(encode_utf8(text).len(), 8);
}

/// A text written at `pos` is read back from there.
proof fn lemma_read_text_written(bytes: Seq<u8>, pos: int, text: Seq<char>)
    requires
        0 <= pos,
        encode_utf8(text).len() < byte_limit(8),
        pos + 8 + encode_utf8(text).len() <= bytes.len(),
        bytes.subrange(pos, pos + 8 + encode_utf8(text).len()) == text_field(text),
    ensures
        read_text(bytes, pos) == Ok::<(Seq<char>, int), CommitError>(
            (text, pos + 8 + encode_utf8(text).len()),
        ),
{
    let raw = encode_utf8(text);
    let len = raw.len() as int;
    lemma_byte_limits();
    lemma_native_roundtrip(raw.len(), 8);
    let field = text_field(text);
    assert(bytes.subrange(pos, pos + 8) =~= field.subrange(0, 8));
    assert(field.subrange(0, 8) =~= native_bytes(raw.len(), 8));
    lemma_read_u64_written(bytes, pos, len as u64);
    assert(bytes.subrange(pos + 8, pos + 8 + len) =~= field.subrange(8, 8 + len));
    assert(field.subrange(8, 8 + len) =~= raw);
    vstd::utf8::encode_utf8_valid_utf8(text);
    vstd::utf8::encode_utf8_decode_utf8(text);
}

/// Decoding the bytes of a commit of a supported kind gives the commit
/// back. (The lengths of the names have to fit the eight-byte length
/// field, which the length of every string in memory does.)
pub proof fn lemma_commit_roundtrip(commit: CommitView)
    requires
        commit_is_supported(commit),
        encode_utf8(commit.name).len() < byte_limit(8),
        commit.new_name is Some ==> encode_utf8(commit.new_name.unwrap()).len() < byte_limit(8),
    ensures
        commit_decode(commit_encode(commit)) == Ok::<CommitView, CommitError>(commit),
{
    let bytes = commit_encode(commit);
    let head = seq![type_byte(commit.commit_type)];
    let name = text_field(commit.name);
    let n = encode_utf8(commit.name).len() as int;
    lemma_text_field_len(commit.name);
    lemma_byte_limits();
    assert(bytes[0] == type_byte(commit.commit_type));
    assert(bytes.subrange(1, 1 + 8 + n) =~= name);
    lemma_read_text_written(bytes, 1, commit.name);
    let pos = 9 + n;
    match commit.commit_type {
        CommitType::Create => {
            let flags = commit.flags.unwrap();
            let parent = commit.parent_inode.unwrap();
            lemma_native_roundtrip(flags as nat, 4);
            lemma_native_roundtrip(parent as nat, 8);
            assert(bytes.subrange(pos, pos + 4) =~= native_bytes(flags as nat, 4));
            assert(bytes.subrange(pos + 4, pos + 12) =~= native_bytes(parent as nat, 8));
            lemma_read_u32_written(bytes, pos, flags);
            lemma_read_u64_written(bytes, pos + 4, parent);
        },
        CommitType::Write => {
            let flags = commit.flags.unwrap();
            let inode = commit.inode.unwrap();
            let offset = commit.data_offset.unwrap();
            let bits = offset_bits(offset);
            lemma_native_roundtrip(flags as nat, 4);
            lemma_native_roundtrip(inode as nat, 8);
            lemma_native_roundtrip(bits as nat, 8);
            assert(bytes.subrange(pos, pos + 4) =~= native_bytes(flags as nat, 4));
            assert(bytes.subrange(pos + 4, pos + 12) =~= native_bytes(inode as nat, 8));
            assert(bytes.subrange(pos + 12, pos + 20) =~= native_bytes(bits as nat, 8));
            lemma_read_u32_written(bytes, pos, flags);
            lemma_read_u64_written(bytes, pos + 4, inode);
            lemma_read_u64_written(bytes, pos + 12, bits);
            assert(bytes.subrange(pos + 20, bytes.len() as int) =~= commit.data.unwrap());
        },
        CommitType::Unlink => {},
        CommitType::Mkdir => {
            let parent = commit.parent_inode.unwrap();
            lemma_native_roundtrip(parent as nat, 8);
            assert(bytes.subrange(pos, pos + 8) =~= native_bytes(parent as nat, 8));
            lemma_read_u64_written(bytes, pos, parent);
        },
        CommitType::Rmdir => {},
        CommitType::Rename => {
            let new_name = commit.new_name.unwrap();
            let m = encode_utf8(new_name).len() as int;
            let parent = commit.parent_inode.unwrap();
            let new_parent = commit.new_parent_inode.unwrap();
            lemma_text_field_len(new_name);
            lemma_native_roundtrip(parent as nat, 8);
            lemma_native_roundtrip(new_parent as nat, 8);
            assert(bytes.subrange(pos, pos + 8 + m) =~= text_field(new_name));
            lemma_read_text_written(bytes, pos, new_name);
            let after = pos + 8 + m;
            assert(bytes.subrange(after, after + 8) =~= native_bytes(parent as nat, 8));
            assert(bytes.subrange(after + 8, after + 16) =~= native_bytes(new_parent as nat, 8));
            lemma_read_u64_written(bytes, after, parent);
            lemma_read_u64_written(bytes, after + 8, new_parent);
        },
        CommitType::Invalid => {},
    }
}

/// A four-byte integer that was read stands at its place as written.
proof fn lemma_read_u32_sound(bytes: Seq<u8>, pos: int)
    requires
        read_u32(bytes, pos) is Some,
    ensures
        native_bytes(read_u32(bytes, pos).unwrap() as nat, 4) == bytes.subrange(pos, pos + 4),
{
    lemma_byte_limits();
    lemma_native_bytes_of_value(bytes.subrange(pos, pos + 4));
}

/// An eight-byte integer that was read stands at its place as written.
proof fn lemma_read_u64_sound(bytes: Seq<u8>, pos: int)
    requires
        read_u64(bytes, pos) is Some,
    ensures
        native_bytes(read_u64(bytes, pos).unwrap() as nat, 8) == bytes.subrange(pos, pos + 8),
{
    lemma_byte_limits();
    lemma_native_bytes_of_value(bytes.subrange(pos, pos + 8));
}

/// A text that was read stands at its place as written, and ends where
/// the reading says.
proof fn lemma_read_text_sound(bytes: Seq<u8>, pos: int)
    requires
        read_text(bytes, pos) is Ok,
    ensures
        ({
            let (text, after) = read_text(bytes, pos).unwrap();
            &&& after == pos + text_field(text).len()
            &&& after <= bytes.len()
            &&& bytes.subrange(pos, after) == text_field(text)
        }),
{
    let len = read_u64(bytes, pos).unwrap();
    let raw = bytes.subrange(pos + 8, pos + 8 + len);
    lemma_read_u64_sound(bytes, pos);
    vstd::utf8::decode_utf8_encode_utf8(raw);
    let text = decode_utf8(raw);
    assert(encode_utf8(text) == raw);
    assert(bytes.subrange(pos, pos + 8 + len) =~= bytes.subrange(pos, pos + 8) + raw);
}

/// What decoding accepts is what encoding writes: bytes that decode to a
/// commit begin with the bytes of that commit, which is of a supported
/// kind; and the bytes of a write are exactly those of its commit.
pub proof fn lemma_commit_decode_sound(bytes: Seq<u8>, commit: CommitView)
    requires
        commit_decode(bytes) == Ok::<CommitView, CommitError>(commit),
    ensures
        commit_is_supported(commit),
        commit_encode(commit).len() <= bytes.len(),
        bytes.subrange(0, commit_encode(commit).len() as int) == commit_encode(commit),
        commit.commit_type == CommitType::Write ==> commit_encode(commit) == bytes,
{
    lemma_read_text_sound(bytes, 1);
    let (name, pos) = read_text(bytes, 1).unwrap();
    let head = seq![bytes[0]] + text_field(name);
    assert(bytes.subrange(0, pos) =~= head);
    if bytes[0] == 0 {
        lemma_read_u32_sound(bytes, pos);
        lemma_read_u64_sound(bytes, pos + 4);
        assert(bytes.subrange(0, pos + 12) =~= head + bytes.subrange(pos, pos + 4)
            + bytes.subrange(pos + 4, pos + 12));
        assert(commit_encode(commit) =~= head + bytes.subrange(pos, pos + 4) + bytes.subrange(
            pos + 4,
            pos + 12,
        ));
    } else if bytes[0] == 1 {
        lemma_read_u32_sound(bytes, pos);
        lemma_read_u64_sound(bytes, pos + 4);
        lemma_read_u64_sound(bytes, pos + 12);
        crate::byte_order::lemma_bits_roundtrip(read_u64(bytes, pos + 12).unwrap());
        assert(bytes =~= head + bytes.subrange(pos, pos + 4) + bytes.subrange(pos + 4, pos + 12)
            + bytes.subrange(pos + 12, pos + 20) + bytes.subrange(pos + 20, bytes.len() as int));
        assert(commit_encode(commit) =~= head + bytes.subrange(pos, pos + 4) + bytes.subrange(
            pos + 4,
            pos + 12,
        ) + bytes.subrange(pos + 12, pos + 20) + bytes.subrange(pos + 20, bytes.len() as int));
        assert(bytes.subrange(0, bytes.len() as int) =~= bytes);
    } else if bytes[0] == 2 {
        assert(commit_encode(commit) =~= head);
    } else if bytes[0] == 3 {
        lemma_read_u64_sound(bytes, pos);
        assert(bytes.subrange(0, pos + 8) =~= head + bytes.subrange(pos, pos + 8));
        assert(commit_encode(commit) =~= head + bytes.subrange(pos, pos + 8));
    } else if bytes[0] == 4 {
        assert(commit_encode(commit) =~= head);
    } else {
        lemma_read_text_sound(bytes, pos);
        let (new_name, after) = read_text(bytes, pos).unwrap();
        lemma_read_u64_sound(bytes, after);
        lemma_read_u64_sound(bytes, after + 8);
        assert(bytes.subrange(0, after + 16) =~= head + text_field(new_name) + bytes.subrange(
            after,
            after + 8,
        ) + bytes.subrange(after + 8, after + 16));
        assert(commit_encode(commit) =~= head + text_field(new_name) + bytes.subrange(
            after,
            after + 8,
        ) + bytes.subrange(after + 8, after + 16));
    }
}

} // verus!
