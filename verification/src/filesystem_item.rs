//! One entry of the in-memory filesystem: a file or a directory.

use vstd::prelude::*;
use crate::byte_order::copy_range;

verus! {

/// Whether an entry is a file or a directory.
#[derive(Clone, Copy, PartialEq, Eq, Debug, Structural)]
pub enum FileType {
    RegularFile,
    Directory,
}

/// A point in time: seconds and nanoseconds since the start of 1970.
#[derive(Clone, Copy, PartialEq, Eq, Debug, Structural)]
pub struct Timestamp {
    pub sec: i64,
    pub nsec: i32,
}

/// The attributes of an entry, as the filesystem reports them. The four
/// times are those of last access, last modification, last change and
/// creation; an entry gets all four when it is made, from whoever makes
/// it.
#[derive(Clone, Copy, PartialEq, Eq, Debug, Structural)]
pub struct FileAttr {
    pub ino: u64,
    pub size: u64,
    pub blocks: u64,
    pub atime: Timestamp,
    pub mtime: Timestamp,
    pub ctime: Timestamp,
    pub crtime: Timestamp,
    pub kind: FileType,
    pub perm: u16,
    pub nlink: u32,
    pub uid: u32,
    pub gid: u32,
    pub rdev: u32,
    pub flags: u32,
}

/// An entry: its name, its contents, its inode and that of the directory
/// it is in, and its attributes.
#[derive(Debug)]
pub struct FilesystemItem {
    name: String,
    data: Vec<u8>,
    inode: u64,
    parent_inode: u64,
    attr: FileAttr,
}

/// What an entry is.
pub struct ItemView {
    pub name: Seq<char>,
    pub data: Seq<u8>,
    pub inode: u64,
    pub parent_inode: u64,
    pub attr: FileAttr,
}

impl View for FilesystemItem {
    type V = ItemView;

    closed spec fn view(&self) -> ItemView {
        ItemView {
            name: self.name@,
            data: self.data@,
            inode: self.inode,
            parent_inode: self.parent_inode,
            attr: self.attr,
        }
    }
}

/// The size that goes with contents of `len` bytes.
pub open spec fn size_of_len(len: nat) -> u64 {
    (len % 0x1_0000_0000_0000_0000) as u64
}

/// An entry after its contents were replaced: the size in its attributes
/// is the length of the new contents.
pub open spec fn item_with_data(item: ItemView, data: Seq<u8>) -> ItemView {
    ItemView { data, attr: FileAttr { size: size_of_len(data.len()), ..item.attr }, ..item }
}

impl FilesystemItem {
    pub fn new(name: String, data: Vec<u8>, inode: u64, parent_inode: u64, attr: FileAttr) -> (item:
        Self)
        ensures
            item@ == (ItemView { name: name@, data: data@, inode, parent_inode, attr }),
    {
        Self { name, data, inode, parent_inode, attr }
    }

    pub fn get_filetype(&self) -> (kind: FileType)
        ensures
            kind == self@.attr.kind,
    {
        self.attr.kind
    }

    pub fn get_name(&self) -> (name: String)
        ensures
            name@ == self@.name,
    {
        self.name.clone()
    }

    /// The name, without copying it.
    pub fn name_ref(&self) -> (name: &String)
        ensures
            name@ == self@.name,
    {
        &self.name
    }

    pub fn set_name(&mut self, name: String)
        ensures
            final(self)@ == (ItemView { name: name@, ..old(self)@ }),
    {
        self.name = name;
    }

    pub fn get_data(&self) -> (data: Vec<u8>)
        ensures
            data@ == self@.data,
    {
        let data: Vec<u8> = copy_range(self.data.as_slice(), 0, self.data.len());
        assert(data@ =~= self.data@);
        data
    }

    /// The contents, without copying them.
    pub fn data_ref(&self) -> (data: &Vec<u8>)
        ensures
            data@ == self@.data,
    {
        &self.data
    }

    /// Replaces the contents and sets the size to their length.
    pub fn set_data(&mut self, data: Vec<u8>)
        ensures
            final(self)@ == item_with_data(old(self)@, data@),
    {
        self.attr.size = data.len() as u64;
        self.data = data;
    }

    pub fn get_inode(&self) -> (inode: u64)
        ensures
            inode == self@.inode,
    {
        self.inode
    }

    pub fn set_inode(&mut self, inode: u64)
        ensures
            final(self)@ == (ItemView { inode, ..old(self)@ }),
    {
        self.inode = inode
    }

    pub fn get_parent_inode(&self) -> (parent_inode: u64)
        ensures
            parent_inode == self@.parent_inode,
    {
        self.parent_inode
    }

    pub fn set_parent_inode(&mut self, parent_inode: u64)
        ensures
            final(self)@ == (ItemView { parent_inode, ..old(self)@ }),
    {
        self.parent_inode = parent_inode
    }

    pub fn get_attr(&self) -> (attr: FileAttr)
        ensures
            attr == self@.attr,
    {
        self.attr
    }

    pub fn set_attr(&mut self, attr: FileAttr)
        ensures
            final(self)@ == (ItemView { attr, ..old(self)@ }),
    {
        self.attr = attr;
    }

    pub fn get_size(&self) -> (size: u64)
        ensures
            size == self@.attr.size,
    {
        self.attr.size
    }
}

} // verus!
