//! The in-memory filesystem: a list of entries with the root directory
//! first, and a log of the commits that record every change made to it.

use vstd::prelude::*;
use vstd::utf8::encode_utf8;
use crate::byte_order::copy_range;
use crate::filesystem_commit::{
    create_commit, mkdir_commit, rename_commit, rmdir_commit, unlink_commit, write_commit,
    CommitView, FilesystemCommit,
};
use crate::filesystem_item::{
    item_with_data, size_of_len, FileAttr, FileType, FilesystemItem, ItemView, Timestamp,
};
use crate::platform::o_append;

verus! {

/// Why an operation on the filesystem did not succeed.
#[derive(Clone, Copy, PartialEq, Eq, Debug, Structural)]
pub enum FsError {
    /// There is no such entry.
    NotFound,
    /// The operation is not available here.
    NotImplemented,
}

/// One line of a directory listing.
#[derive(Debug)]
pub struct DirEntry {
    pub inode: u64,
    pub offset: i64,
    pub kind: FileType,
    pub name: String,
}

/// What a line of a directory listing is.
pub struct DirEntryView {
    pub inode: u64,
    pub offset: i64,
    pub kind: FileType,
    pub name: Seq<char>,
}

impl View for DirEntry {
    type V = DirEntryView;

    open spec fn view(&self) -> DirEntryView {
        DirEntryView { inode: self.inode, offset: self.offset, kind: self.kind, name: self.name@ }
    }
}

/// What a filesystem is: its entries in order of insertion, its commit log,
/// and the bit of the open flags that stands for appending.
pub struct FsView {
    pub items: Seq<ItemView>,
    pub commits: Seq<CommitView>,
    pub append_flag: u32,
}

/// The views of a list of entries.
pub open spec fn item_views(items: Seq<FilesystemItem>) -> Seq<ItemView> {
    Seq::new(items.len(), |i: int| items[i]@)
}

/// The views of a list of commits.
pub open spec fn commit_views(commits: Seq<FilesystemCommit>) -> Seq<CommitView> {
    Seq::new(commits.len(), |i: int| commits[i]@)
}

/// The views of a directory listing.
pub open spec fn entry_views(entries: Seq<DirEntry>) -> Seq<DirEntryView> {
    Seq::new(entries.len(), |i: int| entries[i]@)
}

/// The name of the root directory.
pub open spec fn root_name() -> Seq<char> {
    seq!['/']
}

/// The attributes of the root directory, made at the time `now`.
pub open spec fn root_attr(now: Timestamp) -> FileAttr {
    FileAttr {
        ino: 1,
        size: 0,
        blocks: 0,
        atime: now,
        mtime: now,
        ctime: now,
        crtime: now,
        kind: FileType::Directory,
        perm: 0o755,
        nlink: 0,
        uid: 0,
        gid: 0,
        rdev: 0,
        flags: 0,
    }
}

/// The root directory: inode 1, in no directory.
pub open spec fn root_item(now: Timestamp) -> ItemView {
    ItemView {
        name: root_name(),
        data: Seq::empty(),
        inode: 1,
        parent_inode: 0,
        attr: root_attr(now),
    }
}

/// The filesystem that holds the root directory, made at the time `now`,
/// and nothing else.
pub open spec fn empty_fs(append_flag: u32, now: Timestamp) -> FsView {
    FsView { items: seq![root_item(now)], commits: Seq::empty(), append_flag }
}

/// The inode that the next entry gets: the number of entries plus one.
pub open spec fn next_inode(items: Seq<ItemView>) -> u64 {
    (items.len() + 1) as u64
}

/// The attributes of a file as it is created at the time `now`.
pub open spec fn new_file_attr(ino: u64, size: u64, flags: u32, now: Timestamp) -> FileAttr {
    FileAttr {
        ino,
        size,
        blocks: 0,
        atime: now,
        mtime: now,
        ctime: now,
        crtime: now,
        kind: FileType::RegularFile,
        perm: 0o644,
        nlink: 0,
        uid: 0,
        gid: 0,
        rdev: 0,
        flags,
    }
}

/// The attributes of a directory as it is created at the time `now`.
pub open spec fn new_dir_attr(ino: u64, size: u64, now: Timestamp) -> FileAttr {
    FileAttr {
        ino,
        size,
        blocks: 0,
        atime: now,
        mtime: now,
        ctime: now,
        crtime: now,
        kind: FileType::Directory,
        perm: 0o644,
        nlink: 0,
        uid: 0,
        gid: 0,
        rdev: 0,
        flags: 0,
    }
}

/// A file as it is created: empty, with the length of its name as its
/// size.
pub open spec fn new_file(items: Seq<ItemView>, name: Seq<char>, parent_inode: u64, flags: u32, now: Timestamp) -> ItemView {
    ItemView {
        name,
        data: Seq::empty(),
        inode: next_inode(items),
        parent_inode,
        attr: new_file_attr(next_inode(items), size_of_len(encode_utf8(name).len()), flags, now),
    }
}

/// A directory as it is created.
pub open spec fn new_dir(items: Seq<ItemView>, name: Seq<char>, parent_inode: u64, now: Timestamp) -> ItemView {
    ItemView {
        name,
        data: Seq::empty(),
        inode: next_inode(items),
        parent_inode,
        attr: new_dir_attr(next_inode(items), size_of_len(encode_utf8(name).len()), now),
    }
}

/// The place of the first entry called `name`, or the number of entries if
/// there is none.
pub open spec fn first_named(items: Seq<ItemView>, name: Seq<char>) -> int
    decreases items.len(),
{
    if items.len() == 0 {
        0
    } else if items[0].name == name {
        0
    } else {
        1 + first_named(items.drop_first(), name)
    }
}

/// The place of the first entry with the inode, or the number of entries
/// if there is none.
pub open spec fn first_with_inode(items: Seq<ItemView>, inode: u64) -> int
    decreases items.len(),
{
    if items.len() == 0 {
        0
    } else if items[0].inode == inode {
        0
    } else {
        1 + first_with_inode(items.drop_first(), inode)
    }
}

/// The place of the first entry called `name` in the directory
/// `parent_inode`, or the number of entries if there is none.
pub open spec fn first_in_directory(items: Seq<ItemView>, name: Seq<char>, parent_inode: u64) -> int
    decreases items.len(),
{
    if items.len() == 0 {
        0
    } else if items[0].name == name && items[0].parent_inode == parent_inode {
        0
    } else {
        1 + first_in_directory(items.drop_first(), name, parent_inode)
    }
}

/// Whether some entry is in the directory `inode`.
pub open spec fn has_child(items: Seq<ItemView>, inode: u64) -> bool {
    exists|i: int| 0 <= i < items.len() && (#[trigger] items[i]).parent_inode == inode
}

/// Contents cut or zero-filled to `len` bytes.
pub open spec fn resized(data: Seq<u8>, len: int) -> Seq<u8> {
    if len <= data.len() {
        data.subrange(0, len)
    } else {
        data + Seq::new((len - data.len()) as nat, |i: int| 0u8)
    }
}

/// Contents with `data` put at `offset`, which must be inside them.
pub open spec fn overwritten(contents: Seq<u8>, data: Seq<u8>, offset: int) -> Seq<u8> {
    contents.subrange(0, offset) + data + contents.subrange(
        offset + data.len(),
        contents.len() as int,
    )
}

/// The contents of a file after a write of `data` at `offset`. Unless the
/// append bit is set and the write ends inside the file, the file is first
/// resized to end where the write ends.
pub open spec fn written(contents: Seq<u8>, data: Seq<u8>, offset: int, append_set: bool) -> Seq<u8> {
    if !append_set || offset + data.len() > contents.len() {
        overwritten(resized(contents, offset + data.len()), data, offset)
    } else {
        overwritten(contents, data, offset)
    }
}

/// Whether the append bit is set in `flags`.
pub open spec fn append_is_set(flags: u32, append_flag: u32) -> bool {
    flags & append_flag != 0
}

/// The filesystem after the creation of a file. The commit is logged in
/// any case; a file with an empty name is not created.
pub open spec fn fs_create(fs: FsView, name: Seq<char>, parent_inode: u64, flags: u32, now: Timestamp) -> FsView {
    FsView {
        items: if name.len() > 0 {
            fs.items.push(new_file(fs.items, name, parent_inode, flags, now))
        } else {
            fs.items
        },
        commits: fs.commits.push(create_commit(name, parent_inode, flags)),
        ..fs
    }
}

/// The filesystem after a write to the first entry with the inode. If
/// there is none, nothing changes and nothing is logged.
pub open spec fn fs_write(fs: FsView, inode: u64, data: Seq<u8>, offset: i64, flags: u32) -> FsView {
    let at = first_with_inode(fs.items, inode);
    if 0 <= at < fs.items.len() {
        FsView {
            items: fs.items.update(
                at,
                item_with_data(
                    fs.items[at],
                    written(
                        fs.items[at].data,
                        data,
                        offset as int,
                        append_is_set(flags, fs.append_flag),
                    ),
                ),
            ),
            commits: fs.commits.push(write_commit(fs.items[at].name, inode, data, offset, flags)),
            ..fs
        }
    } else {
        fs
    }
}

/// The filesystem after the removal of the first entry called `name`. The
/// commit is logged in any case.
pub open spec fn fs_unlink(fs: FsView, name: Seq<char>) -> FsView {
    let at = first_named(fs.items, name);
    FsView {
        items: if 0 <= at < fs.items.len() {
            fs.items.remove(at)
        } else {
            fs.items
        },
        commits: fs.commits.push(unlink_commit(name)),
        ..fs
    }
}

/// The filesystem after the creation of a directory.
pub open spec fn fs_mkdir(fs: FsView, name: Seq<char>, parent_inode: u64, now: Timestamp) -> FsView {
    FsView {
        items: fs.items.push(new_dir(fs.items, name, parent_inode, now)),
        commits: fs.commits.push(mkdir_commit(name, parent_inode)),
        ..fs
    }
}

/// Whether the first entry called `name` exists and nothing is in it.
pub open spec fn can_rmdir(items: Seq<ItemView>, name: Seq<char>) -> bool {
    let at = first_named(items, name);
    0 <= at < items.len() && !has_child(items, items[at].inode)
}

/// The filesystem after the removal of a directory: the first entry called
/// `name` is removed, and the commit logged, if nothing is in it. Otherwise
/// nothing changes.
pub open spec fn fs_rmdir(fs: FsView, name: Seq<char>) -> FsView {
    if can_rmdir(fs.items, name) {
        FsView {
            items: fs.items.remove(first_named(fs.items, name)),
            commits: fs.commits.push(rmdir_commit(name)),
            ..fs
        }
    } else {
        fs
    }
}

/// The filesystem after a rename: the first entry called `name` in the
/// directory `parent_inode` gets the new name and the new directory. The
/// commit is logged in any case.
pub open spec fn fs_rename(
    fs: FsView,
    name: Seq<char>,
    parent_inode: u64,
    new_name: Seq<char>,
    new_parent_inode: u64,
) -> FsView {
    let at = first_in_directory(fs.items, name, parent_inode);
    FsView {
        items: if 0 <= at < fs.items.len() {
            fs.items.update(
                at,
                ItemView { name: new_name, parent_inode: new_parent_inode, ..fs.items[at] },
            )
        } else {
            fs.items
        },
        commits: fs.commits.push(rename_commit(name, parent_inode, new_name, new_parent_inode)),
        ..fs
    }
}

/// The bytes that a read of `size` bytes at `offset` returns: those of the
/// contents from `offset` up to `offset + size` or the end, whichever comes
/// first; none if `offset` is not inside the contents.
pub open spec fn read_slice(contents: Seq<u8>, offset: i64, size: u32) -> Seq<u8> {
    if 0 <= offset < contents.len() {
        if offset + size < contents.len() {
            contents.subrange(offset as int, offset + size)
        } else {
            contents.subrange(offset as int, contents.len() as int)
        }
    } else {
        Seq::empty()
    }
}

/// The lines for the entries from place `from` on that are in the
/// directory `inode`, the root directory left out.
pub open spec fn listed(items: Seq<ItemView>, inode: u64, from: int) -> Seq<DirEntryView>
    decreases items.len() - from,
{
    if from < 0 || from >= items.len() {
        Seq::empty()
    } else if items[from].name != root_name() && items[from].parent_inode == inode {
        seq![
            DirEntryView {
                inode: items[from].inode,
                offset: 2,
                kind: items[from].attr.kind,
                name: items[from].name,
            },
        ] + listed(items, inode, from + 1)
    } else {
        listed(items, inode, from + 1)
    }
}

/// The two lines that start every listing: the directory itself and the
/// one above it, both reported under inode 1.
pub open spec fn dot_entries() -> Seq<DirEntryView> {
    seq![
        DirEntryView { inode: 1, offset: 0, kind: FileType::Directory, name: seq!['.'] },
        DirEntryView { inode: 1, offset: 1, kind: FileType::Directory, name: seq!['.', '.'] },
    ]
}

/// `first_named` is the place before which no entry is called `name`, and
/// at which one is, unless it is the end.
pub proof fn lemma_first_named(items: Seq<ItemView>, name: Seq<char>, at: int)
    requires
        0 <= at <= items.len(),
        forall|i: int| 0 <= i < at ==> (#[trigger] items[i]).name != name,
        at < items.len() ==> items[at].name == name,
    ensures
        first_named(items, name) == at,
    decreases items.len(),
{
    if items.len() > 0 && at > 0 {
        let rest = items.drop_first();
        assert forall|i: int| 0 <= i < at - 1 implies (#[trigger] rest[i]).name != name by {
            assert(rest[i] == items[i + 1]);
        }
        lemma_first_named(rest, name, at - 1);
    }
}

/// `first_with_inode` lies within the list or at its end.
pub proof fn lemma_first_with_inode_bound(items: Seq<ItemView>, inode: u64)
    ensures
        0 <= first_with_inode(items, inode) <= items.len(),
    decreases items.len(),
{
    if items.len() > 0 && items[0].inode != inode {
        lemma_first_with_inode_bound(items.drop_first(), inode);
    }
}

/// `first_with_inode` is the place before which no entry has the inode, and
/// at which one has, unless it is the end.
pub proof fn lemma_first_with_inode(items: Seq<ItemView>, inode: u64, at: int)
    requires
        0 <= at <= items.len(),
        forall|i: int| 0 <= i < at ==> (#[trigger] items[i]).inode != inode,
        at < items.len() ==> items[at].inode == inode,
    ensures
        first_with_inode(items, inode) == at,
    decreases items.len(),
{
    if items.len() > 0 && at > 0 {
        let rest = items.drop_first();
        assert forall|i: int| 0 <= i < at - 1 implies (#[trigger] rest[i]).inode != inode by {
            assert(rest[i] == items[i + 1]);
        }
        lemma_first_with_inode(rest, inode, at - 1);
    }
}

/// `first_in_directory` is the place before which no entry has the name and
/// the directory, and at which one has, unless it is the end.
pub proof fn lemma_first_in_directory(
    items: Seq<ItemView>,
    name: Seq<char>,
    parent_inode: u64,
    at: int,
)
    requires
        0 <= at <= items.len(),
        forall|i: int|
            0 <= i < at ==> !((#[trigger] items[i]).name == name && items[i].parent_inode
                == parent_inode),
        at < items.len() ==> items[at].name == name && items[at].parent_inode == parent_inode,
    ensures
        first_in_directory(items, name, parent_inode) == at,
    decreases items.len(),
{
    if items.len() > 0 && at > 0 {
        let rest = items.drop_first();
        assert forall|i: int| 0 <= i < at - 1 implies !((#[trigger] rest[i]).name == name
            && rest[i].parent_inode == parent_inode) by {
            assert(rest[i] == items[i + 1]);
        }
        lemma_first_in_directory(rest, name, parent_inode, at - 1);
    }
}

/// Appends an entry.
fn push_item(items: &mut Vec<FilesystemItem>, item: FilesystemItem)
    ensures
        item_views(final(items)@) == item_views(old(items)@).push(item@),
{
    items.push(item);
    assert(item_views(items@) =~= item_views(old(items)@).push(item@));
}

/// Appends a commit.
fn push_commit(commits: &mut Vec<FilesystemCommit>, commit: FilesystemCommit)
    ensures
        commit_views(final(commits)@) == commit_views(old(commits)@).push(commit@),
{
    commits.push(commit);
    assert(commit_views(commits@) =~= commit_views(old(commits)@).push(commit@));
}

/// Takes the entry at `at` out of the list.
fn remove_item(items: &mut Vec<FilesystemItem>, at: usize) -> (item: FilesystemItem)
    requires
        at < old(items)@.len(),
    ensures
        item@ == item_views(old(items)@)[at as int],
        final(items)@.len() == old(items)@.len() - 1,
        item_views(final(items)@) == item_views(old(items)@).remove(at as int),
{
    let item: FilesystemItem = items.remove(at);
    assert(item_views(items@) =~= item_views(old(items)@).remove(at as int));
    item
}

/// Puts an entry into the list at `at`.
fn insert_item(items: &mut Vec<FilesystemItem>, at: usize, item: FilesystemItem)
    requires
        at <= old(items)@.len(),
    ensures
        item_views(final(items)@) == item_views(old(items)@).insert(at as int, item@),
{
    items.insert(at, item);
    assert(item_views(items@) =~= item_views(old(items)@).insert(at as int, item@));
}

/// The place of the first entry called `name`.
fn find_named(items: &Vec<FilesystemItem>, name: &String) -> (at: usize)
    ensures
        at <= items@.len(),
        at == first_named(item_views(items@), name@),
        at < items@.len() ==> items@[at as int]@.name == name@,
{
    let mut at: usize = 0;
    while at < items.len() && !(*items[at].name_ref() == *name)
        invariant
            at <= items@.len(),
            forall|i: int| 0 <= i < at ==> (#[trigger] item_views(items@)[i]).name != name@,
        decreases items@.len() - at,
    {
        at = at + 1;
    }
    proof {
        lemma_first_named(item_views(items@), name@, at as int);
    }
    at
}

/// The place of the first entry with the inode.
fn find_inode(items: &Vec<FilesystemItem>, inode: u64) -> (at: usize)
    ensures
        at <= items@.len(),
        at == first_with_inode(item_views(items@), inode),
        at < items@.len() ==> items@[at as int]@.inode == inode,
{
    let mut at: usize = 0;
    while at < items.len() && items[at].get_inode() != inode
        invariant
            at <= items@.len(),
            forall|i: int| 0 <= i < at ==> (#[trigger] item_views(items@)[i]).inode != inode,
        decreases items@.len() - at,
    {
        at = at + 1;
    }
    proof {
        lemma_first_with_inode(item_views(items@), inode, at as int);
    }
    at
}

/// The place of the first entry called `name` in the directory
/// `parent_inode`.
fn find_in_directory(items: &Vec<FilesystemItem>, name: &String, parent_inode: u64) -> (at: usize)
    ensures
        at <= items@.len(),
        at == first_in_directory(item_views(items@), name@, parent_inode),
        at < items@.len() ==> items@[at as int]@.name == name@ && items@[at as int]@.parent_inode
            == parent_inode,
{
    let mut at: usize = 0;
    while at < items.len() && !(*items[at].name_ref() == *name && items[at].get_parent_inode()
        == parent_inode)
        invariant
            at <= items@.len(),
            forall|i: int|
                0 <= i < at ==> !((#[trigger] item_views(items@)[i]).name == name@ && item_views(
                    items@,
                )[i].parent_inode == parent_inode),
        decreases items@.len() - at,
    {
        at = at + 1;
    }
    proof {
        lemma_first_in_directory(item_views(items@), name@, parent_inode, at as int);
    }
    at
}

/// Whether some entry is in the directory `inode`.
fn any_child(items: &Vec<FilesystemItem>, inode: u64) -> (found: bool)
    ensures
        found == has_child(item_views(items@), inode),
{
    let mut at: usize = 0;
    while at < items.len()
        invariant
            at <= items@.len(),
            forall|i: int| 0 <= i < at ==> (#[trigger] item_views(items@)[i]).parent_inode != inode,
        decreases items@.len() - at,
    {
        if items[at].get_parent_inode() == inode {
            assert(item_views(items@)[at as int].parent_inode == inode);
            return true;
        }
        at = at + 1;
    }
    false
}

/// The length in bytes of a name, as a size.
fn name_size(name: &String) -> (size: u64)
    ensures
        size == size_of_len(encode_utf8(name@).len()),
{
    name.as_str().as_bytes().len() as u64
}

/// The contents of a file after a write.
fn write_into(contents: &Vec<u8>, data: &Vec<u8>, offset: usize, append_set: bool) -> (out: Vec<u8>)
    requires
        offset + data@.len() <= isize::MAX,
    ensures
        out@ == written(contents@, data@, offset as int, append_set),
{
    let end: usize = offset + data.len();
    let mut out: Vec<u8> = copy_range(contents.as_slice(), 0, contents.len());
    assert(out@ =~= contents@);
    if !append_set || end > out.len() {
        out.resize(end, 0u8);
        assert(out@ =~= resized(contents@, end as int));
    }
    let ghost base = out@;
    let mut index: usize = 0;
    while index < data.len()
        invariant
            index <= data@.len(),
            end == offset + data@.len(),
            end <= base.len(),
            out@.len() == base.len(),
            out@ == base.subrange(0, offset as int) + data@.subrange(0, index as int)
                + base.subrange(offset + index, base.len() as int),
        decreases data@.len() - index,
    {
        out.set(offset + index, data[index]);
        index = index + 1;
        assert(out@ =~= base.subrange(0, offset as int) + data@.subrange(0, index as int)
            + base.subrange(offset + index, base.len() as int));
    }
    assert(data@.subrange(0, data@.len() as int) =~= data@);
    out
}

/// The in-memory filesystem.
pub struct DiodeFS {
    filesystem_items: Vec<FilesystemItem>,
    filesystem_commits: Vec<FilesystemCommit>,
    append_flag: u32,
}

impl View for DiodeFS {
    type V = FsView;

    closed spec fn view(&self) -> FsView {
        FsView {
            items: item_views(self.filesystem_items@),
            commits: commit_views(self.filesystem_commits@),
            append_flag: self.append_flag,
        }
    }
}

impl DiodeFS {
    /// Whether one more entry can get an inode: the inode is the number of
    /// entries plus one and has to fit 64 bits.
    pub open spec fn has_room(&self) -> bool {
        self@.items.len() < u64::MAX
    }

    /// The filesystem with the root directory only, made at the time `now`,
    /// in which `append_flag` is the bit of the open flags that stands for
    /// appending.
    pub fn with_append_flag(append_flag: u32, now: Timestamp) -> (fs: Self)
        ensures
            fs@ == empty_fs(append_flag, now),
    {
        let name: String = "/".to_owned();
        proof {
            reveal_strlit("/");
            assert(name@ =~= root_name());
        }
        let root: FilesystemItem = FilesystemItem::new(
            name,
            Vec::new(),
            1,
            0,
            FileAttr {
                ino: 1,
                size: 0,
                blocks: 0,
                atime: now,
                mtime: now,
                ctime: now,
                crtime: now,
                kind: FileType::Directory,
                perm: 0o755,
                nlink: 0,
                uid: 0,
                gid: 0,
                rdev: 0,
                flags: 0,
            },
        );
        let mut items: Vec<FilesystemItem> = Vec::new();
        items.push(root);
        let fs = DiodeFS { filesystem_items: items, filesystem_commits: Vec::new(), append_flag };
        assert(fs@.items =~= seq![root_item(now)]);
        assert(fs@.commits =~= Seq::empty());
        fs
    }

    /// The filesystem with the root directory only, made at the time `now`.
    /// The append bit is the one of the operating system.
    pub fn new(now: Timestamp) -> (fs: Self)
        ensures
            fs@ == empty_fs(fs@.append_flag, now),
    {
        DiodeFS::with_append_flag(o_append(), now)
    }

    /// Creates an empty file, stamped with the time `now`, and logs the
    /// commit. Answers with the attributes of the file, or with `NotFound`
    /// if the name is empty.
    pub fn _create(&mut self, name: String, parent_inode: u64, flags: u32, now: Timestamp) -> (reply: Result<
        FileAttr,
        FsError,
    >)
        requires
            old(self).has_room(),
        ensures
            final(self)@ == fs_create(old(self)@, name@, parent_inode, flags, now),
            reply == if name@.len() > 0 {
                Ok::<FileAttr, FsError>(new_file(old(self)@.items, name@, parent_inode, flags, now).attr)
            } else {
                Err::<FileAttr, FsError>(FsError::NotFound)
            },
    {
        push_commit(
            &mut self.filesystem_commits,
            FilesystemCommit::create(name.clone(), parent_inode, flags),
        );
        if !name.as_str().is_empty() {
            let inode: u64 = self.filesystem_items.len() as u64 + 1;
            let attr = FileAttr {
                ino: inode,
                size: name_size(&name),
                blocks: 0,
                atime: now,
                mtime: now,
                ctime: now,
                crtime: now,
                kind: FileType::RegularFile,
                perm: 0o644,
                nlink: 0,
                uid: 0,
                gid: 0,
                rdev: 0,
                flags,
            };
            push_item(
                &mut self.filesystem_items,
                FilesystemItem::new(name, Vec::new(), inode, parent_inode, attr),
            );
            return Ok(attr);
        }
        Err(FsError::NotFound)
    }

    /// Writes into the first entry with the inode and logs the commit.
    /// Answers with the number of bytes written (its low 32 bits), or with
    /// `NotFound` if there is no such entry. The write has to end within
    /// what a buffer in memory can hold.
    pub fn _write(&mut self, inode: u64, data: Vec<u8>, data_offset: i64, flags: u32) -> (reply:
        Result<u32, FsError>)
        requires
            0 <= data_offset,
            data_offset + data@.len() <= isize::MAX,
        ensures
            final(self)@ == fs_write(old(self)@, inode, data@, data_offset, flags),
            reply == if first_with_inode(old(self)@.items, inode) < old(self)@.items.len() {
                Ok::<u32, FsError>((data@.len() % 0x1_0000_0000) as u32)
            } else {
                Err::<u32, FsError>(FsError::NotFound)
            },
    {
        let at: usize = find_inode(&self.filesystem_items, inode);
        if at >= self.filesystem_items.len() {
            return Err(FsError::NotFound);
        }
        let append_set: bool = flags & self.append_flag != 0;
        let written_len: u32 = ((data.len() as u64) % 0x1_0000_0000u64) as u32;
        let mut item: FilesystemItem = remove_item(&mut self.filesystem_items, at);
        let file_data: Vec<u8> = write_into(item.data_ref(), &data, data_offset as usize, append_set);
        push_commit(
            &mut self.filesystem_commits,
            FilesystemCommit::write(item.get_name(), inode, data, data_offset, flags),
        );
        item.set_data(file_data);
        insert_item(&mut self.filesystem_items, at, item);
        assert(self@.items =~= fs_write(old(self)@, inode, data@, data_offset, flags).items);
        Ok(written_len)
    }

    /// Removes the first entry called `name` and logs the commit. Answers
    /// with `NotFound` if there is no such entry.
    pub fn _unlink(&mut self, name: String) -> (reply: Result<(), FsError>)
        ensures
            final(self)@ == fs_unlink(old(self)@, name@),
            reply == if first_named(old(self)@.items, name@) < old(self)@.items.len() {
                Ok::<(), FsError>(())
            } else {
                Err::<(), FsError>(FsError::NotFound)
            },
    {
        let at: usize = find_named(&self.filesystem_items, &name);
        push_commit(&mut self.filesystem_commits, FilesystemCommit::unlink(name));
        if at < self.filesystem_items.len() {
            remove_item(&mut self.filesystem_items, at);
            return Ok(());
        }
        Err(FsError::NotFound)
    }

    /// Creates a directory, stamped with the time `now`, and logs the
    /// commit. Answers with the attributes of the directory.
    pub fn _mkdir(&mut self, name: String, parent_inode: u64, now: Timestamp) -> (attr: FileAttr)
        requires
            old(self).has_room(),
        ensures
            final(self)@ == fs_mkdir(old(self)@, name@, parent_inode, now),
            attr == new_dir(old(self)@.items, name@, parent_inode, now).attr,
    {
        push_commit(
            &mut self.filesystem_commits,
            FilesystemCommit::mkdir(name.clone(), parent_inode),
        );
        let inode: u64 = self.filesystem_items.len() as u64 + 1;
        let attr = FileAttr {
            ino: inode,
            size: name_size(&name),
            blocks: 0,
            atime: now,
            mtime: now,
            ctime: now,
            crtime: now,
            kind: FileType::Directory,
            perm: 0o644,
            nlink: 0,
            uid: 0,
            gid: 0,
            rdev: 0,
            flags: 0,
        };
        push_item(
            &mut self.filesystem_items,
            FilesystemItem::new(name, Vec::new(), inode, parent_inode, attr),
        );
        attr
    }

    /// Removes the first entry called `name` if nothing is in it, and then
    /// logs the commit. Answers with `NotImplemented` if there is no such
    /// entry or something is in it.
    pub fn _rmdir(&mut self, name: String) -> (reply: Result<(), FsError>)
        ensures
            final(self)@ == fs_rmdir(old(self)@, name@),
            reply == if can_rmdir(old(self)@.items, name@) {
                Ok::<(), FsError>(())
            } else {
                Err::<(), FsError>(FsError::NotImplemented)
            },
    {
        let at: usize = find_named(&self.filesystem_items, &name);
        if at < self.filesystem_items.len() {
            let inode: u64 = self.filesystem_items[at].get_inode();
            if !any_child(&self.filesystem_items, inode) {
                remove_item(&mut self.filesystem_items, at);
                push_commit(&mut self.filesystem_commits, FilesystemCommit::rmdir(name));
                return Ok(());
            }
        }
        Err(FsError::NotImplemented)
    }

    /// Gives the first entry called `name` in the directory `parent_inode`
    /// a new name and a new directory, and logs the commit.
    pub fn _rename(&mut self, name: String, parent_inode: u64, new_name: String, new_parent_inode: u64)
        ensures
            final(self)@ == fs_rename(
                old(self)@,
                name@,
                parent_inode,
                new_name@,
                new_parent_inode,
            ),
    {
        let at: usize = find_in_directory(&self.filesystem_items, &name, parent_inode);
        push_commit(
            &mut self.filesystem_commits,
            FilesystemCommit::rename(name, parent_inode, new_name.clone(), new_parent_inode),
        );
        if at < self.filesystem_items.len() {
            let mut item: FilesystemItem = remove_item(&mut self.filesystem_items, at);
            item.set_name(new_name);
            item.set_parent_inode(new_parent_inode);
            insert_item(&mut self.filesystem_items, at, item);
            assert(self@.items =~= fs_rename(
                old(self)@,
                name@,
                parent_inode,
                new_name@,
                new_parent_inode,
            ).items);
        }
    }

    /// The entries, in order of insertion.
    pub fn get_filesystem_items(&self) -> (items: &Vec<FilesystemItem>)
        ensures
            item_views(items@) == self@.items,
    {
        &self.filesystem_items
    }

    /// The commits that were logged and not yet taken.
    pub fn get_filesystem_commits(&self) -> (commits: &Vec<FilesystemCommit>)
        ensures
            commit_views(commits@) == self@.commits,
    {
        &self.filesystem_commits
    }

    /// Takes the oldest commit out of the log.
    pub fn take_commit(&mut self) -> (commit: Option<FilesystemCommit>)
        ensures
            old(self)@.commits.len() == 0 ==> commit is None && final(self)@ == old(self)@,
            old(self)@.commits.len() > 0 ==> commit is Some && commit.unwrap()@ == old(
                self,
            )@.commits[0] && final(self)@ == (FsView {
                commits: old(self)@.commits.drop_first(),
                ..old(self)@
            }),
    {
        if self.filesystem_commits.len() == 0 {
            return None;
        }
        let commit: FilesystemCommit = self.filesystem_commits.remove(0);
        assert(self@.commits =~= old(self)@.commits.drop_first());
        Some(commit)
    }

    /// The attributes of the first entry with the inode.
    pub fn getattr(&self, ino: u64) -> (reply: Result<FileAttr, FsError>)
        ensures
            reply == if first_with_inode(self@.items, ino) < self@.items.len() {
                Ok::<FileAttr, FsError>(self@.items[first_with_inode(self@.items, ino)].attr)
            } else {
                Err::<FileAttr, FsError>(FsError::NotFound)
            },
    {
        let at: usize = find_inode(&self.filesystem_items, ino);
        if at < self.filesystem_items.len() {
            Ok(self.filesystem_items[at].get_attr())
        } else {
            Err(FsError::NotFound)
        }
    }

    /// The attributes of the first entry called `name`, in whatever
    /// directory it is.
    pub fn lookup(&self, _parent: u64, name: &String) -> (reply: Result<FileAttr, FsError>)
        ensures
            reply == if first_named(self@.items, name@) < self@.items.len() {
                Ok::<FileAttr, FsError>(self@.items[first_named(self@.items, name@)].attr)
            } else {
                Err::<FileAttr, FsError>(FsError::NotFound)
            },
    {
        let at: usize = find_named(&self.filesystem_items, name);
        if at < self.filesystem_items.len() {
            Ok(self.filesystem_items[at].get_attr())
        } else {
            Err(FsError::NotFound)
        }
    }

    /// Opens the first entry with the inode: the file handle is the inode,
    /// and the flags come back as they are.
    pub fn open(&self, ino: u64, flags: u32) -> (reply: Result<(u64, u32), FsError>)
        ensures
            reply == if first_with_inode(self@.items, ino) < self@.items.len() {
                Ok::<(u64, u32), FsError>((ino, flags))
            } else {
                Err::<(u64, u32), FsError>(FsError::NotFound)
            },
    {
        let at: usize = find_inode(&self.filesystem_items, ino);
        if at < self.filesystem_items.len() {
            Ok((self.filesystem_items[at].get_inode(), flags))
        } else {
            Err(FsError::NotFound)
        }
    }

    /// Reads from the first entry with the inode.
    pub fn read(&self, ino: u64, offset: i64, size: u32) -> (reply: Result<Vec<u8>, FsError>)
        ensures
            first_with_inode(self@.items, ino) < self@.items.len() ==> reply is Ok
                && reply.unwrap()@ == read_slice(
                self@.items[first_with_inode(self@.items, ino)].data,
                offset,
                size,
            ),
            first_with_inode(self@.items, ino) >= self@.items.len() ==> reply == Err::<
                Vec<u8>,
                FsError,
            >(FsError::NotFound),
    {
        let at: usize = find_inode(&self.filesystem_items, ino);
        if at >= self.filesystem_items.len() {
            return Err(FsError::NotFound);
        }
        let data: &Vec<u8> = self.filesystem_items[at].data_ref();
        let len: usize = data.len();
        if offset < 0 || offset as u64 >= len as u64 {
            return Ok(Vec::new());
        }
        let start: usize = offset as usize;
        let room: usize = len - start;
        let end: usize = if (size as u64) < (room as u64) {
            start + size as usize
        } else {
            len
        };
        Ok(copy_range(data.as_slice(), start, end))
    }

    /// Lists the directory `ino`: the two dot entries, then every entry in
    /// it, in order of insertion. A listing can only be read from offset 0;
    /// any other offset is answered with `NotFound`.
    pub fn readdir(&self, ino: u64, offset: i64) -> (reply: Result<Vec<DirEntry>, FsError>)
        ensures
            offset == 0 ==> reply is Ok && entry_views(reply.unwrap()@) == dot_entries() + listed(
                self@.items,
                ino,
                0,
            ),
            offset != 0 ==> reply is Err && reply.unwrap_err() == FsError::NotFound,
    {
        if offset != 0 {
            return Err(FsError::NotFound);
        }
        let root: String = "/".to_owned();
        let dot: String = ".".to_owned();
        let dots: String = "..".to_owned();
        proof {
            reveal_strlit("/");
            reveal_strlit(".");
            reveal_strlit("..");
            assert(root@ =~= root_name());
            assert(dot@ =~= seq!['.']);
            assert(dots@ =~= seq!['.', '.']);
        }
        let mut out: Vec<DirEntry> = Vec::new();
        out.push(DirEntry { inode: 1, offset: 0, kind: FileType::Directory, name: dot });
        out.push(DirEntry { inode: 1, offset: 1, kind: FileType::Directory, name: dots });
        assert(entry_views(out@) =~= dot_entries());
        let items: &Vec<FilesystemItem> = &self.filesystem_items;
        let mut pos: usize = 0;
        while pos < items.len()
            invariant
                pos <= items@.len(),
                root@ == root_name(),
                out@.len() >= 2,
                entry_views(out@) + listed(item_views(items@), ino, pos as int) == dot_entries()
                    + listed(item_views(items@), ino, 0),
            decreases items@.len() - pos,
        {
            let item: &FilesystemItem = &items[pos];
            let ghost before = entry_views(out@);
            if !(*item.name_ref() == root) && item.get_parent_inode() == ino {
                let entry = DirEntry {
                    inode: item.get_inode(),
                    offset: 2,
                    kind: item.get_filetype(),
                    name: item.get_name(),
                };
                out.push(entry);
                proof {
                    let line = DirEntryView {
                        inode: item@.inode,
                        offset: 2,
                        kind: item@.attr.kind,
                        name: item@.name,
                    };
                    assert(entry_views(out@) =~= before.push(line));
                    assert(before + (seq![line] + listed(item_views(items@), ino, pos + 1))
                        =~= before.push(line) + listed(item_views(items@), ino, pos + 1));
                }
            }
            pos = pos + 1;
        }
        assert(entry_views(out@) + Seq::<DirEntryView>::empty() =~= entry_views(out@));
        Ok(out)
    }
}

/// Inodes are given out in sequence: the entry at place `i` has inode
/// `i + 1`. A filesystem starts out so, and stays so as long as nothing is
/// removed from it.
pub open spec fn inodes_are_sequential(items: Seq<ItemView>) -> bool {
    forall|i: int| 0 <= i < items.len() ==> (#[trigger] items[i]).inode == i + 1
}

/// In a filesystem whose inodes are in sequence, no two entries share an
/// inode.
pub proof fn lemma_sequential_inodes_are_unique(items: Seq<ItemView>, i: int, j: int)
    requires
        inodes_are_sequential(items),
        0 <= i < items.len(),
        0 <= j < items.len(),
        i != j,
    ensures
        items[i].inode != items[j].inode,
{
}

/// The inodes of a new filesystem are in sequence, and creating, writing
/// and renaming keep them so, at whatever time.
pub proof fn lemma_inodes_stay_sequential(
    fs: FsView,
    name: Seq<char>,
    parent_inode: u64,
    flags: u32,
    inode: u64,
    data: Seq<u8>,
    offset: i64,
    new_name: Seq<char>,
    new_parent_inode: u64,
    now: Timestamp,
)
    requires
        inodes_are_sequential(fs.items),
        fs.items.len() < u64::MAX,
    ensures
        inodes_are_sequential(empty_fs(fs.append_flag, now).items),
        inodes_are_sequential(fs_create(fs, name, parent_inode, flags, now).items),
        inodes_are_sequential(fs_mkdir(fs, name, parent_inode, now).items),
        inodes_are_sequential(fs_write(fs, inode, data, offset, flags).items),
        inodes_are_sequential(
            fs_rename(fs, name, parent_inode, new_name, new_parent_inode).items,
        ),
{
}

/// After a write, the size in the attributes of the file is the length of
/// its contents, and nothing else in its attributes has changed: a write
/// leaves the four times as they were when the file was made.
pub proof fn lemma_size_after_write(fs: FsView, inode: u64, data: Seq<u8>, offset: i64, flags: u32)
    requires
        0 <= first_with_inode(fs.items, inode) < fs.items.len(),
    ensures
        ({
            let at = first_with_inode(fs.items, inode);
            let item = fs_write(fs, inode, data, offset, flags).items[at];
            &&& item.attr.size == size_of_len(item.data.len())
            &&& item.attr == (FileAttr { size: item.attr.size, ..fs.items[at].attr })
        }),
{
}

/// What is written is what is read: after a write of `data` at an offset
/// that is not negative, a read of as many bytes at that offset returns
/// `data`.
pub proof fn lemma_read_after_write(contents: Seq<u8>, data: Seq<u8>, offset: i64, append_set: bool)
    requires
        0 <= offset,
        data.len() <= u32::MAX,
    ensures
        read_slice(written(contents, data, offset as int, append_set), offset, data.len() as u32)
            == data,
{
    let after = written(contents, data, offset as int, append_set);
    assert(after.len() >= offset + data.len());
    assert(read_slice(after, offset, data.len() as u32) =~= data);
}

} // verus!
