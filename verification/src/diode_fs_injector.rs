//! The receiving side of the commit log: applies commits to a filesystem,
//! so that it comes to hold what the sending side holds.

use vstd::prelude::*;
use crate::diode_fs::{
    fs_create, fs_mkdir, fs_rename, fs_rmdir, fs_unlink, fs_write, DiodeFS, FsView,
};
use crate::filesystem_commit::{commit_is_supported, CommitType, CommitView, FilesystemCommit};
use crate::filesystem_item::Timestamp;

verus! {

/// Whether a commit can be applied to a filesystem: it is of a supported
/// kind, a write starts at an offset that is not negative and ends within
/// what a buffer in memory can hold, and a creation finds an inode left.
pub open spec fn can_replay(fs: FsView, commit: CommitView) -> bool {
    &&& commit_is_supported(commit)
    &&& commit.commit_type == CommitType::Write ==> 0 <= commit.data_offset.unwrap()
        && commit.data_offset.unwrap() + commit.data.unwrap().len() <= isize::MAX
    &&& (commit.commit_type == CommitType::Create || commit.commit_type == CommitType::Mkdir)
        ==> fs.items.len() < u64::MAX
}

/// The filesystem after a commit was applied at the time `now`: the
/// operation that the commit records, made with the fields of the commit. A
/// file or directory that the commit makes is stamped with `now`.
pub open spec fn replay(fs: FsView, commit: CommitView, now: Timestamp) -> FsView {
    match commit.commit_type {
        CommitType::Create => fs_create(
            fs,
            commit.name,
            commit.parent_inode.unwrap(),
            commit.flags.unwrap(),
            now,
        ),
        CommitType::Write => fs_write(
            fs,
            commit.inode.unwrap(),
            commit.data.unwrap(),
            commit.data_offset.unwrap(),
            commit.flags.unwrap(),
        ),
        CommitType::Unlink => fs_unlink(fs, commit.name),
        CommitType::Mkdir => fs_mkdir(fs, commit.name, commit.parent_inode.unwrap(), now),
        CommitType::Rmdir => fs_rmdir(fs, commit.name),
        CommitType::Rename => fs_rename(
            fs,
            commit.name,
            commit.parent_inode.unwrap(),
            commit.new_name.unwrap(),
            commit.new_parent_inode.unwrap(),
        ),
        CommitType::Invalid => fs,
    }
}

/// Applies commits to the filesystem it holds. Each commit applied is
/// logged again in that filesystem's own commit log.
pub struct DiodeFSInjector {
    pub filesystem: DiodeFS,
}

impl DiodeFSInjector {
    /// Applies a commit, if it can be applied; says whether it was. `now`
    /// is the time with which a new entry is stamped.
    pub fn handle_commit(&mut self, commit: FilesystemCommit, now: Timestamp) -> (applied: bool)
        ensures
            applied == can_replay(old(self).filesystem@, commit@),
            final(self).filesystem@ == if applied {
                replay(old(self).filesystem@, commit@, now)
            } else {
                old(self).filesystem@
            },
    {
        if !commit.is_supported() {
            return false;
        }
        let FilesystemCommit {
            commit_type,
            name,
            new_name,
            flags,
            inode,
            parent_inode,
            new_parent_inode,
            data_offset,
            data,
        } = commit;
        match commit_type {
            CommitType::Create => {
                if self.filesystem.get_filesystem_items().len() as u64 == u64::MAX {
                    return false;
                }
                self.create(name, parent_inode.unwrap(), flags.unwrap(), now);
            },
            CommitType::Write => {
                let data: Vec<u8> = data.unwrap();
                let data_offset: i64 = data_offset.unwrap();
                if data_offset < 0 || data_offset as u64 > isize::MAX as u64 || data.len()
                    > isize::MAX as usize - data_offset as usize {
                    return false;
                }
                self.write(inode.unwrap(), data, data_offset, flags.unwrap());
            },
            CommitType::Unlink => {
                self.unlink(name);
            },
            CommitType::Mkdir => {
                if self.filesystem.get_filesystem_items().len() as u64 == u64::MAX {
                    return false;
                }
                self.mkdir(name, parent_inode.unwrap(), now);
            },
            CommitType::Rmdir => {
                self.rmdir(name);
            },
            CommitType::Rename => {
                self.rename(
                    name,
                    parent_inode.unwrap(),
                    new_name.unwrap(),
                    new_parent_inode.unwrap(),
                );
            },
            CommitType::Invalid => {
                return false;
            },
        }
        true
    }

    /// Creates a file, as the commit says.
    pub fn create(&mut self, name: String, parent_inode: u64, flags: u32, now: Timestamp)
        requires
            old(self).filesystem.has_room(),
        ensures
            final(self).filesystem@ == fs_create(old(self).filesystem@, name@, parent_inode, flags, now),
    {
        let _ = self.filesystem._create(name, parent_inode, flags, now);
    }

    /// Writes into a file, as the commit says.
    pub fn write(&mut self, inode: u64, data: Vec<u8>, data_offset: i64, flags: u32)
        requires
            0 <= data_offset,
            data_offset + data@.len() <= isize::MAX,
        ensures
            final(self).filesystem@ == fs_write(
                old(self).filesystem@,
                inode,
                data@,
                data_offset,
                flags,
            ),
    {
        let _ = self.filesystem._write(inode, data, data_offset, flags);
    }

    /// Removes a file, as the commit says.
    pub fn unlink(&mut self, name: String)
        ensures
            final(self).filesystem@ == fs_unlink(old(self).filesystem@, name@),
    {
        let _ = self.filesystem._unlink(name);
    }

    /// Creates a directory, as the commit says.
    pub fn mkdir(&mut self, name: String, parent_inode: u64, now: Timestamp)
        requires
            old(self).filesystem.has_room(),
        ensures
            final(self).filesystem@ == fs_mkdir(old(self).filesystem@, name@, parent_inode, now),
    {
        let _ = self.filesystem._mkdir(name, parent_inode, now);
    }

    /// Removes a directory, as the commit says, if nothing is in it.
    pub fn rmdir(&mut self, name: String)
        ensures
            final(self).filesystem@ == fs_rmdir(old(self).filesystem@, name@),
    {
        let _ = self.filesystem._rmdir(name);
    }

    /// Renames an entry, as the commit says.
    pub fn rename(&mut self, name: String, parent_inode: u64, new_name: String, new_parent_inode: u64)
        ensures
            final(self).filesystem@ == fs_rename(
                old(self).filesystem@,
                name@,
                parent_inode,
                new_name@,
                new_parent_inode,
            ),
    {
        self.filesystem._rename(name, parent_inode, new_name, new_parent_inode);
    }
}

/// Replay mirrors the source. Take a filesystem and a mirror with the same
/// entries and the same append bit. Whatever operation is made on the
/// filesystem, applying to the mirror each commit that the operation logged
/// gives the mirror the entries that the filesystem now has. Times do not
/// cross the link: an entry made by a commit is stamped with the time of
/// the replay, so the mirror has what the operation would have made at
/// that time.
pub proof fn lemma_replay_mirrors_create(
    source: FsView,
    mirror: FsView,
    name: Seq<char>,
    parent_inode: u64,
    flags: u32,
    made: Timestamp,
    replayed: Timestamp,
)
    requires
        mirror.items == source.items,
        mirror.append_flag == source.append_flag,
    ensures
        fs_create(source, name, parent_inode, flags, made).commits == source.commits.push(
            crate::filesystem_commit::create_commit(name, parent_inode, flags),
        ),
        replay(
            mirror,
            fs_create(source, name, parent_inode, flags, made).commits.last(),
            replayed,
        ).items == fs_create(source, name, parent_inode, flags, replayed).items,
{
}

/// Replay mirrors a write: if the write found its file, the commit it
/// logged gives the mirror the same entries; if it did not, nothing was
/// logged and nothing changed.
pub proof fn lemma_replay_mirrors_write(
    source: FsView,
    mirror: FsView,
    inode: u64,
    data: Seq<u8>,
    offset: i64,
    flags: u32,
    now: Timestamp,
)
    requires
        mirror.items == source.items,
        mirror.append_flag == source.append_flag,
    ensures
        ({
            let after = fs_write(source, inode, data, offset, flags);
            if crate::diode_fs::first_with_inode(source.items, inode) < source.items.len() {
                after.commits.len() == source.commits.len() + 1 && replay(
                    mirror,
                    after.commits.last(),
                    now,
                ).items == after.items
            } else {
                after == source
            }
        }),
{
    crate::diode_fs::lemma_first_with_inode_bound(source.items, inode);
}

/// Replay mirrors the removal of a file.
pub proof fn lemma_replay_mirrors_unlink(source: FsView, mirror: FsView, name: Seq<char>, now: Timestamp)
    requires
        mirror.items == source.items,
        mirror.append_flag == source.append_flag,
    ensures
        replay(mirror, fs_unlink(source, name).commits.last(), now).items == fs_unlink(
            source,
            name,
        ).items,
{
}

/// Replay mirrors the creation of a directory, stamped with the time of
/// the replay.
pub proof fn lemma_replay_mirrors_mkdir(
    source: FsView,
    mirror: FsView,
    name: Seq<char>,
    parent_inode: u64,
    made: Timestamp,
    replayed: Timestamp,
)
    requires
        mirror.items == source.items,
        mirror.append_flag == source.append_flag,
    ensures
        replay(mirror, fs_mkdir(source, name, parent_inode, made).commits.last(), replayed).items
            == fs_mkdir(source, name, parent_inode, replayed).items,
{
}

/// Replay mirrors the removal of a directory: if the directory was
/// removed, the commit it logged removes it from the mirror; if it was
/// not, nothing was logged and nothing changed.
pub proof fn lemma_replay_mirrors_rmdir(source: FsView, mirror: FsView, name: Seq<char>, now: Timestamp)
    requires
        mirror.items == source.items,
        mirror.append_flag == source.append_flag,
    ensures
        ({
            let after = fs_rmdir(source, name);
            if crate::diode_fs::can_rmdir(source.items, name) {
                replay(mirror, after.commits.last(), now).items == after.items
            } else {
                after == source
            }
        }),
{
}

/// Replay mirrors a rename.
pub proof fn lemma_replay_mirrors_rename(
    source: FsView,
    mirror: FsView,
    name: Seq<char>,
    parent_inode: u64,
    new_name: Seq<char>,
    new_parent_inode: u64,
    now: Timestamp,
)
    requires
        mirror.items == source.items,
        mirror.append_flag == source.append_flag,
    ensures
        replay(
            mirror,
            fs_rename(source, name, parent_inode, new_name, new_parent_inode).commits.last(),
            now,
        ).items == fs_rename(source, name, parent_inode, new_name, new_parent_inode).items,
{
}

} // verus!
