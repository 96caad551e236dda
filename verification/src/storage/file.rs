use vstd::prelude::*;

use crate::text::{push_decimal, push_str};
use crate::types::NodeId;

verus! {

/// Where snapshots are kept on disk: one file per node in `directory`,
/// written first to a temporary file beside it.
pub struct FileStorage {
    directory: String,
}

/// The name of the file that holds the snapshot of `node_id`.
pub open spec fn snapshot_file_name(node_id: NodeId) -> Seq<char> {
    "node-"@ + crate::text::decimal(node_id as nat) + ".json"@
}

/// The name of the temporary file a snapshot of `node_id` is written to first.
pub open spec fn temp_snapshot_file_name(node_id: NodeId) -> Seq<char> {
    snapshot_file_name(node_id) + ".tmp"@
}

/// What a file name is appended to in `dir`: nothing is added to an empty
/// directory or to one that already ends with `/`, else `/` is.
pub open spec fn path_prefix(dir: Seq<char>) -> Seq<char> {
    if dir.len() == 0 || dir.last() == '/' {
        dir
    } else {
        dir + "/"@
    }
}

/// `name` within the directory `dir`, as `Path::join` forms it for a
/// relative name.
pub open spec fn joined_path(dir: Seq<char>, name: Seq<char>) -> Seq<char> {
    path_prefix(dir) + name
}

impl FileStorage {
    pub closed spec fn spec_directory(&self) -> Seq<char> {
        self.directory@
    }

    /// File storage rooted at `directory`.
    pub fn new(directory: String) -> (r: Self)
        ensures
            r.spec_directory() == directory@,
    {
        FileStorage { directory }
    }

    /// The directory the snapshot files live in.
    pub fn directory(&self) -> (r: &String)
        ensures
            r@ == self.spec_directory(),
    {
        &self.directory
    }

    /// The file the snapshot of `node_id` is kept in, within the directory.
    pub fn snapshot_path(&self, node_id: NodeId) -> (r: String)
        ensures
            r@ == joined_path(self.spec_directory(), snapshot_file_name(node_id)),
    {
        let mut out = self.directory_prefix();
        push_str(&mut out, "node-");
        push_decimal(&mut out, node_id);
        push_str(&mut out, ".json");
        proof {
            assert(out@ =~= joined_path(self.spec_directory(), snapshot_file_name(node_id)));
        }
        out
    }

    /// The temporary file a snapshot of `node_id` is written to before it
    /// replaces the snapshot file.
    pub fn temp_snapshot_path(&self, node_id: NodeId) -> (r: String)
        ensures
            r@ == joined_path(self.spec_directory(), temp_snapshot_file_name(node_id)),
    {
        let mut out = self.snapshot_path(node_id);
        push_str(&mut out, ".tmp");
        proof {
            assert(out@ =~= joined_path(self.spec_directory(), temp_snapshot_file_name(node_id)));
        }
        out
    }

    /// The directory with the separator a file name is joined after.
    fn directory_prefix(&self) -> (r: String)
        ensures
            r@ == path_prefix(self.spec_directory()),
    {
        let mut out = String::new();
        push_str(&mut out, self.directory.as_str());
        let n = self.directory.as_str().unicode_len();
        if n > 0 && self.directory.as_str().get_char(n - 1) != '/' {
            push_str(&mut out, "/");
        }
        out
    }
}

} // verus!
