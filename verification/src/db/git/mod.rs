//! What is shown of a git repository: directories, files, commits and differences.
pub mod blob;
pub mod commits;
pub mod diff;
pub mod refs;
pub mod tree;

pub use self::blob::{read_blob_limited, read_readme};
pub use self::commits::{commits_for_tree, list_commits, CommitInfo};
pub use self::diff::{DiffFile, DiffHunk, DiffLine};
pub use self::refs::{list_branches, list_tags, BranchInfo, TagInfo};
pub use self::tree::{list_tree, TreeEntry};
