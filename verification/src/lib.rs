//! Byte-exact comparison of files and of directory trees.
//!
//! Two streams of bytes are equal, or they differ at the offset of their
//! first difference. Two directory trees are compared entry by entry: every
//! path is equal, different, present on one side only, or could not be
//! compared. Nothing here reads a file or lists a directory: callers hand in
//! the bytes and the listings that they have read.

pub mod chunk_size;
pub mod comparator;
pub mod decimal;
pub mod divergence;
pub mod laws;
pub mod outcome;
pub mod status;
pub mod tree;

pub use chunk_size::{chunk_size_or_default, parse_chunk_size, DEFAULT_CHUNK_SIZE};
pub use comparator::{compare_files, compare_lengths, ChunkedComparator};
pub use outcome::FileDiff;
pub use status::{overall_status, status, ALL_EQUAL, DIFFERENCES, FAILURE};
pub use tree::{compare_dirs, diff_plan, find_entry, Entry, Node, Task, Work};
