//! Verified accumulation logic for a recursive directory checksum scan.
//!
//! A scan walks a directory tree, attempts to read every regular file it
//! finds, and folds the results into a running summary: a file count, a
//! count of unreadable files, a total of bytes read, and a checksum that
//! is the plain sum of all byte values read. The traversal and the file
//! reads themselves are I/O and live outside this library; what is
//! verified here is everything the scan decides and computes from the
//! per-file outcomes it observes.

pub mod events;
pub mod summary;
