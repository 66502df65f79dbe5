//! Core of a FAT32-compatible storage engine: typed cluster addressing,
//! the file-allocation table as a persisted linked-list structure, 8.3
//! short-name and directory-entry encoding, cluster allocation, and
//! iteration over cluster ranges, chains and directory contents.

pub mod ascii;
pub mod attribute;
pub mod cluster;
pub mod datetime;
pub mod dir_entry;
pub mod dir_iter;
pub mod filesystem;
pub mod name;
pub mod offset_iter;
pub mod process;
pub mod scheduler;
pub mod storage;
pub mod syscall;
pub mod table;
