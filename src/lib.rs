pub mod attr;
pub mod dirent;
pub mod errno;
pub mod fs;
pub mod handles;
pub mod inodes;
