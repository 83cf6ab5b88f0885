//! A note-taking assistant over a tree of markdown files: it finds the open
//! to-do items of every note, and resolves where the daily note and the
//! project notes live.
pub mod note;
pub mod projects;
pub mod report;
pub mod scan;
pub mod task;
pub mod tree;
