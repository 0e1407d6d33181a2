//! Task descriptions shared with the front end.
use vstd::prelude::*;

verus! {

/// A download task's parameters.
#[derive(Debug, Clone)]
pub struct DownloadParam {
    pub src: String,
    pub dest: String,
    pub filename: Option<String>,
    pub sha1: Option<String>,
}

/// The state of a task as the front end sees it.
#[derive(Debug, Clone)]
pub struct THandle {
    pub task_id: u32,
    pub task_group: Option<String>,
    pub task_type: String,
    pub state: String,
}

/// Parameters of a progressive task.
#[derive(Debug, Clone)]
pub enum PTaskParam {
    Download(DownloadParam),
}

} // verus!
