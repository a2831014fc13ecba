use vstd::prelude::*;
use crate::options::{SetFinalDateType, TaskSort};

verus! {

/// How the todo lists behave.
#[derive(Debug, Copy, Clone, PartialEq, Eq, Structural)]
pub struct ToDoConfig {
    /// Whether categories of completed tasks are listed too.
    pub use_done: bool,
    pub pending_sort: TaskSort,
    pub done_sort: TaskSort,
    /// Whether the finish date is removed when a task goes back to pending.
    pub delete_final_date: bool,
    pub set_final_date: SetFinalDateType,
}

impl Default for ToDoConfig {
    fn default() -> (r: Self)
        ensures
            !r.use_done,
            r.pending_sort == TaskSort::NoSort,
            r.done_sort == TaskSort::NoSort,
            r.delete_final_date,
            r.set_final_date == SetFinalDateType::OnlyMissing,
    {
        ToDoConfig {
            use_done: false,
            pending_sort: TaskSort::NoSort,
            done_sort: TaskSort::NoSort,
            delete_final_date: true,
            set_final_date: SetFinalDateType::OnlyMissing,
        }
    }
}

/// Scripts to run around changes of tasks; a missing path means no script.
#[derive(Debug)]
pub struct HookPaths {
    pub pre_new_task: Option<String>,
    pub post_new_task: Option<String>,
    pub pre_remove_task: Option<String>,
    pub post_remove_task: Option<String>,
    pub pre_move_task: Option<String>,
    pub post_move_task: Option<String>,
    pub pre_update_task: Option<String>,
    pub post_update_task: Option<String>,
}

impl Default for HookPaths {
    fn default() -> (r: Self)
        ensures
            r.pre_new_task is None && r.post_new_task is None,
            r.pre_remove_task is None && r.post_remove_task is None,
            r.pre_move_task is None && r.post_move_task is None,
            r.pre_update_task is None && r.post_update_task is None,
    {
        HookPaths {
            pre_new_task: None,
            post_new_task: None,
            pre_remove_task: None,
            post_remove_task: None,
            pre_move_task: None,
            post_move_task: None,
            pre_update_task: None,
            post_update_task: None,
        }
    }
}

} // verus!
