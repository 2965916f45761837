//! Activities: the work-performing flow objects. Tasks are the only kind
//! modeled here.

use vstd::prelude::*;
use crate::task::TaskType;

verus! {

/// An activity together with its kind tag.
#[derive(Clone, PartialEq, Debug)]
pub enum ActivityType {
    Task(TaskType),
}

} // verus!
