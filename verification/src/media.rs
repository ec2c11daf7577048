//! The development copies of media, core and instance.

use vstd::prelude::*;
use crate::devbuild::{BuildTask, tasks_view, push_task, deep_copy_task, media_plan};
use crate::dirs::{Dirs, PathE, pathp};

verus! {

/// The media copies, run side by side.
pub fn runit(d: &Dirs) -> (r: Vec<BuildTask>)
    ensures
        tasks_view(r@) == media_plan(*d),
{
    let mut v: Vec<BuildTask> = Vec::new();
    push_task(&mut v, deep_copy_task(pathp(d, PathE::ClientSrc, "media/"), pathp(d, PathE::ClientOutputDev, "media/"), "**/*", "_____"));
    push_task(&mut v, deep_copy_task(pathp(d, PathE::InstanceClientSrc, "media/"), pathp(d, PathE::InstanceClientOutputDev, "media/"), "**/*", "_____"));
    assert(tasks_view(v@) =~= media_plan(*d));
    v
}

} // verus!
