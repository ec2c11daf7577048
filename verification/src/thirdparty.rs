//! The development bundles of third-party code, core and instance.

use vstd::prelude::*;
use crate::devbuild::{BuildTask, tasks_view, push_task, thirdparty_build_plan};
use crate::dirs::{Dirs, PathE, pathp};

verus! {

/// The third-party bundles, run side by side.
pub fn runit(d: &Dirs) -> (r: Vec<BuildTask>)
    ensures
        tasks_view(r@) == thirdparty_build_plan(*d),
{
    let mut v: Vec<BuildTask> = Vec::new();
    push_task(&mut v, BuildTask::BundleThirdParty {
        src: pathp(d, PathE::ClientSrc, "thirdparty/"),
        dest: pathp(d, PathE::ClientOutputDev, "thirdparty/"),
    });
    push_task(&mut v, BuildTask::BundleThirdParty {
        src: pathp(d, PathE::InstanceClientSrc, "thirdparty/"),
        dest: pathp(d, PathE::InstanceClientOutputDev, "thirdparty/"),
    });
    assert(tasks_view(v@) =~= thirdparty_build_plan(*d));
    v
}

} // verus!
