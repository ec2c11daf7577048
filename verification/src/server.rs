//! The development build of the server, core and instance.

use vstd::prelude::*;
use crate::devbuild::{BuildTask, tasks_view, push_task, swc, server_plan};
use crate::dirs::{Dirs, PathE, path};

verus! {

/// The server build, run side by side.
pub fn runit(d: &Dirs) -> (r: Vec<BuildTask>)
    ensures
        tasks_view(r@) == server_plan(*d),
{
    let top: [&str; 1] = ["*.ts"];
    let all: [&str; 1] = ["**/*.ts"];
    let mut v: Vec<BuildTask> = Vec::new();
    push_task(&mut v, swc(path(d, PathE::ServerSrc), path(d, PathE::ServerOutput), &top));
    push_task(&mut v, swc(path(d, PathE::InstanceServerSrc), path(d, PathE::InstanceServerOutput), &all));
    assert(Seq::new(top@.len(), |i: int| top@[i]@) =~= seq!["*.ts"@]);
    assert(Seq::new(all@.len(), |i: int| all@[i]@) =~= seq!["**/*.ts"@]);
    assert(tasks_view(v@) =~= server_plan(*d));
    v
}

} // verus!
