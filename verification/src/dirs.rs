//! The project's directory layout: where sources, outputs and scratch files
//! of the core app and of the active instance live.

use vstd::prelude::*;
use crate::paths::{joined_path, join_path_exec};
use crate::text::{to_chars, from_chars, push_str};

verus! {

/// The configured roots, as read from the environment at start-up.
pub struct Dirs {
    /// Scratch directory (with a trailing `/`).
    pub tmp: String,
    /// Sources of the core client.
    pub main_client: String,
    /// Root of the core server (with a trailing `/`).
    pub main_server: String,
    /// Sources of the instance client.
    pub instance_client: String,
    /// Sources of the instance server.
    pub instance_server: String,
    /// Chrome DevTools local-overrides folder.
    pub chrome_overrides: String,
}

/// A named location of the layout.
#[derive(Clone, Copy, Debug, PartialEq, Eq)]
pub enum PathE {
    TMPDir,
    TMPDirFiles,
    TMPDirConfigs,
    ClientSrc,
    ClientOutputDev,
    ClientOutputDist,
    ServerSrc,
    ServerOutput,
    InstanceClientSrc,
    InstanceClientOutputDev,
    InstanceClientOutputDist,
    InstanceClientOutputTMP,
    InstanceServerSrc,
    InstanceServerOutput,
    ChromeOverridesDir,
}

/// Where each named location is.
pub open spec fn location(d: Dirs, which: PathE) -> Seq<char> {
    match which {
        PathE::TMPDir => d.tmp@,
        PathE::TMPDirFiles => joined_path(d.tmp@, "files/"@),
        PathE::TMPDirConfigs => joined_path(d.tmp@, "configs/"@),
        PathE::ClientSrc => d.main_client@,
        PathE::ClientOutputDev => d.main_server@ + "static_dev/"@,
        PathE::ClientOutputDist => d.main_server@ + "static_dist/"@,
        PathE::ServerSrc => d.main_server@ + "src/"@,
        PathE::ServerOutput => d.main_server@ + "build/"@,
        PathE::InstanceClientSrc => d.instance_client@,
        PathE::InstanceClientOutputDev => joined_path(d.main_server@ + "static_dev/"@, "instance/"@),
        PathE::InstanceClientOutputDist => joined_path(d.main_server@ + "static_dist/"@, "instance/"@),
        PathE::InstanceClientOutputTMP => joined_path(joined_path(d.tmp@, "files/"@), "instance/"@),
        PathE::InstanceServerSrc => d.instance_server@,
        PathE::InstanceServerOutput => joined_path(d.main_server@ + "build/"@, "instance/"@),
        PathE::ChromeOverridesDir => d.chrome_overrides@,
    }
}

/// A named location with `postpend` joined to it.
pub open spec fn location_with(d: Dirs, which: PathE, postpend: Seq<char>) -> Seq<char> {
    joined_path(location(d, which), postpend)
}

fn server_sub(d: &Dirs, sub: &str) -> (r: Vec<char>)
    ensures
        r@ == d.main_server@ + sub@,
{
    let mut r = to_chars(d.main_server.as_str());
    push_str(&mut r, sub);
    r
}

fn joined_lit(base: &[char], rel: &str) -> (r: Vec<char>)
    ensures
        r@ == joined_path(base@, rel@),
{
    let rc = to_chars(rel);
    join_path_exec(base, &rc)
}

/// The characters of a named location.
pub fn location_chars(d: &Dirs, which: PathE) -> (r: Vec<char>)
    ensures
        r@ == location(*d, which),
{
    match which {
        PathE::TMPDir => to_chars(d.tmp.as_str()),
        PathE::TMPDirFiles => joined_lit(&to_chars(d.tmp.as_str()), "files/"),
        PathE::TMPDirConfigs => joined_lit(&to_chars(d.tmp.as_str()), "configs/"),
        PathE::ClientSrc => to_chars(d.main_client.as_str()),
        PathE::ClientOutputDev => server_sub(d, "static_dev/"),
        PathE::ClientOutputDist => server_sub(d, "static_dist/"),
        PathE::ServerSrc => server_sub(d, "src/"),
        PathE::ServerOutput => server_sub(d, "build/"),
        PathE::InstanceClientSrc => to_chars(d.instance_client.as_str()),
        PathE::InstanceClientOutputDev => joined_lit(&server_sub(d, "static_dev/"), "instance/"),
        PathE::InstanceClientOutputDist => joined_lit(&server_sub(d, "static_dist/"), "instance/"),
        PathE::InstanceClientOutputTMP => joined_lit(&joined_lit(&to_chars(d.tmp.as_str()), "files/"), "instance/"),
        PathE::InstanceServerSrc => to_chars(d.instance_server.as_str()),
        PathE::InstanceServerOutput => joined_lit(&server_sub(d, "build/"), "instance/"),
        PathE::ChromeOverridesDir => to_chars(d.chrome_overrides.as_str()),
    }
}

/// The characters of a named location with `postpend` joined to it.
pub fn location_with_chars(d: &Dirs, which: PathE, postpend: &str) -> (r: Vec<char>)
    ensures
        r@ == location_with(*d, which, postpend@),
{
    joined_lit(&location_chars(d, which), postpend)
}

/// Where a named location is.
pub fn path(d: &Dirs, request_path: PathE) -> (r: String)
    ensures
        r@ == location(*d, request_path),
{
    from_chars(&location_chars(d, request_path))
}

/// A named location with `postpend` joined to it.
pub fn pathp(d: &Dirs, request_path: PathE, postpend: &str) -> (r: String)
    ensures
        r@ == location_with(*d, request_path, postpend@),
{
    from_chars(&location_with_chars(d, request_path, postpend))
}

} // verus!
