//! Build-pipeline logic for a progressive web app with a shared core and
//! per-instance overlays: path routing, file-change planning and the text
//! rewrites applied to generated assets.

pub mod text;
pub mod paths;
pub mod dirs;
pub mod devfile;
pub mod external;
pub mod devtext;
pub mod json;
pub mod lint;
pub mod manifest;
pub mod dist;
pub mod bundle;
pub mod initial;
pub mod helpers;
pub mod init;
pub mod devbuild;
pub mod server;
pub mod thirdparty;
pub mod media;
pub mod pathorder;
pub mod laws;
