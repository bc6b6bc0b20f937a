//! What is copied between the two machines: the project tree before the
//! remote build, the build's outputs after it.

use vstd::prelude::*;
use vstd::string::StringExecFns;

verus! {

/// One copy, from `source` to `destination`. Of the two one is a local
/// directory, the other one a remote directory.
pub struct Transfer {
    pub source: String,
    pub destination: String,
    /// The name of a directory directly below `source` that is left out.
    pub without: Option<String>,
}

/// The copies of one run. The upload carries the project tree without its
/// build outputs, which only the remote side makes; the download carries the
/// build outputs alone and so never touches the user's sources.
pub struct SyncPlan {
    /// Before the build: the local project tree into the workspace.
    pub upload: Option<Transfer>,
    /// After the build: the workspace's outputs into the local outputs.
    pub download: Option<Transfer>,
}

/// Source and destination of a copy, and what it leaves out.
pub open spec fn ends(t: Option<Transfer>) -> Option<(Seq<char>, Seq<char>, Option<Seq<char>>)> {
    match t {
        Some(t) => Some(
            (
                t.source@,
                t.destination@,
                match t.without {
                    Some(w) => Some(w@),
                    None => None,
                },
            ),
        ),
        None => None,
    }
}

/// The directory of the build outputs below the directory `root`.
pub open spec fn outputs_of(root: Seq<char>) -> Seq<char> {
    root + "/target"@
}

/// The upload of a run: the local root into the workspace, without the
/// directory of the build outputs; or nothing where the run sends no
/// sources.
pub open spec fn upload_of(local_root: Seq<char>, workspace: Seq<char>, skip_upload: bool) -> Option<
    (Seq<char>, Seq<char>, Option<Seq<char>>),
> {
    if skip_upload {
        None
    } else {
        Some((local_root, workspace, Some("target"@)))
    }
}

/// The download of a run: all of the workspace's outputs into the local
/// outputs, or nothing where the run leaves them.
pub open spec fn download_of(local_root: Seq<char>, workspace: Seq<char>, no_copy_back: bool) -> Option<
    (Seq<char>, Seq<char>, Option<Seq<char>>),
> {
    if no_copy_back {
        None
    } else {
        Some((outputs_of(workspace), outputs_of(local_root), None))
    }
}

/// The directory of the build outputs below `root`.
pub fn outputs(root: &str) -> (r: String)
    ensures
        r@ == outputs_of(root@),
{
    let mut out = root.to_owned();
    out.append("/target");
    out
}

/// The copies of a run between the local project at `local_root` and the
/// remote directory `workspace`.
pub fn plan_sync(local_root: &str, workspace: &str, skip_upload: bool, no_copy_back: bool) -> (r:
    SyncPlan)
    ensures
        ends(r.upload) == upload_of(local_root@, workspace@, skip_upload),
        ends(r.download) == download_of(local_root@, workspace@, no_copy_back),
{
    let upload = if skip_upload {
        None
    } else {
        Some(
            Transfer {
                source: local_root.to_owned(),
                destination: workspace.to_owned(),
                without: Some("target".to_owned()),
            },
        )
    };
    let download = if no_copy_back {
        None
    } else {
        Some(
            Transfer { source: outputs(workspace), destination: outputs(local_root), without: None },
        )
    };
    SyncPlan { upload, download }
}

} // verus!
