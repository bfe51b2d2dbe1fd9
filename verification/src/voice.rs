//! Where the local speech model lives, and which installation is used.
use vstd::prelude::*;
use crate::edit::{joined_path, resolve_path};

verus! {

/// The id of the local speech model.
pub fn local_voice_model_id() -> (r: &'static str)
    ensures
        r@ == "parakeet-tdt-0.6b-v3"@,
{
    "parakeet-tdt-0.6b-v3"
}

/// The directory the local speech model unpacks into.
pub fn local_voice_model_dirname() -> (r: &'static str)
    ensures
        r@ == "parakeet-tdt-0.6b-v3-int8"@,
{
    "parakeet-tdt-0.6b-v3-int8"
}

/// Where the local speech model is downloaded from.
pub fn local_voice_model_url() -> (r: &'static str)
    ensures
        r@ == "https://blob.handy.computer/parakeet-v3-int8.tar.gz"@,
{
    "https://blob.handy.computer/parakeet-v3-int8.tar.gz"
}

/// The file whose presence under `root` shows an installed model:
/// `models/<model dir>/encoder-model.int8.onnx`.
pub open spec fn ready_marker(root: Seq<char>) -> Seq<char> {
    joined_path(
        joined_path(joined_path(root, "models"@), "parakeet-tdt-0.6b-v3-int8"@),
        "encoder-model.int8.onnx"@,
    )
}

/// The file whose presence under `root` shows an installed model.
pub fn local_voice_ready_marker(root: &str) -> (r: String)
    ensures
        r@ == ready_marker(root@),
{
    let models = resolve_path(root, "models");
    let dir = resolve_path(models.as_str(), local_voice_model_dirname());
    resolve_path(dir.as_str(), "encoder-model.int8.onnx")
}

/// The root the local speech model is used from: a configured root always;
/// else the default root where the model is installed there; else the
/// legacy root where it is installed there; else the default root, where it
/// will be installed. `codex_ready` and `legacy_ready` say whether the ready
/// marker of each root is a file.
pub fn select_local_voice_root(
    configured_root: Option<String>,
    codex_root: &str,
    legacy_root: &str,
    codex_ready: bool,
    legacy_ready: bool,
) -> (r: String)
    ensures
        r@ == match configured_root {
            Some(c) => c@,
            None => if codex_ready {
                codex_root@
            } else if legacy_ready {
                legacy_root@
            } else {
                codex_root@
            },
        },
{
    match configured_root {
        Some(root) => root,
        None => {
            if codex_ready {
                String::from_str(codex_root)
            } else if legacy_ready {
                String::from_str(legacy_root)
            } else {
                String::from_str(codex_root)
            }
        },
    }
}

} // verus!
