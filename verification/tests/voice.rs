use rolodex_core::voice::{
    local_voice_model_dirname, local_voice_model_id, local_voice_model_url, local_voice_ready_marker,
    select_local_voice_root,
};

#[test]
fn select_local_voice_root_prefers_configured_root() {
    let codex_root = "/tmp/codex-voice";
    let legacy_root = "/tmp/legacy-handy";
    let configured_root = Some("/tmp/custom-voice".to_string());

    let root = select_local_voice_root(configured_root.clone(), codex_root, legacy_root, false, false);

    assert_eq!(root, configured_root.expect("configured root should exist"));
}

#[test]
fn select_local_voice_root_prefers_codex_model_when_present() {
    let codex_root = "/sandbox/codex";
    let legacy_root = "/sandbox/legacy";

    let root = select_local_voice_root(None, codex_root, legacy_root, true, true);

    assert_eq!(root, codex_root);
}

#[test]
fn select_local_voice_root_reuses_legacy_model_when_codex_model_is_missing() {
    let codex_root = "/sandbox/codex";
    let legacy_root = "/sandbox/legacy";

    let root = select_local_voice_root(None, codex_root, legacy_root, false, true);

    assert_eq!(root, legacy_root);
}

#[test]
fn select_local_voice_root_defaults_to_codex_root_for_new_installs() {
    let codex_root = "/sandbox/codex";
    let legacy_root = "/sandbox/legacy";

    let root = select_local_voice_root(None, codex_root, legacy_root, false, false);

    assert_eq!(root, codex_root);
}

#[test]
fn local_voice_ready_marker_is_under_the_model_dir() {
    assert_eq!(
        local_voice_ready_marker("/data/voice"),
        "/data/voice/models/parakeet-tdt-0.6b-v3-int8/encoder-model.int8.onnx"
    );
    assert_eq!(
        local_voice_ready_marker("/data/voice/"),
        "/data/voice/models/parakeet-tdt-0.6b-v3-int8/encoder-model.int8.onnx"
    );
    assert_eq!(local_voice_model_id(), "parakeet-tdt-0.6b-v3");
    assert_eq!(local_voice_model_dirname(), "parakeet-tdt-0.6b-v3-int8");
    assert_eq!(local_voice_model_url(), "https://blob.handy.computer/parakeet-v3-int8.tar.gz");
}
