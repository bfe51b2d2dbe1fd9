use rolodex_core::models::{
    append_cerebras_models, append_detected_ollama_models, append_ollama_models,
    cerebras_api_key_available_with_env, detected_cerebras_model_provider_id,
    detected_ollama_model_provider_id, gemma4_model_info, ollama_display_name,
    ollama_model_info, ollama_model_slugs, slugs_from_list_output, title_case_model_name,
    usable_model_names, CEREBRAS_API_KEY_ENV_VAR, CEREBRAS_API_TOKEN_ENV_VAR,
};

#[test]
fn detects_cerebras_api_token_alias() {
    assert!(cerebras_api_key_available_with_env(|name| {
        (name == CEREBRAS_API_TOKEN_ENV_VAR).then_some("token".to_string())
    }));
}

#[test]
fn ignores_empty_cerebras_api_token_alias() {
    assert!(!cerebras_api_key_available_with_env(|name| {
        (name == CEREBRAS_API_TOKEN_ENV_VAR).then_some("   ".to_string())
    }));
}

#[test]
fn detects_cerebras_api_key() {
    assert!(cerebras_api_key_available_with_env(|name| {
        (name == CEREBRAS_API_KEY_ENV_VAR).then_some("sk-1".to_string())
    }));
    assert!(!cerebras_api_key_available_with_env(|_| None));
}

#[test]
fn adds_gemma4_when_cerebras_api_key_is_available() {
    let mut models = Vec::new();
    append_cerebras_models(&mut models, true);
    assert_eq!(models.len(), 1);
    let m = models.remove(0);
    assert_eq!(m.slug, "gemma-4-31b");
    assert_eq!(m.display_name, "Gemma 4 31B");
    assert!(m.show_in_picker);
    assert!(m.supported_in_api);
    assert_eq!(m.supported_reasoning_levels, Vec::<String>::new());
}

#[test]
fn leaves_models_unchanged_without_cerebras_api_key() {
    let mut models = Vec::new();
    append_cerebras_models(&mut models, false);
    assert!(models.is_empty());
}

#[test]
fn cerebras_models_tests_does_not_duplicate_existing_gemma4_entry() {
    let mut models = vec![gemma4_model_info()];
    append_cerebras_models(&mut models, true);
    assert_eq!(models.len(), 1);
    assert_eq!(models[0].slug, "gemma-4-31b");
}

#[test]
fn maps_gemma4_slug_to_cerebras_provider_independent_of_env() {
    assert_eq!(detected_cerebras_model_provider_id("gemma-4-31b"), Some("cerebras"));
    assert_eq!(detected_cerebras_model_provider_id("gpt-5"), None);
}

#[test]
fn adds_gemma4_when_ollama_is_supported() {
    let mut models = Vec::new();
    append_ollama_models(&mut models, true);
    assert_eq!(models.len(), 1);
    let m = models.remove(0);
    assert_eq!(m.slug, "gemma4:12b");
    assert_eq!(m.display_name, "Gemma 4 12B");
    assert!(m.show_in_picker);
    assert!(m.supported_in_api);
}

#[test]
fn leaves_models_unchanged_when_ollama_is_not_supported() {
    let mut models = Vec::new();
    append_ollama_models(&mut models, false);
    assert!(models.is_empty());
}

#[test]
fn local_ollama_models_tests_does_not_duplicate_existing_gemma4_entry() {
    let mut models = vec![ollama_model_info("gemma4:12b")];
    append_ollama_models(&mut models, true);
    assert_eq!(models.len(), 1);
    assert_eq!(models[0].slug, "gemma4:12b");
}

#[test]
fn title_cases_model_names_and_upper_cases_tags() {
    assert_eq!(title_case_model_name("llama-3_instruct"), "Llama 3 Instruct");
    assert_eq!(title_case_model_name("--qwen--"), "Qwen");
    assert_eq!(ollama_display_name("qwen2.5-coder:7b"), "Qwen2.5 Coder 7B");
    assert_eq!(ollama_display_name("mistral"), "Mistral");
    assert_eq!(ollama_display_name("gemma4:12b"), "Gemma 4 12B");
}

#[test]
fn slugs_are_sorted_and_deduplicated() {
    let api = vec!["b:1".to_string(), "a:2".to_string(), "b:1".to_string()];
    assert_eq!(ollama_model_slugs(api, vec!["z".to_string()]), vec!["a:2", "b:1"]);
    assert_eq!(ollama_model_slugs(Vec::new(), vec!["z".to_string(), "y".to_string()]), vec!["y", "z"]);
}

#[test]
fn list_output_yields_first_word_of_each_row_after_header() {
    let out = b"NAME  ID  SIZE\nllama3:8b  abc  4 GB\n\n  qwen:7b x\n";
    assert_eq!(slugs_from_list_output(out), vec!["llama3:8b", "qwen:7b"]);
    assert_eq!(usable_model_names(vec!["a".into(), "  ".into(), "b".into()]), vec!["a", "b"]);
}

#[test]
fn detected_ollama_models_are_appended_once() {
    let detected = vec![ollama_model_info("a:1"), ollama_model_info("b:2")];
    let mut models = vec![ollama_model_info("a:1")];
    append_detected_ollama_models(&mut models, &detected);
    let slugs: Vec<_> = models.iter().map(|m| m.slug.clone()).collect();
    assert_eq!(slugs, vec!["a:1", "b:2"]);
    assert_eq!(detected_ollama_model_provider_id("b:2", &detected), Some("ollama"));
    assert_eq!(detected_ollama_model_provider_id("c:3", &detected), None);
}
