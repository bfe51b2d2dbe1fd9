use rolodex_core::edit_tool::EditHandler;
use rolodex_core::edit_tool::PatchCheck;
use rolodex_core::edit_tool::create_edit_tool;
use rolodex_core::phase::create_declare_phase_tool;
use rolodex_core::search_tool::SearchArgs;
use rolodex_core::search_tool::SearchHandler;
use rolodex_core::search_tool::SearchResult;
use rolodex_core::search_tool::SearchToolOptions;
use rolodex_core::search_tool::create_search_tool;
use rolodex_core::search_tool::format_search_results;
use rolodex_core::search_tool::search_limit;
use rolodex_core::smart_path::resolve_candidates;
use rolodex_core::smart_path::resolve_outcome;
use rolodex_core::smart_read::CodeLayer;
use rolodex_core::smart_read::SmartReadLayer;
use rolodex_core::smart_read::SmartReadToolOptions;
use rolodex_core::smart_read::create_smart_read_tool;
use rolodex_core::smart_read::validate_file_inside_root;
use rolodex_core::smart_search::SmartSearchArgs;
use rolodex_core::smart_search::SmartSearchToolOptions;
use rolodex_core::smart_search::create_smart_search_tool;
use rolodex_core::smart_search::smart_search_input;
use rolodex_core::smart_write::SmartWriteOperation;
use rolodex_core::smart_write::SmartWriteToolOptions;
use rolodex_core::smart_write::StructuralEdit;
use rolodex_core::smart_write::create_smart_write_tool;
use rolodex_core::smart_write::format_smart_write_output;
use rolodex_core::smart_write::parse_line_range;
use rolodex_core::smart_write::structural_edit;
use rolodex_core::smart_write::truncate_preview;
use rolodex_core::tool_spec::JsonSchema;
use rolodex_core::tool_spec::ToolEnvironment;
use rolodex_core::tool_spec::ToolSpec;

fn keys(spec: &ToolSpec) -> Vec<String> {
    let ToolSpec::Function(tool) = spec;
    match &tool.parameters {
        JsonSchema::Object { properties, .. } => properties.iter().map(|(k, _)| k.clone()).collect(),
        _ => panic!("parameters should be an object"),
    }
}

#[test]
fn search_spec_keeps_plain_search_tool_name() {
    let ToolSpec::Function(tool) = create_search_tool(SearchToolOptions { include_environment_id: false });
    assert_eq!(tool.name, "search");
    assert!(tool.description.contains("SearchTool"));
}

#[test]
fn smart_read_spec_exposes_sdk_layers() {
    let ToolSpec::Function(tool) = create_smart_read_tool(SmartReadToolOptions { include_environment_id: false });
    assert_eq!(tool.name, "smart_read");
    assert!(tool.description.contains("llm-code-sdk"));
    assert!(tool.description.contains("Lean theory"));
}

#[test]
fn smart_search_spec_exposes_mr_search_as_smart_search() {
    let ToolSpec::Function(tool) = create_smart_search_tool(SmartSearchToolOptions { include_environment_id: false });
    assert_eq!(tool.name, "smart_search");
    assert!(tool.description.contains("MRSearchTool"));
    assert!(tool.description.contains("SmartSearch"));
}

#[test]
fn smart_write_spec_exposes_structural_operations() {
    let ToolSpec::Function(tool) = create_smart_write_tool(SmartWriteToolOptions { include_environment_id: false });
    assert_eq!(tool.name, "smart_write");
    assert!(tool.description.contains("SmartWrite"));
    assert!(tool.description.contains("surgical"));
}

#[test]
fn declare_phase_spec_is_well_formed() {
    let spec = create_declare_phase_tool();
    let ToolSpec::Function(f) = &spec;
    assert_eq!(f.name, "declare_phase");
    let JsonSchema::Object { required, .. } = &f.parameters else {
        panic!("expected an object schema");
    };
    assert_eq!(required.as_deref(), Some(&["phase".to_string()][..]));
    assert_eq!(keys(&spec), vec!["intent", "phase"]);
}

#[test]
fn tool_properties_come_in_key_order_with_environment_id() {
    let spec = create_search_tool(SearchToolOptions { include_environment_id: true });
    assert_eq!(keys(&spec), vec!["environment_id", "limit", "query"]);
    let spec = create_smart_write_tool(SmartWriteToolOptions { include_environment_id: false });
    assert_eq!(keys(&spec), vec!["after", "content", "dry_run", "operation", "path", "target"]);
}

#[test]
fn edit_tool_takes_an_array_of_operations() {
    let ToolSpec::Function(tool) = create_edit_tool();
    assert_eq!(tool.name, "edit");
    let JsonSchema::Object { properties, required, additional_properties } = &tool.parameters else {
        panic!("expected an object schema");
    };
    assert_eq!(*additional_properties, Some(false));
    assert_eq!(required.as_deref(), Some(&["operations".to_string()][..]));
    let JsonSchema::Array { items, .. } = &properties[0].1 else {
        panic!("operations should be an array");
    };
    let JsonSchema::Object { properties, .. } = items.as_ref() else {
        panic!("an operation should be an object");
    };
    assert_eq!(properties.len(), 14);
    assert_eq!(properties[0].0, "anchor");
    assert_eq!(properties[13].0, "to");
}

#[test]
fn parses_replace_lines_target() {
    assert_eq!(parse_line_range("2:4").ok(), Some((2, 4)));
    assert!(parse_line_range("4:2").is_err());
    assert!(parse_line_range("nope").is_err());
}

#[test]
fn replace_lines_errors_name_the_bad_part() {
    let msg = |t: &str| parse_line_range(t).err().expect("should fail").to_message();
    assert_eq!(msg("nope"), "replace_lines target must be a 1-based inclusive range like `10:20`");
    assert_eq!(msg("x:2"), "replace_lines start line `x` is not a positive integer");
    assert_eq!(msg("1:"), "replace_lines end line `` is not a positive integer");
    assert_eq!(msg("0:2"), "replace_lines target `0:2` must use positive lines with start <= end");
    assert_eq!(parse_line_range("+3:7").ok(), Some((3, 7)));
}

#[test]
fn structural_edits_follow_the_operation() {
    assert!(matches!(
        structural_edit(SmartWriteOperation::InsertAfter, "t", "c", Some("a")),
        Ok(StructuralEdit::InsertAfter { anchor, content }) if anchor == "a" && content == "c"
    ));
    assert!(matches!(
        structural_edit(SmartWriteOperation::InsertAfter, "t", "c", None),
        Ok(StructuralEdit::InsertAfter { anchor, .. }) if anchor == "t"
    ));
    assert!(matches!(
        structural_edit(SmartWriteOperation::ReplaceLines, "2:3", "x", None),
        Ok(StructuralEdit::ReplaceLines { start: 2, end: 3, .. })
    ));
    assert!(structural_edit(SmartWriteOperation::ReplaceLines, "3:2", "x", None).is_err());
}

#[test]
fn smart_write_output_truncates_long_previews() {
    assert_eq!(format_smart_write_output("fn x() {}", true), "Edit previewed successfully.\n\nfn x() {}");
    assert_eq!(format_smart_write_output("", false), "Edit applied successfully.\n\n");
    let long = "é".repeat(3);
    assert_eq!(truncate_preview(&long, 3), "é...\n(truncated, 6 total chars)");
    assert_eq!(truncate_preview("abc", 3), "abc");
}

#[test]
fn smart_search_input_caps_limit_and_days() {
    let input = smart_search_input(SmartSearchArgs {
        query: Some("edge case".to_string()),
        limit: Some(500),
        days: Some(500),
        environment_id: None,
    });
    assert_eq!(input.query.as_deref(), Some("edge case"));
    assert_eq!(input.limit, 100);
    assert_eq!(input.days, 365);
    let input = smart_search_input(SmartSearchArgs { query: Some("  ".to_string()), limit: None, days: None, environment_id: None });
    assert_eq!(input.query, None);
    assert_eq!((input.limit, input.days), (20, 7));
}

#[test]
fn layer_mapping_is_exhaustive() {
    assert_eq!(SmartReadLayer::Smart.code_layer(), None);
    assert_eq!(SmartReadLayer::Dfg.code_layer(), Some(CodeLayer::Dfg));
    assert_eq!(SmartReadLayer::TheoryGraph.code_layer(), Some(CodeLayer::TheoryGraph));
}

#[test]
fn search_requests_are_checked() {
    let handler = SearchHandler::new(SearchToolOptions { include_environment_id: false });
    let args = |q: &str, limit| SearchArgs { query: q.to_string(), limit, environment_id: None };
    let local = ToolEnvironment::Local { cwd: "/p".to_string() };
    assert_eq!(
        handler.request(&args(" ", None), &local).err().unwrap().to_message(),
        "search query is required"
    );
    assert_eq!(
        handler.request(&args("x", None), &ToolEnvironment::Remote).err().unwrap().to_message(),
        "search currently supports local environments only"
    );
    assert_eq!(
        handler.request(&args("x", None), &ToolEnvironment::Unavailable).err().unwrap().to_message(),
        "search is unavailable in this session"
    );
    let (q, n, cwd) = handler.request(&args("x", Some(99)), &local).ok().unwrap();
    assert_eq!((q.as_str(), n, cwd.as_str()), ("x", 50, "/p"));
    assert_eq!(search_limit(None), 10);
}

#[test]
fn search_results_are_one_line_each() {
    assert_eq!(format_search_results(0, &Vec::new()), Err("No files to search".to_string()));
    assert_eq!(format_search_results(3, &Vec::new()), Ok("No matches found".to_string()));
    let results = vec![
        SearchResult { path: "a.rs".to_string(), score: "1.50".to_string(), terms: vec!["x".to_string(), "y".to_string()] },
        SearchResult { path: "b.rs".to_string(), score: "0.25".to_string(), terms: Vec::new() },
    ];
    assert_eq!(
        format_search_results(3, &results),
        Ok("a.rs (score: 1.50; terms: x, y)\nb.rs (score: 0.25)".to_string())
    );
}

#[test]
fn resolves_path_with_redundant_cwd_basename_prefix_candidates() {
    let (primary, fallback) = resolve_candidates("/tmp/t/codex-rs", "codex-rs/sandboxing/mod.rs");
    assert_eq!(primary, "/tmp/t/codex-rs/codex-rs/sandboxing/mod.rs");
    assert_eq!(fallback.as_deref(), Some("/tmp/t/codex-rs/sandboxing/mod.rs"));
    let (primary, fallback) = resolve_candidates("/tmp/t/codex-rs", "/abs/file.rs");
    assert_eq!(primary, "/abs/file.rs");
    assert_eq!(fallback, None);
    let (_, fallback) = resolve_candidates("/tmp/t/codex-rs", "codex-rs");
    assert_eq!(fallback, None);
}

#[test]
fn reports_primary_path_when_resolution_fails() {
    let error = resolve_outcome("source file", "/tmp/t/codex-rs/missing.rs", Err("No such file".to_string()), None)
        .err()
        .unwrap();
    let message = error.to_message();
    assert!(message.contains("unable to resolve source file"));
    assert!(message.contains("codex-rs/missing.rs"));
    let ok = resolve_outcome("f", "/a", Err("x".to_string()), Some(Ok("/b".to_string())));
    assert_eq!(ok.ok().as_deref(), Some("/b"));
}

#[test]
fn files_must_lie_inside_the_project() {
    let err = validate_file_inside_root("/p", "/q/x.rs", true, "smart_read").err().unwrap();
    assert_eq!(err.to_message(), "smart_read path `/q/x.rs` is outside project root `/p`");
    let err = validate_file_inside_root("/p", "/p/dir", false, "smart_write").err().unwrap();
    assert_eq!(err.to_message(), "smart_write path `/p/dir` is not a file");
    assert!(validate_file_inside_root("/p", "/p/x.rs", true, "smart_read").is_ok());
}

#[test]
fn edit_handler_reports_patch_problems() {
    let h = EditHandler;
    assert!(h.is_mutating());
    assert!(h.check_error(&PatchCheck::Body).is_none());
    assert_eq!(
        h.check_error(&PatchCheck::CorrectnessError("bad hunk".to_string())).unwrap().to_message(),
        "edit generated an invalid patch: bad hunk"
    );
    assert_eq!(
        h.check_error(&PatchCheck::NotApplyPatch).unwrap().to_message(),
        "edit generated a non-apply_patch payload"
    );
}

#[test]
fn resolves_path_with_redundant_cwd_basename_prefix() {
    let cwd = "/tmp/t/codex-rs";
    let file = "/tmp/t/codex-rs/sandboxing/mod.rs";
    let (primary, fallback) = resolve_candidates(cwd, "codex-rs/sandboxing/mod.rs");
    assert_eq!(primary, "/tmp/t/codex-rs/codex-rs/sandboxing/mod.rs");
    assert_eq!(fallback.as_deref(), Some(file));
    // Only the fallback exists on disk, so only it canonicalizes.
    let resolved = resolve_outcome(
        "source file",
        &primary,
        Err("No such file or directory (os error 2)".to_string()),
        Some(Ok(file.to_string())),
    );
    assert_eq!(resolved.ok().as_deref(), Some(file));
}

#[test]
fn resolves_absolute_paths_without_rewriting() {
    let cwd = "/tmp/t/codex-rs";
    let file = "/tmp/t/codex-rs/sandboxing/mod.rs";
    let (primary, fallback) = resolve_candidates(cwd, file);
    assert_eq!(primary, file);
    assert_eq!(fallback, None);
    let resolved = resolve_outcome("source file", &primary, Ok(file.to_string()), None);
    assert_eq!(resolved.ok().as_deref(), Some(file));
}
