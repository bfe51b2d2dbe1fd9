use rolodex_core::post_edit::{
    FileLayers, LayerRead, OutputBody, OutputContentItem, append_post_edit_analysis, build_post_edit_analysis,
    compact_layer_content, layer_name, normalize_paths, path_extension, select_layers,
};
use rolodex_core::smart_read::CodeLayer;

#[test]
fn layers_follow_language_and_test_paths() {
    assert_eq!(select_layers("src/main.rs", 1), vec![CodeLayer::Ast, CodeLayer::CallGraph, CodeLayer::Dfg]);
    assert_eq!(select_layers("src/tests/a.rs", 1), vec![CodeLayer::Ast, CodeLayer::CallGraph]);
    assert_eq!(select_layers("pkg/util_test.go", 1), vec![CodeLayer::Ast, CodeLayer::CallGraph]);
    assert_eq!(select_layers("x.py", 3), vec![CodeLayer::Ast, CodeLayer::CallGraph]);
    assert_eq!(select_layers("proof.lean", 1), vec![CodeLayer::Ast, CodeLayer::TheoryGraph]);
    assert!(select_layers("README.md", 1).is_empty());
    assert!(select_layers(".rs", 1).is_empty());
    assert_eq!(layer_name(CodeLayer::CallGraph), "call_graph");
    assert_eq!(layer_name(CodeLayer::TheoryGraph), "theory_graph");
}

#[test]
fn path_extension_reads_the_file_name() {
    assert_eq!(path_extension("a/b.tar.gz"), Some("gz".to_string()));
    assert_eq!(path_extension("a/.hidden"), None);
    assert_eq!(path_extension("a/.hidden.rs"), Some("rs".to_string()));
    assert_eq!(path_extension("a/noext"), None);
    assert_eq!(path_extension("a/dot."), Some(String::new()));
}

#[test]
fn normalize_paths_keeps_a_few_project_files_once() {
    let edited: Vec<String> = ["/root/a.rs", "/other/b.rs", "/root/a.rs", "/root/b.rs", "/root/c.rs", "/root/d.rs", "/root/e.rs"]
        .iter()
        .map(|s| s.to_string())
        .collect();
    assert_eq!(
        normalize_paths("/root", &edited),
        vec!["a.rs".to_string(), "b.rs".to_string(), "c.rs".to_string(), "d.rs".to_string()]
    );
}

#[test]
fn compact_layer_content_keeps_first_lines() {
    assert_eq!(compact_layer_content("a\n\n  \nb\n"), "a\nb");
    let many: String = (0..13).map(|i| format!("line{i}\n")).collect();
    let expected: Vec<String> = (0..12).map(|i| format!("line{i}")).collect();
    assert_eq!(compact_layer_content(&many), format!("{}\n[...]", expected.join("\n")));
    let long = "x".repeat(800);
    assert_eq!(compact_layer_content(&long), format!("{}\n[...]", "x".repeat(700)));
}

#[test]
fn analysis_sections_name_file_and_layer() {
    let files = vec![
        FileLayers {
            rel_path: "a.rs".to_string(),
            layers: vec![
                LayerRead { layer: CodeLayer::Ast, context: Some("fn main() {}\n".to_string()) },
                LayerRead { layer: CodeLayer::CallGraph, context: None },
                LayerRead { layer: CodeLayer::Dfg, context: Some("\n\n".to_string()) },
            ],
        },
        FileLayers { rel_path: "b.rs".to_string(), layers: vec![] },
    ];
    assert_eq!(
        build_post_edit_analysis(&files),
        Some("## SmartRead Impact\n\n### a.rs [ast]\nfn main() {}".to_string())
    );
    assert_eq!(build_post_edit_analysis(&[]), None);
}

#[test]
fn analysis_is_appended_to_the_output() {
    let mut body = OutputBody::Text(String::new());
    append_post_edit_analysis(&mut body, Some("x".to_string()));
    assert!(matches!(&body, OutputBody::Text(t) if t == "x"));
    let mut body = OutputBody::Text("done".to_string());
    append_post_edit_analysis(&mut body, Some("x".to_string()));
    assert!(matches!(&body, OutputBody::Text(t) if t == "done\n\nx"));
    append_post_edit_analysis(&mut body, None);
    assert!(matches!(&body, OutputBody::Text(t) if t == "done\n\nx"));
    let mut body = OutputBody::ContentItems(vec![]);
    append_post_edit_analysis(&mut body, Some("y".to_string()));
    assert!(matches!(&body, OutputBody::ContentItems(items)
        if items.len() == 1 && matches!(&items[0], OutputContentItem::InputText { text } if text == "y")));
}
