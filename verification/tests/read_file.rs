use rolodex_core::read_file::GrepMatch;
use rolodex_core::read_file::IndentationArgs;
use rolodex_core::read_file::read;
use rolodex_core::read_file::read_block;
use rolodex_core::read_pipeline::HotFileScores;
use rolodex_core::read_pipeline::PipelineValue;
use rolodex_core::read_pipeline::ProtocolMapArtifact;
use rolodex_core::read_pipeline::ReadArtifact;
use rolodex_core::read_pipeline::VersionClueRecord;
use rolodex_core::read_pipeline::extract_protocol_tokens;
use rolodex_core::read_pipeline::parse_file_results;
use rolodex_core::read_pipeline::parse_match_results;
use rolodex_core::read_pipeline::render_pipeline_value;
use rolodex_core::read_pipeline::render_protocol_map_summary;
use rolodex_core::read_pipeline::render_read_artifacts;
use rolodex_core::read_pipeline::rg_error;

fn strings(v: &[&str]) -> Vec<String> {
    v.iter().map(|s| s.to_string()).collect()
}

fn options(anchor: usize, max_levels: usize, siblings: bool, header: bool) -> IndentationArgs {
    IndentationArgs {
        anchor_line: Some(anchor),
        max_levels,
        include_siblings: siblings,
        include_header: header,
        max_lines: None,
    }
}

#[test]
fn reads_requested_range() {
    let lines = read(b"alpha\nbeta\ngamma\n", 2, 2).ok().unwrap();
    assert_eq!(lines, strings(&["L2: beta", "L3: gamma"]));
}

#[test]
fn errors_when_offset_exceeds_length() {
    let err = read(b"only\n", 3, 1).err().expect("offset exceeds length");
    assert_eq!(err.to_message(), "offset exceeds file length");
}

#[test]
fn reads_non_utf8_lines() {
    let lines = read(b"\xff\xfe\nplain\n", 1, 2).ok().unwrap();
    let expected_first = format!("L1: {}{}", '\u{FFFD}', '\u{FFFD}');
    assert_eq!(lines, vec![expected_first, "L2: plain".to_string()]);
}

#[test]
fn trims_crlf_endings() {
    let lines = read(b"one\r\ntwo\r\n", 1, 2).ok().unwrap();
    assert_eq!(lines, strings(&["L1: one", "L2: two"]));
}

#[test]
fn respects_limit_even_with_more_lines() {
    let lines = read(b"first\nsecond\nthird\n", 1, 2).ok().unwrap();
    assert_eq!(lines, strings(&["L1: first", "L2: second"]));
}

#[test]
fn truncates_lines_longer_than_max_length() {
    let long_line = format!("{}\n", "x".repeat(500 + 50));
    let lines = read(long_line.as_bytes(), 1, 1).ok().unwrap();
    assert_eq!(lines, vec![format!("L1: {}", "x".repeat(500))]);
}

#[test]
fn indentation_mode_captures_block() {
    let text = "fn outer() {\n    if cond {\n        inner();\n    }\n    tail();\n}\n";
    let lines = read_block(text.as_bytes(), 3, 10, &options(3, 1, false, true)).ok().unwrap();
    assert_eq!(lines, strings(&["L2:     if cond {", "L3:         inner();", "L4:     }"]));
}

#[test]
fn indentation_mode_expands_parents() {
    let text = "mod root {\n    fn outer() {\n        if cond {\n            inner();\n        }\n    }\n}\n";
    let lines = read_block(text.as_bytes(), 4, 50, &options(4, 2, false, true)).ok().unwrap();
    assert_eq!(
        lines,
        strings(&[
            "L2:     fn outer() {",
            "L3:         if cond {",
            "L4:             inner();",
            "L5:         }",
            "L6:     }",
        ])
    );
    let expanded = read_block(text.as_bytes(), 4, 50, &options(4, 3, false, true)).ok().unwrap();
    assert_eq!(
        expanded,
        strings(&[
            "L1: mod root {",
            "L2:     fn outer() {",
            "L3:         if cond {",
            "L4:             inner();",
            "L5:         }",
            "L6:     }",
            "L7: }",
        ])
    );
}

#[test]
fn indentation_mode_respects_sibling_flag() {
    let text = "fn wrapper() {\n    if first {\n        do_first();\n    }\n    if second {\n        do_second();\n    }\n}\n";
    let lines = read_block(text.as_bytes(), 3, 50, &options(3, 1, false, true)).ok().unwrap();
    assert_eq!(lines, strings(&["L2:     if first {", "L3:         do_first();", "L4:     }"]));
    let with_siblings = read_block(text.as_bytes(), 3, 50, &options(3, 1, true, true)).ok().unwrap();
    assert_eq!(
        with_siblings,
        strings(&[
            "L2:     if first {",
            "L3:         do_first();",
            "L4:     }",
            "L5:     if second {",
            "L6:         do_second();",
            "L7:     }",
        ])
    );
}

#[test]
fn indentation_mode_handles_python_sample() {
    let text = "class Foo:\n    def __init__(self, size):\n        self.size = size\n    def double(self, value):\n        if value is None:\n            return 0\n        result = value * self.size\n        return result\nclass Bar:\n    def compute(self):\n        helper = Foo(2)\n        return helper.double(5)\n";
    let lines = read_block(text.as_bytes(), 1, 200, &options(7, 1, true, true)).ok().unwrap();
    assert_eq!(
        lines,
        strings(&[
            "L2:     def __init__(self, size):",
            "L3:         self.size = size",
            "L4:     def double(self, value):",
            "L5:         if value is None:",
            "L6:             return 0",
            "L7:         result = value * self.size",
            "L8:         return result",
        ])
    );
}

const CPP: &str = "#include <vector>\n#include <string>\n\nnamespace sample {\nclass Runner {\npublic:\n    void setup() {\n        if (enabled_) {\n            init();\n        }\n    }\n\n    // Run the code\n    int run() const {\n        switch (mode_) {\n            case Mode::Fast:\n                return fast();\n            case Mode::Slow:\n                return slow();\n            default:\n                return fallback();\n        }\n    }\n\nprivate:\n    bool enabled_ = false;\n    Mode mode_ = Mode::Fast;\n\n    int fast() const {\n        return 1;\n    }\n};\n}  // namespace sample\n";

const CPP_RUN: [&str; 10] = [
    "L14:     int run() const {",
    "L15:         switch (mode_) {",
    "L16:             case Mode::Fast:",
    "L17:                 return fast();",
    "L18:             case Mode::Slow:",
    "L19:                 return slow();",
    "L20:             default:",
    "L21:                 return fallback();",
    "L22:         }",
    "L23:     }",
];

#[test]
fn indentation_mode_handles_cpp_sample_shallow() {
    let lines = read_block(CPP.as_bytes(), 18, 200, &options(18, 1, false, true)).ok().unwrap();
    assert_eq!(lines, strings(&CPP_RUN[1..9]));
}

#[test]
fn indentation_mode_handles_cpp_sample() {
    let lines = read_block(CPP.as_bytes(), 18, 200, &options(18, 2, false, true)).ok().unwrap();
    let mut expected = vec!["L13:     // Run the code"];
    expected.extend_from_slice(&CPP_RUN);
    assert_eq!(lines, strings(&expected));
}

#[test]
fn indentation_mode_handles_cpp_sample_no_headers() {
    let lines = read_block(CPP.as_bytes(), 18, 200, &options(18, 2, false, false)).ok().unwrap();
    assert_eq!(lines, strings(&CPP_RUN));
}

#[test]
fn indentation_mode_handles_cpp_sample_siblings() {
    let lines = read_block(CPP.as_bytes(), 18, 200, &options(18, 2, true, false)).ok().unwrap();
    let mut expected = vec![
        "L7:     void setup() {",
        "L8:         if (enabled_) {",
        "L9:             init();",
        "L10:         }",
        "L11:     }",
        "L12: ",
        "L13:     // Run the code",
    ];
    expected.extend_from_slice(&CPP_RUN);
    assert_eq!(lines, strings(&expected));
}

#[test]
fn parses_ripgrep_match_results() {
    let stdout = b"/tmp/a.rs:12:fn alpha()\n/tmp/b.rs:44:let beta = 1;\n";
    let parsed = parse_match_results(stdout, 10);
    assert_eq!(parsed.len(), 2);
    assert_eq!(parsed[0].path, "/tmp/a.rs");
    assert_eq!(parsed[0].line, 12);
    assert_eq!(parsed[0].text, "fn alpha()");
    assert_eq!(parsed[1].path, "/tmp/b.rs");
    assert_eq!(parsed[1].line, 44);
}

#[test]
fn match_parsing_skips_malformed_lines_and_stops_at_the_limit() {
    let stdout = b"nocolon\n/a:x:bad\n/b:1:one:with:colons\n\n/c:2:two\n/d:3:three\n";
    let parsed = parse_match_results(stdout, 2);
    assert_eq!(parsed.len(), 2);
    assert_eq!(parsed[0].text, "one:with:colons");
    assert_eq!(parsed[1].path, "/c");
    assert_eq!(parse_match_results(stdout, 0).len(), 3);
}

#[test]
fn file_results_skip_empty_lines_and_stop_at_the_limit() {
    assert_eq!(parse_file_results(b"a\n\nb\nc\n", 2), strings(&["a", "b"]));
    assert_eq!(parse_file_results(b"a\n\xff\nb", 10), strings(&["a", "b"]));
    assert!(parse_file_results(b"a\n", 0).is_empty());
}

#[test]
fn renders_multi_artifact_output_with_headers() {
    let rendered = render_read_artifacts(&vec![
        ReadArtifact {
            path: "/tmp/a.rs".to_string(),
            label: Some("match L12".to_string()),
            lines: strings(&["L10: fn alpha() {", "L12:     beta();"]),
        },
        ReadArtifact { path: "/tmp/b.rs".to_string(), label: None, lines: strings(&["L1: let gamma = 3;"]) },
    ]);
    assert!(rendered.contains("==> /tmp/a.rs (match L12)"));
    assert!(rendered.contains("==> /tmp/b.rs"));
    assert!(rendered.contains("L12:     beta();"));
}

#[test]
fn read_sections_are_grouped_by_path_in_order() {
    let rendered = render_read_artifacts(&vec![
        ReadArtifact { path: "/b".to_string(), label: Some("one".to_string()), lines: strings(&["x"]) },
        ReadArtifact { path: "/a".to_string(), label: None, lines: strings(&["y"]) },
        ReadArtifact { path: "/b".to_string(), label: Some("two".to_string()), lines: strings(&["z"]) },
    ]);
    assert_eq!(rendered, "==> /a\ny\n\n==> /b (one)\nx\n\n==> /b (two)\nz");
    assert_eq!(render_read_artifacts(&Vec::new()), "No reads produced.");
    let single = vec![ReadArtifact { path: "/a".to_string(), label: None, lines: strings(&["1", "2"]) }];
    assert_eq!(render_read_artifacts(&single), "1\n2");
}

#[test]
fn pipeline_values_render_one_item_per_line() {
    assert_eq!(render_pipeline_value(PipelineValue::Files(Vec::new())), "No matches found.");
    assert_eq!(render_pipeline_value(PipelineValue::Files(strings(&["/a", "/b"]))), "/a\n/b");
    let m = GrepMatch { path: "/a".to_string(), line: 3, text: "hit".to_string() };
    assert_eq!(render_pipeline_value(PipelineValue::Matches(vec![m])), "/a:L3: hit");
}

#[test]
fn extracts_protocol_family_tokens_from_match_text() {
    let tokens = extract_protocol_tokens("CLTOMA_FUSE_REGISTER and MATOCL_FUSE_REPLY");
    assert_eq!(tokens, strings(&["CLTOMA_FUSE_REGISTER", "MATOCL_FUSE_REPLY"]));
    assert!(extract_protocol_tokens("TOKEN NO_TO lowerTO_x").contains(&"NO_TO".to_string()));
    assert_eq!(extract_protocol_tokens("TOKEN lowerTO_x"), Vec::<String>::new());
}

#[test]
fn hot_file_reasons_accumulate_without_duplicates() {
    let mut scores = HotFileScores { entries: Vec::new() };
    scores.record_hot_file_reason("/p.rs", 8, "protocol");
    scores.record_hot_file_reason("/p.rs", 3, "protocol");
    scores.record_hot_file_reason("/p.rs", 2, "version");
    scores.record_hot_file_reason("/q.rs", 1, "api");
    assert_eq!(scores.entries.len(), 2);
    assert_eq!(scores.entries[0].score, 13);
    assert_eq!(scores.entries[0].reasons, strings(&["protocol", "version"]));
    assert_eq!(scores.entries[1].path, "/q.rs");
}

#[test]
fn protocol_map_summary_lists_sections() {
    let artifact = ProtocolMapArtifact {
        preset: "protocol".to_string(),
        root: "/r".to_string(),
        generated_at: "now".to_string(),
        hot_files: Vec::new(),
        message_families: Vec::new(),
        version_clues: vec![VersionClueRecord { path: "/v".to_string(), line: 9, text: "version 2".to_string() }],
        evidence: Vec::new(),
    };
    let summary = render_protocol_map_summary(&artifact, &strings(&["/out/map.json"]));
    assert_eq!(
        summary,
        "protocol_map root: /r\ngenerated_at: now\nartifacts:\n- /out/map.json\nhot_files:\n- none\nmessage_families:\n- none\nversion_clues:\n- /v:L9: version 2"
    );
}

#[test]
fn rg_errors_carry_the_output() {
    assert_eq!(rg_error(b"boom").to_message(), "rg failed: boom");
}
