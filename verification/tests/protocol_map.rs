use rolodex_core::protocol_map::{
    build_protocol_hot_files, discover_message_families, discover_version_clues, protocol_map_evidence,
};
use rolodex_core::ranking::top_ranked;
use rolodex_core::read_file::GrepMatch;

fn hit(path: &str, line: usize, text: &str) -> GrepMatch {
    GrepMatch { path: path.to_string(), line, text: text.to_string() }
}

fn strings(xs: &[&str]) -> Vec<String> {
    xs.iter().map(|s| s.to_string()).collect()
}

#[test]
fn ranking_puts_higher_scores_first_and_breaks_ties_by_name() {
    let scores = vec![3, 5, 5, 1];
    let names = strings(&["c", "b", "a", "d"]);
    assert_eq!(top_ranked(&scores, &names, 2), vec![2, 1]);
    assert_eq!(top_ranked(&scores, &names, 10), vec![2, 1, 0, 3]);
    assert!(top_ranked(&scores, &names, 0).is_empty());
}

#[test]
fn hot_files_score_names_and_hits() {
    let paths = strings(&["src/protocol.rs", "src/util.rs", "docs/API.md"]);
    let families = vec![hit("src/protocol.rs", 3, "  CLTOSV_HELLO  ")];
    let versions = vec![hit("src/util.rs", 1, "version = 2")];
    let hot = build_protocol_hot_files(&paths, &families, &vec![], &versions, 2);
    assert_eq!(hot.len(), 2);
    assert_eq!(hot[0].path, "src/protocol.rs");
    assert_eq!(hot[0].score, 18);
    assert_eq!(
        hot[0].reasons,
        strings(&["filename suggests protocol spine", "contains protocol/message family identifiers: CLTOSV_HELLO"])
    );
    assert_eq!(hot[1].path, "docs/API.md");
    assert_eq!(hot[1].score, 5);

    let evidence = protocol_map_evidence(&hot);
    assert_eq!(
        evidence,
        strings(&[
            "src/protocol.rs :: filename suggests protocol spine",
            "src/protocol.rs :: contains protocol/message family identifiers: CLTOSV_HELLO",
            "docs/API.md :: filename suggests API boundary",
        ])
    );
}

#[test]
fn hot_files_keep_at_least_one_and_break_ties_by_path() {
    let paths = strings(&["b/wire.rs", "a/wire.rs"]);
    let hot = build_protocol_hot_files(&paths, &vec![], &vec![], &vec![], 0);
    assert_eq!(hot.len(), 1);
    assert_eq!(hot[0].path, "a/wire.rs");
    let repeated = vec![hit("x.rs", 1, "packet"), hit("x.rs", 2, "packet")];
    let hot = build_protocol_hot_files(&vec![], &vec![], &repeated, &vec![], 5);
    assert_eq!(hot.len(), 1);
    assert_eq!(hot[0].score, 8);
    assert_eq!(hot[0].reasons, strings(&["contains protocol terminology: packet"]));
}

#[test]
fn message_families_count_tokens() {
    let hits = vec![
        hit("a.rs", 1, "send(CLTOSV_HELLO); send(CLTOSV_BYE);"),
        hit("b.rs", 2, "recv SVTOCL_ACK"),
        hit("c.rs", 3, "CLTOSV_HELLO again"),
    ];
    let families = discover_message_families(&hits, 5);
    assert_eq!(families.len(), 2);
    assert_eq!(families[0].name, "CLTOSV");
    assert_eq!(families[0].count, 3);
    assert_eq!(families[0].examples, strings(&["CLTOSV_HELLO", "CLTOSV_BYE"]));
    assert_eq!(families[1].name, "SVTOCL");
    assert_eq!(families[1].count, 1);
}

#[test]
fn version_clues_take_the_first_hits() {
    let hits = vec![hit("a", 1, "version 1"), hit("b", 2, "fver 3"), hit("c", 3, "sequence_id")];
    let clues = discover_version_clues(&hits, 2);
    assert_eq!(clues.len(), 2);
    assert_eq!((clues[1].path.as_str(), clues[1].line, clues[1].text.as_str()), ("b", 2, "fver 3"));
    assert_eq!(discover_version_clues(&hits, 0).len(), 1);
}
