use mdbook_graphviz::block::GraphvizBlock;
use mdbook_graphviz::events::EventKind;
use mdbook_graphviz::events::MdEvent;
use mdbook_graphviz::scan::transform_events;
use mdbook_graphviz::block::GraphvizBlockBuilder;
use mdbook_graphviz::errors::GraphvizError;
use mdbook_graphviz::normalize::normalize_id;
use mdbook_graphviz::renderer::CommandLineGraphviz;
use mdbook_graphviz::renderer::SpawnDecision;
use mdbook_graphviz::strutil::trim_str;
use mdbook_graphviz::strutil::usize_to_string;

#[test]
fn normalize_lowers_maps_and_drops() {
    assert_eq!("test_chapter", normalize_id("Test Chapter"));
    assert_eq!("a_b_c", normalize_id("A b-C"));
    assert_eq!("graph_name", normalize_id("Graph Name"));
    assert_eq!("x2_y", normalize_id("X2, y!"));
    assert_eq!("", normalize_id("!!!"));
}

#[test]
fn normalize_is_idempotent_and_stays_in_its_alphabet() {
    let once = normalize_id("Mixed UP text, with-Punct_uation 42!");
    let twice = normalize_id(&once);
    assert_eq!(once, twice);
    assert!(once.chars().all(|c| c == '_' || c.is_ascii_lowercase() || c.is_ascii_digit()));
}

#[test]
fn builder_parses_graph_name_and_builds_names() {
    let b = GraphvizBlockBuilder::new("dot process Graph Name", "Test Chapter", "./".to_string());
    assert_eq!("Graph Name", b.graph_name);
    assert_eq!("Test Chapter", b.chapter_name);
    let blk = b.build(0);
    assert_eq!("test_chapter_graph_name_0.generated", blk.image_name);
    assert_eq!("test_chapter_graph_name_0.generated.svg", blk.file_name());
    assert_eq!("Graph Name", blk.graph_name);
}

#[test]
fn builder_without_name_and_code_trimming() {
    let mut b = GraphvizBlockBuilder::new("dot process", "  Test Chapter ", "./".to_string());
    assert_eq!("", b.graph_name);
    b.append_code("  digraph {\n");
    b.append_code("}  \n");
    let blk = b.build(7);
    assert_eq!("test_chapter_7.generated", blk.image_name);
    assert_eq!("digraph {\n}", blk.code);
}

#[test]
fn block_new_keeps_its_parts() {
    let blk = GraphvizBlock::new(
        "G".to_string(),
        "n_0.generated".to_string(),
        "digraph {}".to_string(),
        "./out".to_string(),
    );
    assert_eq!("G", blk.graph_name);
    assert_eq!("n_0.generated.svg", blk.file_name());
    assert_eq!("digraph {}", blk.code);
    assert_eq!("./out", blk.chapter_path);
}

#[test]
fn spawn_policy_backs_off_and_gives_up() {
    let renderer = CommandLineGraphviz;
    let mut policy = renderer.spawn_policy();
    let mut delays: Vec<u64> = Vec::new();
    loop {
        match policy.next_decision() {
            SpawnDecision::Attempt { delay_ms } => {
                delays.push(delay_ms);
                policy.record_failure();
            }
            SpawnDecision::GiveUp => break,
        }
    }
    assert_eq!(vec![10, 40, 90, 160, 250], delays);
    assert_eq!(GraphvizError::SpawnExhausted, renderer.exhausted_error());
}

#[test]
fn subprocess_outcomes_map_to_errors() {
    let renderer = CommandLineGraphviz;
    assert!(renderer.exit_outcome(true).is_ok());
    assert_eq!(Err(GraphvizError::RenderFailed), renderer.exit_outcome(false));
    assert!(renderer.stdin_outcome(true).is_ok());
    assert_eq!(Err(GraphvizError::IoFailure), renderer.stdin_outcome(false));
}

#[test]
fn error_messages_name_the_failure() {
    assert_eq!("couldn't spawn child process", GraphvizError::SpawnExhausted.message());
    assert_eq!("error response from Graphviz", GraphvizError::RenderFailed.message());
    assert_eq!("couldn't write to child process", GraphvizError::IoFailure.message());
    assert_eq!("markdown serialization failed", GraphvizError::SerializationFailed.message());
    assert_eq!("unmatched block delimiter", GraphvizError::MalformedBlock.message());
}

#[test]
fn small_string_helpers() {
    assert_eq!("abc", trim_str("  abc\n\t"));
    assert_eq!("", trim_str(" \n "));
    assert_eq!("0", usize_to_string(0));
    assert_eq!("42", usize_to_string(42));
    assert_eq!("1230", usize_to_string(1230));
}

#[test]
fn nested_block_start_is_a_malformed_block() {
    let raw = || {
        pulldown_cmark::Event::Start(pulldown_cmark::Tag::CodeBlock(
            pulldown_cmark::CodeBlockKind::Fenced("dot process".into()),
        ))
    };
    let start = |info: &str| MdEvent {
        raw: raw(),
        kind: EventKind::CodeBlockStart { info: info.to_string() },
    };
    let mut events = vec![start("dot process"), start("dot process")];
    let r = transform_events("Test Chapter", "./", &mut events);
    assert_eq!(Err(GraphvizError::MalformedBlock), r.map(|_| ()));
}
