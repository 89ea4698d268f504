use mdbook_graphviz::chapter::process_book;
use mdbook_graphviz::chapter::process_node;
use mdbook_graphviz::chapter::BookNode;
use mdbook_graphviz::chapter::DocChapter;
use mdbook_graphviz::block::GraphvizBlock;
use mdbook_graphviz::errors::GraphvizError;

fn new_chapter(content: &str) -> DocChapter {
    DocChapter {
        name: "Test Chapter".to_string(),
        dir: "./".to_string(),
        content: content.to_string(),
        sub_items: Vec::new(),
    }
}

fn process_chapter_full(content: &str) -> Result<(String, Vec<GraphvizBlock>), GraphvizError> {
    let node = BookNode::Chapter(new_chapter(content));
    match process_node(&node)? {
        (BookNode::Chapter(c), blocks) => Ok((c.content, blocks)),
        _ => panic!("a chapter stayed a chapter"),
    }
}

fn process_chapter(content: &str) -> Result<String, GraphvizError> {
    Ok(process_chapter_full(content)?.0)
}

#[test]
fn only_preprocess_flagged_blocks() {
    let expected = r#"# Chapter

````dot
digraph Test {
    a -> b
}
````"#;

    assert_eq!(expected, process_chapter(expected).unwrap());
}

#[test]
fn no_name() {
    let content = r#"# Chapter
```dot process
digraph Test {
    a -> b
}
```
"#;

    let expected = format!(
        r#"# Chapter

![]({}_0.generated.svg)

"#,
        "test_chapter"
    );

    assert_eq!(expected, process_chapter(content).unwrap());
}

#[test]
fn named_blocks() {
    let content = r#"# Chapter
```dot process Graph Name
digraph Test {
    a -> b
}
```
"#;

    let expected = format!(
        r#"# Chapter

![]({}_graph_name_0.generated.svg "Graph Name")

"#,
        "test_chapter"
    );

    assert_eq!(expected, process_chapter(content).unwrap());
}

#[test]
fn multiple_blocks() {
    let content = r#"# Chapter
```dot process Graph Name
digraph Test {
    a -> b
}
```

```dot process Graph Name
digraph Test {
    a -> b
}
```

```dot process Graph Name
digraph Test {
    a -> b
}
```
"#;

    let expected = format!(
        r#"# Chapter

![]({}_graph_name_0.generated.svg "Graph Name")

![]({}_graph_name_1.generated.svg "Graph Name")

![]({}_graph_name_2.generated.svg "Graph Name")

"#,
        "test_chapter", "test_chapter", "test_chapter"
    );

    assert_eq!(expected, process_chapter(content).unwrap());
}

#[test]
fn single_block_renders_once_with_trimmed_body() {
    let content = "```dot process\ndigraph Test { a -> b }\n```\n";
    let (out, blocks) = process_chapter_full(content).unwrap();
    assert!(out.contains("![](test_chapter_0.generated.svg)\n\n"));
    assert_eq!(1, blocks.len());
    assert_eq!("digraph Test { a -> b }", blocks[0].code);
    assert_eq!("test_chapter_0.generated", blocks[0].image_name);
    assert_eq!("test_chapter_0.generated.svg", blocks[0].file_name());
    assert_eq!("", blocks[0].graph_name);
    assert_eq!("./", blocks[0].chapter_path);
}

#[test]
fn three_same_named_blocks_get_distinct_files_in_order() {
    let content = "```dot process G\na\n```\n\n```dot process G\nb\n```\n\n```dot process G\nc\n```\n";
    let (_, blocks) = process_chapter_full(content).unwrap();
    assert_eq!(3, blocks.len());
    assert_eq!("test_chapter_g_0.generated", blocks[0].image_name);
    assert_eq!("test_chapter_g_1.generated", blocks[1].image_name);
    assert_eq!("test_chapter_g_2.generated", blocks[2].image_name);
    assert_eq!("a", blocks[0].code);
    assert_eq!("b", blocks[1].code);
    assert_eq!("c", blocks[2].code);
}

#[test]
fn sub_chapters_are_transformed_and_order_kept() {
    let child = DocChapter {
        name: "Child".to_string(),
        dir: "./sub".to_string(),
        content: "```dot process\nx\n```\n".to_string(),
        sub_items: Vec::new(),
    };
    let root = DocChapter {
        name: "Test Chapter".to_string(),
        dir: "./".to_string(),
        content: "```dot process\ny\n```\n".to_string(),
        sub_items: vec![
            BookNode::Separator,
            BookNode::Chapter(child),
            BookNode::PartTitle("Part".to_string()),
        ],
    };
    let (node, blocks) = process_node(&BookNode::Chapter(root)).unwrap();
    match node {
        BookNode::Chapter(c) => {
            assert_eq!("Test Chapter", c.name);
            assert!(c.content.contains("![](test_chapter_0.generated.svg)"));
            assert_eq!(3, c.sub_items.len());
            assert!(matches!(c.sub_items[0], BookNode::Separator));
            match &c.sub_items[1] {
                BookNode::Chapter(sub) => {
                    assert_eq!("Child", sub.name);
                    assert!(sub.content.contains("![](child_0.generated.svg)"));
                }
                _ => panic!("child kept its place"),
            }
            match &c.sub_items[2] {
                BookNode::PartTitle(t) => assert_eq!("Part", t),
                _ => panic!("part title kept its place"),
            }
        }
        _ => panic!("a chapter stayed a chapter"),
    }
    assert_eq!(2, blocks.len());
    assert_eq!("y", blocks[0].code);
    assert_eq!("./", blocks[0].chapter_path);
    assert_eq!("x", blocks[1].code);
    assert_eq!("./sub", blocks[1].chapter_path);
}

#[test]
fn non_chapter_entries_pass_through() {
    let sections = vec![BookNode::Separator, BookNode::PartTitle("Intro".to_string())];
    let (out, blocks) = process_book(&sections).unwrap();
    assert_eq!(2, out.len());
    assert!(matches!(out[0], BookNode::Separator));
    assert!(matches!(&out[1], BookNode::PartTitle(t) if t == "Intro"));
    assert!(blocks.is_empty());
}

#[test]
fn untagged_dot_block_is_not_rendered() {
    let content = "```dot\ndigraph Test { a -> b }\n```\n";
    let (_, blocks) = process_chapter_full(content).unwrap();
    assert!(blocks.is_empty());
}
