//! The document tree walker: transforms one node's content through the
//! event-stream scan, recurses into its children, and reassembles the tree,
//! preserving identity, order and structure. Non-content entries pass through
//! unchanged.

use crate::block::BlockView;
use crate::block::GraphvizBlock;
use crate::errors::GraphvizError;
use crate::events::cmark_of;
use crate::events::md_events_of;
use crate::events::parse_events;
use crate::events::serialize_events;
use crate::scan::items_events;
use crate::scan::scan_events_spec;
use crate::scan::transform_events;
use vstd::prelude::*;

verus! {

/// A content-bearing node of the document tree: its display name, the
/// directory its artifacts belong in, its raw markup content, and its ordered
/// children.
pub struct DocChapter {
    pub name: String,
    pub dir: String,
    pub content: String,
    pub sub_items: Vec<BookNode>,
}

/// One entry of the document tree: a chapter, or a structural entry that the
/// transformation passes through unchanged.
pub enum BookNode {
    Chapter(DocChapter),
    Separator,
    PartTitle(String),
}

/// The spec image of a chapter.
pub ghost struct ChapterView {
    pub name: Seq<char>,
    pub dir: Seq<char>,
    pub content: Seq<char>,
    pub sub_items: Seq<NodeView>,
}

/// The spec image of a tree entry.
pub ghost enum NodeView {
    Chapter(ChapterView),
    Separator,
    PartTitle(Seq<char>),
}

/// The spec image of a tree entry.
pub open spec fn node_view(n: BookNode) -> NodeView
    decreases n,
{
    match n {
        BookNode::Chapter(c) => NodeView::Chapter(chapter_view(c)),
        BookNode::Separator => NodeView::Separator,
        BookNode::PartTitle(t) => NodeView::PartTitle(t@),
    }
}

/// The spec images of sibling entries, in order.
pub open spec fn nodes_view(s: Seq<BookNode>) -> Seq<NodeView>
    decreases s,
{
    if s.len() == 0 {
        Seq::<NodeView>::empty()
    } else {
        nodes_view(s.drop_last()).push(node_view(s.last()))
    }
}

/// The spec image of a chapter.
pub open spec fn chapter_view(c: DocChapter) -> ChapterView
    decreases c,
{
    ChapterView {
        name: c.name@,
        dir: c.dir@,
        content: c.content@,
        sub_items: nodes_view(c.sub_items@),
    }
}

/// The image of a sibling sequence is the entries' images, elementwise.
pub proof fn lemma_nodes_view_index(s: Seq<BookNode>)
    ensures
        nodes_view(s).len() == s.len(),
        forall|i: int| 0 <= i < s.len() ==> nodes_view(s)[i] == node_view(#[trigger] s[i]),
    decreases s.len(),
{
    if s.len() > 0 {
        lemma_nodes_view_index(s.drop_last());
        assert forall|i: int| 0 <= i < s.len() implies nodes_view(s)[i] == node_view(
            #[trigger] s[i],
        ) by {
            if i < s.len() - 1 {
                assert(nodes_view(s)[i] == nodes_view(s.drop_last())[i]);
                assert(s.drop_last()[i] == s[i]);
            } else {
                assert(nodes_view(s)[i] == node_view(s.last()));
            }
        }
    }
}

/// What transforming one node's content yields: the scan of its token stream,
/// re-serialized, together with the finalized blocks; a malformed block or a
/// serialization failure is reported as the matching error.
pub open spec fn content_result(name: Seq<char>, dir: Seq<char>, content: Seq<char>) -> Result<
    (Seq<char>, Seq<BlockView>),
    GraphvizError,
> {
    let st = scan_events_spec(name, dir, md_events_of(content));
    if st.malformed {
        Err(GraphvizError::MalformedBlock)
    } else {
        match cmark_of(items_events(st.out)) {
            Some(s) => Ok((s, st.blocks)),
            None => Err(GraphvizError::SerializationFailed),
        }
    }
}

/// Transforms one node's raw content: tokenizes it, runs the block scan, and
/// re-serializes the rewritten stream. On success returns the new content and
/// the blocks awaiting rendering, in document order.
pub fn process_content(name: &str, dir: &str, content: &str) -> (r: Result<
    (String, Vec<GraphvizBlock>),
    GraphvizError,
>)
    ensures
        ({
            let cr = content_result(name@, dir@, content@);
            match r {
                Ok(p) => cr matches Ok(q) && q.0 == p.0@ && q.1 == p.1@.map_values(
                    |b: GraphvizBlock| b@,
                ),
                Err(e) => cr matches Err(e2) && e == e2,
            }
        }),
{
    let mut events = parse_events(content);
    match transform_events(name, dir, &mut events) {
        Ok(p) => {
            let (out, blocks) = p;
            match serialize_events(&out) {
                Some(s) => Ok((s, blocks)),
                None => Err(GraphvizError::SerializationFailed),
            }
        },
        Err(e) => Err(e),
    }
}

/// What walking one tree entry yields: the transformed entry and its blocks,
/// or the first error in document order. A chapter's own content is
/// transformed before its children are visited; its blocks come before
/// theirs.
pub open spec fn walk_node(n: NodeView) -> Result<(NodeView, Seq<BlockView>), GraphvizError>
    decreases n,
{
    match n {
        NodeView::Chapter(c) => match content_result(c.name, c.dir, c.content) {
            Ok(p) => match walk_nodes(c.sub_items) {
                Ok(q) => Ok(
                    (
                        NodeView::Chapter(
                            ChapterView {
                                name: c.name,
                                dir: c.dir,
                                content: p.0,
                                sub_items: q.0,
                            },
                        ),
                        p.1 + q.1,
                    ),
                ),
                Err(e) => Err(e),
            },
            Err(e) => Err(e),
        },
        _ => Ok((n, Seq::<BlockView>::empty())),
    }
}

/// What walking a sequence of sibling entries yields, preserving their order.
pub open spec fn walk_nodes(s: Seq<NodeView>) -> Result<
    (Seq<NodeView>, Seq<BlockView>),
    GraphvizError,
>
    decreases s,
{
    if s.len() == 0 {
        Ok((Seq::<NodeView>::empty(), Seq::<BlockView>::empty()))
    } else {
        match walk_nodes(s.drop_last()) {
            Ok(p) => match walk_node(s.last()) {
                Ok(q) => Ok((p.0.push(q.0), p.1 + q.1)),
                Err(e) => Err(e),
            },
            Err(e) => Err(e),
        }
    }
}

/// Transforms one tree entry: a chapter's content is rewritten, then its
/// children, in order; structural entries pass through unchanged. Returns the
/// reassembled entry and every block awaiting rendering, in document order,
/// or the first error.
pub fn process_node(n: &BookNode) -> (r: Result<(BookNode, Vec<GraphvizBlock>), GraphvizError>)
    ensures
        ({
            let w = walk_node(node_view(*n));
            match r {
                Ok(p) => w matches Ok(q) && node_view(p.0) == q.0 && p.1@.map_values(
                    |b: GraphvizBlock| b@,
                ) == q.1,
                Err(e) => w matches Err(e2) && e == e2,
            }
        }),
    decreases *n,
{
    match n {
        BookNode::Separator => {
            let empty: Vec<GraphvizBlock> = Vec::new();
            proof {
                assert(empty@.map_values(|b: GraphvizBlock| b@) =~= Seq::<BlockView>::empty());
            }
            Ok((BookNode::Separator, empty))
        },
        BookNode::PartTitle(t) => {
            let empty: Vec<GraphvizBlock> = Vec::new();
            proof {
                assert(empty@.map_values(|b: GraphvizBlock| b@) =~= Seq::<BlockView>::empty());
            }
            Ok((BookNode::PartTitle(t.clone()), empty))
        },
        BookNode::Chapter(c) => {
            match process_content(c.name.as_str(), c.dir.as_str(), c.content.as_str()) {
                Err(e) => Err(e),
                Ok(own) => {
                    let (new_content, mut blocks) = own;
                    let ghost own_views = blocks@.map_values(|b: GraphvizBlock| b@);
                    let ghost views = chapter_view(*c).sub_items;
                    let mut new_subs: Vec<BookNode> = Vec::new();
                    let mut i: usize = 0;
                    proof {
                        lemma_nodes_view_index(c.sub_items@);
                        assert(views.take(0) =~= Seq::<NodeView>::empty());
                        assert(new_subs@.map_values(|m: BookNode| node_view(m)) =~= Seq::<
                            NodeView,
                        >::empty());
                        assert(own_views + Seq::<BlockView>::empty() =~= own_views);
                    }
                    while i < c.sub_items.len()
                        invariant
                            i <= c.sub_items@.len(),
                            *n == BookNode::Chapter(*c),
                            views == chapter_view(*c).sub_items,
                            views.len() == c.sub_items@.len(),
                            own_views == content_result(c.name@, c.dir@, c.content@)->Ok_0.1,
                            content_result(c.name@, c.dir@, c.content@) is Ok,
                            walk_nodes(views.take(i as int)) matches Ok(p) && p.0 == new_subs@
                                .map_values(|m: BookNode| node_view(m)) && own_views + p.1
                                == blocks@.map_values(|b: GraphvizBlock| b@),
                        decreases c.sub_items@.len() - i,
                    {
                        let child = &c.sub_items[i];
                        proof {
                            assert(*child == c.sub_items@[i as int]);
                            assert(*c == n->Chapter_0);
                            assert(decreases_to!(*n => n->Chapter_0));
                            assert(decreases_to!(*c => c.sub_items));
                            assert(decreases_to!(c.sub_items => c.sub_items@));
                            assert(decreases_to!(c.sub_items@ => c.sub_items@[i as int]));
                            assert(decreases_to!(*n => *child));
                        }
                        let sub = process_node(child);
                        match sub {
                            Err(e) => {
                                proof {
                                    lemma_nodes_view_index(c.sub_items@);
                                    let j = i as int;
                                    assert(views.take(j + 1).drop_last() =~= views.take(j));
                                    assert(views.take(j + 1).last() == node_view(
                                        c.sub_items@[j],
                                    ));
                                    lemma_walk_nodes_error_stable(views, j + 1);
                                }
                                return Err(e);
                            },
                            Ok(sp) => {
                                let (m, mut bs) = sp;
                                let ghost bs_views = bs@.map_values(|b: GraphvizBlock| b@);
                                let ghost prev_subs = new_subs@;
                                let ghost prev_blocks = blocks@;
                                new_subs.push(m);
                                blocks.append(&mut bs);
                                proof {
                                    lemma_nodes_view_index(c.sub_items@);
                                    let j = i as int;
                                    assert(views.take(j + 1).drop_last() =~= views.take(j));
                                    assert(views.take(j + 1).last() == node_view(
                                        c.sub_items@[j],
                                    ));
                                    assert(new_subs@.map_values(|mm: BookNode| node_view(mm))
                                        =~= prev_subs.map_values(|mm: BookNode| node_view(mm)).push(
                                        node_view(m),
                                    ));
                                    assert(blocks@.map_values(|b: GraphvizBlock| b@)
                                        =~= prev_blocks.map_values(|b: GraphvizBlock| b@)
                                        + bs_views);
                                    assert(own_views + (walk_nodes(views.take(j))->Ok_0.1 + walk_node(
                                        views.take(j + 1).last(),
                                    )->Ok_0.1) =~= (own_views + walk_nodes(views.take(j))->Ok_0.1)
                                        + walk_node(views.take(j + 1).last())->Ok_0.1);
                                }
                            },
                        }
                        i = i + 1;
                    }
                    proof {
                        lemma_nodes_view_index(c.sub_items@);
                        assert(views.take(c.sub_items@.len() as int) =~= views);
                    }
                    let out = DocChapter {
                        name: c.name.clone(),
                        dir: c.dir.clone(),
                        content: new_content,
                        sub_items: new_subs,
                    };
                    proof {
                        lemma_nodes_view_index(new_subs@);
                        assert(chapter_view(out).sub_items =~= new_subs@.map_values(
                            |m: BookNode| node_view(m),
                        ));
                    }
                    Ok((BookNode::Chapter(out), blocks))
                },
            }
        },
    }
}

proof fn lemma_walk_nodes_error_stable(s: Seq<NodeView>, k: int)
    requires
        0 <= k <= s.len(),
        walk_nodes(s.take(k)) is Err,
    ensures
        walk_nodes(s) is Err,
        walk_nodes(s)->Err_0 == walk_nodes(s.take(k))->Err_0,
    decreases s.len(),
{
    if k < s.len() {
        assert(s.drop_last().take(k) =~= s.take(k));
        lemma_walk_nodes_error_stable(s.drop_last(), k);
    } else {
        assert(s.take(k) =~= s);
    }
}

/// Transforms a whole document tree: every root entry and its descendants, in
/// order. Returns the reassembled roots and every block awaiting rendering,
/// in document order, or the first error, in which case no tree is returned.
pub fn process_book(sections: &Vec<BookNode>) -> (r: Result<
    (Vec<BookNode>, Vec<GraphvizBlock>),
    GraphvizError,
>)
    ensures
        ({
            let w = walk_nodes(sections@.map_values(|n: BookNode| node_view(n)));
            match r {
                Ok(p) => w matches Ok(q) && q.0 == p.0@.map_values(|n: BookNode| node_view(n))
                    && q.1 == p.1@.map_values(|b: GraphvizBlock| b@),
                Err(e) => w matches Err(e2) && e == e2,
            }
        }),
{
    let ghost views = sections@.map_values(|n: BookNode| node_view(n));
    let mut out: Vec<BookNode> = Vec::new();
    let mut blocks: Vec<GraphvizBlock> = Vec::new();
    let mut i: usize = 0;
    proof {
        assert(views.take(0) =~= Seq::<NodeView>::empty());
        assert(out@.map_values(|n: BookNode| node_view(n)) =~= Seq::<NodeView>::empty());
        assert(blocks@.map_values(|b: GraphvizBlock| b@) =~= Seq::<BlockView>::empty());
    }
    while i < sections.len()
        invariant
            i <= sections@.len(),
            views == sections@.map_values(|n: BookNode| node_view(n)),
            views.len() == sections@.len(),
            walk_nodes(views.take(i as int)) matches Ok(p) && p.0 == out@.map_values(
                |n: BookNode| node_view(n),
            ) && p.1 == blocks@.map_values(|b: GraphvizBlock| b@),
        decreases sections@.len() - i,
    {
        let child = &sections[i];
        let sub = process_node(child);
        match sub {
            Err(e) => {
                proof {
                    let j = i as int;
                    assert(views.take(j + 1).drop_last() =~= views.take(j));
                    assert(views.take(j + 1).last() == node_view(sections@[j]));
                    lemma_walk_nodes_error_stable(views, j + 1);
                }
                return Err(e);
            },
            Ok(sp) => {
                let (m, mut bs) = sp;
                let ghost bs_views = bs@.map_values(|b: GraphvizBlock| b@);
                let ghost prev_out = out@;
                let ghost prev_blocks = blocks@;
                out.push(m);
                blocks.append(&mut bs);
                proof {
                    let j = i as int;
                    assert(views.take(j + 1).drop_last() =~= views.take(j));
                    assert(views.take(j + 1).last() == node_view(sections@[j]));
                    assert(out@.map_values(|n: BookNode| node_view(n)) =~= prev_out.map_values(
                        |n: BookNode| node_view(n),
                    ).push(node_view(m)));
                    assert(blocks@.map_values(|b: GraphvizBlock| b@) =~= prev_blocks.map_values(
                        |b: GraphvizBlock| b@,
                    ) + bs_views);
                }
            },
        }
        i = i + 1;
    }
    proof {
        assert(views.take(sections@.len() as int) =~= views);
    }
    Ok((out, blocks))
}

} // verus!
