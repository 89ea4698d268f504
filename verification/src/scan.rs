//! The event-stream transformer: a two-state scan over one node's markup
//! token stream that detects trigger-tagged blocks, accumulates their source,
//! and rewrites each finalized block into an image reference, leaving every
//! other token untouched.

use crate::block::block_file_name;
use crate::block::graph_name_of_info;
use crate::block::image_name_spec;
use crate::block::trigger_prefix;
use crate::block::BlockView;
use crate::block::GraphvizBlock;
use crate::block::GraphvizBlockBuilder;
use crate::errors::GraphvizError;
use crate::normalize::normalized;
use crate::strutil::dec_str;
use crate::events::image_events_of;
use crate::events::EventKind;
use crate::events::MdEvent;
use crate::strutil::has_prefix;
use crate::strutil::str_has_prefix;
use crate::strutil::trimmed;
use vstd::prelude::*;

verus! {

/// One item of the rewritten stream: a token passed through unchanged, or an
/// image reference spliced in for one finalized block.
pub ghost enum OutItem {
    Passthrough(MdEvent),
    ImageRef { dest: Seq<char>, title: Seq<char> },
}

/// The tokens one output item stands for.
pub open spec fn item_events(it: OutItem) -> Seq<MdEvent> {
    match it {
        OutItem::Passthrough(e) => seq![e],
        OutItem::ImageRef { dest, title } => image_events_of(dest, title),
    }
}

/// The token stream of a rewritten item sequence.
pub open spec fn items_events(items: Seq<OutItem>) -> Seq<MdEvent>
    decreases items.len(),
{
    if items.len() == 0 {
        Seq::<MdEvent>::empty()
    } else {
        items_events(items.drop_last()) + item_events(items.last())
    }
}

/// The spec image of an open block builder: what has been parsed from the
/// trigger line and accumulated so far.
pub ghost struct BuilderView {
    pub graph_name: Seq<char>,
    pub code: Seq<char>,
}

/// The state of one node's scan.
pub ghost struct ScanState {
    /// The open builder, between a trigger start event and its end event.
    pub building: Option<BuilderView>,
    /// Blocks finalized so far; the next block's zero-based index.
    pub index: nat,
    /// The rewritten stream so far.
    pub out: Seq<OutItem>,
    /// The finalized blocks, in document order.
    pub blocks: Seq<BlockView>,
    /// Whether a block delimiter violated the single-open-block protocol.
    pub malformed: bool,
}

/// The scan's initial state: outside any block.
pub open spec fn scan_init() -> ScanState {
    ScanState {
        building: None,
        index: 0,
        out: Seq::<OutItem>::empty(),
        blocks: Seq::<BlockView>::empty(),
        malformed: false,
    }
}

/// Whether an info string opens a renderable block.
pub open spec fn is_trigger_info(info: Seq<char>) -> bool {
    has_prefix(info, trigger_prefix())
}

/// Whether a token opens a renderable block.
pub open spec fn is_trigger_start(e: MdEvent) -> bool {
    e.kind matches EventKind::CodeBlockStart { info } && is_trigger_info(info@)
}

/// The block finalized from an open builder at the given index.
pub open spec fn finalized_block(
    chapter_name: Seq<char>,
    path: Seq<char>,
    b: BuilderView,
    index: nat,
) -> BlockView {
    BlockView {
        graph_name: b.graph_name,
        image_name: image_name_spec(trimmed(chapter_name), b.graph_name, index),
        code: trimmed(b.code),
        chapter_path: path,
    }
}

/// One step of the scan. Outside a block, a trigger start opens a fresh
/// builder and is suppressed, and every other token passes through. Inside a
/// block, text accumulates, the closing delimiter finalizes the block into an
/// image reference, a nested block start is a protocol violation, and any
/// other token belongs to the block and is not echoed.
pub open spec fn scan_step(
    chapter_name: Seq<char>,
    path: Seq<char>,
    st: ScanState,
    e: MdEvent,
) -> ScanState {
    if st.malformed {
        st
    } else {
        match st.building {
            Some(b) => match e.kind {
                EventKind::Text { text } => ScanState {
                    building: Some(BuilderView { graph_name: b.graph_name, code: b.code + text@ }),
                    ..st
                },
                EventKind::CodeBlockEnd => {
                    let blk = finalized_block(chapter_name, path, b, st.index);
                    ScanState {
                        building: None,
                        index: st.index + 1,
                        out: st.out.push(
                            OutItem::ImageRef { dest: block_file_name(blk), title: b.graph_name },
                        ),
                        blocks: st.blocks.push(blk),
                        malformed: false,
                    }
                },
                EventKind::CodeBlockStart { .. } => ScanState { malformed: true, ..st },
                _ => st,
            },
            None => {
                if is_trigger_start(e) {
                    ScanState {
                        building: Some(
                            BuilderView {
                                graph_name: graph_name_of_info(e.kind->CodeBlockStart_info@),
                                code: Seq::<char>::empty(),
                            },
                        ),
                        ..st
                    }
                } else {
                    ScanState { out: st.out.push(OutItem::Passthrough(e)), ..st }
                }
            },
        }
    }
}

/// The scan of a whole token stream.
pub open spec fn scan_events_spec(
    chapter_name: Seq<char>,
    path: Seq<char>,
    events: Seq<MdEvent>,
) -> ScanState
    decreases events.len(),
{
    if events.len() == 0 {
        scan_init()
    } else {
        scan_step(
            chapter_name,
            path,
            scan_events_spec(chapter_name, path, events.drop_last()),
            events.last(),
        )
    }
}

proof fn lemma_scan_malformed_stable(chapter_name: Seq<char>, path: Seq<char>, events: Seq<MdEvent>, k: int)
    requires
        0 <= k <= events.len(),
        scan_events_spec(chapter_name, path, events.take(k)).malformed,
    ensures
        scan_events_spec(chapter_name, path, events).malformed,
    decreases events.len(),
{
    if k < events.len() {
        assert(events.drop_last().take(k) =~= events.take(k));
        lemma_scan_malformed_stable(chapter_name, path, events.drop_last(), k);
    } else {
        assert(events.take(k) =~= events);
    }
}

/// Runs the block-accumulator scan over one node's token stream. On success,
/// returns the rewritten stream, with an image reference spliced in place of
/// each trigger-tagged block, and the finalized blocks in document order; a
/// block delimiter that violates the single-open-block protocol is reported
/// as a malformed block.
pub fn transform_events(chapter_name: &str, path: &str, events: &mut Vec<MdEvent>) -> (r: Result<
    (Vec<MdEvent>, Vec<GraphvizBlock>),
    GraphvizError,
>)
    ensures
        ({
            let st = scan_events_spec(chapter_name@, path@, old(events)@);
            match r {
                Ok(p) => !st.malformed && p.0@ == items_events(st.out) && p.1@.map_values(
                    |b: GraphvizBlock| b@,
                ) == st.blocks,
                Err(e) => st.malformed && e == GraphvizError::MalformedBlock,
            }
        }),
{
    let ghost all = events@;
    let n = events.len();
    proof {
        assert(all == old(events)@);
        assert(all.len() == n as nat);
    }
    let mut out: Vec<MdEvent> = Vec::new();
    let mut blocks: Vec<GraphvizBlock> = Vec::new();
    let mut builder: Option<GraphvizBlockBuilder> = None;
    let mut index: usize = 0;
    proof {
        assert(all.take(0) =~= Seq::<MdEvent>::empty());
        assert(Seq::<GraphvizBlock>::empty().map_values(|b: GraphvizBlock| b@) =~= Seq::<
            BlockView,
        >::empty());
    }
    while events.len() > 0
        invariant
            all == old(events)@,
            events@.len() <= all.len(),
            all.len() <= usize::MAX,
            events@ == all.subrange(all.len() - events@.len(), all.len() as int),
            index <= all.len() - events@.len(),
            ({
                let st = scan_events_spec(
                    chapter_name@,
                    path@,
                    all.take(all.len() - events@.len()),
                );
                &&& !st.malformed
                &&& out@ == items_events(st.out)
                &&& blocks@.map_values(|b: GraphvizBlock| b@) == st.blocks
                &&& st.index == index as nat
                &&& (match (&builder, st.building) {
                    (Some(b), Some(bv)) => b.chapter_name@ == trimmed(chapter_name@) && b.path@
                        == path@ && b.graph_name@ == bv.graph_name && b.code@ == bv.code,
                    (None, None) => true,
                    _ => false,
                })
            }),
        decreases events@.len(),
    {
        let ghost k = all.len() - events@.len();
        let ghost st_pre = scan_events_spec(chapter_name@, path@, all.take(k));
        let e = events.remove(0);
        proof {
            assert(e == all[k]);
            assert(events@ =~= all.subrange(all.len() - events@.len(), all.len() as int));
            assert(all.take(k + 1).drop_last() =~= all.take(k));
            assert(all.take(k + 1).last() == all[k]);
            assert(scan_events_spec(chapter_name@, path@, all.take(k + 1)) == scan_step(
                chapter_name@,
                path@,
                st_pre,
                e,
            ));
        }
        let cur = builder;
        builder = None;
        match cur {
            Some(mut b) => {
                match &e.kind {
                    EventKind::Text { text } => {
                        b.append_code(text.as_str());
                        builder = Some(b);
                    },
                    EventKind::CodeBlockEnd => {
                        let blk = b.build(index);
                        index = index + 1;
                        let mut tags = blk.tag_events();
                        out.append(&mut tags);
                        proof {
                            let st_post = scan_step(chapter_name@, path@, st_pre, e);
                            assert(st_post.out.drop_last() =~= st_pre.out);
                            assert(items_events(st_post.out) =~= items_events(st_pre.out)
                                + item_events(st_post.out.last()));
                        }
                        let ghost old_blocks = blocks@;
                        blocks.push(blk);
                        proof {
                            assert(blocks@.map_values(|bb: GraphvizBlock| bb@) =~= old_blocks
                                .map_values(|bb: GraphvizBlock| bb@).push(blk@));
                        }
                    },
                    EventKind::CodeBlockStart { .. } => {
                        proof {
                            assert(st_pre.building is Some);
                            assert(e.kind matches EventKind::CodeBlockStart { .. });
                            assert(scan_step(chapter_name@, path@, st_pre, e).malformed);
                            lemma_scan_malformed_stable(chapter_name@, path@, all, k + 1);
                        }
                        return Err(GraphvizError::MalformedBlock);
                    },
                    _ => {
                        builder = Some(b);
                    },
                }
            },
            None => {
                let mut trigger = false;
                match &e.kind {
                    EventKind::CodeBlockStart { info } => {
                        if str_has_prefix(info.as_str(), "dot process") {
                            trigger = true;
                            builder = Some(
                                GraphvizBlockBuilder::new(
                                    info.as_str(),
                                    chapter_name,
                                    path.to_owned(),
                                ),
                            );
                        }
                    },
                    _ => {},
                }
                if !trigger {
                    let ghost st_post = scan_step(chapter_name@, path@, st_pre, e);
                    out.push(e);
                    proof {
                        assert(st_post.out.drop_last() =~= st_pre.out);
                        assert(items_events(st_post.out) =~= items_events(st_pre.out) + seq![
                            st_post.out.last()->Passthrough_0,
                        ]);
                    }
                }
            },
        }
    }
    proof {
        assert(all.take(all.len() as int) =~= all);
    }
    Ok((out, blocks))
}


/// The image references among the rewritten items, in document order.
pub open spec fn image_refs(items: Seq<OutItem>) -> Seq<OutItem>
    decreases items.len(),
{
    if items.len() == 0 {
        Seq::<OutItem>::empty()
    } else if items.last() matches OutItem::ImageRef { .. } {
        image_refs(items.drop_last()).push(items.last())
    } else {
        image_refs(items.drop_last())
    }
}

/// The reference spliced in for a finalized block: an inline image of the
/// block's artifact file, titled with its graph name.
pub open spec fn block_ref(b: BlockView) -> OutItem {
    OutItem::ImageRef { dest: block_file_name(b), title: b.graph_name }
}

/// Law: a stream without a trigger-tagged block start passes through the scan
/// unchanged: nothing is malformed, no block is produced, and the rewritten
/// stream is exactly the input stream.
pub proof fn lemma_scan_identity_without_trigger(
    chapter_name: Seq<char>,
    path: Seq<char>,
    events: Seq<MdEvent>,
)
    requires
        forall|i: int| 0 <= i < events.len() ==> !is_trigger_start(#[trigger] events[i]),
    ensures
        !scan_events_spec(chapter_name, path, events).malformed,
        scan_events_spec(chapter_name, path, events).building is None,
        scan_events_spec(chapter_name, path, events).blocks == Seq::<BlockView>::empty(),
        items_events(scan_events_spec(chapter_name, path, events).out) == events,
    decreases events.len(),
{
    if events.len() > 0 {
        let prefix = events.drop_last();
        assert forall|i: int| 0 <= i < prefix.len() implies !is_trigger_start(
            #[trigger] prefix[i],
        ) by {
            assert(prefix[i] == events[i]);
        }
        lemma_scan_identity_without_trigger(chapter_name, path, prefix);
        let st = scan_events_spec(chapter_name, path, prefix);
        let e = events.last();
        assert(!is_trigger_start(e));
        let st2 = scan_events_spec(chapter_name, path, events);
        assert(st2 == scan_step(chapter_name, path, st, e));
        assert(st2.out.drop_last() =~= st.out);
        assert(items_events(st2.out) == items_events(st.out) + item_events(
            OutItem::Passthrough(e),
        ));
        assert(items_events(st.out) + seq![e] =~= events);
    }
}

/// Law: blocks are finalized and indexed strictly in document order: a scan
/// that produced N blocks assigned them exactly the indices 0 to N - 1, in
/// order, and each block's artifact base name is derived from its own index.
pub proof fn lemma_block_indices(chapter_name: Seq<char>, path: Seq<char>, events: Seq<MdEvent>)
    ensures
        scan_events_spec(chapter_name, path, events).index == scan_events_spec(
            chapter_name,
            path,
            events,
        ).blocks.len(),
        forall|i: int|
            0 <= i < scan_events_spec(chapter_name, path, events).blocks.len()
                ==> (#[trigger] scan_events_spec(chapter_name, path, events).blocks[i]).image_name
                == image_name_spec(
                trimmed(chapter_name),
                scan_events_spec(chapter_name, path, events).blocks[i].graph_name,
                i as nat,
            ),
    decreases events.len(),
{
    if events.len() > 0 {
        lemma_block_indices(chapter_name, path, events.drop_last());
    }
}

/// Law: the scan splices exactly one image reference per finalized block, in
/// document order: the references among the rewritten items are exactly the
/// blocks' references, each naming the block's artifact file and titled with
/// the block's graph name.
pub proof fn lemma_refs_match_blocks(chapter_name: Seq<char>, path: Seq<char>, events: Seq<MdEvent>)
    ensures
        image_refs(scan_events_spec(chapter_name, path, events).out) == scan_events_spec(
            chapter_name,
            path,
            events,
        ).blocks.map_values(|b: BlockView| block_ref(b)),
    decreases events.len(),
{
    let f = |b: BlockView| block_ref(b);
    if events.len() == 0 {
        assert(image_refs(scan_init().out) =~= scan_init().blocks.map_values(f));
    } else {
        lemma_refs_match_blocks(chapter_name, path, events.drop_last());
        let st = scan_events_spec(chapter_name, path, events.drop_last());
        let e = events.last();
        let st2 = scan_events_spec(chapter_name, path, events);
        assert(st2 == scan_step(chapter_name, path, st, e));
        if st2.out != st.out {
            assert(st2.out.drop_last() =~= st.out);
            if st2.out.last() matches OutItem::ImageRef { .. } {
                assert(st2.blocks.drop_last() =~= st.blocks);
                assert(st2.blocks.map_values(f) =~= st.blocks.map_values(f).push(
                    f(st2.blocks.last()),
                ));
            } else {
                assert(st2.blocks =~= st.blocks);
            }
        } else {
            assert(st2.blocks == st.blocks);
        }
    }
}

/// Law: two different blocks of one scan that share a graph name still get
/// distinct artifact base names, because each name carries the block's own
/// index.
pub proof fn lemma_block_names_distinct(
    chapter_name: Seq<char>,
    path: Seq<char>,
    events: Seq<MdEvent>,
)
    ensures
        forall|i: int, j: int|
            0 <= i < j < scan_events_spec(chapter_name, path, events).blocks.len()
                && (#[trigger] scan_events_spec(chapter_name, path, events).blocks[i]).graph_name
                == (#[trigger] scan_events_spec(chapter_name, path, events).blocks[j]).graph_name
                ==> scan_events_spec(chapter_name, path, events).blocks[i].image_name
                != scan_events_spec(chapter_name, path, events).blocks[j].image_name,
{
    lemma_block_indices(chapter_name, path, events);
    let blocks = scan_events_spec(chapter_name, path, events).blocks;
    assert forall|i: int, j: int|
        0 <= i < j < blocks.len() && (#[trigger] blocks[i]).graph_name
            == (#[trigger] blocks[j]).graph_name implies blocks[i].image_name
        != blocks[j].image_name by {
        let g = blocks[i].graph_name;
        let n = trimmed(chapter_name);
        let di = dec_str(i as nat);
        let dj = dec_str(j as nat);
        let tail = ".generated"@;
        let head = if g.len() > 0 {
            normalized(n) + seq!['_'] + normalized(g) + seq!['_']
        } else {
            normalized(n) + seq!['_']
        };
        assert(blocks[i].image_name == head + di + tail);
        assert(blocks[j].image_name == head + dj + tail);
        if blocks[i].image_name == blocks[j].image_name {
            assert(di.len() == dj.len());
            assert forall|k: int| 0 <= k < di.len() implies di[k] == dj[k] by {
                assert((head + di + tail)[head.len() + k] == di[k]);
                assert((head + dj + tail)[head.len() + k] == dj[k]);
            }
            assert(di =~= dj);
            crate::strutil::lemma_dec_str_injective(i as nat, j as nat);
        }
    }
}

} // verus!
