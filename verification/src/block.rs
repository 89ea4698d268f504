//! Finalized renderable blocks and the accumulator that builds one while a
//! tagged fenced block is open in the event stream.

use crate::events::image_events;
use crate::events::image_events_of;
use crate::events::MdEvent;
use crate::normalize::normalize_id;
use crate::normalize::normalized;
use crate::strutil::dec_str;
use crate::strutil::push_char;
use crate::strutil::trim_str;
use crate::strutil::trimmed;
use crate::strutil::usize_to_string;
use vstd::prelude::*;

verus! {

/// The literal marker identifying a fenced block as renderable.
pub open spec fn trigger_prefix() -> Seq<char> {
    "dot process"@
}

/// The graph name carried by an info string: present only when a single space
/// follows the trigger prefix, and then the trimmed remainder.
pub open spec fn graph_name_of_info(info: Seq<char>) -> Seq<char> {
    if info.len() > trigger_prefix().len() && info[trigger_prefix().len() as int] == ' ' {
        trimmed(info.subrange(trigger_prefix().len() as int + 1, info.len() as int))
    } else {
        Seq::<char>::empty()
    }
}

/// The artifact base name of a block: the normalized chapter name, the
/// normalized graph name when one was given, and the zero-based block index,
/// joined by underscores, with the fixed `.generated` suffix.
pub open spec fn image_name_spec(chapter_name: Seq<char>, graph_name: Seq<char>, index: nat) -> Seq<
    char,
> {
    if graph_name.len() > 0 {
        normalized(chapter_name) + seq!['_'] + normalized(graph_name) + seq!['_'] + dec_str(index)
            + ".generated"@
    } else {
        normalized(chapter_name) + seq!['_'] + dec_str(index) + ".generated"@
    }
}

/// The spec-level image of a finalized block.
pub ghost struct BlockView {
    pub graph_name: Seq<char>,
    pub image_name: Seq<char>,
    pub code: Seq<char>,
    pub chapter_path: Seq<char>,
}

/// The file name of a block's artifact.
pub open spec fn block_file_name(b: BlockView) -> Seq<char> {
    b.image_name + ".svg"@
}

/// A finalized, renderable unit: one tagged block's trimmed source, its
/// deterministic artifact name, and the directory the artifact belongs in.
pub struct GraphvizBlock {
    pub graph_name: String,
    pub image_name: String,
    pub code: String,
    pub chapter_path: String,
}

impl View for GraphvizBlock {
    type V = BlockView;

    open spec fn view(&self) -> BlockView {
        BlockView {
            graph_name: self.graph_name@,
            image_name: self.image_name@,
            code: self.code@,
            chapter_path: self.chapter_path@,
        }
    }
}

impl GraphvizBlock {
    /// A block from its finished parts.
    pub fn new(graph_name: String, image_name: String, code: String, path: String) -> (b:
        GraphvizBlock)
        ensures
            b.graph_name == graph_name,
            b.image_name == image_name,
            b.code == code,
            b.chapter_path == path,
    {
        GraphvizBlock { graph_name, image_name, code, chapter_path: path }
    }

    /// The three tokens that replace this block in the rewritten stream: an
    /// inline image reference to the block's artifact, titled with its graph
    /// name, and a paragraph-separating blank line.
    pub fn tag_events(&self) -> (r: Vec<MdEvent>)
        ensures
            r@ == image_events_of(block_file_name(self@), self@.graph_name),
    {
        let fname = self.file_name();
        image_events(&fname, &self.graph_name)
    }

    /// The artifact file name: the base name with the `.svg` extension.
    pub fn file_name(&self) -> (r: String)
        ensures
            r@ == block_file_name(self@),
    {
        let mut r = self.image_name.clone();
        r.append(".svg");
        r
    }
}

/// Per-open-block state: collects a tagged block's source text and metadata
/// from its start event until its end event, then finalizes it into a
/// [`GraphvizBlock`]. Exactly one builder is open at a time during one node's
/// scan.
pub struct GraphvizBlockBuilder {
    pub chapter_name: String,
    pub graph_name: String,
    pub code: String,
    pub path: String,
}

impl GraphvizBlockBuilder {
    /// A fresh builder for a block opened by `info_string` in the chapter
    /// named `chapter_name`, whose artifacts belong under `path`.
    pub fn new(info_string: &str, chapter_name: &str, path: String) -> (b: GraphvizBlockBuilder)
        ensures
            b.chapter_name@ == trimmed(chapter_name@),
            b.graph_name@ == graph_name_of_info(info_string@),
            b.code@ == Seq::<char>::empty(),
            b.path == path,
    {
        let prefix = "dot process";
        let plen = prefix.unicode_len();
        let ilen = info_string.unicode_len();
        let graph_name: String = if ilen > plen && info_string.get_char(plen) == ' ' {
            let rest = info_string.substring_char(plen + 1, ilen);
            trim_str(rest)
        } else {
            String::new()
        };
        GraphvizBlockBuilder { chapter_name: trim_str(chapter_name), graph_name, code: String::new(), path }
    }

    /// Appends one text run to the accumulated source.
    pub fn append_code(&mut self, code: &str)
        ensures
            final(self).chapter_name == old(self).chapter_name,
            final(self).graph_name == old(self).graph_name,
            final(self).code@ == old(self).code@ + code@,
            final(self).path == old(self).path,
    {
        self.code.append(code);
    }

    /// Finalizes the accumulated block under the given zero-based index.
    pub fn build(&self, index: usize) -> (b: GraphvizBlock)
        ensures
            b@ == (BlockView {
                graph_name: self.graph_name@,
                image_name: image_name_spec(self.chapter_name@, self.graph_name@, index as nat),
                code: trimmed(self.code@),
                chapter_path: self.path@,
            }),
    {
        let mut name = normalize_id(self.chapter_name.as_str());
        push_char(&mut name, '_');
        if !self.graph_name.as_str().is_empty() {
            name.append(normalize_id(self.graph_name.as_str()).as_str());
            push_char(&mut name, '_');
        }
        name.append(usize_to_string(index).as_str());
        name.append(".generated");
        proof {
            if self.graph_name@.len() > 0 {
                assert(name@ =~= image_name_spec(
                    self.chapter_name@,
                    self.graph_name@,
                    index as nat,
                ));
            } else {
                assert(name@ =~= image_name_spec(
                    self.chapter_name@,
                    self.graph_name@,
                    index as nat,
                ));
            }
        }
        GraphvizBlock {
            graph_name: self.graph_name.clone(),
            image_name: name,
            code: trim_str(self.code.as_str()),
            chapter_path: self.path.clone(),
        }
    }
}

} // verus!
