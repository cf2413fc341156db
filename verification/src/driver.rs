//! The reduction driver: runs the four passes in their fixed order.
//!
//! Item pruning first, then derive stripping, then doc stripping, and block
//! clearing last: the early passes delete whole structural units and make
//! the later ones cheaper, while block clearing destroys the most value and
//! so comes last.  Each pass runs once to its own fixed point.
//!
//! The driver owns the tree.  `propose` applies the next candidate mutation
//! and hands out the serialized tree for one oracle query; `report` takes
//! the verdict back.  Only when the verdict was an acceptance does `report`
//! hand out a snapshot to persist, and that snapshot is exactly the text
//! that was queried: nothing is ever persisted that the oracle did not
//! accept.

use vstd::prelude::*;

use crate::ast::SourceFile;
use crate::ast::SourceFileV;
use crate::ast::has_doc_v;
use crate::attrs::attr_lists_file;
use crate::blocks::BlockPass;
use crate::derives::DerivePass;
use crate::derives::remove_flat;
use crate::doc::DocPass;
use crate::prune::PrunePass;
use crate::prune::prune_file_v;
use crate::render::render_file;
use crate::render::render_file_v;

verus! {

enum Phase {
    Pruning,
    Derives,
    Docs,
    Blocks,
    Finished,
}

/// One whole reduction over a tree, pass by pass.
pub struct Reduction {
    tree: SourceFile,
    phase: Phase,
    prune: PrunePass,
    derives: DerivePass,
    docs: DocPass,
    blocks: BlockPass,
    last_query: Ghost<Seq<char>>,
    pruned_at: Ghost<SourceFileV>,
    derived_at: Ghost<SourceFileV>,
    docs_at: Ghost<SourceFileV>,
}

impl Reduction {
    /// The tree in its current state.
    pub closed spec fn tree_view(&self) -> SourceFileV {
        self.tree@
    }

    /// Whether a proposed mutation awaits its verdict.
    pub closed spec fn pending(&self) -> bool {
        match self.phase {
            Phase::Pruning => self.prune.pending(),
            Phase::Derives => self.derives.pending(),
            Phase::Docs => self.docs.pending(),
            Phase::Blocks => self.blocks.pending(),
            Phase::Finished => false,
        }
    }

    /// Whether every pass has finished.
    pub closed spec fn finished(&self) -> bool {
        self.phase is Finished
    }

    /// The text of the pending oracle query.
    pub closed spec fn last_query_spec(&self) -> Seq<char> {
        self.last_query@
    }

    /// The tree before the pending mutation.
    pub closed spec fn saved(&self) -> SourceFileV {
        match self.phase {
            Phase::Pruning => self.prune.saved(),
            Phase::Derives => self.derives.saved(),
            Phase::Docs => self.docs.saved(),
            Phase::Blocks => self.blocks.saved(),
            Phase::Finished => self.tree@,
        }
    }

    /// The tree as it stood when the pruning pass finished.
    pub closed spec fn pruned_tree(&self) -> SourceFileV {
        self.pruned_at@
    }

    /// The tree as it stood when the derive pass finished.
    pub closed spec fn derived_tree(&self) -> SourceFileV {
        self.derived_at@
    }

    /// The tree as it stood when the doc pass finished.
    pub closed spec fn docs_tree(&self) -> SourceFileV {
        self.docs_at@
    }

    /// When the pruning pass finished, no deletable slot remained at its
    /// last position, nor at the head of the next level.
    pub closed spec fn pruning_exhausted(&self) -> bool {
        &&& prune_file_v(
            self.pruned_at@,
            self.prune.spec_level(),
            self.prune.spec_index(),
        ) is None
        &&& (self.prune.spec_index() > 0 && self.prune.spec_level() < usize::MAX ==> prune_file_v(
            self.pruned_at@,
            self.prune.spec_level() + 1,
            0,
        ) is None)
    }

    /// When the derive pass finished, no derived name was left at or past
    /// its flat index.
    pub closed spec fn derives_exhausted(&self) -> bool {
        attr_lists_file(self.derived_at@).len() <= usize::MAX ==> remove_flat(
            attr_lists_file(self.derived_at@),
            self.derives.index_spec(),
        ) is Err
    }

    /// When the doc pass finished, no container at or past its target still
    /// carried a `doc` attribute.
    pub closed spec fn docs_exhausted(&self) -> bool {
        attr_lists_file(self.docs_at@).len() <= usize::MAX ==> forall|j: int|
            self.docs.target_spec() <= j < attr_lists_file(self.docs_at@).len() ==> !has_doc_v(
                #[trigger] attr_lists_file(self.docs_at@)[j],
            )
    }

    /// After the block-clearing pass has finished, every block of the tree
    /// is the placeholder, or a block whose clearing the oracle rejected.
    /// (The guard against trees with more blocks than `usize` can count
    /// mirrors the pass's own.)
    pub closed spec fn fully_cleared(&self) -> bool {
        crate::blocks::blocks_in_file(self.tree@).len() <= usize::MAX ==> forall|j: int|
            0 <= j < crate::blocks::blocks_in_file(self.tree@).len()
                ==> crate::ast::is_placeholder_v(
                #[trigger] crate::blocks::blocks_in_file(self.tree@)[j],
            ) || self.blocks.rejected_set().contains(j as nat)
    }

    /// Internal consistency.
    pub closed spec fn wf(&self) -> bool {
        &&& self.derives.wf()
        &&& self.docs.wf()
        &&& self.blocks.wf()
        &&& (match self.phase {
            Phase::Pruning | Phase::Derives | Phase::Docs => (forall|t: SourceFileV|
                self.blocks.cleared_up_to(t)) && !self.blocks.finished(),
            Phase::Blocks => (!self.blocks.pending() ==> self.blocks.cleared_up_to(self.tree@))
                && !self.blocks.finished(),
            Phase::Finished => self.fully_cleared(),
        })
        &&& (match self.phase {
            Phase::Pruning => !self.prune.finished() && !self.derives.finished()
                && !self.docs.finished(),
            Phase::Derives => self.pruning_exhausted() && !self.derives.finished()
                && !self.docs.finished(),
            Phase::Docs => self.pruning_exhausted() && self.derives_exhausted()
                && !self.docs.finished(),
            Phase::Blocks => self.pruning_exhausted() && self.derives_exhausted()
                && self.docs_exhausted(),
            Phase::Finished => self.pruning_exhausted() && self.derives_exhausted()
                && self.docs_exhausted(),
        })
        &&& (match self.phase {
            Phase::Pruning => !self.derives.pending() && !self.docs.pending()
                && !self.blocks.pending(),
            Phase::Derives => !self.prune.pending() && !self.docs.pending()
                && !self.blocks.pending() && (self.derives.pending() ==> self.tree@
                == self.derives.mutated()),
            Phase::Docs => !self.prune.pending() && !self.derives.pending()
                && !self.blocks.pending() && (self.docs.pending() ==> self.tree@
                == self.docs.mutated()),
            Phase::Blocks => !self.prune.pending() && !self.derives.pending()
                && !self.docs.pending() && (self.blocks.pending() ==> self.tree@
                == self.blocks.mutated()),
            Phase::Finished => !self.prune.pending() && !self.derives.pending()
                && !self.docs.pending() && !self.blocks.pending(),
        })
        &&& (self.pending() ==> self.last_query@ == render_file_v(self.tree@))
    }

    /// Starts a reduction over a freshly parsed tree.
    pub fn new(tree: SourceFile) -> (r: Self)
        ensures
            r.wf(),
            !r.pending(),
            !r.finished(),
            r.tree_view() == tree@,
    {
        Reduction {
            tree,
            phase: Phase::Pruning,
            prune: PrunePass::new(),
            derives: DerivePass::new(),
            docs: DocPass::new(),
            blocks: BlockPass::new(),
            last_query: Ghost(Seq::empty()),
            pruned_at: Ghost(arbitrary()),
            derived_at: Ghost(arbitrary()),
            docs_at: Ghost(arbitrary()),
        }
    }

    /// The serialized tree in its current state.
    pub fn current_text(&self) -> (r: String)
        ensures
            r@ == render_file_v(self.tree_view()),
    {
        render_file(&self.tree)
    }

    /// Gives the tree up, ending the reduction.
    pub fn into_tree(self) -> (r: SourceFile)
        ensures
            r@ == self.tree_view(),
    {
        self.tree
    }

    fn render_query(&mut self) -> (r: String)
        ensures
            r@ == render_file_v(old(self).tree_view()),
            *final(self) == (Reduction { last_query: Ghost(r@), ..*old(self) }),
    {
        let s = render_file(&self.tree);
        self.last_query = Ghost(s@);
        s
    }

    /// Applies the next candidate mutation and returns the serialized
    /// mutated tree, to be put to the oracle; the verdict goes back through
    /// `report`.  Returns `None` when every pass has finished; the tree is
    /// then final.
    pub fn propose(&mut self) -> (r: Option<String>)
        requires
            !old(self).pending(),
            old(self).wf(),
        ensures
            final(self).wf(),
            r is Some ==> final(self).pending() && r->0@ == render_file_v(final(self).tree_view())
                && final(self).last_query_spec() == r->0@ && final(self).saved() == old(
                self,
            ).tree_view(),
            r is None ==> !final(self).pending() && final(self).finished() && final(self).tree_view()
                == old(self).tree_view(),
            r is None ==> final(self).fully_cleared(),
            r is None ==> final(self).pruning_exhausted() && final(self).derives_exhausted()
                && final(self).docs_exhausted(),
    {
        match self.phase {
            Phase::Pruning => {
                if self.prune.propose(&mut self.tree) {
                    return Some(self.render_query());
                }
                self.pruned_at = Ghost(self.tree@);
                self.phase = Phase::Derives;
            },
            _ => {
            },
        }
        match self.phase {
            Phase::Derives => {
                if self.derives.propose(&mut self.tree) {
                    return Some(self.render_query());
                }
                self.derived_at = Ghost(self.tree@);
                self.phase = Phase::Docs;
            },
            _ => {
            },
        }
        match self.phase {
            Phase::Docs => {
                if self.docs.propose(&mut self.tree) {
                    return Some(self.render_query());
                }
                self.docs_at = Ghost(self.tree@);
                self.phase = Phase::Blocks;
            },
            _ => {
            },
        }
        match self.phase {
            Phase::Blocks => {
                if self.blocks.propose(&mut self.tree) {
                    return Some(self.render_query());
                }
                self.phase = Phase::Finished;
            },
            _ => {
            },
        }
        None
    }

    /// Takes the oracle's verdict on the pending query.  On acceptance the
    /// mutation stays, and the accepted text — the very text that was
    /// queried — is returned for the output pipeline.  On rejection the
    /// mutation is undone exactly and nothing is handed out.
    pub fn report(&mut self, accepted: bool) -> (r: Option<String>)
        requires
            old(self).pending(),
            old(self).wf(),
        ensures
            final(self).wf(),
            !final(self).pending(),
            !final(self).finished(),
            accepted ==> r is Some && r->0@ == old(self).last_query_spec() && r->0@
                == render_file_v(final(self).tree_view()) && final(self).tree_view() == old(
                self,
            ).tree_view(),
            !accepted ==> r is None && final(self).tree_view() == old(self).saved(),
    {
        match self.phase {
            Phase::Pruning => {
                self.prune.decide(&mut self.tree, accepted);
            },
            Phase::Derives => {
                self.derives.decide(&mut self.tree, accepted);
            },
            Phase::Docs => {
                self.docs.decide(&mut self.tree, accepted);
            },
            Phase::Blocks => {
                self.blocks.decide(&mut self.tree, accepted);
            },
            Phase::Finished => {
            },
        }
        if accepted {
            Some(render_file(&self.tree))
        } else {
            None
        }
    }
}

} // verus!
