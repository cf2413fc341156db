//! Doc-attribute removal: try to strip every `doc` attribute of one
//! container at a time.
//!
//! Containers are numbered in traversal order (see `attrs`).  The pass keeps
//! a target index; each proposal finds the first container at or past the
//! target that carries a `doc` attribute, strips all its `doc` attributes at
//! once, and asks the oracle.  Containers without `doc` attributes are
//! passed over without counting as attempts.

use vstd::prelude::*;

use crate::ast::Attr;
use crate::ast::SourceFile;
use crate::ast::SourceFileV;
use crate::ast::attrs_view;
use crate::ast::has_doc_v;
use crate::ast::has_doc_attrs;
use crate::ast::strip_doc_attrs;
use crate::ast::strip_docs_v;
use crate::attrs::attr_lists_file;
use crate::attrs::get_attrs_at;
use crate::attrs::lemma_attr_lists_file_id;
use crate::attrs::lemma_attr_lists_file_update;
use crate::attrs::lemma_set_attrs_file_twice;
use crate::attrs::set_attrs_at;
use crate::attrs::set_attrs_file;

verus! {

/// The doc-stripping pass.
pub struct DocPass {
    target: usize,
    at: usize,
    backup: Option<Vec<Attr>>,
    pre: Ghost<SourceFileV>,
    done: bool,
}

impl DocPass {
    /// Whether a proposed strip awaits its verdict.
    pub closed spec fn pending(&self) -> bool {
        self.backup is Some
    }

    /// The tree before the pending strip.
    pub closed spec fn saved(&self) -> SourceFileV {
        self.pre@
    }

    /// The container index of the pending strip.
    pub closed spec fn at_spec(&self) -> nat {
        self.at as nat
    }

    /// The index the next search starts from.
    pub closed spec fn target_spec(&self) -> nat {
        self.target as nat
    }

    /// Whether the pass has finished.
    pub closed spec fn finished(&self) -> bool {
        self.done
    }

    /// The tree as mutated by the pending strip.
    pub closed spec fn mutated(&self) -> SourceFileV {
        set_attrs_file(
            self.pre@,
            self.at as int,
            strip_docs_v(attr_lists_file(self.pre@)[self.at as int]),
        )
    }

    /// Internal consistency of a pending proposal.
    pub closed spec fn wf(&self) -> bool {
        self.pending() ==> {
            &&& (self.at as nat) < attr_lists_file(self.pre@).len()
            &&& attrs_view(self.backup->0) == attr_lists_file(self.pre@)[self.at as int]
            &&& has_doc_v(attr_lists_file(self.pre@)[self.at as int])
        }
    }

    pub fn new() -> (r: Self)
        ensures
            !r.pending(),
            !r.finished(),
            r.target_spec() == 0,
            r.wf(),
    {
        DocPass { target: 0, at: 0, backup: None, pre: Ghost(arbitrary()), done: false }
    }

    /// Strips the `doc` attributes of the first container at or past the
    /// target that has any.  Returns true when a strip was applied (the tree
    /// must now be put to the oracle and the verdict reported through
    /// `decide`); false when no container is left and the tree is unchanged.
    pub fn propose(&mut self, file: &mut SourceFile) -> (r: bool)
        requires
            !old(self).pending(),
        ensures
            final(self).wf(),
            r ==> final(self).pending(),
            r ==> final(self).saved() == old(file)@,
            r ==> old(self).target_spec() <= final(self).at_spec(),
            r ==> final(self).at_spec() < attr_lists_file(old(file)@).len(),
            r ==> has_doc_v(attr_lists_file(old(file)@)[final(self).at_spec() as int]),
            r ==> forall|j: int|
                old(self).target_spec() <= j < final(self).at_spec() ==> !has_doc_v(
                    #[trigger] attr_lists_file(old(file)@)[j],
                ),
            r ==> final(file)@ == set_attrs_file(
                old(file)@,
                final(self).at_spec() as int,
                strip_docs_v(attr_lists_file(old(file)@)[final(self).at_spec() as int]),
            ),
            r ==> final(file)@ == final(self).mutated(),
            r ==> final(self).target_spec() == final(self).at_spec() + 1,
            r ==> !final(self).finished(),
            !r ==> final(file)@ == old(file)@ && !final(self).pending() && final(self).finished()
                && final(self).target_spec() == old(self).target_spec(),
            !r && !old(self).finished() && attr_lists_file(old(file)@).len() <= usize::MAX
                ==> forall|j: int|
                old(self).target_spec() <= j < attr_lists_file(old(file)@).len() ==> !has_doc_v(
                    #[trigger] attr_lists_file(old(file)@)[j],
                ),
    {
        if self.done {
            return false;
        }
        let ghost pre0 = file@;
        let ghost lists = attr_lists_file(pre0);
        let ghost t0 = self.target as nat;
        let mut n = self.target;
        loop
            invariant
                pre0 == old(file)@,
                t0 == old(self).target_spec(),
                t0 <= n as nat,
                file@ == pre0,
                lists == attr_lists_file(pre0),
                *self == *old(self),
                !old(self).pending(),
                !old(self).finished(),
                n as nat <= lists.len() || n as nat == t0,
                forall|j: int| t0 <= j < n as nat ==> !has_doc_v(#[trigger] lists[j]),
            decreases (if n as nat <= lists.len() {
                lists.len() - n as nat + 1
            } else {
                0
            }),
        {
            if n == usize::MAX {
                self.done = true;
                return false;
            }
            let got = get_attrs_at(file, n);
            match got {
                None => {
                    self.done = true;
                    return false;
                },
                Some(attrs) => {
                    if has_doc_attrs(&attrs) {
                        let stripped = strip_doc_attrs(&attrs);
                        set_attrs_at(file, n, stripped);
                        self.at = n;
                        self.target = n + 1;
                        self.backup = Some(attrs);
                        self.pre = Ghost(pre0);
                        return true;
                    }
                    n = n + 1;
                },
            }
        }
    }

    /// Reports the oracle's verdict on the pending strip.  A rejected strip
    /// is undone exactly; an accepted one stays.  Either way the search
    /// resumes after the stripped container.
    pub fn decide(&mut self, file: &mut SourceFile, accepted: bool)
        requires
            old(self).pending(),
            old(self).wf(),
            old(file)@ == old(self).mutated(),
        ensures
            final(self).wf(),
            !final(self).pending(),
            final(self).finished() == old(self).finished(),
            final(self).target_spec() == old(self).target_spec(),
            accepted ==> final(file)@ == old(file)@,
            !accepted ==> final(file)@ == old(self).saved(),
    {
        let backup = self.backup.take().unwrap();
        if !accepted {
            let ghost pre0 = self.pre@;
            let ghost n = self.at as int;
            let ghost lists = attr_lists_file(pre0);
            let ghost stripped = strip_docs_v(lists[n]);
            proof {
                lemma_attr_lists_file_update(pre0, n, stripped);
                lemma_set_attrs_file_twice(pre0, n, stripped, attrs_view(backup));
                lemma_attr_lists_file_id(pre0, n);
            }
            set_attrs_at(file, self.at, backup);
        }
    }
}

} // verus!
