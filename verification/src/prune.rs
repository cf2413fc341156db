//! Item pruning: try to delete one declaration at a time.
//!
//! Candidates are enumerated two-dimensionally as `(level, index)`.  `level`
//! is the containment depth: level 0 holds the root items; descending into an
//! inline module body adds one level.  An impl block, a struct with named
//! fields and an enum expose their members, fields and variants as deletable
//! slots one level below the item itself.  `index` counts the slots of one
//! level left to right over the whole tree.
//!
//! The pass proposes the deletion at the current `(level, index)`; when the
//! oracle rejects it the snapshot is restored and `index` advances, when it
//! accepts the deletion stays and `index` is kept (the successor slot has
//! moved into place).  When a level runs out of slots the pass moves to the
//! next level, and it finishes when a whole level is empty.

use vstd::prelude::*;

use crate::ast::Item;
use crate::ast::ItemV;
use crate::ast::SourceFile;
use crate::ast::SourceFileV;
use crate::ast::dup_file;
use crate::ast::item_view;
use crate::ast::items_seq_view;
use crate::ast::lemma_items_view_index;
use crate::ast::lemma_items_view_len;
use crate::ast::lemma_members_view_index;
use crate::ast::lemma_members_view_len;

verus! {

broadcast use lemma_items_view_len, lemma_items_view_index, lemma_members_view_len,
    lemma_members_view_index;

// ---------------------------------------------------------------------------
// The deletion a candidate stands for, as a function of the tree model
// ---------------------------------------------------------------------------

/// Attempts to delete the slot at `(level, index)` inside one item.
/// `Err(rem)` means the item holds fewer than `index + 1` slots at that
/// level; `rem` is the index remaining after passing over it.
pub open spec fn prune_item_v(item: ItemV, level: nat, index: nat) -> Result<ItemV, nat>
    decreases item, level,
{
    match item {
        ItemV::Mod { attrs, name, inline, body } => {
            if inline {
                match prune_items_v(body, (level - 1) as nat, index) {
                    Ok(b) => Ok(ItemV::Mod { attrs, name, inline, body: b }),
                    Err(rem) => Err(rem),
                }
            } else {
                Err(index)
            }
        },
        ItemV::Impl { attrs, header, members } => {
            if level == 1 {
                if index < members.len() {
                    Ok(ItemV::Impl { attrs, header, members: members.remove(index as int) })
                } else {
                    Err((index - members.len()) as nat)
                }
            } else {
                Err(index)
            }
        },
        ItemV::Struct { attrs, header, fields } => {
            if level == 1 {
                if index < fields.len() {
                    Ok(ItemV::Struct { attrs, header, fields: fields.remove(index as int) })
                } else {
                    Err((index - fields.len()) as nat)
                }
            } else {
                Err(index)
            }
        },
        ItemV::Enum { attrs, header, variants } => {
            if level == 1 {
                if index < variants.len() {
                    Ok(ItemV::Enum { attrs, header, variants: variants.remove(index as int) })
                } else {
                    Err((index - variants.len()) as nat)
                }
            } else {
                Err(index)
            }
        },
        ItemV::Func { .. } => Err(index),
        ItemV::Other { .. } => Err(index),
    }
}

/// Attempts to delete the slot at `(level, index)` inside an item list.
/// At level 0 the items themselves are the slots; at deeper levels the
/// list is scanned left to right, threading the index through each item.
pub open spec fn prune_items_v(items: Seq<ItemV>, level: nat, index: nat) -> Result<Seq<ItemV>, nat>
    decreases items, level,
{
    if level == 0 {
        if index < items.len() {
            Ok(items.remove(index as int))
        } else {
            Err((index - items.len()) as nat)
        }
    } else if items.len() == 0 {
        Err(index)
    } else {
        match prune_item_v(items[0], level, index) {
            Ok(item) => Ok(seq![item] + items.drop_first()),
            Err(rem) => match prune_items_v(items.drop_first(), level, rem) {
                Ok(rest) => Ok(seq![items[0]] + rest),
                Err(rem2) => Err(rem2),
            },
        }
    }
}

/// Number of nodes of an item, used as a termination measure.
pub open spec fn size_item_v(item: ItemV) -> nat
    decreases item,
{
    match item {
        ItemV::Mod { body, .. } => 1 + size_items_v(body),
        _ => 1,
    }
}

/// Number of nodes of an item list.
pub open spec fn size_items_v(items: Seq<ItemV>) -> nat
    decreases items,
{
    if items.len() == 0 {
        0
    } else {
        size_item_v(items[0]) + size_items_v(items.drop_first())
    }
}

pub proof fn lemma_size_items_le(items: Seq<ItemV>, k: int)
    requires
        0 <= k < items.len(),
    ensures
        size_item_v(items[k]) <= size_items_v(items),
    decreases items.len(),
{
    if k > 0 {
        lemma_size_items_le(items.drop_first(), k - 1);
        assert(items.drop_first()[k - 1] == items[k]);
    }
}

/// The result of scanning a suffix, re-attached below an unchanged prefix.
pub open spec fn lift_prefix(prefix: Seq<ItemV>, res: Result<Seq<ItemV>, nat>) -> Result<
    Seq<ItemV>,
    nat,
> {
    match res {
        Ok(rest) => Ok(prefix + rest),
        Err(rem) => Err(rem),
    }
}

/// Attempts to delete the slot at `(level, index)` in a whole file.
pub open spec fn prune_file_v(f: SourceFileV, level: nat, index: nat) -> Option<SourceFileV> {
    match prune_items_v(f.items, level, index) {
        Ok(items) => Some(SourceFileV { attrs: f.attrs, items }),
        Err(_) => None,
    }
}

// ---------------------------------------------------------------------------
// Executable deletion
// ---------------------------------------------------------------------------

fn prune_in_item(item: &mut Item, level: usize, index: usize) -> (r: Result<(), usize>)
    requires
        level >= 1,
    ensures
        match r {
            Ok(()) => prune_item_v(item_view(*old(item)), level as nat, index as nat) == Ok::<
                ItemV,
                nat,
            >(item_view(*final(item))),
            Err(rem) => prune_item_v(item_view(*old(item)), level as nat, index as nat) == Err::<
                ItemV,
                nat,
            >(rem as nat) && item_view(*final(item)) == item_view(*old(item)),
        },
    decreases size_item_v(item_view(*item)), 0nat,
{
    match item {
        Item::Mod { inline, body, .. } => {
            if *inline {
                let r = prune_in_items(body, level - 1, index);
                proof {
                    lemma_items_view_len(body@);
                }
                r
            } else {
                Err(index)
            }
        },
        Item::Impl { members, .. } => {
            if level == 1 {
                if index < members.len() {
                    let ghost pre = members@;
                    members.remove(index);
                    proof {
                        assert forall|j: int| 0 <= j < members@.len() implies
                            crate::ast::members_view(members@)[j] == crate::ast::members_view(
                            pre,
                        ).remove(index as int)[j] by {}
                        assert(crate::ast::members_view(members@) =~= crate::ast::members_view(
                            pre,
                        ).remove(index as int));
                    }
                    Ok(())
                } else {
                    Err(index - members.len())
                }
            } else {
                Err(index)
            }
        },
        Item::Struct { fields, .. } => {
            if level == 1 {
                if index < fields.len() {
                    let ghost pre = fields@;
                    fields.remove(index);
                    proof {
                        assert(Seq::new(fields@.len(), |j: int| fields@[j]@) =~= Seq::new(
                            pre.len(),
                            |j: int| pre[j]@,
                        ).remove(index as int));
                    }
                    Ok(())
                } else {
                    Err(index - fields.len())
                }
            } else {
                Err(index)
            }
        },
        Item::Enum { variants, .. } => {
            if level == 1 {
                if index < variants.len() {
                    let ghost pre = variants@;
                    variants.remove(index);
                    proof {
                        assert(Seq::new(variants@.len(), |j: int| variants@[j]@) =~= Seq::new(
                            pre.len(),
                            |j: int| pre[j]@,
                        ).remove(index as int));
                    }
                    Ok(())
                } else {
                    Err(index - variants.len())
                }
            } else {
                Err(index)
            }
        },
        Item::Func { .. } => Err(index),
        Item::Other { .. } => Err(index),
    }
}

fn prune_in_items(items: &mut Vec<Item>, level: usize, index: usize) -> (r: Result<(), usize>)
    ensures
        match r {
            Ok(()) => prune_items_v(items_seq_view(old(items)@), level as nat, index as nat)
                == Ok::<Seq<ItemV>, nat>(items_seq_view(final(items)@)),
            Err(rem) => prune_items_v(items_seq_view(old(items)@), level as nat, index as nat)
                == Err::<Seq<ItemV>, nat>(rem as nat) && items_seq_view(final(items)@)
                == items_seq_view(old(items)@),
        },
    decreases size_items_v(items_seq_view(items@)), 1nat,
{
    let ghost iv = items_seq_view(items@);
    if level == 0 {
        if index < items.len() {
            let ghost pre = items@;
            items.remove(index);
            proof {
                assert forall|j: int| 0 <= j < items@.len() implies items_seq_view(items@)[j]
                    == items_seq_view(pre).remove(index as int)[j] by {}
                assert(items_seq_view(items@) =~= items_seq_view(pre).remove(index as int));
            }
            Ok(())
        } else {
            Err(index - items.len())
        }
    } else {
        let mut k: usize = 0;
        let mut idx: usize = index;
        proof {
            assert(iv.skip(0) =~= iv);
            assert(iv.take(0) =~= Seq::<ItemV>::empty());
            assert(lift_prefix(iv.take(0), prune_items_v(iv, level as nat, index as nat))
                == prune_items_v(iv, level as nat, index as nat)) by {
                match prune_items_v(iv, level as nat, index as nat) {
                    Ok(rest) => {
                        assert(iv.take(0) + rest =~= rest);
                    },
                    Err(_) => {},
                }
            }
        }
        while k < items.len()
            invariant
                level >= 1,
                k <= items@.len(),
                iv == items_seq_view(old(items)@),
                items_seq_view(items@) == iv,
                prune_items_v(iv, level as nat, index as nat) == lift_prefix(
                    iv.take(k as int),
                    prune_items_v(iv.skip(k as int), level as nat, idx as nat),
                ),
            decreases items@.len() - k,
        {
            proof {
                assert(iv.skip(k as int)[0] == iv[k as int]);
                assert(iv.skip(k as int).drop_first() =~= iv.skip(k as int + 1));
            }
            let ghost pre_items = items@;
            proof {
                assert(item_view(items@[k as int]) == iv[k as int]);
                lemma_size_items_le(iv, k as int);
            }
            let r = prune_in_item(&mut items[k], level, idx);
            match r {
                Ok(()) => {
                    proof {
                        let item2 = item_view(items@[k as int]);
                        assert(items_seq_view(items@) =~= iv.update(k as int, item2));
                        assert(prune_items_v(iv.skip(k as int), level as nat, idx as nat) == Ok::<
                            Seq<ItemV>,
                            nat,
                        >(seq![item2] + iv.skip(k as int + 1)));
                        assert(iv.take(k as int) + (seq![item2] + iv.skip(k as int + 1)) =~= iv.update(
                            k as int,
                            item2,
                        ));
                    }
                    return Ok(());
                },
                Err(rem) => {
                    proof {
                        assert(items_seq_view(items@) =~= iv);
                        let sub = prune_items_v(iv.skip(k as int + 1), level as nat, rem as nat);
                        assert(prune_items_v(iv.skip(k as int), level as nat, idx as nat)
                            == lift_prefix(seq![iv[k as int]], sub));
                        match sub {
                            Ok(rest) => {
                                assert(iv.take(k as int) + (seq![iv[k as int]] + rest) =~= iv.take(
                                    k as int + 1,
                                ) + rest);
                            },
                            Err(_) => {},
                        }
                        assert(prune_items_v(iv, level as nat, index as nat) == lift_prefix(
                            iv.take(k as int + 1),
                            sub,
                        ));
                    }
                    idx = rem;
                },
            }
            k = k + 1;
        }
        proof {
            assert(iv.skip(k as int).len() == 0);
            assert(prune_items_v(iv.skip(k as int), level as nat, idx as nat) == Err::<
                Seq<ItemV>,
                nat,
            >(idx as nat));
        }
        Err(idx)
    }
}

// ---------------------------------------------------------------------------
// The pass
// ---------------------------------------------------------------------------

/// The item-pruning pass.  `propose` applies the next candidate deletion to
/// the tree and hands it out for an oracle query; `decide` reports the
/// verdict, either keeping the deletion or restoring the snapshot exactly.
pub struct PrunePass {
    level: usize,
    index: usize,
    backup: Option<SourceFile>,
    done: bool,
}

impl PrunePass {
    /// Whether a proposed deletion awaits its verdict.
    pub closed spec fn pending(&self) -> bool {
        self.backup is Some
    }

    /// The snapshot of the tree before the pending deletion.
    pub closed spec fn saved(&self) -> SourceFileV {
        self.backup->Some_0@
    }

    pub closed spec fn spec_level(&self) -> nat {
        self.level as nat
    }

    pub closed spec fn spec_index(&self) -> nat {
        self.index as nat
    }

    /// Whether the pass has finished.
    pub closed spec fn finished(&self) -> bool {
        self.done
    }

    pub fn new() -> (r: Self)
        ensures
            !r.pending(),
            !r.finished(),
            r.spec_level() == 0,
            r.spec_index() == 0,
    {
        PrunePass { level: 0, index: 0, backup: None, done: false }
    }

    /// Applies the next candidate deletion in place.  Returns true when a
    /// deletion was applied (the tree must now be put to the oracle and the
    /// verdict reported through `decide`); false when the pass is finished
    /// and the tree is unchanged.
    ///
    /// The candidate tried is pinned to the pass's state: the slot at the
    /// current `(level, index)`, or — only when that level is exhausted with
    /// `index > 0` — the first slot of the next level.  The pass finishes
    /// exactly when neither exists.
    pub fn propose(&mut self, file: &mut SourceFile) -> (r: bool)
        requires
            !old(self).pending(),
        ensures
            r ==> final(self).pending() && final(self).saved() == old(file)@ && prune_file_v(
                old(file)@,
                final(self).spec_level(),
                final(self).spec_index(),
            ) == Some(final(file)@) && !final(self).finished(),
            r ==> (final(self).spec_level() == old(self).spec_level() && final(self).spec_index()
                == old(self).spec_index()) || (final(self).spec_level() == old(self).spec_level()
                + 1 && final(self).spec_index() == 0 && old(self).spec_index() > 0 && prune_file_v(
                old(file)@,
                old(self).spec_level(),
                old(self).spec_index(),
            ) is None),
            !r ==> final(file)@ == old(file)@ && !final(self).pending() && final(self).finished(),
            !r && !old(self).finished() ==> prune_file_v(
                old(file)@,
                old(self).spec_level(),
                old(self).spec_index(),
            ) is None,
            !r && !old(self).finished() && old(self).spec_index() > 0 && old(self).spec_level()
                < usize::MAX ==> prune_file_v(old(file)@, old(self).spec_level() + 1, 0) is None,
            !r && !old(self).finished() ==> prune_file_v(
                old(file)@,
                final(self).spec_level(),
                final(self).spec_index(),
            ) is None && (final(self).spec_index() > 0 && final(self).spec_level() < usize::MAX
                ==> prune_file_v(old(file)@, final(self).spec_level() + 1, 0) is None),
    {
        if self.done {
            return false;
        }
        let backup = dup_file(file);
        let r1 = prune_in_items(&mut file.items, self.level, self.index);
        match r1 {
            Ok(()) => {
                self.backup = Some(backup);
                proof {
                    assert(prune_file_v(old(file)@, self.level as nat, self.index as nat) == Some(
                        file@,
                    ));
                }
                true
            },
            Err(_) => {
                if self.index == 0 || self.level == usize::MAX {
                    self.done = true;
                    return false;
                }
                self.level = self.level + 1;
                self.index = 0;
                let r2 = prune_in_items(&mut file.items, self.level, 0);
                match r2 {
                    Ok(()) => {
                        self.backup = Some(backup);
                        true
                    },
                    Err(_) => {
                        self.done = true;
                        false
                    },
                }
            },
        }
    }

    /// Reports the oracle's verdict on the pending deletion.  A rejected
    /// deletion is undone exactly; an accepted one stays, and the same index
    /// now names the candidate that moved into the deleted slot.
    pub fn decide(&mut self, file: &mut SourceFile, accepted: bool)
        requires
            old(self).pending(),
        ensures
            !final(self).pending(),
            final(self).finished() == old(self).finished(),
            final(self).spec_level() == old(self).spec_level(),
            accepted ==> final(file)@ == old(file)@ && final(self).spec_index() == old(
                self,
            ).spec_index(),
            !accepted ==> final(file)@ == old(self).saved() && (old(self).spec_index()
                < usize::MAX ==> final(self).spec_index() == old(self).spec_index() + 1),
    {
        let backup = self.backup.take().unwrap();
        if !accepted {
            *file = backup;
            if self.index < usize::MAX {
                self.index = self.index + 1;
            }
        }
    }
}

} // verus!
