//! Derive-list reduction: try to remove one derived trait name at a time.
//!
//! Candidates are the derived trait names of every derive attribute in the
//! tree, numbered flatly in container traversal order.  Removing the last
//! name of a derive attribute removes the attribute itself.  On acceptance
//! the index is kept (the next name has moved into the removed one's place);
//! on rejection the container is restored and the index advances.

use vstd::prelude::*;

use crate::ast::Attr;
use crate::ast::AttrV;
use crate::ast::SourceFile;
use crate::ast::SourceFileV;
use crate::ast::attrs_view;
use crate::ast::dup_attr;
use crate::attrs::attr_lists_file;
use crate::attrs::get_attrs_at;
use crate::attrs::lemma_attr_lists_file_id;
use crate::attrs::lemma_attr_lists_file_update;
use crate::attrs::lemma_set_attrs_file_twice;
use crate::attrs::set_attrs_at;
use crate::attrs::set_attrs_file;

verus! {

// ---------------------------------------------------------------------------
// The removal a candidate stands for
// ---------------------------------------------------------------------------

/// How many candidate names one attribute offers.
pub open spec fn ident_count_attr(a: AttrV) -> nat {
    match a {
        AttrV::Derive { names } => names.len(),
        _ => 0,
    }
}

/// The derived names of an attribute.
pub open spec fn derive_names(a: AttrV) -> Seq<Seq<char>> {
    match a {
        AttrV::Derive { names } => names,
        _ => Seq::empty(),
    }
}

/// Removes the `k`-th derived name of an attribute list; when the list of a
/// derive attribute empties, the attribute goes with it.  `Err(rem)` means
/// the list offers fewer than `k + 1` names.
pub open spec fn remove_ident_attrs(attrs: Seq<AttrV>, k: nat) -> Result<Seq<AttrV>, nat>
    decreases attrs,
{
    if attrs.len() == 0 {
        Err(k)
    } else {
        let c = ident_count_attr(attrs[0]);
        if k < c {
            if c == 1 {
                Ok(attrs.drop_first())
            } else {
                Ok(
                    seq![AttrV::Derive { names: derive_names(attrs[0]).remove(k as int) }]
                        + attrs.drop_first(),
                )
            }
        } else {
            match remove_ident_attrs(attrs.drop_first(), (k - c) as nat) {
                Ok(rest) => Ok(seq![attrs[0]] + rest),
                Err(rem) => Err(rem),
            }
        }
    }
}

/// Removes the `k`-th derived name over a flat list of containers.
/// `Ok((n, a))` gives the container hit and its rewritten attribute list.
pub open spec fn remove_flat(lists: Seq<Seq<AttrV>>, k: nat) -> Result<(nat, Seq<AttrV>), nat>
    decreases lists,
{
    if lists.len() == 0 {
        Err(k)
    } else {
        match remove_ident_attrs(lists[0], k) {
            Ok(nl) => Ok((0, nl)),
            Err(rem) => match remove_flat(lists.drop_first(), rem) {
                Ok((m, nl)) => Ok(((m + 1) as nat, nl)),
                Err(r) => Err(r),
            },
        }
    }
}

// ---------------------------------------------------------------------------
// Executable removal within one attribute list
// ---------------------------------------------------------------------------

fn dup_names_without(names: &Vec<String>, k: usize) -> (r: Vec<String>)
    requires
        (k as nat) < names@.len(),
    ensures
        r.deep_view() == names.deep_view().remove(k as int),
{
    let mut out: Vec<String> = Vec::new();
    let mut j: usize = 0;
    while j < names.len()
        invariant
            j <= names@.len(),
            (k as nat) < names@.len(),
            out@.len() == (if j <= k {
                j as int
            } else {
                j - 1
            }),
            forall|i: int| 0 <= i < out@.len() ==> out@[i]@ == names@[(if i < k {
                i
            } else {
                i + 1
            })]@,
        decreases names@.len() - j,
    {
        if j != k {
            out.push(names[j].clone());
        }
        j = j + 1;
    }
    proof {
        assert(out.deep_view() =~= names.deep_view().remove(k as int));
    }
    out
}

fn dup_attrs_from(attrs: &Vec<Attr>, j: usize) -> (r: Vec<Attr>)
    requires
        j <= attrs@.len(),
    ensures
        attrs_view(r) == attrs_view(*attrs).skip(j as int),
{
    let mut out: Vec<Attr> = Vec::new();
    let mut i: usize = j;
    while i < attrs.len()
        invariant
            j <= i <= attrs@.len(),
            out@.len() == i - j,
            forall|p: int| 0 <= p < out@.len() ==> out@[p]@ == attrs@[p + j]@,
        decreases attrs@.len() - i,
    {
        let d = dup_attr(&attrs[i]);
        out.push(d);
        i = i + 1;
    }
    proof {
        assert(attrs_view(out) =~= attrs_view(*attrs).skip(j as int));
    }
    out
}

fn remove_ident_from(attrs: &Vec<Attr>, i: usize, k: usize) -> (r: Result<Vec<Attr>, usize>)
    requires
        i <= attrs@.len(),
    ensures
        match r {
            Ok(out) => remove_ident_attrs(attrs_view(*attrs).skip(i as int), k as nat) == Ok::<
                Seq<AttrV>,
                nat,
            >(attrs_view(out)),
            Err(rem) => remove_ident_attrs(attrs_view(*attrs).skip(i as int), k as nat) == Err::<
                Seq<AttrV>,
                nat,
            >(rem as nat),
        },
    decreases attrs@.len() - i,
{
    let ghost av = attrs_view(*attrs);
    if i >= attrs.len() {
        proof {
            assert(av.skip(i as int).len() == 0);
        }
        return Err(k);
    }
    proof {
        assert(av.skip(i as int)[0] == av[i as int]);
        assert(av.skip(i as int).drop_first() =~= av.skip(i as int + 1));
    }
    let c: usize = match &attrs[i] {
        Attr::Derive { names } => names.len(),
        _ => 0,
    };
    if k < c {
        match &attrs[i] {
            Attr::Derive { names } => {
                if c == 1 {
                    let out = dup_attrs_from(attrs, i + 1);
                    Ok(out)
                } else {
                    let smaller = dup_names_without(names, k);
                    let mut out: Vec<Attr> = Vec::new();
                    out.push(Attr::Derive { names: smaller });
                    let mut rest = dup_attrs_from(attrs, i + 1);
                    let mut j: usize = 0;
                    while j < rest.len()
                        invariant
                            j <= rest@.len(),
                            out@.len() == j + 1,
                            attrs_view(rest) == attrs_view(*attrs).skip(i as int + 1),
                            out@[0]@ == (AttrV::Derive {
                                names: derive_names(attrs_view(*attrs)[i as int]).remove(k as int),
                            }),
                            forall|p: int| 1 <= p < out@.len() ==> out@[p]@ == attrs_view(rest)[p
                                - 1],
                        decreases rest@.len() - j,
                    {
                        let d = dup_attr(&rest[j]);
                        out.push(d);
                        j = j + 1;
                    }
                    proof {
                        assert(attrs_view(out) =~= seq![
                            AttrV::Derive {
                                names: derive_names(av[i as int]).remove(k as int),
                            },
                        ] + av.skip(i as int + 1));
                    }
                    Ok(out)
                }
            },
            _ => {
                // not reached: only a derive attribute offers candidates
                proof {
                    assert(false);
                }
                Err(k)
            },
        }
    } else {
        let r = remove_ident_from(attrs, i + 1, k - c);
        match r {
            Ok(out) => {
                let mut out2: Vec<Attr> = Vec::new();
                out2.push(dup_attr(&attrs[i]));
                let mut j: usize = 0;
                let ghost restv = attrs_view(out);
                while j < out.len()
                    invariant
                        j <= out@.len(),
                        out2@.len() == j + 1,
                        restv == attrs_view(out),
                        out2@[0]@ == attrs_view(*attrs)[i as int],
                        forall|p: int| 1 <= p < out2@.len() ==> out2@[p]@ == restv[p - 1],
                    decreases out@.len() - j,
                {
                    let d = dup_attr(&out[j]);
                    out2.push(d);
                    j = j + 1;
                }
                proof {
                    assert(attrs_view(out2) =~= seq![av[i as int]] + restv);
                }
                Ok(out2)
            },
            Err(rem) => Err(rem),
        }
    }
}

/// Removes the `k`-th derived name of an attribute list, or reports how far
/// `k` reaches past the list's names.
fn remove_ident(attrs: &Vec<Attr>, k: usize) -> (r: Result<Vec<Attr>, usize>)
    ensures
        match r {
            Ok(out) => remove_ident_attrs(attrs_view(*attrs), k as nat) == Ok::<Seq<AttrV>, nat>(
                attrs_view(out),
            ),
            Err(rem) => remove_ident_attrs(attrs_view(*attrs), k as nat) == Err::<Seq<AttrV>, nat>(
                rem as nat,
            ),
        },
{
    let r = remove_ident_from(attrs, 0, k);
    proof {
        assert(attrs_view(*attrs).skip(0) =~= attrs_view(*attrs));
    }
    r
}

// ---------------------------------------------------------------------------
// The pass
// ---------------------------------------------------------------------------

/// The derive-stripping pass.
pub struct DerivePass {
    index: usize,
    at: usize,
    backup: Option<Vec<Attr>>,
    newlist: Ghost<Seq<AttrV>>,
    pre: Ghost<SourceFileV>,
    done: bool,
}

impl DerivePass {
    /// Whether a proposed removal awaits its verdict.
    pub closed spec fn pending(&self) -> bool {
        self.backup is Some
    }

    /// The tree before the pending removal.
    pub closed spec fn saved(&self) -> SourceFileV {
        self.pre@
    }

    /// The container index of the pending removal.
    pub closed spec fn at_spec(&self) -> nat {
        self.at as nat
    }

    /// The flat candidate index.
    pub closed spec fn index_spec(&self) -> nat {
        self.index as nat
    }

    /// Whether the pass has finished.
    pub closed spec fn finished(&self) -> bool {
        self.done
    }

    /// The tree as mutated by the pending removal.
    pub closed spec fn mutated(&self) -> SourceFileV {
        set_attrs_file(self.pre@, self.at as int, self.newlist@)
    }

    /// Internal consistency of a pending proposal.
    pub closed spec fn wf(&self) -> bool {
        self.pending() ==> {
            &&& (self.at as nat) < attr_lists_file(self.pre@).len()
            &&& attrs_view(self.backup->0) == attr_lists_file(self.pre@)[self.at as int]
        }
    }

    pub fn new() -> (r: Self)
        ensures
            !r.pending(),
            !r.finished(),
            r.index_spec() == 0,
            r.wf(),
    {
        DerivePass {
            index: 0,
            at: 0,
            backup: None,
            newlist: Ghost(arbitrary()),
            pre: Ghost(arbitrary()),
            done: false,
        }
    }

    /// Removes the derived name at the current flat index in place.  Returns
    /// true when a removal was applied (the tree must now be put to the
    /// oracle and the verdict reported through `decide`); false when no
    /// candidate is left and the tree is unchanged.
    pub fn propose(&mut self, file: &mut SourceFile) -> (r: bool)
        requires
            !old(self).pending(),
        ensures
            final(self).wf(),
            r ==> final(self).pending(),
            r ==> final(self).saved() == old(file)@,
            r ==> (remove_flat(attr_lists_file(old(file)@), old(self).index_spec()) matches Ok((
                n,
                nl,
            )) && n == final(self).at_spec() && final(file)@ == set_attrs_file(
                old(file)@,
                n as int,
                nl,
            )),
            r ==> final(file)@ == final(self).mutated(),
            r ==> final(self).index_spec() == old(self).index_spec(),
            r ==> !final(self).finished(),
            !r ==> final(file)@ == old(file)@ && !final(self).pending() && final(self).finished()
                && final(self).index_spec() == old(self).index_spec(),
            !r && !old(self).finished() && attr_lists_file(old(file)@).len() <= usize::MAX
                ==> remove_flat(attr_lists_file(old(file)@), old(self).index_spec()) is Err,
    {
        if self.done {
            return false;
        }
        let ghost pre0 = file@;
        let ghost lists = attr_lists_file(pre0);
        let mut n: usize = 0;
        let mut kk: usize = self.index;
        proof {
            assert(lists.skip(0) =~= lists);
        }
        loop
            invariant
                pre0 == old(file)@,
                file@ == pre0,
                lists == attr_lists_file(pre0),
                *self == *old(self),
                !old(self).pending(),
                !old(self).finished(),
                n as nat <= lists.len(),
                remove_flat(lists, old(self).index_spec()) == (match remove_flat(
                    lists.skip(n as int),
                    kk as nat,
                ) {
                    Ok((m, nl)) => Ok::<(nat, Seq<AttrV>), nat>(((n + m) as nat, nl)),
                    Err(rem) => Err::<(nat, Seq<AttrV>), nat>(rem),
                }),
            decreases lists.len() - n as nat,
        {
            if n == usize::MAX {
                proof {
                    if lists.len() <= usize::MAX {
                        assert(lists.skip(n as int).len() == 0);
                    }
                }
                self.done = true;
                return false;
            }
            proof {
                if (n as nat) < lists.len() {
                    assert(lists.skip(n as int)[0] == lists[n as int]);
                    assert(lists.skip(n as int).drop_first() =~= lists.skip(n as int + 1));
                }
            }
            let got = get_attrs_at(file, n);
            match got {
                None => {
                    proof {
                        assert(lists.skip(n as int).len() == 0);
                    }
                    self.done = true;
                    return false;
                },
                Some(attrs) => {
                    let rr = remove_ident(&attrs, kk);
                    match rr {
                        Ok(newlist) => {
                            let ghost nlv = attrs_view(newlist);
                            set_attrs_at(file, n, newlist);
                            self.at = n;
                            self.backup = Some(attrs);
                            self.newlist = Ghost(nlv);
                            self.pre = Ghost(pre0);
                            return true;
                        },
                        Err(rem) => {
                            kk = rem;
                            n = n + 1;
                        },
                    }
                },
            }
        }
    }

    /// Reports the oracle's verdict on the pending removal.  A rejected
    /// removal is undone exactly and the flat index advances; an accepted
    /// one stays and the index is kept.
    pub fn decide(&mut self, file: &mut SourceFile, accepted: bool)
        requires
            old(self).pending(),
            old(self).wf(),
            old(file)@ == old(self).mutated(),
        ensures
            final(self).wf(),
            !final(self).pending(),
            final(self).finished() == old(self).finished(),
            accepted ==> final(file)@ == old(file)@ && final(self).index_spec() == old(
                self,
            ).index_spec(),
            !accepted ==> final(file)@ == old(self).saved() && (old(self).index_spec() < usize::MAX
                ==> final(self).index_spec() == old(self).index_spec() + 1),
    {
        let backup = self.backup.take().unwrap();
        if !accepted {
            let ghost pre0 = self.pre@;
            let ghost at = self.at as int;
            proof {
                lemma_attr_lists_file_update(pre0, at, self.newlist@);
                lemma_set_attrs_file_twice(pre0, at, self.newlist@, attrs_view(backup));
                lemma_attr_lists_file_id(pre0, at);
            }
            set_attrs_at(file, self.at, backup);
            if self.index < usize::MAX {
                self.index = self.index + 1;
            }
        }
    }
}

} // verus!
