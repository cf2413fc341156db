//! Laws of the passes: no accepted mutation makes the rendering longer.
//!
//! Pruning deletes text, and both attribute passes only ever remove
//! attributes or derived names, so each of those mutations can only shrink
//! the serialized tree.  Block clearing writes the placeholder over the old
//! body, so it shrinks the rendering exactly when the placeholder renders
//! no longer than the body it replaces — a block shorter than the
//! placeholder (an empty body, say) is the one exception, which is why the
//! block law carries that premise.

use vstd::prelude::*;

use crate::ast::AttrV;
use crate::ast::BlockV;
use crate::ast::FieldV;
use crate::ast::ImplMemberV;
use crate::ast::ItemV;
use crate::ast::SourceFileV;
use crate::ast::StmtV;
use crate::ast::VariantV;
use crate::ast::strip_docs_v;
use crate::ast::is_doc_v;
use crate::attrs::attr_lists_file;
use crate::attrs::attr_lists_fields;
use crate::attrs::attr_lists_item;
use crate::attrs::attr_lists_items;
use crate::attrs::attr_lists_members;
use crate::attrs::attr_lists_variants;
use crate::attrs::member_attrs;
use crate::attrs::set_attrs_fields;
use crate::attrs::set_attrs_file;
use crate::attrs::set_attrs_item;
use crate::attrs::set_attrs_items;
use crate::attrs::set_attrs_members;
use crate::attrs::set_attrs_variants;
use crate::derives::derive_names;
use crate::derives::ident_count_attr;
use crate::derives::remove_flat;
use crate::derives::remove_ident_attrs;
use crate::render::render_attrs_v;
use crate::render::render_block_v;
use crate::render::render_fields_v;
use crate::render::render_file_v;
use crate::render::render_item_v;
use crate::render::render_items_v;
use crate::render::render_member_v;
use crate::render::render_members_v;
use crate::render::render_names_v;
use crate::render::render_stmt_v;
use crate::render::render_stmts_v;
use crate::render::render_variants_v;

verus! {

// ---------------------------------------------------------------------------
// Attribute lists only shrink
// ---------------------------------------------------------------------------

proof fn lemma_render_names_remove(names: Seq<Seq<char>>, k: int)
    requires
        0 <= k < names.len(),
    ensures
        render_names_v(names.remove(k)).len() <= render_names_v(names).len(),
    decreases names.len(),
{
    if k == 0 {
        assert(names.remove(0) =~= names.drop_first());
    } else {
        lemma_render_names_remove(names.drop_first(), k - 1);
        assert(names.remove(k).drop_first() =~= names.drop_first().remove(k - 1));
        assert(names.remove(k)[0] == names[0]);
    }
}

proof fn lemma_render_strip_docs(attrs: Seq<AttrV>)
    ensures
        render_attrs_v(strip_docs_v(attrs)).len() <= render_attrs_v(attrs).len(),
    decreases attrs.len(),
{
    if attrs.len() > 0 {
        lemma_render_strip_docs(attrs.drop_first());
        if is_doc_v(attrs[0]) {
        } else {
            let rest = strip_docs_v(attrs.drop_first());
            assert((seq![attrs[0]] + rest)[0] == attrs[0]);
            assert((seq![attrs[0]] + rest).drop_first() =~= rest);
        }
    }
}

proof fn lemma_render_remove_ident(attrs: Seq<AttrV>, k: nat)
    ensures
        remove_ident_attrs(attrs, k) matches Ok(out) ==> render_attrs_v(out).len()
            <= render_attrs_v(attrs).len(),
    decreases attrs.len(),
{
    if attrs.len() > 0 {
        let c = ident_count_attr(attrs[0]);
        if k < c {
            if c == 1 {
            } else {
                let names = derive_names(attrs[0]);
                lemma_render_names_remove(names, k as int);
                let a2 = AttrV::Derive { names: names.remove(k as int) };
                let out = seq![a2] + attrs.drop_first();
                assert(out[0] == a2);
                assert(out.drop_first() =~= attrs.drop_first());
            }
        } else {
            lemma_render_remove_ident(attrs.drop_first(), (k - c) as nat);
            match remove_ident_attrs(attrs.drop_first(), (k - c) as nat) {
                Ok(rest) => {
                    let out = seq![attrs[0]] + rest;
                    assert(out[0] == attrs[0]);
                    assert(out.drop_first() =~= rest);
                },
                Err(_) => {},
            }
        }
    }
}

// ---------------------------------------------------------------------------
// Shrinking one attribute container shrinks the whole rendering
// ---------------------------------------------------------------------------

proof fn lemma_render_set_attrs_members(members: Seq<ImplMemberV>, n: int, a: Seq<AttrV>)
    requires
        0 <= n < members.len(),
        render_attrs_v(a).len() <= render_attrs_v(attr_lists_members(members)[n]).len(),
    ensures
        render_members_v(set_attrs_members(members, n, a)).len() <= render_members_v(
            members,
        ).len(),
    decreases members,
{
    crate::attrs::lemma_attr_lists_members_len(members);
    if n == 0 {
        let m2 = set_attrs_members(members, 0, a);
        assert(m2[0] == (match members[0] {
            ImplMemberV::Method { attrs, sig, body } => ImplMemberV::Method { attrs: a, sig, body },
            ImplMemberV::Opaque { attrs, text } => ImplMemberV::Opaque { attrs: a, text },
        }));
        assert(m2.drop_first() =~= members.drop_first());
        assert(attr_lists_members(members)[0] == member_attrs(members[0]));
    } else {
        lemma_render_set_attrs_members(members.drop_first(), n - 1, a);
        let m2 = set_attrs_members(members, n, a);
        assert(m2[0] == members[0]);
        assert(m2.drop_first() =~= set_attrs_members(members.drop_first(), n - 1, a));
    }
}

proof fn lemma_render_set_attrs_fields(fields: Seq<FieldV>, n: int, a: Seq<AttrV>)
    requires
        0 <= n < fields.len(),
        render_attrs_v(a).len() <= render_attrs_v(attr_lists_fields(fields)[n]).len(),
    ensures
        render_fields_v(set_attrs_fields(fields, n, a)).len() <= render_fields_v(fields).len(),
    decreases fields,
{
    crate::attrs::lemma_attr_lists_fields_len(fields);
    if n == 0 {
        let f2 = set_attrs_fields(fields, 0, a);
        assert(f2[0] == (FieldV { attrs: a, text: fields[0].text }));
        assert(f2.drop_first() =~= fields.drop_first());
    } else {
        lemma_render_set_attrs_fields(fields.drop_first(), n - 1, a);
        let f2 = set_attrs_fields(fields, n, a);
        assert(f2[0] == fields[0]);
        assert(f2.drop_first() =~= set_attrs_fields(fields.drop_first(), n - 1, a));
    }
}

proof fn lemma_render_set_attrs_variants(variants: Seq<VariantV>, n: int, a: Seq<AttrV>)
    requires
        0 <= n < variants.len(),
        render_attrs_v(a).len() <= render_attrs_v(attr_lists_variants(variants)[n]).len(),
    ensures
        render_variants_v(set_attrs_variants(variants, n, a)).len() <= render_variants_v(
            variants,
        ).len(),
    decreases variants,
{
    crate::attrs::lemma_attr_lists_variants_len(variants);
    if n == 0 {
        let v2 = set_attrs_variants(variants, 0, a);
        assert(v2[0] == (VariantV { attrs: a, text: variants[0].text }));
        assert(v2.drop_first() =~= variants.drop_first());
    } else {
        lemma_render_set_attrs_variants(variants.drop_first(), n - 1, a);
        let v2 = set_attrs_variants(variants, n, a);
        assert(v2[0] == variants[0]);
        assert(v2.drop_first() =~= set_attrs_variants(variants.drop_first(), n - 1, a));
    }
}

proof fn lemma_render_set_attrs_item(item: ItemV, n: int, a: Seq<AttrV>)
    requires
        0 <= n < attr_lists_item(item).len(),
        render_attrs_v(a).len() <= render_attrs_v(attr_lists_item(item)[n]).len(),
    ensures
        render_item_v(set_attrs_item(item, n, a)).len() <= render_item_v(item).len(),
    decreases item,
{
    if n == 0 {
        assert(attr_lists_item(item)[0] == (match item {
            ItemV::Mod { attrs, .. } => attrs,
            ItemV::Impl { attrs, .. } => attrs,
            ItemV::Struct { attrs, .. } => attrs,
            ItemV::Enum { attrs, .. } => attrs,
            ItemV::Func { attrs, .. } => attrs,
            ItemV::Other { attrs, .. } => attrs,
        }));
    } else {
        match item {
            ItemV::Mod { attrs, name, inline, body } => {
                lemma_render_set_attrs_items(body, n - 1, a);
            },
            ItemV::Impl { attrs, header, members } => {
                crate::attrs::lemma_attr_lists_members_len(members);
                lemma_render_set_attrs_members(members, n - 1, a);
            },
            ItemV::Struct { attrs, header, fields } => {
                crate::attrs::lemma_attr_lists_fields_len(fields);
                lemma_render_set_attrs_fields(fields, n - 1, a);
            },
            ItemV::Enum { attrs, header, variants } => {
                crate::attrs::lemma_attr_lists_variants_len(variants);
                lemma_render_set_attrs_variants(variants, n - 1, a);
            },
            ItemV::Func { .. } => {},
            ItemV::Other { .. } => {},
        }
    }
}

proof fn lemma_render_set_attrs_items(items: Seq<ItemV>, n: int, a: Seq<AttrV>)
    requires
        0 <= n < attr_lists_items(items).len(),
        render_attrs_v(a).len() <= render_attrs_v(attr_lists_items(items)[n]).len(),
    ensures
        render_items_v(set_attrs_items(items, n, a)).len() <= render_items_v(items).len(),
    decreases items,
{
    if items.len() > 0 {
        let c = attr_lists_item(items[0]).len();
        let t2 = set_attrs_items(items, n, a);
        if n < c {
            lemma_render_set_attrs_item(items[0], n, a);
            assert(t2[0] == set_attrs_item(items[0], n, a));
            assert(t2.drop_first() =~= items.drop_first());
        } else {
            lemma_render_set_attrs_items(items.drop_first(), n - c, a);
            assert(t2[0] == items[0]);
            assert(t2.drop_first() =~= set_attrs_items(items.drop_first(), n - c, a));
        }
    }
}

/// Shrinking container `n`'s attribute list never makes the rendering of
/// the whole file longer.
pub proof fn lemma_render_set_attrs_file(f: SourceFileV, n: int, a: Seq<AttrV>)
    requires
        0 <= n < attr_lists_file(f).len(),
        render_attrs_v(a).len() <= render_attrs_v(attr_lists_file(f)[n]).len(),
    ensures
        render_file_v(set_attrs_file(f, n, a)).len() <= render_file_v(f).len(),
{
    if n == 0 {
    } else {
        lemma_render_set_attrs_items(f.items, n - 1, a);
    }
}

/// A doc strip never makes the rendering longer.
pub proof fn doc_strip_never_grows(f: SourceFileV, n: int)
    requires
        0 <= n < attr_lists_file(f).len(),
    ensures
        render_file_v(
            set_attrs_file(f, n, strip_docs_v(attr_lists_file(f)[n])),
        ).len() <= render_file_v(f).len(),
{
    lemma_render_strip_docs(attr_lists_file(f)[n]);
    lemma_render_set_attrs_file(f, n, strip_docs_v(attr_lists_file(f)[n]));
}

proof fn lemma_remove_flat_bounds(lists: Seq<Seq<AttrV>>, k: nat)
    ensures
        remove_flat(lists, k) matches Ok((n, nl)) ==> n < lists.len() && render_attrs_v(nl).len()
            <= render_attrs_v(lists[n as int]).len(),
    decreases lists.len(),
{
    if lists.len() > 0 {
        lemma_render_remove_ident(lists[0], k);
        match remove_ident_attrs(lists[0], k) {
            Ok(_) => {},
            Err(rem) => {
                lemma_remove_flat_bounds(lists.drop_first(), rem);
            },
        }
    }
}

/// A derived-name removal never makes the rendering longer.
pub proof fn derive_strip_never_grows(f: SourceFileV, k: nat)
    ensures
        remove_flat(attr_lists_file(f), k) matches Ok((n, nl)) ==> n < attr_lists_file(f).len()
            && render_file_v(set_attrs_file(f, n as int, nl)).len() <= render_file_v(f).len(),
{
    lemma_remove_flat_bounds(attr_lists_file(f), k);
    match remove_flat(attr_lists_file(f), k) {
        Ok((n, nl)) => {
            lemma_render_set_attrs_file(f, n as int, nl);
        },
        Err(_) => {},
    }
}

// ---------------------------------------------------------------------------
// Pruning only deletes text
// ---------------------------------------------------------------------------

proof fn lemma_render_items_remove(items: Seq<ItemV>, i: int)
    requires
        0 <= i < items.len(),
    ensures
        render_items_v(items.remove(i)).len() <= render_items_v(items).len(),
    decreases items.len(),
{
    if i == 0 {
        assert(items.remove(0) =~= items.drop_first());
    } else {
        lemma_render_items_remove(items.drop_first(), i - 1);
        assert(items.remove(i).drop_first() =~= items.drop_first().remove(i - 1));
        assert(items.remove(i)[0] == items[0]);
    }
}

proof fn lemma_render_members_remove(members: Seq<ImplMemberV>, i: int)
    requires
        0 <= i < members.len(),
    ensures
        render_members_v(members.remove(i)).len() <= render_members_v(members).len(),
    decreases members.len(),
{
    if i == 0 {
        assert(members.remove(0) =~= members.drop_first());
    } else {
        lemma_render_members_remove(members.drop_first(), i - 1);
        assert(members.remove(i).drop_first() =~= members.drop_first().remove(i - 1));
        assert(members.remove(i)[0] == members[0]);
    }
}

proof fn lemma_render_fields_remove(fields: Seq<FieldV>, i: int)
    requires
        0 <= i < fields.len(),
    ensures
        render_fields_v(fields.remove(i)).len() <= render_fields_v(fields).len(),
    decreases fields.len(),
{
    if i == 0 {
        assert(fields.remove(0) =~= fields.drop_first());
    } else {
        lemma_render_fields_remove(fields.drop_first(), i - 1);
        assert(fields.remove(i).drop_first() =~= fields.drop_first().remove(i - 1));
        assert(fields.remove(i)[0] == fields[0]);
    }
}

proof fn lemma_render_variants_remove(variants: Seq<VariantV>, i: int)
    requires
        0 <= i < variants.len(),
    ensures
        render_variants_v(variants.remove(i)).len() <= render_variants_v(variants).len(),
    decreases variants.len(),
{
    if i == 0 {
        assert(variants.remove(0) =~= variants.drop_first());
    } else {
        lemma_render_variants_remove(variants.drop_first(), i - 1);
        assert(variants.remove(i).drop_first() =~= variants.drop_first().remove(i - 1));
        assert(variants.remove(i)[0] == variants[0]);
    }
}

proof fn lemma_render_prune_item(item: ItemV, level: nat, index: nat)
    ensures
        crate::prune::prune_item_v(item, level, index) matches Ok(item2) ==> render_item_v(
            item2,
        ).len() <= render_item_v(item).len(),
    decreases item, level,
{
    match item {
        ItemV::Mod { attrs, name, inline, body } => {
            if inline {
                lemma_render_prune_items(body, (level - 1) as nat, index);
            }
        },
        ItemV::Impl { attrs, header, members } => {
            if level == 1 && index < members.len() {
                lemma_render_members_remove(members, index as int);
            }
        },
        ItemV::Struct { attrs, header, fields } => {
            if level == 1 && index < fields.len() {
                lemma_render_fields_remove(fields, index as int);
            }
        },
        ItemV::Enum { attrs, header, variants } => {
            if level == 1 && index < variants.len() {
                lemma_render_variants_remove(variants, index as int);
            }
        },
        ItemV::Func { .. } => {},
        ItemV::Other { .. } => {},
    }
}

proof fn lemma_render_prune_items(items: Seq<ItemV>, level: nat, index: nat)
    ensures
        crate::prune::prune_items_v(items, level, index) matches Ok(items2) ==> render_items_v(
            items2,
        ).len() <= render_items_v(items).len(),
    decreases items, level,
{
    if level == 0 {
        if index < items.len() {
            lemma_render_items_remove(items, index as int);
        }
    } else if items.len() > 0 {
        lemma_render_prune_item(items[0], level, index);
        match crate::prune::prune_item_v(items[0], level, index) {
            Ok(item2) => {
                let out = seq![item2] + items.drop_first();
                assert(out[0] == item2);
                assert(out.drop_first() =~= items.drop_first());
            },
            Err(rem) => {
                lemma_render_prune_items(items.drop_first(), level, rem);
                match crate::prune::prune_items_v(items.drop_first(), level, rem) {
                    Ok(rest) => {
                        let out = seq![items[0]] + rest;
                        assert(out[0] == items[0]);
                        assert(out.drop_first() =~= rest);
                    },
                    Err(_) => {},
                }
            },
        }
    }
}

/// A pruning never makes the rendering longer.
pub proof fn prune_never_grows(f: SourceFileV, level: nat, index: nat)
    ensures
        crate::prune::prune_file_v(f, level, index) matches Some(f2) ==> render_file_v(f2).len()
            <= render_file_v(f).len(),
{
    lemma_render_prune_items(f.items, level, index);
}

// ---------------------------------------------------------------------------
// Block clearing is bounded by the placeholder
// ---------------------------------------------------------------------------

proof fn lemma_render_set_block_block(b: BlockV, n: int, nb: BlockV)
    requires
        0 <= n < crate::blocks::blocks_in_block(b).len(),
        render_block_v(nb).len() <= render_block_v(crate::blocks::blocks_in_block(b)[n]).len(),
    ensures
        render_block_v(crate::blocks::set_block_in_block(b, n, nb)).len() <= render_block_v(
            b,
        ).len(),
    decreases b,
{
    if n == 0 {
        assert(crate::blocks::blocks_in_block(b)[0] == b);
    } else {
        assert(crate::blocks::blocks_in_block(b)[n] == crate::blocks::blocks_in_stmts(b.stmts)[n
            - 1]);
        lemma_render_set_block_stmts(b.stmts, n - 1, nb);
    }
}

proof fn lemma_render_set_block_stmt(s: StmtV, n: int, nb: BlockV)
    requires
        0 <= n < crate::blocks::blocks_in_stmt(s).len(),
        render_block_v(nb).len() <= render_block_v(crate::blocks::blocks_in_stmt(s)[n]).len(),
    ensures
        render_stmt_v(crate::blocks::set_block_in_stmt(s, n, nb)).len() <= render_stmt_v(s).len(),
    decreases s,
{
    match s {
        StmtV::Nested { body, .. } => {
            lemma_render_set_block_block(body, n, nb);
        },
        _ => {},
    }
}

proof fn lemma_render_set_block_stmts(stmts: Seq<StmtV>, n: int, nb: BlockV)
    requires
        0 <= n < crate::blocks::blocks_in_stmts(stmts).len(),
        render_block_v(nb).len() <= render_block_v(crate::blocks::blocks_in_stmts(stmts)[n]).len(),
    ensures
        render_stmts_v(crate::blocks::set_block_in_stmts(stmts, n, nb)).len() <= render_stmts_v(
            stmts,
        ).len(),
    decreases stmts,
{
    let c = crate::blocks::blocks_in_stmt(stmts[0]).len();
    let t2 = crate::blocks::set_block_in_stmts(stmts, n, nb);
    if n < c {
        assert(crate::blocks::blocks_in_stmts(stmts)[n] == crate::blocks::blocks_in_stmt(stmts[0])[
            n
        ]);
        lemma_render_set_block_stmt(stmts[0], n, nb);
        assert(t2[0] == crate::blocks::set_block_in_stmt(stmts[0], n, nb));
        assert(t2.drop_first() =~= stmts.drop_first());
    } else {
        assert(crate::blocks::blocks_in_stmts(stmts)[n] == crate::blocks::blocks_in_stmts(
            stmts.drop_first(),
        )[n - c]);
        lemma_render_set_block_stmts(stmts.drop_first(), n - c, nb);
        assert(t2[0] == stmts[0]);
        assert(t2.drop_first() =~= crate::blocks::set_block_in_stmts(stmts.drop_first(), n - c, nb));
    }
}

proof fn lemma_render_set_block_member(m: ImplMemberV, n: int, nb: BlockV)
    requires
        0 <= n < crate::blocks::blocks_in_member(m).len(),
        render_block_v(nb).len() <= render_block_v(crate::blocks::blocks_in_member(m)[n]).len(),
    ensures
        render_member_v(crate::blocks::set_block_in_member(m, n, nb)).len() <= render_member_v(
            m,
        ).len(),
    decreases m,
{
    match m {
        ImplMemberV::Method { body, .. } => {
            lemma_render_set_block_block(body, n, nb);
        },
        ImplMemberV::Opaque { .. } => {},
    }
}

proof fn lemma_render_set_block_members(members: Seq<ImplMemberV>, n: int, nb: BlockV)
    requires
        0 <= n < crate::blocks::blocks_in_members(members).len(),
        render_block_v(nb).len() <= render_block_v(
            crate::blocks::blocks_in_members(members)[n],
        ).len(),
    ensures
        render_members_v(crate::blocks::set_block_in_members(members, n, nb)).len()
            <= render_members_v(members).len(),
    decreases members,
{
    let c = crate::blocks::blocks_in_member(members[0]).len();
    let t2 = crate::blocks::set_block_in_members(members, n, nb);
    if n < c {
        assert(crate::blocks::blocks_in_members(members)[n] == crate::blocks::blocks_in_member(
            members[0],
        )[n]);
        lemma_render_set_block_member(members[0], n, nb);
        assert(t2[0] == crate::blocks::set_block_in_member(members[0], n, nb));
        assert(t2.drop_first() =~= members.drop_first());
    } else {
        assert(crate::blocks::blocks_in_members(members)[n] == crate::blocks::blocks_in_members(
            members.drop_first(),
        )[n - c]);
        lemma_render_set_block_members(members.drop_first(), n - c, nb);
        assert(t2[0] == members[0]);
        assert(t2.drop_first() =~= crate::blocks::set_block_in_members(
            members.drop_first(),
            n - c,
            nb,
        ));
    }
}

proof fn lemma_render_set_block_item(item: ItemV, n: int, nb: BlockV)
    requires
        0 <= n < crate::blocks::blocks_in_item(item).len(),
        render_block_v(nb).len() <= render_block_v(crate::blocks::blocks_in_item(item)[n]).len(),
    ensures
        render_item_v(crate::blocks::set_block_in_item(item, n, nb)).len() <= render_item_v(
            item,
        ).len(),
    decreases item,
{
    match item {
        ItemV::Mod { body, .. } => {
            lemma_render_set_block_items(body, n, nb);
        },
        ItemV::Impl { members, .. } => {
            lemma_render_set_block_members(members, n, nb);
        },
        ItemV::Func { body, .. } => {
            lemma_render_set_block_block(body, n, nb);
        },
        _ => {},
    }
}

proof fn lemma_render_set_block_items(items: Seq<ItemV>, n: int, nb: BlockV)
    requires
        0 <= n < crate::blocks::blocks_in_items(items).len(),
        render_block_v(nb).len() <= render_block_v(crate::blocks::blocks_in_items(items)[n]).len(),
    ensures
        render_items_v(crate::blocks::set_block_in_items(items, n, nb)).len() <= render_items_v(
            items,
        ).len(),
    decreases items,
{
    let c = crate::blocks::blocks_in_item(items[0]).len();
    let t2 = crate::blocks::set_block_in_items(items, n, nb);
    if n < c {
        assert(crate::blocks::blocks_in_items(items)[n] == crate::blocks::blocks_in_item(items[0])[
            n
        ]);
        lemma_render_set_block_item(items[0], n, nb);
        assert(t2[0] == crate::blocks::set_block_in_item(items[0], n, nb));
        assert(t2.drop_first() =~= items.drop_first());
    } else {
        assert(crate::blocks::blocks_in_items(items)[n] == crate::blocks::blocks_in_items(
            items.drop_first(),
        )[n - c]);
        lemma_render_set_block_items(items.drop_first(), n - c, nb);
        assert(t2[0] == items[0]);
        assert(t2.drop_first() =~= crate::blocks::set_block_in_items(
            items.drop_first(),
            n - c,
            nb,
        ));
    }
}

/// Clearing a block never makes the rendering longer, provided the cleared
/// block renders at least as long as the placeholder.  A body shorter than
/// the placeholder — an empty body, say — falls outside this premise.
pub proof fn block_clear_bounded(f: SourceFileV, n: int)
    requires
        0 <= n < crate::blocks::blocks_in_file(f).len(),
        render_block_v(crate::ast::placeholder_block_v()).len() <= render_block_v(
            crate::blocks::blocks_in_file(f)[n],
        ).len(),
    ensures
        render_file_v(
            crate::blocks::set_block_in_file(f, n, crate::ast::placeholder_block_v()),
        ).len() <= render_file_v(f).len(),
{
    lemma_render_set_block_items(f.items, n, crate::ast::placeholder_block_v());
}

} // verus!
