//! Attribute containers, numbered in traversal order.
//!
//! Both attribute passes (derive stripping and doc stripping) see the tree as
//! a flat list of attribute containers: the file's own attributes first, then
//! for each item its attribute list followed by the lists of what it holds
//! (module contents recursively; impl members; struct fields; enum variants).
//! `attr_lists_file` is that flat list; `set_attrs_file` rewrites one entry.

use vstd::prelude::*;

use crate::ast::Attr;
use crate::ast::AttrV;
use crate::ast::FieldV;
use crate::ast::FieldDecl;
use crate::ast::ImplMember;
use crate::ast::ImplMemberV;
use crate::ast::Item;
use crate::ast::ItemV;
use crate::ast::SourceFile;
use crate::ast::SourceFileV;
use crate::ast::VariantDecl;
use crate::ast::VariantV;
use crate::ast::attrs_view;
use crate::ast::dup_attrs;
use crate::ast::item_view;
use crate::ast::items_seq_view;
use crate::ast::lemma_items_view_index;
use crate::ast::lemma_items_view_len;
use crate::ast::lemma_members_view_index;
use crate::ast::lemma_members_view_len;
use crate::ast::member_view;
use crate::ast::members_view;

verus! {

broadcast use lemma_items_view_len, lemma_items_view_index, lemma_members_view_len,
    lemma_members_view_index;

// ---------------------------------------------------------------------------
// Container counting and listing
// ---------------------------------------------------------------------------

pub open spec fn member_attrs(m: ImplMemberV) -> Seq<AttrV> {
    match m {
        ImplMemberV::Method { attrs, .. } => attrs,
        ImplMemberV::Opaque { attrs, .. } => attrs,
    }
}

pub open spec fn attr_lists_members(members: Seq<ImplMemberV>) -> Seq<Seq<AttrV>>
    decreases members,
{
    if members.len() == 0 {
        Seq::empty()
    } else {
        seq![member_attrs(members[0])] + attr_lists_members(members.drop_first())
    }
}

pub open spec fn attr_lists_fields(fields: Seq<FieldV>) -> Seq<Seq<AttrV>>
    decreases fields,
{
    if fields.len() == 0 {
        Seq::empty()
    } else {
        seq![fields[0].attrs] + attr_lists_fields(fields.drop_first())
    }
}

pub open spec fn attr_lists_variants(variants: Seq<VariantV>) -> Seq<Seq<AttrV>>
    decreases variants,
{
    if variants.len() == 0 {
        Seq::empty()
    } else {
        seq![variants[0].attrs] + attr_lists_variants(variants.drop_first())
    }
}

pub open spec fn attr_lists_item(item: ItemV) -> Seq<Seq<AttrV>>
    decreases item,
{
    match item {
        ItemV::Mod { attrs, body, .. } => seq![attrs] + attr_lists_items(body),
        ItemV::Impl { attrs, members, .. } => seq![attrs] + attr_lists_members(members),
        ItemV::Struct { attrs, fields, .. } => seq![attrs] + attr_lists_fields(fields),
        ItemV::Enum { attrs, variants, .. } => seq![attrs] + attr_lists_variants(variants),
        ItemV::Func { attrs, .. } => seq![attrs],
        ItemV::Other { attrs, .. } => seq![attrs],
    }
}

pub open spec fn attr_lists_items(items: Seq<ItemV>) -> Seq<Seq<AttrV>>
    decreases items,
{
    if items.len() == 0 {
        Seq::empty()
    } else {
        attr_lists_item(items[0]) + attr_lists_items(items.drop_first())
    }
}

pub open spec fn attr_lists_file(f: SourceFileV) -> Seq<Seq<AttrV>> {
    seq![f.attrs] + attr_lists_items(f.items)
}

// ---------------------------------------------------------------------------
// Rewriting the container at one index
// ---------------------------------------------------------------------------

pub open spec fn set_attrs_members(members: Seq<ImplMemberV>, n: int, a: Seq<AttrV>) -> Seq<
    ImplMemberV,
>
    decreases members,
{
    if members.len() == 0 {
        members
    } else if n == 0 {
        members.update(
            0,
            match members[0] {
                ImplMemberV::Method { attrs, sig, body } => ImplMemberV::Method {
                    attrs: a,
                    sig,
                    body,
                },
                ImplMemberV::Opaque { attrs, text } => ImplMemberV::Opaque { attrs: a, text },
            },
        )
    } else {
        seq![members[0]] + set_attrs_members(members.drop_first(), n - 1, a)
    }
}

pub open spec fn set_attrs_fields(fields: Seq<FieldV>, n: int, a: Seq<AttrV>) -> Seq<FieldV>
    decreases fields,
{
    if fields.len() == 0 {
        fields
    } else if n == 0 {
        fields.update(0, FieldV { attrs: a, text: fields[0].text })
    } else {
        seq![fields[0]] + set_attrs_fields(fields.drop_first(), n - 1, a)
    }
}

pub open spec fn set_attrs_variants(variants: Seq<VariantV>, n: int, a: Seq<AttrV>) -> Seq<VariantV>
    decreases variants,
{
    if variants.len() == 0 {
        variants
    } else if n == 0 {
        variants.update(0, VariantV { attrs: a, text: variants[0].text })
    } else {
        seq![variants[0]] + set_attrs_variants(variants.drop_first(), n - 1, a)
    }
}

pub open spec fn set_attrs_item(item: ItemV, n: int, a: Seq<AttrV>) -> ItemV
    decreases item,
{
    if n == 0 {
        match item {
            ItemV::Mod { attrs, name, inline, body } => ItemV::Mod { attrs: a, name, inline, body },
            ItemV::Impl { attrs, header, members } => ItemV::Impl { attrs: a, header, members },
            ItemV::Struct { attrs, header, fields } => ItemV::Struct { attrs: a, header, fields },
            ItemV::Enum { attrs, header, variants } => ItemV::Enum { attrs: a, header, variants },
            ItemV::Func { attrs, sig, body } => ItemV::Func { attrs: a, sig, body },
            ItemV::Other { attrs, text } => ItemV::Other { attrs: a, text },
        }
    } else {
        match item {
            ItemV::Mod { attrs, name, inline, body } => ItemV::Mod {
                attrs,
                name,
                inline,
                body: set_attrs_items(body, n - 1, a),
            },
            ItemV::Impl { attrs, header, members } => ItemV::Impl {
                attrs,
                header,
                members: set_attrs_members(members, n - 1, a),
            },
            ItemV::Struct { attrs, header, fields } => ItemV::Struct {
                attrs,
                header,
                fields: set_attrs_fields(fields, n - 1, a),
            },
            ItemV::Enum { attrs, header, variants } => ItemV::Enum {
                attrs,
                header,
                variants: set_attrs_variants(variants, n - 1, a),
            },
            ItemV::Func { .. } => item,
            ItemV::Other { .. } => item,
        }
    }
}

pub open spec fn set_attrs_items(items: Seq<ItemV>, n: int, a: Seq<AttrV>) -> Seq<ItemV>
    decreases items,
{
    if items.len() == 0 {
        items
    } else {
        let c = attr_lists_item(items[0]).len();
        if n < c {
            items.update(0, set_attrs_item(items[0], n, a))
        } else {
            seq![items[0]] + set_attrs_items(items.drop_first(), n - c, a)
        }
    }
}

pub open spec fn set_attrs_file(f: SourceFileV, n: int, a: Seq<AttrV>) -> SourceFileV {
    if n == 0 {
        SourceFileV { attrs: a, items: f.items }
    } else {
        SourceFileV { attrs: f.attrs, items: set_attrs_items(f.items, n - 1, a) }
    }
}

// ---------------------------------------------------------------------------
// Laws of the container list
// ---------------------------------------------------------------------------

pub proof fn lemma_attr_lists_members_update(
    members: Seq<ImplMemberV>,
    n: int,
    a: Seq<AttrV>,
)
    requires
        0 <= n < attr_lists_members(members).len(),
    ensures
        attr_lists_members(members).len() == members.len(),
        attr_lists_members(set_attrs_members(members, n, a)) == attr_lists_members(members).update(
            n,
            a,
        ),
    decreases members,
{
    lemma_attr_lists_members_len(members);
    if members.len() > 0 {
        lemma_attr_lists_members_len(members.drop_first());
        if n == 0 {
            let m2 = set_attrs_members(members, 0, a);
            assert(m2.drop_first() =~= members.drop_first());
            assert(member_attrs(m2[0]) == a);
            assert(attr_lists_members(m2) =~= attr_lists_members(members).update(0, a));
        } else {
            lemma_attr_lists_members_update(members.drop_first(), n - 1, a);
            let m2 = set_attrs_members(members, n, a);
            assert(m2.drop_first() =~= set_attrs_members(members.drop_first(), n - 1, a));
            assert(m2[0] == members[0]);
            assert(attr_lists_members(m2) =~= attr_lists_members(members).update(n, a));
        }
    }
}

pub proof fn lemma_attr_lists_members_len(members: Seq<ImplMemberV>)
    ensures
        attr_lists_members(members).len() == members.len(),
    decreases members,
{
    if members.len() > 0 {
        lemma_attr_lists_members_len(members.drop_first());
    }
}

pub proof fn lemma_attr_lists_members_id(members: Seq<ImplMemberV>, n: int)
    requires
        0 <= n < members.len(),
    ensures
        attr_lists_members(members).len() == members.len(),
        set_attrs_members(members, n, attr_lists_members(members)[n]) == members,
    decreases members,
{
    lemma_attr_lists_members_len(members);
    if members.len() > 0 {
        if n == 0 {
            assert(attr_lists_members(members)[0] == member_attrs(members[0]));
            assert(set_attrs_members(members, 0, member_attrs(members[0])) =~= members);
        } else {
            lemma_attr_lists_members_id(members.drop_first(), n - 1);
            assert(attr_lists_members(members)[n] == attr_lists_members(members.drop_first())[n
                - 1]);
            assert(set_attrs_members(members, n, attr_lists_members(members)[n]) =~= members);
        }
    }
}

pub proof fn lemma_attr_lists_fields_len(fields: Seq<FieldV>)
    ensures
        attr_lists_fields(fields).len() == fields.len(),
    decreases fields,
{
    if fields.len() > 0 {
        lemma_attr_lists_fields_len(fields.drop_first());
    }
}

pub proof fn lemma_attr_lists_fields_update(fields: Seq<FieldV>, n: int, a: Seq<AttrV>)
    requires
        0 <= n < attr_lists_fields(fields).len(),
    ensures
        attr_lists_fields(fields).len() == fields.len(),
        attr_lists_fields(set_attrs_fields(fields, n, a)) == attr_lists_fields(fields).update(n, a),
    decreases fields,
{
    lemma_attr_lists_fields_len(fields);
    if fields.len() > 0 {
        lemma_attr_lists_fields_len(fields.drop_first());
        if n == 0 {
            let f2 = set_attrs_fields(fields, 0, a);
            assert(f2.drop_first() =~= fields.drop_first());
            assert(attr_lists_fields(f2) =~= attr_lists_fields(fields).update(0, a));
        } else {
            lemma_attr_lists_fields_update(fields.drop_first(), n - 1, a);
            let f2 = set_attrs_fields(fields, n, a);
            assert(f2.drop_first() =~= set_attrs_fields(fields.drop_first(), n - 1, a));
            assert(attr_lists_fields(f2) =~= attr_lists_fields(fields).update(n, a));
        }
    }
}

pub proof fn lemma_attr_lists_fields_id(fields: Seq<FieldV>, n: int)
    requires
        0 <= n < fields.len(),
    ensures
        attr_lists_fields(fields).len() == fields.len(),
        set_attrs_fields(fields, n, attr_lists_fields(fields)[n]) == fields,
    decreases fields,
{
    lemma_attr_lists_fields_len(fields);
    if fields.len() > 0 {
        if n == 0 {
            assert(set_attrs_fields(fields, 0, fields[0].attrs) =~= fields);
        } else {
            lemma_attr_lists_fields_id(fields.drop_first(), n - 1);
            assert(set_attrs_fields(fields, n, attr_lists_fields(fields)[n]) =~= fields);
        }
    }
}

pub proof fn lemma_attr_lists_variants_len(variants: Seq<VariantV>)
    ensures
        attr_lists_variants(variants).len() == variants.len(),
    decreases variants,
{
    if variants.len() > 0 {
        lemma_attr_lists_variants_len(variants.drop_first());
    }
}

pub proof fn lemma_attr_lists_variants_update(variants: Seq<VariantV>, n: int, a: Seq<AttrV>)
    requires
        0 <= n < attr_lists_variants(variants).len(),
    ensures
        attr_lists_variants(variants).len() == variants.len(),
        attr_lists_variants(set_attrs_variants(variants, n, a)) == attr_lists_variants(
            variants,
        ).update(n, a),
    decreases variants,
{
    lemma_attr_lists_variants_len(variants);
    if variants.len() > 0 {
        lemma_attr_lists_variants_len(variants.drop_first());
        if n == 0 {
            let v2 = set_attrs_variants(variants, 0, a);
            assert(v2.drop_first() =~= variants.drop_first());
            assert(attr_lists_variants(v2) =~= attr_lists_variants(variants).update(0, a));
        } else {
            lemma_attr_lists_variants_update(variants.drop_first(), n - 1, a);
            let v2 = set_attrs_variants(variants, n, a);
            assert(v2.drop_first() =~= set_attrs_variants(variants.drop_first(), n - 1, a));
            assert(attr_lists_variants(v2) =~= attr_lists_variants(variants).update(n, a));
        }
    }
}

pub proof fn lemma_attr_lists_variants_id(variants: Seq<VariantV>, n: int)
    requires
        0 <= n < variants.len(),
    ensures
        attr_lists_variants(variants).len() == variants.len(),
        set_attrs_variants(variants, n, attr_lists_variants(variants)[n]) == variants,
    decreases variants,
{
    lemma_attr_lists_variants_len(variants);
    if variants.len() > 0 {
        if n == 0 {
            assert(set_attrs_variants(variants, 0, variants[0].attrs) =~= variants);
        } else {
            lemma_attr_lists_variants_id(variants.drop_first(), n - 1);
            assert(set_attrs_variants(variants, n, attr_lists_variants(variants)[n]) =~= variants);
        }
    }
}

/// Rewriting container `n` updates entry `n` of the flat list and nothing else.
pub proof fn lemma_attr_lists_item_update(item: ItemV, n: int, a: Seq<AttrV>)
    requires
        0 <= n < attr_lists_item(item).len(),
    ensures
        attr_lists_item(set_attrs_item(item, n, a)) == attr_lists_item(item).update(n, a),
    decreases item,
{
    if n == 0 {
        let i2 = set_attrs_item(item, 0, a);
        match item {
            ItemV::Mod { .. } => {
                assert(attr_lists_item(i2) =~= attr_lists_item(item).update(0, a));
            },
            ItemV::Impl { .. } => {
                assert(attr_lists_item(i2) =~= attr_lists_item(item).update(0, a));
            },
            ItemV::Struct { .. } => {
                assert(attr_lists_item(i2) =~= attr_lists_item(item).update(0, a));
            },
            ItemV::Enum { .. } => {
                assert(attr_lists_item(i2) =~= attr_lists_item(item).update(0, a));
            },
            ItemV::Func { .. } => {
                assert(attr_lists_item(i2) =~= attr_lists_item(item).update(0, a));
            },
            ItemV::Other { .. } => {
                assert(attr_lists_item(i2) =~= attr_lists_item(item).update(0, a));
            },
        }
    } else {
        match item {
            ItemV::Mod { attrs, name, inline, body } => {
                lemma_attr_lists_items_update(body, n - 1, a);
                assert(attr_lists_item(set_attrs_item(item, n, a)) =~= attr_lists_item(
                    item,
                ).update(n, a));
            },
            ItemV::Impl { attrs, header, members } => {
                lemma_attr_lists_members_update(members, n - 1, a);
                assert(attr_lists_item(set_attrs_item(item, n, a)) =~= attr_lists_item(
                    item,
                ).update(n, a));
            },
            ItemV::Struct { attrs, header, fields } => {
                lemma_attr_lists_fields_update(fields, n - 1, a);
                assert(attr_lists_item(set_attrs_item(item, n, a)) =~= attr_lists_item(
                    item,
                ).update(n, a));
            },
            ItemV::Enum { attrs, header, variants } => {
                lemma_attr_lists_variants_update(variants, n - 1, a);
                assert(attr_lists_item(set_attrs_item(item, n, a)) =~= attr_lists_item(
                    item,
                ).update(n, a));
            },
            ItemV::Func { .. } => {},
            ItemV::Other { .. } => {},
        }
    }
}

pub proof fn lemma_attr_lists_items_update(items: Seq<ItemV>, n: int, a: Seq<AttrV>)
    requires
        0 <= n < attr_lists_items(items).len(),
    ensures
        attr_lists_items(set_attrs_items(items, n, a)) == attr_lists_items(items).update(n, a),
    decreases items,
{
    if items.len() > 0 {
        let c = attr_lists_item(items[0]).len();
        if n < c {
            lemma_attr_lists_item_update(items[0], n, a);
            let t2 = set_attrs_items(items, n, a);
            assert(t2[0] == set_attrs_item(items[0], n, a));
            assert(t2.drop_first() =~= items.drop_first());
            assert(attr_lists_items(t2) =~= attr_lists_items(items).update(n, a));
        } else {
            lemma_attr_lists_items_update(items.drop_first(), n - c, a);
            let t2 = set_attrs_items(items, n, a);
            assert(t2.drop_first() =~= set_attrs_items(items.drop_first(), n - c, a));
            assert(t2[0] == items[0]);
            assert(attr_lists_items(t2) =~= attr_lists_items(items).update(n, a));
        }
    }
}

/// Putting a container's own list back leaves the tree unchanged.
pub proof fn lemma_attr_lists_item_id(item: ItemV, n: int)
    requires
        0 <= n < attr_lists_item(item).len(),
    ensures
        set_attrs_item(item, n, attr_lists_item(item)[n]) == item,
    decreases item,
{
    if n == 0 {
        match item {
            ItemV::Mod { .. } => {},
            ItemV::Impl { .. } => {},
            ItemV::Struct { .. } => {},
            ItemV::Enum { .. } => {},
            ItemV::Func { .. } => {},
            ItemV::Other { .. } => {},
        }
    } else {
        match item {
            ItemV::Mod { attrs, name, inline, body } => {
                lemma_attr_lists_items_id(body, n - 1);
            },
            ItemV::Impl { attrs, header, members } => {
                lemma_attr_lists_members_len(members);
                lemma_attr_lists_members_id(members, n - 1);
            },
            ItemV::Struct { attrs, header, fields } => {
                lemma_attr_lists_fields_len(fields);
                lemma_attr_lists_fields_id(fields, n - 1);
            },
            ItemV::Enum { attrs, header, variants } => {
                lemma_attr_lists_variants_len(variants);
                lemma_attr_lists_variants_id(variants, n - 1);
            },
            ItemV::Func { .. } => {},
            ItemV::Other { .. } => {},
        }
    }
}

pub proof fn lemma_attr_lists_items_id(items: Seq<ItemV>, n: int)
    requires
        0 <= n < attr_lists_items(items).len(),
    ensures
        set_attrs_items(items, n, attr_lists_items(items)[n]) == items,
    decreases items,
{
    if items.len() > 0 {
        let c = attr_lists_item(items[0]).len();
        if n < c {
            lemma_attr_lists_item_id(items[0], n);
            assert(set_attrs_items(items, n, attr_lists_items(items)[n]) =~= items);
        } else {
            lemma_attr_lists_items_id(items.drop_first(), n - c);
            assert(attr_lists_items(items)[n] == attr_lists_items(items.drop_first())[n - c]);
            assert(set_attrs_items(items, n, attr_lists_items(items)[n]) =~= items);
        }
    }
}

pub proof fn lemma_attr_lists_file_update(f: SourceFileV, n: int, a: Seq<AttrV>)
    requires
        0 <= n < attr_lists_file(f).len(),
    ensures
        attr_lists_file(set_attrs_file(f, n, a)) == attr_lists_file(f).update(n, a),
{
    if n == 0 {
        assert(attr_lists_file(set_attrs_file(f, 0, a)) =~= attr_lists_file(f).update(0, a));
    } else {
        lemma_attr_lists_items_update(f.items, n - 1, a);
        assert(attr_lists_file(set_attrs_file(f, n, a)) =~= attr_lists_file(f).update(n, a));
    }
}

pub proof fn lemma_attr_lists_file_id(f: SourceFileV, n: int)
    requires
        0 <= n < attr_lists_file(f).len(),
    ensures
        set_attrs_file(f, n, attr_lists_file(f)[n]) == f,
{
    if n == 0 {
        assert(set_attrs_file(f, 0, attr_lists_file(f)[0]) =~= f);
    } else {
        lemma_attr_lists_items_id(f.items, n - 1);
        assert(set_attrs_file(f, n, attr_lists_file(f)[n]) =~= f);
    }
}

pub proof fn lemma_set_attrs_members_twice(
    members: Seq<ImplMemberV>,
    n: int,
    a: Seq<AttrV>,
    b: Seq<AttrV>,
)
    requires
        0 <= n < members.len(),
    ensures
        set_attrs_members(set_attrs_members(members, n, a), n, b) == set_attrs_members(
            members,
            n,
            b,
        ),
    decreases members,
{
    if n == 0 {
        assert(set_attrs_members(set_attrs_members(members, 0, a), 0, b) =~= set_attrs_members(
            members,
            0,
            b,
        ));
    } else {
        lemma_set_attrs_members_twice(members.drop_first(), n - 1, a, b);
        assert(set_attrs_members(members, n, a).drop_first() =~= set_attrs_members(
            members.drop_first(),
            n - 1,
            a,
        ));
        assert(set_attrs_members(set_attrs_members(members, n, a), n, b) =~= set_attrs_members(
            members,
            n,
            b,
        ));
    }
}

pub proof fn lemma_set_attrs_fields_twice(fields: Seq<FieldV>, n: int, a: Seq<AttrV>, b: Seq<AttrV>)
    requires
        0 <= n < fields.len(),
    ensures
        set_attrs_fields(set_attrs_fields(fields, n, a), n, b) == set_attrs_fields(fields, n, b),
    decreases fields,
{
    if n == 0 {
        assert(set_attrs_fields(set_attrs_fields(fields, 0, a), 0, b) =~= set_attrs_fields(
            fields,
            0,
            b,
        ));
    } else {
        lemma_set_attrs_fields_twice(fields.drop_first(), n - 1, a, b);
        assert(set_attrs_fields(fields, n, a).drop_first() =~= set_attrs_fields(
            fields.drop_first(),
            n - 1,
            a,
        ));
        assert(set_attrs_fields(set_attrs_fields(fields, n, a), n, b) =~= set_attrs_fields(
            fields,
            n,
            b,
        ));
    }
}

pub proof fn lemma_set_attrs_variants_twice(
    variants: Seq<VariantV>,
    n: int,
    a: Seq<AttrV>,
    b: Seq<AttrV>,
)
    requires
        0 <= n < variants.len(),
    ensures
        set_attrs_variants(set_attrs_variants(variants, n, a), n, b) == set_attrs_variants(
            variants,
            n,
            b,
        ),
    decreases variants,
{
    if n == 0 {
        assert(set_attrs_variants(set_attrs_variants(variants, 0, a), 0, b) =~= set_attrs_variants(
            variants,
            0,
            b,
        ));
    } else {
        lemma_set_attrs_variants_twice(variants.drop_first(), n - 1, a, b);
        assert(set_attrs_variants(variants, n, a).drop_first() =~= set_attrs_variants(
            variants.drop_first(),
            n - 1,
            a,
        ));
        assert(set_attrs_variants(set_attrs_variants(variants, n, a), n, b) =~= set_attrs_variants(
            variants,
            n,
            b,
        ));
    }
}

pub proof fn lemma_set_attrs_item_twice(item: ItemV, n: int, a: Seq<AttrV>, b: Seq<AttrV>)
    requires
        0 <= n < attr_lists_item(item).len(),
    ensures
        set_attrs_item(set_attrs_item(item, n, a), n, b) == set_attrs_item(item, n, b),
    decreases item,
{
    if n > 0 {
        match item {
            ItemV::Mod { attrs, name, inline, body } => {
                lemma_set_attrs_items_twice(body, n - 1, a, b);
            },
            ItemV::Impl { attrs, header, members } => {
                lemma_attr_lists_members_len(members);
                lemma_set_attrs_members_twice(members, n - 1, a, b);
            },
            ItemV::Struct { attrs, header, fields } => {
                lemma_attr_lists_fields_len(fields);
                lemma_set_attrs_fields_twice(fields, n - 1, a, b);
            },
            ItemV::Enum { attrs, header, variants } => {
                lemma_attr_lists_variants_len(variants);
                lemma_set_attrs_variants_twice(variants, n - 1, a, b);
            },
            ItemV::Func { .. } => {},
            ItemV::Other { .. } => {},
        }
    }
}

pub proof fn lemma_set_attrs_items_twice(items: Seq<ItemV>, n: int, a: Seq<AttrV>, b: Seq<AttrV>)
    requires
        0 <= n < attr_lists_items(items).len(),
    ensures
        set_attrs_items(set_attrs_items(items, n, a), n, b) == set_attrs_items(items, n, b),
    decreases items,
{
    if items.len() > 0 {
        let c = attr_lists_item(items[0]).len();
        let t2 = set_attrs_items(items, n, a);
        if n < c {
            lemma_set_attrs_item_twice(items[0], n, a, b);
            lemma_attr_lists_item_update(items[0], n, a);
            assert(t2[0] == set_attrs_item(items[0], n, a));
            assert(attr_lists_item(t2[0]).len() == c);
            assert(set_attrs_items(t2, n, b) =~= set_attrs_items(items, n, b));
        } else {
            lemma_set_attrs_items_twice(items.drop_first(), n - c, a, b);
            assert(t2[0] == items[0]);
            assert(t2.drop_first() =~= set_attrs_items(items.drop_first(), n - c, a));
            assert(set_attrs_items(t2, n, b) =~= set_attrs_items(items, n, b));
        }
    }
}

pub proof fn lemma_set_attrs_file_twice(f: SourceFileV, n: int, a: Seq<AttrV>, b: Seq<AttrV>)
    requires
        0 <= n < attr_lists_file(f).len(),
    ensures
        set_attrs_file(set_attrs_file(f, n, a), n, b) == set_attrs_file(f, n, b),
{
    if n == 0 {
        assert(set_attrs_file(set_attrs_file(f, 0, a), 0, b) =~= set_attrs_file(f, 0, b));
    } else {
        lemma_set_attrs_items_twice(f.items, n - 1, a, b);
        assert(set_attrs_file(set_attrs_file(f, n, a), n, b) =~= set_attrs_file(f, n, b));
    }
}

// ---------------------------------------------------------------------------
// Looking one container up
// ---------------------------------------------------------------------------

pub open spec fn lookup_members(members: Seq<ImplMemberV>, n: nat) -> Result<Seq<AttrV>, nat>
    decreases members,
{
    if members.len() == 0 {
        Err(n)
    } else if n == 0 {
        Ok(member_attrs(members[0]))
    } else {
        lookup_members(members.drop_first(), (n - 1) as nat)
    }
}

pub open spec fn lookup_fields(fields: Seq<FieldV>, n: nat) -> Result<Seq<AttrV>, nat>
    decreases fields,
{
    if fields.len() == 0 {
        Err(n)
    } else if n == 0 {
        Ok(fields[0].attrs)
    } else {
        lookup_fields(fields.drop_first(), (n - 1) as nat)
    }
}

pub open spec fn lookup_variants(variants: Seq<VariantV>, n: nat) -> Result<Seq<AttrV>, nat>
    decreases variants,
{
    if variants.len() == 0 {
        Err(n)
    } else if n == 0 {
        Ok(variants[0].attrs)
    } else {
        lookup_variants(variants.drop_first(), (n - 1) as nat)
    }
}

pub open spec fn lookup_item(item: ItemV, n: nat) -> Result<Seq<AttrV>, nat>
    decreases item,
{
    match item {
        ItemV::Mod { attrs, body, .. } => if n == 0 {
            Ok(attrs)
        } else {
            lookup_items(body, (n - 1) as nat)
        },
        ItemV::Impl { attrs, members, .. } => if n == 0 {
            Ok(attrs)
        } else {
            lookup_members(members, (n - 1) as nat)
        },
        ItemV::Struct { attrs, fields, .. } => if n == 0 {
            Ok(attrs)
        } else {
            lookup_fields(fields, (n - 1) as nat)
        },
        ItemV::Enum { attrs, variants, .. } => if n == 0 {
            Ok(attrs)
        } else {
            lookup_variants(variants, (n - 1) as nat)
        },
        ItemV::Func { attrs, .. } => if n == 0 {
            Ok(attrs)
        } else {
            Err((n - 1) as nat)
        },
        ItemV::Other { attrs, .. } => if n == 0 {
            Ok(attrs)
        } else {
            Err((n - 1) as nat)
        },
    }
}

pub open spec fn lookup_items(items: Seq<ItemV>, n: nat) -> Result<Seq<AttrV>, nat>
    decreases items,
{
    if items.len() == 0 {
        Err(n)
    } else {
        match lookup_item(items[0], n) {
            Ok(a) => Ok(a),
            Err(rem) => lookup_items(items.drop_first(), rem),
        }
    }
}

pub open spec fn lookup_file(f: SourceFileV, n: nat) -> Result<Seq<AttrV>, nat> {
    if n == 0 {
        Ok(f.attrs)
    } else {
        lookup_items(f.items, (n - 1) as nat)
    }
}

pub proof fn lemma_lookup_members(members: Seq<ImplMemberV>, n: nat)
    ensures
        match lookup_members(members, n) {
            Ok(a) => n < attr_lists_members(members).len() && a == attr_lists_members(members)[
                n as int
            ],
            Err(rem) => n >= attr_lists_members(members).len() && rem == n - attr_lists_members(
                members,
            ).len(),
        },
    decreases members,
{
    lemma_attr_lists_members_len(members);
    if members.len() > 0 && n > 0 {
        lemma_lookup_members(members.drop_first(), (n - 1) as nat);
        lemma_attr_lists_members_len(members.drop_first());
    }
}

pub proof fn lemma_lookup_fields(fields: Seq<FieldV>, n: nat)
    ensures
        match lookup_fields(fields, n) {
            Ok(a) => n < attr_lists_fields(fields).len() && a == attr_lists_fields(fields)[n as int],
            Err(rem) => n >= attr_lists_fields(fields).len() && rem == n - attr_lists_fields(
                fields,
            ).len(),
        },
    decreases fields,
{
    lemma_attr_lists_fields_len(fields);
    if fields.len() > 0 && n > 0 {
        lemma_lookup_fields(fields.drop_first(), (n - 1) as nat);
        lemma_attr_lists_fields_len(fields.drop_first());
    }
}

pub proof fn lemma_lookup_variants(variants: Seq<VariantV>, n: nat)
    ensures
        match lookup_variants(variants, n) {
            Ok(a) => n < attr_lists_variants(variants).len() && a == attr_lists_variants(variants)[
                n as int
            ],
            Err(rem) => n >= attr_lists_variants(variants).len() && rem == n - attr_lists_variants(
                variants,
            ).len(),
        },
    decreases variants,
{
    lemma_attr_lists_variants_len(variants);
    if variants.len() > 0 && n > 0 {
        lemma_lookup_variants(variants.drop_first(), (n - 1) as nat);
        lemma_attr_lists_variants_len(variants.drop_first());
    }
}

pub proof fn lemma_lookup_item(item: ItemV, n: nat)
    ensures
        match lookup_item(item, n) {
            Ok(a) => n < attr_lists_item(item).len() && a == attr_lists_item(item)[n as int],
            Err(rem) => n >= attr_lists_item(item).len() && rem == n - attr_lists_item(item).len(),
        },
    decreases item,
{
    if n > 0 {
        match item {
            ItemV::Mod { attrs, body, .. } => {
                lemma_lookup_items(body, (n - 1) as nat);
            },
            ItemV::Impl { attrs, members, .. } => {
                lemma_lookup_members(members, (n - 1) as nat);
            },
            ItemV::Struct { attrs, fields, .. } => {
                lemma_lookup_fields(fields, (n - 1) as nat);
            },
            ItemV::Enum { attrs, variants, .. } => {
                lemma_lookup_variants(variants, (n - 1) as nat);
            },
            ItemV::Func { .. } => {},
            ItemV::Other { .. } => {},
        }
    }
}

pub proof fn lemma_lookup_items(items: Seq<ItemV>, n: nat)
    ensures
        match lookup_items(items, n) {
            Ok(a) => n < attr_lists_items(items).len() && a == attr_lists_items(items)[n as int],
            Err(rem) => n >= attr_lists_items(items).len() && rem == n - attr_lists_items(
                items,
            ).len(),
        },
    decreases items,
{
    if items.len() > 0 {
        lemma_lookup_item(items[0], n);
        match lookup_item(items[0], n) {
            Ok(_) => {},
            Err(rem) => {
                lemma_lookup_items(items.drop_first(), rem);
            },
        }
    }
}

pub proof fn lemma_lookup_file(f: SourceFileV, n: nat)
    ensures
        match lookup_file(f, n) {
            Ok(a) => n < attr_lists_file(f).len() && a == attr_lists_file(f)[n as int],
            Err(rem) => n >= attr_lists_file(f).len() && rem == n - attr_lists_file(f).len(),
        },
{
    if n > 0 {
        lemma_lookup_items(f.items, (n - 1) as nat);
    }
}

// ---------------------------------------------------------------------------
// Executable access
// ---------------------------------------------------------------------------

fn get_in_members(members: &Vec<ImplMember>, n: usize) -> (r: Result<Vec<Attr>, usize>)
    ensures
        match r {
            Ok(a) => lookup_members(members_view(members@), n as nat) == Ok::<Seq<AttrV>, nat>(
                attrs_view(a),
            ),
            Err(rem) => lookup_members(members_view(members@), n as nat) == Err::<Seq<AttrV>, nat>(
                rem as nat,
            ),
        },
{
    let ghost mv = members_view(members@);
    proof {
        lemma_lookup_members(mv, n as nat);
        lemma_attr_lists_members_len(mv);
        if (n as nat) < mv.len() {
            lemma_lookup_members_index(mv, n as nat);
        }
    }
    if n < members.len() {
        match &members[n] {
            ImplMember::Method { attrs, .. } => Ok(dup_attrs(attrs)),
            ImplMember::Opaque { attrs, .. } => Ok(dup_attrs(attrs)),
        }
    } else {
        Err(n - members.len())
    }
}

proof fn lemma_lookup_members_index(members: Seq<ImplMemberV>, n: nat)
    requires
        n < members.len(),
    ensures
        lookup_members(members, n) == Ok::<Seq<AttrV>, nat>(member_attrs(members[n as int])),
    decreases members,
{
    if n > 0 {
        lemma_lookup_members_index(members.drop_first(), (n - 1) as nat);
    }
}

proof fn lemma_lookup_fields_index(fields: Seq<FieldV>, n: nat)
    requires
        n < fields.len(),
    ensures
        lookup_fields(fields, n) == Ok::<Seq<AttrV>, nat>(fields[n as int].attrs),
    decreases fields,
{
    if n > 0 {
        lemma_lookup_fields_index(fields.drop_first(), (n - 1) as nat);
    }
}

proof fn lemma_lookup_variants_index(variants: Seq<VariantV>, n: nat)
    requires
        n < variants.len(),
    ensures
        lookup_variants(variants, n) == Ok::<Seq<AttrV>, nat>(variants[n as int].attrs),
    decreases variants,
{
    if n > 0 {
        lemma_lookup_variants_index(variants.drop_first(), (n - 1) as nat);
    }
}

fn get_in_fields(fields: &Vec<FieldDecl>, n: usize) -> (r: Result<Vec<Attr>, usize>)
    ensures
        match r {
            Ok(a) => lookup_fields(Seq::new(fields@.len(), |i: int| fields@[i]@), n as nat) == Ok::<
                Seq<AttrV>,
                nat,
            >(attrs_view(a)),
            Err(rem) => lookup_fields(Seq::new(fields@.len(), |i: int| fields@[i]@), n as nat)
                == Err::<Seq<AttrV>, nat>(rem as nat),
        },
{
    let ghost fv = Seq::new(fields@.len(), |i: int| fields@[i]@);
    proof {
        lemma_lookup_fields(fv, n as nat);
        lemma_attr_lists_fields_len(fv);
        if (n as nat) < fv.len() {
            lemma_lookup_fields_index(fv, n as nat);
        }
    }
    if n < fields.len() {
        Ok(dup_attrs(&fields[n].attrs))
    } else {
        Err(n - fields.len())
    }
}

fn get_in_variants(variants: &Vec<VariantDecl>, n: usize) -> (r: Result<Vec<Attr>, usize>)
    ensures
        match r {
            Ok(a) => lookup_variants(Seq::new(variants@.len(), |i: int| variants@[i]@), n as nat)
                == Ok::<Seq<AttrV>, nat>(attrs_view(a)),
            Err(rem) => lookup_variants(Seq::new(variants@.len(), |i: int| variants@[i]@), n as nat)
                == Err::<Seq<AttrV>, nat>(rem as nat),
        },
{
    let ghost vv = Seq::new(variants@.len(), |i: int| variants@[i]@);
    proof {
        lemma_lookup_variants(vv, n as nat);
        lemma_attr_lists_variants_len(vv);
        if (n as nat) < vv.len() {
            lemma_lookup_variants_index(vv, n as nat);
        }
    }
    if n < variants.len() {
        Ok(dup_attrs(&variants[n].attrs))
    } else {
        Err(n - variants.len())
    }
}

fn get_in_item(item: &Item, n: usize) -> (r: Result<Vec<Attr>, usize>)
    ensures
        match r {
            Ok(a) => lookup_item(item_view(*item), n as nat) == Ok::<Seq<AttrV>, nat>(attrs_view(a)),
            Err(rem) => lookup_item(item_view(*item), n as nat) == Err::<Seq<AttrV>, nat>(
                rem as nat,
            ),
        },
    decreases *item,
{
    match item {
        Item::Mod { attrs, body, .. } => {
            if n == 0 {
                Ok(dup_attrs(attrs))
            } else {
                get_in_items(body, n - 1)
            }
        },
        Item::Impl { attrs, members, .. } => {
            if n == 0 {
                Ok(dup_attrs(attrs))
            } else {
                get_in_members(members, n - 1)
            }
        },
        Item::Struct { attrs, fields, .. } => {
            if n == 0 {
                Ok(dup_attrs(attrs))
            } else {
                get_in_fields(fields, n - 1)
            }
        },
        Item::Enum { attrs, variants, .. } => {
            if n == 0 {
                Ok(dup_attrs(attrs))
            } else {
                get_in_variants(variants, n - 1)
            }
        },
        Item::Func { attrs, .. } => {
            if n == 0 {
                Ok(dup_attrs(attrs))
            } else {
                Err(n - 1)
            }
        },
        Item::Other { attrs, .. } => {
            if n == 0 {
                Ok(dup_attrs(attrs))
            } else {
                Err(n - 1)
            }
        },
    }
}

fn get_in_items(items: &Vec<Item>, n: usize) -> (r: Result<Vec<Attr>, usize>)
    ensures
        match r {
            Ok(a) => lookup_items(items_seq_view(items@), n as nat) == Ok::<Seq<AttrV>, nat>(
                attrs_view(a),
            ),
            Err(rem) => lookup_items(items_seq_view(items@), n as nat) == Err::<Seq<AttrV>, nat>(
                rem as nat,
            ),
        },
    decreases items@,
{
    let ghost iv = items_seq_view(items@);
    let mut k: usize = 0;
    let mut idx: usize = n;
    proof {
        assert(iv.skip(0) =~= iv);
    }
    while k < items.len()
        invariant
            k <= items@.len(),
            iv == items_seq_view(items@),
            lookup_items(iv, n as nat) == lookup_items(iv.skip(k as int), idx as nat),
        decreases items@.len() - k,
    {
        proof {
            assert(iv.skip(k as int)[0] == iv[k as int]);
            assert(iv.skip(k as int).drop_first() =~= iv.skip(k as int + 1));
        }
        let r = get_in_item(&items[k], idx);
        match r {
            Ok(a) => {
                return Ok(a);
            },
            Err(rem) => {
                idx = rem;
            },
        }
        k = k + 1;
    }
    proof {
        assert(iv.skip(k as int).len() == 0);
    }
    Err(idx)
}

proof fn lemma_set_attrs_members_form(members: Seq<ImplMemberV>, n: int, a: Seq<AttrV>)
    requires
        0 <= n < members.len(),
    ensures
        set_attrs_members(members, n, a) == members.update(
            n,
            match members[n] {
                ImplMemberV::Method { attrs, sig, body } => ImplMemberV::Method {
                    attrs: a,
                    sig,
                    body,
                },
                ImplMemberV::Opaque { attrs, text } => ImplMemberV::Opaque { attrs: a, text },
            },
        ),
    decreases members,
{
    if n > 0 {
        lemma_set_attrs_members_form(members.drop_first(), n - 1, a);
        assert(set_attrs_members(members, n, a) =~= members.update(
            n,
            match members[n] {
                ImplMemberV::Method { attrs, sig, body } => ImplMemberV::Method {
                    attrs: a,
                    sig,
                    body,
                },
                ImplMemberV::Opaque { attrs, text } => ImplMemberV::Opaque { attrs: a, text },
            },
        ));
    }
}

proof fn lemma_set_attrs_fields_form(fields: Seq<FieldV>, n: int, a: Seq<AttrV>)
    requires
        0 <= n < fields.len(),
    ensures
        set_attrs_fields(fields, n, a) == fields.update(
            n,
            FieldV { attrs: a, text: fields[n].text },
        ),
    decreases fields,
{
    if n > 0 {
        lemma_set_attrs_fields_form(fields.drop_first(), n - 1, a);
        assert(set_attrs_fields(fields, n, a) =~= fields.update(
            n,
            FieldV { attrs: a, text: fields[n].text },
        ));
    }
}

proof fn lemma_set_attrs_variants_form(variants: Seq<VariantV>, n: int, a: Seq<AttrV>)
    requires
        0 <= n < variants.len(),
    ensures
        set_attrs_variants(variants, n, a) == variants.update(
            n,
            VariantV { attrs: a, text: variants[n].text },
        ),
    decreases variants,
{
    if n > 0 {
        lemma_set_attrs_variants_form(variants.drop_first(), n - 1, a);
        assert(set_attrs_variants(variants, n, a) =~= variants.update(
            n,
            VariantV { attrs: a, text: variants[n].text },
        ));
    }
}

fn set_in_members(members: &mut Vec<ImplMember>, n: usize, a: Vec<Attr>) -> (r: Result<
    (),
    (usize, Vec<Attr>),
>)
    ensures
        match r {
            Ok(()) => lookup_members(members_view(old(members)@), n as nat) is Ok && members_view(
                final(members)@,
            ) == set_attrs_members(members_view(old(members)@), n as int, attrs_view(a)),
            Err((rem, a2)) => lookup_members(members_view(old(members)@), n as nat) == Err::<
                Seq<AttrV>,
                nat,
            >(rem as nat) && members_view(final(members)@) == members_view(old(members)@)
                && attrs_view(a2) == attrs_view(a),
        },
{
    let ghost mv = members_view(members@);
    let ghost av = attrs_view(a);
    proof {
        lemma_lookup_members(mv, n as nat);
        lemma_attr_lists_members_len(mv);
        if (n as nat) < mv.len() {
            lemma_lookup_members_index(mv, n as nat);
            lemma_set_attrs_members_form(mv, n as int, av);
        }
    }
    if n < members.len() {
        match &mut members[n] {
            ImplMember::Method { attrs, .. } => {
                *attrs = a;
            },
            ImplMember::Opaque { attrs, .. } => {
                *attrs = a;
            },
        }
        proof {
            assert(members_view(members@) =~= set_attrs_members(mv, n as int, av));
        }
        Ok(())
    } else {
        Err((n - members.len(), a))
    }
}

fn set_in_fields(fields: &mut Vec<FieldDecl>, n: usize, a: Vec<Attr>) -> (r: Result<
    (),
    (usize, Vec<Attr>),
>)
    ensures
        match r {
            Ok(()) => lookup_fields(
                Seq::new(old(fields)@.len(), |i: int| old(fields)@[i]@),
                n as nat,
            ) is Ok && Seq::new(final(fields)@.len(), |i: int| final(fields)@[i]@)
                == set_attrs_fields(
                Seq::new(old(fields)@.len(), |i: int| old(fields)@[i]@),
                n as int,
                attrs_view(a),
            ),
            Err((rem, a2)) => lookup_fields(
                Seq::new(old(fields)@.len(), |i: int| old(fields)@[i]@),
                n as nat,
            ) == Err::<Seq<AttrV>, nat>(rem as nat) && final(fields)@ == old(fields)@
                && attrs_view(a2) == attrs_view(a),
        },
{
    let ghost fv = Seq::new(fields@.len(), |i: int| fields@[i]@);
    let ghost av = attrs_view(a);
    proof {
        lemma_lookup_fields(fv, n as nat);
        lemma_attr_lists_fields_len(fv);
        if (n as nat) < fv.len() {
            lemma_lookup_fields_index(fv, n as nat);
            lemma_set_attrs_fields_form(fv, n as int, av);
        }
    }
    if n < fields.len() {
        fields[n].attrs = a;
        proof {
            assert(Seq::new(fields@.len(), |i: int| fields@[i]@) =~= set_attrs_fields(
                fv,
                n as int,
                av,
            ));
        }
        Ok(())
    } else {
        Err((n - fields.len(), a))
    }
}

fn set_in_variants(variants: &mut Vec<VariantDecl>, n: usize, a: Vec<Attr>) -> (r: Result<
    (),
    (usize, Vec<Attr>),
>)
    ensures
        match r {
            Ok(()) => lookup_variants(
                Seq::new(old(variants)@.len(), |i: int| old(variants)@[i]@),
                n as nat,
            ) is Ok && Seq::new(final(variants)@.len(), |i: int| final(variants)@[i]@)
                == set_attrs_variants(
                Seq::new(old(variants)@.len(), |i: int| old(variants)@[i]@),
                n as int,
                attrs_view(a),
            ),
            Err((rem, a2)) => lookup_variants(
                Seq::new(old(variants)@.len(), |i: int| old(variants)@[i]@),
                n as nat,
            ) == Err::<Seq<AttrV>, nat>(rem as nat) && final(variants)@ == old(variants)@
                && attrs_view(a2) == attrs_view(a),
        },
{
    let ghost vv = Seq::new(variants@.len(), |i: int| variants@[i]@);
    let ghost av = attrs_view(a);
    proof {
        lemma_lookup_variants(vv, n as nat);
        lemma_attr_lists_variants_len(vv);
        if (n as nat) < vv.len() {
            lemma_lookup_variants_index(vv, n as nat);
            lemma_set_attrs_variants_form(vv, n as int, av);
        }
    }
    if n < variants.len() {
        variants[n].attrs = a;
        proof {
            assert(Seq::new(variants@.len(), |i: int| variants@[i]@) =~= set_attrs_variants(
                vv,
                n as int,
                av,
            ));
        }
        Ok(())
    } else {
        Err((n - variants.len(), a))
    }
}

fn set_in_item(item: &mut Item, n: usize, a: Vec<Attr>) -> (r: Result<(), (usize, Vec<Attr>)>)
    ensures
        match r {
            Ok(()) => lookup_item(item_view(*old(item)), n as nat) is Ok && item_view(*final(item))
                == set_attrs_item(item_view(*old(item)), n as int, attrs_view(a)),
            Err((rem, a2)) => lookup_item(item_view(*old(item)), n as nat) == Err::<
                Seq<AttrV>,
                nat,
            >(rem as nat) && item_view(*final(item)) == item_view(*old(item)) && attrs_view(a2)
                == attrs_view(a),
        },
    decreases crate::prune::size_item_v(item_view(*item)), 0nat,
{
    let ghost iv0 = item_view(*item);
    let ghost av = attrs_view(a);
    if n == 0 {
        match item {
            Item::Mod { attrs, .. } => {
                *attrs = a;
            },
            Item::Impl { attrs, .. } => {
                *attrs = a;
            },
            Item::Struct { attrs, .. } => {
                *attrs = a;
            },
            Item::Enum { attrs, .. } => {
                *attrs = a;
            },
            Item::Func { attrs, .. } => {
                *attrs = a;
            },
            Item::Other { attrs, .. } => {
                *attrs = a;
            },
        }
        proof {
            assert(item_view(*item) == set_attrs_item(iv0, 0, av));
        }
        Ok(())
    } else {
        match item {
            Item::Mod { body, .. } => set_in_items(body, n - 1, a),
            Item::Impl { members, .. } => set_in_members(members, n - 1, a),
            Item::Struct { fields, .. } => set_in_fields(fields, n - 1, a),
            Item::Enum { variants, .. } => set_in_variants(variants, n - 1, a),
            Item::Func { .. } => Err((n - 1, a)),
            Item::Other { .. } => Err((n - 1, a)),
        }
    }
}

fn set_in_items(items: &mut Vec<Item>, n: usize, a0: Vec<Attr>) -> (r: Result<
    (),
    (usize, Vec<Attr>),
>)
    ensures
        match r {
            Ok(()) => lookup_items(items_seq_view(old(items)@), n as nat) is Ok && items_seq_view(
                final(items)@,
            ) == set_attrs_items(items_seq_view(old(items)@), n as int, attrs_view(a0)),
            Err((rem, a2)) => lookup_items(items_seq_view(old(items)@), n as nat) == Err::<
                Seq<AttrV>,
                nat,
            >(rem as nat) && items_seq_view(final(items)@) == items_seq_view(old(items)@)
                && attrs_view(a2) == attrs_view(a0),
        },
    decreases crate::prune::size_items_v(items_seq_view(items@)), 1nat,
{
    let ghost iv = items_seq_view(items@);
    let ghost av = attrs_view(a0);
    let mut a = a0;
    let mut k: usize = 0;
    let mut idx: usize = n;
    proof {
        assert(iv.skip(0) =~= iv);
        assert(iv.take(0) + set_attrs_items(iv, n as int, av) =~= set_attrs_items(
            iv,
            n as int,
            av,
        ));
    }
    while k < items.len()
        invariant
            k <= items@.len(),
            iv == items_seq_view(old(items)@),
            items_seq_view(items@) == iv,
            av == attrs_view(a0),
            attrs_view(a) == av,
            lookup_items(iv, n as nat) == lookup_items(iv.skip(k as int), idx as nat),
            set_attrs_items(iv, n as int, av) == iv.take(k as int) + set_attrs_items(
                iv.skip(k as int),
                idx as int,
                av,
            ),
        decreases items@.len() - k,
    {
        proof {
            assert(iv.skip(k as int)[0] == iv[k as int]);
            assert(iv.skip(k as int).drop_first() =~= iv.skip(k as int + 1));
            crate::prune::lemma_size_items_le(iv, k as int);
            lemma_lookup_item(iv[k as int], idx as nat);
        }
        let r = set_in_item(&mut items[k], idx, a);
        match r {
            Ok(()) => {
                proof {
                    let item2 = item_view(items@[k as int]);
                    assert(lookup_item(iv[k as int], idx as nat) is Ok);
                    assert(lookup_items(iv.skip(k as int), idx as nat) is Ok);
                    assert(items_seq_view(items@) =~= iv.update(k as int, item2));
                    assert(set_attrs_items(iv.skip(k as int), idx as int, av) =~= seq![item2]
                        + iv.skip(k as int + 1));
                    assert(iv.take(k as int) + (seq![item2] + iv.skip(k as int + 1)) =~= iv.update(
                        k as int,
                        item2,
                    ));
                }
                return Ok(());
            },
            Err((rem, a2)) => {
                proof {
                    assert(items_seq_view(items@) =~= iv);
                    let x = set_attrs_items(iv.skip(k as int + 1), rem as int, av);
                    assert(set_attrs_items(iv.skip(k as int), idx as int, av) =~= seq![iv[k as int]]
                        + x);
                    assert(iv.take(k as int) + (seq![iv[k as int]] + x) =~= iv.take(k as int + 1)
                        + x);
                }
                idx = rem;
                a = a2;
            },
        }
        k = k + 1;
    }
    proof {
        assert(iv.skip(k as int).len() == 0);
        assert(iv.take(k as int) =~= iv);
        assert(iv + set_attrs_items(iv.skip(k as int), idx as int, av) =~= iv);
    }
    Err((idx, a))
}

/// Replaces the attribute list of container `n`.
pub fn set_attrs_at(f: &mut SourceFile, n: usize, a: Vec<Attr>)
    requires
        (n as nat) < attr_lists_file(old(f)@).len(),
    ensures
        final(f)@ == set_attrs_file(old(f)@, n as int, attrs_view(a)),
{
    proof {
        lemma_lookup_file(old(f)@, n as nat);
    }
    if n == 0 {
        f.attrs = a;
        proof {
            assert(f@ =~= set_attrs_file(old(f)@, 0, attrs_view(a)));
        }
    } else {
        let r = set_in_items(&mut f.items, n - 1, a);
        match r {
            Ok(()) => {
                proof {
                    assert(f@ =~= set_attrs_file(old(f)@, n as int, attrs_view(a)));
                }
            },
            Err(_) => {
                // not reached: the container index is within the tree
                proof {
                    assert(false);
                }
            },
        }
    }
}

/// Hands out a copy of the attribute list of container `n`, or `None`
/// when the tree has fewer than `n + 1` containers.
pub fn get_attrs_at(f: &SourceFile, n: usize) -> (r: Option<Vec<Attr>>)
    ensures
        (n as nat) < attr_lists_file(f@).len() ==> r is Some && attrs_view(r->0)
            == attr_lists_file(f@)[n as int],
        (n as nat) >= attr_lists_file(f@).len() ==> r is None,
{
    proof {
        lemma_lookup_file(f@, n as nat);
    }
    if n == 0 {
        Some(dup_attrs(&f.attrs))
    } else {
        match get_in_items(&f.items, n - 1) {
            Ok(a) => Some(a),
            Err(_) => None,
        }
    }
}

} // verus!
