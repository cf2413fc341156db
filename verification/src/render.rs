//! Serialization of the syntax tree back to source text.
//!
//! Every oracle query and every persisted snapshot goes through `render_file`,
//! so the output of the reducer is exactly the rendering of the final tree.

use vstd::prelude::*;
use vstd::string::StringExecFns;

use crate::ast::AttrV;
use crate::ast::Attr;
use crate::ast::BlockV;
use crate::ast::Block;
use crate::ast::FieldDecl;
use crate::ast::FieldV;
use crate::ast::ImplMember;
use crate::ast::ImplMemberV;
use crate::ast::ItemV;
use crate::ast::Item;
use crate::ast::SourceFile;
use crate::ast::SourceFileV;
use crate::ast::StmtV;
use crate::ast::Stmt;
use crate::ast::VariantDecl;
use crate::ast::VariantV;
use crate::ast::attrs_view;
use crate::ast::block_view;
use crate::ast::item_view;
use crate::ast::items_seq_view;
use crate::ast::lemma_items_view_index;
use crate::ast::lemma_items_view_len;
use crate::ast::lemma_members_view_index;
use crate::ast::lemma_members_view_len;
use crate::ast::lemma_stmts_view_index;
use crate::ast::lemma_stmts_view_len;
use crate::ast::member_view;
use crate::ast::members_view;
use crate::ast::stmt_view;
use crate::ast::stmts_view;

verus! {

broadcast use lemma_items_view_len, lemma_items_view_index, lemma_members_view_len,
    lemma_members_view_index, lemma_stmts_view_len, lemma_stmts_view_index;

// ---------------------------------------------------------------------------
// The rendering, as a mathematical function of the tree model
// ---------------------------------------------------------------------------

pub open spec fn render_name_v(name: Seq<char>) -> Seq<char> {
    name + ", "@
}

pub open spec fn render_names_v(names: Seq<Seq<char>>) -> Seq<char>
    decreases names.len(),
{
    if names.len() == 0 {
        Seq::empty()
    } else {
        render_name_v(names[0]) + render_names_v(names.drop_first())
    }
}

pub open spec fn render_attr_v(a: AttrV) -> Seq<char> {
    match a {
        AttrV::Derive { names } => "#[derive("@ + render_names_v(names) + ")] "@,
        AttrV::Plain { text, .. } => text + " "@,
    }
}

pub open spec fn render_attrs_v(attrs: Seq<AttrV>) -> Seq<char>
    decreases attrs.len(),
{
    if attrs.len() == 0 {
        Seq::empty()
    } else {
        render_attr_v(attrs[0]) + render_attrs_v(attrs.drop_first())
    }
}

pub open spec fn render_field_v(f: FieldV) -> Seq<char> {
    render_attrs_v(f.attrs) + f.text + ", "@
}

pub open spec fn render_fields_v(fields: Seq<FieldV>) -> Seq<char>
    decreases fields.len(),
{
    if fields.len() == 0 {
        Seq::empty()
    } else {
        render_field_v(fields[0]) + render_fields_v(fields.drop_first())
    }
}

pub open spec fn render_variant_v(v: VariantV) -> Seq<char> {
    render_attrs_v(v.attrs) + v.text + ", "@
}

pub open spec fn render_variants_v(variants: Seq<VariantV>) -> Seq<char>
    decreases variants.len(),
{
    if variants.len() == 0 {
        Seq::empty()
    } else {
        render_variant_v(variants[0]) + render_variants_v(variants.drop_first())
    }
}

pub open spec fn render_stmt_v(s: StmtV) -> Seq<char>
    decreases s,
{
    match s {
        StmtV::Opaque { text } => text + " "@,
        StmtV::Nested { head, body, tail } => head + " "@ + render_block_v(body) + tail + " "@,
        StmtV::Unimplemented => "unimplemented!() "@,
    }
}

pub open spec fn render_stmts_v(stmts: Seq<StmtV>) -> Seq<char>
    decreases stmts,
{
    if stmts.len() == 0 {
        Seq::empty()
    } else {
        render_stmt_v(stmts[0]) + render_stmts_v(stmts.drop_first())
    }
}

pub open spec fn render_block_v(b: BlockV) -> Seq<char>
    decreases b,
{
    "{ "@ + render_stmts_v(b.stmts) + "} "@
}

pub open spec fn render_member_v(m: ImplMemberV) -> Seq<char>
    decreases m,
{
    match m {
        ImplMemberV::Method { attrs, sig, body } => render_attrs_v(attrs) + sig + " "@
            + render_block_v(body),
        ImplMemberV::Opaque { attrs, text } => render_attrs_v(attrs) + text + " "@,
    }
}

pub open spec fn render_members_v(members: Seq<ImplMemberV>) -> Seq<char>
    decreases members,
{
    if members.len() == 0 {
        Seq::empty()
    } else {
        render_member_v(members[0]) + render_members_v(members.drop_first())
    }
}

pub open spec fn render_item_v(item: ItemV) -> Seq<char>
    decreases item,
{
    match item {
        ItemV::Mod { attrs, name, inline, body } => render_attrs_v(attrs) + "mod "@ + name + (
        if inline {
            " { "@ + render_items_v(body) + "} "@
        } else {
            "; "@
        }),
        ItemV::Impl { attrs, header, members } => render_attrs_v(attrs) + header + " { "@
            + render_members_v(members) + "} "@,
        ItemV::Struct { attrs, header, fields } => render_attrs_v(attrs) + header + " { "@
            + render_fields_v(fields) + "} "@,
        ItemV::Enum { attrs, header, variants } => render_attrs_v(attrs) + header + " { "@
            + render_variants_v(variants) + "} "@,
        ItemV::Func { attrs, sig, body } => render_attrs_v(attrs) + sig + " "@ + render_block_v(
            body,
        ),
        ItemV::Other { attrs, text } => render_attrs_v(attrs) + text + " "@,
    }
}

pub open spec fn render_items_v(items: Seq<ItemV>) -> Seq<char>
    decreases items,
{
    if items.len() == 0 {
        Seq::empty()
    } else {
        render_item_v(items[0]) + render_items_v(items.drop_first())
    }
}

pub open spec fn render_file_v(f: SourceFileV) -> Seq<char> {
    render_attrs_v(f.attrs) + render_items_v(f.items)
}

// ---------------------------------------------------------------------------
// Executable rendering
// ---------------------------------------------------------------------------

fn render_names(names: &Vec<String>, out: &mut String)
    ensures
        final(out)@ == old(out)@ + render_names_v(names.deep_view()),
{
    let ghost nv = names.deep_view();
    let ghost base = out@;
    let mut i: usize = 0;
    proof {
        assert(nv.skip(0) =~= nv);
        assert(base + Seq::<char>::empty() =~= base);
    }
    while i < names.len()
        invariant
            i <= names@.len(),
            nv == names.deep_view(),
            out@ + render_names_v(nv.skip(i as int)) == base + render_names_v(nv),
        decreases names@.len() - i,
    {
        proof {
            assert(nv.skip(i as int)[0] == nv[i as int]);
            assert(nv.skip(i as int).drop_first() =~= nv.skip(i as int + 1));
        }
        let ghost pre = out@;
        out.append(names[i].as_str());
        out.append(", ");
        proof {
            assert(out@ =~= pre + render_name_v(nv[i as int]));
            assert((pre + render_name_v(nv[i as int])) + render_names_v(nv.skip(i as int + 1)) =~= pre
                + (render_name_v(nv[i as int]) + render_names_v(nv.skip(i as int + 1))));
        }
        i = i + 1;
    }
    proof {
        assert(nv.skip(i as int).len() == 0);
        assert(out@ + render_names_v(nv.skip(i as int)) =~= out@);
        assert(out@ =~= base + render_names_v(nv));
    }
}

fn render_attr(a: &Attr, out: &mut String)
    ensures
        final(out)@ == old(out)@ + render_attr_v(a@),
{
    match a {
        Attr::Derive { names } => {
            let ghost pre = out@;
            out.append("#[derive(");
            render_names(names, out);
            out.append(")] ");
            proof {
                assert(out@ =~= pre + render_attr_v(a@));
            }
        },
        Attr::Plain { text, .. } => {
            let ghost pre = out@;
            out.append(text.as_str());
            out.append(" ");
            proof {
                assert(out@ =~= pre + render_attr_v(a@));
            }
        },
    }
}

fn render_attrs(attrs: &Vec<Attr>, out: &mut String)
    ensures
        final(out)@ == old(out)@ + render_attrs_v(attrs_view(*attrs)),
{
    let ghost av = attrs_view(*attrs);
    let ghost base = out@;
    let mut i: usize = 0;
    proof {
        assert(av.skip(0) =~= av);
        assert(base + Seq::<char>::empty() =~= base);
    }
    while i < attrs.len()
        invariant
            i <= attrs@.len(),
            av == attrs_view(*attrs),
            out@ + render_attrs_v(av.skip(i as int)) == base + render_attrs_v(av),
        decreases attrs@.len() - i,
    {
        proof {
            assert(av.skip(i as int)[0] == av[i as int]);
            assert(av.skip(i as int).drop_first() =~= av.skip(i as int + 1));
        }
        let ghost pre = out@;
        render_attr(&attrs[i], out);
        proof {
            assert((pre + render_attr_v(av[i as int])) + render_attrs_v(av.skip(i as int + 1)) =~= pre
                + (render_attr_v(av[i as int]) + render_attrs_v(av.skip(i as int + 1))));
        }
        i = i + 1;
    }
    proof {
        assert(av.skip(i as int).len() == 0);
        assert(out@ + render_attrs_v(av.skip(i as int)) =~= out@);
        assert(out@ =~= base + render_attrs_v(av));
    }
}

fn render_field(f: &FieldDecl, out: &mut String)
    ensures
        final(out)@ == old(out)@ + render_field_v(f@),
{
    let ghost pre = out@;
    render_attrs(&f.attrs, out);
    out.append(f.text.as_str());
    out.append(", ");
    proof {
        assert(out@ =~= pre + render_field_v(f@));
    }
}

fn render_variant(v: &VariantDecl, out: &mut String)
    ensures
        final(out)@ == old(out)@ + render_variant_v(v@),
{
    let ghost pre = out@;
    render_attrs(&v.attrs, out);
    out.append(v.text.as_str());
    out.append(", ");
    proof {
        assert(out@ =~= pre + render_variant_v(v@));
    }
}

fn render_fields(fields: &Vec<FieldDecl>, out: &mut String)
    ensures
        final(out)@ == old(out)@ + render_fields_v(Seq::new(fields@.len(), |i: int| fields@[i]@)),
{
    let ghost fv = Seq::new(fields@.len(), |i: int| fields@[i]@);
    let ghost base = out@;
    let mut i: usize = 0;
    proof {
        assert(fv.skip(0) =~= fv);
        assert(base + Seq::<char>::empty() =~= base);
    }
    while i < fields.len()
        invariant
            i <= fields@.len(),
            fv == Seq::new(fields@.len(), |i: int| fields@[i]@),
            out@ + render_fields_v(fv.skip(i as int)) == base + render_fields_v(fv),
        decreases fields@.len() - i,
    {
        proof {
            assert(fv.skip(i as int)[0] == fv[i as int]);
            assert(fv.skip(i as int).drop_first() =~= fv.skip(i as int + 1));
        }
        let ghost pre = out@;
        render_field(&fields[i], out);
        proof {
            assert((pre + render_field_v(fv[i as int])) + render_fields_v(fv.skip(i as int + 1))
                =~= pre + (render_field_v(fv[i as int]) + render_fields_v(fv.skip(i as int + 1))));
        }
        i = i + 1;
    }
    proof {
        assert(fv.skip(i as int).len() == 0);
        assert(out@ + render_fields_v(fv.skip(i as int)) =~= out@);
        assert(out@ =~= base + render_fields_v(fv));
    }
}

fn render_variants(variants: &Vec<VariantDecl>, out: &mut String)
    ensures
        final(out)@ == old(out)@ + render_variants_v(Seq::new(variants@.len(), |i: int| variants@[i]@)),
{
    let ghost vv = Seq::new(variants@.len(), |i: int| variants@[i]@);
    let ghost base = out@;
    let mut i: usize = 0;
    proof {
        assert(vv.skip(0) =~= vv);
        assert(base + Seq::<char>::empty() =~= base);
    }
    while i < variants.len()
        invariant
            i <= variants@.len(),
            vv == Seq::new(variants@.len(), |i: int| variants@[i]@),
            out@ + render_variants_v(vv.skip(i as int)) == base + render_variants_v(vv),
        decreases variants@.len() - i,
    {
        proof {
            assert(vv.skip(i as int)[0] == vv[i as int]);
            assert(vv.skip(i as int).drop_first() =~= vv.skip(i as int + 1));
        }
        let ghost pre = out@;
        render_variant(&variants[i], out);
        proof {
            assert((pre + render_variant_v(vv[i as int])) + render_variants_v(
                vv.skip(i as int + 1),
            ) =~= pre + (render_variant_v(vv[i as int]) + render_variants_v(vv.skip(i as int + 1))));
        }
        i = i + 1;
    }
    proof {
        assert(vv.skip(i as int).len() == 0);
        assert(out@ + render_variants_v(vv.skip(i as int)) =~= out@);
        assert(out@ =~= base + render_variants_v(vv));
    }
}

fn render_stmt(s: &Stmt, out: &mut String)
    ensures
        final(out)@ == old(out)@ + render_stmt_v(stmt_view(*s)),
    decreases *s,
{
    match s {
        Stmt::Opaque { text } => {
            let ghost pre = out@;
            out.append(text.as_str());
            out.append(" ");
            proof {
                assert(out@ =~= pre + render_stmt_v(stmt_view(*s)));
            }
        },
        Stmt::Nested { head, body, tail } => {
            let ghost pre = out@;
            out.append(head.as_str());
            out.append(" ");
            render_block(body, out);
            out.append(tail.as_str());
            out.append(" ");
            proof {
                assert(out@ =~= pre + render_stmt_v(stmt_view(*s)));
            }
        },
        Stmt::Unimplemented => {
            let ghost pre = out@;
            out.append("unimplemented!() ");
            proof {
                assert(out@ =~= pre + render_stmt_v(stmt_view(*s)));
            }
        },
    }
}

fn render_stmts(stmts: &Vec<Stmt>, out: &mut String)
    ensures
        final(out)@ == old(out)@ + render_stmts_v(stmts_view(stmts@)),
    decreases stmts@,
{
    let ghost sv = stmts_view(stmts@);
    let ghost base = out@;
    let mut i: usize = 0;
    proof {
        assert(sv.skip(0) =~= sv);
        assert(base + Seq::<char>::empty() =~= base);
    }
    while i < stmts.len()
        invariant
            i <= stmts@.len(),
            sv == stmts_view(stmts@),
            out@ + render_stmts_v(sv.skip(i as int)) == base + render_stmts_v(sv),
        decreases stmts@.len() - i,
    {
        proof {
            assert(sv.skip(i as int)[0] == sv[i as int]);
            assert(sv.skip(i as int).drop_first() =~= sv.skip(i as int + 1));
        }
        let ghost pre = out@;
        render_stmt(&stmts[i], out);
        proof {
            assert((pre + render_stmt_v(sv[i as int])) + render_stmts_v(sv.skip(i as int + 1)) =~= pre
                + (render_stmt_v(sv[i as int]) + render_stmts_v(sv.skip(i as int + 1))));
        }
        i = i + 1;
    }
    proof {
        assert(sv.skip(i as int).len() == 0);
        assert(out@ + render_stmts_v(sv.skip(i as int)) =~= out@);
        assert(out@ =~= base + render_stmts_v(sv));
    }
}

fn render_block(b: &Block, out: &mut String)
    ensures
        final(out)@ == old(out)@ + render_block_v(block_view(*b)),
    decreases *b,
{
    let ghost pre = out@;
    out.append("{ ");
    render_stmts(&b.stmts, out);
    out.append("} ");
    proof {
        assert(out@ =~= pre + render_block_v(block_view(*b)));
    }
}

fn render_member(m: &ImplMember, out: &mut String)
    ensures
        final(out)@ == old(out)@ + render_member_v(member_view(*m)),
    decreases *m,
{
    match m {
        ImplMember::Method { attrs, sig, body } => {
            let ghost pre = out@;
            render_attrs(attrs, out);
            out.append(sig.as_str());
            out.append(" ");
            render_block(body, out);
            proof {
                assert(out@ =~= pre + render_member_v(member_view(*m)));
            }
        },
        ImplMember::Opaque { attrs, text } => {
            let ghost pre = out@;
            render_attrs(attrs, out);
            out.append(text.as_str());
            out.append(" ");
            proof {
                assert(out@ =~= pre + render_member_v(member_view(*m)));
            }
        },
    }
}

fn render_members(members: &Vec<ImplMember>, out: &mut String)
    ensures
        final(out)@ == old(out)@ + render_members_v(members_view(members@)),
    decreases members@,
{
    let ghost mv = members_view(members@);
    let ghost base = out@;
    let mut i: usize = 0;
    proof {
        assert(mv.skip(0) =~= mv);
        assert(base + Seq::<char>::empty() =~= base);
    }
    while i < members.len()
        invariant
            i <= members@.len(),
            mv == members_view(members@),
            out@ + render_members_v(mv.skip(i as int)) == base + render_members_v(mv),
        decreases members@.len() - i,
    {
        proof {
            assert(mv.skip(i as int)[0] == mv[i as int]);
            assert(mv.skip(i as int).drop_first() =~= mv.skip(i as int + 1));
        }
        let ghost pre = out@;
        render_member(&members[i], out);
        proof {
            assert((pre + render_member_v(mv[i as int])) + render_members_v(mv.skip(i as int + 1))
                =~= pre + (render_member_v(mv[i as int]) + render_members_v(
                mv.skip(i as int + 1),
            )));
        }
        i = i + 1;
    }
    proof {
        assert(mv.skip(i as int).len() == 0);
        assert(out@ + render_members_v(mv.skip(i as int)) =~= out@);
        assert(out@ =~= base + render_members_v(mv));
    }
}

fn render_item(item: &Item, out: &mut String)
    ensures
        final(out)@ == old(out)@ + render_item_v(item_view(*item)),
    decreases *item,
{
    match item {
        Item::Mod { attrs, name, inline, body } => {
            let ghost pre = out@;
            render_attrs(attrs, out);
            out.append("mod ");
            out.append(name.as_str());
            if *inline {
                out.append(" { ");
                render_items(body, out);
                out.append("} ");
            } else {
                out.append("; ");
            }
            proof {
                assert(out@ =~= pre + render_item_v(item_view(*item)));
            }
        },
        Item::Impl { attrs, header, members } => {
            let ghost pre = out@;
            render_attrs(attrs, out);
            out.append(header.as_str());
            out.append(" { ");
            render_members(members, out);
            out.append("} ");
            proof {
                assert(out@ =~= pre + render_item_v(item_view(*item)));
            }
        },
        Item::Struct { attrs, header, fields } => {
            let ghost pre = out@;
            render_attrs(attrs, out);
            out.append(header.as_str());
            out.append(" { ");
            render_fields(fields, out);
            out.append("} ");
            proof {
                assert(out@ =~= pre + render_item_v(item_view(*item)));
            }
        },
        Item::Enum { attrs, header, variants } => {
            let ghost pre = out@;
            render_attrs(attrs, out);
            out.append(header.as_str());
            out.append(" { ");
            render_variants(variants, out);
            out.append("} ");
            proof {
                assert(out@ =~= pre + render_item_v(item_view(*item)));
            }
        },
        Item::Func { attrs, sig, body } => {
            let ghost pre = out@;
            render_attrs(attrs, out);
            out.append(sig.as_str());
            out.append(" ");
            render_block(body, out);
            proof {
                assert(out@ =~= pre + render_item_v(item_view(*item)));
            }
        },
        Item::Other { attrs, text } => {
            let ghost pre = out@;
            render_attrs(attrs, out);
            out.append(text.as_str());
            out.append(" ");
            proof {
                assert(out@ =~= pre + render_item_v(item_view(*item)));
            }
        },
    }
}

fn render_items(items: &Vec<Item>, out: &mut String)
    ensures
        final(out)@ == old(out)@ + render_items_v(items_seq_view(items@)),
    decreases items@,
{
    let ghost iv = items_seq_view(items@);
    let ghost base = out@;
    let mut i: usize = 0;
    proof {
        assert(iv.skip(0) =~= iv);
        assert(base + Seq::<char>::empty() =~= base);
    }
    while i < items.len()
        invariant
            i <= items@.len(),
            iv == items_seq_view(items@),
            out@ + render_items_v(iv.skip(i as int)) == base + render_items_v(iv),
        decreases items@.len() - i,
    {
        proof {
            assert(iv.skip(i as int)[0] == iv[i as int]);
            assert(iv.skip(i as int).drop_first() =~= iv.skip(i as int + 1));
        }
        let ghost pre = out@;
        render_item(&items[i], out);
        proof {
            assert((pre + render_item_v(iv[i as int])) + render_items_v(iv.skip(i as int + 1)) =~= pre
                + (render_item_v(iv[i as int]) + render_items_v(iv.skip(i as int + 1))));
        }
        i = i + 1;
    }
    proof {
        assert(iv.skip(i as int).len() == 0);
        assert(out@ + render_items_v(iv.skip(i as int)) =~= out@);
        assert(out@ =~= base + render_items_v(iv));
    }
}

/// Renders a whole file to source text.
pub fn render_file(f: &SourceFile) -> (r: String)
    ensures
        r@ == render_file_v(f@),
{
    let mut out = String::new();
    render_attrs(&f.attrs, &mut out);
    render_items(&f.items, &mut out);
    proof {
        assert(out@ =~= render_file_v(f@));
    }
    out
}

} // verus!
