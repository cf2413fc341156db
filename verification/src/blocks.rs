//! Block clearing: try to replace whole block bodies with the
//! unimplemented placeholder.
//!
//! Blocks are numbered in pre-order traversal: a block comes before the
//! blocks nested in its statements.  Clearing a block removes all its
//! descendants from the enumeration, so the index scheme naturally skips
//! them on the next traversal.

use vstd::prelude::*;

use crate::ast::Block;
use crate::ast::BlockV;
use crate::ast::ImplMember;
use crate::ast::ImplMemberV;
use crate::ast::Item;
use crate::ast::ItemV;
use crate::ast::SourceFile;
use crate::ast::SourceFileV;
use crate::ast::Stmt;
use crate::ast::StmtV;
use crate::ast::block_view;
use crate::ast::dup_block;
use crate::ast::is_placeholder_v;
use crate::ast::item_view;
use crate::ast::items_seq_view;
use crate::ast::lemma_items_view_index;
use crate::ast::lemma_items_view_len;
use crate::ast::lemma_members_view_index;
use crate::ast::lemma_members_view_len;
use crate::ast::lemma_stmts_view_index;
use crate::ast::lemma_stmts_view_len;
use crate::ast::member_view;
use crate::ast::members_view;
use crate::ast::placeholder_block;
use crate::ast::placeholder_block_v;
use crate::ast::stmt_view;
use crate::ast::stmts_view;

verus! {

broadcast use lemma_items_view_len, lemma_items_view_index, lemma_members_view_len,
    lemma_members_view_index, lemma_stmts_view_len, lemma_stmts_view_index;

// ---------------------------------------------------------------------------
// The blocks of the tree, in pre-order
// ---------------------------------------------------------------------------

pub open spec fn blocks_in_block(b: BlockV) -> Seq<BlockV>
    decreases b,
{
    seq![b] + blocks_in_stmts(b.stmts)
}

pub open spec fn blocks_in_stmt(s: StmtV) -> Seq<BlockV>
    decreases s,
{
    match s {
        StmtV::Nested { body, .. } => blocks_in_block(body),
        _ => Seq::empty(),
    }
}

pub open spec fn blocks_in_stmts(stmts: Seq<StmtV>) -> Seq<BlockV>
    decreases stmts,
{
    if stmts.len() == 0 {
        Seq::empty()
    } else {
        blocks_in_stmt(stmts[0]) + blocks_in_stmts(stmts.drop_first())
    }
}

pub open spec fn blocks_in_member(m: ImplMemberV) -> Seq<BlockV>
    decreases m,
{
    match m {
        ImplMemberV::Method { body, .. } => blocks_in_block(body),
        ImplMemberV::Opaque { .. } => Seq::empty(),
    }
}

pub open spec fn blocks_in_members(members: Seq<ImplMemberV>) -> Seq<BlockV>
    decreases members,
{
    if members.len() == 0 {
        Seq::empty()
    } else {
        blocks_in_member(members[0]) + blocks_in_members(members.drop_first())
    }
}

pub open spec fn blocks_in_item(item: ItemV) -> Seq<BlockV>
    decreases item,
{
    match item {
        ItemV::Mod { body, .. } => blocks_in_items(body),
        ItemV::Impl { members, .. } => blocks_in_members(members),
        ItemV::Func { body, .. } => blocks_in_block(body),
        _ => Seq::empty(),
    }
}

pub open spec fn blocks_in_items(items: Seq<ItemV>) -> Seq<BlockV>
    decreases items,
{
    if items.len() == 0 {
        Seq::empty()
    } else {
        blocks_in_item(items[0]) + blocks_in_items(items.drop_first())
    }
}

pub open spec fn blocks_in_file(f: SourceFileV) -> Seq<BlockV> {
    blocks_in_items(f.items)
}

// ---------------------------------------------------------------------------
// Replacing the block at one index
// ---------------------------------------------------------------------------

pub open spec fn set_block_in_block(b: BlockV, n: int, nb: BlockV) -> BlockV
    decreases b,
{
    if n == 0 {
        nb
    } else {
        BlockV { stmts: set_block_in_stmts(b.stmts, n - 1, nb) }
    }
}

pub open spec fn set_block_in_stmt(s: StmtV, n: int, nb: BlockV) -> StmtV
    decreases s,
{
    match s {
        StmtV::Nested { head, body, tail } => StmtV::Nested {
            head,
            body: set_block_in_block(body, n, nb),
            tail,
        },
        _ => s,
    }
}

pub open spec fn set_block_in_stmts(stmts: Seq<StmtV>, n: int, nb: BlockV) -> Seq<StmtV>
    decreases stmts,
{
    if stmts.len() == 0 {
        stmts
    } else {
        let c = blocks_in_stmt(stmts[0]).len();
        if n < c {
            stmts.update(0, set_block_in_stmt(stmts[0], n, nb))
        } else {
            seq![stmts[0]] + set_block_in_stmts(stmts.drop_first(), n - c, nb)
        }
    }
}

pub open spec fn set_block_in_member(m: ImplMemberV, n: int, nb: BlockV) -> ImplMemberV
    decreases m,
{
    match m {
        ImplMemberV::Method { attrs, sig, body } => ImplMemberV::Method {
            attrs,
            sig,
            body: set_block_in_block(body, n, nb),
        },
        ImplMemberV::Opaque { .. } => m,
    }
}

pub open spec fn set_block_in_members(members: Seq<ImplMemberV>, n: int, nb: BlockV) -> Seq<
    ImplMemberV,
>
    decreases members,
{
    if members.len() == 0 {
        members
    } else {
        let c = blocks_in_member(members[0]).len();
        if n < c {
            members.update(0, set_block_in_member(members[0], n, nb))
        } else {
            seq![members[0]] + set_block_in_members(members.drop_first(), n - c, nb)
        }
    }
}

pub open spec fn set_block_in_item(item: ItemV, n: int, nb: BlockV) -> ItemV
    decreases item,
{
    match item {
        ItemV::Mod { attrs, name, inline, body } => ItemV::Mod {
            attrs,
            name,
            inline,
            body: set_block_in_items(body, n, nb),
        },
        ItemV::Impl { attrs, header, members } => ItemV::Impl {
            attrs,
            header,
            members: set_block_in_members(members, n, nb),
        },
        ItemV::Func { attrs, sig, body } => ItemV::Func {
            attrs,
            sig,
            body: set_block_in_block(body, n, nb),
        },
        _ => item,
    }
}

pub open spec fn set_block_in_items(items: Seq<ItemV>, n: int, nb: BlockV) -> Seq<ItemV>
    decreases items,
{
    if items.len() == 0 {
        items
    } else {
        let c = blocks_in_item(items[0]).len();
        if n < c {
            items.update(0, set_block_in_item(items[0], n, nb))
        } else {
            seq![items[0]] + set_block_in_items(items.drop_first(), n - c, nb)
        }
    }
}

pub open spec fn set_block_in_file(f: SourceFileV, n: int, nb: BlockV) -> SourceFileV {
    SourceFileV { attrs: f.attrs, items: set_block_in_items(f.items, n, nb) }
}

// ---------------------------------------------------------------------------
// Restore laws: replacing a block twice, and putting a block back
// ---------------------------------------------------------------------------

pub proof fn lemma_set_block_block_twice(b: BlockV, n: int, a: BlockV, b2: BlockV)
    requires
        0 <= n < blocks_in_block(b).len(),
    ensures
        blocks_in_block(set_block_in_block(b, n, a)).len() > n,
        set_block_in_block(set_block_in_block(b, n, a), n, b2) == set_block_in_block(b, n, b2),
    decreases b,
{
    if n == 0 {
        assert(blocks_in_block(a).len() >= 1);
    } else {
        lemma_set_block_stmts_twice(b.stmts, n - 1, a, b2);
    }
}

pub proof fn lemma_set_block_stmt_twice(s: StmtV, n: int, a: BlockV, b2: BlockV)
    requires
        0 <= n < blocks_in_stmt(s).len(),
    ensures
        blocks_in_stmt(set_block_in_stmt(s, n, a)).len() > n,
        set_block_in_stmt(set_block_in_stmt(s, n, a), n, b2) == set_block_in_stmt(s, n, b2),
    decreases s,
{
    match s {
        StmtV::Nested { body, .. } => {
            lemma_set_block_block_twice(body, n, a, b2);
        },
        _ => {},
    }
}

pub proof fn lemma_set_block_stmts_twice(stmts: Seq<StmtV>, n: int, a: BlockV, b2: BlockV)
    requires
        0 <= n < blocks_in_stmts(stmts).len(),
    ensures
        blocks_in_stmts(set_block_in_stmts(stmts, n, a)).len() > n,
        set_block_in_stmts(set_block_in_stmts(stmts, n, a), n, b2) == set_block_in_stmts(
            stmts,
            n,
            b2,
        ),
    decreases stmts,
{
    let c = blocks_in_stmt(stmts[0]).len();
    let t2 = set_block_in_stmts(stmts, n, a);
    if n < c {
        lemma_set_block_stmt_twice(stmts[0], n, a, b2);
        assert(t2[0] == set_block_in_stmt(stmts[0], n, a));
        assert(t2.drop_first() =~= stmts.drop_first());
        assert(set_block_in_stmts(t2, n, b2) =~= set_block_in_stmts(stmts, n, b2));
    } else {
        lemma_set_block_stmts_twice(stmts.drop_first(), n - c, a, b2);
        assert(t2[0] == stmts[0]);
        assert(t2.drop_first() =~= set_block_in_stmts(stmts.drop_first(), n - c, a));
        assert(set_block_in_stmts(t2, n, b2) =~= set_block_in_stmts(stmts, n, b2));
    }
}

pub proof fn lemma_set_block_member_twice(m: ImplMemberV, n: int, a: BlockV, b2: BlockV)
    requires
        0 <= n < blocks_in_member(m).len(),
    ensures
        blocks_in_member(set_block_in_member(m, n, a)).len() > n,
        set_block_in_member(set_block_in_member(m, n, a), n, b2) == set_block_in_member(m, n, b2),
    decreases m,
{
    match m {
        ImplMemberV::Method { body, .. } => {
            lemma_set_block_block_twice(body, n, a, b2);
        },
        ImplMemberV::Opaque { .. } => {},
    }
}

pub proof fn lemma_set_block_members_twice(members: Seq<ImplMemberV>, n: int, a: BlockV, b2: BlockV)
    requires
        0 <= n < blocks_in_members(members).len(),
    ensures
        blocks_in_members(set_block_in_members(members, n, a)).len() > n,
        set_block_in_members(set_block_in_members(members, n, a), n, b2) == set_block_in_members(
            members,
            n,
            b2,
        ),
    decreases members,
{
    let c = blocks_in_member(members[0]).len();
    let t2 = set_block_in_members(members, n, a);
    if n < c {
        lemma_set_block_member_twice(members[0], n, a, b2);
        assert(t2[0] == set_block_in_member(members[0], n, a));
        assert(t2.drop_first() =~= members.drop_first());
        assert(set_block_in_members(t2, n, b2) =~= set_block_in_members(members, n, b2));
    } else {
        lemma_set_block_members_twice(members.drop_first(), n - c, a, b2);
        assert(t2[0] == members[0]);
        assert(t2.drop_first() =~= set_block_in_members(members.drop_first(), n - c, a));
        assert(set_block_in_members(t2, n, b2) =~= set_block_in_members(members, n, b2));
    }
}

pub proof fn lemma_set_block_item_twice(item: ItemV, n: int, a: BlockV, b2: BlockV)
    requires
        0 <= n < blocks_in_item(item).len(),
    ensures
        blocks_in_item(set_block_in_item(item, n, a)).len() > n,
        set_block_in_item(set_block_in_item(item, n, a), n, b2) == set_block_in_item(item, n, b2),
    decreases item,
{
    match item {
        ItemV::Mod { body, .. } => {
            lemma_set_block_items_twice(body, n, a, b2);
        },
        ItemV::Impl { members, .. } => {
            lemma_set_block_members_twice(members, n, a, b2);
        },
        ItemV::Func { body, .. } => {
            lemma_set_block_block_twice(body, n, a, b2);
        },
        _ => {},
    }
}

pub proof fn lemma_set_block_items_twice(items: Seq<ItemV>, n: int, a: BlockV, b2: BlockV)
    requires
        0 <= n < blocks_in_items(items).len(),
    ensures
        blocks_in_items(set_block_in_items(items, n, a)).len() > n,
        set_block_in_items(set_block_in_items(items, n, a), n, b2) == set_block_in_items(
            items,
            n,
            b2,
        ),
    decreases items,
{
    let c = blocks_in_item(items[0]).len();
    let t2 = set_block_in_items(items, n, a);
    if n < c {
        lemma_set_block_item_twice(items[0], n, a, b2);
        assert(t2[0] == set_block_in_item(items[0], n, a));
        assert(t2.drop_first() =~= items.drop_first());
        assert(set_block_in_items(t2, n, b2) =~= set_block_in_items(items, n, b2));
    } else {
        lemma_set_block_items_twice(items.drop_first(), n - c, a, b2);
        assert(t2[0] == items[0]);
        assert(t2.drop_first() =~= set_block_in_items(items.drop_first(), n - c, a));
        assert(set_block_in_items(t2, n, b2) =~= set_block_in_items(items, n, b2));
    }
}

pub proof fn lemma_set_block_file_twice(f: SourceFileV, n: int, a: BlockV, b2: BlockV)
    requires
        0 <= n < blocks_in_file(f).len(),
    ensures
        blocks_in_file(set_block_in_file(f, n, a)).len() > n,
        set_block_in_file(set_block_in_file(f, n, a), n, b2) == set_block_in_file(f, n, b2),
{
    lemma_set_block_items_twice(f.items, n, a, b2);
    assert(set_block_in_file(set_block_in_file(f, n, a), n, b2) =~= set_block_in_file(f, n, b2));
}

pub proof fn lemma_set_block_block_id(b: BlockV, n: int)
    requires
        0 <= n < blocks_in_block(b).len(),
    ensures
        set_block_in_block(b, n, blocks_in_block(b)[n]) == b,
    decreases b,
{
    if n == 0 {
        assert(blocks_in_block(b)[0] == b);
    } else {
        assert(blocks_in_block(b)[n] == blocks_in_stmts(b.stmts)[n - 1]);
        lemma_set_block_stmts_id(b.stmts, n - 1);
        assert(set_block_in_block(b, n, blocks_in_block(b)[n]) =~= b);
    }
}

pub proof fn lemma_set_block_stmt_id(s: StmtV, n: int)
    requires
        0 <= n < blocks_in_stmt(s).len(),
    ensures
        set_block_in_stmt(s, n, blocks_in_stmt(s)[n]) == s,
    decreases s,
{
    match s {
        StmtV::Nested { body, .. } => {
            lemma_set_block_block_id(body, n);
        },
        _ => {},
    }
}

pub proof fn lemma_set_block_stmts_id(stmts: Seq<StmtV>, n: int)
    requires
        0 <= n < blocks_in_stmts(stmts).len(),
    ensures
        set_block_in_stmts(stmts, n, blocks_in_stmts(stmts)[n]) == stmts,
    decreases stmts,
{
    let c = blocks_in_stmt(stmts[0]).len();
    if n < c {
        assert(blocks_in_stmts(stmts)[n] == blocks_in_stmt(stmts[0])[n]);
        lemma_set_block_stmt_id(stmts[0], n);
        assert(set_block_in_stmts(stmts, n, blocks_in_stmts(stmts)[n]) =~= stmts);
    } else {
        assert(blocks_in_stmts(stmts)[n] == blocks_in_stmts(stmts.drop_first())[n - c]);
        lemma_set_block_stmts_id(stmts.drop_first(), n - c);
        assert(set_block_in_stmts(stmts, n, blocks_in_stmts(stmts)[n]) =~= stmts);
    }
}

pub proof fn lemma_set_block_member_id(m: ImplMemberV, n: int)
    requires
        0 <= n < blocks_in_member(m).len(),
    ensures
        set_block_in_member(m, n, blocks_in_member(m)[n]) == m,
    decreases m,
{
    match m {
        ImplMemberV::Method { body, .. } => {
            lemma_set_block_block_id(body, n);
        },
        ImplMemberV::Opaque { .. } => {},
    }
}

pub proof fn lemma_set_block_members_id(members: Seq<ImplMemberV>, n: int)
    requires
        0 <= n < blocks_in_members(members).len(),
    ensures
        set_block_in_members(members, n, blocks_in_members(members)[n]) == members,
    decreases members,
{
    let c = blocks_in_member(members[0]).len();
    if n < c {
        assert(blocks_in_members(members)[n] == blocks_in_member(members[0])[n]);
        lemma_set_block_member_id(members[0], n);
        assert(set_block_in_members(members, n, blocks_in_members(members)[n]) =~= members);
    } else {
        assert(blocks_in_members(members)[n] == blocks_in_members(members.drop_first())[n - c]);
        lemma_set_block_members_id(members.drop_first(), n - c);
        assert(set_block_in_members(members, n, blocks_in_members(members)[n]) =~= members);
    }
}

pub proof fn lemma_set_block_item_id(item: ItemV, n: int)
    requires
        0 <= n < blocks_in_item(item).len(),
    ensures
        set_block_in_item(item, n, blocks_in_item(item)[n]) == item,
    decreases item,
{
    match item {
        ItemV::Mod { body, .. } => {
            lemma_set_block_items_id(body, n);
        },
        ItemV::Impl { members, .. } => {
            lemma_set_block_members_id(members, n);
        },
        ItemV::Func { body, .. } => {
            lemma_set_block_block_id(body, n);
        },
        _ => {},
    }
}

pub proof fn lemma_set_block_items_id(items: Seq<ItemV>, n: int)
    requires
        0 <= n < blocks_in_items(items).len(),
    ensures
        set_block_in_items(items, n, blocks_in_items(items)[n]) == items,
    decreases items,
{
    let c = blocks_in_item(items[0]).len();
    if n < c {
        assert(blocks_in_items(items)[n] == blocks_in_item(items[0])[n]);
        lemma_set_block_item_id(items[0], n);
        assert(set_block_in_items(items, n, blocks_in_items(items)[n]) =~= items);
    } else {
        assert(blocks_in_items(items)[n] == blocks_in_items(items.drop_first())[n - c]);
        lemma_set_block_items_id(items.drop_first(), n - c);
        assert(set_block_in_items(items, n, blocks_in_items(items)[n]) =~= items);
    }
}

pub proof fn lemma_set_block_file_id(f: SourceFileV, n: int)
    requires
        0 <= n < blocks_in_file(f).len(),
    ensures
        set_block_in_file(f, n, blocks_in_file(f)[n]) == f,
{
    lemma_set_block_items_id(f.items, n);
    assert(set_block_in_file(f, n, blocks_in_file(f)[n]) =~= f);
}

// ---------------------------------------------------------------------------
// Positional stability: a replacement lands at its own index, and every
// earlier block that is already the placeholder stays exactly as it is.
// (An earlier block that contains the replaced one changes with it, but the
// placeholder holds no blocks, so a placeholder is never such a container.)
// ---------------------------------------------------------------------------

pub proof fn lemma_set_block_block_pos(b: BlockV, n: int, nb: BlockV)
    requires
        0 <= n < blocks_in_block(b).len(),
    ensures
        blocks_in_block(set_block_in_block(b, n, nb)).len() > n,
        blocks_in_block(set_block_in_block(b, n, nb))[n] == nb,
        forall|j: int|
            0 <= j < n && is_placeholder_v(#[trigger] blocks_in_block(b)[j]) ==> blocks_in_block(
                set_block_in_block(b, n, nb),
            )[j] == blocks_in_block(b)[j],
    decreases b,
{
    lemma_set_block_block_twice(b, n, nb, nb);
    if n == 0 {
        assert(blocks_in_block(nb)[0] == nb);
    } else {
        lemma_set_block_stmts_pos(b.stmts, n - 1, nb);
        let b2 = set_block_in_block(b, n, nb);
        assert(blocks_in_block(b2)[n] == blocks_in_stmts(b2.stmts)[n - 1]);
        assert forall|j: int|
            0 <= j < n && is_placeholder_v(#[trigger] blocks_in_block(b)[j]) implies blocks_in_block(
            b2,
        )[j] == blocks_in_block(b)[j] by {
            if j == 0 {
                assert(blocks_in_block(b)[0] == b);
                assert(blocks_in_stmts(b.stmts).len() > n - 1);
                assert(!is_placeholder_v(b)) by {
                    if is_placeholder_v(b) {
                        assert(b.stmts[0] == StmtV::Unimplemented);
                        assert(blocks_in_stmts(b.stmts) =~= blocks_in_stmt(b.stmts[0])
                            + blocks_in_stmts(b.stmts.drop_first()));
                        assert(b.stmts.drop_first().len() == 0);
                        assert(blocks_in_stmts(b.stmts).len() == 0);
                    }
                }
            } else {
                assert(blocks_in_block(b)[j] == blocks_in_stmts(b.stmts)[j - 1]);
            }
        }
    }
}

pub proof fn lemma_set_block_stmt_pos(s: StmtV, n: int, nb: BlockV)
    requires
        0 <= n < blocks_in_stmt(s).len(),
    ensures
        blocks_in_stmt(set_block_in_stmt(s, n, nb)).len() > n,
        blocks_in_stmt(set_block_in_stmt(s, n, nb))[n] == nb,
        forall|j: int|
            0 <= j < n && is_placeholder_v(#[trigger] blocks_in_stmt(s)[j]) ==> blocks_in_stmt(
                set_block_in_stmt(s, n, nb),
            )[j] == blocks_in_stmt(s)[j],
    decreases s,
{
    match s {
        StmtV::Nested { body, .. } => {
            lemma_set_block_block_pos(body, n, nb);
        },
        _ => {},
    }
}

pub proof fn lemma_set_block_stmts_pos(stmts: Seq<StmtV>, n: int, nb: BlockV)
    requires
        0 <= n < blocks_in_stmts(stmts).len(),
    ensures
        blocks_in_stmts(set_block_in_stmts(stmts, n, nb)).len() > n,
        blocks_in_stmts(set_block_in_stmts(stmts, n, nb))[n] == nb,
        forall|j: int|
            0 <= j < n && is_placeholder_v(#[trigger] blocks_in_stmts(stmts)[j])
                ==> blocks_in_stmts(set_block_in_stmts(stmts, n, nb))[j] == blocks_in_stmts(
                stmts,
            )[j],
    decreases stmts,
{
    lemma_set_block_stmts_twice(stmts, n, nb, nb);
    let c = blocks_in_stmt(stmts[0]).len();
    let t2 = set_block_in_stmts(stmts, n, nb);
    if n < c {
        lemma_set_block_stmt_pos(stmts[0], n, nb);
        assert(t2[0] == set_block_in_stmt(stmts[0], n, nb));
        assert(t2.drop_first() =~= stmts.drop_first());
        assert(blocks_in_stmts(t2)[n] == blocks_in_stmt(t2[0])[n]);
        assert forall|j: int|
            0 <= j < n && is_placeholder_v(#[trigger] blocks_in_stmts(stmts)[j]) implies
            blocks_in_stmts(t2)[j] == blocks_in_stmts(stmts)[j] by {
            assert(blocks_in_stmts(stmts)[j] == blocks_in_stmt(stmts[0])[j]);
            assert(blocks_in_stmts(t2)[j] == blocks_in_stmt(t2[0])[j]);
        }
    } else {
        lemma_set_block_stmts_pos(stmts.drop_first(), n - c, nb);
        assert(t2[0] == stmts[0]);
        assert(t2.drop_first() =~= set_block_in_stmts(stmts.drop_first(), n - c, nb));
        assert(blocks_in_stmts(t2)[n] == blocks_in_stmts(t2.drop_first())[n - c]);
        assert forall|j: int|
            0 <= j < n && is_placeholder_v(#[trigger] blocks_in_stmts(stmts)[j]) implies
            blocks_in_stmts(t2)[j] == blocks_in_stmts(stmts)[j] by {
            if j < c {
                assert(blocks_in_stmts(stmts)[j] == blocks_in_stmt(stmts[0])[j]);
                assert(blocks_in_stmts(t2)[j] == blocks_in_stmt(stmts[0])[j]);
            } else {
                assert(blocks_in_stmts(stmts)[j] == blocks_in_stmts(stmts.drop_first())[j - c]);
                assert(blocks_in_stmts(t2)[j] == blocks_in_stmts(t2.drop_first())[j - c]);
            }
        }
    }
}

pub proof fn lemma_set_block_member_pos(m: ImplMemberV, n: int, nb: BlockV)
    requires
        0 <= n < blocks_in_member(m).len(),
    ensures
        blocks_in_member(set_block_in_member(m, n, nb)).len() > n,
        blocks_in_member(set_block_in_member(m, n, nb))[n] == nb,
        forall|j: int|
            0 <= j < n && is_placeholder_v(#[trigger] blocks_in_member(m)[j]) ==> blocks_in_member(
                set_block_in_member(m, n, nb),
            )[j] == blocks_in_member(m)[j],
    decreases m,
{
    match m {
        ImplMemberV::Method { body, .. } => {
            lemma_set_block_block_pos(body, n, nb);
        },
        ImplMemberV::Opaque { .. } => {},
    }
}

pub proof fn lemma_set_block_members_pos(members: Seq<ImplMemberV>, n: int, nb: BlockV)
    requires
        0 <= n < blocks_in_members(members).len(),
    ensures
        blocks_in_members(set_block_in_members(members, n, nb)).len() > n,
        blocks_in_members(set_block_in_members(members, n, nb))[n] == nb,
        forall|j: int|
            0 <= j < n && is_placeholder_v(#[trigger] blocks_in_members(members)[j])
                ==> blocks_in_members(set_block_in_members(members, n, nb))[j] == blocks_in_members(
                members,
            )[j],
    decreases members,
{
    lemma_set_block_members_twice(members, n, nb, nb);
    let c = blocks_in_member(members[0]).len();
    let t2 = set_block_in_members(members, n, nb);
    if n < c {
        lemma_set_block_member_pos(members[0], n, nb);
        assert(t2[0] == set_block_in_member(members[0], n, nb));
        assert(t2.drop_first() =~= members.drop_first());
        assert(blocks_in_members(t2)[n] == blocks_in_member(t2[0])[n]);
        assert forall|j: int|
            0 <= j < n && is_placeholder_v(#[trigger] blocks_in_members(members)[j]) implies
            blocks_in_members(t2)[j] == blocks_in_members(members)[j] by {
            assert(blocks_in_members(members)[j] == blocks_in_member(members[0])[j]);
            assert(blocks_in_members(t2)[j] == blocks_in_member(t2[0])[j]);
        }
    } else {
        lemma_set_block_members_pos(members.drop_first(), n - c, nb);
        assert(t2[0] == members[0]);
        assert(t2.drop_first() =~= set_block_in_members(members.drop_first(), n - c, nb));
        assert(blocks_in_members(t2)[n] == blocks_in_members(t2.drop_first())[n - c]);
        assert forall|j: int|
            0 <= j < n && is_placeholder_v(#[trigger] blocks_in_members(members)[j]) implies
            blocks_in_members(t2)[j] == blocks_in_members(members)[j] by {
            if j < c {
                assert(blocks_in_members(members)[j] == blocks_in_member(members[0])[j]);
                assert(blocks_in_members(t2)[j] == blocks_in_member(members[0])[j]);
            } else {
                assert(blocks_in_members(members)[j] == blocks_in_members(members.drop_first())[j
                    - c]);
                assert(blocks_in_members(t2)[j] == blocks_in_members(t2.drop_first())[j - c]);
            }
        }
    }
}

pub proof fn lemma_set_block_item_pos(item: ItemV, n: int, nb: BlockV)
    requires
        0 <= n < blocks_in_item(item).len(),
    ensures
        blocks_in_item(set_block_in_item(item, n, nb)).len() > n,
        blocks_in_item(set_block_in_item(item, n, nb))[n] == nb,
        forall|j: int|
            0 <= j < n && is_placeholder_v(#[trigger] blocks_in_item(item)[j]) ==> blocks_in_item(
                set_block_in_item(item, n, nb),
            )[j] == blocks_in_item(item)[j],
    decreases item,
{
    match item {
        ItemV::Mod { body, .. } => {
            lemma_set_block_items_pos(body, n, nb);
        },
        ItemV::Impl { members, .. } => {
            lemma_set_block_members_pos(members, n, nb);
        },
        ItemV::Func { body, .. } => {
            lemma_set_block_block_pos(body, n, nb);
        },
        _ => {},
    }
}

pub proof fn lemma_set_block_items_pos(items: Seq<ItemV>, n: int, nb: BlockV)
    requires
        0 <= n < blocks_in_items(items).len(),
    ensures
        blocks_in_items(set_block_in_items(items, n, nb)).len() > n,
        blocks_in_items(set_block_in_items(items, n, nb))[n] == nb,
        forall|j: int|
            0 <= j < n && is_placeholder_v(#[trigger] blocks_in_items(items)[j])
                ==> blocks_in_items(set_block_in_items(items, n, nb))[j] == blocks_in_items(
                items,
            )[j],
    decreases items,
{
    lemma_set_block_items_twice(items, n, nb, nb);
    let c = blocks_in_item(items[0]).len();
    let t2 = set_block_in_items(items, n, nb);
    if n < c {
        lemma_set_block_item_pos(items[0], n, nb);
        assert(t2[0] == set_block_in_item(items[0], n, nb));
        assert(t2.drop_first() =~= items.drop_first());
        assert(blocks_in_items(t2)[n] == blocks_in_item(t2[0])[n]);
        assert forall|j: int|
            0 <= j < n && is_placeholder_v(#[trigger] blocks_in_items(items)[j]) implies
            blocks_in_items(t2)[j] == blocks_in_items(items)[j] by {
            assert(blocks_in_items(items)[j] == blocks_in_item(items[0])[j]);
            assert(blocks_in_items(t2)[j] == blocks_in_item(t2[0])[j]);
        }
    } else {
        lemma_set_block_items_pos(items.drop_first(), n - c, nb);
        assert(t2[0] == items[0]);
        assert(t2.drop_first() =~= set_block_in_items(items.drop_first(), n - c, nb));
        assert(blocks_in_items(t2)[n] == blocks_in_items(t2.drop_first())[n - c]);
        assert forall|j: int|
            0 <= j < n && is_placeholder_v(#[trigger] blocks_in_items(items)[j]) implies
            blocks_in_items(t2)[j] == blocks_in_items(items)[j] by {
            if j < c {
                assert(blocks_in_items(items)[j] == blocks_in_item(items[0])[j]);
                assert(blocks_in_items(t2)[j] == blocks_in_item(items[0])[j]);
            } else {
                assert(blocks_in_items(items)[j] == blocks_in_items(items.drop_first())[j - c]);
                assert(blocks_in_items(t2)[j] == blocks_in_items(t2.drop_first())[j - c]);
            }
        }
    }
}

/// An accepted clearing lands exactly at its own index, and every earlier
/// block that is already the placeholder stays in place: once the pass has
/// made a block the placeholder, no later clearing disturbs it.
pub proof fn block_clear_preserves_placeholders(f: SourceFileV, n: int)
    requires
        0 <= n < blocks_in_file(f).len(),
    ensures
        blocks_in_file(set_block_in_file(f, n, placeholder_block_v())).len() > n,
        blocks_in_file(set_block_in_file(f, n, placeholder_block_v()))[n] == placeholder_block_v(),
        forall|j: int|
            0 <= j < n && is_placeholder_v(#[trigger] blocks_in_file(f)[j]) ==> blocks_in_file(
                set_block_in_file(f, n, placeholder_block_v()),
            )[j] == blocks_in_file(f)[j],
{
    lemma_set_block_items_pos(f.items, n, placeholder_block_v());
}

// ---------------------------------------------------------------------------
// Looking one block up
// ---------------------------------------------------------------------------

pub open spec fn lookup_block_in_block(b: BlockV, n: nat) -> Result<BlockV, nat>
    decreases b,
{
    if n == 0 {
        Ok(b)
    } else {
        lookup_block_in_stmts(b.stmts, (n - 1) as nat)
    }
}

pub open spec fn lookup_block_in_stmt(s: StmtV, n: nat) -> Result<BlockV, nat>
    decreases s,
{
    match s {
        StmtV::Nested { body, .. } => lookup_block_in_block(body, n),
        _ => Err(n),
    }
}

pub open spec fn lookup_block_in_stmts(stmts: Seq<StmtV>, n: nat) -> Result<BlockV, nat>
    decreases stmts,
{
    if stmts.len() == 0 {
        Err(n)
    } else {
        match lookup_block_in_stmt(stmts[0], n) {
            Ok(b) => Ok(b),
            Err(rem) => lookup_block_in_stmts(stmts.drop_first(), rem),
        }
    }
}

pub open spec fn lookup_block_in_member(m: ImplMemberV, n: nat) -> Result<BlockV, nat>
    decreases m,
{
    match m {
        ImplMemberV::Method { body, .. } => lookup_block_in_block(body, n),
        ImplMemberV::Opaque { .. } => Err(n),
    }
}

pub open spec fn lookup_block_in_members(members: Seq<ImplMemberV>, n: nat) -> Result<BlockV, nat>
    decreases members,
{
    if members.len() == 0 {
        Err(n)
    } else {
        match lookup_block_in_member(members[0], n) {
            Ok(b) => Ok(b),
            Err(rem) => lookup_block_in_members(members.drop_first(), rem),
        }
    }
}

pub open spec fn lookup_block_in_item(item: ItemV, n: nat) -> Result<BlockV, nat>
    decreases item,
{
    match item {
        ItemV::Mod { body, .. } => lookup_block_in_items(body, n),
        ItemV::Impl { members, .. } => lookup_block_in_members(members, n),
        ItemV::Func { body, .. } => lookup_block_in_block(body, n),
        _ => Err(n),
    }
}

pub open spec fn lookup_block_in_items(items: Seq<ItemV>, n: nat) -> Result<BlockV, nat>
    decreases items,
{
    if items.len() == 0 {
        Err(n)
    } else {
        match lookup_block_in_item(items[0], n) {
            Ok(b) => Ok(b),
            Err(rem) => lookup_block_in_items(items.drop_first(), rem),
        }
    }
}

pub open spec fn lookup_block_in_file(f: SourceFileV, n: nat) -> Result<BlockV, nat> {
    lookup_block_in_items(f.items, n)
}

pub proof fn lemma_lookup_block_block(b: BlockV, n: nat)
    ensures
        match lookup_block_in_block(b, n) {
            Ok(x) => n < blocks_in_block(b).len() && x == blocks_in_block(b)[n as int],
            Err(rem) => n >= blocks_in_block(b).len() && rem == n - blocks_in_block(b).len(),
        },
    decreases b,
{
    if n > 0 {
        lemma_lookup_block_stmts(b.stmts, (n - 1) as nat);
    }
}

pub proof fn lemma_lookup_block_stmt(s: StmtV, n: nat)
    ensures
        match lookup_block_in_stmt(s, n) {
            Ok(x) => n < blocks_in_stmt(s).len() && x == blocks_in_stmt(s)[n as int],
            Err(rem) => n >= blocks_in_stmt(s).len() && rem == n - blocks_in_stmt(s).len(),
        },
    decreases s,
{
    match s {
        StmtV::Nested { body, .. } => {
            lemma_lookup_block_block(body, n);
        },
        _ => {},
    }
}

pub proof fn lemma_lookup_block_stmts(stmts: Seq<StmtV>, n: nat)
    ensures
        match lookup_block_in_stmts(stmts, n) {
            Ok(x) => n < blocks_in_stmts(stmts).len() && x == blocks_in_stmts(stmts)[n as int],
            Err(rem) => n >= blocks_in_stmts(stmts).len() && rem == n - blocks_in_stmts(
                stmts,
            ).len(),
        },
    decreases stmts,
{
    if stmts.len() > 0 {
        lemma_lookup_block_stmt(stmts[0], n);
        match lookup_block_in_stmt(stmts[0], n) {
            Ok(_) => {},
            Err(rem) => {
                lemma_lookup_block_stmts(stmts.drop_first(), rem);
            },
        }
    }
}

pub proof fn lemma_lookup_block_member(m: ImplMemberV, n: nat)
    ensures
        match lookup_block_in_member(m, n) {
            Ok(x) => n < blocks_in_member(m).len() && x == blocks_in_member(m)[n as int],
            Err(rem) => n >= blocks_in_member(m).len() && rem == n - blocks_in_member(m).len(),
        },
    decreases m,
{
    match m {
        ImplMemberV::Method { body, .. } => {
            lemma_lookup_block_block(body, n);
        },
        ImplMemberV::Opaque { .. } => {},
    }
}

pub proof fn lemma_lookup_block_members(members: Seq<ImplMemberV>, n: nat)
    ensures
        match lookup_block_in_members(members, n) {
            Ok(x) => n < blocks_in_members(members).len() && x == blocks_in_members(members)[
                n as int
            ],
            Err(rem) => n >= blocks_in_members(members).len() && rem == n - blocks_in_members(
                members,
            ).len(),
        },
    decreases members,
{
    if members.len() > 0 {
        lemma_lookup_block_member(members[0], n);
        match lookup_block_in_member(members[0], n) {
            Ok(_) => {},
            Err(rem) => {
                lemma_lookup_block_members(members.drop_first(), rem);
            },
        }
    }
}

pub proof fn lemma_lookup_block_item(item: ItemV, n: nat)
    ensures
        match lookup_block_in_item(item, n) {
            Ok(x) => n < blocks_in_item(item).len() && x == blocks_in_item(item)[n as int],
            Err(rem) => n >= blocks_in_item(item).len() && rem == n - blocks_in_item(item).len(),
        },
    decreases item,
{
    match item {
        ItemV::Mod { body, .. } => {
            lemma_lookup_block_items(body, n);
        },
        ItemV::Impl { members, .. } => {
            lemma_lookup_block_members(members, n);
        },
        ItemV::Func { body, .. } => {
            lemma_lookup_block_block(body, n);
        },
        _ => {},
    }
}

pub proof fn lemma_lookup_block_items(items: Seq<ItemV>, n: nat)
    ensures
        match lookup_block_in_items(items, n) {
            Ok(x) => n < blocks_in_items(items).len() && x == blocks_in_items(items)[n as int],
            Err(rem) => n >= blocks_in_items(items).len() && rem == n - blocks_in_items(
                items,
            ).len(),
        },
    decreases items,
{
    if items.len() > 0 {
        lemma_lookup_block_item(items[0], n);
        match lookup_block_in_item(items[0], n) {
            Ok(_) => {},
            Err(rem) => {
                lemma_lookup_block_items(items.drop_first(), rem);
            },
        }
    }
}

pub proof fn lemma_lookup_block_file(f: SourceFileV, n: nat)
    ensures
        match lookup_block_in_file(f, n) {
            Ok(x) => n < blocks_in_file(f).len() && x == blocks_in_file(f)[n as int],
            Err(rem) => n >= blocks_in_file(f).len() && rem == n - blocks_in_file(f).len(),
        },
{
    lemma_lookup_block_items(f.items, n);
}

// ---------------------------------------------------------------------------
// Executable lookup
// ---------------------------------------------------------------------------

fn get_block_in_block(b: &Block, n: usize) -> (r: Result<Block, usize>)
    ensures
        match r {
            Ok(x) => lookup_block_in_block(block_view(*b), n as nat) == Ok::<BlockV, nat>(
                block_view(x),
            ),
            Err(rem) => lookup_block_in_block(block_view(*b), n as nat) == Err::<BlockV, nat>(
                rem as nat,
            ),
        },
    decreases *b,
{
    if n == 0 {
        Ok(dup_block(b))
    } else {
        get_block_in_stmts(&b.stmts, n - 1)
    }
}

fn get_block_in_stmt(s: &Stmt, n: usize) -> (r: Result<Block, usize>)
    ensures
        match r {
            Ok(x) => lookup_block_in_stmt(stmt_view(*s), n as nat) == Ok::<BlockV, nat>(
                block_view(x),
            ),
            Err(rem) => lookup_block_in_stmt(stmt_view(*s), n as nat) == Err::<BlockV, nat>(
                rem as nat,
            ),
        },
    decreases *s,
{
    match s {
        Stmt::Nested { body, .. } => get_block_in_block(body, n),
        _ => Err(n),
    }
}

fn get_block_in_stmts(stmts: &Vec<Stmt>, n: usize) -> (r: Result<Block, usize>)
    ensures
        match r {
            Ok(x) => lookup_block_in_stmts(stmts_view(stmts@), n as nat) == Ok::<BlockV, nat>(
                block_view(x),
            ),
            Err(rem) => lookup_block_in_stmts(stmts_view(stmts@), n as nat) == Err::<BlockV, nat>(
                rem as nat,
            ),
        },
    decreases stmts@,
{
    let ghost sv = stmts_view(stmts@);
    let mut k: usize = 0;
    let mut idx: usize = n;
    proof {
        assert(sv.skip(0) =~= sv);
    }
    while k < stmts.len()
        invariant
            k <= stmts@.len(),
            sv == stmts_view(stmts@),
            lookup_block_in_stmts(sv, n as nat) == lookup_block_in_stmts(
                sv.skip(k as int),
                idx as nat,
            ),
        decreases stmts@.len() - k,
    {
        proof {
            assert(sv.skip(k as int)[0] == sv[k as int]);
            assert(sv.skip(k as int).drop_first() =~= sv.skip(k as int + 1));
        }
        let r = get_block_in_stmt(&stmts[k], idx);
        match r {
            Ok(x) => {
                return Ok(x);
            },
            Err(rem) => {
                idx = rem;
            },
        }
        k = k + 1;
    }
    proof {
        assert(sv.skip(k as int).len() == 0);
    }
    Err(idx)
}

fn get_block_in_member(m: &ImplMember, n: usize) -> (r: Result<Block, usize>)
    ensures
        match r {
            Ok(x) => lookup_block_in_member(member_view(*m), n as nat) == Ok::<BlockV, nat>(
                block_view(x),
            ),
            Err(rem) => lookup_block_in_member(member_view(*m), n as nat) == Err::<BlockV, nat>(
                rem as nat,
            ),
        },
    decreases *m,
{
    match m {
        ImplMember::Method { body, .. } => get_block_in_block(body, n),
        ImplMember::Opaque { .. } => Err(n),
    }
}

fn get_block_in_members(members: &Vec<ImplMember>, n: usize) -> (r: Result<Block, usize>)
    ensures
        match r {
            Ok(x) => lookup_block_in_members(members_view(members@), n as nat) == Ok::<
                BlockV,
                nat,
            >(block_view(x)),
            Err(rem) => lookup_block_in_members(members_view(members@), n as nat) == Err::<
                BlockV,
                nat,
            >(rem as nat),
        },
    decreases members@,
{
    let ghost mv = members_view(members@);
    let mut k: usize = 0;
    let mut idx: usize = n;
    proof {
        assert(mv.skip(0) =~= mv);
    }
    while k < members.len()
        invariant
            k <= members@.len(),
            mv == members_view(members@),
            lookup_block_in_members(mv, n as nat) == lookup_block_in_members(
                mv.skip(k as int),
                idx as nat,
            ),
        decreases members@.len() - k,
    {
        proof {
            assert(mv.skip(k as int)[0] == mv[k as int]);
            assert(mv.skip(k as int).drop_first() =~= mv.skip(k as int + 1));
        }
        let r = get_block_in_member(&members[k], idx);
        match r {
            Ok(x) => {
                return Ok(x);
            },
            Err(rem) => {
                idx = rem;
            },
        }
        k = k + 1;
    }
    proof {
        assert(mv.skip(k as int).len() == 0);
    }
    Err(idx)
}

fn get_block_in_item(item: &Item, n: usize) -> (r: Result<Block, usize>)
    ensures
        match r {
            Ok(x) => lookup_block_in_item(item_view(*item), n as nat) == Ok::<BlockV, nat>(
                block_view(x),
            ),
            Err(rem) => lookup_block_in_item(item_view(*item), n as nat) == Err::<BlockV, nat>(
                rem as nat,
            ),
        },
    decreases *item,
{
    match item {
        Item::Mod { body, .. } => get_block_in_items(body, n),
        Item::Impl { members, .. } => get_block_in_members(members, n),
        Item::Func { body, .. } => get_block_in_block(body, n),
        _ => Err(n),
    }
}

fn get_block_in_items(items: &Vec<Item>, n: usize) -> (r: Result<Block, usize>)
    ensures
        match r {
            Ok(x) => lookup_block_in_items(items_seq_view(items@), n as nat) == Ok::<BlockV, nat>(
                block_view(x),
            ),
            Err(rem) => lookup_block_in_items(items_seq_view(items@), n as nat) == Err::<
                BlockV,
                nat,
            >(rem as nat),
        },
    decreases items@,
{
    let ghost iv = items_seq_view(items@);
    let mut k: usize = 0;
    let mut idx: usize = n;
    proof {
        assert(iv.skip(0) =~= iv);
    }
    while k < items.len()
        invariant
            k <= items@.len(),
            iv == items_seq_view(items@),
            lookup_block_in_items(iv, n as nat) == lookup_block_in_items(
                iv.skip(k as int),
                idx as nat,
            ),
        decreases items@.len() - k,
    {
        proof {
            assert(iv.skip(k as int)[0] == iv[k as int]);
            assert(iv.skip(k as int).drop_first() =~= iv.skip(k as int + 1));
        }
        let r = get_block_in_item(&items[k], idx);
        match r {
            Ok(x) => {
                return Ok(x);
            },
            Err(rem) => {
                idx = rem;
            },
        }
        k = k + 1;
    }
    proof {
        assert(iv.skip(k as int).len() == 0);
    }
    Err(idx)
}

// ---------------------------------------------------------------------------
// Executable replacement
// ---------------------------------------------------------------------------

/// Node count of a block, used as a termination measure.
pub open spec fn bsize_block(b: BlockV) -> nat
    decreases b,
{
    1 + bsize_stmts(b.stmts)
}

pub open spec fn bsize_stmt(s: StmtV) -> nat
    decreases s,
{
    match s {
        StmtV::Nested { body, .. } => 1 + bsize_block(body),
        _ => 1,
    }
}

pub open spec fn bsize_stmts(stmts: Seq<StmtV>) -> nat
    decreases stmts,
{
    if stmts.len() == 0 {
        0
    } else {
        bsize_stmt(stmts[0]) + bsize_stmts(stmts.drop_first())
    }
}

pub open spec fn bsize_member(m: ImplMemberV) -> nat
    decreases m,
{
    match m {
        ImplMemberV::Method { body, .. } => 1 + bsize_block(body),
        ImplMemberV::Opaque { .. } => 1,
    }
}

pub open spec fn bsize_members(members: Seq<ImplMemberV>) -> nat
    decreases members,
{
    if members.len() == 0 {
        0
    } else {
        bsize_member(members[0]) + bsize_members(members.drop_first())
    }
}

pub open spec fn bsize_item(item: ItemV) -> nat
    decreases item,
{
    match item {
        ItemV::Mod { body, .. } => 1 + bsize_items(body),
        ItemV::Impl { members, .. } => 1 + bsize_members(members),
        ItemV::Func { body, .. } => 1 + bsize_block(body),
        _ => 1,
    }
}

pub open spec fn bsize_items(items: Seq<ItemV>) -> nat
    decreases items,
{
    if items.len() == 0 {
        0
    } else {
        bsize_item(items[0]) + bsize_items(items.drop_first())
    }
}

proof fn lemma_bsize_stmts_le(stmts: Seq<StmtV>, k: int)
    requires
        0 <= k < stmts.len(),
    ensures
        bsize_stmt(stmts[k]) <= bsize_stmts(stmts),
    decreases stmts.len(),
{
    if k > 0 {
        lemma_bsize_stmts_le(stmts.drop_first(), k - 1);
        assert(stmts.drop_first()[k - 1] == stmts[k]);
    }
}

proof fn lemma_bsize_members_le(members: Seq<ImplMemberV>, k: int)
    requires
        0 <= k < members.len(),
    ensures
        bsize_member(members[k]) <= bsize_members(members),
    decreases members.len(),
{
    if k > 0 {
        lemma_bsize_members_le(members.drop_first(), k - 1);
        assert(members.drop_first()[k - 1] == members[k]);
    }
}

proof fn lemma_bsize_items_le(items: Seq<ItemV>, k: int)
    requires
        0 <= k < items.len(),
    ensures
        bsize_item(items[k]) <= bsize_items(items),
    decreases items.len(),
{
    if k > 0 {
        lemma_bsize_items_le(items.drop_first(), k - 1);
        assert(items.drop_first()[k - 1] == items[k]);
    }
}

fn replace_in_block(b: &mut Block, n: usize, nb: Block) -> (r: Result<(), (usize, Block)>)
    ensures
        match r {
            Ok(()) => lookup_block_in_block(block_view(*old(b)), n as nat) is Ok && block_view(
                *final(b),
            ) == set_block_in_block(block_view(*old(b)), n as int, block_view(nb)),
            Err((rem, nb2)) => lookup_block_in_block(block_view(*old(b)), n as nat) == Err::<
                BlockV,
                nat,
            >(rem as nat) && block_view(*final(b)) == block_view(*old(b)) && block_view(nb2)
                == block_view(nb),
        },
    decreases bsize_block(block_view(*b)), 0nat,
{
    if n == 0 {
        *b = nb;
        Ok(())
    } else {
        let r = replace_in_stmts(&mut b.stmts, n - 1, nb);
        proof {
            lemma_stmts_view_len(b.stmts@);
        }
        r
    }
}

fn replace_in_stmt(s: &mut Stmt, n: usize, nb: Block) -> (r: Result<(), (usize, Block)>)
    ensures
        match r {
            Ok(()) => lookup_block_in_stmt(stmt_view(*old(s)), n as nat) is Ok && stmt_view(
                *final(s),
            ) == set_block_in_stmt(stmt_view(*old(s)), n as int, block_view(nb)),
            Err((rem, nb2)) => lookup_block_in_stmt(stmt_view(*old(s)), n as nat) == Err::<
                BlockV,
                nat,
            >(rem as nat) && stmt_view(*final(s)) == stmt_view(*old(s)) && block_view(nb2)
                == block_view(nb),
        },
    decreases bsize_stmt(stmt_view(*s)), 1nat,
{
    match s {
        Stmt::Nested { body, .. } => replace_in_block(body, n, nb),
        _ => Err((n, nb)),
    }
}

fn replace_in_stmts(stmts: &mut Vec<Stmt>, n: usize, nb0: Block) -> (r: Result<
    (),
    (usize, Block),
>)
    ensures
        match r {
            Ok(()) => lookup_block_in_stmts(stmts_view(old(stmts)@), n as nat) is Ok && stmts_view(
                final(stmts)@,
            ) == set_block_in_stmts(stmts_view(old(stmts)@), n as int, block_view(nb0)),
            Err((rem, nb2)) => lookup_block_in_stmts(stmts_view(old(stmts)@), n as nat) == Err::<
                BlockV,
                nat,
            >(rem as nat) && stmts_view(final(stmts)@) == stmts_view(old(stmts)@) && block_view(nb2)
                == block_view(nb0),
        },
    decreases bsize_stmts(stmts_view(stmts@)), 2nat,
{
    let ghost sv = stmts_view(stmts@);
    let ghost bv = block_view(nb0);
    let mut nb = nb0;
    let mut k: usize = 0;
    let mut idx: usize = n;
    proof {
        assert(sv.skip(0) =~= sv);
        assert(sv.take(0) + set_block_in_stmts(sv, n as int, bv) =~= set_block_in_stmts(
            sv,
            n as int,
            bv,
        ));
    }
    while k < stmts.len()
        invariant
            k <= stmts@.len(),
            sv == stmts_view(old(stmts)@),
            stmts_view(stmts@) == sv,
            block_view(nb) == bv,
            bv == block_view(nb0),
            lookup_block_in_stmts(sv, n as nat) == lookup_block_in_stmts(
                sv.skip(k as int),
                idx as nat,
            ),
            set_block_in_stmts(sv, n as int, bv) == sv.take(k as int) + set_block_in_stmts(
                sv.skip(k as int),
                idx as int,
                bv,
            ),
        decreases stmts@.len() - k,
    {
        proof {
            assert(sv.skip(k as int)[0] == sv[k as int]);
            assert(sv.skip(k as int).drop_first() =~= sv.skip(k as int + 1));
            lemma_bsize_stmts_le(sv, k as int);
            lemma_lookup_block_stmt(sv[k as int], idx as nat);
        }
        let r = replace_in_stmt(&mut stmts[k], idx, nb);
        match r {
            Ok(()) => {
                proof {
                    let s2 = stmt_view(stmts@[k as int]);
                    assert(lookup_block_in_stmts(sv.skip(k as int), idx as nat) is Ok);
                    assert(stmts_view(stmts@) =~= sv.update(k as int, s2));
                    assert(set_block_in_stmts(sv.skip(k as int), idx as int, bv) =~= seq![s2]
                        + sv.skip(k as int + 1));
                    assert(sv.take(k as int) + (seq![s2] + sv.skip(k as int + 1)) =~= sv.update(
                        k as int,
                        s2,
                    ));
                }
                return Ok(());
            },
            Err((rem, nb2)) => {
                proof {
                    assert(stmts_view(stmts@) =~= sv);
                    let x = set_block_in_stmts(sv.skip(k as int + 1), rem as int, bv);
                    assert(set_block_in_stmts(sv.skip(k as int), idx as int, bv) =~= seq![
                        sv[k as int],
                    ] + x);
                    assert(sv.take(k as int) + (seq![sv[k as int]] + x) =~= sv.take(k as int + 1)
                        + x);
                }
                idx = rem;
                nb = nb2;
            },
        }
        k = k + 1;
    }
    proof {
        assert(sv.skip(k as int).len() == 0);
        assert(sv.take(k as int) =~= sv);
        assert(sv + set_block_in_stmts(sv.skip(k as int), idx as int, bv) =~= sv);
    }
    Err((idx, nb))
}

fn replace_in_member(m: &mut ImplMember, n: usize, nb: Block) -> (r: Result<(), (usize, Block)>)
    ensures
        match r {
            Ok(()) => lookup_block_in_member(member_view(*old(m)), n as nat) is Ok && member_view(
                *final(m),
            ) == set_block_in_member(member_view(*old(m)), n as int, block_view(nb)),
            Err((rem, nb2)) => lookup_block_in_member(member_view(*old(m)), n as nat) == Err::<
                BlockV,
                nat,
            >(rem as nat) && member_view(*final(m)) == member_view(*old(m)) && block_view(nb2)
                == block_view(nb),
        },
    decreases bsize_member(member_view(*m)), 1nat,
{
    match m {
        ImplMember::Method { body, .. } => replace_in_block(body, n, nb),
        ImplMember::Opaque { .. } => Err((n, nb)),
    }
}

fn replace_in_members(members: &mut Vec<ImplMember>, n: usize, nb0: Block) -> (r: Result<
    (),
    (usize, Block),
>)
    ensures
        match r {
            Ok(()) => lookup_block_in_members(members_view(old(members)@), n as nat) is Ok
                && members_view(final(members)@) == set_block_in_members(
                members_view(old(members)@),
                n as int,
                block_view(nb0),
            ),
            Err((rem, nb2)) => lookup_block_in_members(members_view(old(members)@), n as nat)
                == Err::<BlockV, nat>(rem as nat) && members_view(final(members)@) == members_view(
                old(members)@,
            ) && block_view(nb2) == block_view(nb0),
        },
    decreases bsize_members(members_view(members@)), 2nat,
{
    let ghost mv = members_view(members@);
    let ghost bv = block_view(nb0);
    let mut nb = nb0;
    let mut k: usize = 0;
    let mut idx: usize = n;
    proof {
        assert(mv.skip(0) =~= mv);
        assert(mv.take(0) + set_block_in_members(mv, n as int, bv) =~= set_block_in_members(
            mv,
            n as int,
            bv,
        ));
    }
    while k < members.len()
        invariant
            k <= members@.len(),
            mv == members_view(old(members)@),
            members_view(members@) == mv,
            block_view(nb) == bv,
            bv == block_view(nb0),
            lookup_block_in_members(mv, n as nat) == lookup_block_in_members(
                mv.skip(k as int),
                idx as nat,
            ),
            set_block_in_members(mv, n as int, bv) == mv.take(k as int) + set_block_in_members(
                mv.skip(k as int),
                idx as int,
                bv,
            ),
        decreases members@.len() - k,
    {
        proof {
            assert(mv.skip(k as int)[0] == mv[k as int]);
            assert(mv.skip(k as int).drop_first() =~= mv.skip(k as int + 1));
            lemma_bsize_members_le(mv, k as int);
            lemma_lookup_block_member(mv[k as int], idx as nat);
        }
        let r = replace_in_member(&mut members[k], idx, nb);
        match r {
            Ok(()) => {
                proof {
                    let m2 = member_view(members@[k as int]);
                    assert(lookup_block_in_members(mv.skip(k as int), idx as nat) is Ok);
                    assert(members_view(members@) =~= mv.update(k as int, m2));
                    assert(set_block_in_members(mv.skip(k as int), idx as int, bv) =~= seq![m2]
                        + mv.skip(k as int + 1));
                    assert(mv.take(k as int) + (seq![m2] + mv.skip(k as int + 1)) =~= mv.update(
                        k as int,
                        m2,
                    ));
                }
                return Ok(());
            },
            Err((rem, nb2)) => {
                proof {
                    assert(members_view(members@) =~= mv);
                    let x = set_block_in_members(mv.skip(k as int + 1), rem as int, bv);
                    assert(set_block_in_members(mv.skip(k as int), idx as int, bv) =~= seq![
                        mv[k as int],
                    ] + x);
                    assert(mv.take(k as int) + (seq![mv[k as int]] + x) =~= mv.take(k as int + 1)
                        + x);
                }
                idx = rem;
                nb = nb2;
            },
        }
        k = k + 1;
    }
    proof {
        assert(mv.skip(k as int).len() == 0);
        assert(mv.take(k as int) =~= mv);
        assert(mv + set_block_in_members(mv.skip(k as int), idx as int, bv) =~= mv);
    }
    Err((idx, nb))
}

fn replace_in_item(item: &mut Item, n: usize, nb: Block) -> (r: Result<(), (usize, Block)>)
    ensures
        match r {
            Ok(()) => lookup_block_in_item(item_view(*old(item)), n as nat) is Ok && item_view(
                *final(item),
            ) == set_block_in_item(item_view(*old(item)), n as int, block_view(nb)),
            Err((rem, nb2)) => lookup_block_in_item(item_view(*old(item)), n as nat) == Err::<
                BlockV,
                nat,
            >(rem as nat) && item_view(*final(item)) == item_view(*old(item)) && block_view(nb2)
                == block_view(nb),
        },
    decreases bsize_item(item_view(*item)), 1nat,
{
    match item {
        Item::Mod { body, .. } => {
            let r = replace_in_items(body, n, nb);
            proof {
                lemma_items_view_len(body@);
            }
            r
        },
        Item::Impl { members, .. } => {
            let r = replace_in_members(members, n, nb);
            proof {
                lemma_members_view_len(members@);
            }
            r
        },
        Item::Func { body, .. } => replace_in_block(body, n, nb),
        _ => Err((n, nb)),
    }
}

fn replace_in_items(items: &mut Vec<Item>, n: usize, nb0: Block) -> (r: Result<
    (),
    (usize, Block),
>)
    ensures
        match r {
            Ok(()) => lookup_block_in_items(items_seq_view(old(items)@), n as nat) is Ok
                && items_seq_view(final(items)@) == set_block_in_items(
                items_seq_view(old(items)@),
                n as int,
                block_view(nb0),
            ),
            Err((rem, nb2)) => lookup_block_in_items(items_seq_view(old(items)@), n as nat) == Err::<
                BlockV,
                nat,
            >(rem as nat) && items_seq_view(final(items)@) == items_seq_view(old(items)@)
                && block_view(nb2) == block_view(nb0),
        },
    decreases bsize_items(items_seq_view(items@)), 2nat,
{
    let ghost iv = items_seq_view(items@);
    let ghost bv = block_view(nb0);
    let mut nb = nb0;
    let mut k: usize = 0;
    let mut idx: usize = n;
    proof {
        assert(iv.skip(0) =~= iv);
        assert(iv.take(0) + set_block_in_items(iv, n as int, bv) =~= set_block_in_items(
            iv,
            n as int,
            bv,
        ));
    }
    while k < items.len()
        invariant
            k <= items@.len(),
            iv == items_seq_view(old(items)@),
            items_seq_view(items@) == iv,
            block_view(nb) == bv,
            bv == block_view(nb0),
            lookup_block_in_items(iv, n as nat) == lookup_block_in_items(
                iv.skip(k as int),
                idx as nat,
            ),
            set_block_in_items(iv, n as int, bv) == iv.take(k as int) + set_block_in_items(
                iv.skip(k as int),
                idx as int,
                bv,
            ),
        decreases items@.len() - k,
    {
        proof {
            assert(iv.skip(k as int)[0] == iv[k as int]);
            assert(iv.skip(k as int).drop_first() =~= iv.skip(k as int + 1));
            lemma_bsize_items_le(iv, k as int);
            lemma_lookup_block_item(iv[k as int], idx as nat);
        }
        let r = replace_in_item(&mut items[k], idx, nb);
        match r {
            Ok(()) => {
                proof {
                    let item2 = item_view(items@[k as int]);
                    assert(lookup_block_in_items(iv.skip(k as int), idx as nat) is Ok);
                    assert(items_seq_view(items@) =~= iv.update(k as int, item2));
                    assert(set_block_in_items(iv.skip(k as int), idx as int, bv) =~= seq![item2]
                        + iv.skip(k as int + 1));
                    assert(iv.take(k as int) + (seq![item2] + iv.skip(k as int + 1)) =~= iv.update(
                        k as int,
                        item2,
                    ));
                }
                return Ok(());
            },
            Err((rem, nb2)) => {
                proof {
                    assert(items_seq_view(items@) =~= iv);
                    let x = set_block_in_items(iv.skip(k as int + 1), rem as int, bv);
                    assert(set_block_in_items(iv.skip(k as int), idx as int, bv) =~= seq![
                        iv[k as int],
                    ] + x);
                    assert(iv.take(k as int) + (seq![iv[k as int]] + x) =~= iv.take(k as int + 1)
                        + x);
                }
                idx = rem;
                nb = nb2;
            },
        }
        k = k + 1;
    }
    proof {
        assert(iv.skip(k as int).len() == 0);
        assert(iv.take(k as int) =~= iv);
        assert(iv + set_block_in_items(iv.skip(k as int), idx as int, bv) =~= iv);
    }
    Err((idx, nb))
}

/// Replaces block `n` in pre-order.
pub fn set_block_at(f: &mut SourceFile, n: usize, nb: Block)
    requires
        (n as nat) < blocks_in_file(old(f)@).len(),
    ensures
        final(f)@ == set_block_in_file(old(f)@, n as int, block_view(nb)),
{
    proof {
        lemma_lookup_block_file(old(f)@, n as nat);
    }
    let r = replace_in_items(&mut f.items, n, nb);
    match r {
        Ok(()) => {
            proof {
                assert(f@ =~= set_block_in_file(old(f)@, n as int, block_view(nb)));
            }
        },
        Err(_) => {
            // not reached: the block index is within the tree
            proof {
                assert(false);
            }
        },
    }
}

/// Hands out a copy of block `n` in pre-order, or `None` when the tree has
/// fewer than `n + 1` blocks.
pub fn get_block_at(f: &SourceFile, n: usize) -> (r: Option<Block>)
    ensures
        (n as nat) < blocks_in_file(f@).len() ==> r is Some && block_view(r->0) == blocks_in_file(
            f@,
        )[n as int],
        (n as nat) >= blocks_in_file(f@).len() ==> r is None,
{
    proof {
        lemma_lookup_block_file(f@, n as nat);
    }
    match get_block_in_items(&f.items, n) {
        Ok(x) => Some(x),
        Err(_) => None,
    }
}

// ---------------------------------------------------------------------------
// The pass
// ---------------------------------------------------------------------------

/// The block-clearing pass.
pub struct BlockPass {
    target: usize,
    at: usize,
    backup: Option<Block>,
    pre: Ghost<SourceFileV>,
    rejected: Ghost<Set<nat>>,
    done: bool,
}

impl BlockPass {
    /// Whether a proposed clearing awaits its verdict.
    pub closed spec fn pending(&self) -> bool {
        self.backup is Some
    }

    /// The tree before the pending clearing.
    pub closed spec fn saved(&self) -> SourceFileV {
        self.pre@
    }

    /// The block index of the pending clearing.
    pub closed spec fn at_spec(&self) -> nat {
        self.at as nat
    }

    /// The index the next search starts from.
    pub closed spec fn target_spec(&self) -> nat {
        self.target as nat
    }

    /// Whether the pass has finished.
    pub closed spec fn finished(&self) -> bool {
        self.done
    }

    /// The tree as mutated by the pending clearing.
    pub closed spec fn mutated(&self) -> SourceFileV {
        set_block_in_file(self.pre@, self.at as int, placeholder_block_v())
    }

    /// The candidate indices whose clearing the oracle has rejected.
    pub closed spec fn rejected_set(&self) -> Set<nat> {
        self.rejected@
    }

    /// The pass's central invariant on a tree: every block before the
    /// target is the placeholder, or its clearing was rejected.
    pub closed spec fn cleared_up_to(&self, t: SourceFileV) -> bool {
        forall|j: int|
            0 <= j < self.target_spec() && j < blocks_in_file(t).len() ==> is_placeholder_v(
                #[trigger] blocks_in_file(t)[j],
            ) || self.rejected@.contains(j as nat)
    }

    /// Internal consistency of a pending proposal.
    pub closed spec fn wf(&self) -> bool {
        self.pending() ==> {
            &&& (self.at as nat) < blocks_in_file(self.pre@).len()
            &&& block_view(self.backup->0) == blocks_in_file(self.pre@)[self.at as int]
            &&& !is_placeholder_v(blocks_in_file(self.pre@)[self.at as int])
            &&& self.target_spec() == self.at as nat + 1
            &&& (forall|j: int|
                0 <= j < self.at as nat && j < blocks_in_file(self.pre@).len()
                    ==> is_placeholder_v(#[trigger] blocks_in_file(self.pre@)[j])
                    || self.rejected@.contains(j as nat))
        }
    }

    pub fn new() -> (r: Self)
        ensures
            !r.pending(),
            !r.finished(),
            r.target_spec() == 0,
            r.wf(),
            forall|t: SourceFileV| r.cleared_up_to(t),
    {
        BlockPass {
            target: 0,
            at: 0,
            backup: None,
            pre: Ghost(arbitrary()),
            rejected: Ghost(Set::empty()),
            done: false,
        }
    }

    /// Replaces the first block at or past the target that is not already
    /// the placeholder.  Returns true when a clearing was applied (the tree
    /// must now be put to the oracle and the verdict reported through
    /// `decide`); false when every remaining block is the placeholder and
    /// the tree is unchanged.
    pub fn propose(&mut self, file: &mut SourceFile) -> (r: bool)
        requires
            !old(self).pending(),
            old(self).cleared_up_to(old(file)@),
        ensures
            final(self).wf(),
            final(self).rejected_set() == old(self).rejected_set(),
            final(self).cleared_up_to(final(file)@),
            r ==> final(self).pending(),
            r ==> final(self).saved() == old(file)@,
            r ==> old(self).target_spec() <= final(self).at_spec(),
            r ==> final(self).at_spec() < blocks_in_file(old(file)@).len(),
            r ==> !is_placeholder_v(blocks_in_file(old(file)@)[final(self).at_spec() as int]),
            r ==> forall|j: int|
                old(self).target_spec() <= j < final(self).at_spec() ==> is_placeholder_v(
                    #[trigger] blocks_in_file(old(file)@)[j],
                ),
            r ==> final(file)@ == set_block_in_file(
                old(file)@,
                final(self).at_spec() as int,
                placeholder_block_v(),
            ),
            r ==> final(file)@ == final(self).mutated(),
            r ==> final(self).target_spec() == final(self).at_spec() + 1,
            r ==> !final(self).finished(),
            !r ==> final(file)@ == old(file)@ && !final(self).pending() && final(self).finished(),
            !r && !old(self).finished() && blocks_in_file(old(file)@).len() <= usize::MAX
                ==> forall|j: int|
                old(self).target_spec() <= j < blocks_in_file(old(file)@).len() ==> is_placeholder_v(
                    #[trigger] blocks_in_file(old(file)@)[j],
                ),
            !r && !old(self).finished() && blocks_in_file(old(file)@).len() <= usize::MAX
                ==> forall|j: int|
                0 <= j < blocks_in_file(old(file)@).len() ==> is_placeholder_v(
                    #[trigger] blocks_in_file(old(file)@)[j],
                ) || final(self).rejected_set().contains(j as nat),
    {
        if self.done {
            return false;
        }
        let ghost pre0 = file@;
        let ghost blist = blocks_in_file(pre0);
        let ghost t0 = self.target as nat;
        let mut n = self.target;
        loop
            invariant
                pre0 == old(file)@,
                t0 == old(self).target_spec(),
                t0 <= n as nat,
                file@ == pre0,
                blist == blocks_in_file(pre0),
                *self == *old(self),
                !old(self).pending(),
                !old(self).finished(),
                old(self).cleared_up_to(pre0),
                n as nat <= blist.len() || n as nat == t0,
                forall|j: int| t0 <= j < n as nat ==> is_placeholder_v(#[trigger] blist[j]),
            decreases (if n as nat <= blist.len() {
                blist.len() - n as nat + 1
            } else {
                0
            }),
        {
            if n == usize::MAX {
                self.done = true;
                return false;
            }
            let got = get_block_at(file, n);
            match got {
                None => {
                    self.done = true;
                    return false;
                },
                Some(b) => {
                    if !crate::ast::is_placeholder(&b) {
                        let ph = placeholder_block();
                        set_block_at(file, n, ph);
                        self.at = n;
                        self.target = n + 1;
                        self.backup = Some(b);
                        self.pre = Ghost(pre0);
                        proof {
                            block_clear_preserves_placeholders(pre0, n as int);
                            let t2 = set_block_in_file(pre0, n as int, placeholder_block_v());
                            assert forall|j: int|
                                0 <= j < self.target_spec() && j < blocks_in_file(t2).len() implies
                                is_placeholder_v(#[trigger] blocks_in_file(t2)[j])
                                    || self.rejected@.contains(j as nat) by {
                                if j < n {
                                    if is_placeholder_v(blocks_in_file(pre0)[j]) {
                                        assert(blocks_in_file(t2)[j] == blocks_in_file(pre0)[j]);
                                    }
                                } else {
                                    assert(blocks_in_file(t2)[n as int] == placeholder_block_v());
                                }
                            }
                        }
                        return true;
                    }
                    n = n + 1;
                },
            }
        }
    }

    /// Reports the oracle's verdict on the pending clearing.  A rejected
    /// clearing puts the saved block back exactly; an accepted one stays.
    /// Either way the search resumes after the cleared block.
    pub fn decide(&mut self, file: &mut SourceFile, accepted: bool)
        requires
            old(self).pending(),
            old(self).wf(),
            old(file)@ == old(self).mutated(),
        ensures
            final(self).wf(),
            !final(self).pending(),
            final(self).finished() == old(self).finished(),
            final(self).target_spec() == old(self).target_spec(),
            final(self).cleared_up_to(final(file)@),
            accepted ==> final(file)@ == old(file)@ && final(self).rejected_set() == old(
                self,
            ).rejected_set(),
            !accepted ==> final(file)@ == old(self).saved() && final(self).rejected_set() == old(
                self,
            ).rejected_set().insert(old(self).at_spec()),
    {
        let backup = self.backup.take().unwrap();
        if !accepted {
            let ghost pre0 = self.pre@;
            let ghost n = self.at as int;
            self.rejected = Ghost(self.rejected@.insert(self.at as nat));
            proof {
                lemma_set_block_file_twice(pre0, n, placeholder_block_v(), block_view(backup));
                lemma_set_block_file_id(pre0, n);
            }
            set_block_at(file, self.at, backup);
            proof {
                assert(file@ == pre0);
                assert forall|j: int|
                    0 <= j < self.target_spec() && j < blocks_in_file(pre0).len() implies
                    is_placeholder_v(#[trigger] blocks_in_file(pre0)[j]) || self.rejected@.contains(
                        j as nat,
                    ) by {
                    if j < n {
                        assert(old(self).rejected_set().contains(j as nat) ==> self.rejected@
                            .contains(j as nat));
                    } else {
                        assert(self.rejected@.contains(n as nat));
                    }
                }
            }
        } else {
            proof {
                let pre0 = self.pre@;
                let n = self.at as int;
                block_clear_preserves_placeholders(pre0, n);
                let t2 = set_block_in_file(pre0, n, placeholder_block_v());
                assert forall|j: int|
                    0 <= j < self.target_spec() && j < blocks_in_file(t2).len() implies
                    is_placeholder_v(#[trigger] blocks_in_file(t2)[j]) || self.rejected@.contains(
                        j as nat,
                    ) by {
                    if j < n {
                        if is_placeholder_v(blocks_in_file(pre0)[j]) {
                            assert(blocks_in_file(t2)[j] == blocks_in_file(pre0)[j]);
                        }
                    } else {
                        assert(blocks_in_file(t2)[n] == placeholder_block_v());
                    }
                }
            }
        }
    }
}

} // verus!
