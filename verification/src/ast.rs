//! The syntax tree the reduction passes work on.
//!
//! The tree keeps only the structure the passes inspect: items that can be
//! pruned, attribute lists, and brace-delimited blocks.  Everything else is
//! carried as opaque source text and reproduced verbatim on output.

use vstd::prelude::*;

verus! {

/// An attribute attached to a declaration.
pub enum Attr {
    /// A derive attribute with its list of derived trait names.
    Derive { names: Vec<String> },
    /// Any other attribute: its path (for recognising `doc`) and its full text.
    Plain { path: String, text: String },
}

/// A named field of a struct.
pub struct FieldDecl {
    pub attrs: Vec<Attr>,
    pub text: String,
}

/// A variant of an enum.
pub struct VariantDecl {
    pub attrs: Vec<Attr>,
    pub text: String,
}

/// A statement inside a block.  A statement either carries a nested block
/// (with surrounding text) or is opaque text; the distinguished
/// `Unimplemented` statement is the content of the placeholder block.
pub enum Stmt {
    Opaque { text: String },
    Nested { head: String, body: Block, tail: String },
    Unimplemented,
}

/// A brace-delimited block.
pub struct Block {
    pub stmts: Vec<Stmt>,
}

/// A member of an impl block.
pub enum ImplMember {
    Method { attrs: Vec<Attr>, sig: String, body: Block },
    Opaque { attrs: Vec<Attr>, text: String },
}

/// A top-level item.
pub enum Item {
    Mod { attrs: Vec<Attr>, name: String, inline: bool, body: Vec<Item> },
    Impl { attrs: Vec<Attr>, header: String, members: Vec<ImplMember> },
    Struct { attrs: Vec<Attr>, header: String, fields: Vec<FieldDecl> },
    Enum { attrs: Vec<Attr>, header: String, variants: Vec<VariantDecl> },
    Func { attrs: Vec<Attr>, sig: String, body: Block },
    Other { attrs: Vec<Attr>, text: String },
}

/// A whole compilation unit.
pub struct SourceFile {
    pub attrs: Vec<Attr>,
    pub items: Vec<Item>,
}

// ---------------------------------------------------------------------------
// Mathematical model
// ---------------------------------------------------------------------------

/// Model of an attribute.
pub enum AttrV {
    Derive { names: Seq<Seq<char>> },
    Plain { path: Seq<char>, text: Seq<char> },
}

#[verifier::ext_equal]
pub struct FieldV {
    pub attrs: Seq<AttrV>,
    pub text: Seq<char>,
}

#[verifier::ext_equal]
pub struct VariantV {
    pub attrs: Seq<AttrV>,
    pub text: Seq<char>,
}

#[verifier::ext_equal]
pub enum StmtV {
    Opaque { text: Seq<char> },
    Nested { head: Seq<char>, body: BlockV, tail: Seq<char> },
    Unimplemented,
}

#[verifier::ext_equal]
pub struct BlockV {
    pub stmts: Seq<StmtV>,
}

#[verifier::ext_equal]
pub enum ImplMemberV {
    Method { attrs: Seq<AttrV>, sig: Seq<char>, body: BlockV },
    Opaque { attrs: Seq<AttrV>, text: Seq<char> },
}

#[verifier::ext_equal]
pub enum ItemV {
    Mod { attrs: Seq<AttrV>, name: Seq<char>, inline: bool, body: Seq<ItemV> },
    Impl { attrs: Seq<AttrV>, header: Seq<char>, members: Seq<ImplMemberV> },
    Struct { attrs: Seq<AttrV>, header: Seq<char>, fields: Seq<FieldV> },
    Enum { attrs: Seq<AttrV>, header: Seq<char>, variants: Seq<VariantV> },
    Func { attrs: Seq<AttrV>, sig: Seq<char>, body: BlockV },
    Other { attrs: Seq<AttrV>, text: Seq<char> },
}

#[verifier::ext_equal]
pub struct SourceFileV {
    pub attrs: Seq<AttrV>,
    pub items: Seq<ItemV>,
}

// ---------------------------------------------------------------------------
// Views
// ---------------------------------------------------------------------------

impl View for Attr {
    type V = AttrV;

    open spec fn view(&self) -> AttrV {
        match self {
            Attr::Derive { names } => AttrV::Derive { names: names.deep_view() },
            Attr::Plain { path, text } => AttrV::Plain { path: path@, text: text@ },
        }
    }
}

pub open spec fn attrs_view(attrs: Vec<Attr>) -> Seq<AttrV> {
    Seq::new(attrs@.len(), |i: int| attrs@[i]@)
}

pub open spec fn stmts_view(stmts: Seq<Stmt>) -> Seq<StmtV>
    decreases stmts,
{
    if stmts.len() == 0 {
        Seq::empty()
    } else {
        seq![stmt_view(stmts[0])] + stmts_view(stmts.drop_first())
    }
}

pub open spec fn members_view(members: Seq<ImplMember>) -> Seq<ImplMemberV>
    decreases members,
{
    if members.len() == 0 {
        Seq::empty()
    } else {
        seq![member_view(members[0])] + members_view(members.drop_first())
    }
}

pub open spec fn items_seq_view(items: Seq<Item>) -> Seq<ItemV>
    decreases items,
{
    if items.len() == 0 {
        Seq::empty()
    } else {
        seq![item_view(items[0])] + items_seq_view(items.drop_first())
    }
}

impl View for FieldDecl {
    type V = FieldV;

    open spec fn view(&self) -> FieldV {
        FieldV { attrs: attrs_view(self.attrs), text: self.text@ }
    }
}

impl View for VariantDecl {
    type V = VariantV;

    open spec fn view(&self) -> VariantV {
        VariantV { attrs: attrs_view(self.attrs), text: self.text@ }
    }
}

pub open spec fn stmt_view(s: Stmt) -> StmtV
    decreases s,
{
    match s {
        Stmt::Opaque { text } => StmtV::Opaque { text: text@ },
        Stmt::Nested { head, body, tail } => StmtV::Nested {
            head: head@,
            body: block_view(body),
            tail: tail@,
        },
        Stmt::Unimplemented => StmtV::Unimplemented,
    }
}

pub open spec fn block_view(b: Block) -> BlockV
    decreases b,
{
    BlockV { stmts: stmts_view(b.stmts@) }
}

pub open spec fn member_view(m: ImplMember) -> ImplMemberV
    decreases m,
{
    match m {
        ImplMember::Method { attrs, sig, body } => ImplMemberV::Method {
            attrs: attrs_view(attrs),
            sig: sig@,
            body: block_view(body),
        },
        ImplMember::Opaque { attrs, text } => ImplMemberV::Opaque {
            attrs: attrs_view(attrs),
            text: text@,
        },
    }
}

pub open spec fn item_view(item: Item) -> ItemV
    decreases item,
{
    match item {
        Item::Mod { attrs, name, inline, body } => ItemV::Mod {
            attrs: attrs_view(attrs),
            name: name@,
            inline,
            body: items_seq_view(body@),
        },
        Item::Impl { attrs, header, members } => ItemV::Impl {
            attrs: attrs_view(attrs),
            header: header@,
            members: members_view(members@),
        },
        Item::Struct { attrs, header, fields } => ItemV::Struct {
            attrs: attrs_view(attrs),
            header: header@,
            fields: Seq::new(fields@.len(), |i: int| fields@[i]@),
        },
        Item::Enum { attrs, header, variants } => ItemV::Enum {
            attrs: attrs_view(attrs),
            header: header@,
            variants: Seq::new(variants@.len(), |i: int| variants@[i]@),
        },
        Item::Func { attrs, sig, body } => ItemV::Func {
            attrs: attrs_view(attrs),
            sig: sig@,
            body: block_view(body),
        },
        Item::Other { attrs, text } => ItemV::Other {
            attrs: attrs_view(attrs),
            text: text@,
        },
    }
}

pub open spec fn items_view(items: Vec<Item>) -> Seq<ItemV> {
    items_seq_view(items@)
}

impl View for SourceFile {
    type V = SourceFileV;

    open spec fn view(&self) -> SourceFileV {
        SourceFileV { attrs: attrs_view(self.attrs), items: items_view(self.items) }
    }
}

// ---------------------------------------------------------------------------
// Basic facts about the sequence views
// ---------------------------------------------------------------------------

pub broadcast proof fn lemma_stmts_view_len(stmts: Seq<Stmt>)
    ensures
        #[trigger] stmts_view(stmts).len() == stmts.len(),
    decreases stmts.len(),
{
    if stmts.len() > 0 {
        lemma_stmts_view_len(stmts.drop_first());
    }
}

pub broadcast proof fn lemma_stmts_view_index(stmts: Seq<Stmt>, i: int)
    requires
        0 <= i < stmts.len(),
    ensures
        #[trigger] stmts_view(stmts)[i] == stmt_view(stmts[i]),
    decreases stmts.len(),
{
    lemma_stmts_view_len(stmts);
    if i > 0 {
        lemma_stmts_view_index(stmts.drop_first(), i - 1);
    }
}

pub broadcast proof fn lemma_members_view_len(members: Seq<ImplMember>)
    ensures
        #[trigger] members_view(members).len() == members.len(),
    decreases members.len(),
{
    if members.len() > 0 {
        lemma_members_view_len(members.drop_first());
    }
}

pub broadcast proof fn lemma_members_view_index(members: Seq<ImplMember>, i: int)
    requires
        0 <= i < members.len(),
    ensures
        #[trigger] members_view(members)[i] == member_view(members[i]),
    decreases members.len(),
{
    lemma_members_view_len(members);
    if i > 0 {
        lemma_members_view_index(members.drop_first(), i - 1);
    }
}

pub broadcast proof fn lemma_items_view_len(items: Seq<Item>)
    ensures
        #[trigger] items_seq_view(items).len() == items.len(),
    decreases items.len(),
{
    if items.len() > 0 {
        lemma_items_view_len(items.drop_first());
    }
}

pub broadcast proof fn lemma_items_view_index(items: Seq<Item>, i: int)
    requires
        0 <= i < items.len(),
    ensures
        #[trigger] items_seq_view(items)[i] == item_view(items[i]),
    decreases items.len(),
{
    lemma_items_view_len(items);
    if i > 0 {
        lemma_items_view_index(items.drop_first(), i - 1);
    }
}

// ---------------------------------------------------------------------------
// The placeholder block
// ---------------------------------------------------------------------------

/// Model of the block every cleared body is replaced with.
pub open spec fn placeholder_block_v() -> BlockV {
    BlockV { stmts: seq![StmtV::Unimplemented] }
}

/// Whether a block is the unimplemented placeholder.
pub open spec fn is_placeholder_v(b: BlockV) -> bool {
    b.stmts.len() == 1 && b.stmts[0] == StmtV::Unimplemented
}

pub proof fn lemma_placeholder_is_placeholder()
    ensures
        is_placeholder_v(placeholder_block_v()),
        forall|b: BlockV| is_placeholder_v(b) ==> b == placeholder_block_v(),
{
    assert forall|b: BlockV| is_placeholder_v(b) implies b == placeholder_block_v() by {
        assert(b.stmts =~= placeholder_block_v().stmts);
    }
}

/// Builds the placeholder block `{ unimplemented!() }`.
pub fn placeholder_block() -> (r: Block)
    ensures
        block_view(r) == placeholder_block_v(),
{
    let stmts: Vec<Stmt> = vec![Stmt::Unimplemented];
    proof {
        assert(stmts_view(stmts@) =~= seq![StmtV::Unimplemented]) by {
            reveal_with_fuel(stmts_view, 3);
        }
    }
    Block { stmts }
}

/// Whether a block currently is the placeholder.
pub fn is_placeholder(b: &Block) -> (r: bool)
    ensures
        r == is_placeholder_v(block_view(*b)),
{
    proof {
        lemma_stmts_view_len(b.stmts@);
    }
    if b.stmts.len() != 1 {
        return false;
    }
    proof {
        lemma_stmts_view_index(b.stmts@, 0);
    }
    match &b.stmts[0] {
        Stmt::Unimplemented => true,
        _ => false,
    }
}

// ---------------------------------------------------------------------------
// Attribute predicates and duplication
// ---------------------------------------------------------------------------

/// Whether an attribute is a `doc` attribute.
pub open spec fn is_doc_v(a: AttrV) -> bool {
    match a {
        AttrV::Plain { path, .. } => path == "doc"@,
        _ => false,
    }
}

/// Whether an attribute list holds at least one `doc` attribute.
pub open spec fn has_doc_v(attrs: Seq<AttrV>) -> bool {
    exists|i: int| 0 <= i < attrs.len() && is_doc_v(attrs[i])
}

/// The attribute list with every `doc` attribute removed.
pub open spec fn strip_docs_v(attrs: Seq<AttrV>) -> Seq<AttrV>
    decreases attrs.len(),
{
    if attrs.len() == 0 {
        Seq::empty()
    } else {
        let rest = strip_docs_v(attrs.drop_first());
        if is_doc_v(attrs[0]) {
            rest
        } else {
            seq![attrs[0]] + rest
        }
    }
}

/// Stripping shortens an attribute list exactly when a `doc` attribute is
/// present, and leaves it untouched otherwise.
pub proof fn lemma_strip_docs_len(attrs: Seq<AttrV>)
    ensures
        strip_docs_v(attrs).len() <= attrs.len(),
        has_doc_v(attrs) ==> strip_docs_v(attrs).len() < attrs.len(),
        !has_doc_v(attrs) ==> strip_docs_v(attrs) == attrs,
    decreases attrs.len(),
{
    if attrs.len() > 0 {
        lemma_strip_docs_len(attrs.drop_first());
        if !has_doc_v(attrs) {
            assert(!is_doc_v(attrs[0]));
            assert(!has_doc_v(attrs.drop_first())) by {
                assert(forall|i: int|
                    0 <= i < attrs.drop_first().len() ==> attrs.drop_first()[i] == attrs[i + 1]);
            }
            assert(seq![attrs[0]] + attrs.drop_first() =~= attrs);
        }
        if has_doc_v(attrs) {
            if is_doc_v(attrs[0]) {
            } else {
                let w = choose|i: int| 0 <= i < attrs.len() && is_doc_v(attrs[i]);
                assert(attrs.drop_first()[w - 1] == attrs[w]);
                assert(has_doc_v(attrs.drop_first()));
            }
        }
    }
}

/// Whether an attribute is a `doc` attribute.
pub fn is_doc_attr(a: &Attr) -> (r: bool)
    ensures
        r == is_doc_v(a@),
{
    let doc: String = "doc".to_owned();
    match a {
        Attr::Plain { path, .. } => *path == doc,
        _ => false,
    }
}

/// Whether an attribute list holds at least one `doc` attribute.
pub fn has_doc_attrs(attrs: &Vec<Attr>) -> (r: bool)
    ensures
        r == has_doc_v(attrs_view(*attrs)),
{
    let mut i: usize = 0;
    while i < attrs.len()
        invariant
            i <= attrs@.len(),
            forall|j: int| 0 <= j < i ==> !is_doc_v(attrs_view(*attrs)[j]),
        decreases attrs@.len() - i,
    {
        if is_doc_attr(&attrs[i]) {
            proof {
                assert(is_doc_v(attrs_view(*attrs)[i as int]));
            }
            return true;
        }
        i = i + 1;
    }
    false
}

/// A copy of the attribute list with every `doc` attribute removed.
pub fn strip_doc_attrs(attrs: &Vec<Attr>) -> (r: Vec<Attr>)
    ensures
        attrs_view(r) == strip_docs_v(attrs_view(*attrs)),
{
    let ghost av = attrs_view(*attrs);
    let mut out: Vec<Attr> = Vec::new();
    let mut i: usize = 0;
    proof {
        assert(av.skip(0) =~= av);
        assert(attrs_view(out) =~= Seq::<AttrV>::empty());
        assert(Seq::<AttrV>::empty() + strip_docs_v(av) =~= strip_docs_v(av));
    }
    while i < attrs.len()
        invariant
            i <= attrs@.len(),
            av == attrs_view(*attrs),
            attrs_view(out) + strip_docs_v(av.skip(i as int)) == strip_docs_v(av),
        decreases attrs@.len() - i,
    {
        proof {
            assert(av.skip(i as int)[0] == av[i as int]);
            assert(av.skip(i as int).drop_first() =~= av.skip(i as int + 1));
        }
        let ghost prev = attrs_view(out);
        if !is_doc_attr(&attrs[i]) {
            let d = dup_attr(&attrs[i]);
            out.push(d);
            proof {
                assert(attrs_view(out) =~= prev + seq![av[i as int]]);
                assert((prev + seq![av[i as int]]) + strip_docs_v(av.skip(i as int + 1)) =~= prev
                    + (seq![av[i as int]] + strip_docs_v(av.skip(i as int + 1))));
            }
        }
        i = i + 1;
        proof {
            assert(attrs_view(out) + strip_docs_v(av.skip(i as int)) =~= strip_docs_v(av));
        }
    }
    proof {
        assert(av.skip(i as int) =~= Seq::<AttrV>::empty());
        assert(attrs_view(out) + strip_docs_v(Seq::<AttrV>::empty()) =~= attrs_view(out));
    }
    out
}

/// Duplicates a statement.
pub fn dup_stmt(s: &Stmt) -> (r: Stmt)
    ensures
        stmt_view(r) == stmt_view(*s),
    decreases *s,
{
    match s {
        Stmt::Opaque { text } => Stmt::Opaque { text: text.clone() },
        Stmt::Nested { head, body, tail } => Stmt::Nested {
            head: head.clone(),
            body: dup_block(body),
            tail: tail.clone(),
        },
        Stmt::Unimplemented => Stmt::Unimplemented,
    }
}

/// Duplicates a block.
pub fn dup_block(b: &Block) -> (r: Block)
    ensures
        block_view(r) == block_view(*b),
    decreases *b,
{
    let mut stmts: Vec<Stmt> = Vec::new();
    let mut i: usize = 0;
    while i < b.stmts.len()
        invariant
            i <= b.stmts@.len(),
            stmts@.len() == i,
            forall|j: int| 0 <= j < i ==> stmt_view(stmts@[j]) == stmt_view(b.stmts@[j]),
        decreases b.stmts@.len() - i,
    {
        let d = dup_stmt(&b.stmts[i]);
        stmts.push(d);
        i = i + 1;
    }
    proof {
        lemma_stmts_view_len(stmts@);
        lemma_stmts_view_len(b.stmts@);
        assert forall|j: int| 0 <= j < stmts@.len() implies stmts_view(stmts@)[j] == stmts_view(
            b.stmts@,
        )[j] by {
            lemma_stmts_view_index(stmts@, j);
            lemma_stmts_view_index(b.stmts@, j);
        }
        assert(stmts_view(stmts@) =~= stmts_view(b.stmts@));
    }
    Block { stmts }
}

/// Duplicates an impl member.
pub fn dup_member(m: &ImplMember) -> (r: ImplMember)
    ensures
        member_view(r) == member_view(*m),
    decreases *m,
{
    match m {
        ImplMember::Method { attrs, sig, body } => ImplMember::Method {
            attrs: dup_attrs(attrs),
            sig: sig.clone(),
            body: dup_block(body),
        },
        ImplMember::Opaque { attrs, text } => ImplMember::Opaque {
            attrs: dup_attrs(attrs),
            text: text.clone(),
        },
    }
}

/// Duplicates a struct field.
pub fn dup_field(f: &FieldDecl) -> (r: FieldDecl)
    ensures
        r@ == f@,
{
    FieldDecl { attrs: dup_attrs(&f.attrs), text: f.text.clone() }
}

/// Duplicates an enum variant.
pub fn dup_variant(v: &VariantDecl) -> (r: VariantDecl)
    ensures
        v@ == r@,
{
    VariantDecl { attrs: dup_attrs(&v.attrs), text: v.text.clone() }
}

/// Duplicates an item.
pub fn dup_item(item: &Item) -> (r: Item)
    ensures
        item_view(r) == item_view(*item),
    decreases *item,
{
    match item {
        Item::Mod { attrs, name, inline, body } => {
            let nbody = dup_items(body);
            Item::Mod { attrs: dup_attrs(attrs), name: name.clone(), inline: *inline, body: nbody }
        },
        Item::Impl { attrs, header, members } => {
            let mut nm: Vec<ImplMember> = Vec::new();
            let mut i: usize = 0;
            while i < members.len()
                invariant
                    i <= members@.len(),
                    nm@.len() == i,
                    forall|j: int| 0 <= j < i ==> member_view(nm@[j]) == member_view(members@[j]),
                decreases members@.len() - i,
            {
                let d = dup_member(&members[i]);
                nm.push(d);
                i = i + 1;
            }
            proof {
                lemma_members_view_len(nm@);
                lemma_members_view_len(members@);
                assert forall|j: int| 0 <= j < nm@.len() implies members_view(nm@)[j]
                    == members_view(members@)[j] by {
                    lemma_members_view_index(nm@, j);
                    lemma_members_view_index(members@, j);
                }
                assert(members_view(nm@) =~= members_view(members@));
            }
            Item::Impl { attrs: dup_attrs(attrs), header: header.clone(), members: nm }
        },
        Item::Struct { attrs, header, fields } => {
            let mut nf: Vec<FieldDecl> = Vec::new();
            let mut i: usize = 0;
            while i < fields.len()
                invariant
                    i <= fields@.len(),
                    nf@.len() == i,
                    forall|j: int| 0 <= j < i ==> nf@[j]@ == fields@[j]@,
                decreases fields@.len() - i,
            {
                let d = dup_field(&fields[i]);
                nf.push(d);
                i = i + 1;
            }
            proof {
                assert(Seq::new(nf@.len(), |j: int| nf@[j]@) =~= Seq::new(
                    fields@.len(),
                    |j: int| fields@[j]@,
                ));
            }
            Item::Struct { attrs: dup_attrs(attrs), header: header.clone(), fields: nf }
        },
        Item::Enum { attrs, header, variants } => {
            let mut nv: Vec<VariantDecl> = Vec::new();
            let mut i: usize = 0;
            while i < variants.len()
                invariant
                    i <= variants@.len(),
                    nv@.len() == i,
                    forall|j: int| 0 <= j < i ==> nv@[j]@ == variants@[j]@,
                decreases variants@.len() - i,
            {
                let d = dup_variant(&variants[i]);
                nv.push(d);
                i = i + 1;
            }
            proof {
                assert(Seq::new(nv@.len(), |j: int| nv@[j]@) =~= Seq::new(
                    variants@.len(),
                    |j: int| variants@[j]@,
                ));
            }
            Item::Enum { attrs: dup_attrs(attrs), header: header.clone(), variants: nv }
        },
        Item::Func { attrs, sig, body } => Item::Func {
            attrs: dup_attrs(attrs),
            sig: sig.clone(),
            body: dup_block(body),
        },
        Item::Other { attrs, text } => Item::Other {
            attrs: dup_attrs(attrs),
            text: text.clone(),
        },
    }
}

/// Duplicates a list of items.
pub fn dup_items(items: &Vec<Item>) -> (r: Vec<Item>)
    ensures
        items_seq_view(r@) == items_seq_view(items@),
    decreases items@,
{
    let mut out: Vec<Item> = Vec::new();
    let mut i: usize = 0;
    while i < items.len()
        invariant
            i <= items@.len(),
            out@.len() == i,
            forall|j: int| 0 <= j < i ==> item_view(out@[j]) == item_view(items@[j]),
        decreases items@.len() - i,
    {
        let d = dup_item(&items[i]);
        out.push(d);
        i = i + 1;
    }
    proof {
        lemma_items_view_len(out@);
        lemma_items_view_len(items@);
        assert forall|j: int| 0 <= j < out@.len() implies items_seq_view(out@)[j] == items_seq_view(
            items@,
        )[j] by {
            lemma_items_view_index(out@, j);
            lemma_items_view_index(items@, j);
        }
        assert(items_seq_view(out@) =~= items_seq_view(items@));
    }
    out
}

/// Duplicates a whole file.
pub fn dup_file(f: &SourceFile) -> (r: SourceFile)
    ensures
        r@ == f@,
{
    let items = dup_items(&f.items);
    let r = SourceFile { attrs: dup_attrs(&f.attrs), items };
    proof {
        assert(r@ =~= f@);
    }
    r
}

/// Duplicates a list of identifier names.
pub fn dup_names(names: &Vec<String>) -> (r: Vec<String>)
    ensures
        r.deep_view() == names.deep_view(),
{
    let mut out: Vec<String> = Vec::new();
    let mut i: usize = 0;
    while i < names.len()
        invariant
            i <= names@.len(),
            out@.len() == i,
            forall|j: int| 0 <= j < i ==> out@[j]@ == names@[j]@,
        decreases names@.len() - i,
    {
        out.push(names[i].clone());
        i = i + 1;
    }
    proof {
        assert(out.deep_view() =~= names.deep_view());
    }
    out
}

/// Duplicates one attribute.
pub fn dup_attr(a: &Attr) -> (r: Attr)
    ensures
        r@ == a@,
{
    match a {
        Attr::Derive { names } => {
            let r = Attr::Derive { names: dup_names(names) };
            proof {
                assert(r@ == a@);
            }
            r
        },
        Attr::Plain { path, text } => Attr::Plain { path: path.clone(), text: text.clone() },
    }
}

/// Duplicates an attribute list.
pub fn dup_attrs(attrs: &Vec<Attr>) -> (r: Vec<Attr>)
    ensures
        attrs_view(r) == attrs_view(*attrs),
{
    let mut out: Vec<Attr> = Vec::new();
    let mut i: usize = 0;
    while i < attrs.len()
        invariant
            i <= attrs@.len(),
            out@.len() == i,
            forall|j: int| 0 <= j < i ==> out@[j]@ == attrs@[j]@,
        decreases attrs@.len() - i,
    {
        let d = dup_attr(&attrs[i]);
        out.push(d);
        i = i + 1;
    }
    proof {
        assert(attrs_view(out) =~= attrs_view(*attrs));
    }
    out
}

} // verus!
