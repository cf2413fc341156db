//! Every intermediate the reducer hands out is parseable source text.

use rust_reduce::ast::{Attr, Block, Item, SourceFile, Stmt, FieldDecl, VariantDecl, ImplMember};
use rust_reduce::driver::Reduction;
use rust_reduce::render::render_file;

fn rich_file() -> SourceFile {
    SourceFile {
        attrs: vec![Attr::Plain {
            path: "doc".to_owned(),
            text: "#![doc = \"top\"]".to_owned(),
        }],
        items: vec![
            Item::Mod {
                attrs: vec![],
                name: "m".to_owned(),
                inline: true,
                body: vec![Item::Func {
                    attrs: vec![],
                    sig: "fn g()".to_owned(),
                    body: Block {
                        stmts: vec![Stmt::Nested {
                            head: "if true".to_owned(),
                            body: Block {
                                stmts: vec![Stmt::Opaque { text: "marker_token();".to_owned() }],
                            },
                            tail: String::new(),
                        }],
                    },
                }],
            },
            Item::Struct {
                attrs: vec![Attr::Derive { names: vec!["Debug".to_owned(), "Clone".to_owned()] }],
                header: "struct S".to_owned(),
                fields: vec![
                    FieldDecl { attrs: vec![], text: "a : u32".to_owned() },
                    FieldDecl { attrs: vec![], text: "b : u32".to_owned() },
                ],
            },
            Item::Enum {
                attrs: vec![],
                header: "enum E".to_owned(),
                variants: vec![
                    VariantDecl { attrs: vec![], text: "A".to_owned() },
                    VariantDecl { attrs: vec![], text: "B ( u32 )".to_owned() },
                ],
            },
            Item::Impl {
                attrs: vec![],
                header: "impl S".to_owned(),
                members: vec![
                    ImplMember::Method {
                        attrs: vec![],
                        sig: "fn h ( & self )".to_owned(),
                        body: Block {
                            stmts: vec![Stmt::Opaque { text: "let y = 3 ;".to_owned() }],
                        },
                    },
                    ImplMember::Opaque {
                        attrs: vec![],
                        text: "const K : u32 = 1 ;".to_owned(),
                    },
                ],
            },
            Item::Other { attrs: vec![], text: "type T2 = u8 ;".to_owned() },
        ],
    }
}

#[test]
fn original_renders_to_parseable_source() {
    let text = render_file(&rich_file());
    assert!(syn::parse_file(&text).is_ok(), "not parseable: {}", text);
}

#[test]
fn every_intermediate_is_parseable() {
    let file = rich_file();
    let before = render_file(&file);
    let oracle = |t: &str| t.contains("marker_token") && t.contains("a :");
    assert!(oracle(&before));
    let mut red = Reduction::new(file);
    let mut intermediates: Vec<String> = Vec::new();
    loop {
        match red.propose() {
            None => break,
            Some(text) => {
                let ok = oracle(&text);
                if let Some(s) = red.report(ok) {
                    intermediates.push(s);
                }
            },
        }
    }
    assert!(!intermediates.is_empty());
    for text in &intermediates {
        assert!(syn::parse_file(text).is_ok(), "not parseable: {}", text);
    }
    let final_text = render_file(&red.into_tree());
    assert!(syn::parse_file(&final_text).is_ok());
    assert!(oracle(&final_text));
    assert!(final_text.len() <= before.len());
}

#[test]
fn rendering_is_exact() {
    let file = SourceFile {
        attrs: vec![],
        items: vec![Item::Func {
            attrs: vec![],
            sig: "fn f()".to_owned(),
            body: Block { stmts: vec![Stmt::Opaque { text: "x".to_owned() }] },
        }],
    };
    assert_eq!(render_file(&file), "fn f() { x } ");
}

#[test]
fn placeholder_renders_as_unimplemented_body() {
    let file = SourceFile {
        attrs: vec![],
        items: vec![Item::Func {
            attrs: vec![],
            sig: "fn f()".to_owned(),
            body: Block { stmts: vec![Stmt::Unimplemented] },
        }],
    };
    let text = render_file(&file);
    assert_eq!(text, "fn f() { unimplemented!() } ");
    assert!(syn::parse_file(&text).is_ok());
}
