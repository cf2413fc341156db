//! End-to-end reductions driven by closure oracles.

use rust_reduce::ast::{Attr, Block, Item, SourceFile, Stmt, FieldDecl};
use rust_reduce::driver::Reduction;
use rust_reduce::render::render_file;

fn no_attrs() -> Vec<Attr> {
    Vec::new()
}

fn func(sig: &str, stmts: Vec<Stmt>) -> Item {
    Item::Func {
        attrs: no_attrs(),
        sig: sig.to_owned(),
        body: Block { stmts },
    }
}

fn opaque_stmt(text: &str) -> Stmt {
    Stmt::Opaque { text: text.to_owned() }
}

/// Runs a whole reduction: proposes until every pass is finished, answering
/// each query with the oracle, and collects every snapshot handed out for
/// persisting.  Checks on the way that only accepted queries are persisted,
/// and that what is persisted is exactly the accepted text.
fn run_reduction<F: Fn(&str) -> bool>(
    file: SourceFile,
    oracle: F,
) -> (SourceFile, Vec<String>, usize) {
    let mut red = Reduction::new(file);
    let mut emitted: Vec<String> = Vec::new();
    let mut accepted_count: usize = 0;
    loop {
        match red.propose() {
            None => break,
            Some(text) => {
                let ok = oracle(&text);
                match red.report(ok) {
                    Some(s) => {
                        assert!(ok, "a rejected query must not be persisted");
                        assert_eq!(s, text, "the persisted text must be the accepted query");
                        accepted_count += 1;
                        emitted.push(s);
                    },
                    None => {
                        assert!(!ok, "an accepted query must be persisted");
                    },
                }
            },
        }
    }
    (red.into_tree(), emitted, accepted_count)
}

#[test]
fn prunes_unused_function() {
    let file = SourceFile {
        attrs: no_attrs(),
        items: vec![Item::Mod {
            attrs: no_attrs(),
            name: "m".to_owned(),
            inline: true,
            body: vec![
                func("fn unused()", vec![]),
                func("fn interesting()", vec![opaque_stmt("marker_token();")]),
            ],
        }],
    };
    let before = render_file(&file);
    let oracle = |t: &str| t.contains("marker_token");
    assert!(oracle(&before), "the original must satisfy the oracle");
    let (tree, emitted, _) = run_reduction(file, oracle);
    let after = render_file(&tree);
    assert!(!after.contains("unused"));
    assert!(after.contains("marker_token"));
    assert!(oracle(&after), "the result must still satisfy the oracle");
    assert!(after.len() <= before.len());
    assert!(!emitted.is_empty());
    assert_eq!(emitted.last().unwrap(), &after);
}

#[test]
fn keeps_only_the_needed_field() {
    let file = SourceFile {
        attrs: no_attrs(),
        items: vec![Item::Struct {
            attrs: no_attrs(),
            header: "struct S".to_owned(),
            fields: vec![
                FieldDecl { attrs: no_attrs(), text: "a : u32".to_owned() },
                FieldDecl { attrs: no_attrs(), text: "b : u32".to_owned() },
                FieldDecl { attrs: no_attrs(), text: "c : u32".to_owned() },
            ],
        }],
    };
    let before = render_file(&file);
    let oracle = |t: &str| t.contains("a :");
    assert!(oracle(&before));
    let (tree, _, _) = run_reduction(file, oracle);
    let after = render_file(&tree);
    assert!(after.contains("a :"));
    assert!(!after.contains("b :"));
    assert!(!after.contains("c :"));
    assert!(oracle(&after));
    assert!(after.len() <= before.len());
}

fn derived_struct(name: &str) -> Item {
    Item::Struct {
        attrs: vec![Attr::Derive {
            names: vec!["Debug".to_owned(), "Clone".to_owned(), "Copy".to_owned()],
        }],
        header: format!("struct {}", name),
        fields: vec![],
    }
}

#[test]
fn strips_every_derive() {
    let file = SourceFile {
        attrs: no_attrs(),
        items: vec![derived_struct("S1"), derived_struct("S2"), derived_struct("S3")],
    };
    let before = render_file(&file);
    let oracle = |t: &str| t.contains("S1") && t.contains("S2") && t.contains("S3");
    assert!(oracle(&before));
    let (tree, _, _) = run_reduction(file, oracle);
    let after = render_file(&tree);
    assert!(!after.contains("derive"));
    assert!(!after.contains("Debug"));
    assert!(oracle(&after));
    assert!(after.len() <= before.len());
}

fn doc_attr() -> Attr {
    Attr::Plain { path: "doc".to_owned(), text: "#[doc = \"docs\"]".to_owned() }
}

#[test]
fn strips_every_doc_attribute() {
    let file = SourceFile {
        attrs: vec![doc_attr()],
        items: vec![
            Item::Struct {
                attrs: vec![doc_attr()],
                header: "struct S1".to_owned(),
                fields: vec![FieldDecl { attrs: vec![doc_attr()], text: "a : u32".to_owned() }],
            },
            Item::Other { attrs: vec![doc_attr()], text: "type T2 = u8 ;".to_owned() },
        ],
    };
    let before = render_file(&file);
    let oracle = |t: &str| t.contains("S1") && t.contains("T2") && t.contains("a :");
    assert!(oracle(&before));
    let (tree, _, _) = run_reduction(file, oracle);
    let after = render_file(&tree);
    assert!(!after.contains("#[doc"));
    assert!(oracle(&after));
    assert!(after.len() <= before.len());
}

#[test]
fn clears_an_uninteresting_body() {
    let file = SourceFile {
        attrs: no_attrs(),
        items: vec![func("fn f()", vec![opaque_stmt("let x = 1 ;"), opaque_stmt("x + 2")])],
    };
    let before = render_file(&file);
    let oracle = |t: &str| t.contains("fn f");
    assert!(oracle(&before));
    let (tree, _, _) = run_reduction(file, oracle);
    let after = render_file(&tree);
    assert!(after.contains("unimplemented!()"));
    assert!(!after.contains("let x"));
    assert!(oracle(&after));
    assert!(after.len() <= before.len());
}

#[test]
fn second_run_is_idempotent() {
    let file = SourceFile {
        attrs: no_attrs(),
        items: vec![Item::Struct {
            attrs: no_attrs(),
            header: "struct S".to_owned(),
            fields: vec![
                FieldDecl { attrs: no_attrs(), text: "a : u32".to_owned() },
                FieldDecl { attrs: no_attrs(), text: "b : u32".to_owned() },
            ],
        }],
    };
    let oracle = |t: &str| t.contains("a :");
    let (tree, _, first_accepts) = run_reduction(file, oracle);
    assert!(first_accepts > 0);
    let first = render_file(&tree);
    let (tree2, emitted2, second_accepts) = run_reduction(tree, oracle);
    assert_eq!(second_accepts, 0, "a second run on the fixed point accepts nothing");
    assert!(emitted2.is_empty());
    assert_eq!(render_file(&tree2), first);
}

#[test]
fn rejected_mutations_leave_the_tree_unchanged() {
    let file = SourceFile {
        attrs: vec![doc_attr()],
        items: vec![
            derived_struct("S1"),
            func("fn f()", vec![opaque_stmt("marker_token();")]),
        ],
    };
    let before = render_file(&file);
    // An oracle that rejects every proposal: the tree must come out exactly
    // as it went in, and nothing may be persisted.
    let (tree, emitted, accepts) = run_reduction(file, |t| t == before);
    assert_eq!(accepts, 0);
    assert!(emitted.is_empty());
    assert_eq!(render_file(&tree), before);
}

#[test]
fn removing_the_last_derived_name_removes_the_attribute() {
    let file = SourceFile {
        attrs: no_attrs(),
        items: vec![Item::Struct {
            attrs: vec![Attr::Derive { names: vec!["Debug".to_owned()] }],
            header: "struct S1".to_owned(),
            fields: vec![],
        }],
    };
    let oracle = |t: &str| t.contains("S1");
    let (tree, _, _) = run_reduction(file, oracle);
    let after = render_file(&tree);
    assert!(!after.contains("#[derive("));
    assert!(!after.contains("Debug"));
    assert!(oracle(&after));
}

#[test]
fn clearing_an_outer_block_skips_its_descendants() {
    // The function body holds a nested block; clearing the body removes the
    // nested block from the enumeration, so the pass ends with a single
    // placeholder and no stray placeholder inside it.
    let file = SourceFile {
        attrs: no_attrs(),
        items: vec![Item::Func {
            attrs: no_attrs(),
            sig: "fn f()".to_owned(),
            body: Block {
                stmts: vec![Stmt::Nested {
                    head: "if true".to_owned(),
                    body: Block { stmts: vec![opaque_stmt("inner_work();")] },
                    tail: String::new(),
                }],
            },
        }],
    };
    let oracle = |t: &str| t.contains("fn f");
    let (tree, _, _) = run_reduction(file, oracle);
    let after = render_file(&tree);
    assert_eq!(after.matches("unimplemented!()").count(), 1);
    assert!(!after.contains("if true"));
    assert!(!after.contains("inner_work"));
}
