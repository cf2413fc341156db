//! The output pipeline: coalescing, the last-only writer, and the guard.

use rust_reduce::ast::{Block, FieldDecl, Item, SourceFile, Stmt};
use rust_reduce::driver::Reduction;
use rust_reduce::output::{LastWriter, Message, OutputType, TargetFileWorker, WaitGuard};
use rust_reduce::render::render_file;

#[test]
fn coalescing_keeps_only_the_newest_snapshot() {
    let mut worker = TargetFileWorker::new(true);
    let persisted = worker.run(vec![
        Message::Work("first".to_owned()),
        Message::Work("second".to_owned()),
        Message::Work("third".to_owned()),
        Message::Quit,
    ]);
    assert_eq!(persisted, vec!["third".to_owned()]);
}

#[test]
fn quit_first_persists_nothing() {
    let mut worker = TargetFileWorker::new(true);
    let persisted = worker.run(vec![Message::Quit, Message::Work("late".to_owned())]);
    assert!(persisted.is_empty());
}

#[test]
fn empty_queue_persists_nothing() {
    let mut worker = TargetFileWorker::new(false);
    let persisted = worker.run(vec![]);
    assert!(persisted.is_empty());
}

#[test]
fn backup_happens_once_before_the_first_write() {
    let mut worker = TargetFileWorker::new(true);
    assert!(worker.note_emit(), "the first write must back the original up");
    assert!(!worker.note_emit(), "the backup happens only once");
    let mut no_backup = TargetFileWorker::new(false);
    assert!(!no_backup.note_emit(), "an explicit output path needs no backup");
}

#[test]
fn last_writer_keeps_the_newest() {
    let mut w = LastWriter::make("out.rs".to_owned(), true);
    w.store("one".to_owned());
    w.store("two".to_owned());
    let got = w.finish();
    assert_eq!(got, Some(("two".to_owned(), true)));
    assert_eq!(w.finish(), None);
}

#[test]
fn last_writer_through_the_trait() {
    let mut w = <LastWriter as OutputType>::new("out.rs".to_owned(), false);
    w.output("only".to_owned());
    assert_eq!(w.finish(), Some(("only".to_owned(), false)));
}

#[test]
fn wait_guard_builds_the_writer_lazily() {
    let mut guard: WaitGuard<LastWriter> = WaitGuard::new("out.rs".to_owned(), true);
    assert!(guard.into_writer().is_none(), "no writer before the first output");
    let mut guard: WaitGuard<LastWriter> = WaitGuard::new("out.rs".to_owned(), true);
    let tree = SourceFile {
        attrs: vec![],
        items: vec![Item::Func {
            attrs: vec![],
            sig: "fn f()".to_owned(),
            body: Block { stmts: vec![Stmt::Unimplemented] },
        }],
    };
    guard.output_formatted(&tree);
    guard.output_text("fn g() { } ".to_owned());
    let mut writer = guard.into_writer().expect("the first output builds the writer");
    let got = writer.finish();
    assert_eq!(got, Some(("fn g() { } ".to_owned(), true)));
}

#[test]
fn last_only_reduction_persists_the_final_tree() {
    let file = SourceFile {
        attrs: vec![],
        items: vec![Item::Struct {
            attrs: vec![],
            header: "struct S".to_owned(),
            fields: vec![
                FieldDecl { attrs: vec![], text: "a : u32".to_owned() },
                FieldDecl { attrs: vec![], text: "b : u32".to_owned() },
            ],
        }],
    };
    let oracle = |t: &str| t.contains("a :");
    let mut red = Reduction::new(file);
    let mut guard: WaitGuard<LastWriter> = WaitGuard::new("out.rs".to_owned(), true);
    loop {
        match red.propose() {
            None => break,
            Some(text) => {
                let ok = oracle(&text);
                if let Some(accepted) = red.report(ok) {
                    guard.output_text(accepted);
                }
            }
        }
    }
    let final_text = render_file(&red.into_tree());
    let mut writer = guard.into_writer().expect("a field was deleted, so there was output");
    let (persisted, must_backup) = writer.finish().expect("the last snapshot is held");
    assert_eq!(persisted, final_text);
    assert!(must_backup);
    assert!(!persisted.contains("b :"));
}
