//! Persisting accepted trees.
//!
//! The reducer may accept intermediates faster than they can be written and
//! formatted, so the streaming writer coalesces: of everything waiting in
//! its queue only the newest snapshot is persisted.  The last-only writer
//! keeps a single slot and hands it out at tear-down.  Spawning the
//! formatter and writing the destination file are left to the caller; this
//! module decides what is persisted, and when the original must be backed
//! up first.

use vstd::prelude::*;

use crate::ast::SourceFile;
use crate::render::render_file;
use crate::render::render_file_v;

verus! {

/// A unit of work for the writer: a snapshot to persist, or the request to
/// stop.
pub enum Message {
    Work(String),
    Quit,
}

/// Model of a message.
pub enum MessageV {
    Work(Seq<char>),
    Quit,
}

impl View for Message {
    type V = MessageV;

    open spec fn view(&self) -> MessageV {
        match self {
            Message::Work(s) => MessageV::Work(s@),
            Message::Quit => MessageV::Quit,
        }
    }
}

pub open spec fn msgs_view(msgs: Seq<Message>) -> Seq<MessageV> {
    Seq::new(msgs.len(), |i: int| msgs[i]@)
}

/// Whether a queue holds any snapshot.
pub open spec fn has_work(msgs: Seq<MessageV>) -> bool {
    exists|i: int| 0 <= i < msgs.len() && msgs[i] is Work
}

/// The newest snapshot of a queue.
pub open spec fn last_work(msgs: Seq<MessageV>) -> Seq<char>
    decreases msgs.len(),
{
    if msgs.len() == 0 {
        Seq::empty()
    } else {
        match msgs.last() {
            MessageV::Work(s) => s,
            MessageV::Quit => last_work(msgs.drop_last()),
        }
    }
}

/// What the worker persists when it finds `msgs` queued at once: nothing if
/// the queue opens with the stop request, else exactly the newest snapshot.
pub open spec fn coalesced(msgs: Seq<MessageV>) -> Seq<Seq<char>> {
    if msgs.len() == 0 {
        Seq::empty()
    } else {
        match msgs[0] {
            MessageV::Quit => Seq::empty(),
            MessageV::Work(_) => seq![last_work(msgs)],
        }
    }
}

/// The law of coalescing: whenever anything is persisted at all, the newest
/// queued snapshot is among what is persisted — dropping snapshots never
/// drops the latest one.
pub proof fn lemma_coalescing_keeps_latest(msgs: Seq<MessageV>)
    requires
        msgs.len() > 0,
        msgs[0] is Work,
    ensures
        coalesced(msgs).len() == 1,
        coalesced(msgs)[0] == last_work(msgs),
        has_work(msgs),
{
    assert(msgs[0] is Work);
}

/// The state a writer needs about the destination: whether the original
/// file still has to be copied aside before the first write.
pub struct TargetFileWorker {
    backed_up: bool,
}

impl TargetFileWorker {
    /// Whether the original no longer needs a backup.
    pub closed spec fn backed_up_spec(&self) -> bool {
        self.backed_up
    }

    pub fn new(need_backup: bool) -> (r: Self)
        ensures
            r.backed_up_spec() == !need_backup,
    {
        TargetFileWorker { backed_up: !need_backup }
    }

    /// Whether the original no longer needs a backup.
    pub fn is_backed_up(&self) -> (r: bool)
        ensures
            r == self.backed_up_spec(),
    {
        self.backed_up
    }

    /// Notes that a snapshot is about to be persisted; returns true when
    /// the original must be copied aside first.  The backup happens at most
    /// once.
    pub fn note_emit(&mut self) -> (must_backup: bool)
        ensures
            must_backup == !old(self).backed_up_spec(),
            final(self).backed_up_spec(),
    {
        let r = !self.backed_up;
        self.backed_up = true;
        r
    }

    /// Processes a queue of messages that is already complete, as the
    /// worker thread does when it drains its channel: all but the newest
    /// snapshot are discarded, and nothing follows the stop request.
    /// Returns the snapshots to persist, in order.
    pub fn run(&mut self, msgs: Vec<Message>) -> (r: Vec<String>)
        ensures
            r.deep_view() == coalesced(msgs_view(msgs@)),
            final(self).backed_up_spec() == (old(self).backed_up_spec() || coalesced(
                msgs_view(msgs@),
            ).len() > 0),
    {
        let ghost mv = msgs_view(msgs@);
        let mut out: Vec<String> = Vec::new();
        if msgs.len() == 0 {
            proof {
                assert(out.deep_view() =~= coalesced(mv));
            }
            return out;
        }
        let quit_first: bool = match &msgs[0] {
            Message::Quit => true,
            Message::Work(_) => false,
        };
        if quit_first {
            proof {
                assert(out.deep_view() =~= coalesced(mv));
            }
            return out;
        }
        let mut latest: usize = 0;
        let mut i: usize = 1;
        proof {
            assert(mv.take(1).drop_last() =~= mv.take(0));
            assert(mv.take(1).last() == mv[0]);
        }
        while i < msgs.len()
            invariant
                1 <= i <= msgs@.len(),
                mv == msgs_view(msgs@),
                mv.len() == msgs@.len(),
                0 <= latest < i,
                mv[latest as int] is Work,
                last_work(mv.take(i as int)) == mv[latest as int]->Work_0,
            decreases msgs@.len() - i,
        {
            proof {
                assert(mv.take(i as int + 1).drop_last() =~= mv.take(i as int));
                assert(mv.take(i as int + 1).last() == mv[i as int]);
            }
            let is_work: bool = match &msgs[i] {
                Message::Work(_) => true,
                Message::Quit => false,
            };
            if is_work {
                latest = i;
            }
            i = i + 1;
        }
        proof {
            assert(mv.take(i as int) =~= mv);
        }
        self.backed_up = true;
        match &msgs[latest] {
            Message::Work(s) => {
                out.push(s.clone());
                proof {
                    assert(out.deep_view() =~= coalesced(mv));
                }
                out
            },
            Message::Quit => {
                // not reached: the scan only ever lands on a snapshot
                proof {
                    assert(false);
                }
                out
            },
        }
    }
}

/// A destination for accepted snapshots.  A writer is built from the
/// destination path and the backup flag; the spec views say what it was
/// built with and which snapshot it last received, so a caller can state
/// exactly what it handed over.
pub trait OutputType: Sized {
    /// The destination path the writer was built with.
    spec fn path_spec(&self) -> Seq<char>;

    /// Whether the writer still owes the original its backup.
    spec fn backup_spec(&self) -> bool;

    /// The newest snapshot handed in, if any.
    spec fn held_spec(&self) -> Option<Seq<char>>;

    fn new(path: String, need_backup: bool) -> (r: Self)
        ensures
            r.path_spec() == path@,
            r.backup_spec() == need_backup,
            r.held_spec() is None,
    ;

    fn output(&mut self, reduced_file: String)
        ensures
            final(self).path_spec() == old(self).path_spec(),
            final(self).backup_spec() == old(self).backup_spec(),
            final(self).held_spec() == Some(reduced_file@),
    ;
}

/// The writer that keeps only the final snapshot: `output` overwrites a
/// single slot, and the stored snapshot is handed out at tear-down.
pub struct LastWriter {
    worker: TargetFileWorker,
    path: String,
    last: Option<String>,
}

impl LastWriter {
    /// The snapshot currently held.
    pub closed spec fn last_spec(&self) -> Option<Seq<char>> {
        match self.last {
            Some(s) => Some(s@),
            None => None,
        }
    }

    /// Whether the original no longer needs a backup.
    pub closed spec fn backed_up_spec(&self) -> bool {
        self.worker.backed_up_spec()
    }

    pub fn make(path: String, need_backup: bool) -> (r: Self)
        ensures
            r.last_spec() is None,
            r.backed_up_spec() == !need_backup,
            r.path_spec() == path@,
    {
        LastWriter { worker: TargetFileWorker::new(need_backup), path, last: None }
    }

    /// Overwrites the slot with a newer snapshot.
    pub fn store(&mut self, reduced_file: String)
        ensures
            final(self).last_spec() == Some(reduced_file@),
            final(self).backed_up_spec() == old(self).backed_up_spec(),
            final(self).path_spec() == old(self).path_spec(),
    {
        self.last = Some(reduced_file);
    }

    /// Takes the held snapshot out for persisting, noting the backup;
    /// returns the snapshot together with whether the original must be
    /// copied aside first.
    pub fn finish(&mut self) -> (r: Option<(String, bool)>)
        ensures
            final(self).last_spec() is None,
            match r {
                Some((s, must_backup)) => old(self).last_spec() == Some(s@) && must_backup == !old(
                    self,
                ).backed_up_spec() && final(self).backed_up_spec(),
                None => old(self).last_spec() is None && final(self).backed_up_spec() == old(
                    self,
                ).backed_up_spec(),
            },
    {
        let taken = self.last.take();
        match taken {
            Some(s) => {
                let must = self.worker.note_emit();
                Some((s, must))
            },
            None => None,
        }
    }
}

impl OutputType for LastWriter {
    closed spec fn path_spec(&self) -> Seq<char> {
        self.path@
    }

    closed spec fn backup_spec(&self) -> bool {
        !self.worker.backed_up_spec()
    }

    closed spec fn held_spec(&self) -> Option<Seq<char>> {
        self.last_spec()
    }

    fn new(path: String, need_backup: bool) -> Self {
        LastWriter::make(path, need_backup)
    }

    fn output(&mut self, reduced_file: String) {
        self.store(reduced_file);
    }
}

/// Owns the writer and builds it lazily: the first accepted snapshot
/// creates the writer, so an untouched input never disturbs the
/// destination.
pub struct WaitGuard<T: OutputType> {
    path: Option<String>,
    need_backup: bool,
    inner: Option<T>,
    orig_path: Ghost<Seq<char>>,
}

impl<T: OutputType> WaitGuard<T> {
    /// Whether any snapshot has been handed in yet.
    pub closed spec fn started(&self) -> bool {
        self.inner is Some
    }

    /// The destination path given at construction.
    pub closed spec fn path_spec(&self) -> Seq<char> {
        self.orig_path@
    }

    /// Whether the destination must be backed up before the first write.
    pub closed spec fn need_backup_spec(&self) -> bool {
        self.need_backup
    }

    /// The writer, once one has been built.
    pub closed spec fn writer(&self) -> Option<T> {
        self.inner
    }

    /// The guard's consistency: until the writer exists the path is kept;
    /// once it exists, it was built with that path and the backup flag.
    pub closed spec fn wf(&self) -> bool {
        &&& (self.inner matches Some(w) ==> w.path_spec() == self.orig_path@ && w.backup_spec()
            == self.need_backup)
        &&& (self.inner is None ==> (self.path matches Some(p) && p@ == self.orig_path@))
    }

    pub fn new(path: String, need_backup: bool) -> (r: Self)
        ensures
            r.wf(),
            !r.started(),
            r.path_spec() == path@,
            r.need_backup_spec() == need_backup,
    {
        let ghost orig = path@;
        WaitGuard { path: Some(path), need_backup, inner: None, orig_path: Ghost(orig) }
    }

    /// Renders an accepted tree and hands the text to the writer, building
    /// the writer on first use with the stored path and backup flag.
    pub fn output_formatted(&mut self, reduced_file: &SourceFile)
        requires
            old(self).wf(),
        ensures
            final(self).wf(),
            final(self).started(),
            final(self).path_spec() == old(self).path_spec(),
            final(self).need_backup_spec() == old(self).need_backup_spec(),
            (final(self).writer() matches Some(w) && w.path_spec() == old(self).path_spec()
                && w.backup_spec() == old(self).need_backup_spec() && w.held_spec() == Some(
                render_file_v(reduced_file@),
            )),
    {
        let text = render_file(reduced_file);
        self.output_text(text);
    }

    /// Hands an already rendered snapshot to the writer, building the
    /// writer on first use with the stored path and backup flag.
    pub fn output_text(&mut self, text: String)
        requires
            old(self).wf(),
        ensures
            final(self).wf(),
            final(self).started(),
            final(self).path_spec() == old(self).path_spec(),
            final(self).need_backup_spec() == old(self).need_backup_spec(),
            (final(self).writer() matches Some(w) && w.path_spec() == old(self).path_spec()
                && w.backup_spec() == old(self).need_backup_spec() && w.held_spec() == Some(
                text@,
            )),
    {
        if self.inner.is_none() {
            let path = match self.path.take() {
                Some(p) => p,
                None => {
                    // not reached: an unbuilt guard keeps its path
                    proof {
                        assert(false);
                    }
                    String::new()
                },
            };
            self.inner = Some(T::new(path, self.need_backup));
        }
        match &mut self.inner {
            Some(w) => {
                w.output(text);
            },
            None => {
                // not reached: the writer was just built
                proof {
                    assert(false);
                }
            },
        }
    }

    /// Takes the writer out for tear-down: exactly the writer that was
    /// built, if any snapshot ever arrived.
    pub fn into_writer(&mut self) -> (r: Option<T>)
        ensures
            !final(self).started(),
            r == old(self).writer(),
            r is Some <==> old(self).started(),
    {
        self.inner.take()
    }
}

} // verus!
