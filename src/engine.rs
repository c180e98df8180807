//! The trial-removal engine: for one manifest, removes each declared
//! dependency in turn, and keeps or restores it by the oracle's answer. The
//! engine decides; its caller writes each trial's text to disk, asks the
//! oracle, and hands the answer back.

use vstd::prelude::*;

use toml_edit::{DocumentMut, Table, TomlError};

use crate::document::{
    dependencies_are_table, dependency_entries, dependency_keys, has_dependencies, parse_document,
    parsed, parses, remove_dependency, render_document, rendered, restore_dependencies,
    snapshot_dependencies, table_entries, with_dependencies,
};
use crate::model::{
    apply_answers, keys_of, lemma_all_required_keeps_table, lemma_all_useless_empties_table,
    lemma_answers_follow_oracle, lemma_prune_idempotent, lemma_required_entry_kept, monotone, prune,
    views, without_key, Entry,
};

verus! {

/// The verdict on one dependency key.
#[derive(Debug, Clone, Copy, PartialEq, Eq, Structural)]
pub enum Verdict {
    /// Removing it made the project invalid: it was put back.
    Required,
    /// Removing it left the project valid: it stays removed.
    Useless,
}

/// Why a manifest could not be processed.
#[derive(Debug)]
pub enum EngineError {
    /// The manifest text is not well-formed.
    Parse(TomlError),
    /// The manifest has a `dependencies` item that is not a table.
    NotATable,
}

/// Why a run refuses to start.
#[derive(Debug, Clone, Copy, PartialEq, Eq, Structural)]
pub enum RunError {
    /// The project fails its own validity check before anything is touched.
    InitialInvalidProject,
}

/// Proof that the oracle found the untouched project valid. An engine can
/// only be opened with one, so no manifest is rewritten before that check.
pub struct Approval {
    granted: bool,
}

impl Approval {
    pub closed spec fn is_granted(&self) -> bool {
        self.granted
    }

    /// Takes the oracle's answer on the untouched tree; only a valid answer
    /// lets the run go on.
    pub fn preflight(valid: bool) -> (r: Result<Approval, RunError>)
        ensures
            r is Ok <==> valid,
            r matches Ok(a) ==> a.is_granted(),
            r matches Err(e) ==> e == RunError::InitialInvalidProject,
    {
        if valid {
            Ok(Approval { granted: true })
        } else {
            Err(RunError::InitialInvalidProject)
        }
    }
}

/// One trial: the key just removed, and the manifest text to write before
/// asking the oracle.
pub struct Trial {
    pub key: String,
    pub text: String,
}

/// The state of processing one manifest.
pub struct Engine {
    doc: DocumentMut,
    keys: Vec<String>,
    next: usize,
    snapshot: Option<Table>,
    original: Ghost<Seq<Entry>>,
    answers: Ghost<Seq<bool>>,
    initial: Ghost<DocumentMut>,
    settled: Ghost<DocumentMut>,
}

impl Engine {
    /// The document as it stands in memory.
    pub closed spec fn document(&self) -> DocumentMut {
        self.doc
    }

    /// The document as it was parsed.
    pub closed spec fn initial(&self) -> DocumentMut {
        self.initial@
    }

    /// The dependency table as it was parsed.
    pub closed spec fn original(&self) -> Seq<Entry> {
        self.original@
    }

    /// The keys to try, snapshotted once before any removal.
    pub closed spec fn keys(&self) -> Seq<Seq<char>> {
        views(self.keys@)
    }

    /// How many trials have been decided.
    pub closed spec fn tried(&self) -> nat {
        self.next as nat
    }

    /// The oracle's answers so far, one for each decided trial.
    pub closed spec fn answers(&self) -> Seq<bool> {
        self.answers@
    }

    /// Whether a trial is out, awaiting the oracle's answer.
    pub closed spec fn pending(&self) -> bool {
        self.snapshot is Some
    }

    /// The dependency entries of the document in memory.
    pub open spec fn entries(&self) -> Seq<Entry> {
        dependency_entries(self.document())
    }

    /// The dependency table that the decided trials leave.
    pub open spec fn decided(&self) -> Seq<Entry> {
        apply_answers(self.original(), self.keys().take(self.tried() as int), self.answers())
    }

    /// The engine's invariant: the table in memory is what the decided trials
    /// leave, less the key of the trial that is out, whose snapshot puts the
    /// document back as it stood before that trial.
    pub closed spec fn wf(&self) -> bool {
        &&& dependencies_are_table(self.doc)
        &&& views(self.keys@) == keys_of(self.original@)
        &&& self.next <= self.keys@.len()
        &&& self.answers@.len() == self.next
        &&& (forall|i: int| 0 <= i < self.answers@.len() ==> !self.answers@[i]) ==> self.settled@
            == self.initial@
        &&& forall|t: Table| #[trigger]
            with_dependencies(self.doc, t) == with_dependencies(self.initial@, t)
        &&& forall|t: Table| #[trigger]
            with_dependencies(self.settled@, t) == with_dependencies(self.initial@, t)
        &&& match self.snapshot {
            None => dependency_entries(self.doc) == self.decided() && self.doc == self.settled@,
            Some(t) => {
                &&& with_dependencies(self.doc, t) == self.settled@
                &&& self.next < self.keys@.len()
                &&& table_entries(t) == self.decided()
                &&& dependency_entries(self.doc) == without_key(
                    self.decided(),
                    self.keys@[self.next as int]@,
                )
            },
        }
    }

    /// Parses a manifest and snapshots the keys of its dependency table. A
    /// manifest without a `dependencies` item is left alone (`Ok(None)`).
    pub fn open(approval: &Approval, text: &str) -> (r: Result<Option<Engine>, EngineError>)
        requires
            approval.is_granted(),
        ensures
            r matches Err(EngineError::Parse(_)) <==> !parses(text@),
            parses(text@) && !has_dependencies(parsed(text@)) ==> r matches Ok(None),
            r matches Err(EngineError::NotATable) <==> parses(text@) && has_dependencies(
                parsed(text@),
            ) && !dependencies_are_table(parsed(text@)),
            parses(text@) && dependencies_are_table(parsed(text@)) ==> r matches Ok(Some(_)),
            r matches Ok(Some(e)) ==> {
                &&& e.wf()
                &&& e.document() == parsed(text@)
                &&& e.initial() == parsed(text@)
                &&& forall|t: Table| #[trigger]
                    with_dependencies(e.document(), t) == with_dependencies(e.initial(), t)
                &&& e.original() == dependency_entries(parsed(text@))
                &&& e.keys() == keys_of(e.original())
                &&& e.tried() == 0
                &&& e.entries() == e.decided()
                &&& !e.pending()
            },
    {
        let doc = match parse_document(text) {
            Ok(d) => d,
            Err(err) => {
                return Err(EngineError::Parse(err));
            },
        };
        match dependency_keys(&doc) {
            None => Ok(None),
            Some(None) => Err(EngineError::NotATable),
            Some(Some(keys)) => {
                let ghost original = dependency_entries(doc);
                let e = Engine {
                    doc,
                    keys,
                    next: 0,
                    snapshot: None,
                    original: Ghost(original),
                    answers: Ghost(Seq::empty()),
                    initial: Ghost(doc),
                    settled: Ghost(doc),
                };
                assert(e.keys().take(0) =~= Seq::<Seq<char>>::empty());
                Ok(Some(e))
            },
        }
    }

    /// Starts the next trial: snapshots the dependency table, removes the next
    /// key, and hands back the text to write. `None` once every key is tried.
    pub fn next_trial(&mut self) -> (r: Option<Trial>)
        requires
            old(self).wf(),
            !old(self).pending(),
        ensures
            final(self).wf(),
            final(self).original() == old(self).original(),
            final(self).initial() == old(self).initial(),
            final(self).keys() == old(self).keys(),
            final(self).tried() == old(self).tried(),
            final(self).answers() == old(self).answers(),
            forall|t: Table| #[trigger]
                with_dependencies(final(self).document(), t) == with_dependencies(
                    final(self).initial(),
                    t,
                ),
            old(self).tried() < old(self).keys().len() ==> {
                &&& r matches Some(t)
                &&& t.key@ == old(self).keys()[old(self).tried() as int]
                &&& final(self).pending()
                &&& final(self).entries() == without_key(old(self).entries(), t.key@)
                &&& forall|tb: Table| #[trigger]
                    with_dependencies(final(self).document(), tb) == with_dependencies(
                        old(self).document(),
                        tb,
                    )
                &&& t.text@ == rendered(final(self).document())
            },
            old(self).tried() >= old(self).keys().len() ==> {
                &&& r is None
                &&& !final(self).pending()
                &&& final(self).entries() == final(self).decided()
                &&& final(self).document() == old(self).document()
            },
    {
        if self.next >= self.keys.len() {
            return None;
        }
        let key = self.keys[self.next].clone();
        let saved = snapshot_dependencies(&self.doc);
        let ghost settled = self.doc;
        remove_dependency(&mut self.doc, key.as_str());
        self.snapshot = Some(saved);
        self.settled = Ghost(settled);
        let text = render_document(&self.doc);
        Some(Trial { key, text })
    }

    /// Takes the oracle's answer on the trial that is out. A valid answer
    /// keeps the key removed; an invalid one restores the whole dependency
    /// table from the snapshot.
    pub fn record(&mut self, valid: bool) -> (r: Verdict)
        requires
            old(self).wf(),
            old(self).pending(),
        ensures
            final(self).wf(),
            !final(self).pending(),
            final(self).original() == old(self).original(),
            final(self).initial() == old(self).initial(),
            final(self).keys() == old(self).keys(),
            final(self).entries() == final(self).decided(),
            final(self).tried() == old(self).tried() + 1,
            forall|t: Table| #[trigger]
                with_dependencies(final(self).document(), t) == with_dependencies(
                    final(self).initial(),
                    t,
                ),
            final(self).answers() == old(self).answers().push(valid),
            r == (if valid {
                Verdict::Useless
            } else {
                Verdict::Required
            }),
            final(self).entries() == (if valid {
                old(self).entries()
            } else {
                old(self).decided()
            }),
    {
        let n = self.keys.len();
        assert(self.next < n);
        let saved = self.snapshot.take();
        let ghost k = self.keys()[self.next as int];
        let ghost doc_before = self.doc;
        let r = match saved {
            Some(t) => {
                if valid {
                    Verdict::Useless
                } else {
                    restore_dependencies(&mut self.doc, t);
                    Verdict::Required
                }
            },
            None => Verdict::Required,
        };
        if valid {
            self.settled = Ghost(doc_before);
        }
        self.answers = Ghost(self.answers@.push(valid));
        self.next = self.next + 1;
        proof {
            let ks = self.keys().take(self.next as int);
            assert(ks.drop_last() =~= self.keys().take(self.next - 1));
            assert(ks.last() == k);
            assert(self.answers@.drop_last() =~= old(self).answers@);
            if forall|i: int| 0 <= i < self.answers@.len() ==> !self.answers@[i] {
                assert forall|i: int| 0 <= i < old(self).answers@.len() implies !old(
                    self,
                ).answers@[i] by {
                    assert(self.answers@[i] == old(self).answers@[i]);
                }
            }
            assert(dependency_entries(self.doc) == self.decided());
        }
        r
    }

    /// Whether every key has been tried and no trial is out.
    pub open spec fn finished(&self) -> bool {
        self.tried() == self.keys().len() && !self.pending()
    }

    /// Once every key is tried, the table in memory is what the answers make
    /// of the parsed table.
    pub proof fn lemma_finished_table(&self)
        requires
            self.wf(),
            self.finished(),
        ensures
            self.entries() == apply_answers(self.original(), self.keys(), self.answers()),
            self.answers().len() == self.keys().len(),
    {
        assert(self.keys().take(self.tried() as int) =~= self.keys());
    }

    /// Every key judged required keeps its original definition, unchanged, in
    /// the final table.
    pub proof fn lemma_required_keys_kept(&self, e: Entry)
        requires
            self.wf(),
            self.finished(),
            self.original().contains(e),
            forall|i: int| 0 <= i < self.keys().len() && self.keys()[i] == e.0 ==> !self.answers()[i],
        ensures
            self.entries().contains(e),
    {
        self.lemma_finished_table();
        lemma_required_entry_kept(self.original(), self.keys(), self.answers(), e);
    }

    /// When the oracle judged every removal valid, the final dependency table
    /// is empty.
    pub proof fn lemma_all_useless_empty(&self)
        requires
            self.wf(),
            self.finished(),
            forall|i: int| 0 <= i < self.answers().len() ==> self.answers()[i],
        ensures
            self.entries() == Seq::<Entry>::empty(),
    {
        self.lemma_finished_table();
        assert(self.original().len() == self.keys().len());
        lemma_all_useless_empties_table(self.original(), self.answers());
    }

    /// When no key was judged useless, the final dependency table is the
    /// parsed one, entry for entry.
    pub proof fn lemma_none_useless_unchanged(&self)
        requires
            self.wf(),
            self.finished(),
            forall|i: int| 0 <= i < self.answers().len() ==> !self.answers()[i],
        ensures
            self.entries() == self.original(),
    {
        self.lemma_finished_table();
        lemma_all_required_keeps_table(self.original(), self.keys(), self.answers());
    }

    /// Idempotence: when each answer is what a monotone oracle says of the
    /// table that its trial wrote, a second pass over the pruned table, against
    /// the same oracle, removes nothing.
    pub proof fn lemma_second_pass_removes_nothing(&self, oracle: spec_fn(Seq<Entry>) -> bool)
        requires
            self.wf(),
            self.finished(),
            monotone(oracle),
            forall|i: int|
                0 <= i < self.keys().len() ==> self.answers()[i] == oracle(
                    without_key(
                        apply_answers(self.original(), self.keys().take(i), self.answers().take(i)),
                        self.keys()[i],
                    ),
                ),
        ensures
            prune(self.entries(), keys_of(self.entries()), oracle) == self.entries(),
    {
        self.lemma_finished_table();
        lemma_answers_follow_oracle(self.original(), self.keys(), self.answers(), oracle);
        lemma_prune_idempotent(self.original(), oracle);
    }

    /// When no key was judged useless, the document ends exactly as it was
    /// parsed, so its text is what toml_edit writes for the parsed manifest.
    pub proof fn lemma_none_useless_same_document(&self)
        requires
            self.wf(),
            !self.pending(),
            forall|i: int| 0 <= i < self.answers().len() ==> !self.answers()[i],
        ensures
            self.document() == self.initial(),
            rendered(self.document()) == rendered(self.initial()),
    {
    }

    /// The text of the document as it stands, for the last write.
    pub fn final_text(&self) -> (r: String)
        requires
            self.wf(),
        ensures
            r@ == rendered(self.document()),
    {
        render_document(&self.doc)
    }
}

} // verus!
