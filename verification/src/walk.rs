//! Walks over the manifests of the current snapshot.
//!
//! A walk alternates decisions and storage access.  The decisions are made
//! here.  A walk is a value that says what it needs next: the manifest list, one
//! manifest, or a manifest to be written.  Handing it the answer gives the next
//! value, until the walk is done.
//!
//! [`DeleteEntries`] collects the entries that a snapshot records as deleted.
//! [`ExistingManifests`] collects the manifests that a snapshot carries over.
//! Which entries and manifests those are is up to a [`RemovalRule`].
use vstd::prelude::*;

use crate::manifest::{
    entries_view, manifests_view, ManifestDraft, ManifestDraftView, ManifestEntry,
    ManifestEntryView, ManifestFile, ManifestFileView, ManifestStatus,
};
use crate::seqs::{lemma_contains_joined, lemma_filter_source};

verus! {

/// What becomes of a manifest of the current snapshot.
#[derive(Debug, PartialEq, Eq)]
pub enum ManifestFate {
    /// The manifest is carried over as it is.
    Keep,
    /// The manifest is replaced by another one.
    Rewrite(ManifestDraft),
    /// The manifest is left out.
    Drop,
}

/// The model of a [`ManifestFate`].
#[verifier::ext_equal]
pub enum ManifestFateView {
    Keep,
    Rewrite(ManifestDraftView),
    Drop,
}

impl View for ManifestFate {
    type V = ManifestFateView;

    open spec fn view(&self) -> ManifestFateView {
        match *self {
            ManifestFate::Keep => ManifestFateView::Keep,
            ManifestFate::Rewrite(draft) => ManifestFateView::Rewrite(draft@),
            ManifestFate::Drop => ManifestFateView::Drop,
        }
    }
}

/// Which files a snapshot removes, and what that means for the manifests of the
/// snapshot before it.
pub trait RemovalRule: Sized {
    /// The manifests have to be read to tell what becomes of them.
    spec fn reads_manifests(&self) -> bool;

    /// The entry is recorded as deleted.
    spec fn deletes(&self, entry: ManifestEntryView) -> bool;

    /// What becomes of a manifest with the given entries.
    spec fn fate(
        &self,
        manifest: ManifestFileView,
        entries: Seq<ManifestEntryView>,
    ) -> ManifestFateView;

    /// Whether the manifests have to be read to tell what becomes of them.
    fn needs_manifests(&self) -> (result: bool)
        ensures
            result == self.reads_manifests(),
    ;

    /// What an entry is recorded as, if it is recorded as deleted.
    fn delete_entry(&self, entry: &ManifestEntry) -> (result: Option<ManifestEntry>)
        ensures
            match result {
                Some(deleted) => self.deletes(entry@) && deleted@ == entry@.with_status(
                    ManifestStatus::Deleted,
                ),
                None => !self.deletes(entry@),
            },
    ;

    /// What becomes of a manifest with the given entries.
    fn manifest_fate(&self, manifest: &ManifestFile, entries: &Vec<ManifestEntry>) -> (result:
        ManifestFate)
        ensures
            result@ == self.fate(manifest@, entries_view(entries@)),
    ;

    /// A live entry is deleted along with any entry that differs in its status only.
    proof fn deletes_whatever_the_status(
        &self,
        entry: ManifestEntryView,
        other: ManifestEntryView,
    )
        requires
            self.deletes(entry),
            other.alive(),
            entry.with_status(ManifestStatus::Deleted) == other.with_status(
                ManifestStatus::Deleted,
            ),
        ensures
            self.deletes(other),
    ;
}

/// What the entries of one manifest add to the deleted entries: a copy of each
/// one that the rule deletes, with status deleted, in the order of the manifest.
pub open spec fn deleted_in<R: RemovalRule>(rule: R, entries: Seq<ManifestEntryView>) -> Seq<
    ManifestEntryView,
> {
    entries.filter(|entry: ManifestEntryView| rule.deletes(entry)).map_values(
        |entry: ManifestEntryView| entry.with_status(ManifestStatus::Deleted),
    )
}

/// What the entries of several manifests add to the deleted entries, in the order
/// of the manifests.
pub open spec fn deleted_in_all<R: RemovalRule>(
    rule: R,
    contents: Seq<Seq<ManifestEntryView>>,
) -> Seq<ManifestEntryView>
    decreases contents.len(),
{
    if contents.len() == 0 {
        Seq::empty()
    } else {
        deleted_in_all(rule, contents.drop_last()) + deleted_in(rule, contents.last())
    }
}

/// A walk that has loaded the manifest list, or is about to finish.
#[verifier::ext_equal]
pub struct DeleteWalk<R> {
    pub rule: R,
    /// The manifests of the current snapshot.
    pub manifests: Seq<ManifestFileView>,
    /// How many of them have been read.
    pub next: int,
    /// The entries that were found to be deleted.
    pub entries: Seq<ManifestEntryView>,
}

/// The model of [`DeleteEntries`].
#[verifier::ext_equal]
pub enum DeleteEntriesView<R> {
    LoadManifestList(R),
    LoadManifest(DeleteWalk<R>),
    Done(Seq<ManifestEntryView>),
}

impl<R: RemovalRule> DeleteWalk<R> {
    /// What the walk needs next: a manifest, as long as there is one to read.
    pub open spec fn proceed(self) -> DeleteEntriesView<R> {
        if self.next < self.manifests.len() {
            DeleteEntriesView::LoadManifest(self)
        } else {
            DeleteEntriesView::Done(self.entries)
        }
    }

    /// The walk after the next manifest has been read.
    pub open spec fn manifest_loaded(self, entries: Seq<ManifestEntryView>) -> Self {
        DeleteWalk {
            next: self.next + 1,
            entries: self.entries + deleted_in(self.rule, entries),
            ..self
        }
    }
}

/// The walk once the manifest list is known.
pub open spec fn delete_list_loaded<R>(rule: R, manifests: Seq<ManifestFileView>) -> DeleteWalk<R> {
    DeleteWalk { rule, manifests, next: 0, entries: Seq::empty() }
}

/// A walk that collects the entries that a snapshot records as deleted.
pub enum DeleteEntries<R: RemovalRule> {
    /// The manifest list of the current snapshot is needed.
    LoadManifestList(DeleteEntriesStart<R>),
    /// A manifest is needed.
    LoadManifest(DeleteEntriesStep<R>),
    /// These are the deleted entries.
    Done(Vec<ManifestEntry>),
}

impl<R: RemovalRule> View for DeleteEntries<R> {
    type V = DeleteEntriesView<R>;

    open spec fn view(&self) -> DeleteEntriesView<R> {
        match *self {
            DeleteEntries::LoadManifestList(start) => DeleteEntriesView::LoadManifestList(start@),
            DeleteEntries::LoadManifest(step) => DeleteEntriesView::LoadManifest(step@),
            DeleteEntries::Done(entries) => DeleteEntriesView::Done(entries_view(entries@)),
        }
    }
}

/// A [`DeleteEntries`] walk that waits for the manifest list.
pub struct DeleteEntriesStart<R: RemovalRule> {
    rule: R,
}

impl<R: RemovalRule> View for DeleteEntriesStart<R> {
    type V = R;

    closed spec fn view(&self) -> R {
        self.rule
    }
}

/// A [`DeleteEntries`] walk that waits for a manifest.
pub struct DeleteEntriesStep<R: RemovalRule> {
    rule: R,
    manifests: Vec<ManifestFile>,
    next: usize,
    entries: Vec<ManifestEntry>,
}

impl<R: RemovalRule> View for DeleteEntriesStep<R> {
    type V = DeleteWalk<R>;

    closed spec fn view(&self) -> DeleteWalk<R> {
        DeleteWalk {
            rule: self.rule,
            manifests: manifests_view(self.manifests@),
            next: self.next as int,
            entries: entries_view(self.entries@),
        }
    }
}

impl<R: RemovalRule> DeleteEntriesStart<R> {
    /// A walk by the given rule.
    pub fn new(rule: R) -> (result: Self)
        ensures
            result@ == rule,
    {
        Self { rule }
    }

    /// Takes the manifest list of the current snapshot.
    pub fn list_loaded(self, manifests: Vec<ManifestFile>) -> (result: DeleteEntries<R>)
        ensures
            result@ == delete_list_loaded(self@, manifests_view(manifests@)).proceed(),
    {
        let entries: Vec<ManifestEntry> = Vec::new();
        assert(entries_view(entries@) =~= Seq::empty());
        if manifests.len() > 0 {
            DeleteEntries::LoadManifest(
                DeleteEntriesStep { rule: self.rule, manifests, next: 0, entries },
            )
        } else {
            DeleteEntries::Done(entries)
        }
    }
}

/// Collecting one entry more.
proof fn lemma_deleted_in_step<R: RemovalRule>(
    rule: R,
    entries: Seq<ManifestEntryView>,
    count: int,
)
    requires
        0 <= count < entries.len(),
    ensures
        deleted_in(rule, entries.take(count + 1)) == if rule.deletes(entries[count]) {
            deleted_in(rule, entries.take(count)).push(
                entries[count].with_status(ManifestStatus::Deleted),
            )
        } else {
            deleted_in(rule, entries.take(count))
        },
{
    reveal(Seq::filter);
    let longer = entries.take(count + 1);
    assert(longer.drop_last() =~= entries.take(count));
    assert(longer.last() == entries[count]);
    assert(deleted_in(rule, longer) =~= if rule.deletes(entries[count]) {
        deleted_in(rule, entries.take(count)).push(
            entries[count].with_status(ManifestStatus::Deleted),
        )
    } else {
        deleted_in(rule, entries.take(count))
    });
}

impl<R: RemovalRule> DeleteEntriesStep<R> {
    #[verifier::type_invariant]
    spec fn has_next(self) -> bool {
        self.next < self.manifests@.len()
    }

    /// The manifest that is needed.
    pub fn manifest(&self) -> (result: &ManifestFile)
        ensures
            0 <= self@.next < self@.manifests.len(),
            result@ == self@.manifests[self@.next],
    {
        proof {
            use_type_invariant(self);
        }
        &self.manifests[self.next]
    }

    /// Takes the entries of the manifest that was needed.
    pub fn manifest_loaded(self, entries: &Vec<ManifestEntry>) -> (result: DeleteEntries<R>)
        ensures
            result@ == self@.manifest_loaded(entries_view(entries@)).proceed(),
    {
        proof {
            use_type_invariant(&self);
        }
        let ghost before = self@;
        let ghost loaded = entries_view(entries@);
        let DeleteEntriesStep { rule, manifests, next, entries: collected } = self;
        let mut collected = collected;
        assert(next < manifests.len());
        for i in 0..entries.len()
            invariant
                loaded == entries_view(entries@),
                rule == before.rule,
                entries_view(collected@) == before.entries + deleted_in(
                    rule,
                    loaded.take(i as int),
                ),
        {
            proof {
                lemma_deleted_in_step(rule, loaded, i as int);
            }
            if let Some(deleted) = rule.delete_entry(&entries[i]) {
                let ghost so_far = collected@;
                collected.push(deleted);
                assert(entries_view(collected@) =~= entries_view(so_far).push(deleted@));
            }
            assert(entries_view(collected@) =~= before.entries + deleted_in(
                rule,
                loaded.take(i + 1),
            ));
        }
        assert(loaded.take(loaded.len() as int) =~= loaded);
        if next + 1 < manifests.len() {
            DeleteEntries::LoadManifest(
                DeleteEntriesStep { rule, manifests, next: next + 1, entries: collected },
            )
        } else {
            DeleteEntries::Done(collected)
        }
    }
}

/// What a manifest of the current snapshot adds to the manifests that are carried
/// over.  `written` is what storage answered if the manifest was rewritten.
pub open spec fn carried_from(
    fate: ManifestFateView,
    manifest: ManifestFileView,
    written: ManifestFileView,
) -> Seq<ManifestFileView> {
    match fate {
        ManifestFateView::Keep => seq![manifest],
        ManifestFateView::Rewrite(_) => seq![written],
        ManifestFateView::Drop => Seq::empty(),
    }
}

/// What several manifests add to the manifests that are carried over, in their
/// order.
pub open spec fn carried_from_all<R: RemovalRule>(
    rule: R,
    manifests: Seq<ManifestFileView>,
    contents: Seq<Seq<ManifestEntryView>>,
    written: Seq<ManifestFileView>,
) -> Seq<ManifestFileView>
    decreases manifests.len(),
{
    if manifests.len() == 0 {
        Seq::empty()
    } else {
        carried_from_all(
            rule,
            manifests.drop_last(),
            contents.drop_last(),
            written.drop_last(),
        ) + carried_from(
            rule.fate(manifests.last(), contents.last()),
            manifests.last(),
            written.last(),
        )
    }
}

/// What is carried over where no manifest is read: those that list files of the
/// snapshot, in their order.
pub open spec fn carried_unread(manifests: Seq<ManifestFileView>) -> Seq<ManifestFileView> {
    manifests.filter(|manifest: ManifestFileView| manifest.has_live_files())
}

/// A walk that has loaded the manifest list.
#[verifier::ext_equal]
pub struct ExistingWalk<R> {
    pub rule: R,
    /// The manifests of the current snapshot.
    pub manifests: Seq<ManifestFileView>,
    /// How many of them have been dealt with.
    pub next: int,
    /// The manifests that are carried over.
    pub existing: Seq<ManifestFileView>,
}

/// The model of [`ExistingManifests`].
#[verifier::ext_equal]
pub enum ExistingManifestsView<R> {
    LoadManifestList(R),
    LoadManifest(ExistingWalk<R>),
    WriteManifest(ExistingWalk<R>, ManifestDraftView),
    Done(Seq<ManifestFileView>),
}

impl<R: RemovalRule> ExistingWalk<R> {
    /// What the walk needs next: a manifest, as long as there is one to read.
    pub open spec fn proceed(self) -> ExistingManifestsView<R> {
        if self.next < self.manifests.len() {
            ExistingManifestsView::LoadManifest(self)
        } else {
            ExistingManifestsView::Done(self.existing)
        }
    }

    /// The walk once the next manifest has been dealt with by carrying over
    /// `carried`.
    pub open spec fn carry(self, carried: Seq<ManifestFileView>) -> Self {
        ExistingWalk { next: self.next + 1, existing: self.existing + carried, ..self }
    }

    /// What the walk needs after the next manifest has been read: that its
    /// replacement is written, if it gets one, else what comes next.
    pub open spec fn manifest_loaded(
        self,
        entries: Seq<ManifestEntryView>,
    ) -> ExistingManifestsView<R> {
        let manifest = self.manifests[self.next];
        match self.rule.fate(manifest, entries) {
            ManifestFateView::Keep => self.carry(seq![manifest]).proceed(),
            ManifestFateView::Rewrite(draft) => ExistingManifestsView::WriteManifest(self, draft),
            ManifestFateView::Drop => self.carry(Seq::empty()).proceed(),
        }
    }

    /// What the walk needs after the replacement of the next manifest has been
    /// written.
    pub open spec fn manifest_written(self, written: ManifestFileView) -> ExistingManifestsView<R> {
        self.carry(seq![written]).proceed()
    }
}

/// What a walk needs once the manifest list is known.
pub open spec fn existing_list_loaded<R: RemovalRule>(
    rule: R,
    manifests: Seq<ManifestFileView>,
) -> ExistingManifestsView<R> {
    if rule.reads_manifests() {
        ExistingWalk { rule, manifests, next: 0, existing: Seq::empty() }.proceed()
    } else {
        ExistingManifestsView::Done(carried_unread(manifests))
    }
}

/// A walk that collects the manifests that a snapshot carries over.
pub enum ExistingManifests<R: RemovalRule> {
    /// The manifest list of the current snapshot is needed.
    LoadManifestList(ExistingManifestsStart<R>),
    /// A manifest is needed.
    LoadManifest(ExistingManifestsStep<R>),
    /// A manifest is to be written.
    WriteManifest(ExistingManifestsWrite<R>),
    /// These are the manifests that are carried over.
    Done(Vec<ManifestFile>),
}

impl<R: RemovalRule> View for ExistingManifests<R> {
    type V = ExistingManifestsView<R>;

    open spec fn view(&self) -> ExistingManifestsView<R> {
        match *self {
            ExistingManifests::LoadManifestList(start) => ExistingManifestsView::LoadManifestList(
                start@,
            ),
            ExistingManifests::LoadManifest(step) => ExistingManifestsView::LoadManifest(step@),
            ExistingManifests::WriteManifest(write) => ExistingManifestsView::WriteManifest(
                write@.0,
                write@.1,
            ),
            ExistingManifests::Done(existing) => ExistingManifestsView::Done(
                manifests_view(existing@),
            ),
        }
    }
}

/// An [`ExistingManifests`] walk that waits for the manifest list.
pub struct ExistingManifestsStart<R: RemovalRule> {
    rule: R,
}

impl<R: RemovalRule> View for ExistingManifestsStart<R> {
    type V = R;

    closed spec fn view(&self) -> R {
        self.rule
    }
}

/// An [`ExistingManifests`] walk that waits for a manifest.
pub struct ExistingManifestsStep<R: RemovalRule> {
    rule: R,
    manifests: Vec<ManifestFile>,
    next: usize,
    existing: Vec<ManifestFile>,
}

impl<R: RemovalRule> View for ExistingManifestsStep<R> {
    type V = ExistingWalk<R>;

    closed spec fn view(&self) -> ExistingWalk<R> {
        ExistingWalk {
            rule: self.rule,
            manifests: manifests_view(self.manifests@),
            next: self.next as int,
            existing: manifests_view(self.existing@),
        }
    }
}

/// An [`ExistingManifests`] walk that waits for a manifest to be written.
pub struct ExistingManifestsWrite<R: RemovalRule> {
    step: ExistingManifestsStep<R>,
    draft: ManifestDraft,
}

impl<R: RemovalRule> View for ExistingManifestsWrite<R> {
    type V = (ExistingWalk<R>, ManifestDraftView);

    closed spec fn view(&self) -> (ExistingWalk<R>, ManifestDraftView) {
        (self.step@, self.draft@)
    }
}

/// The manifests that list files of the snapshot, in their order.
fn copy_live_manifests(manifests: &Vec<ManifestFile>) -> (result: Vec<ManifestFile>)
    ensures
        manifests_view(result@) == carried_unread(manifests_view(manifests@)),
{
    let ghost all = manifests_view(manifests@);
    let mut result: Vec<ManifestFile> = Vec::new();
    reveal(Seq::filter);
    assert(manifests_view(result@) =~= carried_unread(all.take(0)));
    for i in 0..manifests.len()
        invariant
            all == manifests_view(manifests@),
            manifests_view(result@) == carried_unread(all.take(i as int)),
    {
        reveal(Seq::filter);
        assert(all.take(i + 1).drop_last() =~= all.take(i as int));
        if manifests[i].has_live_files() {
            let copy = manifests[i].clone();
            let ghost so_far = result@;
            result.push(copy);
            assert(manifests_view(result@) =~= manifests_view(so_far).push(copy@));
        }
    }
    assert(all.take(all.len() as int) =~= all);
    result
}

impl<R: RemovalRule> ExistingManifestsStart<R> {
    /// A walk by the given rule.
    pub fn new(rule: R) -> (result: Self)
        ensures
            result@ == rule,
    {
        Self { rule }
    }

    /// Takes the manifest list of the current snapshot.
    pub fn list_loaded(self, manifests: Vec<ManifestFile>) -> (result: ExistingManifests<R>)
        ensures
            result@ == existing_list_loaded(self@, manifests_view(manifests@)),
    {
        if !self.rule.needs_manifests() {
            return ExistingManifests::Done(copy_live_manifests(&manifests));
        }
        let existing: Vec<ManifestFile> = Vec::new();
        assert(manifests_view(existing@) =~= Seq::empty());
        if manifests.len() > 0 {
            ExistingManifests::LoadManifest(
                ExistingManifestsStep { rule: self.rule, manifests, next: 0, existing },
            )
        } else {
            ExistingManifests::Done(existing)
        }
    }
}

impl<R: RemovalRule> ExistingManifestsStep<R> {
    #[verifier::type_invariant]
    spec fn has_next(self) -> bool {
        self.next < self.manifests@.len()
    }

    /// The manifest that is needed.
    pub fn manifest(&self) -> (result: &ManifestFile)
        ensures
            0 <= self@.next < self@.manifests.len(),
            result@ == self@.manifests[self@.next],
    {
        proof {
            use_type_invariant(self);
        }
        &self.manifests[self.next]
    }

    /// Goes on to the next manifest, carrying over the given one for this one.
    fn carry(self, carried: Option<ManifestFile>) -> (result: ExistingManifests<R>)
        ensures
            result@ == self@.carry(
                match carried {
                    Some(carried) => seq![carried@],
                    None => Seq::empty(),
                },
            ).proceed(),
    {
        proof {
            use_type_invariant(&self);
        }
        let ghost before = self@.existing;
        let ExistingManifestsStep { rule, manifests, next, existing } = self;
        let mut existing = existing;
        assert(next < manifests.len());
        match carried {
            Some(carried) => {
                existing.push(carried);
                assert(manifests_view(existing@) =~= before + seq![carried@]);
            },
            None => {
                assert(manifests_view(existing@) =~= before + Seq::empty());
            },
        }
        if next + 1 < manifests.len() {
            ExistingManifests::LoadManifest(
                ExistingManifestsStep { rule, manifests, next: next + 1, existing },
            )
        } else {
            ExistingManifests::Done(existing)
        }
    }

    /// Takes the entries of the manifest that was needed.
    pub fn manifest_loaded(self, entries: &Vec<ManifestEntry>) -> (result: ExistingManifests<R>)
        ensures
            result@ == self@.manifest_loaded(entries_view(entries@)),
    {
        proof {
            use_type_invariant(&self);
        }
        let manifest = self.manifests[self.next].clone();
        match self.rule.manifest_fate(&manifest, entries) {
            ManifestFate::Keep => self.carry(Some(manifest)),
            ManifestFate::Rewrite(draft) => ExistingManifests::WriteManifest(
                ExistingManifestsWrite { step: self, draft },
            ),
            ManifestFate::Drop => self.carry(None),
        }
    }
}

impl<R: RemovalRule> ExistingManifestsWrite<R> {
    /// The manifest that is to be written.
    pub fn draft(&self) -> (result: &ManifestDraft)
        ensures
            result@ == self@.1,
    {
        &self.draft
    }

    /// Takes the manifest that was written.
    pub fn manifest_written(self, written: ManifestFile) -> (result: ExistingManifests<R>)
        ensures
            result@ == self@.0.manifest_written(written@),
    {
        self.step.carry(Some(written))
    }
}

/// What storage answers in the course of a walk.
#[verifier::ext_equal]
pub struct StorageAnswers {
    /// The manifest list of the current snapshot.
    pub manifests: Seq<ManifestFileView>,
    /// The entries of each of these manifests.
    pub contents: Seq<Seq<ManifestEntryView>>,
    /// For each of these manifests, the manifest that is written in its place if
    /// it is rewritten.
    pub written: Seq<ManifestFileView>,
}

impl StorageAnswers {
    /// There is an answer for each manifest of the list.
    pub open spec fn complete(self) -> bool {
        &&& self.contents.len() == self.manifests.len()
        &&& self.written.len() == self.manifests.len()
    }
}

/// What a [`DeleteEntries`] walk ends with when each of its needs is met by the
/// answers of storage.
pub open spec fn run_delete_entries<R: RemovalRule>(
    state: DeleteEntriesView<R>,
    storage: StorageAnswers,
) -> Seq<ManifestEntryView>
    decreases
            match state {
                DeleteEntriesView::LoadManifestList(_) => storage.manifests.len() + 1int,
                DeleteEntriesView::LoadManifest(walk) => walk.manifests.len() - walk.next,
                DeleteEntriesView::Done(_) => 0int,
            },
{
    match state {
        DeleteEntriesView::LoadManifestList(rule) => run_delete_entries(
            delete_list_loaded(rule, storage.manifests).proceed(),
            storage,
        ),
        DeleteEntriesView::LoadManifest(walk) => if walk.next < walk.manifests.len() {
            run_delete_entries(walk.manifest_loaded(storage.contents[walk.next]).proceed(), storage)
        } else {
            walk.entries
        },
        DeleteEntriesView::Done(entries) => entries,
    }
}

/// What an [`ExistingManifests`] walk ends with when each of its needs is met by
/// the answers of storage.
pub open spec fn run_existing_manifests<R: RemovalRule>(
    state: ExistingManifestsView<R>,
    storage: StorageAnswers,
) -> Seq<ManifestFileView>
    decreases
            match state {
                ExistingManifestsView::LoadManifestList(_) => storage.manifests.len() + 1int,
                ExistingManifestsView::LoadManifest(walk) => walk.manifests.len() - walk.next,
                ExistingManifestsView::WriteManifest(walk, _) => walk.manifests.len() - walk.next,
                ExistingManifestsView::Done(_) => 0int,
            },
            match state {
                ExistingManifestsView::LoadManifest(_) => 1int,
                _ => 0int,
            },
{
    match state {
        ExistingManifestsView::LoadManifestList(rule) => run_existing_manifests(
            existing_list_loaded(rule, storage.manifests),
            storage,
        ),
        ExistingManifestsView::LoadManifest(walk) => if walk.next < walk.manifests.len() {
            run_existing_manifests(walk.manifest_loaded(storage.contents[walk.next]), storage)
        } else {
            walk.existing
        },
        ExistingManifestsView::WriteManifest(walk, _) => if walk.next < walk.manifests.len() {
            run_existing_manifests(walk.manifest_written(storage.written[walk.next]), storage)
        } else {
            walk.existing
        },
        ExistingManifestsView::Done(existing) => existing,
    }
}

proof fn lemma_run_delete_entries<R: RemovalRule>(walk: DeleteWalk<R>, storage: StorageAnswers)
    requires
        storage.complete(),
        walk.manifests == storage.manifests,
        0 <= walk.next <= walk.manifests.len(),
        walk.entries == deleted_in_all(walk.rule, storage.contents.take(walk.next)),
    ensures
        run_delete_entries(walk.proceed(), storage) == deleted_in_all(walk.rule, storage.contents),
    decreases walk.manifests.len() - walk.next,
{
    if walk.next < walk.manifests.len() {
        let longer = storage.contents.take(walk.next + 1);
        assert(longer.drop_last() =~= storage.contents.take(walk.next));
        lemma_run_delete_entries(walk.manifest_loaded(storage.contents[walk.next]), storage);
    } else {
        assert(storage.contents.take(walk.next) =~= storage.contents);
    }
}

/// A walk for the deleted entries reads every manifest of the list once and in
/// order, and ends with a deleted copy of each entry that its rule deletes, in
/// the order of the manifests and of the entries in them.
pub proof fn law_delete_entries_walk<R: RemovalRule>(rule: R, storage: StorageAnswers)
    requires
        storage.complete(),
    ensures
        run_delete_entries(DeleteEntriesView::LoadManifestList(rule), storage) == deleted_in_all(
            rule,
            storage.contents,
        ),
{
    assert(storage.contents.take(0) =~= Seq::empty());
    lemma_run_delete_entries(delete_list_loaded(rule, storage.manifests), storage);
}

proof fn lemma_run_existing_manifests<R: RemovalRule>(
    walk: ExistingWalk<R>,
    storage: StorageAnswers,
)
    requires
        storage.complete(),
        walk.manifests == storage.manifests,
        0 <= walk.next <= walk.manifests.len(),
        walk.existing == carried_from_all(
            walk.rule,
            storage.manifests.take(walk.next),
            storage.contents.take(walk.next),
            storage.written.take(walk.next),
        ),
    ensures
        run_existing_manifests(walk.proceed(), storage) == carried_from_all(
            walk.rule,
            storage.manifests,
            storage.contents,
            storage.written,
        ),
    decreases walk.manifests.len() - walk.next,
{
    reveal_with_fuel(run_existing_manifests, 3);
    let next = walk.next;
    if next < walk.manifests.len() {
        assert(storage.manifests.take(next + 1).drop_last() =~= storage.manifests.take(next));
        assert(storage.contents.take(next + 1).drop_last() =~= storage.contents.take(next));
        assert(storage.written.take(next + 1).drop_last() =~= storage.written.take(next));
        let carried = carried_from(
            walk.rule.fate(storage.manifests[next], storage.contents[next]),
            storage.manifests[next],
            storage.written[next],
        );
        lemma_run_existing_manifests(walk.carry(carried), storage);
    } else {
        assert(storage.manifests.take(next) =~= storage.manifests);
        assert(storage.contents.take(next) =~= storage.contents);
        assert(storage.written.take(next) =~= storage.written);
    }
}

/// A walk for the manifests that are carried over ends, in the order of the
/// manifest list, with every manifest that its rule keeps and with the
/// replacement of every one that its rule rewrites.  If its rule does without
/// reading, it ends with the manifests that list files of the snapshot.
pub proof fn law_existing_manifests_walk<R: RemovalRule>(rule: R, storage: StorageAnswers)
    requires
        storage.complete(),
    ensures
        run_existing_manifests(ExistingManifestsView::LoadManifestList(rule), storage)
            == if rule.reads_manifests() {
            carried_from_all(rule, storage.manifests, storage.contents, storage.written)
        } else {
            carried_unread(storage.manifests)
        },
{
    reveal_with_fuel(run_existing_manifests, 2);
    if rule.reads_manifests() {
        let walk = ExistingWalk {
            rule,
            manifests: storage.manifests,
            next: 0,
            existing: Seq::empty(),
        };
        lemma_run_existing_manifests(walk, storage);
    }
}

/// The entries as entries of files that were there before.
pub open spec fn as_existing(entries: Seq<ManifestEntryView>) -> Seq<ManifestEntryView> {
    entries.map_values(|entry: ManifestEntryView| entry.with_status(ManifestStatus::Existing))
}

/// The entries of live files.
pub open spec fn live_entries(entries: Seq<ManifestEntryView>) -> Seq<ManifestEntryView> {
    entries.filter(|entry: ManifestEntryView| entry.alive())
}

/// The entries of live files of several manifests, in their order.  `lists` gives the
/// entries of a manifest.
pub open spec fn live_entries_of(
    lists: spec_fn(ManifestFileView) -> Seq<ManifestEntryView>,
    manifests: Seq<ManifestFileView>,
) -> Seq<ManifestEntryView>
    decreases manifests.len(),
{
    if manifests.len() == 0 {
        Seq::empty()
    } else {
        live_entries_of(lists, manifests.drop_last()) + live_entries(lists(manifests.last()))
    }
}

impl StorageAnswers {
    /// The answers are those of a storage whose manifests have the entries that
    /// `lists` gives, and that writes what it is asked to write.
    pub open spec fn faithful<R: RemovalRule>(
        self,
        rule: R,
        lists: spec_fn(ManifestFileView) -> Seq<ManifestEntryView>,
    ) -> bool {
        &&& self.complete()
        &&& forall|i: int|
            0 <= i < self.manifests.len() ==> {
                &&& lists(#[trigger] self.manifests[i]) == self.contents[i]
                &&& rule.fate(
                    self.manifests[i],
                    self.contents[i],
                ) matches ManifestFateView::Rewrite(draft) ==> lists(self.written[i])
                    == draft.entries
            }
    }
}

/// The entries of live files that a manifest adds to the new snapshot, given what
/// becomes of the manifest.
pub open spec fn live_entries_after(
    fate: ManifestFateView,
    entries: Seq<ManifestEntryView>,
) -> Seq<ManifestEntryView> {
    match fate {
        ManifestFateView::Keep => live_entries(entries),
        ManifestFateView::Rewrite(draft) => live_entries(draft.entries),
        ManifestFateView::Drop => Seq::empty(),
    }
}

/// The entries of live files of a manifest that the rule does not delete.
pub open spec fn live_entries_left<R: RemovalRule>(
    rule: R,
    entries: Seq<ManifestEntryView>,
) -> Seq<ManifestEntryView> {
    entries.filter(|entry: ManifestEntryView| entry.alive() && !rule.deletes(entry))
}

/// What becomes of a manifest agrees with what its entries are recorded as: the new
/// snapshot has exactly the live files of the manifest that are not recorded as
/// deleted, each with its snapshot id and its sequence numbers, in their order.
pub open spec fn fate_agrees<R: RemovalRule>(
    rule: R,
    manifest: ManifestFileView,
    entries: Seq<ManifestEntryView>,
) -> bool {
    as_existing(live_entries_after(rule.fate(manifest, entries), entries)) == as_existing(
        live_entries_left(rule, entries),
    )
}

/// [`live_entries_after`] of several manifests, in their order.
pub open spec fn all_live_entries_after<R: RemovalRule>(
    rule: R,
    manifests: Seq<ManifestFileView>,
    contents: Seq<Seq<ManifestEntryView>>,
) -> Seq<ManifestEntryView>
    decreases contents.len(),
{
    if contents.len() == 0 {
        Seq::empty()
    } else {
        all_live_entries_after(rule, manifests.drop_last(), contents.drop_last())
            + live_entries_after(rule.fate(manifests.last(), contents.last()), contents.last())
    }
}

/// [`live_entries_left`] of several manifests, in their order.
pub open spec fn all_live_entries_left<R: RemovalRule>(
    rule: R,
    contents: Seq<Seq<ManifestEntryView>>,
) -> Seq<ManifestEntryView>
    decreases contents.len(),
{
    if contents.len() == 0 {
        Seq::empty()
    } else {
        all_live_entries_left(rule, contents.drop_last()) + live_entries_left(
            rule,
            contents.last(),
        )
    }
}

/// Where the fate of each manifest agrees with its entries, the new snapshot as a
/// whole has exactly the live files of the one before that are not recorded as
/// deleted.
proof fn lemma_all_fates_agree<R: RemovalRule>(
    rule: R,
    manifests: Seq<ManifestFileView>,
    contents: Seq<Seq<ManifestEntryView>>,
)
    requires
        manifests.len() == contents.len(),
        forall|i: int|
            0 <= i < contents.len() ==> fate_agrees(rule, manifests[i], #[trigger] contents[i]),
    ensures
        as_existing(all_live_entries_after(rule, manifests, contents)) == as_existing(
            all_live_entries_left(rule, contents),
        ),
    decreases contents.len(),
{
    if contents.len() > 0 {
        let manifests_before = manifests.drop_last();
        let contents_before = contents.drop_last();
        assert forall|i: int| 0 <= i < contents_before.len() implies fate_agrees(
            rule,
            manifests_before[i],
            #[trigger] contents_before[i],
        ) by {
            assert(contents[i] == contents_before[i]);
        }
        lemma_all_fates_agree(rule, manifests_before, contents_before);
        assert(fate_agrees(rule, manifests[contents.len() - 1], contents[contents.len() - 1]));
        let after = live_entries_after(
            rule.fate(manifests.last(), contents.last()),
            contents.last(),
        );
        let left = live_entries_left(rule, contents.last());
        let all_after = all_live_entries_after(rule, manifests_before, contents_before);
        let all_left = all_live_entries_left(rule, contents_before);
        assert(as_existing(all_after + after) =~= as_existing(all_after) + as_existing(after));
        assert(as_existing(all_left + left) =~= as_existing(all_left) + as_existing(left));
    }
}

/// The manifests that are carried over list the live files that [`live_entries_after`]
/// gives.
pub(crate) proof fn lemma_live_entries_of_carried<R: RemovalRule>(
    rule: R,
    lists: spec_fn(ManifestFileView) -> Seq<ManifestEntryView>,
    storage: StorageAnswers,
)
    requires
        storage.faithful(rule, lists),
    ensures
        live_entries_of(
            lists,
            carried_from_all(rule, storage.manifests, storage.contents, storage.written),
        ) == all_live_entries_after(rule, storage.manifests, storage.contents),
    decreases storage.manifests.len(),
{
    if storage.manifests.len() > 0 {
        let last = storage.manifests.len() - 1;
        let shorter = StorageAnswers {
            manifests: storage.manifests.drop_last(),
            contents: storage.contents.drop_last(),
            written: storage.written.drop_last(),
        };
        assert forall|i: int| 0 <= i < shorter.manifests.len() implies {
            &&& lists(#[trigger] shorter.manifests[i]) == shorter.contents[i]
            &&& rule.fate(
                shorter.manifests[i],
                shorter.contents[i],
            ) matches ManifestFateView::Rewrite(draft) ==> lists(shorter.written[i])
                == draft.entries
        } by {
            assert(shorter.manifests[i] == storage.manifests[i]);
        }
        lemma_live_entries_of_carried(rule, lists, shorter);
        assert(lists(storage.manifests[last]) == storage.contents[last]);
        let before = carried_from_all(
            rule,
            shorter.manifests,
            shorter.contents,
            shorter.written,
        );
        let fate = rule.fate(storage.manifests[last], storage.contents[last]);
        let carried = carried_from(fate, storage.manifests[last], storage.written[last]);
        if carried.len() > 0 {
            assert((before + carried).drop_last() =~= before);
            assert((before + carried).last() == carried[0]);
        } else {
            assert(before + carried =~= before);
        }
        assert(live_entries_of(lists, before + carried) =~= live_entries_of(lists, before)
            + live_entries_after(fate, storage.contents[last]));
    }
}

/// Where the fate of each manifest agrees with its entries, the manifests that are
/// carried over list exactly the live files that are not recorded as deleted.
pub(crate) proof fn lemma_carried_manifests_list_the_rest<R: RemovalRule>(
    rule: R,
    lists: spec_fn(ManifestFileView) -> Seq<ManifestEntryView>,
    storage: StorageAnswers,
)
    requires
        storage.faithful(rule, lists),
        forall|i: int|
            0 <= i < storage.contents.len() ==> fate_agrees(
                rule,
                storage.manifests[i],
                #[trigger] storage.contents[i],
            ),
    ensures
        as_existing(
            live_entries_of(
                lists,
                carried_from_all(rule, storage.manifests, storage.contents, storage.written),
            ),
        ) == as_existing(all_live_entries_left(rule, storage.contents)),
{
    lemma_live_entries_of_carried(rule, lists, storage);
    lemma_all_fates_agree(rule, storage.manifests, storage.contents);
}

/// An entry that is recorded as deleted is one of the manifest, with its file, its
/// snapshot id and its sequence numbers as the manifest has them.
pub proof fn law_deleted_entries_keep_numbers<R: RemovalRule>(
    rule: R,
    entries: Seq<ManifestEntryView>,
    at: int,
)
    requires
        0 <= at < deleted_in(rule, entries).len(),
    ensures
        exists|i: int|
            0 <= i < entries.len() && rule.deletes(#[trigger] entries[i]) && deleted_in(
                rule,
                entries,
            )[at] == entries[i].with_status(ManifestStatus::Deleted),
{
    let source = lemma_filter_source(
        entries,
        |entry: ManifestEntryView| rule.deletes(entry),
        at,
    );
    assert(rule.deletes(entries[source]));
}

proof fn lemma_only_deleted_are_recorded<R: RemovalRule>(
    rule: R,
    entries: Seq<ManifestEntryView>,
    entry: ManifestEntryView,
)
    requires
        entry.alive(),
        deleted_in(rule, entries).contains(entry.with_status(ManifestStatus::Deleted)),
    ensures
        rule.deletes(entry),
{
    let deleted = deleted_in(rule, entries);
    let i = choose|i: int|
        0 <= i < deleted.len() && deleted[i] == entry.with_status(ManifestStatus::Deleted);
    let source = lemma_filter_source(
        entries,
        |entry: ManifestEntryView| rule.deletes(entry),
        i,
    );
    rule.deletes_whatever_the_status(entries[source], entry);
}

proof fn lemma_only_left_are_left<R: RemovalRule>(
    rule: R,
    entries: Seq<ManifestEntryView>,
    entry: ManifestEntryView,
)
    requires
        entry.alive(),
        as_existing(live_entries_left(rule, entries)).contains(
            entry.with_status(ManifestStatus::Existing),
        ),
    ensures
        !rule.deletes(entry),
{
    let left = as_existing(live_entries_left(rule, entries));
    let i = choose|i: int|
        0 <= i < left.len() && left[i] == entry.with_status(ManifestStatus::Existing);
    let source = lemma_filter_source(
        entries,
        |entry: ManifestEntryView| entry.alive() && !rule.deletes(entry),
        i,
    );
    if rule.deletes(entry) {
        let existing = entry.with_status(ManifestStatus::Existing);
        assert(existing == entries[source].with_status(ManifestStatus::Existing));
        assert(existing.with_status(ManifestStatus::Deleted) == entry.with_status(
            ManifestStatus::Deleted,
        ));
        assert(existing.with_status(ManifestStatus::Deleted) == entries[source].with_status(
            ManifestStatus::Deleted,
        ));
        rule.deletes_whatever_the_status(entry, entries[source]);
    }
}

/// A live file of a manifest is recorded as deleted exactly if the rule deletes it, and
/// else it is among those that are left, never both.
pub proof fn law_live_files_are_left_or_deleted<R: RemovalRule>(
    rule: R,
    entries: Seq<ManifestEntryView>,
    at: int,
)
    requires
        0 <= at < entries.len(),
        entries[at].alive(),
    ensures
        deleted_in(rule, entries).contains(entries[at].with_status(ManifestStatus::Deleted))
            <==> rule.deletes(entries[at]),
        live_entries_left(rule, entries).contains(entries[at]) <==> !rule.deletes(entries[at]),
        as_existing(live_entries_left(rule, entries)).contains(
            entries[at].with_status(ManifestStatus::Existing),
        ) <==> !rule.deletes(entries[at]),
{
    broadcast use vstd::seq_lib::group_filter_ensures;

    if deleted_in(rule, entries).contains(entries[at].with_status(ManifestStatus::Deleted)) {
        lemma_only_deleted_are_recorded(rule, entries, entries[at]);
    }
    if as_existing(live_entries_left(rule, entries)).contains(
        entries[at].with_status(ManifestStatus::Existing),
    ) {
        lemma_only_left_are_left(rule, entries, entries[at]);
    }
    let deleting = |entry: ManifestEntryView| rule.deletes(entry);
    let leaving = |entry: ManifestEntryView| entry.alive() && !rule.deletes(entry);
    if rule.deletes(entries[at]) {
        assert(deleting(entries[at]));
        let deleted = entries.filter(deleting);
        assert(deleted.contains(entries[at]));
        let i = choose|i: int| 0 <= i < deleted.len() && deleted[i] == entries[at];
        assert(deleted_in(rule, entries)[i] == entries[at].with_status(ManifestStatus::Deleted));
    } else {
        assert(leaving(entries[at]));
        let left = entries.filter(leaving);
        assert(left.contains(entries[at]));
        let i = choose|i: int| 0 <= i < left.len() && left[i] == entries[at];
        assert(as_existing(left)[i] == entries[at].with_status(ManifestStatus::Existing));
    }
}

/// [`law_live_files_are_left_or_deleted`] for several manifests.
pub(crate) proof fn lemma_all_left_or_deleted<R: RemovalRule>(
    rule: R,
    contents: Seq<Seq<ManifestEntryView>>,
    entry: ManifestEntryView,
)
    requires
        entry.alive(),
    ensures
        deleted_in_all(rule, contents).contains(entry.with_status(ManifestStatus::Deleted))
            ==> rule.deletes(entry),
        as_existing(all_live_entries_left(rule, contents)).contains(
            entry.with_status(ManifestStatus::Existing),
        ) ==> !rule.deletes(entry),
        forall|i: int|
            0 <= i < contents.len() && (#[trigger] contents[i]).contains(entry) ==> {
                &&& rule.deletes(entry) ==> deleted_in_all(rule, contents).contains(
                    entry.with_status(ManifestStatus::Deleted),
                )
                &&& !rule.deletes(entry) ==> as_existing(
                    all_live_entries_left(rule, contents),
                ).contains(entry.with_status(ManifestStatus::Existing))
            },
    decreases contents.len(),
{
    if contents.len() > 0 {
        let before = contents.drop_last();
        lemma_all_left_or_deleted(rule, before, entry);
        let recorded = entry.with_status(ManifestStatus::Deleted);
        let kept = entry.with_status(ManifestStatus::Existing);
        let deleted_before = deleted_in_all(rule, before);
        let deleted = deleted_in(rule, contents.last());
        lemma_contains_joined(deleted_before, deleted, recorded);
        let left_before = all_live_entries_left(rule, before);
        let left = live_entries_left(rule, contents.last());
        assert(as_existing(left_before + left) =~= as_existing(left_before) + as_existing(left));
        lemma_contains_joined(as_existing(left_before), as_existing(left), kept);
        if deleted.contains(recorded) {
            lemma_only_deleted_are_recorded(rule, contents.last(), entry);
        }
        if as_existing(left).contains(kept) {
            lemma_only_left_are_left(rule, contents.last(), entry);
        }
        if contents.last().contains(entry) {
            let at = choose|at: int|
                0 <= at < contents.last().len() && contents.last()[at] == entry;
            law_live_files_are_left_or_deleted(rule, contents.last(), at);
        }
        assert forall|i: int|
            0 <= i < contents.len() && (#[trigger] contents[i]).contains(entry) implies {
            &&& rule.deletes(entry) ==> deleted_in_all(rule, contents).contains(recorded)
            &&& !rule.deletes(entry) ==> as_existing(all_live_entries_left(rule, contents)).contains(
                kept,
            )
        } by {
            if i < before.len() {
                assert(before[i] == contents[i]);
            }
        }
    }
}

/// The entry is on exactly one side of the new snapshot: a deleted copy of it is
/// recorded if the rule deletes it, and else, up to its status, it is among the live
/// entries of the manifests that are carried over.
pub open spec fn left_or_deleted<R: RemovalRule>(
    rule: R,
    lists: spec_fn(ManifestFileView) -> Seq<ManifestEntryView>,
    storage: StorageAnswers,
    entry: ManifestEntryView,
) -> bool {
    let recorded = run_delete_entries(DeleteEntriesView::LoadManifestList(rule), storage);
    let carried = live_entries_of(
        lists,
        run_existing_manifests(ExistingManifestsView::LoadManifestList(rule), storage),
    );
    &&& recorded.contains(entry.with_status(ManifestStatus::Deleted)) <==> rule.deletes(entry)
    &&& as_existing(carried).contains(entry.with_status(ManifestStatus::Existing))
        <==> !rule.deletes(entry)
}

/// Where the manifests that are carried over list exactly the live files that the rule
/// does not delete, each live file of the snapshot is on exactly one side: a deleted
/// copy of its entry is recorded, or its entry is carried over.
pub(crate) proof fn lemma_each_file_is_left_or_deleted<R: RemovalRule>(
    rule: R,
    lists: spec_fn(ManifestFileView) -> Seq<ManifestEntryView>,
    storage: StorageAnswers,
    manifest: int,
    at: int,
)
    requires
        storage.complete(),
        as_existing(
            live_entries_of(
                lists,
                run_existing_manifests(ExistingManifestsView::LoadManifestList(rule), storage),
            ),
        ) == as_existing(all_live_entries_left(rule, storage.contents)),
        0 <= manifest < storage.contents.len(),
        0 <= at < storage.contents[manifest].len(),
        storage.contents[manifest][at].alive(),
    ensures
        left_or_deleted(rule, lists, storage, storage.contents[manifest][at]),
{
    let entry = storage.contents[manifest][at];
    assert(storage.contents[manifest].contains(entry));
    lemma_all_left_or_deleted(rule, storage.contents, entry);
    law_delete_entries_walk(rule, storage);
}

} // verus!
