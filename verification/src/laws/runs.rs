//! Whole walks over the manifests of a snapshot, call by call.
use vstd::prelude::*;

use crate::manifest::{
    entries_view, manifests_view, ManifestDraft, ManifestEntry, ManifestEntryView, ManifestFile,
    ManifestFileView,
};
use crate::seqs::lemma_flatten_last;
use crate::walk::{
    carried_from, carried_from_all, carried_unread, deleted_in, deleted_in_all, run_delete_entries,
    DeleteEntries, DeleteEntriesStart, DeleteEntriesStep, DeleteEntriesView, ExistingManifests,
    ExistingManifestsStart, ExistingManifestsStep, ExistingManifestsView, ExistingManifestsWrite,
    ExistingWalk, ManifestFateView, RemovalRule, StorageAnswers,
};

verus! {

/// A [`DeleteEntries`] walk from beginning to end.
pub struct DeleteRun<R: RemovalRule> {
    /// The manifest list of the current snapshot.
    pub list: Vec<ManifestFile>,
    /// The walk, call by call.
    pub states: Seq<DeleteEntries<R>>,
    /// The manifest that each state needs, where it needs one.
    pub asked: Seq<ManifestFile>,
    /// The entries that were handed to each state, where it needs some.
    pub answered: Seq<Vec<ManifestEntry>>,
}

impl<R: RemovalRule> DeleteRun<R> {
    /// The state after the given one comes of handing the walk what it needs.  `lists`
    /// gives the entries of a manifest.
    pub open spec fn goes_on(
        self,
        lists: spec_fn(ManifestFileView) -> Seq<ManifestEntryView>,
        at: int,
    ) -> bool {
        match self.states[at] {
            DeleteEntries::LoadManifestList(start) => call_ensures(
                DeleteEntriesStart::<R>::list_loaded,
                (start, self.list),
                self.states[at + 1],
            ),
            DeleteEntries::LoadManifest(step) => {
                &&& call_ensures(DeleteEntriesStep::<R>::manifest, (&step,), &self.asked[at])
                &&& entries_view(self.answered[at]@) == lists(self.asked[at]@)
                &&& call_ensures(
                    DeleteEntriesStep::<R>::manifest_loaded,
                    (step, &self.answered[at]),
                    self.states[at + 1],
                )
            },
            DeleteEntries::Done(_) => false,
        }
    }

    /// The walk begins with `start` and ends with the given entries.
    pub open spec fn leads(
        self,
        lists: spec_fn(ManifestFileView) -> Seq<ManifestEntryView>,
        start: DeleteEntries<R>,
        recorded: Vec<ManifestEntry>,
    ) -> bool {
        &&& self.states.len() > 0
        &&& self.states[0] == start
        &&& forall|at: int| 0 <= at < self.states.len() - 1 ==> #[trigger] self.goes_on(lists, at)
        &&& self.states.last() == DeleteEntries::<R>::Done(recorded)
    }

    /// The entries of each manifest of the list.
    pub open spec fn contents(
        self,
        lists: spec_fn(ManifestFileView) -> Seq<ManifestEntryView>,
    ) -> Seq<Seq<ManifestEntryView>> {
        self.list@.map_values(|manifest: ManifestFile| lists(manifest@))
    }
}

/// An [`ExistingManifests`] walk from beginning to end.
pub struct ExistingRun<R: RemovalRule> {
    /// The manifest list of the current snapshot.
    pub list: Vec<ManifestFile>,
    /// The walk, call by call.
    pub states: Seq<ExistingManifests<R>>,
    /// The manifest that each state needs, where it needs one.
    pub asked: Seq<ManifestFile>,
    /// The entries that were handed to each state, where it needs some.
    pub answered: Seq<Vec<ManifestEntry>>,
    /// What each state wants written, where it wants something written.
    pub drafts: Seq<ManifestDraft>,
    /// The manifest that was then written.
    pub written: Seq<ManifestFile>,
}

impl<R: RemovalRule> ExistingRun<R> {
    /// The state after the given one comes of handing the walk what it needs.  `lists`
    /// gives the entries of a manifest; a manifest that was written has those of its
    /// draft.
    pub open spec fn goes_on(
        self,
        lists: spec_fn(ManifestFileView) -> Seq<ManifestEntryView>,
        at: int,
    ) -> bool {
        match self.states[at] {
            ExistingManifests::LoadManifestList(start) => call_ensures(
                ExistingManifestsStart::<R>::list_loaded,
                (start, self.list),
                self.states[at + 1],
            ),
            ExistingManifests::LoadManifest(step) => {
                &&& call_ensures(ExistingManifestsStep::<R>::manifest, (&step,), &self.asked[at])
                &&& entries_view(self.answered[at]@) == lists(self.asked[at]@)
                &&& call_ensures(
                    ExistingManifestsStep::<R>::manifest_loaded,
                    (step, &self.answered[at]),
                    self.states[at + 1],
                )
            },
            ExistingManifests::WriteManifest(write) => {
                &&& call_ensures(ExistingManifestsWrite::<R>::draft, (&write,), &self.drafts[at])
                &&& self.written[at].content == self.drafts[at].content
                &&& self.written[at].partition_spec_id == self.drafts[at].partition_spec_id
                &&& entries_view(self.drafts[at].entries@) == lists(self.written[at]@)
                &&& call_ensures(
                    ExistingManifestsWrite::<R>::manifest_written,
                    (write, self.written[at]),
                    self.states[at + 1],
                )
            },
            ExistingManifests::Done(_) => false,
        }
    }

    /// The walk begins with `start` and ends with the given manifests.
    pub open spec fn leads(
        self,
        lists: spec_fn(ManifestFileView) -> Seq<ManifestEntryView>,
        start: ExistingManifests<R>,
        carried: Vec<ManifestFile>,
    ) -> bool {
        &&& self.states.len() > 0
        &&& self.states[0] == start
        &&& forall|at: int| 0 <= at < self.states.len() - 1 ==> #[trigger] self.goes_on(lists, at)
        &&& self.states.last() == ExistingManifests::<R>::Done(carried)
    }

    /// The entries of each manifest of the list.
    pub open spec fn contents(
        self,
        lists: spec_fn(ManifestFileView) -> Seq<ManifestEntryView>,
    ) -> Seq<Seq<ManifestEntryView>> {
        self.list@.map_values(|manifest: ManifestFile| lists(manifest@))
    }
}

proof fn lemma_delete_run_so_far<R: RemovalRule>(
    run: DeleteRun<R>,
    lists: spec_fn(ManifestFileView) -> Seq<ManifestEntryView>,
    rule: R,
    storage: StorageAnswers,
    at: int,
)
    requires
        0 <= at < run.states.len(),
        run.states[0]@ == DeleteEntriesView::LoadManifestList(rule),
        forall|i: int| 0 <= i < run.states.len() - 1 ==> #[trigger] run.goes_on(lists, i),
        storage.manifests == manifests_view(run.list@),
        storage.contents == run.contents(lists),
    ensures
        run_delete_entries(run.states[at]@, storage) == run_delete_entries(
            DeleteEntriesView::LoadManifestList(rule),
            storage,
        ),
        run.states[at]@ matches DeleteEntriesView::LoadManifest(walk) ==> walk.manifests
            == storage.manifests,
    decreases at,
{
    if at > 0 {
        lemma_delete_run_so_far(run, lists, rule, storage, at - 1);
        assert(run.goes_on(lists, at - 1));
        assert(run.states[at - 1 + 1] == run.states[at]);
    }
}

/// A walk for the deleted entries ends with what its rule deletes of each manifest.
pub(crate) proof fn lemma_delete_run<R: RemovalRule>(
    run: DeleteRun<R>,
    lists: spec_fn(ManifestFileView) -> Seq<ManifestEntryView>,
    start: DeleteEntries<R>,
    rule: R,
    recorded: Vec<ManifestEntry>,
)
    requires
        run.leads(lists, start, recorded),
        start@ == DeleteEntriesView::LoadManifestList(rule),
    ensures
        entries_view(recorded@) == run.contents(lists).map_values(
            |entries: Seq<ManifestEntryView>| deleted_in(rule, entries),
        ).flatten(),
{
    let storage = StorageAnswers {
        manifests: manifests_view(run.list@),
        contents: run.contents(lists),
        written: manifests_view(run.list@),
    };
    lemma_delete_run_so_far(run, lists, rule, storage, run.states.len() - 1);
    crate::walk::law_delete_entries_walk(rule, storage);
    lemma_deleted_in_all_is_flat(rule, storage.contents);
}

proof fn lemma_deleted_in_all_is_flat<R: RemovalRule>(
    rule: R,
    contents: Seq<Seq<ManifestEntryView>>,
)
    ensures
        deleted_in_all(rule, contents) == contents.map_values(
            |entries: Seq<ManifestEntryView>| deleted_in(rule, entries),
        ).flatten(),
    decreases contents.len(),
{
    let part = |entries: Seq<ManifestEntryView>| deleted_in(rule, entries);
    if contents.len() > 0 {
        lemma_deleted_in_all_is_flat(rule, contents.drop_last());
        lemma_flatten_last(contents.map_values(part));
        assert(contents.map_values(part).drop_last() =~= contents.drop_last().map_values(part));
    }
}

/// What is known of the manifests that were written so far.
spec fn written_as_asked<R: RemovalRule>(
    rule: R,
    lists: spec_fn(ManifestFileView) -> Seq<ManifestEntryView>,
    storage: StorageAnswers,
    written: Seq<ManifestFileView>,
) -> bool {
    forall|i: int|
        0 <= i < written.len() ==> {
            rule.fate(
                storage.manifests[i],
                storage.contents[i],
            ) matches ManifestFateView::Rewrite(draft) ==> {
                &&& lists(#[trigger] written[i]) == draft.entries
                &&& written[i].content == draft.content
                &&& written[i].partition_spec_id == draft.partition_spec_id
            }
        }
}

spec fn carried_so_far<R: RemovalRule>(
    rule: R,
    lists: spec_fn(ManifestFileView) -> Seq<ManifestEntryView>,
    storage: StorageAnswers,
    walk: ExistingWalk<R>,
    written: Seq<ManifestFileView>,
) -> bool {
    &&& walk.rule == rule
    &&& walk.manifests == storage.manifests
    &&& 0 <= walk.next < walk.manifests.len()
    &&& written.len() == walk.next
    &&& written_as_asked(rule, lists, storage, written)
    &&& walk.existing == carried_from_all(
        rule,
        storage.manifests.take(walk.next),
        storage.contents.take(walk.next),
        written,
    )
}

spec fn existing_state_is_right<R: RemovalRule>(
    rule: R,
    lists: spec_fn(ManifestFileView) -> Seq<ManifestEntryView>,
    storage: StorageAnswers,
    state: ExistingManifestsView<R>,
    written: Seq<ManifestFileView>,
) -> bool {
    match state {
        ExistingManifestsView::LoadManifestList(start) => start == rule && written.len() == 0,
        ExistingManifestsView::LoadManifest(walk) => rule.reads_manifests() && carried_so_far(
            rule,
            lists,
            storage,
            walk,
            written,
        ),
        ExistingManifestsView::WriteManifest(walk, draft) => {
            &&& rule.reads_manifests()
            &&& carried_so_far(rule, lists, storage, walk, written)
            &&& rule.fate(storage.manifests[walk.next], storage.contents[walk.next])
                == ManifestFateView::Rewrite(draft)
        },
        ExistingManifestsView::Done(existing) => if rule.reads_manifests() {
            &&& written.len() == storage.manifests.len()
            &&& written_as_asked(rule, lists, storage, written)
            &&& existing == carried_from_all(rule, storage.manifests, storage.contents, written)
        } else {
            existing == carried_unread(storage.manifests)
        },
    }
}

proof fn lemma_carry_on<R: RemovalRule>(
    rule: R,
    lists: spec_fn(ManifestFileView) -> Seq<ManifestEntryView>,
    storage: StorageAnswers,
    walk: ExistingWalk<R>,
    written: Seq<ManifestFileView>,
    next: ManifestFileView,
)
    requires
        rule.reads_manifests(),
        storage.manifests.len() == storage.contents.len(),
        carried_so_far(rule, lists, storage, walk, written),
        rule.fate(
            storage.manifests[walk.next],
            storage.contents[walk.next],
        ) matches ManifestFateView::Rewrite(draft) ==> {
            &&& lists(next) == draft.entries
            &&& next.content == draft.content
            &&& next.partition_spec_id == draft.partition_spec_id
        },
    ensures
        existing_state_is_right(
            rule,
            lists,
            storage,
            walk.carry(
                carried_from(
                    rule.fate(storage.manifests[walk.next], storage.contents[walk.next]),
                    storage.manifests[walk.next],
                    next,
                ),
            ).proceed(),
            written.push(next),
        ),
{
    let count = walk.next;
    let longer = written.push(next);
    assert(storage.manifests.take(count + 1).drop_last() =~= storage.manifests.take(count));
    assert(storage.contents.take(count + 1).drop_last() =~= storage.contents.take(count));
    assert(longer.drop_last() =~= written);
    assert(written_as_asked(rule, lists, storage, longer)) by {
        assert forall|i: int| 0 <= i < longer.len() implies {
            rule.fate(
                storage.manifests[i],
                storage.contents[i],
            ) matches ManifestFateView::Rewrite(draft) ==> {
                &&& lists(#[trigger] longer[i]) == draft.entries
                &&& longer[i].content == draft.content
                &&& longer[i].partition_spec_id == draft.partition_spec_id
            }
        } by {
            if i < written.len() {
                assert(longer[i] == written[i]);
            }
        }
    }
    if count + 1 == storage.manifests.len() {
        assert(storage.manifests.take(count + 1) =~= storage.manifests);
        assert(storage.contents.take(count + 1) =~= storage.contents);
    }
}

proof fn lemma_existing_run_so_far<R: RemovalRule>(
    run: ExistingRun<R>,
    lists: spec_fn(ManifestFileView) -> Seq<ManifestEntryView>,
    rule: R,
    storage: StorageAnswers,
    at: int,
) -> (written: Seq<ManifestFileView>)
    requires
        0 <= at < run.states.len(),
        run.states[0]@ == ExistingManifestsView::LoadManifestList(rule),
        forall|i: int| 0 <= i < run.states.len() - 1 ==> #[trigger] run.goes_on(lists, i),
        storage.manifests == manifests_view(run.list@),
        storage.contents == run.contents(lists),
    ensures
        existing_state_is_right(rule, lists, storage, run.states[at]@, written),
    decreases at,
{
    if at == 0 {
        Seq::empty()
    } else {
        let written = lemma_existing_run_so_far(run, lists, rule, storage, at - 1);
        assert(run.goes_on(lists, at - 1));
        assert(run.states[at - 1 + 1] == run.states[at]);
        match run.states[at - 1] {
            ExistingManifests::LoadManifestList(start) => {
                assert(storage.manifests.take(0) =~= Seq::empty());
                assert(carried_from_all(
                    rule,
                    storage.manifests.take(0),
                    storage.contents.take(0),
                    written,
                ) =~= Seq::empty());
                if storage.manifests.len() == 0 {
                    assert(carried_from_all(
                        rule,
                        storage.manifests,
                        storage.contents,
                        written,
                    ) =~= Seq::empty());
                }
                written
            },
            ExistingManifests::LoadManifest(step) => {
                let walk = step@;
                let manifest = storage.manifests[walk.next];
                let entries = storage.contents[walk.next];
                assert(run.asked[at - 1]@ == manifest);
                assert(entries_view(run.answered[at - 1]@) == entries);
                match rule.fate(manifest, entries) {
                    ManifestFateView::Rewrite(draft) => written,
                    _ => {
                        lemma_carry_on(rule, lists, storage, walk, written, manifest);
                        written.push(manifest)
                    },
                }
            },
            ExistingManifests::WriteManifest(write) => {
                lemma_carry_on(rule, lists, storage, write@.0, written, run.written[at - 1]@);
                written.push(run.written[at - 1]@)
            },
            ExistingManifests::Done(_) => written,
        }
    }
}

/// What is carried over, manifest by manifest.
pub(crate) proof fn lemma_carried_from_all_is_flat<R: RemovalRule>(
    rule: R,
    manifests: Seq<ManifestFileView>,
    contents: Seq<Seq<ManifestEntryView>>,
    written: Seq<ManifestFileView>,
)
    requires
        manifests.len() == contents.len(),
        manifests.len() == written.len(),
    ensures
        carried_from_all(rule, manifests, contents, written) == Seq::new(
            manifests.len(),
            |i: int| carried_from(rule.fate(manifests[i], contents[i]), manifests[i], written[i]),
        ).flatten(),
    decreases manifests.len(),
{
    let parts = Seq::new(
        manifests.len(),
        |i: int| carried_from(rule.fate(manifests[i], contents[i]), manifests[i], written[i]),
    );
    if manifests.len() > 0 {
        let last = manifests.len() - 1;
        lemma_carried_from_all_is_flat(
            rule,
            manifests.drop_last(),
            contents.drop_last(),
            written.drop_last(),
        );
        lemma_flatten_last(parts);
        assert(parts.drop_last() =~= Seq::new(
            manifests.drop_last().len(),
            |i: int|
                carried_from(
                    rule.fate(manifests.drop_last()[i], contents.drop_last()[i]),
                    manifests.drop_last()[i],
                    written.drop_last()[i],
                ),
        ));
    }
}

/// A walk for the manifests that are carried over ends with what becomes of each
/// manifest, where `written` has the manifest that was written in its place.
pub(crate) proof fn lemma_existing_run<R: RemovalRule>(
    run: ExistingRun<R>,
    lists: spec_fn(ManifestFileView) -> Seq<ManifestEntryView>,
    start: ExistingManifests<R>,
    rule: R,
    carried: Vec<ManifestFile>,
) -> (written: Seq<ManifestFileView>)
    requires
        run.leads(lists, start, carried),
        start@ == ExistingManifestsView::LoadManifestList(rule),
    ensures
        !rule.reads_manifests() ==> manifests_view(carried@) == carried_unread(
            manifests_view(run.list@),
        ),
        rule.reads_manifests() ==> {
            &&& written.len() == run.list@.len()
            &&& manifests_view(carried@) == Seq::new(
                run.list@.len(),
                |i: int|
                    carried_from(
                        rule.fate(run.list@[i]@, lists(run.list@[i]@)),
                        run.list@[i]@,
                        written[i],
                    ),
            ).flatten()
            &&& forall|i: int|
                0 <= i < written.len() ==> {
                    rule.fate(
                        run.list@[i]@,
                        lists(run.list@[i]@),
                    ) matches ManifestFateView::Rewrite(draft) ==> {
                        &&& lists(#[trigger] written[i]) == draft.entries
                        &&& written[i].content == draft.content
                        &&& written[i].partition_spec_id == draft.partition_spec_id
                    }
                }
        },
{
    let storage = StorageAnswers {
        manifests: manifests_view(run.list@),
        contents: run.contents(lists),
        written: manifests_view(run.list@),
    };
    let written = lemma_existing_run_so_far(run, lists, rule, storage, run.states.len() - 1);
    if rule.reads_manifests() {
        lemma_carried_from_all_is_flat(rule, storage.manifests, storage.contents, written);
        assert(Seq::new(
            storage.manifests.len(),
            |i: int|
                carried_from(
                    rule.fate(storage.manifests[i], storage.contents[i]),
                    storage.manifests[i],
                    written[i],
                ),
        ) =~= Seq::new(
            run.list@.len(),
            |i: int|
                carried_from(
                    rule.fate(run.list@[i]@, lists(run.list@[i]@)),
                    run.list@[i]@,
                    written[i],
                ),
        ));
        assert forall|i: int| 0 <= i < written.len() implies {
            rule.fate(
                run.list@[i]@,
                lists(run.list@[i]@),
            ) matches ManifestFateView::Rewrite(draft) ==> {
                &&& lists(#[trigger] written[i]) == draft.entries
                &&& written[i].content == draft.content
                &&& written[i].partition_spec_id == draft.partition_spec_id
            }
        } by {
            assert(storage.manifests[i] == run.list@[i]@);
            assert(storage.contents[i] == lists(run.list@[i]@));
        }
    }
    written
}

spec fn delete_state_is_at<R: RemovalRule>(
    run: DeleteRun<R>,
    state: DeleteEntries<R>,
    at: int,
) -> bool {
    match state@ {
        DeleteEntriesView::LoadManifestList(_) => false,
        DeleteEntriesView::LoadManifest(walk) => walk.manifests == manifests_view(run.list@)
            && walk.next == at - 1 && at <= run.list@.len(),
        DeleteEntriesView::Done(_) => at == run.list@.len() + 1,
    }
}

proof fn lemma_delete_state_is_at<R: RemovalRule>(
    run: DeleteRun<R>,
    lists: spec_fn(ManifestFileView) -> Seq<ManifestEntryView>,
    start: DeleteEntriesStart<R>,
    at: int,
)
    requires
        0 < at < run.states.len(),
        run.states[0] == DeleteEntries::LoadManifestList(start),
        forall|i: int| 0 <= i < run.states.len() - 1 ==> #[trigger] run.goes_on(lists, i),
    ensures
        delete_state_is_at(run, run.states[at], at),
    decreases at,
{
    assert(run.goes_on(lists, at - 1));
    assert(run.states[at - 1 + 1] == run.states[at]);
    if at > 1 {
        lemma_delete_state_is_at(run, lists, start, at - 1);
    }
}

/// A walk for the deleted entries comes to an end: it needs the manifest list once, and
/// then each manifest of the list once, in order.
pub proof fn law_delete_walks_end<R: RemovalRule>(
    run: DeleteRun<R>,
    lists: spec_fn(ManifestFileView) -> Seq<ManifestEntryView>,
    start: DeleteEntriesStart<R>,
)
    requires
        run.states.len() > 0,
        run.states[0] == DeleteEntries::LoadManifestList(start),
        forall|at: int| 0 <= at < run.states.len() - 1 ==> #[trigger] run.goes_on(lists, at),
    ensures
        run.states.len() <= run.list@.len() + 2,
        run.states.last() is Done <==> run.states.len() == run.list@.len() + 2,
        forall|at: int|
            1 <= at < run.states.len() - 1 ==> (#[trigger] run.asked[at])@ == run.list@[at - 1]@,
{
    let last = run.states.len() - 1;
    if last > 0 {
        lemma_delete_state_is_at(run, lists, start, last);
    }
    assert forall|at: int| 1 <= at < run.states.len() - 1 implies (#[trigger] run.asked[at])@
        == run.list@[at - 1]@ by {
        assert(run.goes_on(lists, at));
        lemma_delete_state_is_at(run, lists, start, at);
    }
}

spec fn existing_state_is_at<R: RemovalRule>(
    run: ExistingRun<R>,
    state: ExistingManifests<R>,
    at: int,
) -> bool {
    match state@ {
        ExistingManifestsView::LoadManifestList(_) => false,
        ExistingManifestsView::LoadManifest(walk) => walk.manifests == manifests_view(run.list@)
            && 0 <= walk.next < run.list@.len() && at <= 2 * walk.next + 1,
        ExistingManifestsView::WriteManifest(walk, _) => walk.manifests == manifests_view(
            run.list@,
        ) && 0 <= walk.next < run.list@.len() && at <= 2 * walk.next + 2,
        ExistingManifestsView::Done(_) => at <= 2 * run.list@.len() + 1,
    }
}

proof fn lemma_existing_state_is_at<R: RemovalRule>(
    run: ExistingRun<R>,
    lists: spec_fn(ManifestFileView) -> Seq<ManifestEntryView>,
    start: ExistingManifestsStart<R>,
    at: int,
)
    requires
        0 < at < run.states.len(),
        run.states[0] == ExistingManifests::LoadManifestList(start),
        forall|i: int| 0 <= i < run.states.len() - 1 ==> #[trigger] run.goes_on(lists, i),
    ensures
        existing_state_is_at(run, run.states[at], at),
    decreases at,
{
    assert(run.goes_on(lists, at - 1));
    assert(run.states[at - 1 + 1] == run.states[at]);
    if at > 1 {
        lemma_existing_state_is_at(run, lists, start, at - 1);
    }
}

/// A walk for the manifests that are carried over comes to an end: it needs the manifest
/// list once, each manifest of the list at most once, and a manifest to be written at most
/// once for each of them.
pub proof fn law_existing_walks_end<R: RemovalRule>(
    run: ExistingRun<R>,
    lists: spec_fn(ManifestFileView) -> Seq<ManifestEntryView>,
    start: ExistingManifestsStart<R>,
)
    requires
        run.states.len() > 0,
        run.states[0] == ExistingManifests::LoadManifestList(start),
        forall|at: int| 0 <= at < run.states.len() - 1 ==> #[trigger] run.goes_on(lists, at),
    ensures
        run.states.len() <= 2 * run.list@.len() + 2,
        run.states.len() == 2 * run.list@.len() + 2 ==> run.states.last() is Done,
{
    let last = run.states.len() - 1;
    if last > 0 {
        lemma_existing_state_is_at(run, lists, start, last);
    }
}

} // verus!
