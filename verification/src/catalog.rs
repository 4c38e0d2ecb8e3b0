//! The track catalog: a table of tracks keyed by path.
//!
//! The catalog is described here as a sequence of rows in which no two rows
//! share a path. The three statements a store understands, delete-all,
//! insert-or-replace and insert-or-ignore, are given their meaning on that
//! sequence, and the two ways the library updates its index are defined as
//! lists of such statements.

use vstd::prelude::*;
use crate::track::{rows_of, Track, TrackView};

verus! {

/// Whether no two rows share a path.
pub open spec fn distinct_paths(rows: Seq<TrackView>) -> bool {
    forall|i: int, j: int|
        0 <= i < j < rows.len() ==> (#[trigger] rows[i]).path != (#[trigger] rows[j]).path
}

/// Whether some row has the given path.
pub open spec fn has_path(rows: Seq<TrackView>, path: Seq<char>) -> bool {
    exists|i: int| 0 <= i < rows.len() && (#[trigger] rows[i]).path == path
}

/// The rule that overwrites a row with `track` when the two share a path
/// and keeps the row otherwise.
pub open spec fn replaced_by(track: TrackView) -> spec_fn(TrackView) -> TrackView {
    |row: TrackView|
        if row.path == track.path {
            track
        } else {
            row
        }
}

/// The rows after an insert-or-replace of `track`: the row with its path is
/// overwritten where there is one, and `track` is added at the end where
/// there is none.
pub open spec fn upsert(rows: Seq<TrackView>, track: TrackView) -> Seq<TrackView> {
    if has_path(rows, track.path) {
        rows.map_values(replaced_by(track))
    } else {
        rows.push(track)
    }
}

/// The rows after an insert-or-ignore of `track`: unchanged where a row
/// with its path exists, and with `track` added at the end where none does.
pub open spec fn insert_new(rows: Seq<TrackView>, track: TrackView) -> Seq<TrackView> {
    if has_path(rows, track.path) {
        rows
    } else {
        rows.push(track)
    }
}

/// The rows after an insert-or-replace of each of `tracks` in turn.
pub open spec fn upsert_all(rows: Seq<TrackView>, tracks: Seq<TrackView>) -> Seq<TrackView>
    decreases tracks.len(),
{
    if tracks.len() == 0 {
        rows
    } else {
        upsert(upsert_all(rows, tracks.drop_last()), tracks.last())
    }
}

/// The rows after an insert-or-ignore of each of `tracks` in turn.
pub open spec fn insert_all(rows: Seq<TrackView>, tracks: Seq<TrackView>) -> Seq<TrackView>
    decreases tracks.len(),
{
    if tracks.len() == 0 {
        rows
    } else {
        insert_new(insert_all(rows, tracks.drop_last()), tracks.last())
    }
}

/// The rows of a catalog that has been re-indexed from `tracks`: whatever
/// was there before is gone, and each track is stored under its path, a
/// later one overwriting an earlier one with the same path.
pub open spec fn reindexed(tracks: Seq<TrackView>) -> Seq<TrackView> {
    upsert_all(Seq::empty(), tracks)
}

/// One statement sent to the catalog store.
#[derive(Debug, Clone)]
pub enum StoreCommand {
    /// Remove every row.
    DeleteAll,
    /// Store the track, overwriting the row with its path.
    InsertOrReplace(Track),
    /// Store the track unless a row with its path exists.
    InsertOrIgnore(Track),
}

/// The mathematical value of a [`StoreCommand`].
pub enum StoreCommandView {
    DeleteAll,
    InsertOrReplace(TrackView),
    InsertOrIgnore(TrackView),
}

impl View for StoreCommand {
    type V = StoreCommandView;

    open spec fn view(&self) -> StoreCommandView {
        match self {
            StoreCommand::DeleteAll => StoreCommandView::DeleteAll,
            StoreCommand::InsertOrReplace(track) => StoreCommandView::InsertOrReplace(track@),
            StoreCommand::InsertOrIgnore(track) => StoreCommandView::InsertOrIgnore(track@),
        }
    }
}

/// The statements that a list of commands stands for, in the same order.
pub open spec fn commands_of(commands: Seq<StoreCommand>) -> Seq<StoreCommandView> {
    commands.map_values(|c: StoreCommand| c@)
}

/// The rows after the store has carried out one statement.
pub open spec fn after(rows: Seq<TrackView>, command: StoreCommandView) -> Seq<TrackView> {
    match command {
        StoreCommandView::DeleteAll => Seq::empty(),
        StoreCommandView::InsertOrReplace(track) => upsert(rows, track),
        StoreCommandView::InsertOrIgnore(track) => insert_new(rows, track),
    }
}

/// The rows after the store has carried out a list of statements in order.
pub open spec fn after_all(rows: Seq<TrackView>, commands: Seq<StoreCommandView>) -> Seq<
    TrackView,
>
    decreases commands.len(),
{
    if commands.len() == 0 {
        rows
    } else {
        after(after_all(rows, commands.drop_last()), commands.last())
    }
}

/// The statements of a replace-all: one delete-all, then an
/// insert-or-replace for every track.
pub open spec fn replace_all_plan(tracks: Seq<TrackView>) -> Seq<StoreCommandView> {
    seq![StoreCommandView::DeleteAll] + tracks.map_values(
        |t: TrackView| StoreCommandView::InsertOrReplace(t),
    )
}

/// The statements of a merge: an insert-or-ignore for every track.
pub open spec fn merge_plan(tracks: Seq<TrackView>) -> Seq<StoreCommandView> {
    tracks.map_values(|t: TrackView| StoreCommandView::InsertOrIgnore(t))
}

/// Lists the statements that replace the store's contents with `tracks`:
/// every existing row is deleted first, then each track is written.
pub fn replace_all_commands(tracks: &Vec<Track>) -> (commands: Vec<StoreCommand>)
    ensures
        commands_of(commands@) == replace_all_plan(rows_of(tracks@)),
{
    let mut commands: Vec<StoreCommand> = Vec::new();
    commands.push(StoreCommand::DeleteAll);
    let mut n: usize = 0;
    while n < tracks.len()
        invariant
            n <= tracks.len(),
            commands_of(commands@) =~= replace_all_plan(rows_of(tracks@).take(n as int)),
        decreases tracks.len() - n,
    {
        let ghost listed = commands_of(commands@);
        let track = tracks[n].duplicate();
        commands.push(StoreCommand::InsertOrReplace(track));
        assert(commands_of(commands@) =~= listed.push(
            StoreCommandView::InsertOrReplace(rows_of(tracks@)[n as int]),
        ));
        n += 1;
    }
    commands
}

/// Lists the statements that add `tracks` to the store without touching
/// the rows it already has.
pub fn merge_commands(tracks: &Vec<Track>) -> (commands: Vec<StoreCommand>)
    ensures
        commands_of(commands@) == merge_plan(rows_of(tracks@)),
{
    let mut commands: Vec<StoreCommand> = Vec::new();
    let mut n: usize = 0;
    while n < tracks.len()
        invariant
            n <= tracks.len(),
            commands_of(commands@) =~= merge_plan(rows_of(tracks@).take(n as int)),
        decreases tracks.len() - n,
    {
        let ghost listed = commands_of(commands@);
        let track = tracks[n].duplicate();
        commands.push(StoreCommand::InsertOrIgnore(track));
        assert(commands_of(commands@) =~= listed.push(
            StoreCommandView::InsertOrIgnore(rows_of(tracks@)[n as int]),
        ));
        n += 1;
    }
    commands
}

/// An in-memory track catalog.
///
/// No two of its rows ever share a path.
pub struct Catalog {
    rows: Vec<Track>,
}

impl View for Catalog {
    type V = Seq<TrackView>;

    closed spec fn view(&self) -> Seq<TrackView> {
        rows_of(self.rows@)
    }
}

/// The index of the row with the given path, if there is one.
fn find_row(rows: &Vec<Track>, path: &String) -> (found: Option<usize>)
    ensures
        found matches Some(i) ==> i < rows.len() && rows[i as int]@.path == path@,
        found is None ==> !has_path(rows_of(rows@), path@),
{
    let mut n: usize = 0;
    while n < rows.len()
        invariant
            n <= rows.len(),
            forall|i: int| 0 <= i < n ==> (#[trigger] rows_of(rows@)[i]).path != path@,
        decreases rows.len() - n,
    {
        if rows[n].path == *path {
            return Some(n);
        }
        n += 1;
    }
    None
}

impl Catalog {
    #[verifier::type_invariant]
    spec fn rows_are_distinct(self) -> bool {
        distinct_paths(rows_of(self.rows@))
    }

    /// An empty catalog.
    pub fn new() -> (catalog: Catalog)
        ensures
            catalog@ == Seq::<TrackView>::empty(),
    {
        let catalog = Catalog { rows: Vec::new() };
        catalog
    }

    /// The number of rows.
    pub fn len(&self) -> (n: usize)
        ensures
            n == self@.len(),
    {
        self.rows.len()
    }

    /// Whether the catalog has no row.
    pub fn is_empty(&self) -> (empty: bool)
        ensures
            empty == (self@.len() == 0),
    {
        self.rows.len() == 0
    }

    /// Whether a row with the given path exists.
    pub fn contains(&self, path: &str) -> (found: bool)
        ensures
            found == has_path(self@, path@),
    {
        let key = path.to_owned();
        let found = find_row(&self.rows, &key);
        proof {
            if let Some(i) = found {
                assert(rows_of(self.rows@)[i as int] == self.rows[i as int]@);
            }
        }
        found.is_some()
    }

    /// The row with the given path, if there is one.
    pub fn get(&self, path: &str) -> (row: Option<Track>)
        ensures
            row is Some == has_path(self@, path@),
            row matches Some(track) ==> track@.path == path@ && self@.contains(track@),
    {
        let key = path.to_owned();
        match find_row(&self.rows, &key) {
            Some(i) => {
                assert(rows_of(self.rows@)[i as int] == self.rows[i as int]@);
                Some(self.rows[i].duplicate())
            },
            None => None,
        }
    }

    /// Every row, in table order.
    pub fn tracks(&self) -> (all: Vec<Track>)
        ensures
            rows_of(all@) == self@,
            distinct_paths(self@),
    {
        proof {
            use_type_invariant(self);
        }
        let mut all: Vec<Track> = Vec::new();
        let mut n: usize = 0;
        while n < self.rows.len()
            invariant
                n <= self.rows.len(),
                rows_of(all@) =~= rows_of(self.rows@).take(n as int),
            decreases self.rows.len() - n,
        {
            let ghost copied = rows_of(all@);
            let copy = self.rows[n].duplicate();
            all.push(copy);
            assert(rows_of(all@) =~= copied.push(rows_of(self.rows@)[n as int]));
            n += 1;
        }
        all
    }

    /// Removes every row.
    pub fn delete_all(&mut self)
        ensures
            final(self)@ == Seq::<TrackView>::empty(),
            distinct_paths(final(self)@),
    {
        self.rows = Vec::new();
    }

    /// Stores `track` under its path, overwriting the row that already has
    /// that path where there is one.
    pub fn insert_or_replace(&mut self, track: Track)
        ensures
            final(self)@ == upsert(old(self)@, track@),
            distinct_paths(final(self)@),
    {
        proof {
            use_type_invariant(&*self);
        }
        let ghost row = track@;
        let mut rows: Vec<Track> = Vec::new();
        std::mem::swap(&mut rows, &mut self.rows);
        let ghost before = rows_of(rows@);
        match find_row(&rows, &track.path) {
            Some(i) => {
                rows.set(i, track);
                proof {
                    let after = rows_of(rows@);
                    assert forall|k: int| 0 <= k < before.len() implies after[k] == replaced_by(
                        row,
                    )(before[k]) by {
                        if k != i {
                            assert(before[k].path != before[i as int].path);
                        }
                    }
                    assert forall|a: int, b: int| 0 <= a < b < after.len() implies after[a].path
                        != after[b].path by {
                        assert(after[a].path == before[a].path);
                    }
                }
            },
            None => {
                rows.push(track);
                proof {
                    let after = rows_of(rows@);
                    assert(after =~= before.push(row));
                    assert forall|a: int, b: int| 0 <= a < b < after.len() implies after[a].path
                        != after[b].path by {
                        if b < before.len() {
                            assert(after[b] == before[b]);
                        }
                    }
                }
            },
        }
        self.rows = rows;
    }

    /// Stores `track` under its path unless a row with that path exists, in
    /// which case the catalog is left as it is. Says whether it stored it.
    pub fn insert_or_ignore(&mut self, track: Track) -> (inserted: bool)
        ensures
            final(self)@ == insert_new(old(self)@, track@),
            inserted == !has_path(old(self)@, track@.path),
            distinct_paths(final(self)@),
    {
        proof {
            use_type_invariant(&*self);
        }
        let ghost row = track@;
        let mut rows: Vec<Track> = Vec::new();
        std::mem::swap(&mut rows, &mut self.rows);
        let ghost before = rows_of(rows@);
        let inserted = match find_row(&rows, &track.path) {
            Some(i) => {
                assert(before[i as int] == rows[i as int]@);
                false
            },
            None => {
                rows.push(track);
                proof {
                    let after = rows_of(rows@);
                    assert(after =~= before.push(row));
                    assert forall|a: int, b: int| 0 <= a < b < after.len() implies after[a].path
                        != after[b].path by {
                        if b < before.len() {
                            assert(after[b] == before[b]);
                        }
                    }
                }
                true
            },
        };
        self.rows = rows;
        inserted
    }

    /// Carries out one statement.
    pub fn apply(&mut self, command: &StoreCommand)
        ensures
            final(self)@ == after(old(self)@, command@),
            distinct_paths(final(self)@),
    {
        match command {
            StoreCommand::DeleteAll => {
                self.delete_all();
            },
            StoreCommand::InsertOrReplace(track) => {
                self.insert_or_replace(track.duplicate());
            },
            StoreCommand::InsertOrIgnore(track) => {
                self.insert_or_ignore(track.duplicate());
            },
        }
    }

    /// Carries out a list of statements in order.
    pub fn apply_all(&mut self, commands: &Vec<StoreCommand>)
        ensures
            final(self)@ == after_all(old(self)@, commands_of(commands@)),
            distinct_paths(final(self)@),
    {
        let mut n: usize = 0;
        while n < commands.len()
            invariant
                n <= commands.len(),
                self@ == after_all(old(self)@, commands_of(commands@).take(n as int)),
            decreases commands.len() - n,
        {
            assert(commands_of(commands@).take(n + 1).drop_last() =~= commands_of(commands@).take(
                n as int,
            ));
            self.apply(&commands[n]);
            n += 1;
        }
        assert(commands_of(commands@).take(n as int) =~= commands_of(commands@));
        proof {
            use_type_invariant(&*self);
        }
    }

    /// Replaces the whole catalog with `tracks`.
    ///
    /// Whatever the catalog held before is gone afterwards: a track that is
    /// not among `tracks` has no row any more.
    pub fn replace_all(&mut self, tracks: &Vec<Track>)
        ensures
            final(self)@ == reindexed(rows_of(tracks@)),
            distinct_paths(final(self)@),
    {
        self.delete_all();
        let mut n: usize = 0;
        while n < tracks.len()
            invariant
                n <= tracks.len(),
                self@ == reindexed(rows_of(tracks@).take(n as int)),
            decreases tracks.len() - n,
        {
            assert(rows_of(tracks@).take(n + 1).drop_last() =~= rows_of(tracks@).take(n as int));
            self.insert_or_replace(tracks[n].duplicate());
            n += 1;
        }
        assert(rows_of(tracks@).take(n as int) =~= rows_of(tracks@));
        proof {
            use_type_invariant(&*self);
        }
    }

    /// Adds `tracks` to the catalog, leaving every existing row untouched:
    /// a track whose path is already present is ignored.
    pub fn merge(&mut self, tracks: &Vec<Track>)
        ensures
            final(self)@ == insert_all(old(self)@, rows_of(tracks@)),
            distinct_paths(final(self)@),
    {
        let mut n: usize = 0;
        while n < tracks.len()
            invariant
                n <= tracks.len(),
                self@ == insert_all(old(self)@, rows_of(tracks@).take(n as int)),
            decreases tracks.len() - n,
        {
            assert(rows_of(tracks@).take(n + 1).drop_last() =~= rows_of(tracks@).take(n as int));
            self.insert_or_ignore(tracks[n].duplicate());
            n += 1;
        }
        assert(rows_of(tracks@).take(n as int) =~= rows_of(tracks@));
        proof {
            use_type_invariant(&*self);
        }
    }
}

/// Whether exactly one row has the given path.
pub open spec fn has_exactly_one_row(rows: Seq<TrackView>, path: Seq<char>) -> bool {
    exists|i: int|
        0 <= i < rows.len() && (#[trigger] rows[i]).path == path && forall|j: int|
            0 <= j < rows.len() && (#[trigger] rows[j]).path == path ==> j == i
}

/// An insert-or-replace adds the path of its track and no other, and keeps
/// the paths distinct.
pub proof fn lemma_upsert_paths(rows: Seq<TrackView>, track: TrackView, path: Seq<char>)
    ensures
        has_path(upsert(rows, track), path) == (has_path(rows, path) || track.path == path),
        distinct_paths(rows) ==> distinct_paths(upsert(rows, track)),
{
    let after = upsert(rows, track);
    if has_path(rows, track.path) {
        assert forall|k: int| 0 <= k < rows.len() implies (#[trigger] after[k]).path
            == rows[k].path by {}
        if has_path(rows, path) {
            let i = choose|i: int| 0 <= i < rows.len() && (#[trigger] rows[i]).path == path;
            assert(after[i].path == path);
        }
        if has_path(after, path) {
            let i = choose|i: int| 0 <= i < after.len() && (#[trigger] after[i]).path == path;
            assert(rows[i].path == path);
        }
        if distinct_paths(rows) {
            assert forall|a: int, b: int| 0 <= a < b < after.len() implies (#[trigger] after[a]).path
                != (#[trigger] after[b]).path by {
                assert(rows[a].path != rows[b].path);
            }
        }
    } else {
        lemma_push_paths(rows, track, path);
        if distinct_paths(rows) {
            assert forall|a: int, b: int| 0 <= a < b < after.len() implies (#[trigger] after[a]).path
                != (#[trigger] after[b]).path by {
                if b < rows.len() {
                    assert(after[b] == rows[b]);
                }
            }
        }
    }
}

/// Adding a row at the end adds its path and no other.
proof fn lemma_push_paths(rows: Seq<TrackView>, track: TrackView, path: Seq<char>)
    ensures
        has_path(rows.push(track), path) == (has_path(rows, path) || track.path == path),
{
    let after = rows.push(track);
    if has_path(rows, path) {
        let i = choose|i: int| 0 <= i < rows.len() && (#[trigger] rows[i]).path == path;
        assert(after[i].path == path);
    }
    if track.path == path {
        assert(after[rows.len() as int].path == path);
    }
    if has_path(after, path) {
        let i = choose|i: int| 0 <= i < after.len() && (#[trigger] after[i]).path == path;
        if i < rows.len() {
            assert(rows[i].path == path);
        }
    }
}

/// An insert-or-ignore adds the path of its track and no other, keeps the
/// paths distinct, and leaves every row that was there where it was.
pub proof fn lemma_insert_new_paths(rows: Seq<TrackView>, track: TrackView, path: Seq<char>)
    ensures
        has_path(insert_new(rows, track), path) == (has_path(rows, path) || track.path
            == path),
        distinct_paths(rows) ==> distinct_paths(insert_new(rows, track)),
        rows.is_prefix_of(insert_new(rows, track)),
{
    let after = insert_new(rows, track);
    if !has_path(rows, track.path) {
        lemma_push_paths(rows, track, path);
        if distinct_paths(rows) {
            assert forall|a: int, b: int| 0 <= a < b < after.len() implies (#[trigger] after[a]).path
                != (#[trigger] after[b]).path by {
                if b < rows.len() {
                    assert(after[b] == rows[b]);
                }
            }
        }
    }
}

/// A merge adds the paths of its tracks and no others, keeps the paths
/// distinct, and leaves every row that was there where it was.
pub proof fn lemma_merge_paths(rows: Seq<TrackView>, tracks: Seq<TrackView>, path: Seq<char>)
    ensures
        has_path(insert_all(rows, tracks), path) == (has_path(rows, path) || has_path(
            tracks,
            path,
        )),
        distinct_paths(rows) ==> distinct_paths(insert_all(rows, tracks)),
        rows.is_prefix_of(insert_all(rows, tracks)),
    decreases tracks.len(),
{
    if tracks.len() > 0 {
        let earlier = tracks.drop_last();
        let merged = insert_all(rows, earlier);
        lemma_merge_paths(rows, earlier, path);
        lemma_insert_new_paths(merged, tracks.last(), path);
        lemma_push_paths(earlier, tracks.last(), path);
        assert(earlier.push(tracks.last()) =~= tracks);
    }
}

/// A merge of tracks whose paths are all present changes nothing.
pub proof fn lemma_merge_of_known_paths(rows: Seq<TrackView>, tracks: Seq<TrackView>)
    requires
        forall|j: int| 0 <= j < tracks.len() ==> has_path(rows, (#[trigger] tracks[j]).path),
    ensures
        insert_all(rows, tracks) == rows,
    decreases tracks.len(),
{
    if tracks.len() > 0 {
        let earlier = tracks.drop_last();
        assert forall|j: int| 0 <= j < earlier.len() implies has_path(
            rows,
            (#[trigger] earlier[j]).path,
        ) by {
            assert(earlier[j] == tracks[j]);
        }
        lemma_merge_of_known_paths(rows, earlier);
    }
}

/// Merging the same tracks a second time changes nothing: insert-or-ignore
/// is idempotent.
pub proof fn lemma_merge_is_idempotent(rows: Seq<TrackView>, tracks: Seq<TrackView>)
    ensures
        insert_all(insert_all(rows, tracks), tracks) == insert_all(rows, tracks),
{
    let merged = insert_all(rows, tracks);
    assert forall|j: int| 0 <= j < tracks.len() implies has_path(
        merged,
        (#[trigger] tracks[j]).path,
    ) by {
        lemma_merge_paths(rows, tracks, tracks[j].path);
    }
    lemma_merge_of_known_paths(merged, tracks);
}

/// Adding one track twice leaves exactly one row for its path, and the
/// second addition changes nothing.
pub proof fn lemma_add_twice_leaves_one_row(rows: Seq<TrackView>, track: TrackView)
    requires
        distinct_paths(rows),
    ensures
        insert_all(insert_all(rows, seq![track]), seq![track]) == insert_all(rows, seq![track]),
        has_exactly_one_row(insert_all(rows, seq![track]), track.path),
{
    let once = insert_all(rows, seq![track]);
    lemma_merge_is_idempotent(rows, seq![track]);
    lemma_merge_paths(rows, seq![track], track.path);
    let i = choose|i: int| 0 <= i < once.len() && (#[trigger] once[i]).path == track.path;
    assert forall|j: int| 0 <= j < once.len() && (#[trigger] once[j]).path == track.path implies j
        == i by {
        if j < i {
            assert(once[j].path != once[i].path);
        }
        if i < j {
            assert(once[i].path != once[j].path);
        }
    }
}

/// The statements of a merge have the effect of the merge.
pub proof fn lemma_merge_plan(rows: Seq<TrackView>, tracks: Seq<TrackView>)
    ensures
        after_all(rows, merge_plan(tracks)) == insert_all(rows, tracks),
    decreases tracks.len(),
{
    if tracks.len() > 0 {
        lemma_merge_plan(rows, tracks.drop_last());
        assert(merge_plan(tracks).drop_last() =~= merge_plan(tracks.drop_last()));
    }
}

/// The statements of a replace-all leave the store holding the re-indexed
/// tracks, whatever it held before.
pub proof fn lemma_replace_all_plan(rows: Seq<TrackView>, tracks: Seq<TrackView>)
    ensures
        after_all(rows, replace_all_plan(tracks)) == reindexed(tracks),
    decreases tracks.len(),
{
    let plan = replace_all_plan(tracks);
    if tracks.len() == 0 {
        assert(plan.drop_last() =~= Seq::<StoreCommandView>::empty());
    } else {
        lemma_replace_all_plan(rows, tracks.drop_last());
        assert(plan.drop_last() =~= replace_all_plan(tracks.drop_last()));
    }
}

/// Replacing the catalog with the same tracks twice gives the catalog that
/// replacing it once gives: on unchanged input a re-index changes nothing.
pub proof fn lemma_replace_all_is_idempotent(rows: Seq<TrackView>, tracks: Seq<TrackView>)
    ensures
        after_all(after_all(rows, replace_all_plan(tracks)), replace_all_plan(tracks))
            == after_all(rows, replace_all_plan(tracks)),
{
    lemma_replace_all_plan(rows, tracks);
    lemma_replace_all_plan(reindexed(tracks), tracks);
}

/// Re-indexing keeps the paths distinct and holds a row for exactly the
/// paths of the tracks given.
pub proof fn lemma_reindexed_paths(tracks: Seq<TrackView>, path: Seq<char>)
    ensures
        distinct_paths(reindexed(tracks)),
        has_path(reindexed(tracks), path) == has_path(tracks, path),
    decreases tracks.len(),
{
    if tracks.len() > 0 {
        let earlier = tracks.drop_last();
        lemma_reindexed_paths(earlier, path);
        lemma_upsert_paths(reindexed(earlier), tracks.last(), path);
        lemma_push_paths(earlier, tracks.last(), path);
        assert(earlier.push(tracks.last()) =~= tracks);
    }
}

/// Re-indexing tracks that already have distinct paths stores them as they
/// are, one row each, in the order given.
pub proof fn lemma_reindexed_distinct(tracks: Seq<TrackView>)
    requires
        distinct_paths(tracks),
    ensures
        reindexed(tracks) == tracks,
    decreases tracks.len(),
{
    if tracks.len() > 0 {
        let earlier = tracks.drop_last();
        assert forall|a: int, b: int| 0 <= a < b < earlier.len() implies (#[trigger] earlier[a]).path
            != (#[trigger] earlier[b]).path by {
            assert(tracks[a].path != tracks[b].path);
        }
        lemma_reindexed_distinct(earlier);
        if has_path(earlier, tracks.last().path) {
            let i = choose|i: int|
                0 <= i < earlier.len() && (#[trigger] earlier[i]).path == tracks.last().path;
            assert(tracks[i].path != tracks[tracks.len() - 1].path);
        }
    } else {
        assert(tracks =~= Seq::<TrackView>::empty());
    }
}

} // verus!
