//! The two ways the library's index is brought up to date: a full scan of
//! a folder, which replaces the index, and the addition of hand-picked
//! files, which is merged into it.
//!
//! Each function turns what the application found on disk into the tracks
//! to show and the statements to send to the catalog store.

use vstd::prelude::*;
use crate::catalog::{
    after_all, commands_of, insert_all, lemma_merge_is_idempotent, lemma_merge_plan,
    lemma_replace_all_is_idempotent, lemma_replace_all_plan, merge_commands, merge_plan,
    reindexed, replace_all_commands, replace_all_plan, StoreCommand,
};
use crate::scanner::{collect_tracks, collected, scan, scan_result, FileReading, ScannedEntry};
use crate::track::{rows_of, Track, TrackView};

verus! {

/// The outcome of a folder scan: the tracks found, and the statements
/// that make the store hold exactly those tracks.
pub struct ScanIndex {
    pub tracks: Vec<Track>,
    pub commands: Vec<StoreCommand>,
}

/// Scans the entries of a folder walk and plans the replacement of the
/// index by the result.
///
/// The tracks are those of [`scan`]. The statements delete every row of
/// the store and then write each track found, so that a track that is no
/// longer on disk is no longer in the index either.
pub fn get_tracks(entries: &Vec<ScannedEntry>) -> (index: ScanIndex)
    ensures
        rows_of(index.tracks@) == scan_result(entries@),
        commands_of(index.commands@) == replace_all_plan(scan_result(entries@)),
{
    let tracks = scan(entries);
    let commands = replace_all_commands(&tracks);
    ScanIndex { tracks, commands }
}

/// Plans the addition of hand-picked files to the index.
///
/// Every file that parsed is written with an insert-or-ignore, in the
/// order given: a file whose path is in the index already leaves its row
/// as it is. A file that did not parse is left out.
pub fn add_tracks_to_library(readings: &Vec<FileReading>) -> (commands: Vec<StoreCommand>)
    ensures
        commands_of(commands@) == merge_plan(collected(readings@)),
{
    let tracks = collect_tracks(readings);
    merge_commands(&tracks)
}

/// Scanning an unchanged folder a second time leaves the store with the
/// rows it had after the first scan, and those are the re-indexed tracks
/// of the scan, whatever the store held before.
pub proof fn lemma_rescan_changes_nothing(rows: Seq<TrackView>, entries: Seq<ScannedEntry>)
    ensures
        after_all(rows, replace_all_plan(scan_result(entries))) == reindexed(scan_result(entries)),
        after_all(
            after_all(rows, replace_all_plan(scan_result(entries))),
            replace_all_plan(scan_result(entries)),
        ) == after_all(rows, replace_all_plan(scan_result(entries))),
{
    lemma_replace_all_plan(rows, scan_result(entries));
    lemma_replace_all_is_idempotent(rows, scan_result(entries));
}

/// Adding the same files a second time leaves the store with the rows it
/// had after the first addition.
pub proof fn lemma_adding_again_changes_nothing(rows: Seq<TrackView>, readings: Seq<FileReading>)
    ensures
        after_all(rows, merge_plan(collected(readings))) == insert_all(rows, collected(readings)),
        after_all(
            after_all(rows, merge_plan(collected(readings))),
            merge_plan(collected(readings)),
        ) == after_all(rows, merge_plan(collected(readings))),
{
    let tracks = collected(readings);
    lemma_merge_plan(rows, tracks);
    lemma_merge_plan(insert_all(rows, tracks), tracks);
    lemma_merge_is_idempotent(rows, tracks);
}

} // verus!
