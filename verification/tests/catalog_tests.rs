use music_library::catalog::{merge_commands, replace_all_commands, Catalog, StoreCommand};
use music_library::track::Track;

fn row(path: &str, title: &str, secs: u64) -> Track {
    Track {
        path: path.to_string(),
        title: Some(title.to_string()),
        artist: None,
        album: None,
        duration_secs: Some(secs),
    }
}

fn summary(catalog: &Catalog) -> Vec<(String, Option<String>, Option<u64>)> {
    catalog.tracks().into_iter().map(|t| (t.path, t.title, t.duration_secs)).collect()
}

fn line(path: &str, title: &str, secs: u64) -> (String, Option<String>, Option<u64>) {
    (path.to_string(), Some(title.to_string()), Some(secs))
}

#[test]
fn new_catalog_is_empty() {
    let catalog = Catalog::new();
    assert_eq!(catalog.len(), 0);
    assert!(catalog.is_empty());
    assert!(catalog.tracks().is_empty());
    assert!(!catalog.contains("/a.mp3"));
    assert!(catalog.get("/a.mp3").is_none());
}

#[test]
fn insert_or_replace_adds_a_new_path() {
    let mut catalog = Catalog::new();
    catalog.insert_or_replace(row("/a.mp3", "A", 1));
    catalog.insert_or_replace(row("/b.mp3", "B", 2));
    assert_eq!(catalog.len(), 2);
    assert!(!catalog.is_empty());
    assert_eq!(summary(&catalog), vec![line("/a.mp3", "A", 1), line("/b.mp3", "B", 2)]);
}

#[test]
fn insert_or_replace_overwrites_the_row_with_the_same_path() {
    let mut catalog = Catalog::new();
    catalog.insert_or_replace(row("/a.mp3", "old", 1));
    catalog.insert_or_replace(row("/b.mp3", "B", 2));
    catalog.insert_or_replace(row("/a.mp3", "new", 9));
    assert_eq!(catalog.len(), 2);
    assert_eq!(summary(&catalog), vec![line("/a.mp3", "new", 9), line("/b.mp3", "B", 2)]);
}

#[test]
fn insert_or_ignore_keeps_the_existing_row() {
    let mut catalog = Catalog::new();
    assert!(catalog.insert_or_ignore(row("/a.mp3", "first", 1)));
    assert!(!catalog.insert_or_ignore(row("/a.mp3", "second", 2)));
    assert!(catalog.insert_or_ignore(row("/b.mp3", "B", 3)));
    assert_eq!(summary(&catalog), vec![line("/a.mp3", "first", 1), line("/b.mp3", "B", 3)]);
}

#[test]
fn adding_the_same_file_twice_leaves_one_row() {
    let mut catalog = Catalog::new();
    catalog.merge(&vec![row("/p.mp3", "P", 5)]);
    let once = summary(&catalog);
    catalog.merge(&vec![row("/p.mp3", "P", 5)]);
    assert_eq!(summary(&catalog), once);
    assert_eq!(catalog.tracks().iter().filter(|t| t.path == "/p.mp3").count(), 1);
    assert_eq!(catalog.len(), 1);
}

#[test]
fn merge_leaves_existing_rows_untouched() {
    let mut catalog = Catalog::new();
    catalog.replace_all(&vec![row("/a.mp3", "A", 1), row("/b.mp3", "B", 2)]);
    catalog.merge(&vec![row("/b.mp3", "changed", 20), row("/c.mp3", "C", 3), row("/c.mp3", "again", 4)]);
    assert_eq!(
        summary(&catalog),
        vec![line("/a.mp3", "A", 1), line("/b.mp3", "B", 2), line("/c.mp3", "C", 3)]
    );
}

#[test]
fn replace_all_drops_what_is_no_longer_there() {
    let mut catalog = Catalog::new();
    catalog.replace_all(&vec![row("/a.mp3", "A", 1), row("/b.mp3", "B", 2)]);
    catalog.replace_all(&vec![row("/b.mp3", "B2", 22), row("/c.mp3", "C", 3)]);
    assert_eq!(summary(&catalog), vec![line("/b.mp3", "B2", 22), line("/c.mp3", "C", 3)]);
    assert!(!catalog.contains("/a.mp3"));
}

#[test]
fn replace_all_twice_with_the_same_tracks_gives_the_same_rows() {
    let tracks = vec![row("/a.mp3", "A", 1), row("/b.flac", "B", 2), row("/c.ogg", "C", 3)];
    let mut catalog = Catalog::new();
    catalog.insert_or_replace(row("/gone.mp3", "Gone", 7));
    catalog.replace_all(&tracks);
    let first = summary(&catalog);
    catalog.replace_all(&tracks);
    assert_eq!(summary(&catalog), first);
    assert_eq!(first, vec![line("/a.mp3", "A", 1), line("/b.flac", "B", 2), line("/c.ogg", "C", 3)]);
}

#[test]
fn replace_all_lets_a_later_duplicate_win() {
    let mut catalog = Catalog::new();
    catalog.replace_all(&vec![row("/a.mp3", "one", 1), row("/b.mp3", "B", 2), row("/a.mp3", "two", 3)]);
    assert_eq!(summary(&catalog), vec![line("/a.mp3", "two", 3), line("/b.mp3", "B", 2)]);
}

#[test]
fn replace_all_with_nothing_empties_the_catalog() {
    let mut catalog = Catalog::new();
    catalog.insert_or_replace(row("/a.mp3", "A", 1));
    catalog.replace_all(&Vec::new());
    assert!(catalog.is_empty());
}

#[test]
fn delete_all_removes_every_row() {
    let mut catalog = Catalog::new();
    catalog.insert_or_replace(row("/a.mp3", "A", 1));
    catalog.insert_or_replace(row("/b.mp3", "B", 1));
    catalog.delete_all();
    assert_eq!(catalog.len(), 0);
    assert!(!catalog.contains("/a.mp3"));
}

#[test]
fn lookup_by_path() {
    let mut catalog = Catalog::new();
    catalog.insert_or_replace(row("/a.mp3", "A", 1));
    catalog.insert_or_replace(Track {
        path: "/b.mp3".to_string(),
        title: None,
        artist: Some("Band".to_string()),
        album: Some("LP".to_string()),
        duration_secs: None,
    });
    assert!(catalog.contains("/a.mp3"));
    assert!(catalog.contains("/b.mp3"));
    assert!(!catalog.contains("/A.mp3"));
    let found = catalog.get("/b.mp3").unwrap();
    assert_eq!(found.path, "/b.mp3");
    assert_eq!(found.title, None);
    assert_eq!(found.artist, Some("Band".to_string()));
    assert_eq!(found.album, Some("LP".to_string()));
    assert_eq!(found.duration_secs, None);
    assert!(catalog.get("/c.mp3").is_none());
}

#[test]
fn rows_are_read_back_unchanged() {
    let mut catalog = Catalog::new();
    catalog.insert_or_replace(Track {
        path: "/música/ñ.flac".to_string(),
        title: Some("Canción".to_string()),
        artist: Some("Artista".to_string()),
        album: Some("Álbum".to_string()),
        duration_secs: Some(u64::MAX),
    });
    let all = catalog.tracks();
    assert_eq!(all.len(), 1);
    assert_eq!(all[0].path, "/música/ñ.flac");
    assert_eq!(all[0].title, Some("Canción".to_string()));
    assert_eq!(all[0].artist, Some("Artista".to_string()));
    assert_eq!(all[0].album, Some("Álbum".to_string()));
    assert_eq!(all[0].duration_secs, Some(u64::MAX));
}

#[test]
fn replace_all_is_a_delete_followed_by_one_write_per_track() {
    let commands = replace_all_commands(&vec![row("/a.mp3", "A", 1), row("/b.mp3", "B", 2)]);
    assert_eq!(commands.len(), 3);
    assert!(matches!(commands[0], StoreCommand::DeleteAll));
    assert!(matches!(&commands[1], StoreCommand::InsertOrReplace(t) if t.path == "/a.mp3" && t.duration_secs == Some(1)));
    assert!(matches!(&commands[2], StoreCommand::InsertOrReplace(t) if t.path == "/b.mp3" && t.title == Some("B".to_string())));
    let none = replace_all_commands(&Vec::new());
    assert_eq!(none.len(), 1);
    assert!(matches!(none[0], StoreCommand::DeleteAll));
}

#[test]
fn merge_is_one_guarded_write_per_track() {
    let commands = merge_commands(&vec![row("/a.mp3", "A", 1), row("/b.mp3", "B", 2)]);
    assert_eq!(commands.len(), 2);
    assert!(matches!(&commands[0], StoreCommand::InsertOrIgnore(t) if t.path == "/a.mp3"));
    assert!(matches!(&commands[1], StoreCommand::InsertOrIgnore(t) if t.path == "/b.mp3"));
    assert!(merge_commands(&Vec::new()).is_empty());
}

#[test]
fn carrying_out_the_commands_equals_the_bulk_operations() {
    let old = vec![row("/a.mp3", "A", 1), row("/x.mp3", "X", 8)];
    let new = vec![row("/a.mp3", "A2", 2), row("/b.mp3", "B", 3)];

    let mut by_commands = Catalog::new();
    by_commands.replace_all(&old);
    by_commands.apply_all(&replace_all_commands(&new));
    let mut direct = Catalog::new();
    direct.replace_all(&old);
    direct.replace_all(&new);
    assert_eq!(summary(&by_commands), summary(&direct));
    assert_eq!(summary(&direct), vec![line("/a.mp3", "A2", 2), line("/b.mp3", "B", 3)]);

    let mut merged_by_commands = Catalog::new();
    merged_by_commands.replace_all(&old);
    merged_by_commands.apply_all(&merge_commands(&new));
    let mut merged = Catalog::new();
    merged.replace_all(&old);
    merged.merge(&new);
    assert_eq!(summary(&merged_by_commands), summary(&merged));
    assert_eq!(
        summary(&merged),
        vec![line("/a.mp3", "A", 1), line("/x.mp3", "X", 8), line("/b.mp3", "B", 3)]
    );
}

#[test]
fn single_commands_are_carried_out() {
    let mut catalog = Catalog::new();
    catalog.apply(&StoreCommand::InsertOrIgnore(row("/a.mp3", "A", 1)));
    catalog.apply(&StoreCommand::InsertOrIgnore(row("/a.mp3", "ignored", 2)));
    assert_eq!(summary(&catalog), vec![line("/a.mp3", "A", 1)]);
    catalog.apply(&StoreCommand::InsertOrReplace(row("/a.mp3", "replaced", 3)));
    assert_eq!(summary(&catalog), vec![line("/a.mp3", "replaced", 3)]);
    catalog.apply(&StoreCommand::DeleteAll);
    assert!(catalog.is_empty());
}

#[test]
fn duplicate_is_equal_field_by_field() {
    let original = Track {
        path: "/a.mp3".to_string(),
        title: Some("T".to_string()),
        artist: None,
        album: Some("L".to_string()),
        duration_secs: Some(42),
    };
    let copy = original.duplicate();
    assert_eq!(copy.path, original.path);
    assert_eq!(copy.title, original.title);
    assert_eq!(copy.artist, original.artist);
    assert_eq!(copy.album, original.album);
    assert_eq!(copy.duration_secs, original.duration_secs);
}
