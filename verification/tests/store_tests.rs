use music_library::catalog::{merge_commands, replace_all_commands, Catalog, StoreCommand};
use music_library::track::Track;
use rusqlite::Connection;

type Line = (String, Option<String>, Option<String>, Option<String>, Option<u64>);

fn song(path: &str, title: Option<&str>, artist: Option<&str>, secs: Option<u64>) -> Track {
    Track {
        path: path.to_string(),
        title: title.map(str::to_string),
        artist: artist.map(str::to_string),
        album: None,
        duration_secs: secs,
    }
}

fn open_store() -> Connection {
    let conn = Connection::open_in_memory().unwrap();
    conn.execute(
        "CREATE TABLE IF NOT EXISTS tracks (
            path          TEXT PRIMARY KEY,
            title         TEXT,
            artist        TEXT,
            album         TEXT,
            duration_secs INTEGER
        )",
        [],
    )
    .unwrap();
    conn
}

fn send(conn: &Connection, commands: &[StoreCommand]) {
    for command in commands {
        let (sql, track) = match command {
            StoreCommand::DeleteAll => {
                conn.execute("DELETE FROM tracks", []).unwrap();
                continue;
            }
            StoreCommand::InsertOrReplace(track) => (
                "INSERT OR REPLACE INTO tracks (path, title, artist, album, duration_secs) VALUES (?1, ?2, ?3, ?4, ?5)",
                track,
            ),
            StoreCommand::InsertOrIgnore(track) => (
                "INSERT OR IGNORE INTO tracks (path, title, artist, album, duration_secs) VALUES (?1, ?2, ?3, ?4, ?5)",
                track,
            ),
        };
        conn.execute(
            sql,
            (&track.path, &track.title, &track.artist, &track.album, &track.duration_secs),
        )
        .unwrap();
    }
}

fn stored(conn: &Connection) -> Vec<Line> {
    let mut stmt =
        conn.prepare("SELECT path, title, artist, album, duration_secs FROM tracks").unwrap();
    let rows = stmt
        .query_map([], |row| Ok((row.get(0)?, row.get(1)?, row.get(2)?, row.get(3)?, row.get(4)?)))
        .unwrap();
    let mut lines: Vec<Line> = rows.map(Result::unwrap).collect();
    lines.sort();
    lines
}

fn modelled(catalog: &Catalog) -> Vec<Line> {
    let mut lines: Vec<Line> = catalog
        .tracks()
        .into_iter()
        .map(|t| (t.path, t.title, t.artist, t.album, t.duration_secs))
        .collect();
    lines.sort();
    lines
}

#[test]
fn catalog_and_sqlite_agree_on_a_replace_all() {
    let conn = open_store();
    let mut catalog = Catalog::new();
    let first = replace_all_commands(&vec![
        song("/a.mp3", Some("A"), None, Some(1)),
        song("/b.mp3", None, Some("B"), None),
    ]);
    send(&conn, &first);
    catalog.apply_all(&first);
    assert_eq!(stored(&conn), modelled(&catalog));
    assert_eq!(stored(&conn).len(), 2);

    let second = replace_all_commands(&vec![
        song("/b.mp3", Some("B2"), None, Some(2)),
        song("/c.mp3", Some("C"), None, Some(3)),
        song("/b.mp3", Some("B3"), Some("late"), Some(4)),
    ]);
    send(&conn, &second);
    catalog.apply_all(&second);
    assert_eq!(stored(&conn), modelled(&catalog));
    assert_eq!(
        stored(&conn),
        vec![
            ("/b.mp3".to_string(), Some("B3".to_string()), Some("late".to_string()), None, Some(4)),
            ("/c.mp3".to_string(), Some("C".to_string()), None, None, Some(3)),
        ]
    );
}

#[test]
fn catalog_and_sqlite_agree_on_a_merge() {
    let conn = open_store();
    let mut catalog = Catalog::new();
    let seed = replace_all_commands(&vec![song("/a.mp3", Some("A"), None, Some(1))]);
    send(&conn, &seed);
    catalog.apply_all(&seed);

    let added = merge_commands(&vec![
        song("/a.mp3", Some("other"), Some("x"), Some(9)),
        song("/p.mp3", Some("P"), None, Some(5)),
    ]);
    send(&conn, &added);
    catalog.apply_all(&added);
    assert_eq!(stored(&conn), modelled(&catalog));

    send(&conn, &added);
    catalog.apply_all(&added);
    assert_eq!(stored(&conn), modelled(&catalog));
    assert_eq!(
        stored(&conn),
        vec![
            ("/a.mp3".to_string(), Some("A".to_string()), None, None, Some(1)),
            ("/p.mp3".to_string(), Some("P".to_string()), None, None, Some(5)),
        ]
    );
}

#[test]
fn rescanning_an_unchanged_folder_leaves_sqlite_unchanged() {
    let conn = open_store();
    let commands = replace_all_commands(&vec![
        song("/a.mp3", Some("A"), None, Some(1)),
        song("/b.flac", Some("B"), None, Some(2)),
    ]);
    send(&conn, &commands);
    let first = stored(&conn);
    send(&conn, &commands);
    assert_eq!(stored(&conn), first);
    assert_eq!(first.len(), 2);
}
