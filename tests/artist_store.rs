use dtunes::record::{Artist, AudioFile};
use dtunes::store::{Catalog, StoreError};

fn names(artists: &[Artist]) -> Vec<String> {
    artists.iter().map(|a| a.artist_name.clone()).collect()
}

fn file_ids(files: &[AudioFile]) -> Vec<usize> {
    files.iter().map(|f| f.audio_file_id).collect()
}

#[test]
fn new_artist_is_unstored() {
    let a = Artist::new("Radiohead", "thumb.png", 1_000);
    assert_eq!(a.artist_id, 0);
    assert_eq!(a.artist_name, "Radiohead");
    assert_eq!(a.artist_thumbnail, "thumb.png");
}

#[test]
fn new_audio_file_is_unstored_and_unplayed() {
    let f = AudioFile::new("Paranoid Android", "/music/pa.mp3", "pa.png", 387, 44100, 1_000);
    assert_eq!(f.audio_file_id, 0);
    assert_eq!(f.file_name, "Paranoid Android");
    assert_eq!(f.file_path, "/music/pa.mp3");
    assert_eq!(f.thumbnail, "pa.png");
    assert_eq!(f.duration, 387);
    assert_eq!(f.plays, 0);
    assert_eq!(f.sample_rate, 44100);
}

#[test]
fn radiohead_scenario() {
    let mut store = Catalog::new();
    let mut artist = Artist::new("Radiohead", "thumb.png", 1_000);
    assert_eq!(artist.insert(&mut store), Ok(()));
    assert_eq!(artist.artist_id, 1);
    let mut song = AudioFile::new("Paranoid Android", "/music/pa.mp3", "pa.png", 387, 44100, 1_000);
    assert_eq!(song.insert(&mut store), Ok(()));
    assert_eq!(song.audio_file_id, 1);

    artist.add_audio_file(&mut store, 1);
    let files = Artist::retrieve_audio_files(&store, 1).unwrap();
    assert_eq!(files.len(), 1);
    assert_eq!(files[0].audio_file_id, 1);
    assert_eq!(files[0].file_name, "Paranoid Android");

    Artist::delete(&mut store, 1);
    assert_eq!(Artist::view(&store, 1).unwrap_err(), StoreError::NotFound);
    assert_eq!(Artist::retrieve_audio_files(&store, 1).unwrap_err(), StoreError::NotFound);
}

#[test]
fn insert_then_view_returns_the_record() {
    let mut store = Catalog::new();
    let mut a = Artist::new("Björk", "b.png", 1_000);
    a.insert(&mut store).unwrap();
    let mut b = Artist::new("Portishead", "p.png", 1_000);
    b.insert(&mut store).unwrap();
    assert_eq!(b.artist_id, 2);
    let seen = Artist::view(&store, 2).unwrap();
    assert_eq!(seen.artist_id, b.artist_id);
    assert_eq!(seen.artist_name, b.artist_name);
    assert_eq!(seen.artist_thumbnail, b.artist_thumbnail);
    assert_eq!(seen.date_created, b.date_created);
    assert_eq!(seen.last_modified, b.last_modified);
}

#[test]
fn view_of_missing_id_fails() {
    let store = Catalog::new();
    assert_eq!(Artist::view(&store, 0).unwrap_err(), StoreError::NotFound);
    assert_eq!(Artist::view(&store, 7).unwrap_err(), StoreError::NotFound);
}

#[test]
fn retrieve_of_empty_store_is_empty() {
    let store = Catalog::new();
    assert!(Artist::retrieve(&store).is_empty());
}

#[test]
fn retrieve_orders_by_last_modified() {
    let mut store = Catalog::new();
    for name in ["a", "b", "c"] {
        Artist::new(name, "", 1_000).insert(&mut store).unwrap();
    }
    let mut first = Artist::view(&store, 1).unwrap();
    first.update(&mut store, 1, 2_000);
    let all = Artist::retrieve(&store);
    assert_eq!(all.len(), 3);
    for w in all.windows(2) {
        assert!(w[0].last_modified <= w[1].last_modified);
    }
    assert_eq!(all[2].artist_name, "a");
    let mut seen = names(&all);
    seen.sort();
    assert_eq!(seen, vec!["a".to_string(), "b".to_string(), "c".to_string()]);
}

#[test]
fn update_overwrites_row_and_keeps_creation_time() {
    let mut store = Catalog::new();
    let mut a = Artist::new("Old name", "old.png", 1_000);
    a.insert(&mut store).unwrap();
    let created = a.date_created;
    let before = a.last_modified;
    a.artist_name = String::from("New name");
    a.artist_thumbnail = String::from("new.png");
    a.update(&mut store, 1, 1_500);
    assert_eq!(a.date_created, created);
    assert!(a.last_modified >= before);
    let row = Artist::view(&store, 1).unwrap();
    assert_eq!(row.artist_name, "New name");
    assert_eq!(row.artist_thumbnail, "new.png");
    assert_eq!(row.date_created, created);
    assert_eq!(row.last_modified, a.last_modified);
}

#[test]
fn update_of_missing_id_changes_nothing() {
    let mut store = Catalog::new();
    let mut a = Artist::new("Only", "o.png", 1_000);
    a.insert(&mut store).unwrap();
    let mut other = Artist::new("Ghost", "g.png", 1_000);
    other.update(&mut store, 9, 2_000);
    let all = Artist::retrieve(&store);
    assert_eq!(names(&all), vec!["Only".to_string()]);
}

#[test]
fn delete_removes_links_and_spares_other_artists() {
    let mut store = Catalog::new();
    let mut a = Artist::new("A", "", 1_000);
    a.insert(&mut store).unwrap();
    let mut b = Artist::new("B", "", 1_000);
    b.insert(&mut store).unwrap();
    let mut f = AudioFile::new("song", "/s", "", 1, 1, 1_000);
    f.insert(&mut store).unwrap();
    let mut g = AudioFile::new("other", "/o", "", 1, 1, 1_000);
    g.insert(&mut store).unwrap();
    a.add_audio_file(&mut store, 1);
    a.add_audio_file(&mut store, 2);
    b.add_audio_file(&mut store, 2);

    Artist::delete(&mut store, 1);
    assert!(Artist::view(&store, 1).is_err());
    assert_eq!(file_ids(&Artist::retrieve_audio_files(&store, 2).unwrap()), vec![2]);
    assert_eq!(names(&Artist::retrieve(&store)), vec!["B".to_string()]);
    // A new artist gets a fresh id, so the deleted artist's links do not come back.
    let mut c = Artist::new("C", "", 1_000);
    c.insert(&mut store).unwrap();
    assert_eq!(c.artist_id, 3);
    assert!(Artist::retrieve_audio_files(&store, 3).unwrap().is_empty());
}

#[test]
fn delete_of_missing_id_changes_nothing() {
    let mut store = Catalog::new();
    let mut a = Artist::new("A", "", 1_000);
    a.insert(&mut store).unwrap();
    Artist::delete(&mut store, 42);
    assert_eq!(names(&Artist::retrieve(&store)), vec!["A".to_string()]);
}

#[test]
fn linking_twice_still_lists_the_file_once() {
    let mut store = Catalog::new();
    let mut a = Artist::new("A", "", 1_000);
    a.insert(&mut store).unwrap();
    let mut f = AudioFile::new("song", "/s", "", 1, 1, 1_000);
    f.insert(&mut store).unwrap();
    a.add_audio_file(&mut store, 1);
    assert_eq!(file_ids(&Artist::retrieve_audio_files(&store, 1).unwrap()), vec![1]);
    a.add_audio_file(&mut store, 1);
    assert_eq!(file_ids(&Artist::retrieve_audio_files(&store, 1).unwrap()), vec![1]);
}

#[test]
fn link_to_missing_audio_file_lists_nothing() {
    let mut store = Catalog::new();
    let mut a = Artist::new("A", "", 1_000);
    a.insert(&mut store).unwrap();
    a.add_audio_file(&mut store, 99);
    assert!(Artist::retrieve_audio_files(&store, 1).unwrap().is_empty());
}

#[test]
fn remove_audio_file_drops_every_copy_of_the_link() {
    let mut store = Catalog::new();
    let mut a = Artist::new("A", "", 1_000);
    a.insert(&mut store).unwrap();
    let mut f = AudioFile::new("one", "/1", "", 1, 1, 1_000);
    f.insert(&mut store).unwrap();
    let mut g = AudioFile::new("two", "/2", "", 1, 1, 1_000);
    g.insert(&mut store).unwrap();
    a.add_audio_file(&mut store, 1);
    a.add_audio_file(&mut store, 1);
    a.add_audio_file(&mut store, 2);
    a.remove_audio_file(&mut store, 1);
    assert_eq!(file_ids(&Artist::retrieve_audio_files(&store, 1).unwrap()), vec![2]);
    // Removing a link that is not there succeeds and changes nothing.
    a.remove_audio_file(&mut store, 1);
    assert_eq!(file_ids(&Artist::retrieve_audio_files(&store, 1).unwrap()), vec![2]);
}

#[test]
fn search_matches_substrings_ignoring_ascii_case() {
    let mut store = Catalog::new();
    for name in ["Radiohead", "Head Automatica", "Massive Attack", "Björk"] {
        Artist::new(name, "", 1_000).insert(&mut store).unwrap();
    }
    let both = vec!["Radiohead".to_string(), "Head Automatica".to_string()];
    assert_eq!(names(&Artist::search(&store, "head")), both);
    assert_eq!(names(&Artist::search(&store, "HEAD")), both);
    assert_eq!(names(&Artist::search(&store, "RADIO")), vec!["Radiohead".to_string()]);
    assert_eq!(names(&Artist::search(&store, "jör")), vec!["Björk".to_string()]);
    // Only ASCII letters are folded.
    assert!(Artist::search(&store, "JÖR").is_empty());
    assert!(Artist::search(&store, "xyz").is_empty());
    assert_eq!(Artist::search(&store, "").len(), 4);
    assert!(Artist::search(&store, "Radioheads").is_empty());
}

#[test]
fn search_treats_quotes_and_wildcards_as_text() {
    let mut store = Catalog::new();
    for name in ["Guns N' Roses", "100% Pure", "a_b"] {
        Artist::new(name, "", 1_000).insert(&mut store).unwrap();
    }
    assert_eq!(names(&Artist::search(&store, "N' R")), vec!["Guns N' Roses".to_string()]);
    assert_eq!(names(&Artist::search(&store, "%")), vec!["100% Pure".to_string()]);
    assert_eq!(names(&Artist::search(&store, "_")), vec!["a_b".to_string()]);
    assert!(Artist::search(&store, "' OR '1'='1").is_empty());
}

#[test]
fn search_audio_files_is_scoped_to_the_artist() {
    let mut store = Catalog::new();
    let mut a = Artist::new("A", "", 1_000);
    a.insert(&mut store).unwrap();
    let mut b = Artist::new("B", "", 1_000);
    b.insert(&mut store).unwrap();
    for name in ["Karma Police", "No Surprises", "Police and Thieves"] {
        AudioFile::new(name, "/x", "", 1, 1, 1_000).insert(&mut store).unwrap();
    }
    a.add_audio_file(&mut store, 1);
    a.add_audio_file(&mut store, 2);
    b.add_audio_file(&mut store, 3);
    assert_eq!(file_ids(&Artist::search_audio_files(&store, 1, "Police")), vec![1]);
    assert_eq!(file_ids(&Artist::search_audio_files(&store, 2, "Police")), vec![3]);
    assert_eq!(file_ids(&Artist::search_audio_files(&store, 1, "")), vec![1, 2]);
    assert_eq!(file_ids(&Artist::search_audio_files(&store, 1, "police")), vec![1]);
    assert!(Artist::search_audio_files(&store, 1, "thieves").is_empty());
    assert!(Artist::search_audio_files(&store, 5, "Police").is_empty());
}

#[test]
fn restore_keeps_ids_and_later_inserts_go_above() {
    let mut store = Catalog::new();
    let mut row = Artist::new("Stored", "s.png", 1_000);
    row.artist_id = 7;
    assert_eq!(store.restore_artist(row), Ok(()));
    assert_eq!(Artist::view(&store, 7).unwrap().artist_name, "Stored");
    let mut fresh = Artist::new("Fresh", "", 1_000);
    fresh.insert(&mut store).unwrap();
    assert_eq!(fresh.artist_id, 8);

    let mut file = AudioFile::new("song", "/s", "", 1, 1, 1_000);
    file.audio_file_id = 3;
    assert_eq!(store.restore_audio_file(file), Ok(()));
    store.restore_link(7, 3);
    assert_eq!(file_ids(&Artist::retrieve_audio_files(&store, 7).unwrap()), vec![3]);
    let mut next = AudioFile::new("next", "/n", "", 1, 1, 1_000);
    next.insert(&mut store).unwrap();
    assert_eq!(next.audio_file_id, 4);
}

#[test]
fn restore_rejects_unusable_ids() {
    let mut store = Catalog::new();
    let zero = Artist::new("Zero", "", 1_000);
    assert_eq!(store.restore_artist(zero), Err(StoreError::InvalidId));
    let mut top = Artist::new("Top", "", 1_000);
    top.artist_id = usize::MAX;
    assert_eq!(store.restore_artist(top), Err(StoreError::InvalidId));
    let mut one = Artist::new("One", "", 1_000);
    one.artist_id = 1;
    assert_eq!(store.restore_artist(one.clone()), Ok(()));
    assert_eq!(store.restore_artist(one), Err(StoreError::InvalidId));
    assert_eq!(Artist::retrieve(&store).len(), 1);

    let mut file = AudioFile::new("f", "/f", "", 1, 1, 1_000);
    file.audio_file_id = 2;
    assert_eq!(store.restore_audio_file(file.clone()), Ok(()));
    assert_eq!(store.restore_audio_file(file), Err(StoreError::InvalidId));
}

#[test]
fn insert_fails_when_ids_run_out() {
    let mut store = Catalog::new();
    let mut last = Artist::new("Last", "", 1_000);
    last.artist_id = usize::MAX - 1;
    store.restore_artist(last).unwrap();
    let mut more = Artist::new("More", "m.png", 1_000);
    assert_eq!(more.insert(&mut store), Err(StoreError::IdsExhausted));
    assert_eq!(more.artist_id, 0);
    assert_eq!(Artist::retrieve(&store).len(), 1);

    let mut file = AudioFile::new("f", "/f", "", 1, 1, 1_000);
    file.audio_file_id = usize::MAX - 1;
    store.restore_audio_file(file).unwrap();
    let mut song = AudioFile::new("g", "/g", "", 1, 1, 1_000);
    assert_eq!(song.insert(&mut store), Err(StoreError::IdsExhausted));
    assert_eq!(song.audio_file_id, 0);
}

#[test]
fn update_sets_the_given_time() {
    let mut store = Catalog::new();
    let mut a = Artist::new("A", "a.png", 1_000);
    a.insert(&mut store).unwrap();
    let mut e = Artist::view(&store, 1).unwrap();
    let created = e.date_created;
    let later = e.last_modified + 1_000_000;
    e.artist_name = String::from("B");
    e.update(&mut store, 1, later);
    assert_eq!(e.last_modified, later);
    let row = Artist::view(&store, 1).unwrap();
    assert_eq!(row.artist_name, "B");
    assert_eq!(row.last_modified, later);
    assert_eq!(row.date_created, created);
    // A clock reading from before the last change is stored as given.
    e.update(&mut store, 1, 5);
    assert_eq!(Artist::view(&store, 1).unwrap().last_modified, 5);
}

#[test]
fn retrieve_puts_older_modifications_first() {
    let mut store = Catalog::new();
    for name in ["x", "y", "z"] {
        Artist::new(name, "", 1_000).insert(&mut store).unwrap();
    }
    let times = [(1, 300), (2, 100), (3, 200)];
    for (id, at) in times {
        let mut e = Artist::view(&store, id).unwrap();
        e.update(&mut store, id, at);
    }
    let all = Artist::retrieve(&store);
    assert_eq!(names(&all), vec!["y".to_string(), "z".to_string(), "x".to_string()]);
    let stamps: Vec<i64> = all.iter().map(|a| a.last_modified).collect();
    assert_eq!(stamps, vec![100, 200, 300]);
}

#[test]
fn update_keeps_the_stored_creation_time() {
    let mut store = Catalog::new();
    let mut a = Artist::new("A", "", 5);
    a.insert(&mut store).unwrap();
    let mut e = Artist::new("A2", "t.png", 7);
    e.update(&mut store, 1, 9);
    let row = Artist::view(&store, 1).unwrap();
    assert_eq!(row.date_created, 5);
    assert_eq!(row.last_modified, 9);
    assert_eq!(row.artist_name, "A2");
    assert_eq!(row.artist_thumbnail, "t.png");
    assert_eq!(e.date_created, 7);
}

#[test]
fn insert_keeps_the_record_timestamps() {
    let mut store = Catalog::new();
    let mut a = Artist::new("A", "", 20);
    a.insert(&mut store).unwrap();
    let mut b = Artist::new("B", "", 10);
    b.insert(&mut store).unwrap();
    assert_eq!(a.last_modified, 20);
    assert_eq!(b.date_created, 10);
    let all = Artist::retrieve(&store);
    assert_eq!(names(&all), vec!["B".to_string(), "A".to_string()]);
    assert_eq!(all[0].artist_id, 2);
    assert_eq!(all[1].artist_id, 1);
    let mut f = AudioFile::new("f", "/f", "", 1, 1, 33);
    f.insert(&mut store).unwrap();
    assert_eq!(f.date_created, 33);
    assert_eq!(f.last_modified, 33);
}

#[test]
fn upcoming_ids_are_the_ones_insert_assigns() {
    let mut store = Catalog::new();
    assert_eq!(store.upcoming_artist_id(), 1);
    assert_eq!(store.upcoming_audio_file_id(), 1);
    let mut a = Artist::new("A", "", 1);
    a.insert(&mut store).unwrap();
    assert_eq!(store.upcoming_artist_id(), 2);
    let mut f = AudioFile::new("f", "/f", "", 1, 1, 1);
    f.insert(&mut store).unwrap();
    assert_eq!(store.upcoming_audio_file_id(), 2);
}
