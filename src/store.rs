use vstd::prelude::*;
use crate::record::{Artist, AudioFile, Timestamp};
use crate::text::{contains_ignoring_ascii_case, contains_text};

verus! {

/// Why a store operation did not complete.
#[derive(Debug, Clone, Copy, PartialEq, Eq, Structural)]
pub enum StoreError {
    /// No row has the requested id.
    NotFound,
    /// Every id a table can assign has been handed out.
    IdsExhausted,
    /// A row to restore has id 0, the largest id, or the id of a stored row.
    InvalidId,
}

/// The media library's tables: artists, audio files, and the junction table
/// linking artists to audio files as `(artist_id, audio_file_id)` pairs.
///
/// Rows keep the order in which they were inserted. Ids are assigned by the
/// store, counting up from 1, and never reused.
pub struct Catalog {
    artists: Vec<Artist>,
    audio_files: Vec<AudioFile>,
    artist_links: Vec<(usize, usize)>,
    next_artist_id: usize,
    next_audio_file_id: usize,
}

/// Every artist id lies in `1..next` and no two rows share one.
pub open spec fn artist_ids_valid(rows: Seq<Artist>, next: usize) -> bool {
    &&& forall|i: int| 0 <= i < rows.len() ==> 1 <= #[trigger] rows[i].artist_id < next
    &&& forall|i: int, j: int|
        0 <= i < rows.len() && 0 <= j < rows.len() && i != j ==> #[trigger] rows[i].artist_id
            != #[trigger] rows[j].artist_id
}

/// Every audio-file id lies in `1..next` and no two rows share one.
pub open spec fn audio_file_ids_valid(rows: Seq<AudioFile>, next: usize) -> bool {
    &&& forall|i: int| 0 <= i < rows.len() ==> 1 <= #[trigger] rows[i].audio_file_id < next
    &&& forall|i: int, j: int|
        0 <= i < rows.len() && 0 <= j < rows.len() && i != j ==> #[trigger] rows[i].audio_file_id
            != #[trigger] rows[j].audio_file_id
}

/// Some artist row has the id.
pub open spec fn has_artist(rows: Seq<Artist>, id: usize) -> bool {
    exists|i: int| 0 <= i < rows.len() && #[trigger] rows[i].artist_id == id
}

/// Some audio-file row has the id.
pub open spec fn has_audio_file(rows: Seq<AudioFile>, id: usize) -> bool {
    exists|i: int| 0 <= i < rows.len() && #[trigger] rows[i].audio_file_id == id
}

/// The record as stored under `id`.
pub open spec fn with_artist_id(a: Artist, id: usize) -> Artist {
    Artist {
        artist_id: id,
        artist_name: a.artist_name,
        artist_thumbnail: a.artist_thumbnail,
        date_created: a.date_created,
        last_modified: a.last_modified,
    }
}

/// The record as stored under `id`.
pub open spec fn with_audio_file_id(f: AudioFile, id: usize) -> AudioFile {
    AudioFile {
        audio_file_id: id,
        file_name: f.file_name,
        file_path: f.file_path,
        thumbnail: f.thumbnail,
        duration: f.duration,
        plays: f.plays,
        sample_rate: f.sample_rate,
        date_created: f.date_created,
        last_modified: f.last_modified,
    }
}

/// The record with `last_modified` set to `at`.
pub open spec fn touched(a: Artist, at: Timestamp) -> Artist {
    Artist {
        artist_id: a.artist_id,
        artist_name: a.artist_name,
        artist_thumbnail: a.artist_thumbnail,
        date_created: a.date_created,
        last_modified: at,
    }
}

/// Whether an artist row keeps a different id.
pub open spec fn artist_id_differs(id: usize) -> spec_fn(Artist) -> bool {
    |a: Artist| a.artist_id != id
}

/// Whether a link belongs to another artist.
pub open spec fn link_of_other_artist(id: usize) -> spec_fn((usize, usize)) -> bool {
    |l: (usize, usize)| l.0 != id
}

/// Whether a link is any other than `(artist_id, audio_file_id)`.
pub open spec fn link_differs(artist_id: usize, audio_file_id: usize) -> spec_fn(
    (usize, usize),
) -> bool {
    |l: (usize, usize)| l != (artist_id, audio_file_id)
}

/// The artist table with the row of `id` removed.
pub open spec fn artists_without(rows: Seq<Artist>, id: usize) -> Seq<Artist> {
    rows.filter(artist_id_differs(id))
}

/// The junction table with every link of artist `id` removed.
pub open spec fn links_without_artist(links: Seq<(usize, usize)>, id: usize) -> Seq<(usize, usize)> {
    links.filter(link_of_other_artist(id))
}

/// The junction table with every copy of one link removed.
pub open spec fn links_without(
    links: Seq<(usize, usize)>,
    artist_id: usize,
    audio_file_id: usize,
) -> Seq<(usize, usize)> {
    links.filter(link_differs(artist_id, audio_file_id))
}

/// The artist table after the name, thumbnail and modification time of the
/// row of `id`, if there is one, are overwritten with those of `rec`; the
/// row keeps its id and creation time.
pub open spec fn overwritten(rows: Seq<Artist>, id: usize, rec: Artist) -> Seq<Artist> {
    Seq::new(
        rows.len(),
        |i: int|
            if rows[i].artist_id == id {
                Artist {
                    artist_id: id,
                    artist_name: rec.artist_name,
                    artist_thumbnail: rec.artist_thumbnail,
                    date_created: rows[i].date_created,
                    last_modified: rec.last_modified,
                }
            } else {
                rows[i]
            },
    )
}

/// The junction table links the artist to the audio file at least once.
pub open spec fn is_linked(links: Seq<(usize, usize)>, artist_id: usize, audio_file_id: usize) -> bool {
    links.contains((artist_id, audio_file_id))
}

/// Whether an audio file is linked to artist `id`.
pub open spec fn linked_to(links: Seq<(usize, usize)>, id: usize) -> spec_fn(AudioFile) -> bool {
    |f: AudioFile| is_linked(links, id, f.audio_file_id)
}

/// Whether an audio file is linked to artist `id` and its name contains
/// `term`, ASCII letters compared without regard to case.
pub open spec fn linked_and_named(links: Seq<(usize, usize)>, id: usize, term: Seq<char>) -> spec_fn(
    AudioFile,
) -> bool {
    |f: AudioFile| is_linked(links, id, f.audio_file_id) && contains_ignoring_ascii_case(f.file_name@, term)
}

/// Whether an artist's name contains `term`, ASCII letters compared without
/// regard to case.
pub open spec fn name_contains(term: Seq<char>) -> spec_fn(Artist) -> bool {
    |a: Artist| contains_ignoring_ascii_case(a.artist_name@, term)
}

/// The audio files linked to artist `id`, each once, in table order.
pub open spec fn linked_files(files: Seq<AudioFile>, links: Seq<(usize, usize)>, id: usize) -> Seq<
    AudioFile,
> {
    files.filter(linked_to(links, id))
}

/// The audio files linked to artist `id` whose name contains `term`, in table order.
pub open spec fn linked_files_named(
    files: Seq<AudioFile>,
    links: Seq<(usize, usize)>,
    id: usize,
    term: Seq<char>,
) -> Seq<AudioFile> {
    files.filter(linked_and_named(links, id, term))
}

/// The artists whose name contains `term`, in table order.
pub open spec fn artists_named(rows: Seq<Artist>, term: Seq<char>) -> Seq<Artist> {
    rows.filter(name_contains(term))
}

/// Oldest-modified first.
pub open spec fn sorted_by_modified(s: Seq<Artist>) -> bool {
    forall|i: int, j: int| 0 <= i <= j < s.len() ==> s[i].last_modified <= s[j].last_modified
}

/// `out` holds the rows of `rows`, each once, in some order (given that no two rows are equal).
pub open spec fn same_rows(out: Seq<Artist>, rows: Seq<Artist>) -> bool {
    &&& out.len() == rows.len()
    &&& forall|i: int| 0 <= i < out.len() ==> rows.contains(#[trigger] out[i])
    &&& forall|j: int| 0 <= j < rows.len() ==> out.contains(#[trigger] rows[j])
}

/// `s` with its first `i + 1` elements filtered, in terms of its first `i`.
pub proof fn lemma_filter_prefix<A>(s: Seq<A>, p: spec_fn(A) -> bool, i: int)
    requires
        0 <= i < s.len(),
    ensures
        s.subrange(0, i + 1).filter(p) == (if p(s[i]) {
            s.subrange(0, i).filter(p).push(s[i])
        } else {
            s.subrange(0, i).filter(p)
        }),
{
    reveal(Seq::filter);
    assert(s.subrange(0, i + 1).drop_last() =~= s.subrange(0, i));
}

impl Catalog {
    /// The artist table, in insertion order.
    pub closed spec fn artist_rows(&self) -> Seq<Artist> {
        self.artists@
    }

    /// The audio-file table, in insertion order.
    pub closed spec fn audio_file_rows(&self) -> Seq<AudioFile> {
        self.audio_files@
    }

    /// The artist/audio-file junction table, in insertion order.
    pub closed spec fn links(&self) -> Seq<(usize, usize)> {
        self.artist_links@
    }

    /// The id the next inserted artist gets.
    pub closed spec fn next_artist_id(&self) -> usize {
        self.next_artist_id
    }

    /// The id the next inserted audio file gets.
    pub closed spec fn next_audio_file_id(&self) -> usize {
        self.next_audio_file_id
    }

    pub open spec fn wf(&self) -> bool {
        &&& artist_ids_valid(self.artist_rows(), self.next_artist_id())
        &&& audio_file_ids_valid(self.audio_file_rows(), self.next_audio_file_id())
        &&& 1 <= self.next_artist_id()
        &&& 1 <= self.next_audio_file_id()
    }

    /// An empty store.
    pub fn new() -> (r: Catalog)
        ensures
            r.wf(),
            r.artist_rows() == Seq::<Artist>::empty(),
            r.audio_file_rows() == Seq::<AudioFile>::empty(),
            r.links() == Seq::<(usize, usize)>::empty(),
            r.next_artist_id() == 1,
            r.next_audio_file_id() == 1,
    {
        Catalog {
            artists: Vec::new(),
            audio_files: Vec::new(),
            artist_links: Vec::new(),
            next_artist_id: 1,
            next_audio_file_id: 1,
        }
    }

    /// Puts back an artist row read from persistent storage, keeping its id;
    /// later inserts get ids above it. Fails with `InvalidId`, changing
    /// nothing, when the id is 0, the largest `usize`, or already stored.
    pub fn restore_artist(&mut self, row: Artist) -> (r: Result<(), StoreError>)
        requires
            old(self).wf(),
        ensures
            final(self).wf(),
            final(self).audio_file_rows() == old(self).audio_file_rows(),
            final(self).links() == old(self).links(),
            final(self).next_audio_file_id() == old(self).next_audio_file_id(),
            r is Ok <==> (row.artist_id != 0 && row.artist_id != usize::MAX && !has_artist(
                old(self).artist_rows(),
                row.artist_id,
            )),
            r is Ok ==> final(self).artist_rows() == old(self).artist_rows().push(row),
            r is Ok ==> final(self).next_artist_id() == if row.artist_id < old(self).next_artist_id() {
                old(self).next_artist_id()
            } else {
                (row.artist_id + 1) as usize
            },
            r is Err ==> r == Err::<(), StoreError>(StoreError::InvalidId) && *final(self) == *old(
                self,
            ),
    {
        let id = row.artist_id;
        if id == 0 || id == usize::MAX {
            return Err(StoreError::InvalidId);
        }
        if self.find_artist(id).is_some() {
            return Err(StoreError::InvalidId);
        }
        self.artists.push(row);
        if id >= self.next_artist_id {
            self.next_artist_id = id + 1;
        }
        Ok(())
    }

    /// Puts back an audio-file row read from persistent storage, keeping its
    /// id; later inserts get ids above it. Fails with `InvalidId`, changing
    /// nothing, when the id is 0, the largest `usize`, or already stored.
    pub fn restore_audio_file(&mut self, row: AudioFile) -> (r: Result<(), StoreError>)
        requires
            old(self).wf(),
        ensures
            final(self).wf(),
            final(self).artist_rows() == old(self).artist_rows(),
            final(self).links() == old(self).links(),
            final(self).next_artist_id() == old(self).next_artist_id(),
            r is Ok <==> (row.audio_file_id != 0 && row.audio_file_id != usize::MAX && !has_audio_file(
                old(self).audio_file_rows(),
                row.audio_file_id,
            )),
            r is Ok ==> final(self).audio_file_rows() == old(self).audio_file_rows().push(row),
            r is Ok ==> final(self).next_audio_file_id() == if row.audio_file_id
                < old(self).next_audio_file_id() {
                old(self).next_audio_file_id()
            } else {
                (row.audio_file_id + 1) as usize
            },
            r is Err ==> r == Err::<(), StoreError>(StoreError::InvalidId) && *final(self) == *old(
                self,
            ),
    {
        let id = row.audio_file_id;
        if id == 0 || id == usize::MAX {
            return Err(StoreError::InvalidId);
        }
        if self.find_audio_file(id).is_some() {
            return Err(StoreError::InvalidId);
        }
        self.audio_files.push(row);
        if id >= self.next_audio_file_id {
            self.next_audio_file_id = id + 1;
        }
        Ok(())
    }

    /// Puts back a link read from persistent storage; like a new link, it is
    /// not checked.
    pub fn restore_link(&mut self, artist_id: usize, audio_file_id: usize)
        requires
            old(self).wf(),
        ensures
            final(self).wf(),
            final(self).links() == old(self).links().push((artist_id, audio_file_id)),
            final(self).artist_rows() == old(self).artist_rows(),
            final(self).audio_file_rows() == old(self).audio_file_rows(),
            final(self).next_artist_id() == old(self).next_artist_id(),
            final(self).next_audio_file_id() == old(self).next_audio_file_id(),
    {
        self.artist_links.push((artist_id, audio_file_id));
    }

    /// Keeps only the artist rows whose id is not `id`.
    fn drop_artist_rows(&mut self, id: usize)
        requires
            old(self).wf(),
        ensures
            final(self).wf(),
            final(self).artist_rows() == artists_without(old(self).artist_rows(), id),
            final(self).audio_file_rows() == old(self).audio_file_rows(),
            final(self).links() == old(self).links(),
            final(self).next_artist_id() == old(self).next_artist_id(),
            final(self).next_audio_file_id() == old(self).next_audio_file_id(),
    {
        let ghost rows = self.artists@;
        let mut kept: Vec<Artist> = Vec::new();
        let mut i: usize = 0;
        while i < self.artists.len()
            invariant
                self.artists@ == rows,
                artist_ids_valid(rows, self.next_artist_id),
                i <= rows.len(),
                kept@ == rows.subrange(0, i as int).filter(artist_id_differs(id)),
                artist_ids_valid(kept@, self.next_artist_id),
                forall|t: int|
                    0 <= t < kept@.len() ==> exists|k: int|
                        0 <= k < i && #[trigger] kept@[t] == rows[k],
            decreases rows.len() - i,
        {
            proof {
                lemma_filter_prefix(rows, artist_id_differs(id), i as int);
            }
            if self.artists[i].artist_id != id {
                let ghost before = kept@;
                kept.push(self.artists[i].clone());
                assert(forall|t: int| 0 <= t < before.len() ==> kept@[t] == before[t]);
            }
            i = i + 1;
        }
        assert(rows.subrange(0, rows.len() as int) =~= rows);
        self.artists = kept;
    }

    /// Keeps only the links of other artists (`artist_only`), or only the
    /// links other than `(artist_id, audio_file_id)`.
    fn drop_links(&mut self, artist_id: usize, audio_file_id: usize, artist_only: bool)
        requires
            old(self).wf(),
        ensures
            final(self).wf(),
            artist_only ==> final(self).links() == links_without_artist(old(self).links(), artist_id),
            !artist_only ==> final(self).links() == links_without(
                old(self).links(),
                artist_id,
                audio_file_id,
            ),
            final(self).artist_rows() == old(self).artist_rows(),
            final(self).audio_file_rows() == old(self).audio_file_rows(),
            final(self).next_artist_id() == old(self).next_artist_id(),
            final(self).next_audio_file_id() == old(self).next_audio_file_id(),
    {
        let ghost links = self.artist_links@;
        let ghost keep = if artist_only {
            link_of_other_artist(artist_id)
        } else {
            link_differs(artist_id, audio_file_id)
        };
        let mut kept: Vec<(usize, usize)> = Vec::new();
        let mut i: usize = 0;
        while i < self.artist_links.len()
            invariant
                self.artist_links@ == links,
                i <= links.len(),
                kept@ == links.subrange(0, i as int).filter(keep),
                keep == (if artist_only {
                    link_of_other_artist(artist_id)
                } else {
                    link_differs(artist_id, audio_file_id)
                }),
            decreases links.len() - i,
        {
            proof {
                lemma_filter_prefix(links, keep, i as int);
            }
            let l = self.artist_links[i];
            let kept_it = if artist_only {
                l.0 != artist_id
            } else {
                !(l.0 == artist_id && l.1 == audio_file_id)
            };
            if kept_it {
                kept.push(l);
            }
            i = i + 1;
        }
        assert(links.subrange(0, links.len() as int) =~= links);
        self.artist_links = kept;
    }

    /// Whether the junction table links the artist to the audio file.
    fn linked(&self, artist_id: usize, audio_file_id: usize) -> (r: bool)
        ensures
            r == is_linked(self.links(), artist_id, audio_file_id),
    {
        let mut i: usize = 0;
        while i < self.artist_links.len()
            invariant
                i <= self.artist_links@.len(),
                forall|k: int| 0 <= k < i ==> self.artist_links@[k] != (artist_id, audio_file_id),
            decreases self.artist_links@.len() - i,
        {
            let l = self.artist_links[i];
            if l.0 == artist_id && l.1 == audio_file_id {
                assert(self.artist_links@[i as int] == (artist_id, audio_file_id));
                return true;
            }
            i = i + 1;
        }
        false
    }

    /// The audio files linked to the artist, and, where `term` is given,
    /// whose name contains it.
    fn files_linked_to(&self, id: usize, term: Option<&str>) -> (r: Vec<AudioFile>)
        ensures
            term is None ==> r@ == linked_files(self.audio_file_rows(), self.links(), id),
            term is Some ==> r@ == linked_files_named(
                self.audio_file_rows(),
                self.links(),
                id,
                term->Some_0@,
            ),
    {
        let ghost files = self.audio_files@;
        let ghost keep = match term {
            None => linked_to(self.links(), id),
            Some(t) => linked_and_named(self.links(), id, t@),
        };
        let mut out: Vec<AudioFile> = Vec::new();
        let mut i: usize = 0;
        while i < self.audio_files.len()
            invariant
                files == self.audio_files@,
                i <= files.len(),
                out@ == files.subrange(0, i as int).filter(keep),
                keep == (match term {
                    None => linked_to(self.links(), id),
                    Some(t) => linked_and_named(self.links(), id, t@),
                }),
            decreases files.len() - i,
        {
            proof {
                lemma_filter_prefix(files, keep, i as int);
            }
            let f = &self.audio_files[i];
            let mut wanted = self.linked(id, f.audio_file_id);
            if wanted {
                if let Some(t) = term {
                    wanted = contains_text(f.file_name.as_str(), t);
                }
            }
            if wanted {
                out.push(f.clone());
            }
            i = i + 1;
        }
        assert(files.subrange(0, files.len() as int) =~= files);
        out
    }

    /// The id that the next successful artist insert assigns.
    pub fn upcoming_artist_id(&self) -> (r: usize)
        ensures
            r == self.next_artist_id(),
    {
        self.next_artist_id
    }

    /// The id that the next successful audio-file insert assigns.
    pub fn upcoming_audio_file_id(&self) -> (r: usize)
        ensures
            r == self.next_audio_file_id(),
    {
        self.next_audio_file_id
    }

    /// Position of the audio-file row with the given id, if any.
    fn find_audio_file(&self, id: usize) -> (r: Option<usize>)
        requires
            self.wf(),
        ensures
            match r {
                Some(i) => i < self.audio_file_rows().len()
                    && self.audio_file_rows()[i as int].audio_file_id == id,
                None => !has_audio_file(self.audio_file_rows(), id),
            },
    {
        let mut i: usize = 0;
        while i < self.audio_files.len()
            invariant
                i <= self.audio_files@.len(),
                forall|k: int| 0 <= k < i ==> self.audio_files@[k].audio_file_id != id,
            decreases self.audio_files@.len() - i,
        {
            if self.audio_files[i].audio_file_id == id {
                return Some(i);
            }
            i = i + 1;
        }
        None
    }

    /// Position of the artist row with the given id, if any.
    fn find_artist(&self, id: usize) -> (r: Option<usize>)
        requires
            self.wf(),
        ensures
            match r {
                Some(i) => i < self.artist_rows().len() && self.artist_rows()[i as int].artist_id
                    == id,
                None => !has_artist(self.artist_rows(), id),
            },
    {
        let mut i: usize = 0;
        while i < self.artists.len()
            invariant
                i <= self.artists@.len(),
                forall|k: int| 0 <= k < i ==> self.artists@[k].artist_id != id,
            decreases self.artists@.len() - i,
        {
            if self.artists[i].artist_id == id {
                return Some(i);
            }
            i = i + 1;
        }
        None
    }
}

impl Artist {
    /// Stores the artist, timestamps as the record holds them, under a fresh
    /// id, which is written back into the record. Fails, changing nothing,
    /// when the table has no id left to give.
    pub fn insert(&mut self, store: &mut Catalog) -> (r: Result<(), StoreError>)
        requires
            old(store).wf(),
        ensures
            final(store).wf(),
            final(store).audio_file_rows() == old(store).audio_file_rows(),
            final(store).links() == old(store).links(),
            final(store).next_audio_file_id() == old(store).next_audio_file_id(),
            r is Ok <==> old(store).next_artist_id() < usize::MAX,
            r is Ok ==> {
                &&& *final(self) == with_artist_id(*old(self), old(store).next_artist_id())
                &&& !has_artist(old(store).artist_rows(), final(self).artist_id)
                &&& final(store).artist_rows() == old(store).artist_rows().push(*final(self))
                &&& final(store).next_artist_id() == old(store).next_artist_id() + 1
            },
            r is Err ==> {
                &&& r == Err::<(), StoreError>(StoreError::IdsExhausted)
                &&& *final(self) == *old(self)
                &&& *final(store) == *old(store)
            },
    {
        if store.next_artist_id == usize::MAX {
            return Err(StoreError::IdsExhausted);
        }
        let id = store.next_artist_id;
        self.artist_id = id;
        store.artists.push(self.clone());
        store.next_artist_id = id + 1;
        Ok(())
    }

    /// Sets the record's `last_modified` to `at`, then overwrites the name,
    /// thumbnail and modification time of the row with the given id with the
    /// record's; the row keeps its creation time. A missing id changes no row.
    pub fn update(&mut self, store: &mut Catalog, id: usize, at: Timestamp)
        requires
            old(store).wf(),
        ensures
            final(store).wf(),
            *final(self) == touched(*old(self), at),
            final(store).artist_rows() == overwritten(old(store).artist_rows(), id, *final(self)),
            final(store).audio_file_rows() == old(store).audio_file_rows(),
            final(store).links() == old(store).links(),
            final(store).next_artist_id() == old(store).next_artist_id(),
            final(store).next_audio_file_id() == old(store).next_audio_file_id(),
    {
        self.last_modified = at;
        let ghost rows = store.artists@;
        match store.find_artist(id) {
            Some(i) => {
                let rec = Artist {
                    artist_id: id,
                    artist_name: self.artist_name.clone(),
                    artist_thumbnail: self.artist_thumbnail.clone(),
                    date_created: store.artists[i].date_created,
                    last_modified: self.last_modified,
                };
                store.artists.set(i, rec);
                assert(store.artists@ =~= overwritten(rows, id, *self));
            },
            None => {
                assert(rows =~= overwritten(rows, id, *self));
            },
        }
    }

    /// Removes every link of the artist `id`, then its row. Deleting an id
    /// that is not stored changes nothing.
    pub fn delete(store: &mut Catalog, id: usize)
        requires
            old(store).wf(),
        ensures
            final(store).wf(),
            final(store).artist_rows() == artists_without(old(store).artist_rows(), id),
            final(store).links() == links_without_artist(old(store).links(), id),
            final(store).audio_file_rows() == old(store).audio_file_rows(),
            final(store).next_artist_id() == old(store).next_artist_id(),
            final(store).next_audio_file_id() == old(store).next_audio_file_id(),
    {
        store.drop_links(id, 0, true);
        store.drop_artist_rows(id);
    }

    /// Links this artist to an audio file. Neither id is checked, and a link
    /// that is already there is added once more.
    pub fn add_audio_file(&mut self, store: &mut Catalog, audio_file_id: usize)
        requires
            old(store).wf(),
        ensures
            *final(self) == *old(self),
            final(store).wf(),
            final(store).links() == old(store).links().push((old(self).artist_id, audio_file_id)),
            final(store).artist_rows() == old(store).artist_rows(),
            final(store).audio_file_rows() == old(store).audio_file_rows(),
            final(store).next_artist_id() == old(store).next_artist_id(),
            final(store).next_audio_file_id() == old(store).next_audio_file_id(),
    {
        store.artist_links.push((self.artist_id, audio_file_id));
    }

    /// Removes every link between this artist and the audio file; there need
    /// not be any.
    pub fn remove_audio_file(&self, store: &mut Catalog, audio_file_id: usize)
        requires
            old(store).wf(),
        ensures
            final(store).wf(),
            final(store).links() == links_without(old(store).links(), self.artist_id, audio_file_id),
            final(store).artist_rows() == old(store).artist_rows(),
            final(store).audio_file_rows() == old(store).audio_file_rows(),
            final(store).next_artist_id() == old(store).next_artist_id(),
            final(store).next_audio_file_id() == old(store).next_audio_file_id(),
    {
        store.drop_links(self.artist_id, audio_file_id, false);
    }

    /// The audio files linked to the artist `id`, each once however often it
    /// is linked, in table order; `NotFound` when no artist has the id.
    pub fn retrieve_audio_files(store: &Catalog, id: usize) -> (r: Result<Vec<AudioFile>, StoreError>)
        requires
            store.wf(),
        ensures
            r is Ok <==> has_artist(store.artist_rows(), id),
            r is Ok ==> r->Ok_0@ == linked_files(store.audio_file_rows(), store.links(), id),
            r is Err ==> r == Err::<Vec<AudioFile>, StoreError>(StoreError::NotFound),
    {
        match store.find_artist(id) {
            Some(_) => Ok(store.files_linked_to(id, None)),
            None => Err(StoreError::NotFound),
        }
    }

    /// The audio files linked to the artist `id` whose name contains
    /// `search_term`, ASCII letters compared without regard to case, in table
    /// order.
    pub fn search_audio_files(store: &Catalog, id: usize, search_term: &str) -> (r: Vec<AudioFile>)
        requires
            store.wf(),
        ensures
            r@ == linked_files_named(store.audio_file_rows(), store.links(), id, search_term@),
    {
        store.files_linked_to(id, Some(search_term))
    }

    /// The artists whose name contains `search_term`, ASCII letters compared
    /// without regard to case, in table order.
    pub fn search(store: &Catalog, search_term: &str) -> (r: Vec<Artist>)
        requires
            store.wf(),
        ensures
            r@ == artists_named(store.artist_rows(), search_term@),
    {
        let ghost rows = store.artists@;
        let mut out: Vec<Artist> = Vec::new();
        let mut i: usize = 0;
        while i < store.artists.len()
            invariant
                rows == store.artists@,
                i <= rows.len(),
                out@ == rows.subrange(0, i as int).filter(name_contains(search_term@)),
            decreases rows.len() - i,
        {
            proof {
                lemma_filter_prefix(rows, name_contains(search_term@), i as int);
            }
            if contains_text(store.artists[i].artist_name.as_str(), search_term) {
                out.push(store.artists[i].clone());
            }
            i = i + 1;
        }
        assert(rows.subrange(0, rows.len() as int) =~= rows);
        out
    }

    /// Every artist row, oldest-modified first; rows modified at the same
    /// time come in no promised order.
    pub fn retrieve(store: &Catalog) -> (r: Vec<Artist>)
        requires
            store.wf(),
        ensures
            same_rows(r@, store.artist_rows()),
            sorted_by_modified(r@),
    {
        let ghost rows = store.artists@;
        let mut out: Vec<Artist> = Vec::new();
        let mut i: usize = 0;
        while i < store.artists.len()
            invariant
                rows == store.artists@,
                i <= rows.len(),
                out@.len() == i,
                sorted_by_modified(out@),
                forall|t: int| 0 <= t < out@.len() ==> rows.contains(#[trigger] out@[t]),
                forall|k: int| 0 <= k < i ==> out@.contains(#[trigger] rows[k]),
            decreases rows.len() - i,
        {
            let a = store.artists[i].clone();
            let mut p: usize = 0;
            while p < out.len() && out[p].last_modified <= a.last_modified
                invariant
                    p <= out@.len(),
                    forall|t: int| 0 <= t < p ==> out@[t].last_modified <= a.last_modified,
                decreases out@.len() - p,
            {
                p = p + 1;
            }
            let ghost before = out@;
            out.insert(p, a);
            proof {
                before.insert_ensures(p as int, a);
                assert forall|t: int| 0 <= t < out@.len() implies rows.contains(#[trigger] out@[t]) by {
                    if t < p {
                        assert(out@[t] == before[t]);
                    } else if t > p {
                        assert(out@[t] == before[t - 1]);
                    } else {
                        assert(rows[i as int] == a);
                    }
                }
                assert forall|k: int| 0 <= k < i + 1 implies out@.contains(#[trigger] rows[k]) by {
                    if k == i {
                        assert(out@[p as int] == rows[k]);
                    } else {
                        assert(before.contains(rows[k]));
                        let t = choose|t: int| 0 <= t < before.len() && before[t] == rows[k];
                        if t < p {
                            assert(out@[t] == rows[k]);
                        } else {
                            assert(out@[t + 1] == rows[k]);
                        }
                    }
                }
                assert forall|x: int, y: int| 0 <= x <= y < out@.len() implies out@[x].last_modified
                    <= out@[y].last_modified by {
                    if y < p {
                        assert(out@[x] == before[x] && out@[y] == before[y]);
                    } else if x > p {
                        assert(out@[x] == before[x - 1] && out@[y] == before[y - 1]);
                    } else if x == p && y > p {
                        assert(before[p as int].last_modified > a.last_modified);
                        assert(out@[y] == before[y - 1]);
                    } else if x < p && y == p {
                        assert(out@[x] == before[x]);
                    } else if x < p && y > p {
                        assert(out@[x] == before[x] && out@[y] == before[y - 1]);
                    }
                }
            }
            i = i + 1;
        }
        out
    }

    /// The artist row with the given id; `NotFound` when there is none.
    pub fn view(store: &Catalog, id: usize) -> (r: Result<Artist, StoreError>)
        requires
            store.wf(),
        ensures
            r is Ok <==> has_artist(store.artist_rows(), id),
            r is Ok ==> r->Ok_0.artist_id == id && store.artist_rows().contains(r->Ok_0),
            r is Err ==> r == Err::<Artist, StoreError>(StoreError::NotFound),
    {
        match store.find_artist(id) {
            Some(i) => Ok(store.artists[i].clone()),
            None => Err(StoreError::NotFound),
        }
    }
}

impl AudioFile {
    /// Stores the audio file, timestamps as the record holds them, under a
    /// fresh id, which is written back into the record. Fails, changing
    /// nothing, when the table has no id left to give.
    pub fn insert(&mut self, store: &mut Catalog) -> (r: Result<(), StoreError>)
        requires
            old(store).wf(),
        ensures
            final(store).wf(),
            final(store).artist_rows() == old(store).artist_rows(),
            final(store).links() == old(store).links(),
            final(store).next_artist_id() == old(store).next_artist_id(),
            r is Ok <==> old(store).next_audio_file_id() < usize::MAX,
            r is Ok ==> {
                &&& *final(self) == with_audio_file_id(*old(self), old(store).next_audio_file_id())
                &&& !has_audio_file(old(store).audio_file_rows(), final(self).audio_file_id)
                &&& final(store).audio_file_rows() == old(store).audio_file_rows().push(
                    *final(self),
                )
                &&& final(store).next_audio_file_id() == old(store).next_audio_file_id() + 1
            },
            r is Err ==> {
                &&& r == Err::<(), StoreError>(StoreError::IdsExhausted)
                &&& *final(self) == *old(self)
                &&& *final(store) == *old(store)
            },
    {
        if store.next_audio_file_id == usize::MAX {
            return Err(StoreError::IdsExhausted);
        }
        let id = store.next_audio_file_id;
        self.audio_file_id = id;
        store.audio_files.push(self.clone());
        store.next_audio_file_id = id + 1;
        Ok(())
    }
}

} // verus!
