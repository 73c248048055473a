use vstd::prelude::*;
use crate::record::{Artist, AudioFile, Timestamp};
use crate::store::{
    artists_without, audio_file_ids_valid, has_artist, is_linked, linked_files,
    linked_to, links_without_artist, overwritten, touched, Catalog,
};

verus! {

/// Whatever a filter keeps was in the sequence.
pub proof fn lemma_filter_subset<A>(s: Seq<A>, p: spec_fn(A) -> bool, x: A)
    requires
        s.filter(p).contains(x),
    ensures
        s.contains(x),
    decreases s.len(),
{
    reveal(Seq::filter);
    if s.len() > 0 {
        let rest = s.drop_last().filter(p);
        if rest.contains(x) {
            lemma_filter_subset(s.drop_last(), p, x);
            let j = choose|j: int| 0 <= j < s.drop_last().len() && s.drop_last()[j] == x;
            assert(s[j] == x);
        } else {
            assert(x == s.last());
            assert(s[s.len() - 1] == x);
        }
    }
}

/// A filtered audio-file table still has distinct, valid ids.
pub proof fn lemma_filter_keeps_audio_file_ids(
    files: Seq<AudioFile>,
    next: usize,
    p: spec_fn(AudioFile) -> bool,
)
    requires
        audio_file_ids_valid(files, next),
    ensures
        audio_file_ids_valid(files.filter(p), next),
    decreases files.len(),
{
    reveal(Seq::filter);
    if files.len() > 0 {
        let init = files.drop_last();
        assert(audio_file_ids_valid(init, next)) by {
            assert forall|i: int, j: int|
                0 <= i < init.len() && 0 <= j < init.len() && i != j implies #[trigger] init[i].audio_file_id
                != #[trigger] init[j].audio_file_id by {
                assert(init[i] == files[i] && init[j] == files[j]);
            }
        }
        lemma_filter_keeps_audio_file_ids(init, next, p);
        let rest = init.filter(p);
        if p(files.last()) {
            let out = rest.push(files.last());
            assert forall|i: int| 0 <= i < rest.len() implies #[trigger] rest[i].audio_file_id
                != files.last().audio_file_id by {
                assert(rest.contains(rest[i]));
                lemma_filter_subset(init, p, rest[i]);
                let j = choose|j: int| 0 <= j < init.len() && init[j] == rest[i];
                assert(files[j] == rest[i]);
                assert(files[files.len() - 1] == files.last());
            }
            assert forall|i: int, j: int|
                0 <= i < out.len() && 0 <= j < out.len() && i != j implies #[trigger] out[i].audio_file_id
                != #[trigger] out[j].audio_file_id by {
                if i < rest.len() && j < rest.len() {
                    assert(out[i] == rest[i] && out[j] == rest[j]);
                } else if i < rest.len() {
                    assert(out[i] == rest[i]);
                } else if j < rest.len() {
                    assert(out[j] == rest[j]);
                }
            }
            assert forall|i: int| 0 <= i < out.len() implies 1 <= #[trigger] out[i].audio_file_id
                < next by {
                if i < rest.len() {
                    assert(out[i] == rest[i]);
                } else {
                    assert(files[files.len() - 1] == files.last());
                }
            }
        }
    }
}

/// After an artist is inserted, it is stored under its new id and is the
/// only row with that id, so looking the id up gives back exactly the
/// inserted record.
pub proof fn law_insert_then_view(before: Catalog, after: Catalog, e: Artist)
    requires
        before.wf(),
        after.wf(),
        !has_artist(before.artist_rows(), e.artist_id),
        after.artist_rows() == before.artist_rows().push(e),
    ensures
        has_artist(after.artist_rows(), e.artist_id),
        forall|r: Artist|
            after.artist_rows().contains(r) && r.artist_id == e.artist_id ==> r == e,
{
    let rows = after.artist_rows();
    let last = rows.len() - 1;
    assert(rows[last] == e);
    assert forall|r: Artist| rows.contains(r) && r.artist_id == e.artist_id implies r == e by {
        let j = choose|j: int| 0 <= j < rows.len() && rows[j] == r;
        if j != last {
            assert(rows[j] == before.artist_rows()[j]);
        }
    }
}

/// Updating row `i` from any record at a time no earlier than the row's last
/// modification leaves the row's creation time as it was and does not move
/// its modification time back.
pub proof fn law_update_timestamps(rows: Seq<Artist>, i: int, e: Artist, at: Timestamp)
    requires
        0 <= i < rows.len(),
        at >= rows[i].last_modified,
    ensures
        ({
            let after = overwritten(rows, rows[i].artist_id, touched(e, at))[i];
            &&& after.date_created == rows[i].date_created
            &&& after.last_modified >= rows[i].last_modified
        }),
{
}

/// Deleting artist `id` leaves no row and no link of it, so a later lookup
/// of `id` fails; any other artist keeps its row and its linked audio files.
pub proof fn law_delete(before: Catalog, after: Catalog, id: usize, other: usize)
    requires
        before.wf(),
        after.artist_rows() == artists_without(before.artist_rows(), id),
        after.links() == links_without_artist(before.links(), id),
        after.audio_file_rows() == before.audio_file_rows(),
        other != id,
    ensures
        !has_artist(after.artist_rows(), id),
        forall|l: (usize, usize)| after.links().contains(l) ==> l.0 != id,
        has_artist(after.artist_rows(), other) == has_artist(before.artist_rows(), other),
        linked_files(after.audio_file_rows(), after.links(), other) == linked_files(
            before.audio_file_rows(),
            before.links(),
            other,
        ),
{
    broadcast use Seq::lemma_filter_contains, Seq::lemma_filter_pred;

    let rows = before.artist_rows();
    let kept = after.artist_rows();
    let links = before.links();
    assert forall|l: (usize, usize)| after.links().contains(l) implies l.0 != id by {
        let j = choose|j: int| 0 <= j < after.links().len() && after.links()[j] == l;
    }
    assert(!has_artist(kept, id)) by {
        if has_artist(kept, id) {
            let j = choose|j: int| 0 <= j < kept.len() && #[trigger] kept[j].artist_id == id;
        }
    }
    if has_artist(rows, other) {
        let j = choose|j: int| 0 <= j < rows.len() && #[trigger] rows[j].artist_id == other;
        assert(kept.contains(rows[j]));
    }
    if has_artist(kept, other) {
        let j = choose|j: int| 0 <= j < kept.len() && #[trigger] kept[j].artist_id == other;
        assert(kept.contains(kept[j]));
        lemma_filter_subset(rows, crate::store::artist_id_differs(id), kept[j]);
    }
    assert forall|f: usize| is_linked(after.links(), other, f) == is_linked(links, other, f) by {
        if is_linked(links, other, f) {
            let j = choose|j: int| 0 <= j < links.len() && links[j] == (other, f);
            assert(after.links().contains(links[j]));
        }
        if is_linked(after.links(), other, f) {
            lemma_filter_subset(links, crate::store::link_of_other_artist(id), (other, f));
        }
    }
    assert(linked_to(after.links(), other) =~= linked_to(links, other));
}

/// After a link from artist `artist_id` to a stored audio file is added, that
/// artist's linked audio files hold that file exactly once, however many
/// times the link was added before.
pub proof fn law_add_then_retrieve(
    before: Catalog,
    after: Catalog,
    artist_id: usize,
    audio_file_id: usize,
)
    requires
        before.wf(),
        after.wf(),
        after.links() == before.links().push((artist_id, audio_file_id)),
        after.audio_file_rows() == before.audio_file_rows(),
        exists|k: int|
            0 <= k < before.audio_file_rows().len()
                && #[trigger] before.audio_file_rows()[k].audio_file_id == audio_file_id,
    ensures
        ({
            let r = linked_files(after.audio_file_rows(), after.links(), artist_id);
            &&& exists|i: int| 0 <= i < r.len() && #[trigger] r[i].audio_file_id == audio_file_id
            &&& forall|i: int, j: int|
                0 <= i < r.len() && 0 <= j < r.len() && #[trigger] r[i].audio_file_id
                    == audio_file_id && #[trigger] r[j].audio_file_id == audio_file_id ==> i == j
        }),
{
    broadcast use Seq::lemma_filter_contains;

    let files = after.audio_file_rows();
    let links = after.links();
    let p = linked_to(links, artist_id);
    let r = files.filter(p);
    let k = choose|k: int| 0 <= k < files.len() && #[trigger] files[k].audio_file_id == audio_file_id;
    assert(links[links.len() - 1] == (artist_id, audio_file_id));
    assert(is_linked(links, artist_id, audio_file_id));
    assert(r.contains(files[k]));
    let i = choose|i: int| 0 <= i < r.len() && r[i] == files[k];
    assert(r[i].audio_file_id == audio_file_id);
    lemma_filter_keeps_audio_file_ids(files, after.next_audio_file_id(), p);
    assert(r == linked_files(files, links, artist_id));
    assert(audio_file_ids_valid(r, after.next_audio_file_id()));
}

} // verus!
