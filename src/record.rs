use vstd::prelude::*;

verus! {

/// A point in time: microseconds since 1970-01-01 00:00:00 UTC.
pub type Timestamp = i64;

/// One row of the artist table. `artist_id` is 0 until the record is stored.
#[derive(Debug)]
pub struct Artist {
    pub artist_id: usize,
    pub artist_name: String,
    pub artist_thumbnail: String,
    pub date_created: Timestamp,
    pub last_modified: Timestamp,
}

/// One row of the audio-file table. `audio_file_id` is 0 until the record is stored.
#[derive(Debug)]
pub struct AudioFile {
    pub audio_file_id: usize,
    pub file_name: String,
    pub file_path: String,
    pub thumbnail: String,
    pub duration: u64,
    pub plays: u64,
    pub sample_rate: u64,
    pub date_created: Timestamp,
    pub last_modified: Timestamp,
}

impl Clone for Artist {
    fn clone(&self) -> (r: Self)
        ensures
            r == *self,
    {
        Artist {
            artist_id: self.artist_id,
            artist_name: self.artist_name.clone(),
            artist_thumbnail: self.artist_thumbnail.clone(),
            date_created: self.date_created,
            last_modified: self.last_modified,
        }
    }
}

impl Clone for AudioFile {
    fn clone(&self) -> (r: Self)
        ensures
            r == *self,
    {
        AudioFile {
            audio_file_id: self.audio_file_id,
            file_name: self.file_name.clone(),
            file_path: self.file_path.clone(),
            thumbnail: self.thumbnail.clone(),
            duration: self.duration,
            plays: self.plays,
            sample_rate: self.sample_rate,
            date_created: self.date_created,
            last_modified: self.last_modified,
        }
    }
}

impl Artist {
    /// A new, not yet stored artist (id 0) with the given name and thumbnail,
    /// created and last modified at `at`.
    pub fn new(name: &str, thumbnail: &str, at: Timestamp) -> (r: Artist)
        ensures
            r.artist_id == 0,
            r.artist_name@ == name@,
            r.artist_thumbnail@ == thumbnail@,
            r.date_created == at,
            r.last_modified == at,
    {
        Artist {
            artist_id: 0,
            artist_name: String::from_str(name),
            artist_thumbnail: String::from_str(thumbnail),
            date_created: at,
            last_modified: at,
        }
    }
}

impl AudioFile {
    /// A new, not yet stored audio file (id 0, never played), created and
    /// last modified at `at`.
    pub fn new(
        file_name: &str,
        file_path: &str,
        thumbnail: &str,
        duration: u64,
        sample_rate: u64,
        at: Timestamp,
    ) -> (r: AudioFile)
        ensures
            r.audio_file_id == 0,
            r.file_name@ == file_name@,
            r.file_path@ == file_path@,
            r.thumbnail@ == thumbnail@,
            r.duration == duration,
            r.plays == 0,
            r.sample_rate == sample_rate,
            r.date_created == at,
            r.last_modified == at,
    {
        AudioFile {
            audio_file_id: 0,
            file_name: String::from_str(file_name),
            file_path: String::from_str(file_path),
            thumbnail: String::from_str(thumbnail),
            duration,
            plays: 0,
            sample_rate,
            date_created: at,
            last_modified: at,
        }
    }
}

} // verus!
