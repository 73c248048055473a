//! A media library's relational data model: artists and audio files, the
//! many-to-many links between them, and the create/read/update/delete and
//! association operations over a store that holds them.

pub mod record;
pub mod text;
pub mod store;
pub mod laws;
