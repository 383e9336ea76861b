//! The per-file bag of optional metadata values a template is evaluated
//! against.

use vstd::prelude::*;

verus! {

/// The metadata of one media file, as far as the template language reads
/// it: each recognized field either has a value or is absent.
///
/// The surrounding tool fills one record per input file from whatever
/// metadata source it uses; evaluation only reads it.
#[derive(Debug, Clone)]
pub struct MetadataRecord {
    /// The album title, if the file carries one.
    pub album: Option<String>,
    /// The artist, if the file carries one.
    pub artist: Option<String>,
    /// The track title, if the file carries one.
    pub title: Option<String>,
    /// The track number, if the file carries one.
    pub track: Option<u32>,
    /// The release year, if the file carries one (assumed non-negative).
    pub year: Option<u32>,
}

/// The mathematical model of a [`MetadataRecord`]: the same five optional
/// values, with strings as character sequences.
pub struct SpecRecord {
    pub album: Option<Seq<char>>,
    pub artist: Option<Seq<char>>,
    pub title: Option<Seq<char>>,
    pub track: Option<u32>,
    pub year: Option<u32>,
}

impl View for MetadataRecord {
    type V = SpecRecord;

    open spec fn view(&self) -> SpecRecord {
        SpecRecord {
            album: match self.album {
                Some(s) => Some(s@),
                None => None,
            },
            artist: match self.artist {
                Some(s) => Some(s@),
                None => None,
            },
            title: match self.title {
                Some(s) => Some(s@),
                None => None,
            },
            track: self.track,
            year: self.year,
        }
    }
}

} // verus!
