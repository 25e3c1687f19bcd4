//! Client-side logic for the CDDB family of disc-metadata services.
//!
//! The protocol work happens in two stages. The response framer turns the raw
//! bytes of one server reply into a logical payload: it reads the three-digit
//! status line, decides whether a multi-line body follows, undoes the
//! dot-stuffing escape, and rejects error statuses. The record parsers then
//! interpret a framed payload either as a list of album match candidates or as
//! one full disc record in the `KEY=VALUE` (xmcd) layout.
//!
//! All transport (sockets, HTTP) lives outside this crate; the functions here
//! are pure transformations over in-memory text.

use vstd::prelude::*;

pub mod cmd;
pub mod disc;
pub mod error;
pub mod frame;
pub mod query;
pub mod text;

pub use cmd::{DiscInfo, create_query_cmd, create_read_cmd};
pub use disc::parse_read_response;
pub use error::GnuDbError;
pub use frame::{is_terminator_line, parse_raw_response, status_expects_body};
pub use query::{parse_matches, parse_query_response, split_artist_title};

verus! {

/// One candidate album returned by a query command.
#[derive(Debug, Clone, PartialEq)]
pub struct Match {
    pub discid: String,
    pub category: String,
    pub artist: String,
    pub title: String,
}

/// The mathematical content of a [`Match`]: its four fields as character
/// sequences.
pub struct MatchModel {
    pub discid: Seq<char>,
    pub category: Seq<char>,
    pub artist: Seq<char>,
    pub title: Seq<char>,
}

impl View for Match {
    type V = MatchModel;

    open spec fn view(&self) -> MatchModel {
        MatchModel {
            discid: self.discid@,
            category: self.category@,
            artist: self.artist@,
            title: self.title@,
        }
    }
}

impl DeepView for Match {
    type V = MatchModel;

    open spec fn deep_view(&self) -> MatchModel {
        self.view()
    }
}

impl Default for Match {
    fn default() -> (m: Match)
        ensures
            m@.discid =~= Seq::<char>::empty(),
            m@.category =~= Seq::<char>::empty(),
            m@.artist =~= Seq::<char>::empty(),
            m@.title =~= Seq::<char>::empty(),
    {
        Match {
            discid: String::new(),
            category: String::new(),
            artist: String::new(),
            title: String::new(),
        }
    }
}

/// One track of a disc record. The parser fills `number`, `title` and
/// `artist`; `duration` and `composer` are reserved for other sources and
/// stay at their defaults.
#[derive(Debug, Clone, PartialEq)]
pub struct Track {
    pub number: u32,
    pub title: String,
    pub artist: String,
    pub duration: u64,
    pub composer: Option<String>,
}

/// The mathematical content of a [`Track`].
pub struct TrackModel {
    pub number: u32,
    pub title: Seq<char>,
    pub artist: Seq<char>,
    pub duration: u64,
    pub composer: Option<Seq<char>>,
}

impl View for Track {
    type V = TrackModel;

    open spec fn view(&self) -> TrackModel {
        TrackModel {
            number: self.number,
            title: self.title@,
            artist: self.artist@,
            duration: self.duration,
            composer: self.composer.deep_view(),
        }
    }
}

impl DeepView for Track {
    type V = TrackModel;

    open spec fn deep_view(&self) -> TrackModel {
        self.view()
    }
}

/// The track every field of which is still unset.
pub open spec fn empty_track_model() -> TrackModel {
    TrackModel {
        number: 0,
        title: Seq::empty(),
        artist: Seq::empty(),
        duration: 0,
        composer: None,
    }
}

impl Default for Track {
    fn default() -> (t: Track)
        ensures
            t@ == empty_track_model(),
    {
        let t = Track {
            number: 0,
            title: String::new(),
            artist: String::new(),
            duration: 0,
            composer: None,
        };
        t
    }
}

/// One full disc record: album fields and the track list, in the order the
/// server's track indices resolve to.
#[derive(Debug, PartialEq)]
pub struct Disc {
    pub title: String,
    pub artist: String,
    pub year: Option<u16>,
    pub genre: Option<String>,
    pub tracks: Vec<Track>,
}

/// The mathematical content of a [`Disc`].
pub struct DiscModel {
    pub title: Seq<char>,
    pub artist: Seq<char>,
    pub year: Option<u16>,
    pub genre: Option<Seq<char>>,
    pub tracks: Seq<TrackModel>,
}

impl View for Disc {
    type V = DiscModel;

    open spec fn view(&self) -> DiscModel {
        DiscModel {
            title: self.title@,
            artist: self.artist@,
            year: self.year,
            genre: self.genre.deep_view(),
            tracks: self.tracks.deep_view(),
        }
    }
}

impl DeepView for Disc {
    type V = DiscModel;

    open spec fn deep_view(&self) -> DiscModel {
        self.view()
    }
}

/// The record every field of which is still unset.
pub open spec fn empty_disc_model() -> DiscModel {
    DiscModel { title: Seq::empty(), artist: Seq::empty(), year: None, genre: None, tracks: Seq::empty() }
}

impl Default for Disc {
    fn default() -> (d: Disc)
        ensures
            d@ == empty_disc_model(),
    {
        let d = Disc {
            title: String::new(),
            artist: String::new(),
            year: None,
            genre: None,
            tracks: Vec::new(),
        };
        proof {
            assert(d.tracks.deep_view() =~= Seq::<TrackModel>::empty());
        }
        d
    }
}

} // verus!
