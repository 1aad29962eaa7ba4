//! The watch history of one media item: the last play of each viewer.

use vstd::prelude::*;
use vstd::string::*;
use crate::dates::{day_month_year, seconds_have_date, unix_seconds_to_date, WatchDate};
use crate::history::{latest_per_user, records_of, reduce, HistoryItem, RawRecord};
use crate::shared::MediaType;

verus! {

/// The last play of a film by one viewer, as a mathematical value.
pub struct MovieWatch {
    pub display_name: Seq<char>,
    pub last_watched: int,
    pub date_text: Seq<char>,
    pub progress: nat,
}

/// The last play of an episode by one viewer, as a mathematical value.
pub struct EpisodeWatch {
    pub display_name: Seq<char>,
    pub last_watched: int,
    pub date_text: Seq<char>,
    pub progress: nat,
    pub season: nat,
    pub episode: nat,
}

/// A watch history, as a mathematical value.
pub enum WatchSummary {
    Movie(Seq<MovieWatch>),
    TvShow(Seq<EpisodeWatch>),
}

/// The last play of an episode of a series by one viewer.
#[derive(Debug)]
pub struct UserEpisodeWatch {
    pub display_name: String,
    pub last_watched: WatchDate,
    pub progress: u8,
    pub season: u32,
    pub episode: u32,
}

/// The last play of a film by one viewer.
#[derive(Debug)]
pub struct UserMovieWatch {
    pub display_name: String,
    pub last_watched: WatchDate,
    pub progress: u8,
}

/// The last plays of one item, one for each viewer.
#[derive(Debug)]
pub enum WatchHistory {
    Movie(Vec<UserMovieWatch>),
    TvShow(Vec<UserEpisodeWatch>),
}

/// Why a record could not become part of a watch history. `record` is the
/// place of the record among those handed in.
#[derive(Debug, Clone, Copy, PartialEq, Eq, Structural)]
pub enum WatchError {
    /// The timestamp has no calendar date.
    DateOutOfRange { record: usize },
    /// A record of an episode does not say which season.
    MissingSeason { record: usize },
    /// A record of an episode does not say which episode.
    MissingEpisode { record: usize },
}

/// The text that says what went wrong, for the item with this identifier.
pub open spec fn diagnostic_text(error: WatchError, rating_key: Seq<char>) -> Seq<char> {
    match error {
        WatchError::DateOutOfRange { .. } => "Failed to parse unix time for rating key "@
            + rating_key,
        WatchError::MissingSeason { .. } => "Missing season number for rating key "@ + rating_key,
        WatchError::MissingEpisode { .. } => "Missing episode number for rating key "@
            + rating_key,
    }
}

impl WatchError {
    /// The place of the record at fault among those handed in.
    pub fn record(&self) -> (place: usize)
        ensures
            place == match *self {
                WatchError::DateOutOfRange { record } => record,
                WatchError::MissingSeason { record } => record,
                WatchError::MissingEpisode { record } => record,
            },
    {
        match self {
            WatchError::DateOutOfRange { record } => *record,
            WatchError::MissingSeason { record } => *record,
            WatchError::MissingEpisode { record } => *record,
        }
    }

    /// Says what went wrong, and names the item by its identifier.
    pub fn diagnostic(&self, rating_key: &str) -> (text: String)
        ensures
            text@ == diagnostic_text(*self, rating_key@),
    {
        let mut text = match self {
            WatchError::DateOutOfRange { .. } => String::from_str(
                "Failed to parse unix time for rating key ",
            ),
            WatchError::MissingSeason { .. } => String::from_str(
                "Missing season number for rating key ",
            ),
            WatchError::MissingEpisode { .. } => String::from_str(
                "Missing episode number for rating key ",
            ),
        };
        text.append(rating_key);
        text
    }
}

impl View for UserMovieWatch {
    type V = MovieWatch;

    open spec fn view(&self) -> MovieWatch {
        MovieWatch {
            display_name: self.display_name@,
            last_watched: self.last_watched.unix_seconds as int,
            date_text: self.last_watched.day_month_year@,
            progress: self.progress as nat,
        }
    }
}

impl View for UserEpisodeWatch {
    type V = EpisodeWatch;

    open spec fn view(&self) -> EpisodeWatch {
        EpisodeWatch {
            display_name: self.display_name@,
            last_watched: self.last_watched.unix_seconds as int,
            date_text: self.last_watched.day_month_year@,
            progress: self.progress as nat,
            season: self.season as nat,
            episode: self.episode as nat,
        }
    }
}

/// The plays of a vector of film watches, in order.
pub open spec fn movie_watches_of(watches: Seq<UserMovieWatch>) -> Seq<MovieWatch> {
    watches.map_values(|watch: UserMovieWatch| watch@)
}

/// The plays of a vector of episode watches, in order.
pub open spec fn episode_watches_of(watches: Seq<UserEpisodeWatch>) -> Seq<EpisodeWatch> {
    watches.map_values(|watch: UserEpisodeWatch| watch@)
}

impl View for WatchHistory {
    type V = WatchSummary;

    open spec fn view(&self) -> WatchSummary {
        match self {
            WatchHistory::Movie(watches) => WatchSummary::Movie(movie_watches_of(watches@)),
            WatchHistory::TvShow(watches) => WatchSummary::TvShow(episode_watches_of(watches@)),
        }
    }
}

/// The progress that is stored for a completion percentage: the percentage
/// itself, but never more than 100.
pub open spec fn clamped(percent: nat) -> nat {
    if percent > 100 {
        100
    } else {
        percent
    }
}

/// Caps a completion percentage at 100.
pub fn clamp_progress(percent: u32) -> (progress: u8)
    ensures
        progress == clamped(percent as nat),
{
    if percent > 100 {
        100
    } else {
        percent as u8
    }
}

/// What is wrong with the record at place `at`, for an item of this kind.
/// The date is looked at first, then the season, then the episode; a film
/// needs neither of the last two.
pub open spec fn record_error(kind: MediaType, record: RawRecord, at: usize) -> Option<WatchError> {
    if !seconds_have_date(record.date) {
        Some(WatchError::DateOutOfRange { record: at })
    } else if kind == MediaType::Movie {
        None
    } else if record.parent_media_index.is_none() {
        Some(WatchError::MissingSeason { record: at })
    } else if record.media_index.is_none() {
        Some(WatchError::MissingEpisode { record: at })
    } else {
        None
    }
}

/// The film watch that a record gives.
pub open spec fn movie_watch_of(record: RawRecord) -> MovieWatch {
    MovieWatch {
        display_name: record.user,
        last_watched: record.date,
        date_text: day_month_year(record.date * 1000),
        progress: clamped(record.percent_complete),
    }
}

/// The episode watch that a record gives.
pub open spec fn episode_watch_of(record: RawRecord) -> EpisodeWatch {
    EpisodeWatch {
        display_name: record.user,
        last_watched: record.date,
        date_text: day_month_year(record.date * 1000),
        progress: clamped(record.percent_complete),
        season: record.parent_media_index.unwrap(),
        episode: record.media_index.unwrap(),
    }
}

/// The watch history that records give.
pub open spec fn summary_of(kind: MediaType, records: Seq<RawRecord>) -> WatchSummary {
    match kind {
        MediaType::Movie => WatchSummary::Movie(
            records.map_values(|record: RawRecord| movie_watch_of(record)),
        ),
        MediaType::Tv => WatchSummary::TvShow(
            records.map_values(|record: RawRecord| episode_watch_of(record)),
        ),
    }
}

/// What building a watch history from records gives: the history where no
/// record is at fault, else the fault of the first record that has one.
pub open spec fn built(
    kind: MediaType,
    records: Seq<RawRecord>,
    result: Result<WatchHistory, WatchError>,
) -> bool {
    match result {
        Ok(history) => {
            &&& forall|i: int|
                0 <= i < records.len() ==> record_error(
                    kind,
                    #[trigger] records[i],
                    i as usize,
                ).is_none()
            &&& history@ == summary_of(kind, records)
        },
        Err(error) => exists|i: int|
            {
                &&& 0 <= i < records.len()
                &&& record_error(kind, #[trigger] records[i], i as usize) == Some(error)
                &&& forall|k: int|
                    0 <= k < i ==> record_error(kind, #[trigger] records[k], k as usize).is_none()
            },
    }
}

impl WatchHistory {
    /// The history of an item of the given kind from the latest record of
    /// each viewer.
    pub fn from_user_watches(user_watches: &Vec<HistoryItem>, media_type: &MediaType) -> (result:
        Result<WatchHistory, WatchError>)
        ensures
            built(*media_type, records_of(user_watches@), result),
    {
        match media_type {
            MediaType::Movie => WatchHistory::create_movie_history(user_watches),
            MediaType::Tv => WatchHistory::create_tv_history(user_watches),
        }
    }

    /// The history of a film: for each record the viewer, the date and the
    /// progress, capped at 100.
    pub fn create_movie_history(user_watches: &Vec<HistoryItem>) -> (result: Result<
        WatchHistory,
        WatchError,
    >)
        ensures
            built(MediaType::Movie, records_of(user_watches@), result),
    {
        let ghost records = records_of(user_watches@);
        let mut watches: Vec<UserMovieWatch> = Vec::new();
        let mut i: usize = 0;
        while i < user_watches.len()
            invariant
                i <= user_watches.len(),
                records == records_of(user_watches@),
                watches.len() == i,
                forall|k: int|
                    0 <= k < i ==> record_error(
                        MediaType::Movie,
                        #[trigger] records[k],
                        k as usize,
                    ).is_none(),
                forall|k: int| 0 <= k < i ==> (#[trigger] watches[k])@ == movie_watch_of(records[k]),
            decreases user_watches.len() - i,
        {
            let movie_watch = &user_watches[i];
            assert(records[i as int] == movie_watch@);
            let last_watched = match unix_seconds_to_date(movie_watch.date) {
                Some(date) => date,
                None => {
                    return Err(WatchError::DateOutOfRange { record: i });
                },
            };
            watches.push(
                UserMovieWatch {
                    display_name: movie_watch.user.clone(),
                    last_watched,
                    progress: clamp_progress(movie_watch.percent_complete),
                },
            );
            i += 1;
        }
        assert(movie_watches_of(watches@) =~= records.map_values(
            |record: RawRecord| movie_watch_of(record),
        ));
        Ok(WatchHistory::Movie(watches))
    }

    /// The history of a series: as for a film, with the season and the
    /// episode of each play, which every record of an episode must name.
    pub fn create_tv_history(user_watches: &Vec<HistoryItem>) -> (result: Result<
        WatchHistory,
        WatchError,
    >)
        ensures
            built(MediaType::Tv, records_of(user_watches@), result),
    {
        let ghost records = records_of(user_watches@);
        let mut watches: Vec<UserEpisodeWatch> = Vec::new();
        let mut i: usize = 0;
        while i < user_watches.len()
            invariant
                i <= user_watches.len(),
                records == records_of(user_watches@),
                watches.len() == i,
                forall|k: int|
                    0 <= k < i ==> record_error(
                        MediaType::Tv,
                        #[trigger] records[k],
                        k as usize,
                    ).is_none(),
                forall|k: int|
                    0 <= k < i ==> (#[trigger] watches[k])@ == episode_watch_of(records[k]),
            decreases user_watches.len() - i,
        {
            let tv_watch = &user_watches[i];
            assert(records[i as int] == tv_watch@);
            let last_watched = match unix_seconds_to_date(tv_watch.date) {
                Some(date) => date,
                None => {
                    return Err(WatchError::DateOutOfRange { record: i });
                },
            };
            let season = match tv_watch.parent_media_index {
                Some(season) => season,
                None => {
                    return Err(WatchError::MissingSeason { record: i });
                },
            };
            let episode = match tv_watch.media_index {
                Some(episode) => episode,
                None => {
                    return Err(WatchError::MissingEpisode { record: i });
                },
            };
            watches.push(
                UserEpisodeWatch {
                    display_name: tv_watch.user.clone(),
                    last_watched,
                    progress: clamp_progress(tv_watch.percent_complete),
                    season,
                    episode,
                },
            );
            i += 1;
        }
        assert(episode_watches_of(watches@) =~= records.map_values(
            |record: RawRecord| episode_watch_of(record),
        ));
        Ok(WatchHistory::TvShow(watches))
    }
}

/// The watch history of an item from all its playback records: the records
/// are reduced to the latest of each viewer, and the history is built from
/// those.
pub fn get_item_watches(history: &Vec<HistoryItem>, media_type: &MediaType) -> (result: Result<
    WatchHistory,
    WatchError,
>)
    ensures
        built(*media_type, reduce(records_of(history@)), result),
{
    let latest_user_history = latest_per_user(history);
    WatchHistory::from_user_watches(&latest_user_history, media_type)
}

} // verus!
