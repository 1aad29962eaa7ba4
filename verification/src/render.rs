//! Watch histories as text for the operator.

use vstd::prelude::*;
use vstd::string::*;
use crate::colors::{blue, blue_text, yellow, yellow_text};
use crate::text::{decimal, decimal_text};
use crate::watches::{
    episode_watches_of, movie_watches_of, EpisodeWatch, MovieWatch, UserEpisodeWatch,
    UserMovieWatch, WatchHistory, WatchSummary,
};

verus! {

/// A number of percent, in blue.
pub open spec fn percent_text(progress: nat) -> Seq<char> {
    blue_text(decimal_text(progress) + "%"@)
}

/// The line for the last play of a film: the viewer in yellow, the date and
/// the progress in blue.
pub open spec fn movie_line(watch: MovieWatch) -> Seq<char> {
    "Last watch by "@ + yellow_text(watch.display_name) + " at "@ + blue_text(watch.date_text)
        + ", with "@ + percent_text(watch.progress) + " progress."@
}

/// The line for the last play of an episode: the viewer, the season and the
/// episode in yellow, the date and the progress in blue.
pub open spec fn episode_line(watch: EpisodeWatch) -> Seq<char> {
    "Last watch by "@ + yellow_text(watch.display_name) + ", was at "@ + blue_text(
        watch.date_text,
    ) + ". Season "@ + yellow_text(decimal_text(watch.season)) + " Episode "@ + yellow_text(
        decimal_text(watch.episode),
    ) + ", with "@ + percent_text(watch.progress) + " complete."@
}

/// Writes a number of percent, in blue.
fn percent(progress: u8) -> (text: String)
    ensures
        text@ == percent_text(progress as nat),
{
    let mut plain = decimal(progress as u32);
    plain.append("%");
    blue(plain.as_str())
}

/// A header, and under it each line as a bullet of its own.
pub open spec fn listed(lines: Seq<Seq<char>>) -> Seq<char>
    decreases lines.len(),
{
    if lines.len() == 0 {
        "Watch history:"@
    } else {
        listed(lines.drop_last()) + "\n      * "@ + lines.last()
    }
}

/// The text for the lines of a history: a note that there is none where
/// there are no lines, else the list.
pub open spec fn rendered(lines: Seq<Seq<char>>) -> Seq<char> {
    if lines.len() == 0 {
        "No watch history."@
    } else {
        listed(lines)
    }
}

/// The text of a watch history.
pub open spec fn summary_text(summary: WatchSummary) -> Seq<char> {
    match summary {
        WatchSummary::Movie(watches) => rendered(
            watches.map_values(|watch: MovieWatch| movie_line(watch)),
        ),
        WatchSummary::TvShow(watches) => rendered(
            watches.map_values(|watch: EpisodeWatch| episode_line(watch)),
        ),
    }
}

/// The texts of a vector of strings, in order.
pub open spec fn texts_of(lines: Seq<String>) -> Seq<Seq<char>> {
    lines.map_values(|line: String| line@)
}

impl UserMovieWatch {
    /// The line shown for this play, with the date as day, month and year.
    pub fn render(&self) -> (line: String)
        ensures
            line@ == movie_line(self@),
    {
        let name = yellow(self.display_name.as_str());
        let date = blue(self.last_watched.day_month_year.as_str());
        let progress = percent(self.progress);
        let mut line = String::from_str("Last watch by ");
        line.append(name.as_str());
        line.append(" at ");
        line.append(date.as_str());
        line.append(", with ");
        line.append(progress.as_str());
        line.append(" progress.");
        line
    }
}

impl UserEpisodeWatch {
    /// The line shown for this play, with the date as day, month and year.
    pub fn render(&self) -> (line: String)
        ensures
            line@ == episode_line(self@),
    {
        let name = yellow(self.display_name.as_str());
        let date = blue(self.last_watched.day_month_year.as_str());
        let season = yellow(decimal(self.season).as_str());
        let episode = yellow(decimal(self.episode).as_str());
        let progress = percent(self.progress);
        let mut line = String::from_str("Last watch by ");
        line.append(name.as_str());
        line.append(", was at ");
        line.append(date.as_str());
        line.append(". Season ");
        line.append(season.as_str());
        line.append(" Episode ");
        line.append(episode.as_str());
        line.append(", with ");
        line.append(progress.as_str());
        line.append(" complete.");
        line
    }
}

/// Writes the lines of a history: a note where there are none, else a header
/// and each line as a bullet.
pub fn write_watches(lines: &Vec<String>) -> (text: String)
    ensures
        text@ == rendered(texts_of(lines@)),
{
    if lines.len() == 0 {
        return String::from_str("No watch history.");
    }
    let ghost all = texts_of(lines@);
    let mut text = String::from_str("Watch history:");
    let mut i: usize = 0;
    while i < lines.len()
        invariant
            i <= lines.len(),
            all == texts_of(lines@),
            text@ == listed(all.take(i as int)),
        decreases lines.len() - i,
    {
        proof {
            assert(all.take(i + 1).drop_last() =~= all.take(i as int));
            assert(all.take(i + 1).last() == lines[i as int]@);
        }
        text.append("\n      * ");
        text.append(lines[i].as_str());
        i += 1;
    }
    assert(all.take(i as int) =~= all);
    text
}

impl WatchHistory {
    /// The text shown for this history.
    pub fn render(&self) -> (text: String)
        ensures
            text@ == summary_text(self@),
    {
        let mut lines: Vec<String> = Vec::new();
        match self {
            WatchHistory::Movie(watches) => {
                let mut i: usize = 0;
                while i < watches.len()
                    invariant
                        i <= watches.len(),
                        lines.len() == i,
                        forall|k: int| 0 <= k < i ==> (#[trigger] lines[k])@ == movie_line(watches[k]@),
                    decreases watches.len() - i,
                {
                    lines.push(watches[i].render());
                    i += 1;
                }
                assert(texts_of(lines@) =~= movie_watches_of(watches@).map_values(
                    |watch: MovieWatch| movie_line(watch),
                ));
            },
            WatchHistory::TvShow(watches) => {
                let mut i: usize = 0;
                while i < watches.len()
                    invariant
                        i <= watches.len(),
                        lines.len() == i,
                        forall|k: int|
                            0 <= k < i ==> (#[trigger] lines[k])@ == episode_line(watches[k]@),
                    decreases watches.len() - i,
                {
                    lines.push(watches[i].render());
                    i += 1;
                }
                assert(texts_of(lines@) =~= episode_watches_of(watches@).map_values(
                    |watch: EpisodeWatch| episode_line(watch),
                ));
            },
        }
        write_watches(&lines)
    }
}

} // verus!
