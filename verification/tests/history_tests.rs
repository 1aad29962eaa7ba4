use media_cleanup::dates::unix_seconds_to_date;
use media_cleanup::history::{
    latest_per_user, movie_item_to_history_item, HistoryItem, HistoryMovieItem,
};
use media_cleanup::paging::{FetchAction, HistoryFetch, PAGE_SIZE};
use media_cleanup::render::write_watches;
use media_cleanup::shared::MediaType;
use media_cleanup::text::{decimal, signed_decimal};
use media_cleanup::watches::{clamp_progress, get_item_watches, WatchError, WatchHistory};

fn play(user: &str, date: i64, percent: u32) -> HistoryItem {
    HistoryItem {
        user: user.to_string(),
        date,
        duration: 60,
        percent_complete: percent,
        media_index: None,
        parent_media_index: None,
    }
}

fn episode_play(user: &str, date: i64, percent: u32, season: u32, episode: u32) -> HistoryItem {
    HistoryItem {
        user: user.to_string(),
        date,
        duration: 60,
        percent_complete: percent,
        media_index: Some(episode),
        parent_media_index: Some(season),
    }
}

fn yellow(text: &str) -> String {
    format!("\x1b[33m{}\x1b[39m", text)
}

fn blue(text: &str) -> String {
    format!("\x1b[34m{}\x1b[39m", text)
}

fn page_of(n: usize) -> Vec<HistoryItem> {
    let mut page = Vec::new();
    for i in 0..n {
        page.push(play("ann", i as i64, 10));
    }
    page
}

#[test]
fn reducer_keeps_newest_record_of_a_viewer() {
    let history = vec![play("ann", 10, 1), play("ann", 30, 2), play("ann", 20, 3)];
    let latest = latest_per_user(&history);
    assert_eq!(latest.len(), 1);
    assert_eq!(latest[0].user, "ann");
    assert_eq!(latest[0].date, 30);
    assert_eq!(latest[0].percent_complete, 2);
}

#[test]
fn reducer_keeps_first_of_equally_new_records() {
    let history = vec![play("ann", 30, 1), play("ann", 30, 2), play("ann", 5, 3)];
    let latest = latest_per_user(&history);
    assert_eq!(latest.len(), 1);
    assert_eq!(latest[0].date, 30);
    assert_eq!(latest[0].percent_complete, 1);
}

#[test]
fn reducer_holds_one_record_for_each_viewer() {
    let history = vec![
        play("bob", 5, 1),
        play("ann", 7, 2),
        play("bob", 9, 3),
        play("cy", 1, 4),
        play("ann", 6, 5),
    ];
    let latest = latest_per_user(&history);
    assert_eq!(latest.len(), 3);
    assert_eq!((latest[0].user.as_str(), latest[0].date), ("bob", 9));
    assert_eq!((latest[1].user.as_str(), latest[1].date), ("ann", 7));
    assert_eq!((latest[2].user.as_str(), latest[2].date), ("cy", 1));
}

#[test]
fn reducer_of_nothing_is_empty() {
    assert_eq!(latest_per_user(&Vec::new()).len(), 0);
}

#[test]
fn film_records_become_records_without_episode() {
    let films = vec![HistoryMovieItem {
        user: "ann".to_string(),
        date: 12,
        duration: 90,
        percent_complete: 55,
    }];
    let items = movie_item_to_history_item(films);
    assert_eq!(items.len(), 1);
    assert_eq!(items[0].user, "ann");
    assert_eq!(items[0].date, 12);
    assert_eq!(items[0].duration, 90);
    assert_eq!(items[0].percent_complete, 55);
    assert_eq!(items[0].media_index, None);
    assert_eq!(items[0].parent_media_index, None);
}

#[test]
fn history_key_depends_on_kind() {
    assert_eq!(MediaType::Movie.history_key(), "rating_key");
    assert_eq!(MediaType::Tv.history_key(), "grandparent_rating_key");
}

#[test]
fn fetch_stops_at_first_short_page() {
    assert_eq!(PAGE_SIZE, 1000);
    let mut fetch = HistoryFetch::new();
    assert_eq!(fetch.next_action(), FetchAction::Request { start: 0, length: 1000 });
    assert_eq!(
        fetch.accept_page(page_of(1000)),
        FetchAction::Request { start: 1, length: 1000 }
    );
    assert_eq!(
        fetch.accept_page(page_of(1000)),
        FetchAction::Request { start: 2, length: 1000 }
    );
    assert_eq!(fetch.accept_page(page_of(3)), FetchAction::Finished);
    assert_eq!(fetch.next_action(), FetchAction::Finished);
    assert_eq!(fetch.page, 2);
    assert_eq!(fetch.into_history().len(), 2003);
}

#[test]
fn fetch_ignores_pages_after_the_last() {
    let mut fetch = HistoryFetch::new();
    assert_eq!(fetch.accept_page(page_of(999)), FetchAction::Finished);
    assert_eq!(fetch.accept_page(page_of(1000)), FetchAction::Finished);
    assert_eq!(fetch.into_history().len(), 999);
}

#[test]
fn fetch_of_empty_history_makes_one_request() {
    let mut fetch = HistoryFetch::new();
    assert_eq!(fetch.accept_page(Vec::new()), FetchAction::Finished);
    assert_eq!(fetch.page, 0);
    assert_eq!(fetch.into_history().len(), 0);
}

#[test]
fn progress_over_100_is_capped() {
    assert_eq!(clamp_progress(150), 100);
    assert_eq!(clamp_progress(42), 42);
    assert_eq!(clamp_progress(100), 100);
    assert_eq!(clamp_progress(101), 100);
    assert_eq!(clamp_progress(0), 0);
    assert_eq!(clamp_progress(u32::MAX), 100);
}

#[test]
fn date_of_timestamp_is_day_month_year() {
    let date = unix_seconds_to_date(947638923).unwrap();
    assert_eq!(date.unix_seconds, 947638923);
    assert_eq!(date.day_month_year, "12-01-2000");
    assert_eq!(unix_seconds_to_date(0).unwrap().day_month_year, "01-01-1970");
    assert_eq!(unix_seconds_to_date(-1).unwrap().day_month_year, "31-12-1969");
}

#[test]
fn timestamp_without_date_is_refused() {
    assert!(unix_seconds_to_date(i64::MAX).is_none());
    assert!(unix_seconds_to_date(i64::MIN).is_none());
    assert!(unix_seconds_to_date(9_000_000_000_000_000).is_none());
}

#[test]
fn film_history_holds_viewer_date_and_progress() {
    let history = vec![play("ann", 10, 20), play("ann", 947638923, 150), play("bob", 0, 42)];
    match get_item_watches(&history, &MediaType::Movie).unwrap() {
        WatchHistory::Movie(watches) => {
            assert_eq!(watches.len(), 2);
            assert_eq!(watches[0].display_name, "ann");
            assert_eq!(watches[0].last_watched.unix_seconds, 947638923);
            assert_eq!(watches[0].progress, 100);
            assert_eq!(watches[1].display_name, "bob");
            assert_eq!(watches[1].progress, 42);
        }
        WatchHistory::TvShow(_) => panic!("a film has film watches"),
    }
}

#[test]
fn series_history_holds_season_and_episode() {
    let history = vec![episode_play("ann", 947638923, 99, 3, 7)];
    let built = get_item_watches(&history, &MediaType::Tv).unwrap();
    match &built {
        WatchHistory::TvShow(watches) => {
            assert_eq!(watches.len(), 1);
            assert_eq!(watches[0].season, 3);
            assert_eq!(watches[0].episode, 7);
            assert_eq!(watches[0].progress, 99);
        }
        WatchHistory::Movie(_) => panic!("a series has episode watches"),
    }
    assert_eq!(
        built.render(),
        format!(
            "Watch history:\n      * Last watch by {}, was at {}. Season {} Episode {}, with {} complete.",
            yellow("ann"),
            blue("12-01-2000"),
            yellow("3"),
            yellow("7"),
            blue("99%")
        )
    );
    assert_eq!(
        built.render(),
        "Watch history:\n      * Last watch by \x1b[33mann\x1b[39m, was at \x1b[34m12-01-2000\x1b[39m. Season \x1b[33m3\x1b[39m Episode \x1b[33m7\x1b[39m, with \x1b[34m99%\x1b[39m complete."
    );
}

#[test]
fn record_without_date_fails_the_history() {
    let history = vec![play("ann", 5, 1), play("bob", i64::MAX, 1)];
    assert_eq!(
        get_item_watches(&history, &MediaType::Movie).unwrap_err(),
        WatchError::DateOutOfRange { record: 1 }
    );
}

#[test]
fn episode_record_without_season_or_episode_fails_the_history() {
    let mut no_season = episode_play("ann", 5, 1, 1, 1);
    no_season.parent_media_index = None;
    assert_eq!(
        get_item_watches(&vec![no_season], &MediaType::Tv).unwrap_err(),
        WatchError::MissingSeason { record: 0 }
    );
    let mut no_episode = episode_play("ann", 5, 1, 1, 1);
    no_episode.media_index = None;
    assert_eq!(
        get_item_watches(&vec![episode_play("bob", 1, 1, 1, 1), no_episode], &MediaType::Tv)
            .unwrap_err(),
        WatchError::MissingEpisode { record: 1 }
    );
    let mut neither = episode_play("ann", i64::MAX, 1, 1, 1);
    neither.media_index = None;
    neither.parent_media_index = None;
    assert_eq!(
        get_item_watches(&vec![neither], &MediaType::Tv).unwrap_err(),
        WatchError::DateOutOfRange { record: 0 }
    );
}

#[test]
fn film_history_is_rendered_line_by_line() {
    let history = vec![play("ann", 947638923, 150), play("bob", 0, 42)];
    let built = get_item_watches(&history, &MediaType::Movie).unwrap();
    assert_eq!(
        built.render(),
        format!(
            "Watch history:\n      * Last watch by {} at {}, with {} progress.\n      * Last watch by {} at {}, with {} progress.",
            yellow("ann"),
            blue("12-01-2000"),
            blue("100%"),
            yellow("bob"),
            blue("01-01-1970"),
            blue("42%")
        )
    );
}

#[test]
fn empty_history_is_rendered_as_none() {
    let built = get_item_watches(&Vec::new(), &MediaType::Movie).unwrap();
    assert_eq!(built.render(), "No watch history.");
    assert_eq!(write_watches(&Vec::new()), "No watch history.");
    assert_eq!(
        write_watches(&vec!["one".to_string(), "two".to_string()]),
        "Watch history:\n      * one\n      * two"
    );
}

#[test]
fn numbers_are_written_in_decimal() {
    assert_eq!(decimal(0), "0");
    assert_eq!(decimal(7), "7");
    assert_eq!(decimal(42), "42");
    assert_eq!(decimal(1000), "1000");
    assert_eq!(decimal(u32::MAX), "4294967295");
    assert_eq!(signed_decimal(0), "0");
    assert_eq!(signed_decimal(-5), "-5");
    assert_eq!(signed_decimal(i32::MAX), "2147483647");
    assert_eq!(signed_decimal(i32::MIN), "-2147483648");
}

#[test]
fn diagnostic_names_the_item() {
    let error = WatchError::DateOutOfRange { record: 3 };
    assert_eq!(error.record(), 3);
    assert_eq!(error.diagnostic("1234"), "Failed to parse unix time for rating key 1234");
    assert_eq!(
        WatchError::MissingSeason { record: 0 }.diagnostic("77"),
        "Missing season number for rating key 77"
    );
    assert_eq!(
        WatchError::MissingEpisode { record: 0 }.diagnostic("77"),
        "Missing episode number for rating key 77"
    );
}
