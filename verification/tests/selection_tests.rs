use media_cleanup::deletion::{
    confirmed_removals, is_confirmation, item_path, remove_for_deletion, removal_order,
    selection_line, DeleteCall, DeletionRun,
};
use media_cleanup::items::{precedes, sort, sort_by_code, MediaItem};
use media_cleanup::shared::{InvalidSortingOption, MediaType, Order, SortingOption, SortingValue};
use media_cleanup::watches::WatchHistory;

fn item(title: Option<&str>, media_type: MediaType, id: i32, size: Option<i64>) -> MediaItem {
    MediaItem::enrich(
        title.map(|t| t.to_string()),
        media_type,
        id,
        size,
        "available".to_string(),
        WatchHistory::Movie(Vec::new()),
    )
}

fn ids(items: &Vec<MediaItem>) -> Vec<i32> {
    items.iter().map(|i| i.id).collect()
}

fn option(value: SortingValue, direction: Order) -> SortingOption {
    SortingOption { sorting_value: value, sorting_direction: direction }
}

fn shelf() -> Vec<MediaItem> {
    vec![
        item(Some("Heat"), MediaType::Movie, 1, Some(30)),
        item(Some("Alien"), MediaType::Tv, 2, None),
        item(None, MediaType::Movie, 3, Some(10)),
        item(Some("Heat"), MediaType::Tv, 4, Some(30)),
        item(Some("Heat 2"), MediaType::Movie, 5, Some(20)),
    ]
}

#[test]
fn sorting_codes_are_exactly_five() {
    assert_eq!(SortingOption::from_str("n"), Ok(option(SortingValue::Name, Order::Asc)));
    assert_eq!(SortingOption::from_str("nd"), Ok(option(SortingValue::Name, Order::Desc)));
    assert_eq!(SortingOption::from_str("sa"), Ok(option(SortingValue::Size, Order::Asc)));
    assert_eq!(SortingOption::from_str("s"), Ok(option(SortingValue::Size, Order::Desc)));
    assert_eq!(SortingOption::from_str("t"), Ok(option(SortingValue::Type, Order::Desc)));
}

#[test]
fn other_sorting_codes_are_refused() {
    for code in ["", "x", "N", "ta", "td", "sd", "na", "n ", " n", "nd\n", "name", "é"] {
        assert_eq!(SortingOption::from_str(code), Err(InvalidSortingOption));
    }
    assert_eq!(InvalidSortingOption.message(), "Not a valid Sorting Option");
}

#[test]
fn default_sorting_is_by_name_ascending() {
    assert_eq!(SortingOption::default(), option(SortingValue::Name, Order::Asc));
}

#[test]
fn kinds_have_labels() {
    assert_eq!(MediaType::Movie.label(), "Movie");
    assert_eq!(MediaType::Tv.label(), "TV");
}

#[test]
fn sort_by_name_keeps_equal_names_in_order() {
    let sorted = sort(shelf(), &option(SortingValue::Name, Order::Asc));
    assert_eq!(ids(&sorted), vec![3, 2, 1, 4, 5]);
    let sorted = sort(shelf(), &option(SortingValue::Name, Order::Desc));
    assert_eq!(ids(&sorted), vec![5, 1, 4, 2, 3]);
}

#[test]
fn sort_by_size_puts_unknown_sizes_first_when_ascending() {
    let sorted = sort(shelf(), &option(SortingValue::Size, Order::Asc));
    assert_eq!(ids(&sorted), vec![2, 3, 5, 1, 4]);
    let sorted = sort(shelf(), &option(SortingValue::Size, Order::Desc));
    assert_eq!(ids(&sorted), vec![1, 4, 5, 3, 2]);
}

#[test]
fn sort_by_type_descending_puts_series_first() {
    let sorted = sort(shelf(), &option(SortingValue::Type, Order::Desc));
    assert_eq!(ids(&sorted), vec![2, 4, 1, 3, 5]);
}

#[test]
fn sort_of_nothing_is_nothing() {
    assert_eq!(sort(Vec::new(), &SortingOption::default()).len(), 0);
}

#[test]
fn names_are_ordered_byte_by_byte() {
    let by_name = option(SortingValue::Name, Order::Asc);
    let a = item(Some("Zebra"), MediaType::Movie, 1, None);
    let b = item(Some("apple"), MediaType::Movie, 2, None);
    let c = item(Some("app"), MediaType::Movie, 3, None);
    assert!(precedes(&a, &b, &by_name));
    assert!(!precedes(&b, &a, &by_name));
    assert!(precedes(&c, &b, &by_name));
    assert!(!precedes(&b, &c, &by_name));
    assert!(precedes(&b, &b, &by_name));
}

#[test]
fn answer_confirms_only_when_it_begins_with_y() {
    assert!(!is_confirmation("n\n"));
    assert!(is_confirmation("yes\n"));
    assert!(is_confirmation("y"));
    assert!(is_confirmation("Y\n"));
    assert!(is_confirmation("  \tyes"));
    assert!(!is_confirmation(""));
    assert!(!is_confirmation("\n"));
    assert!(!is_confirmation("no, yes"));
    assert!(!is_confirmation("ok y"));
}

#[test]
fn refused_confirmation_removes_nothing() {
    assert_eq!(confirmed_removals(&vec![0, 2], "n\n"), Vec::<usize>::new());
    assert_eq!(confirmed_removals(&vec![0, 2], "yes\n"), vec![2, 0]);
    assert_eq!(confirmed_removals(&Vec::new(), "yes\n"), Vec::<usize>::new());
}

#[test]
fn removal_goes_from_the_highest_place_down() {
    assert_eq!(removal_order(&vec![0, 2]), vec![2, 0]);
    assert_eq!(removal_order(&vec![3, 1, 4, 1, 0]), vec![4, 3, 1, 0]);
    assert_eq!(removal_order(&Vec::new()), Vec::<usize>::new());
}

#[test]
fn removing_first_and_last_of_three_leaves_the_middle() {
    let mut items = vec![
        item(Some("first"), MediaType::Movie, 11, None),
        item(Some("middle"), MediaType::Tv, 22, None),
        item(Some("last"), MediaType::Tv, 33, None),
    ];
    let order = confirmed_removals(&vec![0, 2], "yes\n");
    assert_eq!(order, vec![2, 0]);
    let mut calls: Vec<DeleteCall> = Vec::new();
    for place in order {
        assert!(place < items.len());
        let (removed, call) = remove_for_deletion(&mut items, place);
        assert_eq!(removed.id, call.id);
        calls.push(call);
    }
    assert_eq!(ids(&items), vec![22]);
    assert_eq!(calls.len(), 2);
    assert_eq!(calls[0], DeleteCall { media_type: MediaType::Tv, id: 33 });
    assert_eq!(calls[1], DeleteCall { media_type: MediaType::Movie, id: 11 });
    assert_eq!(calls[0].path(), "/series/33");
    assert_eq!(calls[0].exclusion_parameter(), "addImportListExclusion");
    assert_eq!(calls[1].path(), "/movie/11");
    assert_eq!(calls[1].exclusion_parameter(), "addImportExclusion");
    assert_eq!(calls[1].delete_files_parameter(), "deleteFiles");
    assert_eq!(calls[0].target(), "/series/33?deleteFiles=true&addImportListExclusion=false");
    assert_eq!(calls[1].target(), "/movie/11?deleteFiles=true&addImportExclusion=false");
}

#[test]
fn removal_keeps_the_order_of_what_stays() {
    let mut items = shelf();
    for place in removal_order(&vec![1, 3]) {
        remove_for_deletion(&mut items, place);
    }
    assert_eq!(ids(&items), vec![1, 3, 5]);
}

#[test]
fn chosen_items_are_named_by_title_and_kind() {
    let items = shelf();
    assert_eq!(selection_line(&items, 0), "- Heat - Movie");
    assert_eq!(selection_line(&items, 1), "- Alien - TV");
    assert_eq!(selection_line(&items, 2), "- Unknown - Movie");
    assert_eq!(selection_line(&items, 5), "- Unknown item");
}

#[test]
fn getters_give_title_and_kind() {
    let it = item(Some("Heat"), MediaType::Movie, 1, Some(30));
    assert_eq!(it.get_title().as_deref(), Some("Heat"));
    assert_eq!(it.get_media_type(), MediaType::Movie);
}

#[test]
fn unknown_sorting_code_leaves_the_items_as_they_are() {
    let mut items = shelf();
    assert_eq!(sort_by_code(&mut items, "zz"), Err(InvalidSortingOption));
    assert_eq!(ids(&items), vec![1, 2, 3, 4, 5]);
    assert_eq!(sort_by_code(&mut items, "sa"), Ok(option(SortingValue::Size, Order::Asc)));
    assert_eq!(ids(&items), vec![2, 3, 5, 1, 4]);
}

#[test]
fn deletion_run_after_refusal_calls_nothing() {
    let mut items = shelf();
    let mut run = DeletionRun::begin(&items, &vec![0, 2], "n\n");
    assert_eq!(run.next_call(&mut items), None);
    assert_eq!(ids(&items), vec![1, 2, 3, 4, 5]);
}

#[test]
fn deletion_run_removes_each_item_before_its_call() {
    let mut items = vec![
        item(Some("first"), MediaType::Movie, 11, None),
        item(Some("middle"), MediaType::Tv, 22, None),
        item(Some("last"), MediaType::Tv, 33, None),
    ];
    let mut run = DeletionRun::begin(&items, &vec![0, 2], "yes\n");
    assert_eq!(run.order, vec![2, 0]);
    assert_eq!(
        run.next_call(&mut items),
        Some(DeleteCall { media_type: MediaType::Tv, id: 33 })
    );
    assert_eq!(ids(&items), vec![11, 22]);
    assert_eq!(
        run.next_call(&mut items),
        Some(DeleteCall { media_type: MediaType::Movie, id: 11 })
    );
    assert_eq!(ids(&items), vec![22]);
    assert_eq!(run.next_call(&mut items), None);
    assert_eq!(ids(&items), vec![22]);
}

#[test]
fn deletion_run_stops_at_a_failed_call() {
    let mut items = shelf();
    let mut run = DeletionRun::begin(&items, &vec![1, 4, 0], "y");
    assert_eq!(
        run.next_call(&mut items),
        Some(DeleteCall { media_type: MediaType::Movie, id: 5 })
    );
    run.call_failed();
    assert_eq!(run.next_call(&mut items), None);
    assert_eq!(ids(&items), vec![1, 2, 3, 4]);
}

#[test]
fn items_have_paths_at_their_services() {
    assert_eq!(item_path(MediaType::Movie, 12), "/movie/12");
    assert_eq!(item_path(MediaType::Tv, 7), "/series/7");
    assert_eq!(item_path(MediaType::Tv, -7), "/series/-7");
}
