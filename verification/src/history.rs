//! Raw playback records and their reduction to the latest play of each viewer.

use vstd::prelude::*;

verus! {

/// One playback event, as a mathematical value.
pub struct RawRecord {
    pub user: Seq<char>,
    pub date: int,
    pub duration: nat,
    pub percent_complete: nat,
    pub media_index: Option<nat>,
    pub parent_media_index: Option<nat>,
}

/// One playback event: who watched, when (seconds since the epoch), how far,
/// and for an episode its number and that of its season.
#[derive(Debug)]
pub struct HistoryItem {
    pub user: String,
    pub date: i64,
    pub duration: u64,
    pub percent_complete: u32,
    pub media_index: Option<u32>,
    pub parent_media_index: Option<u32>,
}

/// One playback event of a film, which has neither season nor episode.
#[derive(Debug)]
pub struct HistoryMovieItem {
    pub user: String,
    pub date: i64,
    pub duration: u64,
    pub percent_complete: u32,
}

impl View for HistoryItem {
    type V = RawRecord;

    open spec fn view(&self) -> RawRecord {
        RawRecord {
            user: self.user@,
            date: self.date as int,
            duration: self.duration as nat,
            percent_complete: self.percent_complete as nat,
            media_index: match self.media_index {
                Some(n) => Some(n as nat),
                None => None,
            },
            parent_media_index: match self.parent_media_index {
                Some(n) => Some(n as nat),
                None => None,
            },
        }
    }
}

impl View for HistoryMovieItem {
    type V = RawRecord;

    open spec fn view(&self) -> RawRecord {
        RawRecord {
            user: self.user@,
            date: self.date as int,
            duration: self.duration as nat,
            percent_complete: self.percent_complete as nat,
            media_index: None,
            parent_media_index: None,
        }
    }
}

impl HistoryItem {
    /// A copy of the record.
    pub fn duplicate(&self) -> (copy: HistoryItem)
        ensures
            copy@ == self@,
    {
        HistoryItem {
            user: self.user.clone(),
            date: self.date,
            duration: self.duration,
            percent_complete: self.percent_complete,
            media_index: self.media_index,
            parent_media_index: self.parent_media_index,
        }
    }
}

/// The records of a vector, in order.
pub open spec fn records_of(items: Seq<HistoryItem>) -> Seq<RawRecord> {
    items.map_values(|item: HistoryItem| item@)
}

/// The film records of a vector, in order.
pub open spec fn movie_records_of(items: Seq<HistoryMovieItem>) -> Seq<RawRecord> {
    items.map_values(|item: HistoryMovieItem| item@)
}

/// Film records as general records: the same plays, without season or episode.
pub fn movie_item_to_history_item(history: Vec<HistoryMovieItem>) -> (items: Vec<HistoryItem>)
    ensures
        records_of(items@) == movie_records_of(history@),
{
    let mut items: Vec<HistoryItem> = Vec::new();
    let mut i: usize = 0;
    while i < history.len()
        invariant
            i <= history.len(),
            items.len() == i,
            forall|k: int| 0 <= k < i ==> (#[trigger] items[k])@ == history[k]@,
        decreases history.len() - i,
    {
        let item = &history[i];
        items.push(
            HistoryItem {
                user: item.user.clone(),
                date: item.date,
                duration: item.duration,
                percent_complete: item.percent_complete,
                media_index: None,
                parent_media_index: None,
            },
        );
        i += 1;
    }
    assert(records_of(items@) =~= movie_records_of(history@));
    items
}

/// The first place at or after `start` where `kept` holds a record of `user`.
pub open spec fn position_from(kept: Seq<RawRecord>, user: Seq<char>, start: int) -> Option<int>
    decreases kept.len() - start,
{
    if start < 0 || start >= kept.len() {
        None
    } else if kept[start].user == user {
        Some(start)
    } else {
        position_from(kept, user, start + 1)
    }
}

/// The place where `kept` holds the record of `user`, if it holds one.
pub open spec fn position(kept: Seq<RawRecord>, user: Seq<char>) -> Option<int> {
    position_from(kept, user, 0)
}

/// Takes one more record into what was kept so far: a viewer's first record
/// is added at the end; a later one replaces the kept one only where it is
/// strictly newer.
pub open spec fn merge(kept: Seq<RawRecord>, record: RawRecord) -> Seq<RawRecord> {
    match position(kept, record.user) {
        Some(j) => if kept[j].date < record.date {
            kept.update(j, record)
        } else {
            kept
        },
        None => kept.push(record),
    }
}

/// The latest record of each viewer, viewers in the order of their first play.
pub open spec fn reduce(records: Seq<RawRecord>) -> Seq<RawRecord>
    decreases records.len(),
{
    if records.len() == 0 {
        Seq::empty()
    } else {
        merge(reduce(records.drop_last()), records.last())
    }
}

/// `k` is the place of the newest record of `user`, and among equally new
/// ones of the earliest.
pub open spec fn is_first_latest(records: Seq<RawRecord>, user: Seq<char>, k: int) -> bool {
    &&& 0 <= k < records.len()
    &&& records[k].user == user
    &&& forall|i: int|
        0 <= i < records.len() && (#[trigger] records[i]).user == user ==> records[i].date
            <= records[k].date
    &&& forall|i: int|
        0 <= i < k && (#[trigger] records[i]).user == user ==> records[i].date < records[k].date
}

/// What `position_from` finds is the first record of the viewer from `start`
/// on, and it finds nothing only where there is none.
pub proof fn lemma_position_from(kept: Seq<RawRecord>, user: Seq<char>, start: int)
    requires
        0 <= start,
    ensures
        match position_from(kept, user, start) {
            Some(j) => start <= j < kept.len() && kept[j].user == user && forall|i: int|
                start <= i < j ==> (#[trigger] kept[i]).user != user,
            None => forall|i: int| start <= i < kept.len() ==> (#[trigger] kept[i]).user != user,
        },
    decreases kept.len() - start,
{
    if start < kept.len() && kept[start].user != user {
        lemma_position_from(kept, user, start + 1);
    }
}

/// The reduction holds one record for each viewer that occurs, none for
/// another, and each record it holds is one of the input.
pub proof fn lemma_reduce_one_per_user(records: Seq<RawRecord>)
    ensures
        forall|a: int, b: int|
            0 <= a < b < reduce(records).len() ==> (#[trigger] reduce(records)[a]).user != (
            #[trigger] reduce(records)[b]).user,
        forall|j: int|
            0 <= j < reduce(records).len() ==> records.contains(#[trigger] reduce(records)[j]),
        forall|i: int|
            0 <= i < records.len() ==> position(
                reduce(records),
                (#[trigger] records[i]).user,
            ).is_some(),
    decreases records.len(),
{
    if records.len() > 0 {
        let prefix = records.drop_last();
        let last = records.last();
        let kept = reduce(prefix);
        let next = reduce(records);
        lemma_reduce_one_per_user(prefix);
        lemma_position_from(kept, last.user, 0);
        assert(records[records.len() - 1] == last);
        assert forall|j: int| 0 <= j < next.len() implies records.contains(#[trigger] next[j]) by {
            if j < kept.len() && next[j] == kept[j] {
                let i = choose|i: int| 0 <= i < prefix.len() && prefix[i] == kept[j];
                assert(records[i] == kept[j]);
            }
        }
        assert forall|i: int| 0 <= i < records.len() implies position(
            next,
            (#[trigger] records[i]).user,
        ).is_some() by {
            let user = records[i].user;
            lemma_position_from(next, user, 0);
            if user != last.user {
                assert(prefix[i] == records[i]);
                lemma_position_from(kept, user, 0);
                let j = position(kept, user).unwrap();
                assert(next[j].user == user);
            } else {
                match position(kept, last.user) {
                    Some(j) => {
                        assert(next[j].user == user);
                    },
                    None => {
                        assert(next[kept.len() as int].user == user);
                    },
                }
            }
        }
    }
}

/// For every viewer, the reduction holds the viewer's newest record, and
/// where several are equally new, the one that came first.
pub proof fn lemma_reduce_keeps_first_latest(records: Seq<RawRecord>, user: Seq<char>, k: int)
    requires
        is_first_latest(records, user, k),
    ensures
        position(reduce(records), user).is_some(),
        reduce(records)[position(reduce(records), user).unwrap()] == records[k],
    decreases records.len(),
{
    let prefix = records.drop_last();
    let last = records.last();
    let kept = reduce(prefix);
    let next = reduce(records);
    lemma_reduce_one_per_user(prefix);
    lemma_position_from(kept, last.user, 0);
    lemma_position_from(kept, user, 0);
    lemma_position_from(next, user, 0);
    if k == records.len() - 1 {
        match position(kept, user) {
            Some(j) => {
                let i = choose|i: int| 0 <= i < prefix.len() && prefix[i] == kept[j];
                assert(records[i] == kept[j]);
                assert(next =~= kept.update(j, last));
                assert(next[j].user == user);
            },
            None => {
                assert(next =~= kept.push(last));
                assert(next[kept.len() as int].user == user);
            },
        }
    } else {
        assert forall|i: int|
            0 <= i < prefix.len() && (#[trigger] prefix[i]).user == user implies prefix[i].date
            <= prefix[k].date by {
            assert(records[i] == prefix[i]);
        }
        assert forall|i: int| 0 <= i < k && (#[trigger] prefix[i]).user == user implies prefix[i].date
            < prefix[k].date by {
            assert(records[i] == prefix[i]);
        }
        assert(is_first_latest(prefix, user, k));
        lemma_reduce_keeps_first_latest(prefix, user, k);
        let j = position(kept, user).unwrap();
        assert(records[records.len() - 1] == last);
        assert(next[j] == kept[j]);
    }
}

/// Looks for the record of `user` among those kept.
fn find_user(kept: &Vec<HistoryItem>, user: &String) -> (found: Option<usize>)
    ensures
        match found {
            Some(j) => j < kept.len() && position(records_of(kept@), user@) == Some(j as int),
            None => position(records_of(kept@), user@).is_none(),
        },
{
    let mut j: usize = 0;
    while j < kept.len()
        invariant
            j <= kept.len(),
            position(records_of(kept@), user@) == position_from(records_of(kept@), user@, j as int),
        decreases kept.len() - j,
    {
        if kept[j].user == *user {
            return Some(j);
        }
        j += 1;
    }
    None
}

/// Reduces a history to the latest record of each viewer. A record replaces
/// the one kept for its viewer only where its timestamp is strictly greater,
/// so of equally new records the first stays.
pub fn latest_per_user(history: &Vec<HistoryItem>) -> (latest: Vec<HistoryItem>)
    ensures
        records_of(latest@) == reduce(records_of(history@)),
{
    let mut kept: Vec<HistoryItem> = Vec::new();
    let mut i: usize = 0;
    assert(records_of(kept@) =~= reduce(records_of(history@).take(0)));
    while i < history.len()
        invariant
            i <= history.len(),
            records_of(kept@) == reduce(records_of(history@).take(i as int)),
        decreases history.len() - i,
    {
        let record = &history[i];
        let found = find_user(&kept, &record.user);
        proof {
            let all = records_of(history@);
            assert(all.take(i + 1).drop_last() =~= all.take(i as int));
            assert(all.take(i + 1).last() == record@);
        }
        let ghost before = records_of(kept@);
        match found {
            Some(j) => {
                if kept[j].date < record.date {
                    kept.set(j, record.duplicate());
                    assert(records_of(kept@) =~= before.update(j as int, record@));
                }
            },
            None => {
                kept.push(record.duplicate());
                assert(records_of(kept@) =~= before.push(record@));
            },
        }
        i += 1;
    }
    assert(records_of(history@).take(i as int) =~= records_of(history@));
    kept
}

} // verus!
