//! Media items as shown to the operator, and their order.

use vstd::prelude::*;
use vstd::multiset::group_multiset_axioms;
use vstd::seq_lib::{to_multiset_insert, to_multiset_remove};
use vstd::utf8::encode_utf8;
use crate::shared::{
    option_of_code, InvalidSortingOption, MediaType, Order, SortingOption, SortingValue,
};
use crate::watches::WatchHistory;

verus! {

/// One requested item with what the library services and the watch history
/// know of it.
#[derive(Debug)]
pub struct MediaItem {
    pub title: Option<String>,
    pub media_type: MediaType,
    pub id: i32,
    pub size: Option<i64>,
    pub status: String,
    pub watch_history: WatchHistory,
}

impl MediaItem {
    /// Puts together what was found for one request.
    pub fn enrich(
        title: Option<String>,
        media_type: MediaType,
        id: i32,
        size: Option<i64>,
        status: String,
        watch_history: WatchHistory,
    ) -> (item: MediaItem)
        ensures
            item == (MediaItem { title, media_type, id, size, status, watch_history }),
    {
        MediaItem { title, media_type, id, size, status, watch_history }
    }

    /// The title, if the request has one.
    pub fn get_title(&self) -> (title: &Option<String>)
        ensures
            *title == self.title,
    {
        &self.title
    }

    /// The kind of the item.
    pub fn get_media_type(&self) -> (media_type: MediaType)
        ensures
            media_type == self.media_type,
    {
        self.media_type
    }

    /// The name by which the item is sorted: the bytes of its title.
    pub open spec fn name_key(self) -> Option<Seq<u8>> {
        match self.title {
            Some(title) => Some(encode_utf8(title@)),
            None => None,
        }
    }
}

/// Whether `a` comes before `b` or equals it from place `from` on, byte by
/// byte; a text comes after each of its proper beginnings.
pub open spec fn bytes_le_from(a: Seq<u8>, b: Seq<u8>, from: int) -> bool
    decreases a.len() - from,
{
    if from < 0 || from >= a.len() {
        true
    } else if from >= b.len() {
        false
    } else if a[from] != b[from] {
        a[from] < b[from]
    } else {
        bytes_le_from(a, b, from + 1)
    }
}

/// The order of texts: byte by byte.
pub open spec fn bytes_le(a: Seq<u8>, b: Seq<u8>) -> bool {
    bytes_le_from(a, b, 0)
}

/// The order of names: an item without a title comes first.
pub open spec fn name_le(a: Option<Seq<u8>>, b: Option<Seq<u8>>) -> bool {
    match (a, b) {
        (None, _) => true,
        (Some(_), None) => false,
        (Some(x), Some(y)) => bytes_le(x, y),
    }
}

/// The order of sizes: an item of unknown size comes first.
pub open spec fn size_le(a: Option<i64>, b: Option<i64>) -> bool {
    match (a, b) {
        (None, _) => true,
        (Some(_), None) => false,
        (Some(x), Some(y)) => x <= y,
    }
}

/// Whether the key of `a` is at most that of `b`.
pub open spec fn key_le(a: MediaItem, b: MediaItem, value: SortingValue) -> bool {
    match value {
        SortingValue::Name => name_le(a.name_key(), b.name_key()),
        SortingValue::Size => size_le(a.size, b.size),
        SortingValue::Type => a.media_type.rank() <= b.media_type.rank(),
    }
}

/// Whether `a` may stand before `b` under the option.
pub open spec fn in_order(a: MediaItem, b: MediaItem, option: SortingOption) -> bool {
    match option.sorting_direction {
        Order::Asc => key_le(a, b, option.sorting_value),
        Order::Desc => key_le(b, a, option.sorting_value),
    }
}

/// Whether the option does not tell `a` and `b` apart.
pub open spec fn same_key(a: MediaItem, b: MediaItem, option: SortingOption) -> bool {
    in_order(a, b, option) && in_order(b, a, option)
}

/// Every item may stand before all that follow it.
pub open spec fn is_sorted(items: Seq<MediaItem>, option: SortingOption) -> bool {
    forall|i: int, j: int| 0 <= i < j < items.len() ==> in_order(items[i], items[j], option)
}

/// The items that the option does not tell apart from `like`, in order.
pub open spec fn peers(items: Seq<MediaItem>, like: MediaItem, option: SortingOption) -> Seq<
    MediaItem,
>
    decreases items.len(),
{
    if items.len() == 0 {
        Seq::empty()
    } else if same_key(items.last(), like, option) {
        peers(items.drop_last(), like, option).push(items.last())
    } else {
        peers(items.drop_last(), like, option)
    }
}

/// Of two texts, one is at most the other.
pub proof fn lemma_bytes_total(a: Seq<u8>, b: Seq<u8>, from: int)
    requires
        0 <= from,
    ensures
        bytes_le_from(a, b, from) || bytes_le_from(b, a, from),
    decreases a.len() - from,
{
    if from < a.len() && from < b.len() && a[from] == b[from] {
        lemma_bytes_total(a, b, from + 1);
    }
}

/// The order of texts is transitive.
pub proof fn lemma_bytes_transitive(a: Seq<u8>, b: Seq<u8>, c: Seq<u8>, from: int)
    requires
        0 <= from,
        bytes_le_from(a, b, from),
        bytes_le_from(b, c, from),
    ensures
        bytes_le_from(a, c, from),
    decreases a.len() - from,
{
    if from < a.len() && from < b.len() && from < c.len() && a[from] == b[from] && b[from]
        == c[from] {
        lemma_bytes_transitive(a, b, c, from + 1);
    }
}

/// Of two items, one may stand before the other.
pub proof fn lemma_in_order_total(a: MediaItem, b: MediaItem, option: SortingOption)
    ensures
        in_order(a, b, option) || in_order(b, a, option),
{
    if let (Some(x), Some(y)) = (a.name_key(), b.name_key()) {
        lemma_bytes_total(x, y, 0);
    }
}

/// Where `a` may stand before `b` and `b` before `c`, `a` may stand before `c`.
pub proof fn lemma_in_order_transitive(
    a: MediaItem,
    b: MediaItem,
    c: MediaItem,
    option: SortingOption,
)
    requires
        in_order(a, b, option),
        in_order(b, c, option),
    ensures
        in_order(a, c, option),
{
    if let (Some(x), Some(y), Some(z)) = (a.name_key(), b.name_key(), c.name_key()) {
        match (option.sorting_value, option.sorting_direction) {
            (SortingValue::Name, Order::Asc) => lemma_bytes_transitive(x, y, z, 0),
            (SortingValue::Name, Order::Desc) => lemma_bytes_transitive(z, y, x, 0),
            _ => {},
        }
    }
}

/// The peers of two sequences joined are the peers of the first, then those
/// of the second.
pub proof fn lemma_peers_concat(
    a: Seq<MediaItem>,
    b: Seq<MediaItem>,
    like: MediaItem,
    option: SortingOption,
)
    ensures
        peers(a + b, like, option) == peers(a, like, option) + peers(b, like, option),
    decreases b.len(),
{
    if b.len() == 0 {
        assert(a + b =~= a);
        assert(peers(a, like, option) + peers(b, like, option) =~= peers(a, like, option));
    } else {
        assert((a + b).drop_last() =~= a + b.drop_last());
        assert((a + b).last() == b.last());
        lemma_peers_concat(a, b.drop_last(), like, option);
        if same_key(b.last(), like, option) {
            assert(peers(a, like, option) + peers(b.drop_last(), like, option).push(b.last())
                =~= (peers(a, like, option) + peers(b.drop_last(), like, option)).push(b.last()));
        }
    }
}

/// Where no item is a peer, there are no peers.
pub proof fn lemma_peers_none(items: Seq<MediaItem>, like: MediaItem, option: SortingOption)
    requires
        forall|i: int| 0 <= i < items.len() ==> !same_key(#[trigger] items[i], like, option),
    ensures
        peers(items, like, option) == Seq::<MediaItem>::empty(),
    decreases items.len(),
{
    if items.len() > 0 {
        let front = items.drop_last();
        assert forall|i: int| 0 <= i < front.len() implies !same_key(
            #[trigger] front[i],
            like,
            option,
        ) by {
            assert(front[i] == items[i]);
        }
        lemma_peers_none(front, like, option);
        assert(items.last() == items[items.len() - 1]);
    }
}

/// Whether the bytes of `a` come before those of `b` or equal them.
fn bytes_in_order(a: &[u8], b: &[u8]) -> (le: bool)
    ensures
        le == bytes_le(a@, b@),
{
    let mut i: usize = 0;
    while i < a.len()
        invariant
            i <= a.len(),
            bytes_le(a@, b@) == bytes_le_from(a@, b@, i as int),
        decreases a.len() - i,
    {
        if i >= b.len() {
            return false;
        }
        if a[i] != b[i] {
            return a[i] < b[i];
        }
        i += 1;
    }
    true
}

/// Whether the key of `a` is at most that of `b`.
fn key_in_order(a: &MediaItem, b: &MediaItem, value: SortingValue) -> (le: bool)
    ensures
        le == key_le(*a, *b, value),
{
    match value {
        SortingValue::Name => match (&a.title, &b.title) {
            (None, _) => true,
            (Some(_), None) => false,
            (Some(x), Some(y)) => bytes_in_order(x.as_str().as_bytes(), y.as_str().as_bytes()),
        },
        SortingValue::Size => match (a.size, b.size) {
            (None, _) => true,
            (Some(_), None) => false,
            (Some(x), Some(y)) => x <= y,
        },
        SortingValue::Type => match (a.media_type, b.media_type) {
            (MediaType::Tv, MediaType::Movie) => false,
            _ => true,
        },
    }
}

/// Whether `a` may stand before `b` under the option.
pub fn precedes(a: &MediaItem, b: &MediaItem, option: &SortingOption) -> (ok: bool)
    ensures
        ok == in_order(*a, *b, *option),
{
    match option.sorting_direction {
        Order::Asc => key_in_order(a, b, option.sorting_value),
        Order::Desc => key_in_order(b, a, option.sorting_value),
    }
}

/// Orders the items by the option. The result holds the same items; each may
/// stand before all that follow it; and items that the option does not tell
/// apart keep the order in which they came.
pub fn sort(items: Vec<MediaItem>, option: &SortingOption) -> (sorted: Vec<MediaItem>)
    ensures
        is_sorted(sorted@, *option),
        sorted@.len() == items@.len(),
        sorted@.to_multiset() == items@.to_multiset(),
        forall|like: MediaItem| #[trigger]
            peers(sorted@, like, *option) == peers(items@, like, *option),
{
    let mut rest = items;
    let mut out: Vec<MediaItem> = Vec::new();
    assert(out@ + rest@ =~= items@);
    proof {
        broadcast use group_multiset_axioms;

        out@.to_multiset_ensures();
        assert(out@.to_multiset().add(rest@.to_multiset()) =~= items@.to_multiset());
    }
    assert forall|like: MediaItem| #[trigger]
        peers(out@, like, *option) + peers(rest@, like, *option) == peers(
            items@,
            like,
            *option,
        ) by {
        lemma_peers_concat(out@, rest@, like, *option);
    }
    while rest.len() > 0
        invariant
            is_sorted(out@, *option),
            out@.len() + rest@.len() == items@.len(),
            out@.to_multiset().add(rest@.to_multiset()) == items@.to_multiset(),
            forall|like: MediaItem| #[trigger]
                peers(out@, like, *option) + peers(rest@, like, *option) == peers(
                    items@,
                    like,
                    *option,
                ),
        decreases rest.len(),
    {
        let ghost old_out = out@;
        let ghost old_rest = rest@;
        let item = rest.remove(0);
        let mut at: usize = out.len();
        while at > 0 && !precedes(&out[at - 1], &item, option)
            invariant
                at <= out.len(),
                out@ == old_out,
                forall|k: int| at <= k < out.len() ==> !in_order(#[trigger] out[k], item, *option),
            decreases at,
        {
            at -= 1;
        }
        out.insert(at, item);
        proof {
            broadcast use group_multiset_axioms;

            to_multiset_insert(old_out, at as int, item);
            to_multiset_remove(old_rest, 0);
            old_rest.to_multiset_ensures();
            assert(old_rest.contains(old_rest[0]));
            assert(out@.to_multiset().add(rest@.to_multiset()) =~= old_out.to_multiset().add(
                old_rest.to_multiset(),
            ));
        }
        proof {
            let o = *option;
            let front = old_out.take(at as int);
            let back = old_out.skip(at as int);
            assert(old_out =~= front + back);
            assert(out@ =~= front + seq![item] + back);
            assert(old_rest =~= seq![item] + rest@);
            assert forall|i: int, j: int| 0 <= i < j < out@.len() implies in_order(
                out@[i],
                out@[j],
                o,
            ) by {
                if j == at {
                    if i < at - 1 {
                        assert(in_order(old_out[i], old_out[at - 1], o));
                        lemma_in_order_transitive(old_out[i], old_out[at - 1], item, o);
                    }
                } else if i == at {
                    lemma_in_order_total(item, old_out[j - 1], o);
                } else if i < at && j > at {
                    assert(in_order(old_out[i], old_out[j - 1], o));
                } else if i < at {
                    assert(in_order(old_out[i], old_out[j], o));
                } else {
                    assert(in_order(old_out[i - 1], old_out[j - 1], o));
                }
            }
            assert forall|like: MediaItem| #[trigger]
                peers(out@, like, o) + peers(rest@, like, o) == peers(items@, like, o) by {
                lemma_peers_concat(front, back, like, o);
                lemma_peers_concat(front, seq![item], like, o);
                lemma_peers_concat(front + seq![item], back, like, o);
                lemma_peers_concat(seq![item], rest@, like, o);
                assert(peers(old_out, like, o) + peers(old_rest, like, o) == peers(
                    items@,
                    like,
                    o,
                ));
                assert(seq![item].drop_last() =~= Seq::<MediaItem>::empty());
                assert(seq![item].last() == item);
                assert(peers(Seq::<MediaItem>::empty(), like, o) =~= Seq::<MediaItem>::empty());
                if same_key(item, like, o) {
                    assert forall|k: int| 0 <= k < back.len() implies !same_key(
                        #[trigger] back[k],
                        like,
                        o,
                    ) by {
                        assert(back[k] == old_out[at + k]);
                        if same_key(back[k], like, o) {
                            lemma_in_order_transitive(back[k], like, item, o);
                        }
                    }
                    lemma_peers_none(back, like, o);
                    assert(peers(seq![item], like, o) =~= seq![item]);
                    assert(peers(out@, like, o) + peers(rest@, like, o) =~= peers(old_out, like, o)
                        + peers(old_rest, like, o));
                } else {
                    assert(peers(seq![item], like, o) =~= Seq::<MediaItem>::empty());
                    assert(peers(out@, like, o) + peers(rest@, like, o) =~= peers(old_out, like, o)
                        + peers(old_rest, like, o));
                }
            }
        }
    }
    assert forall|like: MediaItem| #[trigger]
        peers(out@, like, *option) == peers(items@, like, *option) by {
        assert(rest@ =~= Seq::<MediaItem>::empty());
        assert(peers(out@, like, *option) + peers(rest@, like, *option) =~= peers(
            out@,
            like,
            *option,
        ));
    }
    proof {
        broadcast use group_multiset_axioms;

        rest@.to_multiset_ensures();
        assert(out@.to_multiset().add(rest@.to_multiset()) =~= out@.to_multiset());
    }
    out
}

/// Orders the items by the option that a short code stands for. Where the
/// text is no such code, the items stay as they are.
pub fn sort_by_code(items: &mut Vec<MediaItem>, code: &str) -> (result: Result<
    SortingOption,
    InvalidSortingOption,
>)
    ensures
        match option_of_code(code@) {
            Some(option) => {
                &&& result == Ok::<SortingOption, InvalidSortingOption>(option)
                &&& is_sorted(final(items)@, option)
                &&& final(items)@.len() == old(items)@.len()
                &&& final(items)@.to_multiset() == old(items)@.to_multiset()
                &&& forall|like: MediaItem| #[trigger]
                    peers(final(items)@, like, option) == peers(old(items)@, like, option)
            },
            None => {
                &&& result == Err::<SortingOption, InvalidSortingOption>(InvalidSortingOption)
                &&& final(items)@ == old(items)@
            },
        },
{
    match SortingOption::from_str(code) {
        Ok(option) => {
            let mut taken: Vec<MediaItem> = Vec::new();
            core::mem::swap(items, &mut taken);
            *items = sort(taken, &option);
            Ok(option)
        },
        Err(error) => Err(error),
    }
}

} // verus!
