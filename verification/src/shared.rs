//! Media kinds and the sorting options an operator can pick.

use vstd::prelude::*;
use vstd::string::*;

verus! {

/// The kind of a media item: a film, or an episodic series.
#[derive(Debug, Clone, Copy, PartialEq, Eq, Structural, PartialOrd, Ord)]
pub enum MediaType {
    Movie,
    Tv,
}

impl MediaType {
    /// The label shown to the operator.
    pub open spec fn label_spec(self) -> Seq<char> {
        match self {
            MediaType::Movie => "Movie"@,
            MediaType::Tv => "TV"@,
        }
    }

    /// The label shown to the operator: `Movie` or `TV`.
    pub fn label(&self) -> (text: &'static str)
        ensures
            text@ == self.label_spec(),
    {
        match self {
            MediaType::Movie => "Movie",
            MediaType::Tv => "TV",
        }
    }

    /// Position of the kind in the order used when sorting by type: films first.
    pub open spec fn rank(self) -> int {
        match self {
            MediaType::Movie => 0,
            MediaType::Tv => 1,
        }
    }

    /// The name of the query parameter under which the watch-history service
    /// finds the plays of an item of this kind.
    pub open spec fn history_key_spec(self) -> Seq<char> {
        match self {
            MediaType::Movie => "rating_key"@,
            MediaType::Tv => "grandparent_rating_key"@,
        }
    }

    /// Plays are recorded per episode, so a series is looked up by the
    /// identifier of its ancestor; a film by its own.
    pub fn history_key(&self) -> (name: &'static str)
        ensures
            name@ == self.history_key_spec(),
    {
        match self {
            MediaType::Movie => "rating_key",
            MediaType::Tv => "grandparent_rating_key",
        }
    }
}

/// Direction of a sort.
#[derive(Debug, Clone, Copy, PartialEq, Eq, Structural)]
pub enum Order {
    Desc,
    Asc,
}

/// What a sort goes by.
#[derive(Debug, Clone, Copy, PartialEq, Eq, Structural)]
pub enum SortingValue {
    Name,
    Size,
    Type,
}

/// A sort key together with a direction.
#[derive(Debug, Clone, Copy, PartialEq, Eq, Structural)]
pub struct SortingOption {
    pub sorting_value: SortingValue,
    pub sorting_direction: Order,
}

/// The text was none of the five short codes.
#[derive(Debug, Clone, Copy, PartialEq, Eq, Structural)]
pub struct InvalidSortingOption;

impl InvalidSortingOption {
    /// The message shown to the operator.
    pub fn message(&self) -> (text: &'static str)
        ensures
            text@ == "Not a valid Sorting Option"@,
    {
        "Not a valid Sorting Option"
    }
}

/// The option that a short code stands for. There are exactly five codes;
/// sorting by type is offered in descending direction only.
pub open spec fn option_of_code(code: Seq<char>) -> Option<SortingOption> {
    if code == seq!['n'] {
        Some(SortingOption { sorting_value: SortingValue::Name, sorting_direction: Order::Asc })
    } else if code == seq!['n', 'd'] {
        Some(SortingOption { sorting_value: SortingValue::Name, sorting_direction: Order::Desc })
    } else if code == seq!['s', 'a'] {
        Some(SortingOption { sorting_value: SortingValue::Size, sorting_direction: Order::Asc })
    } else if code == seq!['s'] {
        Some(SortingOption { sorting_value: SortingValue::Size, sorting_direction: Order::Desc })
    } else if code == seq!['t'] {
        Some(SortingOption { sorting_value: SortingValue::Type, sorting_direction: Order::Desc })
    } else {
        None
    }
}

impl Default for SortingOption {
    /// By name, ascending.
    fn default() -> (option: Self)
        ensures
            option == (SortingOption {
                sorting_value: SortingValue::Name,
                sorting_direction: Order::Asc,
            }),
    {
        SortingOption { sorting_value: SortingValue::Name, sorting_direction: Order::Asc }
    }
}

impl SortingOption {
    /// Reads a short code. Any text but the five codes is refused.
    pub fn from_str(s: &str) -> (parsed: Result<SortingOption, InvalidSortingOption>)
        ensures
            match option_of_code(s@) {
                Some(option) => parsed == Ok::<SortingOption, InvalidSortingOption>(option),
                None => parsed == Err::<SortingOption, InvalidSortingOption>(InvalidSortingOption),
            },
    {
        let n: usize = s.unicode_len();
        if n == 1 {
            let c = s.get_char(0);
            assert(s@ =~= seq![c]);
            if c == 'n' {
                Ok(SortingOption { sorting_value: SortingValue::Name, sorting_direction: Order::Asc })
            } else if c == 's' {
                Ok(SortingOption { sorting_value: SortingValue::Size, sorting_direction: Order::Desc })
            } else if c == 't' {
                Ok(SortingOption { sorting_value: SortingValue::Type, sorting_direction: Order::Desc })
            } else {
                assert(seq![c][0] == c);
                Err(InvalidSortingOption)
            }
        } else if n == 2 {
            let c = s.get_char(0);
            let d = s.get_char(1);
            assert(s@ =~= seq![c, d]);
            if c == 'n' && d == 'd' {
                Ok(SortingOption { sorting_value: SortingValue::Name, sorting_direction: Order::Desc })
            } else if c == 's' && d == 'a' {
                Ok(SortingOption { sorting_value: SortingValue::Size, sorting_direction: Order::Asc })
            } else {
                assert(seq![c, d][0] == c && seq![c, d][1] == d);
                Err(InvalidSortingOption)
            }
        } else {
            assert(seq!['n'].len() == 1 && seq!['s'].len() == 1 && seq!['t'].len() == 1);
            assert(seq!['n', 'd'].len() == 2 && seq!['s', 'a'].len() == 2);
            Err(InvalidSortingOption)
        }
    }
}

} // verus!
