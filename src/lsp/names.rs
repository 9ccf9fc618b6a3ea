use rand::Rng;
use crate::text::append_str;
use vstd::prelude::*;

verus! {

/// The number of syllables that aliases are made of.
pub const SYLLABLE_COUNT: usize = 25;

/// The syllables that aliases are made of.
pub open spec fn syllable(i: int) -> Seq<char> {
    if i < 8 {
        if i == 0 { "ko"@ } else if i == 1 { "mi"@ } else if i == 2 { "yu"@ } else if i == 3 { "ta"@ }
        else if i == 4 { "sa"@ } else if i == 5 { "na"@ } else if i == 6 { "shi"@ } else { "ka"@ }
    } else if i < 16 {
        if i == 8 { "to"@ } else if i == 9 { "mo"@ } else if i == 10 { "fu"@ } else if i == 11 { "hi"@ }
        else if i == 12 { "ma"@ } else if i == 13 { "ku"@ } else if i == 14 { "re"@ } else { "no"@ }
    } else {
        if i == 16 { "do"@ } else if i == 17 { "chi"@ } else if i == 18 { "ro"@ } else if i == 19 { "me"@ }
        else if i == 20 { "ri"@ } else if i == 21 { "ra"@ } else if i == 22 { "sen"@ } else if i == 23 { "gan"@ }
        else { "ga"@ }
    }
}

fn syllable_at(i: usize) -> (r: &'static str)
    requires
        i < SYLLABLE_COUNT,
    ensures
        r@ == syllable(i as int),
{
    if i < 8 {
        if i == 0 { "ko" } else if i == 1 { "mi" } else if i == 2 { "yu" } else if i == 3 { "ta" }
        else if i == 4 { "sa" } else if i == 5 { "na" } else if i == 6 { "shi" } else { "ka" }
    } else if i < 16 {
        if i == 8 { "to" } else if i == 9 { "mo" } else if i == 10 { "fu" } else if i == 11 { "hi" }
        else if i == 12 { "ma" } else if i == 13 { "ku" } else if i == 14 { "re" } else { "no" }
    } else {
        if i == 16 { "do" } else if i == 17 { "chi" } else if i == 18 { "ro" } else if i == 19 { "me" }
        else if i == 20 { "ri" } else if i == 21 { "ra" } else if i == 22 { "sen" } else if i == 23 { "gan" }
        else { "ga" }
    }
}

/// The syllables picked, in order, written one after the other.
pub open spec fn joined(picks: Seq<int>) -> Seq<char>
    decreases picks.len(),
{
    if picks.len() == 0 {
        Seq::empty()
    } else {
        joined(picks.drop_last()) + syllable(picks.last())
    }
}

/// The name is two to four syllables of the alias alphabet.
pub open spec fn is_alias(name: Seq<char>) -> bool {
    exists|picks: Seq<int>|
        2 <= picks.len() <= 4 && (forall|j: int| 0 <= j < picks.len() ==> 0 <= #[trigger] picks[j] < SYLLABLE_COUNT)
            && name == joined(picks)
}

/// Relies on rand's `thread_rng().gen_range(lo..=hi)`: a uniformly drawn value
/// of the closed range, which must not be empty.
#[verifier::external_body]
fn random_in(lo: usize, hi: usize) -> (r: usize)
    requires
        lo <= hi,
    ensures
        lo <= r <= hi,
{
    rand::thread_rng().gen_range(lo..=hi)
}

/// The picks as integers.
pub open spec fn picks_view(picks: Seq<usize>) -> Seq<int> {
    picks.map_values(|p: usize| p as int)
}

/// The alias made of the picked syllables, in order.
pub fn alias_from_picks(picks: &Vec<usize>) -> (r: String)
    requires
        2 <= picks@.len() <= 4,
        forall|j: int| 0 <= j < picks@.len() ==> #[trigger] picks@[j] < SYLLABLE_COUNT,
    ensures
        r@ == joined(picks_view(picks@)),
        is_alias(r@),
{
    let mut name = String::new();
    let mut i: usize = 0;
    while i < picks.len()
        invariant
            i <= picks@.len(),
            forall|j: int| 0 <= j < picks@.len() ==> #[trigger] picks@[j] < SYLLABLE_COUNT,
            name@ == joined(picks_view(picks@.subrange(0, i as int))),
        decreases picks@.len() - i,
    {
        append_str(&mut name, syllable_at(picks[i]));
        proof {
            assert(picks_view(picks@.subrange(0, i + 1)).drop_last() =~= picks_view(picks@.subrange(0, i as int)));
        }
        i = i + 1;
    }
    proof {
        assert(picks@.subrange(0, picks@.len() as int) =~= picks@);
        let v = picks_view(picks@);
        assert forall|j: int| 0 <= j < v.len() implies 0 <= #[trigger] v[j] < SYLLABLE_COUNT by {
            assert(picks@[j] < SYLLABLE_COUNT);
        }
    }
    name
}

/// A random alias of two to four syllables.
pub fn generate_random_name() -> (r: String)
    ensures
        is_alias(r@),
{
    let num_syllables = random_in(2, 4);
    let mut picks: Vec<usize> = Vec::new();
    while picks.len() < num_syllables
        invariant
            2 <= num_syllables <= 4,
            picks@.len() <= num_syllables,
            forall|j: int| 0 <= j < picks@.len() ==> #[trigger] picks@[j] < SYLLABLE_COUNT,
        decreases num_syllables - picks@.len(),
    {
        let index = random_in(0, SYLLABLE_COUNT - 1);
        picks.push(index);
    }
    alias_from_picks(&picks)
}

} // verus!
