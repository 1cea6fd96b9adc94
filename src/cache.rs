//! Naming of the per-game cache files and merging of their contents into one
//! list.

use vstd::prelude::*;
use vstd::string::{StringExecFns, StringSliceAdditionalSpecFns};
use crate::game::{game_name, Game};
use crate::packet::append_bytes;

verus! {

/// The name of the file that caches the servers of `g`.
pub open spec fn cache_file_of(g: Game) -> Seq<char> {
    "servers_"@ + game_name(g) + ".json"@
}

/// The name of the file that caches the servers of `game`.
pub fn cache_file_name(game: Game) -> (r: String)
    ensures
        r@ == cache_file_of(game),
{
    let mut r = String::from_str("servers_");
    let name = game.name();
    r.append(name.as_str());
    r.append(".json");
    r
}

/// A list without its opening and closing bracket.
pub open spec fn list_items(l: Seq<u8>) -> Seq<u8> {
    l.subrange(1, l.len() - 1)
}

/// The items of the lists, the lists separated by a comma and a line break.
pub open spec fn joined_items(lists: Seq<Seq<u8>>) -> Seq<u8>
    decreases lists.len(),
{
    if lists.len() == 0 {
        seq![]
    } else if lists.len() == 1 {
        list_items(lists[0])
    } else {
        joined_items(lists.drop_last()) + ",\n".spec_bytes() + list_items(lists.last())
    }
}

/// One list that holds the items of all `lists`, in order.
pub open spec fn merged_list(lists: Seq<Seq<u8>>) -> Seq<u8> {
    "[\n".spec_bytes() + joined_items(lists) + "\n]".spec_bytes()
}

/// Merges cached lists, each the text of one list with its brackets, into
/// one list.
pub fn merge_cached_lists(lists: &Vec<Vec<u8>>) -> (r: Vec<u8>)
    requires
        forall|i: int| 0 <= i < lists@.len() ==> #[trigger] lists@[i]@.len() >= 2,
    ensures
        r@ == merged_list(lists@.map_values(|l: Vec<u8>| l@)),
{
    let ghost all = lists@.map_values(|l: Vec<u8>| l@);
    let mut body: Vec<u8> = Vec::new();
    let mut i: usize = 0;
    while i < lists.len()
        invariant
            i <= lists@.len(),
            all == lists@.map_values(|l: Vec<u8>| l@),
            forall|j: int| 0 <= j < lists@.len() ==> #[trigger] lists@[j]@.len() >= 2,
            body@ == joined_items(all.take(i as int)),
        decreases lists@.len() - i,
    {
        let l = &lists[i];
        assert(all.take(i + 1).drop_last() == all.take(i as int));
        assert(all.take(i + 1).last() == l@);
        if i > 0 {
            append_bytes(&mut body, ",\n".as_bytes());
        }
        let mut k: usize = 1;
        let ghost start = body@;
        while k < l.len() - 1
            invariant
                1 <= k <= l@.len() - 1,
                l@.len() >= 2,
                body@ == start + l@.subrange(1, k as int),
            decreases l@.len() - k,
        {
            body.push(l[k]);
            k = k + 1;
        }
        i = i + 1;
    }
    assert(all.take(lists@.len() as int) == all);
    let mut r: Vec<u8> = Vec::new();
    append_bytes(&mut r, "[\n".as_bytes());
    append_bytes(&mut r, body.as_slice());
    append_bytes(&mut r, "\n]".as_bytes());
    r
}

} // verus!
