//! Keeping the output directory in step with the accepted games: old
//! shortcuts are removed first, then one file is written per game.
//!
//! The directory is modelled as a map from file name to file text.

use vstd::prelude::*;
use crate::shortcut::{is_shortcut_file, is_shortcut_name, ShortcutView};

verus! {

/// The names among `names` that follow the shortcut naming convention, in
/// order.
pub open spec fn stale_among(names: Seq<Seq<char>>) -> Seq<Seq<char>>
    decreases names.len(),
{
    if names.len() == 0 {
        Seq::empty()
    } else {
        let before = stale_among(names.drop_last());
        if is_shortcut_name(names.last()) {
            before.push(names.last())
        } else {
            before
        }
    }
}

/// The directory once every shortcut of an earlier run is removed.
pub open spec fn after_cleanup(dir: Map<Seq<char>, Seq<char>>) -> Map<Seq<char>, Seq<char>> {
    Map::new(|name: Seq<char>| dir.contains_key(name) && !is_shortcut_name(name), |name: Seq<char>| dir[name])
}

/// The directory once a shortcut is written: a file of the same name is
/// replaced.
pub open spec fn after_write(dir: Map<Seq<char>, Seq<char>>, shortcut: ShortcutView) -> Map<
    Seq<char>,
    Seq<char>,
> {
    dir.insert(shortcut.file_name, shortcut.content)
}

/// The directory once the files named in `names` are removed.
pub open spec fn after_removing(dir: Map<Seq<char>, Seq<char>>, names: Seq<Seq<char>>) -> Map<
    Seq<char>,
    Seq<char>,
> {
    dir.remove_keys(names.to_set())
}

/// Picks from the listing of the output directory the files to delete
/// before a run writes anew: those named like a shortcut, and no others.
pub fn stale_shortcuts(listing: &Vec<String>) -> (stale: Vec<String>)
    ensures
        stale.deep_view() == stale_among(listing.deep_view()),
{
    let mut stale: Vec<String> = Vec::new();
    let mut i: usize = 0;
    while i < listing.len()
        invariant
            i <= listing.len(),
            stale.deep_view() == stale_among(listing.deep_view().take(i as int)),
        decreases listing.len() - i,
    {
        proof {
            let next = listing.deep_view().take(i + 1);
            assert(next.drop_last() == listing.deep_view().take(i as int));
            assert(next.last() == listing[i as int]@);
        }
        let ghost before = stale.deep_view();
        if is_shortcut_file(listing[i].as_str()) {
            stale.push(listing[i].clone());
            assert(stale.deep_view() == before.push(listing[i as int]@));
        }
        i += 1;
    }
    proof {
        assert(listing.deep_view().take(listing.len() as int) == listing.deep_view());
    }
    stale
}

/// A name is picked for deletion exactly when it is listed and follows the
/// naming convention.
pub proof fn lemma_stale_are_the_shortcut_names(names: Seq<Seq<char>>)
    ensures
        forall|name: Seq<char>|
            #[trigger] stale_among(names).contains(name) <==> names.contains(name)
                && is_shortcut_name(name),
    decreases names.len(),
{
    if names.len() > 0 {
        let front = names.drop_last();
        lemma_stale_are_the_shortcut_names(front);
        let picked = stale_among(names);
        assert forall|name: Seq<char>| #[trigger] picked.contains(name) <==> names.contains(name)
            && is_shortcut_name(name) by {
            if picked.contains(name) {
                let i = choose|i: int| 0 <= i < picked.len() && picked[i] == name;
                if i < stale_among(front).len() {
                    assert(stale_among(front)[i] == name);
                    assert(stale_among(front).contains(name));
                    let j = choose|j: int| 0 <= j < front.len() && front[j] == name;
                    assert(names[j] == name);
                } else {
                    assert(names[names.len() - 1] == name);
                }
            }
            if names.contains(name) && is_shortcut_name(name) {
                let j = choose|j: int| 0 <= j < names.len() && names[j] == name;
                if j < front.len() {
                    assert(front[j] == name);
                    assert(stale_among(front).contains(name));
                    let i = choose|i: int|
                        0 <= i < stale_among(front).len() && stale_among(front)[i] == name;
                    assert(picked[i] == name);
                } else {
                    assert(picked[picked.len() - 1] == name);
                }
            }
        }
    }
}

/// Cleanup touches only this tool's files: a file named like a shortcut is
/// gone afterwards, and every other file is there with its text unchanged.
pub proof fn lemma_cleanup_removes_only_shortcuts(dir: Map<Seq<char>, Seq<char>>, name: Seq<char>)
    ensures
        is_shortcut_name(name) ==> !after_cleanup(dir).contains_key(name),
        !is_shortcut_name(name) ==> after_cleanup(dir).contains_key(name) == dir.contains_key(name),
        !is_shortcut_name(name) && dir.contains_key(name) ==> after_cleanup(dir)[name] == dir[name],
{
}

/// Deleting the picked files of a complete listing is the cleanup.
pub proof fn lemma_removing_stale_is_cleanup(dir: Map<Seq<char>, Seq<char>>, listing: Seq<Seq<char>>)
    requires
        forall|name: Seq<char>| dir.contains_key(name) <==> listing.contains(name),
    ensures
        after_removing(dir, stale_among(listing)) == after_cleanup(dir),
{
    lemma_stale_are_the_shortcut_names(listing);
    let removed = after_removing(dir, stale_among(listing));
    assert forall|name: Seq<char>| removed.contains_key(name) <==> after_cleanup(dir).contains_key(
        name,
    ) by {
        assert(stale_among(listing).to_set().contains(name) <==> stale_among(listing).contains(name));
    }
    assert(removed =~= after_cleanup(dir));
}

/// Cleaning twice is cleaning once.
pub proof fn lemma_cleanup_is_idempotent(dir: Map<Seq<char>, Seq<char>>)
    ensures
        after_cleanup(after_cleanup(dir)) == after_cleanup(dir),
{
    assert(after_cleanup(after_cleanup(dir)) =~= after_cleanup(dir));
}

/// A written shortcut does not outlive the next cleanup.
pub proof fn lemma_cleanup_forgets_written_shortcut(
    dir: Map<Seq<char>, Seq<char>>,
    shortcut: ShortcutView,
)
    requires
        is_shortcut_name(shortcut.file_name),
    ensures
        after_cleanup(after_write(dir, shortcut)) == after_cleanup(dir),
{
    assert(after_cleanup(after_write(dir, shortcut)) =~= after_cleanup(dir));
}

} // verus!
