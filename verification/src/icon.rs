//! Choosing an icon for a game from the files cached under its identifier.
//!
//! The cache names its images by a hash; a file is taken for an icon by the
//! shape of its name alone.

use vstd::prelude::*;
use crate::text::{chars_of, ends_with, has_suffix};

verus! {

/// The icon named when the cache holds none.
pub const FALLBACK_ICON: &'static str = "steam";

/// The extension of a cached icon.
pub const ICON_SUFFIX: &'static str = ".jpg";

/// The number of characters in the file name of a cached icon: a hash of
/// forty characters and the extension.
pub const ICON_NAME_LEN: usize = 44;

/// One file found in the cache directory of a game.
#[derive(Debug, Clone, PartialEq, Eq)]
pub struct IconCandidate {
    pub file_name: String,
    pub path: String,
}

/// The mathematical value of an [`IconCandidate`].
pub ghost struct IconCandidateView {
    pub file_name: Seq<char>,
    pub path: Seq<char>,
}

impl View for IconCandidate {
    type V = IconCandidateView;

    open spec fn view(&self) -> IconCandidateView {
        IconCandidateView { file_name: self.file_name@, path: self.path@ }
    }
}

/// A file name with the shape of a cached icon.
pub open spec fn is_icon_name(file_name: Seq<char>) -> bool {
    file_name.len() == ICON_NAME_LEN && has_suffix(file_name, ICON_SUFFIX@)
}

/// The path of the first file with the shape of an icon, or the fallback
/// where no file has it.
pub open spec fn icon_among(files: Seq<IconCandidateView>) -> Seq<char>
    decreases files.len(),
{
    if files.len() == 0 {
        FALLBACK_ICON@
    } else if is_icon_name(files[0].file_name) {
        files[0].path
    } else {
        icon_among(files.drop_first())
    }
}

/// The views of a listing, in order.
pub open spec fn listing_view(files: Seq<IconCandidate>) -> Seq<IconCandidateView> {
    Seq::new(files.len(), |i: int| files[i]@)
}

/// Whether a file name has the shape of a cached icon.
pub fn is_icon_file(file_name: &str) -> (hit: bool)
    ensures
        hit == is_icon_name(file_name@),
{
    let name = chars_of(file_name);
    let suffix = chars_of(ICON_SUFFIX);
    name.len() == ICON_NAME_LEN && ends_with(&name, &suffix)
}

/// Picks the icon of a game from the listing of its cache directory: the
/// first file shaped like an icon, or the fallback. An absent or unreadable
/// directory is an empty listing.
pub fn resolve_icon(files: &Vec<IconCandidate>) -> (icon: String)
    ensures
        icon@ == icon_among(listing_view(files@)),
{
    let ghost all = listing_view(files@);
    let mut i: usize = 0;
    proof {
        assert(all.skip(0) == all);
    }
    while i < files.len()
        invariant
            i <= files.len(),
            all == listing_view(files@),
            icon_among(all) == icon_among(all.skip(i as int)),
        decreases files.len() - i,
    {
        proof {
            assert(all.skip(i as int)[0] == files[i as int]@);
            assert(all.skip(i as int).drop_first() == all.skip(i + 1));
        }
        if is_icon_file(files[i].file_name.as_str()) {
            return files[i].path.clone();
        }
        i += 1;
    }
    FALLBACK_ICON.to_owned()
}

/// The fallback is chosen exactly when no file has the shape of an icon;
/// otherwise the choice is the path of the first file that has it.
pub proof fn lemma_icon_is_first_match(files: Seq<IconCandidateView>)
    ensures
        (forall|i: int| 0 <= i < files.len() ==> !is_icon_name(#[trigger] files[i].file_name))
            ==> icon_among(files) == FALLBACK_ICON@,
        forall|i: int|
            0 <= i < files.len() && is_icon_name(#[trigger] files[i].file_name) && (forall|j: int|
                0 <= j < i ==> !is_icon_name(#[trigger] files[j].file_name)) ==> icon_among(files)
                == files[i].path,
    decreases files.len(),
{
    if files.len() > 0 {
        let rest = files.drop_first();
        lemma_icon_is_first_match(rest);
        if !is_icon_name(files[0].file_name) {
            assert forall|i: int|
                0 <= i < files.len() && is_icon_name(#[trigger] files[i].file_name) && (forall|
                    j: int,
                | 0 <= j < i ==> !is_icon_name(#[trigger] files[j].file_name)) implies icon_among(
                files,
            ) == files[i].path by {
                assert(rest[i - 1] == files[i]);
                assert forall|j: int| 0 <= j < i - 1 implies !is_icon_name(
                    #[trigger] rest[j].file_name,
                ) by {
                    assert(rest[j] == files[j + 1]);
                }
            }
            if forall|i: int| 0 <= i < files.len() ==> !is_icon_name(#[trigger] files[i].file_name) {
                assert forall|i: int| 0 <= i < rest.len() implies !is_icon_name(
                    #[trigger] rest[i].file_name,
                ) by {
                    assert(rest[i] == files[i + 1]);
                }
            }
        }
    }
}

} // verus!
