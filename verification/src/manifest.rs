//! Reading the two kinds of key/value files: the per-application manifest
//! and the list of library folders.
//!
//! Both are searched for quoted key/value pairs; nesting and unknown keys
//! are ignored, and for a manifest the first occurrence of a key wins.

use vstd::prelude::*;
use crate::pattern::{all_captures, first_capture, pattern_accepted, search_all, search_first};
use crate::text::has_infix;

verus! {

/// Finds the application identifier: the key `appid` and a run of digits.
pub const ID_PATTERN: &'static str = "\"appid\"\\s+\"(\\d+)\"";

/// Finds the application title: the key `name` and a non-empty quoted text.
pub const NAME_PATTERN: &'static str = "\"name\"\\s+\"([^\"]+)\"";

/// Finds a library folder: the key `path` and a non-empty quoted text.
pub const PATH_PATTERN: &'static str = "\"path\"\\s+\"([^\"]+)\"";

/// The title given to an application whose manifest names none.
pub const UNKNOWN_NAME: &'static str = "Unknown Game";

/// One installed application, as read from its manifest.
#[derive(Debug, Clone, PartialEq, Eq)]
pub struct GameInfo {
    pub appid: String,
    pub name: String,
}

/// The mathematical value of a [`GameInfo`].
pub ghost struct GameInfoView {
    pub appid: Seq<char>,
    pub name: Seq<char>,
}

impl View for GameInfo {
    type V = GameInfoView;

    open spec fn view(&self) -> GameInfoView {
        GameInfoView { appid: self.appid@, name: self.name@ }
    }
}

/// Why a file could not be read as a manifest or a folder list.
#[derive(Debug, Clone, Copy, PartialEq, Eq)]
pub enum ManifestError {
    /// The text holds no application identifier.
    MissingField,
    /// A search pattern was refused by the pattern engine.
    PatternRejected,
}

/// The text of a capture that matched and took part in the match.
pub open spec fn captured(found: Option<Option<Seq<char>>>) -> Option<Seq<char>> {
    match found {
        Some(Some(text)) => Some(text),
        _ => None,
    }
}

/// The record that two search outcomes stand for: the identifier is
/// required, the title falls back to [`UNKNOWN_NAME`].
pub open spec fn record_of(
    id: Option<Option<Seq<char>>>,
    name: Option<Option<Seq<char>>>,
) -> Result<GameInfoView, ManifestError> {
    match captured(id) {
        Some(appid) => Ok(
            GameInfoView {
                appid,
                name: match captured(name) {
                    Some(title) => title,
                    None => UNKNOWN_NAME@,
                },
            },
        ),
        None => Err(ManifestError::MissingField),
    }
}

/// Whether a manifest text holds an identifier field.
pub open spec fn has_id_field(content: Seq<char>) -> bool {
    captured(first_capture(ID_PATTERN@, content)) is Some
}

/// Whether a manifest text holds a name field.
pub open spec fn has_name_field(content: Seq<char>) -> bool {
    captured(first_capture(NAME_PATTERN@, content)) is Some
}

/// What a manifest text parses to.
pub open spec fn parsed_manifest(content: Seq<char>) -> Result<GameInfoView, ManifestError> {
    if !pattern_accepted(ID_PATTERN@) || !pattern_accepted(NAME_PATTERN@) {
        Err(ManifestError::PatternRejected)
    } else {
        record_of(first_capture(ID_PATTERN@, content), first_capture(NAME_PATTERN@, content))
    }
}

/// The model of a parse result.
pub open spec fn result_view(r: Result<GameInfo, ManifestError>) -> Result<
    GameInfoView,
    ManifestError,
> {
    match r {
        Ok(game) => Ok(game@),
        Err(e) => Err(e),
    }
}

/// Builds the record from the outcomes of the identifier and title searches.
pub fn manifest_from_captures(id: Option<Option<String>>, name: Option<Option<String>>) -> (r:
    Result<GameInfo, ManifestError>)
    ensures
        result_view(r) == record_of(id.deep_view(), name.deep_view()),
{
    let appid = match id {
        Some(Some(text)) => text,
        _ => {
            return Err(ManifestError::MissingField);
        },
    };
    let name = match name {
        Some(Some(text)) => text,
        _ => UNKNOWN_NAME.to_owned(),
    };
    Ok(GameInfo { appid, name })
}

/// Parses the text of one application manifest.
///
/// Fails with `MissingField` exactly when no identifier field is found; a
/// missing title is replaced by [`UNKNOWN_NAME`]. A found identifier is a
/// contiguous part of the text.
pub fn parse_app_manifest(content: &str) -> (r: Result<GameInfo, ManifestError>)
    ensures
        result_view(r) == parsed_manifest(content@),
        r matches Ok(game) ==> has_infix(content@, game.appid@),
{
    let id = match search_first(ID_PATTERN, content) {
        Ok(found) => found,
        Err(_) => {
            return Err(ManifestError::PatternRejected);
        },
    };
    let name = match search_first(NAME_PATTERN, content) {
        Ok(found) => found,
        Err(_) => {
            return Err(ManifestError::PatternRejected);
        },
    };
    manifest_from_captures(id, name)
}

/// A manifest without an identifier field does not parse.
pub proof fn lemma_missing_id_fails(content: Seq<char>)
    requires
        !has_id_field(content),
    ensures
        parsed_manifest(content) is Err,
        pattern_accepted(ID_PATTERN@) && pattern_accepted(NAME_PATTERN@) ==> parsed_manifest(
            content,
        ) == Err::<GameInfoView, ManifestError>(ManifestError::MissingField),
{
}

/// A record parsed from a manifest without a name field carries the
/// placeholder title.
pub proof fn lemma_missing_name_gives_placeholder(content: Seq<char>)
    requires
        has_id_field(content),
        !has_name_field(content),
    ensures
        parsed_manifest(content) matches Ok(game) ==> game.name == UNKNOWN_NAME@,
        pattern_accepted(ID_PATTERN@) && pattern_accepted(NAME_PATTERN@) ==> parsed_manifest(
            content,
        ) is Ok,
{
}

/// The captured texts that are present, in order.
pub open spec fn present_texts(found: Seq<Option<Seq<char>>>) -> Seq<Seq<char>>
    decreases found.len(),
{
    if found.len() == 0 {
        Seq::empty()
    } else {
        let rest = present_texts(found.drop_last());
        match found.last() {
            Some(text) => rest.push(text),
            None => rest,
        }
    }
}

/// Every text kept by [`present_texts`] is one of the captures, so nothing
/// is invented and nothing present is left out.
pub proof fn lemma_present_texts_are_captured(found: Seq<Option<Seq<char>>>)
    ensures
        forall|i: int|
            0 <= i < present_texts(found).len() ==> found.contains(
                Some(#[trigger] present_texts(found)[i]),
            ),
        forall|j: int|
            0 <= j < found.len() ==> (#[trigger] found[j] matches Some(text)
                ==> present_texts(found).contains(text)),
        present_texts(found).len() <= found.len(),
    decreases found.len(),
{
    if found.len() > 0 {
        let front = found.drop_last();
        lemma_present_texts_are_captured(front);
        let kept = present_texts(found);
        assert forall|i: int| 0 <= i < kept.len() implies found.contains(
            Some(#[trigger] kept[i]),
        ) by {
            if i < present_texts(front).len() {
                let j = choose|j: int| 0 <= j < front.len() && front[j] == Some(kept[i]);
                assert(found[j] == Some(kept[i]));
            } else {
                assert(found[found.len() - 1] == Some(kept[i]));
            }
        }
        assert forall|j: int| 0 <= j < found.len() implies (#[trigger] found[j] matches Some(text)
            ==> kept.contains(text)) by {
            if let Some(text) = found[j] {
                if j < front.len() {
                    assert(front[j] == found[j]);
                    let i = choose|i: int|
                        0 <= i < present_texts(front).len() && present_texts(front)[i] == text;
                    assert(kept[i] == text);
                } else {
                    assert(kept[kept.len() - 1] == text);
                }
            }
        }
    }
}

/// What a folder list parses to: every `path` value, in order of occurrence.
pub open spec fn parsed_library_folders(content: Seq<char>) -> Result<
    Seq<Seq<char>>,
    ManifestError,
> {
    if !pattern_accepted(PATH_PATTERN@) {
        Err(ManifestError::PatternRejected)
    } else {
        Ok(present_texts(all_captures(PATH_PATTERN@, content)))
    }
}

/// The model of a folder-list result.
pub open spec fn folders_view(r: Result<Vec<String>, ManifestError>) -> Result<
    Seq<Seq<char>>,
    ManifestError,
> {
    match r {
        Ok(paths) => Ok(paths.deep_view()),
        Err(e) => Err(e),
    }
}

/// Keeps the captured texts that are present, in order.
pub fn folders_from_captures(found: Vec<Option<String>>) -> (paths: Vec<String>)
    ensures
        paths.deep_view() == present_texts(found.deep_view()),
{
    let mut paths: Vec<String> = Vec::new();
    let mut i: usize = 0;
    while i < found.len()
        invariant
            i <= found.len(),
            paths.deep_view() == present_texts(found.deep_view().take(i as int)),
        decreases found.len() - i,
    {
        proof {
            let next = found.deep_view().take(i + 1);
            assert(next.drop_last() == found.deep_view().take(i as int));
            assert(next.last() == found[i as int].deep_view());
        }
        let ghost before = paths.deep_view();
        match &found[i] {
            Some(text) => {
                paths.push(text.clone());
                assert(paths.deep_view() == before.push(text@));
            },
            None => {},
        }
        i += 1;
    }
    proof {
        assert(found.deep_view().take(found.len() as int) == found.deep_view());
    }
    paths
}

/// Parses the text of the folder list: every `path` value is a candidate
/// library root, whatever surrounds it. Nothing is checked about the paths.
pub fn parse_library_folders(content: &str) -> (r: Result<Vec<String>, ManifestError>)
    ensures
        folders_view(r) == parsed_library_folders(content@),
        r matches Ok(paths) ==> forall|i: int|
            0 <= i < paths.len() ==> has_infix(content@, #[trigger] paths[i]@),
{
    match search_all(PATH_PATTERN, content) {
        Ok(found) => {
            proof {
                lemma_present_texts_are_captured(found.deep_view());
            }
            let paths = folders_from_captures(found);
            assert forall|i: int| 0 <= i < paths.len() implies has_infix(
                content@,
                #[trigger] paths[i]@,
            ) by {
                assert(paths[i]@ == paths.deep_view()[i]);
            }
            Ok(paths)
        },
        Err(_) => Err(ManifestError::PatternRejected),
    }
}

} // verus!
