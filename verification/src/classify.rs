//! Telling games from tools: an entry is suppressed when its identifier is
//! on the ignore list, or when its title holds an ignored keyword.

use vstd::prelude::*;
use crate::text::{
    chars_of, contains, has_infix, lowercase, lowercased, same_text, split_and_trim, split_trimmed,
};

verus! {

/// Whether an entry becomes a shortcut.
#[derive(Debug, Clone, Copy, PartialEq, Eq)]
pub enum Decision {
    Accept,
    Suppress,
}

/// The identifier is one of the ignored ones, letter for letter.
pub open spec fn id_ignored(appid: Seq<char>, ignored_ids: Seq<Seq<char>>) -> bool {
    ignored_ids.contains(appid)
}

/// The lower-cased title holds the lower-cased keyword.
pub open spec fn keyword_hits(name: Seq<char>, keyword: Seq<char>) -> bool {
    has_infix(lowercased(name), lowercased(keyword))
}

/// Some ignored keyword occurs in the title, whatever the case of either.
pub open spec fn keyword_ignored(name: Seq<char>, ignored_keywords: Seq<Seq<char>>) -> bool {
    exists|i: int| 0 <= i < ignored_keywords.len() && keyword_hits(name, #[trigger] ignored_keywords[i])
}

/// The rule of suppression.
pub open spec fn skip_wanted(
    name: Seq<char>,
    appid: Seq<char>,
    ignored_ids: Seq<Seq<char>>,
    ignored_keywords: Seq<Seq<char>>,
) -> bool {
    id_ignored(appid, ignored_ids) || keyword_ignored(name, ignored_keywords)
}

/// The decision that the rule of suppression leads to.
pub open spec fn decision_for(
    name: Seq<char>,
    appid: Seq<char>,
    ignored_ids: Seq<Seq<char>>,
    ignored_keywords: Seq<Seq<char>>,
) -> Decision {
    if skip_wanted(name, appid, ignored_ids, ignored_keywords) {
        Decision::Suppress
    } else {
        Decision::Accept
    }
}

/// Whether `appid` equals one of `ignored_app_ids`.
pub fn is_ignored_id(appid: &str, ignored_app_ids: &Vec<&str>) -> (hit: bool)
    ensures
        hit == id_ignored(appid@, ignored_app_ids.deep_view()),
{
    let mut i: usize = 0;
    while i < ignored_app_ids.len()
        invariant
            i <= ignored_app_ids.len(),
            forall|j: int| 0 <= j < i ==> ignored_app_ids.deep_view()[j] != appid@,
        decreases ignored_app_ids.len() - i,
    {
        if same_text(appid, ignored_app_ids[i]) {
            proof {
                assert(ignored_app_ids.deep_view()[i as int] == appid@);
            }
            return true;
        }
        i += 1;
    }
    false
}

/// Whether the title holds one of `ignored_key_words`, case aside.
pub fn has_ignored_keyword(name: &str, ignored_key_words: &Vec<&str>) -> (hit: bool)
    ensures
        hit == keyword_ignored(name@, ignored_key_words.deep_view()),
{
    let name_lower = lowercase(name);
    let name_chars = chars_of(name_lower.as_str());
    let mut i: usize = 0;
    while i < ignored_key_words.len()
        invariant
            i <= ignored_key_words.len(),
            name_chars@ == lowercased(name@),
            forall|j: int| 0 <= j < i ==> !keyword_hits(name@, ignored_key_words.deep_view()[j]),
        decreases ignored_key_words.len() - i,
    {
        let keyword_lower = lowercase(ignored_key_words[i]);
        let keyword_chars = chars_of(keyword_lower.as_str());
        if contains(&name_chars, &keyword_chars) {
            proof {
                assert(keyword_hits(name@, ignored_key_words.deep_view()[i as int]));
            }
            return true;
        }
        i += 1;
    }
    false
}

/// Whether an entry is suppressed: its identifier is ignored, or else its
/// title holds an ignored keyword.
pub fn should_skip(
    name: &str,
    appid: &str,
    ignored_app_ids: &Vec<&str>,
    ignored_key_words: &Vec<&str>,
) -> (skip: bool)
    ensures
        skip == skip_wanted(
            name@,
            appid@,
            ignored_app_ids.deep_view(),
            ignored_key_words.deep_view(),
        ),
{
    if is_ignored_id(appid, ignored_app_ids) {
        return true;
    }
    has_ignored_keyword(name, ignored_key_words)
}

/// Decides whether an entry is a game to keep or a tool to suppress.
pub fn classify(
    name: &str,
    appid: &str,
    ignored_app_ids: &Vec<&str>,
    ignored_key_words: &Vec<&str>,
) -> (decision: Decision)
    ensures
        decision == decision_for(
            name@,
            appid@,
            ignored_app_ids.deep_view(),
            ignored_key_words.deep_view(),
        ),
{
    if should_skip(name, appid, ignored_app_ids, ignored_key_words) {
        Decision::Suppress
    } else {
        Decision::Accept
    }
}

/// The keywords ignored when the caller names none.
pub open spec fn default_keywords() -> Seq<Seq<char>> {
    seq![
        "Proton"@,
        "Steam Linux Runtime"@,
        "Steamworks"@,
        "Common Redistributables"@,
        "SteamVR"@,
        "Dedicated Server"@,
        "Soundtrack"@,
    ]
}

/// The identifiers ignored when the caller names none.
pub open spec fn default_ids() -> Seq<Seq<char>> {
    seq!["480"@]
}

/// A list as configured: the caller's comma-separated text replaces the
/// defaults altogether, and is cut at the commas with each entry trimmed.
pub open spec fn configured_list(given: Option<Seq<char>>, defaults: Seq<Seq<char>>) -> Seq<
    Seq<char>,
> {
    match given {
        Some(list) => split_trimmed(list, ','),
        None => defaults,
    }
}

/// The built-in keyword list.
pub fn default_skip_keywords() -> (keywords: Vec<String>)
    ensures
        keywords.deep_view() == default_keywords(),
{
    let mut keywords: Vec<String> = Vec::new();
    keywords.push("Proton".to_owned());
    keywords.push("Steam Linux Runtime".to_owned());
    keywords.push("Steamworks".to_owned());
    keywords.push("Common Redistributables".to_owned());
    keywords.push("SteamVR".to_owned());
    keywords.push("Dedicated Server".to_owned());
    keywords.push("Soundtrack".to_owned());
    assert(keywords.deep_view() =~= default_keywords());
    keywords
}

/// The built-in identifier list.
pub fn default_ignored_app_ids() -> (ids: Vec<String>)
    ensures
        ids.deep_view() == default_ids(),
{
    let mut ids: Vec<String> = Vec::new();
    ids.push("480".to_owned());
    assert(ids.deep_view() =~= default_ids());
    ids
}

/// The texts of a list of strings, borrowed.
pub fn as_slices<'a>(list: &'a Vec<String>) -> (slices: Vec<&'a str>)
    ensures
        slices.deep_view() == list.deep_view(),
{
    let mut slices: Vec<&'a str> = Vec::new();
    let mut i: usize = 0;
    while i < list.len()
        invariant
            i <= list.len(),
            slices.len() == i,
            forall|k: int| 0 <= k < i ==> (#[trigger] slices[k])@ == list[k]@,
        decreases list.len() - i,
    {
        slices.push(list[i].as_str());
        i += 1;
    }
    assert(slices.deep_view() =~= list.deep_view());
    slices
}

/// The two ignore lists that a run works with.
#[derive(Debug, Clone, PartialEq, Eq)]
pub struct SkipLists {
    pub ignored_ids: Vec<String>,
    pub ignored_keywords: Vec<String>,
}

impl SkipLists {
    /// The built-in lists.
    pub fn defaults() -> (lists: SkipLists)
        ensures
            lists.ignored_ids.deep_view() == default_ids(),
            lists.ignored_keywords.deep_view() == default_keywords(),
    {
        SkipLists {
            ignored_ids: default_ignored_app_ids(),
            ignored_keywords: default_skip_keywords(),
        }
    }

    /// The lists for a run: each one is the caller's comma-separated text
    /// where given, and the built-in list otherwise, never a mix of both.
    pub fn resolve(skip_keywords: Option<&str>, ignored_app_ids: Option<&str>) -> (lists:
        SkipLists)
        ensures
            lists.ignored_keywords.deep_view() == configured_list(
                skip_keywords.deep_view(),
                default_keywords(),
            ),
            lists.ignored_ids.deep_view() == configured_list(
                ignored_app_ids.deep_view(),
                default_ids(),
            ),
    {
        let ignored_keywords = match skip_keywords {
            Some(list) => split_and_trim(list, ','),
            None => default_skip_keywords(),
        };
        let ignored_ids = match ignored_app_ids {
            Some(list) => split_and_trim(list, ','),
            None => default_ignored_app_ids(),
        };
        SkipLists { ignored_ids, ignored_keywords }
    }

    /// Whether these lists suppress an entry.
    pub fn should_skip(&self, name: &str, appid: &str) -> (skip: bool)
        ensures
            skip == skip_wanted(
                name@,
                appid@,
                self.ignored_ids.deep_view(),
                self.ignored_keywords.deep_view(),
            ),
    {
        let ids = as_slices(&self.ignored_ids);
        let keywords = as_slices(&self.ignored_keywords);
        should_skip(name, appid, &ids, &keywords)
    }
}

/// Keyword matching looks at lower-case forms only: titles with the same
/// lower-case form, and keyword lists whose entries agree in lower case,
/// are decided alike.
pub proof fn lemma_keywords_ignore_case(
    name_a: Seq<char>,
    name_b: Seq<char>,
    appid: Seq<char>,
    ignored_ids: Seq<Seq<char>>,
    keywords_a: Seq<Seq<char>>,
    keywords_b: Seq<Seq<char>>,
)
    requires
        lowercased(name_a) == lowercased(name_b),
        keywords_a.len() == keywords_b.len(),
        forall|i: int|
            0 <= i < keywords_a.len() ==> lowercased(#[trigger] keywords_a[i]) == lowercased(
                keywords_b[i],
            ),
    ensures
        skip_wanted(name_a, appid, ignored_ids, keywords_a) == skip_wanted(
            name_b,
            appid,
            ignored_ids,
            keywords_b,
        ),
{
    if keyword_ignored(name_a, keywords_a) {
        let i = choose|i: int|
            0 <= i < keywords_a.len() && keyword_hits(name_a, #[trigger] keywords_a[i]);
        assert(keyword_hits(name_b, keywords_b[i]));
    }
    if keyword_ignored(name_b, keywords_b) {
        let i = choose|i: int|
            0 <= i < keywords_b.len() && keyword_hits(name_b, #[trigger] keywords_b[i]);
        assert(lowercased(keywords_a[i]) == lowercased(keywords_b[i]));
        assert(keyword_hits(name_a, keywords_a[i]));
    }
}

/// Identifier matching is exact: when no keyword hits, an entry is
/// suppressed if and only if its identifier equals an ignored one, so an
/// identifier that merely resembles an ignored one is accepted.
pub proof fn lemma_ids_match_exactly(
    name: Seq<char>,
    appid: Seq<char>,
    ignored_ids: Seq<Seq<char>>,
    ignored_keywords: Seq<Seq<char>>,
)
    requires
        !keyword_ignored(name, ignored_keywords),
    ensures
        skip_wanted(name, appid, ignored_ids, ignored_keywords) <==> exists|i: int|
            0 <= i < ignored_ids.len() && #[trigger] ignored_ids[i] == appid,
{
}

} // verus!
