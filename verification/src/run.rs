//! One pass over the libraries: what to do with each manifest, what to
//! write for each accepted game, and the counts reported at the end.
//!
//! The caller reads directories and files and writes the shortcuts; every
//! decision in between is taken here.

use vstd::prelude::*;
use crate::classify::{skip_wanted, SkipLists};
use crate::icon::{icon_among, listing_view, resolve_icon, IconCandidate, IconCandidateView};
use crate::manifest::{
    has_id_field, parse_app_manifest, parse_library_folders, parsed_library_folders,
    parsed_manifest, GameInfo, GameInfoView,
};
use crate::reconcile::{
    after_cleanup, after_write, lemma_cleanup_forgets_written_shortcut,
    lemma_cleanup_is_idempotent,
};
use crate::shortcut::{
    lemma_generated_name_is_shortcut_name, make_shortcut, shortcut_of, Shortcut, ShortcutView,
};
use crate::text::{chars_of, ends_with, has_prefix, has_suffix, starts_with};

verus! {

/// Every manifest file name starts with this.
pub const MANIFEST_PREFIX: &'static str = "appmanifest_";

/// Every manifest file name ends with this.
pub const MANIFEST_SUFFIX: &'static str = ".acf";

/// The installation root, below the home directory, where none is given.
pub const DEFAULT_ROOT: &'static str = ".local/share/Steam";

/// The output directory, below the home directory, where none is given.
pub const DEFAULT_OUTPUT_DIR: &'static str = ".local/share/applications";

/// The list of library folders, below the installation root.
pub const LIBRARY_LIST: &'static str = "steamapps/libraryfolders.vdf";

/// The icon cache, below the installation root.
pub const ICON_CACHE: &'static str = "appcache/librarycache";

/// The directory of manifests, below each library root.
pub const APPS_DIR: &'static str = "steamapps";

/// Why a run cannot go on.
#[derive(Debug, Clone, Copy, PartialEq, Eq)]
pub enum RunError {
    /// The list of library folders does not exist.
    ConfigNotFound,
    /// A search pattern was refused by the pattern engine.
    PatternRejected,
}

/// What to do with one manifest.
#[derive(Debug, Clone, PartialEq, Eq)]
pub enum Step {
    /// The text is no manifest of an application: pass over it.
    Ignore,
    /// A tool or runtime: it has been counted as skipped.
    Skipped(GameInfo),
    /// A game: list its icon cache and hand the listing back.
    FindIcon(GameInfo),
}

/// The mathematical value of a [`Step`].
pub ghost enum StepView {
    Ignore,
    Skipped(GameInfoView),
    FindIcon(GameInfoView),
}

impl View for Step {
    type V = StepView;

    open spec fn view(&self) -> StepView {
        match self {
            Step::Ignore => StepView::Ignore,
            Step::Skipped(game) => StepView::Skipped(game@),
            Step::FindIcon(game) => StepView::FindIcon(game@),
        }
    }
}

/// What to do with the shortcut of an accepted game.
#[derive(Debug, Clone, PartialEq, Eq)]
pub enum Emit {
    /// Dry run: the shortcut is reported and nothing is written.
    Announce(Shortcut),
    /// The shortcut is written, replacing a file of the same name.
    Write(Shortcut),
}

/// The mathematical value of an [`Emit`].
pub ghost enum EmitView {
    Announce(ShortcutView),
    Write(ShortcutView),
}

impl View for Emit {
    type V = EmitView;

    open spec fn view(&self) -> EmitView {
        match self {
            Emit::Announce(shortcut) => EmitView::Announce(shortcut@),
            Emit::Write(shortcut) => EmitView::Write(shortcut@),
        }
    }
}

/// The counts reported at the end of a run.
#[derive(Debug, Clone, Copy, PartialEq, Eq)]
pub struct Tally {
    pub created: u64,
    pub skipped: u64,
}

/// The state of a run: its mode and its counters.
#[derive(Debug, Clone, Copy, PartialEq, Eq)]
pub struct Run {
    pub dry_run: bool,
    pub created: u64,
    pub skipped: u64,
}

/// A file name that follows the manifest naming convention.
pub open spec fn is_manifest_name(file_name: Seq<char>) -> bool {
    has_prefix(file_name, MANIFEST_PREFIX@) && has_suffix(file_name, MANIFEST_SUFFIX@)
}

/// The step that a manifest text calls for.
pub open spec fn entry_step(
    content: Seq<char>,
    ignored_ids: Seq<Seq<char>>,
    ignored_keywords: Seq<Seq<char>>,
) -> StepView {
    match parsed_manifest(content) {
        Err(_) => StepView::Ignore,
        Ok(game) => if skip_wanted(game.name, game.appid, ignored_ids, ignored_keywords) {
            StepView::Skipped(game)
        } else {
            StepView::FindIcon(game)
        },
    }
}

/// What becomes of the shortcut of an accepted game.
pub open spec fn emission(dry_run: bool, game: GameInfoView, files: Seq<IconCandidateView>) -> EmitView {
    let shortcut = shortcut_of(game, icon_among(files));
    if dry_run {
        EmitView::Announce(shortcut)
    } else {
        EmitView::Write(shortcut)
    }
}

/// The library roots that the list of library folders stands for.
pub open spec fn located_libraries(config: Option<Seq<char>>) -> Result<Seq<Seq<char>>, RunError> {
    match config {
        None => Err(RunError::ConfigNotFound),
        Some(text) => match parsed_library_folders(text) {
            Ok(roots) => Ok(roots),
            Err(_) => Err(RunError::PatternRejected),
        },
    }
}

/// The model of a located-libraries result.
pub open spec fn libraries_view(r: Result<Vec<String>, RunError>) -> Result<
    Seq<Seq<char>>,
    RunError,
> {
    match r {
        Ok(roots) => Ok(roots.deep_view()),
        Err(e) => Err(e),
    }
}

/// Whether a file in a library's directory is a manifest.
pub fn is_manifest_file(file_name: &str) -> (hit: bool)
    ensures
        hit == is_manifest_name(file_name@),
{
    let name = chars_of(file_name);
    let prefix = chars_of(MANIFEST_PREFIX);
    let suffix = chars_of(MANIFEST_SUFFIX);
    starts_with(&name, &prefix) && ends_with(&name, &suffix)
}

/// The library roots named by the list of library folders; `None` stands
/// for a list that does not exist, which ends the run.
pub fn locate_libraries(config: Option<&str>) -> (r: Result<Vec<String>, RunError>)
    ensures
        libraries_view(r) == located_libraries(config.deep_view()),
{
    match config {
        None => Err(RunError::ConfigNotFound),
        Some(text) => match parse_library_folders(text) {
            Ok(roots) => Ok(roots),
            Err(_) => Err(RunError::PatternRejected),
        },
    }
}

impl Run {
    /// A run that has seen nothing yet.
    pub fn begin(dry_run: bool) -> (run: Run)
        ensures
            run.dry_run == dry_run,
            run.created == 0,
            run.skipped == 0,
    {
        Run { dry_run, created: 0, skipped: 0 }
    }

    /// Whether old shortcuts are removed before the scan: always, but in a
    /// dry run.
    pub fn wants_cleanup(&self) -> (wanted: bool)
        ensures
            wanted == !self.dry_run,
    {
        !self.dry_run
    }

    /// Takes the text of one manifest and says what to do with it. A text
    /// that cannot be parsed is passed over and the run goes on; a tool is
    /// counted as skipped.
    pub fn on_manifest(&mut self, content: &str, lists: &SkipLists) -> (step: Step)
        requires
            old(self).skipped < u64::MAX,
        ensures
            step@ == entry_step(
                content@,
                lists.ignored_ids.deep_view(),
                lists.ignored_keywords.deep_view(),
            ),
            final(self).dry_run == old(self).dry_run,
            final(self).created == old(self).created,
            final(self).skipped == old(self).skipped + (if step is Skipped {
                1int
            } else {
                0int
            }),
    {
        match parse_app_manifest(content) {
            Err(_) => Step::Ignore,
            Ok(game) => {
                if lists.should_skip(game.name.as_str(), game.appid.as_str()) {
                    self.skipped = self.skipped + 1;
                    Step::Skipped(game)
                } else {
                    Step::FindIcon(game)
                }
            },
        }
    }

    /// Takes the listing of the icon cache of an accepted game, counts the
    /// game, and hands out its shortcut: to be written, or in a dry run only
    /// reported.
    pub fn on_icon_listing(&mut self, game: &GameInfo, files: &Vec<IconCandidate>) -> (emit: Emit)
        requires
            old(self).created < u64::MAX,
        ensures
            emit@ == emission(old(self).dry_run, game@, listing_view(files@)),
            final(self).dry_run == old(self).dry_run,
            final(self).created == old(self).created + 1,
            final(self).skipped == old(self).skipped,
    {
        let icon = resolve_icon(files);
        let shortcut = make_shortcut(game, icon.as_str());
        self.created = self.created + 1;
        if self.dry_run {
            Emit::Announce(shortcut)
        } else {
            Emit::Write(shortcut)
        }
    }

    /// The counts so far.
    pub fn tally(&self) -> (tally: Tally)
        ensures
            tally.created == self.created,
            tally.skipped == self.skipped,
    {
        Tally { created: self.created, skipped: self.skipped }
    }
}

/// What a run is given for one manifest: its text, and the listing of the
/// icon cache of the application it describes.
pub ghost struct Entry {
    pub content: Seq<char>,
    pub icon_files: Seq<IconCandidateView>,
}

/// Where a run stands: the output directory and the two counts.
pub ghost struct Progress {
    pub dir: Map<Seq<char>, Seq<char>>,
    pub created: nat,
    pub skipped: nat,
}

/// The effect of one manifest on a run.
pub open spec fn after_entry(
    dry_run: bool,
    ignored_ids: Seq<Seq<char>>,
    ignored_keywords: Seq<Seq<char>>,
    before: Progress,
    entry: Entry,
) -> Progress {
    match entry_step(entry.content, ignored_ids, ignored_keywords) {
        StepView::Ignore => before,
        StepView::Skipped(_) => Progress { skipped: before.skipped + 1, ..before },
        StepView::FindIcon(game) => Progress {
            dir: match emission(dry_run, game, entry.icon_files) {
                EmitView::Announce(_) => before.dir,
                EmitView::Write(shortcut) => after_write(before.dir, shortcut),
            },
            created: before.created + 1,
            skipped: before.skipped,
        },
    }
}

/// The effect of a sequence of manifests, taken in order.
pub open spec fn after_entries(
    dry_run: bool,
    ignored_ids: Seq<Seq<char>>,
    ignored_keywords: Seq<Seq<char>>,
    start: Progress,
    entries: Seq<Entry>,
) -> Progress
    decreases entries.len(),
{
    if entries.len() == 0 {
        start
    } else {
        after_entry(
            dry_run,
            ignored_ids,
            ignored_keywords,
            after_entries(dry_run, ignored_ids, ignored_keywords, start, entries.drop_last()),
            entries.last(),
        )
    }
}

/// A whole run: cleanup unless it is a dry run, then every manifest in
/// order, starting from counts of zero.
pub open spec fn run_outcome(
    dry_run: bool,
    ignored_ids: Seq<Seq<char>>,
    ignored_keywords: Seq<Seq<char>>,
    dir: Map<Seq<char>, Seq<char>>,
    entries: Seq<Entry>,
) -> Progress {
    after_entries(
        dry_run,
        ignored_ids,
        ignored_keywords,
        Progress {
            dir: if dry_run {
                dir
            } else {
                after_cleanup(dir)
            },
            created: 0,
            skipped: 0,
        },
        entries,
    )
}

/// A manifest without an identifier field fails to parse, and the run
/// passes over it: nothing is counted, nothing is written, and the
/// manifests after it are processed as if it had not been there.
pub proof fn lemma_manifest_without_id_is_passed_over(
    dry_run: bool,
    ignored_ids: Seq<Seq<char>>,
    ignored_keywords: Seq<Seq<char>>,
    before: Progress,
    entry: Entry,
)
    requires
        !has_id_field(entry.content),
    ensures
        parsed_manifest(entry.content) is Err,
        entry_step(entry.content, ignored_ids, ignored_keywords) == StepView::Ignore,
        after_entry(dry_run, ignored_ids, ignored_keywords, before, entry) == before,
{
}

/// The counts of a run depend neither on the mode nor on the directory it
/// starts from, and a dry run leaves the directory as it was.
pub proof fn lemma_mode_changes_no_count(
    dry_run: bool,
    ignored_ids: Seq<Seq<char>>,
    ignored_keywords: Seq<Seq<char>>,
    start: Progress,
    other: Progress,
    entries: Seq<Entry>,
)
    requires
        start.created == other.created,
        start.skipped == other.skipped,
    ensures
        after_entries(dry_run, ignored_ids, ignored_keywords, start, entries).created
            == after_entries(!dry_run, ignored_ids, ignored_keywords, other, entries).created,
        after_entries(dry_run, ignored_ids, ignored_keywords, start, entries).skipped
            == after_entries(!dry_run, ignored_ids, ignored_keywords, other, entries).skipped,
        dry_run ==> after_entries(dry_run, ignored_ids, ignored_keywords, start, entries).dir
            == start.dir,
    decreases entries.len(),
{
    if entries.len() > 0 {
        lemma_mode_changes_no_count(
            dry_run,
            ignored_ids,
            ignored_keywords,
            start,
            other,
            entries.drop_last(),
        );
    }
}

/// A dry run changes no file, and counts what a real run on the same
/// inputs counts.
pub proof fn lemma_dry_run_only_counts(
    ignored_ids: Seq<Seq<char>>,
    ignored_keywords: Seq<Seq<char>>,
    dir: Map<Seq<char>, Seq<char>>,
    entries: Seq<Entry>,
)
    ensures
        run_outcome(true, ignored_ids, ignored_keywords, dir, entries).dir == dir,
        run_outcome(true, ignored_ids, ignored_keywords, dir, entries).created == run_outcome(
            false,
            ignored_ids,
            ignored_keywords,
            dir,
            entries,
        ).created,
        run_outcome(true, ignored_ids, ignored_keywords, dir, entries).skipped == run_outcome(
            false,
            ignored_ids,
            ignored_keywords,
            dir,
            entries,
        ).skipped,
{
    lemma_mode_changes_no_count(
        true,
        ignored_ids,
        ignored_keywords,
        Progress { dir, created: 0, skipped: 0 },
        Progress { dir: after_cleanup(dir), created: 0, skipped: 0 },
        entries,
    );
}

/// Whatever a real run writes, the next cleanup removes: the directory
/// after the manifests, once cleaned, is the cleaned directory it began
/// with.
pub proof fn lemma_cleanup_undoes_writes(
    ignored_ids: Seq<Seq<char>>,
    ignored_keywords: Seq<Seq<char>>,
    start: Progress,
    entries: Seq<Entry>,
)
    ensures
        after_cleanup(after_entries(false, ignored_ids, ignored_keywords, start, entries).dir)
            == after_cleanup(start.dir),
    decreases entries.len(),
{
    if entries.len() > 0 {
        let front = entries.drop_last();
        lemma_cleanup_undoes_writes(ignored_ids, ignored_keywords, start, front);
        let before = after_entries(false, ignored_ids, ignored_keywords, start, front);
        let entry = entries.last();
        match entry_step(entry.content, ignored_ids, ignored_keywords) {
            StepView::FindIcon(game) => {
                let shortcut = shortcut_of(game, icon_among(entry.icon_files));
                lemma_generated_name_is_shortcut_name(game.appid);
                lemma_cleanup_forgets_written_shortcut(before.dir, shortcut);
            },
            _ => {},
        }
    }
}

/// Running twice on unchanged inputs is running once: the second real run
/// leaves the directory, file for file, as the first one left it, and
/// reports the same counts.
pub proof fn lemma_second_run_changes_nothing(
    ignored_ids: Seq<Seq<char>>,
    ignored_keywords: Seq<Seq<char>>,
    dir: Map<Seq<char>, Seq<char>>,
    entries: Seq<Entry>,
)
    ensures
        run_outcome(
            false,
            ignored_ids,
            ignored_keywords,
            run_outcome(false, ignored_ids, ignored_keywords, dir, entries).dir,
            entries,
        ) == run_outcome(false, ignored_ids, ignored_keywords, dir, entries),
{
    let start = Progress { dir: after_cleanup(dir), created: 0, skipped: 0 };
    lemma_cleanup_undoes_writes(ignored_ids, ignored_keywords, start, entries);
    lemma_cleanup_is_idempotent(dir);
}

} // verus!
