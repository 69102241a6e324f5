//! The launcher shortcut written for each accepted game: its file name,
//! its text, and the test by which old shortcuts are recognised.

use vstd::prelude::*;
use vstd::string::StringExecFns;
use crate::manifest::{GameInfo, GameInfoView};
use crate::text::{chars_of, ends_with, has_prefix, has_suffix, starts_with};

verus! {

/// Every shortcut file name starts with this.
pub const SHORTCUT_PREFIX: &'static str = "steam-";

/// Every shortcut file name ends with this.
pub const SHORTCUT_SUFFIX: &'static str = ".desktop";

/// The opening of a shortcut, up to the title.
pub const ENTRY_HEAD: &'static str = "[Desktop Entry]\nName=";

/// The launch line, up to the identifier.
pub const ENTRY_EXEC: &'static str = "\nExec=steam steam://rungameid/";

/// The icon line, up to the icon.
pub const ENTRY_ICON: &'static str = "\nIcon=";

/// The closing lines: no terminal, an application, in the game category.
pub const ENTRY_TAIL: &'static str = "\nTerminal=false\nType=Application\nCategories=Game;\n";

/// A file to be written into the output directory.
#[derive(Debug, Clone, PartialEq, Eq)]
pub struct Shortcut {
    pub file_name: String,
    pub content: String,
}

/// The mathematical value of a [`Shortcut`].
pub ghost struct ShortcutView {
    pub file_name: Seq<char>,
    pub content: Seq<char>,
}

impl View for Shortcut {
    type V = ShortcutView;

    open spec fn view(&self) -> ShortcutView {
        ShortcutView { file_name: self.file_name@, content: self.content@ }
    }
}

/// The file name of the shortcut for an identifier.
pub open spec fn shortcut_name(appid: Seq<char>) -> Seq<char> {
    SHORTCUT_PREFIX@ + appid + SHORTCUT_SUFFIX@
}

/// The text of a shortcut: title, launch address, icon, and the fixed
/// lines that mark it as a graphical application in the game category.
pub open spec fn shortcut_text(name: Seq<char>, appid: Seq<char>, icon: Seq<char>) -> Seq<char> {
    ENTRY_HEAD@ + name + ENTRY_EXEC@ + appid + ENTRY_ICON@ + icon + ENTRY_TAIL@
}

/// The shortcut that stands for a game with a resolved icon.
pub open spec fn shortcut_of(game: GameInfoView, icon: Seq<char>) -> ShortcutView {
    ShortcutView {
        file_name: shortcut_name(game.appid),
        content: shortcut_text(game.name, game.appid, icon),
    }
}

/// A file name that follows the shortcut naming convention.
pub open spec fn is_shortcut_name(file_name: Seq<char>) -> bool {
    has_prefix(file_name, SHORTCUT_PREFIX@) && has_suffix(file_name, SHORTCUT_SUFFIX@)
}

/// The file name under which the shortcut for `appid` is written.
pub fn desktop_file_name(appid: &str) -> (file_name: String)
    ensures
        file_name@ == shortcut_name(appid@),
{
    let mut file_name = String::from_str(SHORTCUT_PREFIX);
    file_name.append(appid);
    file_name.append(SHORTCUT_SUFFIX);
    file_name
}

/// The text written into the shortcut of `game`.
pub fn desktop_file_content(game: &GameInfo, icon_path: &str) -> (content: String)
    ensures
        content@ == shortcut_text(game.name@, game.appid@, icon_path@),
{
    let mut content = String::from_str(ENTRY_HEAD);
    content.append(game.name.as_str());
    content.append(ENTRY_EXEC);
    content.append(game.appid.as_str());
    content.append(ENTRY_ICON);
    content.append(icon_path);
    content.append(ENTRY_TAIL);
    content
}

/// The shortcut for `game`: file name and text.
pub fn make_shortcut(game: &GameInfo, icon_path: &str) -> (shortcut: Shortcut)
    ensures
        shortcut@ == shortcut_of(game@, icon_path@),
{
    Shortcut {
        file_name: desktop_file_name(game.appid.as_str()),
        content: desktop_file_content(game, icon_path),
    }
}

/// Whether a file in the output directory is one of this tool's shortcuts.
pub fn is_shortcut_file(file_name: &str) -> (hit: bool)
    ensures
        hit == is_shortcut_name(file_name@),
{
    let name = chars_of(file_name);
    let prefix = chars_of(SHORTCUT_PREFIX);
    let suffix = chars_of(SHORTCUT_SUFFIX);
    starts_with(&name, &prefix) && ends_with(&name, &suffix)
}

/// Every generated file name follows the naming convention, so the next
/// cleanup finds it.
pub proof fn lemma_generated_name_is_shortcut_name(appid: Seq<char>)
    ensures
        is_shortcut_name(shortcut_name(appid)),
{
    let full = shortcut_name(appid);
    assert(full.subrange(0, SHORTCUT_PREFIX@.len() as int) == SHORTCUT_PREFIX@);
    assert(full.subrange(full.len() - SHORTCUT_SUFFIX@.len(), full.len() as int)
        == SHORTCUT_SUFFIX@);
}

} // verus!
