use std::collections::BTreeMap;
use steam_shortcuts::classify::SkipLists;
use steam_shortcuts::icon::IconCandidate;
use steam_shortcuts::reconcile::stale_shortcuts;
use steam_shortcuts::run::{is_manifest_file, locate_libraries, Emit, Run, RunError, Step, Tally};

const HASH_NAME: &str = "abcdefabcdefabcdefabcdefabcdefabcdefabcd.jpg";

fn manifest(appid: &str, name: &str) -> String {
    format!("\"AppState\"\n{{\n\t\"appid\"\t\t\"{}\"\n\t\"name\"\t\t\"{}\"\n}}\n", appid, name)
}

fn icons_of(appid: &str) -> Vec<IconCandidate> {
    if appid == "100" {
        vec![
            IconCandidate { file_name: "notes.txt".to_string(), path: "/cache/100/notes.txt".to_string() },
            IconCandidate { file_name: HASH_NAME.to_string(), path: format!("/cache/100/{}", HASH_NAME) },
        ]
    } else {
        Vec::new()
    }
}

fn reconcile(dry_run: bool, dir: &mut BTreeMap<String, String>, manifests: &[(String, String)]) -> Tally {
    let lists = SkipLists::resolve(None, None);
    let mut run = Run::begin(dry_run);
    if run.wants_cleanup() {
        let listing: Vec<String> = dir.keys().cloned().collect();
        for name in stale_shortcuts(&listing) {
            dir.remove(&name);
        }
    }
    for (file_name, content) in manifests {
        if !is_manifest_file(file_name) {
            continue;
        }
        match run.on_manifest(content, &lists) {
            Step::Ignore => {}
            Step::Skipped(_) => {}
            Step::FindIcon(game) => match run.on_icon_listing(&game, &icons_of(&game.appid)) {
                Emit::Announce(_) => {}
                Emit::Write(shortcut) => {
                    dir.insert(shortcut.file_name, shortcut.content);
                }
            },
        }
    }
    run.tally()
}

fn library() -> Vec<(String, String)> {
    vec![
        ("appmanifest_100.acf".to_string(), manifest("100", "Cool Game")),
        ("appmanifest_480.acf".to_string(), manifest("480", "Spacewar")),
    ]
}

fn old_directory() -> BTreeMap<String, String> {
    let mut dir = BTreeMap::new();
    dir.insert("steam-123.desktop".to_string(), "old".to_string());
    dir.insert("other.desktop".to_string(), "keep".to_string());
    dir
}

#[test]
fn manifest_naming_convention() {
    assert!(is_manifest_file("appmanifest_100.acf"));
    assert!(is_manifest_file("appmanifest_.acf"));
    assert!(!is_manifest_file("appmanifest_100.acf.tmp"));
    assert!(!is_manifest_file("libraryfolders.vdf"));
    assert!(!is_manifest_file("manifest_100.acf"));
    assert!(!is_manifest_file(""));
}

#[test]
fn missing_config_ends_the_run() {
    assert_eq!(locate_libraries(None), Err(RunError::ConfigNotFound));
}

#[test]
fn config_names_the_libraries() {
    assert_eq!(
        locate_libraries(Some("\"path\"\t\"/a\"\n\"path\"\t\"/b\"\n")),
        Ok(vec!["/a".to_string(), "/b".to_string()])
    );
    assert_eq!(locate_libraries(Some("")), Ok(Vec::<String>::new()));
}

#[test]
fn one_game_and_one_tool() {
    let mut dir = BTreeMap::new();
    let tally = reconcile(false, &mut dir, &library());
    assert_eq!(tally, Tally { created: 1, skipped: 1 });
    assert_eq!(dir.len(), 1);
    assert_eq!(
        dir.get("steam-100.desktop").unwrap(),
        &format!(
            "[Desktop Entry]\nName=Cool Game\nExec=steam steam://rungameid/100\nIcon=/cache/100/{}\nTerminal=false\nType=Application\nCategories=Game;\n",
            HASH_NAME
        )
    );
}

#[test]
fn manifest_without_id_does_not_stop_the_run() {
    let mut manifests = vec![("appmanifest_1.acf".to_string(), "\"name\" \"No Id\"".to_string())];
    manifests.extend(library());
    let mut dir = BTreeMap::new();
    let tally = reconcile(false, &mut dir, &manifests);
    assert_eq!(tally, Tally { created: 1, skipped: 1 });
    assert_eq!(dir.keys().cloned().collect::<Vec<String>>(), vec!["steam-100.desktop"]);
}

#[test]
fn unparsable_manifest_changes_no_count() {
    let lists = SkipLists::defaults();
    let mut run = Run::begin(false);
    assert_eq!(run.on_manifest("\"name\" \"No Id\"", &lists), Step::Ignore);
    assert_eq!(run, Run { dry_run: false, created: 0, skipped: 0 });
}

#[test]
fn steps_and_counts() {
    let lists = SkipLists::defaults();
    let mut run = Run::begin(true);
    let step = run.on_manifest(&manifest("480", "Spacewar"), &lists);
    match step {
        Step::Skipped(game) => assert_eq!(game.appid, "480"),
        _ => panic!("expected a skipped tool"),
    }
    assert_eq!(run.tally(), Tally { created: 0, skipped: 1 });
    let step = run.on_manifest(&manifest("7", "Proton 8.0"), &lists);
    assert!(matches!(step, Step::Skipped(_)));
    assert_eq!(run.tally(), Tally { created: 0, skipped: 2 });
    let step = run.on_manifest("\"appid\" \"9\"", &lists);
    let game = match step {
        Step::FindIcon(game) => game,
        _ => panic!("expected a game"),
    };
    assert_eq!(game.name, "Unknown Game");
    assert_eq!(run.tally(), Tally { created: 0, skipped: 2 });
    match run.on_icon_listing(&game, &Vec::new()) {
        Emit::Announce(shortcut) => {
            assert_eq!(shortcut.file_name, "steam-9.desktop");
            assert!(shortcut.content.contains("\nIcon=steam\n"));
        }
        Emit::Write(_) => panic!("a dry run writes nothing"),
    }
    assert_eq!(run.tally(), Tally { created: 1, skipped: 2 });
}

#[test]
fn cleanup_removes_old_shortcuts_only() {
    let mut dir = old_directory();
    reconcile(false, &mut dir, &library());
    assert!(!dir.contains_key("steam-123.desktop"));
    assert_eq!(dir.get("other.desktop").unwrap(), "keep");
    assert!(dir.contains_key("steam-100.desktop"));
    assert_eq!(dir.len(), 2);
}

#[test]
fn second_run_changes_nothing() {
    let mut dir = old_directory();
    let first = reconcile(false, &mut dir, &library());
    let after_first = dir.clone();
    let second = reconcile(false, &mut dir, &library());
    assert_eq!(dir, after_first);
    assert_eq!(first, second);
}

#[test]
fn dry_run_changes_no_file_and_counts_alike() {
    let mut dry = old_directory();
    let dry_tally = reconcile(true, &mut dry, &library());
    assert_eq!(dry, old_directory());
    let mut wet = old_directory();
    let wet_tally = reconcile(false, &mut wet, &library());
    assert_eq!(dry_tally, wet_tally);
    assert_eq!(dry_tally, Tally { created: 1, skipped: 1 });
    assert!(!Run::begin(true).wants_cleanup());
    assert!(Run::begin(false).wants_cleanup());
}

#[test]
fn same_identifier_twice_last_one_wins() {
    let manifests = vec![
        ("appmanifest_5.acf".to_string(), manifest("5", "First")),
        ("appmanifest_5_copy.acf".to_string(), manifest("5", "Second")),
    ];
    let mut dir = BTreeMap::new();
    let tally = reconcile(false, &mut dir, &manifests);
    assert_eq!(tally, Tally { created: 2, skipped: 0 });
    assert_eq!(dir.len(), 1);
    assert!(dir.get("steam-5.desktop").unwrap().contains("Name=Second\n"));
}
