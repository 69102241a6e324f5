use steam_shortcuts::manifest::{
    folders_from_captures, manifest_from_captures, parse_app_manifest, parse_library_folders,
    GameInfo, ManifestError, UNKNOWN_NAME,
};

fn manifest(appid: &str, name: &str) -> String {
    format!(
        "\"AppState\"\n{{\n\t\"appid\"\t\t\"{}\"\n\t\"Universe\"\t\t\"1\"\n\t\"name\"\t\t\"{}\"\n\t\"StateFlags\"\t\t\"4\"\n}}\n",
        appid, name
    )
}

#[test]
fn parses_id_and_name() {
    let game = parse_app_manifest(&manifest("100", "Cool Game")).unwrap();
    assert_eq!(game, GameInfo { appid: "100".to_string(), name: "Cool Game".to_string() });
}

#[test]
fn missing_id_is_an_error() {
    let text = "\"AppState\"\n{\n\t\"name\"\t\t\"Cool Game\"\n}\n";
    assert_eq!(parse_app_manifest(text), Err(ManifestError::MissingField));
    assert_eq!(parse_app_manifest(""), Err(ManifestError::MissingField));
}

#[test]
fn non_numeric_id_is_an_error() {
    let text = "\"appid\"\t\"abc\"\n\"name\"\t\"Cool Game\"\n";
    assert_eq!(parse_app_manifest(text), Err(ManifestError::MissingField));
    let empty = "\"appid\"\t\"\"\n";
    assert_eq!(parse_app_manifest(empty), Err(ManifestError::MissingField));
}

#[test]
fn missing_name_gives_placeholder() {
    let game = parse_app_manifest("\"appid\"  \"42\"\n").unwrap();
    assert_eq!(game.appid, "42");
    assert_eq!(game.name, "Unknown Game");
    assert_eq!(game.name, UNKNOWN_NAME);
}

#[test]
fn empty_name_gives_placeholder() {
    let game = parse_app_manifest("\"appid\" \"42\"\n\"name\" \"\"\n").unwrap();
    assert_eq!(game.name, "Unknown Game");
}

#[test]
fn first_match_wins() {
    let text = "\"appid\" \"1\"\n\"name\" \"First\"\n\"appid\" \"2\"\n\"name\" \"Second\"\n";
    let game = parse_app_manifest(text).unwrap();
    assert_eq!(game.appid, "1");
    assert_eq!(game.name, "First");
}

#[test]
fn nesting_and_unknown_fields_are_ignored() {
    let text = "garbage {{{ \"x\" \"y\" \"Nested\" { \"name\"\n\n \"Deep Title\" } \"appid\"\r\n\"777\" trailing";
    let game = parse_app_manifest(text).unwrap();
    assert_eq!(game.appid, "777");
    assert_eq!(game.name, "Deep Title");
}

#[test]
fn key_and_value_need_white_space_between() {
    assert_eq!(parse_app_manifest("\"appid\"\"5\""), Err(ManifestError::MissingField));
}

#[test]
fn record_from_captures() {
    let both = manifest_from_captures(Some(Some("7".to_string())), Some(Some("Seven".to_string())));
    assert_eq!(both, Ok(GameInfo { appid: "7".to_string(), name: "Seven".to_string() }));
    let no_name = manifest_from_captures(Some(Some("7".to_string())), None);
    assert_eq!(no_name, Ok(GameInfo { appid: "7".to_string(), name: "Unknown Game".to_string() }));
    let unset_name = manifest_from_captures(Some(Some("7".to_string())), Some(None));
    assert_eq!(unset_name.unwrap().name, "Unknown Game");
    assert_eq!(
        manifest_from_captures(None, Some(Some("Seven".to_string()))),
        Err(ManifestError::MissingField)
    );
    assert_eq!(manifest_from_captures(Some(None), None), Err(ManifestError::MissingField));
}

#[test]
fn library_folders_in_order() {
    let text = "\"libraryfolders\"\n{\n\t\"0\"\n\t{\n\t\t\"path\"\t\t\"/home/u/.local/share/Steam\"\n\t\t\"apps\"\n\t\t{\n\t\t\t\"228980\"\t\t\"1\"\n\t\t}\n\t}\n\t\"1\"\n\t{\n\t\t\"path\"\t\t\"/mnt/games/SteamLibrary\"\n\t}\n}\n";
    assert_eq!(
        parse_library_folders(text),
        Ok(vec!["/home/u/.local/share/Steam".to_string(), "/mnt/games/SteamLibrary".to_string()])
    );
}

#[test]
fn library_folders_may_be_none() {
    assert_eq!(parse_library_folders(""), Ok(Vec::<String>::new()));
    assert_eq!(parse_library_folders("\"path\" \"\""), Ok(Vec::<String>::new()));
    assert_eq!(parse_library_folders("\"paths\" \"/x\""), Ok(Vec::<String>::new()));
}

#[test]
fn library_folders_keep_duplicates() {
    let text = "\"path\" \"/a\" \"path\"\t\"/a\"";
    assert_eq!(parse_library_folders(text), Ok(vec!["/a".to_string(), "/a".to_string()]));
}

#[test]
fn folders_from_present_captures() {
    let found = vec![Some("/a".to_string()), None, Some("/b".to_string()), None];
    assert_eq!(folders_from_captures(found), vec!["/a".to_string(), "/b".to_string()]);
    assert_eq!(folders_from_captures(Vec::new()), Vec::<String>::new());
    assert_eq!(folders_from_captures(vec![None, None]), Vec::<String>::new());
}
