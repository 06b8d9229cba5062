use mod_manager::http::{
    check_status, release_asset, DownloadProgress, Error, Json, JsonFind, JsonKind, CHUNK_SIZE,
};
use mod_manager::installer::{AfterRename, InstallerSettings, EXE_NAME, INSTALL, TEMP_EXE_NAME, UPDATE};

fn leaf(text: &str, kind: JsonKind) -> Json {
    Json { text: text.to_string(), kind }
}

fn string(s: &str) -> Json {
    leaf(&format!("\"{}\"", s), JsonKind::Str(s.to_string()))
}

fn number(n: u64) -> Json {
    leaf(&n.to_string(), JsonKind::Number(Some(n)))
}

fn object(entries: Vec<(&str, Json)>) -> Json {
    let text = format!(
        "{{{}}}",
        entries.iter().map(|(k, v)| format!("\"{}\":{}", k, v.text)).collect::<Vec<_>>().join(",")
    );
    leaf(&text, JsonKind::Object(entries.into_iter().map(|(k, v)| (k.to_string(), v)).collect()))
}

fn array(items: Vec<Json>) -> Json {
    let text = format!("[{}]", items.iter().map(|v| v.text.clone()).collect::<Vec<_>>().join(","));
    leaf(&text, JsonKind::Array(items))
}

fn release() -> Json {
    object(vec![(
        "assets",
        array(vec![
            object(vec![("url", string("first")), ("size", number(1))]),
            object(vec![("url", string("https://x/asset")), ("size", number(4096))]),
        ]),
    )])
}

#[test]
fn status_codes() {
    assert!(check_status(200).is_ok());
    assert!(check_status(302).is_ok());
    assert!(matches!(check_status(404), Err(Error::Status(404))));
    assert!(matches!(check_status(301), Err(Error::Status(301))));
}

#[test]
fn release_asset_is_second_asset() {
    let (url, size) = release_asset(&release()).unwrap();
    assert_eq!(url, "https://x/asset");
    assert_eq!(size, 4096);
}

#[test]
fn release_asset_errors() {
    let no_assets = object(vec![("name", string("v1"))]);
    match release_asset(&no_assets) {
        Err(Error::JsonKey(text, key)) => {
            assert_eq!(text, "{\"name\":\"v1\"}");
            assert_eq!(key, "assets");
        }
        other => panic!("unexpected {:?}", other),
    }
    let one_asset = object(vec![("assets", array(vec![number(1)]))]);
    assert!(matches!(release_asset(&one_asset), Err(Error::JsonIndex(t, 1)) if t == "[1]"));
    let bad_url = object(vec![("assets", array(vec![number(1), object(vec![("url", number(3))])]))]);
    assert!(matches!(release_asset(&bad_url), Err(Error::JsonType(t, n)) if t == "3" && n == "String"));
    let bad_size = object(vec![(
        "assets",
        array(vec![number(1), object(vec![("url", string("u")), ("size", string("big"))])]),
    )]);
    assert!(matches!(release_asset(&bad_size), Err(Error::JsonType(t, n)) if t == "\"big\"" && n == "u64"));
}

#[test]
fn json_lookups() {
    let j = object(vec![("a", number(1)), ("a", number(2))]);
    assert_eq!(j.key("a").unwrap().get_u64().unwrap(), 1);
    assert!(matches!(number(1).key("a"), Err(Error::JsonKey(_, _))));
    assert!(matches!(number(1).index(0), Err(Error::JsonIndex(_, 0))));
    assert_eq!(string("s").get_string().unwrap(), "s");
    assert!(matches!(leaf("-1", JsonKind::Number(None)).get_u64(), Err(Error::JsonType(_, _))));
    assert!(matches!(leaf("null", JsonKind::Null).get_string(), Err(Error::JsonType(_, _))));
    assert!(matches!(leaf("true", JsonKind::Bool(true)).get_u64(), Err(Error::JsonType(_, _))));
}

#[test]
fn download_progress_counts_bytes() {
    let mut p = DownloadProgress::new(100);
    assert!(p.record_chunk(CHUNK_SIZE));
    assert!(p.record_chunk(10));
    assert_eq!(p.downloaded, CHUNK_SIZE as u64 + 10);
    assert!(!p.record_chunk(0));
    assert_eq!(p.downloaded, CHUNK_SIZE as u64 + 10);
    assert_eq!(p.asset_size, 100);
}

#[test]
fn settings_from_data_dir() {
    let s = InstallerSettings::new(Some("C:\\Users\\me\\AppData".to_string()), Some("desk".to_string()));
    assert_eq!(s.initial_install_path, "C:\\Users\\me\\AppData\\UndertaleModManager");
    assert_eq!(s.install_path, s.initial_install_path);
    assert!(!s.change_install_path);
    assert!(s.create_shortcut);
    assert!(!s.already_installed);
    assert!(s.install_error.is_empty());
    let none = InstallerSettings::new(None, None);
    assert_eq!(none.initial_install_path, "");
    assert!(none.change_install_path);
    let empty = InstallerSettings::new(Some(String::new()), None);
    assert_eq!(empty.initial_install_path, "");
}

#[test]
fn observe_install_dir_cases() {
    let mut s = InstallerSettings::new(None, None);
    let c = s.observe_install_dir(false, None);
    assert!(c.block_install && !c.remove_partial);
    let c = s.observe_install_dir(true, Some(vec![EXE_NAME.to_string(), TEMP_EXE_NAME.to_string()]));
    assert!(!c.block_install && c.remove_partial);
    assert!(s.already_installed);
    assert_eq!(s.install_button_text(), UPDATE);
    let c = s.observe_install_dir(true, Some(vec!["other".to_string()]));
    assert!(!c.remove_partial);
    assert!(s.already_installed);
    s.observe_install_dir(true, None);
    assert!(!s.already_installed);
    assert_eq!(s.install_button_text(), INSTALL);
}

#[test]
fn install_steps() {
    let mut s = InstallerSettings::new(None, Some("desk".to_string()));
    s.install_path = "target".to_string();
    assert!(s.download_finished(Err("network down".to_string())).is_none());
    assert_eq!(s.install_error, "Failed to install the mod manager: network down");
    let mut s = InstallerSettings::new(None, Some("desk".to_string()));
    s.install_path = "target".to_string();
    let (from, to) = s.download_finished(Ok(())).unwrap();
    assert_eq!(from, "target/undertale_mod_manager.exe.downloading");
    assert_eq!(to, "target/undertale_mod_manager.exe");
    assert!(s.install_error.is_empty());
    match s.rename_finished(Ok(())) {
        AfterRename::CreateShortcut(p) => assert_eq!(p, "desk/Undertale Mod Manager.lnk"),
        other => panic!("unexpected {:?}", other),
    }
    assert!(matches!(s.rename_finished(Err("busy".to_string())), AfterRename::Failed));
    assert_eq!(s.install_error, "Failed to install the mod manager: busy");
    let mut no_desk = InstallerSettings::new(None, None);
    assert!(matches!(no_desk.rename_finished(Ok(())), AfterRename::Done));
}

#[test]
fn install_steps_in_absolute_directory() {
    let mut s = InstallerSettings::new(None, Some("/home/u/Desktop".to_string()));
    s.install_path = "/home/u/inst".to_string();
    let (from, to) = s.download_finished(Ok(())).unwrap();
    assert_eq!(from, "/home/u/inst/undertale_mod_manager.exe.downloading");
    assert_eq!(to, "/home/u/inst/undertale_mod_manager.exe");
    match s.rename_finished(Ok(())) {
        AfterRename::CreateShortcut(p) => assert_eq!(p, "/home/u/Desktop/Undertale Mod Manager.lnk"),
        other => panic!("unexpected {:?}", other),
    }
}
