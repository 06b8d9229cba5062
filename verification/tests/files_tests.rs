use mod_manager::files::{Color, ConfigFile, Error, ExeLocation, FileManager, LinkProblem};
use mod_manager::files::{has_image_extension, is_allowed_image_type, keep_images};

fn strings(items: &[&str]) -> Vec<String> {
    items.iter().map(|s| s.to_string()).collect()
}

#[test]
fn file_manager_paths() {
    let f = FileManager::new();
    assert_eq!(f.icon_dir, "./icons/");
    assert_eq!(f.mod_dir, "./mods/");
    assert_eq!(f.vanilla_dir, "./vanilla/");
    assert_eq!(f.temp_dir, "./temp/");
    assert_eq!(f.main_config, "./config.toml");
    assert_eq!(f.instance_config, "./instance.toml");
    let d = FileManager::default();
    assert_eq!(d.mod_dir, f.mod_dir);
}

#[test]
fn instance_config_for_joins_mod_dir_path_and_file() {
    let f = FileManager::new();
    assert_eq!(f.instance_config_for("MyMod"), "./mods/MyMod/./instance.toml");
    assert_eq!(f.instance_dir("MyMod"), "./mods/MyMod");
}

#[test]
fn image_uri_prefixes_file_scheme() {
    assert_eq!(FileManager::image_uri("./icons/a.png"), "file://./icons/a.png");
}

#[test]
fn get_exe_path_executable() {
    match FileManager::get_exe_path("games/MyMod/game.exe") {
        Ok(ExeLocation::Executable(p)) => assert_eq!(p, "games/MyMod/game.exe"),
        other => panic!("unexpected {:?}", other),
    }
}

#[test]
fn get_exe_path_shortcut_and_archive() {
    assert!(matches!(FileManager::get_exe_path("desk/Game.lnk"), Ok(ExeLocation::Shortcut(p)) if p == "desk/Game.lnk"));
    assert!(matches!(FileManager::get_exe_path("dl/mod.zip"), Ok(ExeLocation::Archive(p)) if p == "dl/mod.zip"));
}

#[test]
fn get_exe_path_errors() {
    assert!(matches!(FileManager::get_exe_path("readme"), Err(Error::NoExtension)));
    assert!(matches!(FileManager::get_exe_path("dir/.exe"), Err(Error::NoExtension)));
    match FileManager::get_exe_path("notes.txt") {
        Err(Error::UnrecognizedExtension(x)) => assert_eq!(x, "txt"),
        other => panic!("unexpected {:?}", other),
    }
    match FileManager::get_exe_path("Game.EXE") {
        Err(Error::UnrecognizedExtension(x)) => assert_eq!(x, "EXE"),
        other => panic!("unexpected {:?}", other),
    }
}

#[test]
fn exe_location_from_given_extension() {
    assert!(matches!(FileManager::exe_location("x", None), Err(Error::NoExtension)));
    assert!(matches!(FileManager::exe_location("x", Some("exe".to_string())), Ok(ExeLocation::Executable(p)) if p == "x"));
}

#[test]
fn exe_from_link_target_cases() {
    assert_eq!(FileManager::exe_from_link_target(Some("C:\\Games\\a.exe".to_string())).unwrap(), "C:\\Games\\a.exe");
    assert!(matches!(
        FileManager::exe_from_link_target(None),
        Err(Error::InvalidLink(LinkProblem::MissingLocation))
    ));
}

#[test]
fn check_undertale_files_cases() {
    assert!(FileManager::check_undertale_files(&strings(&["data.win", "UNDERTALE.exe", "options.ini"])).is_ok());
    assert!(matches!(FileManager::check_undertale_files(&strings(&["UNDERTALE.exe"])), Err(Error::DataWinNotFound)));
    assert!(matches!(FileManager::check_undertale_files(&strings(&["data.win"])), Err(Error::ExeNotFound)));
    assert!(matches!(FileManager::check_undertale_files(&strings(&[])), Err(Error::DataWinNotFound)));
    assert!(matches!(FileManager::check_undertale_files(&strings(&["data.win", "undertale.exe"])), Err(Error::ExeNotFound)));
}

#[test]
fn image_types() {
    for e in ["ico", "png", "jpg", "jpeg"] {
        assert!(is_allowed_image_type(e));
    }
    assert!(!is_allowed_image_type("gif"));
    assert!(!is_allowed_image_type("PNG"));
    assert!(has_image_extension("icons/heart.png"));
    assert!(!has_image_extension("icons/heart"));
    assert!(!has_image_extension("icons/heart.txt"));
}

#[test]
fn icon_paths_keeps_images_in_order() {
    let entries = strings(&["./icons/a.png", "./icons/b.txt", "./icons/c.jpeg", "./icons/d"]);
    assert_eq!(FileManager::icon_paths(&entries), strings(&["./icons/a.png", "./icons/c.jpeg"]));
}

#[test]
fn keep_images_uses_given_extensions() {
    let paths = strings(&["a", "b", "c"]);
    let exts = vec![Some("ico".to_string()), None, Some("bmp".to_string())];
    assert_eq!(keep_images(&paths, &exts), strings(&["a"]));
}

#[test]
fn config_new_and_colors() {
    let f = FileManager::new();
    let c = ConfigFile::new(f);
    assert_eq!(c.instances, strings(&["./vanilla/"]));
    assert!(c.icon_colors.is_empty());
    let d = ConfigFile::default();
    assert!(d.instances.is_empty());
    let blue = Color { r: 0, g: 0, b: 255, a: 255 };
    let green = Color { r: 0, g: 255, b: 0, a: 255 };
    let cfg = ConfigFile {
        instances: vec![],
        icon_colors: vec![("a.png".to_string(), blue), ("b.png".to_string(), green)],
    };
    assert_eq!(cfg.get_color("b.png"), Some(green));
    assert_eq!(cfg.get_color("a.png"), Some(blue));
    assert_eq!(cfg.get_color("c.png"), None);
    assert_eq!(Color::red(), Color { r: 255, g: 0, b: 0, a: 255 });
}

#[test]
fn rooted_paths_are_read_alike() {
    assert!(has_image_extension("/home/u/pic.png"));
    assert!(!has_image_extension("/home/u/notes.txt"));
    match FileManager::get_exe_path("/home/u/MyMod/game.exe") {
        Ok(ExeLocation::Executable(p)) => assert_eq!(p, "/home/u/MyMod/game.exe"),
        other => panic!("unexpected {:?}", other),
    }
    assert!(matches!(FileManager::get_exe_path("/home/u/readme"), Err(Error::NoExtension)));
}

#[test]
fn unique_icon_colors() {
    let blue = Color { r: 0, g: 0, b: 255, a: 255 };
    let green = Color { r: 0, g: 255, b: 0, a: 255 };
    let ok = ConfigFile {
        instances: vec![],
        icon_colors: vec![("a.png".to_string(), blue), ("b.png".to_string(), green)],
    };
    assert!(ok.has_unique_colors());
    let twice = ConfigFile {
        instances: vec![],
        icon_colors: vec![("a.png".to_string(), blue), ("b.png".to_string(), green), ("a.png".to_string(), green)],
    };
    assert!(!twice.has_unique_colors());
    assert!(ConfigFile::new(FileManager::new()).has_unique_colors());
    assert!(ConfigFile::default().has_unique_colors());
}
