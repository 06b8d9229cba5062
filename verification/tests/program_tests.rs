use mod_manager::files::{Error, FileManager};
use mod_manager::modifications::{Program, ProgramVariant, ProgramWidget};

fn program(name: &str, path: &str) -> Program {
    Program {
        name: name.to_string(),
        path: path.to_string(),
        variant: ProgramVariant::Standalone,
        image_path: None,
        exe_name: "game.exe".to_string(),
    }
}

#[test]
fn vanilla_program() {
    let v = Program::vanilla();
    assert_eq!(v.name, "Undertale");
    assert_eq!(v.path, "../vanilla/Undertale");
    assert_eq!(v.variant, ProgramVariant::Standalone);
    assert_eq!(v.image_path, None);
    assert_eq!(v.exe_name, "UNDERTALE.exe");
    assert!(v.is_vanilla());
}

#[test]
fn is_vanilla_by_path() {
    assert!(!program("m", "MyMod").is_vanilla());
    assert!(!program("m", "../vanillaish").is_vanilla());
    assert!(program("m", "../vanilla/Other").is_vanilla());
}

#[test]
fn exe_path_joins_mod_dir() {
    let f = FileManager::new();
    assert_eq!(program("m", "MyMod").exe_path(f), "./mods/MyMod/game.exe");
    assert_eq!(Program::vanilla().exe_path(f), "./mods/../vanilla/Undertale/UNDERTALE.exe");
}

#[test]
fn from_exe_path_three_levels() {
    let p = Program::from_exe_path("downloads/Cool Mod/game.exe").unwrap().unwrap();
    assert_eq!(p.name, "game");
    assert_eq!(p.exe_name, "game.exe");
    assert_eq!(p.path, "Cool Mod");
    assert_eq!(p.variant, ProgramVariant::Standalone);
    assert_eq!(p.image_path, None);
}

#[test]
fn from_exe_path_two_levels() {
    let p = Program::from_exe_path("Cool Mod/game.v2.exe").unwrap().unwrap();
    assert_eq!(p.name, "game.v2");
    assert_eq!(p.path, "Cool Mod");
}

#[test]
fn from_exe_path_without_directory() {
    assert!(matches!(Program::from_exe_path("game.exe"), Some(Err(Error::NoParent))));
}

#[test]
fn from_exe_path_without_file_name() {
    assert!(Program::from_exe_path("a/..").is_none());
}

#[test]
fn duplicate_copies_every_field() {
    let mut p = program("m", "MyMod");
    p.image_path = Some("i.png".to_string());
    let q = p.duplicate();
    assert_eq!(q.name, p.name);
    assert_eq!(q.path, p.path);
    assert_eq!(q.image_path, p.image_path);
    assert_eq!(q.exe_name, p.exe_name);
}

#[test]
fn program_widget_holds_program() {
    let p = program("m", "MyMod");
    let w = ProgramWidget::new(&p, true);
    assert!(w.selected());
    assert_eq!(w.program().name, "m");
}

#[test]
fn save_all_targets_each_description() {
    let f = FileManager::new();
    let programs = vec![program("a", "A"), program("b", "B")];
    assert_eq!(
        Program::save_all(&programs, &f),
        vec!["./mods/A/./instance.toml".to_string(), "./mods/B/./instance.toml".to_string()]
    );
    assert!(Program::save_all(&vec![], &f).is_empty());
}

#[test]
fn screen_default_is_loading() {
    assert_eq!(mod_manager::screens::Screen::default(), mod_manager::screens::Screen::Loading);
}

#[test]
fn from_exe_path_rooted() {
    let p = Program::from_exe_path("/home/u/MyMod/game.exe").unwrap().unwrap();
    assert_eq!(p.name, "game");
    assert_eq!(p.exe_name, "game.exe");
    assert_eq!(p.path, "MyMod");
    assert_eq!(p.variant, ProgramVariant::Standalone);
    assert_eq!(p.image_path, None);
    let q = Program::from_exe_path("/MyMod/game.exe").unwrap().unwrap();
    assert_eq!(q.path, "MyMod");
    assert_eq!(q.name, "game");
    assert!(matches!(Program::from_exe_path("/game.exe"), Some(Err(Error::NoParent))));
    assert!(Program::from_exe_path("mods/MyMod/..").is_none());
}

fn some(s: &str) -> Option<String> {
    Some(s.to_string())
}

#[test]
fn from_exe_parts_each_outcome() {
    let p = Program::from_exe_parts(some("game.exe"), some("/h"), some("MyMod/game.exe"), some("game"), some("MyMod"))
        .unwrap()
        .unwrap();
    assert_eq!(p.name, "game");
    assert_eq!(p.exe_name, "game.exe");
    assert_eq!(p.path, "MyMod");
    let q = Program::from_exe_parts(some("game"), some(""), some("M/game"), None, some("M")).unwrap().unwrap();
    assert_eq!(q.name, "game");
    assert_eq!(q.path, "M");
    assert!(Program::from_exe_parts(None, some("a"), some("b"), some("c"), some("d")).is_none());
    assert!(matches!(Program::from_exe_parts(some("g.exe"), None, None, None, None), Some(Err(Error::NoParent))));
    assert!(matches!(Program::from_exe_parts(some("g.exe"), some("C:\\"), None, None, None), Some(Err(Error::StripPrefix))));
    assert!(matches!(Program::from_exe_parts(some("g.exe"), some(""), some("g.exe"), some("g"), None), Some(Err(Error::NoParent))));
}
