use mod_manager::files::{Color, ConfigFile, FileManager};
use mod_manager::manager::ModManager;
use mod_manager::modifications::{Program, ProgramVariant};
use mod_manager::screens::Screen;

fn program(name: &str, path: &str) -> Program {
    Program {
        name: name.to_string(),
        path: path.to_string(),
        variant: ProgramVariant::Standalone,
        image_path: None,
        exe_name: "game.exe".to_string(),
    }
}

fn manager(names: &[&str]) -> ModManager {
    let mods: Vec<Program> = names.iter().map(|n| program(n, n)).collect();
    let config = ConfigFile {
        instances: names.iter().map(|n| n.to_string()).collect(),
        icon_colors: vec![],
    };
    ModManager::new(FileManager::new(), true, config, mods)
}

fn names(m: &ModManager) -> Vec<String> {
    m.mods().iter().map(|p| p.name.clone()).collect()
}

#[test]
fn new_with_no_programs_lists_vanilla() {
    let m = ModManager::new(FileManager::new(), false, ConfigFile::default(), vec![]);
    assert_eq!(m.screen(), Screen::Loading);
    assert!(!m.vanilla_loaded());
    assert_eq!(m.mods().len(), 1);
    assert_eq!(m.mods()[0].name, "Undertale");
    assert_eq!(m.config().instances, vec!["../vanilla/Undertale".to_string()]);
    assert_eq!(m.selected_index(), None);
    assert_eq!(m.deletion_index(), None);
}

#[test]
fn new_with_vanilla_present_shows_home() {
    let m = manager(&["A", "B"]);
    assert_eq!(m.screen(), Screen::Home);
    assert!(m.vanilla_loaded());
    assert_eq!(names(&m), vec!["A", "B"]);
    assert!(!m.renaming() && !m.add_menu_open() && !m.icon_menu_open() && !m.delete_confirmation_open());
}

#[test]
fn finish_loading_shows_home() {
    let mut m = ModManager::new(FileManager::new(), false, ConfigFile::default(), vec![]);
    m.finish_loading();
    assert_eq!(m.screen(), Screen::Home);
    assert!(m.vanilla_loaded());
}

#[test]
fn queue_then_delete_removes_that_program() {
    let mut m = manager(&["A", "B", "C"]);
    m.select(1);
    assert!(m.queue_deletion(1));
    assert_eq!(m.deletion_index(), Some(1));
    let removed = m.delete_queued(true).unwrap();
    assert_eq!(removed.name, "B");
    assert_eq!(names(&m), vec!["A", "C"]);
    assert_eq!(m.config().instances, vec!["A".to_string(), "C".to_string()]);
    assert_eq!(m.selected_index(), None);
    assert_eq!(m.deletion_index(), None);
}

#[test]
fn failed_deletion_keeps_instance_entry() {
    let mut m = manager(&["A", "B"]);
    assert!(m.queue_deletion(0));
    let removed = m.delete_queued(false).unwrap();
    assert_eq!(removed.name, "A");
    assert_eq!(names(&m), vec!["B"]);
    assert_eq!(m.config().instances, vec!["A".to_string(), "B".to_string()]);
}

#[test]
fn queue_out_of_range_changes_nothing() {
    let mut m = manager(&["A"]);
    assert!(!m.queue_deletion(5));
    assert_eq!(m.deletion_index(), None);
    assert!(m.delete_queued(true).is_none());
    assert_eq!(names(&m), vec!["A"]);
}

#[test]
fn add_program_lists_it_last() {
    let mut m = manager(&["A"]);
    m.open_add_menu();
    assert!(m.add_menu_open());
    m.add_program(program("N", "NewMod"));
    assert!(!m.add_menu_open());
    assert_eq!(names(&m), vec!["A", "N"]);
    assert_eq!(m.config().instances, vec!["A".to_string(), "NewMod".to_string()]);
    m.open_add_menu();
    m.close_add_menu();
    assert!(!m.add_menu_open());
}

#[test]
fn add_then_delete_restores() {
    let mut m = manager(&["A", "B"]);
    m.add_program(program("N", "N"));
    assert!(m.queue_deletion(2));
    m.delete_queued(true);
    assert_eq!(names(&m), vec!["A", "B"]);
    assert_eq!(m.config().instances, vec!["A".to_string(), "B".to_string()]);
}

#[test]
fn selection() {
    let mut m = manager(&["A", "B"]);
    assert!(m.selected_mod().is_none());
    assert!(m.select(1));
    assert_eq!(m.selected_mod().unwrap().name, "B");
    assert!(!m.select(2));
    assert_eq!(m.selected_index(), Some(1));
    m.clear_selection();
    assert_eq!(m.selected_index(), None);
}

#[test]
fn icon_menu() {
    let mut m = manager(&["A", "B"]);
    m.open_icon_menu();
    m.close_icon_menu_without_selection();
    assert!(!m.icon_menu_open());
    m.select(0);
    m.open_icon_menu();
    m.close_icon_menu_without_selection();
    assert!(m.icon_menu_open());
    m.choose_icon(Some("./icons/a.png".to_string()));
    assert!(!m.icon_menu_open());
    assert_eq!(m.mods()[0].image_path, Some("./icons/a.png".to_string()));
    assert_eq!(m.mods()[1].image_path, None);
    m.choose_icon(None);
    assert_eq!(m.mods()[0].image_path, None);
}

#[test]
fn clear_color_uses_icon_color_or_red() {
    let green = Color { r: 0, g: 200, b: 0, a: 255 };
    let config = ConfigFile {
        instances: vec!["A".to_string()],
        icon_colors: vec![("./icons/a.png".to_string(), green)],
    };
    let mut m = ModManager::new(FileManager::new(), true, config, vec![program("A", "A")]);
    assert_eq!(m.clear_color(), Color::red());
    m.select(0);
    assert_eq!(m.clear_color(), Color::red());
    m.choose_icon(Some("./icons/a.png".to_string()));
    assert_eq!(m.clear_color(), green);
    m.choose_icon(Some("./icons/b.png".to_string()));
    assert_eq!(m.clear_color(), Color::red());
}

#[test]
fn renaming_strips_line_breaks() {
    let mut m = manager(&["A"]);
    m.select(0);
    m.start_renaming();
    assert!(m.renaming());
    m.edit_selected_name("New\nName\r".to_string());
    assert_eq!(m.mods()[0].name, "New\nName\r");
    m.finish_renaming();
    assert!(!m.renaming());
    assert_eq!(m.mods()[0].name, "NewName");
}

#[test]
fn vanilla_cannot_be_deleted() {
    let mut m = ModManager::new(FileManager::new(), true, ConfigFile::default(), vec![]);
    m.select(0);
    assert!(!m.request_delete());
    assert!(!m.delete_confirmation_open());
}

#[test]
fn delete_confirmation_flow() {
    let mut m = manager(&["A", "B"]);
    assert!(!m.request_delete());
    m.select(1);
    assert!(m.request_delete());
    assert!(m.delete_confirmation_open());
    m.answer_delete(false);
    assert!(!m.delete_confirmation_open());
    assert_eq!(m.deletion_index(), None);
    m.request_delete();
    m.answer_delete(true);
    assert_eq!(m.deletion_index(), Some(1));
    m.delete_queued(true);
    assert_eq!(names(&m), vec!["A"]);
}
