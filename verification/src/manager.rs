//! The state of the mod manager: the programs it lists, which one is
//! selected, which one is queued for deletion, and which menus are open.
use vstd::prelude::*;

use crate::files::{color_lookup, unique_keys, Color, ConfigFile, FileManager};
use crate::modifications::{vanilla_view, Program, VANILLA_PREFIX};
use crate::paths::{clean_starts_with, portable, segments_clean};
use crate::screens::Screen;
use crate::text::{strip_line_breaks, without_line_breaks};

verus! {

/// The manager's state as plain values.
#[verifier::ext_equal]
pub struct ManagerView {
    pub files: FileManager,
    pub screen: Screen,
    pub vanilla_loaded: bool,
    pub mods: Seq<Program>,
    pub selected_index: Option<usize>,
    pub renaming: bool,
    pub add_menu_open: bool,
    pub icon_menu_open: bool,
    pub delete_confirmation_open: bool,
    pub instances: Seq<String>,
    pub icon_colors: Seq<(String, Color)>,
    pub deletion_index: Option<usize>,
}

impl ManagerView {
    /// What every state of the manager keeps: the selection and the queued
    /// deletion name listed programs, and no program lacks an instance entry
    /// in the configuration (so removing the entry at a program's index
    /// never fails).
    pub open spec fn valid(self) -> bool {
        &&& (self.selected_index matches Some(i) ==> i < self.mods.len())
        &&& (self.deletion_index matches Some(i) ==> i < self.mods.len())
        &&& self.mods.len() <= self.instances.len()
        &&& unique_keys(self.icon_colors)
    }

    /// Queuing the program at `index` for deletion, when one is there.
    pub open spec fn queued(self, index: usize) -> ManagerView {
        if index < self.mods.len() {
            ManagerView { deletion_index: Some(index), ..self }
        } else {
            self
        }
    }

    /// The program that a deletion would take off the list.
    pub open spec fn deletion_target(self) -> Option<Program> {
        match self.deletion_index {
            Some(i) => Some(self.mods[i as int]),
            None => None,
        }
    }

    /// Taking the queued program off the list; its instance entry goes only
    /// when its directory was `deleted`.
    pub open spec fn after_deletion(self, deleted: bool) -> ManagerView {
        match self.deletion_index {
            None => self,
            Some(i) => ManagerView {
                mods: self.mods.remove(i as int),
                instances: if deleted {
                    self.instances.remove(i as int)
                } else {
                    self.instances
                },
                deletion_index: None,
                selected_index: None,
                ..self
            },
        }
    }

    /// Listing a new program.
    pub open spec fn with_program(self, program: Program) -> ManagerView {
        ManagerView {
            mods: self.mods.push(program),
            instances: self.instances.push(program.path),
            add_menu_open: false,
            ..self
        }
    }

    /// Selecting the program at `index`, when one is there.
    pub open spec fn selecting(self, index: usize) -> ManagerView {
        if index < self.mods.len() {
            ManagerView { selected_index: Some(index), ..self }
        } else {
            self
        }
    }
}

/// Queuing a listed program and then carrying out the deletion takes
/// exactly that program off the list; its instance entry goes only when its
/// directory was deleted; the selection and the queue end empty.
pub proof fn law_queue_then_delete(v: ManagerView, index: usize, deleted: bool)
    requires
        v.valid(),
        index < v.mods.len(),
    ensures
        v.queued(index).deletion_target() == Some(v.mods[index as int]),
        v.queued(index).after_deletion(deleted).mods == v.mods.remove(index as int),
        v.queued(index).after_deletion(deleted).instances == (if deleted {
            v.instances.remove(index as int)
        } else {
            v.instances
        }),
        v.queued(index).after_deletion(deleted).selected_index is None,
        v.queued(index).after_deletion(deleted).deletion_index is None,
{
}

/// Every step of the manager keeps its state valid: a selection or a queued
/// deletion always names a listed program, and removing the instance entry
/// at a listed program's index never fails.
pub proof fn law_steps_keep_valid(v: ManagerView, index: usize, deleted: bool, program: Program)
    requires
        v.valid(),
    ensures
        v.queued(index).valid(),
        v.after_deletion(deleted).valid(),
        v.with_program(program).valid(),
        v.selecting(index).valid(),
{
}

/// Queuing or selecting past the end of the list changes nothing, and a
/// deletion with nothing queued changes nothing.
pub proof fn law_out_of_range_changes_nothing(v: ManagerView, index: usize, deleted: bool)
    ensures
        index >= v.mods.len() ==> v.queued(index) == v && v.selecting(index) == v,
        v.deletion_index is None ==> v.after_deletion(deleted) == v && v.deletion_target() is None,
{
}

/// A program added is listed last, after all programs listed before, and
/// its instance path is the last instance entry.
pub proof fn law_added_program_is_last(v: ManagerView, program: Program)
    ensures
        v.with_program(program).mods.last() == program,
        v.with_program(program).mods.drop_last() == v.mods,
        v.with_program(program).instances.last() == program.path,
        v.with_program(program).instances.drop_last() == v.instances,
{
    assert(v.with_program(program).mods.drop_last() =~= v.mods);
    assert(v.with_program(program).instances.drop_last() =~= v.instances);
}

/// While every program has the instance entry at its own index, adding a
/// program and then deleting it again (its directory deleted) restores the
/// list and the configuration.
pub proof fn law_add_then_delete_restores(v: ManagerView, program: Program, new_index: usize)
    requires
        v.valid(),
        v.mods.len() == v.instances.len(),
        new_index == v.mods.len(),
    ensures
        v.with_program(program).queued(new_index).after_deletion(true).mods == v.mods,
        v.with_program(program).queued(new_index).after_deletion(true).instances == v.instances,
{
    let w = v.with_program(program);
    assert(w.mods.remove(new_index as int) =~= v.mods);
    assert(w.instances.remove(new_index as int) =~= v.instances);
}

/// The vanilla game, when selected, is known to be the vanilla game, so the
/// delete button never opens the confirmation for it.
pub proof fn law_vanilla_cannot_be_deleted(v: ManagerView, index: usize)
    requires
        v.valid(),
        v.selected_index == Some(index),
        v.mods[index as int]@ == vanilla_view(),
    ensures
        known_vanilla(v.mods[index as int]),
{
    crate::modifications::law_vanilla_is_vanilla();
}

/// Whether a program's instance path shows it to be the vanilla game, where
/// its text settles that.
pub open spec fn known_vanilla(p: Program) -> bool {
    portable(p.path@) && segments_clean(p.path@) && clean_starts_with(p.path@, VANILLA_PREFIX@)
}

/// Whether a program's instance path shows it not to be the vanilla game,
/// where its text settles that.
pub open spec fn known_not_vanilla(p: Program) -> bool {
    portable(p.path@) && segments_clean(p.path@) && !clean_starts_with(p.path@, VANILLA_PREFIX@)
}

/// The mod manager's state.
#[derive(Debug)]
pub struct ModManager {
    files: FileManager,
    screen: Screen,
    vanilla_loaded: bool,
    mods: Vec<Program>,
    selected_index: Option<usize>,
    renaming: bool,
    add_menu_open: bool,
    icon_menu_open: bool,
    delete_confirmation_open: bool,
    config: ConfigFile,
    deletion_index: Option<usize>,
}

impl View for ModManager {
    type V = ManagerView;

    closed spec fn view(&self) -> ManagerView {
        ManagerView {
            files: self.files,
            screen: self.screen,
            vanilla_loaded: self.vanilla_loaded,
            mods: self.mods@,
            selected_index: self.selected_index,
            renaming: self.renaming,
            add_menu_open: self.add_menu_open,
            icon_menu_open: self.icon_menu_open,
            delete_confirmation_open: self.delete_confirmation_open,
            instances: self.config.instances@,
            icon_colors: self.config.icon_colors@,
            deletion_index: self.deletion_index,
        }
    }
}

impl ModManager {
    pub open spec fn wf(&self) -> bool {
        self@.valid()
    }

    /// The state at start-up. `vanilla_present` tells whether the vanilla
    /// game has been copied already (then the home screen shows at once);
    /// `mods` are the programs loaded from the configuration's instances, one
    /// for each. With no program at all, the vanilla game is listed.
    pub fn new(files: FileManager, vanilla_present: bool, config: ConfigFile, mods: Vec<Program>) -> (m: ModManager)
        requires
            mods@.len() <= config.instances@.len(),
            config.wf(),
        ensures
            m.wf(),
            m@.files == files,
            m@.screen == (if vanilla_present {
                Screen::Home
            } else {
                Screen::Loading
            }),
            m@.vanilla_loaded == vanilla_present,
            mods@.len() > 0 ==> m@.mods == mods@ && m@.instances == config.instances@,
            mods@.len() == 0 ==> m@.mods.len() == 1 && m@.mods[0]@ == vanilla_view()
                && m@.instances.len() == config.instances@.len() + 1 && m@.instances.last()@
                == vanilla_view().path && m@.instances.drop_last() == config.instances@,
            m@.icon_colors == config.icon_colors@,
            m@.selected_index is None,
            m@.deletion_index is None,
            !m@.renaming && !m@.add_menu_open && !m@.icon_menu_open
                && !m@.delete_confirmation_open,
    {
        let ghost given = config.instances@;
        let mut config = config;
        let mut mods = mods;
        if mods.len() == 0 {
            let vanilla = Program::vanilla();
            config.instances.push(vanilla.path.clone());
            mods.push(vanilla);
            assert(config.instances@.drop_last() =~= given) by {
                assert(config.instances@.len() >= 1);
            }
        }
        ModManager {
            files,
            screen: if vanilla_present {
                Screen::Home
            } else {
                Screen::Loading
            },
            vanilla_loaded: vanilla_present,
            mods,
            selected_index: None,
            renaming: false,
            add_menu_open: false,
            icon_menu_open: false,
            delete_confirmation_open: false,
            config,
            deletion_index: None,
        }
    }

    pub fn files(&self) -> (f: FileManager)
        ensures
            f == self@.files,
    {
        self.files
    }

    pub fn screen(&self) -> (s: Screen)
        ensures
            s == self@.screen,
    {
        self.screen
    }

    pub fn vanilla_loaded(&self) -> (b: bool)
        ensures
            b == self@.vanilla_loaded,
    {
        self.vanilla_loaded
    }

    pub fn mods(&self) -> (v: &Vec<Program>)
        ensures
            v@ == self@.mods,
    {
        &self.mods
    }

    pub fn selected_index(&self) -> (i: Option<usize>)
        ensures
            i == self@.selected_index,
    {
        self.selected_index
    }

    pub fn renaming(&self) -> (b: bool)
        ensures
            b == self@.renaming,
    {
        self.renaming
    }

    pub fn add_menu_open(&self) -> (b: bool)
        ensures
            b == self@.add_menu_open,
    {
        self.add_menu_open
    }

    pub fn icon_menu_open(&self) -> (b: bool)
        ensures
            b == self@.icon_menu_open,
    {
        self.icon_menu_open
    }

    pub fn delete_confirmation_open(&self) -> (b: bool)
        ensures
            b == self@.delete_confirmation_open,
    {
        self.delete_confirmation_open
    }

    pub fn config(&self) -> (c: &ConfigFile)
        ensures
            c.instances@ == self@.instances,
            c.icon_colors@ == self@.icon_colors,
    {
        &self.config
    }

    pub fn deletion_index(&self) -> (i: Option<usize>)
        ensures
            i == self@.deletion_index,
    {
        self.deletion_index
    }

    /// The selected program, if any.
    pub fn selected_mod(&self) -> (p: Option<&Program>)
        requires
            self.wf(),
        ensures
            match self@.selected_index {
                Some(i) => p matches Some(q) && *q == self@.mods[i as int],
                None => p is None,
            },
    {
        match self.selected_index {
            Some(i) => Some(&self.mods[i]),
            None => None,
        }
    }

    /// The background colour: the colour stored for the selected program's
    /// icon, or red.
    pub fn clear_color(&self) -> (c: Color)
        requires
            self.wf(),
        ensures
            c == (match self@.selected_index {
                Some(i) => match self@.mods[i as int].image_path {
                    Some(p) => match color_lookup(self@.icon_colors, p@) {
                        Some(k) => k,
                        None => Color::spec_red(),
                    },
                    None => Color::spec_red(),
                },
                None => Color::spec_red(),
            }),
    {
        let found = match self.selected_mod() {
            Some(m) => match &m.image_path {
                Some(p) => self.config.get_color(p.as_str()),
                None => None,
            },
            None => None,
        };
        match found {
            Some(k) => k,
            None => Color::red(),
        }
    }

    /// Queues the program at `index` for deletion, when there is one there;
    /// otherwise nothing changes.
    pub fn queue_deletion(&mut self, index: usize) -> (queued: bool)
        requires
            old(self).wf(),
        ensures
            final(self).wf(),
            queued == (index < old(self)@.mods.len()),
            final(self)@ == old(self)@.queued(index),
    {
        if index >= self.mods.len() {
            return false;
        }
        self.deletion_index = Some(index);
        true
    }

    /// Takes the queued program off the list. `deleted` tells whether its
    /// instance directory was deleted; only then is its instance entry
    /// removed from the configuration. The selection and the queue are
    /// cleared. Without a queued program nothing changes.
    pub fn delete_queued(&mut self, deleted: bool) -> (removed: Option<Program>)
        requires
            old(self).wf(),
        ensures
            final(self).wf(),
            removed == old(self)@.deletion_target(),
            final(self)@ == old(self)@.after_deletion(deleted),
    {
        match self.deletion_index {
            None => None,
            Some(index) => {
                let program = self.mods.remove(index);
                if deleted {
                    self.config.instances.remove(index);
                }
                self.deletion_index = None;
                self.selected_index = None;
                Some(program)
            },
        }
    }

    /// The copy of the vanilla game is complete: the home screen shows.
    pub fn finish_loading(&mut self)
        requires
            old(self).wf(),
        ensures
            final(self).wf(),
            final(self)@ == (ManagerView {
                screen: Screen::Home,
                vanilla_loaded: true,
                ..old(self)@
            }),
    {
        self.screen = Screen::Home;
        self.vanilla_loaded = true;
    }

    /// Lists a newly added program: its instance path joins the
    /// configuration, the program joins the list, and the add menu closes.
    pub fn add_program(&mut self, program: Program)
        requires
            old(self).wf(),
        ensures
            final(self).wf(),
            final(self)@ == old(self)@.with_program(program),
    {
        self.config.instances.push(program.path.clone());
        self.mods.push(program);
        self.add_menu_open = false;
    }

    /// Opens the menu where mods are dropped.
    pub fn open_add_menu(&mut self)
        requires
            old(self).wf(),
        ensures
            final(self).wf(),
            final(self)@ == (ManagerView { add_menu_open: true, ..old(self)@ }),
    {
        self.add_menu_open = true;
    }

    /// Closes the menu where mods are dropped.
    pub fn close_add_menu(&mut self)
        requires
            old(self).wf(),
        ensures
            final(self).wf(),
            final(self)@ == (ManagerView { add_menu_open: false, ..old(self)@ }),
    {
        self.add_menu_open = false;
    }

    /// Selects the program at `index`, when there is one there.
    pub fn select(&mut self, index: usize) -> (selected: bool)
        requires
            old(self).wf(),
        ensures
            final(self).wf(),
            selected == (index < old(self)@.mods.len()),
            final(self)@ == old(self)@.selecting(index),
    {
        if index < self.mods.len() {
            self.selected_index = Some(index);
            true
        } else {
            false
        }
    }

    /// Clears the selection.
    pub fn clear_selection(&mut self)
        requires
            old(self).wf(),
        ensures
            final(self).wf(),
            final(self)@ == (ManagerView { selected_index: None, ..old(self)@ }),
    {
        self.selected_index = None;
    }

    /// With nothing selected, the icon menu cannot stay open.
    pub fn close_icon_menu_without_selection(&mut self)
        requires
            old(self).wf(),
        ensures
            final(self).wf(),
            old(self)@.selected_index is None ==> final(self)@ == (ManagerView {
                icon_menu_open: false,
                ..old(self)@
            }),
            old(self)@.selected_index is Some ==> final(self)@ == old(self)@,
    {
        if self.selected_index.is_none() {
            self.icon_menu_open = false;
        }
    }

    /// Opens the icon menu.
    pub fn open_icon_menu(&mut self)
        requires
            old(self).wf(),
        ensures
            final(self).wf(),
            final(self)@ == (ManagerView { icon_menu_open: true, ..old(self)@ }),
    {
        self.icon_menu_open = true;
    }

    /// An icon was picked in the icon menu (`None`: the default image): the
    /// selected program takes it and the menu closes.
    pub fn choose_icon(&mut self, image: Option<String>)
        requires
            old(self).wf(),
        ensures
            final(self).wf(),
            match old(self)@.selected_index {
                Some(i) => final(self)@ == (ManagerView {
                    mods: old(self)@.mods.update(
                        i as int,
                        Program { image_path: image, ..old(self)@.mods[i as int] },
                    ),
                    icon_menu_open: false,
                    ..old(self)@
                }),
                None => final(self)@ == (ManagerView { icon_menu_open: false, ..old(self)@ }),
            },
    {
        match self.selected_index {
            Some(i) => {
                self.mods[i].image_path = image;
            },
            None => {},
        }
        self.icon_menu_open = false;
    }

    /// Starts renaming the selected program.
    pub fn start_renaming(&mut self)
        requires
            old(self).wf(),
        ensures
            final(self).wf(),
            final(self)@ == (ManagerView { renaming: true, ..old(self)@ }),
    {
        self.renaming = true;
    }

    /// The name being edited replaces the selected program's name.
    pub fn edit_selected_name(&mut self, name: String)
        requires
            old(self).wf(),
        ensures
            final(self).wf(),
            match old(self)@.selected_index {
                Some(i) => final(self)@ == (ManagerView {
                    mods: old(self)@.mods.update(
                        i as int,
                        Program { name: name, ..old(self)@.mods[i as int] },
                    ),
                    ..old(self)@
                }),
                None => final(self)@ == old(self)@,
            },
    {
        match self.selected_index {
            Some(i) => {
                self.mods[i].name = name;
            },
            None => {},
        }
    }

    /// Renaming ends: the selected program's name loses its line breaks.
    pub fn finish_renaming(&mut self)
        requires
            old(self).wf(),
        ensures
            final(self).wf(),
            match old(self)@.selected_index {
                Some(i) => {
                    &&& final(self)@.renaming == false
                    &&& final(self)@.mods.len() == old(self)@.mods.len()
                    &&& final(self)@.mods[i as int]@.name == without_line_breaks(
                        old(self)@.mods[i as int].name@,
                    )
                    &&& final(self)@.mods[i as int].path == old(self)@.mods[i as int].path
                    &&& final(self)@.mods[i as int].variant == old(self)@.mods[i as int].variant
                    &&& final(self)@.mods[i as int].image_path == old(
                        self,
                    )@.mods[i as int].image_path
                    &&& final(self)@.mods[i as int].exe_name == old(self)@.mods[i as int].exe_name
                    &&& forall|j: int|
                        0 <= j < old(self)@.mods.len() && j != i ==> final(self)@.mods[j] == old(
                            self,
                        )@.mods[j]
                    &&& final(self)@ == (ManagerView {
                        mods: final(self)@.mods,
                        renaming: false,
                        ..old(self)@
                    })
                },
                None => final(self)@ == (ManagerView { renaming: false, ..old(self)@ }),
            },
    {
        self.renaming = false;
        match self.selected_index {
            Some(i) => {
                let stripped = strip_line_breaks(self.mods[i].name.as_str());
                self.mods[i].name = stripped;
            },
            None => {},
        }
    }

    /// The delete button was pressed: the confirmation opens, unless the
    /// selected program is the vanilla game (or nothing is selected).
    pub fn request_delete(&mut self) -> (opened: bool)
        requires
            old(self).wf(),
        ensures
            final(self).wf(),
            opened ==> old(self)@.selected_index is Some && final(self)@ == (ManagerView {
                delete_confirmation_open: true,
                ..old(self)@
            }),
            !opened ==> final(self)@ == old(self)@,
            old(self)@.selected_index is None ==> !opened,
            (old(self)@.selected_index matches Some(i) && known_vanilla(
                old(self)@.mods[i as int],
            )) ==> !opened,
            (old(self)@.selected_index matches Some(i) && known_not_vanilla(
                old(self)@.mods[i as int],
            )) ==> opened,
    {
        match self.selected_index {
            Some(i) => {
                if self.mods[i].is_vanilla() {
                    false
                } else {
                    self.delete_confirmation_open = true;
                    true
                }
            },
            None => false,
        }
    }

    /// The deletion was confirmed (`true`) or cancelled: the confirmation
    /// closes, and on confirmation the selected program is queued.
    pub fn answer_delete(&mut self, confirmed: bool)
        requires
            old(self).wf(),
        ensures
            final(self).wf(),
            final(self)@ == (ManagerView {
                delete_confirmation_open: false,
                deletion_index: if confirmed && old(self)@.selected_index is Some {
                    old(self)@.selected_index
                } else {
                    old(self)@.deletion_index
                },
                ..old(self)@
            }),
    {
        self.delete_confirmation_open = false;
        if confirmed {
            match self.selected_index {
                Some(i) => {
                    let _ = self.queue_deletion(i);
                },
                None => {},
            }
        }
    }
}

} // verus!
