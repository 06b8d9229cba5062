//! The installer's settings and its decisions: where to install, whether a
//! copy is installed there already, and what follows a finished download.
use vstd::prelude::*;

use crate::paths::{join_base, joined, opt_view, path_join, plain};
use crate::text::{concat_text, contains_text, holds_text};

verus! {

pub const WELCOME: &'static str = "Welcome to the Undertale Mod Manager Installer. Just configure the settings below and press \"install\", and the latest version will be downloaded and installed.";

pub const INSTALL_PATH: &'static str = "Install location. (This is where all the files will go.)";

pub const CHANGE_INSTALL_PATH: &'static str = "Change install location.";

pub const UNKNOWN_PATH: &'static str = "Could not find the specified path. If you typed this manually, check for spelling errors.";

pub const ALREADY_INSTALLED: &'static str = "You seem to already have Undertale Mod Manager installed in this directory. Installing here will update the currently installed version. Your mods and configuration settings will not be altered.";

pub const SHORTCUT: &'static str = "Create Desktop Shortcut";

pub const INSTALL: &'static str = "Install";

pub const UPDATE: &'static str = "Update";

pub const CANCEL: &'static str = "Cancel";

/// The directory made for the manager inside the data directory.
pub const SUBFOLDER_NAME: &'static str = "UndertaleModManager";

/// The name the finished download is given before it is renamed.
pub const TEMP_EXE_NAME: &'static str = "undertale_mod_manager.exe.downloading";

/// The manager's executable.
pub const EXE_NAME: &'static str = "undertale_mod_manager.exe";

/// The shortcut placed on the desktop.
pub const SHORTCUT_NAME: &'static str = "Undertale Mod Manager.lnk";

/// What an installation failure is reported with, before its cause.
pub const INSTALL_FAILED: &'static str = "Failed to install the mod manager: ";

/// The proposed install directory: the manager's folder inside the data
/// directory, or nothing when there is no data directory.
pub open spec fn initial_path(data_dir: Option<Seq<char>>) -> Seq<char> {
    match data_dir {
        Some(d) => if d.len() == 0 {
            d
        } else {
            d + seq!['\\'] + SUBFOLDER_NAME@
        },
        None => Seq::empty(),
    }
}

/// What the installer's window holds.
#[derive(Debug)]
pub struct InstallerSettings {
    pub initial_install_path: String,
    pub desktop_path: Option<String>,
    pub create_shortcut: bool,
    pub change_install_path: bool,
    pub install_path: String,
    pub already_installed: bool,
    pub install_error: String,
}

/// What a look at the install directory decided.
#[derive(Debug, Clone, Copy, PartialEq, Eq, Structural)]
pub struct InstallDirCheck {
    /// The install button stays disabled.
    pub block_install: bool,
    /// A left-over partial download is to be removed.
    pub remove_partial: bool,
}

/// What follows a finished rename of the download.
#[derive(Debug)]
pub enum AfterRename {
    /// The installation failed; the error is shown.
    Failed,
    /// The installation is complete.
    Done,
    /// The installation is complete once a shortcut is placed here.
    CreateShortcut(String),
}

impl InstallerSettings {
    /// The settings at start: the proposed install directory, which can be
    /// changed (and must be, when none is proposed), a shortcut when there is
    /// a desktop, nothing installed and no error.
    pub fn new(data_dir: Option<String>, desktop_path: Option<String>) -> (s: InstallerSettings)
        ensures
            s.initial_install_path@ == initial_path(opt_view(data_dir)),
            s.install_path@ == s.initial_install_path@,
            s.change_install_path == (s.initial_install_path@.len() == 0),
            s.desktop_path == desktop_path,
            s.create_shortcut,
            !s.already_installed,
            s.install_error@.len() == 0,
    {
        let ghost given = opt_view(data_dir);
        let mut initial = match data_dir {
            Some(d) => d,
            None => String::new(),
        };
        if initial.unicode_len() != 0 {
            initial.append("\\");
            initial.append(SUBFOLDER_NAME);
            proof {
                reveal_strlit("\\");
            }
            assert(initial@ =~= initial_path(given));
        }
        let empty = initial.unicode_len() == 0;
        InstallerSettings {
            initial_install_path: initial.clone(),
            desktop_path,
            create_shortcut: true,
            change_install_path: empty,
            install_path: initial,
            already_installed: false,
            install_error: String::new(),
        }
    }

    /// A look at the chosen install directory: whether its parent exists and,
    /// if so, its listing (`None` when it cannot be listed). A listing that
    /// holds the manager marks it installed; one that cannot be read marks
    /// it not installed.
    pub fn observe_install_dir(&mut self, base_exists: bool, listing: Option<Vec<String>>) -> (c: InstallDirCheck)
        ensures
            c.block_install == !base_exists,
            c.remove_partial == (base_exists && (listing matches Some(l) && holds_text(
                l@,
                TEMP_EXE_NAME@,
            ))),
            final(self).already_installed == (if !base_exists {
                old(self).already_installed
            } else {
                match listing {
                    Some(l) => old(self).already_installed || holds_text(l@, EXE_NAME@),
                    None => false,
                }
            }),
            final(self).initial_install_path == old(self).initial_install_path,
            final(self).desktop_path == old(self).desktop_path,
            final(self).create_shortcut == old(self).create_shortcut,
            final(self).change_install_path == old(self).change_install_path,
            final(self).install_path == old(self).install_path,
            final(self).install_error == old(self).install_error,
    {
        if !base_exists {
            return InstallDirCheck { block_install: true, remove_partial: false };
        }
        match listing {
            Some(files) => {
                let remove_partial = contains_text(&files, TEMP_EXE_NAME);
                if contains_text(&files, EXE_NAME) {
                    self.already_installed = true;
                }
                InstallDirCheck { block_install: false, remove_partial }
            },
            None => {
                self.already_installed = false;
                InstallDirCheck { block_install: false, remove_partial: false }
            },
        }
    }

    /// The label of the install button.
    pub fn install_button_text(&self) -> (t: &'static str)
        ensures
            t@ == (if self.already_installed {
                UPDATE@
            } else {
                INSTALL@
            }),
    {
        if self.already_installed {
            UPDATE
        } else {
            INSTALL
        }
    }

    /// The download task has finished with `outcome`. A failure is recorded
    /// and ends the installation; otherwise the download is to be renamed
    /// from the first path returned to the second.
    pub fn download_finished(&mut self, outcome: Result<(), String>) -> (rename: Option<(String, String)>)
        ensures
            match outcome {
                Err(msg) => rename is None && final(self).install_error@ == INSTALL_FAILED@ + msg@,
                Ok(()) => rename matches Some((from, to)) && (join_base(old(self).install_path@) ==> joined(
                    old(self).install_path@,
                    TEMP_EXE_NAME@,
                    from@,
                ) && joined(old(self).install_path@, EXE_NAME@, to@)) && final(self).install_error
                    == old(self).install_error,
            },
            final(self).initial_install_path == old(self).initial_install_path,
            final(self).desktop_path == old(self).desktop_path,
            final(self).create_shortcut == old(self).create_shortcut,
            final(self).change_install_path == old(self).change_install_path,
            final(self).install_path == old(self).install_path,
            final(self).already_installed == old(self).already_installed,
    {
        match outcome {
            Err(msg) => {
                self.install_error = concat_text(INSTALL_FAILED, msg.as_str());
                None
            },
            Ok(()) => {
                proof {
                    lemma_install_names_plain();
                }
                let from = path_join(self.install_path.as_str(), TEMP_EXE_NAME);
                let to = path_join(self.install_path.as_str(), EXE_NAME);
                Some((from, to))
            },
        }
    }

    /// The rename has finished with `outcome`. A failure is recorded; on
    /// success a desktop shortcut follows when there is a desktop.
    pub fn rename_finished(&mut self, outcome: Result<(), String>) -> (next: AfterRename)
        ensures
            match outcome {
                Err(msg) => next is Failed && final(self).install_error@ == INSTALL_FAILED@ + msg@,
                Ok(()) => final(self).install_error == old(self).install_error && match old(
                    self,
                ).desktop_path {
                    None => next is Done,
                    Some(d) => next matches AfterRename::CreateShortcut(p) && (join_base(d@) ==> joined(
                        d@,
                        SHORTCUT_NAME@,
                        p@,
                    )),
                },
            },
            final(self).initial_install_path == old(self).initial_install_path,
            final(self).desktop_path == old(self).desktop_path,
            final(self).create_shortcut == old(self).create_shortcut,
            final(self).change_install_path == old(self).change_install_path,
            final(self).install_path == old(self).install_path,
            final(self).already_installed == old(self).already_installed,
    {
        match outcome {
            Err(msg) => {
                self.install_error = concat_text(INSTALL_FAILED, msg.as_str());
                AfterRename::Failed
            },
            Ok(()) => match &self.desktop_path {
                None => AfterRename::Done,
                Some(d) => {
                    proof {
                        lemma_install_names_plain();
                    }
                    AfterRename::CreateShortcut(path_join(d.as_str(), SHORTCUT_NAME))
                },
            },
        }
    }
}

/// The names the installer joins to directories are plain and non-empty.
pub proof fn lemma_install_names_plain()
    ensures
        plain(TEMP_EXE_NAME@) && TEMP_EXE_NAME@.len() > 0,
        plain(EXE_NAME@) && EXE_NAME@.len() > 0,
        plain(SHORTCUT_NAME@) && SHORTCUT_NAME@.len() > 0,
{
    reveal_strlit("undertale_mod_manager.exe.downloading");
    reveal_strlit("undertale_mod_manager.exe");
    reveal_strlit("Undertale Mod Manager.lnk");
    let a = TEMP_EXE_NAME@;
    let b = EXE_NAME@;
    let c = SHORTCUT_NAME@;
    assert(!a.contains(':')) by {
        assert forall|i: int| 0 <= i < a.len() implies a[i] != ':' by {}
    }
    assert(!b.contains(':')) by {
        assert forall|i: int| 0 <= i < b.len() implies b[i] != ':' by {}
    }
    assert(!c.contains(':')) by {
        assert forall|i: int| 0 <= i < c.len() implies c[i] != ':' by {}
    }
}

} // verus!
