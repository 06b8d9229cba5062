//! Where the manager keeps its files, which files it accepts, and its
//! configuration.
use vstd::prelude::*;

use crate::paths::{
    file_part, join_base, joined, lemma_joined_base, name_extension, named_file, opt_view,
    path_extension, path_join, plain, portable, simple_file_name,
};
use crate::text::{concat_text, contains_text, holds_text, same_text};

verus! {

/// Where a Steam install keeps the game.
pub const UNDERTALE_STEAM_DIRECTORY: &'static str = "C:/Program Files (x86)/Steam/steamapps/common/Undertale";

/// The game's data file, which every copy of the game holds.
pub const DATA_WIN: &'static str = "data.win";

/// The game's executable, which every copy of the game holds.
pub const UNDERTALE_EXE: &'static str = "UNDERTALE.exe";

/// Why a shortcut gave no target.
#[derive(Debug)]
pub enum LinkProblem {
    /// The shortcut could not be read; the reader's own message.
    Unreadable(String),
    /// The shortcut was read but names no location.
    MissingLocation,
}

/// What can go wrong with the manager's files. Where the cause is an error
/// of the file system or of a format, its message is kept as text.
#[derive(Debug)]
pub enum Error {
    Copy(String),
    Create(String),
    Delete(String),
    Write(String),
    Read(String),
    Execute(String),
    Canonicalize(String),
    MainColor(String),
    SteamNotFound,
    DataWinNotFound,
    ExeNotFound,
    TempDirNotFound(String),
    ConfigDeserialize(String),
    ConfigSerialize(String),
    UnrecognizedExtension(String),
    NoExtension,
    NoParent,
    InvalidLink(LinkProblem),
    StripPrefix,
    NonexistentModPath(String),
}

/// A colour as red, green, blue and alpha bytes.
#[derive(Debug, Clone, Copy, PartialEq, Eq, Structural)]
pub struct Color {
    pub r: u8,
    pub g: u8,
    pub b: u8,
    pub a: u8,
}

impl Color {
    pub open spec fn spec_red() -> Color {
        Color { r: 255, g: 0, b: 0, a: 255 }
    }

    /// Opaque red, the colour shown when no icon colour is known.
    pub fn red() -> (c: Color)
        ensures
            c == Color::spec_red(),
    {
        Color { r: 255, g: 0, b: 0, a: 255 }
    }
}

/// The colour stored for `key`: that of its first entry.
pub open spec fn color_lookup(entries: Seq<(String, Color)>, key: Seq<char>) -> Option<Color>
    decreases entries.len(),
{
    if entries.len() == 0 {
        None
    } else if entries[0].0@ == key {
        Some(entries[0].1)
    } else {
        color_lookup(entries.drop_first(), key)
    }
}

/// No two entries share a key: the entries are a map from icon to colour.
pub open spec fn unique_keys(entries: Seq<(String, Color)>) -> bool {
    forall|i: int, j: int|
        0 <= i < j < entries.len() ==> #[trigger] entries[i].0@ != #[trigger] entries[j].0@
}

/// Where no two entries share a key, the colour found for a key is that of
/// the one entry with that key; without such an entry there is none.
pub proof fn lemma_lookup_unique(entries: Seq<(String, Color)>, key: Seq<char>)
    ensures
        unique_keys(entries) ==> forall|i: int|
            0 <= i < entries.len() && #[trigger] entries[i].0@ == key ==> color_lookup(entries, key)
                == Some(entries[i].1),
        (forall|i: int| 0 <= i < entries.len() ==> #[trigger] entries[i].0@ != key) ==> color_lookup(
            entries,
            key,
        ) is None,
    decreases entries.len(),
{
    if entries.len() > 0 {
        let rest = entries.drop_first();
        lemma_lookup_unique(rest, key);
        if unique_keys(entries) {
            assert(unique_keys(rest)) by {
                assert forall|i: int, j: int| 0 <= i < j < rest.len() implies #[trigger] rest[i].0@
                    != #[trigger] rest[j].0@ by {
                    assert(rest[i] == entries[i + 1] && rest[j] == entries[j + 1]);
                }
            }
            assert forall|i: int|
                0 <= i < entries.len() && #[trigger] entries[i].0@ == key implies color_lookup(
                entries,
                key,
            ) == Some(entries[i].1) by {
                if i > 0 {
                    assert(entries[0].0@ != entries[i].0@);
                    assert(rest[i - 1] == entries[i]);
                }
            }
        }
        if forall|i: int| 0 <= i < entries.len() ==> #[trigger] entries[i].0@ != key {
            assert forall|i: int| 0 <= i < rest.len() implies #[trigger] rest[i].0@ != key by {
                assert(rest[i] == entries[i + 1]);
            }
            assert(entries[0].0@ != key);
        }
    }
}

/// The manager's configuration: the instance directory of each mod, and the
/// colour that goes with each icon.
#[derive(Debug)]
pub struct ConfigFile {
    pub instances: Vec<String>,
    pub icon_colors: Vec<(String, Color)>,
}

impl ConfigFile {
    /// What every configuration keeps: one colour per icon.
    pub open spec fn wf(&self) -> bool {
        unique_keys(self.icon_colors@)
    }

    /// A configuration that knows only the vanilla game.
    pub fn new(files: FileManager) -> (c: ConfigFile)
        ensures
            c.wf(),
            c.instances@.len() == 1,
            c.instances@[0]@ == files.vanilla_dir@,
            c.icon_colors@.len() == 0,
    {
        let mut instances: Vec<String> = Vec::new();
        instances.push(String::from_str(files.vanilla_dir));
        ConfigFile { instances, icon_colors: Vec::new() }
    }

    /// The colour stored for an icon, if any.
    pub fn get_color(&self, icon_path: &str) -> (c: Option<Color>)
        ensures
            c == color_lookup(self.icon_colors@, icon_path@),
            self.wf() ==> forall|i: int|
                0 <= i < self.icon_colors@.len() && #[trigger] self.icon_colors@[i].0@ == icon_path@
                    ==> c == Some(self.icon_colors@[i].1),
            (forall|i: int|
                0 <= i < self.icon_colors@.len() ==> #[trigger] self.icon_colors@[i].0@
                    != icon_path@) ==> c is None,
    {
        proof {
            lemma_lookup_unique(self.icon_colors@, icon_path@);
        }
        let n = self.icon_colors.len();
        let mut i: usize = 0;
        assert(self.icon_colors@.skip(0) =~= self.icon_colors@);
        while i < n
            invariant
                n == self.icon_colors@.len(),
                i <= n,
                color_lookup(self.icon_colors@, icon_path@) == color_lookup(
                    self.icon_colors@.skip(i as int),
                    icon_path@,
                ),
            decreases n - i,
        {
            assert(self.icon_colors@.skip(i as int).drop_first() =~= self.icon_colors@.skip(
                i + 1,
            ));
            if same_text(self.icon_colors[i].0.as_str(), icon_path) {
                return Some(self.icon_colors[i].1);
            }
            i = i + 1;
        }
        None
    }
}

impl ConfigFile {
    /// Whether no two colour entries share an icon.
    pub fn has_unique_colors(&self) -> (r: bool)
        ensures
            r == self.wf(),
    {
        let n = self.icon_colors.len();
        let mut j: usize = 0;
        while j < n
            invariant
                n == self.icon_colors@.len(),
                j <= n,
                forall|a: int, b: int|
                    0 <= a < b < j ==> #[trigger] self.icon_colors@[a].0@
                        != #[trigger] self.icon_colors@[b].0@,
            decreases n - j,
        {
            let mut i: usize = 0;
            while i < j
                invariant
                    n == self.icon_colors@.len(),
                    i <= j < n,
                    forall|a: int, b: int|
                        0 <= a < b < j ==> #[trigger] self.icon_colors@[a].0@
                            != #[trigger] self.icon_colors@[b].0@,
                    forall|a: int| 0 <= a < i ==> #[trigger] self.icon_colors@[a].0@
                        != self.icon_colors@[j as int].0@,
                decreases j - i,
            {
                if same_text(self.icon_colors[i].0.as_str(), self.icon_colors[j].0.as_str()) {
                    return false;
                }
                i = i + 1;
            }
            j = j + 1;
        }
        true
    }
}

impl Default for ConfigFile {
    fn default() -> (c: ConfigFile)
        ensures
            c.wf(),
            c.instances@.len() == 0,
            c.icon_colors@.len() == 0,
    {
        ConfigFile { instances: Vec::new(), icon_colors: Vec::new() }
    }
}

/// Where a dropped file leads to an executable.
#[derive(Debug)]
pub enum ExeLocation {
    /// The file is the executable.
    Executable(String),
    /// The file is a shortcut; the executable is its target.
    Shortcut(String),
    /// The file is an archive holding the executable.
    Archive(String),
}

/// What a dropped file with extension `ext` leads to.
pub open spec fn exe_location_matches(
    path: Seq<char>,
    ext: Option<Seq<char>>,
    r: Result<ExeLocation, Error>,
) -> bool {
    match ext {
        None => r matches Err(Error::NoExtension),
        Some(e) => if e == "exe"@ {
            r matches Ok(ExeLocation::Executable(p)) && p@ == path
        } else if e == "lnk"@ {
            r matches Ok(ExeLocation::Shortcut(p)) && p@ == path
        } else if e == "zip"@ {
            r matches Ok(ExeLocation::Archive(p)) && p@ == path
        } else {
            r matches Err(Error::UnrecognizedExtension(x)) && x@ == e
        },
    }
}

/// The extensions of the images that can serve as icons.
pub open spec fn allowed_image_type(e: Seq<char>) -> bool {
    e == "ico"@ || e == "png"@ || e == "jpg"@ || e == "jpeg"@
}

/// The extension of `p` where its text settles it.
pub open spec fn portable_extension(p: Seq<char>) -> Option<Seq<char>> {
    match simple_file_name(p) {
        Some(f) => name_extension(f),
        None => None,
    }
}

/// Whether a path's text settles its extension.
pub open spec fn settled(p: Seq<char>) -> bool {
    portable(p) && simple_file_name(p) is Some
}

/// The paths among `paths` whose extension is that of an image.
pub open spec fn image_selection(paths: Seq<Seq<char>>, exts: Seq<Option<Seq<char>>>) -> Seq<
    Seq<char>,
>
    decreases paths.len(),
{
    if paths.len() == 0 {
        Seq::empty()
    } else {
        let rest = image_selection(paths.drop_last(), exts.take(paths.len() - 1));
        if exts[paths.len() - 1] matches Some(e) && allowed_image_type(e) {
            rest.push(paths.last())
        } else {
            rest
        }
    }
}

/// Whether an extension, if any, is that of an image.
pub open spec fn is_image_ext(o: Option<Seq<char>>) -> bool {
    o matches Some(e) && allowed_image_type(e)
}

/// `r` lists `paths` at the increasing indices `idx`, which are exactly the
/// indices whose extension is that of an image.
pub open spec fn picks(
    paths: Seq<Seq<char>>,
    exts: Seq<Option<Seq<char>>>,
    r: Seq<Seq<char>>,
    idx: Seq<int>,
) -> bool {
    &&& idx.len() == r.len()
    &&& forall|k: int|
        0 <= k < idx.len() ==> 0 <= #[trigger] idx[k] < paths.len() && r[k] == paths[idx[k]]
            && is_image_ext(exts[idx[k]])
    &&& forall|k: int, l: int| 0 <= k < l < idx.len() ==> #[trigger] idx[k] < #[trigger] idx[l]
    &&& forall|i: int|
        0 <= i < paths.len() && is_image_ext(#[trigger] exts[i]) ==> exists|k: int|
            0 <= k < idx.len() && #[trigger] idx[k] == i
}

/// The image selection keeps every path whose extension is that of an
/// image, the last one included, and no other, in their order.
pub proof fn law_image_selection(paths: Seq<Seq<char>>, exts: Seq<Option<Seq<char>>>)
    requires
        paths.len() == exts.len(),
    ensures
        exists|idx: Seq<int>| picks(paths, exts, image_selection(paths, exts), idx),
    decreases paths.len(),
{
    let r = image_selection(paths, exts);
    if paths.len() == 0 {
        assert(picks(paths, exts, r, Seq::<int>::empty()));
    } else {
        let n = paths.len() - 1;
        let pp = paths.drop_last();
        let ee = exts.take(n);
        law_image_selection(pp, ee);
        let r0 = image_selection(pp, ee);
        let idx0 = choose|idx: Seq<int>| picks(pp, ee, r0, idx);
        assert(picks(pp, ee, r0, idx0));
        if is_image_ext(exts[n]) {
            let idx = idx0.push(n);
            assert(r == r0.push(paths[n]));
            assert forall|k: int| 0 <= k < idx.len() implies 0 <= #[trigger] idx[k] < paths.len()
                && r[k] == paths[idx[k]] && is_image_ext(exts[idx[k]]) by {
                if k < idx0.len() {
                    assert(idx[k] == idx0[k]);
                    assert(ee[idx0[k]] == exts[idx0[k]]);
                }
            }
            assert forall|k: int, l: int| 0 <= k < l < idx.len() implies #[trigger] idx[k]
                < #[trigger] idx[l] by {
                assert(idx[k] == idx0[k]);
                if l < idx0.len() {
                    assert(idx[l] == idx0[l]);
                }
            }
            assert forall|i: int| 0 <= i < paths.len() && is_image_ext(#[trigger] exts[i]) implies exists|
                k: int,
            | 0 <= k < idx.len() && #[trigger] idx[k] == i by {
                if i < n {
                    assert(ee[i] == exts[i]);
                    let k = choose|k: int| 0 <= k < idx0.len() && #[trigger] idx0[k] == i;
                    assert(idx[k] == idx0[k]);
                } else {
                    assert(idx[idx0.len() as int] == n);
                }
            }
            assert(picks(paths, exts, r, idx));
        } else {
            let idx = idx0;
            assert(r == r0);
            assert forall|k: int| 0 <= k < idx.len() implies 0 <= #[trigger] idx[k] < paths.len()
                && r[k] == paths[idx[k]] && is_image_ext(exts[idx[k]]) by {
                assert(ee[idx0[k]] == exts[idx0[k]]);
            }
            assert forall|i: int| 0 <= i < paths.len() && is_image_ext(#[trigger] exts[i]) implies exists|
                k: int,
            | 0 <= k < idx.len() && #[trigger] idx[k] == i by {
                assert(i < n);
                assert(ee[i] == exts[i]);
            }
            assert(picks(paths, exts, r, idx));
        }
    }
}

pub open spec fn views(v: Seq<String>) -> Seq<Seq<char>> {
    v.map_values(|s: String| s@)
}

pub open spec fn opt_views(v: Seq<Option<String>>) -> Seq<Option<Seq<char>>> {
    v.map_values(|o: Option<String>| opt_view(o))
}

/// No extension that names an image holds a `\\`.
pub proof fn lemma_image_types_plain()
    ensures
        !"ico"@.contains('\\') && !"png"@.contains('\\') && !"jpg"@.contains('\\')
            && !"jpeg"@.contains('\\'),
{
    reveal_strlit("ico");
    reveal_strlit("png");
    reveal_strlit("jpg");
    reveal_strlit("jpeg");
    assert(!"ico"@.contains('\\')) by {
        assert forall|i: int| 0 <= i < 3 implies "ico"@[i] != '\\' by {}
    }
    assert(!"png"@.contains('\\')) by {
        assert forall|i: int| 0 <= i < 3 implies "png"@[i] != '\\' by {}
    }
    assert(!"jpg"@.contains('\\')) by {
        assert forall|i: int| 0 <= i < 3 implies "jpg"@[i] != '\\' by {}
    }
    assert(!"jpeg"@.contains('\\')) by {
        assert forall|i: int| 0 <= i < 4 implies "jpeg"@[i] != '\\' by {}
    }
}

/// No extension that names an executable, a shortcut or an archive holds a
/// `\\`.
pub proof fn lemma_exe_types_plain()
    ensures
        !"exe"@.contains('\\') && !"lnk"@.contains('\\') && !"zip"@.contains('\\'),
{
    reveal_strlit("exe");
    reveal_strlit("lnk");
    reveal_strlit("zip");
    assert(!"exe"@.contains('\\')) by {
        assert forall|i: int| 0 <= i < 3 implies "exe"@[i] != '\\' by {}
    }
    assert(!"lnk"@.contains('\\')) by {
        assert forall|i: int| 0 <= i < 3 implies "lnk"@[i] != '\\' by {}
    }
    assert(!"zip"@.contains('\\')) by {
        assert forall|i: int| 0 <= i < 3 implies "zip"@[i] != '\\' by {}
    }
}

/// Whether an extension is that of an image that can serve as an icon.
pub fn is_allowed_image_type(ext: &str) -> (r: bool)
    ensures
        r == allowed_image_type(ext@),
{
    same_text(ext, "ico") || same_text(ext, "png") || same_text(ext, "jpg") || same_text(
        ext,
        "jpeg",
    )
}

/// Whether a path has the extension of an image that can serve as an icon.
pub fn has_image_extension(path: &str) -> (r: bool)
    ensures
        settled(path@) ==> r == (portable_extension(path@) matches Some(e) && allowed_image_type(
            e,
        )),
        named_file(path@) && name_extension(file_part(path@)) is Some ==> r == allowed_image_type(
            name_extension(file_part(path@))->0,
        ),
        named_file(path@) && !file_part(path@).contains('.') ==> !r,
{
    proof {
        lemma_image_types_plain();
    }
    match path_extension(path) {
        Some(e) => is_allowed_image_type(e.as_str()),
        None => false,
    }
}

/// The paths whose extension (given beside each) is that of an image, in
/// their order.
pub fn keep_images(paths: &Vec<String>, exts: &Vec<Option<String>>) -> (r: Vec<String>)
    requires
        paths@.len() == exts@.len(),
    ensures
        views(r@) == image_selection(views(paths@), opt_views(exts@)),
        exists|idx: Seq<int>| picks(views(paths@), opt_views(exts@), views(r@), idx),
{
    let mut r: Vec<String> = Vec::new();
    let mut i: usize = 0;
    while i < paths.len()
        invariant
            paths@.len() == exts@.len(),
            i <= paths@.len(),
            views(r@) == image_selection(
                views(paths@).take(i as int),
                opt_views(exts@).take(i as int),
            ),
        decreases paths@.len() - i,
    {
        let ghost before = r@;
        assert(views(paths@).take(i + 1).drop_last() =~= views(paths@).take(i as int));
        assert(opt_views(exts@).take(i + 1).take(i as int) =~= opt_views(exts@).take(i as int));
        let keep = match &exts[i] {
            Some(e) => is_allowed_image_type(e.as_str()),
            None => false,
        };
        if keep {
            r.push(paths[i].clone());
            assert(views(r@) =~= views(before).push(paths@[i as int]@));
        }
        i = i + 1;
    }
    assert(views(paths@).take(paths@.len() as int) =~= views(paths@));
    assert(opt_views(exts@).take(exts@.len() as int) =~= opt_views(exts@));
    proof {
        law_image_selection(views(paths@), opt_views(exts@));
    }
    r
}

/// Maps each path to its settled extension.
pub open spec fn portable_extensions(paths: Seq<Seq<char>>) -> Seq<Option<Seq<char>>> {
    paths.map_values(|p: Seq<char>| portable_extension(p))
}

/// The extension of each path, as `Path::extension` reads it.
pub fn extensions_of(paths: &Vec<String>) -> (r: Vec<Option<String>>)
    ensures
        r@.len() == paths@.len(),
        forall|i: int|
            0 <= i < paths@.len() && settled(#[trigger] paths@[i]@) ==> opt_view(r@[i])
                == portable_extension(paths@[i]@),
{
    let mut r: Vec<Option<String>> = Vec::new();
    let mut i: usize = 0;
    while i < paths.len()
        invariant
            i <= paths@.len(),
            r@.len() == i,
            forall|j: int|
                0 <= j < i && settled(#[trigger] paths@[j]@) ==> opt_view(r@[j])
                    == portable_extension(paths@[j]@),
        decreases paths@.len() - i,
    {
        r.push(path_extension(paths[i].as_str()));
        i = i + 1;
    }
    r
}

/// Whether the description file of the instance at `mod_path` is found by
/// joining parts that `Path::join` joins alike on every platform: a mod
/// directory that can be joined to, and a plain, non-empty instance path and
/// file name.
pub open spec fn config_joinable(files: FileManager, mod_path: Seq<char>) -> bool {
    &&& join_base(files.mod_dir@)
    &&& plain(mod_path)
    &&& mod_path.len() > 0
    &&& plain(files.instance_config@)
    &&& files.instance_config@.len() > 0
}

/// `r` is the description file of the instance at `mod_path`: the mod
/// directory, then `mod_path`, then the description file's name, each joined
/// as `Path::join` joins them.
pub open spec fn config_target(files: FileManager, mod_path: Seq<char>, r: Seq<char>) -> bool {
    exists|mid: Seq<char>|
        joined(files.mod_dir@, mod_path, mid) && joined(mid, files.instance_config@, r)
}

/// The addresses that can name the files the manager reads and writes.
#[derive(Debug, Clone, Copy)]
pub struct FileManager {
    pub icon_dir: &'static str,
    pub mod_dir: &'static str,
    pub vanilla_dir: &'static str,
    pub temp_dir: &'static str,
    pub main_config: &'static str,
    pub instance_config: &'static str,
}

impl Default for FileManager {
    fn default() -> (f: FileManager)
        ensures
            f.icon_dir@ == "./icons/"@,
            f.mod_dir@ == "./mods/"@,
            f.vanilla_dir@ == "./vanilla/"@,
            f.temp_dir@ == "./temp/"@,
            f.main_config@ == "./config.toml"@,
            f.instance_config@ == "./instance.toml"@,
    {
        FileManager::new()
    }
}

impl FileManager {
    /// The manager's directories and files, relative to where it runs.
    pub fn new() -> (f: FileManager)
        ensures
            f.icon_dir@ == "./icons/"@,
            f.mod_dir@ == "./mods/"@,
            f.vanilla_dir@ == "./vanilla/"@,
            f.temp_dir@ == "./temp/"@,
            f.main_config@ == "./config.toml"@,
            f.instance_config@ == "./instance.toml"@,
    {
        FileManager {
            icon_dir: "./icons/",
            mod_dir: "./mods/",
            vanilla_dir: "./vanilla/",
            temp_dir: "./temp/",
            main_config: "./config.toml",
            instance_config: "./instance.toml",
        }
    }

    /// The directory of a mod's instance inside the mod directory.
    pub fn instance_dir(&self, mod_path: &str) -> (r: String)
        ensures
            join_base(self.mod_dir@) && plain(mod_path@) && mod_path@.len() > 0 ==> joined(
                self.mod_dir@,
                mod_path@,
                r@,
            ),
    {
        path_join(self.mod_dir, mod_path)
    }

    /// The file that describes the instance of the mod at `mod_path`.
    pub fn instance_config_for(&self, mod_path: &str) -> (r: String)
        ensures
            config_joinable(*self, mod_path@) ==> config_target(*self, mod_path@, r@),
    {
        let dir = path_join(self.mod_dir, mod_path);
        proof {
            if config_joinable(*self, mod_path@) {
                lemma_joined_base(self.mod_dir@, mod_path@, dir@);
            }
        }
        path_join(dir.as_str(), self.instance_config)
    }

    /// The address under which an image file is shown.
    pub fn image_uri(path: &str) -> (r: String)
        ensures
            r@ == "file://"@ + path@,
    {
        concat_text("file://", path)
    }

    /// What the executable named by a dropped file with extension `extension`
    /// is: the file itself, a shortcut's target or an archive's content.
    pub fn exe_location(path: &str, extension: Option<String>) -> (r: Result<ExeLocation, Error>)
        ensures
            exe_location_matches(path@, opt_view(extension), r),
    {
        match extension {
            None => Err(Error::NoExtension),
            Some(e) => {
                if same_text(e.as_str(), "exe") {
                    Ok(ExeLocation::Executable(String::from_str(path)))
                } else if same_text(e.as_str(), "lnk") {
                    Ok(ExeLocation::Shortcut(String::from_str(path)))
                } else if same_text(e.as_str(), "zip") {
                    Ok(ExeLocation::Archive(String::from_str(path)))
                } else {
                    Err(Error::UnrecognizedExtension(e))
                }
            },
        }
    }

    /// Where the executable named by a dropped file is, decided by the file's
    /// extension.
    pub fn get_exe_path(path: &str) -> (r: Result<ExeLocation, Error>)
        ensures
            settled(path@) ==> exe_location_matches(path@, portable_extension(path@), r),
            !(r matches Err(Error::UnrecognizedExtension(x)) && (x@.contains('.') || x@.contains(
                '/',
            ))),
            named_file(path@) && name_extension(file_part(path@)) is Some ==> exe_location_matches(
                path@,
                name_extension(file_part(path@)),
                r,
            ),
            named_file(path@) && !file_part(path@).contains('.') ==> (r matches Err(
                Error::NoExtension,
            ) || (r matches Err(Error::UnrecognizedExtension(x)) && x@.contains('\\'))),
    {
        proof {
            lemma_exe_types_plain();
        }
        let ext = path_extension(path);
        Self::exe_location(path, ext)
    }

    /// The executable a shortcut leads to, given the target it names.
    pub fn exe_from_link_target(target: Option<String>) -> (r: Result<String, Error>)
        ensures
            match target {
                Some(t) => r matches Ok(p) && p@ == t@,
                None => r matches Err(Error::InvalidLink(LinkProblem::MissingLocation)),
            },
    {
        match target {
            Some(t) => Ok(t),
            None => Err(Error::InvalidLink(LinkProblem::MissingLocation)),
        }
    }

    /// Whether a directory listing is that of the game: it must hold both the
    /// data file and the executable.
    pub fn check_undertale_files(names: &Vec<String>) -> (r: Result<(), Error>)
        ensures
            !holds_text(names@, DATA_WIN@) ==> r matches Err(Error::DataWinNotFound),
            holds_text(names@, DATA_WIN@) && !holds_text(names@, UNDERTALE_EXE@) ==> r matches Err(
                Error::ExeNotFound,
            ),
            holds_text(names@, DATA_WIN@) && holds_text(names@, UNDERTALE_EXE@) ==> r is Ok,
    {
        if !contains_text(names, DATA_WIN) {
            return Err(Error::DataWinNotFound);
        }
        if !contains_text(names, UNDERTALE_EXE) {
            return Err(Error::ExeNotFound);
        }
        Ok(())
    }

    /// The entries of the icon directory that are images, in listing order.
    pub fn icon_paths(entries: &Vec<String>) -> (r: Vec<String>)
        ensures
            (forall|i: int| 0 <= i < entries@.len() ==> settled(#[trigger] entries@[i]@))
                ==> views(r@) == image_selection(
                views(entries@),
                portable_extensions(views(entries@)),
            ),
            (forall|i: int| 0 <= i < entries@.len() ==> settled(#[trigger] entries@[i]@))
                ==> exists|idx: Seq<int>|
                picks(
                    views(entries@),
                    portable_extensions(views(entries@)),
                    views(r@),
                    idx,
                ),
    {
        let exts = extensions_of(entries);
        let r = keep_images(entries, &exts);
        proof {
            if forall|i: int| 0 <= i < entries@.len() ==> settled(#[trigger] entries@[i]@) {
                assert(opt_views(exts@) =~= portable_extensions(views(entries@)));
                law_image_selection(views(entries@), portable_extensions(views(entries@)));
            }
        }
        r
    }
}

} // verus!
