//! The programs the manager can start: the vanilla game and installed mods.
use vstd::prelude::*;

use crate::files::{config_joinable, config_target, Error, FileManager};
use crate::paths::{
    clean_starts_with, clean_strip, dir_part, is_dot_dot, join_base, joined, last_index_of,
    last_segment, lemma_join_sep, lemma_joined_base, lemma_last_index_of, lemma_no_sep,
    lemma_normal_is_clean, lemma_portable_prefix, lemma_portable_suffix, lemma_split, name_stem,
    normal_segment, path_file_name, path_file_stem, path_join, path_parent, path_starts_with,
    path_strip_prefix, plain, portable, segments_clean, segments_normal, simple_file_name,
    simple_parent, text_parent, drive_text, file_part, lemma_prepend, named_file,
};

verus! {

/// Whether a program stands alone or is a mod (and then whether it is
/// installed).
#[derive(Debug, Clone, Copy, PartialEq, Eq, Structural)]
pub enum ProgramVariant {
    Standalone,
    Mod(bool),
}

/// A program the manager lists: its shown name, its instance directory
/// (relative to the mod directory), its kind, its icon and its executable.
#[derive(Debug)]
pub struct Program {
    pub name: String,
    pub path: String,
    pub variant: ProgramVariant,
    pub image_path: Option<String>,
    pub exe_name: String,
}

/// A program as plain values.
pub struct ProgramView {
    pub name: Seq<char>,
    pub path: Seq<char>,
    pub variant: ProgramVariant,
    pub image_path: Option<Seq<char>>,
    pub exe_name: Seq<char>,
}

impl View for Program {
    type V = ProgramView;

    open spec fn view(&self) -> ProgramView {
        ProgramView {
            name: self.name@,
            path: self.path@,
            variant: self.variant,
            image_path: match self.image_path {
                Some(p) => Some(p@),
                None => None,
            },
            exe_name: self.exe_name@,
        }
    }
}

/// Where the vanilla game's instance lives, relative to the mod directory.
pub const VANILLA_PATH: &'static str = "../vanilla/Undertale";

/// The start shared by the instance paths of the vanilla game.
pub const VANILLA_PREFIX: &'static str = "../vanilla";

/// The vanilla game as a program.
pub open spec fn vanilla_view() -> ProgramView {
    ProgramView {
        name: "Undertale"@,
        path: VANILLA_PATH@,
        variant: ProgramVariant::Standalone,
        image_path: None,
        exe_name: "UNDERTALE.exe"@,
    }
}

impl Program {
    /// The vanilla game, whose instance is the copied game directory.
    pub fn vanilla() -> (p: Program)
        ensures
            p@ == vanilla_view(),
    {
        Program {
            name: String::from_str("Undertale"),
            path: String::from_str(VANILLA_PATH),
            variant: ProgramVariant::Standalone,
            image_path: None,
            exe_name: String::from_str("UNDERTALE.exe"),
        }
    }

    /// The program for a mod whose executable is at `exe_path`: named after
    /// the executable's stem, its instance directory the one the executable
    /// sits in (its path from two levels above the executable, less the
    /// executable). `None` when the path has no file name. Stated for
    /// relative or rooted paths with `/`, and for drive paths `C:/…` with at
    /// least two directories above the executable's own.
    pub fn from_exe_path(exe_path: &str) -> (r: Option<Result<Program, Error>>)
        ensures
            r matches Some(Ok(p)) ==> p.variant == ProgramVariant::Standalone && p.image_path is None,
            portable(exe_path@) && segments_normal(exe_path@) && dir_part(exe_path@).len() > 0 ==> (
            r matches Some(Ok(p)) && p@ == program_for_exe(exe_path@)),
            portable(exe_path@) && segments_normal(exe_path@) && dir_part(exe_path@).len() == 0
                ==> (r matches Some(Err(Error::NoParent))),
            portable(exe_path@) && is_dot_dot(last_segment(exe_path@)) ==> r is None,
            drive_exe(exe_path@) ==> (r matches Some(Ok(p)) && p@ == program_for_exe(exe_path@)),
    {
        proof {
            if drive_exe(exe_path@) {
                lemma_drive_file(exe_path@);
                lemma_drive_dirs(exe_path@);
                lemma_drive_strip(exe_path@);
            }
            if portable(exe_path@) && segments_normal(exe_path@) {
                lemma_normal_last(exe_path@);
                lemma_last_index_of(exe_path@, '/');
                if dir_part(exe_path@).len() > 0 {
                    lemma_exe_path_parts(exe_path@);
                } else if !exe_path@.contains('/') {
                    lemma_no_sep(exe_path@);
                }
            }
        }
        let exe_name = path_file_name(exe_path);
        let grandparent = match &exe_name {
            Some(_) => match path_parent(exe_path) {
                Some(parent) => path_parent(parent.as_str()),
                None => None,
            },
            None => None,
        };
        let relative = match &grandparent {
            Some(g) => path_strip_prefix(exe_path, g.as_str()),
            None => None,
        };
        let stem = match &relative {
            Some(_) => path_file_stem(exe_path),
            None => None,
        };
        let relative_parent = match &relative {
            Some(rel) => path_parent(rel.as_str()),
            None => None,
        };
        Self::from_exe_parts(exe_name, grandparent, relative, stem, relative_parent)
    }

    /// The program made from what `std::path` said of an executable's path:
    /// its file name, the directory two levels above it, its path from that
    /// directory, its stem, and the parent of that relative path. Each check
    /// fails in turn as the path lacks what it asks for.
    pub fn from_exe_parts(
        file_name: Option<String>,
        grandparent: Option<String>,
        relative: Option<String>,
        stem: Option<String>,
        relative_parent: Option<String>,
    ) -> (r: Option<Result<Program, Error>>)
        ensures
            match file_name {
                None => r is None,
                Some(n) => match grandparent {
                    None => r matches Some(Err(Error::NoParent)),
                    Some(_) => match relative {
                        None => r matches Some(Err(Error::StripPrefix)),
                        Some(_) => match relative_parent {
                            None => r matches Some(Err(Error::NoParent)),
                            Some(d) => r matches Some(Ok(p)) && p@ == (ProgramView {
                                name: match stem {
                                    Some(s) => s@,
                                    None => n@,
                                },
                                path: d@,
                                variant: ProgramVariant::Standalone,
                                image_path: None,
                                exe_name: n@,
                            }),
                        },
                    },
                },
            },
    {
        let exe_name = match file_name {
            Some(n) => n,
            None => return None,
        };
        if grandparent.is_none() {
            return Some(Err(Error::NoParent));
        }
        if relative.is_none() {
            return Some(Err(Error::StripPrefix));
        }
        let name = match stem {
            Some(s) => s,
            None => exe_name.clone(),
        };
        let dir = match relative_parent {
            Some(d) => d,
            None => return Some(Err(Error::NoParent)),
        };
        Some(
            Ok(
                Program {
                    name,
                    exe_name,
                    image_path: None,
                    path: dir,
                    variant: ProgramVariant::Standalone,
                },
            ),
        )
    }

    /// Where each program's description is written, in order: the
    /// description file inside the program's instance directory.
    pub fn save_all(programs: &Vec<Program>, paths: &FileManager) -> (targets: Vec<String>)
        ensures
            targets@.len() == programs@.len(),
            forall|i: int|
                0 <= i < programs@.len() && config_joinable(*paths, programs@[i].path@)
                    ==> config_target(*paths, programs@[i].path@, #[trigger] targets@[i]@),
    {
        let mut targets: Vec<String> = Vec::new();
        let mut i: usize = 0;
        while i < programs.len()
            invariant
                i <= programs@.len(),
                targets@.len() == i,
                forall|j: int|
                    0 <= j < i && config_joinable(*paths, programs@[j].path@) ==> config_target(
                        *paths,
                        programs@[j].path@,
                        #[trigger] targets@[j]@,
                    ),
            decreases programs@.len() - i,
        {
            targets.push(paths.instance_config_for(programs[i].path.as_str()));
            i = i + 1;
        }
        targets
    }

    /// A copy of this program.
    pub fn duplicate(&self) -> (p: Program)
        ensures
            p@ == self@,
    {
        Program {
            name: self.name.clone(),
            path: self.path.clone(),
            variant: self.variant,
            image_path: match &self.image_path {
                Some(i) => Some(i.clone()),
                None => None,
            },
            exe_name: self.exe_name.clone(),
        }
    }

    /// The executable of this program: its instance directory inside the mod
    /// directory, then its executable name.
    pub fn exe_path(&self, paths: FileManager) -> (r: String)
        ensures
            join_base(paths.mod_dir@) && plain(self.path@) && self.path@.len() > 0 && plain(
                self.exe_name@,
            ) && self.exe_name@.len() > 0 ==> exists|mid: Seq<char>|
                joined(paths.mod_dir@, self.path@, mid) && joined(mid, self.exe_name@, r@),
    {
        let dir = path_join(paths.mod_dir, self.path.as_str());
        proof {
            if join_base(paths.mod_dir@) && plain(self.path@) && self.path@.len() > 0 {
                lemma_joined_base(paths.mod_dir@, self.path@, dir@);
            }
        }
        path_join(dir.as_str(), self.exe_name.as_str())
    }

    /// Whether this program is the vanilla game: its instance path starts,
    /// component by component, with the vanilla directory.
    pub fn is_vanilla(&self) -> (r: bool)
        ensures
            portable(self.path@) && segments_clean(self.path@) ==> r == clean_starts_with(
                self.path@,
                VANILLA_PREFIX@,
            ),
    {
        proof {
            lemma_vanilla_prefix_clean();
        }
        path_starts_with(self.path.as_str(), VANILLA_PREFIX)
    }
}

/// The directory two levels above an executable, as its text gives it.
pub open spec fn exe_grandparent(p: Seq<char>) -> Seq<char> {
    text_parent(dir_part(p))
}

/// An executable's path from two levels above it.
pub open spec fn exe_relative(p: Seq<char>) -> Seq<char> {
    let g = exe_grandparent(p);
    if g.len() == 0 {
        p
    } else if g == seq!['/'] {
        p.skip(1)
    } else {
        clean_strip(p, g)
    }
}

/// The program made for a mod's executable at `p`: named after the
/// executable's stem, its instance directory the one the executable sits in.
pub open spec fn program_for_exe(p: Seq<char>) -> ProgramView {
    ProgramView {
        name: name_stem(last_segment(p)),
        path: last_segment(dir_part(p)),
        variant: ProgramVariant::Standalone,
        image_path: None,
        exe_name: last_segment(p),
    }
}

/// The program made for an executable is named after the executable's
/// stem, and its instance directory is the one segment that directly holds
/// the executable: the path is some start (empty or ending in `/`), that
/// directory, a `/` and the executable's name, neither holding a `/`.
pub proof fn law_program_for_exe(p: Seq<char>)
    requires
        dir_part(p).len() > 0,
    ensures
        ({
            let prog = program_for_exe(p);
            exists|start: Seq<char>|
                p == start + prog.path + seq!['/'] + prog.exe_name && (start.len() == 0
                    || start.last() == '/')
        }),
        !program_for_exe(p).path.contains('/'),
        !program_for_exe(p).exe_name.contains('/'),
        program_for_exe(p).name == name_stem(program_for_exe(p).exe_name),
        program_for_exe(p).variant == ProgramVariant::Standalone,
        program_for_exe(p).image_path is None,
{
    lemma_last_index_of(p, '/');
    let d = dir_part(p);
    let f = last_segment(p);
    assert(p.contains('/'));
    lemma_split(p);
    lemma_last_index_of(d, '/');
    let b = last_segment(d);
    if d.contains('/') {
        lemma_split(d);
        let start = dir_part(d) + seq!['/'];
        assert(p =~= start + b + seq!['/'] + f);
    } else {
        lemma_no_sep(d);
        let start = Seq::<char>::empty();
        assert(p =~= start + b + seq!['/'] + f);
    }
}

/// The facts about an executable's path that make its program.
pub proof fn lemma_exe_path_parts(p: Seq<char>)
    requires
        portable(p),
        segments_normal(p),
        dir_part(p).len() > 0,
    ensures
        simple_file_name(p) == Some(last_segment(p)),
        simple_parent(p) == Some(dir_part(p)),
        portable(dir_part(p)),
        simple_parent(dir_part(p)) == Some(exe_grandparent(p)),
        segments_clean(p),
        exe_grandparent(p) == seq!['/'] ==> p.len() > 0 && p[0] == '/',
        exe_grandparent(p).len() > 0 && exe_grandparent(p) != seq!['/'] ==> portable(
            exe_grandparent(p),
        ) && segments_clean(exe_grandparent(p)) && clean_starts_with(p, exe_grandparent(p)),
        portable(exe_relative(p)),
        simple_parent(exe_relative(p)) == Some(last_segment(dir_part(p))),
{
    lemma_last_index_of(p, '/');
    lemma_split(p);
    let d = dir_part(p);
    let f = last_segment(p);
    lemma_normal_last(p);
    assert(segments_normal(d));
    lemma_normal_last(d);
    assert(d =~= p.subrange(0, d.len() as int));
    lemma_portable_prefix(p, d.len() as int);
    lemma_normal_is_clean(p);
    lemma_last_index_of(d, '/');
    if last_index_of(d, '/') < 0 {
        lemma_no_sep(d);
        assert(simple_parent(d) == Some(Seq::<char>::empty()));
        lemma_join_sep(d, f);
        assert(simple_parent(p) == Some(d));
    } else {
        lemma_split(d);
        let g = dir_part(d);
        let b = last_segment(d);
        assert(p =~= g + seq!['/'] + (b + seq!['/'] + f));
        let q = b + seq!['/'] + f;
        assert(b.len() > 0 && b.contains(b[0]));
        lemma_join_sep(b, f);
        lemma_no_sep(b);
        assert(q.contains('/')) by {
            assert(q[b.len() as int] == '/');
        }
        assert(simple_parent(q) == Some(b));
        if last_index_of(d, '/') == 0 {
            assert(g.len() == 0);
            assert(exe_grandparent(p) == seq!['/']);
            assert(p[0] == '/');
            assert(p[1] == b[0]);
            assert(p.skip(1) =~= q);
            lemma_portable_suffix(p, 1);
        } else {
            assert(segments_normal(g));
            lemma_normal_last(g);
            assert(g.len() > 0);
            assert(g != seq!['/']) by {
                if g =~= seq!['/'] {
                    assert(last_index_of(g, '/') == 0);
                    assert(last_segment(g).len() == 0);
                }
            }
            assert(g =~= d.subrange(0, g.len() as int));
            lemma_portable_prefix(d, g.len() as int);
            lemma_normal_is_clean(g);
            assert(simple_parent(d) == Some(g));
            assert((g + seq!['/']).is_prefix_of(p));
            assert(clean_strip(p, g) =~= q);
            assert(q =~= p.subrange(g.len() + 1int, p.len() as int));
            assert(p[g.len() + 1int] == b[0]);
            lemma_portable_suffix(p, g.len() + 1int);
        }
    }
}

/// An executable on a drive, `X:/…/dir/name`, written with `/` only, with
/// at least two directories between the root and the file, all named.
pub open spec fn drive_exe(p: Seq<char>) -> bool {
    &&& drive_text(p)
    &&& segments_normal(p.skip(2))
    &&& last_index_of(dir_part(p.skip(2)), '/') > 0
}

/// An executable's path on a drive is the drive, then its directories, its
/// directory and its file, each layer read past the drive.
pub proof fn lemma_drive_layers(p: Seq<char>)
    requires
        drive_exe(p),
    ensures
        p == p.take(2) + p.skip(2),
        !p.take(2).contains('/'),
        !p.take(2).contains('\\'),
        dir_part(p) == p.take(2) + dir_part(p.skip(2)),
        dir_part(dir_part(p)) == p.take(2) + dir_part(dir_part(p.skip(2))),
        last_segment(p) == last_segment(p.skip(2)),
        last_segment(dir_part(p)) == last_segment(dir_part(p.skip(2))),
        last_segment(dir_part(dir_part(p))) == last_segment(dir_part(dir_part(p.skip(2)))),
        last_index_of(p, '/') == 2 + last_index_of(p.skip(2), '/'),
        last_index_of(dir_part(p), '/') == 2 + last_index_of(dir_part(p.skip(2)), '/'),
        last_index_of(p.skip(2), '/') > 0,
        segments_normal(dir_part(p.skip(2))),
        segments_normal(dir_part(dir_part(p.skip(2)))),
        dir_part(dir_part(p.skip(2))).len() > 0,
        dir_part(dir_part(p.skip(2)))[0] == '/',
        p.skip(2) == dir_part(p.skip(2)) + seq!['/'] + last_segment(p.skip(2)),
        dir_part(p.skip(2)) == dir_part(dir_part(p.skip(2))) + seq!['/'] + last_segment(
            dir_part(p.skip(2)),
        ),
        !last_segment(dir_part(p.skip(2))).contains('/'),
{
    let pre = p.take(2);
    let t = p.skip(2);
    assert(p =~= pre + t);
    assert(!pre.contains('/')) by {
        assert forall|i: int| 0 <= i < 2 implies pre[i] != '/' by {}
    }
    assert(!pre.contains('\\')) by {
        assert forall|i: int| 0 <= i < 2 implies pre[i] != '\\' by {}
    }
    let dt = dir_part(t);
    lemma_last_index_of(t, '/');
    lemma_last_index_of(dt, '/');
    assert(t.contains('/')) by {
        assert(dt.len() > 0);
    }
    lemma_split(t);
    lemma_prepend(pre, t);
    assert(segments_normal(dt));
    assert(dt.contains('/'));
    lemma_split(dt);
    lemma_prepend(pre, dt);
    let gt = dir_part(dt);
    assert(segments_normal(gt));
    assert(gt[0] == '/') by {
        assert(gt[0] == dt[0] && dt[0] == t[0] && t[0] == p[2]);
    }
    assert(gt.contains('/'));
    lemma_prepend(pre, gt);
}

/// The file name of an executable on a drive is its last segment, a name
/// without `\\` or `:`.
pub proof fn lemma_drive_file(p: Seq<char>)
    requires
        drive_exe(p),
    ensures
        !p.contains('\\') && named_file(p),
        normal_segment(last_segment(p)),
{
    lemma_drive_layers(p);
    let t = p.skip(2);
    lemma_normal_last(t);
    lemma_last_index_of(t, '/');
    let f = last_segment(t);
    assert(!p.contains('\\')) by {
        assert forall|i: int| 0 <= i < p.len() implies p[i] != '\\' by {
            if i >= 2 {
                assert(p[i] == t[i - 2]);
            }
        }
    }
    lemma_last_index_of(p, '\\');
    lemma_last_index_of(p, '/');
    assert(file_part(p) =~= last_segment(p));
    assert(!f.contains(':')) by {
        assert forall|i: int| 0 <= i < f.len() implies f[i] != ':' by {
            assert(f[i] == t[last_index_of(t, '/') + 1 + i]);
        }
    }
}

/// The parent and grandparent of an executable on a drive are drive paths
/// whose last segments are names.
pub proof fn lemma_drive_dirs(p: Seq<char>)
    requires
        drive_exe(p),
    ensures
        last_index_of(p, '/') > 2,
        normal_segment(last_segment(dir_part(p))),
        drive_text(dir_part(p)),
        last_index_of(dir_part(p), '/') > 2,
        normal_segment(last_segment(dir_part(dir_part(p)))),
        drive_text(dir_part(dir_part(p))),
        segments_clean(p.skip(2)),
        segments_clean(dir_part(dir_part(p)).skip(2)),
{
    lemma_drive_layers(p);
    let pre = p.take(2);
    let t = p.skip(2);
    let dt = dir_part(t);
    let gt = dir_part(dt);
    lemma_normal_last(dt);
    lemma_normal_last(gt);
    lemma_last_index_of(t, '/');
    lemma_last_index_of(dt, '/');
    assert(dt =~= t.subrange(0, dt.len() as int));
    lemma_portable_prefix(t, dt.len() as int);
    assert(gt =~= dt.subrange(0, gt.len() as int));
    lemma_portable_prefix(dt, gt.len() as int);
    let d = dir_part(p);
    let g = dir_part(d);
    assert(d.skip(2) =~= dt);
    assert(g.skip(2) =~= gt);
    assert(d[2] == '/');
    assert(g[2] == '/');
    lemma_normal_is_clean(t);
    lemma_normal_is_clean(gt);
}

/// Less its grandparent, an executable on a drive is its directory and its
/// file, whose parent is that directory.
pub proof fn lemma_drive_strip(p: Seq<char>)
    requires
        drive_exe(p),
    ensures
        clean_starts_with(p, dir_part(dir_part(p))),
        portable(clean_strip(p, dir_part(dir_part(p)))),
        simple_parent(clean_strip(p, dir_part(dir_part(p)))) == Some(last_segment(dir_part(p))),
{
    lemma_drive_layers(p);
    let pre = p.take(2);
    let t = p.skip(2);
    let dt = dir_part(t);
    let gt = dir_part(dt);
    let g = dir_part(dir_part(p));
    let b = last_segment(dt);
    let f = last_segment(t);
    lemma_normal_last(t);
    lemma_normal_last(dt);
    lemma_split(t);
    assert(t =~= gt + seq!['/'] + (b + seq!['/'] + f));
    lemma_strip_layers(pre, gt, b, f);
    let q = b + seq!['/'] + f;
    assert(q =~= t.subrange(gt.len() + 1int, t.len() as int));
    assert(t[gt.len() + 1int] == b[0]);
    lemma_portable_suffix(t, gt.len() + 1int);
    lemma_dir_file_parent(b, f);
}

/// `pre + g + /b/f` starts, component-wise, with `pre + g` and leaves `b/f`.
pub proof fn lemma_strip_layers(pre: Seq<char>, g: Seq<char>, b: Seq<char>, f: Seq<char>)
    ensures
        clean_starts_with(pre + (g + seq!['/'] + (b + seq!['/'] + f)), pre + g),
        clean_strip(pre + (g + seq!['/'] + (b + seq!['/'] + f)), pre + g) == b + seq!['/'] + f,
{
    let p = pre + (g + seq!['/'] + (b + seq!['/'] + f));
    let base = pre + g;
    assert(p =~= base + seq!['/'] + (b + seq!['/'] + f));
    assert((base + seq!['/']).is_prefix_of(p));
    assert(p != base) by {
        assert(p.len() > base.len());
    }
    assert(p.subrange(base.len() + 1int, p.len() as int) =~= b + seq!['/'] + f);
}

/// The parent of `b/f`, two names, is `b`.
pub proof fn lemma_dir_file_parent(b: Seq<char>, f: Seq<char>)
    requires
        normal_segment(b),
        normal_segment(f),
        !b.contains('/'),
        !f.contains('/'),
    ensures
        simple_parent(b + seq!['/'] + f) == Some(b),
{
    let q = b + seq!['/'] + f;
    lemma_join_sep(b, f);
    lemma_no_sep(b);
    assert(b.contains(b[0]));
    lemma_last_index_of(b, '/');
}

/// The last segment of text whose segments are all names is a name, and is
/// its file name.
pub proof fn lemma_normal_last(s: Seq<char>)
    requires
        segments_normal(s),
    ensures
        normal_segment(last_segment(s)),
        simple_file_name(s) == Some(last_segment(s)),
{
    lemma_last_index_of(s, '/');
    if last_index_of(s, '/') < 0 {
        lemma_no_sep(s);
    }
}

/// The vanilla prefix is portable and clean.
pub proof fn lemma_vanilla_prefix_clean()
    ensures
        portable(VANILLA_PREFIX@),
        segments_clean(VANILLA_PREFIX@),
{
    reveal_strlit("../vanilla");
    reveal_with_fuel(crate::paths::last_index_of, 12);
    let s = VANILLA_PREFIX@;
    assert(s.len() == 10);
    assert(!s.contains(':')) by {
        assert forall|i: int| 0 <= i < s.len() implies s[i] != ':' by {}
    }
    assert(!s.contains('\\')) by {
        assert forall|i: int| 0 <= i < s.len() implies s[i] != '\\' by {}
    }
    assert(crate::paths::last_index_of(s, '/') == 2);
    let d = s.subrange(0, 2);
    assert(crate::paths::last_index_of(d, '/') == -1);
    assert(crate::paths::last_segment(s) =~= s.subrange(3, 10));
    assert(crate::paths::dir_part(s) =~= d);
    assert(!crate::paths::is_dot(d)) by {
        assert(d.len() == 2);
    }
    assert(!crate::paths::is_dot(crate::paths::last_segment(s))) by {
        assert(crate::paths::last_segment(s).len() == 7);
    }
    reveal_with_fuel(crate::paths::segments_clean, 3);
    assert(segments_clean(d));
}

/// The vanilla game's instance path shows it to be the vanilla game, on
/// every platform.
pub proof fn law_vanilla_is_vanilla()
    ensures
        portable(vanilla_view().path),
        segments_clean(vanilla_view().path),
        clean_starts_with(vanilla_view().path, VANILLA_PREFIX@),
{
    reveal_strlit("../vanilla/Undertale");
    reveal_strlit("../vanilla");
    reveal_with_fuel(crate::paths::last_index_of, 22);
    let s = VANILLA_PATH@;
    assert(s.len() == 20);
    assert(!s.contains(':')) by {
        assert forall|i: int| 0 <= i < s.len() implies s[i] != ':' by {}
    }
    assert(!s.contains('\\')) by {
        assert forall|i: int| 0 <= i < s.len() implies s[i] != '\\' by {}
    }
    assert(crate::paths::last_index_of(s, '/') == 10);
    let d = s.subrange(0, 10);
    assert(crate::paths::dir_part(s) =~= d);
    assert(crate::paths::last_segment(s) =~= s.subrange(11, 20));
    assert(!crate::paths::is_dot(crate::paths::last_segment(s))) by {
        assert(crate::paths::last_segment(s).len() == 9);
    }
    assert(d =~= VANILLA_PREFIX@);
    lemma_vanilla_prefix_clean();
    reveal_with_fuel(crate::paths::segments_clean, 2);
    assert((VANILLA_PREFIX@ + seq!['/']).is_prefix_of(s)) by {
        assert forall|i: int| 0 <= i < 11 implies (VANILLA_PREFIX@ + seq!['/'])[i] == s[i] by {}
    }
}

/// A tile of the program grid: a program and whether it is selected.
pub struct ProgramWidget<'a> {
    program: &'a Program,
    selected: bool,
}

impl<'a> ProgramWidget<'a> {
    pub fn new(program: &'a Program, selected: bool) -> (w: ProgramWidget<'a>)
        ensures
            w.shown() == *program,
            w.is_selected() == selected,
    {
        ProgramWidget { program, selected }
    }

    pub closed spec fn shown(self) -> Program {
        *self.program
    }

    pub closed spec fn is_selected(self) -> bool {
        self.selected
    }

    pub fn program(&self) -> (p: &'a Program)
        ensures
            *p == self.shown(),
    {
        self.program
    }

    pub fn selected(&self) -> (s: bool)
        ensures
            s == self.is_selected(),
    {
        self.selected
    }
}

} // verus!
