//! Path text, as `std::path::Path` reads it.
//!
//! Paths are held as plain strings. The few operations that the logic needs
//! are made by `std::path`; which separators a platform accepts differs, so
//! each operation states only what holds on every platform, and only for
//! "portable" text: no `:`, no `\`, and at most one leading `/` (a root).
//! A few claims reach further, where both platforms agree: the file name
//! and extension of text whose last name holds no `:` (backslashes and
//! drives allowed), and drive paths `X:/…` written with `/`. What the
//! operations give back on other text (a share, a bare drive) is handed to
//! verified functions that take it as it comes.
use vstd::prelude::*;

verus! {

/// Index of the last occurrence of `c` in `s`, or -1.
pub open spec fn last_index_of(s: Seq<char>, c: char) -> int
    decreases s.len(),
{
    if s.len() == 0 {
        -1
    } else if s.last() == c {
        s.len() - 1
    } else {
        last_index_of(s.drop_last(), c)
    }
}

pub proof fn lemma_last_index_of(s: Seq<char>, c: char)
    ensures
        -1 <= last_index_of(s, c) < s.len(),
        last_index_of(s, c) >= 0 ==> s[last_index_of(s, c)] == c,
        forall|i: int| last_index_of(s, c) < i < s.len() ==> s[i] != c,
        last_index_of(s, c) == -1 <==> !s.contains(c),
    decreases s.len(),
{
    if s.len() > 0 {
        lemma_last_index_of(s.drop_last(), c);
        if s.last() != c {
            assert forall|i: int| last_index_of(s, c) < i < s.len() implies s[i] != c by {
                if i < s.len() - 1 {
                    assert(s[i] == s.drop_last()[i]);
                }
            }
            if last_index_of(s, c) == -1 {
                assert forall|i: int| 0 <= i < s.len() implies s[i] != c by {}
            } else {
                assert(s.drop_last()[last_index_of(s, c)] == c);
                assert(s[last_index_of(s, c)] == c);
            }
        }
    }
}

/// Text that every platform splits the same way: no drive or verbatim
/// prefix (`:`), no backslash, and not starting with two `/` (a network
/// share). It may be relative or start with one `/` (a root).
pub open spec fn portable(s: Seq<char>) -> bool {
    &&& !s.contains(':')
    &&& !s.contains('\\')
    &&& !(s.len() >= 2 && s[0] == '/' && s[1] == '/')
}

/// Whether a character separates components on some platform.
pub open spec fn is_sep(c: char) -> bool {
    c == '/' || c == '\\'
}

/// A directory that `Path::join` extends alike on every platform: not a bare
/// drive (`X:`), not ending in `\`, and not starting with two separators
/// (a share or a verbatim prefix).
pub open spec fn join_base(s: Seq<char>) -> bool {
    &&& !(s.len() > 0 && s.last() == '\\')
    &&& !(s.len() == 2 && s[1] == ':')
    &&& !(s.len() >= 2 && is_sep(s[0]) && is_sep(s[1]))
}

/// Text that `Path::join` treats alike on every platform: no prefix (`:`),
/// not rooted (no leading `/` or `\`), and not ending in `\`.
pub open spec fn plain(s: Seq<char>) -> bool {
    &&& !s.contains(':')
    &&& (s.len() == 0 || (s[0] != '/' && s[0] != '\\' && s.last() != '\\'))
}

/// The text after the last `/`.
pub open spec fn last_segment(s: Seq<char>) -> Seq<char> {
    s.subrange(last_index_of(s, '/') + 1, s.len() as int)
}

/// The text before the last `/` (empty when there is none).
pub open spec fn dir_part(s: Seq<char>) -> Seq<char> {
    if last_index_of(s, '/') < 0 {
        Seq::empty()
    } else {
        s.subrange(0, last_index_of(s, '/'))
    }
}

pub open spec fn is_dot(s: Seq<char>) -> bool {
    s == seq!['.']
}

pub open spec fn is_dot_dot(s: Seq<char>) -> bool {
    s == seq!['.', '.']
}

/// Every `/`-separated segment is non-empty and not `.` (a leading `/`, the
/// root, aside).
pub open spec fn segments_clean(s: Seq<char>) -> bool
    decreases s.len(),
{
    if last_index_of(s, '/') < 0 {
        s.len() > 0 && !is_dot(s)
    } else if last_index_of(s, '/') == 0 {
        last_segment(s).len() > 0 && !is_dot(last_segment(s))
    } else {
        proof {
            lemma_last_index_of(s, '/');
        }
        last_segment(s).len() > 0 && !is_dot(last_segment(s)) && segments_clean(dir_part(s))
    }
}

/// A segment that names a file or directory: non-empty, not `.` or `..`.
pub open spec fn normal_segment(seg: Seq<char>) -> bool {
    seg.len() > 0 && !is_dot(seg) && !is_dot_dot(seg)
}

/// Every `/`-separated segment names a file or directory (a leading `/`,
/// the root, aside).
pub open spec fn segments_normal(s: Seq<char>) -> bool
    decreases s.len(),
{
    if last_index_of(s, '/') < 0 {
        normal_segment(s)
    } else if last_index_of(s, '/') == 0 {
        normal_segment(last_segment(s))
    } else {
        proof {
            lemma_last_index_of(s, '/');
        }
        normal_segment(last_segment(s)) && segments_normal(dir_part(s))
    }
}

pub proof fn lemma_normal_is_clean(s: Seq<char>)
    requires
        segments_normal(s),
    ensures
        segments_clean(s),
    decreases s.len(),
{
    lemma_last_index_of(s, '/');
    if last_index_of(s, '/') > 0 {
        lemma_normal_is_clean(dir_part(s));
    }
}

/// Text with a `/` is its directory part, the last `/`, and its last segment.
pub proof fn lemma_split(s: Seq<char>)
    requires
        s.contains('/'),
    ensures
        s =~= dir_part(s) + seq!['/'] + last_segment(s),
        !last_segment(s).contains('/'),
        dir_part(s).len() == last_index_of(s, '/'),
        0 <= last_index_of(s, '/') < s.len(),
{
    lemma_last_index_of(s, '/');
    let k = last_index_of(s, '/');
    assert forall|i: int| 0 <= i < last_segment(s).len() implies last_segment(s)[i] != '/' by {
        assert(last_segment(s)[i] == s[k + 1 + i]);
    }
}

/// Text without `/` is all last segment.
pub proof fn lemma_no_sep(s: Seq<char>)
    requires
        !s.contains('/'),
    ensures
        last_segment(s) == s,
        dir_part(s) == Seq::<char>::empty(),
{
    lemma_last_index_of(s, '/');
    assert(last_segment(s) =~= s);
}

/// The last `/` of `x/y`, where `y` has none, is the one after `x`.
pub proof fn lemma_join_sep(x: Seq<char>, y: Seq<char>)
    requires
        !y.contains('/'),
    ensures
        last_index_of(x + seq!['/'] + y, '/') == x.len(),
        dir_part(x + seq!['/'] + y) == x,
        last_segment(x + seq!['/'] + y) == y,
{
    let s = x + seq!['/'] + y;
    lemma_last_index_of(s, '/');
    let k = last_index_of(s, '/');
    assert(s[x.len() as int] == '/');
    if k > x.len() {
        assert(y[k - x.len() - 1] == s[k]);
    }
    assert(dir_part(s) =~= x);
    assert(last_segment(s) =~= y);
}

/// Putting text without `/` in front of text with one moves its last `/`
/// along, and keeps its last segment.
pub proof fn lemma_prepend(pre: Seq<char>, t: Seq<char>)
    requires
        !pre.contains('/'),
        t.contains('/'),
    ensures
        last_index_of(pre + t, '/') == pre.len() + last_index_of(t, '/'),
        dir_part(pre + t) == pre + dir_part(t),
        last_segment(pre + t) == last_segment(t),
{
    let s = pre + t;
    lemma_last_index_of(t, '/');
    lemma_last_index_of(s, '/');
    let j = pre.len() + last_index_of(t, '/');
    assert(s[j] == '/');
    let k = last_index_of(s, '/');
    if k > j {
        assert(s[k] == t[k - pre.len()]);
    }
    if k < j {
        assert(s.contains('/')) by {
            assert(s[j] == '/');
        }
    }
    assert(k == j);
    assert(dir_part(s) =~= pre + dir_part(t));
    assert(last_segment(s) =~= last_segment(t));
}

/// A non-empty beginning of portable text is portable.
pub proof fn lemma_portable_prefix(s: Seq<char>, k: int)
    requires
        portable(s),
        0 < k <= s.len(),
    ensures
        portable(s.subrange(0, k)),
{
    let t = s.subrange(0, k);
    assert forall|i: int| 0 <= i < t.len() implies t[i] != ':' && t[i] != '\\' by {
        assert(t[i] == s[i]);
    }
}

/// An end of portable text that does not start with `/` is portable.
pub proof fn lemma_portable_suffix(s: Seq<char>, k: int)
    requires
        portable(s),
        0 <= k < s.len(),
        s[k] != '/',
    ensures
        portable(s.subrange(k, s.len() as int)),
{
    let t = s.subrange(k, s.len() as int);
    assert forall|i: int| 0 <= i < t.len() implies t[i] != ':' && t[i] != '\\' by {
        assert(t[i] == s[k + i]);
    }
}

/// Whether text starts with two separators: a share or a verbatim path on
/// Windows.
pub open spec fn two_seps(s: Seq<char>) -> bool {
    s.len() >= 2 && is_sep(s[0]) && is_sep(s[1])
}

/// Index just after the last separator of either kind.
pub open spec fn name_start(s: Seq<char>) -> int {
    let a = last_index_of(s, '/');
    let b = last_index_of(s, '\\');
    (if a > b {
        a
    } else {
        b
    }) + 1
}

/// The text after the last `/` or `\`: what Windows reads as the file name.
pub open spec fn file_part(s: Seq<char>) -> Seq<char> {
    s.subrange(name_start(s), s.len() as int)
}

/// Text that ends in a file name every platform reads from the same
/// characters: not a share or verbatim path, and its text after the last
/// separator is a name (not empty, `.` or `..`) without `:`.
pub open spec fn named_file(s: Seq<char>) -> bool {
    &&& !two_seps(s)
    &&& normal_segment(file_part(s))
    &&& !file_part(s).contains(':')
}

/// A path on a drive, `X:/…`, written with `/` only: Windows reads a drive
/// and a root, Unix a first directory named `X:`; after those both read the
/// same components.
pub open spec fn drive_text(s: Seq<char>) -> bool {
    &&& s.len() >= 3
    &&& !is_sep(s[0])
    &&& s[1] == ':'
    &&& s[2] == '/'
    &&& portable(s.skip(2))
}

/// The file part is the text after the last separator: it holds none, and
/// what precedes it is empty or ends in one.
pub proof fn law_file_part(s: Seq<char>)
    ensures
        0 <= name_start(s) <= s.len(),
        s == s.take(name_start(s)) + file_part(s),
        !file_part(s).contains('/') && !file_part(s).contains('\\'),
        name_start(s) == 0 || is_sep(s[name_start(s) - 1]),
{
    lemma_last_index_of(s, '/');
    lemma_last_index_of(s, '\\');
    let f = file_part(s);
    let k = name_start(s);
    assert forall|i: int| 0 <= i < f.len() implies f[i] != '/' && f[i] != '\\' by {
        assert(f[i] == s[k + i]);
    }
    assert(s =~= s.take(k) + f);
}

/// An extension is what follows the last `.` of a name that has something
/// before that `.`; a name has none exactly when no `.` stands past its
/// first character.
pub proof fn law_name_extension(f: Seq<char>)
    ensures
        name_extension(f) matches Some(e) ==> exists|stem: Seq<char>|
            stem.len() > 0 && f == stem + seq!['.'] + e && !e.contains('.'),
        name_extension(f) is None <==> (forall|i: int| 0 < i < f.len() ==> f[i] != '.'),
        name_extension(f) matches Some(e) ==> f == name_stem(f) + seq!['.'] + e && name_stem(
            f,
        ).len() > 0,
        name_extension(f) is None ==> name_stem(f) == f,
{
    lemma_last_index_of(f, '.');
    let i = last_index_of(f, '.');
    if i > 0 {
        let stem = f.subrange(0, i);
        let e = f.subrange(i + 1, f.len() as int);
        assert(f =~= stem + seq!['.'] + e);
        assert forall|j: int| 0 <= j < e.len() implies e[j] != '.' by {
            assert(e[j] == f[i + 1 + j]);
        }
    }
}

/// The file name of `s`, where the text alone settles it.
pub open spec fn simple_file_name(s: Seq<char>) -> Option<Seq<char>> {
    let seg = last_segment(s);
    if seg.len() > 0 && !is_dot(seg) && !is_dot_dot(seg) {
        Some(seg)
    } else {
        None
    }
}

/// Extension of a file name: after the last `.`, when something precedes it.
pub open spec fn name_extension(f: Seq<char>) -> Option<Seq<char>> {
    let i = last_index_of(f, '.');
    if i <= 0 {
        None
    } else {
        Some(f.subrange(i + 1, f.len() as int))
    }
}

/// Stem of a file name: before the last `.`, or the whole name.
pub open spec fn name_stem(f: Seq<char>) -> Seq<char> {
    let i = last_index_of(f, '.');
    if i <= 0 {
        f
    } else {
        f.subrange(0, i)
    }
}

/// The text before the last `/`: empty without a `/`, the root when the
/// only `/` leads.
pub open spec fn text_parent(s: Seq<char>) -> Seq<char> {
    if last_index_of(s, '/') < 0 {
        Seq::empty()
    } else if last_index_of(s, '/') == 0 {
        seq!['/']
    } else {
        dir_part(s)
    }
}

/// The parent of `s`, where the text alone settles it.
pub open spec fn simple_parent(s: Seq<char>) -> Option<Seq<char>> {
    if simple_file_name(s) is None {
        None
    } else if last_index_of(s, '/') <= 0 {
        Some(text_parent(s))
    } else {
        let d = dir_part(s);
        if last_segment(d).len() > 0 && !is_dot(last_segment(d)) {
            Some(d)
        } else {
            None
        }
    }
}

/// Component-wise prefix, for clean text.
pub open spec fn clean_starts_with(s: Seq<char>, base: Seq<char>) -> bool {
    s == base || (base + seq!['/']).is_prefix_of(s)
}

/// What `Path::strip_prefix` leaves, for clean text that starts with `base`.
pub open spec fn clean_strip(s: Seq<char>, base: Seq<char>) -> Seq<char> {
    if s == base {
        Seq::empty()
    } else {
        s.subrange(base.len() + 1int, s.len() as int)
    }
}

/// `part` appended to `base`, with one separator between unless `base` is
/// empty or already ends in `/`; the platform picks the separator.
pub open spec fn joined(base: Seq<char>, part: Seq<char>, r: Seq<char>) -> bool {
    if base.len() == 0 || base.last() == '/' {
        r == base + part
    } else {
        r == base + seq!['/'] + part || r == base + seq!['\\'] + part
    }
}

/// Joining a relative part to a directory gives a directory that can be
/// joined to again.
pub proof fn lemma_joined_base(base: Seq<char>, part: Seq<char>, r: Seq<char>)
    requires
        join_base(base),
        plain(part),
        part.len() > 0,
        joined(base, part, r),
    ensures
        join_base(r),
        r.len() > 0,
{
    assert(r.last() == part.last());
    if base.len() == 0 {
        assert(r =~= part);
    } else if base.len() == 1 {
        assert(r[0] == base[0]);
        assert(r.len() >= 2);
        if base[0] == '/' {
            assert(r =~= base + part);
            assert(r[1] == part[0]);
        } else {
            assert(!is_sep(r[0]));
        }
    } else {
        assert(r[0] == base[0]);
        assert(r[1] == base[1]);
    }
}

pub open spec fn opt_view(o: Option<String>) -> Option<Seq<char>> {
    match o {
        Some(s) => Some(s@),
        None => None,
    }
}

/// `std::path::Path::join`, read back as text. Claimed, for a directory
/// that is not a bare drive, does not end in `\` and does not start with two
/// separators, and a non-empty relative `part` without prefix: `part`
/// follows `base`, with one separator between unless `base` is empty or ends
/// in `/`. Which separator (`/` on Unix, `\` on Windows) is not settled here.
#[verifier::external_body]
pub fn path_join(base: &str, part: &str) -> (r: String)
    ensures
        join_base(base@) && plain(part@) && part@.len() > 0 ==> joined(base@, part@, r@),
{
    std::path::Path::new(base).join(part).to_string_lossy().into_owned()
}

/// `std::path::Path::extension`, read back as text. Claimed: an extension
/// holds no `.` and no `/`; for portable text whose file name the text
/// settles, it is the part of that name after the last `.`, when something
/// precedes that `.`. For other text that ends in a name (after its last `/`
/// or `\`) without `:`, and is no share or verbatim path: when that name has
/// a `.` past its first character, what follows its last `.` (Windows takes
/// the name after the last `\` or `/`, Unix after the last `/`, and the last
/// `.` lies in the shorter of the two); when the name holds no `.`, none, or
/// on Unix a text through a `\`.
#[verifier::external_body]
pub fn path_extension(path: &str) -> (r: Option<String>)
    ensures
        r matches Some(e) ==> !e@.contains('.') && !e@.contains('/'),
        portable(path@) ==> (simple_file_name(path@) matches Some(f) ==> opt_view(r)
            == name_extension(f)),
        named_file(path@) && name_extension(file_part(path@)) is Some ==> opt_view(r)
            == name_extension(file_part(path@)),
        named_file(path@) && !file_part(path@).contains('.') ==> (r matches Some(e)
            ==> e@.contains('\\')),
{
    match std::path::Path::new(path).extension() {
        Some(e) => Some(e.to_string_lossy().into_owned()),
        None => None,
    }
}

/// `std::path::Path::file_name`, read back as text. Claimed: for portable
/// text whose last segment is a plain name, that segment; none when the last
/// segment is `..`. Also, for text without `\` that is no share and ends in
/// a name without `:` (a drive such as `C:/` may lead), that last segment.
#[verifier::external_body]
pub fn path_file_name(path: &str) -> (r: Option<String>)
    ensures
        portable(path@) ==> (simple_file_name(path@) matches Some(f) ==> opt_view(r) == Some(
            f,
        )),
        portable(path@) && is_dot_dot(last_segment(path@)) ==> r is None,
        !path@.contains('\\') && named_file(path@) ==> opt_view(r) == Some(last_segment(path@)),
{
    match std::path::Path::new(path).file_name() {
        Some(n) => Some(n.to_string_lossy().into_owned()),
        None => None,
    }
}

/// `std::path::Path::file_stem`, read back as text. Claimed: for portable
/// text whose file name the text settles, the part of that name before the
/// last `.` (the whole name when no `.` has something before it); the same
/// for text without `\` that is no share and ends in a name without `:`.
#[verifier::external_body]
pub fn path_file_stem(path: &str) -> (r: Option<String>)
    ensures
        portable(path@) ==> (simple_file_name(path@) matches Some(f) ==> opt_view(r) == Some(
            name_stem(f),
        )),
        !path@.contains('\\') && named_file(path@) ==> opt_view(r) == Some(
            name_stem(last_segment(path@)),
        ),
{
    match std::path::Path::new(path).file_stem() {
        Some(n) => Some(n.to_string_lossy().into_owned()),
        None => None,
    }
}

/// `std::path::Path::parent`, read back as text. Claimed: none for the empty
/// path and for the root alone; the root for a file right under it; for
/// portable text
/// that ends in a plain name, the text before the last `/` (empty when there
/// is no `/`), where that text does not end in `/` or in a `.` segment. For
/// a drive path `X:/…` with `/` only, whose last `/` comes after the root and
/// whose last two segments are names, the text before the last `/` (the
/// drive alone, `X:` or `X:/`, is left unsaid: the platforms differ there).
#[verifier::external_body]
pub fn path_parent(path: &str) -> (r: Option<String>)
    ensures
        path@.len() == 0 ==> r is None,
        path@ == seq!['/'] ==> r is None,
        portable(path@) ==> (simple_parent(path@) matches Some(d) ==> opt_view(r) == Some(d)),
        drive_text(path@) && last_index_of(path@, '/') > 2 && normal_segment(last_segment(path@))
            && normal_segment(last_segment(dir_part(path@))) ==> opt_view(r) == Some(
            dir_part(path@),
        ),
{
    match std::path::Path::new(path).parent() {
        Some(p) => Some(p.to_string_lossy().into_owned()),
        None => None,
    }
}

/// `std::path::Path::strip_prefix`, read back as text. Claimed, for
/// portable, clean text: with an empty `base`, the whole path; with the
/// root as `base` and a rooted path, the path after its root; what follows
/// `base` and its separator when the path starts with `base` component-wise,
/// and nothing otherwise. For two drive paths `X:/…` with `/` only and clean
/// segments, where the path starts with `base` component-wise, what follows
/// `base` and its separator (Windows compares drive and root, Unix a first
/// directory `X:`; the rest is compared alike).
#[verifier::external_body]
pub fn path_strip_prefix(path: &str, base: &str) -> (r: Option<String>)
    ensures
        portable(path@) && segments_clean(path@) && base@.len() == 0 ==> opt_view(r) == Some(
            path@,
        ),
        portable(path@) && segments_clean(path@) && path@.len() > 0 && path@[0] == '/'
            && base@ == seq!['/'] ==> opt_view(r) == Some(path@.skip(1)),
        portable(path@) && portable(base@) && segments_clean(path@) && segments_clean(base@)
            ==> opt_view(r) == (if clean_starts_with(path@, base@) {
            Some(clean_strip(path@, base@))
        } else {
            None
        }),
        drive_text(path@) && drive_text(base@) && segments_clean(path@.skip(2)) && segments_clean(
            base@.skip(2),
        ) && clean_starts_with(path@, base@) ==> opt_view(r) == Some(clean_strip(path@, base@)),
{
    match std::path::Path::new(path).strip_prefix(base) {
        Ok(p) => Some(p.to_string_lossy().into_owned()),
        Err(_) => None,
    }
}

/// `std::path::Path::starts_with`. Claimed: for portable, clean text, whether
/// `base` equals the path or is followed in it by a `/`.
#[verifier::external_body]
pub fn path_starts_with(path: &str, base: &str) -> (r: bool)
    ensures
        portable(path@) && portable(base@) && segments_clean(path@) && segments_clean(base@)
            ==> r == clean_starts_with(path@, base@),
{
    std::path::Path::new(path).starts_with(base)
}

} // verus!
