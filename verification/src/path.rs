use vstd::prelude::*;

use crate::text::chars_of;

verus! {

/// A character that separates path components: `/` where `slash` is set, and `\` where
/// `backslash` is set.
pub open spec fn is_sep(c: char, slash: bool, backslash: bool) -> bool {
    (slash && c == '/') || (backslash && c == '\\')
}

pub open spec fn is_either_sep(c: char) -> bool {
    c == '/' || c == '\\'
}

pub open spec fn is_ascii_letter(c: char) -> bool {
    ('a' <= c && c <= 'z') || ('A' <= c && c <= 'Z')
}

/// The code of an ASCII letter in upper case.
pub open spec fn upper_code(c: char) -> u32 {
    if 'a' <= c && c <= 'z' {
        (c as u32 - 32) as u32
    } else {
        c as u32
    }
}

/// The index of the first separator at or after `i` (`/` counts where `slash` is set,
/// `\` always), or the length of `p` when there is none.
pub open spec fn seg_end(p: Seq<char>, i: int, slash: bool) -> int
    decreases p.len() - i,
{
    if i < 0 || i >= p.len() {
        p.len() as int
    } else if is_sep(p[i], slash, true) {
        i
    } else {
        seg_end(p, i + 1, slash)
    }
}

/// The start of the component after the one that ends at `end`.
pub open spec fn after_sep(p: Seq<char>, end: int) -> int {
    if end < p.len() {
        end + 1
    } else {
        end
    }
}

/// The prefix of a Windows path, as `std::path::Prefix` tells them apart: a drive (`C:`),
/// a UNC share (`\\server\share`), a device (`\\.\name`), and their verbatim forms
/// (`\\?\C:`, `\\?\UNC\server\share`, `\\?\name`). Drive letters are held in upper case.
pub enum PathPrefix {
    NoPrefix,
    Disk(u32),
    VerbatimDisk(u32),
    Verbatim(Seq<char>),
    VerbatimUNC(Seq<char>, Seq<char>),
    UNC(Seq<char>, Seq<char>),
    DeviceNS(Seq<char>),
}

/// Whether `p` starts with two separators, as every prefix but the drive does (a `/`
/// counts as `\` there).
pub open spec fn starts_double(p: Seq<char>) -> bool {
    p.len() >= 2 && is_either_sep(p[0]) && is_either_sep(p[1])
}

/// Whether `p` starts with `\\?\`, written with backslashes only.
pub open spec fn starts_verbatim(p: Seq<char>) -> bool {
    p.len() >= 4 && p[0] == '\\' && p[1] == '\\' && p[2] == '?' && p[3] == '\\'
}

/// Whether the verbatim prefix of `p` goes on with `UNC\` (or `UNC/`).
pub open spec fn starts_verbatim_unc(p: Seq<char>) -> bool {
    p.len() >= 8 && p[4] == 'U' && p[5] == 'N' && p[6] == 'C' && is_either_sep(p[7])
}

/// Whether `p` starts with `\\.\` (any separators).
pub open spec fn starts_device(p: Seq<char>) -> bool {
    p.len() >= 4 && p[2] == '.' && is_either_sep(p[3])
}

/// Whether `p` holds a drive `X:` at `i` that is followed by `\` or nothing.
pub open spec fn exact_drive_at(p: Seq<char>, i: int) -> bool {
    &&& p.len() >= i + 2
    &&& is_ascii_letter(p[i])
    &&& p[i + 1] == ':'
    &&& (p.len() == i + 2 || p[i + 2] == '\\')
}

/// The prefix of a Windows path and where it ends.
pub open spec fn windows_prefix(p: Seq<char>) -> (PathPrefix, int) {
    if starts_double(p) {
        if starts_verbatim(p) {
            if starts_verbatim_unc(p) {
                let s1 = seg_end(p, 8, false);
                let a2 = after_sep(p, s1);
                let s2 = seg_end(p, a2, false);
                let share = p.subrange(a2, s2);
                (
                    PathPrefix::VerbatimUNC(p.subrange(8, s1), share),
                    if share.len() > 0 {
                        s2
                    } else {
                        s1
                    },
                )
            } else if exact_drive_at(p, 4) {
                (PathPrefix::VerbatimDisk(upper_code(p[4])), 6)
            } else {
                let s = seg_end(p, 4, false);
                (PathPrefix::Verbatim(p.subrange(4, s)), s)
            }
        } else if starts_device(p) {
            let s = seg_end(p, 4, true);
            (PathPrefix::DeviceNS(p.subrange(4, s)), s)
        } else {
            let s1 = seg_end(p, 2, true);
            let a2 = after_sep(p, s1);
            let s2 = seg_end(p, a2, true);
            let server = p.subrange(2, s1);
            let share = p.subrange(a2, s2);
            if server.len() > 0 && share.len() > 0 {
                (PathPrefix::UNC(server, share), s2)
            } else {
                (PathPrefix::NoPrefix, 0)
            }
        }
    } else if p.len() >= 2 && is_ascii_letter(p[0]) && p[1] == ':' {
        (PathPrefix::Disk(upper_code(p[0])), 2)
    } else {
        (PathPrefix::NoPrefix, 0)
    }
}

pub open spec fn is_verbatim(prefix: PathPrefix) -> bool {
    prefix is Verbatim || prefix is VerbatimUNC || prefix is VerbatimDisk
}

/// Whether a component of text `part` is kept: empty components are dropped, and so is
/// `.` unless `keep_dots` is set.
pub open spec fn keep_part(part: Seq<char>, keep_dots: bool) -> bool {
    part.len() > 0 && (part != seq!['.'] || keep_dots)
}

pub open spec fn emit_part(part: Seq<char>, keep_dots: bool) -> Seq<Seq<char>> {
    if keep_part(part, keep_dots) {
        seq![part]
    } else {
        seq![]
    }
}

/// The kept components of `s`, which follow the partial component `cur`.
pub open spec fn parts_after(
    s: Seq<char>,
    cur: Seq<char>,
    slash: bool,
    backslash: bool,
    keep_dots: bool,
) -> Seq<Seq<char>>
    decreases s.len(),
{
    if s.len() == 0 {
        emit_part(cur, keep_dots)
    } else if is_sep(s[0], slash, backslash) {
        emit_part(cur, keep_dots) + parts_after(s.drop_first(), seq![], slash, backslash, keep_dots)
    } else {
        parts_after(s.drop_first(), cur.push(s[0]), slash, backslash, keep_dots)
    }
}

/// A path as `std::path::Path` compares it, component by component: its prefix, whether a
/// root directory follows it, whether it starts with the current directory `.`, and its
/// other components. Under Unix rules (`windows` unset) only `/` separates, and there is
/// no prefix. Under Windows rules `\` separates too, except that in a verbatim path only
/// `\` does; UNC and device prefixes imply a root. Empty components are dropped, and so
/// is `.` except in verbatim paths and as the leading component of a path with neither
/// prefix nor root; `..` is kept. Repeated and trailing separators make no difference.
pub struct PathKey {
    pub prefix: PathPrefix,
    pub root: bool,
    pub cur_dir: bool,
    pub components: Seq<Seq<char>>,
}

pub open spec fn path_key(p: Seq<char>, windows: bool) -> PathKey {
    let (prefix, e) = if windows {
        windows_prefix(p)
    } else {
        (PathPrefix::NoPrefix, 0)
    };
    let verbatim = is_verbatim(prefix);
    let physical_root = e < p.len() && is_sep(p[e], true, windows);
    let cur_dir = prefix is NoPrefix && !physical_root && e < p.len() && p[e] == '.' && (e + 1
        == p.len() || is_sep(p[e + 1], true, windows));
    let body_start = if physical_root || cur_dir {
        e + 1
    } else {
        e
    };
    PathKey {
        prefix,
        root: physical_root || prefix is UNC || prefix is DeviceNS,
        cur_dir,
        components: parts_after(
            p.subrange(body_start, p.len() as int),
            seq![],
            !verbatim,
            windows,
            verbatim,
        ),
    }
}

/// Two paths are the same path when their keys are equal.
pub open spec fn same_path(a: Seq<char>, b: Seq<char>, windows: bool) -> bool {
    path_key(a, windows) == path_key(b, windows)
}

fn sep_of(c: char, slash: bool, backslash: bool) -> (r: bool)
    ensures
        r == is_sep(c, slash, backslash),
{
    (slash && c == '/') || (backslash && c == '\\')
}

fn seg_end_of(v: &Vec<char>, from: usize, slash: bool) -> (r: usize)
    requires
        from <= v.len(),
    ensures
        r == seg_end(v@, from as int, slash),
        from <= r <= v.len(),
{
    let mut i = from;
    while i < v.len() && !sep_of(v[i], slash, true)
        invariant
            from <= i <= v.len(),
            seg_end(v@, from as int, slash) == seg_end(v@, i as int, slash),
        decreases v.len() - i,
    {
        i = i + 1;
    }
    i
}

fn upper_code_of(c: char) -> (r: u32)
    ensures
        r == upper_code(c),
{
    let code = c as u32;
    if 'a' <= c && c <= 'z' {
        code - 32
    } else {
        code
    }
}

fn slice_of(v: &Vec<char>, from: usize, to: usize) -> (r: Vec<char>)
    requires
        from <= to <= v.len(),
    ensures
        r@ == v@.subrange(from as int, to as int),
{
    let mut r: Vec<char> = Vec::new();
    let mut i = from;
    while i < to
        invariant
            from <= i <= to <= v.len(),
            r@ == v@.subrange(from as int, i as int),
        decreases to - i,
    {
        r.push(v[i]);
        assert(v@.subrange(from as int, i + 1) =~= v@.subrange(from as int, i as int).push(
            v@[i as int],
        ));
        i = i + 1;
    }
    r
}

enum ExecPrefix {
    NoPrefix,
    Disk(u32),
    VerbatimDisk(u32),
    Verbatim(Vec<char>),
    VerbatimUNC(Vec<char>, Vec<char>),
    UNC(Vec<char>, Vec<char>),
    DeviceNS(Vec<char>),
}

impl View for ExecPrefix {
    type V = PathPrefix;

    closed spec fn view(&self) -> PathPrefix {
        match self {
            ExecPrefix::NoPrefix => PathPrefix::NoPrefix,
            ExecPrefix::Disk(d) => PathPrefix::Disk(*d),
            ExecPrefix::VerbatimDisk(d) => PathPrefix::VerbatimDisk(*d),
            ExecPrefix::Verbatim(x) => PathPrefix::Verbatim(x@),
            ExecPrefix::VerbatimUNC(x, y) => PathPrefix::VerbatimUNC(x@, y@),
            ExecPrefix::UNC(x, y) => PathPrefix::UNC(x@, y@),
            ExecPrefix::DeviceNS(x) => PathPrefix::DeviceNS(x@),
        }
    }
}

fn is_letter(c: char) -> (r: bool)
    ensures
        r == is_ascii_letter(c),
{
    ('a' <= c && c <= 'z') || ('A' <= c && c <= 'Z')
}

fn is_either(c: char) -> (r: bool)
    ensures
        r == is_either_sep(c),
{
    c == '/' || c == '\\'
}

fn windows_prefix_of(v: &Vec<char>) -> (r: (ExecPrefix, usize))
    ensures
        r.0@ == windows_prefix(v@).0,
        r.1 == windows_prefix(v@).1,
        r.1 <= v.len(),
{
    let n = v.len();
    if n >= 2 && is_either(v[0]) && is_either(v[1]) {
        if n >= 4 && v[0] == '\\' && v[1] == '\\' && v[2] == '?' && v[3] == '\\' {
            if n >= 8 && v[4] == 'U' && v[5] == 'N' && v[6] == 'C' && is_either(v[7]) {
                let s1 = seg_end_of(v, 8, false);
                let a2 = if s1 < n {
                    s1 + 1
                } else {
                    s1
                };
                let s2 = seg_end_of(v, a2, false);
                let server = slice_of(v, 8, s1);
                let share = slice_of(v, a2, s2);
                let end = if share.len() > 0 {
                    s2
                } else {
                    s1
                };
                (ExecPrefix::VerbatimUNC(server, share), end)
            } else if n >= 6 && is_letter(v[4]) && v[5] == ':' && (n == 6 || v[6] == '\\') {
                (ExecPrefix::VerbatimDisk(upper_code_of(v[4])), 6)
            } else {
                let s = seg_end_of(v, 4, false);
                (ExecPrefix::Verbatim(slice_of(v, 4, s)), s)
            }
        } else if n >= 4 && v[2] == '.' && is_either(v[3]) {
            let s = seg_end_of(v, 4, true);
            (ExecPrefix::DeviceNS(slice_of(v, 4, s)), s)
        } else {
            let s1 = seg_end_of(v, 2, true);
            let a2 = if s1 < n {
                s1 + 1
            } else {
                s1
            };
            let s2 = seg_end_of(v, a2, true);
            let server = slice_of(v, 2, s1);
            let share = slice_of(v, a2, s2);
            if server.len() > 0 && share.len() > 0 {
                (ExecPrefix::UNC(server, share), s2)
            } else {
                (ExecPrefix::NoPrefix, 0)
            }
        }
    } else if n >= 2 && is_letter(v[0]) && v[1] == ':' {
        (ExecPrefix::Disk(upper_code_of(v[0])), 2)
    } else {
        (ExecPrefix::NoPrefix, 0)
    }
}

pub open spec fn texts_of_parts(v: Seq<Vec<char>>) -> Seq<Seq<char>> {
    v.map_values(|w: Vec<char>| w@)
}

fn kept(part: &Vec<char>, keep_dots: bool) -> (r: bool)
    ensures
        r == keep_part(part@, keep_dots),
{
    if part.len() == 0 {
        return false;
    }
    let is_dot = part.len() == 1 && part[0] == '.';
    proof {
        if part@.len() == 1 && part@[0] == '.' {
            assert(part@ =~= seq!['.']);
        }
    }
    !is_dot || keep_dots
}

/// The components of `v[from..]`, as [`path_key`] keeps them.
fn split_parts(v: &Vec<char>, from: usize, slash: bool, backslash: bool, keep_dots: bool) -> (r:
    Vec<Vec<char>>)
    requires
        from <= v.len(),
    ensures
        texts_of_parts(r@) == parts_after(
            v@.subrange(from as int, v@.len() as int),
            seq![],
            slash,
            backslash,
            keep_dots,
        ),
{
    let ghost all = v@.subrange(from as int, v@.len() as int);
    let mut out: Vec<Vec<char>> = Vec::new();
    let mut cur: Vec<char> = Vec::new();
    let mut i = from;
    assert(texts_of_parts(out@) =~= seq![]);
    assert(seq![] + parts_after(all, seq![], slash, backslash, keep_dots) =~= parts_after(
        all,
        seq![],
        slash,
        backslash,
        keep_dots,
    ));
    assert(v@.subrange(i as int, v@.len() as int) == all);
    assert(cur@ =~= seq![]);
    while i < v.len()
        invariant
            from <= i <= v.len(),
            all == v@.subrange(from as int, v@.len() as int),
            texts_of_parts(out@) + parts_after(
                v@.subrange(i as int, v@.len() as int),
                cur@,
                slash,
                backslash,
                keep_dots,
            ) == parts_after(all, seq![], slash, backslash, keep_dots),
        decreases v.len() - i,
    {
        let ghost rest = v@.subrange(i as int, v@.len() as int);
        assert(rest.drop_first() =~= v@.subrange(i + 1, v@.len() as int));
        assert(rest[0] == v@[i as int]);
        let c = v[i];
        if sep_of(c, slash, backslash) {
            let ghost before = texts_of_parts(out@);
            let ghost w = cur@;
            let ghost tail = parts_after(rest.drop_first(), seq![], slash, backslash, keep_dots);
            if kept(&cur, keep_dots) {
                proof {
                    assert(texts_of_parts(out@.push(cur)) =~= before.push(w));
                }
                out.push(cur);
                assert(before + (seq![w] + tail) =~= before.push(w) + tail);
            } else {
                assert(before + (seq![] + tail) =~= before + tail);
            }
            cur = Vec::new();
            assert(cur@ =~= seq![]);
        } else {
            cur.push(c);
        }
        i = i + 1;
    }
    assert(v@.subrange(i as int, v@.len() as int) =~= seq![]);
    if kept(&cur, keep_dots) {
        let ghost before = texts_of_parts(out@);
        let ghost w = cur@;
        proof {
            assert(texts_of_parts(out@.push(cur)) =~= before.push(w));
        }
        out.push(cur);
        assert(before + seq![w] =~= before.push(w));
    } else {
        assert(texts_of_parts(out@) + seq![] =~= texts_of_parts(out@));
    }
    out
}

struct PathParts {
    prefix: ExecPrefix,
    root: bool,
    cur_dir: bool,
    components: Vec<Vec<char>>,
}

fn path_parts(p: &str, windows: bool) -> (r: PathParts)
    ensures
        r.prefix@ == path_key(p@, windows).prefix,
        r.root == path_key(p@, windows).root,
        r.cur_dir == path_key(p@, windows).cur_dir,
        texts_of_parts(r.components@) == path_key(p@, windows).components,
{
    let v = chars_of(p);
    let (prefix, e) = if windows {
        windows_prefix_of(&v)
    } else {
        (ExecPrefix::NoPrefix, 0)
    };
    let verbatim = match &prefix {
        ExecPrefix::Verbatim(_) | ExecPrefix::VerbatimUNC(_, _) | ExecPrefix::VerbatimDisk(_) => true,
        _ => false,
    };
    let no_prefix = match &prefix {
        ExecPrefix::NoPrefix => true,
        _ => false,
    };
    let implied_root = match &prefix {
        ExecPrefix::UNC(_, _) | ExecPrefix::DeviceNS(_) => true,
        _ => false,
    };
    let physical_root = e < v.len() && sep_of(v[e], true, windows);
    let cur_dir = no_prefix && !physical_root && e < v.len() && v[e] == '.' && (e + 1 == v.len()
        || sep_of(v[e + 1], true, windows));
    let body_start = if physical_root || cur_dir {
        e + 1
    } else {
        e
    };
    let components = split_parts(&v, body_start, !verbatim, windows, verbatim);
    PathParts { prefix, root: physical_root || implied_root, cur_dir, components }
}

fn chars_eq(a: &Vec<char>, b: &Vec<char>) -> (r: bool)
    ensures
        r == (a@ == b@),
{
    if a.len() != b.len() {
        return false;
    }
    let mut i: usize = 0;
    while i < a.len()
        invariant
            a@.len() == b@.len(),
            i <= a@.len(),
            forall|j: int| 0 <= j < i ==> a@[j] == b@[j],
        decreases a@.len() - i,
    {
        if a[i] != b[i] {
            return false;
        }
        i = i + 1;
    }
    assert(a@ =~= b@);
    true
}

fn prefix_eq(a: &ExecPrefix, b: &ExecPrefix) -> (r: bool)
    ensures
        r == (a@ == b@),
{
    match (a, b) {
        (ExecPrefix::NoPrefix, ExecPrefix::NoPrefix) => true,
        (ExecPrefix::Disk(x), ExecPrefix::Disk(y)) => *x == *y,
        (ExecPrefix::VerbatimDisk(x), ExecPrefix::VerbatimDisk(y)) => *x == *y,
        (ExecPrefix::Verbatim(x), ExecPrefix::Verbatim(y)) => chars_eq(x, y),
        (ExecPrefix::VerbatimUNC(x1, x2), ExecPrefix::VerbatimUNC(y1, y2)) => chars_eq(x1, y1)
            && chars_eq(x2, y2),
        (ExecPrefix::UNC(x1, x2), ExecPrefix::UNC(y1, y2)) => chars_eq(x1, y1) && chars_eq(x2, y2),
        (ExecPrefix::DeviceNS(x), ExecPrefix::DeviceNS(y)) => chars_eq(x, y),
        _ => false,
    }
}

/// Whether `a` and `b` name the same path, as `std::path::Path` compares paths under Unix
/// rules (`windows` unset) or Windows rules.
pub fn same_path_of(a: &str, b: &str, windows: bool) -> (r: bool)
    ensures
        r == same_path(a@, b@, windows),
{
    let x = path_parts(a, windows);
    let y = path_parts(b, windows);
    if !prefix_eq(&x.prefix, &y.prefix) || x.root != y.root || x.cur_dir != y.cur_dir
        || x.components.len() != y.components.len() {
        proof {
            if x.components.len() != y.components.len() {
                assert(texts_of_parts(x.components@).len() != texts_of_parts(y.components@).len());
            }
        }
        return false;
    }
    let mut i: usize = 0;
    while i < x.components.len()
        invariant
            x.components@.len() == y.components@.len(),
            texts_of_parts(x.components@) == path_key(a@, windows).components,
            texts_of_parts(y.components@) == path_key(b@, windows).components,
            i <= x.components@.len(),
            forall|j: int| 0 <= j < i ==> x.components@[j]@ == y.components@[j]@,
        decreases x.components@.len() - i,
    {
        if !chars_eq(&x.components[i], &y.components[i]) {
            assert(texts_of_parts(x.components@)[i as int] != texts_of_parts(y.components@)[i as int]);
            return false;
        }
        i = i + 1;
    }
    assert(texts_of_parts(x.components@) =~= texts_of_parts(y.components@));
    true
}

} // verus!
