//! Path syntax, as `std::path::Path` reads it.
//!
//! A path is text; what the safety rules compare is its *components*: `/a//b/./c/` and `/a/b/c`
//! are the same path, and `/a/bc` does not start with `/a/b`. This module turns text into that
//! component form and answers the questions the rest of the library asks of it.
//!
//! A path that begins with a drive (`C:`) or with two backslashes (`\\server\share`) is read
//! the way Windows reads it: after that prefix both `\` and `/` separate components, the drive
//! letter is compared without regard to case, and `C:\x` is absolute while `C:x` is not. Any
//! other path is read the way Unix reads it: `/` is the only separator and a path is absolute
//! when it begins with `/`. A Unix path never begins with a drive or two backslashes unless it
//! is relative, so the two readings never meet: a path in one form is never equal to, nor
//! inside, a path in the other. Of a network path the server and share are read as its first
//! two components. The one text read differently from Unix is a relative path that begins with
//! a letter and `:` followed by a separator (`C:/x`): Unix reads it as relative, this module as
//! a Windows path with a drive; no protected path or allowed root on Unix is of that form, so
//! such a path is never found inside one.

use vstd::prelude::*;

use crate::text::{chars_of, push_char, string_from, string_of_range, to_upper_char, upper_char};

verus! {

/// The component form of a path.
pub struct PathView {
    /// The Windows prefix: a drive letter in upper case and `:`, or the two backslashes of a
    /// network path; empty for a Unix path.
    pub prefix: Seq<char>,
    /// Begins at the filesystem root.
    pub absolute: bool,
    /// Begins with a `.` component (only ever kept at the start of a relative path).
    pub cur_dir: bool,
    /// The remaining components, none of them empty or `.`.
    pub parts: Seq<Seq<char>>,
}

/// A segment that becomes a component: not empty and not `.`.
pub open spec fn keeps(seg: Seq<char>) -> bool {
    seg.len() > 0 && seg != seq!['.']
}

pub open spec fn flush(done: Seq<Seq<char>>, seg: Seq<char>) -> Seq<Seq<char>> {
    if keeps(seg) {
        done.push(seg)
    } else {
        done
    }
}

pub open spec fn is_ascii_letter(c: char) -> bool {
    ('a' <= c && c <= 'z') || ('A' <= c && c <= 'Z')
}

/// Begins with a drive: a letter and `:`.
pub open spec fn has_drive(s: Seq<char>) -> bool {
    s.len() >= 2 && is_ascii_letter(s[0]) && s[1] == ':'
}

/// Begins with the two backslashes of a network path.
pub open spec fn has_unc(s: Seq<char>) -> bool {
    s.len() >= 2 && s[0] == '\\' && s[1] == '\\'
}

/// Read the way Windows reads a path.
pub open spec fn windows_form(s: Seq<char>) -> bool {
    has_drive(s) || has_unc(s)
}

/// Where the components begin: after the two characters of a Windows prefix.
pub open spec fn body_start(s: Seq<char>) -> int {
    if windows_form(s) {
        2
    } else {
        0
    }
}

pub open spec fn body(s: Seq<char>) -> Seq<char> {
    s.subrange(body_start(s), s.len() as int)
}

/// Whether `c` separates components: `/` always, and `\` in a Windows path.
pub open spec fn is_sep(c: char, windows: bool) -> bool {
    c == '/' || (windows && c == '\\')
}

pub open spec fn prefix_of(s: Seq<char>) -> Seq<char> {
    if has_drive(s) {
        seq![upper_char(s[0]), ':']
    } else if has_unc(s) {
        seq!['\\', '\\']
    } else {
        Seq::empty()
    }
}

/// Reading `s` left to right: the components finished so far and the segment in progress.
pub open spec fn scan(s: Seq<char>, windows: bool) -> (Seq<Seq<char>>, Seq<char>)
    decreases s.len(),
{
    if s.len() == 0 {
        (Seq::empty(), Seq::empty())
    } else {
        let (done, cur) = scan(s.drop_last(), windows);
        if is_sep(s.last(), windows) {
            (flush(done, cur), Seq::empty())
        } else {
            (done, cur.push(s.last()))
        }
    }
}

pub open spec fn parts_of(s: Seq<char>) -> Seq<Seq<char>> {
    let b = body(s);
    let w = windows_form(s);
    flush(scan(b, w).0, scan(b, w).1)
}

pub open spec fn is_absolute(s: Seq<char>) -> bool {
    if has_drive(s) {
        s.len() > 2 && is_sep(s[2], true)
    } else if has_unc(s) {
        true
    } else {
        s.len() > 0 && s[0] == '/'
    }
}

pub open spec fn has_cur_dir(s: Seq<char>) -> bool {
    !is_absolute(s) && s.len() > 0 && s[0] == '.' && (s.len() == 1 || s[1] == '/')
}

pub open spec fn path_view(s: Seq<char>) -> PathView {
    PathView { prefix: prefix_of(s), absolute: is_absolute(s), cur_dir: has_cur_dir(s), parts: parts_of(s) }
}

/// `Path::starts_with`: `base`'s components are a prefix of `p`'s.
pub open spec fn view_starts_with(p: PathView, base: PathView) -> bool {
    &&& p.prefix == base.prefix
    &&& p.absolute == base.absolute
    &&& p.cur_dir == base.cur_dir
    &&& base.parts.len() <= p.parts.len()
    &&& p.parts.subrange(0, base.parts.len() as int) == base.parts
}

/// `Path` equality: same components.
pub open spec fn view_eq(p: PathView, q: PathView) -> bool {
    p.prefix == q.prefix && p.absolute == q.absolute && p.cur_dir == q.cur_dir && p.parts == q.parts
}

pub open spec fn starts_with_spec(p: Seq<char>, base: Seq<char>) -> bool {
    view_starts_with(path_view(p), path_view(base))
}

pub open spec fn same_path(p: Seq<char>, q: Seq<char>) -> bool {
    view_eq(path_view(p), path_view(q))
}

/// `Path::parent`, as components: everything but the last one; `None` when nothing is left
/// to drop.
pub open spec fn parent_view(p: PathView) -> Option<PathView> {
    if p.parts.len() > 0 {
        Some(PathView { parts: p.parts.drop_last(), ..p })
    } else if p.cur_dir {
        Some(PathView { prefix: Seq::empty(), absolute: false, cur_dir: false, parts: Seq::empty() })
    } else {
        None
    }
}

/// `Path::file_name`: the last component, unless it is `..`.
pub open spec fn file_name_spec(s: Seq<char>) -> Option<Seq<char>> {
    let parts = parts_of(s);
    if parts.len() > 0 && parts.last() != seq!['.', '.'] {
        Some(parts.last())
    } else {
        None
    }
}

/// Position of the last `.` in `name`, if any.
pub open spec fn last_dot(name: Seq<char>) -> Option<int>
    decreases name.len(),
{
    if name.len() == 0 {
        None
    } else if name.last() == '.' {
        Some(name.len() - 1)
    } else {
        last_dot(name.drop_last())
    }
}

/// The extension of a file name: what follows its last `.`, when that dot is not the first
/// character (`Path::extension`).
pub open spec fn extension_of(name: Seq<char>) -> Option<Seq<char>> {
    match last_dot(name) {
        Some(i) => if i > 0 {
            Some(name.subrange(i + 1, name.len() as int))
        } else {
            None
        },
        None => None,
    }
}

/// The stem of a file name: what precedes the extension (`Path::file_stem`).
pub open spec fn stem_of(name: Seq<char>) -> Seq<char> {
    match last_dot(name) {
        Some(i) => if i > 0 {
            name.subrange(0, i)
        } else {
            name
        },
        None => name,
    }
}

/// The separator written into a path: `\\` in a Windows path, `/` otherwise.
pub open spec fn sep_for(s: Seq<char>) -> char {
    if windows_form(s) {
        '\\'
    } else {
        '/'
    }
}

/// `PathBuf::join` on text: an absolute `rel` replaces `base`; otherwise the two are joined
/// with one separator, except after a bare drive (`C:` joined with `x` is `C:x`, a path
/// relative to that drive's current directory).
pub open spec fn join_spec(base: Seq<char>, rel: Seq<char>) -> Seq<char> {
    if is_absolute(rel) {
        rel
    } else if base.len() == 0 || is_sep(base.last(), windows_form(base)) || (has_drive(base) && base.len() == 2) {
        base + rel
    } else {
        base + seq![sep_for(base)] + rel
    }
}

/// A parsed path.
pub struct PathModel {
    pub prefix: Vec<char>,
    pub absolute: bool,
    pub cur_dir: bool,
    pub parts: Vec<String>,
}

impl View for PathModel {
    type V = PathView;

    open spec fn view(&self) -> PathView {
        PathView {
            prefix: self.prefix@,
            absolute: self.absolute,
            cur_dir: self.cur_dir,
            parts: self.parts@.map_values(|p: String| p@),
        }
    }
}


proof fn lemma_flush_view(done: Vec<String>, cur: Seq<char>, s: String)
    requires
        s@ == cur,
    ensures
        keeps(cur) ==> done@.push(s).map_values(|p: String| p@) == done@.map_values(
            |p: String| p@,
        ).push(cur),
{
    if keeps(cur) {
        assert(done@.push(s).map_values(|p: String| p@) =~= done@.map_values(|p: String| p@).push(
            cur,
        ));
    }
}

/// Whether `c` separates components, computed.
fn sep_at(c: char, windows: bool) -> (r: bool)
    ensures
        r == is_sep(c, windows),
{
    c == '/' || (windows && c == '\\')
}

/// The prefix of `cs`, its start of components, and whether it is read the Windows way.
fn prefix_chars(cs: &Vec<char>) -> (r: (Vec<char>, usize, bool))
    ensures
        r.0@ == prefix_of(cs@),
        r.1 == body_start(cs@),
        r.2 == windows_form(cs@),
{
    let mut prefix: Vec<char> = Vec::new();
    if cs.len() >= 2 && (('a' <= cs[0] && cs[0] <= 'z') || ('A' <= cs[0] && cs[0] <= 'Z')) && cs[1] == ':' {
        prefix.push(to_upper_char(cs[0]));
        prefix.push(':');
        assert(prefix@ =~= prefix_of(cs@));
        (prefix, 2, true)
    } else if cs.len() >= 2 && cs[0] == '\\' && cs[1] == '\\' {
        prefix.push('\\');
        prefix.push('\\');
        assert(prefix@ =~= prefix_of(cs@));
        (prefix, 2, true)
    } else {
        assert(prefix@ =~= prefix_of(cs@));
        (prefix, 0, false)
    }
}

/// Splits `s` into its components.
pub fn parse(s: &str) -> (p: PathModel)
    ensures
        p@ == path_view(s@),
{
    let cs = chars_of(s);
    let (prefix, off, win) = prefix_chars(&cs);
    let ghost b = body(cs@);
    let mut done: Vec<String> = Vec::new();
    let mut start: usize = off;
    let mut i: usize = off;
    while i < cs.len()
        invariant
            off <= start <= i <= cs@.len(),
            off == body_start(cs@),
            win == windows_form(cs@),
            cs@ == s@,
            b == cs@.subrange(off as int, cs@.len() as int),
            done@.map_values(|p: String| p@) == scan(b.take(i - off), win).0,
            cs@.subrange(start as int, i as int) == scan(b.take(i - off), win).1,
        decreases cs@.len() - i,
    {
        let ghost before = b.take(i - off);
        assert(b.take(i - off + 1).drop_last() == before);
        assert(b.take(i - off + 1).last() == cs@[i as int]);
        if sep_at(cs[i], win) {
            let seg = string_of_range(cs.as_slice(), start, i);
            let keep = !(i == start || (i == start + 1 && cs[start] == '.'));
            proof {
                assert(keep == keeps(seg@)) by {
                    if i == start + 1 {
                        if seg@ == seq!['.'] {
                            assert(seg@[0] == cs@[start as int]);
                        }
                        if cs@[start as int] == '.' {
                            assert(seg@ =~= seq!['.']);
                        }
                    }
                    if i > start + 1 {
                        assert(seg@.len() != 1);
                    }
                }
                lemma_flush_view(done, seg@, seg);
            }
            if keep {
                done.push(seg);
            }
            i = i + 1;
            start = i;
            assert(cs@.subrange(start as int, i as int) =~= Seq::<char>::empty());
        } else {
            i = i + 1;
            assert(cs@.subrange(start as int, i as int) =~= cs@.subrange(start as int, i - 1).push(
                cs@[i - 1],
            ));
        }
    }
    assert(b.take(b.len() as int) == b);
    let seg = string_of_range(cs.as_slice(), start, cs.len());
    let n = cs.len();
    let keep = !(n == start || (n == start + 1 && cs[start] == '.'));
    proof {
        assert(keep == keeps(seg@)) by {
            if n == start + 1 {
                if seg@ == seq!['.'] {
                    assert(seg@[0] == cs@[start as int]);
                }
                if cs@[start as int] == '.' {
                    assert(seg@ =~= seq!['.']);
                }
            }
            if n > start + 1 {
                assert(seg@.len() != 1);
            }
        }
        lemma_flush_view(done, seg@, seg);
    }
    if keep {
        done.push(seg);
    }
    let absolute = if off == 2 && !(cs[0] == '\\') {
        cs.len() > 2 && sep_at(cs[2], true)
    } else if off == 2 {
        true
    } else {
        cs.len() > 0 && cs[0] == '/'
    };
    let cur_dir = !absolute && cs.len() > 0 && cs[0] == '.' && (cs.len() == 1 || cs[1] == '/');
    PathModel { prefix, absolute, cur_dir, parts: done }
}

/// Whether two components are the same.
fn part_eq(a: &String, b: &String) -> (r: bool)
    ensures
        r == (a@ == b@),
{
    a.eq(b)
}

/// A copy of `v`.
pub fn copy_chars(v: &Vec<char>) -> (r: Vec<char>)
    ensures
        r@ == v@,
{
    let mut r: Vec<char> = Vec::new();
    let mut i: usize = 0;
    while i < v.len()
        invariant
            i <= v@.len(),
            r@ == v@.take(i as int),
        decreases v@.len() - i,
    {
        r.push(v[i]);
        i = i + 1;
        assert(v@.take(i as int) =~= v@.take(i - 1).push(v@[i - 1]));
    }
    assert(v@.take(v@.len() as int) =~= v@);
    r
}

/// Whether two prefixes are the same.
fn chars_eq(a: &Vec<char>, b: &Vec<char>) -> (r: bool)
    ensures
        r == (a@ == b@),
{
    if a.len() != b.len() {
        return false;
    }
    let mut i: usize = 0;
    while i < a.len()
        invariant
            a@.len() == b@.len(),
            i <= a@.len(),
            forall|j: int| 0 <= j < i ==> a@[j] == b@[j],
        decreases a@.len() - i,
    {
        if a[i] != b[i] {
            return false;
        }
        i = i + 1;
    }
    assert(a@ =~= b@);
    true
}

/// `Path::starts_with`.
pub fn model_starts_with(p: &PathModel, base: &PathModel) -> (r: bool)
    ensures
        r == view_starts_with(p@, base@),
{
    if p.absolute != base.absolute || p.cur_dir != base.cur_dir || !chars_eq(&p.prefix, &base.prefix) {
        return false;
    }
    if base.parts.len() > p.parts.len() {
        return false;
    }
    let mut i: usize = 0;
    while i < base.parts.len()
        invariant
            base.parts@.len() <= p.parts@.len(),
            i <= base.parts@.len(),
            forall|j: int| 0 <= j < i ==> p.parts@[j]@ == base.parts@[j]@,
        decreases base.parts@.len() - i,
    {
        if !part_eq(&p.parts[i], &base.parts[i]) {
            assert(p@.parts.subrange(0, base@.parts.len() as int)[i as int] == p.parts@[i as int]@);
            return false;
        }
        i = i + 1;
    }
    assert(p@.parts.subrange(0, base@.parts.len() as int) =~= base@.parts);
    true
}

/// `Path` equality.
pub fn model_eq(p: &PathModel, q: &PathModel) -> (r: bool)
    ensures
        r == view_eq(p@, q@),
{
    if p.parts.len() != q.parts.len() {
        return false;
    }
    let r = model_starts_with(p, q);
    proof {
        if r {
            assert(p@.parts =~= q@.parts);
        }
        if view_eq(p@, q@) {
            assert(p@.parts.subrange(0, q@.parts.len() as int) =~= q@.parts);
        }
    }
    r
}

/// `Path::starts_with` on text.
pub fn starts_with(p: &str, base: &str) -> (r: bool)
    ensures
        r == starts_with_spec(p@, base@),
{
    let a = parse(p);
    let b = parse(base);
    model_starts_with(&a, &b)
}

/// `Path::file_name`.
pub fn file_name(s: &str) -> (r: Option<String>)
    ensures
        match r {
            Some(n) => file_name_spec(s@) == Some(n@),
            None => file_name_spec(s@) is None,
        },
{
    let p = parse(s);
    let n = p.parts.len();
    if n == 0 {
        return None;
    }
    let last = p.parts[n - 1].clone();
    let dots = string_from(&['.', '.']);
    proof {
        assert(p@.parts.last() == last@);
        assert(dots@ =~= seq!['.', '.']);
    }
    if last == dots {
        None
    } else {
        Some(last)
    }
}

/// Position of the last `.` in `name`.
pub fn find_last_dot(name: &[char]) -> (r: Option<usize>)
    ensures
        match r {
            Some(i) => last_dot(name@) == Some(i as int) && i < name@.len(),
            None => last_dot(name@) is None,
        },
{
    let mut i: usize = name.len();
    assert(name@.take(i as int) == name@);
    while i > 0
        invariant
            i <= name@.len(),
            last_dot(name@) == last_dot(name@.take(i as int)),
        decreases i,
    {
        assert(name@.take(i as int).drop_last() == name@.take(i - 1));
        if name[i - 1] == '.' {
            return Some(i - 1);
        }
        i = i - 1;
    }
    None
}

/// `Path::extension` of a file name.
pub fn extension(name: &str) -> (r: Option<String>)
    ensures
        match r {
            Some(e) => extension_of(name@) == Some(e@),
            None => extension_of(name@) is None,
        },
{
    let cs = chars_of(name);
    match find_last_dot(cs.as_slice()) {
        Some(i) => if i > 0 {
            assert(i < cs@.len());
            assert(cs@.len() == cs.len());
            Some(string_of_range(cs.as_slice(), i + 1, cs.len()))
        } else {
            None
        },
        None => None,
    }
}

/// `Path::file_stem` of a file name.
pub fn stem(name: &str) -> (r: String)
    ensures
        r@ == stem_of(name@),
{
    let cs = chars_of(name);
    match find_last_dot(cs.as_slice()) {
        Some(i) => if i > 0 {
            string_of_range(cs.as_slice(), 0, i)
        } else {
            string_from(cs.as_slice())
        },
        None => string_from(cs.as_slice()),
    }
}

/// `PathBuf::join` on text.
pub fn join(base: &str, rel: &str) -> (r: String)
    ensures
        r@ == join_spec(base@, rel@),
{
    let b = chars_of(base);
    let rc = chars_of(rel);
    if parse(rel).absolute {
        return string_from(rc.as_slice());
    }
    let (_, _, win) = prefix_chars(&b);
    let mut s = string_from(b.as_slice());
    let bare_drive = win && b.len() == 2 && b[1] == ':';
    if !(b.len() == 0 || sep_at(b[b.len() - 1], win) || bare_drive) {
        push_char(&mut s, if win { '\\' } else { '/' });
    }
    s.append(rel);
    s
}

/// `Path` equality on text: the same components.
pub fn same(p: &str, q: &str) -> (r: bool)
    ensures
        r == same_path(p@, q@),
{
    let a = parse(p);
    let b = parse(q);
    model_eq(&a, &b)
}

/// A canonical path as Windows gives it, with its verbatim marker taken off so that it
/// compares with plain paths: `\\?\UNC\server\x` becomes `\\server\x`, `\\?\C:\x` becomes
/// `C:\x`, and anything else is left as it is.
pub open spec fn without_verbatim(s: Seq<char>) -> Seq<char> {
    if s.len() >= 8 && s.subrange(0, 8) == seq!['\\', '\\', '?', '\\', 'U', 'N', 'C', '\\'] {
        seq!['\\', '\\'] + s.subrange(8, s.len() as int)
    } else if s.len() >= 4 && s.subrange(0, 4) == seq!['\\', '\\', '?', '\\'] {
        s.subrange(4, s.len() as int)
    } else {
        s
    }
}

pub fn strip_verbatim(s: &str) -> (r: String)
    ensures
        r@ == without_verbatim(s@),
{
    let cs = chars_of(s);
    let n = cs.len();
    let verbatim = n >= 4 && cs[0] == '\\' && cs[1] == '\\' && cs[2] == '?' && cs[3] == '\\';
    let unc = verbatim && n >= 8 && cs[4] == 'U' && cs[5] == 'N' && cs[6] == 'C' && cs[7] == '\\';
    proof {
        if n >= 4 {
            if cs@.subrange(0, 4) == seq!['\\', '\\', '?', '\\'] {
                assert(cs@.subrange(0, 4)[0] == cs@[0]);
                assert(cs@.subrange(0, 4)[1] == cs@[1]);
                assert(cs@.subrange(0, 4)[2] == cs@[2]);
                assert(cs@.subrange(0, 4)[3] == cs@[3]);
            }
            if verbatim {
                assert(cs@.subrange(0, 4) =~= seq!['\\', '\\', '?', '\\']);
            }
        }
        if n >= 8 {
            let head = cs@.subrange(0, 8);
            if head == seq!['\\', '\\', '?', '\\', 'U', 'N', 'C', '\\'] {
                assert(head[0] == cs@[0] && head[1] == cs@[1] && head[2] == cs@[2] && head[3] == cs@[3]);
                assert(head[4] == cs@[4] && head[5] == cs@[5] && head[6] == cs@[6] && head[7] == cs@[7]);
            }
            if unc {
                assert(head =~= seq!['\\', '\\', '?', '\\', 'U', 'N', 'C', '\\']);
            }
        }
    }
    if unc {
        let mut r = String::new();
        push_char(&mut r, '\\');
        push_char(&mut r, '\\');
        let rest = string_of_range(cs.as_slice(), 8, n);
        r.append(rest.as_str());
        assert(r@ =~= without_verbatim(s@));
        r
    } else if verbatim {
        string_of_range(cs.as_slice(), 4, n)
    } else {
        string_from(cs.as_slice())
    }
}

} // verus!
