//! Build artifacts that can be regenerated: `node_modules`, Rust `target/`, `build/`, `dist/`,
//! Python caches, virtualenvs, ...
//!
//! A directory is only reported when a *marker* file proves it belongs to a project (e.g.
//! `node_modules` next to `package.json`), so unrelated folders with the same name are left
//! alone. Found artifacts are never descended into. The walk and the existence checks are the
//! caller's; the rules, and what the answers mean, are here.

use vstd::prelude::*;

use crate::models::{RiskLevel, TargetGroup};
use crate::paths::{copy_chars, file_name, file_name_spec, join, join_spec, parent_view, parse, path_view, same, same_path, PathModel, PathView};
use crate::text::{concat, join_strings, join_with, owned, str_eq, string_from, string_views};

verus! {

/// Maximum depth below a project root to look for artifacts.
pub const MAX_DEPTH: usize = 8;

/// Directories never descended into.
pub open spec fn skip_dirs() -> Seq<Seq<char>> {
    seq![
        ".git"@, ".hg"@, ".svn"@, "Library"@, "Applications"@, ".Trash"@, "node_modules"@,
        "Pods"@, ".venv"@, "venv"@, "vendor"@, ".idea"@, ".vscode"@, "$RECYCLE.BIN"@,
        "System Volume Information"@,
    ]
}

fn skip_dir_names() -> (r: Vec<&'static str>)
    ensures
        r@.map_values(|s: &'static str| s@) == skip_dirs(),
{
    let mut v: Vec<&'static str> = Vec::new();
    v.push(".git");
    v.push(".hg");
    v.push(".svn");
    v.push("Library");
    v.push("Applications");
    v.push(".Trash");
    v.push("node_modules");
    v.push("Pods");
    v.push(".venv");
    v.push("venv");
    v.push("vendor");
    v.push(".idea");
    v.push(".vscode");
    v.push("$RECYCLE.BIN");
    v.push("System Volume Information");
    assert(v@.map_values(|s: &'static str| s@) =~= skip_dirs());
    v
}

/// Whether the walk leaves a directory of this name (that matched no rule) unvisited: one of
/// the skipped names, or hidden.
pub open spec fn skips_dir_spec(name: Seq<char>) -> bool {
    skip_dirs().contains(name) || (name.len() > 0 && name[0] == '.' && name != "."@)
}

pub fn skips_dir(name: &str) -> (r: bool)
    ensures
        r == skips_dir_spec(name@),
{
    let list = skip_dir_names();
    let ghost views = list@.map_values(|s: &'static str| s@);
    let mut i: usize = 0;
    while i < list.len()
        invariant
            i <= list@.len(),
            views == list@.map_values(|s: &'static str| s@),
            views == skip_dirs(),
            forall|j: int| 0 <= j < i ==> views[j] != name@,
        decreases list@.len() - i,
    {
        assert(views[i as int] == list@[i as int]@);
        if str_eq(list[i], name) {
            assert(skip_dirs().contains(name@)) by {
                assert(skip_dirs()[i as int] == name@);
            }
            return true;
        }
        i = i + 1;
    }
    proof {
        reveal_strlit(".");
        if skip_dirs().contains(name@) {
            let j = choose|j: int| 0 <= j < skip_dirs().len() && skip_dirs()[j] == name@;
            assert(views[j] == name@);
        }
    }
    let cs = crate::text::chars_of(name);
    cs.len() > 0 && cs[0] == '.' && !str_eq(name, ".")
}

/// The rules, in the order they are tried: a directory name, what it is, and how risky
/// removing it is.
pub open spec fn rules_table() -> Seq<(Seq<char>, Seq<char>, RiskLevel)> {
    seq![
        ("node_modules"@, "node_modules"@, RiskLevel::Low),
        ("target"@, "Rust target"@, RiskLevel::Low),
        ("build"@, "build"@, RiskLevel::Low),
        ("dist"@, "dist"@, RiskLevel::Low),
        ("out"@, "out"@, RiskLevel::Low),
        (".next"@, "Next.js cache"@, RiskLevel::Low),
        (".nuxt"@, "Nuxt cache"@, RiskLevel::Low),
        (".output"@, "Nitro output"@, RiskLevel::Low),
        (".turbo"@, "Turborepo cache"@, RiskLevel::Safe),
        (".parcel-cache"@, "Parcel cache"@, RiskLevel::Safe),
        (".expo"@, "Expo cache"@, RiskLevel::Safe),
        ("coverage"@, "coverage"@, RiskLevel::Safe),
        (".gradle"@, "Gradle project cache"@, RiskLevel::Low),
        (".build"@, "SwiftPM build"@, RiskLevel::Low),
        (".dart_tool"@, "Dart tool cache"@, RiskLevel::Low),
        ("Pods"@, "CocoaPods"@, RiskLevel::Low),
        ("__pycache__"@, "Python bytecode"@, RiskLevel::Safe),
        (".pytest_cache"@, "pytest cache"@, RiskLevel::Safe),
        (".mypy_cache"@, "mypy cache"@, RiskLevel::Safe),
        (".ruff_cache"@, "ruff cache"@, RiskLevel::Safe),
        (".tox"@, "tox environments"@, RiskLevel::Low),
        (".venv"@, "Python virtualenv"@, RiskLevel::Medium),
        ("venv"@, "Python virtualenv"@, RiskLevel::Medium),
        (".terraform"@, "Terraform providers"@, RiskLevel::Low),
    ]
}

/// The markers that prove a directory belongs to a project: the rule they belong to, the
/// file's name, and whether it is looked for inside the directory (else beside it). A rule
/// with no marker always applies; otherwise one of its markers must exist.
pub open spec fn markers_table() -> Seq<(int, Seq<char>, bool)> {
    seq![
        (0int, "package.json"@, false),
        (1int, "Cargo.toml"@, false),
        (2int, "build.gradle"@, false),
        (2int, "build.gradle.kts"@, false),
        (2int, "settings.gradle"@, false),
        (2int, "settings.gradle.kts"@, false),
        (2int, "CMakeLists.txt"@, false),
        (2int, "pubspec.yaml"@, false),
        (2int, "package.json"@, false),
        (3int, "package.json"@, false),
        (3int, "pyproject.toml"@, false),
        (3int, "setup.py"@, false),
        (4int, "package.json"@, false),
        (4int, "tsconfig.json"@, false),
        (5int, "package.json"@, false),
        (6int, "package.json"@, false),
        (7int, "package.json"@, false),
        (8int, "package.json"@, false),
        (9int, "package.json"@, false),
        (10int, "package.json"@, false),
        (10int, "app.json"@, false),
        (11int, "package.json"@, false),
        (11int, "pyproject.toml"@, false),
        (12int, "build.gradle"@, false),
        (12int, "build.gradle.kts"@, false),
        (12int, "settings.gradle"@, false),
        (12int, "settings.gradle.kts"@, false),
        (13int, "Package.swift"@, false),
        (14int, "pubspec.yaml"@, false),
        (15int, "Podfile"@, false),
        (20int, "tox.ini"@, false),
        (20int, "pyproject.toml"@, false),
        (21int, "pyvenv.cfg"@, true),
        (22int, "pyvenv.cfg"@, true),
    ]
}

pub open spec fn rule_views(v: Seq<(&'static str, &'static str, RiskLevel)>) -> Seq<(Seq<char>, Seq<char>, RiskLevel)> {
    v.map_values(|r: (&'static str, &'static str, RiskLevel)| (r.0@, r.1@, r.2))
}

pub open spec fn marker_views(v: Seq<(usize, &'static str, bool)>) -> Seq<(int, Seq<char>, bool)> {
    v.map_values(|m: (usize, &'static str, bool)| (m.0 as int, m.1@, m.2))
}

pub fn project_rules() -> (r: Vec<(&'static str, &'static str, RiskLevel)>)
    ensures
        rule_views(r@) == rules_table(),
{
    let mut v: Vec<(&'static str, &'static str, RiskLevel)> = Vec::new();
    v.push(("node_modules", "node_modules", RiskLevel::Low));
    v.push(("target", "Rust target", RiskLevel::Low));
    v.push(("build", "build", RiskLevel::Low));
    v.push(("dist", "dist", RiskLevel::Low));
    v.push(("out", "out", RiskLevel::Low));
    v.push((".next", "Next.js cache", RiskLevel::Low));
    v.push((".nuxt", "Nuxt cache", RiskLevel::Low));
    v.push((".output", "Nitro output", RiskLevel::Low));
    v.push((".turbo", "Turborepo cache", RiskLevel::Safe));
    v.push((".parcel-cache", "Parcel cache", RiskLevel::Safe));
    v.push((".expo", "Expo cache", RiskLevel::Safe));
    v.push(("coverage", "coverage", RiskLevel::Safe));
    v.push((".gradle", "Gradle project cache", RiskLevel::Low));
    v.push((".build", "SwiftPM build", RiskLevel::Low));
    v.push((".dart_tool", "Dart tool cache", RiskLevel::Low));
    v.push(("Pods", "CocoaPods", RiskLevel::Low));
    v.push(("__pycache__", "Python bytecode", RiskLevel::Safe));
    v.push((".pytest_cache", "pytest cache", RiskLevel::Safe));
    v.push((".mypy_cache", "mypy cache", RiskLevel::Safe));
    v.push((".ruff_cache", "ruff cache", RiskLevel::Safe));
    v.push((".tox", "tox environments", RiskLevel::Low));
    v.push((".venv", "Python virtualenv", RiskLevel::Medium));
    v.push(("venv", "Python virtualenv", RiskLevel::Medium));
    v.push((".terraform", "Terraform providers", RiskLevel::Low));
    assert(rule_views(v@) =~= rules_table());
    v
}

pub fn project_markers() -> (r: Vec<(usize, &'static str, bool)>)
    ensures
        marker_views(r@) == markers_table(),
{
    let mut v: Vec<(usize, &'static str, bool)> = Vec::new();
    v.push((0, "package.json", false));
    v.push((1, "Cargo.toml", false));
    v.push((2, "build.gradle", false));
    v.push((2, "build.gradle.kts", false));
    v.push((2, "settings.gradle", false));
    v.push((2, "settings.gradle.kts", false));
    v.push((2, "CMakeLists.txt", false));
    v.push((2, "pubspec.yaml", false));
    v.push((2, "package.json", false));
    v.push((3, "package.json", false));
    v.push((3, "pyproject.toml", false));
    v.push((3, "setup.py", false));
    v.push((4, "package.json", false));
    v.push((4, "tsconfig.json", false));
    v.push((5, "package.json", false));
    v.push((6, "package.json", false));
    v.push((7, "package.json", false));
    v.push((8, "package.json", false));
    v.push((9, "package.json", false));
    v.push((10, "package.json", false));
    v.push((10, "app.json", false));
    v.push((11, "package.json", false));
    v.push((11, "pyproject.toml", false));
    v.push((12, "build.gradle", false));
    v.push((12, "build.gradle.kts", false));
    v.push((12, "settings.gradle", false));
    v.push((12, "settings.gradle.kts", false));
    v.push((13, "Package.swift", false));
    v.push((14, "pubspec.yaml", false));
    v.push((15, "Podfile", false));
    v.push((20, "tox.ini", false));
    v.push((20, "pyproject.toml", false));
    v.push((21, "pyvenv.cfg", true));
    v.push((22, "pyvenv.cfg", true));
    assert(marker_views(v@) =~= markers_table());
    v
}


// ----- paths -----

/// The separator a path in component form is written with: `\` after a Windows prefix, `/`
/// otherwise.
pub open spec fn sep_text(v: PathView) -> Seq<char> {
    if v.prefix.len() > 0 {
        "\\"@
    } else {
        "/"@
    }
}

/// A path in component form, written back as text: its prefix, then the components with a
/// separator between them, a separator in front of an absolute path (a network path's
/// prefix is already one), `./` in front of one that began with `.`.
pub open spec fn render(v: PathView) -> Seq<char> {
    v.prefix + if v.absolute {
        if v.prefix == seq!['\\', '\\'] {
            join_with(v.parts, sep_text(v))
        } else {
            sep_text(v) + join_with(v.parts, sep_text(v))
        }
    } else if v.cur_dir {
        if v.parts.len() == 0 {
            "."@
        } else {
            "./"@ + join_with(v.parts, sep_text(v))
        }
    } else {
        join_with(v.parts, sep_text(v))
    }
}

/// `Path::parent`, written back as text.
pub open spec fn parent_text_spec(path: Seq<char>) -> Option<Seq<char>> {
    match parent_view(path_view(path)) {
        Some(p) => Some(render(p)),
        None => None,
    }
}

pub fn parent_text(path: &str) -> (r: Option<String>)
    ensures
        match r {
            Some(p) => parent_text_spec(path@) == Some(p@),
            None => parent_text_spec(path@) is None,
        },
{
    let m = parse(path);
    let n = m.parts.len();
    proof {
        assert(m@.parts.len() == n);
    }
    if n == 0 {
        if m.cur_dir {
            let empty = PathModel { prefix: Vec::new(), absolute: false, cur_dir: false, parts: Vec::new() };
            proof {
                assert(empty@.parts =~= Seq::<Seq<char>>::empty());
                assert(empty@.prefix =~= Seq::<char>::empty());
            }
            return Some(render_model(&empty));
        }
        return None;
    }
    let mut parts: Vec<String> = Vec::new();
    let mut i: usize = 0;
    while i + 1 < n
        invariant
            i < n,
            n == m.parts@.len(),
            string_views(parts@) == string_views(m.parts@).take(i as int),
        decreases n - i,
    {
        let ghost prev = parts@;
        parts.push(m.parts[i].clone());
        proof {
            assert(string_views(parts@) =~= string_views(prev).push(m.parts@[i as int]@));
            assert(string_views(m.parts@).take(i + 1) =~= string_views(m.parts@).take(i as int).push(m.parts@[i as int]@));
        }
        i = i + 1;
    }
    let parent = PathModel { prefix: copy_chars(&m.prefix), absolute: m.absolute, cur_dir: m.cur_dir, parts };
    proof {
        assert(string_views(m.parts@) == m@.parts);
        assert(parent@.parts =~= m@.parts.drop_last()) by {
            assert(string_views(parts@) == parent@.parts);
        }
        assert(parent@ == parent_view(m@)->Some_0);
    }
    Some(render_model(&parent))
}

// ----- which rule a directory matches -----

/// Where marker `k` of the table would be for the directory at `dir`, when its rule is about
/// directories of that name; else nothing to look for.
pub open spec fn marker_path_spec(dir: Seq<char>, k: int) -> Option<Seq<char>> {
    let m = markers_table()[k];
    match file_name_spec(dir) {
        Some(name) => match parent_text_spec(dir) {
            Some(parent) => if 0 <= m.0 < rules_table().len() && rules_table()[m.0].0 == name {
                Some(if m.2 { join_spec(dir, m.1) } else { join_spec(parent, m.1) })
            } else {
                None
            },
            None => None,
        },
        None => None,
    }
}

/// For each marker of the table, where to look for it for the directory at `dir`.
pub fn marker_paths(dir: &str) -> (r: Vec<Option<String>>)
    ensures
        r@.len() == markers_table().len(),
        forall|k: int| 0 <= k < r@.len() ==> match #[trigger] r@[k] {
            Some(p) => marker_path_spec(dir@, k) == Some(p@),
            None => marker_path_spec(dir@, k) is None,
        },
{
    let rules = project_rules();
    let markers = project_markers();
    let name = file_name(dir);
    let parent = parent_text(dir);
    let mut r: Vec<Option<String>> = Vec::new();
    let mut k: usize = 0;
    while k < markers.len()
        invariant
            k <= markers@.len(),
            rule_views(rules@) == rules_table(),
            marker_views(markers@) == markers_table(),
            match name {
                Some(n) => file_name_spec(dir@) == Some(n@),
                None => file_name_spec(dir@) is None,
            },
            match parent {
                Some(p) => parent_text_spec(dir@) == Some(p@),
                None => parent_text_spec(dir@) is None,
            },
            r@.len() == k,
            forall|j: int| 0 <= j < k ==> match #[trigger] r@[j] {
                Some(p) => marker_path_spec(dir@, j) == Some(p@),
                None => marker_path_spec(dir@, j) is None,
            },
        decreases markers@.len() - k,
    {
        let (ri, mname, inside) = markers[k];
        proof {
            assert(marker_views(markers@)[k as int] == markers_table()[k as int]);
            if ri < rules@.len() {
                assert(rule_views(rules@)[ri as int] == rules_table()[ri as int]);
            }
        }
        let entry = match (&name, &parent) {
            (Some(n), Some(p)) => if ri < rules.len() && str_eq(rules[ri].0, n.as_str()) {
                Some(if inside {
                    join(dir, mname)
                } else {
                    join(p.as_str(), mname)
                })
            } else {
                None
            },
            _ => None,
        };
        r.push(entry);
        k = k + 1;
    }
    r
}

/// Whether rule `i` applies to the directory at `dir`, `found[k]` saying whether marker `k` of
/// the table exists: the names agree, and the rule has no marker or one of its markers exists.
pub open spec fn rule_applies(dir: Seq<char>, found: Seq<bool>, i: int) -> bool {
    &&& file_name_spec(dir) matches Some(name) && rules_table()[i].0 == name
    &&& parent_text_spec(dir) is Some
    &&& (forall|k: int| 0 <= k < markers_table().len() ==> (#[trigger] markers_table()[k]).0 != i)
        || (exists|k: int| 0 <= k < markers_table().len() && (#[trigger] markers_table()[k]).0 == i && found[k])
}

/// The first rule from `i` on that applies, or -1.
pub open spec fn first_rule_from(dir: Seq<char>, found: Seq<bool>, i: int) -> int
    decreases rules_table().len() - i,
{
    if i < 0 || i >= rules_table().len() {
        -1
    } else if rule_applies(dir, found, i) {
        i
    } else {
        first_rule_from(dir, found, i + 1)
    }
}

/// The rule the directory at `dir` matches, by its place in the table; `found[k]` says
/// whether marker `k` of the table exists (see [`marker_paths`]).
pub fn matching_rule(dir: &str, found: &Vec<bool>) -> (r: Option<usize>)
    requires
        found@.len() == markers_table().len(),
    ensures
        match r {
            Some(i) => first_rule_from(dir@, found@, 0) == i,
            None => first_rule_from(dir@, found@, 0) == -1,
        },
{
    let rules = project_rules();
    let markers = project_markers();
    let name = match file_name(dir) {
        Some(n) => n,
        None => {
            proof {
                lemma_no_rule_from(dir@, found@, 0);
            }
            return None;
        },
    };
    if parent_text(dir).is_none() {
        proof {
            lemma_no_rule_from(dir@, found@, 0);
        }
        return None;
    }
    let mut i: usize = 0;
    while i < rules.len()
        invariant
            i <= rules@.len(),
            rule_views(rules@) == rules_table(),
            marker_views(markers@) == markers_table(),
            found@.len() == markers_table().len(),
            file_name_spec(dir@) == Some(name@),
            parent_text_spec(dir@) is Some,
            first_rule_from(dir@, found@, 0) == first_rule_from(dir@, found@, i as int),
        decreases rules@.len() - i,
    {
        proof {
            assert(rule_views(rules@)[i as int] == rules_table()[i as int]);
        }
        if str_eq(rules[i].0, name.as_str()) {
            let mut any = false;
            let mut hit = false;
            let mut k: usize = 0;
            while k < markers.len()
                invariant
                    k <= markers@.len(),
                    i < rules_table().len(),
                    marker_views(markers@) == markers_table(),
                    found@.len() == markers_table().len(),
                    any == exists|j: int| 0 <= j < k && (#[trigger] markers_table()[j]).0 == i,
                    hit == exists|j: int| 0 <= j < k && (#[trigger] markers_table()[j]).0 == i && found@[j],
                decreases markers@.len() - k,
            {
                proof {
                    assert(marker_views(markers@)[k as int] == markers_table()[k as int]);
                }
                if markers[k].0 == i {
                    any = true;
                    if found[k] {
                        hit = true;
                    }
                }
                k = k + 1;
            }
            if !any || hit {
                proof {
                    if !any {
                        assert forall|j: int| 0 <= j < markers_table().len() implies (#[trigger] markers_table()[j]).0 != i by {}
                    }
                }
                return Some(i);
            }
            proof {
                assert(!rule_applies(dir@, found@, i as int));
            }
        }
        i = i + 1;
    }
    None
}

/// A rule that applies is found by the search from any earlier rule, unless an earlier one
/// applies first.
proof fn lemma_first_rule_reaches(dir: Seq<char>, found: Seq<bool>, j: int, i: int)
    requires
        0 <= j <= i < rules_table().len(),
        rule_applies(dir, found, i),
    ensures
        j <= first_rule_from(dir, found, j) <= i,
        rule_applies(dir, found, first_rule_from(dir, found, j)),
    decreases i - j,
{
    if !rule_applies(dir, found, j) {
        lemma_first_rule_reaches(dir, found, j + 1, i);
    }
}

/// A found marker makes its rule apply when the directory has that rule's name.
proof fn lemma_marker_applies(dir: Seq<char>, found: Seq<bool>, k: int)
    requires
        found.len() == markers_table().len(),
        0 <= k < markers_table().len(),
        0 <= markers_table()[k].0 < rules_table().len(),
        file_name_spec(dir) == Some(rules_table()[markers_table()[k].0].0),
        parent_text_spec(dir) is Some,
        marker_path_spec(dir, k) == Some(
            if markers_table()[k].2 { join_spec(dir, markers_table()[k].1) } else { join_spec(parent_text_spec(dir)->Some_0, markers_table()[k].1) },
        ) ==> found[k],
    ensures
        0 <= first_rule_from(dir, found, 0) < rules_table().len(),
        rules_table()[first_rule_from(dir, found, 0)].0 == rules_table()[markers_table()[k].0].0,
{
    let i = markers_table()[k].0;
    assert(found[k]);
    assert(rule_applies(dir, found, i));
    lemma_first_rule_reaches(dir, found, 0, i);
}

/// A marker proves its rule: when the file `marker` exists beside a directory named `name`
/// (inside it, for a virtualenv's `pyvenv.cfg`), and `marker` is one of the files that mark
/// that kind of project, the directory is matched by the rule for `name`. The markers are:
/// package.json for node_modules, .next, .nuxt, .output, .turbo and .parcel-cache; Cargo.toml
/// for target; the Gradle and CMake build files, pubspec.yaml or package.json for build;
/// package.json, pyproject.toml or setup.py for dist; package.json or tsconfig.json for out;
/// package.json or app.json for .expo; package.json or pyproject.toml for coverage; the Gradle
/// build files for .gradle; Package.swift for .build; pubspec.yaml for .dart_tool; Podfile for
/// Pods; tox.ini or pyproject.toml for .tox; pyvenv.cfg inside for .venv and venv.
/// `found[k]` says whether the place marker `k` is looked for exists.
pub proof fn lemma_marker_proves_rule(
    dir: Seq<char>,
    found: Seq<bool>,
    parent: Seq<char>,
    name: Seq<char>,
    marker: Seq<char>,
    inside: bool,
)
    requires
        found.len() == markers_table().len(),
        file_name_spec(dir) == Some(name),
        parent_text_spec(dir) == Some(parent),
        forall|k: int|
            0 <= k < markers_table().len() && marker_path_spec(dir, k) == Some(
                if inside { join_spec(dir, marker) } else { join_spec(parent, marker) },
            ) ==> #[trigger] found[k],
        (name == "node_modules"@ && marker == "package.json"@ && inside == false) ||
        (name == "target"@ && marker == "Cargo.toml"@ && inside == false) ||
        (name == "build"@ && marker == "build.gradle"@ && inside == false) ||
        (name == "build"@ && marker == "build.gradle.kts"@ && inside == false) ||
        (name == "build"@ && marker == "settings.gradle"@ && inside == false) ||
        (name == "build"@ && marker == "settings.gradle.kts"@ && inside == false) ||
        (name == "build"@ && marker == "CMakeLists.txt"@ && inside == false) ||
        (name == "build"@ && marker == "pubspec.yaml"@ && inside == false) ||
        (name == "build"@ && marker == "package.json"@ && inside == false) ||
        (name == "dist"@ && marker == "package.json"@ && inside == false) ||
        (name == "dist"@ && marker == "pyproject.toml"@ && inside == false) ||
        (name == "dist"@ && marker == "setup.py"@ && inside == false) ||
        (name == "out"@ && marker == "package.json"@ && inside == false) ||
        (name == "out"@ && marker == "tsconfig.json"@ && inside == false) ||
        (name == ".next"@ && marker == "package.json"@ && inside == false) ||
        (name == ".nuxt"@ && marker == "package.json"@ && inside == false) ||
        (name == ".output"@ && marker == "package.json"@ && inside == false) ||
        (name == ".turbo"@ && marker == "package.json"@ && inside == false) ||
        (name == ".parcel-cache"@ && marker == "package.json"@ && inside == false) ||
        (name == ".expo"@ && marker == "package.json"@ && inside == false) ||
        (name == ".expo"@ && marker == "app.json"@ && inside == false) ||
        (name == "coverage"@ && marker == "package.json"@ && inside == false) ||
        (name == "coverage"@ && marker == "pyproject.toml"@ && inside == false) ||
        (name == ".gradle"@ && marker == "build.gradle"@ && inside == false) ||
        (name == ".gradle"@ && marker == "build.gradle.kts"@ && inside == false) ||
        (name == ".gradle"@ && marker == "settings.gradle"@ && inside == false) ||
        (name == ".gradle"@ && marker == "settings.gradle.kts"@ && inside == false) ||
        (name == ".build"@ && marker == "Package.swift"@ && inside == false) ||
        (name == ".dart_tool"@ && marker == "pubspec.yaml"@ && inside == false) ||
        (name == "Pods"@ && marker == "Podfile"@ && inside == false) ||
        (name == ".tox"@ && marker == "tox.ini"@ && inside == false) ||
        (name == ".tox"@ && marker == "pyproject.toml"@ && inside == false) ||
        (name == ".venv"@ && marker == "pyvenv.cfg"@ && inside == true) ||
        (name == "venv"@ && marker == "pyvenv.cfg"@ && inside == true),
    ensures
        0 <= first_rule_from(dir, found, 0) < rules_table().len(),
        rules_table()[first_rule_from(dir, found, 0)].0 == name,
{
    if name == "node_modules"@ && marker == "package.json"@ && inside == false {
        assert(markers_table()[0] == (0int, "package.json"@, false));
        assert(rules_table()[0].0 == "node_modules"@);
        lemma_marker_applies(dir, found, 0);
    } else if name == "target"@ && marker == "Cargo.toml"@ && inside == false {
        assert(markers_table()[1] == (1int, "Cargo.toml"@, false));
        assert(rules_table()[1].0 == "target"@);
        lemma_marker_applies(dir, found, 1);
    } else if name == "build"@ && marker == "build.gradle"@ && inside == false {
        assert(markers_table()[2] == (2int, "build.gradle"@, false));
        assert(rules_table()[2].0 == "build"@);
        lemma_marker_applies(dir, found, 2);
    } else if name == "build"@ && marker == "build.gradle.kts"@ && inside == false {
        assert(markers_table()[3] == (2int, "build.gradle.kts"@, false));
        assert(rules_table()[2].0 == "build"@);
        lemma_marker_applies(dir, found, 3);
    } else if name == "build"@ && marker == "settings.gradle"@ && inside == false {
        assert(markers_table()[4] == (2int, "settings.gradle"@, false));
        assert(rules_table()[2].0 == "build"@);
        lemma_marker_applies(dir, found, 4);
    } else if name == "build"@ && marker == "settings.gradle.kts"@ && inside == false {
        assert(markers_table()[5] == (2int, "settings.gradle.kts"@, false));
        assert(rules_table()[2].0 == "build"@);
        lemma_marker_applies(dir, found, 5);
    } else if name == "build"@ && marker == "CMakeLists.txt"@ && inside == false {
        assert(markers_table()[6] == (2int, "CMakeLists.txt"@, false));
        assert(rules_table()[2].0 == "build"@);
        lemma_marker_applies(dir, found, 6);
    } else if name == "build"@ && marker == "pubspec.yaml"@ && inside == false {
        assert(markers_table()[7] == (2int, "pubspec.yaml"@, false));
        assert(rules_table()[2].0 == "build"@);
        lemma_marker_applies(dir, found, 7);
    } else if name == "build"@ && marker == "package.json"@ && inside == false {
        assert(markers_table()[8] == (2int, "package.json"@, false));
        assert(rules_table()[2].0 == "build"@);
        lemma_marker_applies(dir, found, 8);
    } else if name == "dist"@ && marker == "package.json"@ && inside == false {
        assert(markers_table()[9] == (3int, "package.json"@, false));
        assert(rules_table()[3].0 == "dist"@);
        lemma_marker_applies(dir, found, 9);
    } else if name == "dist"@ && marker == "pyproject.toml"@ && inside == false {
        assert(markers_table()[10] == (3int, "pyproject.toml"@, false));
        assert(rules_table()[3].0 == "dist"@);
        lemma_marker_applies(dir, found, 10);
    } else if name == "dist"@ && marker == "setup.py"@ && inside == false {
        assert(markers_table()[11] == (3int, "setup.py"@, false));
        assert(rules_table()[3].0 == "dist"@);
        lemma_marker_applies(dir, found, 11);
    } else if name == "out"@ && marker == "package.json"@ && inside == false {
        assert(markers_table()[12] == (4int, "package.json"@, false));
        assert(rules_table()[4].0 == "out"@);
        lemma_marker_applies(dir, found, 12);
    } else if name == "out"@ && marker == "tsconfig.json"@ && inside == false {
        assert(markers_table()[13] == (4int, "tsconfig.json"@, false));
        assert(rules_table()[4].0 == "out"@);
        lemma_marker_applies(dir, found, 13);
    } else if name == ".next"@ && marker == "package.json"@ && inside == false {
        assert(markers_table()[14] == (5int, "package.json"@, false));
        assert(rules_table()[5].0 == ".next"@);
        lemma_marker_applies(dir, found, 14);
    } else if name == ".nuxt"@ && marker == "package.json"@ && inside == false {
        assert(markers_table()[15] == (6int, "package.json"@, false));
        assert(rules_table()[6].0 == ".nuxt"@);
        lemma_marker_applies(dir, found, 15);
    } else if name == ".output"@ && marker == "package.json"@ && inside == false {
        assert(markers_table()[16] == (7int, "package.json"@, false));
        assert(rules_table()[7].0 == ".output"@);
        lemma_marker_applies(dir, found, 16);
    } else if name == ".turbo"@ && marker == "package.json"@ && inside == false {
        assert(markers_table()[17] == (8int, "package.json"@, false));
        assert(rules_table()[8].0 == ".turbo"@);
        lemma_marker_applies(dir, found, 17);
    } else if name == ".parcel-cache"@ && marker == "package.json"@ && inside == false {
        assert(markers_table()[18] == (9int, "package.json"@, false));
        assert(rules_table()[9].0 == ".parcel-cache"@);
        lemma_marker_applies(dir, found, 18);
    } else if name == ".expo"@ && marker == "package.json"@ && inside == false {
        assert(markers_table()[19] == (10int, "package.json"@, false));
        assert(rules_table()[10].0 == ".expo"@);
        lemma_marker_applies(dir, found, 19);
    } else if name == ".expo"@ && marker == "app.json"@ && inside == false {
        assert(markers_table()[20] == (10int, "app.json"@, false));
        assert(rules_table()[10].0 == ".expo"@);
        lemma_marker_applies(dir, found, 20);
    } else if name == "coverage"@ && marker == "package.json"@ && inside == false {
        assert(markers_table()[21] == (11int, "package.json"@, false));
        assert(rules_table()[11].0 == "coverage"@);
        lemma_marker_applies(dir, found, 21);
    } else if name == "coverage"@ && marker == "pyproject.toml"@ && inside == false {
        assert(markers_table()[22] == (11int, "pyproject.toml"@, false));
        assert(rules_table()[11].0 == "coverage"@);
        lemma_marker_applies(dir, found, 22);
    } else if name == ".gradle"@ && marker == "build.gradle"@ && inside == false {
        assert(markers_table()[23] == (12int, "build.gradle"@, false));
        assert(rules_table()[12].0 == ".gradle"@);
        lemma_marker_applies(dir, found, 23);
    } else if name == ".gradle"@ && marker == "build.gradle.kts"@ && inside == false {
        assert(markers_table()[24] == (12int, "build.gradle.kts"@, false));
        assert(rules_table()[12].0 == ".gradle"@);
        lemma_marker_applies(dir, found, 24);
    } else if name == ".gradle"@ && marker == "settings.gradle"@ && inside == false {
        assert(markers_table()[25] == (12int, "settings.gradle"@, false));
        assert(rules_table()[12].0 == ".gradle"@);
        lemma_marker_applies(dir, found, 25);
    } else if name == ".gradle"@ && marker == "settings.gradle.kts"@ && inside == false {
        assert(markers_table()[26] == (12int, "settings.gradle.kts"@, false));
        assert(rules_table()[12].0 == ".gradle"@);
        lemma_marker_applies(dir, found, 26);
    } else if name == ".build"@ && marker == "Package.swift"@ && inside == false {
        assert(markers_table()[27] == (13int, "Package.swift"@, false));
        assert(rules_table()[13].0 == ".build"@);
        lemma_marker_applies(dir, found, 27);
    } else if name == ".dart_tool"@ && marker == "pubspec.yaml"@ && inside == false {
        assert(markers_table()[28] == (14int, "pubspec.yaml"@, false));
        assert(rules_table()[14].0 == ".dart_tool"@);
        lemma_marker_applies(dir, found, 28);
    } else if name == "Pods"@ && marker == "Podfile"@ && inside == false {
        assert(markers_table()[29] == (15int, "Podfile"@, false));
        assert(rules_table()[15].0 == "Pods"@);
        lemma_marker_applies(dir, found, 29);
    } else if name == ".tox"@ && marker == "tox.ini"@ && inside == false {
        assert(markers_table()[30] == (20int, "tox.ini"@, false));
        assert(rules_table()[20].0 == ".tox"@);
        lemma_marker_applies(dir, found, 30);
    } else if name == ".tox"@ && marker == "pyproject.toml"@ && inside == false {
        assert(markers_table()[31] == (20int, "pyproject.toml"@, false));
        assert(rules_table()[20].0 == ".tox"@);
        lemma_marker_applies(dir, found, 31);
    } else if name == ".venv"@ && marker == "pyvenv.cfg"@ && inside == true {
        assert(markers_table()[32] == (21int, "pyvenv.cfg"@, true));
        assert(rules_table()[21].0 == ".venv"@);
        lemma_marker_applies(dir, found, 32);
    } else if name == "venv"@ && marker == "pyvenv.cfg"@ && inside == true {
        assert(markers_table()[33] == (22int, "pyvenv.cfg"@, true));
        assert(rules_table()[22].0 == "venv"@);
        lemma_marker_applies(dir, found, 33);
    }
}

/// Nothing else marks a project: every marker the rules look for is one of those listed at
/// [`lemma_marker_proves_rule`], for the rule it is listed with, and the rules for Python
/// bytecode, pytest, mypy and ruff caches and Terraform providers have none (so any such
/// directory with a parent is matched).
pub proof fn lemma_only_documented_markers(k: int)
    requires
        0 <= k < markers_table().len(),
    ensures
        0 <= markers_table()[k].0 < rules_table().len(),
        ({
            let m = markers_table()[k];
            let n = rules_table()[m.0].0;
            (n == "node_modules"@ && m.1 == "package.json"@ && m.2 == false) ||
        (n == "target"@ && m.1 == "Cargo.toml"@ && m.2 == false) ||
        (n == "build"@ && m.1 == "build.gradle"@ && m.2 == false) ||
        (n == "build"@ && m.1 == "build.gradle.kts"@ && m.2 == false) ||
        (n == "build"@ && m.1 == "settings.gradle"@ && m.2 == false) ||
        (n == "build"@ && m.1 == "settings.gradle.kts"@ && m.2 == false) ||
        (n == "build"@ && m.1 == "CMakeLists.txt"@ && m.2 == false) ||
        (n == "build"@ && m.1 == "pubspec.yaml"@ && m.2 == false) ||
        (n == "build"@ && m.1 == "package.json"@ && m.2 == false) ||
        (n == "dist"@ && m.1 == "package.json"@ && m.2 == false) ||
        (n == "dist"@ && m.1 == "pyproject.toml"@ && m.2 == false) ||
        (n == "dist"@ && m.1 == "setup.py"@ && m.2 == false) ||
        (n == "out"@ && m.1 == "package.json"@ && m.2 == false) ||
        (n == "out"@ && m.1 == "tsconfig.json"@ && m.2 == false) ||
        (n == ".next"@ && m.1 == "package.json"@ && m.2 == false) ||
        (n == ".nuxt"@ && m.1 == "package.json"@ && m.2 == false) ||
        (n == ".output"@ && m.1 == "package.json"@ && m.2 == false) ||
        (n == ".turbo"@ && m.1 == "package.json"@ && m.2 == false) ||
        (n == ".parcel-cache"@ && m.1 == "package.json"@ && m.2 == false) ||
        (n == ".expo"@ && m.1 == "package.json"@ && m.2 == false) ||
        (n == ".expo"@ && m.1 == "app.json"@ && m.2 == false) ||
        (n == "coverage"@ && m.1 == "package.json"@ && m.2 == false) ||
        (n == "coverage"@ && m.1 == "pyproject.toml"@ && m.2 == false) ||
        (n == ".gradle"@ && m.1 == "build.gradle"@ && m.2 == false) ||
        (n == ".gradle"@ && m.1 == "build.gradle.kts"@ && m.2 == false) ||
        (n == ".gradle"@ && m.1 == "settings.gradle"@ && m.2 == false) ||
        (n == ".gradle"@ && m.1 == "settings.gradle.kts"@ && m.2 == false) ||
        (n == ".build"@ && m.1 == "Package.swift"@ && m.2 == false) ||
        (n == ".dart_tool"@ && m.1 == "pubspec.yaml"@ && m.2 == false) ||
        (n == "Pods"@ && m.1 == "Podfile"@ && m.2 == false) ||
        (n == ".tox"@ && m.1 == "tox.ini"@ && m.2 == false) ||
        (n == ".tox"@ && m.1 == "pyproject.toml"@ && m.2 == false) ||
        (n == ".venv"@ && m.1 == "pyvenv.cfg"@ && m.2 == true) ||
        (n == "venv"@ && m.1 == "pyvenv.cfg"@ && m.2 == true)
        }),
{
    if k == 0 {
        assert(markers_table()[0] == (0int, "package.json"@, false));
        assert(rules_table()[0].0 == "node_modules"@);
    }
    if k == 1 {
        assert(markers_table()[1] == (1int, "Cargo.toml"@, false));
        assert(rules_table()[1].0 == "target"@);
    }
    if k == 2 {
        assert(markers_table()[2] == (2int, "build.gradle"@, false));
        assert(rules_table()[2].0 == "build"@);
    }
    if k == 3 {
        assert(markers_table()[3] == (2int, "build.gradle.kts"@, false));
        assert(rules_table()[2].0 == "build"@);
    }
    if k == 4 {
        assert(markers_table()[4] == (2int, "settings.gradle"@, false));
        assert(rules_table()[2].0 == "build"@);
    }
    if k == 5 {
        assert(markers_table()[5] == (2int, "settings.gradle.kts"@, false));
        assert(rules_table()[2].0 == "build"@);
    }
    if k == 6 {
        assert(markers_table()[6] == (2int, "CMakeLists.txt"@, false));
        assert(rules_table()[2].0 == "build"@);
    }
    if k == 7 {
        assert(markers_table()[7] == (2int, "pubspec.yaml"@, false));
        assert(rules_table()[2].0 == "build"@);
    }
    if k == 8 {
        assert(markers_table()[8] == (2int, "package.json"@, false));
        assert(rules_table()[2].0 == "build"@);
    }
    if k == 9 {
        assert(markers_table()[9] == (3int, "package.json"@, false));
        assert(rules_table()[3].0 == "dist"@);
    }
    if k == 10 {
        assert(markers_table()[10] == (3int, "pyproject.toml"@, false));
        assert(rules_table()[3].0 == "dist"@);
    }
    if k == 11 {
        assert(markers_table()[11] == (3int, "setup.py"@, false));
        assert(rules_table()[3].0 == "dist"@);
    }
    if k == 12 {
        assert(markers_table()[12] == (4int, "package.json"@, false));
        assert(rules_table()[4].0 == "out"@);
    }
    if k == 13 {
        assert(markers_table()[13] == (4int, "tsconfig.json"@, false));
        assert(rules_table()[4].0 == "out"@);
    }
    if k == 14 {
        assert(markers_table()[14] == (5int, "package.json"@, false));
        assert(rules_table()[5].0 == ".next"@);
    }
    if k == 15 {
        assert(markers_table()[15] == (6int, "package.json"@, false));
        assert(rules_table()[6].0 == ".nuxt"@);
    }
    if k == 16 {
        assert(markers_table()[16] == (7int, "package.json"@, false));
        assert(rules_table()[7].0 == ".output"@);
    }
    if k == 17 {
        assert(markers_table()[17] == (8int, "package.json"@, false));
        assert(rules_table()[8].0 == ".turbo"@);
    }
    if k == 18 {
        assert(markers_table()[18] == (9int, "package.json"@, false));
        assert(rules_table()[9].0 == ".parcel-cache"@);
    }
    if k == 19 {
        assert(markers_table()[19] == (10int, "package.json"@, false));
        assert(rules_table()[10].0 == ".expo"@);
    }
    if k == 20 {
        assert(markers_table()[20] == (10int, "app.json"@, false));
        assert(rules_table()[10].0 == ".expo"@);
    }
    if k == 21 {
        assert(markers_table()[21] == (11int, "package.json"@, false));
        assert(rules_table()[11].0 == "coverage"@);
    }
    if k == 22 {
        assert(markers_table()[22] == (11int, "pyproject.toml"@, false));
        assert(rules_table()[11].0 == "coverage"@);
    }
    if k == 23 {
        assert(markers_table()[23] == (12int, "build.gradle"@, false));
        assert(rules_table()[12].0 == ".gradle"@);
    }
    if k == 24 {
        assert(markers_table()[24] == (12int, "build.gradle.kts"@, false));
        assert(rules_table()[12].0 == ".gradle"@);
    }
    if k == 25 {
        assert(markers_table()[25] == (12int, "settings.gradle"@, false));
        assert(rules_table()[12].0 == ".gradle"@);
    }
    if k == 26 {
        assert(markers_table()[26] == (12int, "settings.gradle.kts"@, false));
        assert(rules_table()[12].0 == ".gradle"@);
    }
    if k == 27 {
        assert(markers_table()[27] == (13int, "Package.swift"@, false));
        assert(rules_table()[13].0 == ".build"@);
    }
    if k == 28 {
        assert(markers_table()[28] == (14int, "pubspec.yaml"@, false));
        assert(rules_table()[14].0 == ".dart_tool"@);
    }
    if k == 29 {
        assert(markers_table()[29] == (15int, "Podfile"@, false));
        assert(rules_table()[15].0 == "Pods"@);
    }
    if k == 30 {
        assert(markers_table()[30] == (20int, "tox.ini"@, false));
        assert(rules_table()[20].0 == ".tox"@);
    }
    if k == 31 {
        assert(markers_table()[31] == (20int, "pyproject.toml"@, false));
        assert(rules_table()[20].0 == ".tox"@);
    }
    if k == 32 {
        assert(markers_table()[32] == (21int, "pyvenv.cfg"@, true));
        assert(rules_table()[21].0 == ".venv"@);
    }
    if k == 33 {
        assert(markers_table()[33] == (22int, "pyvenv.cfg"@, true));
        assert(rules_table()[22].0 == "venv"@);
    }
}

proof fn lemma_no_rule_from(dir: Seq<char>, found: Seq<bool>, i: int)
    requires
        file_name_spec(dir) is None || parent_text_spec(dir) is None,
        0 <= i,
    ensures
        first_rule_from(dir, found, i) == -1,
    decreases rules_table().len() - i,
{
    if i < rules_table().len() {
        lemma_no_rule_from(dir, found, i + 1);
    }
}


/// A model written back as text.
fn render_model(m: &crate::paths::PathModel) -> (r: String)
    ensures
        r@ == render(m@),
{
    let sep = if m.prefix.len() > 0 { "\\" } else { "/" };
    let joined = join_strings(&m.parts, sep);
    proof {
        reveal_strlit("/");
        reveal_strlit("\\");
        reveal_strlit(".");
        reveal_strlit("./");
        assert(string_views(m.parts@) == m@.parts);
        assert(sep@ == sep_text(m@));
    }
    let network = m.prefix.len() == 2 && m.prefix[0] == '\\' && m.prefix[1] == '\\';
    proof {
        if m@.prefix == seq!['\\', '\\'] {
            assert(m.prefix@.len() == 2);
        }
        if network {
            assert(m@.prefix =~= seq!['\\', '\\']);
        }
    }
    let rest = if m.absolute {
        if network {
            joined
        } else {
            concat(sep, joined.as_str())
        }
    } else if m.cur_dir {
        if m.parts.len() == 0 {
            ".".to_string()
        } else {
            concat("./", joined.as_str())
        }
    } else {
        joined
    };
    let pre = string_from(m.prefix.as_slice());
    concat(pre.as_str(), rest.as_str())
}

// ----- which project an artifact belongs to -----

pub open spec fn chain_measure(v: PathView) -> nat {
    2 * v.parts.len() + if v.cur_dir { 1nat } else { 0nat }
}

/// The directories looked at for a repository, from `v` up: up to the scan root (included)
/// or the top.
pub open spec fn chain(v: PathView, root: PathView) -> Seq<PathView>
    decreases chain_measure(v),
{
    if crate::paths::view_eq(v, root) {
        seq![v]
    } else {
        match parent_view(v) {
            Some(p) => if chain_measure(p) < chain_measure(v) {
                seq![v] + chain(p, root)
            } else {
                seq![v]
            },
            None => seq![v],
        }
    }
}

/// Where the search for an artifact's project looks, in order: the directory the artifact sits
/// in, then each directory above it, up to the scan root. Empty when the artifact has no parent.
pub open spec fn search_chain_spec(artifact: Seq<char>, root: Seq<char>) -> Seq<Seq<char>> {
    match parent_view(path_view(artifact)) {
        Some(start) => chain(start, path_view(root)).map_values(|v: PathView| render(v)),
        None => Seq::empty(),
    }
}

pub fn search_chain(artifact: &str, root: &str) -> (r: Vec<String>)
    ensures
        r@.map_values(|s: String| s@) == search_chain_spec(artifact@, root@),
{
    let mut m = parse(artifact);
    let r_model = parse(root);
    // step to the parent of the artifact
    let ghost first = m@;
    if m.parts.len() > 0 {
        m.parts.pop();
        proof {
            assert(m@.parts =~= first.parts.drop_last());
            assert(m@ == PathView { parts: first.parts.drop_last(), ..first });
        }
    } else if m.cur_dir {
        m.cur_dir = false;
        m.absolute = false;
        proof {
            assert(m@.parts =~= Seq::<Seq<char>>::empty());
        }
    } else {
        proof {
            assert(m@.parts.len() == 0);
        }
        return Vec::new();
    }
    let ghost start = m@;
    proof {
        assert(parent_view(path_view(artifact@)) == Some(start));
    }
    let mut out: Vec<String> = Vec::new();
    loop
        invariant_except_break
            out@.map_values(|s: String| s@) + chain(m@, r_model@).map_values(|v: PathView| render(v))
                == chain(start, r_model@).map_values(|v: PathView| render(v)),
        invariant
            r_model@ == path_view(root@),
        ensures
            out@.map_values(|s: String| s@) == chain(start, r_model@).map_values(|v: PathView| render(v)),
        decreases chain_measure(m@),
    {
        let ghost prev = out@;
        let ghost v = m@;
        out.push(render_model(&m));
        proof {
            assert(out@.map_values(|s: String| s@) =~= prev.map_values(|s: String| s@).push(render(v)));
        }
        if crate::paths::model_eq(&m, &r_model) {
            proof {
                assert(chain(v, r_model@) == seq![v]);
                assert(chain(v, r_model@).map_values(|x: PathView| render(x)) =~= seq![render(v)]);
            }
            break;
        }
        if m.parts.len() > 0 {
            m.parts.pop();
            proof {
                assert(m@.parts =~= v.parts.drop_last());
                assert(m@ == PathView { parts: v.parts.drop_last(), ..v });
            }
        } else if m.cur_dir {
            m.cur_dir = false;
            m.absolute = false;
            m.prefix = Vec::new();
            proof {
                assert(m@.parts =~= Seq::<Seq<char>>::empty());
                assert(m@.prefix =~= Seq::<char>::empty());
            }
        } else {
            proof {
                assert(parent_view(v) is None);
                assert(chain(v, r_model@).map_values(|x: PathView| render(x)) =~= seq![render(v)]);
            }
            break;
        }
        proof {
            assert(parent_view(v) == Some(m@));
            assert(chain_measure(m@) < chain_measure(v));
            assert(chain(v, r_model@) == seq![v] + chain(m@, r_model@));
            assert(chain(v, r_model@).map_values(|x: PathView| render(x)) =~= seq![render(v)] + chain(m@, r_model@).map_values(|x: PathView| render(x)));
        }
    }
    out
}

/// Which of the searched directories is the project: the first holding a repository
/// (`has_git[k]` for directory `k`), else the directory the artifact sits in (the first).
pub fn project_dir(has_git: &Vec<bool>) -> (r: usize)
    ensures
        (exists|i: int| 0 <= i < has_git@.len() && has_git@[i]) ==> r < has_git@.len() && has_git@[r as int] && forall|j: int| 0 <= j < r ==> !has_git@[j],
        !(exists|i: int| 0 <= i < has_git@.len() && has_git@[i]) ==> r == 0,
{
    let mut i: usize = 0;
    while i < has_git.len()
        invariant
            i <= has_git@.len(),
            forall|j: int| 0 <= j < i ==> !has_git@[j],
        decreases has_git@.len() - i,
    {
        if has_git[i] {
            return i;
        }
        i = i + 1;
    }
    0
}

/// A project directory as a group: its path, its folder name (or the whole path when it has
/// none), and when it was last worked on.
pub fn describe(dir: &str, last_active: Option<i64>) -> (r: TargetGroup)
    ensures
        r.key@ == dir@,
        r.label@ == match file_name_spec(dir@) {
            Some(n) => n,
            None => dir@,
        },
        r.last_active_at == last_active,
{
    let label = match file_name(dir) {
        Some(n) => n,
        None => owned(dir),
    };
    TargetGroup { key: owned(dir), label, last_active_at: last_active }
}

/// The latest of the times that are known.
pub open spec fn latest_of(times: Seq<Option<i64>>) -> Option<i64>
    decreases times.len(),
{
    if times.len() == 0 {
        None
    } else {
        let rest = latest_of(times.drop_last());
        match times.last() {
            Some(t) => match rest {
                Some(u) => Some(if t > u { t } else { u }),
                None => Some(t),
            },
            None => rest,
        }
    }
}

/// When someone last did something in a repository: the latest of the modification times of
/// its `.git/index` and `.git/HEAD` that could be read. `.git/index` moves on every stage,
/// commit, checkout or status that refreshes it, which tracks real work far better than the
/// directory's own time; a project with no readable time has no answer at all, which is
/// reported as unknown rather than as "never".
pub fn latest(times: &Vec<Option<i64>>) -> (r: Option<i64>)
    ensures
        r == latest_of(times@),
{
    let mut best: Option<i64> = None;
    let mut i: usize = 0;
    while i < times.len()
        invariant
            i <= times@.len(),
            best == latest_of(times@.take(i as int)),
        decreases times@.len() - i,
    {
        proof {
            assert(times@.take(i + 1).drop_last() =~= times@.take(i as int));
        }
        if let Some(t) = times[i] {
            best = match best {
                Some(u) => Some(if t > u { t } else { u }),
                None => Some(t),
            };
        }
        i = i + 1;
    }
    assert(times@.take(times@.len() as int) =~= times@);
    best
}

/// The files inside a repository whose times say when it was last worked on.
pub fn activity_files(dir: &str) -> (r: Vec<String>)
    ensures
        r@.len() == 2,
        r@[0]@ == join_spec(join_spec(dir@, ".git"@), "index"@),
        r@[1]@ == join_spec(join_spec(dir@, ".git"@), "HEAD"@),
{
    let git = join(dir, ".git");
    let mut r: Vec<String> = Vec::new();
    r.push(join(git.as_str(), "index"));
    r.push(join(git.as_str(), "HEAD"));
    r
}

// ----- labels -----

/// The components of `dir` below `root`, as `Path::strip_prefix` gives them; all of `dir`'s,
/// root included, when it does not lie under `root`.
pub open spec fn rel_components(root: Seq<char>, dir: Seq<char>) -> Seq<Seq<char>> {
    let d = path_view(dir);
    let r = path_view(root);
    if crate::paths::view_starts_with(d, r) {
        d.parts.subrange(r.parts.len() as int, d.parts.len() as int)
    } else {
        (if d.absolute { seq!["/"@] } else if d.cur_dir { seq!["."@] } else { Seq::empty() }) + d.parts
    }
}

/// `project/node_modules` style label relative to the scanned root; when that takes more than
/// three components, `…/` and the last three.
pub open spec fn label_spec(root: Seq<char>, dir: Seq<char>) -> Seq<char> {
    let comps = rel_components(root, dir);
    if comps.len() <= 3 {
        join_with(comps, "/"@)
    } else {
        "…/"@ + join_with(comps.subrange(comps.len() - 3, comps.len() as int), "/"@)
    }
}

pub fn label_for(root: &str, dir: &str) -> (r: String)
    ensures
        r@ == label_spec(root@, dir@),
{
    let d = parse(dir);
    let rm = parse(root);
    let mut comps: Vec<String> = Vec::new();
    proof {
        reveal_strlit("/");
        reveal_strlit(".");
        reveal_strlit("…/");
    }
    if crate::paths::model_starts_with(&d, &rm) {
        let mut i: usize = rm.parts.len();
        proof {
            assert(rm@.parts.len() == rm.parts@.len());
            assert(d@.parts.len() == d.parts@.len());
        }
        while i < d.parts.len()
            invariant
                rm.parts@.len() <= i <= d.parts@.len(),
                string_views(comps@) == d@.parts.subrange(rm.parts@.len() as int, i as int),
                d@.parts == string_views(d.parts@),
            decreases d.parts@.len() - i,
        {
            let ghost prev = comps@;
            comps.push(d.parts[i].clone());
            proof {
                assert(string_views(comps@) =~= string_views(prev).push(d.parts@[i as int]@));
                assert(d@.parts.subrange(rm.parts@.len() as int, i + 1) =~= d@.parts.subrange(rm.parts@.len() as int, i as int).push(d@.parts[i as int]));
            }
            i = i + 1;
        }
    } else {
        if d.absolute {
            comps.push("/".to_string());
        } else if d.cur_dir {
            comps.push(".".to_string());
        }
        let ghost head = string_views(comps@);
        let mut i: usize = 0;
        while i < d.parts.len()
            invariant
                i <= d.parts@.len(),
                string_views(comps@) == head + d@.parts.take(i as int),
                d@.parts == string_views(d.parts@),
            decreases d.parts@.len() - i,
        {
            let ghost prev = comps@;
            comps.push(d.parts[i].clone());
            proof {
                assert(string_views(comps@) =~= string_views(prev).push(d.parts@[i as int]@));
                assert(d@.parts.take(i + 1) =~= d@.parts.take(i as int).push(d@.parts[i as int]));
            }
            i = i + 1;
        }
        proof {
            assert(d@.parts.take(i as int) =~= d@.parts);
            if d.absolute {
                assert(head =~= seq!["/"@]);
            } else if d.cur_dir {
                assert(head =~= seq!["."@]);
            } else {
                assert(head =~= Seq::<Seq<char>>::empty());
            }
        }
    }
    let n = comps.len();
    if n <= 3 {
        join_strings(&comps, "/")
    } else {
        let mut last: Vec<String> = Vec::new();
        last.push(comps[n - 3].clone());
        last.push(comps[n - 2].clone());
        last.push(comps[n - 1].clone());
        proof {
            assert(string_views(last@) =~= string_views(comps@).subrange(n - 3, n as int));
        }
        let tail = join_strings(&last, "/");
        concat("…/", tail.as_str())
    }
}


pub open spec fn path_keys(ts: Seq<crate::models::CleanupTarget>) -> Seq<(u64, Seq<char>)> {
    ts.map_values(|t: crate::models::CleanupTarget| (0u64, t.path@))
}

/// The targets in path order, so the same machine always produces the same list.
pub fn sorted_by_path(ts: Vec<crate::models::CleanupTarget>) -> (r: Vec<crate::models::CleanupTarget>)
    ensures
        exists|order: Seq<usize>| {
            &&& #[trigger] crate::analyzer::is_ordering(order, ts@.len() as int)
            &&& crate::analyzer::sorted_by_size(path_keys(ts@), order)
            &&& r@.len() == ts@.len()
            &&& forall|k: int| 0 <= k < r@.len() ==> #[trigger] r@[k] == ts@[order[k] as int]
        },
{
    let mut keys: Vec<(u64, String)> = Vec::new();
    let mut k: usize = 0;
    while k < ts.len()
        invariant
            k <= ts@.len(),
            crate::analyzer::key_views(keys@) == path_keys(ts@).take(k as int),
        decreases ts@.len() - k,
    {
        let ghost prev = keys@;
        keys.push((0, ts[k].path.clone()));
        proof {
            assert(crate::analyzer::key_views(keys@) =~= crate::analyzer::key_views(prev).push((0u64, ts@[k as int].path@)));
            assert(path_keys(ts@).take(k + 1) =~= path_keys(ts@).take(k as int).push((0u64, ts@[k as int].path@)));
        }
        k = k + 1;
    }
    proof {
        assert(path_keys(ts@).take(k as int) =~= path_keys(ts@));
        assert(crate::analyzer::key_views(keys@).len() == keys@.len());
    }
    let order = crate::analyzer::largest_first(&keys);
    let mut r: Vec<crate::models::CleanupTarget> = Vec::new();
    let mut j: usize = 0;
    while j < ts.len()
        invariant
            j <= ts@.len(),
            crate::analyzer::is_ordering(order@, ts@.len() as int),
            r@.len() == j,
            forall|a: int| 0 <= a < j ==> #[trigger] r@[a] == ts@[order@[a] as int],
        decreases ts@.len() - j,
    {
        r.push(ts[order[j]].copy());
        j = j + 1;
    }
    r
}

} // verus!
