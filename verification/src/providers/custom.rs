//! Providers defined in a file instead of in code.
//!
//! `providers.json` in the application data directory is read at start-up and its entries join
//! the built-in ones. What a file cannot do is bypass anything: a custom provider only chooses
//! *where to look*; every path it produces goes through the same safety policy as a built-in
//! one. Reading the file and turning its JSON into entries is the caller's part; checking the
//! entries and expanding their paths is here.

use vstd::prelude::*;

use crate::models::{Category, RiskLevel};
use crate::paths::{is_absolute, join, join_spec};
use crate::platform::KnownPaths;
use crate::providers::registry::ProviderEntry;
use crate::text::{
    chars_of, concat, find_pattern, first_occurrence, owned, str_eq, str_views, string_from,
    string_of_range, string_views,
};

verus! {

/// The file Prune reads custom providers from, inside the application data directory.
pub const FILE_NAME: &'static str = "providers.json";

/// The priority of a custom provider: above the built-in generic ones, so a location someone
/// named by hand is reported under their own name rather than as an anonymous cache folder.
pub const CUSTOM_PRIORITY: u8 = 90;

/// One provider as written in the file.
#[derive(Debug, Clone, PartialEq, Eq)]
pub struct CustomProviderSpec {
    /// `snake_case`, unique, and not one of the built-in ids.
    pub id: String,
    pub name: String,
    pub description: String,
    pub category: Category,
    pub risk: RiskLevel,
    /// `Whole` treats each path as one item; `Children` treats each entry inside it as one.
    pub mode: CustomMode,
    /// Where to look. Supports `~` and `{home}`, `{cache}`, `{appSupport}`, `{localAppData}`,
    /// `{temp}`, `{downloads}`, `{logs}`.
    pub paths: Vec<String>,
    /// Only offer entries untouched for at least this long.
    pub min_age_days: Option<u32>,
    /// Names to skip in `Children` mode.
    pub exclude: Vec<String>,
}

#[derive(Debug, Clone, Copy, PartialEq, Eq, Structural)]
pub enum CustomMode {
    Whole,
    Children,
}

impl Default for CustomMode {
    fn default() -> (r: Self)
        ensures
            r == CustomMode::Whole,
    {
        CustomMode::Whole
    }
}

/// Something wrong with the file, reported rather than silently ignored: a provider that
/// quietly failed to load would look exactly like one that found nothing.
#[derive(Debug, Clone, PartialEq, Eq)]
pub struct CustomIssue {
    /// The offending provider id, when it got far enough to have one.
    pub id: Option<String>,
    pub message: String,
}

/// A provider built from a file entry.
#[derive(Debug, Clone)]
pub struct CustomProvider {
    spec: CustomProviderSpec,
}

/// What was read from the file.
#[derive(Debug)]
pub struct CustomProviders {
    pub providers: Vec<CustomProvider>,
    pub issues: Vec<CustomIssue>,
}

impl CustomProviders {
    /// Nothing at all: what a missing file gives.
    pub fn none() -> (r: Self)
        ensures
            r.providers@.len() == 0,
            r.issues@.len() == 0,
    {
        CustomProviders { providers: Vec::new(), issues: Vec::new() }
    }

    /// A file that could not be used at all: no providers, one issue saying why.
    pub fn unusable(message: String) -> (r: Self)
        ensures
            r.providers@.len() == 0,
            r.issues@.len() == 1,
            r.issues@[0].id is None,
            r.issues@[0].message@ == message@,
    {
        let mut issues: Vec<CustomIssue> = Vec::new();
        issues.push(CustomIssue { id: None, message });
        CustomProviders { providers: Vec::new(), issues }
    }
}

/// The locations a path may start with.
pub open spec fn known_tokens() -> Seq<Seq<char>> {
    seq!["home"@, "cache"@, "appSupport"@, "localAppData"@, "temp"@, "downloads"@, "logs"@]
}

pub open spec fn is_known(token: Seq<char>) -> bool {
    known_tokens().contains(token)
}

fn known_token_list() -> (r: Vec<&'static str>)
    ensures
        str_views(r@) == known_tokens(),
{
    let mut v: Vec<&'static str> = Vec::new();
    v.push("home");
    v.push("cache");
    v.push("appSupport");
    v.push("localAppData");
    v.push("temp");
    v.push("downloads");
    v.push("logs");
    assert(str_views(v@) =~= known_tokens());
    v
}

/// Whether Prune knows the location `{token}`.
pub fn is_known_token(token: &str) -> (r: bool)
    ensures
        r == is_known(token@),
{
    let list = known_token_list();
    let mut i: usize = 0;
    while i < list.len()
        invariant
            i <= list@.len(),
            str_views(list@) == known_tokens(),
            forall|j: int| 0 <= j < i ==> known_tokens()[j] != token@,
        decreases list@.len() - i,
    {
        assert(str_views(list@)[i as int] == list@[i as int]@);
        if str_eq(list[i], token) {
            return true;
        }
        i = i + 1;
    }
    proof {
        if known_tokens().contains(token@) {
            let j = choose|j: int| 0 <= j < known_tokens().len() && known_tokens()[j] == token@;
            assert(known_tokens()[j] != token@);
        }
    }
    false
}

pub open spec fn opt_view(o: Option<String>) -> Option<Seq<char>> {
    match o {
        Some(s) => Some(s@),
        None => None,
    }
}

/// Where `{token}` is on this machine, if it names a location this platform has.
pub open spec fn token_location(token: Seq<char>, known: KnownPaths) -> Option<Seq<char>> {
    if token == "home"@ {
        Some(known.home@)
    } else if token == "cache"@ {
        opt_view(known.user_cache)
    } else if token == "appSupport"@ {
        opt_view(known.app_support)
    } else if token == "localAppData"@ {
        opt_view(known.local_app_data)
    } else if token == "temp"@ {
        Some(known.temp@)
    } else if token == "downloads"@ {
        opt_view(known.downloads)
    } else if token == "logs"@ {
        opt_view(known.user_logs)
    } else {
        None
    }
}

fn copy_opt(o: &Option<String>) -> (r: Option<String>)
    ensures
        opt_view(r) == opt_view(*o),
{
    match o {
        Some(s) => Some(s.clone()),
        None => None,
    }
}

/// Where `{token}` is on this machine.
pub fn resolve_token(token: &str, known: &KnownPaths) -> (r: Option<String>)
    ensures
        opt_view(r) == token_location(token@, *known),
{
    if str_eq(token, "home") {
        Some(known.home.clone())
    } else if str_eq(token, "cache") {
        copy_opt(&known.user_cache)
    } else if str_eq(token, "appSupport") {
        copy_opt(&known.app_support)
    } else if str_eq(token, "localAppData") {
        copy_opt(&known.local_app_data)
    } else if str_eq(token, "temp") {
        Some(known.temp.clone())
    } else if str_eq(token, "downloads") {
        copy_opt(&known.downloads)
    } else if str_eq(token, "logs") {
        copy_opt(&known.user_logs)
    } else {
        None
    }
}

/// The first `{token}` in `s` that Prune does not know. A `{` with no `}` after it ends the
/// search.
#[verifier::opaque]
pub open spec fn first_unknown(s: Seq<char>) -> Option<Seq<char>>
    decreases s.len(),
{
    match first_occurrence(s, seq!['{']) {
        None => None,
        Some(i) => {
            let after = s.subrange(i + 1, s.len() as int);
            match first_occurrence(after, seq!['}']) {
                None => None,
                Some(e) => {
                    let token = after.subrange(0, e);
                    if !is_known(token) {
                        Some(token)
                    } else if 0 <= i < s.len() && 0 <= e < after.len() {
                        first_unknown(after.subrange(e + 1, after.len() as int))
                    } else {
                        None
                    }
                },
            }
        },
    }
}

/// Where `{token}` is known, the search goes on after it.
proof fn lemma_first_unknown_step(s: Seq<char>, i: int, e: int)
    requires
        first_occurrence(s, seq!['{']) == Some(i),
        0 <= i < s.len(),
        first_occurrence(s.subrange(i + 1, s.len() as int), seq!['}']) == Some(e),
        0 <= e < s.len() - i - 1,
        is_known(s.subrange(i + 1, s.len() as int).subrange(0, e)),
    ensures
        first_unknown(s) == first_unknown(s.subrange(i + 1, s.len() as int).subrange(e + 1, s.len() - i - 1)),
{
    reveal(first_unknown);
}

proof fn lemma_first_unknown_no_open(s: Seq<char>)
    requires
        first_occurrence(s, seq!['{']) is None,
    ensures
        first_unknown(s) is None,
{
    reveal(first_unknown);
}

proof fn lemma_first_unknown_no_close(s: Seq<char>, i: int)
    requires
        first_occurrence(s, seq!['{']) == Some(i),
        first_occurrence(s.subrange(i + 1, s.len() as int), seq!['}']) is None,
    ensures
        first_unknown(s) is None,
{
    reveal(first_unknown);
}

proof fn lemma_first_unknown_found(s: Seq<char>, i: int, e: int)
    requires
        first_occurrence(s, seq!['{']) == Some(i),
        first_occurrence(s.subrange(i + 1, s.len() as int), seq!['}']) == Some(e),
        !is_known(s.subrange(i + 1, s.len() as int).subrange(0, e)),
    ensures
        first_unknown(s) == Some(s.subrange(i + 1, s.len() as int).subrange(0, e)),
{
    reveal(first_unknown);
}

/// The first `{token}` in `path` that Prune does not recognise.
pub fn unknown_token(path: &str) -> (r: Option<String>)
    ensures
        opt_view(r) == first_unknown(path@),
{
    let open: [char; 1] = ['{'];
    let close: [char; 1] = ['}'];
    assert(open@ =~= seq!['{']);
    assert(close@ =~= seq!['}']);
    let mut rest = chars_of(path);
    loop
        invariant
            open@ == seq!['{'],
            close@ == seq!['}'],
            first_unknown(rest@) == first_unknown(path@),
        decreases rest@.len(),
    {
        let i = match find_pattern(rest.as_slice(), open.as_slice()) {
            None => {
                proof {
                    lemma_first_unknown_no_open(rest@);
                }
                return None;
            },
            Some(i) => i,
        };
        assert(crate::text::occurs_at(rest@, open@, i as int));
        assert(open@.len() == 1);
        assert(i + 1 <= rest@.len());
        assert(rest@.len() == rest.len());
        let after_s = string_of_range(rest.as_slice(), i + 1, rest.len());
        let after = chars_of(after_s.as_str());
        assert(after@ == rest@.subrange(i + 1, rest@.len() as int));
        let e = match find_pattern(after.as_slice(), close.as_slice()) {
            None => {
                proof {
                    lemma_first_unknown_no_close(rest@, i as int);
                }
                return None;
            },
            Some(e) => e,
        };
        assert(crate::text::occurs_at(after@, close@, e as int));
        assert(close@.len() == 1);
        assert(e + 1 <= after@.len());
        assert(after@.len() == after.len());
        let token = string_of_range(after.as_slice(), 0, e);
        if !is_known_token(token.as_str()) {
            proof {
                lemma_first_unknown_found(rest@, i as int, e as int);
            }
            return Some(token);
        }
        let next = string_of_range(after.as_slice(), e + 1, after.len());
        proof {
            lemma_first_unknown_step(rest@, i as int, e as int);
        }
        rest = chars_of(next.as_str());
    }
}

/// `s` without leading `/` and `\`.
pub open spec fn trim_leading_separators(s: Seq<char>) -> Seq<char>
    decreases s.len(),
{
    if s.len() > 0 && (s[0] == '/' || s[0] == '\\') {
        trim_leading_separators(s.drop_first())
    } else {
        s
    }
}

/// What one written path means on this machine: `~/rest` and `~` under the home directory,
/// `{token}/rest` under the location the token names, anything else as written; `None` when
/// the token names a location this platform does not have, or the result is not absolute.
pub open spec fn expanded(path: Seq<char>, known: KnownPaths) -> Option<Seq<char>> {
    let e: Option<Seq<char>> = if path.len() >= 2 && path[0] == '~' && path[1] == '/' {
        Some(join_spec(known.home@, path.subrange(2, path.len() as int)))
    } else if path == seq!['~'] {
        Some(known.home@)
    } else if path.len() > 0 && path[0] == '{' {
        match first_occurrence(path, seq!['}']) {
            None => None,
            Some(end) => match token_location(path.subrange(1, end), known) {
                None => None,
                Some(base) => {
                    let rest = trim_leading_separators(path.subrange(end + 1, path.len() as int));
                    if rest.len() == 0 {
                        Some(base)
                    } else {
                        Some(join_spec(base, rest))
                    }
                },
            },
        }
    } else {
        Some(path)
    };
    match e {
        Some(p) => if is_absolute(p) {
            Some(p)
        } else {
            None
        },
        None => None,
    }
}

fn drop_leading_separators(s: &[char]) -> (r: usize)
    ensures
        r <= s@.len(),
        s@.subrange(r as int, s@.len() as int) == trim_leading_separators(s@),
{
    let mut n: usize = 0;
    assert(s@.subrange(0, s@.len() as int) == s@);
    while n < s.len() && (s[n] == '/' || s[n] == '\\')
        invariant
            n <= s@.len(),
            trim_leading_separators(s@.subrange(n as int, s@.len() as int)) == trim_leading_separators(s@),
        decreases s@.len() - n,
    {
        assert(s@.subrange(n as int, s@.len() as int).drop_first() == s@.subrange(n + 1, s@.len() as int));
        n = n + 1;
    }
    n
}

/// Turns one written path into a real one.
///
/// `None` when it names a location this platform does not have (`{logs}` on Windows, for
/// instance), which is not an error: a file meant for both platforms says where to look on
/// each, and the half that does not apply is simply skipped.
pub fn expand(path: &str, known: &KnownPaths) -> (r: Option<String>)
    ensures
        opt_view(r) == expanded(path@, *known),
{
    let cs = chars_of(path);
    let e: String = if cs.len() >= 2 && cs[0] == '~' && cs[1] == '/' {
        let rest = string_of_range(cs.as_slice(), 2, cs.len());
        join(known.home.as_str(), rest.as_str())
    } else if cs.len() == 1 && cs[0] == '~' {
        assert(path@ =~= seq!['~']);
        known.home.clone()
    } else if cs.len() > 0 && cs[0] == '{' {
        let close: [char; 1] = ['}'];
        assert(close@ =~= seq!['}']);
        let end = match find_pattern(cs.as_slice(), close.as_slice()) {
            None => {
                return None;
            },
            Some(end) => end,
        };
        assert(crate::text::occurs_at(cs@, close@, end as int));
        proof {
            if end == 0 {
                assert(cs@.subrange(0, 1)[0] == '}');
            }
        }
        let token = string_of_range(cs.as_slice(), 1, end);
        let base = match resolve_token(token.as_str(), known) {
            None => {
                return None;
            },
            Some(b) => b,
        };
        let tail = string_of_range(cs.as_slice(), end + 1, cs.len());
        let tail_chars = chars_of(tail.as_str());
        let k = drop_leading_separators(tail_chars.as_slice());
        let rest = string_of_range(tail_chars.as_slice(), k, tail_chars.len());
        if k == tail_chars.len() {
            base
        } else {
            join(base.as_str(), rest.as_str())
        }
    } else {
        proof {
            if cs@.len() == 1 && cs@[0] == '~' {
                assert(path@ =~= seq!['~']);
            }
            if path@ == seq!['~'] {
                assert(cs@[0] == '~');
            }
        }
        owned(path)
    };
    let parsed = crate::paths::parse(e.as_str());
    if parsed.absolute {
        Some(e)
    } else {
        None
    }
}

/// Whether every character of an id is a lower-case ASCII letter, a digit or `_`.
pub open spec fn id_chars_ok(id: Seq<char>) -> bool {
    forall|k: int| 0 <= k < id.len() ==> ('a' <= #[trigger] id[k] <= 'z' || '0' <= id[k] <= '9' || id[k] == '_')
}

/// Why an entry cannot be used, checked in this order; `None` when it can.
#[verifier::opaque]
pub open spec fn spec_problem(spec: CustomProviderSpec, reserved: Seq<Seq<char>>, seen: Seq<Seq<char>>) -> Option<Seq<char>> {
    if crate::text::trim_seq(spec.id@).len() == 0 {
        Some("id must not be empty"@)
    } else if !id_chars_ok(spec.id@) {
        Some("id may only contain lowercase letters, digits and underscores"@)
    } else if reserved.contains(spec.id@) {
        Some("id '"@ + spec.id@ + "' is already used by a built-in provider"@)
    } else if seen.contains(spec.id@) {
        Some("id '"@ + spec.id@ + "' appears more than once"@)
    } else if crate::text::trim_seq(spec.name@).len() == 0 {
        Some("name must not be empty"@)
    } else if spec.paths@.len() == 0 {
        Some("at least one path is needed"@)
    } else if spec.risk == RiskLevel::Protected {
        Some("risk 'protected' would make every item unusable"@)
    } else {
        match first_bad_path(string_views(spec.paths@)) {
            Some((token, path)) => Some("unknown location '{"@ + token + "}' in \""@ + path + "\""@),
            None => None,
        }
    }
}

/// The first path that names an unknown location, with that location.
pub open spec fn first_bad_path(paths: Seq<Seq<char>>) -> Option<(Seq<char>, Seq<char>)>
    decreases paths.len(),
{
    if paths.len() == 0 {
        None
    } else {
        match first_bad_path(paths.drop_last()) {
            Some(x) => Some(x),
            None => match first_unknown(paths.last()) {
                Some(t) => Some((t, paths.last())),
                None => None,
            },
        }
    }
}

fn contains_str(list: &[&str], s: &str) -> (r: bool)
    ensures
        r == str_views(list@).contains(s@),
{
    let mut i: usize = 0;
    while i < list.len()
        invariant
            i <= list@.len(),
            forall|j: int| 0 <= j < i ==> list@[j]@ != s@,
        decreases list@.len() - i,
    {
        if str_eq(list[i], s) {
            assert(str_views(list@)[i as int] == s@);
            return true;
        }
        i = i + 1;
    }
    proof {
        if str_views(list@).contains(s@) {
            let j = choose|j: int| 0 <= j < str_views(list@).len() && str_views(list@)[j] == s@;
            assert(list@[j]@ == s@);
        }
    }
    false
}

fn contains_string(list: &Vec<String>, s: &str) -> (r: bool)
    ensures
        r == string_views(list@).contains(s@),
{
    let mut i: usize = 0;
    while i < list.len()
        invariant
            i <= list@.len(),
            forall|j: int| 0 <= j < i ==> list@[j]@ != s@,
        decreases list@.len() - i,
    {
        if str_eq(list[i].as_str(), s) {
            assert(string_views(list@)[i as int] == s@);
            return true;
        }
        i = i + 1;
    }
    proof {
        if string_views(list@).contains(s@) {
            let j = choose|j: int| 0 <= j < string_views(list@).len() && string_views(list@)[j] == s@;
            assert(list@[j]@ == s@);
        }
    }
    false
}

fn id_chars_valid(id: &str) -> (r: bool)
    ensures
        r == id_chars_ok(id@),
{
    let cs = chars_of(id);
    let mut i: usize = 0;
    while i < cs.len()
        invariant
            i <= cs@.len(),
            cs@ == id@,
            forall|k: int| 0 <= k < i ==> ('a' <= #[trigger] cs@[k] <= 'z' || '0' <= cs@[k] <= '9' || cs@[k] == '_'),
        decreases cs@.len() - i,
    {
        let c = cs[i];
        if !(('a' <= c && c <= 'z') || ('0' <= c && c <= '9') || c == '_') {
            return false;
        }
        i = i + 1;
    }
    true
}

/// The first path that names an unknown location, with that location.
fn bad_path(paths: &Vec<String>) -> (r: Option<(String, String)>)
    ensures
        match r {
            Some((t, p)) => first_bad_path(string_views(paths@)) == Some((t@, p@)),
            None => first_bad_path(string_views(paths@)) is None,
        },
{
    let mut i: usize = 0;
    while i < paths.len()
        invariant
            i <= paths@.len(),
            first_bad_path(string_views(paths@).take(i as int)) is None,
        decreases paths@.len() - i,
    {
        proof {
            assert(string_views(paths@).take(i + 1).drop_last() == string_views(paths@).take(i as int));
            assert(string_views(paths@).take(i + 1).last() == paths@[i as int]@);
            lemma_first_bad_prefix(string_views(paths@), i + 1);
        }
        match unknown_token(paths[i].as_str()) {
            Some(t) => {
                return Some((t, paths[i].clone()));
            },
            None => {},
        }
        i = i + 1;
    }
    assert(string_views(paths@).take(paths@.len() as int) == string_views(paths@));
    None
}

/// Once a bad path is found in a prefix, it stays the first.
proof fn lemma_first_bad_prefix(paths: Seq<Seq<char>>, n: int)
    requires
        0 <= n <= paths.len(),
    ensures
        first_bad_path(paths.take(n)) is Some ==> first_bad_path(paths) == first_bad_path(paths.take(n)),
    decreases paths.len() - n,
{
    if n < paths.len() {
        lemma_first_bad_prefix(paths, n + 1);
        assert(paths.take(n + 1).drop_last() == paths.take(n));
    } else {
        assert(paths.take(n) == paths);
    }
}

/// Checks one entry against the built-in ids (`reserved`) and the ids accepted before it
/// (`seen`).
pub fn validate(spec: &CustomProviderSpec, reserved: &[&str], seen: &Vec<String>) -> (r: Result<(), String>)
    ensures
        match r {
            Ok(_) => spec_problem(*spec, str_views(reserved@), string_views(seen@)) is None,
            Err(m) => spec_problem(*spec, str_views(reserved@), string_views(seen@)) == Some(m@),
        },
{
    reveal(spec_problem);
    let id_t = crate::text::trimmed_chars(spec.id.as_str());
    if id_t.len() == 0 {
        return Err(owned("id must not be empty"));
    }
    if !id_chars_valid(spec.id.as_str()) {
        return Err(owned("id may only contain lowercase letters, digits and underscores"));
    }
    if contains_str(reserved, spec.id.as_str()) {
        let a = concat("id '", spec.id.as_str());
        return Err(concat(a.as_str(), "' is already used by a built-in provider"));
    }
    if contains_string(seen, spec.id.as_str()) {
        let a = concat("id '", spec.id.as_str());
        return Err(concat(a.as_str(), "' appears more than once"));
    }
    let name_t = crate::text::trimmed_chars(spec.name.as_str());
    if name_t.len() == 0 {
        return Err(owned("name must not be empty"));
    }
    if spec.paths.len() == 0 {
        return Err(owned("at least one path is needed"));
    }
    if matches!(spec.risk, RiskLevel::Protected) {
        return Err(owned("risk 'protected' would make every item unusable"));
    }
    match bad_path(&spec.paths) {
        Some((token, path)) => {
            let a = concat("unknown location '{", token.as_str());
            let b = concat(a.as_str(), "}' in \"");
            let c = concat(b.as_str(), path.as_str());
            Err(concat(c.as_str(), "\""))
        },
        None => Ok(()),
    }
}

/// Which of the first `n` entries are accepted, each checked against those accepted before it.
pub open spec fn accepted_ids(specs: Seq<CustomProviderSpec>, reserved: Seq<Seq<char>>, n: int) -> Seq<Seq<char>>
    decreases n,
{
    if n <= 0 {
        Seq::empty()
    } else {
        let prev = accepted_ids(specs, reserved, n - 1);
        if spec_problem(specs[n - 1], reserved, prev) is None {
            prev.push(specs[n - 1].id@)
        } else {
            prev
        }
    }
}

/// The entries accepted among the first `n`, in order.
pub open spec fn accepted(specs: Seq<CustomProviderSpec>, reserved: Seq<Seq<char>>, n: int) -> Seq<CustomProviderSpec>
    decreases n,
{
    if n <= 0 {
        Seq::empty()
    } else {
        let prev = accepted(specs, reserved, n - 1);
        if spec_problem(specs[n - 1], reserved, accepted_ids(specs, reserved, n - 1)) is None {
            prev.push(specs[n - 1])
        } else {
            prev
        }
    }
}

/// The issues found among the first `n` entries, in order: the entry's id and what is wrong.
pub open spec fn refused(specs: Seq<CustomProviderSpec>, reserved: Seq<Seq<char>>, n: int) -> Seq<(Seq<char>, Seq<char>)>
    decreases n,
{
    if n <= 0 {
        Seq::empty()
    } else {
        let prev = refused(specs, reserved, n - 1);
        match spec_problem(specs[n - 1], reserved, accepted_ids(specs, reserved, n - 1)) {
            Some(m) => prev.push((specs[n - 1].id@, m)),
            None => prev,
        }
    }
}

pub open spec fn provider_specs(ps: Seq<CustomProvider>) -> Seq<CustomProviderSpec> {
    ps.map_values(|p: CustomProvider| p.view_spec())
}

pub open spec fn issue_views(is: Seq<CustomIssue>) -> Seq<(Option<Seq<char>>, Seq<char>)> {
    is.map_values(|i: CustomIssue| (opt_view(i.id), i.message@))
}

pub open spec fn refused_views(rs: Seq<(Seq<char>, Seq<char>)>) -> Seq<(Option<Seq<char>>, Seq<char>)> {
    rs.map_values(|r: (Seq<char>, Seq<char>)| (Some(r.0), r.1))
}

/// Turns the entries of a file into providers, keeping the entries that can be used and
/// reporting each one that cannot. `reserved` are the built-in ids.
pub fn accept_specs(specs: Vec<CustomProviderSpec>, reserved: &[&str]) -> (r: CustomProviders)
    ensures
        provider_specs(r.providers@) == accepted(specs@, str_views(reserved@), specs@.len() as int),
        issue_views(r.issues@) == refused_views(refused(specs@, str_views(reserved@), specs@.len() as int)),
{
    let ghost all = specs@;
    let ghost res = str_views(reserved@);
    let mut providers: Vec<CustomProvider> = Vec::new();
    let mut issues: Vec<CustomIssue> = Vec::new();
    let mut seen: Vec<String> = Vec::new();
    let mut n: usize = 0;
    for spec in it: specs
        invariant
            it.seq() == all,
            res == str_views(reserved@),
            string_views(seen@) == accepted_ids(all, res, it.index() as int),
            provider_specs(providers@) == accepted(all, res, it.index() as int),
            issue_views(issues@) == refused_views(refused(all, res, it.index() as int)),
    {
        let ghost i = it.index();
        assert(all[i as int] == spec);
        match validate(&spec, reserved, &seen) {
            Err(message) => {
                let ghost before = issues@;
                let id = spec.id;
                issues.push(CustomIssue { id: Some(id), message });
                assert(issue_views(issues@) =~= issue_views(before).push((Some(id@), message@)));
            },
            Ok(_) => {
                let ghost sb = seen@;
                let ghost pb = providers@;
                let id = spec.id.clone();
                seen.push(id);
                assert(string_views(seen@) =~= string_views(sb).push(id@));
                providers.push(CustomProvider { spec });
                assert(provider_specs(providers@) =~= provider_specs(pb).push(all[i as int]));
            },
        }
    }
    CustomProviders { providers, issues }
}

impl CustomProvider {
    pub closed spec fn view_spec(&self) -> CustomProviderSpec {
        self.spec
    }

    pub fn spec(&self) -> (r: &CustomProviderSpec)
        ensures
            *r == self.view_spec(),
    {
        &self.spec
    }

    /// What the registry keeps of this provider.
    pub fn entry(&self) -> (r: ProviderEntry)
        ensures
            r.id@ == self.view_spec().id@,
            r.name@ == self.view_spec().name@,
            r.category == self.view_spec().category,
            r.description@ == self.view_spec().description@,
            r.default_risk == self.view_spec().risk,
            r.priority == CUSTOM_PRIORITY,
            r.custom,
    {
        ProviderEntry {
            id: self.spec.id.clone(),
            name: self.spec.name.clone(),
            category: self.spec.category,
            description: self.spec.description.clone(),
            default_risk: self.spec.risk,
            priority: CUSTOM_PRIORITY,
            custom: true,
        }
    }

    /// The places this provider looks, expanded for this machine, before anything is checked
    /// on disk: the written paths that mean something here, in order.
    pub fn candidate_roots(&self, known: &KnownPaths) -> (r: Vec<String>)
        ensures
            string_views(r@) == expanded_paths(string_views(self.view_spec().paths@), *known),
    {
        let mut out: Vec<String> = Vec::new();
        let mut i: usize = 0;
        while i < self.spec.paths.len()
            invariant
                i <= self.spec.paths@.len(),
                string_views(out@) == expanded_paths(string_views(self.spec.paths@).take(i as int), *known),
            decreases self.spec.paths@.len() - i,
        {
            proof {
                assert(string_views(self.spec.paths@).take(i + 1).drop_last() == string_views(self.spec.paths@).take(i as int));
                assert(string_views(self.spec.paths@).take(i + 1).last() == self.spec.paths@[i as int]@);
            }
            match expand(self.spec.paths[i].as_str(), known) {
                Some(p) => {
                    let ghost before = out@;
                    out.push(p);
                    assert(string_views(out@) =~= string_views(before).push(out@.last()@));
                },
                None => {},
            }
            i = i + 1;
        }
        assert(string_views(self.spec.paths@).take(self.spec.paths@.len() as int) == string_views(self.spec.paths@));
        out
    }

    /// Whether an entry of a `Children` root is skipped: Finder's `.DS_Store`, and the names
    /// the entry excludes.
    pub fn skips_child(&self, name: &str) -> (r: bool)
        ensures
            r == (name@ == ".DS_Store"@ || string_views(self.view_spec().exclude@).contains(name@)),
    {
        str_eq(name, ".DS_Store") || contains_string(&self.spec.exclude, name)
    }
}

/// The written paths that mean something on this machine, expanded, in order.
pub open spec fn expanded_paths(paths: Seq<Seq<char>>, known: KnownPaths) -> Seq<Seq<char>>
    decreases paths.len(),
{
    if paths.len() == 0 {
        Seq::empty()
    } else {
        match expanded(paths.last(), known) {
            Some(p) => expanded_paths(paths.drop_last(), known).push(p),
            None => expanded_paths(paths.drop_last(), known),
        }
    }
}

/// Whether something last modified `age_secs` seconds ago (`None` when that could not be
/// read) is old enough for a provider that only offers entries untouched for `min_age_days`.
pub open spec fn old_enough_spec(min_age_days: Option<u32>, age_secs: Option<u64>) -> bool {
    match min_age_days {
        None => true,
        Some(d) => match age_secs {
            None => false,
            Some(a) => a >= d * 86_400,
        },
    }
}

/// Whether an entry is old enough to be offered.
pub fn old_enough(min_age_days: Option<u32>, age_secs: Option<u64>) -> (r: bool)
    ensures
        r == old_enough_spec(min_age_days, age_secs),
{
    match min_age_days {
        None => true,
        Some(d) => match age_secs {
            None => false,
            Some(a) => a as u128 >= (d as u128) * 86_400,
        },
    }
}

} // verus!
