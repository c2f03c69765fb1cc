//! launchd agents and daemons.
//!
//! Prune reads the `.plist` files and asks `launchctl` for the per-user override database,
//! which is what actually decides whether an agent loads. Toggling writes only to that override
//! database (`launchctl enable|disable`), so nothing is deleted or edited and the change is
//! reversible.
//!
//! Reading the files and running `launchctl` is the caller's part; this module decides what
//! they mean.

use vstd::prelude::*;

use crate::error::PruneError;
use crate::models::CleanupTarget;
use crate::paths::{file_name, file_name_spec, stem, stem_of};
use crate::platform::{StartupItem, StartupScope, StartupTrigger};
use crate::text::{
    chars_of, concat, find_pattern, first_occurrence, join_strings, join_with, lower_seq, owned,
    split_chars, split_on, str_eq, string_from, string_of_range, string_views, trim_seq,
    trimmed_chars, views_of,
};

verus! {

/// What `char::to_uppercase` yields for `c`.
pub uninterp spec fn uppercase_of(c: char) -> Seq<char>;

/// `char::to_uppercase`, collected: the upper-case form of `c`, which for a few letters is more
/// than one character. For ASCII it is the ASCII upper-case letter, or `c` itself where `c` is
/// not a lower-case letter; beyond ASCII only the name `uppercase_of` is stated.
#[verifier::external_body]
fn upper_text(c: char) -> (s: String)
    ensures
        s@ == uppercase_of(c),
        'a' <= c <= 'z' ==> s@ == seq![crate::text::upper_char(c)],
        (c as u32) < 128 && !('a' <= c <= 'z') ==> s@ == seq![c],
{
    c.to_uppercase().collect::<String>()
}

/// Whether `c` separates words in a launchd label.
pub open spec fn is_word_break(c: char) -> bool {
    c == '-' || c == '_'
}

/// The pieces of `s` between `-` and `_`, as `str::split(['-', '_'])` gives them.
pub open spec fn split_words(s: Seq<char>) -> Seq<Seq<char>>
    decreases s.len(),
{
    if s.len() == 0 {
        seq![Seq::empty()]
    } else {
        let prev = split_words(s.drop_last());
        if is_word_break(s.last()) {
            prev.push(Seq::empty())
        } else {
            prev.update(prev.len() - 1, prev.last().push(s.last()))
        }
    }
}

proof fn lemma_split_words_nonempty(s: Seq<char>)
    ensures
        split_words(s).len() >= 1,
    decreases s.len(),
{
    if s.len() > 0 {
        lemma_split_words_nonempty(s.drop_last());
    }
}

/// The upper-case form of `c`: for ASCII the ASCII upper-case letter (or `c` itself when it
/// is not a lower-case letter), beyond ASCII what `char::to_uppercase` yields.
pub open spec fn upper_form(c: char) -> Seq<char> {
    if (c as u32) < 128 {
        seq![crate::text::upper_char(c)]
    } else {
        uppercase_of(c)
    }
}

/// A word with its first character upper-cased.
pub open spec fn capitalized(w: Seq<char>) -> Seq<char> {
    if w.len() == 0 {
        Seq::empty()
    } else {
        upper_form(w[0]) + w.drop_first()
    }
}

/// The non-empty pieces, capitalized.
pub open spec fn capitalized_words(pieces: Seq<Seq<char>>) -> Seq<Seq<char>>
    decreases pieces.len(),
{
    if pieces.len() == 0 {
        Seq::empty()
    } else {
        let prev = capitalized_words(pieces.drop_last());
        if pieces.last().len() > 0 {
            prev.push(capitalized(pieces.last()))
        } else {
            prev
        }
    }
}

/// The words of all parts, in order.
pub open spec fn words_of(parts: Seq<Seq<char>>) -> Seq<Seq<char>>
    decreases parts.len(),
{
    if parts.len() == 0 {
        Seq::empty()
    } else {
        words_of(parts.drop_last()) + capitalized_words(split_words(parts.last()))
    }
}

/// The stem of the file `path` names, or nothing.
pub open spec fn path_stem(path: Seq<char>) -> Seq<char> {
    match file_name_spec(path) {
        Some(n) => stem_of(n),
        None => Seq::empty(),
    }
}

/// The name shown for a launchd item: the label (or the file's stem when there is no label)
/// without a reverse-DNS prefix, its words capitalized and joined with spaces, or the label
/// itself when nothing of it is left.
pub open spec fn pretty_name_of(label: Seq<char>, path: Seq<char>) -> Seq<char> {
    let base = if label.len() == 0 {
        path_stem(path)
    } else {
        label
    };
    let parts = split_on(base, '.');
    let tail = if parts.len() > 2 {
        parts.subrange(2, parts.len() as int)
    } else {
        parts
    };
    let words = words_of(tail);
    if words.len() == 0 {
        base
    } else {
        join_with(words, " "@)
    }
}

/// `s` cut at every `-` and `_`.
fn split_word_chars(s: &[char]) -> (r: Vec<Vec<char>>)
    ensures
        views_of(r@) == split_words(s@),
{
    let mut out: Vec<Vec<char>> = Vec::new();
    let mut cur: Vec<char> = Vec::new();
    let mut i: usize = 0;
    while i < s.len()
        invariant
            i <= s@.len(),
            views_of(out@).push(cur@) == split_words(s@.take(i as int)),
        decreases s@.len() - i,
    {
        let c = s[i];
        proof {
            lemma_split_words_nonempty(s@.take(i as int));
            assert(s@.take(i + 1).drop_last() == s@.take(i as int));
            assert(s@.take(i + 1).last() == c);
        }
        if c == '-' || c == '_' {
            let done = cur;
            out.push(done);
            cur = Vec::new();
            assert(views_of(out@) == views_of(out@.drop_last()).push(done@));
        } else {
            cur.push(c);
            assert(views_of(out@).push(cur@) == split_words(s@.take(i + 1)));
        }
        i = i + 1;
    }
    assert(s@.take(s@.len() as int) == s@);
    out.push(cur);
    proof {
        assert(views_of(out@) == views_of(out@.drop_last()).push(out@.last()@));
    }
    out
}

fn capitalize(w: &[char]) -> (r: String)
    requires
        w@.len() > 0,
    ensures
        r@ == capitalized(w@),
{
    let first = upper_text(w[0]);
    let rest = string_of_range(w, 1, w.len());
    assert(w@.subrange(1, w@.len() as int) == w@.drop_first());
    concat(first.as_str(), rest.as_str())
}

/// Appends the capitalized non-empty words of `part` to `out`.
fn push_words(part: &[char], out: &mut Vec<String>)
    ensures
        string_views(final(out)@) == string_views(old(out)@) + capitalized_words(split_words(part@)),
{
    let pieces = split_word_chars(part);
    let ghost start = string_views(out@);
    let mut i: usize = 0;
    while i < pieces.len()
        invariant
            i <= pieces@.len(),
            views_of(pieces@) == split_words(part@),
            string_views(out@) == start + capitalized_words(views_of(pieces@).take(i as int)),
        decreases pieces@.len() - i,
    {
        proof {
            assert(views_of(pieces@).take(i + 1).drop_last() == views_of(pieces@).take(i as int));
            assert(views_of(pieces@).take(i + 1).last() == pieces@[i as int]@);
        }
        let ghost before = string_views(out@);
        if pieces[i].len() > 0 {
            let w = capitalize(pieces[i].as_slice());
            out.push(w);
            assert(string_views(out@) == before.push(w@));
            assert(start + capitalized_words(views_of(pieces@).take(i as int)).push(w@) == (start
                + capitalized_words(views_of(pieces@).take(i as int))).push(w@));
        }
        i = i + 1;
    }
    assert(views_of(pieces@).take(pieces@.len() as int) == views_of(pieces@));
}

/// The name shown for a launchd item: `com.google.keystone.agent` becomes `Keystone Agent`.
pub fn pretty_name(label: &str, path: &str) -> (r: String)
    ensures
        r@ == pretty_name_of(label@, path@),
{
    let stem_text: String = match file_name(path) {
        Some(n) => stem(n.as_str()),
        None => String::new(),
    };
    let base: String = if label.is_empty() {
        proof {
            assert(label@.len() == 0);
        }
        stem_text
    } else {
        owned(label)
    };
    let base_chars = chars_of(base.as_str());
    let parts = split_chars(base_chars.as_slice(), '.');
    let ghost all = views_of(parts@);
    let start: usize = if parts.len() > 2 {
        2
    } else {
        0
    };
    let ghost tail = if all.len() > 2 {
        all.subrange(2, all.len() as int)
    } else {
        all
    };
    let mut words: Vec<String> = Vec::new();
    let mut i: usize = start;
    while i < parts.len()
        invariant
            start <= i <= parts@.len(),
            all == views_of(parts@),
            tail == all.subrange(start as int, all.len() as int),
            string_views(words@) == words_of(tail.take(i - start)),
        decreases parts@.len() - i,
    {
        proof {
            assert(tail.take(i + 1 - start).drop_last() == tail.take(i - start));
            assert(tail.take(i + 1 - start).last() == parts@[i as int]@);
        }
        push_words(parts[i].as_slice(), &mut words);
        i = i + 1;
    }
    assert(tail.take(parts@.len() - start) == tail);
    if words.len() == 0 {
        base
    } else {
        join_strings(&words, " ")
    }
}

/// What a launchd plist says, as far as Prune reads it. Each field holds what the key held
/// when it held a value of the right type.
#[derive(Debug, Clone)]
pub struct PlistFields {
    /// `Label`, when it is a string.
    pub label: Option<String>,
    /// `Program`, when it is a string.
    pub program: Option<String>,
    /// `ProgramArguments`, when it is an array: each element, when it is a string.
    pub program_arguments: Option<Vec<Option<String>>>,
    /// `RunAtLoad`, when it is a boolean.
    pub run_at_load: Option<bool>,
    /// `KeepAlive`: `None` when the key is absent, otherwise the boolean it holds, if any.
    pub keep_alive: Option<Option<bool>>,
    /// Whether `StartInterval` or `StartCalendarInterval` is present.
    pub scheduled: bool,
    /// `Disabled`, when it is a boolean.
    pub disabled: Option<bool>,
}

/// What Prune takes from a plist.
#[derive(Debug, Clone)]
pub struct PlistInfo {
    pub label: Option<String>,
    pub command: Option<String>,
    pub trigger: StartupTrigger,
    pub disabled_in_plist: bool,
}

pub open spec fn strings_in(args: Seq<Option<String>>) -> Seq<Seq<char>>
    decreases args.len(),
{
    if args.len() == 0 {
        Seq::empty()
    } else {
        match args.last() {
            Some(a) => strings_in(args.drop_last()).push(a@),
            None => strings_in(args.drop_last()),
        }
    }
}

/// The command a plist runs: `Program`, or else the string arguments joined with spaces when
/// they are not empty.
pub open spec fn command_of(f: PlistFields) -> Option<Seq<char>> {
    match f.program {
        Some(p) => Some(p@),
        None => match f.program_arguments {
            None => None,
            Some(args) => {
                let j = join_with(strings_in(args@), " "@);
                if j.len() > 0 {
                    Some(j)
                } else {
                    None
                }
            },
        },
    }
}

/// When the item runs: kept alive wins over run at load, which wins over a schedule.
pub open spec fn trigger_of(f: PlistFields) -> StartupTrigger {
    let keep_alive = match f.keep_alive {
        None => false,
        Some(b) => b != Some(false),
    };
    if keep_alive {
        StartupTrigger::KeepAlive
    } else if f.run_at_load == Some(true) {
        StartupTrigger::AtLogin
    } else if f.scheduled {
        StartupTrigger::Scheduled
    } else {
        StartupTrigger::OnDemand
    }
}

pub open spec fn opt_view(o: Option<String>) -> Option<Seq<char>> {
    match o {
        Some(s) => Some(s@),
        None => None,
    }
}

/// What Prune takes from a plist; `None` when the file could not be read as a dictionary.
pub open spec fn info_matches(info: PlistInfo, fields: Option<PlistFields>) -> bool {
    match fields {
        None => info.label is None && info.command is None && info.trigger
            == StartupTrigger::OnDemand && !info.disabled_in_plist,
        Some(f) => {
            &&& opt_view(info.label) == opt_view(f.label)
            &&& opt_view(info.command) == command_of(f)
            &&& info.trigger == trigger_of(f)
            &&& info.disabled_in_plist == (f.disabled == Some(true))
        },
    }
}

fn copy_opt(s: &Option<String>) -> (r: Option<String>)
    ensures
        opt_view(r) == opt_view(*s),
{
    match s {
        Some(v) => Some(owned(v.as_str())),
        None => None,
    }
}

/// What Prune takes from a plist.
pub fn plist_info(fields: &Option<PlistFields>) -> (r: PlistInfo)
    ensures
        info_matches(r, *fields),
{
    let f = match fields {
        None => {
            return PlistInfo {
                label: None,
                command: None,
                trigger: StartupTrigger::OnDemand,
                disabled_in_plist: false,
            };
        },
        Some(f) => f,
    };
    let command: Option<String> = match &f.program {
        Some(p) => Some(owned(p.as_str())),
        None => match &f.program_arguments {
            None => None,
            Some(args) => {
                let mut strs: Vec<String> = Vec::new();
                let mut i: usize = 0;
                while i < args.len()
                    invariant
                        i <= args@.len(),
                        string_views(strs@) == strings_in(args@.take(i as int)),
                    decreases args@.len() - i,
                {
                    proof {
                        assert(args@.take(i + 1).drop_last() == args@.take(i as int));
                        assert(args@.take(i + 1).last() == args@[i as int]);
                    }
                    match &args[i] {
                        Some(a) => {
                            let c = owned(a.as_str());
                            strs.push(c);
                            assert(string_views(strs@) == string_views(strs@.drop_last()).push(c@));
                        },
                        None => {},
                    }
                    i = i + 1;
                }
                assert(args@.take(args@.len() as int) == args@);
                let j = join_strings(&strs, " ");
                if !j.as_str().is_empty() {
                    Some(j)
                } else {
                    proof {
                        assert(j@.len() == 0);
                    }
                    None
                }
            },
        },
    };
    let keep_alive = match f.keep_alive {
        None => false,
        Some(b) => !matches!(b, Some(false)),
    };
    let trigger = if keep_alive {
        StartupTrigger::KeepAlive
    } else if matches!(f.run_at_load, Some(true)) {
        StartupTrigger::AtLogin
    } else if f.scheduled {
        StartupTrigger::Scheduled
    } else {
        StartupTrigger::OnDemand
    };
    PlistInfo {
        label: copy_opt(&f.label),
        command,
        trigger,
        disabled_in_plist: matches!(f.disabled, Some(true)),
    }
}

/// The label a line of `launchctl print-disabled` marks as disabled, if it does: a line like
/// `"com.foo.bar" => disabled` (older systems print `=> true`).
pub open spec fn disabled_label_of(line: Seq<char>) -> Option<Seq<char>> {
    match first_occurrence(line, "=>"@) {
        None => None,
        Some(p) => {
            let state = lower_seq(trim_trailing_commas(trim_seq(line.subrange(p + 2, line.len() as int))));
            if state == "disabled"@ || state == "true"@ {
                Some(trim_quotes(trim_seq(line.subrange(0, p))))
            } else {
                None
            }
        },
    }
}

/// `s` without trailing commas (`trim_end_matches(',')`).
pub open spec fn trim_trailing_commas(s: Seq<char>) -> Seq<char>
    decreases s.len(),
{
    if s.len() > 0 && s.last() == ',' {
        trim_trailing_commas(s.drop_last())
    } else {
        s
    }
}

/// `s` without leading quotes.
pub open spec fn trim_leading_quotes(s: Seq<char>) -> Seq<char>
    decreases s.len(),
{
    if s.len() > 0 && s[0] == '"' {
        trim_leading_quotes(s.drop_first())
    } else {
        s
    }
}

/// `s` without trailing quotes.
pub open spec fn trim_trailing_quotes(s: Seq<char>) -> Seq<char>
    decreases s.len(),
{
    if s.len() > 0 && s.last() == '"' {
        trim_trailing_quotes(s.drop_last())
    } else {
        s
    }
}

/// `s` without quotes at either end (`trim_matches('"')`).
pub open spec fn trim_quotes(s: Seq<char>) -> Seq<char> {
    trim_trailing_quotes(trim_leading_quotes(s))
}

/// The labels marked disabled, line by line.
pub open spec fn disabled_labels_of(lines: Seq<Seq<char>>) -> Seq<Seq<char>>
    decreases lines.len(),
{
    if lines.len() == 0 {
        Seq::empty()
    } else {
        match disabled_label_of(lines.last()) {
            Some(l) => disabled_labels_of(lines.drop_last()).push(l),
            None => disabled_labels_of(lines.drop_last()),
        }
    }
}

fn drop_trailing(s: &[char], c: char) -> (r: usize)
    ensures
        r <= s@.len(),
        c == ',' ==> s@.subrange(0, r as int) == trim_trailing_commas(s@),
        c == '"' ==> s@.subrange(0, r as int) == trim_trailing_quotes(s@),
{
    let mut n: usize = s.len();
    assert(s@.subrange(0, s@.len() as int) == s@);
    while n > 0 && s[n - 1] == c
        invariant
            n <= s@.len(),
            c == ',' ==> trim_trailing_commas(s@.subrange(0, n as int)) == trim_trailing_commas(s@),
            c == '"' ==> trim_trailing_quotes(s@.subrange(0, n as int)) == trim_trailing_quotes(s@),
        decreases n,
    {
        assert(s@.subrange(0, n as int).drop_last() == s@.subrange(0, n - 1));
        n = n - 1;
    }
    assert(s@.subrange(0, s@.len() as int) == s@);
    n
}

fn drop_leading_quotes(s: &[char]) -> (r: usize)
    ensures
        r <= s@.len(),
        s@.subrange(r as int, s@.len() as int) == trim_leading_quotes(s@),
{
    let mut n: usize = 0;
    assert(s@.subrange(0, s@.len() as int) == s@);
    while n < s.len() && s[n] == '"'
        invariant
            n <= s@.len(),
            trim_leading_quotes(s@.subrange(n as int, s@.len() as int)) == trim_leading_quotes(s@),
        decreases s@.len() - n,
    {
        assert(s@.subrange(n as int, s@.len() as int).drop_first() == s@.subrange(n + 1, s@.len() as int));
        n = n + 1;
    }
    assert(s@.subrange(0, s@.len() as int) == s@);
    n
}

/// The label a line marks as disabled, if it does.
pub fn disabled_label(line: &str) -> (r: Option<String>)
    ensures
        opt_view(r) == disabled_label_of(line@),
{
    let cs = chars_of(line);
    let arrow = chars_of("=>");
    let p = match find_pattern(cs.as_slice(), arrow.as_slice()) {
        None => {
            return None;
        },
        Some(p) => p,
    };
    proof {
        reveal_strlit("=>");
        assert(arrow@.len() == 2);
        assert(crate::text::occurs_at(cs@, arrow@, p as int));
        assert(p + 2 <= cs@.len());
        assert(cs@.len() == cs.len());
    }
    let after = string_of_range(cs.as_slice(), p + 2, cs.len());
    let t = trimmed_chars(after.as_str());
    let n = drop_trailing(t.as_slice(), ',');
    let state_raw = string_of_range(t.as_slice(), 0, n);
    let state_chars = chars_of(state_raw.as_str());
    let state_l = crate::text::ascii_lower(state_chars.as_slice());
    let state = string_from(state_l.as_slice());
    if !(str_eq(state.as_str(), "disabled") || str_eq(state.as_str(), "true")) {
        return None;
    }
    let before = string_of_range(cs.as_slice(), 0, p);
    let bt = trimmed_chars(before.as_str());
    let a = drop_leading_quotes(bt.as_slice());
    let lead = string_of_range(bt.as_slice(), a, bt.len());
    let lead_chars = chars_of(lead.as_str());
    let b = drop_trailing(lead_chars.as_slice(), '"');
    Some(string_of_range(lead_chars.as_slice(), 0, b))
}

/// Labels the launchd override database marks as disabled, from what
/// `launchctl print-disabled gui/<uid>` printed.
pub fn disabled_labels(stdout: &str) -> (r: Vec<String>)
    ensures
        string_views(r@) == disabled_labels_of(split_on(stdout@, '\n')),
{
    let cs = chars_of(stdout);
    let lines = split_chars(cs.as_slice(), '\n');
    let mut out: Vec<String> = Vec::new();
    let mut i: usize = 0;
    while i < lines.len()
        invariant
            i <= lines@.len(),
            views_of(lines@) == split_on(cs@, '\n'),
            string_views(out@) == disabled_labels_of(views_of(lines@).take(i as int)),
        decreases lines@.len() - i,
    {
        proof {
            assert(views_of(lines@).take(i + 1).drop_last() == views_of(lines@).take(i as int));
            assert(views_of(lines@).take(i + 1).last() == lines@[i as int]@);
        }
        let line = string_from(lines[i].as_slice());
        match disabled_label(line.as_str()) {
            Some(l) => {
                out.push(l);
                assert(string_views(out@) == string_views(out@.drop_last()).push(out@.last()@));
            },
            None => {},
        }
        i = i + 1;
    }
    assert(views_of(lines@).take(lines@.len() as int) == views_of(lines@));
    out
}


/// The reason shown for an item installed for every user.
pub open spec fn all_users_reason() -> Seq<char> {
    "Installed for all users; change it with administrator rights."@
}

/// The startup item a launchd plist at `path` stands for. Its label is the plist's, or else the
/// file's stem; it is enabled unless the plist disables it or the per-user override database
/// (`disabled`, the labels `launchctl` reports disabled) does; and it can be changed only when
/// it belongs to this user.
pub fn launchd_item(path: &str, source: &str, scope: StartupScope, info: PlistInfo, disabled: &Vec<String>) -> (r: StartupItem)
    ensures
        ({
            let label = match info.label {
                Some(l) => l@,
                None => path_stem(path@),
            };
            &&& r.id@ == crate::models::make_id_spec(vstd::utf8::encode_utf8("startup"@), vstd::utf8::encode_utf8(path@))
            &&& r.name@ == pretty_name_of(label, path@)
            &&& r.label matches Some(l) && l@ == label
            &&& r.path@ == path@
            &&& opt_view(r.command) == opt_view(info.command)
            &&& r.enabled == !(string_views(disabled@).contains(label) || info.disabled_in_plist)
            &&& r.source@ == source@
            &&& r.scope == scope
            &&& r.trigger == info.trigger
            &&& r.can_toggle == (scope == StartupScope::User)
            &&& (scope == StartupScope::User ==> r.reason is None)
            &&& (scope != StartupScope::User ==> (r.reason matches Some(m) && m@ == all_users_reason()))
        }),
{
    let label: String = match &info.label {
        Some(l) => owned(l.as_str()),
        None => match file_name(path) {
            Some(n) => stem(n.as_str()),
            None => String::new(),
        },
    };
    let mut overridden = false;
    let mut i: usize = 0;
    while i < disabled.len()
        invariant
            i <= disabled@.len(),
            overridden == string_views(disabled@.take(i as int)).contains(label@),
        decreases disabled@.len() - i,
    {
        proof {
            assert(string_views(disabled@.take(i + 1)) =~= string_views(disabled@.take(i as int)).push(disabled@[i as int]@));
        }
        if str_eq(disabled[i].as_str(), label.as_str()) {
            overridden = true;
        }
        proof {
            let s0 = string_views(disabled@.take(i as int));
            let s1 = s0.push(disabled@[i as int]@);
            if s1.contains(label@) {
                let j = choose|j: int| 0 <= j < s1.len() && s1[j] == label@;
                if j < s0.len() {
                    assert(s0[j] == label@);
                }
            }
            if s0.contains(label@) {
                let j = choose|j: int| 0 <= j < s0.len() && s0[j] == label@;
                assert(s1[j] == label@);
            }
            if disabled@[i as int]@ == label@ {
                assert(s1[i as int] == label@);
            }
        }
        i = i + 1;
    }
    assert(disabled@.take(disabled@.len() as int) =~= disabled@);
    let can_toggle = scope == StartupScope::User;
    let name = pretty_name(label.as_str(), path);
    StartupItem {
        id: CleanupTarget::make_id("startup", path),
        name,
        label: Some(label),
        path: owned(path),
        command: info.command,
        enabled: !(overridden || info.disabled_in_plist),
        source: owned(source),
        scope,
        trigger: info.trigger,
        can_toggle,
        reason: if can_toggle {
            None
        } else {
            Some(owned("Installed for all users; change it with administrator rights."))
        },
    }
}

/// Sort keys for startup items: enabled ones first, then by lower-cased name.
pub open spec fn item_keys(items: Seq<StartupItem>) -> Seq<(u64, Seq<char>)> {
    items.map_values(|s: StartupItem| (if s.enabled { 1u64 } else { 0u64 }, crate::platform::macos::apps::lowercase_of(s.name@)))
}

fn copy_item(s: &StartupItem) -> (r: StartupItem)
    ensures
        r == *s,
{
    StartupItem {
        id: s.id.clone(),
        name: s.name.clone(),
        label: crate::models::copy_opt_string(&s.label),
        path: s.path.clone(),
        command: crate::models::copy_opt_string(&s.command),
        enabled: s.enabled,
        source: s.source.clone(),
        scope: s.scope,
        trigger: s.trigger,
        can_toggle: s.can_toggle,
        reason: crate::models::copy_opt_string(&s.reason),
    }
}

/// The items in the order they are listed: enabled ones first, each part by lower-cased name;
/// equal keys keep their order.
pub fn sorted_items(items: Vec<StartupItem>) -> (r: Vec<StartupItem>)
    ensures
        exists|order: Seq<usize>| {
            &&& #[trigger] crate::analyzer::is_ordering(order, items@.len() as int)
            &&& crate::analyzer::sorted_by_size(item_keys(items@), order)
            &&& crate::analyzer::stable_for(item_keys(items@), order)
            &&& r@.len() == items@.len()
            &&& forall|k: int| 0 <= k < r@.len() ==> #[trigger] r@[k] == items@[order[k] as int]
        },
{
    let mut keys: Vec<(u64, String)> = Vec::new();
    let mut k: usize = 0;
    while k < items.len()
        invariant
            k <= items@.len(),
            crate::analyzer::key_views(keys@) == item_keys(items@).take(k as int),
        decreases items@.len() - k,
    {
        let ghost prev = keys@;
        let rank: u64 = if items[k].enabled { 1 } else { 0 };
        keys.push((rank, crate::platform::macos::apps::lower_text(items[k].name.as_str())));
        proof {
            let key = (rank, crate::platform::macos::apps::lowercase_of(items@[k as int].name@));
            assert(crate::analyzer::key_views(keys@) =~= crate::analyzer::key_views(prev).push(key));
            assert(item_keys(items@).take(k + 1) =~= item_keys(items@).take(k as int).push(key));
        }
        k = k + 1;
    }
    proof {
        assert(item_keys(items@).take(k as int) =~= item_keys(items@));
        assert(crate::analyzer::key_views(keys@).len() == keys@.len());
    }
    let order = crate::analyzer::largest_first(&keys);
    let mut r: Vec<StartupItem> = Vec::new();
    let mut j: usize = 0;
    while j < items.len()
        invariant
            j <= items@.len(),
            crate::analyzer::is_ordering(order@, items@.len() as int),
            r@.len() == j,
            forall|a: int| 0 <= a < j ==> #[trigger] r@[a] == items@[order@[a] as int],
        decreases items@.len() - j,
    {
        r.push(copy_item(&items[order[j]]));
        j = j + 1;
    }
    r
}

/// The launchd label of an item that can be switched, or why it cannot be.
pub fn toggle_label(item: &StartupItem) -> (r: Result<String, PruneError>)
    ensures
        !item.can_toggle ==> (r matches Err(PruneError::Other(m)) && m@ == crate::platform::refusal(*item)),
        item.can_toggle ==> match item.label {
            Some(l) => r matches Ok(s) && s@ == l@,
            None => r matches Err(PruneError::Other(m)) && m@ == "item has no launchd label"@,
        },
{
    if !item.can_toggle {
        return Err(crate::platform::cannot_toggle(item));
    }
    match &item.label {
        Some(l) => Ok(owned(l.as_str())),
        None => Err(PruneError::Other(owned("item has no launchd label"))),
    }
}

/// The `launchctl` verb that switches an item on or off.
pub open spec fn verb_of(enabled: bool) -> Seq<char> {
    if enabled {
        "enable"@
    } else {
        "disable"@
    }
}

/// The arguments of `launchctl` that switch the agent `label` of user `uid`: the verb, and the
/// service target `gui/<uid>/<label>`. Only the per-user override database changes.
pub fn launchctl_args(enabled: bool, uid: u32, label: &str) -> (r: Vec<String>)
    ensures
        r@.len() == 2,
        r@[0]@ == verb_of(enabled),
        r@[1]@ == "gui/"@ + crate::text::decimal_digits(uid as nat) + "/"@ + label@,
{
    let verb = if enabled {
        owned("enable")
    } else {
        owned("disable")
    };
    let id = crate::text::decimal_text(uid as u64);
    let a = concat("gui/", id.as_str());
    let b = concat(a.as_str(), "/");
    let target = concat(b.as_str(), label);
    let mut r: Vec<String> = Vec::new();
    r.push(verb);
    r.push(target);
    r
}

/// What a failed `launchctl` call comes to: what it printed on its error stream, trimmed, or
/// else that the verb failed.
pub open spec fn launchctl_message(enabled: bool, stderr: Seq<u8>) -> Seq<char> {
    let m = trim_seq(crate::docker::lossy_text(stderr));
    if m.len() == 0 {
        "launchctl "@ + verb_of(enabled) + " failed"@
    } else {
        m
    }
}

pub fn launchctl_failure(enabled: bool, stderr: &Vec<u8>) -> (r: PruneError)
    ensures
        r matches PruneError::Other(m) && m@ == launchctl_message(enabled, stderr@),
{
    let text = crate::docker::text_of_bytes(stderr);
    let trimmed = trimmed_chars(text.as_str());
    if trimmed.len() == 0 {
        let verb: &str = if enabled {
            "enable"
        } else {
            "disable"
        };
        let start = concat("launchctl ", verb);
        PruneError::Other(concat(start.as_str(), " failed"))
    } else {
        PruneError::Other(string_from(trimmed.as_slice()))
    }
}

} // verus!
