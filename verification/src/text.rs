//! Character-level helpers shared by the modules that build or inspect text.

use vstd::prelude::*;

verus! {

/// The characters of `s`, in order.
pub fn chars_of(s: &str) -> (v: Vec<char>)
    ensures
        v@ == s@,
{
    let mut v: Vec<char> = Vec::new();
    for c in it: s.chars()
        invariant
            it.seq() == s@,
            v@ == s@.take(it.index() as int),
    {
        v.push(c);
    }
    assert(v@ == s@);
    v
}

/// `String::push`: appends one character.
#[verifier::external_body]
pub(crate) fn push_char(s: &mut String, c: char)
    ensures
        final(s)@ == old(s)@.push(c),
{
    s.push(c);
}

/// A string holding exactly the characters of `v`.
pub fn string_from(v: &[char]) -> (s: String)
    ensures
        s@ == v@,
{
    let mut s = String::new();
    let mut i: usize = 0;
    while i < v.len()
        invariant
            i <= v@.len(),
            s@ == v@.take(i as int),
        decreases v@.len() - i,
    {
        push_char(&mut s, v[i]);
        i = i + 1;
        assert(v@.take(i as int) == v@.take(i - 1).push(v@[i - 1]));
    }
    assert(v@.take(v@.len() as int) == v@);
    s
}

/// A string holding the characters of `v` from `start` up to `end`.
pub fn string_of_range(v: &[char], start: usize, end: usize) -> (s: String)
    requires
        start <= end <= v@.len(),
    ensures
        s@ == v@.subrange(start as int, end as int),
{
    let mut s = String::new();
    let mut i: usize = start;
    while i < end
        invariant
            start <= i <= end <= v@.len(),
            s@ == v@.subrange(start as int, i as int),
        decreases end - i,
    {
        push_char(&mut s, v[i]);
        i = i + 1;
        assert(v@.subrange(start as int, i as int) == v@.subrange(start as int, i - 1).push(
            v@[i - 1],
        ));
    }
    s
}

/// An owned copy of `text`.
pub fn owned(text: &str) -> (s: String)
    ensures
        s@ == text@,
{
    String::from_str(text)
}

/// `a` followed by `b`.
pub fn concat(a: &str, b: &str) -> (s: String)
    ensures
        s@ == a@ + b@,
{
    let mut s = String::from_str(a);
    s.append(b);
    s
}

/// Whether two strings hold the same characters.
pub fn str_eq(a: &str, b: &str) -> (r: bool)
    ensures
        r == (a@ == b@),
{
    let x = chars_of(a);
    let y = chars_of(b);
    chars_equal(x.as_slice(), y.as_slice())
}

/// Whether two character sequences are equal, element by element.
pub fn chars_equal(a: &[char], b: &[char]) -> (r: bool)
    ensures
        r == (a@ == b@),
{
    if a.len() != b.len() {
        return false;
    }
    let mut i: usize = 0;
    while i < a.len()
        invariant
            a@.len() == b@.len(),
            i <= a@.len(),
            forall|j: int| 0 <= j < i ==> a@[j] == b@[j],
        decreases a@.len() - i,
    {
        if a[i] != b[i] {
            return false;
        }
        i = i + 1;
    }
    assert(a@ =~= b@);
    true
}

/// Unicode `White_Space`, the set `char::is_whitespace` and `str::trim` go by.
pub open spec fn is_ws(c: char) -> bool {
    ||| '\u{9}' <= c <= '\u{d}'
    ||| c == ' '
    ||| c == '\u{85}'
    ||| c == '\u{a0}'
    ||| c == '\u{1680}'
    ||| '\u{2000}' <= c <= '\u{200a}'
    ||| c == '\u{2028}'
    ||| c == '\u{2029}'
    ||| c == '\u{202f}'
    ||| c == '\u{205f}'
    ||| c == '\u{3000}'
}

pub fn is_whitespace(c: char) -> (r: bool)
    ensures
        r == is_ws(c),
{
    ('\u{9}' <= c && c <= '\u{d}') || c == ' ' || c == '\u{85}' || c == '\u{a0}' || c
        == '\u{1680}' || ('\u{2000}' <= c && c <= '\u{200a}') || c == '\u{2028}' || c
        == '\u{2029}' || c == '\u{202f}' || c == '\u{205f}' || c == '\u{3000}'
}

/// Lower-case ASCII letters, leaving everything else alone (`to_ascii_lowercase`).
pub open spec fn lower_char(c: char) -> char {
    if 'A' <= c <= 'Z' {
        ((c as u32) + 32) as char
    } else {
        c
    }
}

/// Upper-case ASCII letters, leaving everything else alone (`to_ascii_uppercase`).
pub open spec fn upper_char(c: char) -> char {
    if 'a' <= c <= 'z' {
        ((c as u32) - 32) as char
    } else {
        c
    }
}

pub open spec fn lower_seq(s: Seq<char>) -> Seq<char> {
    s.map_values(|c: char| lower_char(c))
}

pub fn to_lower_char(c: char) -> (r: char)
    ensures
        r == lower_char(c),
{
    if 'A' <= c && c <= 'Z' {
        let n: u32 = (c as u32) + 32;
        proof {
            assert(n <= 0x7a);
        }
        char_from_ascii(n)
    } else {
        c
    }
}

pub fn to_upper_char(c: char) -> (r: char)
    ensures
        r == upper_char(c),
{
    if 'a' <= c && c <= 'z' {
        let n: u32 = (c as u32) - 32;
        char_from_ascii(n)
    } else {
        c
    }
}

/// The character with code `n`, for `n` in the ASCII range.
fn char_from_ascii(n: u32) -> (c: char)
    requires
        n < 128,
    ensures
        c == n as char,
{
    let b: u8 = n as u8;
    b as char
}

/// The ASCII-lowercased characters of `s` (`str::to_ascii_lowercase`).
pub fn ascii_lower(s: &[char]) -> (r: Vec<char>)
    ensures
        r@ == lower_seq(s@),
{
    let mut r: Vec<char> = Vec::new();
    let mut i: usize = 0;
    while i < s.len()
        invariant
            i <= s@.len(),
            r@ == lower_seq(s@.take(i as int)),
        decreases s@.len() - i,
    {
        let c = to_lower_char(s[i]);
        r.push(c);
        i = i + 1;
        assert(s@.take(i as int) == s@.take(i - 1).push(s@[i - 1]));
    }
    assert(s@.take(s@.len() as int) == s@);
    r
}

/// Index of the first non-whitespace character, or the length when there is none.
pub open spec fn trim_start_index(s: Seq<char>) -> int
    decreases s.len(),
{
    if s.len() == 0 {
        0
    } else if is_ws(s[0]) {
        1 + trim_start_index(s.drop_first())
    } else {
        0
    }
}

/// Index just past the last non-whitespace character, or 0 when there is none.
pub open spec fn trim_end_index(s: Seq<char>) -> int
    decreases s.len(),
{
    if s.len() == 0 {
        0
    } else if is_ws(s.last()) {
        trim_end_index(s.drop_last())
    } else {
        s.len() as int
    }
}

/// `s` without leading and trailing whitespace.
pub open spec fn trim_seq(s: Seq<char>) -> Seq<char> {
    let a = trim_start_index(s);
    let b = trim_end_index(s);
    if a < b {
        s.subrange(a, b)
    } else {
        Seq::empty()
    }
}

/// A name with no surrounding space reads, trimmed and case-folded, as its lower-case form.
pub proof fn lemma_reads_as(s: Seq<char>, lower: Seq<char>)
    requires
        s.len() > 0,
        !is_ws(s[0]),
        !is_ws(s.last()),
        lower.len() == s.len(),
        forall|i: int| 0 <= i < s.len() ==> lower_char(#[trigger] s[i]) == lower[i],
    ensures
        lower_seq(trim_seq(s)) == lower,
{
    assert(trim_start_index(s) == 0);
    assert(trim_end_index(s) == s.len());
    assert(trim_seq(s) =~= s);
    assert(lower_seq(s) =~= lower);
}

/// Start and end of `s` once surrounding whitespace is dropped (`str::trim`).
pub fn trim_bounds(s: &[char]) -> (r: (usize, usize))
    ensures
        r.0 <= r.1 <= s@.len(),
        s@.subrange(r.0 as int, r.1 as int) == trim_seq(s@),
{
    let mut a: usize = 0;
    while a < s.len() && is_whitespace(s[a])
        invariant
            a <= s@.len(),
            forall|k: int| 0 <= k < a ==> is_ws(#[trigger] s@[k]),
        decreases s@.len() - a,
    {
        a = a + 1;
    }
    let mut b: usize = s.len();
    while b > a && is_whitespace(s[b - 1])
        invariant
            a <= b <= s@.len(),
            forall|k: int| b <= k < s@.len() ==> is_ws(#[trigger] s@[k]),
        decreases b,
    {
        b = b - 1;
    }
    proof {
        lemma_trim_start(s@, a as int);
        if b == a && a < s@.len() {
            assert(is_ws(s@[a as int]));
        }
        if b > a {
            lemma_trim_end(s@, b as int);
        } else {
            lemma_trim_end_all(s@);
        }
    }
    if b > a {
        (a, b)
    } else {
        (a, a)
    }
}

proof fn lemma_trim_start(s: Seq<char>, a: int)
    requires
        0 <= a <= s.len(),
        forall|k: int| 0 <= k < a ==> is_ws(#[trigger] s[k]),
        a == s.len() || !is_ws(s[a]),
    ensures
        trim_start_index(s) == a,
    decreases a,
{
    if a > 0 {
        assert forall|k: int| 0 <= k < a - 1 implies is_ws(#[trigger] s.drop_first()[k]) by {
            assert(s.drop_first()[k] == s[k + 1]);
        }
        assert(is_ws(s[0]));
        if a - 1 < s.drop_first().len() {
            assert(s.drop_first()[a - 1] == s[a]);
        }
        lemma_trim_start(s.drop_first(), a - 1);
    }
}

proof fn lemma_trim_end(s: Seq<char>, b: int)
    requires
        0 < b <= s.len(),
        forall|k: int| b <= k < s.len() ==> is_ws(#[trigger] s[k]),
        !is_ws(s[b - 1]),
    ensures
        trim_end_index(s) == b,
    decreases s.len(),
{
    if b < s.len() {
        assert(is_ws(s.last()));
        assert forall|k: int| b <= k < s.drop_last().len() implies is_ws(
            #[trigger] s.drop_last()[k],
        ) by {
            assert(s.drop_last()[k] == s[k]);
        }
        assert(s.drop_last()[b - 1] == s[b - 1]);
        lemma_trim_end(s.drop_last(), b);
    }
}

proof fn lemma_trim_end_all(s: Seq<char>)
    ensures
        (forall|k: int| 0 <= k < s.len() ==> is_ws(#[trigger] s[k])) ==> trim_end_index(s) == 0,
    decreases s.len(),
{
    if s.len() > 0 && (forall|k: int| 0 <= k < s.len() ==> is_ws(#[trigger] s[k])) {
        assert(is_ws(s[s.len() - 1]));
        assert forall|k: int| 0 <= k < s.drop_last().len() implies is_ws(
            #[trigger] s.drop_last()[k],
        ) by {
            assert(s.drop_last()[k] == s[k]);
        }
        lemma_trim_end_all(s.drop_last());
    }
}

/// The characters of `s` without surrounding whitespace.
pub fn trimmed_chars(s: &str) -> (r: Vec<char>)
    ensures
        r@ == trim_seq(s@),
{
    let v = chars_of(s);
    let (a, b) = trim_bounds(v.as_slice());
    let mut r: Vec<char> = Vec::new();
    let mut i: usize = a;
    while i < b
        invariant
            a <= i <= b <= v@.len(),
            r@ == v@.subrange(a as int, i as int),
        decreases b - i,
    {
        r.push(v[i]);
        i = i + 1;
        assert(v@.subrange(a as int, i as int) == v@.subrange(a as int, i - 1).push(v@[i - 1]));
    }
    r
}

/// The pieces of `s` between occurrences of `sep`, as `str::split` gives them.
pub open spec fn split_on(s: Seq<char>, sep: char) -> Seq<Seq<char>>
    decreases s.len(),
{
    if s.len() == 0 {
        seq![Seq::empty()]
    } else {
        let prev = split_on(s.drop_last(), sep);
        if s.last() == sep {
            prev.push(Seq::empty())
        } else {
            prev.update(prev.len() - 1, prev.last().push(s.last()))
        }
    }
}

pub proof fn lemma_split_nonempty(s: Seq<char>, sep: char)
    ensures
        split_on(s, sep).len() >= 1,
    decreases s.len(),
{
    if s.len() > 0 {
        lemma_split_nonempty(s.drop_last(), sep);
    }
}

pub open spec fn views_of(v: Seq<Vec<char>>) -> Seq<Seq<char>> {
    v.map_values(|x: Vec<char>| x@)
}

/// `s` cut at every `sep` (`str::split` with a character).
pub fn split_chars(s: &[char], sep: char) -> (r: Vec<Vec<char>>)
    ensures
        views_of(r@) == split_on(s@, sep),
{
    let mut out: Vec<Vec<char>> = Vec::new();
    let mut cur: Vec<char> = Vec::new();
    let mut i: usize = 0;
    while i < s.len()
        invariant
            i <= s@.len(),
            views_of(out@).push(cur@) == split_on(s@.take(i as int), sep),
        decreases s@.len() - i,
    {
        let c = s[i];
        proof {
            lemma_split_nonempty(s@.take(i as int), sep);
            assert(s@.take(i + 1).drop_last() == s@.take(i as int));
            assert(s@.take(i + 1).last() == c);
        }
        if c == sep {
            let done = cur;
            out.push(done);
            cur = Vec::new();
            assert(views_of(out@) == views_of(out@.drop_last()).push(done@));
        } else {
            cur.push(c);
            assert(views_of(out@).push(cur@) == split_on(s@.take(i + 1), sep));
        }
        i = i + 1;
    }
    assert(s@.take(s@.len() as int) == s@);
    out.push(cur);
    proof {
        assert(views_of(out@) == views_of(out@.drop_last()).push(out@.last()@));
    }
    out
}

/// Whether `pat` occurs in `hay` starting at `i`.
pub open spec fn occurs_at(hay: Seq<char>, pat: Seq<char>, i: int) -> bool {
    0 <= i && i + pat.len() <= hay.len() && hay.subrange(i, i + pat.len()) == pat
}

/// Where `pat` first occurs in `hay`.
#[verifier::opaque]
pub open spec fn first_occurrence(hay: Seq<char>, pat: Seq<char>) -> Option<int> {
    if exists|i: int| occurs_at(hay, pat, i) {
        Some(choose|i: int| occurs_at(hay, pat, i) && forall|j: int| 0 <= j < i ==> !occurs_at(hay, pat, j))
    } else {
        None
    }
}

/// The first position at which `pat` occurs in `hay` (`str::find` with a string).
pub fn find_pattern(hay: &[char], pat: &[char]) -> (r: Option<usize>)
    ensures
        r is None ==> forall|i: int| !occurs_at(hay@, pat@, i),
        r matches Some(i) ==> occurs_at(hay@, pat@, i as int) && forall|j: int| 0 <= j < i ==> !occurs_at(hay@, pat@, j),
        r matches Some(i) ==> first_occurrence(hay@, pat@) == Some(i as int),
        r is None ==> first_occurrence(hay@, pat@) is None,
{
    reveal(first_occurrence);
    if pat.len() > hay.len() {
        return None;
    }
    if pat.len() == 0 {
        assert(hay@.subrange(0, 0) =~= pat@);
        assert(first_occurrence(hay@, pat@) == Some(0int)) by {
            let c = choose|x: int| occurs_at(hay@, pat@, x) && forall|j: int| 0 <= j < x ==> !occurs_at(hay@, pat@, j);
            assert(occurs_at(hay@, pat@, 0));
            if c > 0 {
                assert(!occurs_at(hay@, pat@, 0));
            }
        }
        return Some(0);
    }
    let last: usize = hay.len() - pat.len();
    let mut i: usize = 0;
    while i <= last
        invariant
            last == hay@.len() - pat@.len(),
            pat@.len() > 0,
            hay@.len() <= usize::MAX,
            i <= last + 1,
            forall|j: int| 0 <= j < i ==> !occurs_at(hay@, pat@, j),
        decreases last + 1 - i,
    {
        let mut k: usize = 0;
        let mut same = true;
        while k < pat.len()
            invariant
                last == hay@.len() - pat@.len(),
                pat@.len() > 0,
                hay@.len() <= usize::MAX,
                i <= last,
                k <= pat@.len(),
                same == forall|t: int| 0 <= t < k ==> hay@[i + t] == pat@[t],
            decreases pat@.len() - k,
        {
            if hay[i + k] != pat[k] {
                same = false;
            }
            k = k + 1;
        }
        if same {
            assert(hay@.subrange(i as int, i + pat@.len()) =~= pat@);
            proof {
                reveal(first_occurrence);
                let w = i as int;
                assert(occurs_at(hay@, pat@, w) && forall|j: int| 0 <= j < w ==> !occurs_at(hay@, pat@, j));
                let c = choose|x: int| occurs_at(hay@, pat@, x) && forall|j: int| 0 <= j < x ==> !occurs_at(hay@, pat@, j);
                assert(c == w) by {
                    if c < w {
                        assert(!occurs_at(hay@, pat@, c));
                    }
                    if c > w {
                        assert(!occurs_at(hay@, pat@, w));
                    }
                }
            }
            return Some(i);
        }
        assert(!occurs_at(hay@, pat@, i as int)) by {
            let t = choose|t: int| 0 <= t < pat@.len() && hay@[i + t] != pat@[t];
            if occurs_at(hay@, pat@, i as int) {
                assert(hay@.subrange(i as int, i + pat@.len())[t] == hay@[i + t]);
            }
        }
        i = i + 1;
    }
    proof {
        assert forall|j: int| !occurs_at(hay@, pat@, j) by {
            if 0 <= j && j + pat@.len() <= hay@.len() {
                assert(j < i);
            }
        }
    }
    None
}

/// The pieces joined with `sep` between them (`[T]::join`).
pub open spec fn join_with(ws: Seq<Seq<char>>, sep: Seq<char>) -> Seq<char>
    decreases ws.len(),
{
    if ws.len() == 0 {
        Seq::empty()
    } else if ws.len() == 1 {
        ws[0]
    } else {
        join_with(ws.drop_last(), sep) + sep + ws.last()
    }
}

pub open spec fn str_views(ws: Seq<&str>) -> Seq<Seq<char>> {
    ws.map_values(|w: &str| w@)
}

pub open spec fn string_views(ws: Seq<String>) -> Seq<Seq<char>> {
    ws.map_values(|w: String| w@)
}

/// `words.join(sep)`.
pub fn join_strs(words: &[&str], sep: &str) -> (r: String)
    ensures
        r@ == join_with(str_views(words@), sep@),
{
    let mut r = String::new();
    let mut i: usize = 0;
    while i < words.len()
        invariant
            i <= words@.len(),
            r@ == join_with(str_views(words@.take(i as int)), sep@),
        decreases words@.len() - i,
    {
        if i > 0 {
            r.append(sep);
        }
        r.append(words[i]);
        i = i + 1;
        assert(str_views(words@.take(i as int)).drop_last() == str_views(words@.take(i - 1)));
    }
    assert(words@.take(words@.len() as int) == words@);
    r
}

/// `words.join(sep)` over owned strings.
pub fn join_strings(words: &Vec<String>, sep: &str) -> (r: String)
    ensures
        r@ == join_with(string_views(words@), sep@),
{
    let mut r = String::new();
    let mut i: usize = 0;
    while i < words.len()
        invariant
            i <= words@.len(),
            r@ == join_with(string_views(words@.take(i as int)), sep@),
        decreases words@.len() - i,
    {
        if i > 0 {
            r.append(sep);
        }
        r.append(words[i].as_str());
        i = i + 1;
        assert(string_views(words@.take(i as int)).drop_last() == string_views(words@.take(i - 1)));
    }
    assert(words@.take(words@.len() as int) == words@);
    r
}

/// The decimal digit for `d`, which is below ten.
pub open spec fn digit_char(d: nat) -> char {
    ((d + 48) as u32) as char
}

/// `n` written in decimal, without leading zeros (`0` for zero).
pub open spec fn decimal_digits(n: nat) -> Seq<char>
    decreases n,
{
    if n < 10 {
        seq![digit_char(n)]
    } else {
        decimal_digits(n / 10).push(digit_char(n % 10))
    }
}

/// `s` with zeros in front, up to `width` characters.
pub open spec fn zero_padded(s: Seq<char>, width: nat) -> Seq<char> {
    if s.len() >= width {
        s
    } else {
        Seq::new((width - s.len()) as nat, |i: int| '0') + s
    }
}

fn digit_to_char(d: u64) -> (c: char)
    requires
        d < 10,
    ensures
        c == digit_char(d as nat),
{
    let b: u8 = (d as u8) + 48;
    b as char
}

/// `n` in decimal (`u64::to_string`).
pub fn decimal_text(n: u64) -> (s: String)
    ensures
        s@ == decimal_digits(n as nat),
    decreases n,
{
    if n < 10 {
        let mut s = String::new();
        push_char(&mut s, digit_to_char(n));
        assert(s@ =~= seq![digit_char(n as nat)]);
        s
    } else {
        let mut s = decimal_text(n / 10);
        push_char(&mut s, digit_to_char(n % 10));
        s
    }
}

fn digit_of_wide(d: u128) -> (c: char)
    requires
        d < 10,
    ensures
        c == digit_char(d as nat),
{
    digit_to_char(d as u64)
}

/// `n` in decimal (`u128::to_string`).
pub fn decimal_text_wide(n: u128) -> (s: String)
    ensures
        s@ == decimal_digits(n as nat),
    decreases n,
{
    if n < 10 {
        let mut s = String::new();
        push_char(&mut s, digit_of_wide(n));
        assert(s@ =~= seq![digit_char(n as nat)]);
        s
    } else {
        let mut s = decimal_text_wide(n / 10);
        push_char(&mut s, digit_of_wide(n % 10));
        s
    }
}

/// `n` in decimal with zeros in front, up to `width` characters.
pub fn zero_padded_text(n: u64, width: usize) -> (s: String)
    ensures
        s@ == zero_padded(decimal_digits(n as nat), width as nat),
{
    let digits = decimal_text(n);
    let dv = chars_of(digits.as_str());
    if dv.len() >= width {
        return digits;
    }
    let pad: usize = width - dv.len();
    let mut s = String::new();
    let mut i: usize = 0;
    while i < pad
        invariant
            i <= pad,
            s@ == Seq::new(i as nat, |k: int| '0'),
        decreases pad - i,
    {
        push_char(&mut s, '0');
        i = i + 1;
        assert(s@ =~= Seq::new(i as nat, |k: int| '0'));
    }
    s.append(digits.as_str());
    s
}

/// Lexicographic order on characters, which is the order of `String`'s `Ord` (UTF-8 keeps
/// the order of code points).
pub open spec fn seq_less(a: Seq<char>, b: Seq<char>) -> bool
    decreases a.len(),
{
    if b.len() == 0 {
        false
    } else if a.len() == 0 {
        true
    } else if a[0] < b[0] {
        true
    } else if a[0] > b[0] {
        false
    } else {
        seq_less(a.drop_first(), b.drop_first())
    }
}

pub proof fn lemma_less_irreflexive(a: Seq<char>)
    ensures
        !seq_less(a, a),
    decreases a.len(),
{
    if a.len() > 0 {
        lemma_less_irreflexive(a.drop_first());
    }
}

pub proof fn lemma_less_transitive(a: Seq<char>, b: Seq<char>, c: Seq<char>)
    requires
        seq_less(a, b),
        seq_less(b, c),
    ensures
        seq_less(a, c),
    decreases a.len(),
{
    if a.len() > 0 && b.len() > 0 && c.len() > 0 {
        if a[0] == b[0] && b[0] == c[0] {
            lemma_less_transitive(a.drop_first(), b.drop_first(), c.drop_first());
        }
    }
}

pub proof fn lemma_less_total(a: Seq<char>, b: Seq<char>)
    ensures
        a == b || seq_less(a, b) || seq_less(b, a),
    decreases a.len(),
{
    if a.len() > 0 && b.len() > 0 && a[0] == b[0] {
        lemma_less_total(a.drop_first(), b.drop_first());
        if a.drop_first() == b.drop_first() {
            assert forall|i: int| 0 <= i < a.len() implies a[i] == b[i] by {
                if i > 0 {
                    assert(a[i] == a.drop_first()[i - 1]);
                    assert(b[i] == b.drop_first()[i - 1]);
                }
            }
            assert(a =~= b);
        }
    } else if a.len() == 0 && b.len() == 0 {
        assert(a =~= b);
    }
}

pub proof fn lemma_less_asymmetric(a: Seq<char>, b: Seq<char>)
    requires
        seq_less(a, b),
    ensures
        !seq_less(b, a),
    decreases a.len(),
{
    if a.len() > 0 && b.len() > 0 && a[0] == b[0] {
        lemma_less_asymmetric(a.drop_first(), b.drop_first());
    }
}

pub proof fn lemma_push_to_set<A>(s: Seq<A>, x: A)
    ensures
        s.push(x).to_set() == s.to_set().insert(x),
{
    assert forall|y: A| s.push(x).to_set().contains(y) <==> s.to_set().insert(x).contains(y) by {
        if s.push(x).contains(y) && y != x {
            let i = choose|i: int| 0 <= i < s.push(x).len() && s.push(x)[i] == y;
            assert(i < s.len());
            assert(s[i] == y);
        }
        if s.contains(y) {
            let i = choose|i: int| 0 <= i < s.len() && s[i] == y;
            assert(s.push(x)[i] == y);
        }
        if y == x {
            assert(s.push(x)[s.len() as int] == x);
        }
    }
    assert(s.push(x).to_set() =~= s.to_set().insert(x));
}

/// `a < b` for strings.
pub fn str_less(a: &str, b: &str) -> (r: bool)
    ensures
        r == seq_less(a@, b@),
{
    let x = chars_of(a);
    let y = chars_of(b);
    let mut i: usize = 0;
    assert(x@.subrange(0, x@.len() as int) == x@);
    assert(y@.subrange(0, y@.len() as int) == y@);
    while i < x.len() && i < y.len() && x[i] == y[i]
        invariant
            i <= x@.len(),
            i <= y@.len(),
            x@.subrange(0, i as int) == y@.subrange(0, i as int),
            seq_less(x@, y@) == seq_less(x@.subrange(i as int, x@.len() as int), y@.subrange(i as int, y@.len() as int)),
        decreases x@.len() - i,
    {
        assert(x@.subrange(i as int, x@.len() as int)[0] == x@[i as int]);
        assert(y@.subrange(i as int, y@.len() as int)[0] == y@[i as int]);
        proof {
            let xs = x@.subrange(i as int, x@.len() as int);
            let ys = y@.subrange(i as int, y@.len() as int);
            assert(xs.drop_first() == x@.subrange(i + 1, x@.len() as int));
            assert(ys.drop_first() == y@.subrange(i + 1, y@.len() as int));
            assert(x@.subrange(0, i + 1) =~= x@.subrange(0, i as int).push(x@[i as int]));
            assert(y@.subrange(0, i + 1) =~= y@.subrange(0, i as int).push(y@[i as int]));
        }
        i = i + 1;
    }
    assert(x@.subrange(0, x@.len() as int) == x@);
    assert(y@.subrange(0, y@.len() as int) == y@);
    if i == y.len() {
        return false;
    }
    if i == x.len() {
        return true;
    }
    proof {
        let xs = x@.subrange(i as int, x@.len() as int);
        let ys = y@.subrange(i as int, y@.len() as int);
        assert(xs[0] == x@[i as int]);
        assert(ys[0] == y@[i as int]);
    }
    x[i] < y[i]
}

/// Whether `v` is strictly increasing.
pub open spec fn strictly_sorted(v: Seq<Seq<char>>) -> bool {
    forall|i: int, j: int| 0 <= i < j < v.len() ==> seq_less(v[i], v[j])
}

/// `words`, sorted, each once (`sort` followed by `dedup`).
pub fn sorted_unique(words: &Vec<String>) -> (r: Vec<String>)
    ensures
        strictly_sorted(string_views(r@)),
        string_views(r@).to_set() == string_views(words@).to_set(),
{
    let mut out: Vec<String> = Vec::new();
    let mut n: usize = 0;
    while n < words.len()
        invariant
            n <= words@.len(),
            strictly_sorted(string_views(out@)),
            string_views(out@).to_set() == string_views(words@.take(n as int)).to_set(),
        decreases words@.len() - n,
    {
        let w = &words[n];
        let mut k: usize = 0;
        while k < out.len() && str_less(out[k].as_str(), w.as_str())
            invariant
                k <= out@.len(),
                forall|i: int| 0 <= i < k ==> seq_less(#[trigger] out@[i]@, w@),
            decreases out@.len() - k,
        {
            k = k + 1;
        }
        let ghost before = string_views(out@);
        proof {
            assert(words@.take(n + 1) == words@.take(n as int).push(*w));
            assert(string_views(words@.take(n + 1)) == string_views(words@.take(n as int)).push(w@));
            lemma_push_to_set(string_views(words@.take(n as int)), w@);
        }
        if k < out.len() && crate::text::str_eq(out[k].as_str(), w.as_str()) {
            proof {
                assert(before[k as int] == w@);
                assert(before.to_set().contains(w@));
                assert(before.to_set().insert(w@) =~= before.to_set());
            }
        } else {
            proof {
                if k < out@.len() {
                    lemma_less_total(out@[k as int]@, w@);
                    assert(seq_less(w@, out@[k as int]@));
                }
            }
            out.insert(k, w.clone());
            proof {
                let after = string_views(out@);
                assert(after =~= before.insert(k as int, w@));
                assert forall|i: int, j: int| 0 <= i < j < after.len() implies seq_less(after[i], after[j]) by {
                    if j < k {
                        assert(after[i] == before[i] && after[j] == before[j]);
                    } else if j == k {
                        assert(after[i] == before[i]);
                    } else if i < k {
                        assert(after[i] == before[i] && after[j] == before[j - 1]);
                        if j - 1 > k {
                            assert(seq_less(before[k as int], before[j - 1]));
                        }
                        lemma_less_transitive(before[i], w@, before[k as int]);
                        if j - 1 > k {
                            lemma_less_transitive(before[i], before[k as int], before[j - 1]);
                        }
                    } else if i == k {
                        assert(after[j] == before[j - 1]);
                        if j - 1 > k {
                            lemma_less_transitive(w@, before[k as int], before[j - 1]);
                        }
                    } else {
                        assert(after[i] == before[i - 1] && after[j] == before[j - 1]);
                    }
                }
                assert(after.to_set() =~= before.to_set().insert(w@)) by {
                    assert forall|x: Seq<char>| after.to_set().contains(x) <==> before.to_set().insert(w@).contains(x) by {
                        if after.to_set().contains(x) {
                            let i = choose|i: int| 0 <= i < after.len() && after[i] == x;
                            if i < k {
                                assert(before[i] == x);
                            } else if i > k {
                                assert(before[i - 1] == x);
                            }
                        }
                        if before.to_set().contains(x) {
                            let i = choose|i: int| 0 <= i < before.len() && before[i] == x;
                            if i < k {
                                assert(after[i] == x);
                            } else {
                                assert(after[i + 1] == x);
                            }
                        }
                        if x == w@ {
                            assert(after[k as int] == x);
                        }
                    }
                }
            }
        }
        n = n + 1;
    }
    assert(words@.take(words@.len() as int) == words@);
    out
}

} // verus!
