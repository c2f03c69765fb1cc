//! The local, append-only operation log (JSON lines). Never leaves the machine.
//!
//! Writing, reading and renaming the file is the caller's part; where the log lives, when it is
//! shortened and to what, and in which order it is listed is decided here.

use vstd::prelude::*;

use crate::models::OperationRecord;
use crate::paths::{join, join_spec};
use crate::text::{
    chars_of, join_strings, join_with, split_chars, split_on, string_from, string_views,
    trim_seq, views_of,
};

verus! {

/// When the log is shortened: once it is larger than this many bytes.
pub const MAX_BYTES: u64 = 524_288;

/// How many entries a shortened log keeps. A machine cleaned every week reaches a thousand
/// entries after twenty years.
pub const KEEP_RECORDS: usize = 1_000;

pub struct OperationLog {
    dir: String,
    path: String,
}

impl OperationLog {
    pub closed spec fn dir_spec(&self) -> Seq<char> {
        self.dir@
    }

    pub closed spec fn path_spec(&self) -> Seq<char> {
        self.path@
    }

    /// The log lives at `<dir>/operations.jsonl`.
    ///
    /// Opening never fails. The directory is created when something is first written, so an
    /// unwritable data directory costs the user their history rather than the application.
    pub fn open(dir: &str) -> (r: Self)
        ensures
            r.dir_spec() == dir@,
            r.path_spec() == join_spec(dir@, "operations.jsonl"@),
    {
        OperationLog { dir: crate::text::owned(dir), path: join(dir, "operations.jsonl") }
    }

    pub fn path(&self) -> (r: &str)
        ensures
            r@ == self.path_spec(),
    {
        self.path.as_str()
    }

    /// The directory the log lives in.
    pub fn dir(&self) -> (r: &str)
        ensures
            r@ == self.dir_spec(),
    {
        self.dir.as_str()
    }

    /// Where a shortened log is written before it replaces the log, so an interrupted
    /// compaction leaves the previous log intact.
    pub fn temp_path(&self) -> (r: String)
        ensures
            r@ == join_spec(self.dir_spec(), "operations.jsonl.writing"@),
    {
        join(self.dir.as_str(), "operations.jsonl.writing")
    }
}

/// Whether a log of `size` bytes (`None`: unknown) is shortened after an append.
pub fn needs_compaction(size: Option<u64>) -> (r: bool)
    ensures
        r == (size matches Some(s) && s > MAX_BYTES),
{
    match size {
        Some(s) => s > MAX_BYTES,
        None => false,
    }
}

/// `l` without a carriage return at its end.
pub open spec fn strip_cr(l: Seq<char>) -> Seq<char> {
    if l.len() > 0 && l.last() == '\r' {
        l.drop_last()
    } else {
        l
    }
}

/// The lines of `text` as `str::lines` gives them: cut at `\n`, a `\r` before the `\n`
/// dropped; the last piece is kept as it is and left out when empty.
pub open spec fn lines_of(text: Seq<char>) -> Seq<Seq<char>> {
    let pieces = split_on(text, '\n');
    let body = pieces.drop_last().map_values(|l: Seq<char>| strip_cr(l));
    if pieces.last().len() == 0 {
        body
    } else {
        body.push(pieces.last())
    }
}

/// The lines that hold something other than whitespace.
pub open spec fn filled(lines: Seq<Seq<char>>) -> Seq<Seq<char>>
    decreases lines.len(),
{
    if lines.len() == 0 {
        Seq::empty()
    } else if trim_seq(lines.last()).len() > 0 {
        filled(lines.drop_last()).push(lines.last())
    } else {
        filled(lines.drop_last())
    }
}

/// What a log holding `text` is shortened to: `None` when it has no more entries than are
/// kept; otherwise its last `KEEP_RECORDS` entries, one per line.
pub open spec fn compacted(text: Seq<char>) -> Option<Seq<char>> {
    let lines = filled(lines_of(text));
    if lines.len() <= KEEP_RECORDS {
        None
    } else {
        Some(join_with(lines.subrange(lines.len() - KEEP_RECORDS, lines.len() as int), "\n"@) + "\n"@)
    }
}

/// The lines of `text`, as `str::lines` gives them.
fn lines_in(text: &str) -> (r: Vec<String>)
    ensures
        string_views(r@) == lines_of(text@),
{
    let cs = chars_of(text);
    let pieces = split_chars(cs.as_slice(), '\n');
    proof {
        crate::text::lemma_split_nonempty(cs@, '\n');
    }
    let ghost pv = views_of(pieces@);
    let mut out: Vec<String> = Vec::new();
    let last = pieces.len() - 1;
    let mut i: usize = 0;
    while i < last
        invariant
            last + 1 == pieces@.len(),
            pv == views_of(pieces@),
            pv == split_on(cs@, '\n'),
            i <= last,
            string_views(out@) == pv.drop_last().take(i as int).map_values(|l: Seq<char>| strip_cr(l)),
        decreases last - i,
    {
        let p = &pieces[i];
        let n = p.len();
        let end: usize = if n > 0 && p[n - 1] == '\r' {
            n - 1
        } else {
            n
        };
        let line = crate::text::string_of_range(p.as_slice(), 0, end);
        proof {
            assert(pv[i as int] == p@);
            if n > 0 && p@[n - 1] == '\r' {
                assert(p@.subrange(0, end as int) == p@.drop_last());
            } else {
                assert(p@.subrange(0, end as int) == p@);
            }
        }
        let ghost before = string_views(out@);
        out.push(line);
        proof {
            assert(string_views(out@) =~= before.push(line@));
            assert(pv.drop_last().take(i + 1) =~= pv.drop_last().take(i as int).push(pv[i as int]));
            assert(pv.drop_last().take(i + 1).map_values(|l: Seq<char>| strip_cr(l)) =~= pv.drop_last().take(i as int).map_values(|l: Seq<char>| strip_cr(l)).push(strip_cr(pv[i as int])));
        }
        i = i + 1;
    }
    assert(pv.drop_last().take(last as int) == pv.drop_last());
    let tail = &pieces[last];
    assert(pv.last() == tail@);
    if tail.len() > 0 {
        let ghost before = string_views(out@);
        let t = string_from(tail.as_slice());
        out.push(t);
        assert(string_views(out@) =~= before.push(t@));
    }
    out
}

/// What a log holding `text` is shortened to, or `None` when it is short enough already.
pub fn compact_text(text: &str) -> (r: Option<String>)
    ensures
        match r {
            Some(t) => compacted(text@) == Some(t@),
            None => compacted(text@) is None,
        },
{
    let lines = lines_in(text);
    let ghost lv = string_views(lines@);
    let mut kept: Vec<String> = Vec::new();
    let mut i: usize = 0;
    while i < lines.len()
        invariant
            i <= lines@.len(),
            lv == string_views(lines@),
            string_views(kept@) == filled(lv.take(i as int)),
        decreases lines@.len() - i,
    {
        proof {
            assert(lv.take(i + 1).drop_last() == lv.take(i as int));
            assert(lv.take(i + 1).last() == lines@[i as int]@);
        }
        let t = crate::text::trimmed_chars(lines[i].as_str());
        if t.len() > 0 {
            let ghost before = string_views(kept@);
            let l = lines[i].clone();
            kept.push(l);
            assert(string_views(kept@) =~= before.push(l@));
        }
        i = i + 1;
    }
    assert(lv.take(lines@.len() as int) == lv);
    if kept.len() <= KEEP_RECORDS {
        return None;
    }
    let ghost kv = string_views(kept@);
    let start = kept.len() - KEEP_RECORDS;
    let mut last: Vec<String> = Vec::new();
    let mut j: usize = start;
    while j < kept.len()
        invariant
            start <= j <= kept@.len(),
            kv == string_views(kept@),
            string_views(last@) == kv.subrange(start as int, j as int),
        decreases kept@.len() - j,
    {
        let ghost before = string_views(last@);
        let l = kept[j].clone();
        last.push(l);
        assert(string_views(last@) =~= before.push(l@));
        assert(kv.subrange(start as int, j + 1) =~= kv.subrange(start as int, j as int).push(kv[j as int]));
        j = j + 1;
    }
    let joined = join_strings(&last, "\n");
    Some(crate::text::concat(joined.as_str(), "\n"))
}

/// The records, most recent first, at most `limit` of them. `records` are in the order the
/// log holds them, oldest first.
pub fn newest_first(records: Vec<OperationRecord>, limit: usize) -> (r: Vec<OperationRecord>)
    ensures
        r@ == records@.reverse().take(if limit < records@.len() { limit as int } else { records@.len() as int }),
{
    let ghost all = records@;
    let mut rest = records;
    let mut out: Vec<OperationRecord> = Vec::new();
    while out.len() < limit && rest.len() > 0
        invariant
            rest@ == all.take(rest@.len() as int),
            out@ == all.reverse().take(out@.len() as int),
            out@.len() + rest@.len() == all.len(),
            out@.len() <= limit,
        decreases rest@.len(),
    {
        let r = rest.pop().unwrap();
        proof {
            assert(r == all[rest@.len() as int]);
            assert(all.reverse()[out@.len() as int] == all[all.len() - 1 - out@.len()]);
        }
        let ghost before = out@;
        out.push(r);
        proof {
            assert(out@ =~= all.reverse().take(out@.len() as int));
            assert(rest@ =~= all.take(rest@.len() as int));
        }
    }
    out
}

} // verus!
