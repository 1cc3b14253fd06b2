//! Listing a host's log files with how often a trace id occurs in each, and
//! reading one of them.
use vstd::prelude::*;
use vstd::string::*;
use crate::chain::LogFileInfo;
use crate::text::{decimal, decimal_string, spec_is_ws, is_ws, string_of_chars};

verus! {

/// Lists at most a hundred files whose names hold `log` directly under `log_path`.
pub open spec fn find_command(log_path: Seq<char>) -> Seq<char> {
    "find "@ + log_path + " -maxdepth 1 -type f -name '*log*' 2>/dev/null | head -100"@
}

pub fn build_find_command(log_path: &str) -> (r: String)
    ensures
        r@ == find_command(log_path@),
{
    let mut r = String::from_str("find ");
    r.append(log_path);
    r.append(" -maxdepth 1 -type f -name '*log*' 2>/dev/null | head -100");
    r
}

/// Counts the lines of `file_path` that hold the trace id (printing 0 if the
/// file cannot be read).
pub open spec fn count_command(trace_id: Seq<char>, file_path: Seq<char>) -> Seq<char> {
    "grep -c '"@ + trace_id + "' '"@ + file_path + "' 2>/dev/null || echo 0"@
}

pub fn build_count_command(trace_id: &str, file_path: &str) -> (r: String)
    ensures
        r@ == count_command(trace_id@, file_path@),
{
    let mut r = String::from_str("grep -c '");
    r.append(trace_id);
    r.append("' '");
    r.append(file_path);
    r.append("' 2>/dev/null || echo 0");
    r
}

/// Matches are counted (and files without any left out) only when a trace id
/// is given.
pub fn counts_matches(trace_id: &str) -> (r: bool)
    ensures
        r == (trace_id@.len() > 0),
{
    trace_id.unicode_len() > 0
}

/// Prints the first `max_lines` lines of `file_path`.
pub open spec fn head_command(max_lines: nat, file_path: Seq<char>) -> Seq<char> {
    "head -"@ + decimal(max_lines) + " '"@ + file_path + "' 2>/dev/null"@
}

pub fn build_head_command(max_lines: u32, file_path: &str) -> (r: String)
    ensures
        r@ == head_command(max_lines as nat, file_path@),
{
    let mut r = String::from_str("head -");
    r.append(decimal_string(max_lines as u64).as_str());
    r.append(" '");
    r.append(file_path);
    r.append("' 2>/dev/null");
    r
}

/// What follows the last `/` of a path (all of it when it has none).
pub open spec fn base_name(s: Seq<char>) -> Seq<char>
    decreases s.len(),
{
    if s.len() == 0 {
        s
    } else if s.last() == '/' {
        seq![]
    } else {
        base_name(s.drop_last()).push(s.last())
    }
}

pub fn file_name(path: &str) -> (r: String)
    ensures
        r@ == base_name(path@),
{
    let s = crate::text::chars_of(path);
    let mut cur: Vec<char> = Vec::new();
    let mut i: usize = 0;
    while i < s.len()
        invariant
            i <= s.len(),
            cur@ == base_name(s@.take(i as int)),
        decreases s.len() - i,
    {
        assert(s@.take(i + 1).drop_last() =~= s@.take(i as int));
        if s[i] == '/' {
            cur = Vec::new();
            assert(cur@ =~= base_name(s@.take(i + 1)));
        } else {
            cur.push(s[i]);
        }
        i = i + 1;
    }
    assert(s@.take(s.len() as int) =~= path@);
    string_of_chars(&cur)
}

pub open spec fn trim_start(s: Seq<char>) -> Seq<char>
    decreases s.len(),
{
    if s.len() > 0 && spec_is_ws(s[0]) {
        trim_start(s.skip(1))
    } else {
        s
    }
}

pub open spec fn trim_end(s: Seq<char>) -> Seq<char>
    decreases s.len(),
{
    if s.len() > 0 && spec_is_ws(s.last()) {
        trim_end(s.drop_last())
    } else {
        s
    }
}

pub open spec fn is_digit(c: char) -> bool {
    '0' <= c && c <= '9'
}

/// The number that a run of decimal digits spells.
pub open spec fn digits_value(s: Seq<char>) -> nat
    decreases s.len(),
{
    if s.len() == 0 {
        0
    } else {
        digits_value(s.drop_last()) * 10 + (s.last() as nat - '0' as nat) as nat
    }
}

/// The count a `grep -c` printed: surrounding whitespace is ignored and a
/// leading `+` is allowed; anything that is not a decimal `u32` counts as 0.
pub open spec fn count_of(out: Seq<char>) -> u32 {
    let t = trim_end(trim_start(out));
    digits_count(if t.len() > 0 && t[0] == '+' { t.skip(1) } else { t })
}

/// The `u32` that `d` spells, or 0 if it spells none.
pub open spec fn digits_count(d: Seq<char>) -> u32 {
    if d.len() > 0 && (forall|i: int| 0 <= i < d.len() ==> is_digit(d[i])) && digits_value(d)
        <= u32::MAX {
        digits_value(d) as u32
    } else {
        0
    }
}

pub fn parse_count(out: &str) -> (r: u32)
    ensures
        r == count_of(out@),
{
    let s = crate::text::chars_of(out);
    let mut lo: usize = 0;
    assert(s@.skip(0) =~= s@);
    while lo < s.len() && is_ws(s[lo])
        invariant
            lo <= s.len(),
            trim_start(s@) == trim_start(s@.skip(lo as int)),
        decreases s.len() - lo,
    {
        assert(s@.skip(lo as int).skip(1) =~= s@.skip(lo + 1));
        lo = lo + 1;
    }
    let ghost ts = s@.skip(lo as int);
    assert(trim_start(s@) == ts);
    let mut hi: usize = s.len();
    assert(ts.take(ts.len() as int) =~= ts);
    while hi > lo && is_ws(s[hi - 1])
        invariant
            lo <= hi <= s.len(),
            ts == s@.skip(lo as int),
            trim_end(ts) == trim_end(s@.subrange(lo as int, hi as int)),
        decreases hi,
    {
        assert(s@.subrange(lo as int, hi as int).drop_last() =~= s@.subrange(
            lo as int,
            hi - 1,
        ));
        hi = hi - 1;
    }
    let ghost t = s@.subrange(lo as int, hi as int);
    assert(trim_end(trim_start(out@)) == t);
    let mut start = lo;
    if lo < hi && s[lo] == '+' {
        start = lo + 1;
    }
    let ghost d = s@.subrange(start as int, hi as int);
    assert(d =~= if t.len() > 0 && t[0] == '+' { t.skip(1) } else { t });
    assert(count_of(out@) == digits_count(d));
    if start == hi {
        return 0;
    }
    let mut v: u64 = 0;
    let mut i: usize = start;
    while i < hi
        invariant
            start <= i <= hi <= s.len(),
            d == s@.subrange(start as int, hi as int),
            count_of(out@) == digits_count(d),
            v as nat == digits_value(s@.subrange(start as int, i as int)),
            v <= u32::MAX,
            forall|k: int| start <= k < i ==> is_digit(s@[k]),
        decreases hi - i,
    {
        let c = s[i];
        assert(s@.subrange(start as int, i + 1).drop_last() =~= s@.subrange(
            start as int,
            i as int,
        ));
        if !('0' <= c && c <= '9') {
            assert(!is_digit(d[i - start]));
            assert(!(forall|k: int| 0 <= k < d.len() ==> is_digit(d[k])));
            return 0;
        }
        let dv = (c as u32 - '0' as u32) as u64;
        let nv = v * 10 + dv;
        if nv > u32::MAX as u64 {
            proof {
                assert(d.take(i - start + 1) =~= s@.subrange(start as int, i + 1));
                if forall|k: int| 0 <= k < d.len() ==> is_digit(d[k]) {
                    lemma_digits_grow(d, i - start + 1);
                }
            }
            return 0;
        }
        v = nv;
        i = i + 1;
    }
    assert(s@.subrange(start as int, hi as int) =~= d);
    v as u32
}

/// A prefix of a run of digits spells no more than the whole run.
proof fn lemma_digits_grow(d: Seq<char>, n: int)
    requires
        0 <= n <= d.len(),
        forall|i: int| 0 <= i < d.len() ==> '0' <= d[i] && d[i] <= '9',
    ensures
        digits_value(d.take(n)) <= digits_value(d),
    decreases d.len() - n,
{
    if n < d.len() {
        lemma_digits_grow(d, n + 1);
        assert(d.take(n + 1).drop_last() =~= d.take(n));
    } else {
        assert(d.take(n) =~= d);
    }
}

/// The non-empty lines of the file listing, one path each.
pub fn listed_paths(find_output: &str) -> (r: Vec<String>)
    ensures
        r@.map_values(|p: String| p@) == crate::text::nonempty_lines(find_output@),
{
    let lines = crate::text::split_lines(&crate::text::chars_of(find_output));
    let mut r: Vec<String> = Vec::new();
    let mut i: usize = 0;
    while i < lines.len()
        invariant
            i <= lines.len(),
            r@.map_values(|p: String| p@) == crate::text::views(lines@).take(i as int),
        decreases lines.len() - i,
    {
        let ghost r0 = r@;
        let p = string_of_chars(&lines[i]);
        r.push(p);
        assert(crate::text::views(lines@).take(i + 1) =~= crate::text::views(lines@).take(
            i as int,
        ).push(lines@[i as int]@));
        assert(r@.map_values(|p: String| p@) =~= r0.map_values(|p: String| p@).push(p@));
        i = i + 1;
    }
    assert(crate::text::views(lines@).take(lines.len() as int) =~= crate::text::views(lines@));
    r
}

/// A listed file with its match count, named by what follows its last `/`.
pub fn log_file_info(path: String, match_count: u32) -> (r: LogFileInfo)
    ensures
        r.path == path,
        r.name@ == base_name(path@),
        r.match_count == match_count,
{
    let name = file_name(path.as_str());
    LogFileInfo { path, name, match_count }
}

/// Places `x` after every entry whose count is at least its own.
pub open spec fn insert_by_count(r: Seq<LogFileInfo>, x: LogFileInfo) -> Seq<LogFileInfo>
    decreases r.len(),
{
    if r.len() == 0 {
        seq![x]
    } else if r[0].match_count < x.match_count {
        seq![x] + r
    } else {
        seq![r[0]] + insert_by_count(r.skip(1), x)
    }
}

/// `s` ordered by count, most matches first; entries with equal counts keep
/// their order.
pub open spec fn sort_by_count(s: Seq<LogFileInfo>) -> Seq<LogFileInfo>
    decreases s.len(),
{
    if s.len() == 0 {
        seq![]
    } else {
        insert_by_count(sort_by_count(s.drop_last()), s.last())
    }
}

/// The entries of `s` that have at least one match, in order.
pub open spec fn with_matches(s: Seq<LogFileInfo>) -> Seq<LogFileInfo>
    decreases s.len(),
{
    if s.len() == 0 {
        seq![]
    } else if s.last().match_count > 0 {
        with_matches(s.drop_last()).push(s.last())
    } else {
        with_matches(s.drop_last())
    }
}

/// What the listing shows: with a trace id, only files that match it, most
/// matches first; without one, every file as listed.
pub open spec fn ranked(s: Seq<LogFileInfo>, trace_id_given: bool) -> Seq<LogFileInfo> {
    if trace_id_given {
        sort_by_count(with_matches(s))
    } else {
        s
    }
}

proof fn lemma_insert_at(r: Seq<LogFileInfo>, x: LogFileInfo, k: int)
    requires
        0 <= k <= r.len(),
        forall|j: int| 0 <= j < k ==> r[j].match_count >= x.match_count,
        k < r.len() ==> r[k].match_count < x.match_count,
    ensures
        insert_by_count(r, x) == r.insert(k, x),
    decreases r.len(),
{
    if r.len() == 0 {
        assert(r.insert(k, x) =~= seq![x]);
    } else if k == 0 {
        assert(r.insert(k, x) =~= seq![x] + r);
    } else {
        lemma_insert_at(r.skip(1), x, k - 1);
        assert(r.insert(k, x) =~= seq![r[0]] + r.skip(1).insert(k - 1, x));
    }
}

pub fn rank_log_files(files: Vec<LogFileInfo>, trace_id_given: bool) -> (r: Vec<LogFileInfo>)
    ensures
        r@ == ranked(files@, trace_id_given),
{
    if !trace_id_given {
        return files;
    }
    let ghost mut kept: Seq<LogFileInfo> = seq![];
    let mut r: Vec<LogFileInfo> = Vec::new();
    let mut rest = files;
    while rest.len() > 0
        invariant
            rest@.len() <= files@.len(),
            rest@ == files@.skip(files@.len() - rest@.len()),
            kept == with_matches(files@.take(files@.len() - rest@.len())),
            r@ == sort_by_count(kept),
        decreases rest.len(),
    {
        let ghost n = files@.len() - rest@.len();
        assert(files@.take(n + 1).drop_last() =~= files@.take(n));
        let x = rest.remove(0);
        assert(x == files@[n]);
        assert(rest@ =~= files@.skip(n + 1));
        if x.match_count > 0 {
            let mut k: usize = 0;
            while k < r.len() && r[k].match_count >= x.match_count
                invariant
                    k <= r.len(),
                    forall|j: int| 0 <= j < k ==> r@[j].match_count >= x.match_count,
                decreases r.len() - k,
            {
                k = k + 1;
            }
            proof {
                lemma_insert_at(r@, x, k as int);
                let k0 = kept;
                kept = kept.push(x);
                assert(kept.drop_last() == k0);
            }
            r.insert(k, x);
        }
    }
    assert(files@.take(files@.len() as int) =~= files@);
    r
}

pub open spec fn sum_counts(s: Seq<LogFileInfo>) -> nat
    decreases s.len(),
{
    if s.len() == 0 {
        0
    } else {
        sum_counts(s.drop_last()) + s.last().match_count as nat
    }
}

/// The matches over all files, as far as a `u32` holds them.
pub fn total_matches(files: &Vec<LogFileInfo>) -> (r: u32)
    ensures
        r == if sum_counts(files@) <= u32::MAX {
            sum_counts(files@)
        } else {
            u32::MAX as nat
        },
{
    let mut t: u32 = 0;
    let mut i: usize = 0;
    while i < files.len()
        invariant
            i <= files.len(),
            t == if sum_counts(files@.take(i as int)) <= u32::MAX {
                sum_counts(files@.take(i as int))
            } else {
                u32::MAX as nat
            },
        decreases files.len() - i,
    {
        assert(files@.take(i + 1).drop_last() =~= files@.take(i as int));
        t = t.saturating_add(files[i].match_count);
        i = i + 1;
    }
    assert(files@.take(files.len() as int) =~= files@);
    t
}

} // verus!
