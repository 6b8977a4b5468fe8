//! Pods: the creation form, the Helm values, the startup check and the pod list.
use crate::constants::{
    DEFAULT_CPU_CORES, DEFAULT_MEMORY_GB, FORWARD_PORT, HELM_CHART, HELM_VALUES_TEMPLATE,
};
use crate::environment::UserInfo;
use crate::error::{invalid_data_error, Invalid, Result, ThumedError};
use crate::text::{
    chars_of, decimal, decimal_chars, decimal_value, is_ascii_digit, is_ascii_lower, is_control,
    is_text, join, join_chars, keep_non_empty, lemma_chars_deep_view, lemma_decimal_value_grows,
    lemma_lines_with_crlf, lines, lines_of, no_control, non_empty, push_all, push_str, replace_all, replace_all_chars,
    same_chars, slice_of, split, split_chars, string_of, trim, trimmed, control, first_word,
    first_word_of, insert_sorted, strictly_sorted, texts, with_crlf,
};
use crate::utils::CommandOutcome;
use std::io;
use vstd::prelude::*;

verus! {

// ---------------------------------------------------------------------------
// Startup of a freshly installed release
// ---------------------------------------------------------------------------
/// What the pods of a release are doing.
#[derive(Debug, PartialEq, Eq)]
pub enum PodStartup {
    Waiting(String),
    Running(Vec<String>),
    Failed(String),
}

/// The rows of kubectl's output that hold something besides white space.
pub open spec fn pod_rows(output: Seq<char>) -> Seq<Seq<char>> {
    lines(output).filter(|r: Seq<char>| trim(r).len() > 0)
}

/// The tab-separated columns of a row.
pub open spec fn row_fields(row: Seq<char>) -> Seq<Seq<char>> {
    split(row, '\t')
}

/// A row has the six columns asked for, and a pod name.
pub open spec fn row_well_formed(row: Seq<char>) -> bool {
    row_fields(row).len() == 6 && row_fields(row)[0].len() > 0
}

/// The waiting reasons of the containers of a row, empty ones left out.
pub open spec fn row_waiting(row: Seq<char>) -> Seq<Seq<char>> {
    non_empty(split(row_fields(row)[4], ','))
}

/// A terminated state worth reporting: not empty and not the bare `":"` that
/// kubectl prints for a container that has not terminated.
pub open spec fn is_reported_state(s: Seq<char>) -> bool {
    s.len() > 0 && s != ":"@
}

/// The `reason:exitCode` pairs of the terminated containers of a row.
pub open spec fn row_terminated(row: Seq<char>) -> Seq<Seq<char>> {
    split(row_fields(row)[5], ',').filter(|s: Seq<char>| is_reported_state(s))
}

/// The waiting reasons that mean the pod will not come up by itself.
pub open spec fn is_fatal_waiting(reason: Seq<char>) -> bool {
    ||| reason == "CrashLoopBackOff"@
    ||| reason == "ErrImagePull"@
    ||| reason == "ImagePullBackOff"@
    ||| reason == "InvalidImageName"@
    ||| reason == "ErrImageNeverPull"@
    ||| reason == "CreateContainerConfigError"@
    ||| reason == "CreateContainerError"@
    ||| reason == "RunContainerError"@
    ||| reason == "StartError"@
}

/// Position of the last `c` in `s`, or -1 where there is none.
pub open spec fn rindex_of(s: Seq<char>, c: char) -> int
    decreases s.len(),
{
    if s.len() == 0 {
        -1
    } else if s.last() == c {
        s.len() - 1
    } else {
        rindex_of(s.drop_last(), c)
    }
}

/// Whether `s` carries a leading `+` or `-`.
pub open spec fn has_sign(s: Seq<char>) -> bool {
    s.len() > 0 && (s[0] == '+' || s[0] == '-')
}

/// The digits of a number, after its sign if it has one.
pub open spec fn unsigned_part(s: Seq<char>) -> Seq<char> {
    if has_sign(s) {
        s.drop_first()
    } else {
        s
    }
}

/// Every character of `s` is a decimal digit.
pub open spec fn all_ascii_digits(s: Seq<char>) -> bool {
    forall|i: int| 0 <= i < s.len() ==> is_ascii_digit(#[trigger] s[i])
}

/// The signed value written by `s`, if its digits are read as decimal.
pub open spec fn signed_value(s: Seq<char>) -> int {
    if has_sign(s) && s[0] == '-' {
        -(decimal_value(unsigned_part(s)) as int)
    } else {
        decimal_value(unsigned_part(s)) as int
    }
}

/// The number that `str::parse::<i32>` reads from `s`, if it reads one: an
/// optional sign, then one or more decimal digits, within the range of `i32`.
pub open spec fn parse_i32(s: Seq<char>) -> Option<int> {
    if unsigned_part(s).len() > 0 && all_ascii_digits(unsigned_part(s)) && i32::MIN <= signed_value(
        s,
    ) <= i32::MAX {
        Some(signed_value(s))
    } else {
        None
    }
}

/// A terminated state whose exit code (after its last `:`) reads as a number
/// other than zero.
pub open spec fn is_failed_exit(state: Seq<char>) -> bool {
    let k = rindex_of(state, ':');
    k >= 0 && (parse_i32(state.skip(k + 1)) matches Some(code) && code != 0)
}

/// A row shows a pod that failed, or whose containers cannot start.
pub open spec fn row_failed(row: Seq<char>) -> bool {
    let phase = row_fields(row)[1];
    ||| phase == "Failed"@
    ||| phase == "Succeeded"@
    ||| exists|i: int| 0 <= i < row_waiting(row).len() && is_fatal_waiting(#[trigger] row_waiting(row)[i])
    ||| exists|i: int| 0 <= i < row_terminated(row).len() && is_failed_exit(#[trigger] row_terminated(row)[i])
}

/// A row shows a running pod with nothing waiting and no deletion pending.
pub open spec fn row_running(row: Seq<char>) -> bool {
    &&& row_fields(row)[1] == "Running"@
    &&& row_waiting(row).len() == 0
    &&& row_fields(row)[3].len() == 0
}

/// The summary line of a row: name, phase, and the non-empty details.
pub open spec fn row_summary(row: Seq<char>) -> Seq<char> {
    let f = row_fields(row);
    let details = join(
        non_empty(seq![f[2], join(row_waiting(row), ", "@), join(row_terminated(row), ", "@)]),
        " / "@,
    );
    trim(f[0] + ": "@ + f[1] + " "@ + details)
}

/// The pod name of a row.
pub open spec fn row_name(row: Seq<char>) -> Seq<char> {
    row_fields(row)[0]
}

pub open spec fn all_well_formed(rows: Seq<Seq<char>>) -> bool {
    forall|i: int| 0 <= i < rows.len() ==> row_well_formed(#[trigger] rows[i])
}

pub open spec fn any_failed(rows: Seq<Seq<char>>) -> bool {
    exists|i: int| 0 <= i < rows.len() && row_failed(#[trigger] rows[i])
}

pub open spec fn all_running(rows: Seq<Seq<char>>) -> bool {
    forall|i: int| 0 <= i < rows.len() ==> row_running(#[trigger] rows[i])
}

/// The summary of all rows, one line each.
pub open spec fn startup_summary(rows: Seq<Seq<char>>) -> Seq<char> {
    join(rows.map_values(|r: Seq<char>| row_summary(r)), "\n"@)
}

pub open spec fn string_views(v: Seq<String>) -> Seq<Seq<char>> {
    v.map_values(|s: String| s@)
}

/// What the startup check concludes from well-formed rows: failed as soon as
/// one pod failed, running once there are pods and all of them run, waiting
/// otherwise.
pub open spec fn startup_matches(rows: Seq<Seq<char>>, s: PodStartup) -> bool {
    match s {
        PodStartup::Failed(d) => any_failed(rows) && d@ == startup_summary(rows),
        PodStartup::Running(names) => !any_failed(rows) && rows.len() > 0 && all_running(rows)
            && string_views(names@) == rows.map_values(|r: Seq<char>| row_name(r)),
        PodStartup::Waiting(d) => !any_failed(rows) && !(rows.len() > 0 && all_running(rows))
            && d@ == startup_summary(rows),
    }
}

proof fn lemma_rindex_of(s: Seq<char>, c: char)
    ensures
        -1 <= rindex_of(s, c) < s.len(),
        rindex_of(s, c) >= 0 ==> s[rindex_of(s, c)] == c,
        forall|j: int| rindex_of(s, c) < j < s.len() ==> #[trigger] s[j] != c,
    decreases s.len(),
{
    if s.len() > 0 && s.last() != c {
        lemma_rindex_of(s.drop_last(), c);
        assert forall|j: int| rindex_of(s, c) < j < s.len() implies #[trigger] s[j] != c by {
            if j < s.len() - 1 {
                assert(s[j] == s.drop_last()[j]);
            }
        }
    }
}

proof fn lemma_rindex_of_is(s: Seq<char>, c: char, k: int)
    requires
        -1 <= k < s.len(),
        k >= 0 ==> s[k] == c,
        forall|j: int| k < j < s.len() ==> #[trigger] s[j] != c,
    ensures
        rindex_of(s, c) == k,
{
    lemma_rindex_of(s, c);
    let r = rindex_of(s, c);
    if r < k {
        assert(s[k] != c);
    } else if r > k {
        assert(s[r] != c);
    }
}

/// Position of the last `c` in `v`, if any.
fn rfind(v: &[char], c: char) -> (r: Option<usize>)
    ensures
        match r {
            Some(k) => rindex_of(v@, c) == k && k < v.len(),
            None => rindex_of(v@, c) == -1,
        },
{
    let mut i: usize = v.len();
    while i > 0 && v[i - 1] != c
        invariant
            i <= v.len(),
            forall|j: int| i <= j < v.len() ==> #[trigger] v@[j] != c,
        decreases i,
    {
        i = i - 1;
    }
    if i == 0 {
        proof {
            lemma_rindex_of_is(v@, c, -1);
        }
        None
    } else {
        proof {
            lemma_rindex_of_is(v@, c, i - 1);
        }
        Some(i - 1)
    }
}

/// The value that `str::parse::<i32>` reads from `v`, if any.
pub fn parse_i32_chars(v: &[char]) -> (r: Option<i32>)
    ensures
        match r {
            Some(x) => parse_i32(v@) == Some(x as int),
            None => parse_i32(v@) is None,
        },
{
    let signed = v.len() > 0 && (v[0] == '+' || v[0] == '-');
    let negative = signed && v[0] == '-';
    let start: usize = if signed {
        1
    } else {
        0
    };
    let ghost digits = if signed {
        v@.drop_first()
    } else {
        v@
    };
    assert(digits == v@.skip(start as int));
    if start >= v.len() {
        assert(digits.len() == 0);
        return None;
    }
    // The magnitude grows with every digit; past this bound no i32 has it.
    let bound: u64 = 2147483648;
    let mut acc: u64 = 0;
    let mut i: usize = start;
    while i < v.len()
        invariant
            start <= i <= v.len(),
            signed == (v@.len() > 0 && (v@[0] == '+' || v@[0] == '-')),
            start == (if signed {
                1usize
            } else {
                0usize
            }),
            digits == (if signed {
                v@.drop_first()
            } else {
                v@
            }),
            digits == v@.skip(start as int),
            acc as nat == decimal_value(digits.take(i - start)),
            acc <= bound,
            bound == 2147483648,
            forall|j: int| 0 <= j < i - start ==> is_ascii_digit(#[trigger] digits[j]),
        decreases v.len() - i,
    {
        let c = v[i];
        assert(digits[i - start] == v@[i as int]);
        if !('0' <= c && c <= '9') {
            assert(!is_ascii_digit(digits[i - start]));
            assert(!all_ascii_digits(digits));
            return None;
        }
        let d = (c as u32 - '0' as u32) as u64;
        assert(d < 10);
        proof {
            assert(digits.take(i - start + 1).drop_last() == digits.take(i - start));
            assert(digits.take(i - start + 1).last() == c);
        }
        let next = acc * 10 + d;
        assert(decimal_value(digits.take(i - start + 1)) == next);
        if next > bound {
            proof {
                lemma_decimal_value_grows(digits, i - start + 1);
                assert(decimal_value(digits) > 2147483648);
                let m = decimal_value(digits) as int;
                assert(m > i32::MAX && -m < i32::MIN);
                assert(parse_i32(v@) is None);
            }
            return None;
        }
        acc = next;
        i = i + 1;
    }
    assert(digits.take(i - start) == digits);
    if negative {
        Some((0 - (acc as i64)) as i32)
    } else if acc <= 2147483647 {
        Some(acc as i32)
    } else {
        None
    }
}

/// Whether a terminated state carries an exit code other than zero.
pub fn failed_exit(state: &[char]) -> (r: bool)
    ensures
        r == is_failed_exit(state@),
{
    match rfind(state, ':') {
        None => false,
        Some(k) => {
            let code = slice_of(state, k + 1, state.len());
            assert(code@ == state@.skip(k + 1));
            match parse_i32_chars(code.as_slice()) {
                Some(x) => x != 0,
                None => false,
            }
        },
    }
}

/// Whether the waiting reason is one that keeps a pod from coming up.
pub fn fatal_waiting(reason: &[char]) -> (r: bool)
    ensures
        r == is_fatal_waiting(reason@),
{
    is_text(reason, "CrashLoopBackOff") || is_text(reason, "ErrImagePull") || is_text(
        reason,
        "ImagePullBackOff",
    ) || is_text(reason, "InvalidImageName") || is_text(reason, "ErrImageNeverPull") || is_text(
        reason,
        "CreateContainerConfigError",
    ) || is_text(reason, "CreateContainerError") || is_text(reason, "RunContainerError")
        || is_text(reason, "StartError")
}

/// Keeps the rows that hold more than white space.
fn keep_non_blank(lines: Vec<Vec<char>>) -> (r: Vec<Vec<char>>)
    ensures
        r.deep_view() == lines.deep_view().filter(|x: Seq<char>| trim(x).len() > 0),
{
    let mut out: Vec<Vec<char>> = Vec::new();
    let mut i: usize = 0;
    let ghost pred = |x: Seq<char>| trim(x).len() > 0;
    while i < lines.len()
        invariant
            i <= lines.len(),
            pred == (|x: Seq<char>| trim(x).len() > 0),
            out.deep_view() == lines.deep_view().take(i as int).filter(pred),
        decreases lines.len() - i,
    {
        let ghost old_out = out.deep_view();
        proof {
            let t = lines.deep_view().take(i + 1);
            assert(t.drop_last() == lines.deep_view().take(i as int));
            reveal(Seq::filter);
            lemma_chars_deep_view(lines[i as int]);
        }
        let t = trimmed(lines[i].as_slice());
        if t.len() > 0 {
            let p = lines[i].clone();
            proof {
                lemma_chars_deep_view(p);
            }
            out.push(p);
            assert(out.deep_view() =~= old_out.push(lines[i as int]@));
        }
        i = i + 1;
    }
    assert(lines.deep_view().take(lines.len() as int) == lines.deep_view());
    out
}

/// Keeps the terminated states worth reporting.
fn keep_reported_states(parts: Vec<Vec<char>>) -> (r: Vec<Vec<char>>)
    ensures
        r.deep_view() == parts.deep_view().filter(|s: Seq<char>| is_reported_state(s)),
{
    let mut out: Vec<Vec<char>> = Vec::new();
    let mut i: usize = 0;
    let ghost pred = |s: Seq<char>| is_reported_state(s);
    while i < parts.len()
        invariant
            i <= parts.len(),
            pred == (|s: Seq<char>| is_reported_state(s)),
            out.deep_view() == parts.deep_view().take(i as int).filter(pred),
        decreases parts.len() - i,
    {
        let ghost old_out = out.deep_view();
        proof {
            let t = parts.deep_view().take(i + 1);
            assert(t.drop_last() == parts.deep_view().take(i as int));
            reveal(Seq::filter);
            lemma_chars_deep_view(parts[i as int]);
        }
        if parts[i].len() > 0 && !is_text(parts[i].as_slice(), ":") {
            let p = parts[i].clone();
            proof {
                lemma_chars_deep_view(p);
            }
            out.push(p);
            assert(out.deep_view() =~= old_out.push(parts[i as int]@));
        }
        i = i + 1;
    }
    assert(parts.deep_view().take(parts.len() as int) == parts.deep_view());
    out
}

/// What one row of kubectl's output says, once it is known to be well formed.
struct RowReport {
    failed: bool,
    running: bool,
    summary: Vec<char>,
    name: Vec<char>,
}

/// Reads one row; `None` where it does not have the expected columns.
fn read_row(row: &[char]) -> (r: Option<RowReport>)
    ensures
        r is Some <==> row_well_formed(row@),
        r matches Some(rep) ==> {
            &&& rep.failed == row_failed(row@)
            &&& rep.running == row_running(row@)
            &&& rep.summary@ == row_summary(row@)
            &&& rep.name@ == row_name(row@)
        },
{
    let fields = split_chars(row, '\t');
    proof {
        if fields.len() > 0 {
            lemma_chars_deep_view(fields[0]);
        }
    }
    if fields.len() != 6 || fields[0].len() == 0 {
        return None;
    }
    proof {
        lemma_chars_deep_view(fields[1]);
        lemma_chars_deep_view(fields[2]);
        lemma_chars_deep_view(fields[3]);
        lemma_chars_deep_view(fields[4]);
        lemma_chars_deep_view(fields[5]);
    }
    let name = &fields[0];
    let phase = &fields[1];
    let reason = &fields[2];
    let deleting = &fields[3];
    let waiting = keep_non_empty(split_chars(fields[4].as_slice(), ','));
    let terminated = keep_reported_states(split_chars(fields[5].as_slice(), ','));
    assert(waiting.deep_view() == row_waiting(row@));
    assert(terminated.deep_view() == row_terminated(row@));

    let mut fatal = false;
    let mut k: usize = 0;
    while k < waiting.len()
        invariant
            k <= waiting.len(),
            waiting.deep_view() == row_waiting(row@),
            fatal == exists|j: int| 0 <= j < k && is_fatal_waiting(#[trigger] row_waiting(row@)[j]),
        decreases waiting.len() - k,
    {
        proof {
            lemma_chars_deep_view(waiting[k as int]);
            assert(waiting.deep_view()[k as int] == waiting[k as int]@);
        }
        if fatal_waiting(waiting[k].as_slice()) {
            fatal = true;
        }
        k = k + 1;
    }
    let mut exited = false;
    let mut k: usize = 0;
    while k < terminated.len()
        invariant
            k <= terminated.len(),
            terminated.deep_view() == row_terminated(row@),
            exited == exists|j: int| 0 <= j < k && is_failed_exit(#[trigger] row_terminated(row@)[j]),
        decreases terminated.len() - k,
    {
        proof {
            lemma_chars_deep_view(terminated[k as int]);
            assert(terminated.deep_view()[k as int] == terminated[k as int]@);
        }
        if failed_exit(terminated[k].as_slice()) {
            exited = true;
        }
        k = k + 1;
    }
    let failed = is_text(phase.as_slice(), "Failed") || is_text(phase.as_slice(), "Succeeded")
        || fatal || exited;
    let running = is_text(phase.as_slice(), "Running") && waiting.len() == 0 && deleting.len()
        == 0;

    let mut parts: Vec<Vec<char>> = Vec::new();
    parts.push(reason.clone());
    parts.push(join_chars(&waiting, ", "));
    parts.push(join_chars(&terminated, ", "));
    let ghost reason_view = reason@;
    proof {
        lemma_chars_deep_view(parts[0]);
        lemma_chars_deep_view(parts[1]);
        lemma_chars_deep_view(parts[2]);
        assert(parts.deep_view() =~= seq![
            row_fields(row@)[2],
            join(row_waiting(row@), ", "@),
            join(row_terminated(row@), ", "@),
        ]);
    }
    let details = join_chars(&keep_non_empty(parts), " / ");
    let mut line: Vec<char> = Vec::new();
    push_all(&mut line, name.as_slice());
    push_str(&mut line, ": ");
    push_all(&mut line, phase.as_slice());
    push_str(&mut line, " ");
    push_all(&mut line, details.as_slice());
    let summary = trimmed(line.as_slice());
    Some(RowReport { failed, running, summary, name: name.clone() })
}

/// Reads what kubectl printed about the pods of a release.
pub fn parse_pod_startup(output: &str) -> (r: Result<PodStartup>)
    ensures
        match r {
            Err(e) => e is Io && !all_well_formed(pod_rows(output@)),
            Ok(s) => all_well_formed(pod_rows(output@)) && startup_matches(pod_rows(output@), s),
        },
{
    let v = chars_of(output);
    let rows = keep_non_blank(lines_of(v.as_slice()));
    let ghost rs = pod_rows(output@);
    assert(rows.deep_view() == rs);
    let ghost fsum = |x: Seq<char>| row_summary(x);
    let ghost fname = |x: Seq<char>| row_name(x);
    let mut summary: Vec<Vec<char>> = Vec::new();
    let mut names: Vec<String> = Vec::new();
    let mut failed = false;
    let mut running = true;
    let mut i: usize = 0;
    while i < rows.len()
        invariant
            i <= rows.len(),
            rows.deep_view() == rs,
            rs == pod_rows(output@),
            fsum == (|x: Seq<char>| row_summary(x)),
            fname == (|x: Seq<char>| row_name(x)),
            forall|j: int| 0 <= j < i ==> row_well_formed(#[trigger] rs[j]),
            failed == exists|j: int| 0 <= j < i && row_failed(#[trigger] rs[j]),
            running == forall|j: int| 0 <= j < i ==> row_running(#[trigger] rs[j]),
            summary.deep_view() == rs.take(i as int).map_values(fsum),
            string_views(names@) == rs.take(i as int).map_values(fname),
        decreases rows.len() - i,
    {
        proof {
            lemma_chars_deep_view(rows[i as int]);
            assert(rows.deep_view()[i as int] == rows[i as int]@);
        }
        match read_row(rows[i].as_slice()) {
            None => {
                assert(rows.deep_view()[i as int] == rows[i as int]@);
                assert(!row_well_formed(rs[i as int]));
                assert(!all_well_formed(rs));
                return Err(ThumedError::Io(invalid_data_error("Unexpected kubectl pod status output")));
            },
            Some(rep) => {
                let ghost old_summary = summary.deep_view();
                let ghost old_names = string_views(names@);
                failed = failed || rep.failed;
                running = running && rep.running;
                let RowReport { failed: _, running: _, summary: line, name } = rep;
                proof {
                    lemma_chars_deep_view(line);
                }
                summary.push(line);
                let name_string = string_of(name.as_slice());
                names.push(name_string);
                proof {
                    assert(summary.deep_view() =~= old_summary.push(row_summary(rs[i as int])));
                    assert(string_views(names@) =~= old_names.push(row_name(rs[i as int])));
                    assert(rs.take(i + 1) =~= rs.take(i as int).push(rs[i as int]));
                    assert(rs.take(i + 1).map_values(fsum) =~= rs.take(i as int).map_values(
                        fsum,
                    ).push(row_summary(rs[i as int])));
                    assert(rs.take(i + 1).map_values(fname) =~= rs.take(i as int).map_values(
                        fname,
                    ).push(row_name(rs[i as int])));
                }
            },
        }
        i = i + 1;
    }
    assert(rs.take(rows.len() as int) == rs);
    let running = rows.len() > 0 && running;
    let text = string_of(join_chars(&summary, "\n").as_slice());
    if failed {
        Ok(PodStartup::Failed(text))
    } else if running {
        Ok(PodStartup::Running(names))
    } else {
        Ok(PodStartup::Waiting(text))
    }
}

/// kubectl's output reads the same with `\r\n` line breaks as with `\n`: the
/// rows that `parse_pod_startup` judges are the same, so it fails on both or
/// gives the same report for both.
pub proof fn lemma_pod_rows_with_crlf(output: Seq<char>)
    requires
        !output.contains('\r'),
    ensures
        pod_rows(with_crlf(output)) == pod_rows(output),
        all_well_formed(pod_rows(with_crlf(output))) == all_well_formed(pod_rows(output)),
        forall|s: PodStartup|
            startup_matches(pod_rows(with_crlf(output)), s) == startup_matches(pod_rows(output), s),
{
    lemma_lines_with_crlf(output);
}

/// kubelet's waiting reasons with which a container will not start by
/// itself: as soon as one row shows a container waiting for one of them, the
/// startup check reports the release as failed; and where no row shows one
/// of them, a failed phase (`Failed`, `Succeeded`) or a terminated container
/// with a non-zero exit code, it does not.
pub proof fn lemma_fatal_waiting_reasons(rows: Seq<Seq<char>>, s: PodStartup)
    requires
        all_well_formed(rows),
        startup_matches(rows, s),
    ensures
        (exists|k: int, j: int|
            0 <= k < rows.len() && 0 <= j < row_waiting(rows[k]).len() && {
                let w = #[trigger] row_waiting(rows[k])[j];
                ||| w == "CrashLoopBackOff"@
                ||| w == "ErrImagePull"@
                ||| w == "ImagePullBackOff"@
                ||| w == "InvalidImageName"@
                ||| w == "ErrImageNeverPull"@
                ||| w == "CreateContainerConfigError"@
                ||| w == "CreateContainerError"@
                ||| w == "RunContainerError"@
                ||| w == "StartError"@
            }) ==> s is Failed,
        (forall|k: int|
            0 <= k < rows.len() ==> {
                &&& row_fields(#[trigger] rows[k])[1] != "Failed"@
                &&& row_fields(rows[k])[1] != "Succeeded"@
                &&& forall|j: int|
                    0 <= j < row_terminated(rows[k]).len() ==> !is_failed_exit(
                        #[trigger] row_terminated(rows[k])[j],
                    )
                &&& forall|j: int|
                    0 <= j < row_waiting(rows[k]).len() ==> {
                        let w = #[trigger] row_waiting(rows[k])[j];
                        &&& w != "CrashLoopBackOff"@
                        &&& w != "ErrImagePull"@
                        &&& w != "ImagePullBackOff"@
                        &&& w != "InvalidImageName"@
                        &&& w != "ErrImageNeverPull"@
                        &&& w != "CreateContainerConfigError"@
                        &&& w != "CreateContainerError"@
                        &&& w != "RunContainerError"@
                        &&& w != "StartError"@
                    }
            }) ==> !(s is Failed),
{
    if exists|k: int, j: int|
        0 <= k < rows.len() && 0 <= j < row_waiting(rows[k]).len() && {
            let w = #[trigger] row_waiting(rows[k])[j];
            ||| w == "CrashLoopBackOff"@
            ||| w == "ErrImagePull"@
            ||| w == "ImagePullBackOff"@
            ||| w == "InvalidImageName"@
            ||| w == "ErrImageNeverPull"@
            ||| w == "CreateContainerConfigError"@
            ||| w == "CreateContainerError"@
            ||| w == "RunContainerError"@
            ||| w == "StartError"@
        } {
        let (k, j) = choose|k: int, j: int|
            0 <= k < rows.len() && 0 <= j < row_waiting(rows[k]).len() && {
                let w = #[trigger] row_waiting(rows[k])[j];
                ||| w == "CrashLoopBackOff"@
                ||| w == "ErrImagePull"@
                ||| w == "ImagePullBackOff"@
                ||| w == "InvalidImageName"@
                ||| w == "ErrImageNeverPull"@
                ||| w == "CreateContainerConfigError"@
                ||| w == "CreateContainerError"@
                ||| w == "RunContainerError"@
                ||| w == "StartError"@
            };
        assert(is_fatal_waiting(row_waiting(rows[k])[j]));
        assert(row_failed(rows[k]));
        assert(any_failed(rows));
    }
    if forall|k: int|
        0 <= k < rows.len() ==> {
            &&& row_fields(#[trigger] rows[k])[1] != "Failed"@
            &&& row_fields(rows[k])[1] != "Succeeded"@
            &&& forall|j: int|
                0 <= j < row_terminated(rows[k]).len() ==> !is_failed_exit(
                    #[trigger] row_terminated(rows[k])[j],
                )
            &&& forall|j: int|
                0 <= j < row_waiting(rows[k]).len() ==> {
                    let w = #[trigger] row_waiting(rows[k])[j];
                    &&& w != "CrashLoopBackOff"@
                    &&& w != "ErrImagePull"@
                    &&& w != "ImagePullBackOff"@
                    &&& w != "InvalidImageName"@
                    &&& w != "ErrImageNeverPull"@
                    &&& w != "CreateContainerConfigError"@
                    &&& w != "CreateContainerError"@
                    &&& w != "RunContainerError"@
                    &&& w != "StartError"@
                }
        } {
        assert forall|k: int| 0 <= k < rows.len() implies !row_failed(#[trigger] rows[k]) by {
            assert forall|j: int| 0 <= j < row_waiting(rows[k]).len() implies !is_fatal_waiting(
                #[trigger] row_waiting(rows[k])[j],
            ) by {
                let w = row_waiting(rows[k])[j];
                assert(w != "RunContainerError"@);
            }
        }
        assert(!any_failed(rows));
    }
}

// ---------------------------------------------------------------------------
// The creation form
// ---------------------------------------------------------------------------
/// The values of the creation form, checked.
#[derive(Debug)]
pub struct PodConfig {
    pub container_name: String,
    pub cpu: Option<u8>,
    pub memory: Option<u8>,
}

/// A pod name: not empty, lowercase ASCII letters and digits only.
pub open spec fn valid_pod_name(name: Seq<char>) -> bool {
    name.len() > 0 && forall|i: int|
        0 <= i < name.len() ==> is_ascii_lower(#[trigger] name[i]) || is_ascii_digit(name[i])
}

/// The creation form takes a pod name only if, once trimmed, it is not
/// empty and made of lowercase ASCII letters and decimal digits alone; any
/// other name (with `-`, `_`, an uppercase letter, a space inside, ...) is
/// refused as a bad pod name, before the CPU and memory are looked at.
pub proof fn lemma_pod_name_characters(name: Seq<char>, cpu: Seq<char>, memory: Seq<char>)
    ensures
        (pod_form_error(name, cpu, memory) == Some(Invalid::PodName)) <==> !(trim(name).len() > 0
            && forall|i: int|
            0 <= i < trim(name).len() ==> ('a' <= #[trigger] trim(name)[i] && trim(name)[i] <= 'z')
                || ('0' <= trim(name)[i] && trim(name)[i] <= '9')),
{
}

/// The digits of an unsigned number, after a leading `+` if it has one.
pub open spec fn u8_digits(s: Seq<char>) -> Seq<char> {
    if s.len() > 0 && s[0] == '+' {
        s.drop_first()
    } else {
        s
    }
}

/// The number that `str::parse::<u8>` reads from `s`, if it reads one: an
/// optional `+`, then one or more decimal digits, at most 255.
pub open spec fn parse_u8(s: Seq<char>) -> Option<nat> {
    let d = u8_digits(s);
    if d.len() > 0 && (forall|i: int| 0 <= i < d.len() ==> is_ascii_digit(#[trigger] d[i]))
        && decimal_value(d) <= 255 {
        Some(decimal_value(d))
    } else {
        None
    }
}

/// What a resource field of the form means: blank is the default, otherwise
/// a whole number from 1 to 255.
pub open spec fn limit_value(s: Seq<char>) -> Option<Option<nat>> {
    let t = trim(s);
    if t.len() == 0 {
        Some(None)
    } else {
        match parse_u8(t) {
            Some(v) => if v != 0 {
                Some(Some(v))
            } else {
                None
            },
            None => None,
        }
    }
}

/// The value that `str::parse::<u8>` reads from `v`, if any.
pub fn parse_u8_chars(v: &[char]) -> (r: Option<u8>)
    ensures
        match r {
            Some(x) => parse_u8(v@) == Some(x as nat),
            None => parse_u8(v@) is None,
        },
{
    let start: usize = if v.len() > 0 && v[0] == '+' {
        1
    } else {
        0
    };
    let ghost d = u8_digits(v@);
    assert(d == v@.skip(start as int));
    if start >= v.len() {
        return None;
    }
    let mut acc: u32 = 0;
    let mut i: usize = start;
    while i < v.len()
        invariant
            start <= i <= v.len(),
            d == u8_digits(v@),
            d == v@.skip(start as int),
            acc as nat == decimal_value(d.take(i - start)),
            acc <= 255,
            forall|j: int| 0 <= j < i - start ==> is_ascii_digit(#[trigger] d[j]),
        decreases v.len() - i,
    {
        let c = v[i];
        assert(d[i - start] == v@[i as int]);
        if !('0' <= c && c <= '9') {
            assert(!is_ascii_digit(d[i - start]));
            return None;
        }
        let digit = c as u32 - '0' as u32;
        assert(digit < 10);
        proof {
            assert(d.take(i - start + 1).drop_last() == d.take(i - start));
            assert(d.take(i - start + 1).last() == c);
        }
        let next = acc * 10 + digit;
        assert(decimal_value(d.take(i - start + 1)) == next);
        if next > 255 {
            proof {
                lemma_decimal_value_grows(d, i - start + 1);
            }
            return None;
        }
        acc = next;
        i = i + 1;
    }
    assert(d.take(i - start) == d);
    Some(acc as u8)
}

/// Reads one resource field of the creation form: blank is `None`, otherwise
/// a whole number from 1 to 255; anything else is the error `kind`.
pub fn parse_limit(value: &str, kind: Invalid) -> (r: Result<Option<u8>>)
    ensures
        match limit_value(value@) {
            Some(l) => r matches Ok(x) && match (l, x) {
                (None, None) => true,
                (Some(a), Some(b)) => a == b as nat,
                _ => false,
            },
            None => r matches Err(e) && e == ThumedError::Invalid(kind),
        },
{
    let t = trimmed(chars_of(value).as_slice());
    if t.len() == 0 {
        return Ok(None);
    }
    match parse_u8_chars(t.as_slice()) {
        Some(x) => {
            if x == 0 {
                Err(ThumedError::Invalid(kind))
            } else {
                Ok(Some(x))
            }
        },
        None => Err(ThumedError::Invalid(kind)),
    }
}

impl PodConfig {
    /// Checks the creation form: the pod name (trimmed) first, then the CPU
    /// cores, then the memory.
    pub fn from_values(container_name: &str, cpu: &str, memory: &str) -> (r: Result<Self>)
        ensures
            match pod_form_error(container_name@, cpu@, memory@) {
                Some(kind) => r matches Err(e) && e == ThumedError::Invalid(kind),
                None => r matches Ok(c) && pod_form_config(c, container_name@, cpu@, memory@),
            },
    {
        let name = trimmed(chars_of(container_name).as_slice());
        if !pod_name_ok(name.as_slice()) {
            return Err(ThumedError::Invalid(Invalid::PodName));
        }
        let cpu = parse_limit(cpu, Invalid::CpuValue)?;
        let memory = parse_limit(memory, Invalid::MemoryValue)?;
        Ok(PodConfig { container_name: string_of(name.as_slice()), cpu, memory })
    }

    /// The Helm release of the pod: its name.
    pub fn release_name(&self) -> (r: &str)
        ensures
            r@ == self.container_name@,
    {
        self.container_name.as_str()
    }

    /// The Helm values of the pod for the given account.
    pub fn render_values_yaml(&self, user_info: &UserInfo) -> (r: String)
        ensures
            r@ == rendered_values(
                self.container_name@,
                decimal(unwrap_or(self.cpu, DEFAULT_CPU_CORES) as nat),
                decimal(unwrap_or(self.memory, DEFAULT_MEMORY_GB) as nat),
                user_info.user@,
                user_info.password@,
            ),
    {
        proof {
            reveal_strlit("{container_name}");
            reveal_strlit("{cpu}");
            reveal_strlit("{memory}");
            reveal_strlit("{username}");
            reveal_strlit("{password}");
        }
        let cpu = match self.cpu {
            Some(c) => c,
            None => DEFAULT_CPU_CORES,
        };
        let memory = match self.memory {
            Some(m) => m,
            None => DEFAULT_MEMORY_GB,
        };
        let mut text = chars_of(HELM_VALUES_TEMPLATE);
        text = replace_all_chars(
            text.as_slice(),
            chars_of("{container_name}").as_slice(),
            chars_of(self.container_name.as_str()).as_slice(),
        );
        text = replace_all_chars(
            text.as_slice(),
            chars_of("{cpu}").as_slice(),
            decimal_chars(cpu as u64).as_slice(),
        );
        text = replace_all_chars(
            text.as_slice(),
            chars_of("{memory}").as_slice(),
            decimal_chars(memory as u64).as_slice(),
        );
        let user = chars_of(yaml_scalar(user_info.user.as_str()).as_str());
        text = replace_all_chars(text.as_slice(), chars_of("{username}").as_slice(), user.as_slice());
        let password = chars_of(yaml_scalar(user_info.password.as_str()).as_str());
        text = replace_all_chars(
            text.as_slice(),
            chars_of("{password}").as_slice(),
            password.as_slice(),
        );
        string_of(text.as_slice())
    }
}

/// What is wrong with the creation form, checked in the order of its fields.
pub open spec fn pod_form_error(container_name: Seq<char>, cpu: Seq<char>, memory: Seq<char>) -> Option<
    Invalid,
> {
    if !valid_pod_name(trim(container_name)) {
        Some(Invalid::PodName)
    } else if limit_value(cpu) is None {
        Some(Invalid::CpuValue)
    } else if limit_value(memory) is None {
        Some(Invalid::MemoryValue)
    } else {
        None
    }
}

/// The configuration that a valid creation form gives.
pub open spec fn pod_form_config(c: PodConfig, container_name: Seq<char>, cpu: Seq<char>, memory: Seq<
    char,
>) -> bool {
    &&& c.container_name@ == trim(container_name)
    &&& same_limit(limit_value(cpu)->0, c.cpu)
    &&& same_limit(limit_value(memory)->0, c.memory)
}

/// A limit read from the form and the one kept agree.
pub open spec fn same_limit(l: Option<nat>, x: Option<u8>) -> bool {
    match (l, x) {
        (None, None) => true,
        (Some(a), Some(b)) => a == b as nat,
        _ => false,
    }
}

pub open spec fn unwrap_or(x: Option<u8>, d: u8) -> u8 {
    match x {
        Some(v) => v,
        None => d,
    }
}

/// The Helm values: the template with its placeholders filled in, the user
/// name and password as quoted YAML scalars.
pub open spec fn rendered_values(
    name: Seq<char>,
    cpu: Seq<char>,
    memory: Seq<char>,
    user: Seq<char>,
    password: Seq<char>,
) -> Seq<char> {
    let t0 = HELM_VALUES_TEMPLATE@;
    let t1 = replace_all(t0, "{container_name}"@, name);
    let t2 = replace_all(t1, "{cpu}"@, cpu);
    let t3 = replace_all(t2, "{memory}"@, memory);
    let t4 = replace_all(t3, "{username}"@, yaml_quoted(user));
    replace_all(t4, "{password}"@, yaml_quoted(password))
}

/// Whether a trimmed pod name is acceptable.
fn pod_name_ok(name: &[char]) -> (r: bool)
    ensures
        r == valid_pod_name(name@),
{
    if name.len() == 0 {
        return false;
    }
    let mut i: usize = 0;
    while i < name.len()
        invariant
            i <= name.len(),
            forall|j: int|
                0 <= j < i ==> is_ascii_lower(#[trigger] name@[j]) || is_ascii_digit(name@[j]),
        decreases name.len() - i,
    {
        let c = name[i];
        if !(('a' <= c && c <= 'z') || ('0' <= c && c <= '9')) {
            return false;
        }
        i = i + 1;
    }
    true
}

// ---------------------------------------------------------------------------
// YAML scalars
// ---------------------------------------------------------------------------
pub open spec fn hex_digits() -> Seq<char> {
    seq!['0', '1', '2', '3', '4', '5', '6', '7', '8', '9', 'a', 'b', 'c', 'd', 'e', 'f']
}

/// Four lowercase hexadecimal digits of `u` (`{:04x}` for `u` below 0x10000).
pub open spec fn hex4(u: nat) -> Seq<char> {
    seq![
        hex_digits()[((u / 4096) % 16) as int],
        hex_digits()[((u / 256) % 16) as int],
        hex_digits()[((u / 16) % 16) as int],
        hex_digits()[(u % 16) as int],
    ]
}

/// How one character appears inside a double-quoted YAML scalar.
pub open spec fn yaml_escape(c: char) -> Seq<char> {
    if c == '\\' {
        "\\\\"@
    } else if c == '"' {
        "\\\""@
    } else if c == '\n' {
        "\\n"@
    } else if c == '\r' {
        "\\r"@
    } else if c == '\t' {
        "\\t"@
    } else if is_control(c) {
        "\\u"@ + hex4(c as u32 as nat)
    } else {
        seq![c]
    }
}

/// Every character of `s`, escaped.
pub open spec fn yaml_escape_all(s: Seq<char>) -> Seq<char>
    decreases s.len(),
{
    if s.len() == 0 {
        seq![]
    } else {
        yaml_escape_all(s.drop_last()) + yaml_escape(s.last())
    }
}

/// `s` as a double-quoted YAML scalar.
pub open spec fn yaml_quoted(s: Seq<char>) -> Seq<char> {
    "\""@ + yaml_escape_all(s) + "\""@
}

/// Appends the escape of one character.
fn push_yaml_escape(out: &mut Vec<char>, c: char)
    ensures
        final(out)@ == old(out)@ + yaml_escape(c),
{
    if c == '\\' {
        push_str(out, "\\\\");
    } else if c == '"' {
        push_str(out, "\\\"");
    } else if c == '\n' {
        push_str(out, "\\n");
    } else if c == '\r' {
        push_str(out, "\\r");
    } else if c == '\t' {
        push_str(out, "\\t");
    } else if control(c) {
        let table: [char; 16] = [
            '0', '1', '2', '3', '4', '5', '6', '7', '8', '9', 'a', 'b', 'c', 'd', 'e', 'f',
        ];
        assert(table@ == hex_digits());
        let u = c as u32;
        push_str(out, "\\u");
        out.push(table[((u / 4096) % 16) as usize]);
        out.push(table[((u / 256) % 16) as usize]);
        out.push(table[((u / 16) % 16) as usize]);
        out.push(table[(u % 16) as usize]);
        assert(final(out)@ =~= old(out)@ + yaml_escape(c)) by {
            assert(hex4(u as nat) =~= seq![
                table@[((u / 4096) % 16) as int],
                table@[((u / 256) % 16) as int],
                table@[((u / 16) % 16) as int],
                table@[(u % 16) as int],
            ]);
        }
    } else {
        out.push(c);
    }
}

/// `value` as a double-quoted YAML scalar, with backslash, quote and control
/// characters escaped.
pub fn yaml_scalar(value: &str) -> (r: String)
    ensures
        r@ == yaml_quoted(value@),
{
    let v = chars_of(value);
    let mut out: Vec<char> = Vec::new();
    push_str(&mut out, "\"");
    let mut i: usize = 0;
    while i < v.len()
        invariant
            i <= v.len(),
            out@ == "\""@ + yaml_escape_all(v@.take(i as int)),
        decreases v.len() - i,
    {
        push_yaml_escape(&mut out, v[i]);
        proof {
            assert(v@.take(i + 1).drop_last() == v@.take(i as int));
        }
        i = i + 1;
    }
    assert(v@.take(v.len() as int) == v@);
    push_str(&mut out, "\"");
    string_of(out.as_slice())
}

/// No escape holds a control character.
proof fn lemma_escape_plain(c: char)
    ensures
        no_control(yaml_escape(c)),
{
    reveal_strlit("\\\\");
    reveal_strlit("\\\"");
    reveal_strlit("\\n");
    reveal_strlit("\\r");
    reveal_strlit("\\t");
    reveal_strlit("\\u");
    let e = yaml_escape(c);
    if is_control(c) && c != '\n' && c != '\r' && c != '\t' && c != '\\' && c != '"' {
        let u = c as u32 as nat;
        assert(e =~= seq!['\\', 'u'] + hex4(u));
        assert forall|i: int| 0 <= i < e.len() implies !is_control(#[trigger] e[i]) by {
            if i >= 2 {
                let d = if i == 2 {
                    (u / 4096) % 16
                } else if i == 3 {
                    (u / 256) % 16
                } else if i == 4 {
                    (u / 16) % 16
                } else {
                    u % 16
                };
                assert(e[i] == hex_digits()[d as int]);
            }
        }
    }
}

/// A quoted YAML scalar is one safe line: it starts and ends with a double
/// quote and holds no control character, whatever the value.
pub proof fn lemma_yaml_quoted_is_plain(s: Seq<char>)
    ensures
        no_control(yaml_quoted(s)),
        yaml_quoted(s).len() >= 2,
        yaml_quoted(s)[0] == '"',
        yaml_quoted(s).last() == '"',
{
    reveal_strlit("\"");
    lemma_escape_all_plain(s);
    let q = yaml_quoted(s);
    let body = yaml_escape_all(s);
    assert(q == seq!['"'] + body + seq!['"']);
    assert forall|i: int| 0 <= i < q.len() implies !is_control(#[trigger] q[i]) by {
        if 0 < i < q.len() - 1 {
            assert(q[i] == body[i - 1]);
        }
    }
}

proof fn lemma_escape_all_plain(s: Seq<char>)
    ensures
        no_control(yaml_escape_all(s)),
    decreases s.len(),
{
    if s.len() > 0 {
        lemma_escape_all_plain(s.drop_last());
        lemma_escape_plain(s.last());
        let a = yaml_escape_all(s.drop_last());
        let b = yaml_escape(s.last());
        assert forall|i: int| 0 <= i < (a + b).len() implies !is_control(#[trigger] (a + b)[i]) by {
            if i < a.len() {
                assert((a + b)[i] == a[i]);
            } else {
                assert((a + b)[i] == b[i - a.len()]);
            }
        }
    }
}

/// The value of a lowercase hexadecimal digit.
pub open spec fn hex_value(c: char) -> int {
    if '0' <= c && c <= '9' {
        c as int - '0' as int
    } else {
        c as int - 'a' as int + 10
    }
}

/// What the body `t` of a double-quoted YAML scalar stands for, with the
/// escapes that `yaml_escape` writes decoded: `\\`, `\"`, `\n`, `\r`,
/// `\t` and `\u` with four hexadecimal digits.
pub open spec fn yaml_unescape(t: Seq<char>) -> Seq<char>
    decreases t.len(),
{
    if t.len() == 0 {
        seq![]
    } else if t[0] == '\\' && t.len() >= 2 && (t[1] == '\\' || t[1] == '"') {
        seq![t[1]] + yaml_unescape(t.skip(2))
    } else if t[0] == '\\' && t.len() >= 2 && t[1] == 'n' {
        seq!['\n'] + yaml_unescape(t.skip(2))
    } else if t[0] == '\\' && t.len() >= 2 && t[1] == 'r' {
        seq!['\r'] + yaml_unescape(t.skip(2))
    } else if t[0] == '\\' && t.len() >= 2 && t[1] == 't' {
        seq!['\t'] + yaml_unescape(t.skip(2))
    } else if t[0] == '\\' && t.len() >= 6 && t[1] == 'u' {
        seq![
            (4096 * hex_value(t[2]) + 256 * hex_value(t[3]) + 16 * hex_value(t[4]) + hex_value(
                t[5],
            )) as char,
        ] + yaml_unescape(t.skip(6))
    } else {
        seq![t[0]] + yaml_unescape(t.skip(1))
    }
}

proof fn lemma_hex_digit(k: int)
    requires
        0 <= k < 16,
    ensures
        hex_value(hex_digits()[k]) == k,
{
    assert(hex_digits()[k] == hex_digits()[k]);
}

proof fn lemma_unescape_one(c: char, rest: Seq<char>)
    ensures
        yaml_unescape(yaml_escape(c) + rest) == seq![c] + yaml_unescape(rest),
{
    reveal_strlit("\\\\");
    reveal_strlit("\\\"");
    reveal_strlit("\\n");
    reveal_strlit("\\r");
    reveal_strlit("\\t");
    reveal_strlit("\\u");
    let t = yaml_escape(c) + rest;
    if c == '\\' || c == '"' || c == '\n' || c == '\r' || c == '\t' {
        assert(t.skip(2) =~= rest);
    } else if is_control(c) {
        let u = c as u32 as nat;
        assert(u < 0xA0);
        assert(t.skip(6) =~= rest);
        lemma_hex_digit(((u / 4096) % 16) as int);
        lemma_hex_digit(((u / 256) % 16) as int);
        lemma_hex_digit(((u / 16) % 16) as int);
        lemma_hex_digit((u % 16) as int);
        assert(t[2] == hex_digits()[((u / 4096) % 16) as int]);
        assert(t[3] == hex_digits()[((u / 256) % 16) as int]);
        assert(t[4] == hex_digits()[((u / 16) % 16) as int]);
        assert(t[5] == hex_digits()[(u % 16) as int]);
        assert(4096 * ((u / 4096) % 16) + 256 * ((u / 256) % 16) + 16 * ((u / 16) % 16) + u % 16
            == u);
        assert((u as int) as char == c);
    } else {
        assert(t.skip(1) =~= rest);
    }
}

proof fn lemma_escape_all_concat(a: Seq<char>, b: Seq<char>)
    ensures
        yaml_escape_all(a + b) == yaml_escape_all(a) + yaml_escape_all(b),
    decreases b.len(),
{
    if b.len() == 0 {
        assert(a + b =~= a);
        assert(yaml_escape_all(a) + yaml_escape_all(b) =~= yaml_escape_all(a));
    } else {
        lemma_escape_all_concat(a, b.drop_last());
        assert((a + b).drop_last() =~= a + b.drop_last());
        assert((a + b).last() == b.last());
        assert(yaml_escape_all(a) + yaml_escape_all(b) =~= yaml_escape_all(a)
            + yaml_escape_all(b.drop_last()) + yaml_escape(b.last()));
    }
}

/// Escaping loses nothing: a YAML reader that decodes a quoted scalar's body
/// gets back the value that `yaml_scalar` quoted.
pub proof fn lemma_yaml_round_trip(s: Seq<char>)
    ensures
        yaml_unescape(yaml_escape_all(s)) == s,
    decreases s.len(),
{
    if s.len() > 0 {
        let first = seq![s[0]];
        let rest = s.drop_first();
        assert(s =~= first + rest);
        lemma_escape_all_concat(first, rest);
        assert(yaml_escape_all(first) =~= yaml_escape(s[0])) by {
            assert(first.len() == 1 && first.last() == s[0]);
            assert(first.drop_last() =~= Seq::<char>::empty());
            assert(yaml_escape_all(first.drop_last()) == Seq::<char>::empty());
            assert(yaml_escape_all(first) == yaml_escape_all(first.drop_last()) + yaml_escape(
                s[0],
            ));
        }
        lemma_unescape_one(s[0], yaml_escape_all(rest));
        lemma_yaml_round_trip(rest);
    }
}

// ---------------------------------------------------------------------------
// Waiting for a new release to run
// ---------------------------------------------------------------------------
/// What to do after one look at the pods of a new release.
#[derive(Debug, PartialEq, Eq)]
pub enum WaitStep {
    /// The pods run; these are their names.
    Done(Vec<String>),
    /// Look again after this many nanoseconds.
    Sleep(u64),
}

/// The decision after one look at the pods (see `wait_for_running`).
pub open spec fn wait_decided(
    release: Seq<char>,
    startup: PodStartup,
    timeout_nanos: u64,
    elapsed_nanos: u64,
    interval_nanos: u64,
    r: Result<WaitStep>,
) -> bool {
    match startup {
        PodStartup::Running(names) => r matches Ok(WaitStep::Done(n)) && n == names,
        PodStartup::Failed(d) => r matches Err(ThumedError::PodStartupFailed { release: rel, detail })
            && rel@ == release && detail == d,
        PodStartup::Waiting(d) => if elapsed_nanos >= timeout_nanos {
            r matches Err(ThumedError::PodStartupTimeout { seconds, detail }) && seconds
                == timeout_nanos / 1_000_000_000 && detail == d
        } else {
            r matches Ok(WaitStep::Sleep(n)) && n == (if interval_nanos < timeout_nanos
                - elapsed_nanos {
                interval_nanos
            } else {
                (timeout_nanos - elapsed_nanos) as u64
            })
        },
    }
}

/// Decides, after one look at the pods, whether the wait is over: running
/// pods end it, a failed pod ends it with `PodStartupFailed`, and a pod still
/// waiting ends it with `PodStartupTimeout` once the time is up; otherwise
/// the next look comes after the interval, or the time that is left if that
/// is shorter.
pub fn wait_for_running(
    release: &str,
    startup: PodStartup,
    timeout_nanos: u64,
    elapsed_nanos: u64,
    interval_nanos: u64,
) -> (r: Result<WaitStep>)
    ensures
        wait_decided(release@, startup, timeout_nanos, elapsed_nanos, interval_nanos, r),
{
    match startup {
        PodStartup::Running(names) => Ok(WaitStep::Done(names)),
        PodStartup::Failed(detail) => Err(
            ThumedError::PodStartupFailed {
                release: string_of(chars_of(release).as_slice()),
                detail,
            },
        ),
        PodStartup::Waiting(detail) => {
            if elapsed_nanos >= timeout_nanos {
                Err(ThumedError::PodStartupTimeout { seconds: timeout_nanos / 1_000_000_000, detail })
            } else {
                let remaining = timeout_nanos - elapsed_nanos;
                Ok(
                    WaitStep::Sleep(
                        if interval_nanos < remaining {
                            interval_nanos
                        } else {
                            remaining
                        },
                    ),
                )
            }
        },
    }
}

/// The columns that `check_pod_startup` reads, one line per pod: name, phase,
/// reason, deletion time, the waiting reasons of the containers, and their
/// termination reasons with exit codes.
pub open spec fn startup_columns() -> Seq<char> {
    "jsonpath={range .items[*]}{.metadata.name}{\"\\t\"}{.status.phase}{\"\\t\"}{.status.reason}{\"\\t\"}{.metadata.deletionTimestamp}{\"\\t\"}{range .status.initContainerStatuses[*]}{.state.waiting.reason}{\",\"}{end}{range .status.containerStatuses[*]}{.state.waiting.reason}{\",\"}{end}{\"\\t\"}{range .status.initContainerStatuses[*]}{.state.terminated.reason}{\":\"}{.state.terminated.exitCode}{\",\"}{end}{range .status.containerStatuses[*]}{.state.terminated.reason}{\":\"}{.state.terminated.exitCode}{\",\"}{end}{\"\\n\"}{end}"@
}

/// The query for the pods of a release: only the pods of the new Helm release,
/// as fixed columns rather than kubectl's human-readable table.
pub fn pod_startup_args(release: &str) -> (r: Vec<String>)
    ensures
        texts(r@) == seq![
            "get"@,
            "pods"@,
            "--selector"@,
            "app.kubernetes.io/instance="@ + release@,
            "--request-timeout=5s"@,
            "-o"@,
            startup_columns(),
        ],
{
    let mut selector = chars_of("app.kubernetes.io/instance=");
    push_str(&mut selector, release);
    let mut r: Vec<String> = Vec::new();
    r.push("get".to_owned());
    r.push("pods".to_owned());
    r.push("--selector".to_owned());
    r.push(string_of(selector.as_slice()));
    r.push("--request-timeout=5s".to_owned());
    r.push("-o".to_owned());
    r.push("jsonpath={range .items[*]}{.metadata.name}{\"\\t\"}{.status.phase}{\"\\t\"}{.status.reason}{\"\\t\"}{.metadata.deletionTimestamp}{\"\\t\"}{range .status.initContainerStatuses[*]}{.state.waiting.reason}{\",\"}{end}{range .status.containerStatuses[*]}{.state.waiting.reason}{\",\"}{end}{\"\\t\"}{range .status.initContainerStatuses[*]}{.state.terminated.reason}{\":\"}{.state.terminated.exitCode}{\",\"}{end}{range .status.containerStatuses[*]}{.state.terminated.reason}{\":\"}{.state.terminated.exitCode}{\",\"}{end}{\"\\n\"}{end}".to_owned());
    assert(texts(r@) =~= seq![
        "get"@,
        "pods"@,
        "--selector"@,
        "app.kubernetes.io/instance="@ + release@,
        "--request-timeout=5s"@,
        "-o"@,
        startup_columns(),
    ]);
    r
}

/// One look at the pods of a new release: what the query printed, read (or
/// why it could not be run).
pub fn check_pod_startup(output: Result<String>) -> (r: Result<PodStartup>)
    ensures
        match output {
            Err(e) => r matches Err(x) && x == e,
            Ok(out) => match r {
                Err(e) => e is Io && !all_well_formed(pod_rows(out@)),
                Ok(s) => all_well_formed(pod_rows(out@)) && startup_matches(pod_rows(out@), s),
            },
        },
{
    match output {
        Err(e) => Err(e),
        Ok(out) => parse_pod_startup(out.as_str()),
    }
}

/// How long the creation waits for a new release to run, and how often it
/// looks, in nanoseconds.
pub open spec fn startup_timeout_nanos() -> u64 {
    30_000_000_000
}

pub open spec fn startup_interval_nanos() -> u64 {
    2_000_000_000
}

/// After one look at the pods of a new release (the creation waits for it to
/// run, in the foreground): an error of
/// the look ends the wait; otherwise `wait_for_running` decides, with half a
/// minute to wait and a look every two seconds. `elapsed_nanos` is the time
/// since the wait began.
pub fn wait_for_pod_running(release: &str, startup: Result<PodStartup>, elapsed_nanos: u64) -> (r:
    Result<WaitStep>)
    ensures
        match startup {
            Err(e) => r matches Err(x) && x == e,
            Ok(st) => wait_decided(release@, st, startup_timeout_nanos(), elapsed_nanos, startup_interval_nanos(), r),
        },
{
    match startup {
        Err(e) => Err(e),
        Ok(st) => wait_for_running(release, st, 30_000_000_000, elapsed_nanos, 2_000_000_000),
    }
}

// ---------------------------------------------------------------------------
// The pod list
// ---------------------------------------------------------------------------
/// The first word of each line that has one.
pub open spec fn first_words(ls: Seq<Seq<char>>) -> Seq<Seq<char>>
    decreases ls.len(),
{
    if ls.len() == 0 {
        seq![]
    } else {
        let rest = first_words(ls.drop_last());
        match first_word(ls.last()) {
            Some(w) => rest.push(w),
            None => rest,
        }
    }
}

/// The pod names of `kubectl get pods`: the first word of every line after
/// the header.
pub open spec fn listed_pods(listing: Seq<char>) -> Seq<Seq<char>> {
    let ls = lines(listing);
    if ls.len() == 0 {
        seq![]
    } else {
        first_words(ls.skip(1))
    }
}

/// Adds every name of `items` to a sorted list without repetition.
fn insert_all(merged: &mut Vec<String>, items: &Vec<String>)
    requires
        strictly_sorted(texts(old(merged)@)),
    ensures
        strictly_sorted(texts(final(merged)@)),
        forall|y: Seq<char>|
            #![trigger texts(final(merged)@).contains(y)]
            #![trigger texts(old(merged)@).contains(y)]
            #![trigger texts(items@).contains(y)]
            texts(final(merged)@).contains(y) <==> (texts(old(merged)@).contains(y) || texts(
                items@,
            ).contains(y)),
{
    let mut k: usize = 0;
    assert(texts(items@).take(0) =~= Seq::<Seq<char>>::empty());
    while k < items.len()
        invariant
            k <= items.len(),
            strictly_sorted(texts(merged@)),
            forall|y: Seq<char>|
                #![trigger texts(merged@).contains(y)]
                #![trigger texts(old(merged)@).contains(y)]
                #![trigger texts(items@).take(k as int).contains(y)]
                texts(merged@).contains(y) <==> (texts(old(merged)@).contains(y) || texts(
                    items@,
                ).take(k as int).contains(y)),
        decreases items.len() - k,
    {
        let s = items[k].clone();
        insert_sorted(merged, s);
        proof {
            let t = texts(items@);
            assert(t.take(k + 1) =~= t.take(k as int).push(t[k as int]));
            assert forall|y: Seq<char>| t.take(k + 1).contains(y) <==> (t.take(k as int).contains(
                y,
            ) || y == t[k as int]) by {
                if t.take(k + 1).contains(y) {
                    let j = choose|j: int| 0 <= j < k + 1 && #[trigger] t.take(k + 1)[j] == y;
                    if j < k {
                        assert(t.take(k as int)[j] == y);
                    }
                }
                if t.take(k as int).contains(y) {
                    let j = choose|j: int| 0 <= j < k && #[trigger] t.take(k as int)[j] == y;
                    assert(t.take(k + 1)[j] == y);
                }
                if y == t[k as int] {
                    assert(t.take(k + 1)[k as int] == y);
                }
            }
        }
        k = k + 1;
    }
    assert(texts(items@).take(items.len() as int) =~= texts(items@));
}

/// The pods that the cluster reported last.
pub struct PodHandler {
    pub pod_list: Vec<String>,
}

impl PodHandler {
    pub fn new() -> (h: Self)
        ensures
            h.pod_list@.len() == 0,
    {
        PodHandler { pod_list: Vec::new() }
    }

    /// Replaces the pod list by the names in what `kubectl get pods` printed;
    /// where the listing could not be had, the list stays and the error is
    /// passed on.
    pub fn refresh(&mut self, listing: Result<String>) -> (r: Result<()>)
        ensures
            match listing {
                Err(e) => r matches Err(x) && x == e && final(self).pod_list@ == old(
                    self,
                ).pod_list@,
                Ok(l) => r is Ok && string_views(final(self).pod_list@) == listed_pods(l@),
            },
    {
        match listing {
            Err(e) => Err(e),
            Ok(l) => {
                self.replace_list(l.as_str());
                Ok(())
            },
        }
    }

    /// Replaces the pod list by the names in a listing.
    fn replace_list(&mut self, listing: &str)
        ensures
            string_views(final(self).pod_list@) == listed_pods(listing@),
    {
        let ls = lines_of(chars_of(listing).as_slice());
        let mut names: Vec<String> = Vec::new();
        if ls.len() == 0 {
            self.pod_list = names;
            assert(string_views(self.pod_list@) =~= Seq::<Seq<char>>::empty());
            return;
        }
        let ghost rest = ls.deep_view().skip(1);
        let mut i: usize = 1;
        while i < ls.len()
            invariant
                1 <= i <= ls.len(),
                rest == ls.deep_view().skip(1),
                string_views(names@) == first_words(rest.take(i - 1)),
            decreases ls.len() - i,
        {
            proof {
                lemma_chars_deep_view(ls[i as int]);
                assert(ls.deep_view()[i as int] == ls[i as int]@);
                assert(rest.take(i as int).drop_last() == rest.take(i - 1));
                assert(rest.take(i as int).last() == ls[i as int]@);
            }
            let ghost before = string_views(names@);
            match first_word_of(ls[i].as_slice()) {
                Some(w) => {
                    names.push(string_of(w.as_slice()));
                    assert(string_views(names@) =~= before.push(w@));
                },
                None => {},
            }
            i = i + 1;
        }
        assert(rest.take(ls.len() - 1) == rest);
        self.pod_list = names;
    }

    /// Adds the pods of a new release: afterwards the list is sorted, holds
    /// every name once, and holds exactly the names it held and the new ones.
    pub fn add_pods(&mut self, names: Vec<String>)
        ensures
            strictly_sorted(texts(final(self).pod_list@)),
            forall|y: Seq<char>|
                #![trigger texts(final(self).pod_list@).contains(y)]
                #![trigger texts(old(self).pod_list@).contains(y)]
                #![trigger texts(names@).contains(y)]
                texts(final(self).pod_list@).contains(y) <==> (texts(old(self).pod_list@).contains(y)
                    || texts(names@).contains(y)),
    {
        let mut merged: Vec<String> = Vec::new();
        insert_all(&mut merged, &self.pod_list);
        insert_all(&mut merged, &names);
        self.pod_list = merged;
    }

    /// Refuses a pod that is not in the list.
    pub fn ensure_known(&self, pod_name: &str) -> (r: Result<()>)
        ensures
            r is Ok <==> string_views(self.pod_list@).contains(pod_name@),
            r matches Err(e) ==> e matches ThumedError::PodNotFound(n) && n@ == pod_name@,
    {
        let name = chars_of(pod_name);
        let mut i: usize = 0;
        while i < self.pod_list.len()
            invariant
                i <= self.pod_list.len(),
                name@ == pod_name@,
                forall|j: int| 0 <= j < i ==> #[trigger] self.pod_list@[j]@ != pod_name@,
            decreases self.pod_list.len() - i,
        {
            let item: &String = &self.pod_list[i];
            let cv = chars_of(item.as_str());
            assert(cv@ == self.pod_list@[i as int]@);
            if same_chars(cv.as_slice(), name.as_slice()) {
                assert(string_views(self.pod_list@)[i as int] == pod_name@);
                return Ok(());
            }
            i = i + 1;
        }
        assert(!string_views(self.pod_list@).contains(pod_name@)) by {
            if string_views(self.pod_list@).contains(pod_name@) {
                let k = choose|k: int|
                    0 <= k < string_views(self.pod_list@).len() && string_views(self.pod_list@)[k]
                        == pod_name@;
                assert(self.pod_list@[k]@ == pod_name@);
            }
        }
        Err(ThumedError::PodNotFound(string_of(name.as_slice())))
    }
}

/// The Helm release named by a pod's instance label: the label trimmed, which
/// must not be empty.
pub fn release_label(label: &str) -> (r: Result<String>)
    ensures
        trim(label@).len() > 0 ==> (r matches Ok(s) && s@ == trim(label@)),
        trim(label@).len() == 0 ==> (r matches Err(e) && e == ThumedError::Invalid(
            Invalid::NoReleaseLabel,
        )),
{
    let t = trimmed(chars_of(label).as_slice());
    if t.len() == 0 {
        return Err(ThumedError::Invalid(Invalid::NoReleaseLabel));
    }
    Ok(string_of(t.as_slice()))
}

/// A failure to start a program: `MissingTool` where it was not found,
/// otherwise the I/O error.
pub fn spawn_error(tool: &str, error: io::Error, not_found: bool) -> (r: ThumedError)
    ensures
        not_found ==> (r matches ThumedError::MissingTool(t) && t@ == tool@),
        !not_found ==> r == ThumedError::Io(error),
{
    if not_found {
        ThumedError::MissingTool(tool.to_owned())
    } else {
        ThumedError::Io(error)
    }
}

/// How a command that the user watches ended: nothing where it succeeded,
/// `CommandFailed` with the command's `label` and what it reported where it
/// failed, and the start failures of `spawn_error`.
pub fn command_status(tool: &str, label: &str, outcome: CommandOutcome) -> (r: Result<()>)
    ensures
        match outcome {
            CommandOutcome::Missing => r matches Err(ThumedError::MissingTool(t)) && t@ == tool@,
            CommandOutcome::SpawnFailed(e) => r matches Err(x) && x == ThumedError::Io(e),
            CommandOutcome::Finished { success, stdout: _, stderr } => if success {
                r is Ok
            } else {
                r matches Err(ThumedError::CommandFailed { cmd, stderr: err }) && cmd@ == label@
                    && err@ == stderr@
            },
        },
{
    match outcome {
        CommandOutcome::Missing => Err(ThumedError::MissingTool(tool.to_owned())),
        CommandOutcome::SpawnFailed(e) => Err(ThumedError::Io(e)),
        CommandOutcome::Finished { success, stdout: _, stderr } => {
            if success {
                Ok(())
            } else {
                Err(ThumedError::CommandFailed { cmd: label.to_owned(), stderr })
            }
        },
    }
}

/// The port that forwarding uses, on both sides.
pub open spec fn forward_ports() -> Seq<char> {
    decimal(FORWARD_PORT as nat) + ":"@ + decimal(FORWARD_PORT as nat)
}

/// The kubectl query for a pod's Helm release: its instance label.
pub open spec fn release_label_query() -> Seq<char> {
    "jsonpath={.metadata.labels.app\\.kubernetes\\.io/instance}"@
}

impl PodHandler {
    /// Port forwarding to a listed pod: the kubectl arguments. The application
    /// starts kubectl in the background with its output captured, owns the
    /// process and stops it.
    pub fn start_forward(&self, pod_name: &str) -> (r: Result<Vec<String>>)
        ensures
            r is Ok <==> string_views(self.pod_list@).contains(pod_name@),
            r matches Err(e) ==> (e matches ThumedError::PodNotFound(n) && n@ == pod_name@),
            r matches Ok(args) ==> texts(args@) == seq!["port-forward"@, pod_name@, forward_ports()],
    {
        self.ensure_known(pod_name)?;
        let port = decimal_chars(FORWARD_PORT as u64);
        let mut ports = port.clone();
        push_str(&mut ports, ":");
        push_all(&mut ports, port.as_slice());
        let mut r: Vec<String> = Vec::new();
        r.push("port-forward".to_owned());
        r.push(pod_name.to_owned());
        r.push(string_of(ports.as_slice()));
        assert(texts(r@) =~= seq!["port-forward"@, pod_name@, forward_ports()]);
        Ok(r)
    }

    /// An interactive shell in a listed pod: the kubectl arguments. The
    /// application leaves the full-screen interface while it runs.
    pub fn login_pod_by_name(&self, pod_name: &str) -> (r: Result<Vec<String>>)
        ensures
            r is Ok <==> string_views(self.pod_list@).contains(pod_name@),
            r matches Err(e) ==> (e matches ThumedError::PodNotFound(n) && n@ == pod_name@),
            r matches Ok(args) ==> texts(args@) == seq![
                "exec"@,
                "-it"@,
                pod_name@,
                "--"@,
                "sh"@,
                "/cmd.sh"@,
            ],
    {
        self.ensure_known(pod_name)?;
        let mut r: Vec<String> = Vec::new();
        r.push("exec".to_owned());
        r.push("-it".to_owned());
        r.push(pod_name.to_owned());
        r.push("--".to_owned());
        r.push("sh".to_owned());
        r.push("/cmd.sh".to_owned());
        assert(texts(r@) =~= seq!["exec"@, "-it"@, pod_name@, "--"@, "sh"@, "/cmd.sh"@]);
        Ok(r)
    }

    /// The release of a listed pod: the kubectl arguments that read its
    /// instance label. `release_label` reads the answer; the application then
    /// checks with `helm status` that the release exists.
    pub fn release_for_pod(&self, pod_name: &str) -> (r: Result<Vec<String>>)
        ensures
            r is Ok <==> string_views(self.pod_list@).contains(pod_name@),
            r matches Err(e) ==> (e matches ThumedError::PodNotFound(n) && n@ == pod_name@),
            r matches Ok(args) ==> texts(args@) == seq![
                "get"@,
                "pod"@,
                pod_name@,
                "-o"@,
                release_label_query(),
            ],
    {
        self.ensure_known(pod_name)?;
        let mut r: Vec<String> = Vec::new();
        r.push("get".to_owned());
        r.push("pod".to_owned());
        r.push(pod_name.to_owned());
        r.push("-o".to_owned());
        r.push("jsonpath={.metadata.labels.app\\.kubernetes\\.io/instance}".to_owned());
        assert(texts(r@) =~= seq!["get"@, "pod"@, pod_name@, "-o"@, release_label_query()]);
        Ok(r)
    }

    /// Before an uninstallation: the pod's release, looked up again (or why
    /// that failed), must still be the one the user confirmed. The
    /// application then runs `helm uninstall` and refreshes the list.
    pub fn uninstall_pod_release(&self, current: Result<String>, release: &str) -> (r: Result<()>)
        ensures
            match current {
                Err(e) => r matches Err(x) && x == e,
                Ok(c) => (r is Ok <==> c@ == release@) && (r matches Err(e) ==> e
                    == ThumedError::Invalid(Invalid::ReleaseChanged)),
            },
    {
        let current = current?;
        if same_chars(chars_of(current.as_str()).as_slice(), chars_of(release).as_slice()) {
            Ok(())
        } else {
            Err(ThumedError::Invalid(Invalid::ReleaseChanged))
        }
    }
}

impl PodConfig {
    /// The creation of the pod: the Helm arguments, which read the values from
    /// standard input, and the values for the lecture account. `command_status`
    /// with the label `helm install` reads how Helm ended.
    pub fn install_pod(&self, user_info: &UserInfo) -> (r: (Vec<String>, String))
        ensures
            texts(r.0@) == seq![
                "install"@,
                self.container_name@,
                HELM_CHART@,
                "-f"@,
                "-"@,
            ],
            r.1@ == rendered_values(
                self.container_name@,
                decimal(unwrap_or(self.cpu, DEFAULT_CPU_CORES) as nat),
                decimal(unwrap_or(self.memory, DEFAULT_MEMORY_GB) as nat),
                user_info.user@,
                user_info.password@,
            ),
    {
        let mut args: Vec<String> = Vec::new();
        args.push("install".to_owned());
        args.push(self.container_name.clone());
        args.push(HELM_CHART.to_owned());
        args.push("-f".to_owned());
        args.push("-".to_owned());
        assert(texts(args@) =~= seq!["install"@, self.container_name@, HELM_CHART@, "-f"@, "-"@]);
        (args, self.render_values_yaml(user_info))
    }
}

} // verus!
