//! What the screens of the terminal interface read: their lines, and how each
//! line is shown. Laying the lines out and painting them is the application's.
use crate::environment::{all_items, CheckDetail, CheckItem, CheckResult};
use crate::error::{Invalid, ThumedError};
use crate::constants::{APP_NAME, FORWARD_PORT};
use crate::i18n::{
    check_name, check_text, error_text, error_text_spec, fill, fill_spec, setup_step_name,
    setup_step_text, strings_for, views, Lang, Strings,
};
use crate::text::{
    chars_of, decimal, decimal_chars, decimal_string, lemma_chars_deep_view, lines, lines_of,
    push_all, push_str, string_of, texts,
};
use crate::tools::SetupStep;
use crate::tui::{field_count, pod_action_title, App, FormKind, PodAction, Screen, StatusKey};
use vstd::prelude::*;

verus! {

/// How a line is shown.
#[derive(Clone, Copy, Debug, PartialEq, Eq, Structural)]
pub enum Tone {
    Plain,
    /// Bold.
    Strong,
    /// Cyan and bold: the step in progress, the selected field.
    Active,
    /// Green and bold: a passed check, a running forward.
    Passed,
    /// Dark gray and bold: a skipped check.
    Skipped,
    /// Red and bold: a failed check, a warning.
    Failed,
    /// Yellow and bold: a check that has not run yet.
    Pending,
    /// Yellow: a heading.
    Heading,
    /// Red: the lines of an error.
    Error,
}

/// A line of a screen: a lead in the colour of labels (yellow), then the text
/// in the line's tone.
pub struct ScreenLine {
    pub lead: &'static str,
    pub text: String,
    pub tone: Tone,
}

/// A line as its lead, its text and its tone.
pub open spec fn line_view(l: ScreenLine) -> (Seq<char>, Seq<char>, Tone) {
    (l.lead@, l.text@, l.tone)
}

/// The lines of a screen.
pub open spec fn screen_view(v: Seq<ScreenLine>) -> Seq<(Seq<char>, Seq<char>, Tone)> {
    v.map_values(|l: ScreenLine| line_view(l))
}

/// A line without a lead.
pub open spec fn toned(text: Seq<char>, tone: Tone) -> (Seq<char>, Seq<char>, Tone) {
    (seq![], text, tone)
}

pub open spec fn plain(text: Seq<char>) -> (Seq<char>, Seq<char>, Tone) {
    toned(text, Tone::Plain)
}

/// The status line: its label, then the status.
pub open spec fn status_view(lang: Lang, status: Seq<char>) -> (Seq<char>, Seq<char>, Tone) {
    (strings_for(lang).status_label@, status, Tone::Plain)
}

/// Appends a line without a lead.
pub fn push_line(out: &mut Vec<ScreenLine>, text: String, tone: Tone)
    ensures
        screen_view(final(out)@) == screen_view(old(out)@).push(toned(text@, tone)),
{
    proof {
        reveal_strlit("");
    }
    assert(""@ =~= Seq::<char>::empty());
    let ghost before = out@;
    let ghost t = text@;
    let l = ScreenLine { lead: "", text, tone };
    assert(line_view(l) == toned(t, tone));
    out.push(l);
    assert(screen_view(out@) =~= screen_view(before).push(toned(t, tone)));
}

/// Appends an empty line.
pub fn push_blank(out: &mut Vec<ScreenLine>)
    ensures
        screen_view(final(out)@) == screen_view(old(out)@).push(plain(seq![])),
{
    push_line(out, String::new(), Tone::Plain);
}

/// Appends the status line.
pub fn push_status(out: &mut Vec<ScreenLine>, lang: Lang, status: &str)
    ensures
        screen_view(final(out)@) == screen_view(old(out)@).push(status_view(lang, status@)),
{
    let ghost before = out@;
    let t = lang.t();
    out.push(ScreenLine { lead: t.status_label, text: status.to_owned(), tone: Tone::Plain });
    assert(screen_view(out@) =~= screen_view(before).push(status_view(lang, status@)));
}

/// Appends the lines of another screen part.
pub fn push_lines(out: &mut Vec<ScreenLine>, more: Vec<ScreenLine>)
    ensures
        screen_view(final(out)@) == screen_view(old(out)@) + screen_view(more@),
{
    let ghost before = out@;
    let ghost m = more@;
    let mut more = more;
    out.append(&mut more);
    assert(out@ =~= before + m);
    assert(screen_view(out@) =~= screen_view(before) + screen_view(m));
}

// ---------------------------------------------------------------------------
// The environment report
// ---------------------------------------------------------------------------
/// The number of a check in the report, from 1 to 6.
pub open spec fn item_number(item: CheckItem) -> nat {
    match item {
        CheckItem::Kubeconfig => 1,
        CheckItem::Kubectl => 2,
        CheckItem::Credentials => 3,
        CheckItem::Helm => 4,
        CheckItem::Cluster => 5,
        CheckItem::Repo => 6,
    }
}

fn number_of(item: CheckItem) -> (r: u64)
    ensures
        r == item_number(item),
{
    match item {
        CheckItem::Kubeconfig => 1,
        CheckItem::Kubectl => 2,
        CheckItem::Credentials => 3,
        CheckItem::Helm => 4,
        CheckItem::Cluster => 5,
        CheckItem::Repo => 6,
    }
}

/// Where the report first speaks of `item`.
pub open spec fn first_index(report: Seq<CheckResult>, item: CheckItem) -> Option<int>
    decreases report.len(),
{
    if report.len() == 0 {
        None
    } else {
        match first_index(report.drop_last(), item) {
            Some(k) => Some(k),
            None => if report.last().0 == item {
                Some(report.len() - 1)
            } else {
                None
            },
        }
    }
}

pub proof fn lemma_first_index(report: Seq<CheckResult>, item: CheckItem)
    ensures
        match first_index(report, item) {
            Some(k) => 0 <= k < report.len() && report[k].0 == item && forall|j: int|
                0 <= j < k ==> (#[trigger] report[j]).0 != item,
            None => forall|j: int| 0 <= j < report.len() ==> (#[trigger] report[j]).0 != item,
        },
    decreases report.len(),
{
    if report.len() > 0 {
        lemma_first_index(report.drop_last(), item);
        let d = report.drop_last();
        assert forall|j: int| 0 <= j < d.len() implies d[j] == report[j] by {}
    }
}

/// What the report says of `item`, if anything.
pub open spec fn outcome_of(report: Seq<CheckResult>, item: CheckItem) -> Option<
    crate::error::Result<CheckDetail>,
> {
    match first_index(report, item) {
        Some(k) => Some(report[k].1),
        None => None,
    }
}

/// Where the report first speaks of `item`.
fn find_item(report: &Vec<CheckResult>, item: CheckItem) -> (r: Option<usize>)
    ensures
        r matches Some(k) ==> k < report@.len(),
        r == (match first_index(report@, item) {
            Some(k) => Some(k as usize),
            None => None::<usize>,
        }),
{
    proof {
        lemma_first_index(report@, item);
    }
    let mut i: usize = 0;
    while i < report.len()
        invariant
            i <= report.len(),
            forall|j: int| 0 <= j < i ==> (#[trigger] report@[j]).0 != item,
        decreases report.len() - i,
    {
        if report[i].0 == item {
            proof {
                lemma_first_index(report@, item);
                match first_index(report@, item) {
                    Some(k) => {
                        if k < i {
                        } else if k > i {
                            assert(report@[i as int].0 == item);
                        }
                    },
                    None => {
                        assert(report@[i as int].0 == item);
                    },
                }
            }
            return Some(i);
        }
        i = i + 1;
    }
    None
}

/// The mark of a check's headline, and its tone.
pub open spec fn mark_of(outcome: Option<crate::error::Result<CheckDetail>>) -> (Seq<char>, Tone) {
    match outcome {
        Some(Ok(_)) => ("✔"@, Tone::Passed),
        Some(Err(ThumedError::Invalid(Invalid::SetupPrerequisite))) => ("-"@, Tone::Skipped),
        Some(Err(_)) => ("✘"@, Tone::Failed),
        None => ("…"@, Tone::Pending),
    }
}

/// What the report shows of the lecture account: where it applies, the
/// account, and whether it was changed by the user.
pub open spec fn account_text(t: Strings, info: crate::environment::UserInfo) -> Seq<char> {
    t.context_label@ + ": "@ + info.context@ + "\n"@ + t.server_label@ + ": "@ + info.server@
        + "\n"@ + t.namespace_label@ + ": "@ + info.namespace@ + "\n"@ + t.credential_labels[0]@
        + ": "@ + info.user@ + "\n"@ + t.credential_labels[1]@ + ": "@ + info.password@ + "\n"@
        + (if info.customized {
        t.account_customized@
    } else {
        t.account_default@
    })
}

/// The details of a check: what passed shows, why it failed, or the step in
/// progress or that it waits.
pub open spec fn details_of(
    lang: Lang,
    outcome: Option<crate::error::Result<CheckDetail>>,
    item: CheckItem,
    active: Option<(CheckItem, SetupStep)>,
    io: Seq<char>,
) -> Seq<char> {
    match outcome {
        Some(Ok(CheckDetail::Text(d))) => d@,
        Some(Ok(CheckDetail::Account(info))) => account_text(strings_for(lang), info),
        Some(Err(e)) => error_text_spec(&e, lang, io),
        None => match active {
            Some((key, step)) => if key == item {
                setup_step_text(step, lang)@
            } else {
                strings_for(lang).check_pending@
            },
            None => strings_for(lang).check_pending@,
        },
    }
}

/// Lines indented by two spaces.
pub open spec fn indented(ls: Seq<Seq<char>>) -> Seq<(Seq<char>, Seq<char>, Tone)> {
    ls.map_values(|l: Seq<char>| plain("  "@ + l))
}

/// The part of the report about one check: its headline, its details
/// indented, and an empty line.
pub open spec fn item_block(
    lang: Lang,
    report: Seq<CheckResult>,
    active: Option<(CheckItem, SetupStep)>,
    item: CheckItem,
    io: Seq<char>,
) -> Seq<(Seq<char>, Seq<char>, Tone)> {
    let outcome = outcome_of(report, item);
    seq![toned(mark_of(outcome).0 + " "@ + check_text(item, strings_for(lang))@, mark_of(outcome).1)]
        + indented(lines(details_of(lang, outcome, item, active, io))) + seq![plain(seq![])]
}

/// The parts of the report about the first `k` checks.
pub open spec fn item_blocks(
    lang: Lang,
    report: Seq<CheckResult>,
    active: Option<(CheckItem, SetupStep)>,
    io: Seq<Seq<char>>,
    k: nat,
) -> Seq<(Seq<char>, Seq<char>, Tone)>
    decreases k,
{
    if k == 0 {
        seq![]
    } else {
        item_blocks(lang, report, active, io, (k - 1) as nat) + item_block(
            lang,
            report,
            active,
            all_items()[k - 1],
            io[k - 1],
        )
    }
}

proof fn lemma_item_blocks_io(
    lang: Lang,
    report: Seq<CheckResult>,
    active: Option<(CheckItem, SetupStep)>,
    io1: Seq<Seq<char>>,
    io2: Seq<Seq<char>>,
    k: nat,
)
    requires
        k <= io1.len(),
        k <= io2.len(),
        forall|j: int| 0 <= j < k ==> io1[j] == io2[j],
    ensures
        item_blocks(lang, report, active, io1, k) == item_blocks(lang, report, active, io2, k),
    decreases k,
{
    if k > 0 {
        lemma_item_blocks_io(lang, report, active, io1, io2, (k - 1) as nat);
    }
}

/// The headline of a check in the report: its mark, its name, in the mark's
/// tone.
pub open spec fn headline(
    lang: Lang,
    report: Seq<CheckResult>,
    item: CheckItem,
) -> (Seq<char>, Seq<char>, Tone) {
    let outcome = outcome_of(report, item);
    toned(mark_of(outcome).0 + " "@ + check_text(item, strings_for(lang))@, mark_of(outcome).1)
}

/// The report holds one block per check, in the order in which the checks
/// run, whatever results it was given and in whatever order: each block
/// starts with the check's headline, marked by the first result given for
/// that check (pending where there is none).
pub proof fn lemma_report_blocks(
    lang: Lang,
    report: Seq<CheckResult>,
    active: Option<(CheckItem, SetupStep)>,
    io: Seq<Seq<char>>,
)
    ensures
        item_blocks(lang, report, active, io, 6) == item_block(
            lang,
            report,
            active,
            CheckItem::Kubeconfig,
            io[0],
        ) + item_block(lang, report, active, CheckItem::Kubectl, io[1]) + item_block(
            lang,
            report,
            active,
            CheckItem::Credentials,
            io[2],
        ) + item_block(lang, report, active, CheckItem::Helm, io[3]) + item_block(
            lang,
            report,
            active,
            CheckItem::Cluster,
            io[4],
        ) + item_block(lang, report, active, CheckItem::Repo, io[5]),
        forall|item: CheckItem, i: Seq<char>|
            (#[trigger] item_block(lang, report, active, item, i))[0] == headline(
                lang,
                report,
                item,
            ),
{
    reveal_with_fuel(item_blocks, 7);
    let b = |k: int| item_block(lang, report, active, all_items()[k], io[k]);
    assert(item_blocks(lang, report, active, io, 0) =~= Seq::empty());
    assert(item_blocks(lang, report, active, io, 6) =~= b(0) + b(1) + b(2) + b(3) + b(4) + b(5));
}

/// While a check runs: which of the six it is and its step, then an empty
/// line.
pub open spec fn progress_head(lang: Lang, active: Option<(CheckItem, SetupStep)>) -> Seq<
    (Seq<char>, Seq<char>, Tone),
> {
    match active {
        None => seq![],
        Some((item, step)) => seq![
            toned(
                "["@ + decimal(item_number(item)) + "/6] "@ + check_text(item, strings_for(lang))@
                    + " — "@ + setup_step_text(step, lang)@,
                Tone::Active,
            ),
            plain(seq![]),
        ],
    }
}

/// The environment report: the check in progress, if any; for each check its
/// mark, its name and its details; the status line once no check runs. For
/// a check that failed with an I/O error, `io` holds that error's message.
pub open spec fn report_view(
    lang: Lang,
    report: Seq<CheckResult>,
    active: Option<(CheckItem, SetupStep)>,
    status: Seq<char>,
    io: Seq<Seq<char>>,
) -> Seq<(Seq<char>, Seq<char>, Tone)> {
    progress_head(lang, active) + item_blocks(lang, report, active, io, 6) + (if active is None {
        seq![status_view(lang, status)]
    } else {
        seq![]
    })
}

/// The report's line `found`, if any.
pub open spec fn outcome_at(report: Seq<CheckResult>, found: Option<usize>) -> Option<
    crate::error::Result<CheckDetail>,
> {
    match found {
        Some(k) => Some(report[k as int].1),
        None => None,
    }
}

/// The details of the check `item`, whose outcome is the report's line
/// `found`, if any.
fn check_details(
    lang: Lang,
    report: &Vec<CheckResult>,
    found: Option<usize>,
    item: CheckItem,
    active: Option<(CheckItem, SetupStep)>,
) -> (r: String)
    requires
        found matches Some(k) ==> k < report@.len(),
    ensures
        exists|io: Seq<char>|
            r@ == #[trigger] details_of(lang, outcome_at(report@, found), item, active, io),
{
    let t = lang.t();
    match found {
        Some(k) => match &report[k].1 {
            Ok(CheckDetail::Text(d)) => {
                let r = d.clone();
                assert(r@ == details_of(lang, Some(report@[k as int].1), item, active, seq![]));
                r
            },
            Ok(CheckDetail::Account(info)) => {
                let mut out = chars_of(t.context_label);
                push_str(&mut out, ": ");
                push_str(&mut out, info.context.as_str());
                push_str(&mut out, "\n");
                push_str(&mut out, t.server_label);
                push_str(&mut out, ": ");
                push_str(&mut out, info.server.as_str());
                push_str(&mut out, "\n");
                push_str(&mut out, t.namespace_label);
                push_str(&mut out, ": ");
                push_str(&mut out, info.namespace.as_str());
                push_str(&mut out, "\n");
                push_str(&mut out, t.credential_labels[0]);
                push_str(&mut out, ": ");
                push_str(&mut out, info.user.as_str());
                push_str(&mut out, "\n");
                push_str(&mut out, t.credential_labels[1]);
                push_str(&mut out, ": ");
                push_str(&mut out, info.password.as_str());
                push_str(&mut out, "\n");
                if info.customized {
                    push_str(&mut out, t.account_customized);
                } else {
                    push_str(&mut out, t.account_default);
                }
                let r = string_of(out.as_slice());
                assert(r@ == details_of(lang, Some(report@[k as int].1), item, active, seq![]));
                r
            },
            Err(e) => {
                let r = error_text(e, lang);
                let ghost w = choose|w: Seq<char>| r@ == error_text_spec(e, lang, w);
                assert(r@ == details_of(lang, Some(report@[k as int].1), item, active, w));
                r
            },
        },
        None => {
            let r = match active {
                Some((key, step)) => if key == item {
                    setup_step_name(step, lang).to_owned()
                } else {
                    t.check_pending.to_owned()
                },
                None => t.check_pending.to_owned(),
            };
            assert(r@ == details_of(lang, None, item, active, seq![]));
            r
        },
    }
}

/// The part of the report about one check.
fn item_lines(
    lang: Lang,
    report: &Vec<CheckResult>,
    active: Option<(CheckItem, SetupStep)>,
    item: CheckItem,
) -> (r: Vec<ScreenLine>)
    ensures
        exists|io: Seq<char>| screen_view(r@) == #[trigger] item_block(lang, report@, active, item, io),
{
    let found = find_item(report, item);
    let ghost outcome = outcome_of(report@, item);
    let n = report.len();
    proof {
        lemma_first_index(report@, item);
        match first_index(report@, item) {
            Some(k) => {
                assert(k < n);
                assert((k as usize) as int == k);
            },
            None => {},
        }
    }
    assert(outcome == outcome_at(report@, found));
    let (mark, tone) = match found {
        Some(k) => match &report[k].1 {
            Ok(_) => ("✔", Tone::Passed),
            Err(ThumedError::Invalid(Invalid::SetupPrerequisite)) => ("-", Tone::Skipped),
            Err(_) => ("✘", Tone::Failed),
        },
        None => ("…", Tone::Pending),
    };
    assert(mark@ == mark_of(outcome).0 && tone == mark_of(outcome).1);
    let mut out: Vec<ScreenLine> = Vec::new();
    let mut head = chars_of(mark);
    push_str(&mut head, " ");
    push_str(&mut head, check_name(item, lang));
    push_line(&mut out, string_of(head.as_slice()), tone);
    let details = check_details(lang, report, found, item, active);
    let ghost io = choose|io: Seq<char>| details@ == details_of(lang, outcome, item, active, io);
    let ls = lines_of(chars_of(details.as_str()).as_slice());
    let ghost start = screen_view(out@);
    let mut i: usize = 0;
    while i < ls.len()
        invariant
            i <= ls.len(),
            screen_view(out@) == start + indented(ls.deep_view().take(i as int)),
        decreases ls.len() - i,
    {
        let mut line = chars_of("  ");
        push_all(&mut line, ls[i].as_slice());
        proof {
            lemma_chars_deep_view(ls[i as int]);
            assert(ls.deep_view().take(i + 1) =~= ls.deep_view().take(i as int).push(ls[i as int]@));
            assert(indented(ls.deep_view().take(i + 1)) =~= indented(ls.deep_view().take(i as int)).push(
                plain("  "@ + ls[i as int]@),
            ));
        }
        push_line(&mut out, string_of(line.as_slice()), Tone::Plain);
        i = i + 1;
    }
    assert(ls.deep_view().take(ls.len() as int) =~= ls.deep_view());
    push_blank(&mut out);
    assert(screen_view(out@) =~= item_block(lang, report@, active, item, io));
    out
}

/// The environment report: the check in
/// progress, each check with its mark and details, and the status line once
/// no check runs.
pub fn report_lines(
    lang: Lang,
    report: &Vec<CheckResult>,
    active: Option<(CheckItem, SetupStep)>,
    status: &str,
) -> (r: Vec<ScreenLine>)
    ensures
        exists|io: Seq<Seq<char>>|
            screen_view(r@) == #[trigger] report_view(lang, report@, active, status@, io),
{
    let mut out: Vec<ScreenLine> = Vec::new();
    assert(screen_view(out@) =~= seq![]);
    match active {
        Some((item, step)) => {
            let mut text = chars_of("[");
            let n = decimal_chars(number_of(item));
            push_all(&mut text, n.as_slice());
            push_str(&mut text, "/6] ");
            push_str(&mut text, check_name(item, lang));
            push_str(&mut text, " — ");
            push_str(&mut text, setup_step_name(step, lang));
            push_line(&mut out, string_of(text.as_slice()), Tone::Active);
            push_blank(&mut out);
        },
        None => {},
    }
    let ghost head = screen_view(out@);
    assert(head =~= progress_head(lang, active));
    let items = CheckItem::all();
    let ghost mut io: Seq<Seq<char>> = seq![];
    let mut k: usize = 0;
    while k < 6
        invariant
            k <= 6,
            items@ == all_items(),
            io.len() == k,
            screen_view(out@) == head + item_blocks(lang, report@, active, io, k as nat),
        decreases 6 - k,
    {
        let item = items[k];
        let part = item_lines(lang, report, active, item);
        let ghost w = choose|w: Seq<char>|
            screen_view(part@) == item_block(lang, report@, active, item, w);
        let ghost old_io = io;
        proof {
            io = io.push(w);
            lemma_item_blocks_io(lang, report@, active, old_io, io, k as nat);
        }
        push_lines(&mut out, part);
        assert(screen_view(out@) =~= head + item_blocks(lang, report@, active, io, (k + 1) as nat));
        k = k + 1;
    }
    let ghost blocks = screen_view(out@);
    match active {
        None => push_status(&mut out, lang, status),
        Some(_) => {},
    }
    assert(screen_view(out@) =~= report_view(lang, report@, active, status@, io));
    out
}


// ---------------------------------------------------------------------------
// The other screens
// ---------------------------------------------------------------------------
/// A numbered entry of a pod list: the number right-aligned in two columns.
pub open spec fn numbered(n: nat, name: Seq<char>) -> Seq<char> {
    (if n < 10 {
        " "@ + decimal(n)
    } else {
        decimal(n)
    }) + ". "@ + name
}

fn numbered_entry(n: u64, name: &str) -> (r: String)
    ensures
        r@ == numbered(n as nat, name@),
{
    let mut out: Vec<char> = Vec::new();
    if n < 10 {
        push_str(&mut out, " ");
    }
    let d = decimal_chars(n);
    push_all(&mut out, d.as_slice());
    push_str(&mut out, ". ");
    push_str(&mut out, name);
    string_of(out.as_slice())
}

/// The first `k` pods, numbered from 1.
pub open spec fn pod_lines(pods: Seq<Seq<char>>, k: nat) -> Seq<(Seq<char>, Seq<char>, Tone)>
    decreases k,
{
    if k == 0 {
        seq![]
    } else {
        pod_lines(pods, (k - 1) as nat).push(plain(numbered(k, pods[k - 1])))
    }
}

/// The details panel of the menu: what the selected entry does, the pods
/// (at most twelve, then how many more), and the status line.
pub open spec fn menu_view(lang: Lang, selected: int, pods: Seq<Seq<char>>, status: Seq<char>) -> Seq<
    (Seq<char>, Seq<char>, Tone),
> {
    let t = strings_for(lang);
    seq![
        toned(t.menu_details@[selected]@, Tone::Strong),
        plain(seq![]),
        toned(t.panel_pods@, Tone::Heading),
    ] + (if pods.len() == 0 {
        seq![plain(t.no_pods_loaded@)]
    } else if pods.len() <= 12 {
        pod_lines(pods, pods.len())
    } else {
        pod_lines(pods, 12).push(plain(fill_spec(t.and_more@, seq![decimal((pods.len() - 12) as nat)])))
    }) + seq![plain(seq![]), status_view(lang, status)]
}

/// Appends the first `k` pods, numbered.
fn push_pods(out: &mut Vec<ScreenLine>, pods: &Vec<String>, k: usize)
    requires
        k <= pods@.len(),
    ensures
        screen_view(final(out)@) == screen_view(old(out)@) + pod_lines(texts(pods@), k as nat),
{
    let ghost start = screen_view(out@);
    let mut i: usize = 0;
    while i < k
        invariant
            i <= k <= pods@.len(),
            screen_view(out@) == start + pod_lines(texts(pods@), i as nat),
        decreases k - i,
    {
        let entry = numbered_entry((i + 1) as u64, pods[i].as_str());
        push_line(out, entry, Tone::Plain);
        assert(screen_view(out@) =~= start + pod_lines(texts(pods@), (i + 1) as nat));
        i = i + 1;
    }
}

/// The details panel of the menu, beside the list of actions.
pub fn menu_details(lang: Lang, selected: usize, pods: &Vec<String>, status: &str) -> (r: Vec<
    ScreenLine,
>)
    requires
        selected < 6,
    ensures
        screen_view(r@) == menu_view(lang, selected as int, texts(pods@), status@),
{
    let t = lang.t();
    let mut out: Vec<ScreenLine> = Vec::new();
    assert(screen_view(out@) =~= seq![]);
    push_line(&mut out, t.menu_details[selected].to_owned(), Tone::Strong);
    push_blank(&mut out);
    push_line(&mut out, t.panel_pods.to_owned(), Tone::Heading);
    let ghost head = screen_view(out@);
    if pods.len() == 0 {
        push_line(&mut out, t.no_pods_loaded.to_owned(), Tone::Plain);
    } else if pods.len() <= 12 {
        push_pods(&mut out, pods, pods.len());
    } else {
        push_pods(&mut out, pods, 12);
        let more = decimal_string((pods.len() - 12) as u64);
        let args = [more.as_str()];
        assert(views(args@) =~= seq![decimal((pods@.len() - 12) as nat)]);
        push_line(&mut out, fill(t.and_more, &args), Tone::Plain);
    }
    push_blank(&mut out);
    push_status(&mut out, lang, status);
    assert(screen_view(out@) =~= menu_view(lang, selected as int, texts(pods@), status@));
    out
}

/// The entries of the pod picker: every pod, numbered.
pub fn pod_entries(pods: &Vec<String>) -> (r: Vec<String>)
    ensures
        r@.len() == pods@.len(),
        forall|i: int| 0 <= i < r@.len() ==> #[trigger] r@[i]@ == numbered((i + 1) as nat, pods@[i]@),
{
    let mut r: Vec<String> = Vec::new();
    let mut i: usize = 0;
    while i < pods.len()
        invariant
            i <= pods@.len(),
            r@.len() == i,
            forall|j: int| 0 <= j < i ==> #[trigger] r@[j]@ == numbered((j + 1) as nat, pods@[j]@),
        decreases pods@.len() - i,
    {
        r.push(numbered_entry((i + 1) as u64, pods[i].as_str()));
        i = i + 1;
    }
    r
}

/// The title of the pod picker: what it was opened for, and the number
/// typed so far.
pub open spec fn picker_title_of(lang: Lang, action: PodAction, number: Seq<char>) -> Seq<char> {
    let title = pod_action_title(action, strings_for(lang))@;
    if number.len() == 0 {
        title
    } else {
        title + " — "@ + strings_for(lang).picker_number@ + ": "@ + number
    }
}

pub fn picker_title(lang: Lang, action: PodAction, number: &str) -> (r: String)
    ensures
        r@ == picker_title_of(lang, action, number@),
{
    let mut out = chars_of(action.title(lang));
    if !number.is_empty() {
        push_str(&mut out, " — ");
        push_str(&mut out, lang.t().picker_number);
        push_str(&mut out, ": ");
        push_str(&mut out, number);
    }
    string_of(out.as_slice())
}

/// The label of a form's field.
pub open spec fn field_label(kind: FormKind, lang: Lang, i: int) -> Seq<char> {
    match kind {
        FormKind::Install => strings_for(lang).install_labels@[i]@,
        FormKind::Credentials => strings_for(lang).credential_labels@[i]@,
    }
}

/// A field of a form: marked and highlighted where it is selected.
pub open spec fn field_view(kind: FormKind, lang: Lang, i: int, value: Seq<char>, selected: bool) -> (
    Seq<char>,
    Seq<char>,
    Tone,
) {
    toned(
        (if selected {
            "▶"@
        } else {
            " "@
        }) + " "@ + field_label(kind, lang, i) + ": "@ + value,
        if selected {
            Tone::Active
        } else {
            Tone::Plain
        },
    )
}

/// The first `k` fields of a form.
pub open spec fn field_views(
    kind: FormKind,
    lang: Lang,
    values: Seq<Seq<char>>,
    selected: int,
    k: nat,
) -> Seq<(Seq<char>, Seq<char>, Tone)>
    decreases k,
{
    if k == 0 {
        seq![]
    } else {
        field_views(kind, lang, values, selected, (k - 1) as nat).push(
            field_view(kind, lang, k - 1, values[k - 1], k - 1 == selected),
        )
    }
}

/// The hint above a form: that the pod is being installed, how the account
/// is used, or how to fill in the form.
pub open spec fn form_hint_of(lang: Lang, kind: FormKind, key: StatusKey) -> Seq<char> {
    let t = strings_for(lang);
    if kind == FormKind::Install && (key == StatusKey::Installing || key == StatusKey::WaitingForPod) {
        t.footer_install_wait@
    } else if kind == FormKind::Credentials {
        t.credentials_hint@
    } else {
        t.form_hint@
    }
}

/// A form: its hint, where the account applies (if one is being edited), its
/// fields, and the status line.
pub open spec fn form_view(app: &App, kind: FormKind) -> Seq<(Seq<char>, Seq<char>, Tone)> {
    let t = strings_for(app.lang);
    seq![plain(form_hint_of(app.lang, kind, app.status_key)), plain(seq![])] + (match app.credentials {
        Some(info) => seq![
            plain(t.context_label@ + ": "@ + info.context@),
            plain(t.server_label@ + ": "@ + info.server@),
            plain(seq![]),
        ],
        None => seq![],
    }) + field_views(
        kind,
        app.lang,
        texts(app.form_values@),
        app.form_selected as int,
        field_count(kind),
    ) + seq![plain(seq![]), status_view(app.lang, app.status@)]
}

/// The lines of a form.
pub fn form_lines(app: &App, kind: FormKind) -> (r: Vec<ScreenLine>)
    requires
        app.form_values@.len() >= field_count(kind),
    ensures
        screen_view(r@) == form_view(app, kind),
{
    let t = app.lang.t();
    let install = match kind {
        FormKind::Install => true,
        FormKind::Credentials => false,
    };
    let busy = match app.status_key {
        StatusKey::Installing | StatusKey::WaitingForPod => true,
        _ => false,
    };
    let hint = if install && busy {
        t.footer_install_wait
    } else if !install {
        t.credentials_hint
    } else {
        t.form_hint
    };
    let mut out: Vec<ScreenLine> = Vec::new();
    assert(screen_view(out@) =~= seq![]);
    push_line(&mut out, hint.to_owned(), Tone::Plain);
    push_blank(&mut out);
    match &app.credentials {
        Some(info) => {
            let mut a = chars_of(t.context_label);
            push_str(&mut a, ": ");
            push_str(&mut a, info.context.as_str());
            push_line(&mut out, string_of(a.as_slice()), Tone::Plain);
            let mut b = chars_of(t.server_label);
            push_str(&mut b, ": ");
            push_str(&mut b, info.server.as_str());
            push_line(&mut out, string_of(b.as_slice()), Tone::Plain);
            push_blank(&mut out);
        },
        None => {},
    }
    let ghost head = screen_view(out@);
    let labels = kind.labels(app.lang);
    let ghost values = texts(app.form_values@);
    let mut i: usize = 0;
    while i < labels.len()
        invariant
            i <= labels@.len() == field_count(kind) <= app.form_values@.len(),
            values == texts(app.form_values@),
            forall|j: int|
                0 <= j < labels@.len() ==> (#[trigger] labels@[j])@ == field_label(kind, app.lang, j),
            screen_view(out@) == head + field_views(
                kind,
                app.lang,
                values,
                app.form_selected as int,
                i as nat,
            ),
        decreases labels@.len() - i,
    {
        let selected = i == app.form_selected;
        let mut line: Vec<char> = Vec::new();
        if selected {
            push_str(&mut line, "▶");
        } else {
            push_str(&mut line, " ");
        }
        push_str(&mut line, " ");
        push_str(&mut line, labels[i]);
        push_str(&mut line, ": ");
        push_str(&mut line, app.form_values[i].as_str());
        let tone = if selected {
            Tone::Active
        } else {
            Tone::Plain
        };
        push_line(&mut out, string_of(line.as_slice()), tone);
        assert(screen_view(out@) =~= head + field_views(
            kind,
            app.lang,
            values,
            app.form_selected as int,
            (i + 1) as nat,
        ));
        i = i + 1;
    }
    push_blank(&mut out);
    push_status(&mut out, app.lang, app.status.as_str());
    assert(screen_view(out@) =~= form_view(app, kind));
    out
}

/// The forwarding screen: which pod is forwarded on which port, the address
/// to open, how to stop, and the status line.
pub open spec fn forwarding_view(lang: Lang, pod_name: Seq<char>, status: Seq<char>) -> Seq<
    (Seq<char>, Seq<char>, Tone),
> {
    let t = strings_for(lang);
    let port = decimal(FORWARD_PORT as nat);
    seq![
        toned(fill_spec(t.forward_running@, seq![pod_name, port]), Tone::Passed),
        plain(seq![]),
        plain(fill_spec(t.forward_url@, seq![port])),
        plain(t.forward_stop@),
        plain(seq![]),
        status_view(lang, status),
    ]
}

pub fn forwarding_lines(lang: Lang, pod_name: &str, status: &str) -> (r: Vec<ScreenLine>)
    ensures
        screen_view(r@) == forwarding_view(lang, pod_name@, status@),
{
    let t = lang.t();
    let port = decimal_string(FORWARD_PORT as u64);
    let mut out: Vec<ScreenLine> = Vec::new();
    assert(screen_view(out@) =~= seq![]);
    let running_args = [pod_name, port.as_str()];
    assert(views(running_args@) =~= seq![pod_name@, port@]);
    push_line(&mut out, fill(t.forward_running, &running_args), Tone::Passed);
    push_blank(&mut out);
    let url_args = [port.as_str()];
    assert(views(url_args@) =~= seq![port@]);
    push_line(&mut out, fill(t.forward_url, &url_args), Tone::Plain);
    push_line(&mut out, t.forward_stop.to_owned(), Tone::Plain);
    push_blank(&mut out);
    push_status(&mut out, lang, status);
    assert(screen_view(out@) =~= forwarding_view(lang, pod_name@, status@));
    out
}

/// The confirmation before an uninstallation: the warning, the pod and its
/// release, how to go on, and the status line.
pub open spec fn uninstall_view(lang: Lang, pod_name: Seq<char>, release: Seq<char>, status: Seq<char>) -> Seq<
    (Seq<char>, Seq<char>, Tone),
> {
    let t = strings_for(lang);
    seq![
        toned(t.uninstall_warning@, Tone::Failed),
        plain(seq![]),
        plain(fill_spec(t.uninstall_pod@, seq![pod_name])),
        plain(fill_spec(t.uninstall_release@, seq![release])),
        plain(seq![]),
        plain(t.uninstall_continue@),
        status_view(lang, status),
    ]
}

pub fn uninstall_lines(lang: Lang, pod_name: &str, release: &str, status: &str) -> (r: Vec<
    ScreenLine,
>)
    ensures
        screen_view(r@) == uninstall_view(lang, pod_name@, release@, status@),
{
    let t = lang.t();
    let mut out: Vec<ScreenLine> = Vec::new();
    assert(screen_view(out@) =~= seq![]);
    push_line(&mut out, t.uninstall_warning.to_owned(), Tone::Failed);
    push_blank(&mut out);
    let pod_args = [pod_name];
    assert(views(pod_args@) =~= seq![pod_name@]);
    push_line(&mut out, fill(t.uninstall_pod, &pod_args), Tone::Plain);
    let release_args = [release];
    assert(views(release_args@) =~= seq![release@]);
    push_line(&mut out, fill(t.uninstall_release, &release_args), Tone::Plain);
    push_blank(&mut out);
    push_line(&mut out, t.uninstall_continue.to_owned(), Tone::Plain);
    push_status(&mut out, lang, status);
    assert(screen_view(out@) =~= uninstall_view(lang, pod_name@, release@, status@));
    out
}

/// Lines in the error's colour.
pub open spec fn error_views(ls: Seq<Seq<char>>) -> Seq<(Seq<char>, Seq<char>, Tone)> {
    ls.map_values(|l: Seq<char>| toned(l, Tone::Error))
}

/// The result of a failed installation: the release, then the error's
/// message line by line in red. `io` is the message of an I/O error.
pub open spec fn install_failure_view(
    lang: Lang,
    release: Seq<char>,
    error: &ThumedError,
    io: Seq<char>,
) -> Seq<(Seq<char>, Seq<char>, Tone)> {
    seq![plain(fill_spec(strings_for(lang).uninstall_release@, seq![release])), plain(seq![])]
        + error_views(lines(error_text_spec(error, lang, io)))
}

pub fn install_failure_lines(lang: Lang, release: &str, error: &ThumedError) -> (r: Vec<ScreenLine>)
    ensures
        exists|io: Seq<char>|
            screen_view(r@) == #[trigger] install_failure_view(lang, release@, error, io),
{
    let t = lang.t();
    let mut out: Vec<ScreenLine> = Vec::new();
    assert(screen_view(out@) =~= seq![]);
    let release_args = [release];
    assert(views(release_args@) =~= seq![release@]);
    push_line(&mut out, fill(t.uninstall_release, &release_args), Tone::Plain);
    push_blank(&mut out);
    let message = error_text(error, lang);
    let ghost io = choose|w: Seq<char>| message@ == error_text_spec(error, lang, w);
    let ls = lines_of(chars_of(message.as_str()).as_slice());
    let ghost head = screen_view(out@);
    let mut i: usize = 0;
    while i < ls.len()
        invariant
            i <= ls.len(),
            screen_view(out@) == head + error_views(ls.deep_view().take(i as int)),
        decreases ls.len() - i,
    {
        proof {
            lemma_chars_deep_view(ls[i as int]);
            assert(ls.deep_view().take(i + 1) =~= ls.deep_view().take(i as int).push(ls[i as int]@));
            assert(error_views(ls.deep_view().take(i + 1)) =~= error_views(
                ls.deep_view().take(i as int),
            ).push(toned(ls[i as int]@, Tone::Error)));
        }
        push_line(&mut out, string_of(ls[i].as_slice()), Tone::Error);
        i = i + 1;
    }
    assert(ls.deep_view().take(ls.len() as int) =~= ls.deep_view());
    assert(screen_view(out@) =~= install_failure_view(lang, release@, error, io));
    out
}

/// The setup prompt: that the check runs, or what to do and which kubeconfig
/// is meant.
pub open spec fn initialize_view(lang: Lang, checking: bool, kubeconfig: Seq<char>) -> Seq<
    (Seq<char>, Seq<char>, Tone),
> {
    let t = strings_for(lang);
    if checking {
        seq![plain(t.check_running@)]
    } else {
        seq![plain(t.initialize_hint@), plain(seq![]), plain(kubeconfig)]
    }
}

pub fn initialize_lines(lang: Lang, key: StatusKey, kubeconfig: &str) -> (r: Vec<ScreenLine>)
    ensures
        screen_view(r@) == initialize_view(lang, key == StatusKey::Checking, kubeconfig@),
{
    let t = lang.t();
    let mut out: Vec<ScreenLine> = Vec::new();
    assert(screen_view(out@) =~= seq![]);
    let checking = match key {
        StatusKey::Checking => true,
        _ => false,
    };
    if checking {
        push_line(&mut out, t.check_running.to_owned(), Tone::Plain);
    } else {
        push_line(&mut out, t.initialize_hint.to_owned(), Tone::Plain);
        push_blank(&mut out);
        push_line(&mut out, kubeconfig.to_owned(), Tone::Plain);
    }
    assert(screen_view(out@) =~= initialize_view(lang, key == StatusKey::Checking, kubeconfig@));
    out
}

/// The footer: which keys the screen takes.
pub open spec fn footer_of(app: &App) -> &'static str {
    let t = strings_for(app.lang);
    match app.screen {
        Screen::Initialize => t.footer_initialize,
        Screen::InstallFailed { .. } => t.footer_install_result,
        Screen::Menu => t.footer_menu,
        Screen::Report(_) => t.footer_back,
        Screen::PodPicker(_) => t.footer_picker,
        Screen::Form(kind) => if kind == FormKind::Install && (app.status_key == StatusKey::Installing
            || app.status_key == StatusKey::WaitingForPod) {
            t.footer_install_wait
        } else {
            t.footer_form
        },
        Screen::ConfirmUninstall { .. } => t.footer_confirm,
        Screen::Forwarding { .. } => t.footer_forward,
    }
}

pub fn footer(app: &App) -> (r: &'static str)
    ensures
        r == footer_of(app),
{
    let t = app.lang.t();
    let busy = match app.status_key {
        StatusKey::Installing | StatusKey::WaitingForPod => true,
        _ => false,
    };
    match &app.screen {
        Screen::Initialize => t.footer_initialize,
        Screen::InstallFailed { .. } => t.footer_install_result,
        Screen::Menu => t.footer_menu,
        Screen::Report(_) => t.footer_back,
        Screen::PodPicker(_) => t.footer_picker,
        Screen::Form(kind) => match kind {
            FormKind::Install => if busy {
                t.footer_install_wait
            } else {
                t.footer_form
            },
            FormKind::Credentials => t.footer_form,
        },
        Screen::ConfirmUninstall { .. } => t.footer_confirm,
        Screen::Forwarding { .. } => t.footer_forward,
    }
}

/// The header: the application's name (cyan and bold), its version, and the
/// language switch (dark gray).
pub fn header(lang: Lang) -> (r: (String, String, String))
    ensures
        r.0@ == " "@ + APP_NAME@ + " "@,
        r.1@ == " "@ + strings_for(lang).version@,
        r.2@ == "   [F2 "@ + (match lang {
            Lang::Zh => "中文"@,
            Lang::En => "EN"@,
        }) + "]"@,
{
    let mut a = chars_of(" ");
    push_str(&mut a, APP_NAME);
    push_str(&mut a, " ");
    let mut b = chars_of(" ");
    push_str(&mut b, lang.t().version);
    let mut c = chars_of("   [F2 ");
    push_str(&mut c, lang.name());
    push_str(&mut c, "]");
    (string_of(a.as_slice()), string_of(b.as_slice()), string_of(c.as_slice()))
}


/// How far the report can scroll: the lines it takes beyond the height of
/// its area, at most `u16::MAX`.
pub fn report_scroll_limit(line_count: usize, height: u16) -> (r: u16)
    ensures
        r == (if line_count <= height {
            0
        } else if line_count - height >= 65535 {
            65535
        } else {
            line_count - height
        }),
{
    let h = height as usize;
    if line_count <= h {
        0
    } else if line_count - h >= 65535 {
        65535
    } else {
        (line_count - h) as u16
    }
}

/// Where the report is shown from: its top while a check runs, else the
/// scroll position, at most `max`.
pub fn report_offset(running: bool, scroll: u16, max: u16) -> (r: u16)
    ensures
        r == (if running {
            0
        } else if scroll <= max {
            scroll
        } else {
            max
        }),
{
    if running {
        0
    } else if scroll <= max {
        scroll
    } else {
        max
    }
}

} // verus!
