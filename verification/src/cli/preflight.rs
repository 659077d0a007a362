//! Checks before a run.
use crate::config::settings::FeaturesConfig;
use crate::text::{decimal, decimal_text, holds_text, join, joined, opt_text, texts};
use vstd::prelude::*;

verus! {

/// How a check went.
#[derive(Debug, Clone, Copy, PartialEq, Eq, Structural)]
pub enum CheckStatus {
    Pass,
    Warn,
    Fail,
}

/// What came of a check.
#[derive(Debug)]
pub struct CheckResult {
    pub name: String,
    pub label: String,
    pub status: CheckStatus,
    pub message: Option<String>,
}

/// The plain values of a [`CheckResult`].
pub struct CheckView {
    pub name: Seq<char>,
    pub label: Seq<char>,
    pub status: CheckStatus,
    pub message: Option<Seq<char>>,
}

impl View for CheckResult {
    type V = CheckView;

    open spec fn view(&self) -> CheckView {
        CheckView {
            name: self.name@,
            label: self.label@,
            status: self.status,
            message: opt_text(self.message),
        }
    }
}

impl CheckResult {
    /// A check that passed.
    pub fn pass(name: &str, label: &str) -> (r: CheckResult)
        ensures
            r@ == (CheckView {
                name: name@,
                label: label@,
                status: CheckStatus::Pass,
                message: None,
            }),
    {
        CheckResult {
            name: name.to_owned(),
            label: label.to_owned(),
            status: CheckStatus::Pass,
            message: None,
        }
    }

    /// A check with a warning.
    pub fn warn(name: &str, label: &str, message: &str) -> (r: CheckResult)
        ensures
            r@ == (CheckView {
                name: name@,
                label: label@,
                status: CheckStatus::Warn,
                message: Some(message@),
            }),
    {
        CheckResult {
            name: name.to_owned(),
            label: label.to_owned(),
            status: CheckStatus::Warn,
            message: Some(message.to_owned()),
        }
    }

    /// A check that failed.
    pub fn fail(name: &str, label: &str, message: &str) -> (r: CheckResult)
        ensures
            r@ == (CheckView {
                name: name@,
                label: label@,
                status: CheckStatus::Fail,
                message: Some(message@),
            }),
    {
        CheckResult {
            name: name.to_owned(),
            label: label.to_owned(),
            status: CheckStatus::Fail,
            message: Some(message.to_owned()),
        }
    }
}

/// What came of all checks.
#[derive(Debug)]
pub struct PreflightReport {
    pub passed: bool,
    pub warnings: usize,
    pub failures: usize,
    pub checks: Vec<CheckResult>,
}

impl PreflightReport {
    /// The plain values of the checks.
    pub open spec fn results(self) -> Seq<CheckView> {
        self.checks@.map_values(|check: CheckResult| check@)
    }
}

/// The sign of a check.
pub open spec fn status_icon(status: CheckStatus) -> Seq<char> {
    match status {
        CheckStatus::Pass => "✓ "@,
        CheckStatus::Warn => "⚠ "@,
        CheckStatus::Fail => "✗ "@,
    }
}

/// A number with a word, which takes an `s` unless the number is one.
pub open spec fn counted(n: nat, word: Seq<char>) -> Seq<char> {
    decimal(n) + word + if n == 1 {
        Seq::empty()
    } else {
        "s"@
    }
}

fn count_text(n: usize, word: &str) -> (r: String)
    ensures
        r@ == counted(n as nat, word@),
{
    let mut r = decimal_text(n as u64);
    r.append(word);
    if n != 1 {
        r.append("s");
    } else {
        assert(r@ + Seq::<char>::empty() == r@);
    }
    r
}

/// The checks with their signs.
pub open spec fn icons_of(checks: Seq<CheckView>) -> Seq<Seq<char>> {
    checks.map_values(|check: CheckView| status_icon(check.status) + check.name)
}

/// A report in one line: every check with its sign, and the number of failures, or of warnings
/// where nothing failed.
pub open spec fn summary_of(report: PreflightReport) -> Seq<char> {
    let summary = if report.checks@.len() == 0 {
        "no checks"@
    } else {
        joined(icons_of(report.results()), " "@)
    };
    if report.failures > 0 {
        summary + " ("@ + counted(report.failures as nat, " failure"@) + ")"@
    } else if report.warnings > 0 {
        summary + " ("@ + counted(report.warnings as nat, " warning"@) + ")"@
    } else {
        summary
    }
}

/// Puts a report into one line.
pub fn format_preflight_summary(report: &PreflightReport) -> (r: String)
    ensures
        r@ == summary_of(*report),
{
    let mut icons: Vec<String> = Vec::new();
    let mut i: usize = 0;
    while i < report.checks.len()
        invariant
            i <= report.checks.len(),
            icons.len() == i,
            forall|j: int|
                0 <= j < i ==> (#[trigger] icons@[j])@ == status_icon(report.checks@[j].status)
                    + report.checks@[j].name@,
        decreases report.checks.len() - i,
    {
        let mut icon = match report.checks[i].status {
            CheckStatus::Pass => "✓ ".to_owned(),
            CheckStatus::Warn => "⚠ ".to_owned(),
            CheckStatus::Fail => "✗ ".to_owned(),
        };
        icon.append(report.checks[i].name.as_str());
        icons.push(icon);
        i = i + 1;
    }
    assert(texts(icons@) == icons_of(report.results()));
    let mut summary = if report.checks.len() == 0 {
        "no checks".to_owned()
    } else {
        join(&icons, " ")
    };
    if report.failures > 0 {
        summary.append(" (");
        summary.append(count_text(report.failures, " failure").as_str());
        summary.append(")");
    } else if report.warnings > 0 {
        summary.append(" (");
        summary.append(count_text(report.warnings, " warning").as_str());
        summary.append(")");
    }
    summary
}

/// What a failed report counts: failures, and warnings too where they count as failures.
pub open spec fn failure_counts(report: PreflightReport, strict: bool) -> Seq<char> {
    if strict && report.warnings > 0 {
        counted(report.failures as nat, " failure"@) + ", "@ + counted(
            report.warnings as nat,
            " warning"@,
        )
    } else {
        counted(report.failures as nat, " failure"@)
    }
}

/// Puts into words what a failed report counts.
pub fn preflight_failure_detail(report: &PreflightReport, strict: bool) -> (r: String)
    ensures
        r@ == failure_counts(*report, strict),
{
    let mut r = count_text(report.failures, " failure");
    if strict && report.warnings > 0 {
        r.append(", ");
        r.append(count_text(report.warnings, " warning").as_str());
    }
    r
}

/// The text that `str::to_lowercase` makes of a text.
pub uninterp spec fn lowercase(text: Seq<char>) -> Seq<char>;

/// Calls `str::to_lowercase`. The result depends on the text alone.
#[verifier::external_body]
pub(crate) fn to_lowercase(text: &str) -> (r: String)
    ensures
        r@ == lowercase(text@),
{
    text.to_lowercase()
}

/// Which checks are run.
#[derive(Debug)]
pub enum PreflightPlan {
    Nothing,
    All,
    Selected(Vec<String>),
}

/// Whether a check is left out: letters count regardless of case.
pub open spec fn is_skipped(skip: Seq<Seq<char>>, name: Seq<char>) -> bool {
    skip.map_values(|s: Seq<char>| lowercase(s)).contains(lowercase(name))
}

/// The checks that are run: none, or all that are not skipped.
pub open spec fn checks_run(features: FeaturesConfig, skip_preflight: bool, names: Seq<Seq<char>>) -> Seq<
    Seq<char>,
> {
    if skip_preflight || !features.preflight.enabled {
        Seq::empty()
    } else {
        names.filter(|name: Seq<char>| !is_skipped(texts(features.preflight.skip@), name))
    }
}

proof fn lemma_none_skipped(skip: Seq<Seq<char>>, names: Seq<Seq<char>>)
    requires
        skip.len() == 0,
    ensures
        names.filter(|name: Seq<char>| !is_skipped(skip, name)) == names,
    decreases names.len(),
{
    reveal(Seq::filter);
    if names.len() > 0 {
        lemma_none_skipped(skip, names.drop_last());
        assert(names == names.drop_last().push(names.last()));
    }
}

/// Decides which checks are run, of those that there are.
pub fn plan_preflight(features: &FeaturesConfig, skip_preflight: bool, names: &Vec<String>) -> (r:
    PreflightPlan)
    ensures
        match r {
            PreflightPlan::Nothing => skip_preflight || !features.preflight.enabled,
            PreflightPlan::All => !skip_preflight && features.preflight.enabled
                && features.preflight.skip@.len() == 0,
            PreflightPlan::Selected(selected) => {
                &&& !skip_preflight && features.preflight.enabled
                &&& features.preflight.skip@.len() > 0
                &&& texts(selected@) == texts(names@).filter(
                    |name: Seq<char>| !is_skipped(texts(features.preflight.skip@), name),
                )
            },
        },
        match r {
            PreflightPlan::Nothing => checks_run(*features, skip_preflight, texts(names@)).len()
                == 0,
            PreflightPlan::All => checks_run(*features, skip_preflight, texts(names@)) == texts(
                names@,
            ),
            PreflightPlan::Selected(selected) => checks_run(
                *features,
                skip_preflight,
                texts(names@),
            ) == texts(selected@),
        },
{
    if skip_preflight || !features.preflight.enabled {
        return PreflightPlan::Nothing;
    }
    let skip = &features.preflight.skip;
    if skip.len() == 0 {
        proof {
            lemma_none_skipped(texts(features.preflight.skip@), texts(names@));
        }
        return PreflightPlan::All;
    }
    let mut lowered: Vec<String> = Vec::new();
    let mut i: usize = 0;
    while i < skip.len()
        invariant
            i <= skip.len(),
            lowered.len() == i,
            forall|j: int| 0 <= j < i ==> (#[trigger] lowered@[j])@ == lowercase(skip@[j]@),
        decreases skip.len() - i,
    {
        lowered.push(to_lowercase(skip[i].as_str()));
        i = i + 1;
    }
    let ghost skipped = texts(skip@);
    assert(texts(lowered@) == skipped.map_values(|s: Seq<char>| lowercase(s)));
    let ghost pred = |name: Seq<char>| !is_skipped(skipped, name);
    let ghost all = texts(names@);
    let mut selected: Vec<String> = Vec::new();
    let mut k: usize = 0;
    assert(texts(selected@) == all.take(0).filter(pred)) by {
        reveal(Seq::filter);
    }
    while k < names.len()
        invariant
            k <= names.len(),
            all == texts(names@),
            pred == (|name: Seq<char>| !is_skipped(skipped, name)),
            texts(lowered@) == skipped.map_values(|s: Seq<char>| lowercase(s)),
            texts(selected@) == all.take(k as int).filter(pred),
        decreases names.len() - k,
    {
        let ghost kept = selected@;
        proof {
            reveal(Seq::filter);
            assert(all.take(k + 1).drop_last() == all.take(k as int));
            assert(all.take(k + 1).last() == names@[k as int]@);
        }
        let lower = to_lowercase(names[k].as_str());
        if !holds_text(&lowered, lower.as_str()) {
            selected.push(names[k].clone());
            assert(texts(selected@) == texts(kept).push(names@[k as int]@));
        }
        k = k + 1;
    }
    assert(all.take(k as int) == all);
    PreflightPlan::Selected(selected)
}

/// Whether a report counts as passed: nothing failed, and, where warnings count as failures, there
/// are none.
pub open spec fn is_passed(report: PreflightReport, strict: bool) -> bool {
    report.failures == 0 && (strict ==> report.warnings == 0)
}

/// Decides whether a report counts as passed.
pub fn judge_preflight(report: &mut PreflightReport, strict: bool) -> (r: bool)
    ensures
        r == is_passed(*old(report), strict),
        *final(report) == (PreflightReport { passed: r, ..*old(report) }),
{
    let passed = report.failures == 0 && (!strict || report.warnings == 0);
    report.passed = passed;
    passed
}

/// Says why a run is not started.
pub fn preflight_refusal(report: &PreflightReport, strict: bool) -> (r: String)
    ensures
        r@ == "Preflight checks failed ("@ + failure_counts(*report, strict)
            + "). Fix the issues above or use --skip-preflight to bypass."@,
{
    let mut r = "Preflight checks failed (".to_owned();
    r.append(preflight_failure_detail(report, strict).as_str());
    r.append("). Fix the issues above or use --skip-preflight to bypass.");
    r
}

/// The messages of the checks of a status.
pub open spec fn messages_of(checks: Seq<CheckView>, status: CheckStatus, sign: Seq<char>) -> Seq<
    Seq<char>,
>
    decreases checks.len(),
{
    if checks.len() == 0 {
        Seq::empty()
    } else {
        let before = messages_of(checks.drop_last(), status, sign);
        let check = checks.last();
        match check.message {
            Some(message) if check.status == status => before.push(
                sign + check.name + ": "@ + message,
            ),
            _ => before,
        }
    }
}

fn push_messages(out: &mut Vec<String>, checks: &Vec<CheckResult>, status: CheckStatus, sign: &str)
    ensures
        texts(final(out)@) == texts(old(out)@) + messages_of(
            checks@.map_values(|check: CheckResult| check@),
            status,
            sign@,
        ),
{
    let ghost all = checks@.map_values(|check: CheckResult| check@);
    let ghost start = texts(out@);
    let mut i: usize = 0;
    assert(start + messages_of(all.take(0), status, sign@) == start);
    while i < checks.len()
        invariant
            i <= checks.len(),
            all == checks@.map_values(|check: CheckResult| check@),
            texts(out@) == start + messages_of(all.take(i as int), status, sign@),
        decreases checks.len() - i,
    {
        proof {
            assert(all.take(i + 1).drop_last() == all.take(i as int));
            assert(all.take(i + 1).last() == checks@[i as int]@);
        }
        if checks[i].status == status {
            if let Some(message) = &checks[i].message {
                let ghost before = out@;
                let mut line = sign.to_owned();
                line.append(checks[i].name.as_str());
                line.append(": ");
                line.append(message.as_str());
                let ghost text = line@;
                out.push(line);
                proof {
                    let told = messages_of(all.take(i as int), status, sign@);
                    assert(texts(out@) == texts(before).push(text));
                    assert(start + told.push(text) == (start + told).push(text));
                }
            }
        }
        i = i + 1;
    }
    assert(all.take(i as int) == all);
}

/// A report in lines: the summary, the messages of failed checks, and those of warnings where the
/// output is verbose.
pub open spec fn summary_lines(report: PreflightReport, verbose: bool, prefix: Seq<char>) -> Seq<
    Seq<char>,
> {
    seq![prefix + summary_of(report)] + messages_of(
        report.results(),
        CheckStatus::Fail,
        "  ✗ "@,
    ) + if verbose {
        messages_of(report.results(), CheckStatus::Warn, "  ⚠ "@)
    } else {
        Seq::empty()
    }
}

/// Puts a report into lines.
pub fn print_preflight_summary(report: &PreflightReport, verbose: bool, prefix: &str) -> (r: Vec<
    String,
>)
    ensures
        texts(r@) == summary_lines(*report, verbose, prefix@),
{
    let mut out: Vec<String> = Vec::new();
    let mut line = prefix.to_owned();
    line.append(format_preflight_summary(report).as_str());
    let ghost head = line@;
    out.push(line);
    assert(texts(out@) == seq![head]);
    push_messages(&mut out, &report.checks, CheckStatus::Fail, "  ✗ ");
    if verbose {
        push_messages(&mut out, &report.checks, CheckStatus::Warn, "  ⚠ ");
    } else {
        assert(texts(out@) + Seq::<Seq<char>>::empty() == texts(out@));
    }
    out
}

} // verus!
