//! The validation of hooks in words.
use crate::cli::hooks_report::{DiagnosticView, HooksDiagnostic, HooksValidateReport};
use crate::text::{decimal, decimal_text, lines, lines_of, opt_text, texts};
use vstd::prelude::*;

verus! {

/// Colors of a report.
#[derive(Debug)]
pub struct Palette {
    pub green: String,
    pub red: String,
    pub reset: String,
}

/// A word in red or green, where there are colors.
pub open spec fn painted(word: Seq<char>, good: bool, palette: Option<Palette>) -> Seq<char> {
    match palette {
        Some(palette) => (if good {
            palette.green@
        } else {
            palette.red@
        }) + word + palette.reset@,
        None => word,
    }
}

/// A palette behind a reference.
pub open spec fn palette_of(palette: Option<&Palette>) -> Option<Palette> {
    match palette {
        Some(palette) => Some(*palette),
        None => None,
    }
}

fn paint(word: &str, good: bool, palette: Option<&Palette>) -> (r: String)
    ensures
        r@ == painted(word@, good, palette_of(palette)),
{
    match palette {
        Some(palette) => {
            let mut r = if good {
                palette.green.clone()
            } else {
                palette.red.clone()
            };
            r.append(word);
            r.append(palette.reset.as_str());
            r
        },
        None => word.to_owned(),
    }
}

/// A detail of a diagnostic, where it is there.
pub open spec fn detail_line(label: Seq<char>, value: Option<Seq<char>>) -> Seq<Seq<char>> {
    match value {
        Some(value) => seq![label + value],
        None => Seq::empty(),
    }
}

/// The lines of a message behind the first one, indented.
pub open spec fn further_lines(message: Seq<Seq<char>>) -> Seq<Seq<char>> {
    if message.len() == 0 {
        Seq::empty()
    } else {
        message.drop_first().map_values(|line: Seq<char>| "       "@ + line)
    }
}

/// A diagnostic in words: its code with the first line of its message, the other lines, and its
/// details.
pub open spec fn diagnostic_lines(
    diagnostic: DiagnosticView,
    palette: Option<Palette>,
) -> Seq<Seq<char>> {
    let message = lines_of(diagnostic.message);
    let first = if message.len() > 0 {
        message[0]
    } else {
        Seq::empty()
    };
    seq!["  "@ + painted("FAIL"@, false, palette) + " "@ + diagnostic.code + ": "@ + first]
        + further_lines(message) + detail_line("       phase_event: "@, diagnostic.phase_event)
        + detail_line("       hook: "@, diagnostic.hook) + detail_line(
        "       command: "@,
        diagnostic.command,
    )
}

fn push_detail(out: &mut Vec<String>, label: &str, value: &Option<String>)
    ensures
        texts(final(out)@) == texts(old(out)@) + detail_line(label@, opt_text(*value)),
{
    let ghost before = texts(out@);
    match value {
        Some(value) => {
            let mut line = label.to_owned();
            line.append(value.as_str());
            out.push(line);
            assert(texts(out@) == before + seq![label@ + value@]);
        },
        None => {
            assert(texts(out@) == before + Seq::<Seq<char>>::empty());
        },
    }
}

/// Puts a diagnostic into words.
pub fn print_human_diagnostic(diagnostic: &HooksDiagnostic, palette: Option<&Palette>) -> (r: Vec<
    String,
>)
    ensures
        texts(r@) == diagnostic_lines(diagnostic@, palette_of(palette)),
{
    let message = lines(diagnostic.message.as_str());
    let ghost all = texts(message@);
    let mut out: Vec<String> = Vec::new();
    let mut line = "  ".to_owned();
    line.append(paint("FAIL", false, palette).as_str());
    line.append(" ");
    line.append(diagnostic.code.as_str());
    line.append(": ");
    if message.len() > 0 {
        line.append(message[0].as_str());
        assert(all[0] == message@[0]@);
    } else {
        assert(line@ + Seq::<char>::empty() == line@);
    }
    let ghost head = line@;
    out.push(line);
    assert(texts(out@) == seq![head]);
    if message.len() > 0 {
        let mut i: usize = 1;
        let ghost rest = further_lines(all);
        assert(seq![head] + rest.take(0) == seq![head]);
        while i < message.len()
            invariant
                1 <= i <= message.len(),
                all == texts(message@),
                rest == further_lines(all),
                texts(out@) == seq![head] + rest.take(i - 1),
            decreases message.len() - i,
        {
            let ghost before = texts(out@);
            let mut text = "       ".to_owned();
            text.append(message[i].as_str());
            out.push(text);
            proof {
                assert(all.drop_first()[i - 1] == message@[i as int]@);
                assert(rest.take(i as int) == rest.take(i - 1).push(rest[i - 1]));
                assert(texts(out@) == before.push(rest[i - 1]));
                assert(seq![head] + rest.take(i as int) == (seq![head] + rest.take(i - 1)).push(
                    rest[i - 1],
                ));
            }
            i = i + 1;
        }
        assert(rest.take(i - 1) == rest);
    } else {
        assert(seq![head] + further_lines(all) == seq![head]);
    }
    push_detail(&mut out, "       phase_event: ", &diagnostic.phase_event);
    push_detail(&mut out, "       hook: ", &diagnostic.hook);
    push_detail(&mut out, "       command: ", &diagnostic.command);
    out
}

/// Diagnostics in words, one after the other.
pub open spec fn all_diagnostic_lines(
    diagnostics: Seq<DiagnosticView>,
    palette: Option<Palette>,
) -> Seq<Seq<char>>
    decreases diagnostics.len(),
{
    if diagnostics.len() == 0 {
        Seq::empty()
    } else {
        all_diagnostic_lines(diagnostics.drop_last(), palette) + diagnostic_lines(
            diagnostics.last(),
            palette,
        )
    }
}

/// A truth value in words.
pub open spec fn bool_text(b: bool) -> Seq<char> {
    if b {
        "true"@
    } else {
        "false"@
    }
}

/// Puts a truth value into words.
pub fn bool_word(b: bool) -> (r: &'static str)
    ensures
        r@ == bool_text(b),
{
    if b {
        "true"
    } else {
        "false"
    }
}

/// A report in words.
pub open spec fn report_lines(report: HooksValidateReport, palette: Option<Palette>) -> Seq<
    Seq<char>,
> {
    let count = report.diagnostics@.len();
    seq![
        "Hooks validation for "@ + report.source@,
        Seq::empty(),
        "Hooks enabled: "@ + bool_text(report.hooks_enabled),
        "Hooks checked: "@ + decimal(report.checked_hooks as nat),
    ] + (if count == 0 {
        seq!["Diagnostics: none"@]
    } else {
        seq!["Diagnostics:"@] + all_diagnostic_lines(report.found(), palette)
    }) + seq![
        Seq::empty(),
        "Result: "@ + painted(
            if report.pass {
                "PASS"@
            } else {
                "FAIL"@
            },
            report.pass,
            palette,
        ) + (if count == 0 {
            Seq::empty()
        } else {
            " ("@ + decimal(count) + " issue(s))"@
        }),
    ]
}

/// Puts a report into words.
pub fn print_human_report(report: &HooksValidateReport, palette: Option<&Palette>) -> (r: Vec<
    String,
>)
    ensures
        texts(r@) == report_lines(*report, palette_of(palette)),
{
    let ghost colors = palette_of(palette);
    let ghost found = report.found();
    let count: usize = report.diagnostics.len();
    let mut out: Vec<String> = Vec::new();
    let mut title = "Hooks validation for ".to_owned();
    title.append(report.source.as_str());
    let mut enabled = "Hooks enabled: ".to_owned();
    enabled.append(bool_word(report.hooks_enabled));
    let mut checked = "Hooks checked: ".to_owned();
    checked.append(decimal_text(report.checked_hooks as u64).as_str());
    let ghost head = seq![title@, Seq::<char>::empty(), enabled@, checked@];
    out.push(title);
    out.push(String::new());
    out.push(enabled);
    out.push(checked);
    assert(texts(out@) == head);
    let ghost middle = if count == 0 {
        seq!["Diagnostics: none"@]
    } else {
        seq!["Diagnostics:"@] + all_diagnostic_lines(found, colors)
    };
    if count == 0 {
        out.push("Diagnostics: none".to_owned());
        assert(texts(out@) == head + middle);
    } else {
        out.push("Diagnostics:".to_owned());
        let ghost start = texts(out@);
        let mut i: usize = 0;
        assert(start == head + seq!["Diagnostics:"@]);
        assert(start + all_diagnostic_lines(found.take(0), colors) == start);
        while i < report.diagnostics.len()
            invariant
                i <= report.diagnostics.len(),
                found == report.found(),
                colors == palette_of(palette),
                texts(out@) == start + all_diagnostic_lines(found.take(i as int), colors),
            decreases report.diagnostics.len() - i,
        {
            let ghost before = out@;
            let mut more = print_human_diagnostic(&report.diagnostics[i], palette);
            let ghost added = more@;
            out.append(&mut more);
            proof {
                assert(found.take(i + 1).drop_last() == found.take(i as int));
                assert(found.take(i + 1).last() == report.diagnostics@[i as int]@);
                assert(texts(out@) == texts(before) + texts(added));
                assert(start + (all_diagnostic_lines(found.take(i as int), colors) + texts(added))
                    == (start + all_diagnostic_lines(found.take(i as int), colors)) + texts(added));
            }
            i = i + 1;
        }
        assert(found.take(i as int) == found);
        assert(texts(out@) == head + middle);
    }
    let mut result = "Result: ".to_owned();
    result.append(
        paint(
            if report.pass {
                "PASS"
            } else {
                "FAIL"
            },
            report.pass,
            palette,
        ).as_str(),
    );
    let ghost verdict = result@;
    if count > 0 {
        let mut detail = " (".to_owned();
        detail.append(decimal_text(count as u64).as_str());
        detail.append(" issue(s))");
        result.append(detail.as_str());
    } else {
        assert(verdict + Seq::<char>::empty() == verdict);
    }
    let ghost before = texts(out@);
    let ghost last = result@;
    out.push(String::new());
    out.push(result);
    assert(texts(out@) == before + seq![Seq::<char>::empty(), last]);
    out
}

} // verus!
