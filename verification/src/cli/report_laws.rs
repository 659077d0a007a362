//! What holds of the report on hooks, whatever hooks are configured.
use crate::cli::hooks_report::{
    command_file, configured_for, duplicates_among, duplicates_in, env_value, found_in, hook_count,
    hook_dir, in_key_order, is_path_command, last_named, phases_by_key, search_path_of,
    semantic_reports, unresolved_among, unresolved_in, unresolved_report, DiagnosticView,
    FileFacts, HooksValidateReport,
};
use crate::cli::hooks_text::{
    all_diagnostic_lines, bool_text, detail_line, diagnostic_lines, painted, report_lines, Palette,
};
use crate::config::hooks::{phase_key, EnvVar, HookPhaseEvent, HookSpec, PhaseHooks};
use crate::config::ralph_config::{config_fault, RalphConfig};
use crate::event_loop::processing_laws::lemma_first_at;
use crate::path::{absolute, path_below, relative_components};
use crate::text::{
    decimal, first_of, lemma_first_among, lines_of, opt_text, split_at_char, texts, trimmed,
};
use vstd::prelude::*;

verus! {

/// Hooks are counted section by section.
pub proof fn law_hooks_are_counted(a: Seq<PhaseHooks>, b: Seq<PhaseHooks>, entry: PhaseHooks)
    ensures
        hook_count(a + b) == hook_count(a) + hook_count(b),
        hook_count(seq![entry]) == entry.hooks@.len(),
        hook_count(Seq::empty()) == 0,
    decreases b.len(),
{
    reveal_with_fuel(hook_count, 2);
    assert(seq![entry].drop_last() == Seq::<PhaseHooks>::empty());
    assert(seq![entry].last() == entry);
    if b.len() == 0 {
        assert(a + b == a);
    } else {
        law_hooks_are_counted(a, b.drop_last(), entry);
        assert((a + b).drop_last() == a + b.drop_last());
        assert((a + b).last() == b.last());
    }
}

/// Every section is looked at, whatever phase-event it is for, and in the order of the keys of the
/// phase-events; sections of one phase-event keep their order.
pub proof fn law_every_section_is_looked_at(entry: PhaseHooks, phases: Seq<HookPhaseEvent>)
    ensures
        phases.contains(entry.phase_event) ==> configured_for(seq![entry], phases).contains(entry),
        !phases.contains(entry.phase_event) ==> configured_for(seq![entry], phases).len() == 0,
        phases_by_key().contains(entry.phase_event),
        in_key_order(seq![entry]).contains(entry),
    decreases phases.len(),
{
    lemma_section(entry, phases);
    let all = phases_by_key();
    lemma_section(entry, all);
    assert(all.contains(entry.phase_event)) by {
        match entry.phase_event {
            HookPhaseEvent::PostHumanInteract => assert(all[0] == entry.phase_event),
            HookPhaseEvent::PostIterationStart => assert(all[1] == entry.phase_event),
            HookPhaseEvent::PostLoopComplete => assert(all[2] == entry.phase_event),
            HookPhaseEvent::PostLoopError => assert(all[3] == entry.phase_event),
            HookPhaseEvent::PostLoopStart => assert(all[4] == entry.phase_event),
            HookPhaseEvent::PostPlanCreated => assert(all[5] == entry.phase_event),
            HookPhaseEvent::PreHumanInteract => assert(all[6] == entry.phase_event),
            HookPhaseEvent::PreIterationStart => assert(all[7] == entry.phase_event),
            HookPhaseEvent::PreLoopComplete => assert(all[8] == entry.phase_event),
            HookPhaseEvent::PreLoopError => assert(all[9] == entry.phase_event),
            HookPhaseEvent::PreLoopStart => assert(all[10] == entry.phase_event),
            HookPhaseEvent::PrePlanCreated => assert(all[11] == entry.phase_event),
        }
    }
}

proof fn lemma_section(entry: PhaseHooks, phases: Seq<HookPhaseEvent>)
    ensures
        phases.contains(entry.phase_event) ==> configured_for(seq![entry], phases).contains(entry),
        !phases.contains(entry.phase_event) ==> configured_for(seq![entry], phases).len() == 0,
    decreases phases.len(),
{
    if phases.len() > 0 {
        let init = phases.drop_last();
        lemma_section(entry, init);
        let own = |e: PhaseHooks| e.phase_event == phases.last();
        reveal(Seq::filter);
        reveal_with_fuel(Seq::filter, 2);
        assert(seq![entry].drop_last() == Seq::<PhaseHooks>::empty());
        assert(seq![entry].last() == entry);
        let before = configured_for(seq![entry], init);
        let now = configured_for(seq![entry], phases);
        assert(now == before + seq![entry].filter(own));
        if phases.contains(entry.phase_event) {
            let k = phases.index_of(entry.phase_event);
            if k == phases.len() - 1 {
                assert(seq![entry].filter(own) == seq![entry]);
                assert(now[before.len() as int] == entry);
            } else {
                assert(init[k] == entry.phase_event);
                let at = before.index_of(entry);
                assert(now[at] == entry);
            }
        } else {
            assert(phases[phases.len() - 1] == phases.last());
            assert forall|k: int| 0 <= k < init.len() implies init[k] != entry.phase_event by {
                assert(init[k] == phases[k]);
            }
        }
    }
}

/// Sections are looked at in the order of the keys of their phase-events.
pub proof fn law_sections_are_looked_at_by_key()
    ensures
        phases_by_key().len() == 12,
        phases_by_key()[0] == HookPhaseEvent::PostHumanInteract,
        phases_by_key()[1] == HookPhaseEvent::PostIterationStart,
        phases_by_key()[2] == HookPhaseEvent::PostLoopComplete,
        phases_by_key()[3] == HookPhaseEvent::PostLoopError,
        phases_by_key()[4] == HookPhaseEvent::PostLoopStart,
        phases_by_key()[5] == HookPhaseEvent::PostPlanCreated,
        phases_by_key()[6] == HookPhaseEvent::PreHumanInteract,
        phases_by_key()[7] == HookPhaseEvent::PreIterationStart,
        phases_by_key()[8] == HookPhaseEvent::PreLoopComplete,
        phases_by_key()[9] == HookPhaseEvent::PreLoopError,
        phases_by_key()[10] == HookPhaseEvent::PreLoopStart,
        phases_by_key()[11] == HookPhaseEvent::PrePlanCreated,
{
}

// ---- duplicates ----

/// The hook that a name was last used by is the nearest one before, by the names without the blanks
/// around them.
pub proof fn law_names_are_compared_without_blanks(
    hooks: Seq<HookSpec>,
    name: Seq<char>,
    before: int,
    i: int,
)
    requires
        0 <= before <= hooks.len(),
    ensures
        0 <= i < before && trimmed(hooks[i].name@) == name && (forall|j: int|
            i < j < before ==> trimmed((#[trigger] hooks[j]).name@) != name) ==> last_named(
            hooks,
            name,
            before,
        ) == Some(i),
        (forall|j: int| 0 <= j < before ==> trimmed((#[trigger] hooks[j]).name@) != name)
            ==> last_named(hooks, name, before) is None,
    decreases before,
{
    if before > 0 && trimmed(hooks[before - 1].name@) != name {
        law_names_are_compared_without_blanks(hooks, name, before - 1, i);
    }
}

/// A hook is reported exactly where an earlier one of its phase-event has its name, with both places.
pub proof fn law_repeated_names_are_reported(entry: PhaseHooks, count: int)
    requires
        0 < count <= entry.hooks@.len(),
    ensures
        ({
            let hook = entry.hooks@[count - 1];
            let name = trimmed(hook.name@);
            let before = duplicates_among(entry, count - 1);
            let now = duplicates_among(entry, count);
            let earlier = last_named(entry.hooks@, name, count - 1);
            &&& name.len() == 0 || earlier is None ==> now == before
            &&& name.len() > 0 && earlier is Some ==> {
                &&& now.len() == before.len() + 1
                &&& now.drop_last() == before
                &&& now.last().code == "hooks.duplicate_name"@
                &&& now.last().message == "Duplicate hook name '"@ + name + "' in phase-event '"@
                    + phase_key(entry.phase_event) + "': indices ["@ + decimal(earlier->0 as nat)
                    + "] and ["@ + decimal((count - 1) as nat)
                    + "]. Hook names must be unique per phase-event."@
                &&& now.last().phase_event == Some(phase_key(entry.phase_event))
                &&& now.last().hook == Some(name)
                &&& hook.command@.len() > 0 ==> now.last().command == Some(hook.command@[0]@)
                &&& hook.command@.len() == 0 ==> now.last().command is None
            }
        }),
        duplicates_among(entry, 0).len() == 0,
{
    let hook = entry.hooks@[count - 1];
    let name = trimmed(hook.name@);
    let earlier = last_named(entry.hooks@, name, count - 1);
    if name.len() > 0 && earlier is Some {
        assert(duplicates_among(entry, count).drop_last() == duplicates_among(entry, count - 1));
    }
}

/// Sections are reported on one by one.
pub proof fn law_sections_are_reported_one_by_one(
    root: Seq<char>,
    a: Seq<PhaseHooks>,
    b: Seq<PhaseHooks>,
    entry: PhaseHooks,
    process_path: Option<Seq<char>>,
    facts: FileFacts,
)
    ensures
        duplicates_in(a + b) == duplicates_in(a) + duplicates_in(b),
        duplicates_in(seq![entry]) == duplicates_among(entry, entry.hooks@.len() as int),
        unresolved_in(root, a + b, process_path, facts) == unresolved_in(
            root,
            a,
            process_path,
            facts,
        ) + unresolved_in(root, b, process_path, facts),
        unresolved_in(root, seq![entry], process_path, facts) == unresolved_among(
            root,
            entry,
            entry.hooks@.len() as int,
            process_path,
            facts,
        ),
    decreases b.len(),
{
    reveal_with_fuel(duplicates_in, 2);
    reveal_with_fuel(unresolved_in, 2);
    assert(seq![entry].drop_last() == Seq::<PhaseHooks>::empty());
    assert(seq![entry].last() == entry);
    assert(duplicates_in(seq![entry]) == duplicates_among(entry, entry.hooks@.len() as int));
    assert(unresolved_in(root, seq![entry], process_path, facts) == unresolved_among(
        root,
        entry,
        entry.hooks@.len() as int,
        process_path,
        facts,
    ));
    if b.len() == 0 {
        assert(a + b == a);
        assert(duplicates_in(a) + duplicates_in(b) == duplicates_in(a));
        assert(unresolved_in(root, a, process_path, facts) + unresolved_in(
            root,
            b,
            process_path,
            facts,
        ) == unresolved_in(root, a, process_path, facts));
    } else {
        law_sections_are_reported_one_by_one(root, a, b.drop_last(), entry, process_path, facts);
        assert((a + b).drop_last() == a + b.drop_last());
        assert((a + b).last() == b.last());
    }
}

// ---- commands ----

/// A command is a path where it is absolute or has more than one component.
pub proof fn law_commands_are_paths_or_names(command: Seq<char>)
    ensures
        absolute(command) ==> is_path_command(command),
        relative_components(command) > 1 ==> is_path_command(command),
        !absolute(command) && relative_components(command) <= 1 ==> !is_path_command(command),
{
}

/// A command that is a path runs where its file is there and executable, and is reported else: a missing
/// file before one that cannot be executed.
pub proof fn law_paths_must_be_executable(
    command: Seq<char>,
    cwd: Seq<char>,
    path_override: Option<Seq<char>>,
    process_path: Option<Seq<char>>,
    facts: FileFacts,
)
    requires
        is_path_command(command),
    ensures
        ({
            let file = path_below(cwd, command);
            let there = texts(facts.existing@).contains(file);
            let runs = texts(facts.executable@).contains(file);
            let found = command_file(command, cwd, path_override, process_path, facts);
            &&& found is Ok <==> there && runs
            &&& found is Ok ==> found->Ok_0 == file
            &&& !there ==> found->Err_0 == "Command '"@ + command + "' resolves to '"@ + file
                + "' but the file does not exist."@
            &&& there && !runs ==> found->Err_0 == "Command '"@ + command + "' resolves to '"@ + file
                + "' but it is not executable."@
        }),
{
}

/// A command that is a name is looked for along the search path: that of the hook before that of the
/// process. It is reported where it is in no directory, and where there is no search path at all.
pub proof fn law_names_are_looked_for_along_the_path(
    command: Seq<char>,
    cwd: Seq<char>,
    own: Seq<char>,
    process_path: Option<Seq<char>>,
    facts: FileFacts,
)
    requires
        !is_path_command(command),
    ensures
        ({
            let found = found_in(split_at_char(own, ':'), command, facts);
            &&& found is Some ==> command_file(command, cwd, Some(own), process_path, facts) == Ok::<
                Seq<char>,
                Seq<char>,
            >(found->0)
            &&& found is None ==> command_file(command, cwd, Some(own), process_path, facts) == Err::<
                Seq<char>,
                Seq<char>,
            >("Command '"@ + command + "' was not found in "@ + "hook env PATH"@ + "."@)
            &&& found is Some ==> command_file(command, cwd, None, Some(own), facts) == Ok::<
                Seq<char>,
                Seq<char>,
            >(found->0)
            &&& found is None ==> command_file(command, cwd, None, Some(own), facts) == Err::<
                Seq<char>,
                Seq<char>,
            >("Command '"@ + command + "' was not found in "@ + "process PATH"@ + "."@)
            &&& command_file(command, cwd, None, None, facts) == Err::<Seq<char>, Seq<char>>(
                "PATH is not set while resolving command '"@ + command
                    + "'. Set PATH in the environment or hook env override."@,
            )
        }),
{
}

/// The first directory with an executable of a name is the one it is run from.
pub proof fn law_the_first_executable_is_run(
    dirs: Seq<Seq<char>>,
    command: Seq<char>,
    facts: FileFacts,
    i: int,
)
    ensures
        0 <= i < dirs.len() && texts(facts.executable@).contains(path_below(dirs[i], command)) && (
        forall|j: int|
            0 <= j < i ==> !texts(facts.executable@).contains(
                path_below(#[trigger] dirs[j], command),
            )) ==> found_in(dirs, command, facts) == Some(path_below(dirs[i], command)),
        (forall|j: int|
            0 <= j < dirs.len() ==> !texts(facts.executable@).contains(
                path_below(#[trigger] dirs[j], command),
            )) ==> found_in(dirs, command, facts) is None,
{
    let pick = |dir: Seq<char>|
        if texts(facts.executable@).contains(path_below(dir, command)) {
            Some(path_below(dir, command))
        } else {
            None
        };
    let hits = dirs.map_values(pick);
    assert(found_in(dirs, command, facts) == first_of(hits));
    if 0 <= i < dirs.len() && texts(facts.executable@).contains(path_below(dirs[i], command)) && (
    forall|j: int|
        0 <= j < i ==> !texts(facts.executable@).contains(
            path_below(#[trigger] dirs[j], command),
        )) {
        assert forall|j: int| 0 <= j < i implies (#[trigger] hits[j]) is None by {
            assert(!texts(facts.executable@).contains(path_below(dirs[j], command)));
        }
        lemma_first_at(hits, i);
    }
    if forall|j: int|
        0 <= j < dirs.len() ==> !texts(facts.executable@).contains(
            path_below(#[trigger] dirs[j], command),
        ) {
        lemma_first_among(hits);
        if first_of(hits) is Some {
            let k = choose|k: int| 0 <= k < hits.len() && #[trigger] hits[k] == first_of(hits);
            assert(!texts(facts.executable@).contains(path_below(dirs[k], command)));
        }
    }
}

/// The search path of a hook is the one that its environment sets, under either spelling, and `PATH`
/// before `Path`.
pub proof fn law_hooks_set_their_own_search_path(env: Seq<EnvVar>)
    ensures
        env_value(env, "PATH"@) is Some ==> search_path_of(env) == env_value(env, "PATH"@),
        env_value(env, "PATH"@) is None ==> search_path_of(env) == env_value(env, "Path"@),
{
}

/// A hook runs in its own directory below the root, or in the root.
pub proof fn law_hooks_run_below_the_root(root: Seq<char>, dir: Seq<char>)
    ensures
        hook_dir(root, Some(dir)) == path_below(root, dir),
        hook_dir(root, None) == root,
{
}

/// A hook is reported exactly where its command cannot be found, by its name and with a way to mend it. A
/// hook without a command is not: validation reports it.
pub proof fn law_missing_commands_are_reported(
    root: Seq<char>,
    phase: HookPhaseEvent,
    hook: HookSpec,
    process_path: Option<Seq<char>>,
    facts: FileFacts,
)
    ensures
        hook.command@.len() == 0 ==> unresolved_report(
            root,
            phase,
            hook,
            process_path,
            facts,
        ) is None,
        hook.command@.len() > 0 && trimmed(hook.command@[0]@).len() == 0 ==> unresolved_report(
            root,
            phase,
            hook,
            process_path,
            facts,
        ) is None,
        hook.command@.len() > 0 && trimmed(hook.command@[0]@).len() > 0 ==> {
            let command = trimmed(hook.command@[0]@);
            let report = unresolved_report(root, phase, hook, process_path, facts);
            let found = command_file(
                command,
                hook_dir(root, opt_text(hook.cwd)),
                search_path_of(hook.env@),
                process_path,
                facts,
            );
            &&& report is None <==> found is Ok
            &&& found is Err ==> {
                &&& report->0.code == "hooks.command_resolvable"@
                &&& report->0.message == found->Err_0
                    + "\nFix: ensure command exists and is executable, or invoke the script through an interpreter (for example: ['bash', 'script.sh'])."@
                &&& report->0.phase_event == Some(phase_key(phase))
                &&& report->0.command == Some(command)
                &&& trimmed(hook.name@).len() > 0 ==> report->0.hook == Some(trimmed(hook.name@))
                &&& trimmed(hook.name@).len() == 0 ==> report->0.hook is None
            }
        },
{
}

/// Hooks of a section are reported on one by one.
pub proof fn law_commands_are_reported_one_by_one(
    root: Seq<char>,
    entry: PhaseHooks,
    count: int,
    process_path: Option<Seq<char>>,
    facts: FileFacts,
)
    requires
        0 < count <= entry.hooks@.len(),
    ensures
        ({
            let report = unresolved_report(
                root,
                entry.phase_event,
                entry.hooks@[count - 1],
                process_path,
                facts,
            );
            let before = unresolved_among(root, entry, count - 1, process_path, facts);
            let now = unresolved_among(root, entry, count, process_path, facts);
            &&& report is None ==> now == before
            &&& report is Some ==> now == before.push(report->0)
        }),
        unresolved_among(root, entry, 0, process_path, facts).len() == 0,
{
}

/// A configuration that is not valid is reported once, with what is wrong with it, and a valid one is not.
pub proof fn law_invalid_configurations_are_reported_once(config: RalphConfig, text: Seq<char>)
    ensures
        config_fault(config) is None ==> semantic_reports(config, text).len() == 0,
        config_fault(config) is Some ==> semantic_reports(config, text) == seq![
            DiagnosticView {
                code: "hooks.semantic"@,
                message: text,
                phase_event: None,
                hook: None,
                command: None,
            },
        ],
{
}

// ---- words ----

/// A word is coloured by whether it is good news, where there are colours.
pub proof fn law_words_are_coloured_by_their_news(word: Seq<char>, good: bool, palette: Palette)
    ensures
        painted(word, good, None) == word,
        painted(word, true, Some(palette)) == palette.green@ + word + palette.reset@,
        painted(word, false, Some(palette)) == palette.red@ + word + palette.reset@,
        bool_text(true) == "true"@,
        bool_text(false) == "false"@,
        detail_line(word, Some(word)) == seq![word + word],
        detail_line(word, None).len() == 0,
{
}

/// A finding is told in order: its code with the first line of its message, the other lines, and where it
/// is.
pub proof fn law_findings_are_told_in_order(diagnostic: DiagnosticView, palette: Option<Palette>)
    ensures
        ({
            let lines = diagnostic_lines(diagnostic, palette);
            let message = lines_of(diagnostic.message);
            let first = if message.len() > 0 {
                message[0]
            } else {
                Seq::empty()
            };
            let more = if message.len() > 0 {
                message.len() - 1
            } else {
                0
            };
            let p = if diagnostic.phase_event is Some {
                1int
            } else {
                0int
            };
            let h = if diagnostic.hook is Some {
                1int
            } else {
                0int
            };
            let c = if diagnostic.command is Some {
                1int
            } else {
                0int
            };
            &&& lines.len() == 1 + more + p + h + c
            &&& lines[0] == "  "@ + painted("FAIL"@, false, palette) + " "@ + diagnostic.code + ": "@
                + first
            &&& forall|i: int| 1 <= i <= more ==> #[trigger] lines[i] == "       "@ + message[i]
            &&& p == 1 ==> lines[1 + more] == "       phase_event: "@ + diagnostic.phase_event->0
            &&& h == 1 ==> lines[1 + more + p] == "       hook: "@ + diagnostic.hook->0
            &&& c == 1 ==> lines[1 + more + p + h] == "       command: "@ + diagnostic.command->0
        }),
{
}

/// Findings are told one by one.
pub proof fn law_findings_are_told_one_by_one(
    a: Seq<DiagnosticView>,
    b: Seq<DiagnosticView>,
    one: DiagnosticView,
    palette: Option<Palette>,
)
    ensures
        all_diagnostic_lines(a + b, palette) == all_diagnostic_lines(a, palette)
            + all_diagnostic_lines(b, palette),
        all_diagnostic_lines(seq![one], palette) == diagnostic_lines(one, palette),
    decreases b.len(),
{
    reveal_with_fuel(all_diagnostic_lines, 2);
    assert(seq![one].drop_last() == Seq::<DiagnosticView>::empty());
    assert(seq![one].last() == one);
    assert(Seq::<Seq<char>>::empty() + diagnostic_lines(one, palette) == diagnostic_lines(
        one,
        palette,
    ));
    if b.len() == 0 {
        assert(a + b == a);
        assert(all_diagnostic_lines(a, palette) + all_diagnostic_lines(b, palette)
            == all_diagnostic_lines(a, palette));
    } else {
        law_findings_are_told_one_by_one(a, b.drop_last(), one, palette);
        assert((a + b).drop_last() == a + b.drop_last());
        assert((a + b).last() == b.last());
    }
}

/// A report begins with its source and its counts, and ends with its result and the number of findings.
pub proof fn law_reports_end_with_their_result(
    report: HooksValidateReport,
    palette: Option<Palette>,
)
    ensures
        ({
            let lines = report_lines(report, palette);
            let n = report.diagnostics@.len();
            let result = "Result: "@ + painted(
                if report.pass {
                    "PASS"@
                } else {
                    "FAIL"@
                },
                report.pass,
                palette,
            );
            &&& lines.len() > 5
            &&& lines[0] == "Hooks validation for "@ + report.source@
            &&& lines[2] == "Hooks enabled: "@ + bool_text(report.hooks_enabled)
            &&& lines[3] == "Hooks checked: "@ + decimal(report.checked_hooks as nat)
            &&& n == 0 ==> lines[4] == "Diagnostics: none"@ && lines.last() == result
            &&& n > 0 ==> lines[4] == "Diagnostics:"@ && lines.last() == result + (" ("@ + decimal(n)
                + " issue(s))"@)
        }),
{
    let result = "Result: "@ + painted(
        if report.pass {
            "PASS"@
        } else {
            "FAIL"@
        },
        report.pass,
        palette,
    );
    assert(result + Seq::<char>::empty() == result);
}

} // verus!
