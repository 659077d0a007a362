//! Validation of hook configuration and command wiring, without running a loop.
use crate::config::hooks::{phase_key, EnvVar, HookPhaseEvent, HookSpec, PhaseHooks};
use crate::config::ralph_config::{config_fault, RalphConfig};
use crate::path::{
    absolute, has_several_components, is_absolute, join_path, path_below, relative_components,
};
use crate::text::{
    decimal, decimal_text, first_of, holds_text, lemma_first_of, opt_text,
    split, split_at_char, str_eq, str_text, texts, trim, trimmed,
};
use vstd::prelude::*;

verus! {

/// Hook-related commands.
#[derive(Debug)]
pub struct HooksArgs {
    pub command: HooksCommands,
}

/// A hook-related command.
#[derive(Debug)]
pub enum HooksCommands {
    /// Validate hooks configuration and command wiring.
    Validate(ValidateArgs),
}

/// Output format of the validation.
#[derive(Debug, Clone, Copy, PartialEq, Eq, Structural)]
pub enum HooksValidateFormat {
    Human,
    Json,
}

/// Arguments of the validation.
#[derive(Debug)]
pub struct ValidateArgs {
    pub format: HooksValidateFormat,
}

/// What the validation found wrong.
#[derive(Debug)]
pub struct HooksDiagnostic {
    pub code: String,
    pub message: String,
    pub phase_event: Option<String>,
    pub hook: Option<String>,
    pub command: Option<String>,
}

/// The plain values of a [`HooksDiagnostic`].
pub struct DiagnosticView {
    pub code: Seq<char>,
    pub message: Seq<char>,
    pub phase_event: Option<Seq<char>>,
    pub hook: Option<Seq<char>>,
    pub command: Option<Seq<char>>,
}

impl View for HooksDiagnostic {
    type V = DiagnosticView;

    open spec fn view(&self) -> DiagnosticView {
        DiagnosticView {
            code: self.code@,
            message: self.message@,
            phase_event: opt_text(self.phase_event),
            hook: opt_text(self.hook),
            command: opt_text(self.command),
        }
    }
}

/// What came of the validation.
#[derive(Debug)]
pub struct HooksValidateReport {
    pub pass: bool,
    pub source: String,
    pub hooks_enabled: bool,
    pub checked_hooks: usize,
    pub diagnostics: Vec<HooksDiagnostic>,
}

impl HooksValidateReport {
    /// The plain values of the diagnostics.
    pub open spec fn found(self) -> Seq<DiagnosticView> {
        self.diagnostics@.map_values(|diagnostic: HooksDiagnostic| diagnostic@)
    }

    /// Whether a report passes exactly where it holds no diagnostics.
    pub open spec fn wf(self) -> bool {
        self.pass == (self.diagnostics@.len() == 0)
    }

    /// Begins a report on a source.
    pub fn new(source: String) -> (r: Self)
        ensures
            r.pass,
            r.source == source,
            !r.hooks_enabled,
            r.checked_hooks == 0,
            r.diagnostics@.len() == 0,
            r.wf(),
    {
        HooksValidateReport {
            pass: true,
            source,
            hooks_enabled: false,
            checked_hooks: 0,
            diagnostics: Vec::new(),
        }
    }

    /// Adds a diagnostic; a report with one does not pass.
    pub fn push_diagnostic(
        &mut self,
        code: &str,
        message: &str,
        phase_event: Option<String>,
        hook: Option<String>,
        command: Option<String>,
    )
        ensures
            *final(self) == (HooksValidateReport {
                pass: false,
                diagnostics: final(self).diagnostics,
                ..*old(self)
            }),
            final(self).found() == old(self).found().push(
                DiagnosticView {
                    code: code@,
                    message: message@,
                    phase_event: opt_text(phase_event),
                    hook: opt_text(hook),
                    command: opt_text(command),
                },
            ),
            final(self).wf(),
    {
        let ghost before = self.found();
        self.diagnostics.push(
            HooksDiagnostic {
                code: code.to_owned(),
                message: message.to_owned(),
                phase_event,
                hook,
                command,
            },
        );
        self.pass = false;
        assert(self.found() == before.push(
            DiagnosticView {
                code: code@,
                message: message@,
                phase_event: opt_text(phase_event),
                hook: opt_text(hook),
                command: opt_text(command),
            },
        ));
    }
}

/// The number of hooks of some phase-events.
pub open spec fn hook_count(events: Seq<PhaseHooks>) -> nat
    decreases events.len(),
{
    if events.len() == 0 {
        0
    } else {
        hook_count(events.drop_last()) + events.last().hooks@.len()
    }
}

proof fn lemma_hook_count(events: Seq<PhaseHooks>, i: int)
    requires
        0 <= i <= events.len(),
    ensures
        hook_count(events.take(i)) <= hook_count(events),
    decreases events.len() - i,
{
    if i < events.len() {
        lemma_hook_count(events, i + 1);
        assert(events.take(i + 1).drop_last() == events.take(i));
    } else {
        assert(events.take(i) == events);
    }
}

/// Counts the configured hooks.
pub fn count_configured_hooks(config: &RalphConfig) -> (r: usize)
    requires
        hook_count(config.hooks.events@) <= usize::MAX,
    ensures
        r == hook_count(config.hooks.events@),
{
    let events = &config.hooks.events;
    let mut r: usize = 0;
    let mut i: usize = 0;
    while i < events.len()
        invariant
            i <= events.len(),
            r == hook_count(events@.take(i as int)),
            hook_count(events@) <= usize::MAX,
        decreases events.len() - i,
    {
        proof {
            assert(events@.take(i + 1).drop_last() == events@.take(i as int));
            assert(events@.take(i + 1).last() == events@[i as int]);
            lemma_hook_count(events@, i + 1);
        }
        r = r + events[i].hooks.len();
        i = i + 1;
    }
    assert(events@.take(i as int) == events@);
    r
}

/// The phase-events in the order of their keys.
pub open spec fn phases_by_key() -> Seq<HookPhaseEvent> {
    seq![
        HookPhaseEvent::PostHumanInteract,
        HookPhaseEvent::PostIterationStart,
        HookPhaseEvent::PostLoopComplete,
        HookPhaseEvent::PostLoopError,
        HookPhaseEvent::PostLoopStart,
        HookPhaseEvent::PostPlanCreated,
        HookPhaseEvent::PreHumanInteract,
        HookPhaseEvent::PreIterationStart,
        HookPhaseEvent::PreLoopComplete,
        HookPhaseEvent::PreLoopError,
        HookPhaseEvent::PreLoopStart,
        HookPhaseEvent::PrePlanCreated,
    ]
}

/// What is configured for some phase-events, in their order.
pub open spec fn configured_for(
    events: Seq<PhaseHooks>,
    phases: Seq<HookPhaseEvent>,
) -> Seq<PhaseHooks>
    decreases phases.len(),
{
    if phases.len() == 0 {
        Seq::empty()
    } else {
        configured_for(events, phases.drop_last()) + events.filter(
            |entry: PhaseHooks| entry.phase_event == phases.last(),
        )
    }
}

/// What is configured, in the order of the keys of the phase-events.
pub open spec fn in_key_order(events: Seq<PhaseHooks>) -> Seq<PhaseHooks> {
    configured_for(events, phases_by_key())
}

/// The entries at some places.
pub open spec fn entries_at(events: Seq<PhaseHooks>, places: Seq<usize>) -> Seq<PhaseHooks> {
    places.map_values(|place: usize| events[place as int])
}

fn list_phases() -> (r: Vec<HookPhaseEvent>)
    ensures
        r@ == phases_by_key(),
{
    let mut r: Vec<HookPhaseEvent> = Vec::new();
    r.push(HookPhaseEvent::PostHumanInteract);
    r.push(HookPhaseEvent::PostIterationStart);
    r.push(HookPhaseEvent::PostLoopComplete);
    r.push(HookPhaseEvent::PostLoopError);
    r.push(HookPhaseEvent::PostLoopStart);
    r.push(HookPhaseEvent::PostPlanCreated);
    r.push(HookPhaseEvent::PreHumanInteract);
    r.push(HookPhaseEvent::PreIterationStart);
    r.push(HookPhaseEvent::PreLoopComplete);
    r.push(HookPhaseEvent::PreLoopError);
    r.push(HookPhaseEvent::PreLoopStart);
    r.push(HookPhaseEvent::PrePlanCreated);
    assert(r@ == phases_by_key());
    r
}

fn places_of(events: &Vec<PhaseHooks>, phase: HookPhaseEvent) -> (r: Vec<usize>)
    ensures
        forall|i: int| 0 <= i < r@.len() ==> (#[trigger] r@[i]) < events@.len(),
        entries_at(events@, r@) == events@.filter(
            |entry: PhaseHooks| entry.phase_event == phase,
        ),
{
    let ghost pred = |entry: PhaseHooks| entry.phase_event == phase;
    let mut r: Vec<usize> = Vec::new();
    let mut i: usize = 0;
    assert(entries_at(events@, r@) == events@.take(0).filter(pred)) by {
        reveal(Seq::filter);
    }
    while i < events.len()
        invariant
            i <= events.len(),
            pred == (|entry: PhaseHooks| entry.phase_event == phase),
            forall|j: int| 0 <= j < r@.len() ==> (#[trigger] r@[j]) < events@.len(),
            entries_at(events@, r@) == events@.take(i as int).filter(pred),
        decreases events.len() - i,
    {
        let ghost kept = r@;
        proof {
            reveal(Seq::filter);
            assert(events@.take(i + 1).drop_last() == events@.take(i as int));
            assert(events@.take(i + 1).last() == events@[i as int]);
        }
        if events[i].phase_event == phase {
            r.push(i);
            assert(entries_at(events@, r@) == entries_at(events@, kept).push(events@[i as int]));
        }
        i = i + 1;
    }
    assert(events@.take(i as int) == events@);
    r
}

fn places_by_key(events: &Vec<PhaseHooks>) -> (r: Vec<usize>)
    ensures
        forall|i: int| 0 <= i < r@.len() ==> (#[trigger] r@[i]) < events@.len(),
        entries_at(events@, r@) == in_key_order(events@),
{
    let phases = list_phases();
    let mut r: Vec<usize> = Vec::new();
    let mut i: usize = 0;
    assert(entries_at(events@, r@) == configured_for(events@, phases@.take(0)));
    while i < phases.len()
        invariant
            i <= phases.len(),
            forall|j: int| 0 <= j < r@.len() ==> (#[trigger] r@[j]) < events@.len(),
            entries_at(events@, r@) == configured_for(events@, phases@.take(i as int)),
        decreases phases.len() - i,
    {
        let ghost before = r@;
        let mut more = places_of(events, phases[i]);
        let ghost added = more@;
        proof {
            assert(phases@.take(i + 1).drop_last() == phases@.take(i as int));
            assert(phases@.take(i + 1).last() == phases@[i as int]);
        }
        r.append(&mut more);
        assert(entries_at(events@, r@) == entries_at(events@, before) + entries_at(events@, added));
        i = i + 1;
    }
    assert(phases@.take(i as int) == phases@);
    r
}

/// The last hook of a name before a position.
pub open spec fn last_named(hooks: Seq<HookSpec>, name: Seq<char>, before: int) -> Option<int>
    decreases before,
{
    if before <= 0 {
        None
    } else if trimmed(hooks[before - 1].name@) == name {
        Some(before - 1)
    } else {
        last_named(hooks, name, before - 1)
    }
}

/// The report of a hook that has the name of an earlier one.
pub open spec fn duplicate_report(
    phase: HookPhaseEvent,
    hook: HookSpec,
    earlier: int,
    place: int,
) -> DiagnosticView {
    DiagnosticView {
        code: "hooks.duplicate_name"@,
        message: "Duplicate hook name '"@ + trimmed(hook.name@) + "' in phase-event '"@ + phase_key(
            phase,
        ) + "': indices ["@ + decimal(earlier as nat) + "] and ["@ + decimal(place as nat)
            + "]. Hook names must be unique per phase-event."@,
        phase_event: Some(phase_key(phase)),
        hook: Some(trimmed(hook.name@)),
        command: if hook.command@.len() > 0 {
            Some(hook.command@[0]@)
        } else {
            None
        },
    }
}

/// The reports of hooks that have the name of an earlier one, among the first hooks of a
/// phase-event. Blank names are no names.
pub open spec fn duplicates_among(entry: PhaseHooks, count: int) -> Seq<DiagnosticView>
    decreases count,
{
    if count <= 0 {
        Seq::empty()
    } else {
        let before = duplicates_among(entry, count - 1);
        let hook = entry.hooks@[count - 1];
        let name = trimmed(hook.name@);
        match last_named(entry.hooks@, name, count - 1) {
            Some(earlier) if name.len() > 0 => before.push(
                duplicate_report(entry.phase_event, hook, earlier, count - 1),
            ),
            _ => before,
        }
    }
}

/// The reports of duplicate names, phase-event by phase-event.
pub open spec fn duplicates_in(entries: Seq<PhaseHooks>) -> Seq<DiagnosticView>
    decreases entries.len(),
{
    if entries.len() == 0 {
        Seq::empty()
    } else {
        duplicates_in(entries.drop_last()) + duplicates_among(
            entries.last(),
            entries.last().hooks@.len() as int,
        )
    }
}

fn find_last_named(hooks: &Vec<HookSpec>, name: &str, before: usize) -> (r: Option<usize>)
    requires
        before <= hooks.len(),
    ensures
        match r {
            Some(i) => i < before && last_named(hooks@, name@, before as int) == Some(i as int),
            None => last_named(hooks@, name@, before as int) is None,
        },
{
    let mut i: usize = before;
    while i > 0
        invariant
            i <= before <= hooks.len(),
            last_named(hooks@, name@, before as int) == last_named(hooks@, name@, i as int),
        decreases i,
    {
        if str_eq(trim(hooks[i - 1].name.as_str()), name) {
            return Some(i - 1);
        }
        i = i - 1;
    }
    None
}

fn duplicate_message(name: &str, phase: &str, earlier: usize, place: usize) -> (r: String)
    ensures
        r@ == "Duplicate hook name '"@ + name@ + "' in phase-event '"@ + phase@ + "': indices ["@
            + decimal(earlier as nat) + "] and ["@ + decimal(place as nat)
            + "]. Hook names must be unique per phase-event."@,
{
    let mut r = "Duplicate hook name '".to_owned();
    r.append(name);
    r.append("' in phase-event '");
    r.append(phase);
    r.append("': indices [");
    r.append(decimal_text(earlier as u64).as_str());
    r.append("] and [");
    r.append(decimal_text(place as u64).as_str());
    r.append("]. Hook names must be unique per phase-event.");
    r
}

fn report_duplicates(entry: &PhaseHooks, report: &mut HooksValidateReport)
    requires
        old(report).wf(),
    ensures
        *final(report) == (HooksValidateReport {
            pass: final(report).pass,
            diagnostics: final(report).diagnostics,
            ..*old(report)
        }),
        final(report).found() == old(report).found() + duplicates_among(
            *entry,
            entry.hooks@.len() as int,
        ),
        final(report).wf(),
{
    let ghost start = report.found();
    let mut i: usize = 0;
    assert(start + duplicates_among(*entry, 0) == start);
    while i < entry.hooks.len()
        invariant
            i <= entry.hooks.len(),
            *report == (HooksValidateReport {
                pass: report.pass,
                diagnostics: report.diagnostics,
                ..*old(report)
            }),
            report.found() == start + duplicates_among(*entry, i as int),
            report.wf(),
        decreases entry.hooks.len() - i,
    {
        let hook = &entry.hooks[i];
        let name = trim(hook.name.as_str());
        let ghost before = report.found();
        if name.unicode_len() > 0 {
            if let Some(earlier) = find_last_named(&entry.hooks, name, i) {
                let phase = entry.phase_event.as_str();
                let message = duplicate_message(name, phase, earlier, i);
                let command = if hook.command.len() > 0 {
                    Some(hook.command[0].clone())
                } else {
                    None
                };
                report.push_diagnostic(
                    "hooks.duplicate_name",
                    message.as_str(),
                    Some(phase.to_owned()),
                    Some(name.to_owned()),
                    command,
                );
                proof {
                    let found = duplicate_report(
                        entry.phase_event,
                        *hook,
                        earlier as int,
                        i as int,
                    );
                    assert(report.found() == before.push(found));
                    assert(start + duplicates_among(*entry, i as int).push(found) == (start
                        + duplicates_among(*entry, i as int)).push(found));
                }
            }
        }
        i = i + 1;
    }
}

/// Reports hooks of one phase-event that have the same name.
pub fn validate_duplicate_names(config: &RalphConfig, report: &mut HooksValidateReport)
    requires
        old(report).wf(),
    ensures
        *final(report) == (HooksValidateReport {
            pass: final(report).pass,
            diagnostics: final(report).diagnostics,
            ..*old(report)
        }),
        final(report).found() == old(report).found() + duplicates_in(
            in_key_order(config.hooks.events@),
        ),
        final(report).wf(),
{
    let events = &config.hooks.events;
    let places = places_by_key(events);
    let ghost all = in_key_order(events@);
    let ghost start = report.found();
    let mut i: usize = 0;
    assert(start + duplicates_in(all.take(0)) == start);
    while i < places.len()
        invariant
            i <= places.len(),
            all == entries_at(events@, places@),
            forall|j: int| 0 <= j < places@.len() ==> (#[trigger] places@[j]) < events@.len(),
            *report == (HooksValidateReport {
                pass: report.pass,
                diagnostics: report.diagnostics,
                ..*old(report)
            }),
            report.found() == start + duplicates_in(all.take(i as int)),
            report.wf(),
        decreases places.len() - i,
    {
        let ghost before = report.found();
        let entry = &events[places[i]];
        report_duplicates(entry, report);
        proof {
            assert(all.take(i + 1).drop_last() == all.take(i as int));
            assert(all.take(i + 1).last() == *entry);
            let found = duplicates_among(*entry, entry.hooks@.len() as int);
            assert(start + (duplicates_in(all.take(i as int)) + found) == (start + duplicates_in(
                all.take(i as int),
            )) + found);
        }
        i = i + 1;
    }
    assert(all.take(i as int) == all);
}

/// The value of an environment variable of a hook.
pub open spec fn env_value(env: Seq<EnvVar>, name: Seq<char>) -> Option<Seq<char>> {
    first_of(
        env.map_values(
            |variable: EnvVar|
                if variable.name@ == name {
                    Some(variable.value@)
                } else {
                    None
                },
        ),
    )
}

/// The search path that a hook sets for itself.
pub open spec fn search_path_of(env: Seq<EnvVar>) -> Option<Seq<char>> {
    match env_value(env, "PATH"@) {
        Some(value) => Some(value),
        None => env_value(env, "Path"@),
    }
}

fn find_env<'a>(env: &'a Vec<EnvVar>, name: &str) -> (r: Option<&'a str>)
    ensures
        match r {
            Some(value) => env_value(env@, name@) == Some(value@),
            None => env_value(env@, name@) is None,
        },
{
    let ghost hits = env@.map_values(
        |variable: EnvVar|
            if variable.name@ == name@ {
                Some(variable.value@)
            } else {
                None
            },
    );
    let mut i: usize = 0;
    assert(hits.skip(0) == hits);
    while i < env.len()
        invariant
            i <= env.len(),
            hits == env@.map_values(
                |variable: EnvVar|
                    if variable.name@ == name@ {
                        Some(variable.value@)
                    } else {
                        None
                    },
            ),
            first_of(hits) == first_of(hits.skip(i as int)),
        decreases env.len() - i,
    {
        proof {
            lemma_first_of(hits, i as int);
        }
        if str_eq(env[i].name.as_str(), name) {
            return Some(env[i].value.as_str());
        }
        i = i + 1;
    }
    None
}

/// Finds the search path that a hook sets for itself: `PATH` comes before `Path`.
pub fn hook_path_override(env: &Vec<EnvVar>) -> (r: Option<&str>)
    ensures
        match r {
            Some(value) => search_path_of(env@) == Some(value@),
            None => search_path_of(env@) is None,
        },
{
    match find_env(env, "PATH") {
        Some(value) => Some(value),
        None => find_env(env, "Path"),
    }
}

/// The directory in which a hook runs.
pub open spec fn hook_dir(root: Seq<char>, cwd: Option<Seq<char>>) -> Seq<char> {
    match cwd {
        Some(path) => path_below(root, path),
        None => root,
    }
}

/// Finds the directory in which a hook runs: its own, below the workspace unless it is absolute, or
/// the workspace.
pub fn resolve_hook_cwd(workspace_root: &str, hook_cwd: Option<&str>) -> (r: String)
    ensures
        r@ == hook_dir(workspace_root@, str_text(hook_cwd)),
{
    match hook_cwd {
        Some(path) => join_path(workspace_root, path),
        None => workspace_root.to_owned(),
    }
}

/// Takes the whitespace off a text, where anything is left.
pub fn non_empty_trimmed(value: &str) -> (r: Option<String>)
    ensures
        match r {
            Some(text) => text@ == trimmed(value@) && text@.len() > 0,
            None => trimmed(value@).len() == 0,
        },
{
    let text = trim(value);
    if text.unicode_len() == 0 {
        None
    } else {
        Some(text.to_owned())
    }
}

/// What is known of files.
#[derive(Debug)]
pub struct FileFacts {
    /// Paths at which something exists.
    pub existing: Vec<String>,
    /// Paths of executable files.
    pub executable: Vec<String>,
}

/// Whether a command is a path rather than a name to search for.
pub open spec fn is_path_command(command: Seq<char>) -> bool {
    absolute(command) || relative_components(command) > 1
}

/// The first executable of a name in some directories.
pub open spec fn found_in(
    dirs: Seq<Seq<char>>,
    command: Seq<char>,
    facts: FileFacts,
) -> Option<Seq<char>> {
    first_of(
        dirs.map_values(
            |dir: Seq<char>|
                if texts(facts.executable@).contains(path_below(dir, command)) {
                    Some(path_below(dir, command))
                } else {
                    None
                },
        ),
    )
}

/// The file of a command, or what is wrong with the command.
pub open spec fn command_file(
    command: Seq<char>,
    cwd: Seq<char>,
    path_override: Option<Seq<char>>,
    process_path: Option<Seq<char>>,
    facts: FileFacts,
) -> Result<Seq<char>, Seq<char>> {
    if is_path_command(command) {
        let file = path_below(cwd, command);
        if !texts(facts.existing@).contains(file) {
            Err(
                "Command '"@ + command + "' resolves to '"@ + file
                    + "' but the file does not exist."@,
            )
        } else if !texts(facts.executable@).contains(file) {
            Err("Command '"@ + command + "' resolves to '"@ + file + "' but it is not executable."@)
        } else {
            Ok(file)
        }
    } else if path_override is None && process_path is None {
        Err(
            "PATH is not set while resolving command '"@ + command
                + "'. Set PATH in the environment or hook env override."@,
        )
    } else {
        let path = if path_override is Some {
            path_override->0
        } else {
            process_path->0
        };
        match found_in(split_at_char(path, ':'), command, facts) {
            Some(file) => Ok(file),
            None => Err(
                "Command '"@ + command + "' was not found in "@ + (if path_override is Some {
                    "hook env PATH"@
                } else {
                    "process PATH"@
                }) + "."@,
            ),
        }
    }
}

fn find_in(dirs: &Vec<String>, command: &str, facts: &FileFacts) -> (r: Option<String>)
    ensures
        opt_text(r) == found_in(texts(dirs@), command@, *facts),
{
    let ghost hits = texts(dirs@).map_values(
        |dir: Seq<char>|
            if texts(facts.executable@).contains(path_below(dir, command@)) {
                Some(path_below(dir, command@))
            } else {
                None
            },
    );
    let mut i: usize = 0;
    assert(hits.skip(0) == hits);
    while i < dirs.len()
        invariant
            i <= dirs.len(),
            hits == texts(dirs@).map_values(
                |dir: Seq<char>|
                    if texts(facts.executable@).contains(path_below(dir, command@)) {
                        Some(path_below(dir, command@))
                    } else {
                        None
                    },
            ),
            first_of(hits) == first_of(hits.skip(i as int)),
        decreases dirs.len() - i,
    {
        proof {
            lemma_first_of(hits, i as int);
            assert(texts(dirs@)[i as int] == dirs@[i as int]@);
        }
        let candidate = join_path(dirs[i].as_str(), command);
        if holds_text(&facts.executable, candidate.as_str()) {
            return Some(candidate);
        }
        i = i + 1;
    }
    None
}

/// The meaning of a found file or a message.
pub open spec fn file_view(r: Result<String, String>) -> Result<Seq<char>, Seq<char>> {
    match r {
        Ok(file) => Ok(file@),
        Err(message) => Err(message@),
    }
}

/// Finds the file of a command: a path stands for itself, below the directory of the hook; a name
/// is searched for along the search path of the hook, or that of the process.
pub fn resolve_hook_command(
    command: &str,
    cwd: &str,
    path_override: Option<&str>,
    process_path: Option<&str>,
    facts: &FileFacts,
) -> (r: Result<String, String>)
    ensures
        file_view(r) == command_file(
            command@,
            cwd@,
            str_text(path_override),
            str_text(process_path),
            *facts,
        ),
{
    if is_absolute(command) || has_several_components(command) {
        let file = join_path(cwd, command);
        let mut message = "Command '".to_owned();
        message.append(command);
        message.append("' resolves to '");
        message.append(file.as_str());
        if !holds_text(&facts.existing, file.as_str()) {
            message.append("' but the file does not exist.");
            return Err(message);
        }
        if !holds_text(&facts.executable, file.as_str()) {
            message.append("' but it is not executable.");
            return Err(message);
        }
        return Ok(file);
    }
    let path = match path_override {
        Some(path) => path,
        None => match process_path {
            Some(path) => path,
            None => {
                let mut message = "PATH is not set while resolving command '".to_owned();
                message.append(command);
                message.append("'. Set PATH in the environment or hook env override.");
                return Err(message);
            },
        },
    };
    let dirs = split(path, ':');
    match find_in(&dirs, command, facts) {
        Some(file) => Ok(file),
        None => {
            let mut message = "Command '".to_owned();
            message.append(command);
            message.append("' was not found in ");
            if path_override.is_some() {
                message.append("hook env PATH");
            } else {
                message.append("process PATH");
            }
            message.append(".");
            Err(message)
        },
    }
}

/// The report of a hook whose command cannot be found, where it names one.
pub open spec fn unresolved_report(
    root: Seq<char>,
    phase: HookPhaseEvent,
    hook: HookSpec,
    process_path: Option<Seq<char>>,
    facts: FileFacts,
) -> Option<DiagnosticView> {
    if hook.command@.len() == 0 || trimmed(hook.command@[0]@).len() == 0 {
        None
    } else {
        let command = trimmed(hook.command@[0]@);
        match command_file(
            command,
            hook_dir(root, opt_text(hook.cwd)),
            search_path_of(hook.env@),
            process_path,
            facts,
        ) {
            Ok(_) => None,
            Err(message) => Some(
                DiagnosticView {
                    code: "hooks.command_resolvable"@,
                    message: message
                        + "\nFix: ensure command exists and is executable, or invoke the script through an interpreter (for example: ['bash', 'script.sh'])."@,
                    phase_event: Some(phase_key(phase)),
                    hook: if trimmed(hook.name@).len() == 0 {
                        None
                    } else {
                        Some(trimmed(hook.name@))
                    },
                    command: Some(command),
                },
            ),
        }
    }
}

/// The reports of commands that cannot be found, among the first hooks of a phase-event.
pub open spec fn unresolved_among(
    root: Seq<char>,
    entry: PhaseHooks,
    count: int,
    process_path: Option<Seq<char>>,
    facts: FileFacts,
) -> Seq<DiagnosticView>
    decreases count,
{
    if count <= 0 {
        Seq::empty()
    } else {
        let before = unresolved_among(root, entry, count - 1, process_path, facts);
        match unresolved_report(
            root,
            entry.phase_event,
            entry.hooks@[count - 1],
            process_path,
            facts,
        ) {
            Some(report) => before.push(report),
            None => before,
        }
    }
}

/// The reports of commands that cannot be found, phase-event by phase-event.
pub open spec fn unresolved_in(
    root: Seq<char>,
    entries: Seq<PhaseHooks>,
    process_path: Option<Seq<char>>,
    facts: FileFacts,
) -> Seq<DiagnosticView>
    decreases entries.len(),
{
    if entries.len() == 0 {
        Seq::empty()
    } else {
        unresolved_in(root, entries.drop_last(), process_path, facts) + unresolved_among(
            root,
            entries.last(),
            entries.last().hooks@.len() as int,
            process_path,
            facts,
        )
    }
}

fn report_unresolved(
    root: &str,
    phase: HookPhaseEvent,
    hook: &HookSpec,
    process_path: Option<&str>,
    facts: &FileFacts,
    report: &mut HooksValidateReport,
)
    requires
        old(report).wf(),
    ensures
        *final(report) == (HooksValidateReport {
            pass: final(report).pass,
            diagnostics: final(report).diagnostics,
            ..*old(report)
        }),
        final(report).found() == (match unresolved_report(
            root@,
            phase,
            *hook,
            str_text(process_path),
            *facts,
        ) {
            Some(found) => old(report).found().push(found),
            None => old(report).found(),
        }),
        final(report).wf(),
{
    if hook.command.len() == 0 {
        return;
    }
    let command = trim(hook.command[0].as_str());
    if command.unicode_len() == 0 {
        return;
    }
    let cwd = match &hook.cwd {
        Some(cwd) => resolve_hook_cwd(root, Some(cwd.as_str())),
        None => resolve_hook_cwd(root, None),
    };
    let path_override = hook_path_override(&hook.env);
    if let Err(message) = resolve_hook_command(
        command,
        cwd.as_str(),
        path_override,
        process_path,
        facts,
    ) {
        let mut text = message;
        text.append(
            "\nFix: ensure command exists and is executable, or invoke the script through an interpreter (for example: ['bash', 'script.sh']).",
        );
        report.push_diagnostic(
            "hooks.command_resolvable",
            text.as_str(),
            Some(phase.as_str().to_owned()),
            non_empty_trimmed(hook.name.as_str()),
            Some(command.to_owned()),
        );
    }
}

fn report_unresolved_entry(
    root: &str,
    entry: &PhaseHooks,
    process_path: Option<&str>,
    facts: &FileFacts,
    report: &mut HooksValidateReport,
)
    requires
        old(report).wf(),
    ensures
        *final(report) == (HooksValidateReport {
            pass: final(report).pass,
            diagnostics: final(report).diagnostics,
            ..*old(report)
        }),
        final(report).found() == old(report).found() + unresolved_among(
            root@,
            *entry,
            entry.hooks@.len() as int,
            str_text(process_path),
            *facts,
        ),
        final(report).wf(),
{
    let ghost start = report.found();
    let ghost path = str_text(process_path);
    let mut i: usize = 0;
    assert(start + unresolved_among(root@, *entry, 0, path, *facts) == start);
    while i < entry.hooks.len()
        invariant
            i <= entry.hooks.len(),
            path == str_text(process_path),
            *report == (HooksValidateReport {
                pass: report.pass,
                diagnostics: report.diagnostics,
                ..*old(report)
            }),
            report.found() == start + unresolved_among(root@, *entry, i as int, path, *facts),
            report.wf(),
        decreases entry.hooks.len() - i,
    {
        let ghost before = unresolved_among(root@, *entry, i as int, path, *facts);
        report_unresolved(root, entry.phase_event, &entry.hooks[i], process_path, facts, report);
        proof {
            let found = unresolved_report(
                root@,
                entry.phase_event,
                entry.hooks@[i as int],
                path,
                *facts,
            );
            if found is Some {
                assert(start + before.push(found->0) == (start + before).push(found->0));
            }
        }
        i = i + 1;
    }
}

/// Reports hooks whose command cannot be found. `process_path` is the search path of the process;
/// `facts` tells of every path that [`paths_to_probe`] lists.
pub fn validate_command_resolvability(
    config: &RalphConfig,
    process_path: Option<&str>,
    facts: &FileFacts,
    report: &mut HooksValidateReport,
)
    requires
        old(report).wf(),
    ensures
        *final(report) == (HooksValidateReport {
            pass: final(report).pass,
            diagnostics: final(report).diagnostics,
            ..*old(report)
        }),
        final(report).found() == old(report).found() + unresolved_in(
            config.core.workspace_root@,
            in_key_order(config.hooks.events@),
            str_text(process_path),
            *facts,
        ),
        final(report).wf(),
{
    let events = &config.hooks.events;
    let root = config.core.workspace_root.as_str();
    let places = places_by_key(events);
    let ghost all = in_key_order(events@);
    let ghost start = report.found();
    let ghost path = str_text(process_path);
    let mut i: usize = 0;
    assert(start + unresolved_in(root@, all.take(0), path, *facts) == start);
    while i < places.len()
        invariant
            i <= places.len(),
            path == str_text(process_path),
            all == entries_at(events@, places@),
            forall|j: int| 0 <= j < places@.len() ==> (#[trigger] places@[j]) < events@.len(),
            *report == (HooksValidateReport {
                pass: report.pass,
                diagnostics: report.diagnostics,
                ..*old(report)
            }),
            report.found() == start + unresolved_in(root@, all.take(i as int), path, *facts),
            report.wf(),
        decreases places.len() - i,
    {
        let entry = &events[places[i]];
        report_unresolved_entry(root, entry, process_path, facts, report);
        proof {
            assert(all.take(i + 1).drop_last() == all.take(i as int));
            assert(all.take(i + 1).last() == *entry);
            let before = unresolved_in(root@, all.take(i as int), path, *facts);
            let found = unresolved_among(root@, *entry, entry.hooks@.len() as int, path, *facts);
            assert(start + (before + found) == (start + before) + found);
        }
        i = i + 1;
    }
    assert(all.take(i as int) == all);
}

/// The paths that decide whether a command can be found.
pub open spec fn command_probes(
    command: Seq<char>,
    cwd: Seq<char>,
    path_override: Option<Seq<char>>,
    process_path: Option<Seq<char>>,
) -> Seq<Seq<char>> {
    if is_path_command(command) {
        seq![path_below(cwd, command)]
    } else if path_override is None && process_path is None {
        Seq::empty()
    } else {
        let path = if path_override is Some {
            path_override->0
        } else {
            process_path->0
        };
        split_at_char(path, ':').map_values(|dir: Seq<char>| path_below(dir, command))
    }
}

/// Whether two accounts of the files agree on some paths.
pub open spec fn agree_on(a: FileFacts, b: FileFacts, paths: Seq<Seq<char>>) -> bool {
    forall|i: int|
        #![trigger paths[i]]
        0 <= i < paths.len() ==> texts(a.existing@).contains(paths[i]) == texts(
            b.existing@,
        ).contains(paths[i]) && texts(a.executable@).contains(paths[i]) == texts(
            b.executable@,
        ).contains(paths[i])
}

/// Whether a command can be found depends on no other paths than those that are listed for it.
pub proof fn law_probes_suffice(
    command: Seq<char>,
    cwd: Seq<char>,
    path_override: Option<Seq<char>>,
    process_path: Option<Seq<char>>,
    a: FileFacts,
    b: FileFacts,
)
    requires
        agree_on(a, b, command_probes(command, cwd, path_override, process_path)),
    ensures
        command_file(command, cwd, path_override, process_path, a) == command_file(
            command,
            cwd,
            path_override,
            process_path,
            b,
        ),
{
    let probes = command_probes(command, cwd, path_override, process_path);
    if is_path_command(command) {
        assert(probes[0] == path_below(cwd, command));
    } else if path_override is Some || process_path is Some {
        let path = if path_override is Some {
            path_override->0
        } else {
            process_path->0
        };
        let dirs = split_at_char(path, ':');
        let hits_a = dirs.map_values(
            |dir: Seq<char>|
                if texts(a.executable@).contains(path_below(dir, command)) {
                    Some(path_below(dir, command))
                } else {
                    None
                },
        );
        let hits_b = dirs.map_values(
            |dir: Seq<char>|
                if texts(b.executable@).contains(path_below(dir, command)) {
                    Some(path_below(dir, command))
                } else {
                    None
                },
        );
        assert forall|i: int| 0 <= i < dirs.len() implies hits_a[i] == hits_b[i] by {
            assert(probes[i] == path_below(dirs[i], command));
        }
        assert(hits_a == hits_b);
    }
}

/// The paths that decide whether the command of a hook can be found.
pub open spec fn hook_probes(
    root: Seq<char>,
    hook: HookSpec,
    process_path: Option<Seq<char>>,
) -> Seq<Seq<char>> {
    if hook.command@.len() == 0 || trimmed(hook.command@[0]@).len() == 0 {
        Seq::empty()
    } else {
        command_probes(
            trimmed(hook.command@[0]@),
            hook_dir(root, opt_text(hook.cwd)),
            search_path_of(hook.env@),
            process_path,
        )
    }
}

/// Lists the paths that decide whether the command of a hook can be found.
pub fn paths_to_probe(root: &str, hook: &HookSpec, process_path: Option<&str>) -> (r: Vec<String>)
    ensures
        texts(r@) == hook_probes(root@, *hook, str_text(process_path)),
{
    let mut r: Vec<String> = Vec::new();
    assert(texts(r@) == Seq::<Seq<char>>::empty());
    if hook.command.len() == 0 {
        return r;
    }
    let command = trim(hook.command[0].as_str());
    if command.unicode_len() == 0 {
        return r;
    }
    if is_absolute(command) || has_several_components(command) {
        let cwd = match &hook.cwd {
            Some(cwd) => resolve_hook_cwd(root, Some(cwd.as_str())),
            None => resolve_hook_cwd(root, None),
        };
        r.push(join_path(cwd.as_str(), command));
        assert(texts(r@) == seq![path_below(cwd@, command@)]);
        return r;
    }
    let path = match hook_path_override(&hook.env) {
        Some(path) => path,
        None => match process_path {
            Some(path) => path,
            None => {
                return r;
            },
        },
    };
    let dirs = split(path, ':');
    let mut i: usize = 0;
    while i < dirs.len()
        invariant
            i <= dirs.len(),
            r.len() == i,
            forall|j: int| 0 <= j < i ==> (#[trigger] r@[j])@ == path_below(dirs@[j]@, command@),
        decreases dirs.len() - i,
    {
        r.push(join_path(dirs[i].as_str(), command));
        i = i + 1;
    }
    assert(texts(r@) == texts(dirs@).map_values(|dir: Seq<char>| path_below(dir, command@)));
    r
}

/// The report of a configuration that could be loaded, before the commands are looked for.
pub open spec fn semantic_reports(config: RalphConfig, fault_text: Seq<char>) -> Seq<
    DiagnosticView,
> {
    if config_fault(config) is Some {
        seq![
            DiagnosticView {
                code: "hooks.semantic"@,
                message: fault_text,
                phase_event: None,
                hook: None,
                command: None,
            },
        ]
    } else {
        Seq::empty()
    }
}

/// Validates the hooks of a configuration, or reports why it could not be loaded. `fault_text` says
/// what is wrong with the configuration, where its validation fails.
pub fn build_report(
    source: String,
    loaded: Result<&RalphConfig, String>,
    fault_text: &str,
    process_path: Option<&str>,
    facts: &FileFacts,
) -> (r: HooksValidateReport)
    requires
        loaded matches Ok(config) ==> hook_count(config.hooks.events@) <= usize::MAX,
    ensures
        r.wf(),
        r.source == source,
        match loaded {
            Ok(config) => {
                &&& r.hooks_enabled == config.hooks.enabled
                &&& r.checked_hooks == hook_count(config.hooks.events@)
                &&& r.found() == semantic_reports(*config, fault_text@) + duplicates_in(
                    in_key_order(config.hooks.events@),
                ) + unresolved_in(
                    config.core.workspace_root@,
                    in_key_order(config.hooks.events@),
                    str_text(process_path),
                    *facts,
                )
            },
            Err(message) => {
                &&& !r.hooks_enabled
                &&& r.checked_hooks == 0
                &&& r.found() == seq![
                    DiagnosticView {
                        code: "config.load"@,
                        message: message@,
                        phase_event: None,
                        hook: None,
                        command: None,
                    },
                ]
            },
        },
{
    let mut report = HooksValidateReport::new(source);
    assert(report.found() == Seq::<DiagnosticView>::empty());
    match loaded {
        Ok(config) => {
            report.hooks_enabled = config.hooks.enabled;
            report.checked_hooks = count_configured_hooks(config);
            if let Err(_) = config.validate() {
                report.push_diagnostic("hooks.semantic", fault_text, None, None, None);
            }
            assert(report.found() == semantic_reports(*config, fault_text@));
            validate_duplicate_names(config, &mut report);
            validate_command_resolvability(config, process_path, facts, &mut report);
        },
        Err(message) => {
            report.push_diagnostic("config.load", message.as_str(), None, None, None);
        },
    }
    report
}

/// No two hooks of a phase-event have the same name exactly where no duplicate is reported; blank
/// names do not count.
pub proof fn law_no_duplicates_reported(entry: PhaseHooks)
    ensures
        duplicates_among(entry, entry.hooks@.len() as int).len() == 0 <==> forall|i: int, j: int|
            #![trigger entry.hooks@[i], entry.hooks@[j]]
            0 <= i < j < entry.hooks@.len() && trimmed(entry.hooks@[j].name@).len() > 0
                ==> trimmed(entry.hooks@[i].name@) != trimmed(entry.hooks@[j].name@),
{
    lemma_duplicates(entry, entry.hooks@.len() as int);
}

proof fn lemma_last_named(hooks: Seq<HookSpec>, name: Seq<char>, before: int)
    requires
        0 <= before <= hooks.len(),
    ensures
        match last_named(hooks, name, before) {
            Some(i) => 0 <= i < before && trimmed(hooks[i].name@) == name,
            None => forall|i: int| 0 <= i < before ==> trimmed((#[trigger] hooks[i]).name@) != name,
        },
    decreases before,
{
    if before > 0 {
        lemma_last_named(hooks, name, before - 1);
    }
}

proof fn lemma_duplicates(entry: PhaseHooks, count: int)
    requires
        0 <= count <= entry.hooks@.len(),
    ensures
        duplicates_among(entry, count).len() == 0 <==> forall|i: int, j: int|
            #![trigger entry.hooks@[i], entry.hooks@[j]]
            0 <= i < j < count && trimmed(entry.hooks@[j].name@).len() > 0 ==> trimmed(
                entry.hooks@[i].name@,
            ) != trimmed(entry.hooks@[j].name@),
    decreases count,
{
    if count > 0 {
        lemma_duplicates(entry, count - 1);
        let name = trimmed(entry.hooks@[count - 1].name@);
        lemma_last_named(entry.hooks@, name, count - 1);
        if let Some(i) = last_named(entry.hooks@, name, count - 1) {
            assert(trimmed(entry.hooks@[i].name@) == trimmed(entry.hooks@[count - 1].name@));
        }
    }
}

} // verus!
