//! What holds of where configurations, workspaces, records and skills come from.
use crate::cli::args::EventsArgs;
use crate::cli::config_source::{
    builtin_refusal, core_file, hats_source_named, last_override, primary_source, remote_refusal,
    source_named, source_text, text_or, SourceView,
};
use crate::cli::events::{last_items, matches_args, shown_places, HistoryRecord};
use crate::cli::skills::{
    default_dir, first_hit, is_row_of, missing_lines, resolved_dir, skill_names, skills_path,
    source_words, tells_of, Dir, SkillEntry, SkillListItem, SkillRow, SkillSource,
};
use crate::cli::workspace::{config_path_of, marked_workspace, workspace_of, WorkspaceDir};
use crate::event_loop::processing_laws::lemma_first_at;
use crate::path::{absolute, path_below};
use crate::text::{
    blank, char_at, first_of, has_prefix, joined, lemma_first_among, ordered, parts_around,
};
use vstd::prelude::*;

verus! {

// ---- sources ----

/// A source is known by how it is written: an override by its prefix and its sign, a collection by its
/// prefix, a remote one by its scheme, and everything else is a file.
pub proof fn law_sources_are_known_by_their_form(s: Seq<char>)
    ensures
        has_prefix(s, "core."@) && s.contains('=') ==> source_named(s) is Override,
        !(has_prefix(s, "core."@) && s.contains('=')) && has_prefix(s, "builtin:"@) ==> source_named(
            s,
        ) == SourceView::Builtin(s.skip(8)),
        !(has_prefix(s, "core."@) && s.contains('=')) && !has_prefix(s, "builtin:"@) && (
        has_prefix(s, "http://"@) || has_prefix(s, "https://"@)) ==> source_named(s)
            == SourceView::Remote(s),
        !(has_prefix(s, "core."@) && s.contains('=')) && !has_prefix(s, "builtin:"@) && !has_prefix(
            s,
            "http://"@,
        ) && !has_prefix(s, "https://"@) ==> source_named(s) == SourceView::File(s),
{
    reveal_strlit("builtin:");
    assert("builtin:"@.len() == 8);
    lemma_sign(s);
}

proof fn lemma_sign(s: Seq<char>)
    ensures
        s.contains('=') <==> parts_around(s, '=') is Some,
    decreases s.len(),
{
    if s.len() > 0 && s[0] != '=' {
        lemma_sign(s.drop_first());
        if s.contains('=') {
            let i = s.index_of('=');
            assert(s.drop_first()[i - 1] == '=');
        }
        if s.drop_first().contains('=') {
            let i = s.drop_first().index_of('=');
            assert(s[i + 1] == '=');
        }
        assert(char_at(s, '=') is Some <==> char_at(s.drop_first(), '=') is Some);
    }
}

/// An override is told apart at its first sign: its key holds none, and its value is all behind it.
pub proof fn law_overrides_are_parted_at_the_first_sign(s: Seq<char>)
    requires
        source_named(s) is Override,
    ensures
        ({
            let key = source_named(s)->Override_0;
            let value = source_named(s)->Override_1;
            &&& s == key + seq!['='] + value
            &&& !key.contains('=')
        }),
{
    lemma_parted(s);
}

proof fn lemma_parted(s: Seq<char>)
    ensures
        char_at(s, '=') matches Some(n) ==> 0 <= n < s.len() && s[n] == '=' && !s.take(n).contains(
            '=',
        ) && s == s.take(n) + seq!['='] + s.skip(n + 1),
    decreases s.len(),
{
    if s.len() > 0 {
        if s[0] == '=' {
            assert(s.take(0).len() == 0);
            assert(s == s.take(0) + seq!['='] + s.skip(1));
        } else {
            lemma_parted(s.drop_first());
            if let Some(m) = char_at(s.drop_first(), '=') {
                let n = m + 1;
                assert(s[n] == '=');
                assert(s == s.take(n) + seq!['='] + s.skip(n + 1));
                if s.take(n).contains('=') {
                    let i = s.take(n).index_of('=');
                    assert(s.drop_first().take(m)[i - 1] == '=');
                }
            }
        }
    }
}

/// A source of hats is known by how it is written, as other sources are, and is never an override.
pub proof fn law_sources_of_hats_are_no_overrides(s: Seq<char>)
    ensures
        has_prefix(s, "builtin:"@) ==> hats_source_named(s) == SourceView::Builtin(s.skip(8)),
        !has_prefix(s, "builtin:"@) && (has_prefix(s, "http://"@) || has_prefix(s, "https://"@))
            ==> hats_source_named(s) == SourceView::Remote(s),
        !has_prefix(s, "builtin:"@) && !has_prefix(s, "http://"@) && !has_prefix(s, "https://"@)
            ==> hats_source_named(s) == SourceView::File(s),
{
    reveal_strlit("builtin:");
    assert("builtin:"@.len() == 8);
}

/// The last override of a key counts, wherever others stand, and an override of another key does not
/// matter.
pub proof fn law_the_last_override_counts(
    a: Seq<SourceView>,
    b: Seq<SourceView>,
    key: Seq<char>,
    value: Seq<char>,
    text: Seq<char>,
)
    requires
        forall|i: int|
            0 <= i < b.len() ==> !((#[trigger] b[i]) matches SourceView::Override(k, _) && k == key),
    ensures
        last_override(a.push(SourceView::Override(key, value)) + b, key) == Some(value),
        last_override(b, key) is None,
        text_or(Some(value), text) == value,
        text_or(None, text) == text,
    decreases b.len(),
{
    let front = a.push(SourceView::Override(key, value));
    if b.len() == 0 {
        assert(front + b == front);
    } else {
        let init = b.drop_last();
        assert forall|i: int| 0 <= i < init.len() implies !((#[trigger] init[i]) matches
            SourceView::Override(k, _) && k == key) by {
            assert(init[i] == b[i]);
        }
        law_the_last_override_counts(a, init, key, value, text);
        assert((front + b).drop_last() == front + init);
        assert((front + b).last() == b.last());
        assert(!(b[b.len() - 1] matches SourceView::Override(k, _) && k == key));
    }
}

/// The core file is the first source that is not an override: a file is taken, a collection and a remote
/// source are refused, and without any the usual file is taken.
pub proof fn law_the_first_source_is_the_core_file(sources: Seq<SourceView>, i: int)
    ensures
        0 <= i < sources.len() && !(sources[i] is Override) && (forall|j: int|
            0 <= j < i ==> (#[trigger] sources[j]) is Override) ==> primary_source(sources) == Some(
            sources[i],
        ) && core_file(sources) == (match sources[i] {
            SourceView::File(path) => Ok(Some(path)),
            SourceView::Builtin(name) => Err(builtin_refusal(name)),
            SourceView::Remote(url) => Err(remote_refusal(url)),
            SourceView::Override(_, _) => Ok(None),
        }),
        (forall|j: int| 0 <= j < sources.len() ==> (#[trigger] sources[j]) is Override)
            ==> primary_source(sources) is None && core_file(sources) == Ok::<
            Option<Seq<char>>,
            Seq<char>,
        >(None),
{
    let pick = |source: SourceView|
        if source is Override {
            None
        } else {
            Some(source)
        };
    let hits = sources.map_values(pick);
    if 0 <= i < sources.len() && !(sources[i] is Override) && (forall|j: int|
        0 <= j < i ==> (#[trigger] sources[j]) is Override) {
        assert forall|j: int| 0 <= j < i implies (#[trigger] hits[j]) is None by {
            assert(sources[j] is Override);
        }
        lemma_first_at(hits, i);
    }
    if forall|j: int| 0 <= j < sources.len() ==> (#[trigger] sources[j]) is Override {
        lemma_first_among(hits);
        if first_of(hits) is Some {
            let k = choose|k: int| 0 <= k < hits.len() && #[trigger] hits[k] == first_of(hits);
            assert(sources[k] is Override);
        }
    }
}

/// A refused source is named, with what to write instead of a collection.
pub proof fn law_refused_sources_are_named(name: Seq<char>)
    ensures
        builtin_refusal(name) == "`-c builtin:"@ + name
            + "` is no longer supported.\n\nBuiltin presets are now hat collections.\nUse:\n  ralph run -c ralph.yml -H builtin:"@
            + name,
        remote_refusal(name)
            == "Remote core config sources are not supported for this command: "@ + name,
        source_text(SourceView::File(name)) == name,
        source_text(SourceView::Remote(name)) == name,
        source_text(SourceView::Builtin(name)) == "builtin:"@ + name,
{
}

// ---- workspaces ----

/// The workspace is the one that is given, else the one of the environment unless that is blank, else the
/// nearest marked directory, else the working directory.
pub proof fn law_given_workspaces_come_first(
    given: Seq<char>,
    env: Option<Seq<char>>,
    cwd: Option<Seq<char>>,
    dirs: Seq<WorkspaceDir>,
)
    ensures
        workspace_of(Some(given), env, cwd, dirs) == given,
        !blank(given) ==> workspace_of(None, Some(given), cwd, dirs) == given,
        blank(given) ==> workspace_of(None, Some(given), cwd, dirs) == workspace_of(
            None,
            None,
            cwd,
            dirs,
        ),
        marked_workspace(dirs) is Some ==> workspace_of(None, None, cwd, dirs) == marked_workspace(
            dirs,
        )->0,
        marked_workspace(dirs) is None ==> workspace_of(None, None, Some(given), dirs) == given,
        marked_workspace(dirs) is None ==> workspace_of(None, None, None, dirs) == "."@,
        !blank(given) ==> config_path_of(Some(given)) == given,
        blank(given) ==> config_path_of(Some(given)) == "ralph.yml"@,
        config_path_of(None) == "ralph.yml"@,
{
}

/// The nearest directory with either mark is the workspace.
pub proof fn law_the_nearest_mark_counts(dirs: Seq<WorkspaceDir>, i: int)
    ensures
        0 <= i < dirs.len() && (dirs[i].has_ralph || dirs[i].has_git) && (forall|j: int|
            0 <= j < i ==> !(#[trigger] dirs[j]).has_ralph && !dirs[j].has_git) ==> marked_workspace(
            dirs,
        ) == Some(dirs[i].path@),
        (forall|j: int|
            0 <= j < dirs.len() ==> !(#[trigger] dirs[j]).has_ralph && !dirs[j].has_git)
            ==> marked_workspace(dirs) is None,
{
    let pick = |dir: WorkspaceDir|
        if dir.has_ralph || dir.has_git {
            Some(dir.path@)
        } else {
            None
        };
    let hits = dirs.map_values(pick);
    if 0 <= i < dirs.len() && (dirs[i].has_ralph || dirs[i].has_git) && (forall|j: int|
        0 <= j < i ==> !(#[trigger] dirs[j]).has_ralph && !dirs[j].has_git) {
        assert forall|j: int| 0 <= j < i implies (#[trigger] hits[j]) is None by {
            assert(!dirs[j].has_ralph);
        }
        lemma_first_at(hits, i);
    }
    if forall|j: int| 0 <= j < dirs.len() ==> !(#[trigger] dirs[j]).has_ralph && !dirs[j].has_git {
        lemma_first_among(hits);
        if first_of(hits) is Some {
            let k = choose|k: int| 0 <= k < hits.len() && #[trigger] hits[k] == first_of(hits);
            assert(!dirs[k].has_ralph);
        }
    }
}

// ---- records ----

/// A record is shown where its topic and its iteration are those that are asked for, if any are.
pub proof fn law_records_are_shown_as_asked(args: EventsArgs, record: HistoryRecord)
    ensures
        args.topic is None && args.iteration is None ==> matches_args(args, record),
        args.topic is Some && args.topic->0@ != record.topic@ ==> !matches_args(args, record),
        args.iteration is Some && args.iteration->0 != record.iteration ==> !matches_args(
            args,
            record,
        ),
        (args.topic is None || args.topic->0@ == record.topic@) && (args.iteration is None
            || args.iteration->0 == record.iteration) ==> matches_args(args, record),
{
}

/// Records are shown one by one, in order, and only the last of them where a number is asked for.
pub proof fn law_the_last_records_are_shown(
    args: EventsArgs,
    a: Seq<HistoryRecord>,
    b: Seq<HistoryRecord>,
    record: HistoryRecord,
    s: Seq<usize>,
    n: usize,
)
    ensures
        args.last is None ==> shown_places(args, a + b) == shown_places(args, a) + shown_places(
            args,
            b,
        ),
        args.last is None && matches_args(args, record) ==> shown_places(args, seq![record])
            == seq![record.place],
        !matches_args(args, record) ==> shown_places(args, seq![record]).len() == 0,
        last_items(s, None) == s,
        s.len() <= n ==> last_items(s, Some(n)) == s,
        s.len() > n ==> last_items(s, Some(n)) == s.skip(s.len() - n) && last_items(
            s,
            Some(n),
        ).len() == n,
{
    let asked = |r: HistoryRecord| matches_args(args, r);
    let place = |r: HistoryRecord| r.place;
    Seq::filter_distributes_over_add(a, b, asked);
    assert((a.filter(asked) + b.filter(asked)).map_values(place) == a.filter(asked).map_values(place)
        + b.filter(asked).map_values(place));
    reveal(Seq::filter);
    reveal_with_fuel(Seq::filter, 2);
    assert(seq![record].drop_last() == Seq::<HistoryRecord>::empty());
    assert(seq![record].last() == record);
    assert(Seq::<HistoryRecord>::empty().push(record) == seq![record]);
    assert(seq![record].map_values(place) == seq![record.place]);
}

// ---- skills ----

/// What is told of a skill is what it is.
pub proof fn law_skills_are_told_as_they_are(
    item: SkillListItem,
    row: SkillRow,
    skill: SkillEntry,
)
    requires
        tells_of(item, skill),
        is_row_of(row, skill),
    ensures
        item.name@ == skill.name@,
        item.description@ == skill.description@,
        item.hats@ == skill.hats@,
        item.backends@ == skill.backends@,
        item.tags@ == skill.tags@,
        item.auto_inject == skill.auto_inject,
        skill.source is BuiltIn ==> item.source@ == "built-in"@ && item.path is None && row.source@
            == "built-in"@,
        skill.source matches SkillSource::File(path) ==> item.source@ == "file"@ && item.path
            == Some(path) && row.source@ == path@,
        row.name@ == skill.name@,
        skill.description@.len() > 0 ==> row.description@ == skill.description@,
        skill.description@.len() == 0 ==> row.description@ == "(no description)"@,
        source_words(skill) == row.source@,
{
}

/// A skill that is missing is named, with those that there are, in order.
pub proof fn law_missing_skills_are_named(name: Seq<char>, skills: Seq<SkillEntry>)
    ensures
        missing_lines(name, skills).len() == 2,
        missing_lines(name, skills)[0] == "Error: skill '"@ + name + "' not found"@,
        skills.len() == 0 ==> missing_lines(name, skills)[1]
            == "No skills discovered. Check skills.dirs in ralph.yml or use --root."@,
        skills.len() > 0 ==> missing_lines(name, skills)[1] == "Available skills: "@ + joined(
            ordered(skill_names(skills)),
            ", "@,
        ),
{
}

/// The first directory that has what is looked for is the one, and there is none where none has it.
pub proof fn law_the_first_hit_counts(dirs: Seq<Dir>, i: int)
    ensures
        0 <= i < dirs.len() && dirs[i].hit && (forall|j: int| 0 <= j < i ==> !(#[trigger] dirs[j]).hit)
            ==> first_hit(dirs) == Some(dirs[i].path@),
        (forall|j: int| 0 <= j < dirs.len() ==> !(#[trigger] dirs[j]).hit) ==> first_hit(
            dirs,
        ) is None,
{
    let pick = |dir: Dir|
        if dir.hit {
            Some(dir.path@)
        } else {
            None
        };
    let hits = dirs.map_values(pick);
    if 0 <= i < dirs.len() && dirs[i].hit && (forall|j: int|
        0 <= j < i ==> !(#[trigger] dirs[j]).hit) {
        assert forall|j: int| 0 <= j < i implies (#[trigger] hits[j]) is None by {
            assert(!dirs[j].hit);
        }
        lemma_first_at(hits, i);
    }
    if forall|j: int| 0 <= j < dirs.len() ==> !(#[trigger] dirs[j]).hit {
        lemma_first_among(hits);
        if first_of(hits) is Some {
            let k = choose|k: int| 0 <= k < hits.len() && #[trigger] hits[k] == first_of(hits);
            assert(!dirs[k].hit);
        }
    }
}

/// Skills lie in the root before anywhere else, then in the nearest directory below it and then above.
/// Directories that are configured are taken as they are where they are absolute, and else below the
/// first directory that has them, or below the root.
pub proof fn law_skills_are_looked_for_from_the_root(
    root: Seq<char>,
    backend: Seq<char>,
    below: Seq<Dir>,
    above: Seq<Dir>,
    somewhere: Option<Seq<Dir>>,
    dir: Seq<char>,
)
    ensures
        skills_path(backend) == "."@ + backend + "/skills"@,
        default_dir(root, backend, true, somewhere, above) == Some(
            path_below(root, skills_path(backend)),
        ),
        first_hit(below) is Some ==> default_dir(root, backend, false, Some(below), above) == Some(
            path_below(first_hit(below)->0, skills_path(backend)),
        ),
        first_hit(below) is None && first_hit(above) is Some ==> default_dir(
            root,
            backend,
            false,
            Some(below),
            above,
        ) == Some(path_below(first_hit(above)->0, skills_path(backend))),
        first_hit(below) is None && first_hit(above) is None ==> default_dir(
            root,
            backend,
            false,
            Some(below),
            above,
        ) is None,
        default_dir(root, backend, false, None, above) is None,
        absolute(dir) ==> resolved_dir(root, dir, above) == dir,
        !absolute(dir) && first_hit(above) is Some ==> resolved_dir(root, dir, above) == path_below(
            first_hit(above)->0,
            dir,
        ),
        !absolute(dir) && first_hit(above) is None ==> resolved_dir(root, dir, above) == path_below(
            root,
            dir,
        ),
{
}

} // verus!
