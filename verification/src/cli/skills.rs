//! Commands on skills.
use crate::event_loop::routing::clone_texts;
use crate::path::{absolute, is_absolute, join_path, path_below};
use crate::text::{
    first_of, in_order, join, joined, lemma_first_of, lemma_text_order_total,
    lemma_text_order_transitive, less, opt_text, ordered, sort, text_le, text_less, texts,
};
use vstd::prelude::*;

verus! {

/// Output format for the list of skills.
#[derive(Debug, Clone, Copy, PartialEq, Eq, Structural)]
pub enum OutputFormat {
    /// Human-readable table.
    Table,
    /// JSON for programs.
    Json,
    /// Names only, for scripts.
    Quiet,
}

impl Default for OutputFormat {
    fn default() -> (r: Self)
        ensures
            r == OutputFormat::Table,
    {
        OutputFormat::Table
    }
}

/// Skill management commands.
#[derive(Debug)]
pub struct SkillArgs {
    pub command: SkillCommands,
    /// Working directory, where it is not the current one.
    pub root: Option<String>,
}

/// A command on skills.
#[derive(Debug)]
pub enum SkillCommands {
    /// Load a skill by name and output its content.
    Load(LoadArgs),
    /// List available skills.
    List(ListArgs),
}

/// Arguments for loading a skill.
#[derive(Debug)]
pub struct LoadArgs {
    /// Name of the skill.
    pub name: String,
}

/// Arguments for the list of skills.
#[derive(Debug)]
pub struct ListArgs {
    pub format: OutputFormat,
}

/// Where a skill comes from.
#[derive(Debug)]
pub enum SkillSource {
    BuiltIn,
    File(String),
}

/// A skill.
#[derive(Debug)]
pub struct SkillEntry {
    pub name: String,
    pub description: String,
    pub content: String,
    pub source: SkillSource,
    pub hats: Vec<String>,
    pub backends: Vec<String>,
    pub tags: Vec<String>,
    pub auto_inject: bool,
}

/// The source of a skill in words.
pub open spec fn source_words(skill: SkillEntry) -> Seq<char> {
    match skill.source {
        SkillSource::BuiltIn => "built-in"@,
        SkillSource::File(path) => path@,
    }
}

/// Puts the source of a skill into words.
pub fn format_source(skill: &SkillEntry) -> (r: String)
    ensures
        r@ == source_words(*skill),
{
    match &skill.source {
        SkillSource::BuiltIn => "built-in".to_owned(),
        SkillSource::File(path) => path.clone(),
    }
}

/// A skill as programs are told.
#[derive(Debug)]
pub struct SkillListItem {
    pub name: String,
    pub description: String,
    pub source: String,
    pub path: Option<String>,
    pub hats: Vec<String>,
    pub backends: Vec<String>,
    pub tags: Vec<String>,
    pub auto_inject: bool,
}

/// Whether an item tells of a skill.
pub open spec fn tells_of(item: SkillListItem, skill: SkillEntry) -> bool {
    &&& item.name == skill.name
    &&& item.description == skill.description
    &&& item.hats@ == skill.hats@
    &&& item.backends@ == skill.backends@
    &&& item.tags@ == skill.tags@
    &&& item.auto_inject == skill.auto_inject
    &&& match skill.source {
        SkillSource::BuiltIn => item.source@ == "built-in"@ && item.path is None,
        SkillSource::File(path) => item.source@ == "file"@ && item.path == Some(path),
    }
}

impl SkillListItem {
    /// Makes the item that tells of a skill.
    pub fn from(skill: &SkillEntry) -> (r: SkillListItem)
        ensures
            tells_of(r, *skill),
    {
        let (source, path) = match &skill.source {
            SkillSource::BuiltIn => ("built-in".to_owned(), None),
            SkillSource::File(path) => ("file".to_owned(), Some(path.clone())),
        };
        SkillListItem {
            name: skill.name.clone(),
            description: skill.description.clone(),
            source,
            path,
            hats: clone_texts(&skill.hats),
            backends: clone_texts(&skill.backends),
            tags: clone_texts(&skill.tags),
            auto_inject: skill.auto_inject,
        }
    }
}

/// Skills in order with another one behind all that it does not come before.
pub open spec fn placed(skills: Seq<SkillEntry>, skill: SkillEntry) -> Seq<SkillEntry>
    decreases skills.len(),
{
    if skills.len() == 0 || !text_less(skill.name@, skills.last().name@) {
        skills.push(skill)
    } else {
        placed(skills.drop_last(), skill).push(skills.last())
    }
}

/// Skills in the order of their names; skills of one name keep their order.
pub open spec fn by_name(skills: Seq<SkillEntry>) -> Seq<SkillEntry>
    decreases skills.len(),
{
    if skills.len() == 0 {
        skills
    } else {
        placed(by_name(skills.drop_last()), skills.last())
    }
}

/// The names of skills.
pub open spec fn skill_names(skills: Seq<SkillEntry>) -> Seq<Seq<char>> {
    skills.map_values(|skill: SkillEntry| skill.name@)
}

proof fn lemma_placed(skills: Seq<SkillEntry>, skill: SkillEntry)
    requires
        in_order(skill_names(skills)),
    ensures
        in_order(skill_names(placed(skills, skill))),
        placed(skills, skill).to_multiset() == skills.to_multiset().insert(skill),
        placed(skills, skill).len() == skills.len() + 1,
        forall|i: int|
            #![trigger placed(skills, skill)[i]]
            0 <= i < placed(skills, skill).len() ==> placed(skills, skill)[i] == skill || exists|
                k: int,
            |
                0 <= k < skills.len() && placed(skills, skill)[i] == skills[k],
    decreases skills.len(),
{
    broadcast use vstd::seq_lib::group_to_multiset_ensures;

    let names = skill_names(skills);
    if skills.len() == 0 || !text_less(skill.name@, skills.last().name@) {
        let result = skills.push(skill);
        assert forall|i: int, j: int| 0 <= i < j < result.len() implies text_le(
            #[trigger] skill_names(result)[i],
            #[trigger] skill_names(result)[j],
        ) by {
            if j < skills.len() {
                assert(text_le(names[i], names[j]));
            } else {
                assert(names[skills.len() - 1] == skills.last().name@);
                if i < skills.len() - 1 {
                    assert(text_le(names[i], names[skills.len() - 1]));
                    lemma_text_order_transitive(names[i], skills.last().name@, skill.name@);
                }
            }
        }
        assert forall|i: int| 0 <= i < result.len() implies #[trigger] result[i] == skill || exists|
            k: int,
        |
            0 <= k < skills.len() && result[i] == skills[k] by {
            if i < skills.len() {
                assert(result[i] == skills[i]);
            }
        }
        vstd::seq_lib::to_multiset_build(skills, skill);
    } else {
        let front = skills.drop_last();
        assert forall|i: int, j: int| 0 <= i < j < front.len() implies text_le(
            #[trigger] skill_names(front)[i],
            #[trigger] skill_names(front)[j],
        ) by {
            assert(text_le(names[i], names[j]));
        }
        lemma_placed(front, skill);
        let inner = placed(front, skill);
        let result = inner.push(skills.last());
        assert forall|i: int, j: int| 0 <= i < j < result.len() implies text_le(
            #[trigger] skill_names(result)[i],
            #[trigger] skill_names(result)[j],
        ) by {
            if j < inner.len() {
                assert(text_le(skill_names(inner)[i], skill_names(inner)[j]));
            } else if inner[i] == skill {
                lemma_text_order_total(skill.name@, skills.last().name@);
            } else {
                let k = choose|k: int| 0 <= k < front.len() && inner[i] == front[k];
                assert(text_le(names[k], names[skills.len() - 1]));
            }
        }
        assert forall|i: int| 0 <= i < result.len() implies #[trigger] result[i] == skill || exists|
            k: int,
        |
            0 <= k < skills.len() && result[i] == skills[k] by {
            if i < inner.len() {
                assert(result[i] == inner[i]);
                if inner[i] != skill {
                    let k = choose|k: int| 0 <= k < front.len() && inner[i] == front[k];
                    assert(skills[k] == result[i]);
                }
            } else {
                assert(result[i] == skills[skills.len() - 1]);
            }
        }
        vstd::seq_lib::to_multiset_build(inner, skills.last());
        vstd::seq_lib::to_multiset_build(front, skills.last());
        assert(front.push(skills.last()) == skills);
        assert(result.to_multiset() == skills.to_multiset().insert(skill));
    }
}

/// Skills are listed in ascending order of their names, each of them as often as it is there.
pub proof fn law_skills_are_listed_in_order(skills: Seq<SkillEntry>)
    ensures
        in_order(skill_names(by_name(skills))),
        by_name(skills).to_multiset() == skills.to_multiset(),
    decreases skills.len(),
{
    if skills.len() > 0 {
        law_skills_are_listed_in_order(skills.drop_last());
        lemma_placed(by_name(skills.drop_last()), skills.last());
        vstd::seq_lib::to_multiset_build(skills.drop_last(), skills.last());
        assert(skills.drop_last().push(skills.last()) == skills);
    }
}

/// The skills at some places.
pub open spec fn skills_at(skills: Seq<SkillEntry>, places: Seq<usize>) -> Seq<SkillEntry> {
    places.map_values(|place: usize| skills[place as int])
}

fn place(skills: &Vec<SkillEntry>, places: &mut Vec<usize>, at: usize)
    requires
        at < skills.len(),
        forall|i: int| 0 <= i < old(places)@.len() ==> (#[trigger] old(places)@[i]) < skills@.len(),
    ensures
        forall|i: int|
            0 <= i < final(places)@.len() ==> (#[trigger] final(places)@[i]) < skills@.len(),
        skills_at(skills@, final(places)@) == placed(
            skills_at(skills@, old(places)@),
            skills@[at as int],
        ),
{
    let ghost before = places@;
    let ghost all = skills_at(skills@, before);
    let ghost skill = skills@[at as int];
    let mut k: usize = places.len();
    assert(all.take(k as int) == all);
    assert(placed(all.take(k as int), skill) + all.skip(k as int) == placed(all, skill));
    while k > 0 && less(skills[at].name.as_str(), skills[places[k - 1]].name.as_str())
        invariant
            k <= places.len(),
            at < skills.len(),
            skill == skills@[at as int],
            before == places@,
            all == skills_at(skills@, before),
            forall|i: int| 0 <= i < before.len() ==> (#[trigger] before[i]) < skills@.len(),
            placed(all.take(k as int), skill) + all.skip(k as int) == placed(all, skill),
        decreases k,
    {
        proof {
            let front = all.take(k as int);
            assert(front.last() == skills@[before[k - 1] as int]);
            assert(front.drop_last() == all.take(k - 1));
            assert(all.skip(k - 1) == seq![front.last()] + all.skip(k as int));
            assert(placed(all.take(k - 1), skill).push(front.last()) + all.skip(k as int) == placed(
                all.take(k - 1),
                skill,
            ) + all.skip(k - 1));
        }
        k = k - 1;
    }
    places.insert(k, at);
    proof {
        let front = all.take(k as int);
        if k > 0 {
            assert(front.last() == skills@[before[k - 1] as int]);
        }
        assert(placed(front, skill) == front.push(skill));
        assert(skills_at(skills@, places@) == front.push(skill) + all.skip(k as int));
    }
}

/// Puts skills into the order of their names.
pub fn sort_by_name(skills: &Vec<SkillEntry>) -> (r: Vec<usize>)
    ensures
        forall|i: int| 0 <= i < r@.len() ==> (#[trigger] r@[i]) < skills@.len(),
        skills_at(skills@, r@) == by_name(skills@),
{
    let mut r: Vec<usize> = Vec::new();
    let mut i: usize = 0;
    assert(skills_at(skills@, r@) == by_name(skills@.take(0)));
    while i < skills.len()
        invariant
            i <= skills.len(),
            forall|j: int| 0 <= j < r@.len() ==> (#[trigger] r@[j]) < skills@.len(),
            skills_at(skills@, r@) == by_name(skills@.take(i as int)),
        decreases skills.len() - i,
    {
        proof {
            assert(skills@.take(i + 1).drop_last() == skills@.take(i as int));
            assert(skills@.take(i + 1).last() == skills@[i as int]);
        }
        place(skills, &mut r, i);
        i = i + 1;
    }
    assert(skills@.take(i as int) == skills@);
    r
}

/// One line of the table of skills.
#[derive(Debug)]
pub struct SkillRow {
    pub name: String,
    pub source: String,
    pub description: String,
}

/// Whether a line is that of a skill.
pub open spec fn is_row_of(row: SkillRow, skill: SkillEntry) -> bool {
    &&& row.name == skill.name
    &&& row.source@ == source_words(skill)
    &&& row.description@ == if skill.description@.len() == 0 {
        "(no description)"@
    } else {
        skill.description@
    }
}

/// What a command on skills puts out.
#[derive(Debug)]
pub enum SkillOutput {
    /// The content of a skill.
    Content(String),
    /// Why there is no such skill, for the error output of a failing command.
    Missing(Vec<String>),
    /// There are no skills to put into a table.
    NoSkills,
    Table(Vec<SkillRow>),
    Items(Vec<SkillListItem>),
    Names(Vec<String>),
}

/// Why a skill cannot be loaded.
pub open spec fn missing_lines(name: Seq<char>, skills: Seq<SkillEntry>) -> Seq<Seq<char>> {
    seq![
        "Error: skill '"@ + name + "' not found"@,
        if skills.len() == 0 {
            "No skills discovered. Check skills.dirs in ralph.yml or use --root."@
        } else {
            "Available skills: "@ + joined(ordered(skill_names(skills)), ", "@)
        },
    ]
}

fn list_names(skills: &Vec<SkillEntry>) -> (r: Vec<String>)
    ensures
        texts(r@) == skill_names(skills@),
{
    let mut r: Vec<String> = Vec::new();
    let mut i: usize = 0;
    while i < skills.len()
        invariant
            i <= skills.len(),
            r.len() == i,
            forall|j: int| 0 <= j < i ==> (#[trigger] r@[j])@ == skills@[j].name@,
        decreases skills.len() - i,
    {
        r.push(skills[i].name.clone());
        i = i + 1;
    }
    assert(texts(r@) == skill_names(skills@));
    r
}

/// Puts out a skill, or why there is none of that name.
pub fn execute_load(name: &str, loaded: Option<&str>, skills: &Vec<SkillEntry>) -> (r: SkillOutput)
    ensures
        match loaded {
            Some(content) => r matches SkillOutput::Content(text) && text@ == content@,
            None => r matches SkillOutput::Missing(lines) && texts(lines@) == missing_lines(
                name@,
                skills@,
            ),
        },
{
    match loaded {
        Some(content) => SkillOutput::Content(content.to_owned()),
        None => {
            let mut error = "Error: skill '".to_owned();
            error.append(name);
            error.append("' not found");
            let hint = if skills.len() == 0 {
                "No skills discovered. Check skills.dirs in ralph.yml or use --root.".to_owned()
            } else {
                let names = list_names(skills);
                let sorted = sort(&names);
                let mut hint = "Available skills: ".to_owned();
                hint.append(join(&sorted, ", ").as_str());
                hint
            };
            let mut lines: Vec<String> = Vec::new();
            lines.push(error);
            lines.push(hint);
            assert(texts(lines@) == missing_lines(name@, skills@));
            SkillOutput::Missing(lines)
        },
    }
}

/// Puts out the skills in the order of their names.
pub fn execute_list(format: OutputFormat, skills: &Vec<SkillEntry>) -> (r: SkillOutput)
    ensures
        match format {
            OutputFormat::Table => if skills@.len() == 0 {
                r is NoSkills
            } else {
                r matches SkillOutput::Table(rows) && rows@.len() == skills@.len() && forall|i: int|
                    0 <= i < rows@.len() ==> is_row_of(#[trigger] rows@[i], by_name(skills@)[i])
            },
            OutputFormat::Json => r matches SkillOutput::Items(items) && items@.len()
                == skills@.len() && forall|i: int|
                0 <= i < items@.len() ==> tells_of(#[trigger] items@[i], by_name(skills@)[i]),
            OutputFormat::Quiet => r matches SkillOutput::Names(names) && texts(names@)
                == skill_names(by_name(skills@)),
        },
{
    let order = sort_by_name(skills);
    let ghost sorted = by_name(skills@);
    proof {
        lemma_by_name_len(skills@);
        assert(sorted.len() == order@.len());
    }
    match format {
        OutputFormat::Table => {
            if skills.len() == 0 {
                return SkillOutput::NoSkills;
            }
            let mut rows: Vec<SkillRow> = Vec::new();
            let mut i: usize = 0;
            while i < order.len()
                invariant
                    i <= order.len(),
                    rows.len() == i,
                    sorted == skills_at(skills@, order@),
                    forall|j: int| 0 <= j < order@.len() ==> (#[trigger] order@[j]) < skills@.len(),
                    forall|j: int| 0 <= j < i ==> is_row_of(#[trigger] rows@[j], sorted[j]),
                decreases order.len() - i,
            {
                let skill = &skills[order[i]];
                assert(sorted[i as int] == *skill);
                let description = if skill.description.as_str().unicode_len() == 0 {
                    "(no description)".to_owned()
                } else {
                    skill.description.clone()
                };
                rows.push(
                    SkillRow {
                        name: skill.name.clone(),
                        source: format_source(skill),
                        description,
                    },
                );
                i = i + 1;
            }
            SkillOutput::Table(rows)
        },
        OutputFormat::Json => {
            let mut items: Vec<SkillListItem> = Vec::new();
            let mut i: usize = 0;
            while i < order.len()
                invariant
                    i <= order.len(),
                    items.len() == i,
                    sorted == skills_at(skills@, order@),
                    forall|j: int| 0 <= j < order@.len() ==> (#[trigger] order@[j]) < skills@.len(),
                    forall|j: int| 0 <= j < i ==> tells_of(#[trigger] items@[j], sorted[j]),
                decreases order.len() - i,
            {
                assert(sorted[i as int] == skills@[order@[i as int] as int]);
                items.push(SkillListItem::from(&skills[order[i]]));
                i = i + 1;
            }
            SkillOutput::Items(items)
        },
        OutputFormat::Quiet => {
            let mut names: Vec<String> = Vec::new();
            let mut i: usize = 0;
            while i < order.len()
                invariant
                    i <= order.len(),
                    names.len() == i,
                    sorted == skills_at(skills@, order@),
                    forall|j: int| 0 <= j < order@.len() ==> (#[trigger] order@[j]) < skills@.len(),
                    forall|j: int| 0 <= j < i ==> (#[trigger] names@[j])@ == sorted[j].name@,
                decreases order.len() - i,
            {
                assert(sorted[i as int] == skills@[order@[i as int] as int]);
                names.push(skills[order[i]].name.clone());
                i = i + 1;
            }
            assert(texts(names@) == skill_names(sorted));
            SkillOutput::Names(names)
        },
    }
}

proof fn lemma_by_name_len(skills: Seq<SkillEntry>)
    ensures
        by_name(skills).len() == skills.len(),
    decreases skills.len(),
{
    if skills.len() > 0 {
        lemma_by_name_len(skills.drop_last());
        law_skills_are_listed_in_order(skills.drop_last());
        lemma_placed(by_name(skills.drop_last()), skills.last());
    }
}

/// Executes a command on skills. `loaded` is the content of the skill that is to be loaded, where it
/// is there.
pub fn execute(args: &SkillArgs, skills: &Vec<SkillEntry>, loaded: Option<&str>) -> (r: SkillOutput)
    ensures
        match args.command {
            SkillCommands::Load(load) => match loaded {
                Some(content) => r matches SkillOutput::Content(text) && text@ == content@,
                None => r matches SkillOutput::Missing(lines) && texts(lines@) == missing_lines(
                    load.name@,
                    skills@,
                ),
            },
            SkillCommands::List(list) => match list.format {
                OutputFormat::Table => if skills@.len() == 0 {
                    r is NoSkills
                } else {
                    r matches SkillOutput::Table(rows) && rows@.len() == skills@.len() && forall|
                        i: int,
                    |
                        0 <= i < rows@.len() ==> is_row_of(#[trigger] rows@[i], by_name(skills@)[i])
                },
                OutputFormat::Json => r matches SkillOutput::Items(items) && items@.len()
                    == skills@.len() && forall|i: int|
                    0 <= i < items@.len() ==> tells_of(#[trigger] items@[i], by_name(skills@)[i]),
                OutputFormat::Quiet => r matches SkillOutput::Names(names) && texts(names@)
                    == skill_names(by_name(skills@)),
            },
        },
{
    match &args.command {
        SkillCommands::Load(load) => execute_load(load.name.as_str(), loaded, skills),
        SkillCommands::List(list) => execute_list(list.format, skills),
    }
}

/// A directory, with the answer to what is asked of it.
#[derive(Debug)]
pub struct Dir {
    pub path: String,
    pub hit: bool,
}

/// The first directory of which the answer is yes.
pub open spec fn first_hit(dirs: Seq<Dir>) -> Option<Seq<char>> {
    first_of(
        dirs.map_values(
            |dir: Dir|
                if dir.hit {
                    Some(dir.path@)
                } else {
                    None
                },
        ),
    )
}

fn find_hit<'a>(dirs: &'a Vec<Dir>) -> (r: Option<&'a str>)
    ensures
        match r {
            Some(path) => first_hit(dirs@) == Some(path@),
            None => first_hit(dirs@) is None,
        },
{
    let ghost hits = dirs@.map_values(
        |dir: Dir|
            if dir.hit {
                Some(dir.path@)
            } else {
                None
            },
    );
    let mut i: usize = 0;
    assert(hits.skip(0) == hits);
    while i < dirs.len()
        invariant
            i <= dirs.len(),
            hits == dirs@.map_values(
                |dir: Dir|
                    if dir.hit {
                        Some(dir.path@)
                    } else {
                        None
                    },
            ),
            first_of(hits) == first_of(hits.skip(i as int)),
        decreases dirs.len() - i,
    {
        proof {
            lemma_first_of(hits, i as int);
        }
        if dirs[i].hit {
            return Some(dirs[i].path.as_str());
        }
        i = i + 1;
    }
    None
}

/// Finds the innermost directory that holds a configuration. `dirs` are a directory and those above
/// it, outwards.
pub fn find_workspace_root(dirs: &Vec<Dir>) -> (r: Option<String>)
    ensures
        match r {
            Some(root) => first_hit(dirs@) == Some(root@),
            None => first_hit(dirs@) is None,
        },
{
    match find_hit(dirs) {
        Some(path) => Some(path.to_owned()),
        None => None,
    }
}

/// Resolves the working directory: the given one, or the innermost directory that holds a
/// configuration, or the current directory.
pub fn resolve_root(explicit_root: Option<&str>, cwd: &str, dirs: &Vec<Dir>) -> (r: String)
    ensures
        r@ == (match explicit_root {
            Some(root) => root@,
            None => match first_hit(dirs@) {
                Some(root) => root,
                None => cwd@,
            },
        }),
{
    if let Some(root) = explicit_root {
        return root.to_owned();
    }
    match find_hit(dirs) {
        Some(path) => path.to_owned(),
        None => cwd.to_owned(),
    }
}

/// The path of the default directory of skills below the directory that has one.
pub open spec fn skills_path(first_backend: Seq<char>) -> Seq<char> {
    "."@ + first_backend + "/skills"@
}

/// Makes the path of the default directory of skills. `first_backend` is the name of the backend that
/// the default order of backends starts with.
pub fn default_skills_path(first_backend: &str) -> (r: String)
    ensures
        r@ == skills_path(first_backend@),
{
    let mut r = ".".to_owned();
    r.append(first_backend);
    r.append("/skills");
    r
}

/// The default directory of skills, where there is one.
pub open spec fn default_dir(
    root: Seq<char>,
    first_backend: Seq<char>,
    in_root: bool,
    below: Option<Seq<Dir>>,
    above: Seq<Dir>,
) -> Option<Seq<char>> {
    let parent = if in_root {
        Some(root)
    } else {
        match below {
            Some(dirs) => match first_hit(dirs) {
                Some(dir) => Some(dir),
                None => first_hit(above),
            },
            None => None,
        }
    };
    match parent {
        Some(dir) => Some(path_below(dir, skills_path(first_backend))),
        None => None,
    }
}

/// A configured directory of skills, resolved.
pub open spec fn resolved_dir(root: Seq<char>, dir: Seq<char>, dirs: Seq<Dir>) -> Seq<char> {
    if absolute(dir) {
        dir
    } else {
        match first_hit(dirs) {
            Some(parent) => path_below(parent, dir),
            None => path_below(root, dir),
        }
    }
}

/// Finds the default directory of skills: in the workspace, or, where the current directory is in
/// it, in the directories from there up to the workspace, or in those above the workspace.
/// `in_root` tells whether the workspace has one; `below` are the directories from the current one
/// up to the workspace, where the current one is in it, and `above` those above the workspace, each
/// outwards and with whether it has one. `first_backend` is what [`default_skills_path`] is told.
pub fn find_default_skills_dir(
    root: &str,
    first_backend: &str,
    in_root: bool,
    below: Option<&Vec<Dir>>,
    above: &Vec<Dir>,
) -> (r: Option<String>)
    ensures
        opt_text(r) == default_dir(
            root@,
            first_backend@,
            in_root,
            match below {
                Some(dirs) => Some(dirs@),
                None => None,
            },
            above@,
        ),
{
    let path = default_skills_path(first_backend);
    if in_root {
        return Some(join_path(root, path.as_str()));
    }
    match below {
        Some(dirs) => match find_hit(dirs) {
            Some(dir) => Some(join_path(dir, path.as_str())),
            None => match find_hit(above) {
                Some(dir) => Some(join_path(dir, path.as_str())),
                None => None,
            },
        },
        None => None,
    }
}

/// Resolves a configured directory of skills: an absolute one stands for itself; a relative one is
/// looked for in the workspace and above it, outwards, and else lies in the workspace. `dirs` are
/// the workspace and the directories above it, each with whether it has such a directory.
pub fn resolve_configured_skills_dir(root: &str, dir: &str, dirs: &Vec<Dir>) -> (r: String)
    ensures
        r@ == resolved_dir(root@, dir@, dirs@),
{
    if is_absolute(dir) {
        return dir.to_owned();
    }
    match find_hit(dirs) {
        Some(parent) => join_path(parent, dir),
        None => join_path(root, dir),
    }
}

/// Whether directories of skills are resolved from configured ones.
pub open spec fn are_resolved(
    root: Seq<char>,
    configured: Seq<Seq<char>>,
    found: Seq<Vec<Dir>>,
    resolved: Seq<Seq<char>>,
) -> bool {
    &&& resolved.len() == configured.len()
    &&& forall|i: int|
        0 <= i < configured.len() ==> #[trigger] resolved[i] == resolved_dir(
            root,
            configured[i],
            found[i]@,
        )
}

/// Settles the directories of skills: the configured ones resolved, or the default one where none
/// is configured. `found` holds for each configured directory what
/// [`resolve_configured_skills_dir`] is told; `first_backend`, `in_root`, `below` and `above` are what
/// [`find_default_skills_dir`] is told.
pub fn settle_skill_dirs(
    configured: &Vec<String>,
    found: &Vec<Vec<Dir>>,
    root: &str,
    first_backend: &str,
    in_root: bool,
    below: Option<&Vec<Dir>>,
    above: &Vec<Dir>,
) -> (r: Vec<String>)
    requires
        found@.len() == configured@.len(),
    ensures
        configured@.len() > 0 ==> are_resolved(root@, texts(configured@), found@, texts(r@)),
        configured@.len() == 0 ==> texts(r@) == (match default_dir(
            root@,
            first_backend@,
            in_root,
            match below {
                Some(dirs) => Some(dirs@),
                None => None,
            },
            above@,
        ) {
            Some(dir) => seq![dir],
            None => Seq::empty(),
        }),
{
    let mut r: Vec<String> = Vec::new();
    if configured.len() == 0 {
        match find_default_skills_dir(root, first_backend, in_root, below, above) {
            Some(dir) => {
                r.push(dir);
                assert(texts(r@) == seq![dir@]);
            },
            None => {
                assert(texts(r@) == Seq::<Seq<char>>::empty());
            },
        }
        return r;
    }
    let mut i: usize = 0;
    while i < configured.len()
        invariant
            i <= configured.len(),
            found@.len() == configured@.len(),
            r.len() == i,
            forall|j: int|
                0 <= j < i ==> (#[trigger] r@[j])@ == resolved_dir(
                    root@,
                    configured@[j]@,
                    found@[j]@,
                ),
        decreases configured.len() - i,
    {
        r.push(resolve_configured_skills_dir(root, configured[i].as_str(), &found[i]));
        i = i + 1;
    }
    r
}

} // verus!
