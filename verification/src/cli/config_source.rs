//! Sources of the core configuration and of hat collections.
use crate::config::core_config::CoreConfig;
use crate::config::ralph_config::{is_normalized, RalphConfig};
use crate::config::scratchpad::ScratchpadConfig;
use crate::text::{
    char_at, first_of, has_prefix, lemma_char_at, lemma_first_of, opt_text, parts_around,
    split_once, starts_with, str_eq, strip_prefix, texts, without_prefix,
};
use vstd::prelude::*;

verus! {

/// Source for the core configuration.
#[derive(Debug)]
pub enum ConfigSource {
    /// A local file.
    File(String),
    /// A builtin preset, which is no source of a core configuration any more.
    Builtin(String),
    /// A remote document.
    Remote(String),
    /// An override of one field.
    Override { key: String, value: String },
}

/// The plain values of a [`ConfigSource`].
pub enum SourceView {
    File(Seq<char>),
    Builtin(Seq<char>),
    Remote(Seq<char>),
    Override(Seq<char>, Seq<char>),
}

impl View for ConfigSource {
    type V = SourceView;

    open spec fn view(&self) -> SourceView {
        match *self {
            ConfigSource::File(path) => SourceView::File(path@),
            ConfigSource::Builtin(name) => SourceView::Builtin(name@),
            ConfigSource::Remote(url) => SourceView::Remote(url@),
            ConfigSource::Override { key, value } => SourceView::Override(key@, value@),
        }
    }
}

/// The plain values of sources.
pub open spec fn source_views(sources: Seq<ConfigSource>) -> Seq<SourceView> {
    sources.map_values(|source: ConfigSource| source@)
}

/// Whether a text is the address of a remote document.
pub open spec fn is_remote(s: Seq<char>) -> bool {
    has_prefix(s, "http://"@) || has_prefix(s, "https://"@)
}

/// The source that a text names: `core.field=value` is an override, `builtin:name` a preset, an
/// address a remote document, and anything else a file.
pub open spec fn source_named(s: Seq<char>) -> SourceView {
    if has_prefix(s, "core."@) && parts_around(s, '=') is Some {
        let (key, value) = parts_around(s, '=')->0;
        SourceView::Override(key, value)
    } else if has_prefix(s, "builtin:"@) {
        SourceView::Builtin(without_prefix(s, "builtin:"@)->0)
    } else if is_remote(s) {
        SourceView::Remote(s)
    } else {
        SourceView::File(s)
    }
}

/// The text that names a source on a command line.
pub open spec fn source_text(source: SourceView) -> Seq<char> {
    match source {
        SourceView::File(path) => path,
        SourceView::Builtin(name) => "builtin:"@ + name,
        SourceView::Remote(url) => url,
        SourceView::Override(key, value) => key + "="@ + value,
    }
}

impl ConfigSource {
    /// Finds the source that a text names.
    pub fn parse(s: &str) -> (r: Self)
        ensures
            r@ == source_named(s@),
    {
        if starts_with(s, "core.") {
            if let Some((key, value)) = split_once(s, '=') {
                return ConfigSource::Override { key, value };
            }
        }
        if let Some(name) = strip_prefix(s, "builtin:") {
            return ConfigSource::Builtin(name);
        }
        if starts_with(s, "http://") || starts_with(s, "https://") {
            ConfigSource::Remote(s.to_owned())
        } else {
            ConfigSource::File(s.to_owned())
        }
    }

    /// Names the source on a command line.
    pub fn to_cli_string(&self) -> (r: String)
        ensures
            r@ == source_text(self@),
    {
        match self {
            ConfigSource::File(path) => path.clone(),
            ConfigSource::Builtin(name) => {
                let mut r = "builtin:".to_owned();
                r.append(name.as_str());
                r
            },
            ConfigSource::Remote(url) => url.clone(),
            ConfigSource::Override { key, value } => {
                let mut r = key.clone();
                r.append("=");
                r.append(value.as_str());
                r
            },
        }
    }
}

impl Clone for ConfigSource {
    fn clone(&self) -> (r: Self)
        ensures
            r == *self,
    {
        match self {
            ConfigSource::File(path) => ConfigSource::File(path.clone()),
            ConfigSource::Builtin(name) => ConfigSource::Builtin(name.clone()),
            ConfigSource::Remote(url) => ConfigSource::Remote(url.clone()),
            ConfigSource::Override { key, value } => ConfigSource::Override {
                key: key.clone(),
                value: value.clone(),
            },
        }
    }
}

/// A source that a text names is named on a command line by that very text, so a forwarded source
/// stays the same.
pub proof fn law_source_text_round_trip(s: Seq<char>)
    ensures
        source_text(source_named(s)) == s,
        source_named(source_text(source_named(s))) == source_named(s),
{
    reveal_strlit("=");
    if has_prefix(s, "core."@) && parts_around(s, '=') is Some {
        let n = char_at(s, '=')->0;
        lemma_char_at(s, '=');
        assert(s == s.take(n) + "="@ + s.skip(n + 1));
    } else if has_prefix(s, "builtin:"@) {
        assert(s == "builtin:"@ + s.skip("builtin:"@.len() as int));
    }
}

/// Source for a hat collection.
#[derive(Debug)]
pub enum HatsSource {
    /// A local file.
    File(String),
    /// A builtin hat collection.
    Builtin(String),
    /// A remote document.
    Remote(String),
}

impl View for HatsSource {
    type V = SourceView;

    open spec fn view(&self) -> SourceView {
        match *self {
            HatsSource::File(path) => SourceView::File(path@),
            HatsSource::Builtin(name) => SourceView::Builtin(name@),
            HatsSource::Remote(url) => SourceView::Remote(url@),
        }
    }
}

/// The source of a hat collection that a text names.
pub open spec fn hats_source_named(s: Seq<char>) -> SourceView {
    if has_prefix(s, "builtin:"@) {
        SourceView::Builtin(without_prefix(s, "builtin:"@)->0)
    } else if is_remote(s) {
        SourceView::Remote(s)
    } else {
        SourceView::File(s)
    }
}

impl HatsSource {
    /// Finds the source that a text names.
    pub fn parse(s: &str) -> (r: Self)
        ensures
            r@ == hats_source_named(s@),
    {
        if let Some(name) = strip_prefix(s, "builtin:") {
            return HatsSource::Builtin(name);
        }
        if starts_with(s, "http://") || starts_with(s, "https://") {
            HatsSource::Remote(s.to_owned())
        } else {
            HatsSource::File(s.to_owned())
        }
    }

    /// Names the source for people and on a command line.
    pub fn label(&self) -> (r: String)
        ensures
            r@ == source_text(self@),
    {
        match self {
            HatsSource::File(path) => path.clone(),
            HatsSource::Builtin(name) => {
                let mut r = "builtin:".to_owned();
                r.append(name.as_str());
                r
            },
            HatsSource::Remote(url) => url.clone(),
        }
    }
}

/// The source of a hat collection that a text names has that very text as its label.
pub proof fn law_hats_label_round_trip(s: Seq<char>)
    ensures
        source_text(hats_source_named(s)) == s,
{
    if has_prefix(s, "builtin:"@) {
        assert(s == "builtin:"@ + s.skip("builtin:"@.len() as int));
    }
}

/// The value of the last override of a field.
pub open spec fn last_override(sources: Seq<SourceView>, key: Seq<char>) -> Option<Seq<char>>
    decreases sources.len(),
{
    if sources.len() == 0 {
        None
    } else {
        match sources.last() {
            SourceView::Override(k, value) => if k == key {
                Some(value)
            } else {
                last_override(sources.drop_last(), key)
            },
            _ => last_override(sources.drop_last(), key),
        }
    }
}

/// A text, unless another one takes its place.
pub open spec fn text_or(replacement: Option<Seq<char>>, text: Seq<char>) -> Seq<char> {
    match replacement {
        Some(other) => other,
        None => text,
    }
}

/// Sets the overridden fields of a configuration: the scratchpad path and the specs directory. Of
/// several overrides of a field the last one holds; other fields cannot be overridden, and an
/// override of one changes nothing.
pub fn apply_config_overrides(config: &mut RalphConfig, sources: &Vec<ConfigSource>) -> (r: Result<
    (),
    String,
>)
    ensures
        r is Ok,
        final(config).core.scratchpad.path@ == text_or(
            last_override(source_views(sources@), "core.scratchpad"@),
            old(config).core.scratchpad.path@,
        ),
        final(config).core.specs_dir@ == text_or(
            last_override(source_views(sources@), "core.specs_dir"@),
            old(config).core.specs_dir@,
        ),
        *final(config) == (RalphConfig {
            core: CoreConfig {
                scratchpad: ScratchpadConfig {
                    path: final(config).core.scratchpad.path,
                    ..old(config).core.scratchpad
                },
                specs_dir: final(config).core.specs_dir,
                ..old(config).core
            },
            ..*old(config)
        }),
{
    let ghost all = source_views(sources@);
    proof {
        reveal_strlit("core.scratchpad");
        reveal_strlit("core.specs_dir");
        assert("core.scratchpad"@.len() != "core.specs_dir"@.len());
    }
    let mut i: usize = 0;
    while i < sources.len()
        invariant
            i <= sources.len(),
            all == source_views(sources@),
            "core.scratchpad"@ != "core.specs_dir"@,
            config.core.scratchpad.path@ == text_or(
                last_override(all.take(i as int), "core.scratchpad"@),
                old(config).core.scratchpad.path@,
            ),
            config.core.specs_dir@ == text_or(
                last_override(all.take(i as int), "core.specs_dir"@),
                old(config).core.specs_dir@,
            ),
            *config == (RalphConfig {
                core: CoreConfig {
                    scratchpad: ScratchpadConfig {
                        path: config.core.scratchpad.path,
                        ..old(config).core.scratchpad
                    },
                    specs_dir: config.core.specs_dir,
                    ..old(config).core
                },
                ..*old(config)
            }),
        decreases sources.len() - i,
    {
        proof {
            assert(all.take(i + 1).drop_last() == all.take(i as int));
            assert(all.take(i + 1).last() == sources@[i as int]@);
        }
        if let ConfigSource::Override { key, value } = &sources[i] {
            if str_eq(key.as_str(), "core.scratchpad") {
                config.core.scratchpad.path = value.clone();
            } else if str_eq(key.as_str(), "core.specs_dir") {
                config.core.specs_dir = value.clone();
            }
        }
        i = i + 1;
    }
    assert(all.take(i as int) == all);
    Ok(())
}

/// Finishes a configuration that was read: normalizes it, puts it into the current directory, where
/// that can be told, and applies the overrides among the sources.
pub fn load_config_with_overrides(
    config: RalphConfig,
    current_dir: Option<String>,
    sources: &Vec<ConfigSource>,
) -> (r: RalphConfig)
    ensures
        is_normalized(config, (RalphConfig { core: config.core, ..r })),
        r.core == (CoreConfig {
            scratchpad: ScratchpadConfig {
                path: r.core.scratchpad.path,
                ..config.core.scratchpad
            },
            specs_dir: r.core.specs_dir,
            workspace_root: r.core.workspace_root,
            ..config.core
        }),
        r.core.scratchpad.path@ == text_or(
            last_override(source_views(sources@), "core.scratchpad"@),
            config.core.scratchpad.path@,
        ),
        r.core.specs_dir@ == text_or(
            last_override(source_views(sources@), "core.specs_dir"@),
            config.core.specs_dir@,
        ),
        r.core.workspace_root@ == text_or(opt_text(current_dir), "."@),
{
    let mut r = config;
    r.normalize();
    r.core.workspace_root = match current_dir {
        Some(dir) => dir,
        None => ".".to_owned(),
    };
    let _ = apply_config_overrides(&mut r, sources);
    r
}

/// Parts overrides from other sources.
pub fn split_config_sources(sources: &Vec<ConfigSource>) -> (r: (
    Vec<ConfigSource>,
    Vec<ConfigSource>,
))
    ensures
        r.0@ == sources@.filter(|source: ConfigSource| !(source is Override)),
        r.1@ == sources@.filter(|source: ConfigSource| source is Override),
{
    let ghost keep = |source: ConfigSource| !(source is Override);
    let ghost part = |source: ConfigSource| source is Override;
    let mut primary: Vec<ConfigSource> = Vec::new();
    let mut overrides: Vec<ConfigSource> = Vec::new();
    let mut i: usize = 0;
    proof {
        reveal(Seq::filter);
        assert(sources@.take(0).filter(keep) == primary@);
        assert(sources@.take(0).filter(part) == overrides@);
    }
    while i < sources.len()
        invariant
            i <= sources.len(),
            keep == (|source: ConfigSource| !(source is Override)),
            part == (|source: ConfigSource| source is Override),
            primary@ == sources@.take(i as int).filter(keep),
            overrides@ == sources@.take(i as int).filter(part),
        decreases sources.len() - i,
    {
        proof {
            reveal(Seq::filter);
            assert(sources@.take(i + 1).drop_last() == sources@.take(i as int));
            assert(sources@.take(i + 1).last() == sources@[i as int]);
        }
        match &sources[i] {
            ConfigSource::Override { .. } => overrides.push(sources[i].clone()),
            _ => primary.push(sources[i].clone()),
        }
        i = i + 1;
    }
    assert(sources@.take(i as int) == sources@);
    (primary, overrides)
}

/// The first source that is no override.
pub open spec fn primary_source(sources: Seq<SourceView>) -> Option<SourceView> {
    first_of(
        sources.map_values(
            |source: SourceView|
                if source is Override {
                    None
                } else {
                    Some(source)
                },
        ),
    )
}

/// The file that a core configuration is loaded from.
#[derive(Debug)]
pub enum CoreFile {
    /// The file that a source names.
    Named(String),
    /// The default file.
    Default,
}

/// Why no core configuration can be loaded from a builtin preset.
pub open spec fn builtin_refusal(name: Seq<char>) -> Seq<char> {
    "`-c builtin:"@ + name
        + "` is no longer supported.\n\nBuiltin presets are now hat collections.\nUse:\n  ralph run -c ralph.yml -H builtin:"@
        + name
}

/// Why no core configuration can be loaded from a remote document.
pub open spec fn remote_refusal(url: Seq<char>) -> Seq<char> {
    "Remote core config sources are not supported for this command: "@ + url
}

/// The core file among sources, `None` where it is the usual one, or why there is none.
pub open spec fn core_file(sources: Seq<SourceView>) -> Result<Option<Seq<char>>, Seq<char>> {
    match primary_source(sources) {
        Some(SourceView::File(path)) => Ok(Some(path)),
        Some(SourceView::Builtin(name)) => Err(builtin_refusal(name)),
        Some(SourceView::Remote(url)) => Err(remote_refusal(url)),
        _ => Ok(None),
    }
}

/// Chooses the file that a core configuration is loaded from: that of the first source that is no
/// override, or the default one where there is none.
pub fn choose_core_file(sources: &Vec<ConfigSource>) -> (r: Result<CoreFile, String>)
    ensures
        match primary_source(source_views(sources@)) {
            Some(SourceView::File(path)) => r matches Ok(CoreFile::Named(file)) && file@ == path,
            Some(SourceView::Builtin(name)) => r matches Err(message) && message@
                == builtin_refusal(name),
            Some(SourceView::Remote(url)) => r matches Err(message) && message@ == remote_refusal(
                url,
            ),
            Some(SourceView::Override(_, _)) => false,
            None => r matches Ok(CoreFile::Default),
        },
        match r {
            Ok(CoreFile::Named(file)) => core_file(source_views(sources@)) == Ok::<
                Option<Seq<char>>,
                Seq<char>,
            >(Some(file@)),
            Ok(CoreFile::Default) => core_file(source_views(sources@)) == Ok::<
                Option<Seq<char>>,
                Seq<char>,
            >(None),
            Err(message) => core_file(source_views(sources@)) == Err::<
                Option<Seq<char>>,
                Seq<char>,
            >(message@),
        },
{
    let ghost hits = source_views(sources@).map_values(
        |source: SourceView|
            if source is Override {
                None
            } else {
                Some(source)
            },
    );
    let mut i: usize = 0;
    assert(hits.skip(0) == hits);
    while i < sources.len()
        invariant
            i <= sources.len(),
            hits == source_views(sources@).map_values(
                |source: SourceView|
                    if source is Override {
                        None
                    } else {
                        Some(source)
                    },
            ),
            primary_source(source_views(sources@)) == first_of(hits),
            first_of(hits) == first_of(hits.skip(i as int)),
        decreases sources.len() - i,
    {
        proof {
            lemma_first_of(hits, i as int);
        }
        match &sources[i] {
            ConfigSource::File(path) => {
                return Ok(CoreFile::Named(path.clone()));
            },
            ConfigSource::Builtin(name) => {
                let mut message = "`-c builtin:".to_owned();
                message.append(name.as_str());
                message.append(
                    "` is no longer supported.\n\nBuiltin presets are now hat collections.\nUse:\n  ralph run -c ralph.yml -H builtin:",
                );
                message.append(name.as_str());
                return Err(message);
            },
            ConfigSource::Remote(url) => {
                let mut message =
                    "Remote core config sources are not supported for this command: ".to_owned();
                message.append(url.as_str());
                return Err(message);
            },
            ConfigSource::Override { .. } => {},
        }
        i = i + 1;
    }
    Ok(CoreFile::Default)
}

/// The texts that name the sources of a configuration on a command line.
pub fn source_texts(sources: &Vec<ConfigSource>) -> (r: Vec<String>)
    ensures
        texts(r@) == source_views(sources@).map_values(|source: SourceView| source_text(source)),
{
    let mut r: Vec<String> = Vec::new();
    let mut i: usize = 0;
    while i < sources.len()
        invariant
            i <= sources.len(),
            r.len() == i,
            forall|j: int| 0 <= j < i ==> (#[trigger] r@[j])@ == source_text(sources@[j]@),
        decreases sources.len() - i,
    {
        r.push(sources[i].to_cli_string());
        i = i + 1;
    }
    assert(texts(r@) == source_views(sources@).map_values(
        |source: SourceView| source_text(source),
    ));
    r
}

} // verus!
