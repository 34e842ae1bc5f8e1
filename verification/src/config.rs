//! Where each Algolia setting comes from: the environment, a `.env` file,
//! or a value embedded at build time.

use vstd::prelude::*;
use vstd::string::*;

use crate::algolia::AlgoliaSearchConfig;
use crate::text::{chars_of, same_chars};

verus! {

/// What the environment holds for a setting.
#[derive(Clone, Debug, Eq, PartialEq)]
pub enum RuntimeValue {
    /// The variable is set to this value.
    Present(String),
    /// The variable is not set.
    NotPresent,
    /// The variable is set but is not valid Unicode.
    NotUnicode,
}

/// The sources of one setting, from the highest precedence down.
#[derive(Clone, Debug, Eq, PartialEq)]
pub struct SettingSources {
    /// The process environment.
    pub runtime: RuntimeValue,
    /// The `.env` file.
    pub dotenv: Option<String>,
    /// The value embedded at build time.
    pub embedded: Option<String>,
}

/// Why a setting has no usable value.
#[derive(Clone, Debug, Eq, PartialEq)]
pub enum ConfigError {
    /// The named setting was given as an empty value.
    Empty(String),
    /// The named environment variable is not valid Unicode.
    NotUnicode(String),
    /// The named setting is given by no source.
    Missing(String),
}

/// Why a setting has no usable value, as mathematical values.
pub enum ConfigFailure {
    Empty(Seq<char>),
    NotUnicode(Seq<char>),
    Missing(Seq<char>),
}

/// The message shown for a configuration failure.
pub open spec fn config_failure_message(f: ConfigFailure) -> Seq<char> {
    match f {
        ConfigFailure::Empty(name) => name + " must not be empty"@,
        ConfigFailure::NotUnicode(name) => name + " must contain valid Unicode"@,
        ConfigFailure::Missing(name) => name
            + " must be set in the environment, .env file, or embedded at build time"@,
    }
}

impl ConfigError {
    pub open spec fn failure(&self) -> ConfigFailure {
        match self {
            ConfigError::Empty(name) => ConfigFailure::Empty(name@),
            ConfigError::NotUnicode(name) => ConfigFailure::NotUnicode(name@),
            ConfigError::Missing(name) => ConfigFailure::Missing(name@),
        }
    }

    /// The message shown to the user for this error.
    pub fn message(&self) -> (res: String)
        ensures
            res@ == config_failure_message(self.failure()),
    {
        match self {
            ConfigError::Empty(name) => {
                let mut out = name.clone();
                out.append(" must not be empty");
                out
            },
            ConfigError::NotUnicode(name) => {
                let mut out = name.clone();
                out.append(" must contain valid Unicode");
                out
            },
            ConfigError::Missing(name) => {
                let mut out = name.clone();
                out.append(
                    " must be set in the environment, .env file, or embedded at build time",
                );
                out
            },
        }
    }
}

/// What the environment holds, as mathematical values.
pub enum RuntimeModel {
    Present(Seq<char>),
    NotPresent,
    NotUnicode,
}

impl RuntimeValue {
    pub open spec fn model(&self) -> RuntimeModel {
        match self {
            RuntimeValue::Present(v) => RuntimeModel::Present(v@),
            RuntimeValue::NotPresent => RuntimeModel::NotPresent,
            RuntimeValue::NotUnicode => RuntimeModel::NotUnicode,
        }
    }
}

/// The value of setting `name`: the environment wins, then the `.env`
/// file, then the embedded value. An empty value in the environment or the
/// `.env` file is an error rather than a reason to look further; an empty
/// embedded value counts as missing.
pub open spec fn setting_value(
    name: Seq<char>,
    runtime: RuntimeModel,
    dotenv: Option<Seq<char>>,
    embedded: Option<Seq<char>>,
) -> Result<Seq<char>, ConfigFailure> {
    match runtime {
        RuntimeModel::Present(v) => if v.len() == 0 {
            Err(ConfigFailure::Empty(name))
        } else {
            Ok(v)
        },
        RuntimeModel::NotUnicode => Err(ConfigFailure::NotUnicode(name)),
        RuntimeModel::NotPresent => match dotenv {
            Some(v) => if v.len() == 0 {
                Err(ConfigFailure::Empty(name))
            } else {
                Ok(v)
            },
            None => match embedded {
                Some(v) => if v.len() == 0 {
                    Err(ConfigFailure::Missing(name))
                } else {
                    Ok(v)
                },
                None => Err(ConfigFailure::Missing(name)),
            },
        },
    }
}

/// Precedence of the sources of a setting: a non-empty environment value
/// wins over everything; an empty one is rejected rather than replaced by a
/// `.env` or embedded value; without an environment value a non-empty
/// `.env` value wins over the embedded value.
pub proof fn lemma_setting_precedence(
    name: Seq<char>,
    runtime: Seq<char>,
    dotenv: Option<Seq<char>>,
    embedded: Option<Seq<char>>,
)
    ensures
        runtime.len() > 0 ==> setting_value(name, RuntimeModel::Present(runtime), dotenv, embedded)
            == Ok::<Seq<char>, ConfigFailure>(runtime),
        runtime.len() == 0 ==> setting_value(name, RuntimeModel::Present(runtime), dotenv, embedded)
            == Err::<Seq<char>, ConfigFailure>(ConfigFailure::Empty(name)),
        (dotenv matches Some(d) && d.len() > 0) ==> setting_value(
            name,
            RuntimeModel::NotPresent,
            dotenv,
            embedded,
        ) == Ok::<Seq<char>, ConfigFailure>(dotenv->0),
{
}

pub open spec fn str_opt_view(o: Option<&str>) -> Option<Seq<char>> {
    match o {
        Some(s) => Some(s@),
        None => None,
    }
}

/// Resolves setting `name` from its sources.
pub fn configuration_value(
    name: &str,
    runtime_value: RuntimeValue,
    dotenv_value: Option<&str>,
    embedded_value: Option<&str>,
) -> (res: Result<String, ConfigError>)
    ensures
        match res {
            Ok(v) => setting_value(
                name@,
                runtime_value.model(),
                str_opt_view(dotenv_value),
                str_opt_view(embedded_value),
            ) == Ok::<Seq<char>, ConfigFailure>(v@),
            Err(e) => setting_value(
                name@,
                runtime_value.model(),
                str_opt_view(dotenv_value),
                str_opt_view(embedded_value),
            ) == Err::<Seq<char>, ConfigFailure>(e.failure()),
        },
{
    match runtime_value {
        RuntimeValue::Present(value) => {
            if value.as_str().is_empty() {
                Err(ConfigError::Empty(name.to_owned()))
            } else {
                Ok(value)
            }
        },
        RuntimeValue::NotUnicode => Err(ConfigError::NotUnicode(name.to_owned())),
        RuntimeValue::NotPresent => match dotenv_value {
            Some(value) => {
                if value.is_empty() {
                    Err(ConfigError::Empty(name.to_owned()))
                } else {
                    Ok(value.to_owned())
                }
            },
            None => match embedded_value {
                Some(value) => {
                    if value.is_empty() {
                        Err(ConfigError::Missing(name.to_owned()))
                    } else {
                        Ok(value.to_owned())
                    }
                },
                None => Err(ConfigError::Missing(name.to_owned())),
            },
        },
    }
}

/// The value of the first entry named `key`: a `.env` file's later
/// assignments do not override earlier ones.
pub open spec fn first_value(entries: Seq<(Seq<char>, Seq<char>)>, key: Seq<char>) -> Option<
    Seq<char>,
>
    decreases entries.len(),
{
    if entries.len() == 0 {
        None
    } else if entries[0].0 == key {
        Some(entries[0].1)
    } else {
        first_value(entries.drop_first(), key)
    }
}

pub open spec fn entry_views(entries: Seq<(String, String)>) -> Seq<(Seq<char>, Seq<char>)> {
    entries.map_values(|e: (String, String)| (e.0@, e.1@))
}

/// Looks `key` up among the entries of a `.env` file, in file order.
pub fn dotenv_value<'a>(entries: &'a [(String, String)], key: &str) -> (res: Option<&'a str>)
    ensures
        str_opt_view(res) == first_value(entry_views(entries@), key@),
{
    let ghost views = entry_views(entries@);
    let wanted = chars_of(key);
    let mut k: usize = 0;
    assert(views.skip(0) =~= views);
    while k < entries.len()
        invariant
            k <= entries@.len(),
            views == entry_views(entries@),
            wanted@ == key@,
            first_value(views, key@) == first_value(views.skip(k as int), key@),
        decreases entries.len() - k,
    {
        assert(views.skip(k as int).drop_first() =~= views.skip(k + 1));
        assert(views.skip(k as int)[0] == views[k as int]);
        if same_chars(chars_of(entries[k].0.as_str()).as_slice(), wanted.as_slice()) {
            return Some(entries[k].1.as_str());
        }
        k = k + 1;
    }
    None
}

/// The configuration for the three Algolia settings.
pub open spec fn search_config_spec(
    application_id: SettingSources,
    api_key: SettingSources,
    index_name: SettingSources,
) -> Result<(Seq<char>, Seq<char>, Seq<char>), ConfigFailure> {
    match setting_value(
        "ALGOLIA_APPLICATION_ID"@,
        application_id.runtime.model(),
        opt_string_view(application_id.dotenv),
        opt_string_view(application_id.embedded),
    ) {
        Err(e) => Err(e),
        Ok(a) => match setting_value(
            "ALGOLIA_SEARCH_ONLY_API_KEY"@,
            api_key.runtime.model(),
            opt_string_view(api_key.dotenv),
            opt_string_view(api_key.embedded),
        ) {
            Err(e) => Err(e),
            Ok(k) => match setting_value(
                "ALGOLIA_SEARCH_INDEX"@,
                index_name.runtime.model(),
                opt_string_view(index_name.dotenv),
                opt_string_view(index_name.embedded),
            ) {
                Err(e) => Err(e),
                Ok(i) => Ok((a, k, i)),
            },
        },
    }
}

pub open spec fn opt_string_view(o: Option<String>) -> Option<Seq<char>> {
    match o {
        Some(s) => Some(s@),
        None => None,
    }
}

fn as_opt_str(o: &Option<String>) -> (res: Option<&str>)
    ensures
        str_opt_view(res) == opt_string_view(*o),
{
    match o {
        Some(s) => Some(s.as_str()),
        None => None,
    }
}

/// Resolves one named setting from its sources.
fn resolve(name: &str, sources: &SettingSources) -> (res: Result<String, ConfigError>)
    ensures
        match res {
            Ok(v) => setting_value(
                name@,
                sources.runtime.model(),
                opt_string_view(sources.dotenv),
                opt_string_view(sources.embedded),
            ) == Ok::<Seq<char>, ConfigFailure>(v@),
            Err(e) => setting_value(
                name@,
                sources.runtime.model(),
                opt_string_view(sources.dotenv),
                opt_string_view(sources.embedded),
            ) == Err::<Seq<char>, ConfigFailure>(e.failure()),
        },
{
    let runtime = match &sources.runtime {
        RuntimeValue::Present(v) => RuntimeValue::Present(v.clone()),
        RuntimeValue::NotPresent => RuntimeValue::NotPresent,
        RuntimeValue::NotUnicode => RuntimeValue::NotUnicode,
    };
    configuration_value(name, runtime, as_opt_str(&sources.dotenv), as_opt_str(&sources.embedded))
}

/// Builds the Algolia configuration from the sources of its three
/// settings; the first setting without a usable value decides the error.
pub fn algolia_search_config(
    application_id: &SettingSources,
    api_key: &SettingSources,
    index_name: &SettingSources,
) -> (res: Result<AlgoliaSearchConfig, ConfigError>)
    ensures
        match res {
            Ok(c) => search_config_spec(*application_id, *api_key, *index_name) == Ok::<
                (Seq<char>, Seq<char>, Seq<char>),
                ConfigFailure,
            >((c.application_id@, c.api_key@, c.index_name@)),
            Err(e) => search_config_spec(*application_id, *api_key, *index_name) == Err::<
                (Seq<char>, Seq<char>, Seq<char>),
                ConfigFailure,
            >(e.failure()),
        },
{
    let application = match resolve("ALGOLIA_APPLICATION_ID", application_id) {
        Ok(v) => v,
        Err(e) => return Err(e),
    };
    let key = match resolve("ALGOLIA_SEARCH_ONLY_API_KEY", api_key) {
        Ok(v) => v,
        Err(e) => return Err(e),
    };
    let index = match resolve("ALGOLIA_SEARCH_INDEX", index_name) {
        Ok(v) => v,
        Err(e) => return Err(e),
    };
    Ok(AlgoliaSearchConfig { application_id: application, api_key: key, index_name: index })
}

} // verus!
