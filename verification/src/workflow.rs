//! Workflow settings, caching, and the items a run shows.

use vstd::prelude::*;
use vstd::string::*;

use crate::cli::{Cli, normalized_query_spec};
use crate::items::{
    AlfredItem, ItemModel, fallback_model, google_fallback_item, google_search_url,
    item_models, items_from_results, placeholder_item, placeholder_model, result_items,
};
use crate::models::{ResultError, ResultFailure, SearchResult};
use crate::text::{chars_of, same_chars};
use crate::urls::UrlError;

verus! {

/// A user configuration value of the workflow, by kind.
#[derive(Clone, Debug, Eq, PartialEq)]
pub enum UserDefault {
    /// A popup selection.
    Select(String),
    /// A check box.
    CheckBox(bool),
    /// A number slider.
    NumberSlider(i64),
    /// Any other kind of field.
    Other,
}

/// A user configuration value, as mathematical values.
pub enum DefaultModel {
    Select(Seq<char>),
    CheckBox(bool),
    NumberSlider(i64),
    Other,
}

impl UserDefault {
    pub open spec fn model(&self) -> DefaultModel {
        match self {
            UserDefault::Select(s) => DefaultModel::Select(s@),
            UserDefault::CheckBox(b) => DefaultModel::CheckBox(*b),
            UserDefault::NumberSlider(v) => DefaultModel::NumberSlider(*v),
            UserDefault::Other => DefaultModel::Other,
        }
    }
}

/// Settings of one workflow run.
#[derive(Clone, Debug, Eq, PartialEq)]
pub struct WorkflowSettings {
    /// Tailwind CSS version whose documentation is searched.
    pub tailwind_version: String,
    /// Whether Alfred's own result cache is used.
    pub use_alfred_cache: bool,
    /// Whether results are cached in files.
    pub use_file_cache: bool,
    /// Cache lifetime in seconds.
    pub cache_ttl: Option<u64>,
    /// Largest number of entries in the file cache.
    pub file_cache_max_entries: Option<usize>,
}

/// Why the settings cannot be read.
#[derive(Clone, Debug, Eq, PartialEq)]
pub enum SettingsError {
    /// The Tailwind version is not selected.
    VersionNotSet,
}

impl SettingsError {
    /// The message shown to the user for this error.
    pub fn message(&self) -> (res: String)
        ensures
            res@ == "tailwind_version not set!"@,
    {
        "tailwind_version not set!".to_owned()
    }
}

/// The configuration named `variable`: the first entry with that name.
pub open spec fn lookup(defaults: Seq<(Seq<char>, DefaultModel)>, variable: Seq<char>) -> Option<
    DefaultModel,
>
    decreases defaults.len(),
{
    if defaults.len() == 0 {
        None
    } else if defaults[0].0 == variable {
        Some(defaults[0].1)
    } else {
        lookup(defaults.drop_first(), variable)
    }
}

pub open spec fn default_views(defaults: Seq<(String, UserDefault)>) -> Seq<
    (Seq<char>, DefaultModel),
> {
    defaults.map_values(|e: (String, UserDefault)| (e.0@, e.1.model()))
}

/// The value of a selection named `variable`, if there is one.
pub open spec fn select_spec(defaults: Seq<(Seq<char>, DefaultModel)>, variable: Seq<char>) -> Option<
    Seq<char>,
> {
    match lookup(defaults, variable) {
        Some(DefaultModel::Select(v)) => Some(v),
        _ => None,
    }
}

/// The value of a check box named `variable`, if there is one.
pub open spec fn checkbox_spec(defaults: Seq<(Seq<char>, DefaultModel)>, variable: Seq<char>) -> Option<
    bool,
> {
    match lookup(defaults, variable) {
        Some(DefaultModel::CheckBox(v)) => Some(v),
        _ => None,
    }
}

/// The value of a number slider named `variable`, if there is one.
pub open spec fn slider_spec(defaults: Seq<(Seq<char>, DefaultModel)>, variable: Seq<char>) -> Option<
    i64,
> {
    match lookup(defaults, variable) {
        Some(DefaultModel::NumberSlider(v)) => Some(v),
        _ => None,
    }
}

/// Finds the first configuration named `variable`.
fn find_default<'a>(defaults: &'a [(String, UserDefault)], variable: &str) -> (res: Option<
    &'a UserDefault,
>)
    ensures
        match res {
            Some(d) => lookup(default_views(defaults@), variable@) == Some(d.model()),
            None => lookup(default_views(defaults@), variable@) is None,
        },
{
    let ghost views = default_views(defaults@);
    let wanted = chars_of(variable);
    let mut k: usize = 0;
    assert(views.skip(0) =~= views);
    while k < defaults.len()
        invariant
            k <= defaults@.len(),
            views == default_views(defaults@),
            wanted@ == variable@,
            lookup(views, variable@) == lookup(views.skip(k as int), variable@),
        decreases defaults.len() - k,
    {
        assert(views.skip(k as int).drop_first() =~= views.skip(k + 1));
        assert(views.skip(k as int)[0] == views[k as int]);
        if same_chars(chars_of(defaults[k].0.as_str()).as_slice(), wanted.as_slice()) {
            return Some(&defaults[k].1);
        }
        k = k + 1;
    }
    None
}

/// Returns the value of the selection named `variable`.
pub fn select_value<'a>(defaults: &'a [(String, UserDefault)], variable: &str) -> (res: Option<
    &'a str,
>)
    ensures
        match res {
            Some(v) => select_spec(default_views(defaults@), variable@) == Some(v@),
            None => select_spec(default_views(defaults@), variable@) is None,
        },
{
    match find_default(defaults, variable) {
        Some(UserDefault::Select(value)) => Some(value.as_str()),
        _ => None,
    }
}

/// Returns the value of the check box named `variable`.
pub fn checkbox_value(defaults: &[(String, UserDefault)], variable: &str) -> (res: Option<bool>)
    ensures
        res == checkbox_spec(default_views(defaults@), variable@),
{
    match find_default(defaults, variable) {
        Some(UserDefault::CheckBox(value)) => Some(*value),
        _ => None,
    }
}

/// Returns the value of the number slider named `variable`.
pub fn slider_value(defaults: &[(String, UserDefault)], variable: &str) -> (res: Option<i64>)
    ensures
        res == slider_spec(default_views(defaults@), variable@),
{
    match find_default(defaults, variable) {
        Some(UserDefault::NumberSlider(value)) => Some(*value),
        _ => None,
    }
}

/// The settings as mathematical values.
pub struct SettingsModel {
    pub tailwind_version: Seq<char>,
    pub use_alfred_cache: bool,
    pub use_file_cache: bool,
    pub cache_ttl: Option<u64>,
    pub file_cache_max_entries: Option<usize>,
}

impl WorkflowSettings {
    pub open spec fn model(&self) -> SettingsModel {
        SettingsModel {
            tailwind_version: self.tailwind_version@,
            use_alfred_cache: self.use_alfred_cache,
            use_file_cache: self.use_file_cache,
            cache_ttl: self.cache_ttl,
            file_cache_max_entries: self.file_cache_max_entries,
        }
    }
}

/// A slider value as a number of seconds, when it is not negative.
pub open spec fn nonnegative_u64(v: Option<i64>) -> Option<u64> {
    match v {
        Some(x) => if x >= 0 {
            Some(x as u64)
        } else {
            None
        },
        None => None,
    }
}

/// A slider value as a count, when it is not negative and fits a `usize`.
pub open spec fn nonnegative_usize(v: Option<i64>) -> Option<usize> {
    match v {
        Some(x) => if x >= 0 && x <= usize::MAX {
            Some(x as usize)
        } else {
            None
        },
        None => None,
    }
}

/// The settings that the user configuration denotes: the selected Tailwind
/// version is required; unset check boxes are off; negative or oversized
/// slider values count as unset.
pub open spec fn settings_spec(defaults: Seq<(Seq<char>, DefaultModel)>) -> Option<SettingsModel> {
    match select_spec(defaults, "tailwind_version"@) {
        None => None,
        Some(version) => Some(
            SettingsModel {
                tailwind_version: version,
                use_alfred_cache: match checkbox_spec(defaults, "use_alfred_cache"@) {
                    Some(b) => b,
                    None => false,
                },
                use_file_cache: match checkbox_spec(defaults, "use_file_cache"@) {
                    Some(b) => b,
                    None => false,
                },
                cache_ttl: nonnegative_u64(slider_spec(defaults, "cache_ttl"@)),
                file_cache_max_entries: nonnegative_usize(
                    slider_spec(defaults, "file_cache_max_entries"@),
                ),
            },
        ),
    }
}

/// Reads the workflow settings from the user configuration.
pub fn workflow_settings_from_defaults(defaults: &[(String, UserDefault)]) -> (res: Result<
    WorkflowSettings,
    SettingsError,
>)
    ensures
        match res {
            Ok(s) => settings_spec(default_views(defaults@)) == Some(s.model()),
            Err(_) => settings_spec(default_views(defaults@)) is None,
        },
{
    let version = match select_value(defaults, "tailwind_version") {
        Some(v) => v,
        None => return Err(SettingsError::VersionNotSet),
    };
    let use_alfred_cache = match checkbox_value(defaults, "use_alfred_cache") {
        Some(b) => b,
        None => false,
    };
    let use_file_cache = match checkbox_value(defaults, "use_file_cache") {
        Some(b) => b,
        None => false,
    };
    let cache_ttl = match slider_value(defaults, "cache_ttl") {
        Some(v) => if v >= 0 {
            Some(v as u64)
        } else {
            None
        },
        None => None,
    };
    let file_cache_max_entries = match slider_value(defaults, "file_cache_max_entries") {
        Some(v) => if v >= 0 && (v as u64) <= (usize::MAX as u64) {
            Some(v as usize)
        } else {
            None
        },
        None => None,
    };
    Ok(
        WorkflowSettings {
            tailwind_version: version.to_owned(),
            use_alfred_cache,
            use_file_cache,
            cache_ttl,
            file_cache_max_entries,
        },
    )
}

/// The file cache key of a query: the normalized query, `_`, and the
/// Tailwind version, so that each version has its own entries.
pub fn file_cache_key(query: &str, tailwind_version: &str) -> (res: String)
    ensures
        res@ == query@ + "_"@ + tailwind_version@,
{
    let mut key = query.to_owned();
    key.append("_");
    key.append(tailwind_version);
    key
}

/// File cache entries are version specific: the same query under two
/// different Tailwind versions has two different keys.
pub proof fn lemma_file_cache_keys_differ_by_version(query: Seq<char>, v1: Seq<char>, v2: Seq<char>)
    requires
        v1 != v2,
    ensures
        query + "_"@ + v1 != query + "_"@ + v2,
{
    let prefix = query + "_"@;
    if prefix + v1 == prefix + v2 {
        assert(v1 =~= (prefix + v1).skip(prefix.len() as int));
        assert(v2 =~= (prefix + v2).skip(prefix.len() as int));
    }
}

/// How results are cached in files.
#[derive(Clone, Debug, Eq, PartialEq)]
pub struct FileCachePlan {
    /// The cache key.
    pub key: String,
    /// Largest number of cache entries.
    pub max_entries: Option<usize>,
}

/// How a run caches its results.
#[derive(Clone, Debug, Eq, PartialEq)]
pub struct CachePlan {
    /// Whether Alfred's own cache is switched on.
    pub use_automatic_cache: bool,
    /// The file cache to use, if any.
    pub file_cache: Option<FileCachePlan>,
    /// Cache lifetime in seconds.
    pub time_to_live: Option<u64>,
}

/// How a run caches: Alfred's cache when enabled (it wins over the file
/// cache); otherwise the file cache for a non-empty query when enabled.
pub open spec fn cache_plan_spec(query: Seq<char>, settings: SettingsModel) -> (
    bool,
    Option<(Seq<char>, Option<usize>)>,
    Option<u64>,
) {
    if settings.use_alfred_cache {
        (true, None, settings.cache_ttl)
    } else if settings.use_file_cache && query.len() > 0 {
        (
            false,
            Some(
                (
                    query + "_"@ + settings.tailwind_version,
                    settings.file_cache_max_entries,
                ),
            ),
            settings.cache_ttl,
        )
    } else {
        (false, None, settings.cache_ttl)
    }
}

/// Alfred's own cache wins when both cache modes are enabled, and an empty
/// query never gets a file cache entry.
pub proof fn lemma_cache_plan_rules(query: Seq<char>, settings: SettingsModel)
    ensures
        settings.use_alfred_cache ==> cache_plan_spec(query, settings).0 && cache_plan_spec(
            query,
            settings,
        ).1 is None,
        query.len() == 0 ==> cache_plan_spec(query, settings).1 is None,
        cache_plan_spec(query, settings).2 == settings.cache_ttl,
{
}

impl CachePlan {
    pub open spec fn model(&self) -> (bool, Option<(Seq<char>, Option<usize>)>, Option<u64>) {
        (
            self.use_automatic_cache,
            match self.file_cache {
                Some(f) => Some((f.key@, f.max_entries)),
                None => None,
            },
            self.time_to_live,
        )
    }
}

/// Decides how a run with the normalized `query` caches its results.
pub fn cache_plan(query: &str, settings: &WorkflowSettings) -> (res: CachePlan)
    ensures
        res.model() == cache_plan_spec(query@, settings.model()),
{
    if settings.use_alfred_cache {
        CachePlan {
            use_automatic_cache: true,
            file_cache: None,
            time_to_live: settings.cache_ttl,
        }
    } else if settings.use_file_cache && !query.is_empty() {
        CachePlan {
            use_automatic_cache: false,
            file_cache: Some(
                FileCachePlan {
                    key: file_cache_key(query, settings.tailwind_version.as_str()),
                    max_entries: settings.file_cache_max_entries,
                },
            ),
            time_to_live: settings.cache_ttl,
        }
    } else {
        CachePlan { use_automatic_cache: false, file_cache: None, time_to_live: settings.cache_ttl }
    }
}

/// The start of a run: the normalized query and how results are cached.
#[derive(Clone, Debug, Eq, PartialEq)]
pub struct PopulationStart {
    /// The normalized query.
    pub query: String,
    /// How results are cached.
    pub cache: CachePlan,
}

/// Starts a run for the command line and settings.
pub fn population_start(cli: &Cli, settings: &WorkflowSettings) -> (res: PopulationStart)
    ensures
        res.query@ == normalized_query_spec(cli.query@, settings.tailwind_version@),
        res.cache.model() == cache_plan_spec(res.query@, settings.model()),
{
    let query = cli.normalized_query(settings.tailwind_version.as_str());
    let cache = cache_plan(query.as_str(), settings);
    PopulationStart { query, cache }
}

/// What a run does next, once its cache is set up.
#[derive(Clone, Debug, Eq, PartialEq)]
pub enum PopulationAction {
    /// Show this item and make no search.
    Show(AlfredItem),
    /// Count the items the cache already holds for the query, then decide
    /// again with that count.
    CheckCache,
    /// The cache holds the items; make no search.
    KeepCached,
    /// Search once for `query` in Tailwind version `version`; the results
    /// become the items of `items_for_search`.
    Search { query: String, version: String },
}

/// What a run does next, as mathematical values.
pub enum ActionModel {
    Show(ItemModel),
    CheckCache,
    KeepCached,
    Search(Seq<char>, Seq<char>),
}

impl PopulationAction {
    pub open spec fn model(&self) -> ActionModel {
        match self {
            PopulationAction::Show(item) => ActionModel::Show(item.model()),
            PopulationAction::CheckCache => ActionModel::CheckCache,
            PopulationAction::KeepCached => ActionModel::KeepCached,
            PopulationAction::Search { query, version } => ActionModel::Search(query@, version@),
        }
    }
}

/// The next action for a normalized `query` and Tailwind `version`, given
/// how many items the cache holds once that has been counted: an empty
/// query shows the placeholder without looking at the cache; otherwise the
/// cache is counted first, a cache that holds items is kept, and an empty
/// one leads to one search for the query in the version.
pub open spec fn planned_action(query: Seq<char>, version: Seq<char>, cached: Option<usize>) -> ActionModel {
    if query.len() == 0 {
        ActionModel::Show(placeholder_model())
    } else {
        match cached {
            None => ActionModel::CheckCache,
            Some(n) => if n > 0 {
                ActionModel::KeepCached
            } else {
                ActionModel::Search(query, version)
            },
        }
    }
}

/// Decides what a run does next for the normalized `query`.
pub fn population_action(query: &str, version: &str, cached_item_count: Option<usize>) -> (res:
    PopulationAction)
    ensures
        res.model() == planned_action(query@, version@, cached_item_count),
{
    if query.is_empty() {
        return PopulationAction::Show(placeholder_item());
    }
    match cached_item_count {
        None => PopulationAction::CheckCache,
        Some(n) => if n > 0 {
            PopulationAction::KeepCached
        } else {
            PopulationAction::Search { query: query.to_owned(), version: version.to_owned() }
        },
    }
}

/// A run searches only when needed, and then for the right thing: for the
/// normalized query of a command line, an empty query shows the placeholder
/// and never searches nor reads the cache; a non-empty query searches,
/// once, for exactly that query in the selected version when the cache
/// holds no items, and keeps the cached items otherwise.
pub proof fn lemma_search_only_when_needed(
    cli_query: Seq<char>,
    version: Seq<char>,
    cached: Option<usize>,
)
    ensures
        ({
            let q = normalized_query_spec(cli_query, version);
            &&& q.len() == 0 ==> planned_action(q, version, cached) == ActionModel::Show(
                placeholder_model(),
            )
            &&& q.len() > 0 && cached == Some(0usize) ==> planned_action(q, version, cached)
                == ActionModel::Search(q, version)
            &&& (planned_action(q, version, cached) matches ActionModel::Search(sq, sv) ==> sq
                == q && sv == version && q.len() > 0 && cached == Some(0usize))
        }),
{
}

/// Why the items for a search cannot be built.
#[derive(Debug)]
pub enum ItemsError {
    /// A search result cannot be shown.
    Result(ResultError),
    /// The fallback URL could not be built.
    Url(UrlError),
}

/// The items for the results of a search: the Google fallback when there
/// are none, else one item per result in order.
pub fn items_for_search(query: &str, results: &[SearchResult]) -> (res: Result<
    Vec<AlfredItem>,
    ItemsError,
>)
    ensures
        results@.len() == 0 ==> match res {
            Ok(items) => google_search_url(query@) matches Some(url) && item_models(items@)
                == seq![fallback_model(url)],
            Err(e) => google_search_url(query@) is None && e is Url,
        },
        results@.len() > 0 ==> match res {
            Ok(items) => result_items(results@) == Ok::<Seq<ItemModel>, ResultFailure>(
                item_models(items@),
            ),
            Err(e) => e matches ItemsError::Result(r) && result_items(results@) == Err::<
                Seq<ItemModel>,
                ResultFailure,
            >(r.failure()),
        },
{
    if results.len() == 0 {
        match google_fallback_item(query) {
            Ok(item) => {
                let mut items: Vec<AlfredItem> = Vec::new();
                items.push(item);
                assert(item_models(items@) =~= seq![item.model()]);
                Ok(items)
            },
            Err(e) => Err(ItemsError::Url(e)),
        }
    } else {
        match items_from_results(results) {
            Ok(items) => Ok(items),
            Err(e) => Err(ItemsError::Result(e)),
        }
    }
}

/// The item offering an update of the workflow.
pub open spec fn update_model() -> ItemModel {
    ItemModel {
        title: "Auto-Update available!"@,
        subtitle: Some("Press <enter> to auto-update to a new version of this workflow."@),
        uid: None,
        arg: Some("update:workflow"@),
        text: None,
        quick_look_url: None,
        match_text: Some(
            "Auto-Update available! Press <enter> to auto-update to a new version of this workflow."@,
        ),
        icon: Some("alfredhatcog.png"@),
        valid: true,
    }
}

/// Builds the item offering an update of the workflow.
pub fn update_item() -> (res: AlfredItem)
    ensures
        res.model() == update_model(),
{
    AlfredItem {
        title: "Auto-Update available!".to_owned(),
        subtitle: Some("Press <enter> to auto-update to a new version of this workflow.".to_owned()),
        uid: None,
        arg: Some("update:workflow".to_owned()),
        text: None,
        quick_look_url: None,
        match_text: Some(
            "Auto-Update available! Press <enter> to auto-update to a new version of this workflow.".to_owned(),
        ),
        icon: Some("alfredhatcog.png".to_owned()),
        valid: true,
    }
}

/// The item put first in the output after the update check: the update
/// item when an update is known to be available; nothing when there is
/// none or the check failed (`None`).
pub fn update_notice(update_available: Option<bool>) -> (res: Option<AlfredItem>)
    ensures
        update_available == Some(true) ==> (res matches Some(item) && item.model()
            == update_model()),
        update_available != Some(true) ==> res is None,
{
    match update_available {
        Some(true) => Some(update_item()),
        _ => None,
    }
}

} // verus!
