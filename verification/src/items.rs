//! Alfred result items built from search results.

use vstd::prelude::*;
use vstd::string::*;

use crate::html::{decode_html_text, decoded_html};
use crate::models::{ResultError, ResultFailure, SearchResult, level_of_type};
use crate::text::{chars_of, join_chars, join_with, string_from_chars};
use crate::urls::{UrlError, parse_with_query_pair, url_with_query_pair};

verus! {

/// Copy and large-type text of an item.
#[derive(Clone, Debug, Eq, PartialEq)]
pub struct ItemText {
    /// Text copied by Alfred.
    pub copy: String,
    /// Text shown in large type.
    pub large_type: Option<String>,
}

/// An Alfred Script Filter result item.
#[derive(Clone, Debug, Eq, PartialEq)]
pub struct AlfredItem {
    /// Item title.
    pub title: String,
    /// Optional subtitle.
    pub subtitle: Option<String>,
    /// Optional Alfred result UID.
    pub uid: Option<String>,
    /// Optional argument passed on when the item is actioned.
    pub arg: Option<String>,
    /// Optional copy and large-type text.
    pub text: Option<ItemText>,
    /// Optional Quick Look URL.
    pub quick_look_url: Option<String>,
    /// Optional text Alfred matches the query against.
    pub match_text: Option<String>,
    /// Optional icon path.
    pub icon: Option<String>,
    /// Whether the item can be actioned.
    pub valid: bool,
}

/// Item text as mathematical values.
pub struct TextModel {
    pub copy: Seq<char>,
    pub large_type: Option<Seq<char>>,
}

/// An item as mathematical values.
pub struct ItemModel {
    pub title: Seq<char>,
    pub subtitle: Option<Seq<char>>,
    pub uid: Option<Seq<char>>,
    pub arg: Option<Seq<char>>,
    pub text: Option<TextModel>,
    pub quick_look_url: Option<Seq<char>>,
    pub match_text: Option<Seq<char>>,
    pub icon: Option<Seq<char>>,
    pub valid: bool,
}

pub open spec fn opt_view(o: Option<String>) -> Option<Seq<char>> {
    match o {
        Some(s) => Some(s@),
        None => None,
    }
}

impl ItemText {
    pub open spec fn model(&self) -> TextModel {
        TextModel { copy: self.copy@, large_type: opt_view(self.large_type) }
    }
}

impl AlfredItem {
    pub open spec fn model(&self) -> ItemModel {
        ItemModel {
            title: self.title@,
            subtitle: opt_view(self.subtitle),
            uid: opt_view(self.uid),
            arg: opt_view(self.arg),
            text: match self.text {
                Some(t) => Some(t.model()),
                None => None,
            },
            quick_look_url: opt_view(self.quick_look_url),
            match_text: opt_view(self.match_text),
            icon: opt_view(self.icon),
            valid: self.valid,
        }
    }

    /// Returns the item title.
    pub fn title(&self) -> (res: &str)
        ensures
            res@ == self.title@,
    {
        self.title.as_str()
    }

    /// Returns the optional subtitle.
    pub fn subtitle(&self) -> (res: Option<&str>)
        ensures
            opt_str_view(res) == opt_view(self.subtitle),
    {
        as_opt_str(&self.subtitle)
    }

    /// Returns the optional Alfred result UID.
    pub fn uid(&self) -> (res: Option<&str>)
        ensures
            opt_str_view(res) == opt_view(self.uid),
    {
        as_opt_str(&self.uid)
    }

    /// Returns the optional argument.
    pub fn arg(&self) -> (res: Option<&str>)
        ensures
            opt_str_view(res) == opt_view(self.arg),
    {
        as_opt_str(&self.arg)
    }

    /// Returns the optional Quick Look URL.
    pub fn quick_look_url(&self) -> (res: Option<&str>)
        ensures
            opt_str_view(res) == opt_view(self.quick_look_url),
    {
        as_opt_str(&self.quick_look_url)
    }

    /// Returns whether the item can be actioned.
    pub fn valid(&self) -> (res: bool)
        ensures
            res == self.valid,
    {
        self.valid
    }
}

pub open spec fn opt_str_view(o: Option<&str>) -> Option<Seq<char>> {
    match o {
        Some(s) => Some(s@),
        None => None,
    }
}

fn as_opt_str(o: &Option<String>) -> (res: Option<&str>)
    ensures
        opt_str_view(res) == opt_view(*o),
{
    match o {
        Some(s) => Some(s.as_str()),
        None => None,
    }
}

/// The item shown before the user enters a search query: a title and the
/// workflow icon, and it cannot be actioned.
pub open spec fn placeholder_model() -> ItemModel {
    ItemModel {
        title: "Search the Tailwind CSS docs..."@,
        subtitle: None,
        uid: None,
        arg: None,
        text: None,
        quick_look_url: None,
        match_text: None,
        icon: Some("icon.png"@),
        valid: false,
    }
}

/// Builds the placeholder shown before the user enters a search query.
pub fn placeholder_item() -> (res: AlfredItem)
    ensures
        res.model() == placeholder_model(),
{
    AlfredItem {
        title: "Search the Tailwind CSS docs...".to_owned(),
        subtitle: None,
        uid: None,
        arg: None,
        text: None,
        quick_look_url: None,
        match_text: None,
        icon: Some("icon.png".to_owned()),
        valid: false,
    }
}

/// The breadcrumb of a result: its hierarchy values joined by ` > `, with
/// HTML references decoded.
pub open spec fn breadcrumb(r: SearchResult) -> Seq<char> {
    decoded_html(join_with(r.hierarchy.values_spec(), " > "@))
}

/// The item for a result: titled by the hierarchy value at the result's
/// level, identified by its object id, opening and quick-looking its URL;
/// results below the root level get their breadcrumb as subtitle.
pub open spec fn result_item(r: SearchResult) -> Result<ItemModel, ResultFailure> {
    match level_of_type(r.result_type@) {
        None => Err(ResultFailure::InvalidResultType(r.result_type@)),
        Some(level) => match r.hierarchy.level_spec(level as int) {
            None => Err(ResultFailure::MissingHierarchyLevel(r.object_id@, level)),
            Some(title) => Ok(
                ItemModel {
                    title,
                    subtitle: if level > 0 {
                        Some(breadcrumb(r))
                    } else {
                        None
                    },
                    uid: Some(r.object_id@),
                    arg: Some(r.url@),
                    text: Some(TextModel { copy: r.url@, large_type: Some(title) }),
                    quick_look_url: Some(r.url@),
                    match_text: None,
                    icon: Some("icon.png"@),
                    valid: true,
                },
            ),
        },
    }
}

/// The items for results in order, or the failure of the first result that
/// cannot be shown.
pub open spec fn result_items(rs: Seq<SearchResult>) -> Result<Seq<ItemModel>, ResultFailure>
    decreases rs.len(),
{
    if rs.len() == 0 {
        Ok(Seq::empty())
    } else {
        match result_items(rs.drop_last()) {
            Err(e) => Err(e),
            Ok(items) => match result_item(rs.last()) {
                Ok(item) => Ok(items.push(item)),
                Err(e) => Err(e),
            },
        }
    }
}

/// Items follow the results in provider order: when every result can be
/// shown there is one item per result, and the item at each position is
/// the item of the result at that position.
pub proof fn lemma_items_follow_results(rs: Seq<SearchResult>)
    ensures
        result_items(rs) matches Ok(items) ==> items.len() == rs.len() && forall|i: int|
            0 <= i < rs.len() ==> result_item(#[trigger] rs[i]) == Ok::<ItemModel, ResultFailure>(
                items[i],
            ),
    decreases rs.len(),
{
    if rs.len() > 0 {
        let rest = rs.drop_last();
        lemma_items_follow_results(rest);
        if let Ok(items) = result_items(rs) {
            assert forall|i: int| 0 <= i < rs.len() implies result_item(#[trigger] rs[i]) == Ok::<
                ItemModel,
                ResultFailure,
            >(items[i]) by {
                if i < rs.len() - 1 {
                    assert(rs[i] == rest[i]);
                }
            }
        }
    }
}

/// Only the root level of a result goes without a breadcrumb: an item has a
/// subtitle exactly when its result's level is above zero.
pub proof fn lemma_breadcrumb_below_root(r: SearchResult)
    ensures
        result_item(r) matches Ok(item) ==> (item.subtitle is Some <==> level_of_type(
            r.result_type@,
        ) != Some(0nat)),
{
}

/// An item for a result opens the result's documentation page: its
/// argument, its Quick Look URL and its copy text are the result's URL,
/// and it can be actioned.
pub proof fn lemma_item_opens_result_url(r: SearchResult)
    ensures
        result_item(r) matches Ok(item) ==> item.arg == Some(r.url@) && item.quick_look_url
            == Some(r.url@) && (item.text matches Some(t) && t.copy == r.url@) && item.valid,
{
}

/// An item shows its result's own level: it is titled by the hierarchy
/// value at the level the result type names, shows that value in large
/// type, is identified by the result's object id, and below the root level
/// carries as subtitle the populated hierarchy values joined by ` > ` with
/// HTML references decoded. A result type that names no level, or a level
/// that holds no value, is refused with the type, or with the object id and
/// the level.
pub proof fn lemma_item_shows_result_level(r: SearchResult)
    ensures
        level_of_type(r.result_type@) is None ==> result_item(r) == Err::<ItemModel, ResultFailure>(
            ResultFailure::InvalidResultType(r.result_type@),
        ),
        level_of_type(r.result_type@) matches Some(level) ==> (r.hierarchy.level_spec(
            level as int,
        ) is None ==> result_item(r) == Err::<ItemModel, ResultFailure>(
            ResultFailure::MissingHierarchyLevel(r.object_id@, level),
        )),
        level_of_type(r.result_type@) matches Some(level) ==> (r.hierarchy.level_spec(
            level as int,
        ) matches Some(title) ==> (result_item(r) matches Ok(item) && item.title == title
            && item.uid == Some(r.object_id@) && (item.text matches Some(t) && t.large_type
            == Some(title)) && item.subtitle == (if level > 0 {
            Some(decoded_html(join_with(r.hierarchy.values_spec(), " > "@)))
        } else {
            None::<Seq<char>>
        }))),
{
}

/// The models of a list of items.
pub open spec fn item_models(items: Seq<AlfredItem>) -> Seq<ItemModel> {
    items.map_values(|i: AlfredItem| i.model())
}

/// Builds the item for one search result.
pub fn item_from_result(result: &SearchResult) -> (res: Result<AlfredItem, ResultError>)
    ensures
        match res {
            Ok(item) => result_item(*result) == Ok::<ItemModel, ResultFailure>(item.model()),
            Err(e) => result_item(*result) == Err::<ItemModel, ResultFailure>(e.failure()),
        },
{
    let level = match result.hierarchy_level() {
        Ok(level) => level,
        Err(e) => return Err(e),
    };
    let title = match result.hierarchy.level(level) {
        Some(title) => title,
        None => {
            return Err(ResultError::MissingHierarchyLevel(result.object_id.clone(), level));
        },
    };
    let subtitle = if level > 0 {
        let values = result.hierarchy.values();
        let ghost value_views = values@.map_values(|s: &str| s@);
        let mut words: Vec<Vec<char>> = Vec::new();
        let mut k: usize = 0;
        while k < values.len()
            invariant
                k <= values.len(),
                value_views == values@.map_values(|s: &str| s@),
                words@.map_values(|w: Vec<char>| w@) == value_views.take(k as int),
            decreases values.len() - k,
        {
            let ghost before = words@.map_values(|w: Vec<char>| w@);
            words.push(chars_of(values[k]));
            assert(words@.map_values(|w: Vec<char>| w@) =~= before.push(value_views[k as int]));
            assert(value_views.take(k + 1) =~= value_views.take(k as int).push(
                value_views[k as int],
            ));
            k = k + 1;
        }
        assert(value_views.take(values.len() as int) =~= value_views);
        let joined = join_chars(&words, chars_of(" > ").as_slice());
        let joined_text = string_from_chars(joined.as_slice());
        Some(decode_html_text(joined_text.as_str()))
    } else {
        None
    };
    Ok(
        AlfredItem {
            title: title.to_owned(),
            subtitle,
            uid: Some(result.object_id.clone()),
            arg: Some(result.url.clone()),
            text: Some(ItemText { copy: result.url.clone(), large_type: Some(title.to_owned()) }),
            quick_look_url: Some(result.url.clone()),
            match_text: None,
            icon: Some("icon.png".to_owned()),
            valid: true,
        },
    )
}

/// A failure among the first results is the failure of every longer list.
pub proof fn lemma_result_items_failure_persists(rs: Seq<SearchResult>, k: int, m: int)
    requires
        0 <= k <= m <= rs.len(),
        result_items(rs.take(k)) is Err,
    ensures
        result_items(rs.take(m)) == result_items(rs.take(k)),
    decreases m - k,
{
    if m > k {
        lemma_result_items_failure_persists(rs, k, m - 1);
        assert(rs.take(m).drop_last() =~= rs.take(m - 1));
    }
}

/// Converts ranked Tailwind search results into Alfred items in provider
/// order; the first result that cannot be shown decides the error.
pub fn items_from_results(results: &[SearchResult]) -> (res: Result<Vec<AlfredItem>, ResultError>)
    ensures
        match res {
            Ok(items) => result_items(results@) == Ok::<Seq<ItemModel>, ResultFailure>(
                item_models(items@),
            ),
            Err(e) => result_items(results@) == Err::<Seq<ItemModel>, ResultFailure>(e.failure()),
        },
{
    let mut items: Vec<AlfredItem> = Vec::new();
    let mut k: usize = 0;
    assert(item_models(items@) =~= Seq::<ItemModel>::empty());
    assert(results@.take(0) =~= Seq::<SearchResult>::empty());
    while k < results.len()
        invariant
            k <= results.len(),
            result_items(results@.take(k as int)) == Ok::<Seq<ItemModel>, ResultFailure>(
                item_models(items@),
            ),
        decreases results.len() - k,
    {
        assert(results@.take(k + 1).drop_last() =~= results@.take(k as int));
        assert(results@.take(k + 1).last() == results@[k as int]);
        match item_from_result(&results[k]) {
            Ok(item) => {
                let ghost before = item_models(items@);
                items.push(item);
                assert(item_models(items@) =~= before.push(item.model()));
            },
            Err(e) => {
                proof {
                    lemma_result_items_failure_persists(results@, k + 1, results@.len() as int);
                    assert(results@.take(results@.len() as int) =~= results@);
                }
                return Err(e);
            },
        }
        k = k + 1;
    }
    assert(results@.take(results@.len() as int) =~= results@);
    Ok(items)
}


/// The Google search URL for a workflow query: `Tailwind CSS ` and the
/// query as the `q` parameter of `https://www.google.com/search`.
pub open spec fn google_search_url(query: Seq<char>) -> Option<Seq<char>> {
    url_with_query_pair("https://www.google.com/search"@, "q"@, "Tailwind CSS "@ + query)
}

/// The item offered when Algolia has no hits: it searches Google for the
/// query and can be actioned.
pub open spec fn fallback_model(url: Seq<char>) -> ItemModel {
    ItemModel {
        title: "No matching answers found"@,
        subtitle: Some("Shall I try and search Google?"@),
        uid: None,
        arg: Some(url),
        text: Some(TextModel { copy: url, large_type: None }),
        quick_look_url: Some(url),
        match_text: None,
        icon: Some("google.png"@),
        valid: true,
    }
}

/// Builds the Google fallback shown when Algolia returns no hits.
pub fn google_fallback_item(query: &str) -> (res: Result<AlfredItem, UrlError>)
    ensures
        match res {
            Ok(item) => google_search_url(query@) matches Some(url) && item.model()
                == fallback_model(url),
            Err(_) => google_search_url(query@) is None,
        },
{
    let mut value = "Tailwind CSS ".to_owned();
    value.append(query);
    let url = match parse_with_query_pair("https://www.google.com/search", "q", value.as_str()) {
        Ok(url) => url,
        Err(cause) => return Err(UrlError { cause }),
    };
    Ok(
        AlfredItem {
            title: "No matching answers found".to_owned(),
            subtitle: Some("Shall I try and search Google?".to_owned()),
            uid: None,
            arg: Some(url.clone()),
            text: Some(ItemText { copy: url.clone(), large_type: None }),
            quick_look_url: Some(url.clone()),
            match_text: None,
            icon: Some("google.png".to_owned()),
            valid: true,
        },
    )
}

} // verus!
