//! Decisions of the Algolia search client: configuration checks, read
//! hosts, endpoints, the request, and failover between hosts.

use vstd::prelude::*;
use vstd::string::*;

use crate::text::{decimal, decimal_string, join_with};
use crate::urls::{append_path_segments, parse_url, parsed_url, url_with_path_segments};

verus! {

/// Largest response body, in bytes, that the client accepts.
pub const MAX_RESPONSE_BYTES: u64 = 2097152;

/// Configuration required to query the Tailwind CSS Algolia index.
#[derive(Clone, Debug, Eq, PartialEq)]
pub struct AlgoliaSearchConfig {
    /// Algolia application identifier.
    pub application_id: String,
    /// Search-only Algolia API key.
    pub api_key: String,
    /// Algolia index name.
    pub index_name: String,
}

/// Why a search client cannot be set up.
#[derive(Clone, Debug, Eq, PartialEq)]
pub enum SetupError {
    /// The named setting is empty.
    EmptySetting(String),
    /// A read host URL did not parse.
    InvalidHost(String),
    /// The client was given no read host.
    NoReadHosts,
}

/// Why a search client cannot be set up, as mathematical values.
pub enum SetupFailure {
    EmptySetting(Seq<char>),
    InvalidHost(Seq<char>),
    NoReadHosts,
}

/// The message shown for a setup failure.
pub open spec fn setup_failure_message(f: SetupFailure) -> Seq<char> {
    match f {
        SetupFailure::EmptySetting(name) => name + " must not be empty"@,
        SetupFailure::InvalidHost(host) => "invalid Algolia host "@ + host,
        SetupFailure::NoReadHosts => "Algolia read hosts must not be empty"@,
    }
}

impl SetupError {
    pub open spec fn failure(&self) -> SetupFailure {
        match self {
            SetupError::EmptySetting(name) => SetupFailure::EmptySetting(name@),
            SetupError::InvalidHost(host) => SetupFailure::InvalidHost(host@),
            SetupError::NoReadHosts => SetupFailure::NoReadHosts,
        }
    }

    /// The message shown to the user for this error.
    pub fn message(&self) -> (res: String)
        ensures
            res@ == setup_failure_message(self.failure()),
    {
        match self {
            SetupError::EmptySetting(name) => {
                let mut out = name.clone();
                out.append(" must not be empty");
                out
            },
            SetupError::InvalidHost(host) => {
                let mut out = "invalid Algolia host ".to_owned();
                out.append(host.as_str());
                out
            },
            SetupError::NoReadHosts => "Algolia read hosts must not be empty".to_owned(),
        }
    }
}

/// The first empty setting of a configuration, in the order application
/// id, API key, index name.
pub open spec fn config_check(config: AlgoliaSearchConfig) -> Option<SetupFailure> {
    if config.application_id@.len() == 0 {
        Some(SetupFailure::EmptySetting("ALGOLIA_APPLICATION_ID"@))
    } else if config.api_key@.len() == 0 {
        Some(SetupFailure::EmptySetting("ALGOLIA_SEARCH_ONLY_API_KEY"@))
    } else if config.index_name@.len() == 0 {
        Some(SetupFailure::EmptySetting("ALGOLIA_SEARCH_INDEX"@))
    } else {
        None
    }
}

/// Rejects a configuration with an empty setting.
pub fn validate_config(config: &AlgoliaSearchConfig) -> (res: Result<(), SetupError>)
    ensures
        match res {
            Ok(()) => config_check(*config) is None,
            Err(e) => config_check(*config) == Some(e.failure()),
        },
{
    if config.application_id.as_str().is_empty() {
        return Err(SetupError::EmptySetting("ALGOLIA_APPLICATION_ID".to_owned()));
    }
    if config.api_key.as_str().is_empty() {
        return Err(SetupError::EmptySetting("ALGOLIA_SEARCH_ONLY_API_KEY".to_owned()));
    }
    if config.index_name.as_str().is_empty() {
        return Err(SetupError::EmptySetting("ALGOLIA_SEARCH_INDEX".to_owned()));
    }
    Ok(())
}

/// The first problem of a client made of `config` and `host_count` read
/// hosts: an empty setting, else the lack of read hosts.
pub open spec fn client_check(config: AlgoliaSearchConfig, host_count: nat) -> Option<SetupFailure> {
    match config_check(config) {
        Some(f) => Some(f),
        None => if host_count == 0 {
            Some(SetupFailure::NoReadHosts)
        } else {
            None
        },
    }
}

/// Checks what a client is made of: a valid configuration and at least
/// one read host.
pub fn validate_client(config: &AlgoliaSearchConfig, read_hosts: &[String]) -> (res: Result<
    (),
    SetupError,
>)
    ensures
        match res {
            Ok(()) => client_check(*config, read_hosts@.len()) is None,
            Err(e) => client_check(*config, read_hosts@.len()) == Some(e.failure()),
        },
{
    match validate_config(config) {
        Ok(()) => {},
        Err(e) => return Err(e),
    }
    if read_hosts.len() == 0 {
        return Err(SetupError::NoReadHosts);
    }
    Ok(())
}

/// The read host URLs of an application, in the order they are tried: the
/// distributed search network first, then the numbered hosts.
pub open spec fn host_candidates(application_id: Seq<char>) -> Seq<Seq<char>> {
    seq![
        "https://"@ + application_id + "-dsn.algolia.net/"@,
        "https://"@ + application_id + "-1.algolianet.com/"@,
        "https://"@ + application_id + "-2.algolianet.com/"@,
        "https://"@ + application_id + "-3.algolianet.com/"@,
    ]
}

/// The parsed read hosts from the `k` first candidates, or the first
/// candidate that does not parse.
pub open spec fn parsed_hosts(candidates: Seq<Seq<char>>) -> Result<Seq<Seq<char>>, SetupFailure>
    decreases candidates.len(),
{
    if candidates.len() == 0 {
        Ok(Seq::empty())
    } else {
        match parsed_hosts(candidates.drop_last()) {
            Err(e) => Err(e),
            Ok(hosts) => match parsed_url(candidates.last()) {
                Some(u) => Ok(hosts.push(u)),
                None => Err(SetupFailure::InvalidHost(candidates.last())),
            },
        }
    }
}

proof fn lemma_parsed_hosts_failure_persists(c: Seq<Seq<char>>, k: int, m: int)
    requires
        0 <= k <= m <= c.len(),
        parsed_hosts(c.take(k)) is Err,
    ensures
        parsed_hosts(c.take(m)) == parsed_hosts(c.take(k)),
    decreases m - k,
{
    if m > k {
        lemma_parsed_hosts_failure_persists(c, k, m - 1);
        assert(c.take(m).drop_last() =~= c.take(m - 1));
    }
}

/// Builds and parses the read host URLs of an application.
pub fn read_hosts(application_id: &str) -> (res: Result<Vec<String>, SetupError>)
    ensures
        match res {
            Ok(hosts) => parsed_hosts(host_candidates(application_id@)) == Ok::<
                Seq<Seq<char>>,
                SetupFailure,
            >(hosts@.map_values(|h: String| h@)),
            Err(e) => parsed_hosts(host_candidates(application_id@)) == Err::<
                Seq<Seq<char>>,
                SetupFailure,
            >(e.failure()),
        },
{
    let mut candidates: Vec<String> = Vec::new();
    let mut dsn = "https://".to_owned();
    dsn.append(application_id);
    dsn.append("-dsn.algolia.net/");
    candidates.push(dsn);
    let mut first = "https://".to_owned();
    first.append(application_id);
    first.append("-1.algolianet.com/");
    candidates.push(first);
    let mut second = "https://".to_owned();
    second.append(application_id);
    second.append("-2.algolianet.com/");
    candidates.push(second);
    let mut third = "https://".to_owned();
    third.append(application_id);
    third.append("-3.algolianet.com/");
    candidates.push(third);
    let ghost c = host_candidates(application_id@);
    assert(candidates@.map_values(|h: String| h@) =~= c);
    let mut hosts: Vec<String> = Vec::new();
    let mut k: usize = 0;
    assert(hosts@.map_values(|h: String| h@) =~= Seq::<Seq<char>>::empty());
    assert(c.take(0) =~= Seq::<Seq<char>>::empty());
    while k < candidates.len()
        invariant
            k <= candidates.len(),
            c == candidates@.map_values(|h: String| h@),
            c == host_candidates(application_id@),
            c.len() == 4,
            parsed_hosts(c.take(k as int)) == Ok::<Seq<Seq<char>>, SetupFailure>(
                hosts@.map_values(|h: String| h@),
            ),
        decreases candidates.len() - k,
    {
        assert(c.take(k + 1).drop_last() =~= c.take(k as int));
        assert(c.take(k + 1).last() == c[k as int]);
        match parse_url(candidates[k].as_str()) {
            Ok(host) => {
                let ghost before = hosts@.map_values(|h: String| h@);
                hosts.push(host);
                assert(hosts@.map_values(|h: String| h@) =~= before.push(host@));
            },
            Err(_) => {
                proof {
                    assert(parsed_hosts(c.take(k + 1)) == Err::<Seq<Seq<char>>, SetupFailure>(
                        SetupFailure::InvalidHost(c[k as int]),
                    ));
                    lemma_parsed_hosts_failure_persists(c, k + 1, 4);
                    assert(c.take(4) =~= c);
                }
                return Err(SetupError::InvalidHost(candidates[k].clone()));
            },
        }
        k = k + 1;
    }
    assert(c.take(4) =~= c);
    Ok(hosts)
}

/// The read hosts of a client for `config`: the configuration must have
/// no empty setting, then every read host of its application must parse.
pub fn client_read_hosts(config: &AlgoliaSearchConfig) -> (res: Result<Vec<String>, SetupError>)
    ensures
        match res {
            Ok(hosts) => config_check(*config) is None && parsed_hosts(
                host_candidates(config.application_id@),
            ) == Ok::<Seq<Seq<char>>, SetupFailure>(string_views(hosts@)) && hosts@.len() == 4,
            Err(e) => match config_check(*config) {
                Some(f) => e.failure() == f,
                None => parsed_hosts(host_candidates(config.application_id@)) == Err::<
                    Seq<Seq<char>>,
                    SetupFailure,
                >(e.failure()),
            },
        },
{
    match validate_config(config) {
        Ok(()) => {},
        Err(e) => return Err(e),
    }
    let hosts = match read_hosts(config.application_id.as_str()) {
        Ok(hosts) => hosts,
        Err(e) => return Err(e),
    };
    proof {
        lemma_parsed_hosts_length(host_candidates(config.application_id@));
    }
    assert(string_views(hosts@) == hosts@.map_values(|h: String| h@));
    Ok(hosts)
}

proof fn lemma_parsed_hosts_length(c: Seq<Seq<char>>)
    ensures
        parsed_hosts(c) matches Ok(hosts) ==> hosts.len() == c.len(),
    decreases c.len(),
{
    if c.len() > 0 {
        lemma_parsed_hosts_length(c.drop_last());
    }
}

/// The single-index search route under a read host.
pub open spec fn endpoint_segments(index_name: Seq<char>) -> Seq<Seq<char>> {
    seq!["1"@, "indexes"@, index_name, "query"@]
}

/// The search endpoint of `index_name` under the read host `base`.
pub fn endpoint(base: &str, index_name: &str) -> (res: Option<String>)
    ensures
        match res {
            Some(u) => url_with_path_segments(base@, endpoint_segments(index_name@)) == Some(u@),
            None => url_with_path_segments(base@, endpoint_segments(index_name@)) is None,
        },
{
    let mut segments: Vec<String> = Vec::new();
    segments.push("1".to_owned());
    segments.push("indexes".to_owned());
    segments.push(index_name.to_owned());
    segments.push("query".to_owned());
    assert(segments@.map_values(|s: String| s@) =~= endpoint_segments(index_name@));
    append_path_segments(base, segments.as_slice())
}

/// The body of a search request before it is written as JSON.
#[derive(Clone, Debug, Eq, PartialEq)]
pub struct SearchRequest {
    /// The normalized query.
    pub query: String,
    /// Facet filters; the only one selects the Tailwind version.
    pub facet_filters: Vec<String>,
    /// Attributes returned for each hit.
    pub attributes_to_retrieve: Vec<String>,
    /// Attributes returned as snippets, with their word counts.
    pub attributes_to_snippet: Vec<String>,
    /// Text that marks a cut in a snippet.
    pub snippet_ellipsis_text: String,
    /// Deduplication level.
    pub distinct: u8,
    /// Result page.
    pub page: u8,
    /// Hits per page.
    pub hits_per_page: u8,
}

pub open spec fn string_views(v: Seq<String>) -> Seq<Seq<char>> {
    v.map_values(|s: String| s@)
}

/// The attributes the workflow reads from each hit.
pub open spec fn retrieved_attributes() -> Seq<Seq<char>> {
    seq![
        "hierarchy.lvl0"@,
        "hierarchy.lvl1"@,
        "hierarchy.lvl2"@,
        "hierarchy.lvl3"@,
        "hierarchy.lvl4"@,
        "hierarchy.lvl5"@,
        "hierarchy.lvl6"@,
        "content"@,
        "type"@,
        "url"@,
    ]
}

/// The snippeted attributes, ten words each.
pub open spec fn snippet_attributes() -> Seq<Seq<char>> {
    seq![
        "hierarchy.lvl1:10"@,
        "hierarchy.lvl2:10"@,
        "hierarchy.lvl3:10"@,
        "hierarchy.lvl4:10"@,
        "hierarchy.lvl5:10"@,
        "hierarchy.lvl6:10"@,
        "content:10"@,
    ]
}

impl SearchRequest {
    /// The request for `query` restricted to Tailwind `version`: the first
    /// page of at most twenty distinct hits.
    pub fn new(query: &str, version: &str) -> (res: SearchRequest)
        ensures
            res.query@ == query@,
            string_views(res.facet_filters@) == seq!["version:"@ + version@],
            string_views(res.attributes_to_retrieve@) == retrieved_attributes(),
            string_views(res.attributes_to_snippet@) == snippet_attributes(),
            res.snippet_ellipsis_text@ == "..."@,
            res.distinct == 1,
            res.page == 0,
            res.hits_per_page == 20,
    {
        let mut filter = "version:".to_owned();
        filter.append(version);
        let mut facet_filters: Vec<String> = Vec::new();
        facet_filters.push(filter);
        assert(string_views(facet_filters@) =~= seq!["version:"@ + version@]);
        let mut retrieve: Vec<String> = Vec::new();
        retrieve.push("hierarchy.lvl0".to_owned());
        retrieve.push("hierarchy.lvl1".to_owned());
        retrieve.push("hierarchy.lvl2".to_owned());
        retrieve.push("hierarchy.lvl3".to_owned());
        retrieve.push("hierarchy.lvl4".to_owned());
        retrieve.push("hierarchy.lvl5".to_owned());
        retrieve.push("hierarchy.lvl6".to_owned());
        retrieve.push("content".to_owned());
        retrieve.push("type".to_owned());
        retrieve.push("url".to_owned());
        assert(string_views(retrieve@) =~= retrieved_attributes());
        let mut snippet: Vec<String> = Vec::new();
        snippet.push("hierarchy.lvl1:10".to_owned());
        snippet.push("hierarchy.lvl2:10".to_owned());
        snippet.push("hierarchy.lvl3:10".to_owned());
        snippet.push("hierarchy.lvl4:10".to_owned());
        snippet.push("hierarchy.lvl5:10".to_owned());
        snippet.push("hierarchy.lvl6:10".to_owned());
        snippet.push("content:10".to_owned());
        assert(string_views(snippet@) =~= snippet_attributes());
        SearchRequest {
            query: query.to_owned(),
            facet_filters,
            attributes_to_retrieve: retrieve,
            attributes_to_snippet: snippet,
            snippet_ellipsis_text: "...".to_owned(),
            distinct: 1,
            page: 0,
            hits_per_page: 20,
        }
    }
}


/// How one request to a read host failed.
#[derive(Clone, Debug, Eq, PartialEq)]
pub enum AttemptFailure {
    /// The next read host may succeed.
    Retryable(String),
    /// No read host will do better; the query fails with this message.
    Terminal(String),
}

/// The kinds of transport error that the HTTP client reports.
#[derive(Clone, Copy, Debug, Eq, PartialEq)]
pub enum TransportErrorKind {
    /// A timeout expired.
    Timeout,
    /// An I/O error.
    Io,
    /// The peer broke the HTTP protocol.
    Protocol,
    /// The host name did not resolve.
    HostNotFound,
    /// No connection could be made.
    ConnectionFailed,
    /// Any other error, such as a body over its size limit.
    Other,
}

/// Transport errors after which another read host is tried.
pub open spec fn is_retryable_transport(kind: TransportErrorKind) -> bool {
    match kind {
        TransportErrorKind::Other => false,
        _ => true,
    }
}

/// A failed attempt as mathematical values.
pub enum FailureModel {
    Retryable(Seq<char>),
    Terminal(Seq<char>),
}

impl AttemptFailure {
    pub open spec fn model(&self) -> FailureModel {
        match self {
            AttemptFailure::Retryable(m) => FailureModel::Retryable(m@),
            AttemptFailure::Terminal(m) => FailureModel::Terminal(m@),
        }
    }
}

/// A failure with `message`, retryable exactly when `retryable`.
pub open spec fn failure_of(retryable: bool, message: Seq<char>) -> FailureModel {
    if retryable {
        FailureModel::Retryable(message)
    } else {
        FailureModel::Terminal(message)
    }
}

/// Classifies a transport error of the `phase` (such as `send`) of a
/// request to `endpoint`; `detail` is the client's description of it.
pub fn classify_transport_error(
    endpoint: &str,
    phase: &str,
    kind: TransportErrorKind,
    detail: &str,
) -> (res: AttemptFailure)
    ensures
        res.model() == failure_of(
            is_retryable_transport(kind),
            "Algolia "@ + phase@ + " failed for "@ + endpoint@ + ": "@ + detail@,
        ),
{
    let mut message = "Algolia ".to_owned();
    message.append(phase);
    message.append(" failed for ");
    message.append(endpoint);
    message.append(": ");
    message.append(detail);
    match kind {
        TransportErrorKind::Other => AttemptFailure::Terminal(message),
        _ => AttemptFailure::Retryable(message),
    }
}

/// The retry policy for transport errors: a timeout, an I/O error, a broken
/// protocol, an unknown host and a failed connection send the query on to
/// the next read host; any other error ends it. The message names the
/// phase and the endpoint and carries the client's description.
pub proof fn lemma_transport_retry_policy(
    endpoint: Seq<char>,
    phase: Seq<char>,
    kind: TransportErrorKind,
    detail: Seq<char>,
)
    ensures
        ({
            let m = "Algolia "@ + phase + " failed for "@ + endpoint + ": "@ + detail;
            &&& (kind is Timeout || kind is Io || kind is Protocol || kind is HostNotFound
                || kind is ConnectionFailed) ==> failure_of(is_retryable_transport(kind), m)
                == FailureModel::Retryable(m)
            &&& kind is Other ==> failure_of(is_retryable_transport(kind), m)
                == FailureModel::Terminal(m)
        }),
{
}

/// What to do with a complete HTTP response.
#[derive(Clone, Debug, Eq, PartialEq)]
pub enum ResponseDisposition {
    /// A successful response within the size limit: read its hits.
    Deserialize,
    /// The request failed.
    Failed(AttemptFailure),
}

/// What to do with a response, as mathematical values.
pub enum DispositionModel {
    Deserialize,
    Failed(FailureModel),
}

impl ResponseDisposition {
    pub open spec fn model(&self) -> DispositionModel {
        match self {
            ResponseDisposition::Deserialize => DispositionModel::Deserialize,
            ResponseDisposition::Failed(f) => DispositionModel::Failed(f.model()),
        }
    }
}

/// Whether a status is a server error.
pub open spec fn is_server_error(status: u16) -> bool {
    500 <= status <= 599
}

/// The decision on a response with `status` and `body`, whose UTF-8
/// encoding is `body_len` bytes long, from `endpoint`.
pub open spec fn response_disposition(
    endpoint: Seq<char>,
    status: u16,
    body: Seq<char>,
    body_len: nat,
) -> DispositionModel {
    if body_len > MAX_RESPONSE_BYTES {
        DispositionModel::Failed(
            failure_of(
                is_server_error(status),
                "Algolia response body from "@ + endpoint + " exceeds "@ + decimal(
                    MAX_RESPONSE_BYTES as nat,
                ) + " bytes"@,
            ),
        )
    } else if 200 <= status <= 299 {
        DispositionModel::Deserialize
    } else {
        DispositionModel::Failed(
            failure_of(
                is_server_error(status),
                "Algolia request to "@ + endpoint + " failed with HTTP status "@ + decimal(
                    status as nat,
                ) + ": "@ + body,
            ),
        )
    }
}

/// Decides on a response with `status` and `body` from `endpoint`. A body
/// over `MAX_RESPONSE_BYTES` bytes fails, retryably only for a server
/// error; a success status is read; a client error fails terminally, a
/// server error retryably, any other status terminally.
pub fn classify_response(endpoint: &str, status: u16, body: &str) -> (res: ResponseDisposition)
    ensures
        res.model() == response_disposition(endpoint@, status, body@, body.len() as nat),
{
    if body.len() as u64 > MAX_RESPONSE_BYTES {
        let mut message = "Algolia response body from ".to_owned();
        message.append(endpoint);
        message.append(" exceeds ");
        let limit = decimal_string(MAX_RESPONSE_BYTES);
        message.append(limit.as_str());
        message.append(" bytes");
        if 500 <= status && status <= 599 {
            return ResponseDisposition::Failed(AttemptFailure::Retryable(message));
        } else {
            return ResponseDisposition::Failed(AttemptFailure::Terminal(message));
        }
    }
    if 200 <= status && status <= 299 {
        return ResponseDisposition::Deserialize;
    }
    let mut message = "Algolia request to ".to_owned();
    message.append(endpoint);
    message.append(" failed with HTTP status ");
    let code = decimal_string(status as u64);
    message.append(code.as_str());
    message.append(": ");
    message.append(body);
    if 500 <= status && status <= 599 {
        ResponseDisposition::Failed(AttemptFailure::Retryable(message))
    } else {
        ResponseDisposition::Failed(AttemptFailure::Terminal(message))
    }
}

/// The retry policy for responses, by status range: a response within the
/// size limit is read when its status is a success (200 to 299), fails
/// retryably for a server error (500 to 599) so the next read host is
/// tried, and fails terminally for a client error (400 to 499); an
/// oversized response is retried exactly when its status is a server error.
/// A failure's message names the endpoint and the status, and carries the
/// body.
pub proof fn lemma_response_retry_policy(
    endpoint: Seq<char>,
    status: u16,
    body: Seq<char>,
    body_len: nat,
)
    ensures
        body_len <= MAX_RESPONSE_BYTES && 200 <= status <= 299 ==> response_disposition(
            endpoint,
            status,
            body,
            body_len,
        ) == DispositionModel::Deserialize,
        body_len <= MAX_RESPONSE_BYTES && 500 <= status <= 599 ==> response_disposition(
            endpoint,
            status,
            body,
            body_len,
        ) == DispositionModel::Failed(
            FailureModel::Retryable(
                "Algolia request to "@ + endpoint + " failed with HTTP status "@ + decimal(
                    status as nat,
                ) + ": "@ + body,
            ),
        ),
        body_len <= MAX_RESPONSE_BYTES && 400 <= status <= 499 ==> response_disposition(
            endpoint,
            status,
            body,
            body_len,
        ) == DispositionModel::Failed(
            FailureModel::Terminal(
                "Algolia request to "@ + endpoint + " failed with HTTP status "@ + decimal(
                    status as nat,
                ) + ": "@ + body,
            ),
        ),
        body_len > MAX_RESPONSE_BYTES ==> (response_disposition(
            endpoint,
            status,
            body,
            body_len,
        ) matches DispositionModel::Failed(f) && (f is Retryable <==> 500 <= status <= 599)),
{
}

/// The failure for a successful response whose body is not a search
/// response; `detail` describes the decoding error. It is terminal.
pub fn deserialize_failure(endpoint: &str, detail: &str) -> (res: AttemptFailure)
    ensures
        res.model() == FailureModel::Terminal(
            "failed to deserialize Algolia response from "@ + endpoint@ + ": "@ + detail@,
        ),
{
    let mut message = "failed to deserialize Algolia response from ".to_owned();
    message.append(endpoint);
    message.append(": ");
    message.append(detail);
    AttemptFailure::Terminal(message)
}

/// The message of a query that no read host answered: the failures of the
/// hosts tried, or a timeout when none was tried.
pub open spec fn exhausted_message(failures: Seq<Seq<char>>) -> Seq<char> {
    if failures.len() == 0 {
        "Algolia request timed out before a read host could be tried"@
    } else {
        "Algolia request failed after trying "@ + decimal(failures.len()) + " read hosts: "@
            + join_with(failures, "; "@)
    }
}

/// The next step of a query, as mathematical values.
pub enum StepModel {
    Attempt(Seq<char>),
    Fail(Seq<char>),
}

impl FailoverStep {
    pub open spec fn model(&self) -> StepModel {
        match self {
            FailoverStep::Attempt(e) => StepModel::Attempt(e@),
            FailoverStep::Fail(m) => StepModel::Fail(m@),
        }
    }
}

/// The next step after the retryable `failures`, with `hosts` read hosts
/// for `index_name`: while a host is left and time remains, the search
/// endpoint of the next host in order; otherwise the exhausted message.
pub open spec fn next_step_spec(
    hosts: Seq<Seq<char>>,
    index_name: Seq<char>,
    failures: Seq<Seq<char>>,
    time_remaining: bool,
) -> StepModel {
    if failures.len() < hosts.len() && time_remaining {
        match url_with_path_segments(hosts[failures.len() as int], endpoint_segments(index_name)) {
            Some(e) => StepModel::Attempt(e),
            None => StepModel::Fail("failed to construct Algolia endpoint"@),
        }
    } else {
        StepModel::Fail(exhausted_message(failures))
    }
}

/// A query that every read host failed retryably ends with a message that
/// counts the hosts and lists each failure, in host order.
pub proof fn lemma_all_hosts_failed(
    hosts: Seq<Seq<char>>,
    index_name: Seq<char>,
    failures: Seq<Seq<char>>,
    time_remaining: bool,
)
    requires
        failures.len() == hosts.len(),
        hosts.len() > 0,
    ensures
        next_step_spec(hosts, index_name, failures, time_remaining) == StepModel::Fail(
            "Algolia request failed after trying "@ + decimal(hosts.len()) + " read hosts: "@
                + join_with(failures, "; "@),
        ),
{
}

/// What a request to one read host gave, as mathematical values.
pub enum AnswerModel {
    /// The host returned search hits.
    Hits,
    /// The request failed.
    Failed(FailureModel),
}

/// How a query ends, as mathematical values.
pub enum RunOutcome {
    /// The hits of the host that answered.
    Hits,
    /// The query fails with this message.
    Failed(Seq<char>),
}

/// A query driven by `Failover` from the retryable `failures` so far:
/// before attempt `j`, `time[j]` says whether time remains, and
/// `answers[j]` is what the attempted host gives. A retryable failure is
/// recorded and the next step taken; hits or a terminal failure end the
/// query. The result is the endpoints attempted, in order, and the outcome.
pub open spec fn run_from(
    hosts: Seq<Seq<char>>,
    index_name: Seq<char>,
    time: Seq<bool>,
    answers: Seq<AnswerModel>,
    failures: Seq<Seq<char>>,
) -> (Seq<Seq<char>>, RunOutcome)
    decreases hosts.len() - failures.len(),
{
    let j = failures.len() as int;
    match next_step_spec(hosts, index_name, failures, time[j]) {
        StepModel::Fail(m) => (Seq::empty(), RunOutcome::Failed(m)),
        StepModel::Attempt(e) => if j < hosts.len() {
            match answers[j] {
                AnswerModel::Hits => (seq![e], RunOutcome::Hits),
                AnswerModel::Failed(FailureModel::Terminal(m)) => (seq![e], RunOutcome::Failed(m)),
                AnswerModel::Failed(FailureModel::Retryable(m)) => {
                    let rest = run_from(hosts, index_name, time, answers, failures.push(m));
                    (seq![e] + rest.0, rest.1)
                },
            }
        } else {
            (Seq::empty(), RunOutcome::Failed(Seq::empty()))
        },
    }
}

/// A whole query, from no failures.
pub open spec fn query_run(
    hosts: Seq<Seq<char>>,
    index_name: Seq<char>,
    time: Seq<bool>,
    answers: Seq<AnswerModel>,
) -> (Seq<Seq<char>>, RunOutcome) {
    run_from(hosts, index_name, time, answers, Seq::empty())
}

/// The search endpoint under host `i`, if it has one.
pub open spec fn host_endpoint(hosts: Seq<Seq<char>>, index_name: Seq<char>, i: int) -> Option<
    Seq<char>,
> {
    url_with_path_segments(hosts[i], endpoint_segments(index_name))
}

/// Whether the query stops at host `i`: no time is left, the host has no
/// endpoint, or its answer is not a retryable failure.
pub open spec fn stops_at(
    hosts: Seq<Seq<char>>,
    index_name: Seq<char>,
    time: Seq<bool>,
    answers: Seq<AnswerModel>,
    i: int,
) -> bool {
    ||| !time[i]
    ||| host_endpoint(hosts, index_name, i) is None
    ||| !(answers[i] matches AnswerModel::Failed(FailureModel::Retryable(_)))
}

/// The first host from `from` on at which the query stops, or the number of
/// hosts when it stops at none.
pub open spec fn first_stop(
    hosts: Seq<Seq<char>>,
    index_name: Seq<char>,
    time: Seq<bool>,
    answers: Seq<AnswerModel>,
    from: int,
) -> int
    decreases hosts.len() - from,
{
    if from < 0 || from >= hosts.len() {
        hosts.len() as int
    } else if stops_at(hosts, index_name, time, answers, from) {
        from
    } else {
        first_stop(hosts, index_name, time, answers, from + 1)
    }
}

/// The messages of the first `k` answers, all retryable failures.
pub open spec fn retry_messages(answers: Seq<AnswerModel>, k: int) -> Seq<Seq<char>> {
    Seq::new(
        k as nat,
        |i: int|
            match answers[i] {
                AnswerModel::Failed(FailureModel::Retryable(m)) => m,
                _ => Seq::empty(),
            },
    )
}

/// The endpoints of the first `k` hosts.
pub open spec fn endpoints_upto(hosts: Seq<Seq<char>>, index_name: Seq<char>, k: int) -> Seq<
    Seq<char>,
> {
    Seq::new(
        k as nat,
        |i: int|
            match host_endpoint(hosts, index_name, i) {
                Some(e) => e,
                None => Seq::empty(),
            },
    )
}

/// How a whole query ends, host by host: with `s` the first host at which
/// it stops, the endpoints of the hosts before `s` are attempted in order;
/// out of time at `s`, the query fails with the message over the failures
/// so far (a timeout when there are none); a host without endpoint fails
/// the query; otherwise host `s` is attempted too and its hits or terminal
/// failure end the query. When it stops at no host, every host was
/// attempted and the message counts them and lists their failures.
pub open spec fn run_closed_form(
    hosts: Seq<Seq<char>>,
    index_name: Seq<char>,
    time: Seq<bool>,
    answers: Seq<AnswerModel>,
) -> (Seq<Seq<char>>, RunOutcome) {
    let s = first_stop(hosts, index_name, time, answers, 0);
    if s >= hosts.len() {
        (
            endpoints_upto(hosts, index_name, s),
            RunOutcome::Failed(exhausted_message(retry_messages(answers, s))),
        )
    } else if !time[s] {
        (
            endpoints_upto(hosts, index_name, s),
            RunOutcome::Failed(exhausted_message(retry_messages(answers, s))),
        )
    } else if host_endpoint(hosts, index_name, s) is None {
        (
            endpoints_upto(hosts, index_name, s),
            RunOutcome::Failed("failed to construct Algolia endpoint"@),
        )
    } else {
        match answers[s] {
            AnswerModel::Hits => (endpoints_upto(hosts, index_name, s + 1), RunOutcome::Hits),
            AnswerModel::Failed(FailureModel::Terminal(m)) => (
                endpoints_upto(hosts, index_name, s + 1),
                RunOutcome::Failed(m),
            ),
            AnswerModel::Failed(FailureModel::Retryable(_)) => (
                Seq::empty(),
                RunOutcome::Failed(Seq::empty()),
            ),
        }
    }
}

proof fn lemma_first_stop_bounds(
    hosts: Seq<Seq<char>>,
    index_name: Seq<char>,
    time: Seq<bool>,
    answers: Seq<AnswerModel>,
    from: int,
)
    requires
        0 <= from <= hosts.len(),
    ensures
        from <= first_stop(hosts, index_name, time, answers, from) <= hosts.len(),
    decreases hosts.len() - from,
{
    if from < hosts.len() && !stops_at(hosts, index_name, time, answers, from) {
        lemma_first_stop_bounds(hosts, index_name, time, answers, from + 1);
    }
}

proof fn lemma_run_from(
    hosts: Seq<Seq<char>>,
    index_name: Seq<char>,
    time: Seq<bool>,
    answers: Seq<AnswerModel>,
    j: int,
)
    requires
        0 <= j <= first_stop(hosts, index_name, time, answers, 0),
        first_stop(hosts, index_name, time, answers, 0) == first_stop(
            hosts,
            index_name,
            time,
            answers,
            j,
        ),
    ensures
        ({
            let r = run_from(hosts, index_name, time, answers, retry_messages(answers, j));
            let c = run_closed_form(hosts, index_name, time, answers);
            c.0 == endpoints_upto(hosts, index_name, j) + r.0 && c.1 == r.1
        }),
    decreases hosts.len() - j,
{
    let s = first_stop(hosts, index_name, time, answers, 0);
    let failures = retry_messages(answers, j);
    let c = run_closed_form(hosts, index_name, time, answers);
    assert(failures.len() == j);
    if j < hosts.len() {
        lemma_first_stop_bounds(hosts, index_name, time, answers, j + 1);
    }
    if j >= hosts.len() {
        assert(s == hosts.len());
        assert(endpoints_upto(hosts, index_name, j) + Seq::<Seq<char>>::empty() =~= c.0);
    } else if j == s {
        assert(stops_at(hosts, index_name, time, answers, j));
        if !time[j] {
            assert(endpoints_upto(hosts, index_name, j) + Seq::<Seq<char>>::empty() =~= c.0);
        } else if host_endpoint(hosts, index_name, j) is None {
            assert(endpoints_upto(hosts, index_name, j) + Seq::<Seq<char>>::empty() =~= c.0);
        } else {
            let e = host_endpoint(hosts, index_name, j)->0;
            assert(endpoints_upto(hosts, index_name, j) + seq![e] =~= endpoints_upto(
                hosts,
                index_name,
                j + 1,
            ));
        }
    } else {
        assert(!stops_at(hosts, index_name, time, answers, j));
        let e = host_endpoint(hosts, index_name, j)->0;
        let m = answers[j]->Failed_0->Retryable_0;
        assert(failures.push(m) =~= retry_messages(answers, j + 1));
        lemma_run_from(hosts, index_name, time, answers, j + 1);
        let rest = run_from(hosts, index_name, time, answers, failures.push(m));
        assert(endpoints_upto(hosts, index_name, j) + (seq![e] + rest.0) =~= endpoints_upto(
            hosts,
            index_name,
            j + 1,
        ) + rest.0);
    }
}

/// Failover over a whole query: the hosts are attempted in order; the first
/// hits or terminal failure end the query with no later attempt; a query
/// that runs out of time fails with the failures so far (a timeout when no
/// host was tried); and when every host fails retryably, the message counts
/// the hosts and lists each failure in host order.
pub proof fn lemma_query_run(
    hosts: Seq<Seq<char>>,
    index_name: Seq<char>,
    time: Seq<bool>,
    answers: Seq<AnswerModel>,
)
    ensures
        query_run(hosts, index_name, time, answers) == run_closed_form(
            hosts,
            index_name,
            time,
            answers,
        ),
{
    assert(retry_messages(answers, 0) =~= Seq::<Seq<char>>::empty());
    if hosts.len() > 0 {
        lemma_first_stop_bounds(hosts, index_name, time, answers, 0);
    }
    lemma_run_from(hosts, index_name, time, answers, 0);
    let c = run_closed_form(hosts, index_name, time, answers);
    assert(endpoints_upto(hosts, index_name, 0) =~= Seq::<Seq<char>>::empty());
    assert(Seq::<Seq<char>>::empty() + query_run(hosts, index_name, time, answers).0
        =~= query_run(hosts, index_name, time, answers).0);
}

/// Failover of one query across the read hosts, in order.
pub struct Failover {
    host_count: usize,
    failures: Vec<String>,
}

/// What the query does next.
#[derive(Clone, Debug, Eq, PartialEq)]
pub enum FailoverStep {
    /// Send the request to this endpoint.
    Attempt(String),
    /// Give up with this message.
    Fail(String),
}

impl Failover {
    #[verifier::type_invariant]
    spec fn within_hosts(&self) -> bool {
        self.failures@.len() <= self.host_count
    }

    /// The number of read hosts.
    pub closed spec fn hosts(&self) -> nat {
        self.host_count as nat
    }

    /// The messages of the retryable failures so far, one per host tried,
    /// in host order.
    pub closed spec fn failures(&self) -> Seq<Seq<char>> {
        self.failures@.map_values(|m: String| m@)
    }

    /// Starts a query over `host_count` read hosts.
    pub fn new(host_count: usize) -> (res: Failover)
        ensures
            res.hosts() == host_count,
            res.failures() == Seq::<Seq<char>>::empty(),
    {
        let res = Failover { host_count, failures: Vec::new() };
        assert(res.failures() =~= Seq::<Seq<char>>::empty());
        res
    }

    /// What to do next: while a host is left and time remains, send the
    /// request to the search endpoint of the next host; otherwise fail,
    /// reporting every failure so far.
    pub fn next_step(&self, read_hosts: &[String], index_name: &str, time_remaining: bool) -> (res:
        FailoverStep)
        requires
            read_hosts@.len() == self.hosts(),
        ensures
            self.failures().len() <= self.hosts(),
            res.model() == next_step_spec(
                string_views(read_hosts@),
                index_name@,
                self.failures(),
                time_remaining,
            ),
    {
        proof {
            use_type_invariant(self);
        }
        let k = self.failures.len();
        if k < self.host_count && time_remaining {
            match endpoint(read_hosts[k].as_str(), index_name) {
                Some(e) => FailoverStep::Attempt(e),
                None => FailoverStep::Fail("failed to construct Algolia endpoint".to_owned()),
            }
        } else {
            FailoverStep::Fail(self.exhausted())
        }
    }

    fn exhausted(&self) -> (res: String)
        ensures
            res@ == exhausted_message(self.failures()),
    {
        if self.failures.len() == 0 {
            return "Algolia request timed out before a read host could be tried".to_owned();
        }
        let mut message = "Algolia request failed after trying ".to_owned();
        let count = decimal_string(self.failures.len() as u64);
        message.append(count.as_str());
        message.append(" read hosts: ");
        let ghost views = self.failures();
        let mut k: usize = 0;
        let ghost head = message@;
        while k < self.failures.len()
            invariant
                k <= self.failures@.len(),
                views == self.failures@.map_values(|m: String| m@),
                message@ == head + join_with(views.take(k as int), "; "@),
            decreases self.failures.len() - k,
        {
            if k > 0 {
                message.append("; ");
            }
            message.append(self.failures[k].as_str());
            assert(views.take(k + 1).drop_last() =~= views.take(k as int));
            assert(views.take(k + 1).last() == views[k as int]);
            k = k + 1;
        }
        assert(views.take(self.failures@.len() as int) =~= views);
        message
    }

    /// The number of read hosts.
    pub fn host_count(&self) -> (res: usize)
        ensures
            res == self.hosts(),
    {
        self.host_count
    }

    /// Whether a host is left whose failure can be recorded.
    pub fn can_record(&self) -> (res: bool)
        ensures
            res == (self.failures().len() < self.hosts()),
    {
        self.failures.len() < self.host_count
    }

    /// Records the failure of the request to the host just tried. A
    /// terminal failure ends the query with its message; a retryable one is
    /// kept and the next host is up.
    pub fn record(&mut self, failure: AttemptFailure) -> (res: Option<String>)
        requires
            old(self).failures().len() < old(self).hosts(),
        ensures
            final(self).hosts() == old(self).hosts(),
            match failure {
                AttemptFailure::Terminal(m) => res == Some(m) && final(self).failures()
                    == old(self).failures(),
                AttemptFailure::Retryable(m) => res is None && final(self).failures() == old(
                    self,
                ).failures().push(m@),
            },
    {
        match failure {
            AttemptFailure::Terminal(m) => Some(m),
            AttemptFailure::Retryable(m) => {
                let ghost before = self.failures();
                let ghost mv = m@;
                proof {
                    use_type_invariant(&*self);
                }
                let mut failures: Vec<String> = Vec::new();
                std::mem::swap(&mut failures, &mut self.failures);
                failures.push(m);
                self.failures = failures;
                assert(self.failures() =~= before.push(mv));
                None
            },
        }
    }
}

} // verus!
