//! Command-line arguments of the workflow binary.

use vstd::prelude::*;
use vstd::string::*;

use crate::text::{
    chars_of, is_separator, is_word, join_chars, join_with, lemma_filter_empty,
    lemma_joined_words_form, lemma_words_are_words, lemma_words_of_joined_words, same_chars,
    split_whitespace, starts_with_chars, string_from_chars, string_of_range, to_lowercase,
    unicode_lowercase, words,
};

verus! {

/// Parsed command-line options.
#[derive(Clone, Debug, Eq, PartialEq)]
pub struct Cli {
    /// Raw search query.
    pub query: String,
    /// Whether diagnostics are written to stderr.
    pub verbose: bool,
    /// Whether the workflow should update itself instead of searching.
    pub update: bool,
}

/// The options as mathematical values.
pub struct CliModel {
    pub query: Seq<char>,
    pub verbose: bool,
    pub update: bool,
}

/// Why a command line was rejected, as mathematical values.
pub enum CliFailure {
    /// The named query option had no usable value.
    MissingValue(Seq<char>),
    /// The argument is not an option of the workflow.
    UnknownArgument(Seq<char>),
}

/// Why a command line was rejected.
#[derive(Clone, Debug, Eq, PartialEq)]
pub enum CliError {
    /// The named query option (`-q` or `--query`) had no usable value.
    MissingValue(String),
    /// The argument is not an option of the workflow.
    UnknownArgument(String),
}

impl CliError {
    pub open spec fn failure(&self) -> CliFailure {
        match self {
            CliError::MissingValue(flag) => CliFailure::MissingValue(flag@),
            CliError::UnknownArgument(argument) => CliFailure::UnknownArgument(argument@),
        }
    }

    /// The message shown to the user for this error.
    pub fn message(&self) -> (res: String)
        ensures
            res@ == failure_message(self.failure()),
    {
        match self {
            CliError::MissingValue(flag) => {
                let mut out = flag.clone();
                out.append(" requires a value");
                out
            },
            CliError::UnknownArgument(argument) => {
                let mut out = "unknown argument: ".to_owned();
                out.append(argument.as_str());
                out
            },
        }
    }
}

/// The message for a rejected command line.
pub open spec fn failure_message(failure: CliFailure) -> Seq<char> {
    match failure {
        CliFailure::MissingValue(flag) => flag + " requires a value"@,
        CliFailure::UnknownArgument(argument) => "unknown argument: "@ + argument,
    }
}

/// The options before any argument is read.
pub open spec fn default_model() -> CliModel {
    CliModel { query: Seq::empty(), verbose: false, update: false }
}

/// `st` with its query replaced by `query`.
pub open spec fn with_query(st: CliModel, query: Seq<char>) -> CliModel {
    CliModel { query, verbose: st.verbose, update: st.update }
}

/// An argument that names one of the workflow's options on its own; it is
/// never taken as the value of a query option.
pub open spec fn is_option_word(a: Seq<char>) -> bool {
    ||| a == "-q"@
    ||| a == "--query"@
    ||| a == "-v"@
    ||| a == "--verbose"@
    ||| a == "-u"@
    ||| a == "--update"@
}

/// An argument made of single-letter options after one dash, such as `-vu`
/// or `-vqbackground`.
pub open spec fn is_short_cluster(a: Seq<char>) -> bool {
    a.len() >= 2 && a[0] == '-' && a[1] != '-'
}

/// What reading the letters of a short-option cluster leads to.
pub enum ClusterStep {
    /// Every letter was read; these are the options now.
    Finished(CliModel),
    /// The cluster ends with `q`; its value is the next argument.
    NeedsValue(CliModel),
    /// A letter names no option.
    Unknown,
}

/// Reads the letters of cluster `a` from index `j` on, starting from `st`.
/// A `q` with letters after it takes those letters as the query.
pub open spec fn cluster_step(a: Seq<char>, j: int, st: CliModel) -> ClusterStep
    decreases a.len() - j,
{
    if j < 0 || j >= a.len() {
        ClusterStep::Finished(st)
    } else if a[j] == 'v' {
        cluster_step(a, j + 1, CliModel { query: st.query, verbose: true, update: st.update })
    } else if a[j] == 'u' {
        cluster_step(a, j + 1, CliModel { query: st.query, verbose: st.verbose, update: true })
    } else if a[j] == 'q' {
        if j + 1 < a.len() {
            ClusterStep::Finished(with_query(st, a.skip(j + 1)))
        } else {
            ClusterStep::NeedsValue(st)
        }
    } else {
        ClusterStep::Unknown
    }
}

/// Whether the argument after index `i` can be the value of a query option.
pub open spec fn has_value_after(args: Seq<Seq<char>>, i: int) -> bool {
    i + 1 < args.len() && !is_option_word(args[i + 1])
}

/// Reads `args` from index `i` on, starting from options `st`.
pub open spec fn parse_from(args: Seq<Seq<char>>, i: int, st: CliModel) -> Result<
    CliModel,
    CliFailure,
>
    decreases args.len() - i,
{
    if i < 0 || i >= args.len() {
        Ok(st)
    } else {
        let a = args[i];
        if a == "--query"@ {
            if has_value_after(args, i) {
                parse_from(args, i + 2, with_query(st, args[i + 1]))
            } else {
                Err(CliFailure::MissingValue("--query"@))
            }
        } else if a == "--verbose"@ {
            parse_from(args, i + 1, CliModel { query: st.query, verbose: true, update: st.update })
        } else if a == "--update"@ {
            parse_from(args, i + 1, CliModel { query: st.query, verbose: st.verbose, update: true })
        } else if a.len() >= 8 && a.take(8) == "--query="@ {
            parse_from(args, i + 1, with_query(st, a.skip(8)))
        } else if is_short_cluster(a) {
            match cluster_step(a, 1, st) {
                ClusterStep::Finished(next) => parse_from(args, i + 1, next),
                ClusterStep::NeedsValue(next) => if has_value_after(args, i) {
                    parse_from(args, i + 2, with_query(next, args[i + 1]))
                } else {
                    Err(CliFailure::MissingValue("-q"@))
                },
                ClusterStep::Unknown => Err(CliFailure::UnknownArgument(a)),
            }
        } else {
            Err(CliFailure::UnknownArgument(a))
        }
    }
}

/// An option word after a query option is no value for it: the query
/// option is reported as missing its value, in its short and long form.
pub proof fn lemma_option_word_is_no_query_value(word: Seq<char>)
    requires
        is_option_word(word),
    ensures
        parse_from(seq!["-q"@, word], 0, default_model()) == Err::<CliModel, CliFailure>(
            CliFailure::MissingValue("-q"@),
        ),
        parse_from(seq!["--query"@, word], 0, default_model()) == Err::<CliModel, CliFailure>(
            CliFailure::MissingValue("--query"@),
        ),
{
    reveal_strlit("-q");
    reveal_strlit("--query");
    reveal_strlit("--query=");
    reveal_strlit("--verbose");
    reveal_strlit("--update");
    let short = seq!["-q"@, word];
    assert(short[0] != "--query"@);
    assert(short[0] != "--verbose"@);
    assert(short[0] != "--update"@);
    assert(cluster_step("-q"@, 1, default_model()) == ClusterStep::NeedsValue(default_model()));
    let long = seq!["--query"@, word];
    assert(long[1] == word);
}

proof fn lemma_replace_option(
    args: Seq<Seq<char>>,
    args2: Seq<Seq<char>>,
    i: int,
    j: int,
    st: CliModel,
    short: Seq<char>,
    long: Seq<char>,
)
    requires
        0 <= i < args.len(),
        args[i] == short,
        args2 == args.update(i, long),
        (short == "-u"@ && long == "--update"@) || (short == "-v"@ && long == "--verbose"@),
        0 <= j,
    ensures
        parse_from(args, j, st) == parse_from(args2, j, st),
    decreases args.len() - j,
{
    reveal_strlit("-u");
    reveal_strlit("-v");
    reveal_strlit("-q");
    reveal_strlit("--update");
    reveal_strlit("--verbose");
    reveal_strlit("--query");
    reveal_strlit("--query=");
    if j >= args.len() {
    } else if j == i {
        let next = if short == "-u"@ {
            CliModel { query: st.query, verbose: st.verbose, update: true }
        } else {
            CliModel { query: st.query, verbose: true, update: st.update }
        };
        assert(short[1] == 'u' || short[1] == 'v');
        assert(cluster_step(short, 2, next) == ClusterStep::Finished(next));
        assert(cluster_step(short, 1, st) == ClusterStep::Finished(next));
        assert(short != "--query"@ && short != "--verbose"@ && short != "--update"@);
        assert(is_short_cluster(short));
        lemma_replace_option(args, args2, i, j + 1, next, short, long);
    } else {
        let a = args[j];
        assert(args2[j] == a);
        if j + 1 < args.len() {
            if j + 1 == i {
                assert(is_option_word(args[j + 1]));
                assert(is_option_word(args2[j + 1]));
            } else {
                assert(args2[j + 1] == args[j + 1]);
            }
        }
        assert(has_value_after(args, j) == has_value_after(args2, j));
        if a == "--query"@ {
            if has_value_after(args, j) {
                lemma_replace_option(args, args2, i, j + 2, with_query(st, args[j + 1]), short, long);
            }
        } else if a == "--verbose"@ {
            lemma_replace_option(
                args,
                args2,
                i,
                j + 1,
                CliModel { query: st.query, verbose: true, update: st.update },
                short,
                long,
            );
        } else if a == "--update"@ {
            lemma_replace_option(
                args,
                args2,
                i,
                j + 1,
                CliModel { query: st.query, verbose: st.verbose, update: true },
                short,
                long,
            );
        } else if a.len() >= 8 && a.take(8) == "--query="@ {
            lemma_replace_option(args, args2, i, j + 1, with_query(st, a.skip(8)), short, long);
        } else if is_short_cluster(a) {
            match cluster_step(a, 1, st) {
                ClusterStep::Finished(next) => {
                    lemma_replace_option(args, args2, i, j + 1, next, short, long);
                },
                ClusterStep::NeedsValue(next) => {
                    if has_value_after(args, j) {
                        lemma_replace_option(
                            args,
                            args2,
                            i,
                            j + 2,
                            with_query(next, args[j + 1]),
                            short,
                            long,
                        );
                    }
                },
                ClusterStep::Unknown => {},
            }
        }
    }
}

/// A short option on its own means the same as its long form, wherever it
/// stands: replacing `-u` by `--update`, or `-v` by `--verbose`, anywhere
/// in a command line leaves the parsed options, or the rejection, as they
/// were.
pub proof fn lemma_short_options_mean_long_forms(args: Seq<Seq<char>>, i: int)
    requires
        0 <= i < args.len(),
    ensures
        args[i] == "-u"@ ==> parse_spec(args) == parse_spec(args.update(i, "--update"@)),
        args[i] == "-v"@ ==> parse_spec(args) == parse_spec(args.update(i, "--verbose"@)),
{
    if args[i] == "-u"@ {
        lemma_replace_option(args, args.update(i, "--update"@), i, 0, default_model(), "-u"@, "--update"@);
    }
    if args[i] == "-v"@ {
        lemma_replace_option(args, args.update(i, "--verbose"@), i, 0, default_model(), "-v"@, "--verbose"@);
    }
}

/// The options a command line denotes, or why it is rejected.
pub open spec fn parse_spec(args: Seq<Seq<char>>) -> Result<CliModel, CliFailure> {
    parse_from(args, 0, default_model())
}

/// The arguments as character sequences.
pub open spec fn argument_views(arguments: Seq<String>) -> Seq<Seq<char>> {
    arguments.map_values(|s: String| s@)
}

impl Default for Cli {
    fn default() -> (res: Self)
        ensures
            res.model() == default_model(),
    {
        Cli { query: String::new(), verbose: false, update: false }
    }
}

/// Whether `a` is one of the option words.
fn option_word(a: &Vec<char>) -> (res: bool)
    ensures
        res == is_option_word(a@),
{
    same_chars(a.as_slice(), chars_of("-q").as_slice()) || same_chars(
        a.as_slice(),
        chars_of("--query").as_slice(),
    ) || same_chars(a.as_slice(), chars_of("-v").as_slice()) || same_chars(
        a.as_slice(),
        chars_of("--verbose").as_slice(),
    ) || same_chars(a.as_slice(), chars_of("-u").as_slice()) || same_chars(
        a.as_slice(),
        chars_of("--update").as_slice(),
    )
}

/// Whether a word differs from `version`.
pub open spec fn other_than(version: Seq<char>) -> spec_fn(Seq<char>) -> bool {
    |w: Seq<char>| w != version
}

/// The words of `query` other than `version`.
pub open spec fn query_words(query: Seq<char>, version: Seq<char>) -> Seq<Seq<char>> {
    words(query).filter(other_than(version))
}

/// The search text for `query`: its whitespace-separated words other than
/// the selected Tailwind version, joined by single spaces, in lowercase.
pub open spec fn normalized_query_spec(query: Seq<char>, version: Seq<char>) -> Seq<char> {
    unicode_lowercase(join_with(query_words(query, version), seq![' ']))
}

proof fn lemma_filter_keeps_words(list: Seq<Seq<char>>, keep: spec_fn(Seq<char>) -> bool)
    requires
        forall|k: int| 0 <= k < list.len() ==> is_word(#[trigger] list[k]),
    ensures
        forall|k: int|
            0 <= k < list.filter(keep).len() ==> is_word(#[trigger] list.filter(keep)[k]),
    decreases list.len(),
{
    reveal(Seq::filter);
    if list.len() > 0 {
        let rest = list.drop_last();
        assert forall|k: int| 0 <= k < rest.len() implies is_word(#[trigger] rest[k]) by {
            assert(rest[k] == list[k]);
        }
        lemma_filter_keeps_words(rest, keep);
        let out = list.filter(keep);
        let sub = rest.filter(keep);
        assert forall|k: int| 0 <= k < out.len() implies is_word(#[trigger] out[k]) by {
            if k < sub.len() {
                assert(out[k] == sub[k]);
            } else {
                assert(out[k] == list[list.len() - 1]);
            }
        }
    }
}

/// Normalizing collapses whitespace and removes the selected version:
/// splitting the normal form (before lowercasing) at whitespace gives back
/// exactly the query's words other than the version, in order, and the
/// version is not among them.
pub proof fn lemma_normalized_query_words(query: Seq<char>, version: Seq<char>)
    ensures
        words(join_with(query_words(query, version), seq![' '])) == query_words(query, version),
        !query_words(query, version).contains(version),
{
    broadcast use vstd::seq_lib::group_filter_ensures;

    let keep = other_than(version);
    lemma_words_are_words(query, 0, Seq::empty(), Seq::empty());
    lemma_filter_keeps_words(words(query), keep);
    lemma_words_of_joined_words(query_words(query, version));
    if query_words(query, version).contains(version) {
        let k = choose|k: int|
            0 <= k < query_words(query, version).len() && query_words(query, version)[k]
                == version;
        assert(keep(words(query).filter(keep)[k]));
    }
}

/// The normal form of a query before lowercasing: it is empty exactly when
/// every word of the query is the selected version, it neither starts nor
/// ends with whitespace, and each whitespace character in it is a single
/// space between two words.
pub proof fn lemma_normalized_query_form(query: Seq<char>, version: Seq<char>)
    ensures
        join_with(query_words(query, version), seq![' ']).len() == 0 <==> forall|k: int|
            0 <= k < words(query).len() ==> #[trigger] words(query)[k] == version,
        forall|k: int|
            0 <= k < join_with(query_words(query, version), seq![' ']).len() && is_separator(
                #[trigger] join_with(query_words(query, version), seq![' '])[k],
            ) ==> join_with(query_words(query, version), seq![' '])[k] == ' ' && 0 < k
                < join_with(query_words(query, version), seq![' ']).len() - 1 && !is_separator(
                join_with(query_words(query, version), seq![' '])[k - 1],
            ) && !is_separator(join_with(query_words(query, version), seq![' '])[k + 1]),
{
    let keep = other_than(version);
    lemma_words_are_words(query, 0, Seq::empty(), Seq::empty());
    lemma_filter_keeps_words(words(query), keep);
    lemma_joined_words_form(query_words(query, version));
    lemma_filter_empty(words(query), keep);
    if forall|k: int| 0 <= k < words(query).len() ==> #[trigger] words(query)[k] == version {
        assert forall|k: int| 0 <= k < words(query).len() implies !keep(
            #[trigger] words(query)[k],
        ) by {
            assert(words(query)[k] == version);
        }
    }
    if query_words(query, version).len() == 0 {
        assert forall|k: int| 0 <= k < words(query).len() implies #[trigger] words(query)[k]
            == version by {
            assert(!keep(words(query)[k]));
        }
    }
}

/// Nothing of a kept word is lost: the normalized query is the lowercase
/// of a text whose whitespace-separated words are exactly the words of the
/// query other than the selected version, each in full and in their order,
/// with a single space between consecutive words and no whitespace before
/// the first or after the last.
pub proof fn lemma_normalized_query_keeps_every_word(query: Seq<char>, version: Seq<char>)
    ensures
        exists|text: Seq<char>|
            #![trigger unicode_lowercase(text)]
            normalized_query_spec(query, version) == unicode_lowercase(text) && words(text)
                == words(query).filter(|w: Seq<char>| w != version) && (forall|k: int|
                0 <= k < text.len() && is_separator(#[trigger] text[k]) ==> text[k] == ' ' && 0
                < k < text.len() - 1 && !is_separator(text[k - 1]) && !is_separator(text[k + 1])),
{
    let text = join_with(query_words(query, version), seq![' ']);
    lemma_normalized_query_words(query, version);
    lemma_normalized_query_form(query, version);
    assert(other_than(version) =~= (|w: Seq<char>| w != version));
    assert(normalized_query_spec(query, version) == unicode_lowercase(text));
}

/// How a short-option cluster ended./// How a short-option cluster ended.
enum ClusterEnd {
    Finished,
    NeedsValue,
    Unknown,
}

impl Cli {
    pub open spec fn model(&self) -> CliModel {
        CliModel { query: self.query@, verbose: self.verbose, update: self.update }
    }

    /// Applies the letters of cluster `a` to `self`.
    fn apply_cluster(&mut self, a: &Vec<char>) -> (res: ClusterEnd)
        requires
            is_short_cluster(a@),
        ensures
            match cluster_step(a@, 1, old(self).model()) {
                ClusterStep::Finished(m) => res is Finished && final(self).model() == m,
                ClusterStep::NeedsValue(m) => res is NeedsValue && final(self).model() == m,
                ClusterStep::Unknown => res is Unknown,
            },
    {
        let ghost start = self.model();
        let mut j: usize = 1;
        while j < a.len()
            invariant
                1 <= j <= a.len(),
                start == old(self).model(),
                cluster_step(a@, 1, start) == cluster_step(a@, j as int, self.model()),
            decreases a.len() - j,
        {
            let c = a[j];
            let ghost cur = self.model();
            if c == 'v' {
                self.verbose = true;
            } else if c == 'u' {
                self.update = true;
            } else if c == 'q' {
                if j + 1 < a.len() {
                    self.query = string_of_range(a.as_slice(), j + 1, a.len());
                    assert(a@.subrange(j + 1, a@.len() as int) =~= a@.skip(j + 1));
                    assert(cluster_step(a@, j as int, cur) == ClusterStep::Finished(
                        with_query(cur, a@.skip(j + 1)),
                    ));
                    assert(self.model() == with_query(cur, a@.skip(j + 1)));
                    return ClusterEnd::Finished;
                } else {
                    assert(cluster_step(a@, j as int, cur) == ClusterStep::NeedsValue(cur));
                    return ClusterEnd::NeedsValue;
                }
            } else {
                return ClusterEnd::Unknown;
            }
            j = j + 1;
        }
        ClusterEnd::Finished
    }

    /// The query with the selected Tailwind version removed, whitespace
    /// collapsed to single spaces, and lowercased.
    pub fn normalized_query(&self, tailwind_version: &str) -> (res: String)
        ensures
            res@ == normalized_query_spec(self.query@, tailwind_version@),
            res@.len() == 0 <==> forall|k: int|
                0 <= k < words(self.query@).len() ==> #[trigger] words(self.query@)[k]
                    == tailwind_version@,
    {
        proof {
            lemma_normalized_query_form(self.query@, tailwind_version@);
        }
        let version = chars_of(tailwind_version);
        let all = split_whitespace(chars_of(self.query.as_str()).as_slice());
        let ghost views = all@.map_values(|w: Vec<char>| w@);
        let ghost keep = other_than(version@);
        let mut kept: Vec<Vec<char>> = Vec::new();
        let mut k: usize = 0;
        while k < all.len()
            invariant
                k <= all.len(),
                views == all@.map_values(|w: Vec<char>| w@),
                keep == other_than(version@),
                kept@.map_values(|w: Vec<char>| w@) == views.take(k as int).filter(keep),
            decreases all.len() - k,
        {
            let ghost before = kept@.map_values(|w: Vec<char>| w@);
            proof {
                reveal_with_fuel(Seq::<_>::filter, 1);
                assert(views.take(k + 1).drop_last() =~= views.take(k as int));
            }
            if !same_chars(all[k].as_slice(), version.as_slice()) {
                let word = all[k].clone();
                kept.push(word);
                assert(kept@.map_values(|w: Vec<char>| w@) =~= before.push(views[k as int]));
            }
            k = k + 1;
        }
        assert(views.take(all.len() as int) =~= views);
        let mut separator: Vec<char> = Vec::new();
        separator.push(' ');
        let joined = join_chars(&kept, separator.as_slice());
        let joined_text = string_from_chars(joined.as_slice());
        to_lowercase(joined_text.as_str())
    }

    /// Parses the workflow's arguments (without the program name).
    ///
    /// `-q VALUE`, `--query VALUE` and `--query=VALUE` set the query;
    /// `-v`/`--verbose` and `-u`/`--update` set flags. Single-letter options
    /// may be clustered after one dash, and a `q` in a cluster takes the rest
    /// of the cluster, or else the next argument, as its value. An option
    /// word never counts as a query value.
    pub fn parse(arguments: Vec<String>) -> (res: Result<Cli, CliError>)
        ensures
            match res {
                Ok(cli) => parse_spec(argument_views(arguments@)) == Ok::<CliModel, CliFailure>(
                    cli.model(),
                ),
                Err(e) => parse_spec(argument_views(arguments@)) == Err::<CliModel, CliFailure>(
                    e.failure(),
                ),
            },
    {
        let ghost args = argument_views(arguments@);
        let mut cli = Cli::default();
        let n = arguments.len();
        let mut i: usize = 0;
        while i < n
            invariant
                n == arguments.len(),
                i <= n,
                args == argument_views(arguments@),
                parse_spec(args) == parse_from(args, i as int, cli.model()),
            decreases n - i,
        {
            let a = chars_of(arguments[i].as_str());
            assert(a@ == args[i as int]);
            let ghost cur = cli.model();
            proof {
                reveal_strlit("--query");
                reveal_strlit("--query=");
                reveal_strlit("--verbose");
                reveal_strlit("--update");
            }
            if same_chars(a.as_slice(), chars_of("--query").as_slice()) {
                if i + 1 < n && !option_word(&chars_of(arguments[i + 1].as_str())) {
                    cli.query = arguments[i + 1].clone();
                    i = i + 2;
                } else {
                    return Err(CliError::MissingValue("--query".to_owned()));
                }
            } else if same_chars(a.as_slice(), chars_of("--verbose").as_slice()) {
                cli.verbose = true;
                i = i + 1;
            } else if same_chars(a.as_slice(), chars_of("--update").as_slice()) {
                cli.update = true;
                i = i + 1;
            } else if starts_with_chars(a.as_slice(), chars_of("--query=").as_slice()) {
                cli.query = string_of_range(a.as_slice(), 8, a.len());
                assert(a@.subrange(8, a@.len() as int) == a@.skip(8));
                i = i + 1;
            } else if a.len() >= 2 && a[0] == '-' && a[1] != '-' {
                match cli.apply_cluster(&a) {
                    ClusterEnd::Finished => {
                        i = i + 1;
                    },
                    ClusterEnd::NeedsValue => {
                        if i + 1 < n && !option_word(&chars_of(arguments[i + 1].as_str())) {
                            cli.query = arguments[i + 1].clone();
                            i = i + 2;
                        } else {
                            return Err(CliError::MissingValue("-q".to_owned()));
                        }
                    },
                    ClusterEnd::Unknown => {
                        return Err(CliError::UnknownArgument(arguments[i].clone()));
                    },
                }
            } else {
                return Err(CliError::UnknownArgument(arguments[i].clone()));
            }
        }
        Ok(cli)
    }
}

} // verus!
