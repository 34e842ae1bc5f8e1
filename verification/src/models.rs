//! Search results returned by the Tailwind CSS Algolia index.

use vstd::prelude::*;
use vstd::string::*;

use crate::html::{digit_value, digits_value};
use crate::text::{chars_of, decimal, decimal_string, same_chars};

verus! {

/// A Tailwind CSS documentation result returned by Algolia.
#[derive(Clone, Debug, Eq, PartialEq)]
pub struct SearchResult {
    /// Algolia object identifier.
    pub object_id: String,
    /// Algolia hierarchy level tag, such as `lvl2`.
    pub result_type: String,
    /// Documentation URL opened by Alfred.
    pub url: String,
    /// Documentation hierarchy used for titles and breadcrumbs.
    pub hierarchy: SearchResultHierarchy,
    /// Optional searchable page content.
    pub content: Option<String>,
}

/// Ordered hierarchy values returned for a documentation result.
#[derive(Clone, Debug, Eq, PartialEq)]
pub struct SearchResultHierarchy {
    /// Root hierarchy value.
    pub lvl0: String,
    /// Level-one hierarchy value.
    pub lvl1: Option<String>,
    /// Level-two hierarchy value.
    pub lvl2: Option<String>,
    /// Level-three hierarchy value.
    pub lvl3: Option<String>,
    /// Level-four hierarchy value.
    pub lvl4: Option<String>,
    /// Level-five hierarchy value.
    pub lvl5: Option<String>,
    /// Level-six hierarchy value.
    pub lvl6: Option<String>,
}

/// Minimal subset of an Algolia single-index search response.
#[derive(Clone, Debug, Eq, PartialEq)]
pub struct SearchResponse {
    /// Search results in provider-defined ranking order.
    pub hits: Vec<SearchResult>,
}

/// Why a search result cannot be shown.
#[derive(Clone, Debug, Eq, PartialEq)]
pub enum ResultError {
    /// The result type is not `lvl0` through `lvl6`.
    InvalidResultType(String),
    /// The result (named by its object identifier) has no hierarchy value
    /// at its own level.
    MissingHierarchyLevel(String, usize),
}

/// Why a search result cannot be shown, as mathematical values.
pub enum ResultFailure {
    InvalidResultType(Seq<char>),
    MissingHierarchyLevel(Seq<char>, nat),
}

/// The message shown for a rejected result.
pub open spec fn result_failure_message(f: ResultFailure) -> Seq<char> {
    match f {
        ResultFailure::InvalidResultType(t) => "invalid Algolia result type: "@ + t,
        ResultFailure::MissingHierarchyLevel(id, level) => "Algolia result "@ + id
            + " is missing hierarchy level "@ + decimal(level),
    }
}

impl ResultError {
    pub open spec fn failure(&self) -> ResultFailure {
        match self {
            ResultError::InvalidResultType(t) => ResultFailure::InvalidResultType(t@),
            ResultError::MissingHierarchyLevel(id, level) => ResultFailure::MissingHierarchyLevel(
                id@,
                *level as nat,
            ),
        }
    }

    /// The message shown to the user for this error.
    pub fn message(&self) -> (res: String)
        ensures
            res@ == result_failure_message(self.failure()),
    {
        match self {
            ResultError::InvalidResultType(t) => {
                let mut out = "invalid Algolia result type: ".to_owned();
                out.append(t.as_str());
                out
            },
            ResultError::MissingHierarchyLevel(id, level) => {
                let mut out = "Algolia result ".to_owned();
                out.append(id.as_str());
                out.append(" is missing hierarchy level ");
                let digits = decimal_string(*level as u64);
                out.append(digits.as_str());
                out
            },
        }
    }
}

/// The optional value as a mathematical string.
pub open spec fn optional_view(o: Option<String>) -> Option<Seq<char>> {
    match o {
        Some(s) => Some(s@),
        None => None,
    }
}

/// The one-element sequence of a present value, or nothing.
pub open spec fn present(o: Option<String>) -> Seq<Seq<char>> {
    match o {
        Some(s) => seq![s@],
        None => Seq::empty(),
    }
}

/// The digits of a level number after the `lvl` prefix: an optional `+`
/// followed by what `usize::from_str` reads as digits.
pub open spec fn level_digits(t: Seq<char>) -> Seq<char> {
    let rest = t.skip(3);
    if rest.len() > 0 && rest[0] == '+' {
        rest.skip(1)
    } else {
        rest
    }
}

/// The level encoded by a result type: `content` (page text under the
/// root) is level zero; otherwise `lvl` followed by a decimal number (as
/// `usize::from_str` reads it) no greater than six.
pub open spec fn level_of_type(t: Seq<char>) -> Option<nat> {
    let d = level_digits(t);
    if t == "content"@ {
        Some(0)
    } else if t.len() >= 3 && t[0] == 'l' && t[1] == 'v' && t[2] == 'l' && d.len() > 0 && (forall|k: int|
        0 <= k < d.len() ==> '0' <= #[trigger] d[k] <= '9') && digits_value(d, 0, d.len() as int, 10)
        <= 6 {
        Some(digits_value(d, 0, d.len() as int, 10))
    } else {
        None
    }
}

/// Result types name their level: `lvl` followed by one digit from 0 to 6
/// is that level, followed by 7, 8 or 9 it is no level, and `content` is
/// the root level.
pub proof fn lemma_result_type_levels(d: nat)
    requires
        d < 10,
    ensures
        level_of_type("lvl"@ + seq![(48 + d) as char]) == (if d <= 6 {
            Some(d)
        } else {
            None::<nat>
        }),
        level_of_type("content"@) == Some(0nat),
{
    reveal_strlit("lvl");
    reveal_strlit("content");
    let c = (48 + d) as char;
    let t = "lvl"@ + seq![c];
    assert(t.len() == 4);
    assert(t != "content"@);
    assert(t[0] == 'l' && t[1] == 'v' && t[2] == 'l' && t[3] == c);
    let digits = level_digits(t);
    assert(digits =~= seq![c]);
    assert(digits_value(digits, 0, 0, 10) == 0);
    assert(digit_value(c) == d);
    assert(digits_value(digits, 0, 1, 10) == d);
}

impl SearchResultHierarchy {
    /// The hierarchy value at each level from zero through six.
    pub open spec fn level_spec(&self, level: int) -> Option<Seq<char>> {
        if level == 0 {
            Some(self.lvl0@)
        } else if level == 1 {
            optional_view(self.lvl1)
        } else if level == 2 {
            optional_view(self.lvl2)
        } else if level == 3 {
            optional_view(self.lvl3)
        } else if level == 4 {
            optional_view(self.lvl4)
        } else if level == 5 {
            optional_view(self.lvl5)
        } else if level == 6 {
            optional_view(self.lvl6)
        } else {
            None
        }
    }

    /// The populated hierarchy values, root first.
    pub open spec fn values_spec(&self) -> Seq<Seq<char>> {
        seq![self.lvl0@] + present(self.lvl1) + present(self.lvl2) + present(self.lvl3) + present(
            self.lvl4,
        ) + present(self.lvl5) + present(self.lvl6)
    }

    /// Returns the hierarchy value at a level from zero through six.
    pub fn level(&self, level: usize) -> (res: Option<&str>)
        ensures
            match res {
                Some(s) => self.level_spec(level as int) == Some(s@),
                None => self.level_spec(level as int) is None,
            },
    {
        match level {
            0 => Some(self.lvl0.as_str()),
            1 => optional_str(&self.lvl1),
            2 => optional_str(&self.lvl2),
            3 => optional_str(&self.lvl3),
            4 => optional_str(&self.lvl4),
            5 => optional_str(&self.lvl5),
            6 => optional_str(&self.lvl6),
            _ => None,
        }
    }

    /// Returns all populated hierarchy values in display order.
    pub fn values(&self) -> (res: Vec<&str>)
        ensures
            res@.map_values(|s: &str| s@) == self.values_spec(),
    {
        let mut out: Vec<&str> = Vec::new();
        out.push(self.lvl0.as_str());
        push_present(&mut out, &self.lvl1);
        push_present(&mut out, &self.lvl2);
        push_present(&mut out, &self.lvl3);
        push_present(&mut out, &self.lvl4);
        push_present(&mut out, &self.lvl5);
        push_present(&mut out, &self.lvl6);
        out
    }
}

/// The number of levels below `k` that hold a value.
pub open spec fn present_below(h: SearchResultHierarchy, k: int) -> nat
    decreases k,
{
    if k <= 0 {
        0
    } else {
        present_below(h, k - 1) + if h.level_spec(k - 1) is Some {
            1nat
        } else {
            0nat
        }
    }
}

/// The values of the levels below `k` that hold one, in level order.
spec fn values_below(h: SearchResultHierarchy, k: int) -> Seq<Seq<char>>
    decreases k,
{
    if k <= 0 {
        Seq::empty()
    } else {
        values_below(h, k - 1) + match h.level_spec(k - 1) {
            Some(v) => seq![v],
            None => Seq::empty(),
        }
    }
}

proof fn lemma_values_below(h: SearchResultHierarchy, m: int)
    requires
        0 <= m,
    ensures
        values_below(h, m).len() == present_below(h, m),
        forall|k: int|
            0 <= k < m ==> (#[trigger] h.level_spec(k) matches Some(v) ==> values_below(h, m)[present_below(
                h,
                k,
            ) as int] == v),
    decreases m,
{
    if m > 0 {
        lemma_values_below(h, m - 1);
        assert forall|k: int|
            0 <= k < m implies (#[trigger] h.level_spec(k) matches Some(v) ==> values_below(h, m)[present_below(
            h,
            k,
        ) as int] == v) by {
            if k < m - 1 {
                lemma_present_below_grows(h, k + 1, m - 1);
            }
        }
    }
}

proof fn lemma_present_below_grows(h: SearchResultHierarchy, k: int, m: int)
    requires
        0 <= k <= m,
    ensures
        present_below(h, k) <= present_below(h, m),
    decreases m - k,
{
    if k < m {
        lemma_present_below_grows(h, k, m - 1);
    }
}

/// The populated hierarchy values are exactly the levels that hold a value,
/// in level order: there is one value per such level, and the value of
/// level `k` stands at the position given by the number of levels below
/// `k` that hold a value.
pub proof fn lemma_values_are_the_present_levels(h: SearchResultHierarchy)
    ensures
        h.values_spec().len() == present_below(h, 7),
        forall|k: int|
            0 <= k <= 6 ==> (#[trigger] h.level_spec(k) matches Some(v) ==> h.values_spec()[present_below(
                h,
                k,
            ) as int] == v),
{
    reveal_with_fuel(values_below, 8);
    assert(h.values_spec() =~= values_below(h, 7));
    lemma_values_below(h, 7);
}

/// The value of a present optional string.
fn optional_str(o: &Option<String>) -> (res: Option<&str>)
    ensures
        match res {
            Some(s) => optional_view(*o) == Some(s@),
            None => o is None,
        },
{
    match o {
        Some(s) => Some(s.as_str()),
        None => None,
    }
}

/// Appends the value of `o`, when present, to `out`.
fn push_present<'a>(out: &mut Vec<&'a str>, o: &'a Option<String>)
    ensures
        final(out)@.map_values(|s: &str| s@) == old(out)@.map_values(|s: &str| s@) + present(*o),
{
    let ghost before = out@.map_values(|s: &str| s@);
    match o {
        Some(s) => {
            out.push(s.as_str());
            assert(out@.map_values(|s: &str| s@) =~= before + present(*o));
        },
        None => {
            assert(out@.map_values(|s: &str| s@) =~= before + present(*o));
        },
    }
}

impl SearchResult {
    /// Returns the hierarchy level encoded by the result type.
    pub fn hierarchy_level(&self) -> (res: Result<usize, ResultError>)
        ensures
            match res {
                Ok(level) => level_of_type(self.result_type@) == Some(level as nat),
                Err(e) => level_of_type(self.result_type@) is None && e.failure()
                    == ResultFailure::InvalidResultType(self.result_type@),
            },
    {
        let t = chars_of(self.result_type.as_str());
        let ghost d = level_digits(t@);
        if same_chars(t.as_slice(), chars_of("content").as_slice()) {
            return Ok(0);
        }
        proof {
            reveal_strlit("content");
        }
        if t.len() < 3 || t[0] != 'l' || t[1] != 'v' || t[2] != 'l' {
            return Err(ResultError::InvalidResultType(self.result_type.clone()));
        }
        let mut start: usize = 3;
        if t.len() > 3 && t[3] == '+' {
            start = 4;
        }
        assert(d =~= t@.skip(start as int));
        if start >= t.len() {
            return Err(ResultError::InvalidResultType(self.result_type.clone()));
        }
        // The value read so far, capped at seven.
        let mut value: usize = 0;
        let mut k: usize = start;
        while k < t.len()
            invariant
                start <= k <= t.len(),
                d == t@.skip(start as int),
                d == level_digits(t@),
                t@ == self.result_type@,
                t@ != "content"@,
                t@.len() >= 3 && t@[0] == 'l' && t@[1] == 'v' && t@[2] == 'l',
                forall|j: int| 0 <= j < k - start ==> '0' <= #[trigger] d[j] <= '9',
                value == (if digits_value(d, 0, k - start, 10) >= 7 {
                    7
                } else {
                    digits_value(d, 0, k - start, 10)
                }),
            decreases t.len() - k,
        {
            let c = t[k];
            if !('0' <= c && c <= '9') {
                assert(d[k - start] == c);
                assert(!(forall|j: int| 0 <= j < d.len() ==> '0' <= #[trigger] d[j] <= '9'));
                assert(level_of_type(t@) is None);
                return Err(ResultError::InvalidResultType(self.result_type.clone()));
            }
            let digit: usize = ((c as u32) - 48) as usize;
            let ghost before = digits_value(d, 0, k - start, 10);
            assert(digits_value(d, 0, k - start + 1, 10) == before * 10 + digit);
            if value < 7 {
                value = value * 10 + digit;
                if value > 7 {
                    value = 7;
                }
            } else {
                assert(before * 10 + digit >= 7) by (nonlinear_arith)
                    requires
                        before >= 7,
                ;
            }
            k = k + 1;
        }
        if value > 6 {
            return Err(ResultError::InvalidResultType(self.result_type.clone()));
        }
        Ok(value)
    }
}

} // verus!
