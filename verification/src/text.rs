//! Character-level helpers shared by the workflow's string logic.

use vstd::prelude::*;
use vstd::std_specs::iter::IteratorSpec;

verus! {

/// Collects the characters of `s` in order.
pub fn chars_of(s: &str) -> (res: Vec<char>)
    ensures
        res@ == s@,
{
    let mut out: Vec<char> = Vec::new();
    for c in it: s.chars()
        invariant
            out@ == it.seq().take(it.index()),
    {
        out.push(c);
    }
    out
}


/// Builds a `String` holding exactly the characters of `cs`, in order.
///
/// Calls `FromIterator<&char>` for `String` from std, which appends each
/// character of the iterator in order; the contract claims exactly that.
#[verifier::external_body]
pub(crate) fn string_from_chars(cs: &[char]) -> (res: String)
    ensures
        res@ == cs@,
{
    cs.iter().collect()
}

/// The ASCII digit character for a value below ten.
pub open spec fn digit_char(d: nat) -> char {
    (48 + d) as char
}

/// The decimal representation of `n`, most significant digit first, without
/// leading zeros (zero is written `0`).
pub open spec fn decimal(n: nat) -> Seq<char>
    decreases n,
{
    if n < 10 {
        seq![digit_char(n)]
    } else {
        decimal(n / 10).push(digit_char(n % 10))
    }
}

/// Writes `n` in decimal.
pub fn decimal_string(n: u64) -> (res: String)
    ensures
        res@ == decimal(n as nat),
{
    // Digits are produced least significant first, then reversed.
    let mut rev: Vec<char> = Vec::new();
    let mut m: u64 = n;
    loop
        invariant_except_break
            decimal(n as nat) == decimal(m as nat) + rev@.reverse(),
        ensures
            decimal(n as nat) == rev@.reverse(),
        decreases m,
    {
        let d: u8 = (m % 10) as u8;
        let c: char = (48u8 + d) as char;
        assert(c == digit_char((m % 10) as nat));
        let ghost prev = rev@;
        rev.push(c);
        assert(rev@.reverse() == seq![c] + prev.reverse()) by {
            assert(rev@.drop_last() == prev);
            assert(rev@.reverse() =~= seq![c] + rev@.drop_last().reverse());
        }
        if m < 10 {
            assert(decimal(m as nat) == seq![c]);
            break;
        }
        let ghost old_m = m;
        m = m / 10;
        assert(decimal(old_m as nat) == decimal(m as nat).push(c));
    }
    let mut out: Vec<char> = Vec::new();
    let mut i: usize = rev.len();
    while i > 0
        invariant
            i <= rev.len(),
            out@ == rev@.subrange(i as int, rev.len() as int).reverse(),
        decreases i,
    {
        i = i - 1;
        out.push(rev[i]);
        assert(rev@.subrange(i as int, rev.len() as int)
            == seq![rev@[i as int]] + rev@.subrange(i + 1, rev.len() as int));
    }
    assert(rev@.subrange(0, rev.len() as int) == rev@);
    string_from_chars(out.as_slice())
}


/// Whether two character sequences are equal.
pub fn same_chars(a: &[char], b: &[char]) -> (res: bool)
    ensures
        res == (a@ == b@),
{
    if a.len() != b.len() {
        return false;
    }
    let mut i: usize = 0;
    while i < a.len()
        invariant
            a.len() == b.len(),
            i <= a.len(),
            forall|k: int| 0 <= k < i ==> a@[k] == b@[k],
        decreases a.len() - i,
    {
        if a[i] != b[i] {
            return false;
        }
        i = i + 1;
    }
    assert(a@ =~= b@);
    true
}

/// Whether `a` begins with `prefix`.
pub fn starts_with_chars(a: &[char], prefix: &[char]) -> (res: bool)
    ensures
        res == (prefix@.len() <= a@.len() && a@.take(prefix@.len() as int) == prefix@),
{
    if prefix.len() > a.len() {
        return false;
    }
    let mut i: usize = 0;
    while i < prefix.len()
        invariant
            prefix.len() <= a.len(),
            i <= prefix.len(),
            forall|k: int| 0 <= k < i ==> a@[k] == prefix@[k],
        decreases prefix.len() - i,
    {
        if a[i] != prefix[i] {
            return false;
        }
        i = i + 1;
    }
    assert(a@.take(prefix@.len() as int) =~= prefix@);
    true
}

/// The characters of `a` from index `from` to index `to`, as a `String`.
pub fn string_of_range(a: &[char], from: usize, to: usize) -> (res: String)
    requires
        from <= to <= a@.len(),
    ensures
        res@ == a@.subrange(from as int, to as int),
{
    let mut out: Vec<char> = Vec::new();
    let mut i: usize = from;
    while i < to
        invariant
            from <= i <= to <= a@.len(),
            out@ == a@.subrange(from as int, i as int),
        decreases to - i,
    {
        out.push(a[i]);
        i = i + 1;
        assert(out@ =~= a@.subrange(from as int, i as int));
    }
    string_from_chars(out.as_slice())
}


/// Whether `c` has the Unicode `White_Space` property, as listed in the
/// Unicode Character Database file PropList.txt: the controls U+0009 to
/// U+000D, the space, U+0085, the no-break space U+00A0, U+1680, the spaces
/// U+2000 to U+200A, the separators U+2028 and U+2029, U+202F, U+205F and
/// the ideographic space U+3000.
pub open spec fn unicode_white_space(c: char) -> bool {
    let v = c as u32;
    ||| 0x09 <= v <= 0x0D
    ||| v == 0x20
    ||| v == 0x85
    ||| v == 0xA0
    ||| v == 0x1680
    ||| 0x2000 <= v <= 0x200A
    ||| v == 0x2028
    ||| v == 0x2029
    ||| v == 0x202F
    ||| v == 0x205F
    ||| v == 0x3000
}

/// Unicode lowercase of a string, as std's `str::to_lowercase` computes it.
pub uninterp spec fn unicode_lowercase(s: Seq<char>) -> Seq<char>;

/// Calls std's `char::is_whitespace`. Its documentation says it returns
/// whether the character has the `White_Space` property of PropList.txt;
/// the contract states that list.
#[verifier::external_body]
pub(crate) fn is_whitespace(c: char) -> (res: bool)
    ensures
        res == unicode_white_space(c),
{
    c.is_whitespace()
}

/// Calls std's `str::to_lowercase`, which returns the Unicode lowercase
/// equivalent of the string. The contract names that result and states
/// that it is empty exactly when the input is: the documentation of
/// `char::to_lowercase` gives every character a lowercase mapping of one or
/// more characters. The case tables, and what lowercasing does to spaces,
/// are not stated: the documentation does not give them.
#[verifier::external_body]
pub(crate) fn to_lowercase(s: &str) -> (res: String)
    ensures
        res@ == unicode_lowercase(s@),
        res@.len() == 0 <==> s@.len() == 0,
{
    s.to_lowercase()
}

/// A character that separates words: Unicode whitespace.
pub open spec fn is_separator(c: char) -> bool {
    unicode_white_space(c)
}

/// The whitespace-separated words of `s` from index `i` on, where `current`
/// is the word being read and `done` the words already complete.
pub open spec fn words_from(s: Seq<char>, i: int, current: Seq<char>, done: Seq<Seq<char>>) -> Seq<
    Seq<char>,
>
    decreases s.len() - i,
{
    if i < 0 || i >= s.len() {
        if current.len() > 0 {
            done.push(current)
        } else {
            done
        }
    } else if is_separator(s[i]) {
        words_from(
            s,
            i + 1,
            Seq::empty(),
            if current.len() > 0 {
                done.push(current)
            } else {
                done
            },
        )
    } else {
        words_from(s, i + 1, current.push(s[i]), done)
    }
}

/// The maximal runs of non-whitespace characters of `s`, in order.
pub open spec fn words(s: Seq<char>) -> Seq<Seq<char>> {
    words_from(s, 0, Seq::empty(), Seq::empty())
}

/// The words of `list` with `sep` between consecutive ones.
pub open spec fn join_with(list: Seq<Seq<char>>, sep: Seq<char>) -> Seq<char>
    decreases list.len(),
{
    if list.len() == 0 {
        Seq::empty()
    } else if list.len() == 1 {
        list[0]
    } else {
        join_with(list.drop_last(), sep) + sep + list.last()
    }
}

/// A word: non-empty and free of whitespace.
pub open spec fn is_word(w: Seq<char>) -> bool {
    w.len() > 0 && forall|k: int| 0 <= k < w.len() ==> !is_separator(#[trigger] w[k])
}

/// The complete words after the word being read ends.
pub open spec fn flush(current: Seq<char>, done: Seq<Seq<char>>) -> Seq<Seq<char>> {
    if current.len() > 0 {
        done.push(current)
    } else {
        done
    }
}

/// The reading state after `s` from index `i` on: the word being read and
/// the complete words.
pub open spec fn scan(s: Seq<char>, i: int, current: Seq<char>, done: Seq<Seq<char>>) -> (
    Seq<char>,
    Seq<Seq<char>>,
)
    decreases s.len() - i,
{
    if i < 0 || i >= s.len() {
        (current, done)
    } else if is_separator(s[i]) {
        scan(s, i + 1, Seq::empty(), flush(current, done))
    } else {
        scan(s, i + 1, current.push(s[i]), done)
    }
}

proof fn lemma_words_from_is_flushed_scan(
    s: Seq<char>,
    i: int,
    current: Seq<char>,
    done: Seq<Seq<char>>,
)
    ensures
        words_from(s, i, current, done) == flush(
            scan(s, i, current, done).0,
            scan(s, i, current, done).1,
        ),
    decreases s.len() - i,
{
    if 0 <= i < s.len() {
        if is_separator(s[i]) {
            lemma_words_from_is_flushed_scan(s, i + 1, Seq::empty(), flush(current, done));
        } else {
            lemma_words_from_is_flushed_scan(s, i + 1, current.push(s[i]), done);
        }
    }
}

proof fn lemma_scan_prefix(
    x: Seq<char>,
    z: Seq<char>,
    i: int,
    current: Seq<char>,
    done: Seq<Seq<char>>,
)
    requires
        0 <= i <= x.len(),
    ensures
        words_from(x + z, i, current, done) == words_from(
            x + z,
            x.len() as int,
            scan(x, i, current, done).0,
            scan(x, i, current, done).1,
        ),
    decreases x.len() - i,
{
    if i < x.len() {
        assert((x + z)[i] == x[i]);
        if is_separator(x[i]) {
            lemma_scan_prefix(x, z, i + 1, Seq::empty(), flush(current, done));
        } else {
            lemma_scan_prefix(x, z, i + 1, current.push(x[i]), done);
        }
    }
}

proof fn lemma_words_from_run(
    s: Seq<char>,
    i: int,
    j: int,
    current: Seq<char>,
    done: Seq<Seq<char>>,
)
    requires
        0 <= i <= j <= s.len(),
        forall|k: int| i <= k < j ==> !is_separator(#[trigger] s[k]),
    ensures
        words_from(s, i, current, done) == words_from(s, j, current + s.subrange(i, j), done),
    decreases j - i,
{
    if i < j {
        lemma_words_from_run(s, i + 1, j, current.push(s[i]), done);
        assert(current.push(s[i]) + s.subrange(i + 1, j) =~= current + s.subrange(i, j));
    } else {
        assert(current + s.subrange(i, j) =~= current);
    }
}

/// Every word that splitting produces is a word: non-empty and free of
/// whitespace.
pub proof fn lemma_words_are_words(s: Seq<char>, i: int, current: Seq<char>, done: Seq<Seq<char>>)
    requires
        forall|k: int| 0 <= k < done.len() ==> is_word(#[trigger] done[k]),
        forall|k: int| 0 <= k < current.len() ==> !is_separator(#[trigger] current[k]),
    ensures
        forall|k: int|
            0 <= k < words_from(s, i, current, done).len() ==> is_word(
                #[trigger] words_from(s, i, current, done)[k],
            ),
    decreases s.len() - i,
{
    let flushed = flush(current, done);
    assert forall|k: int| 0 <= k < flushed.len() implies is_word(#[trigger] flushed[k]) by {
        if k < done.len() {
            assert(flushed[k] == done[k]);
        }
    }
    if 0 <= i < s.len() {
        if is_separator(s[i]) {
            lemma_words_are_words(s, i + 1, Seq::empty(), flushed);
            assert(words_from(s, i, current, done) == words_from(s, i + 1, Seq::empty(), flushed));
        } else {
            let next = current.push(s[i]);
            assert forall|k: int| 0 <= k < next.len() implies !is_separator(#[trigger] next[k]) by {
                if k < current.len() {
                    assert(next[k] == current[k]);
                }
            }
            lemma_words_are_words(s, i + 1, next, done);
            assert(words_from(s, i, current, done) == words_from(s, i + 1, next, done));
        }
    } else {
        assert(words_from(s, i, current, done) == flushed);
    }
}

/// Joining words with single spaces and splitting the result at whitespace
/// gives the words back.
pub proof fn lemma_words_of_joined_words(list: Seq<Seq<char>>)
    requires
        forall|k: int| 0 <= k < list.len() ==> is_word(#[trigger] list[k]),
    ensures
        words(join_with(list, seq![' '])) == list,
    decreases list.len(),
{
    let sp: Seq<char> = seq![' '];
    if list.len() == 0 {
        assert(words(join_with(list, sp)) =~= list);
    } else if list.len() == 1 {
        let w = list[0];
        assert(is_word(w));
        lemma_words_from_run(w, 0, w.len() as int, Seq::empty(), Seq::empty());
        assert(Seq::<char>::empty() + w.subrange(0, w.len() as int) =~= w);
        assert(words(w) =~= seq![w]);
        assert(list =~= seq![w]);
    } else {
        let rest = list.drop_last();
        let y = list.last();
        assert(is_word(list[list.len() - 1]));
        assert forall|k: int| 0 <= k < rest.len() implies is_word(#[trigger] rest[k]) by {
            assert(rest[k] == list[k]);
        }
        lemma_words_of_joined_words(rest);
        let x = join_with(rest, sp);
        let s = join_with(list, sp);
        let z = sp + y;
        assert(s =~= x + z);
        lemma_scan_prefix(x, z, 0, Seq::empty(), Seq::empty());
        lemma_words_from_is_flushed_scan(x, 0, Seq::empty(), Seq::empty());
        let st = scan(x, 0, Seq::empty(), Seq::empty());
        assert(s[x.len() as int] == ' ');
        assert(words_from(s, x.len() as int, st.0, st.1) == words_from(
            s,
            (x.len() + 1) as int,
            Seq::empty(),
            rest,
        ));
        assert forall|k: int| x.len() + 1 <= k < s.len() implies !is_separator(
            #[trigger] s[k],
        ) by {
            assert(s[k] == y[k - x.len() - 1]);
        }
        lemma_words_from_run(s, (x.len() + 1) as int, s.len() as int, Seq::empty(), rest);
        assert(Seq::<char>::empty() + s.subrange((x.len() + 1) as int, s.len() as int) =~= y);
        assert(rest.push(y) =~= list);
    }
}

/// Words joined by single spaces have the normal form of a query: the text
/// is empty exactly when there are no words, it neither starts nor ends
/// with whitespace, and every whitespace character in it is a single space
/// between two other characters.
pub proof fn lemma_joined_words_form(list: Seq<Seq<char>>)
    requires
        forall|k: int| 0 <= k < list.len() ==> is_word(#[trigger] list[k]),
    ensures
        join_with(list, seq![' ']).len() == 0 <==> list.len() == 0,
        forall|k: int|
            0 <= k < join_with(list, seq![' ']).len() && is_separator(
                #[trigger] join_with(list, seq![' '])[k],
            ) ==> join_with(list, seq![' '])[k] == ' ' && 0 < k < join_with(list, seq![' ']).len()
                - 1 && !is_separator(join_with(list, seq![' '])[k - 1]) && !is_separator(
                join_with(list, seq![' '])[k + 1],
            ),
    decreases list.len(),
{
    let sp: Seq<char> = seq![' '];
    if list.len() == 1 {
        assert(is_word(list[0]));
    } else if list.len() >= 2 {
        let rest = list.drop_last();
        let y = list.last();
        assert(is_word(list[list.len() - 1]));
        assert forall|k: int| 0 <= k < rest.len() implies is_word(#[trigger] rest[k]) by {
            assert(rest[k] == list[k]);
        }
        lemma_joined_words_form(rest);
        let x = join_with(rest, sp);
        let j = join_with(list, sp);
        assert(j == x + sp + y);
        let n = x.len() as int;
        if is_separator(x[n - 1]) {
            assert(n - 1 < n - 1);
        }
        assert forall|k: int| 0 <= k < j.len() && is_separator(#[trigger] j[k]) implies j[k] == ' '
            && 0 < k < j.len() - 1 && !is_separator(j[k - 1]) && !is_separator(j[k + 1]) by {
            if k < n {
                assert(j[k] == x[k]);
                assert(is_separator(x[k]));
                assert(j[k - 1] == x[k - 1]);
                assert(j[k + 1] == x[k + 1]);
            } else if k == n {
                assert(j[k - 1] == x[n - 1]);
                assert(j[k + 1] == y[0]);
            } else {
                assert(j[k] == y[k - n - 1]);
            }
        }
    }
}

/// Keeping the words that satisfy `keep` leaves none exactly when no word
/// satisfies it.
pub proof fn lemma_filter_empty(list: Seq<Seq<char>>, keep: spec_fn(Seq<char>) -> bool)
    ensures
        list.filter(keep).len() == 0 <==> forall|k: int| 0 <= k < list.len() ==> !keep(
            #[trigger] list[k],
        ),
    decreases list.len(),
{
    reveal(Seq::filter);
    if list.len() > 0 {
        let rest = list.drop_last();
        lemma_filter_empty(rest, keep);
        if forall|k: int| 0 <= k < list.len() ==> !keep(#[trigger] list[k]) {
            assert forall|k: int| 0 <= k < rest.len() implies !keep(#[trigger] rest[k]) by {
                assert(rest[k] == list[k]);
            }
            assert(!keep(list[list.len() - 1]));
        }
        if list.filter(keep).len() == 0 {
            assert(!keep(list.last()));
            assert forall|k: int| 0 <= k < list.len() implies !keep(#[trigger] list[k]) by {
                if k < rest.len() {
                    assert(rest[k] == list[k]);
                }
            }
        }
    }
}

/// Splits `s` at Unicode whitespace, dropping empty words.
pub fn split_whitespace(s: &[char]) -> (res: Vec<Vec<char>>)
    ensures
        res@.map_values(|w: Vec<char>| w@) == words(s@),
{
    let mut done: Vec<Vec<char>> = Vec::new();
    let mut current: Vec<char> = Vec::new();
    let mut i: usize = 0;
    assert(done@.map_values(|w: Vec<char>| w@) =~= Seq::<Seq<char>>::empty());
    while i < s.len()
        invariant
            i <= s.len(),
            words(s@) == words_from(
                s@,
                i as int,
                current@,
                done@.map_values(|w: Vec<char>| w@),
            ),
        decreases s.len() - i,
    {
        let ghost before = done@.map_values(|w: Vec<char>| w@);
        if is_whitespace(s[i]) {
            if current.len() > 0 {
                let ghost cur = current@;
                done.push(current);
                assert(done@.map_values(|w: Vec<char>| w@) =~= before.push(cur));
            }
            current = Vec::new();
        } else {
            current.push(s[i]);
        }
        i = i + 1;
    }
    if current.len() > 0 {
        let ghost before = done@.map_values(|w: Vec<char>| w@);
        let ghost cur = current@;
        done.push(current);
        assert(done@.map_values(|w: Vec<char>| w@) =~= before.push(cur));
    }
    done
}

/// Joins `list` with `sep` between consecutive words.
pub fn join_chars(list: &Vec<Vec<char>>, sep: &[char]) -> (res: Vec<char>)
    ensures
        res@ == join_with(list@.map_values(|w: Vec<char>| w@), sep@),
{
    let ghost views = list@.map_values(|w: Vec<char>| w@);
    let mut out: Vec<char> = Vec::new();
    let mut k: usize = 0;
    while k < list.len()
        invariant
            k <= list.len(),
            views == list@.map_values(|w: Vec<char>| w@),
            out@ == join_with(views.take(k as int), sep@),
        decreases list.len() - k,
    {
        if k > 0 {
            append_chars(&mut out, sep);
        }
        append_chars(&mut out, list[k].as_slice());
        assert(views.take(k + 1).drop_last() =~= views.take(k as int));
        k = k + 1;
    }
    assert(views.take(list.len() as int) =~= views);
    out
}

/// Appends `extra` to `out`.
pub fn append_chars(out: &mut Vec<char>, extra: &[char])
    ensures
        final(out)@ == old(out)@ + extra@,
{
    let mut i: usize = 0;
    while i < extra.len()
        invariant
            i <= extra.len(),
            out@ == old(out)@ + extra@.take(i as int),
        decreases extra.len() - i,
    {
        out.push(extra[i]);
        i = i + 1;
        assert(out@ =~= old(out)@ + extra@.take(i as int));
    }
    assert(extra@.take(extra.len() as int) =~= extra@);
}

} // verus!
