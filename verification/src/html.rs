//! Decoding of HTML character references in hierarchy text.

use vstd::prelude::*;

use crate::text::{append_chars, chars_of, decimal, digit_char, string_from_chars, string_of_range};

verus! {

/// Text with its HTML character references expanded, as `htmlize::unescape`
/// computes it.
pub uninterp spec fn html_unescaped(s: Seq<char>) -> Seq<char>;

/// Calls `htmlize::unescape`, which expands the HTML character references
/// of `s`. Its source scans for `&` and hands the input back unchanged when
/// there is none; the contract states that case and otherwise names the
/// result. The entity table and the matching rules are not restated.
#[verifier::external_body]
pub(crate) fn unescape_html(s: &str) -> (res: String)
    ensures
        res@ == html_unescaped(s@),
        !s@.contains('&') ==> res@ == s@,
{
    htmlize::unescape(s).into_owned()
}

/// Whether `v` is a Unicode scalar value, i.e. the code of some `char`.
pub open spec fn is_scalar_value(v: int) -> bool {
    (0 <= v < 0xD800) || (0xE000 <= v <= 0x10FFFF)
}

/// Calls std's `char::from_u32`, which the documentation says returns the
/// `char` with code `v`, or `None` when `v` is not the code of a `char`.
#[verifier::external_body]
pub(crate) fn char_from_u32(v: u32) -> (res: Option<char>)
    ensures
        res == (if is_scalar_value(v as int) {
            Some(v as char)
        } else {
            None::<char>
        }),
{
    char::from_u32(v)
}

/// Whether `c` is a digit of a decimal (`hex` false) or hexadecimal
/// (`hex` true) number.
pub open spec fn is_reference_digit(c: char, hex: bool) -> bool {
    ('0' <= c <= '9') || (hex && (('a' <= c <= 'f') || ('A' <= c <= 'F')))
}

/// The value of digit `c`.
pub open spec fn digit_value(c: char) -> nat {
    if '0' <= c <= '9' {
        (c as int - 48) as nat
    } else if 'a' <= c <= 'f' {
        (c as int - 87) as nat
    } else {
        (c as int - 55) as nat
    }
}

/// The first index at or after `from` that does not hold a digit.
pub open spec fn digits_end(t: Seq<char>, from: int, hex: bool) -> int
    decreases t.len() - from,
{
    if from < 0 || from >= t.len() || !is_reference_digit(t[from], hex) {
        from
    } else {
        digits_end(t, from + 1, hex)
    }
}

/// The number written by the digits `t[from..to]` in base `radix`.
pub open spec fn digits_value(t: Seq<char>, from: int, to: int, radix: nat) -> nat
    decreases to - from,
{
    if to <= from {
        0
    } else {
        digits_value(t, from, to - 1, radix) * radix + digit_value(t[to - 1])
    }
}

/// The numeric character reference that starts with `&#` at `start`, as
/// the legacy decoder reads it: the index just past the reference, and the
/// character it denotes, or `None` for the character when the reference is
/// kept as written (no `;`, an uppercase `X`, or a value that is no `char`).
/// `None` overall when no digit follows.
pub open spec fn numeric_reference(t: Seq<char>, start: int) -> Option<(int, Option<char>)> {
    let p = start + 2;
    let hex = p < t.len() && (t[p] == 'x' || t[p] == 'X');
    let uppercase_x = p < t.len() && t[p] == 'X';
    let first_digit = if hex {
        p + 1
    } else {
        p
    };
    let after_digits = digits_end(t, first_digit, hex);
    if after_digits == first_digit {
        None
    } else {
        let terminated = after_digits < t.len() && t[after_digits] == ';';
        let end = if terminated {
            after_digits + 1
        } else {
            after_digits
        };
        if !terminated || uppercase_x {
            Some((end, None))
        } else {
            let v = digits_value(
                t,
                first_digit,
                after_digits,
                if hex {
                    16
                } else {
                    10
                },
            );
            if v <= u32::MAX && is_scalar_value(v as int) {
                Some((end, Some(v as char)))
            } else {
                Some((end, None))
            }
        }
    }
}

proof fn lemma_digits_end(t: Seq<char>, from: int, hex: bool)
    requires
        0 <= from,
    ensures
        from <= digits_end(t, from, hex),
        from <= t.len() ==> digits_end(t, from, hex) <= t.len(),
        forall|k: int| from <= k < digits_end(t, from, hex) ==> is_reference_digit(t[k], hex),
        digits_end(t, from, hex) < t.len() ==> !is_reference_digit(
            t[digits_end(t, from, hex)],
            hex,
        ),
    decreases t.len() - from,
{
    if from < t.len() && is_reference_digit(t[from], hex) {
        lemma_digits_end(t, from + 1, hex);
    }
}

/// A reference that is recognised ends after its `&#` and a digit, and
/// within the text.
pub proof fn lemma_numeric_reference_bounds(t: Seq<char>, start: int)
    requires
        0 <= start,
    ensures
        numeric_reference(t, start) matches Some((end, c)) ==> start + 3 <= end <= t.len(),
{
    let p = start + 2;
    lemma_digits_end(t, p, p < t.len() && (t[p] == 'x' || t[p] == 'X'));
    lemma_digits_end(t, p + 1, p < t.len() && (t[p] == 'x' || t[p] == 'X'));
}

proof fn lemma_digits_value_grows(t: Seq<char>, from: int, to: int, radix: nat)
    requires
        from <= to,
        radix >= 1,
    ensures
        digits_value(t, from, to + 1, radix) >= digits_value(t, from, to, radix),
{
    let v = digits_value(t, from, to, radix);
    assert(v * radix >= v) by (nonlinear_arith)
        requires
            radix >= 1,
    ;
}

/// Reads the numeric character reference whose `&#` starts at index
/// `start` of `text` (indices count characters).
pub fn legacy_numeric_reference(text: &[char], start: usize) -> (res: Option<(usize, Option<char>)>)
    requires
        start + 2 <= usize::MAX,
    ensures
        match res {
            None => numeric_reference(text@, start as int) is None,
            Some((end, c)) => numeric_reference(text@, start as int) == Some((end as int, c)),
        },
{
    let t = text;
    let mut cursor: usize = start + 2;
    let mut hex = false;
    let mut uppercase_x = false;
    if cursor < t.len() && t[cursor] == 'x' {
        hex = true;
        cursor = cursor + 1;
    } else if cursor < t.len() && t[cursor] == 'X' {
        hex = true;
        uppercase_x = true;
        cursor = cursor + 1;
    }
    let first_digit = cursor;
    let radix: u32 = if hex {
        16
    } else {
        10
    };
    let ghost r: nat = radix as nat;
    // The value read so far, while it fits a `u32`.
    let mut value: u32 = 0;
    let mut overflow = false;
    proof {
        lemma_digits_end(t@, first_digit as int, hex);
    }
    while cursor < t.len() && (('0' <= t[cursor] && t[cursor] <= '9') || (hex && (('a'
        <= t[cursor] && t[cursor] <= 'f') || ('A' <= t[cursor] && t[cursor] <= 'F'))))
        invariant
            first_digit <= cursor,
            cursor <= digits_end(t@, first_digit as int, hex),
            forall|k: int|
                first_digit <= k < digits_end(t@, first_digit as int, hex) ==> is_reference_digit(
                    t@[k],
                    hex,
                ),
            digits_end(t@, first_digit as int, hex) < t@.len() ==> !is_reference_digit(
                t@[digits_end(t@, first_digit as int, hex)],
                hex,
            ),
            first_digit <= t@.len() ==> digits_end(t@, first_digit as int, hex) <= t@.len(),
            r == (if hex {
                16nat
            } else {
                10nat
            }),
            radix as nat == r,
            !overflow ==> value as nat == digits_value(t@, first_digit as int, cursor as int, r),
            overflow ==> digits_value(t@, first_digit as int, cursor as int, r) > u32::MAX,
        decreases t.len() - cursor,
    {
        let c = t[cursor];
        let d: u32 = if '0' <= c && c <= '9' {
            (c as u32) - 48
        } else if 'a' <= c && c <= 'f' {
            (c as u32) - 87
        } else {
            (c as u32) - 55
        };
        assert(d as nat == digit_value(c));
        proof {
            lemma_digits_value_grows(t@, first_digit as int, cursor as int, r);
        }
        if !overflow {
            match value.checked_mul(radix) {
                Some(scaled) => match scaled.checked_add(d) {
                    Some(next) => {
                        value = next;
                    },
                    None => {
                        overflow = true;
                    },
                },
                None => {
                    overflow = true;
                    assert(digits_value(t@, first_digit as int, cursor + 1, r) >= value * r);
                },
            }
        }
        cursor = cursor + 1;
    }
    if cursor == first_digit {
        return None;
    }
    let terminated = cursor < t.len() && t[cursor] == ';';
    let end = if terminated {
        cursor + 1
    } else {
        cursor
    };
    if !terminated || uppercase_x {
        return Some((end, None));
    }
    if overflow {
        Some((end, None))
    } else {
        Some((end, char_from_u32(value)))
    }
}

proof fn lemma_decimal_digits(n: nat)
    ensures
        decimal(n).len() >= 1,
        forall|k: int|
            0 <= k < decimal(n).len() ==> '0' <= #[trigger] decimal(n)[k] <= '9' && digit_value(
                decimal(n)[k],
            ) < 10,
    decreases n,
{
    if n >= 10 {
        lemma_decimal_digits(n / 10);
        assert forall|k: int| 0 <= k < decimal(n).len() implies '0' <= #[trigger] decimal(n)[k]
            <= '9' && digit_value(decimal(n)[k]) < 10 by {
            if k < decimal(n / 10).len() {
                assert(decimal(n)[k] == decimal(n / 10)[k]);
            }
        }
    }
}

proof fn lemma_decimal_value(t: Seq<char>, p: int, n: nat)
    requires
        0 <= p,
        p + decimal(n).len() <= t.len(),
        t.subrange(p, p + decimal(n).len()) == decimal(n),
    ensures
        digits_value(t, p, p + decimal(n).len(), 10) == n,
    decreases n,
{
    let d = decimal(n);
    let last = t[p + d.len() - 1];
    assert(last == d[d.len() - 1]);
    if n < 10 {
        assert(digits_value(t, p, p, 10) == 0);
        assert(last == digit_char(n));
        assert(digit_value(last) == n);
    } else {
        let m = n / 10;
        let dm = decimal(m);
        assert(d == dm.push(digit_char(n % 10)));
        assert(t.subrange(p, p + dm.len()) =~= d.subrange(0, dm.len() as int));
        assert(d.subrange(0, dm.len() as int) =~= dm);
        lemma_decimal_value(t, p, m);
        assert(last == digit_char(n % 10));
        assert(digit_value(last) == n % 10);
    }
}

proof fn lemma_decimal_leading(n: nat)
    requires
        n >= 10,
    ensures
        decimal(n).len() > 1,
        decimal(n)[0] != '0',
    decreases n,
{
    lemma_decimal_digits(n / 10);
    assert(decimal(n)[0] == decimal(n / 10)[0]);
    if n / 10 >= 10 {
        lemma_decimal_leading(n / 10);
    }
}

/// Writing a number in decimal and reading its digits back gives the
/// number; the digits are ASCII digits, and there is no leading zero.
pub proof fn lemma_decimal_reads_back(n: nat)
    ensures
        digits_value(decimal(n), 0, decimal(n).len() as int, 10) == n,
        forall|k: int| 0 <= k < decimal(n).len() ==> '0' <= #[trigger] decimal(n)[k] <= '9',
        decimal(n).len() > 1 ==> decimal(n)[0] != '0',
{
    lemma_decimal_digits(n);
    assert(decimal(n).subrange(0, decimal(n).len() as int) =~= decimal(n));
    lemma_decimal_value(decimal(n), 0, n);
    if n >= 10 {
        lemma_decimal_leading(n);
    }
}

proof fn lemma_digits_end_at(t: Seq<char>, from: int, to: int, hex: bool)
    requires
        0 <= from <= to <= t.len(),
        forall|k: int| from <= k < to ==> is_reference_digit(#[trigger] t[k], hex),
        to == t.len() || !is_reference_digit(t[to], hex),
    ensures
        digits_end(t, from, hex) == to,
    decreases to - from,
{
    if from < to {
        lemma_digits_end_at(t, from + 1, to, hex);
    }
}

/// A decimal numeric reference to a character, written without leading
/// zeros and closed by `;`, decodes to that character and ends after the
/// `;`.
pub proof fn lemma_decimal_reference_decodes(c: char)
    ensures
        ({
            let t = seq!['&', '#'] + decimal(c as nat) + seq![';'];
            numeric_reference(t, 0) == Some((t.len() as int, Some(c)))
        }),
{
    let d = decimal(c as nat);
    let t = seq!['&', '#'] + d + seq![';'];
    let e: int = 2 + d.len() as int;
    lemma_decimal_digits(c as nat);
    assert(t[2] == d[0]);
    assert(t[2] != 'x' && t[2] != 'X');
    assert forall|k: int| 2 <= k < 2 + d.len() implies is_reference_digit(#[trigger] t[k], false) by {
        assert(t[k] == d[k - 2]);
    }
    assert(t[e] == ';');
    lemma_digits_end_at(t, 2, e, false);
    assert(t.subrange(2, e) =~= d);
    lemma_decimal_value(t, 2, c as nat);
    assert(is_scalar_value(c as int));
}

/// The hexadecimal digit for a value below sixteen: `0` to `9`, then `a`
/// to `f`, or `A` to `F` when `upper`.
pub open spec fn hex_digit_char(d: nat, upper: bool) -> char {
    if d < 10 {
        (48 + d) as char
    } else if upper {
        (65 + (d - 10)) as char
    } else {
        (97 + (d - 10)) as char
    }
}

/// The hexadecimal representation of `n`, most significant digit first,
/// without leading zeros.
pub open spec fn hex_digits(n: nat, upper: bool) -> Seq<char>
    decreases n,
{
    if n < 16 {
        seq![hex_digit_char(n, upper)]
    } else {
        hex_digits(n / 16, upper).push(hex_digit_char(n % 16, upper))
    }
}

proof fn lemma_hex_digits(n: nat, upper: bool)
    ensures
        hex_digits(n, upper).len() >= 1,
        forall|k: int|
            0 <= k < hex_digits(n, upper).len() ==> is_reference_digit(
                #[trigger] hex_digits(n, upper)[k],
                true,
            ),
    decreases n,
{
    if n >= 16 {
        lemma_hex_digits(n / 16, upper);
        assert forall|k: int| 0 <= k < hex_digits(n, upper).len() implies is_reference_digit(
            #[trigger] hex_digits(n, upper)[k],
            true,
        ) by {
            if k < hex_digits(n / 16, upper).len() {
                assert(hex_digits(n, upper)[k] == hex_digits(n / 16, upper)[k]);
            }
        }
    }
}

proof fn lemma_hex_value(t: Seq<char>, p: int, n: nat, upper: bool)
    requires
        0 <= p,
        p + hex_digits(n, upper).len() <= t.len(),
        t.subrange(p, p + hex_digits(n, upper).len()) == hex_digits(n, upper),
    ensures
        digits_value(t, p, p + hex_digits(n, upper).len(), 16) == n,
    decreases n,
{
    let d = hex_digits(n, upper);
    let last = t[p + d.len() - 1];
    assert(last == d[d.len() - 1]);
    if n < 16 {
        assert(digits_value(t, p, p, 16) == 0);
        assert(last == hex_digit_char(n, upper));
        assert(digit_value(last) == n);
    } else {
        let m = n / 16;
        let dm = hex_digits(m, upper);
        assert(d == dm.push(hex_digit_char(n % 16, upper)));
        assert(t.subrange(p, p + dm.len()) =~= d.subrange(0, dm.len() as int));
        assert(d.subrange(0, dm.len() as int) =~= dm);
        lemma_hex_value(t, p, m, upper);
        assert(last == hex_digit_char(n % 16, upper));
        assert(digit_value(last) == n % 16);
    }
}

/// A hexadecimal numeric reference to a character, with a lowercase `x`,
/// its digits in lowercase or in uppercase letters, without leading zeros
/// and closed by `;`, decodes to that character and ends after the `;`:
/// the digits `a` to `f` are worth 10 to 15, as `A` to `F` are.
pub proof fn lemma_hex_reference_decodes(c: char, upper: bool)
    ensures
        ({
            let t = seq!['&', '#', 'x'] + hex_digits(c as nat, upper) + seq![';'];
            numeric_reference(t, 0) == Some((t.len() as int, Some(c)))
        }),
{
    let d = hex_digits(c as nat, upper);
    let t = seq!['&', '#', 'x'] + d + seq![';'];
    let e: int = 3 + d.len() as int;
    lemma_hex_digits(c as nat, upper);
    assert(t[2] == 'x');
    assert forall|k: int| 3 <= k < 3 + d.len() implies is_reference_digit(#[trigger] t[k], true) by {
        assert(t[k] == d[k - 3]);
    }
    assert(t[e] == ';');
    lemma_digits_end_at(t, 3, e, true);
    assert(t.subrange(3, e) =~= d);
    lemma_hex_value(t, 3, c as nat, upper);
    assert(is_scalar_value(c as int));
}

/// The index of the first `&#` that starts at or after `from`.
pub open spec fn find_marker(t: Seq<char>, from: int) -> Option<int>
    decreases t.len() - from,
{
    if from < 0 || from + 1 >= t.len() {
        None
    } else if t[from] == '&' && t[from + 1] == '#' {
        Some(from)
    } else {
        find_marker(t, from + 1)
    }
}

/// A marker that is found starts at or after `from` and is an `&#` within
/// the text.
pub proof fn lemma_find_marker(t: Seq<char>, from: int)
    requires
        0 <= from,
    ensures
        find_marker(t, from) matches Some(s) ==> from <= s && s + 1 < t.len() && t[s] == '&'
            && t[s + 1] == '#',
    decreases t.len() - from,
{
    if from + 1 < t.len() && !(t[from] == '&' && t[from + 1] == '#') {
        lemma_find_marker(t, from + 1);
    }
}

/// Text without `&` holds no `&#`.
pub proof fn lemma_find_marker_without_ampersand(t: Seq<char>, from: int)
    requires
        !t.contains('&'),
    ensures
        find_marker(t, from) is None,
    decreases t.len() - from,
{
    if 0 <= from && from + 1 < t.len() {
        assert(t[from] != '&');
        lemma_find_marker_without_ampersand(t, from + 1);
    }
}

/// Decoding of `t` from `cursor` on, where the text from `segment_start` to
/// `cursor` has been scanned but not yet written. Numeric references that
/// the legacy decoder recognises are replaced by their character (or kept
/// as written); the text between them goes through `html_unescaped`.
pub open spec fn decode_from(t: Seq<char>, segment_start: int, cursor: int) -> Seq<char>
    decreases t.len() - cursor,
    when 0 <= segment_start <= cursor <= t.len()
{
    match find_marker(t, cursor) {
        None => html_unescaped(t.subrange(segment_start, t.len() as int)),
        Some(s) => {
            proof {
                lemma_find_marker(t, cursor);
                lemma_numeric_reference_bounds(t, s);
            }
            match numeric_reference(t, s) {
                None => decode_from(t, segment_start, s + 2),
                Some((end, c)) => html_unescaped(t.subrange(segment_start, s)) + match c {
                    Some(ch) => seq![ch],
                    None => t.subrange(s, end),
                } + decode_from(t, end, end),
            }
        },
    }
}

/// Text with HTML references decoded: numeric references in the legacy
/// form are decoded first, everything else by `htmlize`.
pub open spec fn decoded_html(t: Seq<char>) -> Seq<char> {
    decode_from(t, 0, 0)
}

/// The first `&#` in `t` at or after `from`.
fn find_marker_exec(t: &[char], from: usize) -> (res: Option<usize>)
    ensures
        match res {
            None => find_marker(t@, from as int) is None,
            Some(s) => find_marker(t@, from as int) == Some(s as int),
        },
{
    let mut i: usize = from;
    while i < t.len() && i + 1 < t.len()
        invariant
            from <= i,
            find_marker(t@, from as int) == find_marker(t@, i as int),
        decreases t.len() - i,
    {
        if t[i] == '&' && t[i + 1] == '#' {
            return Some(i);
        }
        i = i + 1;
    }
    None
}

/// Appends the `htmlize` decoding of `t[from..to]` to `out`.
fn push_unescaped(out: &mut Vec<char>, t: &[char], from: usize, to: usize)
    requires
        from <= to <= t@.len(),
    ensures
        final(out)@ == old(out)@ + html_unescaped(t@.subrange(from as int, to as int)),
        !t@.subrange(from as int, to as int).contains('&') ==> final(out)@ == old(out)@
            + t@.subrange(from as int, to as int),
{
    let segment = string_of_range(t, from, to);
    let unescaped = unescape_html(segment.as_str());
    append_chars(out, chars_of(unescaped.as_str()).as_slice());
}

/// Decodes HTML references in `text`. Numeric references such as `&#38;`
/// or `&#x26;` are decoded here; a numeric reference without its `;`, with
/// an uppercase `X`, or with a value that is no character is kept as
/// written. The text between them is decoded by `htmlize`.
pub fn decode_html_text(text: &str) -> (res: String)
    ensures
        res@ == decoded_html(text@),
        !text@.contains('&') ==> res@ == text@,
{
    let t = chars_of(text);
    let n = t.len();
    let mut decoded: Vec<char> = Vec::new();
    let mut segment_start: usize = 0;
    let mut cursor: usize = 0;
    loop
        invariant_except_break
            n == t@.len(),
            segment_start <= cursor <= n,
            decoded_html(t@) == decoded@ + decode_from(
                t@,
                segment_start as int,
                cursor as int,
            ),
            !t@.contains('&') ==> segment_start == 0 && decoded@ == Seq::<char>::empty(),
        ensures
            decoded_html(t@) == decoded@,
            !t@.contains('&') ==> decoded@ == t@,
        decreases n - cursor,
    {
        proof {
            lemma_find_marker(t@, cursor as int);
            if !t@.contains('&') {
                lemma_find_marker_without_ampersand(t@, cursor as int);
                assert(t@.subrange(0, n as int) =~= t@);
            }
        }
        match find_marker_exec(t.as_slice(), cursor) {
            None => {
                push_unescaped(&mut decoded, t.as_slice(), segment_start, n);
                break;
            },
            Some(start) => {
                proof {
                    lemma_numeric_reference_bounds(t@, start as int);
                }
                match legacy_numeric_reference(t.as_slice(), start) {
                    None => {
                        cursor = start + 2;
                    },
                    Some((end, character)) => {
                        push_unescaped(&mut decoded, t.as_slice(), segment_start, start);
                        match character {
                            Some(ch) => {
                                decoded.push(ch);
                            },
                            None => {
                                append_chars(
                                    &mut decoded,
                                    string_of_range_chars(t.as_slice(), start, end).as_slice(),
                                );
                            },
                        }
                        cursor = end;
                        segment_start = end;
                    },
                }
            },
        }
    }
    string_from_chars(decoded.as_slice())
}

/// The characters `t[from..to]`.
fn string_of_range_chars(t: &[char], from: usize, to: usize) -> (res: Vec<char>)
    requires
        from <= to <= t@.len(),
    ensures
        res@ == t@.subrange(from as int, to as int),
{
    let mut out: Vec<char> = Vec::new();
    let mut i: usize = from;
    while i < to
        invariant
            from <= i <= to <= t@.len(),
            out@ == t@.subrange(from as int, i as int),
        decreases to - i,
    {
        out.push(t[i]);
        i = i + 1;
        assert(out@ =~= t@.subrange(from as int, i as int));
    }
    out
}

} // verus!
