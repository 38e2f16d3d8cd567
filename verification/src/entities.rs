//! HTML entity decoding and unsigned-number parsing.

use vstd::prelude::*;
use crate::text::{append_chars, chars_eq_str, chars_of, slice_chars, string_of};

verus! {

// ------------------------------------------------------------------
// Unsigned integer parsing (`str::parse::<uN>` / `uN::from_str_radix`)
// ------------------------------------------------------------------

/// The value of one digit in radix 10 or 16 (either letter case).
pub open spec fn digit_value(c: char, radix: nat) -> Option<nat> {
    if '0' <= c && c <= '9' && (c as int) - ('0' as int) < radix {
        Some(((c as int) - ('0' as int)) as nat)
    } else if radix == 16 && 'a' <= c && c <= 'f' {
        Some(((c as int) - ('a' as int) + 10) as nat)
    } else if radix == 16 && 'A' <= c && c <= 'F' {
        Some(((c as int) - ('A' as int) + 10) as nat)
    } else {
        None
    }
}

/// The value of a sequence of digits, `None` if any character is no digit.
pub open spec fn digits_value(s: Seq<char>, radix: nat) -> Option<nat>
    decreases s.len(),
{
    if s.len() == 0 {
        Some(0)
    } else {
        match (digits_value(s.drop_last(), radix), digit_value(s.last(), radix)) {
            (Some(v), Some(d)) => Some(v * radix + d),
            _ => None,
        }
    }
}

/// `uN::from_str_radix(s, radix)` with `max == uN::MAX`: an optional `+`,
/// then at least one digit, and a value that fits.
pub open spec fn parse_uint(s: Seq<char>, radix: nat, max: nat) -> Option<nat> {
    let d = if s.len() > 0 && s[0] == '+' {
        s.drop_first()
    } else {
        s
    };
    if d.len() == 0 {
        None
    } else {
        match digits_value(d, radix) {
            Some(v) => if v <= max {
                Some(v)
            } else {
                None
            },
            None => None,
        }
    }
}

/// Once a prefix of the digits exceeds a bound, the whole value does too.
proof fn lemma_digits_grow(s: Seq<char>, radix: nat, k: int, v: nat)
    requires
        radix == 10 || radix == 16,
        0 <= k <= s.len(),
        digits_value(s.take(k), radix) == Some(v),
    ensures
        match digits_value(s, radix) {
            Some(w) => w >= v,
            None => true,
        },
    decreases s.len() - k,
{
    if k < s.len() {
        assert(s.take(k + 1).drop_last() == s.take(k));
        assert(s.take(k + 1).last() == s[k]);
        match digit_value(s[k], radix) {
            Some(d) => {
                assert(v * radix >= v) by (nonlinear_arith)
                    requires
                        radix >= 1,
                ;
                lemma_digits_grow(s, radix, k + 1, v * radix + d);
            },
            None => {
                lemma_digits_none(s, radix, k + 1);
            },
        }
    } else {
        assert(s.take(k) == s);
    }
}

/// A prefix with a non-digit makes the whole sequence no number.
proof fn lemma_digits_none(s: Seq<char>, radix: nat, k: int)
    requires
        0 <= k <= s.len(),
        digits_value(s.take(k), radix) is None,
    ensures
        digits_value(s, radix) is None,
    decreases s.len() - k,
{
    if k < s.len() {
        assert(s.take(k + 1).drop_last() == s.take(k));
        lemma_digits_none(s, radix, k + 1);
    } else {
        assert(s.take(k) == s);
    }
}

fn digit_value_exec(c: char, radix: u32) -> (r: Option<u32>)
    requires
        radix == 10 || radix == 16,
    ensures
        match r {
            Some(d) => digit_value(c, radix as nat) == Some(d as nat),
            None => digit_value(c, radix as nat) is None,
        },
{
    if '0' <= c && c <= '9' {
        Some((c as u32) - ('0' as u32))
    } else if radix == 16 && 'a' <= c && c <= 'f' {
        Some((c as u32) - ('a' as u32) + 10)
    } else if radix == 16 && 'A' <= c && c <= 'F' {
        Some((c as u32) - ('A' as u32) + 10)
    } else {
        None
    }
}

/// Parses an unsigned number as `uN::from_str_radix` does, with `max == uN::MAX`.
pub fn parse_uint_exec(s: &[char], radix: u32, max: u64) -> (r: Option<u64>)
    requires
        radix == 10 || radix == 16,
    ensures
        match r {
            Some(v) => parse_uint(s@, radix as nat, max as nat) == Some(v as nat),
            None => parse_uint(s@, radix as nat, max as nat) is None,
        },
{
    let start: usize = if s.len() > 0 && s[0] == '+' {
        1
    } else {
        0
    };
    let ghost d = if s@.len() > 0 && s@[0] == '+' {
        s@.drop_first()
    } else {
        s@
    };
    assert(d == s@.skip(start as int));
    if start >= s.len() {
        return None;
    }
    let mut v: u64 = 0;
    let mut i = start;
    assert(d.take(0) == Seq::<char>::empty());
    while i < s.len()
        invariant
            start <= i <= s.len(),
            d == s@.skip(start as int),
            radix == 10 || radix == 16,
            v <= max,
            d == (if s@.len() > 0 && s@[0] == '+' { s@.drop_first() } else { s@ }),
            digits_value(d.take(i - start), radix as nat) == Some(v as nat),
        decreases s.len() - i,
    {
        let ghost k = i - start;
        assert(d.take(k + 1).drop_last() == d.take(k));
        assert(d.take(k + 1).last() == s@[i as int]);
        match digit_value_exec(s[i], radix) {
            Some(dg) => {
                let r64 = radix as u64;
                let dg64 = dg as u64;
                if dg64 > max || v > (max - dg64) / r64 {
                    proof {
                        let lim: int = if dg64 > max { -1 } else { (max - dg64) as int / (r64 as int) };
                        assert(v * r64 + dg64 > max) by (nonlinear_arith)
                            requires
                                dg64 > max || v > lim,
                                dg64 <= max ==> lim == (max - dg64) as int / (r64 as int),
                                r64 > 0,
                                v >= 0,
                        ;
                        lemma_digits_grow(d, radix as nat, k + 1, (v * r64 + dg64) as nat);
                        assert(d.len() > 0);
                        assert(digits_value(d, radix as nat) is None || digits_value(d, radix as nat)->0 > max);
                        assert(parse_uint(s@, radix as nat, max as nat) is None);
                    }
                    return None;
                }
                proof {
                    let lim: int = (max - dg64) as int / (r64 as int);
                    assert(v * r64 + dg64 <= max) by (nonlinear_arith)
                        requires
                            v <= lim,
                            lim == (max - dg64) as int / (r64 as int),
                            r64 > 0,
                            dg64 <= max,
                    ;
                }
                v = v * r64 + dg64;
            },
            None => {
                proof {
                    lemma_digits_none(d, radix as nat, k + 1);
                    assert(d.len() > 0);
                    assert(digits_value(d, radix as nat) is None);
                }
                return None;
            },
        }
        i += 1;
    }
    assert(d.take(i - start) == d);
    Some(v)
}

// ------------------------------------------------------------------
// HTML entities
// ------------------------------------------------------------------

/// `char::from_u32` of std: the character with that scalar value, if any.
#[verifier::external_body]
pub(crate) fn char_from_u32(code: u32) -> (r: Option<char>)
    ensures
        r is Some <==> (code < 0x110000 && !(0xD800 <= code && code < 0xE000)),
        r matches Some(c) ==> c as nat == code as nat,
{
    char::from_u32(code)
}

/// The character with scalar value `code`, if there is one.
pub open spec fn scalar_char(code: nat) -> Option<char> {
    if code < 0x110000 && !(0xD800 <= code && code < 0xE000) {
        Some(code as char)
    } else {
        None
    }
}

proof fn lemma_char_of_code(ch: char, code: nat)
    requires
        ch as nat == code,
    ensures
        (code as char) == ch,
{
}

/// The numeric part of a numeric character reference: hexadecimal after
/// `x`/`X`, decimal otherwise, fitting in `u32`.
pub open spec fn char_ref_code(num: Seq<char>) -> Option<nat> {
    if num.len() > 0 && (num[0] == 'x' || num[0] == 'X') {
        parse_uint(num.drop_first(), 16, u32::MAX as nat)
    } else {
        parse_uint(num, 10, u32::MAX as nat)
    }
}

/// The text of one entity body (without `&` and `;`): numeric references,
/// and the named entities that occur in invoice OCR output.
pub open spec fn decode_entity_spec(e: Seq<char>) -> Option<Seq<char>> {
    if e.len() > 0 && e[0] == '#' {
        match char_ref_code(e.drop_first()) {
            Some(code) => match scalar_char(code) {
                Some(c) => Some(seq![c]),
                None => None,
            },
            None => None,
        }
    } else if e == "amp"@ {
        Some("&"@)
    } else if e == "lt"@ {
        Some("<"@)
    } else if e == "gt"@ {
        Some(">"@)
    } else if e == "quot"@ {
        Some("\""@)
    } else if e == "apos"@ {
        Some("'"@)
    } else if e == "nbsp"@ {
        Some("\u{a0}"@)
    } else if e == "yen"@ {
        Some("¥"@)
    } else if e == "times"@ {
        Some("×"@)
    } else if e == "middot"@ {
        Some("·"@)
    } else if e == "hellip"@ {
        Some("…"@)
    } else if e == "mdash"@ {
        Some("—"@)
    } else if e == "ndash"@ {
        Some("–"@)
    } else if e == "copy"@ {
        Some("©"@)
    } else {
        None
    }
}

/// Decodes one HTML entity body (the text between `&` and `;`).
pub fn decode_entity(entity: &str) -> (r: Option<String>)
    ensures
        r.deep_view() == decode_entity_spec(entity@),
{
    let e = chars_of(entity);
    match decode_entity_chars(e.as_slice()) {
        Some(v) => Some(string_of(v.as_slice())),
        None => None,
    }
}

pub fn decode_entity_chars(e: &[char]) -> (r: Option<Vec<char>>)
    ensures
        r.deep_view() == decode_entity_spec(e@),
{
    if e.len() > 0 && e[0] == '#' {
        let num = slice_chars(e, 1, e.len());
        assert(num@ == e@.drop_first());
        let code = if num.len() > 0 && (num[0] == 'x' || num[0] == 'X') {
            let hex = slice_chars(num.as_slice(), 1, num.len());
            assert(hex@ == num@.drop_first());
            parse_uint_exec(hex.as_slice(), 16, 0xFFFF_FFFF)
        } else {
            parse_uint_exec(num.as_slice(), 10, 0xFFFF_FFFF)
        };
        match code {
            Some(c) => {
                assert(c <= 0xFFFF_FFFF);
                let c32 = c as u32;
                assert(c32 as nat == c as nat);
                match char_from_u32(c32) {
                    Some(ch) => {
                        let mut v: Vec<char> = Vec::new();
                        proof {
                            lemma_char_of_code(ch, c32 as nat);
                        }
                        v.push(ch);
                        assert(v@ == seq![ch]);
                        return Some(v);
                    },
                    None => {
                        return None;
                    },
                }
            },
            None => {
                return None;
            },
        }
    }
    let decoded: &str = if chars_eq_str(e, "amp") {
        "&"
    } else if chars_eq_str(e, "lt") {
        "<"
    } else if chars_eq_str(e, "gt") {
        ">"
    } else if chars_eq_str(e, "quot") {
        "\""
    } else if chars_eq_str(e, "apos") {
        "'"
    } else if chars_eq_str(e, "nbsp") {
        "\u{a0}"
    } else if chars_eq_str(e, "yen") {
        "¥"
    } else if chars_eq_str(e, "times") {
        "×"
    } else if chars_eq_str(e, "middot") {
        "·"
    } else if chars_eq_str(e, "hellip") {
        "…"
    } else if chars_eq_str(e, "mdash") {
        "—"
    } else if chars_eq_str(e, "ndash") {
        "–"
    } else if chars_eq_str(e, "copy") {
        "©"
    } else {
        return None;
    };
    Some(chars_of(decoded))
}

/// The first index `k` with `from <= k < limit` and `t[k] == c`.
pub open spec fn find_char_before(t: Seq<char>, c: char, from: int, limit: int) -> Option<int>
    decreases limit - from,
{
    if from >= limit || from < 0 || from >= t.len() {
        None
    } else if t[from] == c {
        Some(from)
    } else {
        find_char_before(t, c, from + 1, limit)
    }
}

proof fn lemma_find_char_bounds(t: Seq<char>, c: char, from: int, limit: int)
    ensures
        find_char_before(t, c, from, limit) matches Some(k) ==> from <= k < limit && k < t.len()
            && t[k] == c,
    decreases limit - from,
{
    if !(from >= limit || from < 0 || from >= t.len()) && t[from] != c {
        lemma_find_char_bounds(t, c, from + 1, limit);
    }
}

/// HTML entity decoding for the entities above: an `&` starts an entity
/// only if a `;` follows within the next 12 characters (counting the `&`) and
/// the text between them decodes; otherwise the `&` stays as it is.
pub open spec fn unescape(s: Seq<char>) -> Seq<char>
    decreases s.len(),
{
    if s.len() == 0 {
        s
    } else if s[0] != '&' {
        seq![s[0]] + unescape(s.drop_first())
    } else {
        match find_char_before(s, ';', 0, 12) {
            Some(j) => if 1 <= j < s.len() {
                match decode_entity_spec(s.subrange(1, j)) {
                    Some(d) => d + unescape(s.skip(j + 1)),
                    None => seq!['&'] + unescape(s.drop_first()),
                }
            } else {
                seq!['&'] + unescape(s.drop_first())
            },
            None => seq!['&'] + unescape(s.drop_first()),
        }
    }
}

/// Decodes the HTML entities of `value` (see `unescape`).
pub fn unescape_html_entities(value: &str) -> (r: String)
    ensures
        r@ == unescape(value@),
{
    let v = chars_of(value);
    let out = unescape_chars(v.as_slice());
    string_of(out.as_slice())
}

pub fn unescape_chars(s: &[char]) -> (out: Vec<char>)
    ensures
        out@ == unescape(s@),
{
    let mut out: Vec<char> = Vec::new();
    let mut i: usize = 0;
    assert(s@.skip(0) == s@);
    while i < s.len()
        invariant
            i <= s.len(),
            unescape(s@) == out@ + unescape(s@.skip(i as int)),
        decreases s.len() - i,
    {
        let ghost t = s@.skip(i as int);
        assert(t[0] == s@[i as int]);
        assert(t.drop_first() == s@.skip(i + 1));
        if s[i] != '&' {
            out.push(s[i]);
            i += 1;
            continue;
        }
        // Look for `;` among the first 12 characters starting at the `&`.
        let mut k: usize = 1;
        while k < 12 && k < s.len() - i && s[i + k] != ';'
            invariant
                i < s.len(),
                1 <= k <= 12,
                t == s@.skip(i as int),
                t[0] == '&',
                find_char_before(t, ';', 0, 12) == find_char_before(t, ';', k as int, 12),
            decreases 12 - k,
        {
            assert(t[k as int] == s@[i + k]);
            k += 1;
        }
        let found = k < 12 && k < s.len() - i;
        let mut decoded: Option<Vec<char>> = None;
        if found {
            assert(t[k as int] == s@[i + k]);
            assert(find_char_before(t, ';', 0, 12) == Some(k as int));
            let body = slice_chars(s, i + 1, i + k);
            assert(body@ == t.subrange(1, k as int));
            decoded = decode_entity_chars(body.as_slice());
        } else {
            assert(find_char_before(t, ';', 0, 12) is None);
        }
        match decoded {
            Some(d) => {
                assert(t.skip(k + 1) == s@.skip(i + k + 1));
                append_chars(&mut out, d.as_slice());
                i = i + k + 1;
            },
            None => {
                out.push('&');
                i += 1;
            },
        }
    }
    assert(s@.skip(s.len() as int).len() == 0);
    out
}

} // verus!
