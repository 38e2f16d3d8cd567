//! Text normalization of OCR output.

use vstd::prelude::*;
use crate::entities::{unescape, unescape_chars};
use crate::regex_ops::{re_matches, re_replace_all, match_texts, replace_all};
use crate::text::{
    append_chars, chars_of, is_ws, replace_chars, replace_lit, slice_chars, string_of, trim,
    trim_chars, trim_start_by, lemma_trim_start_skip, seqs_of,
};

verus! {

/// OCR renders invoice asterisks as LaTeX-like formulas such as `$ ^{{*}} $`:
/// a `$`, at most 20 non-`$` characters, and a `$`.
pub open spec fn formula_pattern() -> Seq<char> {
    "\\$[^$]{0,20}\\$"@
}

/// The characters removed from labels: whitespace, colons, commas, the
/// enumeration comma and parentheses (ASCII and full width).
pub open spec fn label_noise_pattern() -> Seq<char> {
    "[\\s:：,，、()（）]"@
}

/// Runs of horizontal whitespace.
pub open spec fn hspace_pattern() -> Seq<char> {
    "[ \\t\\f\\v]+"@
}

/// An amount: optional currency mark, optional sign, digits with optional
/// thousands separators, optional decimals.
pub open spec fn money_pattern() -> Seq<char> {
    "(?:¥|￥|RMB)?\\s*[+-]?(?:\\d{1,3}(?:[,，]\\d{3})+|\\d+)(?:\\.\\d+)?"@
}

/// Leading watermark symbols that OCR puts before amounts in words.
pub open spec fn is_watermark(c: char) -> bool {
    c == 'ⓧ' || c == 'Ⓧ' || c == '✖' || c == '✕' || c == '❌' || c == '✘' || c == 'Ⓟ'
}

fn is_watermark_exec(c: char) -> (r: bool)
    ensures
        r == is_watermark(c),
{
    c == 'ⓧ' || c == 'Ⓧ' || c == '✖' || c == '✕' || c == '❌' || c == '✘' || c == 'Ⓟ'
}

/// Literal `\r\n`, `\n` and `\r` escape sequences (backslash included) become
/// line breaks.
pub open spec fn literal_newlines(s: Seq<char>) -> Seq<char> {
    replace_lit(
        replace_lit(replace_lit(s, "\\r\\n"@, "\n"@), "\\n"@, "\n"@),
        "\\r"@,
        "\n"@,
    )
}

/// The normalized form of an OCR text: entities decoded, literal newline
/// escapes turned into line breaks, formula asterisks restored, leading
/// watermark symbols dropped, surrounding whitespace trimmed.
pub open spec fn normalize_text_spec(value: Seq<char>) -> Seq<char> {
    trim(
        trim_start_by(
            re_replace_all(formula_pattern(), literal_newlines(unescape(value)), "*"@),
            |c: char| is_watermark(c),
        ),
    )
}

/// Drops the leading watermark symbols.
fn strip_watermarks(v: &[char]) -> (r: Vec<char>)
    ensures
        r@ == trim_start_by(v@, |c: char| is_watermark(c)),
{
    let mut i: usize = 0;
    while i < v.len() && is_watermark_exec(v[i])
        invariant
            i <= v.len(),
            forall|k: int| 0 <= k < i ==> is_watermark(v@[k]),
        decreases v.len() - i,
    {
        i += 1;
    }
    proof {
        lemma_trim_start_skip(v@, |c: char| is_watermark(c), i as int);
        assert(v@.skip(i as int) == v@.subrange(i as int, v@.len() as int));
    }
    slice_chars(v, i, v.len())
}

/// Normalizes OCR text (see `normalize_text_spec`).
pub fn normalize_text(value: &str) -> (r: String)
    ensures
        r@ == normalize_text_spec(value@),
{
    let v = chars_of(value);
    let n = normalize_chars(v.as_slice());
    string_of(n.as_slice())
}

pub fn normalize_chars(value: &[char]) -> (r: Vec<char>)
    ensures
        r@ == normalize_text_spec(value@),
{
    let u = unescape_chars(value);
    let a = replace_chars(u.as_slice(), "\\r\\n", "\n");
    let b = replace_chars(a.as_slice(), "\\n", "\n");
    let c = replace_chars(b.as_slice(), "\\r", "\n");
    let cs = string_of(c.as_slice());
    let f = replace_all("\\$[^$]{0,20}\\$", cs.as_str(), "*");
    let fv = chars_of(f.as_str());
    let w = strip_watermarks(fv.as_slice());
    trim_chars(w.as_slice())
}

/// The normalized form of a label, without whitespace, colons, commas,
/// enumeration commas and parentheses.
pub open spec fn normalize_label_spec(value: Seq<char>) -> Seq<char> {
    re_replace_all(label_noise_pattern(), normalize_text_spec(value), ""@)
}

pub fn normalize_label(value: &str) -> (r: String)
    ensures
        r@ == normalize_label_spec(value@),
{
    let n = normalize_text(value);
    replace_all("[\\s:：,，、()（）]", n.as_str(), "")
}

pub fn normalize_label_chars(value: &[char]) -> (r: Vec<char>)
    ensures
        r@ == normalize_label_spec(value@),
{
    let n = normalize_chars(value);
    let ns = string_of(n.as_slice());
    let l = replace_all("[\\s:：,，、()（）]", ns.as_str(), "");
    chars_of(l.as_str())
}

/// `parts` joined with `sep` between consecutive parts.
pub open spec fn join_with(parts: Seq<Seq<char>>, sep: Seq<char>) -> Seq<char>
    decreases parts.len(),
{
    if parts.len() == 0 {
        Seq::empty()
    } else if parts.len() == 1 {
        parts[0]
    } else {
        join_with(parts.drop_last(), sep) + sep + parts.last()
    }
}

/// The normalized parts that are not empty, in order.
pub open spec fn normalized_parts(parts: Seq<Seq<char>>) -> Seq<Seq<char>>
    decreases parts.len(),
{
    if parts.len() == 0 {
        Seq::empty()
    } else {
        let rest = normalized_parts(parts.drop_last());
        let n = normalize_text_spec(parts.last());
        if n.len() > 0 {
            rest.push(n)
        } else {
            rest
        }
    }
}

/// Joins the normalized non-empty parts with single spaces, collapsing runs
/// of horizontal whitespace, and trims the result.
pub open spec fn join_text_spec(parts: Seq<Seq<char>>) -> Seq<char> {
    let n = normalized_parts(parts);
    if n.len() == 0 {
        Seq::empty()
    } else {
        trim(re_replace_all(hspace_pattern(), join_with(n, " "@), " "@))
    }
}

/// The characters of `parts` joined with `sep`.
pub fn join_chars(parts: &Vec<Vec<char>>, sep: &str) -> (r: Vec<char>)
    ensures
        r@ == join_with(seqs_of(parts@), sep@),
{
    let sv = chars_of(sep);
    let mut out: Vec<char> = Vec::new();
    let mut i: usize = 0;
    let ghost pv = seqs_of(parts@);
    assert(pv.take(0) =~= Seq::<Seq<char>>::empty());
    while i < parts.len()
        invariant
            i <= parts.len(),
            pv == seqs_of(parts@),
            sv@ == sep@,
            out@ == join_with(pv.take(i as int), sep@),
        decreases parts.len() - i,
    {
        assert(pv.take(i + 1).drop_last() == pv.take(i as int));
        assert(pv.take(i + 1).last() == parts@[i as int]@);
        if i > 0 {
            append_chars(&mut out, sv.as_slice());
        } else {
            assert(pv.take(1) == seq![pv[0]]);
        }
        append_chars(&mut out, parts[i].as_slice());
        i += 1;
    }
    assert(pv.take(parts.len() as int) == pv);
    out
}

/// Joins text fragments (see `join_text_spec`).
pub fn join_text(parts: &Vec<Vec<char>>) -> (r: Vec<char>)
    ensures
        r@ == join_text_spec(seqs_of(parts@)),
{
    let ghost pv = seqs_of(parts@);
    let mut normalized: Vec<Vec<char>> = Vec::new();
    let mut i: usize = 0;
    assert(pv.take(0) =~= Seq::<Seq<char>>::empty());
    while i < parts.len()
        invariant
            i <= parts.len(),
            pv == seqs_of(parts@),
            seqs_of(normalized@) == normalized_parts(pv.take(i as int)),
        decreases parts.len() - i,
    {
        assert(pv.take(i + 1).drop_last() == pv.take(i as int));
        assert(pv.take(i + 1).last() == parts@[i as int]@);
        let n = normalize_chars(parts[i].as_slice());
        if n.len() > 0 {
            let ghost before = normalized@;
            normalized.push(n);
            assert(seqs_of(normalized@) =~= seqs_of(before).push(n@));
        }
        i += 1;
    }
    assert(pv.take(parts.len() as int) == pv);
    if normalized.len() == 0 {
        return Vec::new();
    }
    let joined = join_chars(&normalized, " ");
    let js = string_of(joined.as_slice());
    let collapsed = replace_all("[ \\t\\f\\v]+", js.as_str(), " ");
    let cv = chars_of(collapsed.as_str());
    trim_chars(cv.as_slice())
}

/// Two fragments joined by `join_text`.
pub fn join_two(a: &[char], b: &[char]) -> (r: Vec<char>)
    ensures
        r@ == join_text_spec(seq![a@, b@]),
{
    let mut parts: Vec<Vec<char>> = Vec::new();
    let pa = slice_chars(a, 0, a.len());
    let pb = slice_chars(b, 0, b.len());
    assert(pa@ =~= a@);
    assert(pb@ =~= b@);
    parts.push(pa);
    parts.push(pb);
    assert(seqs_of(parts@) =~= seq![a@, b@]);
    join_text(&parts)
}

/// The digits of an amount: the normalized text without thousands
/// separators, yuan signs and `RMB`, trimmed.
pub open spec fn clean_number_spec(value: Seq<char>) -> Seq<char> {
    trim(
        replace_lit(
            replace_lit(
                replace_lit(
                    replace_lit(replace_lit(normalize_text_spec(value), ","@, ""@), "，"@, ""@),
                    "¥"@,
                    ""@,
                ),
                "￥"@,
                ""@,
            ),
            "RMB"@,
            ""@,
        ),
    )
}

pub fn clean_number(value: &str) -> (r: String)
    ensures
        r@ == clean_number_spec(value@),
{
    let v = chars_of(value);
    let c = clean_number_chars(v.as_slice());
    string_of(c.as_slice())
}

pub fn clean_number_chars(value: &[char]) -> (r: Vec<char>)
    ensures
        r@ == clean_number_spec(value@),
{
    let n = normalize_chars(value);
    let a = replace_chars(n.as_slice(), ",", "");
    let b = replace_chars(a.as_slice(), "，", "");
    let c = replace_chars(b.as_slice(), "¥", "");
    let d = replace_chars(c.as_slice(), "￥", "");
    let e = replace_chars(d.as_slice(), "RMB", "");
    trim_chars(e.as_slice())
}

/// The amounts found by the money pattern, each cleaned (see
/// `clean_number_spec`).
pub fn clean_matches(ms: &Vec<String>) -> (r: Vec<Vec<char>>)
    ensures
        seqs_of(r@) == ms.deep_view().map_values(|m: Seq<char>| clean_number_spec(m)),
{
    let ghost mv = ms.deep_view();
    let mut out: Vec<Vec<char>> = Vec::new();
    let mut i: usize = 0;
    while i < ms.len()
        invariant
            i <= ms.len(),
            mv == ms.deep_view(),
            seqs_of(out@) =~= mv.take(i as int).map_values(|m: Seq<char>| clean_number_spec(m)),
        decreases ms.len() - i,
    {
        let mc = chars_of(ms[i].as_str());
        assert(mc@ == mv[i as int]);
        let t = clean_number_chars(mc.as_slice());
        let ghost before = out@;
        out.push(t);
        assert(seqs_of(out@) =~= seqs_of(before).push(t@));
        assert(mv.take(i + 1) == mv.take(i as int).push(mv[i as int]));
        i += 1;
    }
    assert(mv.take(ms.len() as int) == mv);
    out
}

/// The amounts found in a text, each cleaned.
pub open spec fn money_tokens_spec(value: Seq<char>) -> Seq<Seq<char>> {
    re_matches(money_pattern(), normalize_text_spec(value)).map_values(
        |m: Seq<char>| clean_number_spec(m),
    )
}

pub fn money_tokens(value: &[char]) -> (r: Vec<Vec<char>>)
    ensures
        seqs_of(r@) == money_tokens_spec(value@),
{
    let n = normalize_chars(value);
    let ns = string_of(n.as_slice());
    let ms = match_texts(
        "(?:¥|￥|RMB)?\\s*[+-]?(?:\\d{1,3}(?:[,，]\\d{3})+|\\d+)(?:\\.\\d+)?",
        ns.as_str(),
    );
    clean_matches(&ms)
}

} // verus!
