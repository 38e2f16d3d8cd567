//! Row lists: the per-detail values of a list field, and their JSON text.
//!
//! A list field (`CommodityName`, ...) holds one `RowItem` per commodity
//! detail.  In a sparse result the list is kept as JSON text, exactly as
//! `serde_json::to_string` writes a `Vec<RowItem>`:
//! `[{"word":"…","row":"1"},…]`.  `parse_list` reads exactly that text
//! back; it states what a list written here holds.

use vstd::prelude::*;
use crate::text::{append_chars, decimal, decimal_chars, digit_char, chars_of, string_of};

verus! {

/// One value of a list field together with its 1-based row number.
pub struct RowItem {
    pub word: String,
    pub row: String,
}

impl View for RowItem {
    type V = (Seq<char>, Seq<char>);

    open spec fn view(&self) -> (Seq<char>, Seq<char>) {
        (self.word@, self.row@)
    }
}

impl Clone for RowItem {
    fn clone(&self) -> (r: RowItem)
        ensures
            r@ == self@,
    {
        RowItem { word: self.word.clone(), row: self.row.clone() }
    }
}

/// The views of a list of row items.
pub open spec fn items_view(items: Seq<RowItem>) -> Seq<(Seq<char>, Seq<char>)> {
    items.map_values(|it: RowItem| it@)
}

/// The row list of `values`: value `i` gets row number `i + 1`.
pub open spec fn row_list_spec(values: Seq<Seq<char>>) -> Seq<(Seq<char>, Seq<char>)> {
    Seq::new(values.len(), |i: int| (values[i], decimal((i + 1) as nat)))
}

/// Numbers the values as rows `1, 2, …`.
pub fn make_row_list(values: &Vec<String>) -> (r: Vec<RowItem>)
    ensures
        items_view(r@) == row_list_spec(values.deep_view()),
{
    let ghost vv = values.deep_view();
    let mut r: Vec<RowItem> = Vec::new();
    let mut i: usize = 0;
    while i < values.len()
        invariant
            i <= values.len(),
            vv == values.deep_view(),
            items_view(r@) =~= row_list_spec(vv).take(i as int),
        decreases values.len() - i,
    {
        let row = decimal_chars((i + 1) as u64);
        let ghost before = r@;
        r.push(RowItem { word: values[i].clone(), row: string_of(row.as_slice()) });
        assert(items_view(r@) =~= items_view(before).push((vv[i as int], decimal((i + 1) as nat))));
        assert(row_list_spec(vv).take(i + 1) =~= row_list_spec(vv).take(i as int).push(
            row_list_spec(vv)[i as int],
        ));
        i += 1;
    }
    assert(row_list_spec(vv).take(values.len() as int) =~= row_list_spec(vv));
    r
}

// ------------------------------------------------------------------
// JSON text of a row list
// ------------------------------------------------------------------

/// The lowercase hexadecimal digit of `n < 16`.
pub open spec fn hex_digit(n: nat) -> char {
    if n < 10 {
        digit_char(n)
    } else {
        ((n + 87) as u32) as char
    }
}

/// The value of a lowercase hexadecimal digit.
pub open spec fn hex_value(c: char) -> Option<nat> {
    if '0' <= c && c <= '9' {
        Some(((c as int) - 48) as nat)
    } else if 'a' <= c && c <= 'f' {
        Some(((c as int) - 87) as nat)
    } else {
        None
    }
}

/// How `serde_json` writes one character inside a string.
pub open spec fn escape_char(c: char) -> Seq<char> {
    if c == '"' {
        seq!['\\', '"']
    } else if c == '\\' {
        seq!['\\', '\\']
    } else if c == '\n' {
        seq!['\\', 'n']
    } else if c == '\r' {
        seq!['\\', 'r']
    } else if c == '\t' {
        seq!['\\', 't']
    } else if c == '\u{8}' {
        seq!['\\', 'b']
    } else if c == '\u{c}' {
        seq!['\\', 'f']
    } else if (c as nat) < 0x20 {
        seq!['\\', 'u', '0', '0', hex_digit((c as nat) / 16), hex_digit((c as nat) % 16)]
    } else {
        seq![c]
    }
}

/// The escaped characters of a string.
pub open spec fn escape_str(s: Seq<char>) -> Seq<char>
    decreases s.len(),
{
    if s.len() == 0 {
        Seq::empty()
    } else {
        escape_char(s[0]) + escape_str(s.drop_first())
    }
}

/// A JSON string literal.
pub open spec fn json_str(s: Seq<char>) -> Seq<char> {
    seq!['"'] + escape_str(s) + seq!['"']
}

pub open spec fn word_key() -> Seq<char> {
    seq!['{', '"', 'w', 'o', 'r', 'd', '"', ':']
}

pub open spec fn row_key() -> Seq<char> {
    seq![',', '"', 'r', 'o', 'w', '"', ':']
}

/// The JSON object of one row item.
#[verifier::opaque]
pub open spec fn json_item(it: (Seq<char>, Seq<char>)) -> Seq<char> {
    word_key() + json_str(it.0) + row_key() + json_str(it.1) + seq!['}']
}

/// `,item` for each item.
pub open spec fn json_items_tail(items: Seq<(Seq<char>, Seq<char>)>) -> Seq<char>
    decreases items.len(),
{
    if items.len() == 0 {
        Seq::empty()
    } else {
        seq![','] + json_item(items[0]) + json_items_tail(items.drop_first())
    }
}

/// The JSON text of a row list.
pub open spec fn json_list(items: Seq<(Seq<char>, Seq<char>)>) -> Seq<char> {
    if items.len() == 0 {
        seq!['[', ']']
    } else {
        seq!['['] + json_item(items[0]) + json_items_tail(items.drop_first()) + seq![']']
    }
}

// ---- the parser ----

/// Decodes one escaped character of a JSON string at `i` (not the closing
/// quote): its character and the index after it.
pub open spec fn unescape_at(s: Seq<char>, i: int) -> Option<(char, int)> {
    if i < 0 || i >= s.len() {
        None
    } else if s[i] == '\\' {
        if i + 1 >= s.len() {
            None
        } else {
            let e = s[i + 1];
            if e == '"' {
                Some(('"', i + 2))
            } else if e == '\\' {
                Some(('\\', i + 2))
            } else if e == 'n' {
                Some(('\n', i + 2))
            } else if e == 'r' {
                Some(('\r', i + 2))
            } else if e == 't' {
                Some(('\t', i + 2))
            } else if e == 'b' {
                Some(('\u{8}', i + 2))
            } else if e == 'f' {
                Some(('\u{c}', i + 2))
            } else if e == 'u' && i + 6 <= s.len() && s[i + 2] == '0' && s[i + 3] == '0' {
                match (hex_value(s[i + 4]), hex_value(s[i + 5])) {
                    (Some(h), Some(l)) => {
                        let v = h * 16 + l;
                        if v < 0x20 && v != 8 && v != 9 && v != 10 && v != 12 && v != 13 {
                            Some(((v as u32) as char, i + 6))
                        } else {
                            None
                        }
                    },
                    _ => None,
                }
            } else {
                None
            }
        }
    } else if s[i] == '"' || (s[i] as nat) < 0x20 {
        None
    } else {
        Some((s[i], i + 1))
    }
}

/// Reads string characters from `i` up to the closing quote.
pub open spec fn parse_str_body(s: Seq<char>, i: int, acc: Seq<char>) -> Option<(Seq<char>, int)>
    decreases s.len() - i,
{
    if i < 0 || i >= s.len() {
        None
    } else if s[i] == '"' {
        Some((acc, i + 1))
    } else {
        match unescape_at(s, i) {
            Some((c, j)) => if i < j {
                parse_str_body(s, j, acc.push(c))
            } else {
                None
            },
            None => None,
        }
    }
}

/// A JSON string literal at `i`: its text and the index after it.
pub open spec fn parse_str(s: Seq<char>, i: int) -> Option<(Seq<char>, int)> {
    if 0 <= i < s.len() && s[i] == '"' {
        parse_str_body(s, i + 1, Seq::empty())
    } else {
        None
    }
}

/// `lit` occurs at `i`.
pub open spec fn expect(s: Seq<char>, i: int, lit: Seq<char>) -> bool {
    0 <= i && i + lit.len() <= s.len() && s.subrange(i, i + lit.len()) == lit
}

/// A row item object at `i`: its view and the index after it.
pub open spec fn parse_item(s: Seq<char>, i: int) -> Option<((Seq<char>, Seq<char>), int)> {
    if expect(s, i, word_key()) {
        match parse_str(s, i + 8) {
            Some((w, j)) => if expect(s, j, row_key()) {
                match parse_str(s, j + 7) {
                    Some((r, k)) => if 0 <= k < s.len() && s[k] == '}' {
                        Some(((w, r), k + 1))
                    } else {
                        None
                    },
                    None => None,
                }
            } else {
                None
            },
            None => None,
        }
    } else {
        None
    }
}

/// `,item` repeated, then the closing `]` at the very end.
pub open spec fn parse_tail(s: Seq<char>, i: int, acc: Seq<(Seq<char>, Seq<char>)>) -> Option<
    Seq<(Seq<char>, Seq<char>)>,
>
    decreases s.len() - i,
{
    if i < 0 || i >= s.len() {
        None
    } else if s[i] == ']' {
        if i + 1 == s.len() {
            Some(acc)
        } else {
            None
        }
    } else if s[i] == ',' {
        match parse_item(s, i + 1) {
            Some((it, j)) => if i < j {
                parse_tail(s, j, acc.push(it))
            } else {
                None
            },
            None => None,
        }
    } else {
        None
    }
}

/// The row list a JSON text holds, if it is the text of one.
pub open spec fn parse_list(s: Seq<char>) -> Option<Seq<(Seq<char>, Seq<char>)>> {
    if s.len() >= 2 && s[0] == '[' {
        if s[1] == ']' {
            if s.len() == 2 {
                Some(Seq::empty())
            } else {
                None
            }
        } else {
            match parse_item(s, 1) {
                Some((it, j)) => parse_tail(s, j, seq![it]),
                None => None,
            }
        }
    } else {
        None
    }
}

// ---- encoding and parsing agree ----

/// Splitting a known piece of `s` into its two parts.
proof fn lemma_sub_concat(s: Seq<char>, i: int, a: Seq<char>, b: Seq<char>)
    requires
        0 <= i,
        i + a.len() + b.len() <= s.len(),
        s.subrange(i, i + a.len() + b.len()) == a + b,
    ensures
        s.subrange(i, i + a.len()) == a,
        s.subrange(i + a.len(), i + a.len() + b.len()) == b,
{
    assert(s.subrange(i, i + a.len()) =~= (a + b).subrange(0, a.len() as int));
    assert(s.subrange(i + a.len(), i + a.len() + b.len()) =~= (a + b).subrange(
        a.len() as int,
        (a.len() + b.len()) as int,
    ));
}

proof fn lemma_hex_digit(n: nat)
    requires
        n < 16,
    ensures
        hex_value(hex_digit(n)) == Some(n),
{
}

proof fn lemma_hex_value(c: char)
    requires
        hex_value(c) is Some,
    ensures
        hex_value(c)->0 < 16,
        hex_digit(hex_value(c)->0) == c,
{
}

proof fn lemma_char_code(c: char, v: nat)
    requires
        c as nat == v,
    ensures
        (v as u32) as char == c,
{
}

proof fn lemma_div16(h: nat, l: nat)
    requires
        l < 16,
    ensures
        (h * 16 + l) / 16 == h,
        (h * 16 + l) % 16 == l,
{
    assert((h * 16 + l) / 16 == h && (h * 16 + l) % 16 == l) by (nonlinear_arith)
        requires
            l < 16,
    ;
}

/// The escape of `c` decodes back to `c`.
proof fn lemma_unescape_complete(c: char, s: Seq<char>, i: int)
    requires
        0 <= i,
        i + escape_char(c).len() <= s.len(),
        s.subrange(i, i + escape_char(c).len()) == escape_char(c),
    ensures
        unescape_at(s, i) == Some((c, i + escape_char(c).len())),
        s[i] != '"',
{
    let e = escape_char(c);
    assert forall|k: int| 0 <= k < e.len() implies s[i + k] == e[k] by {
        assert(s.subrange(i, i + e.len())[k] == s[i + k]);
    }
    assert(s[i] == e[0]);
    if e.len() >= 2 {
        assert(s[i + 1] == e[1]);
    }
    if !(c == '"' || c == '\\' || c == '\n' || c == '\r' || c == '\t' || c == '\u{8}' || c
        == '\u{c}') && (c as nat) < 0x20 {
        let v = c as nat;
        assert(s[i + 2] == e[2]);
        assert(s[i + 3] == e[3]);
        assert(s[i + 4] == e[4]);
        assert(s[i + 5] == e[5]);
        lemma_hex_digit(v / 16);
        lemma_hex_digit(v % 16);
        lemma_div16(v / 16, v % 16);
        assert((v / 16) * 16 + v % 16 == v);
        lemma_char_code(c, v);
    }
}

/// What decodes is the escape of what it decodes to.
proof fn lemma_unescape_sound(s: Seq<char>, i: int)
    ensures
        unescape_at(s, i) matches Some((c, j)) ==> j == i + escape_char(c).len() && j <= s.len()
            && s.subrange(i, j) == escape_char(c),
{
    if let Some((c, j)) = unescape_at(s, i) {
        if s[i] == '\\' && s[i + 1] == 'u' {
            let h = hex_value(s[i + 4])->0;
            let l = hex_value(s[i + 5])->0;
            lemma_hex_value(s[i + 4]);
            lemma_hex_value(s[i + 5]);
            let v = h * 16 + l;
            lemma_div16(h, l);
            assert(c as nat == v);
            assert(s.subrange(i, j) =~= escape_char(c));
        } else {
            assert(s.subrange(i, j) =~= escape_char(c));
        }
    }
}

proof fn lemma_escape_str_unfold(w: Seq<char>)
    requires
        w.len() > 0,
    ensures
        escape_str(w) == escape_char(w[0]) + escape_str(w.drop_first()),
{
}

/// A string body that is the escape of `w` and a closing quote reads as `w`.
proof fn lemma_parse_str_body_complete(s: Seq<char>, i: int, w: Seq<char>, acc: Seq<char>)
    requires
        0 <= i,
        i + escape_str(w).len() < s.len(),
        s.subrange(i, i + escape_str(w).len()) == escape_str(w),
        s[i + escape_str(w).len()] == '"',
    ensures
        parse_str_body(s, i, acc) == Some((acc + w, i + escape_str(w).len() + 1)),
    decreases w.len(),
{
    if w.len() == 0 {
        assert(acc + w =~= acc);
    } else {
        let e = escape_char(w[0]);
        let rest = escape_str(w.drop_first());
        lemma_escape_str_unfold(w);
        lemma_sub_concat(s, i, e, rest);
        lemma_unescape_complete(w[0], s, i);
        assert(e.len() > 0);
        lemma_parse_str_body_complete(s, i + e.len(), w.drop_first(), acc.push(w[0]));
        assert(acc.push(w[0]) + w.drop_first() =~= acc + w);
    }
}

/// A string body reads as the text whose escape it is.
proof fn lemma_parse_str_body_sound(s: Seq<char>, i: int, acc: Seq<char>)
    ensures
        parse_str_body(s, i, acc) matches Some((res, j)) ==> {
            &&& 0 <= i < j <= s.len()
            &&& res.len() >= acc.len()
            &&& res.take(acc.len() as int) == acc
            &&& s.subrange(i, j) == escape_str(res.skip(acc.len() as int)) + seq!['"']
        },
    decreases s.len() - i,
{
    if let Some((res, j)) = parse_str_body(s, i, acc) {
        if s[i] == '"' {
            assert(res.skip(acc.len() as int) =~= Seq::<char>::empty());
            assert(s.subrange(i, j) =~= seq!['"']);
        } else {
            let (c, k) = unescape_at(s, i)->0;
            lemma_unescape_sound(s, i);
            lemma_parse_str_body_sound(s, k, acc.push(c));
            let w = res.skip(acc.len() as int);
            assert(res.take((acc.len() + 1) as int) == acc.push(c));
            assert(res.take((acc.len() + 1) as int)[acc.len() as int] == c);
            assert(res[acc.len() as int] == c);
            assert(w[0] == c);
            assert(w.drop_first() =~= res.skip((acc.len() + 1) as int));
            lemma_escape_str_unfold(w);
            assert(s.subrange(i, j) =~= s.subrange(i, k) + s.subrange(k, j));
            assert(res.take(acc.len() as int) =~= acc);
        }
    }
}

proof fn lemma_parse_str_complete(s: Seq<char>, p: int, w: Seq<char>)
    requires
        expect(s, p, json_str(w)),
    ensures
        parse_str(s, p) == Some((w, p + json_str(w).len())),
{
    let x = json_str(w);
    let e = escape_str(w);
    assert(s[p] == x[0]);
    assert(s.subrange(p + 1, p + 1 + (e.len() as int)) =~= x.subrange(1, 1 + (e.len() as int)));
    assert(x.subrange(1, 1 + (e.len() as int)) =~= e);
    assert(s[p + 1 + (e.len() as int)] == x[1 + (e.len() as int)]);
    lemma_parse_str_body_complete(s, p + 1, w, Seq::empty());
    assert(Seq::<char>::empty() + w =~= w);
}

proof fn lemma_parse_str_sound(s: Seq<char>, p: int)
    ensures
        parse_str(s, p) matches Some((w, q)) ==> p < q <= s.len() && s.subrange(p, q) == json_str(w),
{
    if let Some((w, q)) = parse_str(s, p) {
        lemma_parse_str_body_sound(s, p + 1, Seq::empty());
        assert(w.skip(0) =~= w);
        assert(s.subrange(p, q) =~= seq![s[p]] + s.subrange(p + 1, q));
    }
}

proof fn lemma_parse_item_complete(s: Seq<char>, i: int, it: (Seq<char>, Seq<char>))
    requires
        expect(s, i, json_item(it)),
    ensures
        parse_item(s, i) == Some((it, i + json_item(it).len())),
        json_item(it).len() > 0,
        json_item(it)[0] == '{',
{
    reveal(json_item);
    let x = json_item(it);
    let a = json_str(it.0);
    let b = json_str(it.1);
    assert(s.subrange(i, i + 8) =~= x.subrange(0, 8));
    assert(x.subrange(0, 8) =~= word_key());
    assert(s.subrange(i + 8, i + 8 + (a.len() as int)) =~= x.subrange(8, 8 + (a.len() as int)));
    assert(x.subrange(8, 8 + (a.len() as int)) =~= a);
    lemma_parse_str_complete(s, i + 8, it.0);
    let j = i + 8 + (a.len() as int);
    assert(s.subrange(j, j + 7) =~= x.subrange(8 + (a.len() as int), 15 + (a.len() as int)));
    assert(x.subrange(8 + (a.len() as int), 15 + (a.len() as int)) =~= row_key());
    assert(s.subrange(j + 7, j + 7 + (b.len() as int)) =~= x.subrange(15 + (a.len() as int), 15 + (a.len() as int) + (b.len() as int)));
    assert(x.subrange(15 + (a.len() as int), 15 + (a.len() as int) + (b.len() as int)) =~= b);
    lemma_parse_str_complete(s, j + 7, it.1);
    assert(s[j + 7 + (b.len() as int)] == x[15 + (a.len() as int) + (b.len() as int)]);
}

proof fn lemma_parse_item_sound(s: Seq<char>, i: int)
    ensures
        parse_item(s, i) matches Some((it, j)) ==> i < j <= s.len() && s.subrange(i, j)
            == json_item(it),
{
    reveal(json_item);
    if let Some((it, k1)) = parse_item(s, i) {
        let (w, j) = parse_str(s, i + 8)->0;
        let (r, k) = parse_str(s, j + 7)->0;
        lemma_parse_str_sound(s, i + 8);
        lemma_parse_str_sound(s, j + 7);
        assert(s.subrange(i, k1) =~= s.subrange(i, i + 8) + s.subrange(i + 8, j) + s.subrange(
            j,
            j + 7,
        ) + s.subrange(j + 7, k) + seq![s[k]]);
    }
}

proof fn lemma_tail_unfold(items: Seq<(Seq<char>, Seq<char>)>)
    requires
        items.len() > 0,
    ensures
        json_items_tail(items) == seq![','] + json_item(items[0]) + json_items_tail(items.drop_first()),
{
}

proof fn lemma_parse_tail_complete(
    s: Seq<char>,
    i: int,
    items: Seq<(Seq<char>, Seq<char>)>,
    acc: Seq<(Seq<char>, Seq<char>)>,
)
    requires
        expect(s, i, json_items_tail(items) + seq![']']),
        i + json_items_tail(items).len() + 1 == s.len(),
    ensures
        parse_tail(s, i, acc) == Some(acc + items),
    decreases items.len(),
{
    let x = json_items_tail(items) + seq![']'];
    assert(s[i] == x[0]);
    if items.len() == 0 {
        assert(acc + items =~= acc);
    } else {
        lemma_tail_unfold(items);
        let it = json_item(items[0]);
        let rest = json_items_tail(items.drop_first());
        assert(s.subrange(i + 1, i + 1 + (it.len() as int)) =~= x.subrange(1, 1 + (it.len() as int)));
        assert(x.subrange(1, 1 + (it.len() as int)) =~= it);
        lemma_parse_item_complete(s, i + 1, items[0]);
        let j = i + 1 + (it.len() as int);
        assert(s.subrange(j, j + (rest.len() as int) + 1) =~= x.subrange(1 + (it.len() as int), x.len() as int));
        assert(x.subrange(1 + (it.len() as int), x.len() as int) =~= rest + seq![']']);
        lemma_parse_tail_complete(s, j, items.drop_first(), acc.push(items[0]));
        assert(acc.push(items[0]) + items.drop_first() =~= acc + items);
    }
}

proof fn lemma_parse_tail_sound(s: Seq<char>, i: int, acc: Seq<(Seq<char>, Seq<char>)>)
    ensures
        parse_tail(s, i, acc) matches Some(res) ==> {
            &&& 0 <= i < s.len()
            &&& res.len() >= acc.len()
            &&& res.take(acc.len() as int) == acc
            &&& s.subrange(i, s.len() as int) == json_items_tail(res.skip(acc.len() as int)) + seq![']']
        },
    decreases s.len() - i,
{
    if let Some(res) = parse_tail(s, i, acc) {
        if s[i] == ']' {
            assert(res.skip(acc.len() as int) =~= Seq::<(Seq<char>, Seq<char>)>::empty());
            assert(res.take(acc.len() as int) =~= acc);
            assert(s.subrange(i, s.len() as int) =~= seq![']']);
        } else {
            let (it, j) = parse_item(s, i + 1)->0;
            lemma_parse_item_sound(s, i + 1);
            lemma_parse_tail_sound(s, j, acc.push(it));
            let w = res.skip(acc.len() as int);
            assert(res.take((acc.len() + 1) as int)[acc.len() as int] == it);
            assert(res[acc.len() as int] == it);
            assert(w[0] == it);
            assert(w.drop_first() =~= res.skip((acc.len() + 1) as int));
            lemma_tail_unfold(w);
            assert(res.take(acc.len() as int) =~= acc.push(it).take(acc.len() as int));
            assert(s.subrange(i, s.len() as int) =~= seq![s[i]] + s.subrange(i + 1, j) + s.subrange(
                j,
                s.len() as int,
            ));
        }
    }
}

/// Parsing the JSON text of a row list gives the row list back.
#[verifier::rlimit(40)]
pub proof fn lemma_row_list_roundtrip(items: Seq<(Seq<char>, Seq<char>)>)
    ensures
        parse_list(json_list(items)) == Some(items),
{
    let s = json_list(items);
    if items.len() > 0 {
        let it = json_item(items[0]);
        let c = json_items_tail(items.drop_first()) + seq![']'];
        let n = it.len() as int;
        assert(s =~= seq!['['] + it + c);
        assert(s.subrange(1, 1 + n) =~= it);
        assert(s.subrange(1 + n, s.len() as int) =~= c);
        lemma_parse_item_complete(s, 1, items[0]);
        assert(s[1] == it[0]);
        lemma_parse_tail_complete(s, 1 + n, items.drop_first(), seq![items[0]]);
        assert(seq![items[0]] + items.drop_first() =~= items);
    }
}

/// A text the parser accepts is the JSON text of the row list it yields.
pub proof fn lemma_row_list_sound(s: Seq<char>)
    ensures
        parse_list(s) matches Some(items) ==> json_list(items) == s,
{
    if let Some(items) = parse_list(s) {
        if s[1] == ']' {
            assert(s =~= seq!['[', ']']);
        } else {
            let (it, j) = parse_item(s, 1)->0;
            lemma_parse_item_sound(s, 1);
            lemma_parse_tail_sound(s, j, seq![it]);
            assert(items.take(1) =~= seq![it]);
            assert(items.take(1)[0] == it);
            assert(items[0] == it);
            assert(items.skip(1) =~= items.drop_first());
            assert(s =~= seq![s[0]] + s.subrange(1, j) + s.subrange(j, s.len() as int));
        }
    }
}

// ---- executable encoder and parser ----

fn hex_digit_exec(n: u32) -> (c: char)
    requires
        n < 16,
    ensures
        c == hex_digit(n as nat),
{
    let b: u8 = if n < 10 {
        (n as u8) + 48
    } else {
        (n as u8) + 87
    };
    let c = b as char;
    assert((b as u32) as char == c);
    c
}

/// Appends the escape of `c`.
fn push_escaped(out: &mut Vec<char>, c: char)
    ensures
        final(out)@ == old(out)@ + escape_char(c),
{
    let e: Vec<char> = if c == '"' {
        vec!['\\', '"']
    } else if c == '\\' {
        vec!['\\', '\\']
    } else if c == '\n' {
        vec!['\\', 'n']
    } else if c == '\r' {
        vec!['\\', 'r']
    } else if c == '\t' {
        vec!['\\', 't']
    } else if c == '\u{8}' {
        vec!['\\', 'b']
    } else if c == '\u{c}' {
        vec!['\\', 'f']
    } else if (c as u32) < 0x20 {
        let v = c as u32;
        vec!['\\', 'u', '0', '0', hex_digit_exec(v / 16), hex_digit_exec(v % 16)]
    } else {
        vec![c]
    };
    assert(e@ =~= escape_char(c));
    append_chars(out, e.as_slice());
}

proof fn lemma_escape_str_push(w: Seq<char>, c: char)
    ensures
        escape_str(w.push(c)) == escape_str(w) + escape_char(c),
    decreases w.len(),
{
    if w.len() == 0 {
        assert(w.push(c).drop_first() =~= Seq::<char>::empty());
        assert(escape_str(Seq::<char>::empty()) == Seq::<char>::empty());
        assert(escape_str(w.push(c)) == escape_char(c) + escape_str(w.push(c).drop_first()));
        assert(escape_str(w.push(c)) =~= escape_char(c));
    } else {
        lemma_escape_str_push(w.drop_first(), c);
        assert(w.push(c).drop_first() =~= w.drop_first().push(c));
        assert(escape_str(w.push(c)) =~= escape_str(w) + escape_char(c));
    }
}

/// Appends the JSON string literal of `w`.
fn push_json_str(out: &mut Vec<char>, w: &[char])
    ensures
        final(out)@ == old(out)@ + json_str(w@),
{
    out.push('"');
    let ghost start = out@;
    let mut i: usize = 0;
    assert(w@.take(0) =~= Seq::<char>::empty());
    while i < w.len()
        invariant
            i <= w.len(),
            out@ == start + escape_str(w@.take(i as int)),
        decreases w.len() - i,
    {
        push_escaped(out, w[i]);
        proof {
            lemma_escape_str_push(w@.take(i as int), w@[i as int]);
            assert(w@.take(i + 1) =~= w@.take(i as int).push(w@[i as int]));
        }
        i += 1;
    }
    assert(w@.take(w.len() as int) =~= w@);
    out.push('"');
    assert(out@ =~= old(out)@ + json_str(w@));
}

fn push_json_item(out: &mut Vec<char>, it: &RowItem)
    ensures
        final(out)@ == old(out)@ + json_item(it@),
{
    reveal(json_item);
    let k1: Vec<char> = vec!['{', '"', 'w', 'o', 'r', 'd', '"', ':'];
    let k2: Vec<char> = vec![',', '"', 'r', 'o', 'w', '"', ':'];
    assert(k1@ =~= word_key());
    assert(k2@ =~= row_key());
    append_chars(out, k1.as_slice());
    let wv = chars_of(it.word.as_str());
    push_json_str(out, wv.as_slice());
    append_chars(out, k2.as_slice());
    let rv = chars_of(it.row.as_str());
    push_json_str(out, rv.as_slice());
    out.push('}');
    assert(out@ =~= old(out)@ + json_item(it@));
}

proof fn lemma_tail_push(items: Seq<(Seq<char>, Seq<char>)>, it: (Seq<char>, Seq<char>))
    ensures
        json_items_tail(items.push(it)) == json_items_tail(items) + seq![','] + json_item(it),
    decreases items.len(),
{
    if items.len() == 0 {
        assert(items.push(it).drop_first() =~= Seq::<(Seq<char>, Seq<char>)>::empty());
        assert(json_items_tail(Seq::<(Seq<char>, Seq<char>)>::empty()) == Seq::<char>::empty());
        assert(json_items_tail(items.push(it)) == seq![','] + json_item(items.push(it)[0])
            + json_items_tail(items.push(it).drop_first()));
        assert(json_items_tail(items.push(it)) =~= seq![','] + json_item(it));
    } else {
        lemma_tail_push(items.drop_first(), it);
        assert(items.push(it).drop_first() =~= items.drop_first().push(it));
        assert(json_items_tail(items.push(it)) =~= json_items_tail(items) + seq![','] + json_item(
            it,
        ));
    }
}

/// The JSON text of a row list (as `serde_json::to_string` writes it).
pub fn row_list_json(items: &Vec<RowItem>) -> (r: String)
    ensures
        r@ == json_list(items_view(items@)),
{
    let ghost iv = items_view(items@);
    let mut out: Vec<char> = Vec::new();
    out.push('[');
    if items.len() > 0 {
        push_json_item(&mut out, &items[0]);
        let ghost head = out@;
        let mut i: usize = 1;
        assert(iv.drop_first().take(0) =~= Seq::<(Seq<char>, Seq<char>)>::empty());
        while i < items.len()
            invariant
                1 <= i <= items.len(),
                iv == items_view(items@),
                out@ == head + json_items_tail(iv.drop_first().take(i - 1)),
            decreases items.len() - i,
        {
            out.push(',');
            push_json_item(&mut out, &items[i]);
            proof {
                lemma_tail_push(iv.drop_first().take(i - 1), iv[i as int]);
                assert(iv.drop_first().take(i as int) =~= iv.drop_first().take(i - 1).push(
                    iv[i as int],
                ));
            }
            i += 1;
        }
        assert(iv.drop_first().take(items.len() - 1) =~= iv.drop_first());
    }
    out.push(']');
    assert(out@ =~= json_list(iv));
    string_of(out.as_slice())
}

} // verus!
