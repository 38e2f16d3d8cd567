//! Purchaser and seller blocks, the password area and the remarks.

use vstd::prelude::*;
use crate::field_map::FieldMap;
use crate::html_table::{Cell, CellView, table_view};
use crate::normalize::{
    join_text_spec, join_two, normalize_chars, normalize_label, normalize_label_chars,
    normalize_label_spec, normalize_text, normalize_text_spec,
};
use crate::regex_ops::{re_replace_all, replace_all};
use crate::text::{
    chars_of, lemma_trim_end_take, lemma_trim_start_skip, seqs_of, slice_chars, str_eq, string_of,
    trim, trim_chars, trim_end_by, trim_start_by,
};

verus! {

// ------------------------------------------------------------------
// Lines
// ------------------------------------------------------------------

/// The finished lines and the line being read, after reading `s`.
pub open spec fn split_acc(s: Seq<char>) -> (Seq<Seq<char>>, Seq<char>)
    decreases s.len(),
{
    if s.len() == 0 {
        (Seq::empty(), Seq::empty())
    } else {
        let (done, cur) = split_acc(s.drop_last());
        if s.last() == '\n' {
            (done.push(cur), Seq::empty())
        } else {
            (done, cur.push(s.last()))
        }
    }
}

/// `str::split('\n')`: the pieces between line breaks.
pub open spec fn split_lines(s: Seq<char>) -> Seq<Seq<char>> {
    split_acc(s).0.push(split_acc(s).1)
}

pub(crate) fn split_lines_exec(v: &[char]) -> (r: Vec<Vec<char>>)
    ensures
        seqs_of(r@) == split_lines(v@),
{
    let mut done: Vec<Vec<char>> = Vec::new();
    let mut cur: Vec<char> = Vec::new();
    let mut i: usize = 0;
    assert(v@.take(0) =~= Seq::<char>::empty());
    assert(seqs_of(done@) =~= Seq::<Seq<char>>::empty());
    while i < v.len()
        invariant
            i <= v.len(),
            (seqs_of(done@), cur@) == split_acc(v@.take(i as int)),
        decreases v.len() - i,
    {
        assert(v@.take(i + 1).drop_last() == v@.take(i as int));
        assert(v@.take(i + 1).last() == v@[i as int]);
        if v[i] == '\n' {
            let ghost before = done@;
            let mut line: Vec<char> = Vec::new();
            std::mem::swap(&mut line, &mut cur);
            done.push(line);
            assert(seqs_of(done@) =~= seqs_of(before).push(line@));
        } else {
            cur.push(v[i]);
        }
        i += 1;
    }
    assert(v@.take(v.len() as int) == v@);
    let ghost before = done@;
    done.push(cur);
    assert(seqs_of(done@) =~= seqs_of(before).push(cur@));
    done
}

/// A full-width or ASCII colon.
pub open spec fn is_colon(c: char) -> bool {
    c == '：' || c == ':'
}

/// The position of the first colon at or after `k`.
pub open spec fn first_colon_from(line: Seq<char>, k: int) -> Option<int>
    decreases line.len() - k,
{
    if k < 0 || k >= line.len() {
        None
    } else if is_colon(line[k]) {
        Some(k)
    } else {
        first_colon_from(line, k + 1)
    }
}

fn first_colon(line: &[char]) -> (r: Option<usize>)
    ensures
        match r {
            Some(p) => p < line@.len() && first_colon_from(line@, 0) == Some(p as int),
            None => first_colon_from(line@, 0) is None,
        },
{
    let mut i: usize = 0;
    while i < line.len()
        invariant
            i <= line.len(),
            first_colon_from(line@, 0) == first_colon_from(line@, i as int),
        decreases line.len() - i,
    {
        if line[i] == '：' || line[i] == ':' {
            return Some(i);
        }
        i += 1;
    }
    None
}

// ------------------------------------------------------------------
// Labeled lines of a party cell
// ------------------------------------------------------------------

/// The party field a normalized line label names.
pub open spec fn party_key(label: Seq<char>) -> Option<Seq<char>> {
    if label == "名称"@ || label == "名"@ {
        Some("name"@)
    } else if label == "纳税人识别号"@ || label == "统一社会信用代码"@ || label
        == "统一社会信用代码/纳税人识别号"@ {
        Some("reg"@)
    } else if label == "地址电话"@ || label == "地址"@ || label == "电话"@ {
        Some("address"@)
    } else if label == "开户行及账号"@ || label == "开户银行及账号"@ || label == "开户行账号"@ {
        Some("bank"@)
    } else {
        None
    }
}

fn party_key_exec(label: &str) -> (r: Option<&'static str>)
    ensures
        match party_key(label@) {
            Some(k) => r matches Some(x) && x@ == k,
            None => r is None,
        },
{
    if str_eq(label, "名称") || str_eq(label, "名") {
        Some("name")
    } else if str_eq(label, "纳税人识别号") || str_eq(label, "统一社会信用代码") || str_eq(
        label,
        "统一社会信用代码/纳税人识别号",
    ) {
        Some("reg")
    } else if str_eq(label, "地址电话") || str_eq(label, "地址") || str_eq(label, "电话") {
        Some("address")
    } else if str_eq(label, "开户行及账号") || str_eq(label, "开户银行及账号") || str_eq(
        label,
        "开户行账号",
    ) {
        Some("bank")
    } else {
        None
    }
}

/// The label of a line: the normalized text before its first colon, or of
/// the whole line when it has none.
pub open spec fn line_label(line: Seq<char>) -> Seq<char> {
    match first_colon_from(line, 0) {
        Some(p) => normalize_label_spec(line.take(p)),
        None => normalize_label_spec(line),
    }
}

/// The value stored under `k`, or the empty text.
pub open spec fn get_or_empty(m: Map<Seq<char>, Seq<char>>, k: Seq<char>) -> Seq<char> {
    if m.contains_key(k) {
        m[k]
    } else {
        Seq::empty()
    }
}

/// The fields read so far and the field that unlabeled lines continue.
pub type LinesState = (Map<Seq<char>, Seq<char>>, Option<Seq<char>>);

/// One line read: blank lines are skipped; a labeled line sets its field to
/// the text after the colon (or makes sure the field exists) and becomes the
/// current field; an unlabeled line is appended to the current field.
pub open spec fn lines_step(st: LinesState, raw: Seq<char>) -> LinesState {
    let line = trim(raw);
    if line.len() == 0 {
        st
    } else {
        match party_key(line_label(line)) {
            Some(k) => (
                match first_colon_from(line, 0) {
                    Some(p) => st.0.insert(k, trim(line.skip(p + 1))),
                    None => if st.0.contains_key(k) {
                        st.0
                    } else {
                        st.0.insert(k, Seq::empty())
                    },
                },
                Some(k),
            ),
            None => match st.1 {
                Some(cur) => (st.0.insert(cur, join_text_spec(seq![get_or_empty(st.0, cur), line])), st.1),
                None => st,
            },
        }
    }
}

/// The state after reading `lines` in order.
pub open spec fn lines_fold(lines: Seq<Seq<char>>) -> LinesState
    decreases lines.len(),
{
    if lines.len() == 0 {
        (Map::empty(), None)
    } else {
        lines_step(lines_fold(lines.drop_last()), lines.last())
    }
}

/// The labeled fields (`name`, `reg`, `address`, `bank`) of a party cell.
pub open spec fn split_labeled_lines_spec(text: Seq<char>) -> Map<Seq<char>, Seq<char>> {
    lines_fold(split_lines(normalize_text_spec(text))).0
}

/// The view of an optional string.
pub open spec fn opt_str_view(o: Option<String>) -> Option<Seq<char>> {
    match o {
        Some(s) => Some(s@),
        None => None,
    }
}

/// Reads the labeled fields of a party cell (see `split_labeled_lines_spec`).
pub fn split_labeled_lines(cell_text: &str) -> (r: FieldMap)
    ensures
        r@ == split_labeled_lines_spec(cell_text@),
{
    let v = chars_of(cell_text);
    let normalized = normalize_chars(v.as_slice());
    let lines = split_lines_exec(normalized.as_slice());
    let ghost lv = seqs_of(lines@);
    let mut fields = FieldMap::new();
    let mut current: Option<String> = None;
    let mut i: usize = 0;
    assert(lv.take(0) =~= Seq::<Seq<char>>::empty());
    while i < lines.len()
        invariant
            i <= lines.len(),
            lv == seqs_of(lines@),
            (fields@, opt_str_view(current)) == lines_fold(lv.take(i as int)),
        decreases lines.len() - i,
    {
        assert(lv.take(i + 1).drop_last() == lv.take(i as int));
        assert(lv.take(i + 1).last() == lines@[i as int]@);
        let line = trim_chars(lines[i].as_slice());
        if line.len() > 0 {
            let colon = first_colon(line.as_slice());
            let label = match colon {
                Some(p) => {
                    let head = slice_chars(line.as_slice(), 0, p);
                    assert(head@ == line@.take(p as int));
                    normalize_label_chars(head.as_slice())
                },
                None => normalize_label_chars(line.as_slice()),
            };
            let label_s = string_of(label.as_slice());
            match party_key_exec(label_s.as_str()) {
                Some(k) => {
                    match colon {
                        Some(p) => {
                            let after = slice_chars(line.as_slice(), p + 1, line.len());
                            assert(after@ == line@.skip(p + 1));
                            let t = trim_chars(after.as_slice());
                            fields.insert(k.to_owned(), string_of(t.as_slice()));
                        },
                        None => {
                            fields.insert_if_absent(k.to_owned(), String::new());
                        },
                    }
                    current = Some(k.to_owned());
                },
                None => {
                    match &current {
                        Some(cur) => {
                            let existing = fields.get_or_empty(cur.as_str());
                            let ev = chars_of(existing.as_str());
                            let joined = join_two(ev.as_slice(), line.as_slice());
                            fields.insert(cur.clone(), string_of(joined.as_slice()));
                        },
                        None => {},
                    }
                },
            }
        }
        i += 1;
    }
    assert(lv.take(lines.len() as int) == lv);
    fields
}

// ------------------------------------------------------------------
// A party cell
// ------------------------------------------------------------------

/// Punctuation trimmed from both ends of a party name.
pub open spec fn is_name_punct(c: char) -> bool {
    c == '，' || c == ',' || c == '；' || c == ';' || c == '。' || c == '.'
}

fn is_name_punct_exec(c: char) -> (r: bool)
    ensures
        r == is_name_punct(c),
{
    c == '，' || c == ',' || c == '；' || c == ';' || c == '。' || c == '.'
}

/// A name without surrounding punctuation.
pub open spec fn trim_name(s: Seq<char>) -> Seq<char> {
    trim_end_by(trim_start_by(s, |c: char| is_name_punct(c)), |c: char| is_name_punct(c))
}

fn trim_name_exec(v: &[char]) -> (r: Vec<char>)
    ensures
        r@ == trim_name(v@),
{
    let ghost p = |c: char| is_name_punct(c);
    let mut i: usize = 0;
    while i < v.len() && is_name_punct_exec(v[i])
        invariant
            i <= v.len(),
            forall|k: int| 0 <= k < i ==> is_name_punct(v@[k]),
        decreases v.len() - i,
    {
        i += 1;
    }
    proof {
        lemma_trim_start_skip(v@, p, i as int);
    }
    let mut j: usize = v.len();
    while j > i && is_name_punct_exec(v[j - 1])
        invariant
            i <= j <= v.len(),
            forall|k: int| j <= k < v.len() ==> is_name_punct(v@[k]),
        decreases j,
    {
        j -= 1;
    }
    let ghost t = v@.skip(i as int);
    proof {
        assert forall|k: int| (j - i) <= k < t.len() implies p(t[k]) by {
            assert(t[k] == v@[k + i]);
        }
        if j > i {
            assert(t[j - i - 1] == v@[j - 1]);
        }
        lemma_trim_end_take(t, p, j - i);
        assert(t.take(j - i) == v@.subrange(i as int, j as int));
    }
    slice_chars(v, i, j)
}

/// Runs of whitespace.
pub open spec fn space_run_pattern() -> Seq<char> {
    "\\s+"@
}

/// A bank line with all whitespace removed.
pub open spec fn bank_value_spec(v: Seq<char>) -> Seq<char> {
    re_replace_all(space_run_pattern(), normalize_text_spec(v), ""@)
}

/// The party fields of a cell: the name without surrounding punctuation,
/// the registration number without whitespace, the address as read and
/// the bank line compacted.
pub open spec fn party_spec(text: Seq<char>) -> Map<Seq<char>, Seq<char>> {
    let f = split_labeled_lines_spec(text);
    let m1 = if f.contains_key("name"@) {
        Map::empty().insert("name"@, trim_name(f["name"@]))
    } else {
        Map::empty()
    };
    let m2 = if f.contains_key("reg"@) {
        m1.insert("reg"@, re_replace_all(space_run_pattern(), f["reg"@], ""@))
    } else {
        m1
    };
    let m3 = if f.contains_key("address"@) {
        m2.insert("address"@, f["address"@])
    } else {
        m2
    };
    if f.contains_key("bank"@) {
        m3.insert("bank"@, bank_value_spec(f["bank"@]))
    } else {
        m3
    }
}

/// The party fields of a cell (see `party_spec`).
pub fn party_from_cell(cell_text: &str) -> (r: FieldMap)
    ensures
        r@ == party_spec(cell_text@),
{
    let fields = split_labeled_lines(cell_text);
    let mut result = FieldMap::new();
    match fields.get("name") {
        Some(name) => {
            let nv = chars_of(name.as_str());
            let t = trim_name_exec(nv.as_slice());
            result.insert("name".to_owned(), string_of(t.as_slice()));
        },
        None => {},
    }
    match fields.get("reg") {
        Some(reg) => {
            result.insert("reg".to_owned(), replace_all("\\s+", reg.as_str(), ""));
        },
        None => {},
    }
    match fields.get("address") {
        Some(address) => {
            result.insert("address".to_owned(), address.clone());
        },
        None => {},
    }
    match fields.get("bank") {
        Some(bank) => {
            let n = normalize_text(bank.as_str());
            result.insert("bank".to_owned(), replace_all("\\s+", n.as_str(), ""));
        },
        None => {},
    }
    result
}

// ------------------------------------------------------------------
// Party and footer cells of a table
// ------------------------------------------------------------------

/// The role of a label cell: purchaser, seller, password area or remarks.
pub open spec fn party_role(text: Seq<char>) -> Option<Seq<char>> {
    let label = normalize_label_spec(text);
    if label == "购买方"@ || label == "购买方信息"@ {
        Some("purchaser"@)
    } else if label == "销售方"@ || label == "销售方信息"@ {
        Some("seller"@)
    } else if label == "密码区"@ {
        Some("password"@)
    } else if label == "备注"@ {
        Some("remarks"@)
    } else {
        None
    }
}

/// The role of a label cell (see `party_role`).
pub fn is_party_label(text: &str) -> (r: Option<&'static str>)
    ensures
        match party_role(text@) {
            Some(k) => r matches Some(x) && x@ == k,
            None => r is None,
        },
{
    let label = normalize_label(text);
    let l = label.as_str();
    if str_eq(l, "购买方") || str_eq(l, "购买方信息") {
        Some("purchaser")
    } else if str_eq(l, "销售方") || str_eq(l, "销售方信息") {
        Some("seller")
    } else if str_eq(l, "密码区") {
        Some("password")
    } else if str_eq(l, "备注") {
        Some("remarks")
    } else {
        None
    }
}

/// `acc` with `out` set to the party field `key`, when that is not empty.
pub open spec fn put_nonempty(
    acc: Map<Seq<char>, Seq<char>>,
    info: Map<Seq<char>, Seq<char>>,
    key: Seq<char>,
    out: Seq<char>,
) -> Map<Seq<char>, Seq<char>> {
    if info.contains_key(key) && info[key].len() > 0 {
        acc.insert(out, info[key])
    } else {
        acc
    }
}

/// `acc` with the four party fields stored under their output names.
pub open spec fn put_party(
    acc: Map<Seq<char>, Seq<char>>,
    info: Map<Seq<char>, Seq<char>>,
    purchaser: bool,
) -> Map<Seq<char>, Seq<char>> {
    if purchaser {
        put_nonempty(
            put_nonempty(
                put_nonempty(put_nonempty(acc, info, "name"@, "PurchaserName"@), info, "reg"@, "PurchaserRegisterNum"@),
                info,
                "address"@,
                "PurchaserAddress"@,
            ),
            info,
            "bank"@,
            "PurchaserBank"@,
        )
    } else {
        put_nonempty(
            put_nonempty(
                put_nonempty(put_nonempty(acc, info, "name"@, "SellerName"@), info, "reg"@, "SellerRegisterNum"@),
                info,
                "address"@,
                "SellerAddress"@,
            ),
            info,
            "bank"@,
            "SellerBank"@,
        )
    }
}

/// `acc` after cell `i` of `row`: a role label with a cell after it sets
/// the fields that cell holds; later cells win.
pub open spec fn party_cell_step(acc: Map<Seq<char>, Seq<char>>, row: Seq<CellView>, i: int) -> Map<
    Seq<char>,
    Seq<char>,
> {
    match party_role(row[i].text) {
        None => acc,
        Some(role) => if i + 1 >= row.len() {
            acc
        } else {
            let next = row[i + 1].text;
            if role == "purchaser"@ {
                put_party(acc, party_spec(next), true)
            } else if role == "seller"@ {
                put_party(acc, party_spec(next), false)
            } else if role == "password"@ {
                let v = normalize_text_spec(next);
                if v.len() > 0 {
                    acc.insert("Password"@, v)
                } else {
                    acc
                }
            } else if role == "remarks"@ {
                let v = normalize_text_spec(next);
                if v.len() > 0 {
                    acc.insert("Remarks"@, v)
                } else {
                    acc
                }
            } else {
                acc
            }
        },
    }
}

/// `acc` after the first `k` cells of `row`.
pub open spec fn party_row(acc: Map<Seq<char>, Seq<char>>, row: Seq<CellView>, k: int) -> Map<
    Seq<char>,
    Seq<char>,
>
    decreases k,
{
    if k <= 0 {
        acc
    } else {
        party_cell_step(party_row(acc, row, k - 1), row, k - 1)
    }
}

/// The party and footer fields of the first `n` rows.
pub open spec fn party_rows(rows: Seq<Seq<CellView>>, n: int) -> Map<Seq<char>, Seq<char>>
    decreases n,
{
    if n <= 0 {
        Map::empty()
    } else {
        party_row(party_rows(rows, n - 1), rows[n - 1], rows[n - 1].len() as int)
    }
}

fn put_nonempty_exec(acc: &mut FieldMap, info: &FieldMap, key: &str, out: &str)
    ensures
        final(acc)@ == put_nonempty(old(acc)@, info@, key@, out@),
{
    match info.get(key) {
        Some(v) => {
            if !v.as_str().is_empty() {
                acc.insert(out.to_owned(), v.clone());
            }
        },
        None => {},
    }
}

fn put_party_exec(acc: &mut FieldMap, info: &FieldMap, purchaser: bool)
    ensures
        final(acc)@ == put_party(old(acc)@, info@, purchaser),
{
    if purchaser {
        put_nonempty_exec(acc, info, "name", "PurchaserName");
        put_nonempty_exec(acc, info, "reg", "PurchaserRegisterNum");
        put_nonempty_exec(acc, info, "address", "PurchaserAddress");
        put_nonempty_exec(acc, info, "bank", "PurchaserBank");
    } else {
        put_nonempty_exec(acc, info, "name", "SellerName");
        put_nonempty_exec(acc, info, "reg", "SellerRegisterNum");
        put_nonempty_exec(acc, info, "address", "SellerAddress");
        put_nonempty_exec(acc, info, "bank", "SellerBank");
    }
}

/// The party blocks, password area and remarks of a table (see `party_rows`).
pub fn extract_party_and_footer(rows: &[Vec<Cell>]) -> (r: FieldMap)
    ensures
        r@ == party_rows(table_view(rows@), rows@.len() as int),
{
    let ghost tv = table_view(rows@);
    let mut result = FieldMap::new();
    let mut r: usize = 0;
    while r < rows.len()
        invariant
            r <= rows.len(),
            tv == table_view(rows@),
            result@ == party_rows(tv, r as int),
        decreases rows.len() - r,
    {
        let row = &rows[r];
        let ghost rv = tv[r as int];
        assert(rv == crate::html_table::row_view(row@));
        let ghost start = result@;
        let mut i: usize = 0;
        while i < row.len()
            invariant
                i <= row.len(),
                row == rows@[r as int],
                rv == crate::html_table::row_view(row@),
                result@ == party_row(start, rv, i as int),
            decreases row.len() - i,
        {
            assert(rv[i as int] == row@[i as int]@);
            match is_party_label(row[i].text.as_str()) {
                Some(role) => {
                    if i + 1 < row.len() {
                        assert(rv[i + 1] == row@[i + 1]@);
                        let next = row[i + 1].text.as_str();
                        if str_eq(role, "purchaser") {
                            let info = party_from_cell(next);
                            put_party_exec(&mut result, &info, true);
                        } else if str_eq(role, "seller") {
                            let info = party_from_cell(next);
                            put_party_exec(&mut result, &info, false);
                        } else if str_eq(role, "password") {
                            let v = normalize_text(next);
                            if !v.as_str().is_empty() {
                                result.insert("Password".to_owned(), v);
                            }
                        } else if str_eq(role, "remarks") {
                            let v = normalize_text(next);
                            if !v.as_str().is_empty() {
                                result.insert("Remarks".to_owned(), v);
                            }
                        }
                    }
                },
                None => {},
            }
            i += 1;
        }
        r += 1;
    }
    result
}


// ------------------------------------------------------------------
// What a party block gives
// ------------------------------------------------------------------

/// The value of field `k` of the labeled lines, or the empty text.
pub open spec fn line_value(f: Map<Seq<char>, Seq<char>>, k: Seq<char>) -> Seq<char> {
    if f.contains_key(k) {
        f[k]
    } else {
        Seq::empty()
    }
}

/// `r` holds `v` under `k` when `v` is not empty, and nothing under `k`
/// otherwise.
pub open spec fn holds_nonempty(r: Map<Seq<char>, Seq<char>>, k: Seq<char>, v: Seq<char>) -> bool {
    &&& v.len() > 0 ==> r.contains_key(k) && r[k] == v
    &&& v.len() == 0 ==> !r.contains_key(k)
}

proof fn lemma_party_keys()
    ensures
        "SellerName"@ != "SellerRegisterNum"@,
        "SellerName"@ != "SellerAddress"@,
        "SellerName"@ != "SellerBank"@,
        "SellerRegisterNum"@ != "SellerAddress"@,
        "SellerRegisterNum"@ != "SellerBank"@,
        "SellerAddress"@ != "SellerBank"@,
        "PurchaserName"@ != "PurchaserRegisterNum"@,
        "PurchaserName"@ != "PurchaserAddress"@,
        "PurchaserName"@ != "PurchaserBank"@,
        "PurchaserRegisterNum"@ != "PurchaserAddress"@,
        "PurchaserRegisterNum"@ != "PurchaserBank"@,
        "PurchaserAddress"@ != "PurchaserBank"@,
        "name"@ != "reg"@,
        "name"@ != "address"@,
        "name"@ != "bank"@,
        "reg"@ != "address"@,
        "reg"@ != "bank"@,
        "address"@ != "bank"@,
        "purchaser"@ != "seller"@,
{
    reveal_strlit("SellerName");
    reveal_strlit("SellerRegisterNum");
    reveal_strlit("SellerAddress");
    reveal_strlit("SellerBank");
    reveal_strlit("PurchaserName");
    reveal_strlit("PurchaserRegisterNum");
    reveal_strlit("PurchaserAddress");
    reveal_strlit("PurchaserBank");
    reveal_strlit("name");
    reveal_strlit("reg");
    reveal_strlit("address");
    reveal_strlit("bank");
    reveal_strlit("purchaser");
    reveal_strlit("seller");
    assert("SellerName"@.len() == 10 && "SellerBank"@.len() == 10);
    assert("SellerName"@[6] != "SellerBank"@[6]);
    assert("PurchaserName"@.len() == 13 && "PurchaserBank"@.len() == 13);
    assert("PurchaserName"@[9] != "PurchaserBank"@[9]);
    assert("SellerRegisterNum"@.len() == 17 && "SellerAddress"@.len() == 13);
    assert("PurchaserRegisterNum"@.len() == 20 && "PurchaserAddress"@.len() == 16);
    assert("name"@.len() == 4 && "bank"@.len() == 4 && "name"@[0] != "bank"@[0]);
    assert("reg"@.len() == 3 && "address"@.len() == 7);
    assert("purchaser"@.len() == 9 && "seller"@.len() == 6);
}

proof fn lemma_put_party_fields(info: Map<Seq<char>, Seq<char>>, purchaser: bool)
    ensures
        ({
            let r = put_party(Map::empty(), info, purchaser);
            let names = if purchaser {
                seq!["PurchaserName"@, "PurchaserRegisterNum"@, "PurchaserAddress"@, "PurchaserBank"@]
            } else {
                seq!["SellerName"@, "SellerRegisterNum"@, "SellerAddress"@, "SellerBank"@]
            };
            &&& holds_nonempty(r, names[0], line_value(info, "name"@))
            &&& holds_nonempty(r, names[1], line_value(info, "reg"@))
            &&& holds_nonempty(r, names[2], line_value(info, "address"@))
            &&& holds_nonempty(r, names[3], line_value(info, "bank"@))
        }),
{
    lemma_party_keys();
}

/// A purchaser or seller label cell followed by a party cell gives that
/// party's fields, each when not empty: the name from the 名称 line without
/// surrounding punctuation, the registration number from the 纳税人识别号
/// line without whitespace, the address from the 地址电话 line as read, and
/// the bank from the 开户行及账号 line with all whitespace removed; the
/// other party's fields stay unset.
pub proof fn lemma_party_fields(label: CellView, cell: CellView)
    ensures
        ({
            let r = party_rows(seq![seq![label, cell]], 1);
            let l = normalize_label_spec(label.text);
            let f = split_labeled_lines_spec(cell.text);
            let name = if f.contains_key("name"@) {
                trim_name(f["name"@])
            } else {
                Seq::empty()
            };
            let reg = if f.contains_key("reg"@) {
                re_replace_all(space_run_pattern(), f["reg"@], ""@)
            } else {
                Seq::empty()
            };
            let address = line_value(f, "address"@);
            let bank = if f.contains_key("bank"@) {
                bank_value_spec(f["bank"@])
            } else {
                Seq::empty()
            };
            &&& l == "销售方"@ || l == "销售方信息"@ ==> {
                &&& holds_nonempty(r, "SellerName"@, name)
                &&& holds_nonempty(r, "SellerRegisterNum"@, reg)
                &&& holds_nonempty(r, "SellerAddress"@, address)
                &&& holds_nonempty(r, "SellerBank"@, bank)
                &&& !r.contains_key("PurchaserName"@) && !r.contains_key("PurchaserAddress"@)
                    && !r.contains_key("PurchaserBank"@)
            }
            &&& l == "购买方"@ || l == "购买方信息"@ ==> {
                &&& holds_nonempty(r, "PurchaserName"@, name)
                &&& holds_nonempty(r, "PurchaserRegisterNum"@, reg)
                &&& holds_nonempty(r, "PurchaserAddress"@, address)
                &&& holds_nonempty(r, "PurchaserBank"@, bank)
                &&& !r.contains_key("SellerName"@) && !r.contains_key("SellerAddress"@)
                    && !r.contains_key("SellerBank"@)
            }
        }),
{
    let row = seq![label, cell];
    let rows = seq![row];
    let l = normalize_label_spec(label.text);
    let info = party_spec(cell.text);
    lemma_party_keys();
    reveal_strlit("销售方");
    reveal_strlit("销售方信息");
    reveal_strlit("购买方");
    reveal_strlit("购买方信息");
    reveal_strlit("密码区");
    reveal_strlit("备注");
    reveal_strlit("SellerName");
    reveal_strlit("SellerAddress");
    reveal_strlit("SellerBank");
    reveal_strlit("PurchaserName");
    reveal_strlit("PurchaserAddress");
    reveal_strlit("PurchaserBank");
    assert("销售方"@[0] != "购买方"@[0]);
    assert("销售方信息"@[0] != "购买方信息"@[0]);
    assert("销售方"@.len() == 3 && "购买方信息"@.len() == 5 && "密码区"@.len() == 3 && "备注"@.len() == 2);
    assert("销售方"@[0] != "密码区"@[0]);
    assert("购买方"@[0] != "密码区"@[0]);
    assert("SellerName"@[0] != "PurchaserName"@[0]);
    reveal_strlit("SellerRegisterNum");
    reveal_strlit("PurchaserRegisterNum");
    assert("SellerRegisterNum"@.len() == 17 && "PurchaserRegisterNum"@.len() == 20);
    assert("SellerName"@.len() == 10 && "SellerBank"@.len() == 10 && "SellerAddress"@.len() == 13);
    assert("PurchaserName"@.len() == 13 && "PurchaserBank"@.len() == 13 && "PurchaserAddress"@.len() == 16);
    assert("SellerAddress"@[0] != "PurchaserName"@[0]);
    assert("SellerAddress"@[0] != "PurchaserBank"@[0]);
    assert("PurchaserName"@ != "SellerAddress"@);
    assert("PurchaserBank"@ != "SellerAddress"@);
    assert(rows[0] == row);
    assert(rows[0].len() == 2);
    assert(party_rows(rows, 0) == Map::<Seq<char>, Seq<char>>::empty());
    assert(party_rows(rows, 1) == party_row(Map::empty(), row, 2));
    let a0 = party_cell_step(Map::empty(), row, 0);
    assert(party_row(Map::empty(), row, 0) == Map::<Seq<char>, Seq<char>>::empty());
    assert(party_row(Map::empty(), row, 1) == a0);
    assert(party_row(Map::empty(), row, 2) == party_cell_step(a0, row, 1));
    assert(party_cell_step(a0, row, 1) == a0);
    if l == "销售方"@ || l == "销售方信息"@ {
        assert(party_role(label.text) == Some("seller"@));
        assert(a0 == put_party(Map::empty(), info, false));
        lemma_put_party_fields(info, false);
    }
    if l == "购买方"@ || l == "购买方信息"@ {
        assert(party_role(label.text) == Some("purchaser"@));
        assert(a0 == put_party(Map::empty(), info, true));
        lemma_put_party_fields(info, true);
    }
}


/// A 密码区 label cell followed by a cell gives the password area, and a
/// 备注 label cell the remarks: the following cell's normalized text, when
/// not empty; no party field is set.
pub proof fn lemma_footer_fields(label: CellView, cell: CellView)
    ensures
        ({
            let r = party_rows(seq![seq![label, cell]], 1);
            let l = normalize_label_spec(label.text);
            let v = normalize_text_spec(cell.text);
            &&& l == "密码区"@ ==> holds_nonempty(r, "Password"@, v) && !r.contains_key("Remarks"@)
                && !r.contains_key("SellerName"@) && !r.contains_key("PurchaserName"@)
            &&& l == "备注"@ ==> holds_nonempty(r, "Remarks"@, v) && !r.contains_key("Password"@)
                && !r.contains_key("SellerName"@) && !r.contains_key("PurchaserName"@)
        }),
{
    let row = seq![label, cell];
    let rows = seq![row];
    let l = normalize_label_spec(label.text);
    reveal_strlit("销售方");
    reveal_strlit("销售方信息");
    reveal_strlit("购买方");
    reveal_strlit("购买方信息");
    reveal_strlit("密码区");
    reveal_strlit("备注");
    reveal_strlit("purchaser");
    reveal_strlit("seller");
    reveal_strlit("password");
    reveal_strlit("remarks");
    reveal_strlit("Password");
    reveal_strlit("Remarks");
    reveal_strlit("SellerName");
    reveal_strlit("PurchaserName");
    assert("销售方"@.len() == 3 && "购买方信息"@.len() == 5 && "密码区"@.len() == 3 && "备注"@.len() == 2);
    assert("销售方信息"@.len() == 5 && "购买方"@.len() == 3);
    assert("销售方"@[0] != "密码区"@[0]);
    assert("购买方"@[0] != "密码区"@[0]);
    assert("purchaser"@.len() == 9 && "seller"@.len() == 6 && "password"@.len() == 8 && "remarks"@.len() == 7);
    assert("Password"@.len() == 8 && "Remarks"@.len() == 7 && "SellerName"@.len() == 10);
    assert("PurchaserName"@.len() == 13);
    assert(rows[0] == row);
    assert(rows[0].len() == 2);
    assert(party_rows(rows, 0) == Map::<Seq<char>, Seq<char>>::empty());
    assert(party_rows(rows, 1) == party_row(Map::empty(), row, 2));
    let a0 = party_cell_step(Map::empty(), row, 0);
    assert(party_row(Map::empty(), row, 0) == Map::<Seq<char>, Seq<char>>::empty());
    assert(party_row(Map::empty(), row, 1) == a0);
    assert(party_row(Map::empty(), row, 2) == party_cell_step(a0, row, 1));
    assert(party_cell_step(a0, row, 1) == a0);
    if l == "密码区"@ {
        assert(party_role(label.text) == Some("password"@));
    }
    if l == "备注"@ {
        assert(party_role(label.text) == Some("remarks"@));
    }
}

} // verus!
