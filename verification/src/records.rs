//! Stored invoices and their files, the payloads shown to the user, and the
//! decisions around storage: invoice keys, grouping files by invoice
//! number, and the list query.

use vstd::prelude::*;
use crate::standard::{StandardResult, WordView, words_view};
use crate::text::{chars_of, concat_str, decimal, decimal_string, str_eq, string_of, trim, trim_str};

verus! {

// ------------------------------------------------------------------
// Records and payloads
// ------------------------------------------------------------------

/// An invoice: the merged recognition result of all its files.
#[derive(Clone, Debug)]
pub struct InvoiceRecord {
    pub id: i64,
    pub invoice_code: String,
    pub invoice_num: String,
    pub file_name: String,
    pub status: String,
    pub retry_count: i64,
    pub ocr_count: i64,
    pub parsed_result: String,
    pub created_at: String,
    pub updated_at: String,
    pub attachment_count: i64,
}

/// A recognized file attached to an invoice (unique by content hash).
#[derive(Clone, Debug)]
pub struct InvoiceFile {
    pub id: i64,
    pub invoice_id: i64,
    pub sha256: String,
    pub md5: String,
    pub file_name: String,
    pub file_path: String,
    pub ocr_raw_json: String,
    pub page_count: i64,
    pub created_at: String,
}

/// A progress message: its status (`progress`, `success`, `error`) and text.
#[derive(Clone, Debug)]
pub struct ProgressPayload {
    pub status: String,
    pub message: String,
}

/// Progress of a queue of files: how many in all, how many done, and the
/// file being recognized.
#[derive(Clone, Debug)]
pub struct QueuePayload {
    pub total: usize,
    pub done: usize,
    pub current: String,
}

/// The number of invoices in all, recognized and failed.
#[derive(Clone, Debug)]
pub struct InvoiceCounts {
    pub all: u64,
    pub success: u64,
    pub failed: u64,
}

impl Default for InvoiceCounts {
    fn default() -> (r: InvoiceCounts)
        ensures
            r.all == 0 && r.success == 0 && r.failed == 0,
    {
        InvoiceCounts { all: 0, success: 0, failed: 0 }
    }
}

/// One page of the invoice list.
#[derive(Clone, Debug)]
pub struct InvoiceListResponse {
    pub records: Vec<InvoiceRecord>,
    pub total: u64,
    pub page: u64,
    pub page_size: u64,
    pub counts: InvoiceCounts,
}

/// An invoice with its files.
#[derive(Clone, Debug)]
pub struct InvoiceDetailResponse {
    pub invoice: InvoiceRecord,
    pub files: Vec<InvoiceFile>,
}

// ------------------------------------------------------------------
// Invoice keys
// ------------------------------------------------------------------

/// The text of the first entry named `key` from position `k` on (empty when
/// there is none or it is a row list).
pub open spec fn text_value_from(w: Seq<(Seq<char>, WordView)>, key: Seq<char>, k: int) -> Seq<char>
    decreases w.len() - k,
{
    if k < 0 || k >= w.len() {
        Seq::empty()
    } else if w[k].0 == key {
        match w[k].1 {
            WordView::Text(s) => s,
            WordView::Rows(_) => Seq::empty(),
        }
    } else {
        text_value_from(w, key, k + 1)
    }
}

/// The text of field `key` of a standard result.
pub open spec fn text_value(w: Seq<(Seq<char>, WordView)>, key: Seq<char>) -> Seq<char> {
    text_value_from(w, key, 0)
}

fn text_value_exec(parsed: &StandardResult, key: &str) -> (r: String)
    ensures
        r@ == text_value(words_view(parsed.words_result@), key@),
{
    let ghost w = words_view(parsed.words_result@);
    let mut i: usize = 0;
    while i < parsed.words_result.len()
        invariant
            i <= parsed.words_result@.len(),
            w == words_view(parsed.words_result@),
            text_value(w, key@) == text_value_from(w, key@, i as int),
        decreases parsed.words_result.len() - i,
    {
        let entry = &parsed.words_result[i];
        assert(w[i as int] == (entry.0@, entry.1@));
        if str_eq(entry.0.as_str(), key) {
            return match entry.1.as_text() {
                Some(s) => s.clone(),
                None => String::new(),
            };
        }
        i += 1;
    }
    String::new()
}

/// The invoice code and number of a standard result, trimmed.
pub fn extract_invoice_keys(parsed: &StandardResult) -> (r: (String, String))
    ensures
        r.0@ == trim(text_value(words_view(parsed.words_result@), "InvoiceCode"@)),
        r.1@ == trim(text_value(words_view(parsed.words_result@), "InvoiceNum"@)),
{
    let num = text_value_exec(parsed, "InvoiceNum");
    let code = text_value_exec(parsed, "InvoiceCode");
    (trim_str(code.as_str()), trim_str(num.as_str()))
}

// ------------------------------------------------------------------
// Grouping files by invoice
// ------------------------------------------------------------------

/// Groups under construction: the key of each group (none for a file
/// without invoice number) and the positions of its files.
pub type Groups = Seq<(Option<(Seq<char>, Seq<char>)>, Seq<int>)>;

/// The first group, from position `k` on, whose key is `key`.
pub open spec fn find_group(g: Groups, key: (Seq<char>, Seq<char>), k: int) -> Option<int>
    decreases g.len() - k,
{
    if k < 0 || k >= g.len() {
        None
    } else if g[k].0 == Some(key) {
        Some(k)
    } else {
        find_group(g, key, k + 1)
    }
}

/// File `i` with key `key` (code, number) placed: alone when it has no
/// number, else into the group of its key, opened when new.
pub open spec fn group_step(g: Groups, key: (Seq<char>, Seq<char>), i: int) -> Groups {
    if key.1.len() == 0 {
        g.push((None, seq![i]))
    } else {
        match find_group(g, key, 0) {
            Some(x) => g.update(x, (g[x].0, g[x].1.push(i))),
            None => g.push((Some(key), seq![i])),
        }
    }
}

/// The groups of the first `n` files.
pub open spec fn groups_upto(keys: Seq<(Seq<char>, Seq<char>)>, n: int) -> Groups
    decreases n,
{
    if n <= 0 {
        Seq::empty()
    } else {
        group_step(groups_upto(keys, n - 1), keys[n - 1], n - 1)
    }
}

/// The positions of the files of each invoice, invoices in order of their
/// first file.
pub open spec fn group_indices(keys: Seq<(Seq<char>, Seq<char>)>) -> Seq<Seq<int>> {
    groups_upto(keys, keys.len() as int).map_values(|g: (Option<(Seq<char>, Seq<char>)>, Seq<int>)| g.1)
}

/// The views of the keys.
pub open spec fn keys_view(keys: Seq<(String, String)>) -> Seq<(Seq<char>, Seq<char>)> {
    keys.map_values(|k: (String, String)| (k.0@, k.1@))
}

/// The views of the groups.
pub open spec fn index_groups_view(g: Seq<Vec<usize>>) -> Seq<Seq<int>> {
    g.map_values(|v: Vec<usize>| v@.map_values(|x: usize| x as int))
}

/// The view of one group key.
pub open spec fn group_key_view(k: Option<(String, String)>) -> Option<(Seq<char>, Seq<char>)> {
    match k {
        Some((c, n)) => Some((c@, n@)),
        None => None,
    }
}

/// Groups files by their (code, number) keys: files with the same
/// non-empty number and code form one invoice; a file without number is an
/// invoice of its own.
pub fn group_by_invoice(keys: &Vec<(String, String)>) -> (r: Vec<Vec<usize>>)
    ensures
        index_groups_view(r@) == group_indices(keys_view(keys@)),
{
    let ghost kv = keys_view(keys@);
    let mut groups: Vec<Vec<usize>> = Vec::new();
    let mut gkeys: Vec<Option<(String, String)>> = Vec::new();
    let mut i: usize = 0;
    while i < keys.len()
        invariant
            i <= keys.len(),
            kv == keys_view(keys@),
            groups@.len() == gkeys@.len(),
            groups_upto(kv, i as int).len() == groups@.len(),
            forall|x: int|
                0 <= x < groups@.len() ==> groups_upto(kv, i as int)[x] == (
                    #[trigger] group_key_view(gkeys@[x]),
                    groups@[x]@.map_values(|y: usize| y as int),
                ),
        decreases keys.len() - i,
    {
        let ghost g0 = groups_upto(kv, i as int);
        let key = &keys[i];
        assert(kv[i as int] == (key.0@, key.1@));
        if key.1.as_str().is_empty() {
            let mut one: Vec<usize> = Vec::new();
            one.push(i);
            assert(one@.map_values(|y: usize| y as int) =~= seq![i as int]);
            groups.push(one);
            gkeys.push(None);
            proof {
                assert forall|x: int| 0 <= x < groups@.len() implies groups_upto(kv, i + 1)[x] == (
                    #[trigger] group_key_view(gkeys@[x]),
                    groups@[x]@.map_values(|y: usize| y as int),
                ) by {
                    if x < groups@.len() - 1 {
                        assert(group_key_view(gkeys@[x]) == group_key_view(gkeys@[x]));
                    }
                }
            }
        } else {
            let mut found: Option<usize> = None;
            let mut x: usize = 0;
            while x < gkeys.len() && found.is_none()
                invariant
                    x <= gkeys.len(),
                    groups@.len() == gkeys@.len(),
                    g0.len() == groups@.len(),
                    key.1@.len() > 0,
                    forall|z: int|
                        0 <= z < groups@.len() ==> g0[z] == (
                            #[trigger] group_key_view(gkeys@[z]),
                            groups@[z]@.map_values(|y: usize| y as int),
                        ),
                    found is None ==> find_group(g0, (key.0@, key.1@), 0) == find_group(
                        g0,
                        (key.0@, key.1@),
                        x as int,
                    ),
                    found matches Some(f) ==> f < gkeys@.len() && find_group(g0, (key.0@, key.1@), 0)
                        == Some(f as int),
                decreases gkeys.len() - x + (if found is None { 1int } else { 0int }),
            {
                let hit = match &gkeys[x] {
                    Some((c, n)) => str_eq(c.as_str(), key.0.as_str()) && str_eq(n.as_str(), key.1.as_str()),
                    None => false,
                };
                assert(g0[x as int].0 == group_key_view(gkeys@[x as int]));
                if hit {
                    found = Some(x);
                } else {
                    x += 1;
                }
            }
            match found {
                Some(f) => {
                    let ghost before = groups@;
                    let mut members: Vec<usize> = Vec::new();
                    std::mem::swap(&mut members, &mut groups[f]);
                    members.push(i);
                    assert(members@.map_values(|y: usize| y as int) =~= before[f as int]@.map_values(
                        |y: usize| y as int,
                    ).push(i as int));
                    groups.set(f, members);
                    proof {
                        assert forall|z: int| 0 <= z < groups@.len() implies groups_upto(kv, i + 1)[z] == (
                            #[trigger] group_key_view(gkeys@[z]),
                            groups@[z]@.map_values(|y: usize| y as int),
                        ) by {
                            if z != f {
                                assert(groups@[z] == before[z]);
                            }
                        }
                    }
                },
                None => {
                    let mut one: Vec<usize> = Vec::new();
                    one.push(i);
                    assert(one@.map_values(|y: usize| y as int) =~= seq![i as int]);
                    groups.push(one);
                    gkeys.push(Some((key.0.clone(), key.1.clone())));
                    proof {
                        assert forall|z: int| 0 <= z < groups@.len() implies groups_upto(kv, i + 1)[z] == (
                            #[trigger] group_key_view(gkeys@[z]),
                            groups@[z]@.map_values(|y: usize| y as int),
                        ) by {
                            if z < groups@.len() - 1 {
                                assert(group_key_view(gkeys@[z]) == group_key_view(gkeys@[z]));
                            }
                        }
                    }
                },
            }
        }
        i += 1;
    }
    assert(index_groups_view(groups@) =~= group_indices(kv)) by {
        assert forall|x: int| 0 <= x < groups@.len() implies #[trigger] index_groups_view(groups@)[x]
            == group_indices(kv)[x] by {
            assert(groups_upto(kv, keys.len() as int)[x] == (
                group_key_view(gkeys@[x]),
                groups@[x]@.map_values(|y: usize| y as int),
            ));
        }
    }
    groups
}

/// The recognition count of a merged legacy invoice: the largest count of
/// its files (1 when there are none).
pub open spec fn max_count_spec(counts: Seq<i64>) -> int
    decreases counts.len(),
{
    if counts.len() == 0 {
        1
    } else if counts.len() == 1 {
        counts[0] as int
    } else {
        let m = max_count_spec(counts.drop_last());
        if counts.last() > m {
            counts.last() as int
        } else {
            m
        }
    }
}

/// The largest recognition count (1 for no files).
pub fn max_ocr_count(counts: &Vec<i64>) -> (r: i64)
    ensures
        r as int == max_count_spec(counts@),
{
    if counts.len() == 0 {
        return 1;
    }
    let mut m = counts[0];
    let mut i: usize = 1;
    while i < counts.len()
        invariant
            1 <= i <= counts.len(),
            m as int == max_count_spec(counts@.take(i as int)),
        decreases counts.len() - i,
    {
        assert(counts@.take(i + 1).drop_last() == counts@.take(i as int));
        if counts[i] > m {
            m = counts[i];
        }
        i += 1;
    }
    assert(counts@.take(counts.len() as int) == counts@);
    m
}

// ------------------------------------------------------------------
// The list query
// ------------------------------------------------------------------

/// The columns of an invoice record, with its number of files.
pub open spec fn record_columns() -> Seq<char> {
    "i.id, i.invoice_code, i.invoice_num, i.file_name, i.status, i.retry_count, i.ocr_count, i.parsed_result, i.created_at, i.updated_at, (SELECT COUNT(*) FROM invoice_files f WHERE f.invoice_id = i.id) AS attachment_count"@
}

/// The SQL and the arguments of one page of the invoice list.
pub struct ListQuery {
    pub count_sql: String,
    pub list_sql: String,
    pub args: Vec<String>,
    pub limit: u64,
    pub offset: u64,
}

/// A filter that applies: present and, for dates, not empty.
pub open spec fn date_filter(d: Option<Seq<char>>) -> Option<Seq<char>> {
    match d {
        Some(s) => if s.len() > 0 {
            Some(s)
        } else {
            None
        },
        None => None,
    }
}

/// The conditions and arguments of the filters, parameters numbered from 1.
pub open spec fn list_conditions(
    status: Option<Seq<char>>,
    start: Option<Seq<char>>,
    end: Option<Seq<char>>,
) -> (Seq<Seq<char>>, Seq<Seq<char>>) {
    let c0: (Seq<Seq<char>>, Seq<Seq<char>>) = (Seq::empty(), Seq::empty());
    let c1 = match status {
        Some(s) => (c0.0.push("i.status = ?"@ + decimal((c0.1.len() + 1) as nat)), c0.1.push(s)),
        None => c0,
    };
    let c2 = match date_filter(start) {
        Some(d) => (c1.0.push("date(i.created_at) >= ?"@ + decimal((c1.1.len() + 1) as nat)), c1.1.push(d)),
        None => c1,
    };
    match date_filter(end) {
        Some(d) => (c2.0.push("date(i.created_at) <= ?"@ + decimal((c2.1.len() + 1) as nat)), c2.1.push(d)),
        None => c2,
    }
}

/// `parts` joined with `sep`.
pub open spec fn join_sql(parts: Seq<Seq<char>>, sep: Seq<char>) -> Seq<char> {
    crate::normalize::join_with(parts, sep)
}

/// The `WHERE` clause of some conditions (empty for none).
pub open spec fn where_clause(conds: Seq<Seq<char>>) -> Seq<char> {
    if conds.len() == 0 {
        Seq::empty()
    } else {
        "WHERE "@ + join_sql(conds, " AND "@)
    }
}

/// `(page - 1) * page_size`, the first page being 1 (and 0 read as 1).
pub open spec fn page_offset(page: u64, page_size: u64) -> int {
    (if page > 0 {
        page - 1
    } else {
        0
    }) * page_size
}

/// The list query: the count over the filtered invoices, and the page of
/// them newest first, with the limit and offset as the last two parameters.
pub open spec fn list_query_spec(
    page: u64,
    page_size: u64,
    status: Option<Seq<char>>,
    start: Option<Seq<char>>,
    end: Option<Seq<char>>,
) -> (Seq<char>, Seq<char>, Seq<Seq<char>>, int, int) {
    let (conds, args) = list_conditions(status, start, end);
    let w = where_clause(conds);
    let n = args.len();
    (
        "SELECT COUNT(*) FROM invoices i "@ + w,
        "SELECT "@ + record_columns() + " FROM invoices i "@ + w + " ORDER BY i.id DESC LIMIT ?"@ + decimal(
            (n + 1) as nat,
        ) + " OFFSET ?"@ + decimal((n + 2) as nat),
        args,
        page_size as int,
        page_offset(page, page_size),
    )
}

/// The view of an optional string slice.
pub open spec fn opt_str(o: Option<&str>) -> Option<Seq<char>> {
    match o {
        Some(s) => Some(s@),
        None => None,
    }
}

fn push_condition(conds: &mut Vec<String>, args: &mut Vec<String>, prefix: &str, arg: &str)
    requires
        old(args)@.len() < 3,
    ensures
        final(conds).deep_view() == old(conds).deep_view().push(prefix@ + decimal((old(args)@.len() + 1) as nat)),
        final(args).deep_view() == old(args).deep_view().push(arg@),
        final(args)@.len() == old(args)@.len() + 1,
{
    let n = args.len() as u64 + 1;
    let num = decimal_string(n);
    let c = concat_str(prefix, num.as_str());
    let ghost cb = conds.deep_view();
    let ghost ab = args.deep_view();
    conds.push(c);
    args.push(arg.to_owned());
    assert(conds.deep_view() =~= cb.push(prefix@ + decimal((old(args)@.len() + 1) as nat)));
    assert(args.deep_view() =~= ab.push(arg@));
}

/// The invoice list query of a page (see `list_query_spec`).
pub fn build_list_query(
    page: u64,
    page_size: u64,
    status_filter: Option<&str>,
    start_date: Option<&str>,
    end_date: Option<&str>,
) -> (r: ListQuery)
    requires
        page_offset(page, page_size) <= u64::MAX,
    ensures
        (r.count_sql@, r.list_sql@, r.args.deep_view(), r.limit as int, r.offset as int) == list_query_spec(
            page,
            page_size,
            opt_str(status_filter),
            opt_str(start_date),
            opt_str(end_date),
        ),
{
    let mut conds: Vec<String> = Vec::new();
    let mut args: Vec<String> = Vec::new();
    assert(conds.deep_view() =~= Seq::<Seq<char>>::empty());
    assert(args.deep_view() =~= Seq::<Seq<char>>::empty());
    match status_filter {
        Some(s) => push_condition(&mut conds, &mut args, "i.status = ?", s),
        None => {},
    }
    match start_date {
        Some(d) => if !d.is_empty() {
            push_condition(&mut conds, &mut args, "date(i.created_at) >= ?", d);
        },
        None => {},
    }
    match end_date {
        Some(d) => if !d.is_empty() {
            push_condition(&mut conds, &mut args, "date(i.created_at) <= ?", d);
        },
        None => {},
    }
    let ghost cv = conds.deep_view();
    let where_text: String = if conds.len() == 0 {
        String::new()
    } else {
        let mut parts: Vec<Vec<char>> = Vec::new();
        let mut k: usize = 0;
        while k < conds.len()
            invariant
                k <= conds.len(),
                cv == conds.deep_view(),
                crate::text::seqs_of(parts@) == cv.take(k as int),
            decreases conds.len() - k,
        {
            let ghost before = parts@;
            parts.push(chars_of(conds[k].as_str()));
            assert(crate::text::seqs_of(parts@) =~= crate::text::seqs_of(before).push(cv[k as int]));
            assert(cv.take(k + 1) =~= cv.take(k as int).push(cv[k as int]));
            k += 1;
        }
        assert(cv.take(conds.len() as int) =~= cv);
        let joined = crate::normalize::join_chars(&parts, " AND ");
        let js = string_of(joined.as_slice());
        concat_str("WHERE ", js.as_str())
    };
    let n = args.len() as u64;
    let count_sql = concat_str("SELECT COUNT(*) FROM invoices i ", where_text.as_str());
    let s1 = concat_str(
        "SELECT i.id, i.invoice_code, i.invoice_num, i.file_name, i.status, i.retry_count, i.ocr_count, i.parsed_result, i.created_at, i.updated_at, (SELECT COUNT(*) FROM invoice_files f WHERE f.invoice_id = i.id) AS attachment_count",
        " FROM invoices i ",
    );
    let s2 = concat_str(s1.as_str(), where_text.as_str());
    let s3 = concat_str(s2.as_str(), " ORDER BY i.id DESC LIMIT ?");
    let s4 = concat_str(s3.as_str(), decimal_string(n + 1).as_str());
    let s5 = concat_str(s4.as_str(), " OFFSET ?");
    let list_sql = concat_str(s5.as_str(), decimal_string(n + 2).as_str());
    proof {
        reveal_strlit("SELECT i.id, i.invoice_code, i.invoice_num, i.file_name, i.status, i.retry_count, i.ocr_count, i.parsed_result, i.created_at, i.updated_at, (SELECT COUNT(*) FROM invoice_files f WHERE f.invoice_id = i.id) AS attachment_count");
        reveal_strlit("i.id, i.invoice_code, i.invoice_num, i.file_name, i.status, i.retry_count, i.ocr_count, i.parsed_result, i.created_at, i.updated_at, (SELECT COUNT(*) FROM invoice_files f WHERE f.invoice_id = i.id) AS attachment_count");
        reveal_strlit("SELECT ");
        assert("SELECT i.id, i.invoice_code, i.invoice_num, i.file_name, i.status, i.retry_count, i.ocr_count, i.parsed_result, i.created_at, i.updated_at, (SELECT COUNT(*) FROM invoice_files f WHERE f.invoice_id = i.id) AS attachment_count"@
            =~= "SELECT "@ + record_columns());
    }
    let before_page: u64 = if page > 0 {
        page - 1
    } else {
        0
    };
    assert(before_page * page_size == page_offset(page, page_size));
    let offset = before_page * page_size;
    ListQuery { count_sql, list_sql, args, limit: page_size, offset }
}

/// `?` placeholders for `n` parameters, separated by commas.
pub open spec fn placeholders_spec(n: nat) -> Seq<char>
    decreases n,
{
    if n == 0 {
        Seq::empty()
    } else if n == 1 {
        seq!['?']
    } else {
        placeholders_spec((n - 1) as nat) + seq![',', '?']
    }
}

/// The placeholders of an `IN (…)` list of `n` ids.
pub fn placeholders(n: usize) -> (r: String)
    ensures
        r@ == placeholders_spec(n as nat),
{
    let mut v: Vec<char> = Vec::new();
    let mut i: usize = 0;
    while i < n
        invariant
            i <= n,
            v@ == placeholders_spec(i as nat),
        decreases n - i,
    {
        if i > 0 {
            v.push(',');
        }
        v.push('?');
        assert(v@ =~= placeholders_spec((i + 1) as nat));
        i += 1;
    }
    string_of(v.as_slice())
}

} // verus!
