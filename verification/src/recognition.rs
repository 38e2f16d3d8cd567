//! The decisions of a recognition run: merging the pages of a file, the
//! files of an invoice, and the messages reported at the end.

use vstd::prelude::*;
use crate::extractor::{parse_invoice_from_markdown, parse_invoice_spec};
use crate::field_map::FieldMap;
use crate::metadata::blocks_view;
use crate::ocr::{PageData, page_view};
use crate::standard::{
    StandardResult, merge_sparse_results, merge_sparse_spec, standard_to_sparse, to_sparse_upto, words_view,
};
use crate::text::{concat_str, decimal, decimal_string, str_eq};
use crate::records::{group_by_invoice, group_indices, index_groups_view, keys_view};

verus! {

/// The sparse result of the first `n` pages, merged in order.
pub open spec fn pages_sparse(pages: Seq<(Seq<char>, Seq<(Seq<char>, Seq<char>)>)>, n: int) -> Map<Seq<char>, Seq<char>>
    decreases n,
{
    if n <= 0 {
        Map::empty()
    } else {
        merge_sparse_spec(pages_sparse(pages, n - 1), parse_invoice_spec(pages[n - 1].0, pages[n - 1].1))
    }
}

/// The sparse result of the pages of one recognized file: each page parsed,
/// merged into the result in page order.
pub fn merge_pages(pages: &Vec<PageData>) -> (r: FieldMap)
    ensures
        r@ == pages_sparse(pages@.map_values(|p: PageData| page_view(p)), pages@.len() as int),
{
    let ghost pv = pages@.map_values(|p: PageData| page_view(p));
    let mut sparse = FieldMap::new();
    let mut i: usize = 0;
    while i < pages.len()
        invariant
            i <= pages@.len(),
            pv == pages@.map_values(|p: PageData| page_view(p)),
            sparse@ == pages_sparse(pv, i as int),
        decreases pages.len() - i,
    {
        let page = &pages[i];
        assert(pv[i as int] == (page.markdown_text@, blocks_view(page.blocks@)));
        let parsed = parse_invoice_from_markdown(page.markdown_text.as_str(), page.blocks.as_slice());
        merge_sparse_results(&mut sparse, parsed);
        i += 1;
    }
    sparse
}

/// The sparse form of a standard result.
pub open spec fn sparse_of(r: StandardResult) -> Map<Seq<char>, Seq<char>> {
    to_sparse_upto(words_view(r.words_result@), r.words_result@.len() as int)
}

/// The sparse result of the first `n` members of a group, merged in order
/// onto `start`.
pub open spec fn group_sparse(
    start: Map<Seq<char>, Seq<char>>,
    results: Seq<StandardResult>,
    members: Seq<usize>,
    n: int,
) -> Map<Seq<char>, Seq<char>>
    decreases n,
{
    if n <= 0 {
        start
    } else {
        merge_sparse_spec(group_sparse(start, results, members, n - 1), sparse_of(results[members[n - 1] as int]))
    }
}

/// The merged sparse result of the files of one invoice: the standard
/// results of its members, in order, merged onto `start`.
pub fn merge_group(start: FieldMap, results: &Vec<StandardResult>, members: &Vec<usize>) -> (r: FieldMap)
    requires
        forall|k: int| 0 <= k < members@.len() ==> #[trigger] members@[k] < results@.len(),
    ensures
        r@ == group_sparse(start@, results@, members@, members@.len() as int),
{
    let ghost s0 = start@;
    let mut sparse = start;
    let mut k: usize = 0;
    while k < members.len()
        invariant
            k <= members@.len(),
            forall|j: int| 0 <= j < members@.len() ==> #[trigger] members@[j] < results@.len(),
            sparse@ == group_sparse(s0, results@, members@, k as int),
        decreases members.len() - k,
    {
        let m = members[k];
        let part = standard_to_sparse(&results[m]);
        merge_sparse_results(&mut sparse, part);
        k += 1;
    }
    sparse
}

/// The closing message of a run: the number of invoices, and of failed
/// files when there are any.
pub open spec fn completion_spec(invoices: nat, failed: nat) -> Seq<char> {
    if failed == 0 {
        "识别完成! 共 "@ + decimal(invoices) + " 张发票"@
    } else {
        "识别完成! 共 "@ + decimal(invoices) + " 张发票，"@ + decimal(failed) + " 个文件失败（已跳过）"@
    }
}

/// The closing message of a run (see `completion_spec`).
pub fn completion_message(invoices: usize, failed: usize) -> (r: String)
    ensures
        r@ == completion_spec(invoices as nat, failed as nat),
{
    let a = concat_str("识别完成! 共 ", decimal_string(invoices as u64).as_str());
    if failed == 0 {
        concat_str(a.as_str(), " 张发票")
    } else {
        let b = concat_str(a.as_str(), " 张发票，");
        let c = concat_str(b.as_str(), decimal_string(failed as u64).as_str());
        concat_str(c.as_str(), " 个文件失败（已跳过）")
    }
}

/// Records an invoice whose file was recognized before, once.
pub fn note_cached(cached: &mut Vec<i64>, id: i64)
    ensures
        old(cached)@.contains(id) ==> final(cached)@ == old(cached)@,
        !old(cached)@.contains(id) ==> final(cached)@ == old(cached)@.push(id),
{
    let mut i: usize = 0;
    while i < cached.len()
        invariant
            i <= cached@.len(),
            cached@ == old(cached)@,
            forall|j: int| 0 <= j < i ==> cached@[j] != id,
        decreases cached.len() - i,
    {
        if cached[i] == id {
            return;
        }
        i += 1;
    }
    cached.push(id);
}


// ------------------------------------------------------------------
// The recognition run as a state machine
// ------------------------------------------------------------------

/// The stage of a run: checking and recognizing the files one by one,
/// storing one invoice per group, or finished.
#[derive(PartialEq, Eq, Structural, Clone, Copy)]
pub enum Phase {
    Check,
    Store,
    Finished,
}

/// The state of a run over `paths` files.  `next` is the next file
/// (`Check`) or the next group (`Store`); `kept` are the files recognized
/// in this run, in order, and `keys` their (code, number); `failed` the
/// files whose recognition failed, each stored as a failed invoice;
/// `cached` the invoices whose files were recognized before; `groups` the
/// files of each invoice, as positions in `kept`.
pub struct RecognizeState {
    pub phase: Phase,
    pub paths: usize,
    pub next: usize,
    pub kept: Vec<usize>,
    pub keys: Vec<(String, String)>,
    pub failed: Vec<usize>,
    pub cached: Vec<i64>,
    pub groups: Vec<Vec<usize>>,
}

/// The view of a run's state.
pub struct RecognizeView {
    pub phase: Phase,
    pub paths: nat,
    pub next: nat,
    pub kept: Seq<usize>,
    pub keys: Seq<(Seq<char>, Seq<char>)>,
    pub failed: Seq<usize>,
    pub cached: Seq<i64>,
    pub groups: Seq<Seq<int>>,
}

impl View for RecognizeState {
    type V = RecognizeView;

    open spec fn view(&self) -> RecognizeView {
        RecognizeView {
            phase: self.phase,
            paths: self.paths as nat,
            next: self.next as nat,
            kept: self.kept@,
            keys: keys_view(self.keys@),
            failed: self.failed@,
            cached: self.cached@,
            groups: index_groups_view(self.groups@),
        }
    }
}

/// What the outside work reports: whether a file was recognized before
/// (and whether that invoice succeeded), the OCR outcome with the
/// (code, number) of the result, the invoice already stored under a
/// group's number, or that the requested store is done.
pub enum RecognizeEvent {
    CacheMiss,
    CacheHit { invoice_id: i64, success: bool },
    Recognized { code: String, num: String },
    OcrFailed,
    Existing(Option<i64>),
    Stored,
}

/// The view of an event.
pub enum EventView {
    CacheMiss,
    CacheHit(i64, bool),
    Recognized(Seq<char>, Seq<char>),
    OcrFailed,
    Existing(Option<i64>),
    Stored,
}

impl View for RecognizeEvent {
    type V = EventView;

    open spec fn view(&self) -> EventView {
        match self {
            RecognizeEvent::CacheMiss => EventView::CacheMiss,
            RecognizeEvent::CacheHit { invoice_id, success } => EventView::CacheHit(*invoice_id, *success),
            RecognizeEvent::Recognized { code, num } => EventView::Recognized(code@, num@),
            RecognizeEvent::OcrFailed => EventView::OcrFailed,
            RecognizeEvent::Existing(e) => EventView::Existing(*e),
            RecognizeEvent::Stored => EventView::Stored,
        }
    }
}

/// What the run asks of the outside next: look a file up by its hash;
/// recognize a file; delete a failed invoice and recognize the file again;
/// store a file as a failed invoice; look up the invoice with a group's
/// number; merge a group into a stored invoice, or store it as a new one;
/// return the cached invoices; report that every new file failed; finish;
/// or refuse an event that does not fit the state.
pub enum RecognizeAction {
    CheckCache(usize),
    Recognize(usize),
    DeleteAndRecognize { invoice_id: i64, path: usize },
    StoreFailure(usize),
    FindExisting(usize),
    MergeInto { invoice_id: i64, group: usize },
    CreateInvoice(usize),
    ReturnCached,
    AllFailed,
    Finish,
    Unexpected,
}

/// `cached` with `id` noted once.
pub open spec fn note_spec(cached: Seq<i64>, id: i64) -> Seq<i64> {
    if cached.contains(id) {
        cached
    } else {
        cached.push(id)
    }
}

/// The action for group `s.next` of the storing stage: look up the stored
/// invoice with its number when its first file has one, else store it as
/// a new invoice; finish after the last group.
pub open spec fn group_action(s: RecognizeView) -> (RecognizeView, RecognizeAction) {
    if s.next < s.groups.len() {
        let g = s.groups[s.next as int];
        if g.len() > 0 && 0 <= g[0] < s.keys.len() && s.keys[g[0]].1.len() > 0 {
            (s, RecognizeAction::FindExisting(s.next as usize))
        } else {
            (s, RecognizeAction::CreateInvoice(s.next as usize))
        }
    } else {
        (RecognizeView { phase: Phase::Finished, ..s }, RecognizeAction::Finish)
    }
}

/// The next step once the files before `s.next` are done: check the next
/// file; after the last, return the cached invoices when no file was new,
/// report failure when every new file failed, else group the recognized
/// files by invoice and store the first group.
pub open spec fn after_check(s: RecognizeView) -> (RecognizeView, RecognizeAction) {
    if s.next < s.paths {
        (s, RecognizeAction::CheckCache(s.next as usize))
    } else if s.kept.len() == 0 && s.failed.len() == 0 {
        (RecognizeView { phase: Phase::Finished, ..s }, RecognizeAction::ReturnCached)
    } else if s.kept.len() == 0 {
        (RecognizeView { phase: Phase::Finished, ..s }, RecognizeAction::AllFailed)
    } else {
        group_action(RecognizeView { phase: Phase::Store, next: 0, groups: group_indices(s.keys), ..s })
    }
}

/// One step of a run: the new state and the next action after an event.
pub open spec fn recognize_next(s: RecognizeView, e: EventView) -> (RecognizeView, RecognizeAction) {
    let unexpected = (s, RecognizeAction::Unexpected);
    match s.phase {
        Phase::Check => if s.next >= s.paths {
            unexpected
        } else {
            match e {
                EventView::CacheHit(id, true) => after_check(
                    RecognizeView { cached: note_spec(s.cached, id), next: s.next + 1, ..s },
                ),
                EventView::CacheHit(id, false) => (
                    s,
                    RecognizeAction::DeleteAndRecognize { invoice_id: id, path: s.next as usize },
                ),
                EventView::CacheMiss => (s, RecognizeAction::Recognize(s.next as usize)),
                EventView::Recognized(code, num) => after_check(
                    RecognizeView {
                        kept: s.kept.push(s.next as usize),
                        keys: s.keys.push((code, num)),
                        next: s.next + 1,
                        ..s
                    },
                ),
                EventView::OcrFailed => (
                    RecognizeView { failed: s.failed.push(s.next as usize), ..s },
                    RecognizeAction::StoreFailure(s.next as usize),
                ),
                EventView::Stored => if s.failed.len() > 0 && s.failed.last() == s.next {
                    after_check(RecognizeView { next: s.next + 1, ..s })
                } else {
                    unexpected
                },
                _ => unexpected,
            }
        },
        Phase::Store => if s.next >= s.groups.len() {
            unexpected
        } else {
            match e {
                EventView::Existing(Some(id)) => (
                    s,
                    RecognizeAction::MergeInto { invoice_id: id, group: s.next as usize },
                ),
                EventView::Existing(None) => (s, RecognizeAction::CreateInvoice(s.next as usize)),
                EventView::Stored => group_action(RecognizeView { next: s.next + 1, ..s }),
                _ => unexpected,
            }
        },
        Phase::Finished => unexpected,
    }
}

/// The first step of a run over `paths` files.
pub open spec fn recognize_init(paths: nat) -> (RecognizeView, RecognizeAction) {
    after_check(
        RecognizeView {
            phase: Phase::Check,
            paths: paths,
            next: 0,
            kept: Seq::empty(),
            keys: Seq::empty(),
            failed: Seq::empty(),
            cached: Seq::empty(),
            groups: Seq::empty(),
        },
    )
}

fn group_action_exec(s: RecognizeState) -> (r: (RecognizeState, RecognizeAction))
    ensures
        r.0@ == group_action(s@).0,
        r.1 == group_action(s@).1,
{
    if s.next < s.groups.len() {
        let n = s.next;
        let find = {
            let g = &s.groups[n];
            g.len() > 0 && g[0] < s.keys.len() && !str_eq(s.keys[g[0]].1.as_str(), "")
        };
        proof {
            reveal_strlit("");
            let gv = index_groups_view(s.groups@)[n as int];
            assert(gv == s.groups@[n as int]@.map_values(|x: usize| x as int));
            if s.groups@[n as int]@.len() > 0 {
                assert(gv[0] == s.groups@[n as int]@[0] as int);
                let k = s.groups@[n as int]@[0] as int;
                if 0 <= k < s.keys@.len() {
                    assert(keys_view(s.keys@)[k].1 == s.keys@[k].1@);
                    if s.keys@[k].1@.len() == 0 {
                        assert(s.keys@[k].1@ =~= ""@);
                    }
                }
            }
        }
        if find {
            (s, RecognizeAction::FindExisting(n))
        } else {
            (s, RecognizeAction::CreateInvoice(n))
        }
    } else {
        (RecognizeState { phase: Phase::Finished, ..s }, RecognizeAction::Finish)
    }
}

fn after_check_exec(s: RecognizeState) -> (r: (RecognizeState, RecognizeAction))
    ensures
        r.0@ == after_check(s@).0,
        r.1 == after_check(s@).1,
{
    if s.next < s.paths {
        let n = s.next;
        (s, RecognizeAction::CheckCache(n))
    } else if s.kept.len() == 0 && s.failed.len() == 0 {
        (RecognizeState { phase: Phase::Finished, ..s }, RecognizeAction::ReturnCached)
    } else if s.kept.len() == 0 {
        (RecognizeState { phase: Phase::Finished, ..s }, RecognizeAction::AllFailed)
    } else {
        let groups = group_by_invoice(&s.keys);
        group_action_exec(RecognizeState { phase: Phase::Store, next: 0, groups: groups, ..s })
    }
}

/// The first step of a run over `paths` files (see `recognize_init`).
pub fn recognize_start(paths: usize) -> (r: (RecognizeState, RecognizeAction))
    ensures
        r.0@ == recognize_init(paths as nat).0,
        r.1 == recognize_init(paths as nat).1,
{
    let s = RecognizeState {
        phase: Phase::Check,
        paths: paths,
        next: 0,
        kept: Vec::new(),
        keys: Vec::new(),
        failed: Vec::new(),
        cached: Vec::new(),
        groups: Vec::new(),
    };
    assert(keys_view(s.keys@) =~= Seq::empty());
    assert(index_groups_view(s.groups@) =~= Seq::empty());
    assert(s@ == RecognizeView {
        phase: Phase::Check,
        paths: paths as nat,
        next: 0,
        kept: Seq::empty(),
        keys: Seq::empty(),
        failed: Seq::empty(),
        cached: Seq::empty(),
        groups: Seq::empty(),
    });
    after_check_exec(s)
}

/// One step of a run (see `recognize_next`): the new state and the next
/// action after `event`.
pub fn recognize_step(state: RecognizeState, event: RecognizeEvent) -> (r: (RecognizeState, RecognizeAction))
    ensures
        r.0@ == recognize_next(state@, event@).0,
        r.1 == recognize_next(state@, event@).1,
{
    let s = state;
    match s.phase {
        Phase::Check => {
            if s.next >= s.paths {
                return (s, RecognizeAction::Unexpected);
            }
            match event {
                RecognizeEvent::CacheHit { invoice_id, success } => {
                    if success {
                        let mut cached = s.cached;
                        note_cached(&mut cached, invoice_id);
                        let n = s.next + 1;
                        after_check_exec(RecognizeState { cached: cached, next: n, ..s })
                    } else {
                        let n = s.next;
                        (s, RecognizeAction::DeleteAndRecognize { invoice_id: invoice_id, path: n })
                    }
                },
                RecognizeEvent::CacheMiss => {
                    let n = s.next;
                    (s, RecognizeAction::Recognize(n))
                },
                RecognizeEvent::Recognized { code, num } => {
                    let mut kept = s.kept;
                    kept.push(s.next);
                    let mut keys = s.keys;
                    let ghost kv = keys_view(keys@);
                    keys.push((code, num));
                    assert(keys_view(keys@) =~= kv.push((code@, num@)));
                    let n = s.next + 1;
                    after_check_exec(RecognizeState { kept: kept, keys: keys, next: n, ..s })
                },
                RecognizeEvent::OcrFailed => {
                    let n = s.next;
                    let mut failed = s.failed;
                    failed.push(n);
                    (RecognizeState { failed: failed, ..s }, RecognizeAction::StoreFailure(n))
                },
                RecognizeEvent::Stored => {
                    if s.failed.len() > 0 && s.failed[s.failed.len() - 1] == s.next {
                        let n = s.next + 1;
                        after_check_exec(RecognizeState { next: n, ..s })
                    } else {
                        (s, RecognizeAction::Unexpected)
                    }
                },
                _ => (s, RecognizeAction::Unexpected),
            }
        },
        Phase::Store => {
            if s.next >= s.groups.len() {
                return (s, RecognizeAction::Unexpected);
            }
            match event {
                RecognizeEvent::Existing(Some(id)) => {
                    let n = s.next;
                    (s, RecognizeAction::MergeInto { invoice_id: id, group: n })
                },
                RecognizeEvent::Existing(None) => {
                    let n = s.next;
                    (s, RecognizeAction::CreateInvoice(n))
                },
                RecognizeEvent::Stored => {
                    let n = s.next + 1;
                    group_action_exec(RecognizeState { next: n, ..s })
                },
                _ => (s, RecognizeAction::Unexpected),
            }
        },
        Phase::Finished => (s, RecognizeAction::Unexpected),
    }
}

/// Failed files are kept and tried again: a file whose recognition fails
/// is stored as a failed invoice, and the run then goes on with the next
/// file; in a later run, a file whose stored invoice failed is deleted and
/// recognized again, while one whose invoice succeeded is skipped and its
/// invoice reported once.
pub proof fn lemma_failures_kept_and_retried(s: RecognizeView, id: i64)
    requires
        s.phase == Phase::Check,
        s.next < s.paths <= usize::MAX,
    ensures
        recognize_next(s, EventView::OcrFailed).1 == RecognizeAction::StoreFailure(s.next as usize),
        s.next + 1 < s.paths ==> recognize_next(recognize_next(s, EventView::OcrFailed).0, EventView::Stored).1
            == RecognizeAction::CheckCache((s.next + 1) as usize),
        recognize_next(recognize_next(s, EventView::OcrFailed).0, EventView::Stored).0.failed == s.failed.push(
            s.next as usize,
        ),
        recognize_next(s, EventView::CacheHit(id, false)).1 == (RecognizeAction::DeleteAndRecognize {
            invoice_id: id,
            path: s.next as usize,
        }),
        recognize_next(s, EventView::CacheHit(id, true)).0.cached.contains(id),
        recognize_next(s, EventView::CacheHit(id, true)).0.kept == s.kept,
{
    if !s.cached.contains(id) {
        assert(s.cached.push(id)[s.cached.len() as int] == id);
    }
}

/// Each file is recognized at most once in a run: only a cache lookup of
/// the current file leads to its recognition, and once its outcome is
/// known the run never asks to recognize it, or any file before it, again.
pub proof fn lemma_single_recognition(s: RecognizeView, e: EventView)
    requires
        s.phase == Phase::Check,
        s.next < s.paths <= usize::MAX,
    ensures
        recognize_next(s, e).1 matches RecognizeAction::Recognize(p) ==> p == s.next && e == EventView::CacheMiss,
        recognize_next(s, e).1 matches RecognizeAction::DeleteAndRecognize { invoice_id: _, path: p } ==> p
            == s.next && e is CacheHit,
        e is Recognized && s.next + 1 < s.paths ==> recognize_next(s, e).1 == RecognizeAction::CheckCache(
            (s.next + 1) as usize,
        ),
{
}

/// The merged result of recognizing the files of a stored invoice again:
/// the results of the first `n` files that succeeded, merged in file order
/// onto an empty result; none while no file has succeeded.
pub open spec fn rerecognized_spec(results: Seq<Option<StandardResult>>, n: int) -> Option<
    Map<Seq<char>, Seq<char>>,
>
    decreases n,
{
    if n <= 0 {
        None
    } else {
        let prev = rerecognized_spec(results, n - 1);
        match results[n - 1] {
            Some(r) => Some(
                merge_sparse_spec(
                    match prev {
                        Some(m) => m,
                        None => Map::empty(),
                    },
                    sparse_of(r),
                ),
            ),
            None => prev,
        }
    }
}

/// The view of an optional field map.
pub open spec fn opt_field_map(m: Option<FieldMap>) -> Option<Map<Seq<char>, Seq<char>>> {
    match m {
        Some(f) => Some(f@),
        None => None,
    }
}

/// The merged result of recognizing the files of a stored invoice again
/// (see `rerecognized_spec`): `None` when every file failed, and the
/// invoice is then marked failed.
pub fn merge_rerecognized(results: &Vec<Option<StandardResult>>) -> (r: Option<FieldMap>)
    ensures
        opt_field_map(r) == rerecognized_spec(results@, results@.len() as int),
{
    let mut acc: Option<FieldMap> = None;
    let mut i: usize = 0;
    while i < results.len()
        invariant
            i <= results@.len(),
            opt_field_map(acc) == rerecognized_spec(results@, i as int),
        decreases results.len() - i,
    {
        match &results[i] {
            Some(res) => {
                let mut sparse = match acc {
                    Some(m) => m,
                    None => FieldMap::new(),
                };
                merge_sparse_results(&mut sparse, standard_to_sparse(res));
                acc = Some(sparse);
            },
            None => {},
        }
        i += 1;
    }
    acc
}

} // verus!
