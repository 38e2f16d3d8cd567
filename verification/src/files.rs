//! The files handed in for recognition: which kinds are accepted and how a
//! file becomes the images sent to the OCR service.

use vstd::prelude::*;
use crate::text::{chars_of, str_eq};

verus! {

/// The start of the last `/`-separated segment of `p[..i]`.
pub open spec fn seg_start(p: Seq<char>, i: int) -> int
    decreases i,
{
    if i <= 0 || i > p.len() {
        0
    } else if p[i - 1] == '/' {
        i
    } else {
        seg_start(p, i - 1)
    }
}

/// The text after the last `/` of a path.
pub open spec fn last_segment(p: Seq<char>) -> Seq<char> {
    p.subrange(seg_start(p, p.len() as int), p.len() as int)
}

/// The index of the last `.` of `n[..i]`, `-1` when there is none.
pub open spec fn last_dot(n: Seq<char>, i: int) -> int
    decreases i,
{
    if i <= 0 || i > n.len() {
        -1
    } else if n[i - 1] == '.' {
        i - 1
    } else {
        last_dot(n, i - 1)
    }
}

/// The extension of a file name as std documents it: the text after the
/// final `.`; none for a name without a dot or a name whose only dot is
/// its first character.
pub open spec fn name_extension(n: Seq<char>) -> Option<Seq<char>> {
    let d = last_dot(n, n.len() as int);
    if d <= 0 {
        None
    } else {
        Some(n.subrange(d + 1, n.len() as int))
    }
}

/// A path that every platform splits the same way: not empty, without
/// a backslash or `:`, not starting with `//`, not ending with `/`, and whose last
/// segment is neither `.` nor `..`.  Its file name is its last segment.
pub open spec fn plain_path(p: Seq<char>) -> bool {
    &&& p.len() > 0
    &&& !p.contains('\\')
    &&& !p.contains(':')
    &&& !(p.len() >= 2 && p[0] == '/' && p[1] == '/')
    &&& p.last() != '/'
    &&& last_segment(p) != seq!['.']
    &&& last_segment(p) != seq!['.', '.']
}

/// The view of an optional text.
pub open spec fn opt_text(e: Option<String>) -> Option<Seq<char>> {
    match e {
        Some(s) => Some(s@),
        None => None,
    }
}

/// `Path::new(path).extension()` of std, converted to a `String` (a path
/// made from a `&str` is valid UTF-8).  Which characters separate the
/// components of a path depends on the platform (`/` everywhere, also the backslash
/// and drive or UNC prefixes on Windows), so the result is not stated for
/// every path.  The contract states what holds on every platform: for a
/// `plain_path` the extension is that of its last segment as std documents
/// it, and a path without a `.` has none.
#[verifier::external_body]
fn path_extension_call(path: &str) -> (r: Option<String>)
    ensures
        plain_path(path@) ==> opt_text(r) == name_extension(last_segment(path@)),
        !path@.contains('.') ==> r is None,
{
    std::path::Path::new(path).extension().and_then(|e| e.to_str()).map(|e| e.to_string())
}

/// `a` equals the lower-case ASCII text `t` when ASCII case is ignored.
pub open spec fn eq_ignore_ascii_case(a: Seq<char>, t: Seq<char>) -> bool {
    a.len() == t.len() && forall|i: int|
        0 <= i < a.len() ==> (#[trigger] a[i] == t[i] || ('a' <= t[i] && t[i] <= 'z' && (a[i] as u32) as int + 32
            == (t[i] as u32) as int))
}

fn eq_ignore_ascii_case_exec(a: &[char], t: &str) -> (r: bool)
    ensures
        r == eq_ignore_ascii_case(a@, t@),
{
    let tv = chars_of(t);
    if a.len() != tv.len() {
        return false;
    }
    let mut i: usize = 0;
    while i < a.len()
        invariant
            i <= a.len(),
            a@.len() == tv@.len(),
            tv@ == t@,
            forall|k: int|
                0 <= k < i ==> (#[trigger] a@[k] == tv@[k] || ('a' <= tv@[k] && tv@[k] <= 'z' && (a@[k] as u32)
                    as int + 32 == (tv@[k] as u32) as int)),
        decreases a.len() - i,
    {
        let x = a[i];
        let y = tv[i];
        let xi = x as u32 as u64;
        let yi = y as u32 as u64;
        let ok = x == y || ('a' <= y && y <= 'z' && xi + 32 == yi);
        if !ok {
            return false;
        }
        i += 1;
    }
    true
}

/// A PDF extension: `pdf` in any ASCII case.
pub open spec fn pdf_ext_spec(e: Option<Seq<char>>) -> bool {
    match e {
        Some(x) => eq_ignore_ascii_case(x, "pdf"@),
        None => false,
    }
}

/// Whether an extension is that of a PDF (see `pdf_ext_spec`).
pub fn is_pdf_extension(ext: &Option<String>) -> (r: bool)
    ensures
        r == pdf_ext_spec(opt_text(*ext)),
{
    match ext {
        Some(e) => {
            let v = chars_of(e.as_str());
            eq_ignore_ascii_case_exec(v.as_slice(), "pdf")
        },
        None => false,
    }
}

/// A PDF path, where every platform agrees: a `plain_path` whose last
/// segment has a PDF extension.
pub open spec fn is_pdf_spec(path: Seq<char>) -> bool {
    pdf_ext_spec(name_extension(last_segment(path)))
}

/// Whether the path names a PDF file: its extension, as std reads it on
/// this platform, is `pdf` in any ASCII case (see `is_pdf_extension`).
pub fn is_pdf(path: &str) -> (r: bool)
    ensures
        plain_path(path@) ==> r == is_pdf_spec(path@),
        !path@.contains('.') ==> !r,
{
    let e = path_extension_call(path);
    is_pdf_extension(&e)
}

/// The accepted extensions: the images `jpg`, `jpeg`, `png`, `bmp`,
/// `webp` and `pdf`, in any case.  For these ASCII names a lower-cased
/// extension matches exactly when it matches ignoring ASCII case.
pub open spec fn supported_ext_spec(e: Option<Seq<char>>) -> bool {
    match e {
        Some(x) => eq_ignore_ascii_case(x, "jpg"@) || eq_ignore_ascii_case(x, "jpeg"@) || eq_ignore_ascii_case(
            x,
            "png"@,
        ) || eq_ignore_ascii_case(x, "bmp"@) || eq_ignore_ascii_case(x, "webp"@) || eq_ignore_ascii_case(x, "pdf"@),
        None => false,
    }
}

/// Whether an extension is one that can be recognized (see
/// `supported_ext_spec`).
pub fn is_supported_extension(ext: &Option<String>) -> (r: bool)
    ensures
        r == supported_ext_spec(opt_text(*ext)),
{
    match ext {
        Some(e) => {
            let v = chars_of(e.as_str());
            let a = v.as_slice();
            eq_ignore_ascii_case_exec(a, "jpg") || eq_ignore_ascii_case_exec(a, "jpeg") || eq_ignore_ascii_case_exec(
                a,
                "png",
            ) || eq_ignore_ascii_case_exec(a, "bmp") || eq_ignore_ascii_case_exec(a, "webp")
                || eq_ignore_ascii_case_exec(a, "pdf")
        },
        None => false,
    }
}

/// A recognizable path, where every platform agrees: a `plain_path` whose
/// last segment has an accepted extension.
pub open spec fn is_supported_spec(path: Seq<char>) -> bool {
    supported_ext_spec(name_extension(last_segment(path)))
}

/// Whether the file can be recognized: its extension, as std reads it on
/// this platform, is accepted (see `is_supported_extension`).
pub fn is_supported_ocr_file(path: &str) -> (r: bool)
    ensures
        plain_path(path@) ==> r == is_supported_spec(path@),
        !path@.contains('.') ==> !r,
{
    let e = path_extension_call(path);
    is_supported_extension(&e)
}

/// How a file reaches the OCR service: a PDF is first rendered to images;
/// any other file is sent as it is.
pub enum OcrInputs {
    RenderPdf,
    Images(Vec<String>),
}

/// The inputs of a file (see `OcrInputs`).
pub fn prepare_ocr_inputs(file_path: &str) -> (r: OcrInputs)
    ensures
        r is RenderPdf || (r matches OcrInputs::Images(v) && v@.len() == 1 && v@[0]@ == file_path@),
        plain_path(file_path@) ==> (r is RenderPdf <==> is_pdf_spec(file_path@)),
        !file_path@.contains('.') ==> r is Images,
{
    if is_pdf(file_path) {
        OcrInputs::RenderPdf
    } else {
        let mut v: Vec<String> = Vec::new();
        v.push(file_path.to_owned());
        OcrInputs::Images(v)
    }
}

} // verus!
