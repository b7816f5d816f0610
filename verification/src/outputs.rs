//! Naming and decoding of the outputs that an invocation returns.

use crate::json::{
    field, items_of, lemma_view_items, member, member_of, text_of, view_items, view_opt, Json, JsonView,
};
use crate::text::push_char;
use vstd::prelude::*;
use vstd::utf8::encode_utf8;

verus! {

/// What `base64::decode` gives for the given bytes: the decoded bytes, or
/// `None` where it reports an error.
pub uninterp spec fn base64_decoded(input: Seq<u8>) -> Option<Seq<u8>>;

#[verifier::external_type_specification]
#[verifier::external_body]
pub struct ExDecodeError(base64::DecodeError);

/// Decodes standard Base64 (`base64::decode`, the `STANDARD` alphabet with
/// padding). The contract claims only that the outcome is the one that
/// `base64_decoded` names for the input bytes; which inputs decode, and to
/// what, is left to the crate.
#[verifier::external_body]
fn decode_base64(input: &[u8]) -> (r: Result<Vec<u8>, base64::DecodeError>)
    ensures
        match r {
            Ok(bytes) => base64_decoded(input@) == Some(bytes@),
            Err(_) => base64_decoded(input@) is None,
        },
{
    base64::decode(input)
}

/// `s` with every `/` replaced by `_`.
pub open spec fn slashes_to_underscores(s: Seq<char>) -> Seq<char> {
    s.map_values(|c: char| if c == '/' { '_' } else { c })
}

/// Whether naming an output target does not fail: a `file` member, when
/// present, is a string, and otherwise a `path` member, when present, is a
/// string.
pub open spec fn output_target_readable(target: JsonView) -> bool {
    match target {
        JsonView::Object(fields) => if field(fields, "file"@) is Some {
            text_of(field(fields, "file"@)) is Some
        } else if field(fields, "path"@) is Some {
            text_of(field(fields, "path"@)) is Some
        } else {
            true
        },
        _ => true,
    }
}

/// The file name under which an output is exported: `file-<file>` for a
/// target naming a file, `path-<path>` (with `/` turned into `_`) for a target
/// naming a path, and none otherwise.
pub open spec fn output_name(target: JsonView) -> Option<Seq<char>> {
    match target {
        JsonView::Object(fields) => if field(fields, "file"@) is Some {
            Some("file-"@ + text_of(field(fields, "file"@))->0)
        } else if field(fields, "path"@) is Some {
            Some("path-"@ + slashes_to_underscores(text_of(field(fields, "path"@))->0))
        } else {
            None
        },
        _ => None,
    }
}

/// Replacing slashes keeps the length and every character but `/`, which
/// becomes `_`.
pub proof fn lemma_slashes_replaced(s: Seq<char>)
    ensures
        slashes_to_underscores(s).len() == s.len(),
        forall|i: int|
            0 <= i < s.len() ==> #[trigger] slashes_to_underscores(s)[i] == if s[i] == '/' {
                '_'
            } else {
                s[i]
            },
{
}

/// Whether `n` is `path-` followed by `p`, each `/` of `p` turned into `_`
/// and every other character kept.
pub open spec fn names_path(n: Seq<char>, p: Seq<char>) -> bool {
    &&& n.len() == p.len() + 5
    &&& n.take(5) == "path-"@
    &&& forall|i: int|
        0 <= i < p.len() ==> #[trigger] n[i + 5] == if p[i] == '/' {
            '_'
        } else {
            p[i]
        }
}

/// The name of an exported output spells its target: `file-` and the file
/// name as it is, or `path-` and the path with each `/` turned into `_` and
/// every other character kept; a target naming neither has no name.
pub proof fn lemma_output_name_spells_target(target: JsonView)
    ensures
        match target {
            JsonView::Object(fields) => {
                &&& match text_of(field(fields, "file"@)) {
                    Some(f) => output_name(target) == Some("file-"@ + f),
                    None => true,
                }
                &&& match (field(fields, "file"@), text_of(field(fields, "path"@))) {
                    (None, Some(p)) => match output_name(target) {
                        Some(n) => names_path(n, p),
                        None => false,
                    },
                    _ => true,
                }
                &&& (field(fields, "file"@) is None && field(fields, "path"@) is None)
                    ==> output_name(target) is None
            },
            _ => output_name(target) is None,
        },
{
    reveal_strlit("path-");
    if let JsonView::Object(fields) = target {
        if field(fields, "file"@) is None {
            if let Some(p) = text_of(field(fields, "path"@)) {
                lemma_slashes_replaced(p);
                let n = "path-"@ + slashes_to_underscores(p);
                assert(n.take(5) =~= "path-"@);
                assert forall|i: int| 0 <= i < p.len() implies #[trigger] n[i + 5] == if p[i]
                    == '/' {
                    '_'
                } else {
                    p[i]
                } by {
                    assert(n[i + 5] == slashes_to_underscores(p)[i]);
                }
                assert(names_path(n, p));
            }
        }
    }
}

/// The string value of an optional document.
fn text_ref(o: Option<&Json>) -> (r: Option<&String>)
    ensures
        match r {
            Some(s) => text_of(view_opt(o)) == Some(s@),
            None => text_of(view_opt(o)) is None,
        },
{
    match o {
        Some(j) => j.as_str(),
        None => None,
    }
}

/// A copy of `s` with every `/` replaced by `_` (`str::replace('/', "_")`).
pub fn replace_slashes(s: &str) -> (r: String)
    ensures
        r@ == slashes_to_underscores(s@),
{
    let n = s.unicode_len();
    let mut r = String::new();
    let mut i: usize = 0;
    while i < n
        invariant
            n == s@.len(),
            0 <= i <= n,
            r@ == slashes_to_underscores(s@.subrange(0, i as int)),
        decreases n - i,
    {
        let c = s.get_char(i);
        if c == '/' {
            push_char(&mut r, '_');
        } else {
            push_char(&mut r, c);
        }
        i = i + 1;
        assert(slashes_to_underscores(s@.subrange(0, i as int)) =~= slashes_to_underscores(
            s@.subrange(0, i - 1),
        ).push(if c == '/' { '_' } else { c }));
    }
    assert(s@.subrange(0, n as int) =~= s@);
    r
}

/// Whether naming the output target `req` succeeds (the check that precedes
/// `get_output_name`).
pub fn output_target_is_readable(req: &Json) -> (r: bool)
    ensures
        r == output_target_readable(req@),
{
    match req {
        Json::Object(_) => {
            let file = req.member("file");
            if file.is_some() {
                text_ref(file).is_some()
            } else {
                let path = req.member("path");
                if path.is_some() {
                    text_ref(path).is_some()
                } else {
                    true
                }
            }
        },
        _ => true,
    }
}

/// Infers the file name of an output from its target.
pub fn get_output_name(req: &Json) -> (r: Option<String>)
    requires
        output_target_readable(req@),
    ensures
        match r {
            Some(name) => output_name(req@) == Some(name@),
            None => output_name(req@) is None,
        },
{
    match req {
        Json::Object(_) => {
            let file = req.member("file");
            if file.is_some() {
                let file = text_ref(file).unwrap();
                let mut name = String::from_str("file-");
                name.append(file.as_str());
                return Some(name);
            }
            let path = req.member("path");
            if path.is_some() {
                let path = text_ref(path).unwrap();
                let mut name = String::from_str("path-");
                let replaced = replace_slashes(path.as_str());
                name.append(replaced.as_str());
                return Some(name);
            }
            None
        },
        _ => None,
    }
}


/// Why exporting the outputs of an invocation stops early. `InvalidBase64`
/// is an error that the export reports; the others are failed assertions about
/// the shape of the request and the response.
#[derive(Debug, PartialEq)]
pub enum ExportFault {
    /// The request has no `/outputs` array.
    RequestOutputsMissing,
    /// The response has no `/outputs` array.
    ResponseOutputsMissing,
    /// The request and the response list different numbers of outputs.
    OutputCountMismatch { requested: usize, returned: usize },
    /// The target of a requested output has a `file` or `path` member that is
    /// not a string.
    MalformedOutputTarget { index: usize },
    /// No file name can be inferred for a requested output.
    UnnamedOutput { index: usize },
    /// A returned output has no `/data/inlineBase64` string.
    MissingInlineData { index: usize },
    /// The inline data of a returned output is not valid Base64.
    InvalidBase64 { index: usize },
}

/// A decoded output and the file name it is exported under.
#[derive(Debug, PartialEq)]
pub struct ExportedOutput {
    pub name: String,
    pub data: Vec<u8>,
}

/// The outputs to write, in order, and why the export stopped, if it did
/// before the last output.
#[derive(Debug, PartialEq)]
pub struct ExportOutcome {
    pub files: Vec<ExportedOutput>,
    pub stop: Option<ExportFault>,
}

/// The names and contents of exported outputs.
pub open spec fn exported_view(files: Seq<ExportedOutput>) -> Seq<(Seq<char>, Seq<u8>)> {
    files.map_values(|f: ExportedOutput| (f.name@, f.data@))
}

/// The `target` of a requested output (`value["target"]`, which is `null` for
/// a missing member).
pub open spec fn output_target(item: JsonView) -> JsonView {
    match member(item, "target"@) {
        Some(t) => t,
        None => JsonView::Null,
    }
}

/// The `/data/inlineBase64` text of a returned output.
pub open spec fn inline_data(item: JsonView) -> Option<Seq<char>> {
    text_of(member_of(member(item, "data"@), "inlineBase64"@))
}

/// Exporting the outputs from position `k` on: the files in order, and the
/// fault that stops the export, if any.
pub open spec fn export_items(reqs: Seq<JsonView>, ress: Seq<JsonView>, k: int) -> (
    Seq<(Seq<char>, Seq<u8>)>,
    Option<ExportFault>,
)
    decreases reqs.len() - k,
{
    if k < 0 || k >= reqs.len() || k >= ress.len() {
        (seq![], None)
    } else {
        let target = output_target(reqs[k]);
        if !output_target_readable(target) {
            (seq![], Some(ExportFault::MalformedOutputTarget { index: k as usize }))
        } else {
            match output_name(target) {
                None => (seq![], Some(ExportFault::UnnamedOutput { index: k as usize })),
                Some(name) => match inline_data(ress[k]) {
                    None => (seq![], Some(ExportFault::MissingInlineData { index: k as usize })),
                    Some(text) => match base64_decoded(encode_utf8(text)) {
                        None => (seq![], Some(ExportFault::InvalidBase64 { index: k as usize })),
                        Some(bytes) => {
                            let rest = export_items(reqs, ress, k + 1);
                            (seq![(name, bytes)] + rest.0, rest.1)
                        },
                    },
                },
            }
        }
    }
}

/// Exporting the outputs that `res` returns for the request `req`.
pub open spec fn export_outputs(req: JsonView, res: JsonView) -> (
    Seq<(Seq<char>, Seq<u8>)>,
    Option<ExportFault>,
) {
    match items_of(member(req, "outputs"@)) {
        None => (seq![], Some(ExportFault::RequestOutputsMissing)),
        Some(reqs) => match items_of(member(res, "outputs"@)) {
            None => (seq![], Some(ExportFault::ResponseOutputsMissing)),
            Some(ress) => if reqs.len() != ress.len() {
                (
                    seq![],
                    Some(
                        ExportFault::OutputCountMismatch {
                            requested: reqs.len() as usize,
                            returned: ress.len() as usize,
                        },
                    ),
                )
            } else {
                export_items(reqs, ress, 0)
            },
        },
    }
}

/// The exported output made of a decoding result: the decoded bytes under
/// `name`, or an `InvalidBase64` fault at `index` where decoding failed.
pub fn decoded_output(name: String, index: usize, decoded: Option<Vec<u8>>) -> (r: Result<
    ExportedOutput,
    ExportFault,
>)
    ensures
        match decoded {
            Some(bytes) => r == Ok::<ExportedOutput, ExportFault>(
                ExportedOutput { name: name, data: bytes },
            ),
            None => r == Err::<ExportedOutput, ExportFault>(
                ExportFault::InvalidBase64 { index: index },
            ),
        },
{
    match decoded {
        Some(bytes) => Ok(ExportedOutput { name, data: bytes }),
        None => Err(ExportFault::InvalidBase64 { index }),
    }
}

/// The `/outputs` array of a document.
fn outputs_of(j: &Json) -> (r: Option<&Vec<Json>>)
    ensures
        match r {
            Some(v) => items_of(member(j@, "outputs"@)) == Some(view_items(v@)),
            None => items_of(member(j@, "outputs"@)) is None,
        },
{
    match j.member("outputs") {
        Some(o) => o.as_array(),
        None => None,
    }
}

/// The `/data/inlineBase64` text of a returned output.
fn inline_data_of(item: &Json) -> (r: Option<&String>)
    ensures
        match r {
            Some(s) => inline_data(item@) == Some(s@),
            None => inline_data(item@) is None,
        },
{
    match item.member("data") {
        Some(data) => text_ref(data.member("inlineBase64")),
        None => None,
    }
}

/// Pairs the outputs of the request with those of the response, names each
/// after its target and decodes its inline Base64 data, in order, up to the
/// first output that cannot be exported.
#[verifier::loop_isolation(false)]
fn try_export(req: &Json, res: &Json) -> (r: ExportOutcome)
    ensures
        (exported_view(r.files@), r.stop) == export_outputs(req@, res@),
{
    let mut files: Vec<ExportedOutput> = Vec::new();
    let reqs = match outputs_of(req) {
        Some(v) => v,
        None => {
            return ExportOutcome { files, stop: Some(ExportFault::RequestOutputsMissing) };
        },
    };
    let ress = match outputs_of(res) {
        Some(v) => v,
        None => {
            return ExportOutcome { files, stop: Some(ExportFault::ResponseOutputsMissing) };
        },
    };
    proof {
        lemma_view_items(reqs@);
        lemma_view_items(ress@);
    }
    if reqs.len() != ress.len() {
        return ExportOutcome {
            files,
            stop: Some(
                ExportFault::OutputCountMismatch { requested: reqs.len(), returned: ress.len() },
            ),
        };
    }
    let ghost rq = view_items(reqs@);
    let ghost rs = view_items(ress@);
    let mut k: usize = 0;
    assert(exported_view(files@) =~= seq![]);
    while k < reqs.len()
        invariant
            0 <= k <= reqs.len(),
            reqs.len() == ress.len(),
            export_items(rq, rs, 0) == (
                exported_view(files@) + export_items(rq, rs, k as int).0,
                export_items(rq, rs, k as int).1,
            ),
        decreases reqs.len() - k,
    {
        let ghost before = files@;
        let target_member = reqs[k].member("target");
        let null = Json::Null;
        let target = match target_member {
            Some(t) => t,
            None => &null,
        };
        assert(target@ == output_target(rq[k as int]));
        if !output_target_is_readable(target) {
            let stop = Some(ExportFault::MalformedOutputTarget { index: k });
            assert(exported_view(files@) + seq![] =~= exported_view(files@));
            return ExportOutcome { files, stop };
        }
        let name = match get_output_name(target) {
            Some(name) => name,
            None => {
                let stop = Some(ExportFault::UnnamedOutput { index: k });
                assert(exported_view(files@) + seq![] =~= exported_view(files@));
                return ExportOutcome { files, stop };
            },
        };
        let text = match inline_data_of(&ress[k]) {
            Some(text) => text,
            None => {
                let stop = Some(ExportFault::MissingInlineData { index: k });
                assert(exported_view(files@) + seq![] =~= exported_view(files@));
                return ExportOutcome { files, stop };
            },
        };
        let decoded = match decode_base64(text.as_str().as_bytes()) {
            Ok(bytes) => Some(bytes),
            Err(_) => None,
        };
        match decoded_output(name, k, decoded) {
            Ok(file) => {
                files.push(file);
            },
            Err(fault) => {
                assert(exported_view(files@) + seq![] =~= exported_view(files@));
                return ExportOutcome { files, stop: Some(fault) };
            },
        }
        k = k + 1;
        assert(exported_view(files@) =~= exported_view(before).push(
            export_items(rq, rs, k - 1).0[0],
        ));
        assert(exported_view(files@) + export_items(rq, rs, k as int).0 =~= exported_view(before)
            + export_items(rq, rs, k - 1).0);
    }
    assert(export_items(rq, rs, k as int).0 =~= seq![]);
    ExportOutcome { files, stop: None }
}


/// The fault on which exporting `res` for `req` cannot go on at all: every
/// stop but Base64 data that does not decode, which is an ordinary error.
pub open spec fn export_panic_of(req: JsonView, res: JsonView) -> Option<ExportFault> {
    match export_outputs(req, res).1 {
        Some(ExportFault::InvalidBase64 { index }) => None,
        stop => stop,
    }
}

/// The fault on which exporting `res` for `req` cannot go on, if there is one.
pub fn export_fault(req: &Json, res: &Json) -> (r: Option<ExportFault>)
    ensures
        r == export_panic_of(req@, res@),
{
    let out = try_export(req, res);
    match out.stop {
        Some(ExportFault::InvalidBase64 { index }) => None,
        stop => stop,
    }
}

/// Pairs the outputs of the request with those of the response, names each
/// after its target and decodes its inline Base64 data, in order. Each
/// requested output must be nameable and each returned one must carry inline
/// data; the export stops at the first output whose data is not valid Base64.
pub fn export_response(req: &Json, res: &Json) -> (r: ExportOutcome)
    requires
        export_panic_of(req@, res@) is None,
    ensures
        (exported_view(r.files@), r.stop) == export_outputs(req@, res@),
        r.stop is None || r.stop is Some && r.stop->0 is InvalidBase64,
{
    try_export(req, res)
}

/// Exports `res` for `req` on any input: the outputs that can be written, in
/// order, and the fault that stops the export, if any.
pub fn export_checked(req: &Json, res: &Json) -> (r: ExportOutcome)
    ensures
        (exported_view(r.files@), r.stop) == export_outputs(req@, res@),
{
    match export_fault(req, res) {
        Some(_) => try_export(req, res),
        None => export_response(req, res),
    }
}

/// Whether an exported file holds what the inline Base64 data of the
/// returned output decodes to.
pub open spec fn holds_decoded_data(file: (Seq<char>, Seq<u8>), returned: JsonView) -> bool {
    match inline_data(returned) {
        Some(text) => Some(file.1) == base64_decoded(encode_utf8(text)),
        None => false,
    }
}

/// An export that does not stop early writes one file per requested output,
/// in the order of the request: each under the name of its target, holding
/// what the inline Base64 data of the returned output at the same position
/// decodes to.
pub proof fn lemma_export_complete(reqs: Seq<JsonView>, ress: Seq<JsonView>, k: int)
    requires
        0 <= k <= reqs.len(),
        reqs.len() == ress.len(),
    ensures
        export_items(reqs, ress, k).1 is None ==> {
            &&& export_items(reqs, ress, k).0.len() == reqs.len() - k
            &&& forall|i: int|
                0 <= i < reqs.len() - k ==> Some((#[trigger] export_items(reqs, ress, k).0[i]).0)
                    == output_name(output_target(reqs[k + i]))
            &&& forall|i: int|
                0 <= i < reqs.len() - k ==> holds_decoded_data(
                    #[trigger] export_items(reqs, ress, k).0[i],
                    ress[k + i],
                )
        },
    decreases reqs.len() - k,
{
    if k < reqs.len() {
        lemma_export_complete(reqs, ress, k + 1);
        let out = export_items(reqs, ress, k);
        if out.1 is None {
            let rest = export_items(reqs, ress, k + 1);
            assert forall|i: int| 0 <= i < reqs.len() - k implies {
                &&& Some((#[trigger] out.0[i]).0) == output_name(output_target(reqs[k + i]))
                &&& holds_decoded_data(out.0[i], ress[k + i])
            } by {
                if i > 0 {
                    assert(out.0[i] == rest.0[i - 1]);
                    assert(reqs[k + i] == reqs[(k + 1) + (i - 1)]);
                    assert(ress[k + i] == ress[(k + 1) + (i - 1)]);
                }
            }
        }
    }
}

} // verus!
