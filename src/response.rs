//! Normalization of a backend payload into the canonical error schema.
use vstd::prelude::*;
use crate::json::{Json, field, get_field};

verus! {

/// One grammar error as the service reports it.
#[derive(Clone, Debug)]
pub struct GramcheckErrResponse {
    pub error_text: String,
    pub start_index: u32,
    pub end_index: u32,
    pub error_code: String,
    pub description: String,
    pub suggestions: Vec<String>,
    pub title: String,
}

/// The service's answer: the checked text and the errors found in it.
#[derive(Clone, Debug)]
pub struct GramcheckResponse {
    pub text: String,
    pub errs: Vec<GramcheckErrResponse>,
}

/// The value of a `GramcheckErrResponse`.
pub struct ErrView {
    pub error_text: Seq<char>,
    pub start_index: u32,
    pub end_index: u32,
    pub error_code: Seq<char>,
    pub description: Seq<char>,
    pub suggestions: Seq<Seq<char>>,
    pub title: Seq<char>,
}

/// The value of a `GramcheckResponse`.
pub struct ResponseView {
    pub text: Seq<char>,
    pub errs: Seq<ErrView>,
}

pub open spec fn texts_view(v: Seq<String>) -> Seq<Seq<char>> {
    v.map_values(|s: String| s@)
}

impl View for GramcheckErrResponse {
    type V = ErrView;

    open spec fn view(&self) -> ErrView {
        ErrView {
            error_text: self.error_text@,
            start_index: self.start_index,
            end_index: self.end_index,
            error_code: self.error_code@,
            description: self.description@,
            suggestions: texts_view(self.suggestions@),
            title: self.title@,
        }
    }
}

pub open spec fn errs_view(v: Seq<GramcheckErrResponse>) -> Seq<ErrView> {
    v.map_values(|e: GramcheckErrResponse| e@)
}

impl View for GramcheckResponse {
    type V = ResponseView;

    open spec fn view(&self) -> ResponseView {
        ResponseView { text: self.text@, errs: errs_view(self.errs@) }
    }
}

/// The string a value holds, if it is a string.
pub open spec fn as_text(v: Option<Json>) -> Option<Seq<char>> {
    match v {
        Some(Json::Str(s)) => Some(s@),
        _ => None,
    }
}

/// The offset a value holds, if it is an integer that fits in `u32`.
pub open spec fn as_offset(v: Option<Json>) -> Option<u32> {
    match v {
        Some(Json::Unsigned(n)) => if n <= u32::MAX {
            Some(n as u32)
        } else {
            None
        },
        _ => None,
    }
}

/// The items of a value, if it is an array.
pub open spec fn as_list(v: Option<Json>) -> Option<Seq<Json>> {
    match v {
        Some(Json::Array(a)) => Some(a@),
        _ => None,
    }
}

/// The strings among `items`, in order; other items are left out.
pub open spec fn texts_of(items: Seq<Json>) -> Seq<Seq<char>>
    decreases items.len(),
{
    if items.len() == 0 {
        Seq::empty()
    } else {
        let rest = texts_of(items.drop_last());
        match items.last() {
            Json::Str(s) => rest.push(s@),
            _ => rest,
        }
    }
}

pub open spec fn opt_text(o: Option<String>) -> Option<Seq<char>> {
    match o {
        Some(s) => Some(s@),
        None => None,
    }
}

/// The error an entry with named members stands for, if it has every member
/// that is required: `form`, `beg`, `end`, `err`, a `msg` array whose first
/// item is the title and whose second, where it is a string, the description,
/// and a `rep` array of suggestions.
pub open spec fn named_entry(m: Seq<(String, Json)>) -> Option<ErrView> {
    let form = as_text(field(m, "form"@));
    let beg = as_offset(field(m, "beg"@));
    let end = as_offset(field(m, "end"@));
    let err = as_text(field(m, "err"@));
    let msg = as_list(field(m, "msg"@));
    let rep = as_list(field(m, "rep"@));
    if form is Some && beg is Some && end is Some && err is Some && msg is Some && rep is Some
        && msg->0.len() > 0 && as_text(Some(msg->0[0])) is Some && beg->0 <= end->0 {
        Some(
            ErrView {
                error_text: form->0,
                start_index: beg->0,
                end_index: end->0,
                error_code: err->0,
                description: if msg->0.len() > 1 && as_text(Some(msg->0[1])) is Some {
                    as_text(Some(msg->0[1]))->0
                } else {
                    Seq::empty()
                },
                suggestions: texts_of(rep->0),
                title: as_text(Some(msg->0[0]))->0,
            },
        )
    } else {
        None
    }
}

/// The error a positional entry stands for, if it has at least seven items:
/// error text, start, end, error code, description, suggestions and title.
pub open spec fn positional_entry(a: Seq<Json>) -> Option<ErrView> {
    if a.len() >= 7 {
        let text = as_text(Some(a[0]));
        let beg = as_offset(Some(a[1]));
        let end = as_offset(Some(a[2]));
        let code = as_text(Some(a[3]));
        let desc = as_text(Some(a[4]));
        let sugg = as_list(Some(a[5]));
        let title = as_text(Some(a[6]));
        if text is Some && beg is Some && end is Some && code is Some && desc is Some
            && sugg is Some && title is Some && beg->0 <= end->0 {
            Some(
                ErrView {
                    error_text: text->0,
                    start_index: beg->0,
                    end_index: end->0,
                    error_code: code->0,
                    description: desc->0,
                    suggestions: texts_of(sugg->0),
                    title: title->0,
                },
            )
        } else {
            None
        }
    } else {
        None
    }
}

/// The error one entry stands for: an object is read by member names, an
/// array by position; anything else stands for none.
pub open spec fn entry_error(e: Json) -> Option<ErrView> {
    match e {
        Json::Object(m) => named_entry(m@),
        Json::Array(a) => positional_entry(a@),
        _ => None,
    }
}

/// The errors of the decodable entries, in order; the others are dropped.
pub open spec fn entries_errors(items: Seq<Json>) -> Seq<ErrView>
    decreases items.len(),
{
    if items.len() == 0 {
        Seq::empty()
    } else {
        let rest = entries_errors(items.drop_last());
        match entry_error(items.last()) {
            Some(e) => rest.push(e),
            None => rest,
        }
    }
}

fn json_text(v: &Json) -> (r: Option<String>)
    ensures
        opt_text(r) == as_text(Some(*v)),
{
    match v {
        Json::Str(s) => Some(s.clone()),
        _ => None,
    }
}

fn json_offset(v: &Json) -> (r: Option<u32>)
    ensures
        r == as_offset(Some(*v)),
{
    match v {
        Json::Unsigned(n) => if *n <= u32::MAX as u64 {
            Some(*n as u32)
        } else {
            None
        },
        _ => None,
    }
}

fn json_list(v: &Json) -> (r: Option<&Vec<Json>>)
    ensures
        match r {
            Some(a) => as_list(Some(*v)) == Some(a@),
            None => as_list(Some(*v)) is None,
        },
{
    match v {
        Json::Array(a) => Some(a),
        _ => None,
    }
}

fn field_text(m: &Vec<(String, Json)>, key: &str) -> (r: Option<String>)
    ensures
        opt_text(r) == as_text(field(m@, key@)),
{
    match get_field(m, key) {
        Some(v) => json_text(v),
        None => None,
    }
}

fn field_offset(m: &Vec<(String, Json)>, key: &str) -> (r: Option<u32>)
    ensures
        r == as_offset(field(m@, key@)),
{
    match get_field(m, key) {
        Some(v) => json_offset(v),
        None => None,
    }
}

fn field_list<'a>(m: &'a Vec<(String, Json)>, key: &str) -> (r: Option<&'a Vec<Json>>)
    ensures
        match r {
            Some(a) => as_list(field(m@, key@)) == Some(a@),
            None => as_list(field(m@, key@)) is None,
        },
{
    match get_field(m, key) {
        Some(v) => json_list(v),
        None => None,
    }
}

/// Keeps the strings among `items`, in order.
pub fn collect_texts(items: &Vec<Json>) -> (r: Vec<String>)
    ensures
        texts_view(r@) == texts_of(items@),
{
    let mut out: Vec<String> = Vec::new();
    let mut i: usize = 0;
    while i < items.len()
        invariant
            i <= items@.len(),
            texts_view(out@) == texts_of(items@.take(i as int)),
        decreases items@.len() - i,
    {
        assert(items@.take(i as int + 1).drop_last() =~= items@.take(i as int));
        let ghost before = out@;
        match &items[i] {
            Json::Str(s) => {
                out.push(s.clone());
                assert(texts_view(out@) =~= texts_view(before).push(s@));
            },
            _ => {},
        }
        i = i + 1;
    }
    assert(items@.take(items@.len() as int) =~= items@);
    out
}


/// Decodes an entry with named members; `None` where a required member is
/// missing, has the wrong type, or the offsets are out of order.
pub fn decode_named(m: &Vec<(String, Json)>) -> (r: Option<GramcheckErrResponse>)
    ensures
        match r {
            Some(e) => named_entry(m@) == Some(e@),
            None => named_entry(m@) is None,
        },
{
    let form = field_text(m, "form");
    let beg = field_offset(m, "beg");
    let end = field_offset(m, "end");
    let err = field_text(m, "err");
    let msg = field_list(m, "msg");
    let rep = field_list(m, "rep");
    match (form, beg, end, err, msg, rep) {
        (Some(form), Some(beg), Some(end), Some(err), Some(msg), Some(rep)) => {
            if msg.len() == 0 || beg > end {
                return None;
            }
            let title = match json_text(&msg[0]) {
                Some(t) => t,
                None => return None,
            };
            let description = if msg.len() > 1 {
                match json_text(&msg[1]) {
                    Some(d) => d,
                    None => String::new(),
                }
            } else {
                String::new()
            };
            let suggestions = collect_texts(rep);
            let e = GramcheckErrResponse {
                error_text: form,
                start_index: beg,
                end_index: end,
                error_code: err,
                description,
                suggestions,
                title,
            };
            assert(e@.description =~= named_entry(m@)->0.description);
            Some(e)
        },
        _ => None,
    }
}

/// Decodes a positional entry; `None` where it has fewer than seven items,
/// an item of the wrong type, or offsets out of order.
pub fn decode_positional(a: &Vec<Json>) -> (r: Option<GramcheckErrResponse>)
    ensures
        match r {
            Some(e) => positional_entry(a@) == Some(e@),
            None => positional_entry(a@) is None,
        },
{
    if a.len() < 7 {
        return None;
    }
    let text = json_text(&a[0]);
    let beg = json_offset(&a[1]);
    let end = json_offset(&a[2]);
    let code = json_text(&a[3]);
    let desc = json_text(&a[4]);
    let sugg = json_list(&a[5]);
    let title = json_text(&a[6]);
    match (text, beg, end, code, desc, sugg, title) {
        (Some(text), Some(beg), Some(end), Some(code), Some(desc), Some(sugg), Some(title)) => {
            if beg > end {
                return None;
            }
            let suggestions = collect_texts(sugg);
            Some(
                GramcheckErrResponse {
                    error_text: text,
                    start_index: beg,
                    end_index: end,
                    error_code: code,
                    description: desc,
                    suggestions,
                    title,
                },
            )
        },
        _ => None,
    }
}

/// Decodes one entry of either shape.
pub fn decode_entry(e: &Json) -> (r: Option<GramcheckErrResponse>)
    ensures
        match r {
            Some(x) => entry_error(*e) == Some(x@),
            None => entry_error(*e) is None,
        },
{
    match e {
        Json::Object(m) => decode_named(m),
        Json::Array(a) => decode_positional(a),
        _ => None,
    }
}

/// Decodes every entry, dropping those that cannot be decoded.
pub fn decode_entries(items: &Vec<Json>) -> (r: Vec<GramcheckErrResponse>)
    ensures
        errs_view(r@) == entries_errors(items@),
{
    let mut out: Vec<GramcheckErrResponse> = Vec::new();
    let mut i: usize = 0;
    while i < items.len()
        invariant
            i <= items@.len(),
            errs_view(out@) == entries_errors(items@.take(i as int)),
        decreases items@.len() - i,
    {
        assert(items@.take(i as int + 1).drop_last() =~= items@.take(i as int));
        let ghost before = out@;
        match decode_entry(&items[i]) {
            Some(x) => {
                out.push(x);
                assert(errs_view(out@) =~= errs_view(before).push(x@));
            },
            None => {},
        }
        i = i + 1;
    }
    assert(items@.take(items@.len() as int) =~= items@);
    out
}


/// What a backend payload comes to.
pub enum PayloadOutcome {
    /// The payload held an entry list; these are its decodable entries.
    Errors(Vec<GramcheckErrResponse>),
    /// The payload is a string that holds a JSON document still to be decoded.
    Reparse(String),
    /// The payload holds no entry list.
    Malformed,
}

/// The entry list of a payload: a top-level array, or the array under the
/// `errs` member of an object.
pub open spec fn payload_entries(p: Json) -> Option<Seq<Json>> {
    match p {
        Json::Array(items) => Some(items@),
        Json::Object(m) => as_list(field(m@, "errs"@)),
        _ => None,
    }
}

/// The errors a payload holds, where it holds an entry list.
pub open spec fn payload_errors(p: Json) -> Option<Seq<ErrView>> {
    match payload_entries(p) {
        Some(items) => Some(entries_errors(items)),
        None => None,
    }
}

/// The errors an outcome carries; `None` unless it is `Errors`.
pub open spec fn outcome_errors(o: PayloadOutcome) -> Option<Seq<ErrView>> {
    match o {
        PayloadOutcome::Errors(v) => Some(errs_view(v@)),
        _ => None,
    }
}

/// The value of a `PayloadOutcome`.
pub enum OutcomeView {
    Errors(Seq<ErrView>),
    Reparse(Seq<char>),
    Malformed,
}

impl View for PayloadOutcome {
    type V = OutcomeView;

    open spec fn view(&self) -> OutcomeView {
        match self {
            PayloadOutcome::Errors(v) => OutcomeView::Errors(errs_view(v@)),
            PayloadOutcome::Reparse(s) => OutcomeView::Reparse(s@),
            PayloadOutcome::Malformed => OutcomeView::Malformed,
        }
    }
}

/// What a payload comes to: the errors of its entry list; else, for a JSON
/// string that is not itself the result of a second decoding pass, the
/// string to decode; else malformed.
pub open spec fn payload_view(p: Json, reparsed: bool) -> OutcomeView {
    match payload_entries(p) {
        Some(items) => OutcomeView::Errors(entries_errors(items)),
        None => match p {
            Json::Str(s) => if reparsed {
                OutcomeView::Malformed
            } else {
                OutcomeView::Reparse(s@)
            },
            _ => OutcomeView::Malformed,
        },
    }
}

/// Normalizes a payload. A payload that is a JSON string is handed back for
/// one more decoding pass, unless it is itself the result of one
/// (`reparsed`); a payload without an entry list is malformed.
pub fn normalize_payload(p: &Json, reparsed: bool) -> (r: PayloadOutcome)
    ensures
        r@ == payload_view(*p, reparsed),
        outcome_errors(r) == payload_errors(*p),
{
    match p {
        Json::Array(items) => PayloadOutcome::Errors(decode_entries(items)),
        Json::Object(m) => match field_list(m, "errs") {
            Some(items) => PayloadOutcome::Errors(decode_entries(items)),
            None => PayloadOutcome::Malformed,
        },
        Json::Str(s) => if reparsed {
            PayloadOutcome::Malformed
        } else {
            PayloadOutcome::Reparse(s.clone())
        },
        _ => PayloadOutcome::Malformed,
    }
}


proof fn lemma_entry_offsets(e: Json)
    ensures
        entry_error(e) is Some ==> entry_error(e)->0.start_index <= entry_error(e)->0.end_index,
{
}

/// Law of the normalizer: every error it reports has its start at or before
/// its end and is the decoding of one of the payload's entries; entries that
/// cannot be decoded never surface.
pub proof fn lemma_reported_errors_valid(items: Seq<Json>)
    ensures
        forall|i: int|
            0 <= i < entries_errors(items).len() ==> {
                &&& (#[trigger] entries_errors(items)[i]).start_index <= entries_errors(items)[i].end_index
                &&& exists|j: int|
                    0 <= j < items.len() && entry_error(#[trigger] items[j]) == Some(
                        entries_errors(items)[i],
                    )
            },
    decreases items.len(),
{
    if items.len() > 0 {
        let front = items.drop_last();
        lemma_reported_errors_valid(front);
        lemma_entry_offsets(items.last());
        let out = entries_errors(items);
        assert forall|i: int| 0 <= i < out.len() implies {
            &&& (#[trigger] out[i]).start_index <= out[i].end_index
            &&& exists|j: int| 0 <= j < items.len() && entry_error(#[trigger] items[j]) == Some(out[i])
        } by {
            if i < entries_errors(front).len() {
                assert(out[i] == entries_errors(front)[i]);
                let j = choose|j: int|
                    0 <= j < front.len() && entry_error(#[trigger] front[j]) == Some(
                        entries_errors(front)[i],
                    );
                assert(items[j] == front[j]);
            } else {
                assert(items[items.len() - 1] == items.last());
            }
        }
    }
}

/// Law of the normalizer: it depends on the payload alone, so two runs on the
/// same payload come to the same outcome.
pub proof fn lemma_normalize_repeatable(
    p: Json,
    reparsed: bool,
    first: PayloadOutcome,
    second: PayloadOutcome,
)
    requires
        first@ == payload_view(p, reparsed),
        second@ == payload_view(p, reparsed),
    ensures
        first@ == second@,
{
}

} // verus!
