use gramcheck::json::Json;
use gramcheck::response::{decode_entry, normalize_payload, GramcheckErrResponse, PayloadOutcome};

fn s(x: &str) -> Json {
    Json::Str(x.to_string())
}

fn member(k: &str, v: Json) -> (String, Json) {
    (k.to_string(), v)
}

fn positional(text: &str, beg: u64, end: u64, code: &str, desc: &str, sugg: &[&str], title: &str) -> Json {
    Json::Array(vec![
        s(text),
        Json::Unsigned(beg),
        Json::Unsigned(end),
        s(code),
        s(desc),
        Json::Array(sugg.iter().map(|x| s(x)).collect()),
        s(title),
    ])
}

fn errors_of(o: PayloadOutcome) -> Vec<GramcheckErrResponse> {
    match o {
        PayloadOutcome::Errors(v) => v,
        PayloadOutcome::Reparse(_) => panic!("expected errors, got a string to decode"),
        PayloadOutcome::Malformed => panic!("expected errors, got a malformed payload"),
    }
}

fn envelope(entries: Vec<Json>) -> Json {
    Json::Object(vec![member("errs", Json::Array(entries))])
}

#[test]
fn positional_entry_in_envelope_decodes() {
    let p = envelope(vec![positional("foo", 0, 3, "typo", "desc", &["bar", "baz"], "Title")]);
    let errs = errors_of(normalize_payload(&p, false));
    assert_eq!(errs.len(), 1);
    let e = &errs[0];
    assert_eq!(e.error_text, "foo");
    assert_eq!(e.start_index, 0);
    assert_eq!(e.end_index, 3);
    assert_eq!(e.error_code, "typo");
    assert_eq!(e.description, "desc");
    assert_eq!(e.suggestions, vec!["bar".to_string(), "baz".to_string()]);
    assert_eq!(e.title, "Title");
}

#[test]
fn short_positional_entry_is_dropped() {
    let short = Json::Array(vec![s("foo"), Json::Unsigned(0), Json::Unsigned(3), s("typo"), s("desc"), Json::Array(vec![])]);
    let p = envelope(vec![
        short,
        positional("goes", 4, 8, "agr", "agreement", &["go"], "Agreement"),
    ]);
    let errs = errors_of(normalize_payload(&p, false));
    assert_eq!(errs.len(), 1);
    assert_eq!(errs[0].error_text, "goes");
    assert_eq!(errs[0].start_index, 4);
    assert_eq!(errs[0].end_index, 8);
    assert_eq!(errs[0].suggestions, vec!["go".to_string()]);
}

fn named(form: &str, beg: u64, end: u64, err: &str, msg: Vec<Json>, rep: Vec<Json>) -> Json {
    Json::Object(vec![
        member("form", s(form)),
        member("beg", Json::Unsigned(beg)),
        member("end", Json::Unsigned(end)),
        member("err", s(err)),
        member("msg", Json::Array(msg)),
        member("rep", Json::Array(rep)),
    ])
}

#[test]
fn top_level_named_entries_decode() {
    let p = Json::Array(vec![
        named("teh", 0, 3, "typo", vec![s("Spelling"), s("Misspelled word")], vec![s("the"), Json::Unsigned(1), s("ten")]),
        named("a", 4, 5, "art", vec![s("Article")], vec![]),
    ]);
    let errs = errors_of(normalize_payload(&p, false));
    assert_eq!(errs.len(), 2);
    assert_eq!(errs[0].error_text, "teh");
    assert_eq!(errs[0].title, "Spelling");
    assert_eq!(errs[0].description, "Misspelled word");
    assert_eq!(errs[0].suggestions, vec!["the".to_string(), "ten".to_string()]);
    assert_eq!(errs[1].title, "Article");
    assert_eq!(errs[1].description, "");
    assert!(errs[1].suggestions.is_empty());
}

#[test]
fn named_entries_in_envelope_decode() {
    let p = envelope(vec![named("x", 1, 2, "e", vec![s("T"), Json::Null], vec![s("y")])]);
    let errs = errors_of(normalize_payload(&p, false));
    assert_eq!(errs.len(), 1);
    assert_eq!(errs[0].error_code, "e");
    assert_eq!(errs[0].description, "");
}

#[test]
fn incomplete_named_entries_are_dropped() {
    let missing_rep = Json::Object(vec![
        member("form", s("x")),
        member("beg", Json::Unsigned(0)),
        member("end", Json::Unsigned(1)),
        member("err", s("e")),
        member("msg", Json::Array(vec![s("T")])),
    ]);
    let empty_msg = named("x", 0, 1, "e", vec![], vec![]);
    let title_not_text = named("x", 0, 1, "e", vec![Json::Unsigned(5)], vec![]);
    let negative = Json::Object(vec![
        member("form", s("x")),
        member("beg", Json::OtherNumber),
        member("end", Json::Unsigned(1)),
        member("err", s("e")),
        member("msg", Json::Array(vec![s("T")])),
        member("rep", Json::Array(vec![])),
    ]);
    for e in [missing_rep, empty_msg, title_not_text, negative] {
        assert!(decode_entry(&e).is_none());
    }
}

#[test]
fn reversed_or_oversized_offsets_are_dropped() {
    let p = envelope(vec![
        positional("a", 5, 2, "c", "d", &[], "t"),
        positional("b", 0, 1 << 40, "c", "d", &[], "t"),
        named("c", 9, 3, "e", vec![s("T")], vec![]),
        positional("ok", 2, 2, "c", "d", &[], "t"),
    ]);
    let errs = errors_of(normalize_payload(&p, false));
    assert_eq!(errs.len(), 1);
    assert_eq!(errs[0].error_text, "ok");
    assert_eq!(errs[0].start_index, 2);
    assert_eq!(errs[0].end_index, 2);
}

#[test]
fn non_text_suggestions_are_dropped_one_by_one() {
    let p = envelope(vec![Json::Array(vec![
        s("w"),
        Json::Unsigned(0),
        Json::Unsigned(1),
        s("c"),
        s("d"),
        Json::Array(vec![Json::Bool(true), s("v"), Json::Null, s("u")]),
        s("t"),
    ])]);
    let errs = errors_of(normalize_payload(&p, false));
    assert_eq!(errs[0].suggestions, vec!["v".to_string(), "u".to_string()]);
}

#[test]
fn normalizing_twice_gives_the_same_response() {
    let p = envelope(vec![
        positional("foo", 0, 3, "typo", "desc", &["bar"], "Title"),
        Json::Null,
        named("x", 4, 6, "e", vec![s("T"), s("D")], vec![s("y")]),
    ]);
    let a = errors_of(normalize_payload(&p, false));
    let b = errors_of(normalize_payload(&p, false));
    assert_eq!(a.len(), b.len());
    for (x, y) in a.iter().zip(b.iter()) {
        assert_eq!(format!("{:?}", x), format!("{:?}", y));
    }
}

#[test]
fn string_payload_is_handed_back_for_decoding() {
    match normalize_payload(&s("{\"errs\":[]}"), false) {
        PayloadOutcome::Reparse(t) => assert_eq!(t, "{\"errs\":[]}"),
        _ => panic!("expected a string to decode"),
    }
    assert!(matches!(normalize_payload(&s("[]"), true), PayloadOutcome::Malformed));
}

#[test]
fn payload_without_entry_list_is_malformed() {
    assert!(matches!(normalize_payload(&Json::Unsigned(3), false), PayloadOutcome::Malformed));
    assert!(matches!(normalize_payload(&Json::Null, false), PayloadOutcome::Malformed));
    let other = Json::Object(vec![member("errors", Json::Array(vec![]))]);
    assert!(matches!(normalize_payload(&other, false), PayloadOutcome::Malformed));
    let not_list = Json::Object(vec![member("errs", s("none"))]);
    assert!(matches!(normalize_payload(&not_list, false), PayloadOutcome::Malformed));
}

#[test]
fn empty_entry_list_gives_no_errors() {
    assert!(errors_of(normalize_payload(&Json::Array(vec![]), false)).is_empty());
    assert!(errors_of(normalize_payload(&envelope(vec![]), false)).is_empty());
}
