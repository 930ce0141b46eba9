use gramcheck::request::{plan_request, select_encoding, select_ignore, BackendRequest, Encoding, ProcessInput};
use gramcheck::service::ServiceError;

fn input(text: &str, ignore: Option<Vec<&str>>, ignore_tags: Option<Vec<&str>>) -> ProcessInput {
    let own = |v: Option<Vec<&str>>| v.map(|v| v.into_iter().map(|x| x.to_string()).collect());
    ProcessInput { text: text.to_string(), ignore: own(ignore), ignore_tags: own(ignore_tags) }
}

#[test]
fn encoding_values() {
    assert_eq!(select_encoding(None), Ok(Encoding::Utf16));
    assert_eq!(select_encoding(Some("utf-16")), Ok(Encoding::Utf16));
    assert_eq!(select_encoding(Some("utf-8")), Ok(Encoding::Utf8));
    assert_eq!(select_encoding(Some("latin1")), Err(ServiceError::UnsupportedEncoding));
    assert_eq!(select_encoding(Some("UTF-8")), Err(ServiceError::UnsupportedEncoding));
    assert_eq!(select_encoding(Some("")), Err(ServiceError::UnsupportedEncoding));
    assert_eq!(Encoding::Utf8.label(), "utf-8");
    assert_eq!(Encoding::Utf16.label(), "utf-16");
}

struct CountingBackend {
    calls: usize,
}

impl CountingBackend {
    fn check(&mut self, _req: &BackendRequest) {
        self.calls += 1;
    }
}

fn serve(backend: &mut CountingBackend, body: ProcessInput, encoding: Option<&str>) -> u16 {
    match plan_request(body, encoding, vec!["se".to_string()]) {
        Ok(req) => {
            backend.check(&req);
            200
        }
        Err(e) => e.status(),
    }
}

#[test]
fn unsupported_encoding_is_refused_before_the_backend() {
    let mut backend = CountingBackend { calls: 0 };
    assert_eq!(serve(&mut backend, input("text", None, None), Some("latin1")), 400);
    assert_eq!(backend.calls, 0);
    assert_eq!(serve(&mut backend, input("text", None, None), Some("utf-8")), 200);
    assert_eq!(backend.calls, 1);
}

#[test]
fn request_text_is_trimmed() {
    let req = plan_request(input("  \t Hello world \n", None, None), None, vec![]).unwrap();
    assert_eq!(req.text, "Hello world");
    assert_eq!(req.config.encoding, Encoding::Utf16);
    let blank = plan_request(input("   ", None, None), Some("utf-8"), vec![]).unwrap();
    assert_eq!(blank.text, "");
    assert_eq!(blank.config.encoding, Encoding::Utf8);
}

#[test]
fn request_carries_locales_and_ignore_list() {
    let locales = vec!["nb".to_string(), "se".to_string()];
    let req = plan_request(input("x", Some(vec!["typo"]), Some(vec!["old"])), Some("utf-16"), locales.clone()).unwrap();
    assert_eq!(req.config.locales, locales);
    assert_eq!(req.config.ignore, Some(vec!["typo".to_string()]));
}

#[test]
fn ignore_list_selection() {
    let v = |xs: &[&str]| Some(xs.iter().map(|x| x.to_string()).collect::<Vec<String>>());
    assert_eq!(select_ignore(v(&["a"]), v(&["b"])), v(&["a"]));
    assert_eq!(select_ignore(None, v(&["b"])), v(&["b"]));
    assert_eq!(select_ignore(None, None), None);
    assert_eq!(select_ignore(v(&[]), None), None);
    assert_eq!(select_ignore(None, v(&[])), None);
    assert_eq!(select_ignore(v(&[]), v(&["b"])), None);
}
