//! Turning a request into one backend-agnostic configuration.
use vstd::prelude::*;
use crate::service::ServiceError;

verus! {

/// The unit in which error offsets are counted.
#[derive(PartialEq, Eq, Structural, Clone, Copy, Debug)]
pub enum Encoding {
    Utf8,
    Utf16,
}

impl Encoding {
    /// The name under which the backend configuration carries the encoding.
    pub fn label(&self) -> (r: &'static str)
        ensures
            r@ == encoding_label(*self),
    {
        match self {
            Encoding::Utf8 => "utf-8",
            Encoding::Utf16 => "utf-16",
        }
    }
}

pub open spec fn encoding_label(e: Encoding) -> Seq<char> {
    match e {
        Encoding::Utf8 => "utf-8"@,
        Encoding::Utf16 => "utf-16"@,
    }
}

/// The body of a check request. `ignore` is the current name of the ignore
/// list, `ignore_tags` its deprecated alias.
pub struct ProcessInput {
    pub text: String,
    pub ignore: Option<Vec<String>>,
    pub ignore_tags: Option<Vec<String>>,
}

/// What the embedded pipeline is configured with for one request.
pub struct BackendConfig {
    pub locales: Vec<String>,
    pub encoding: Encoding,
    /// The error tags to leave out; never an empty list.
    pub ignore: Option<Vec<String>>,
}

/// One check as a backend receives it: the normalized text and the
/// configuration.
pub struct BackendRequest {
    pub text: String,
    pub config: BackendConfig,
}

/// What `str::trim` makes of a text.
pub uninterp spec fn trimmed(s: Seq<char>) -> Seq<char>;

/// Relies on `str::trim`: leading and trailing whitespace removed; an empty
/// text stays empty.
#[verifier::external_body]
fn trim_text(s: &str) -> (r: String)
    ensures
        r@ == trimmed(s@),
        s@.len() == 0 ==> r@.len() == 0,
{
    s.trim().to_string()
}

pub open spec fn opt_str(q: Option<&str>) -> Option<Seq<char>> {
    match q {
        Some(s) => Some(s@),
        None => None,
    }
}

/// The encoding a query value selects: `utf-16` or none gives UTF-16,
/// `utf-8` gives UTF-8, and any other value none.
pub open spec fn encoding_for(q: Option<Seq<char>>) -> Option<Encoding> {
    match q {
        None => Some(Encoding::Utf16),
        Some(s) => if s == "utf-16"@ {
            Some(Encoding::Utf16)
        } else if s == "utf-8"@ {
            Some(Encoding::Utf8)
        } else {
            None
        },
    }
}

/// Reads the `encoding` query value.
pub fn select_encoding(q: Option<&str>) -> (r: Result<Encoding, ServiceError>)
    ensures
        match r {
            Ok(e) => encoding_for(opt_str(q)) == Some(e),
            Err(e) => encoding_for(opt_str(q)) is None && e == ServiceError::UnsupportedEncoding,
        },
{
    match q {
        None => Ok(Encoding::Utf16),
        Some(s) => if crate::json::same_text(s, "utf-16") {
            Ok(Encoding::Utf16)
        } else if crate::json::same_text(s, "utf-8") {
            Ok(Encoding::Utf8)
        } else {
            Err(ServiceError::UnsupportedEncoding)
        },
    }
}

/// The ignore list sent to the backend: `ignore` where present, else
/// `ignore_tags`; an empty list is sent as none.
pub open spec fn chosen_ignore(ignore: Option<Vec<String>>, ignore_tags: Option<Vec<String>>) -> Option<
    Vec<String>,
> {
    let chosen = if ignore is Some {
        ignore
    } else {
        ignore_tags
    };
    match chosen {
        Some(v) => if v@.len() > 0 {
            Some(v)
        } else {
            None
        },
        None => None,
    }
}

/// Picks the ignore list of a request.
pub fn select_ignore(ignore: Option<Vec<String>>, ignore_tags: Option<Vec<String>>) -> (r: Option<
    Vec<String>,
>)
    ensures
        r == chosen_ignore(ignore, ignore_tags),
{
    let chosen = match ignore {
        Some(v) => Some(v),
        None => ignore_tags,
    };
    match chosen {
        Some(v) => if v.len() > 0 {
            Some(v)
        } else {
            None
        },
        None => None,
    }
}

/// Normalizes a request: trims its text, selects the encoding from the query
/// value and the ignore list from the body, and carries the resolved locales.
/// Fails, before any backend is involved, exactly when the encoding is not
/// supported.
pub fn plan_request(input: ProcessInput, encoding: Option<&str>, locales: Vec<String>) -> (r: Result<
    BackendRequest,
    ServiceError,
>)
    ensures
        match r {
            Ok(req) => {
                &&& encoding_for(opt_str(encoding)) == Some(req.config.encoding)
                &&& req.text@ == trimmed(input.text@)
                &&& input.text@.len() == 0 ==> req.text@.len() == 0
                &&& req.config.locales == locales
                &&& req.config.ignore == chosen_ignore(input.ignore, input.ignore_tags)
            },
            Err(e) => encoding_for(opt_str(encoding)) is None && e == ServiceError::UnsupportedEncoding,
        },
{
    let enc = match select_encoding(encoding) {
        Ok(e) => e,
        Err(e) => return Err(e),
    };
    let text = trim_text(input.text.as_str());
    let ignore = select_ignore(input.ignore, input.ignore_tags);
    Ok(BackendRequest { text, config: BackendConfig { locales, encoding: enc, ignore } })
}


/// Law of request normalization: an encoding other than `utf-8` and `utf-16`
/// is refused with status 400, and no backend request is made from it.
pub proof fn lemma_unsupported_encoding_rejected(q: Seq<char>)
    requires
        q != "utf-8"@,
        q != "utf-16"@,
    ensures
        encoding_for(Some(q)) is None,
        crate::service::status_of(ServiceError::UnsupportedEncoding) == 400,
{
}

} // verus!
