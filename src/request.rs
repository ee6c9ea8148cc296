use vstd::prelude::*;
use crate::body::{BodyDataMap, json_entries, text_of, url_encoded, url_encode, valid_entries};
use crate::text::{cookie_header, cookie_text, joined, pairs_view};

verus! {

/// The method of a planned request.
pub enum HttpMethod {
    Get,
    Post,
}

/// Everything that goes into one request: its method, its URL, its headers
/// in the order they are applied, and its body.
pub struct RequestPlan {
    pub method: HttpMethod,
    pub url: String,
    pub headers: Vec<(String, String)>,
    pub body: Option<String>,
}

impl RequestPlan {
    /// The headers of the plan as pairs of texts.
    pub open spec fn headers_view(&self) -> Seq<(Seq<char>, Seq<char>)> {
        pairs_view(self.headers@)
    }
}

/// The name of the cookie header.
pub open spec fn cookie_name() -> Seq<char> {
    "Cookie"@
}

/// The name of the content type header.
pub open spec fn content_type_name() -> Seq<char> {
    "Content-Type"@
}

/// The media type of a form-encoded body.
pub open spec fn form_media_type() -> Seq<char> {
    "application/x-www-form-urlencoded"@
}

/// The headers that a request carries: the caller's, in order, then one
/// `Cookie` header with all the cookies.
pub open spec fn request_headers(
    headers: Seq<(Seq<char>, Seq<char>)>,
    cookies: Seq<(Seq<char>, Seq<char>)>,
) -> Seq<(Seq<char>, Seq<char>)> {
    headers.push((cookie_name(), cookie_text(cookies)))
}

/// The value of the last header named `key`, the one that is applied last.
pub open spec fn last_value(headers: Seq<(Seq<char>, Seq<char>)>, key: Seq<char>) -> Option<
    Seq<char>,
>
    decreases headers.len(),
{
    if headers.len() == 0 {
        None
    } else if headers.last().0 == key {
        Some(headers.last().1)
    } else {
        last_value(headers.drop_last(), key)
    }
}

/// Whether the caller asked for a form-encoded body: the `Content-Type`
/// header is exactly `application/x-www-form-urlencoded`.
pub open spec fn is_form(headers: Seq<(Seq<char>, Seq<char>)>) -> bool {
    last_value(headers, content_type_name()) == Some(form_media_type())
}

/// One field of a form-encoded body: the key, `=`, and the URL-encoded text
/// of the value.
pub open spec fn form_field(entry: (String, BodyDataMap)) -> Seq<char> {
    entry.0@ + "="@ + url_encoded(text_of(entry.1))
}

/// A form-encoded body: the fields in order, joined by `&`.
pub open spec fn form_body(body: Seq<(String, BodyDataMap)>) -> Seq<char> {
    joined(body.map_values(|e: (String, BodyDataMap)| form_field(e)), "&"@)
}

/// A JSON body: the entries as one JSON object.
pub open spec fn json_body(body: Seq<(String, BodyDataMap)>) -> Seq<char> {
    "{"@ + json_entries(body) + "}"@
}

/// The body sent for `body` under `headers`: form-encoded where the
/// content type asks for it, JSON otherwise; none where JSON is asked for and
/// a number in the body has no valid decimal text.
pub open spec fn encoded_body(
    headers: Seq<(Seq<char>, Seq<char>)>,
    body: Seq<(String, BodyDataMap)>,
) -> Option<Seq<char>> {
    if is_form(headers) {
        Some(form_body(body))
    } else if valid_entries(body) {
        Some(json_body(body))
    } else {
        None
    }
}

/// Why a body could not be encoded.
#[derive(Debug, PartialEq, Eq, Structural)]
pub enum BodyError {
    /// A number's text is not a decimal, `NaN`, `inf` or `-inf`.
    InvalidNumber,
}

/// Whether `headers` ask for a form-encoded body.
pub fn is_form_encoded(headers: &Vec<(String, String)>) -> (r: bool)
    ensures
        r == is_form(pairs_view(headers@)),
{
    let ghost hv = pairs_view(headers@);
    let name = String::from_str("Content-Type");
    let form = String::from_str("application/x-www-form-urlencoded");
    let mut found = false;
    let mut i: usize = 0;
    while i < headers.len()
        invariant
            i <= headers.len(),
            hv == pairs_view(headers@),
            name@ == content_type_name(),
            form@ == form_media_type(),
            found == (last_value(hv.take(i as int), content_type_name()) == Some(
                form_media_type(),
            )),
        decreases headers.len() - i,
    {
        assert(hv.take(i + 1).drop_last() =~= hv.take(i as int));
        assert(hv.take(i + 1).last() == hv[i as int]);
        if headers[i].0 == name {
            found = headers[i].1 == form;
        }
        i = i + 1;
    }
    assert(hv.take(headers.len() as int) =~= hv);
    found
}

/// Form-encodes `body`: `key=value` for each entry in order, the value
/// written as text and URL-encoded, the fields joined by `&`.
pub fn form_encode(body: &Vec<(String, BodyDataMap)>) -> (r: String)
    ensures
        r@ == form_body(body@),
{
    let ghost parts = body@.map_values(|e: (String, BodyDataMap)| form_field(e));
    let mut r = String::new();
    let mut i: usize = 0;
    while i < body.len()
        invariant
            i <= body.len(),
            parts == body@.map_values(|e: (String, BodyDataMap)| form_field(e)),
            r@ == joined(parts.take(i as int), "&"@),
        decreases body.len() - i,
    {
        proof {
            crate::text::lemma_joined_push(parts, "&"@, i as int);
        }
        if i > 0 {
            r.append("&");
        }
        r.append(body[i].0.as_str());
        r.append("=");
        let text = body[i].1.to_string();
        let enc = url_encode(text.as_str());
        r.append(enc.as_str());
        i = i + 1;
    }
    assert(parts.take(body.len() as int) =~= parts);
    r
}

/// Encodes `body` as the request needs it: form-encoded where `headers`
/// ask for `application/x-www-form-urlencoded`, as a JSON object otherwise.
/// JSON fails where a number in the body has no valid decimal text.
pub fn encode_body(headers: &Vec<(String, String)>, body: &Vec<(String, BodyDataMap)>) -> (r:
    Result<String, BodyError>)
    ensures
        r is Ok <==> encoded_body(pairs_view(headers@), body@) is Some,
        r is Ok ==> r->Ok_0@ == encoded_body(pairs_view(headers@), body@)->0,
        r is Err ==> r->Err_0 == BodyError::InvalidNumber,
{
    if is_form_encoded(headers) {
        Ok(form_encode(body))
    } else {
        match crate::body::json_object(body) {
            Some(inner) => Ok(String::from_str("{").concat(inner.as_str()).concat("}")),
            None => Err(BodyError::InvalidNumber),
        }
    }
}

/// The headers of a request: a copy of `headers`, in order, then one
/// `Cookie` header with all of `cookies`.
pub fn header_list(headers: &Vec<(String, String)>, cookies: &Vec<(String, String)>) -> (r: Vec<
    (String, String),
>)
    ensures
        pairs_view(r@) == request_headers(pairs_view(headers@), pairs_view(cookies@)),
{
    let mut r: Vec<(String, String)> = Vec::new();
    let mut i: usize = 0;
    while i < headers.len()
        invariant
            i <= headers.len(),
            r@.len() == i,
            forall|j: int|
                0 <= j < i ==> (#[trigger] r@[j]).0@ == headers@[j].0@ && r@[j].1@
                    == headers@[j].1@,
        decreases headers.len() - i,
    {
        let k = headers[i].0.clone();
        let v = headers[i].1.clone();
        r.push((k, v));
        i = i + 1;
    }
    let c = cookie_header(cookies);
    r.push((String::from_str("Cookie"), c));
    assert(pairs_view(r@) =~= request_headers(pairs_view(headers@), pairs_view(cookies@)));
    r
}

/// Plans a GET of `url` with `headers` and `cookies`.
pub fn plan_get(url: String, headers: &Vec<(String, String)>, cookies: &Vec<(String, String)>) -> (r:
    RequestPlan)
    ensures
        r.method == HttpMethod::Get,
        r.url@ == url@,
        r.headers_view() == request_headers(pairs_view(headers@), pairs_view(cookies@)),
        r.body is None,
{
    let h = header_list(headers, cookies);
    RequestPlan { method: HttpMethod::Get, url, headers: h, body: None }
}

/// Plans a POST of `body` to `url` with `headers` and `cookies`; fails
/// where the body cannot be encoded.
pub fn plan_post(
    url: String,
    headers: &Vec<(String, String)>,
    cookies: &Vec<(String, String)>,
    body: &Vec<(String, BodyDataMap)>,
) -> (r: Result<RequestPlan, BodyError>)
    ensures
        r is Ok <==> encoded_body(pairs_view(headers@), body@) is Some,
        r is Ok ==> {
            let p = r->Ok_0;
            &&& p.method == HttpMethod::Post
            &&& p.url@ == url@
            &&& p.headers_view() == request_headers(pairs_view(headers@), pairs_view(cookies@))
            &&& p.body is Some
            &&& p.body->0@ == encoded_body(pairs_view(headers@), body@)->0
        },
        r is Err ==> r->Err_0 == BodyError::InvalidNumber,
{
    let b = encode_body(headers, body)?;
    let h = header_list(headers, cookies);
    Ok(RequestPlan { method: HttpMethod::Post, url, headers: h, body: Some(b) })
}

/// Every header that the caller supplies is sent as it is, in its place.
pub proof fn lemma_headers_kept(
    headers: Seq<(Seq<char>, Seq<char>)>,
    cookies: Seq<(Seq<char>, Seq<char>)>,
)
    ensures
        request_headers(headers, cookies).len() == headers.len() + 1,
        forall|i: int|
            0 <= i < headers.len() ==> #[trigger] request_headers(headers, cookies)[i]
                == headers[i],
{
}

/// Where the caller supplies no `Cookie` header, the request carries exactly
/// one, the last, whose value is the cookies' `key=value` pairs joined by
/// `; `; with no cookies that value is empty.
pub proof fn lemma_one_cookie_header(
    headers: Seq<(Seq<char>, Seq<char>)>,
    cookies: Seq<(Seq<char>, Seq<char>)>,
)
    requires
        forall|i: int| 0 <= i < headers.len() ==> (#[trigger] headers[i]).0 != cookie_name(),
    ensures
        request_headers(headers, cookies).last() == (cookie_name(), cookie_text(cookies)),
        forall|j: int|
            0 <= j < request_headers(headers, cookies).len() && (#[trigger] request_headers(
                headers,
                cookies,
            )[j]).0 == cookie_name() ==> j == headers.len(),
        cookies.len() == 0 ==> cookie_text(cookies) == Seq::<char>::empty(),
{
    let rh = request_headers(headers, cookies);
    assert forall|j: int| 0 <= j < rh.len() && (#[trigger] rh[j]).0 == cookie_name() implies j
        == headers.len() by {
        if j < headers.len() {
            assert(rh[j] == headers[j]);
        }
    }
}

} // verus!
