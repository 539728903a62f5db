//! The HTTP protocol adapter's configuration and request preparation.
//!
//! The adapter's data is plain: client options, a method, a target list, a
//! header list and a body. Preparing one request picks a target uniformly
//! at random from the list (and one value per multi-valued header), and
//! classifying a response decides success (a code in the 2xx range) and
//! fatality (a code in the configured stop set). The network exchange
//! itself is the caller's.

use vstd::prelude::*;
use std::str::FromStr;

verus! {

/// The HTTP client options.
pub struct HttpClientConfig {
    /// Accept invalid TLS certificates.
    pub ignore_cert: bool,
    /// Keep connections for reuse; off means no idle connections are kept.
    pub conn_reuse: bool,
    /// Speak HTTP/2 only.
    pub http2_only: bool,
    /// Response codes that stop the whole run.
    pub stop_on_errors: Vec<u16>,
}

/// A builder for [`HttpClientConfig`]; every option has a default.
pub struct HttpClientConfigBuilder {
    /// Accept invalid TLS certificates.
    pub ignore_cert: bool,
    /// Keep connections for reuse.
    pub conn_reuse: bool,
    /// Speak HTTP/2 only.
    pub http2_only: bool,
    /// Response codes that stop the whole run.
    pub stop_on_errors: Vec<u16>,
}

impl HttpClientConfigBuilder {
    /// Accept invalid TLS certificates.
    pub fn ignore_cert(self, v: bool) -> (r: Self)
        ensures
            r == (HttpClientConfigBuilder { ignore_cert: v, ..self }),
    {
        HttpClientConfigBuilder { ignore_cert: v, ..self }
    }

    /// Keep connections for reuse.
    pub fn conn_reuse(self, v: bool) -> (r: Self)
        ensures
            r == (HttpClientConfigBuilder { conn_reuse: v, ..self }),
    {
        HttpClientConfigBuilder { conn_reuse: v, ..self }
    }

    /// Speak HTTP/2 only.
    pub fn http2_only(self, v: bool) -> (r: Self)
        ensures
            r == (HttpClientConfigBuilder { http2_only: v, ..self }),
    {
        HttpClientConfigBuilder { http2_only: v, ..self }
    }

    /// Response codes that stop the whole run.
    pub fn stop_on_errors(self, v: Vec<u16>) -> (r: Self)
        ensures
            r == (HttpClientConfigBuilder { stop_on_errors: v, ..self }),
    {
        HttpClientConfigBuilder { stop_on_errors: v, ..self }
    }

    /// The finished options.
    pub fn build(self) -> (r: Result<HttpClientConfig, String>)
        ensures
            r matches Ok(c) && c.ignore_cert == self.ignore_cert && c.conn_reuse
                == self.conn_reuse && c.http2_only == self.http2_only && c.stop_on_errors
                == self.stop_on_errors,
    {
        Ok(
            HttpClientConfig {
                ignore_cert: self.ignore_cert,
                conn_reuse: self.conn_reuse,
                http2_only: self.http2_only,
                stop_on_errors: self.stop_on_errors,
            },
        )
    }
}

impl Default for HttpClientConfigBuilder {
    /// All options off, no stop codes.
    fn default() -> (r: Self)
        ensures
            !r.ignore_cert && !r.conn_reuse && !r.http2_only && r.stop_on_errors@.len() == 0,
    {
        HttpClientConfigBuilder {
            ignore_cert: false,
            conn_reuse: false,
            http2_only: false,
            stop_on_errors: Vec::new(),
        }
    }
}

/// A character allowed in an HTTP method token.
pub open spec fn is_token_char(c: char) -> bool {
    ||| c == '!'
    ||| c == '*'
    ||| c == '+'
    ||| c == '-'
    ||| c == '.'
    ||| c == '^'
    ||| c == '_'
    ||| c == '`'
    ||| c == '|'
    ||| c == '~'
    ||| ('0' <= c && c <= '9')
    ||| ('a' <= c && c <= 'z')
    ||| ('A' <= c && c <= 'Z')
}

/// A valid HTTP method: a nonempty string of token characters.
pub open spec fn is_method_token(s: Seq<char>) -> bool {
    s.len() > 0 && forall|i: int| 0 <= i < s.len() ==> is_token_char(#[trigger] s[i])
}

/// Relies on `hyper::Method::from_str` (the `http` crate's parser): it
/// accepts exactly the nonempty strings of RFC 7230 token characters. Token
/// characters are ASCII, and every byte of a non-ASCII character falls
/// outside the parser's table, so the character-level statement matches the
/// parser's byte-level check.
#[verifier::external_body]
fn method_parses(s: &str) -> (r: bool)
    ensures
        r == is_method_token(s@),
{
    hyper::Method::from_str(s).is_ok()
}

/// Relies on `rand::Rng::gen_range` over `rand::thread_rng`: a uniformly
/// random index below `n`. Nothing more is stated of a random value than
/// its range.
#[verifier::external_body]
pub(crate) fn random_below(n: usize) -> (r: usize)
    requires
        n >= 1,
    ensures
        r < n,
{
    rand::Rng::gen_range(&mut rand::thread_rng(), 0..n)
}

/// One request's shape: the method, headers and body as configured, and the
/// target and header values drawn for this request.
pub struct PreparedRequest {
    /// The request method.
    pub method: String,
    /// The chosen target.
    pub url: String,
    /// Each header's name with the value chosen for it.
    pub headers: Vec<(String, String)>,
    /// The request body.
    pub body: Vec<u8>,
}

/// What one request sends.
pub struct HttpRequest {
    /// The target list; one is chosen per request at random.
    pub url: Vec<String>,
    /// The request method.
    pub method: String,
    /// Headers, each with one or more values; one value is chosen per
    /// request at random.
    pub headers: Vec<(String, Vec<String>)>,
    /// The request body.
    pub body: Vec<u8>,
}

impl HttpRequest {
    /// A request is preparable when it has a target and every header has a
    /// value.
    pub open spec fn wf(&self) -> bool {
        &&& self.url@.len() > 0
        &&& forall|i: int| 0 <= i < self.headers@.len() ==> (#[trigger] self.headers@[i]).1@.len()
            > 0
    }

    /// Draws one concrete request: the configured method and body, a target
    /// chosen from the list, and one value for each header.
    pub fn prepare(&self) -> (r: PreparedRequest)
        requires
            self.wf(),
        ensures
            r.method@ == self.method@,
            exists|i: int| 0 <= i < self.url@.len() && r.url == self.url@[i],
            r.headers@.len() == self.headers@.len(),
            forall|i: int|
                0 <= i < r.headers@.len() ==> (#[trigger] r.headers@[i]).0 == self.headers@[i].0
                    && exists|j: int|
                    0 <= j < self.headers@[i].1@.len() && r.headers@[i].1 == self.headers@[i].1@[j],
            r.body@ == self.body@,
    {
        let url = self.url[random_below(self.url.len())].clone();
        let mut headers: Vec<(String, String)> = Vec::new();
        let mut i: usize = 0;
        while i < self.headers.len()
            invariant
                0 <= i <= self.headers@.len(),
                self.wf(),
                headers@.len() == i,
                forall|p: int|
                    0 <= p < i ==> (#[trigger] headers@[p]).0 == self.headers@[p].0 && exists|
                        j: int,
                    |
                        0 <= j < self.headers@[p].1@.len() && headers@[p].1
                            == self.headers@[p].1@[j],
            decreases self.headers@.len() - i,
        {
            let name = self.headers[i].0.clone();
            let values = &self.headers[i].1;
            let value = values[random_below(values.len())].clone();
            headers.push((name, value));
            i = i + 1;
        }
        PreparedRequest { method: self.method.clone(), url, headers, body: clone_bytes(&self.body) }
    }
}

/// An exact copy of a byte vector.
fn clone_bytes(v: &Vec<u8>) -> (r: Vec<u8>)
    ensures
        r@ == v@,
{
    let mut out: Vec<u8> = Vec::new();
    let mut i: usize = 0;
    while i < v.len()
        invariant
            0 <= i <= v@.len(),
            out@ == v@.subrange(0, i as int),
        decreases v@.len() - i,
    {
        out.push(v[i]);
        proof {
            assert(out@ =~= v@.subrange(0, i as int + 1));
        }
        i = i + 1;
    }
    proof {
        assert(v@.subrange(0, v@.len() as int) =~= v@);
    }
    out
}

/// A builder for [`HttpRequest`]; the target list is required, the method
/// defaults to `GET`, headers and body to empty.
pub struct HttpRequestBuilder {
    /// The target list, once set.
    pub url: Option<Vec<String>>,
    /// The request method, once set.
    pub method: Option<String>,
    /// The headers, once set.
    pub headers: Option<Vec<(String, Vec<String>)>>,
    /// The request body, once set.
    pub body: Option<Vec<u8>>,
}

impl HttpRequestBuilder {
    /// The target list.
    pub fn url(self, v: Vec<String>) -> (r: Self)
        ensures
            r == (HttpRequestBuilder { url: Some(v), ..self }),
    {
        HttpRequestBuilder { url: Some(v), ..self }
    }

    /// The request method.
    pub fn method(self, v: String) -> (r: Self)
        ensures
            r == (HttpRequestBuilder { method: Some(v), ..self }),
    {
        HttpRequestBuilder { method: Some(v), ..self }
    }

    /// Headers, each with its values.
    pub fn headers(self, v: Vec<(String, Vec<String>)>) -> (r: Self)
        ensures
            r == (HttpRequestBuilder { headers: Some(v), ..self }),
    {
        HttpRequestBuilder { headers: Some(v), ..self }
    }

    /// The request body.
    pub fn body(self, v: Vec<u8>) -> (r: Self)
        ensures
            r == (HttpRequestBuilder { body: Some(v), ..self }),
    {
        HttpRequestBuilder { body: Some(v), ..self }
    }

    /// The finished request: fails without a target list or with a method
    /// that is no valid HTTP token.
    pub fn build(self) -> (r: Result<HttpRequest, String>)
        ensures
            r is Ok <==> self.url is Some && (self.method matches Some(m) ==> is_method_token(
                m@,
            )),
            r matches Ok(q) ==> {
                &&& Some(q.url) == self.url
                &&& (self.method matches Some(m) ==> q.method == m)
                &&& (self.method is None ==> q.method@ == "GET"@)
                &&& (self.headers matches Some(h) ==> q.headers == h)
                &&& (self.headers is None ==> q.headers@.len() == 0)
                &&& (self.body matches Some(b) ==> q.body == b)
                &&& (self.body is None ==> q.body@.len() == 0)
            },
    {
        let url = match self.url {
            Some(u) => u,
            None => {
                return Err("`url` must be initialized".to_owned());
            },
        };
        let method = match self.method {
            Some(m) => m,
            None => "GET".to_owned(),
        };
        proof {
            reveal_strlit("GET");
        }
        if !method_parses(method.as_str()) {
            return Err("invalid method".to_owned());
        }
        let headers = match self.headers {
            Some(h) => h,
            None => Vec::new(),
        };
        let body = match self.body {
            Some(b) => b,
            None => Vec::new(),
        };
        Ok(HttpRequest { url, method, headers, body })
    }
}

impl Default for HttpRequestBuilder {
    /// Nothing set yet.
    fn default() -> (r: Self)
        ensures
            r.url is None && r.method is None && r.headers is None && r.body is None,
    {
        HttpRequestBuilder { url: None, method: None, headers: None, body: None }
    }
}

/// The HTTP protocol adapter: client options and the request to send.
pub struct HttpBenchAdapter {
    /// The client options.
    pub config: HttpClientConfig,
    /// The request to send.
    pub request: HttpRequest,
}

/// A builder for [`HttpBenchAdapter`]; both parts are required.
pub struct HttpBenchAdapterBuilder {
    /// The client options, once set.
    pub config: Option<HttpClientConfig>,
    /// The request, once set.
    pub request: Option<HttpRequest>,
}

impl HttpBenchAdapterBuilder {
    /// The client options.
    pub fn config(self, v: HttpClientConfig) -> (r: Self)
        ensures
            r == (HttpBenchAdapterBuilder { config: Some(v), ..self }),
    {
        HttpBenchAdapterBuilder { config: Some(v), ..self }
    }

    /// The request to send.
    pub fn request(self, v: HttpRequest) -> (r: Self)
        ensures
            r == (HttpBenchAdapterBuilder { request: Some(v), ..self }),
    {
        HttpBenchAdapterBuilder { request: Some(v), ..self }
    }

    /// The finished adapter: fails if a part is missing.
    pub fn build(self) -> (r: Result<HttpBenchAdapter, String>)
        ensures
            r is Ok <==> self.config is Some && self.request is Some,
            r matches Ok(a) ==> Some(a.config) == self.config && Some(a.request) == self.request,
    {
        match (self.config, self.request) {
            (Some(config), Some(request)) => Ok(HttpBenchAdapter { config, request }),
            _ => Err("`config` and `request` must be initialized".to_owned()),
        }
    }
}

impl Default for HttpBenchAdapterBuilder {
    /// Nothing set yet.
    fn default() -> (r: Self)
        ensures
            r.config is None && r.request is None,
    {
        HttpBenchAdapterBuilder { config: None, request: None }
    }
}

/// Classifies a response code: a success is a code in the 2xx range, and a
/// fatal outcome is a code in the configured stop set.
pub fn classify_status(code: u16, stop_on_errors: &Vec<u16>) -> (r: (bool, bool))
    ensures
        r.0 <==> 200 <= code < 300,
        r.1 <==> stop_on_errors@.contains(code),
{
    let is_success = 200 <= code && code < 300;
    let mut fatal = false;
    let mut i: usize = 0;
    while i < stop_on_errors.len()
        invariant
            0 <= i <= stop_on_errors@.len(),
            fatal <==> exists|j: int| 0 <= j < i && stop_on_errors@[j] == code,
        decreases stop_on_errors@.len() - i,
    {
        if stop_on_errors[i] == code {
            fatal = true;
        }
        i = i + 1;
    }
    (is_success, fatal)
}

} // verus!
