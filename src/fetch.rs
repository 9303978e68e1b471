//! What a file fetch sends: the cookies of the directory's session, bound to
//! the file's domain, the headers of an ordinary browser request, and the
//! rule by which a response status counts as success.
use vstd::prelude::*;
use crate::crawl::views;

verus! {

/// Why a fetch was not attempted or did not succeed.
#[derive(Clone, Copy, Debug, PartialEq, Eq, Structural)]
pub enum FetchError {
    /// The file URL does not parse, or its host is not a domain name.
    NoDomain,
    /// The server answered with this status, which is not a success.
    HttpStatus(u16),
}

/// The domain of a URL, as the url crate parses it; none where the text does
/// not parse as a URL or its host is not a domain name.
pub uninterp spec fn url_domain(s: Seq<char>) -> Option<Seq<char>>;

/// Relies on url's `Url::parse` and `Url::domain`: the domain of the parsed
/// URL, or none where parsing fails or the host is no domain.
#[verifier::external_body]
fn domain_of(url: &str) -> (r: Option<String>)
    ensures
        r is None <==> url_domain(url@) is None,
        r is Some ==> url_domain(url@) == Some(r->0@),
{
    match url::Url::parse(url) {
        Ok(parsed) => match parsed.domain() {
            Some(d) => Some(d.to_string()),
            None => None,
        },
        Err(_) => None,
    }
}

/// The cookie assignment for a cookie store: `<name>=<value>; Domain=<domain>`.
pub open spec fn cookie_line(name: Seq<char>, value: Seq<char>, domain: Seq<char>) -> Seq<char> {
    name + "="@ + value + "; Domain="@ + domain
}

/// The cookie assignments of all the pairs, in order, for one domain.
pub open spec fn cookie_lines_of(cookies: Seq<(String, String)>, domain: Seq<char>) -> Seq<
    Seq<char>,
> {
    cookies.map_values(|c: (String, String)| cookie_line(c.0@, c.1@, domain))
}

/// The cookie assignments for the pairs of a session, bound to `domain`.
pub fn cookie_lines_for_domain(cookies: &Vec<(String, String)>, domain: &str) -> (r: Vec<String>)
    ensures
        views(r@) == cookie_lines_of(cookies@, domain@),
{
    let mut out: Vec<String> = Vec::new();
    let mut i: usize = 0;
    while i < cookies.len()
        invariant
            i <= cookies.len(),
            out@.len() == i,
            views(out@) == cookie_lines_of(cookies@.take(i as int), domain@),
        decreases cookies.len() - i,
    {
        let mut line = cookies[i].0.clone();
        line.append("=");
        line.append(cookies[i].1.as_str());
        line.append("; Domain=");
        line.append(domain);
        assert(line@ =~= cookie_line(cookies@[i as int].0@, cookies@[i as int].1@, domain@));
        let ghost before = out@;
        out.push(line);
        i = i + 1;
        assert forall|j: int| 0 <= j < i - 1 implies #[trigger] views(out@)[j]
            == cookie_lines_of(cookies@.take(i as int), domain@)[j] by {
            assert(views(out@)[j] == views(before)[j]);
            assert(views(before)[j] == cookie_lines_of(cookies@.take(i - 1), domain@)[j]);
        }
        assert(views(out@) =~= cookie_lines_of(cookies@.take(i as int), domain@));
    }
    assert(cookies@.take(i as int) =~= cookies@);
    out
}

/// The cookie assignments for the pairs of a session, bound to the domain of
/// `file_url`; an error where the URL has no domain.
pub fn cookie_lines(cookies: &Vec<(String, String)>, file_url: &str) -> (r: Result<
    Vec<String>,
    FetchError,
>)
    ensures
        url_domain(file_url@) is None ==> r == Err::<Vec<String>, FetchError>(FetchError::NoDomain),
        url_domain(file_url@) is Some ==> (r matches Ok(v) && views(v@) == cookie_lines_of(
            cookies@,
            url_domain(file_url@)->0,
        )),
{
    match domain_of(file_url) {
        Some(d) => Ok(cookie_lines_for_domain(cookies, d.as_str())),
        None => Err(FetchError::NoDomain),
    }
}

/// The headers of a file request, as (name, value) pairs.
pub open spec fn headers_of(file_url: Seq<char>) -> Seq<(Seq<char>, Seq<char>)> {
    seq![
        ("user-agent"@, "Mozilla/5.0 (Windows NT 10.0; Win64; x64) AppleWebKit/537.36 (KHTML, like Gecko) Chrome/92.0.4515.159 Safari/537.36"@),
        ("accept-language"@, "en-US,en;q=0.9"@),
        ("accept-encoding"@, "gzip, deflate, br"@),
        ("connection"@, "keep-alive"@),
        ("referer"@, file_url),
        ("accept"@, "text/html,application/xhtml+xml,application/xml;q=0.9,image/webp,*/*;q=0.8"@),
    ]
}

/// The views of a sequence of pairs of strings.
pub open spec fn pair_views(v: Seq<(String, String)>) -> Seq<(Seq<char>, Seq<char>)> {
    v.map_values(|p: (String, String)| (p.0@, p.1@))
}

fn header(name: &str, value: &str) -> (r: (String, String))
    ensures
        r.0@ == name@,
        r.1@ == value@,
{
    (String::from_str(name), String::from_str(value))
}

/// The headers that make a file request look like one from a browser, with
/// the file's own URL as the referrer.
pub fn request_headers(file_url: &str) -> (r: Vec<(String, String)>)
    ensures
        pair_views(r@) == headers_of(file_url@),
{
    let mut out: Vec<(String, String)> = Vec::new();
    out.push(header("user-agent", "Mozilla/5.0 (Windows NT 10.0; Win64; x64) AppleWebKit/537.36 (KHTML, like Gecko) Chrome/92.0.4515.159 Safari/537.36"));
    out.push(header("accept-language", "en-US,en;q=0.9"));
    out.push(header("accept-encoding", "gzip, deflate, br"));
    out.push(header("connection", "keep-alive"));
    out.push(header("referer", file_url));
    out.push(header("accept", "text/html,application/xhtml+xml,application/xml;q=0.9,image/webp,*/*;q=0.8"));
    assert(pair_views(out@) =~= headers_of(file_url@));
    out
}

/// Success for a status in 200..=299; otherwise an error carrying the status.
pub fn check_status(status: u16) -> (r: Result<(), FetchError>)
    ensures
        r is Ok <==> 200 <= status <= 299,
        r is Err ==> r == Err::<(), FetchError>(FetchError::HttpStatus(status)),
{
    if 200 <= status && status <= 299 {
        Ok(())
    } else {
        Err(FetchError::HttpStatus(status))
    }
}

} // verus!
