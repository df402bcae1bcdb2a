//! The static side of the console: the index page with its base path, the
//! assets with their content types, and the page shown where no frontend is
//! embedded. Each function says what to answer; sending it is the caller's
//! part.

use vstd::prelude::*;
use std::sync::Arc;
use crate::text::{contains_slice, join_pair, occurs_at, str_split_once};

verus! {

/// What `mime_guess` makes of a path: the first media type that it lists for
/// the path's extension, or `application/octet-stream` where it lists none.
pub uninterp spec fn guessed_mime(path: Seq<char>) -> Seq<char>;

/// `mime_guess::from_path` followed by `first_or_octet_stream`, as text. The
/// guess is read from a table by the path's extension alone; no file is
/// touched.
#[verifier::external_body]
fn guess_mime(path: &str) -> (mime: String)
    ensures
        mime@ == guessed_mime(path@),
{
    mime_guess::from_path(path).first_or_octet_stream().to_string()
}

/// What the frontend handlers know: the path under which the console is
/// mounted.
#[derive(Debug)]
pub struct FrontendState {
    pub base_path: Arc<String>,
}

impl Clone for FrontendState {
    fn clone(&self) -> (state: FrontendState)
        ensures
            state.base_path@ == self.base_path@,
    {
        FrontendState { base_path: self.base_path.clone() }
    }
}

/// The body of an answer.
#[derive(Debug)]
pub enum Body {
    Text(String),
    Bytes(Vec<u8>),
}

/// A body as plain values.
pub enum BodyView {
    Text(Seq<char>),
    Bytes(Seq<u8>),
}

impl View for Body {
    type V = BodyView;

    open spec fn view(&self) -> BodyView {
        match *self {
            Body::Text(t) => BodyView::Text(t@),
            Body::Bytes(b) => BodyView::Bytes(b@),
        }
    }
}

/// An answer to a request for a page or an asset.
#[derive(Debug)]
pub struct StaticResponse {
    pub status: u16,
    pub content_type: Option<String>,
    pub cache_control: Option<String>,
    pub body: Body,
}

/// An answer as plain values.
pub struct StaticResponseView {
    pub status: u16,
    pub content_type: Option<Seq<char>>,
    pub cache_control: Option<Seq<char>>,
    pub body: BodyView,
}

impl View for StaticResponse {
    type V = StaticResponseView;

    open spec fn view(&self) -> StaticResponseView {
        StaticResponseView {
            status: self.status,
            content_type: crate::event::opt_text(self.content_type),
            cache_control: crate::event::opt_text(self.cache_control),
            body: self.body@,
        }
    }
}

/// `needle` occurs in `hay` at `i` and nowhere before.
pub open spec fn is_first_occurrence(hay: Seq<char>, needle: Seq<char>, i: int) -> bool {
    &&& occurs_at(hay, needle, i)
    &&& forall|j: int| 0 <= j < i ==> !occurs_at(hay, needle, j)
}

/// `hay` with `addition` put in right after the first occurrence of
/// `needle`; `hay` itself where `needle` does not occur.
pub open spec fn inserted_after_first(
    hay: Seq<char>,
    needle: Seq<char>,
    addition: Seq<char>,
) -> Seq<char> {
    if contains_slice(hay, needle) {
        let i = choose|i: int| is_first_occurrence(hay, needle, i);
        hay.subrange(0, i + needle.len()) + addition + hay.subrange(
            i + needle.len(),
            hay.len() as int,
        )
    } else {
        hay
    }
}

/// The element that makes relative URLs of the page resolve under `base`.
pub open spec fn base_tag(base: Seq<char>) -> Seq<char> {
    "\n    <base href=\""@ + base + "/\">"@
}

/// The index page as it is served under `base`: the base element follows the
/// opening `<head>` tag; a page without that tag is served as it is.
pub open spec fn page_under(html: Seq<char>, base: Seq<char>) -> Seq<char> {
    inserted_after_first(html, "<head>"@, base_tag(base))
}

/// The path of an asset inside the embedded frontend.
pub open spec fn asset_path_of(path: Seq<char>) -> Seq<char> {
    "assets/"@ + path
}

/// The page shown where no frontend is embedded. It names the API endpoints.
pub const PLACEHOLDER_PAGE: &'static str = "<!DOCTYPE html>
<html lang=\"en\">
<head>
    <meta charset=\"UTF-8\">
    <title>Tracing console</title>
</head>
<body>
    <h1>Tracing console</h1>
    <p>No frontend is embedded in this build.</p>
    <h2>API endpoints</h2>
    <ul>
        <li>POST api/logs - query the recent events</li>
        <li>GET api/ws - WebSocket with the live events</li>
        <li>GET api/targets - the known targets</li>
    </ul>
</body>
</html>
";

/// Puts the base element for `base_path` into the index page.
pub fn inject_base_href(html: &str, base_path: &str) -> (page: String)
    ensures
        page@ == page_under(html@, base_path@),
{
    match str_split_once(html, "<head>") {
        Some((before, after)) => {
            let tag = join_pair(join_pair("\n    <base href=\"", base_path).as_str(), "/\">");
            let head = join_pair(before, "<head>");
            let page = join_pair(join_pair(head.as_str(), tag.as_str()).as_str(), after);
            proof {
                let hay = html@;
                let needle = "<head>"@;
                let at = before@.len() as int;
                assert(hay.subrange(at, at + needle.len()) =~= needle);
                assert(is_first_occurrence(hay, needle, at));
                let first = choose|i: int| is_first_occurrence(hay, needle, i);
                assert(first == at);
                assert(hay.subrange(0, at + needle.len()) =~= before@ + needle);
                assert(hay.subrange(at + needle.len(), hay.len() as int) =~= after@);
            }
            page
        },
        None => html.to_owned(),
    }
}

/// The path under which an asset is looked up in the embedded frontend.
pub fn asset_path(path: &str) -> (full: String)
    ensures
        full@ == asset_path_of(path@),
{
    join_pair("assets/", path)
}

/// The answer for the index page. `index_html` is the embedded page, absent
/// where no frontend is embedded: then the placeholder is served.
pub fn serve_index(state: &FrontendState, index_html: Option<&str>) -> (response: StaticResponse)
    ensures
        response@ == match index_html {
            Some(html) => StaticResponseView {
                status: 200,
                content_type: Some("text/html; charset=utf-8"@),
                cache_control: Some("public, max-age=3600"@),
                body: BodyView::Text(page_under(html@, state.base_path@)),
            },
            None => placeholder_view(),
        },
{
    match index_html {
        Some(html) => StaticResponse {
            status: 200,
            content_type: Some("text/html; charset=utf-8".to_owned()),
            cache_control: Some("public, max-age=3600".to_owned()),
            body: Body::Text(inject_base_href(html, state.base_path.as_str())),
        },
        None => serve_placeholder(),
    }
}

/// The answer for an asset with a known media type.
pub fn asset_response(content_type: String, contents: Vec<u8>) -> (response: StaticResponse)
    ensures
        response@ == (StaticResponseView {
            status: 200,
            content_type: Some(content_type@),
            cache_control: Some("public, max-age=31536000, immutable"@),
            body: BodyView::Bytes(contents@),
        }),
{
    StaticResponse {
        status: 200,
        content_type: Some(content_type),
        cache_control: Some("public, max-age=31536000, immutable".to_owned()),
        body: Body::Bytes(contents),
    }
}

/// The answer for the asset at `asset_path`. `contents` are its embedded
/// bytes, absent where the frontend has no such file: then the answer is 404.
pub fn serve_static(asset_path: &str, contents: Option<Vec<u8>>) -> (response: StaticResponse)
    ensures
        response@ == match contents {
            Some(bytes) => StaticResponseView {
                status: 200,
                content_type: Some(guessed_mime(asset_path@)),
                cache_control: Some("public, max-age=31536000, immutable"@),
                body: BodyView::Bytes(bytes@),
            },
            None => StaticResponseView {
                status: 404,
                content_type: None,
                cache_control: None,
                body: BodyView::Text("Asset not found: "@ + asset_path@),
            },
        },
{
    match contents {
        Some(bytes) => asset_response(guess_mime(asset_path), bytes),
        None => StaticResponse {
            status: 404,
            content_type: None,
            cache_control: None,
            body: Body::Text(join_pair("Asset not found: ", asset_path)),
        },
    }
}

/// The placeholder answer as plain values.
pub open spec fn placeholder_view() -> StaticResponseView {
    StaticResponseView {
        status: 200,
        content_type: Some("text/html; charset=utf-8"@),
        cache_control: None,
        body: BodyView::Text(PLACEHOLDER_PAGE@),
    }
}

/// The answer where no frontend is embedded.
pub fn serve_placeholder() -> (response: StaticResponse)
    ensures
        response@ == placeholder_view(),
{
    StaticResponse {
        status: 200,
        content_type: Some("text/html; charset=utf-8".to_owned()),
        cache_control: None,
        body: Body::Text(PLACEHOLDER_PAGE.to_owned()),
    }
}

} // verus!
