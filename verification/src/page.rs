//! The record that a session hands out for each document it has fetched.

use crate::headers::header_entries;
use crate::headers::header_map_to_hash_map;
use crate::headers::readable_headers;
use crate::headers::HeaderTable;
use spider::packages::scraper::Html;
use spider::packages::scraper::Selector;
use spider::reqwest::header::HeaderMap;
use vstd::prelude::*;

verus! {

/// The text that `String::from_utf8_lossy` makes of bytes: what they spell
/// in UTF-8, with U+FFFD in place of each stretch that spells nothing.
pub uninterp spec fn utf8_lossy(bytes: Seq<u8>) -> Seq<char>;

/// Whether `Html::select` yields any element for `document` and the CSS
/// selector `selector`: the document as `Html::parse_document` reads it,
/// the selector as `Selector::parse` reads it. It yields none where the
/// text is no selector.
pub uninterp spec fn selects_any(document: Seq<char>, selector: Seq<char>) -> bool;

/// Whether a document has a `title` element.
pub open spec fn has_title(content: Seq<char>) -> bool {
    selects_any(content, "title"@)
}

/// `String::from_utf8_lossy`, made into an owned string. Of bytes that are
/// UTF-8 throughout it gives the text that they spell.
#[verifier::external_body]
fn decode_lossy(bytes: &[u8]) -> (text: String)
    ensures
        text@ == utf8_lossy(bytes@),
        vstd::utf8::valid_utf8(bytes@) ==> text@ == vstd::utf8::decode_utf8(bytes@),
{
    String::from_utf8_lossy(bytes).into_owned()
}

/// `Selector::parse`, `Html::parse_document` and `Html::select`, and
/// `ElementRef::inner_html` on the first element that the selection yields.
/// There is a result where the selection yields an element. What the inner
/// HTML reads is left open: attributes are written in the order of a hash
/// table, which is not the same in every build.
#[verifier::external_body]
fn select_first_inner_html(document: &str, selector: &str) -> (html: Option<String>)
    ensures
        html is Some <==> selects_any(document@, selector@),
{
    match Selector::parse(selector) {
        Ok(parsed) => Html::parse_document(document).select(&parsed).next().map(
            |element| element.inner_html(),
        ),
        Err(_) => None,
    }
}

/// A fetched document as the crawl engine reports it.
pub struct FetchedPage {
    /// The url that was fetched.
    pub url: String,
    /// The HTTP status code of the response.
    pub status_code: u16,
    /// The bytes of the body; empty where the response had none.
    pub html: Vec<u8>,
    /// The headers of the response, where the engine kept them.
    pub headers: Option<HeaderMap>,
}

/// A snapshot of one fetched document.
#[derive(Clone)]
pub struct NPage {
    /// The url found.
    pub url: String,
    /// The body as text. Empty in a session that hands out raw content.
    pub content: String,
    /// The HTTP status code.
    pub status_code: u16,
    /// The body as bytes. Present only in a session that hands out raw content.
    pub raw_content: Option<Vec<u8>>,
    /// The headers of the response.
    pub headers: Option<HeaderTable>,
}

/// What is found in a document is its title, or nothing.
pub fn title_from(found: Option<String>) -> (title: String)
    ensures
        title@ == match found {
            Some(html) => html@,
            None => Seq::<char>::empty(),
        },
{
    match found {
        Some(html) => html,
        None => String::new(),
    }
}

impl NPage {
    /// This record is the snapshot of `res`, taken raw or as text.
    pub open spec fn is_snapshot_of(&self, res: FetchedPage, raw: bool) -> bool {
        &&& self.url@ == res.url@
        &&& self.status_code == res.status_code
        &&& self.content@ == if raw {
            Seq::<char>::empty()
        } else {
            utf8_lossy(res.html@)
        }
        &&& match self.raw_content {
            Some(bytes) => raw && bytes@ == res.html@,
            None => !raw,
        }
        &&& match self.headers {
            Some(table) => res.headers is Some && table.wf() && table@ == readable_headers(
                header_entries(res.headers->0),
            ),
            None => res.headers is None,
        }
    }

    /// The snapshot of a fetched document. With `raw` the body is handed on
    /// as bytes and the text stays empty; without it the body is handed on
    /// as text and there are no bytes.
    pub fn new(res: &FetchedPage, raw: bool) -> (page: NPage)
        ensures
            page.is_snapshot_of(*res, raw),
    {
        let content = if raw {
            String::new()
        } else {
            decode_lossy(res.html.as_slice())
        };
        let raw_content = if raw {
            Some(res.html.clone())
        } else {
            None
        };
        let headers = match &res.headers {
            Some(map) => Some(header_map_to_hash_map(map)),
            None => None,
        };
        NPage { url: res.url.clone(), content, status_code: res.status_code, raw_content, headers }
    }

    /// The title of the page: the inner HTML of the first `title` element
    /// that is found in its text, and the empty title where there is none.
    pub fn title(&self) -> (title: String)
        ensures
            !has_title(self.content@) ==> title@ == Seq::<char>::empty(),
    {
        title_from(select_first_inner_html(self.content.as_str(), "title"))
    }
}

impl Default for NPage {
    /// The record of nothing: no url, no body, status 0.
    fn default() -> (page: NPage)
        ensures
            page.url@ == Seq::<char>::empty(),
            page.content@ == Seq::<char>::empty(),
            page.status_code == 0,
            page.raw_content is None,
            page.headers is None,
    {
        NPage {
            url: String::new(),
            content: String::new(),
            status_code: 0,
            raw_content: None,
            headers: None,
        }
    }
}

/// The title of a page: see [`NPage::title`].
pub fn page_title(page: NPage) -> (title: String)
    ensures
        !has_title(page.content@) ==> title@ == Seq::<char>::empty(),
{
    page.title()
}

/// Whether the body goes out raw decides alone which of text and bytes a
/// record carries: raw, the text is empty and the bytes are those of the
/// body; else there are no bytes and the text is what the body spells.
pub proof fn lemma_snapshot_is_raw_or_text(page: NPage, res: FetchedPage, raw: bool)
    requires
        page.is_snapshot_of(res, raw),
    ensures
        raw ==> page.content@.len() == 0 && page.raw_content is Some && page.raw_content->0@
            == res.html@,
        !raw ==> page.raw_content is None && page.content@ == utf8_lossy(res.html@),
{
}

} // verus!
