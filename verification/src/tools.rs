//! The built-in tools: their names and descriptions, and the decisions of
//! the web search and website tools (how many results, the request URL,
//! which results are kept, how a page is rendered).

use vstd::prelude::*;
use crate::text::{chars_of, push_str, str_eq, string_from_chars, trim_space, trim_space_chars};

verus! {

/// The calculator tool.
pub struct MathTool;

/// The DuckDuckGo web search tool.
pub struct DDGSearchTool;

/// The website fetching tool.
pub struct WebsiteTool;

impl MathTool {
    /// The tool's name.
    pub fn name(&self) -> (s: &'static str)
        ensures
            s@ == "calculator"@,
    {
        "calculator"
    }

    /// The tool's description.
    pub fn description(&self) -> (s: &'static str)
        ensures
            s@ == "Evaluates mathematical expressions"@,
    {
        "Evaluates mathematical expressions"
    }

    /// The JSON schema of the tool's parameters, as JSON text.
    pub fn schema(&self) -> (s: &'static str)
        ensures
            s@ == r#"{"type":"object","properties":{"expression":{"type":"string","description":"The mathematical expression to evaluate"}},"required":["expression"]}"#@,
    {
        r#"{"type":"object","properties":{"expression":{"type":"string","description":"The mathematical expression to evaluate"}},"required":["expression"]}"#
    }
}

/// The description of the search tool.
pub open spec fn search_description() -> Seq<char> {
    r#"Searches the web using DuckDuckGo. Use this tool liberally to find information you aren't certain about.
Important search operators:
cats dogs	results about cats or dogs
"cats and dogs"	exact term (avoid unless necessary)
~"cats and dogs"	semantically similar terms
cats -dogs	reduce results about dogs
cats +dogs	increase results about dogs
cats filetype:pdf	search pdfs about cats (supports doc(x), xls(x), ppt(x), html)
dogs site:example.com	search dogs on example.com
cats -site:example.com	exclude example.com from results
intitle:dogs	title contains "dogs"
inurl:cats	URL contains "cats""#@
}

/// The description of the website tool.
pub open spec fn website_description() -> Seq<char> {
    r#"Fetches a website.
Parameters:
- `website`: The URL of the website to fetch.
- `render`: Which format to render the content in. Options are "html" or "md" (default is "md").

Note: The website must start with http:// or https://. If not, https:// will be prepended automatically.
"#@
}

impl DDGSearchTool {
    /// The tool's name.
    pub fn name(&self) -> (s: &'static str)
        ensures
            s@ == "search"@,
    {
        "search"
    }

    /// The tool's description, with the search operators it supports.
    pub fn description(&self) -> (s: &'static str)
        ensures
            s@ == search_description(),
    {
        r#"Searches the web using DuckDuckGo. Use this tool liberally to find information you aren't certain about.
Important search operators:
cats dogs	results about cats or dogs
"cats and dogs"	exact term (avoid unless necessary)
~"cats and dogs"	semantically similar terms
cats -dogs	reduce results about dogs
cats +dogs	increase results about dogs
cats filetype:pdf	search pdfs about cats (supports doc(x), xls(x), ppt(x), html)
dogs site:example.com	search dogs on example.com
cats -site:example.com	exclude example.com from results
intitle:dogs	title contains "dogs"
inurl:cats	URL contains "cats""#
    }

    /// The JSON schema of the tool's parameters, as JSON text.
    pub fn schema(&self) -> (s: &'static str)
        ensures
            s@ == r#"{"type":"object","properties":{"query":{"type":"string","description":"The search query"},"num_results":{"type":"integer","description":"Number of results to return (default: 3, max: 10)"}},"required":["query"]}"#@,
    {
        r#"{"type":"object","properties":{"query":{"type":"string","description":"The search query"},"num_results":{"type":"integer","description":"Number of results to return (default: 3, max: 10)"}},"required":["query"]}"#
    }
}

impl WebsiteTool {
    /// The tool's name.
    pub fn name(&self) -> (s: &'static str)
        ensures
            s@ == "website"@,
    {
        "website"
    }

    /// The tool's description.
    pub fn description(&self) -> (s: &'static str)
        ensures
            s@ == website_description(),
    {
        r#"Fetches a website.
Parameters:
- `website`: The URL of the website to fetch.
- `render`: Which format to render the content in. Options are "html" or "md" (default is "md").

Note: The website must start with http:// or https://. If not, https:// will be prepended automatically.
"#
    }

    /// The JSON schema of the tool's parameters, as JSON text.
    pub fn schema(&self) -> (s: &'static str)
        ensures
            s@ == r#"{"type":"object","properties":{"website":{"type":"string","description":"The URL of the website to fetch"},"render":{"type":"string","description":"Format to render the content: 'html' or 'md' (default: 'md')"}},"required":["website"]}"#@,
    {
        r#"{"type":"object","properties":{"website":{"type":"string","description":"The URL of the website to fetch"},"render":{"type":"string","description":"Format to render the content: 'html' or 'md' (default: 'md')"}},"required":["website"]}"#
    }
}

/// The number of search results returned: 3 when not given, kept within 1
/// to 10.
pub open spec fn search_result_limit(num_results: Option<usize>) -> usize {
    let n = match num_results {
        Some(n) => n,
        None => 3,
    };
    if n < 1 {
        1
    } else if n > 10 {
        10
    } else {
        n
    }
}

/// The number of search results to return.
pub fn search_result_count(num_results: Option<usize>) -> (n: usize)
    ensures
        n == search_result_limit(num_results),
        1 <= n <= 10,
{
    let n = match num_results {
        Some(n) => n,
        None => 3,
    };
    if n < 1 {
        1
    } else if n > 10 {
        10
    } else {
        n
    }
}

/// The URL of the search page for a query (the query as given).
pub open spec fn search_url_text(query: Seq<char>) -> Seq<char> {
    "https://html.duckduckgo.com/html/?q="@ + query
}

/// Builds the URL of the search page for a query.
pub fn search_url(query: &str) -> (u: String)
    ensures
        u@ == search_url_text(query@),
{
    let mut out: Vec<char> = Vec::new();
    push_str(&mut out, "https://html.duckduckgo.com/html/?q=");
    push_str(&mut out, query);
    string_from_chars(out.as_slice())
}

/// A search result read from the result page.
#[derive(Debug)]
pub struct SearchHit {
    pub title: String,
    pub link: String,
    pub snippet: String,
}

/// The positions of the results kept among the first `n`: those with both a
/// title and a link.
pub open spec fn usable_hits(hits: Seq<SearchHit>, n: nat) -> Seq<nat>
    decreases n,
{
    if n == 0 {
        Seq::empty()
    } else {
        usable_hits(hits, (n - 1) as nat) + if hits[n - 1].title@.len() > 0 && hits[n - 1].link@.len() > 0 {
            seq![(n - 1) as nat]
        } else {
            Seq::empty()
        }
    }
}

/// Two hits with the same text.
pub open spec fn same_hit(a: SearchHit, b: SearchHit) -> bool {
    a.title@ == b.title@ && a.link@ == b.link@ && a.snippet@ == b.snippet@
}

/// The results returned: those with both a title and a link, in page
/// order, at most `limit` of them.
pub fn select_search_hits(hits: &[SearchHit], limit: usize) -> (r: Vec<SearchHit>)
    ensures
        r@.len() == if usable_hits(hits@, hits@.len()).len() < limit {
            usable_hits(hits@, hits@.len()).len()
        } else {
            limit as nat
        },
        forall|k: int| 0 <= k < r@.len() ==> same_hit(#[trigger] r@[k], hits@[usable_hits(hits@, hits@.len())[k] as int]),
{
    let ghost orig = hits@;
    let mut r: Vec<SearchHit> = Vec::new();
    let mut i: usize = 0;
    let n = hits.len();
    proof {
        lemma_usable_prefix(orig, orig.len());
    }
    while i < n && r.len() < limit
        invariant
            n == orig.len(),
            orig == hits@,
            i <= n,
            r@.len() == usable_hits(orig, i as nat).len(),
            r@.len() <= limit,
            forall|k: int| 0 <= k < r@.len() ==> same_hit(#[trigger] r@[k], orig[usable_hits(orig, i as nat)[k] as int]),
            forall|m: nat| m <= n ==> (#[trigger] usable_hits(orig, m)).len() <= m,
            forall|m: nat, k: int| m <= n && 0 <= k < usable_hits(orig, m).len() ==> usable_hits(orig, n as nat)[k]
                == #[trigger] usable_hits(orig, m)[k],
            forall|m: nat, mm: nat| #![trigger usable_hits(orig, m), usable_hits(orig, mm)] m <= mm <= n ==> usable_hits(orig, m).len() <= usable_hits(orig, mm).len(),
        decreases n - i,
    {
        let keep = hits[i].title.as_str().unicode_len() > 0 && hits[i].link.as_str().unicode_len() > 0;
        if keep {
            r.push(SearchHit {
                title: hits[i].title.clone(),
                link: hits[i].link.clone(),
                snippet: hits[i].snippet.clone(),
            });
        }
        i = i + 1;
    }
    proof {
        if r@.len() < limit {
            assert(i == n);
        } else {
            assert(usable_hits(orig, i as nat).len() <= usable_hits(orig, n as nat).len());
        }
        assert forall|k: int| 0 <= k < r@.len() implies same_hit(#[trigger] r@[k], hits@[usable_hits(hits@, hits@.len())[k] as int]) by {
            assert(usable_hits(orig, n as nat)[k] == usable_hits(orig, i as nat)[k]);
        }
    }
    r
}

proof fn lemma_usable_prefix(hits: Seq<SearchHit>, n: nat)
    ensures
        forall|m: nat| m <= n ==> (#[trigger] usable_hits(hits, m)).len() <= m,
        forall|m: nat, k: int| m <= n && 0 <= k < usable_hits(hits, m).len() ==> usable_hits(hits, n)[k]
            == #[trigger] usable_hits(hits, m)[k],
        forall|m: nat, mm: nat| #![trigger usable_hits(hits, m), usable_hits(hits, mm)] m <= mm <= n ==> usable_hits(hits, m).len() <= usable_hits(hits, mm).len(),
    decreases n,
{
    if n > 0 {
        lemma_usable_prefix(hits, (n - 1) as nat);
        let p = usable_hits(hits, (n - 1) as nat);
        let q = usable_hits(hits, n);
        assert(q.len() >= p.len() && q.len() <= p.len() + 1);
        assert forall|k: int| 0 <= k < p.len() implies q[k] == p[k] by {}
        assert forall|m: nat, k: int| m <= n && 0 <= k < usable_hits(hits, m).len() implies q[k]
            == #[trigger] usable_hits(hits, m)[k] by {
            if m < n {
                assert(p[k] == usable_hits(hits, m)[k]);
            }
        }
    }
}

/// How a fetched page is returned.
#[derive(Debug, Clone, Copy, PartialEq, Eq, Structural)]
pub enum RenderMode {
    /// The page as fetched.
    Html,
    /// The page converted to Markdown.
    Markdown,
}

/// Chooses how a fetched page is returned: `md` when not given, `html` or
/// `md` when given, anything else refused.
pub fn render_mode(render: Option<&str>) -> (r: Result<RenderMode, String>)
    ensures
        match render {
            None => r == Ok::<RenderMode, String>(RenderMode::Markdown),
            Some(s) => if s@ == "html"@ {
                r == Ok::<RenderMode, String>(RenderMode::Html)
            } else if s@ == "md"@ {
                r == Ok::<RenderMode, String>(RenderMode::Markdown)
            } else {
                r is Err && r->Err_0@ == "Invalid 'render' parameter, must be 'html' or 'md'"@
            },
        },
{
    match render {
        None => Ok(RenderMode::Markdown),
        Some(s) => {
            if str_eq(s, "html") {
                Ok(RenderMode::Html)
            } else if str_eq(s, "md") {
                Ok(RenderMode::Markdown)
            } else {
                Err("Invalid 'render' parameter, must be 'html' or 'md'".to_string())
            }
        },
    }
}

/// The entries of a DuckDuckGo result page, as scraper reads them: for
/// each `.web-result` element, the text of its first `.result__a`,
/// `.result__url` and `.result__snippet` elements (empty where there is
/// none), in page order.
pub uninterp spec fn ddg_page_hits(body: Seq<char>) -> Seq<(Seq<char>, Seq<char>, Seq<char>)>;

/// The texts of a list of hits.
pub open spec fn hits_text(h: Seq<SearchHit>) -> Seq<(Seq<char>, Seq<char>, Seq<char>)> {
    Seq::new(h.len(), |i: int| (h[i].title@, h[i].link@, h[i].snippet@))
}

/// Reads the result entries of a search page with `scraper`
/// (`Html::parse_document`, `Selector::parse`, `select`, `text`). The
/// claim is that the entries are `ddg_page_hits` of the page; the selectors
/// are fixed and valid, so parsing them does not fail.
#[verifier::external_body]
fn page_hits(body: &str) -> (h: Vec<SearchHit>)
    ensures
        hits_text(h@) == ddg_page_hits(body@),
{
    let doc = scraper::Html::parse_document(body);
    let sel = |s: &str| scraper::Selector::parse(s).unwrap();
    let (item, title, link, snippet) = (sel(".web-result"), sel(".result__a"), sel(".result__url"), sel(".result__snippet"));
    let first = |e: scraper::ElementRef, s: &scraper::Selector| {
        e.select(s).next().map(|x| x.text().collect::<String>()).unwrap_or_default()
    };
    doc.select(&item).map(|e| SearchHit { title: first(e, &title), link: first(e, &link), snippet: first(e, &snippet) }).collect()
}

/// The entries of a page with their links trimmed of white space.
pub open spec fn trimmed_links(h: Seq<(Seq<char>, Seq<char>, Seq<char>)>) -> Seq<(Seq<char>, Seq<char>, Seq<char>)> {
    h.map_values(|e: (Seq<char>, Seq<char>, Seq<char>)| (e.0, trim_space(e.1), e.2))
}

/// The entries among the first `n` with both a title and a link, in order.
pub open spec fn kept_hits(h: Seq<(Seq<char>, Seq<char>, Seq<char>)>, n: nat) -> Seq<(Seq<char>, Seq<char>, Seq<char>)>
    decreases n,
{
    if n == 0 {
        Seq::empty()
    } else {
        kept_hits(h, (n - 1) as nat) + if h[n - 1].0.len() > 0 && h[n - 1].1.len() > 0 {
            seq![h[n - 1]]
        } else {
            Seq::empty()
        }
    }
}

/// The results of a search page: its entries with links trimmed, those
/// with both a title and a link, in page order, at most `limit`.
pub open spec fn page_results(body: Seq<char>, limit: nat) -> Seq<(Seq<char>, Seq<char>, Seq<char>)> {
    let k = kept_hits(trimmed_links(ddg_page_hits(body)), ddg_page_hits(body).len());
    k.take(if k.len() < limit { k.len() as int } else { limit as int })
}

proof fn lemma_kept_is_usable(hs: Seq<SearchHit>, n: nat)
    requires
        n <= hs.len(),
    ensures
        kept_hits(hits_text(hs), n).len() == usable_hits(hs, n).len(),
        forall|k: int| 0 <= k < usable_hits(hs, n).len() ==> 0 <= #[trigger] usable_hits(hs, n)[k] < n
            && kept_hits(hits_text(hs), n)[k] == hits_text(hs)[usable_hits(hs, n)[k] as int],
    decreases n,
{
    if n > 0 {
        lemma_kept_is_usable(hs, (n - 1) as nat);
    }
}

fn trim_links(hits: Vec<SearchHit>) -> (r: Vec<SearchHit>)
    ensures
        hits_text(r@) == trimmed_links(hits_text(hits@)),
{
    let mut r: Vec<SearchHit> = Vec::new();
    let mut i: usize = 0;
    while i < hits.len()
        invariant
            i <= hits@.len(),
            r@.len() == i,
            forall|k: int| 0 <= k < i ==> #[trigger] hits_text(r@)[k] == trimmed_links(hits_text(hits@))[k],
        decreases hits@.len() - i,
    {
        let ghost before = r@;
        let h = &hits[i];
        let link_chars = chars_of(h.link.as_str());
        let trimmed = trim_space_chars(link_chars.as_slice());
        r.push(SearchHit { title: h.title.clone(), link: string_from_chars(trimmed.as_slice()), snippet: h.snippet.clone() });
        proof {
            assert forall|k: int| 0 <= k < i + 1 implies #[trigger] hits_text(r@)[k] == trimmed_links(hits_text(hits@))[k] by {
                assert(hits_text(r@)[k] == (r@[k].title@, r@[k].link@, r@[k].snippet@));
                if k < i {
                    assert(r@[k] == before[k]);
                    assert(hits_text(before)[k] == (before[k].title@, before[k].link@, before[k].snippet@));
                } else {
                    assert(hits_text(hits@)[k] == (hits@[k].title@, hits@[k].link@, hits@[k].snippet@));
                }
            }
        }
        i = i + 1;
    }
    assert(hits_text(r@) =~= trimmed_links(hits_text(hits@)));
    r
}

/// The results read from a search page: the page's entries with their
/// links trimmed, those with both a title and a link, in page order, as
/// many as asked for (3 when not given, kept within 1 to 10).
pub fn search_results_from_page(body: &str, num_results: Option<usize>) -> (r: Vec<SearchHit>)
    ensures
        hits_text(r@) == page_results(body@, search_result_limit(num_results) as nat),
{
    let entries = page_hits(body);
    let trimmed = trim_links(entries);
    let limit = search_result_count(num_results);
    let r = select_search_hits(trimmed.as_slice(), limit);
    proof {
        let hs = trimmed@;
        lemma_kept_is_usable(hs, hs.len());
        let k = kept_hits(trimmed_links(ddg_page_hits(body@)), ddg_page_hits(body@).len());
        assert(hits_text(hs) == trimmed_links(ddg_page_hits(body@)));
        assert(hits_text(hs).len() == hs.len());
        assert(trimmed_links(ddg_page_hits(body@)).len() == ddg_page_hits(body@).len());
        assert(k == kept_hits(hits_text(hs), hs.len()));
        assert(hits_text(r@) =~= page_results(body@, limit as nat)) by {
            assert forall|j: int| 0 <= j < r@.len() implies #[trigger] hits_text(r@)[j] == page_results(body@, limit as nat)[j] by {
                assert(same_hit(r@[j], hs[usable_hits(hs, hs.len())[j] as int]));
            }
        }
    }
    r
}

/// The Markdown that `html2md::rewrite_html` (crate `fast_html2md`, without
/// CommonMark) makes of an HTML page.
pub uninterp spec fn html_markdown(html: Seq<char>) -> Seq<char>;

/// Converts an HTML page to Markdown with `html2md::rewrite_html`. The claim
/// is that the result is `html_markdown` of the page.
#[verifier::external_body]
fn html_to_markdown(body: &str) -> (s: String)
    ensures
        s@ == html_markdown(body@),
{
    html2md::rewrite_html(body, false)
}

/// The content the website tool returns for a fetched page: the page
/// itself for `html`, its Markdown for `md` (the default), anything else
/// refused.
pub fn website_content(body: &str, render: Option<&str>) -> (r: Result<String, String>)
    ensures
        match render_mode_of(render) {
            Some(RenderMode::Html) => r is Ok && r->Ok_0@ == body@,
            Some(RenderMode::Markdown) => r is Ok && r->Ok_0@ == html_markdown(body@),
            None => r is Err && r->Err_0@ == "Invalid 'render' parameter, must be 'html' or 'md'"@,
        },
{
    match render_mode(render) {
        Ok(RenderMode::Html) => Ok(body.to_string()),
        Ok(RenderMode::Markdown) => Ok(html_to_markdown(body)),
        Err(e) => Err(e),
    }
}

/// The render mode a request names: `md` when not given.
pub open spec fn render_mode_of(render: Option<&str>) -> Option<RenderMode> {
    match render {
        None => Some(RenderMode::Markdown),
        Some(s) => if s@ == "html"@ {
            Some(RenderMode::Html)
        } else if s@ == "md"@ {
            Some(RenderMode::Markdown)
        } else {
            None
        },
    }
}

} // verus!
