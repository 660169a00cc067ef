//! Link previews: what a fetched page says about itself. The page is parsed
//! by `scraper` and its URL by `url` (through `reqwest`); which tags count,
//! in which order they are tried, and how a favicon link becomes an absolute
//! URL, is decided here.

use vstd::prelude::*;
use vstd::string::*;
use crate::note::UrlPreview;
use crate::text::{chars_of, copy_opt, occurs_at, opt_view};

verus! {

broadcast use vstd::string::group_string_axioms;

/// How long a preview fetch may take, in seconds.
pub const PREVIEW_TIMEOUT_SECS: u64 = 5;

/// The value of attribute `attr` of the first element of the HTML page
/// `html` that the CSS selector `selector` matches, as `scraper` reads it.
pub uninterp spec fn first_attr_of(html: Seq<char>, selector: Seq<char>, attr: Seq<char>) -> Option<
    Seq<char>,
>;

/// The text inside the first element of `html` that `selector` matches, as
/// `scraper` reads it.
pub uninterp spec fn first_text_of(html: Seq<char>, selector: Seq<char>) -> Option<Seq<char>>;

/// The scheme of `url`, and its host where it has one, as the `url` crate
/// parses it; nothing where it is no URL.
pub uninterp spec fn url_parts_of(url: Seq<char>) -> Option<(Seq<char>, Option<Seq<char>>)>;

/// Relies on `scraper::Html::parse_document`, `Selector::parse`, `Html::select`
/// and `ElementRef::attr`.
#[verifier::external_body]
fn first_attr(html: &str, selector: &str, attr: &str) -> (r: Option<String>)
    ensures
        match r {
            Some(v) => first_attr_of(html@, selector@, attr@) == Some(v@),
            None => first_attr_of(html@, selector@, attr@) is None,
        },
{
    let doc = scraper::Html::parse_document(html);
    let sel = scraper::Selector::parse(selector).ok()?;
    let found = doc.select(&sel).next()?.attr(attr)?.to_string();
    Some(found)
}

/// Relies on `scraper::Html::parse_document`, `Selector::parse`, `Html::select`
/// and `ElementRef::text`.
#[verifier::external_body]
fn first_text(html: &str, selector: &str) -> (r: Option<String>)
    ensures
        match r {
            Some(v) => first_text_of(html@, selector@) == Some(v@),
            None => first_text_of(html@, selector@) is None,
        },
{
    let doc = scraper::Html::parse_document(html);
    let sel = scraper::Selector::parse(selector).ok()?;
    let found = doc.select(&sel).next()?.text().collect::<String>();
    Some(found)
}

/// Relies on `url::Url::parse` (as `reqwest::Url`), `Url::scheme` and
/// `Url::host_str`.
#[verifier::external_body]
fn url_parts(url: &str) -> (r: Option<(String, Option<String>)>)
    ensures
        match r {
            Some((s, h)) => url_parts_of(url@) == Some(
                (
                    s@,
                    match h {
                        Some(h) => Some(h@),
                        None => None,
                    },
                ),
            ),
            None => url_parts_of(url@) is None,
        },
{
    let u = reqwest::Url::parse(url).ok()?;
    Some((u.scheme().to_string(), u.host_str().map(|h| h.to_string())))
}

pub open spec fn or_else(a: Option<Seq<char>>, b: Option<Seq<char>>) -> Option<Seq<char>> {
    match a {
        Some(x) => Some(x),
        None => b,
    }
}

pub open spec fn host_or_empty(h: Option<Seq<char>>) -> Seq<char> {
    match h {
        Some(h) => h,
        None => Seq::empty(),
    }
}

/// The favicon link `href` of the page at a URL with parts `page`, made
/// absolute: kept where it is absolute, given `https:` where it is
/// scheme-relative, and put on the page's scheme and host where it is a path.
pub open spec fn absolute_favicon(
    href: Seq<char>,
    page: Option<(Seq<char>, Option<Seq<char>>)>,
) -> Seq<char> {
    if occurs_at(href, 0, "http://"@) || occurs_at(href, 0, "https://"@) {
        href
    } else if occurs_at(href, 0, "//"@) {
        "https:"@ + href
    } else {
        match page {
            Some((scheme, host)) => if occurs_at(href, 0, "/"@) {
                scheme + "://"@ + host_or_empty(host) + href
            } else {
                scheme + "://"@ + host_or_empty(host) + "/"@ + href
            },
            None => href,
        }
    }
}

/// The preview of the page at `url` whose HTML is `html`.
pub open spec fn is_preview_of(p: UrlPreview, url: Seq<char>, html: Seq<char>) -> bool {
    let page = url_parts_of(url);
    let og = |name: Seq<char>| first_attr_of(html, name, "content"@);
    let icon = first_attr_of(html, "link[rel=\"icon\"], link[rel=\"shortcut icon\"]"@, "href"@);
    &&& p.url@ == url
    &&& p.title@ == match or_else(
        og("meta[property=\"og:title\"]"@),
        first_text_of(html, "title"@),
    ) {
        Some(t) => t,
        None => url,
    }
    &&& opt_view(p.description) == or_else(
        og("meta[property=\"og:description\"]"@),
        og("meta[name=\"description\"]"@),
    )
    &&& opt_view(p.image_url) == og("meta[property=\"og:image\"]"@)
    &&& opt_view(p.site_name) == or_else(
        og("meta[property=\"og:site_name\"]"@),
        match page {
            Some((_, h)) => h,
            None => None,
        },
    )
    &&& opt_view(p.favicon_url) == match icon {
        Some(h) => Some(absolute_favicon(h, page)),
        None => match page {
            Some((s, h)) => Some(s + "://"@ + host_or_empty(h) + "/favicon.ico"@),
            None => None,
        },
    }
}

fn starts_with_lit(s: &Vec<char>, p: &str) -> (r: bool)
    ensures
        r == occurs_at(s@, 0, p@),
{
    let pc = chars_of(p);
    if pc.len() > s.len() {
        return false;
    }
    let mut k: usize = 0;
    while k < pc.len()
        invariant
            pc@ == p@,
            pc@.len() <= s@.len(),
            k <= pc@.len(),
            forall|m: int| 0 <= m < k ==> s@[m] == pc@[m],
        decreases pc@.len() - k,
    {
        if s[k] != pc[k] {
            assert(s@.subrange(0, pc@.len() as int)[k as int] != pc@[k as int]);
            return false;
        }
        k = k + 1;
    }
    assert(s@.subrange(0, pc@.len() as int) =~= pc@);
    true
}

fn page_prefix(page: &(String, Option<String>)) -> (r: String)
    ensures
        r@ == page.0@ + "://"@ + host_or_empty(
            match page.1 {
                Some(h) => Some(h@),
                None => None,
            },
        ),
{
    let mut r = page.0.clone();
    r.append("://");
    if let Some(h) = &page.1 {
        r.append(h.as_str());
    }
    r
}

fn absolute_favicon_exec(href: &str, page: &Option<(String, Option<String>)>) -> (r: String)
    ensures
        r@ == absolute_favicon(
            href@,
            match page {
                Some((s, h)) => Some(
                    (
                        s@,
                        match h {
                            Some(h) => Some(h@),
                            None => None,
                        },
                    ),
                ),
                None => None,
            },
        ),
{
    let cs = chars_of(href);
    if starts_with_lit(&cs, "http://") || starts_with_lit(&cs, "https://") {
        return String::from_str(href);
    }
    if starts_with_lit(&cs, "//") {
        let mut r = String::from_str("https:");
        r.append(href);
        return r;
    }
    match page {
        Some(p) => {
            let mut r = page_prefix(p);
            if !starts_with_lit(&cs, "/") {
                r.append("/");
            }
            r.append(href);
            r
        },
        None => String::from_str(href),
    }
}

fn or_else_exec(a: Option<String>, b: Option<String>) -> (r: Option<String>)
    ensures
        opt_view(r) == or_else(opt_view(a), opt_view(b)),
{
    match a {
        Some(x) => Some(x),
        None => b,
    }
}

/// The preview of the page at `url` whose HTML is `html`: its Open Graph
/// title, description, image and site name, falling back to the `<title>`,
/// the description meta tag and the URL's host; and its favicon, made
/// absolute, or `/favicon.ico` on the page's host.
pub fn preview_from_html(url: &str, html: &str) -> (r: UrlPreview)
    ensures
        is_preview_of(r, url@, html@),
{
    let page = url_parts(url);
    let ghost pv = url_parts_of(url@);
    let title = match or_else_exec(
        first_attr(html, "meta[property=\"og:title\"]", "content"),
        first_text(html, "title"),
    ) {
        Some(t) => t,
        None => String::from_str(url),
    };
    let description = or_else_exec(
        first_attr(html, "meta[property=\"og:description\"]", "content"),
        first_attr(html, "meta[name=\"description\"]", "content"),
    );
    let image_url = first_attr(html, "meta[property=\"og:image\"]", "content");
    let host = match &page {
        Some((_, h)) => copy_opt(h),
        None => None,
    };
    let site_name = or_else_exec(first_attr(html, "meta[property=\"og:site_name\"]", "content"), host);
    let favicon_url = match first_attr(
        html,
        "link[rel=\"icon\"], link[rel=\"shortcut icon\"]",
        "href",
    ) {
        Some(h) => Some(absolute_favicon_exec(h.as_str(), &page)),
        None => match &page {
            Some(p) => {
                let mut r = page_prefix(p);
                r.append("/favicon.ico");
                Some(r)
            },
            None => None,
        },
    };
    UrlPreview {
        url: String::from_str(url),
        title,
        description,
        image_url,
        site_name,
        favicon_url,
    }
}

} // verus!
