use std::cell::RefCell;
use std::collections::HashMap;
use std::collections::HashSet;

use html5ever::tendril::StrTendril;
use html5ever::tokenizer::{BufferQueue, TagToken, Token, TokenSink, TokenSinkResult, Tokenizer};
use maman::address::{UrlParseError, WebUrl};
use maman::page::{Page, JOB_ID_LEN};
use maman::spider::Spider;

struct TagCollector {
    tags: RefCell<Vec<(String, Vec<(String, String)>)>>,
}

impl TokenSink for TagCollector {
    type Handle = ();

    fn process_token(&self, token: Token, _line: u64) -> TokenSinkResult<()> {
        if let TagToken(tag) = token {
            let attrs = tag
                .attrs
                .iter()
                .map(|a| (a.name.local.to_string(), a.value.to_string()))
                .collect();
            self.tags.borrow_mut().push((tag.name.to_string(), attrs));
        }
        TokenSinkResult::Continue
    }
}

fn extract(page: &mut Page, document: &str) {
    let tok = Tokenizer::new(TagCollector { tags: RefCell::new(Vec::new()) }, Default::default());
    let input = BufferQueue::default();
    input.push_back(StrTendril::from(document));
    let _ = tok.feed(&input);
    tok.end();
    for (name, attrs) in tok.sink.tags.borrow().iter() {
        page.process_tag(name, attrs);
    }
}

fn url(s: &str) -> WebUrl {
    WebUrl::parse(s).unwrap()
}

fn enqueue(page: &str, href: &str) -> Option<String> {
    url(page).can_enqueue(href).map(|u| u.as_str().to_string())
}

/// Crawls from `seed`, answering each fetch from `site` (address to body);
/// returns the visited addresses and the number of published jobs.
fn crawl(seed: &str, site: &HashMap<String, String>) -> (Vec<String>, usize) {
    let mut spider = Spider::new(seed.to_string(), None);
    let mut jobs = 0;
    let mut next = Some(seed.to_string());
    while let Some(target) = next {
        if let Some(body) = site.get(&target) {
            if let Some(mut page) = spider.read_response(&target, Vec::new(), Some(body.clone())) {
                extract(&mut page, body);
                let job = spider.visit_page(page);
                assert_eq!(job.url, target);
                jobs += 1;
            }
        }
        next = spider.next_url().map(|u| u.as_str().to_string());
    }
    let visited = spider.visited_urls().iter().map(|u| u.as_str().to_string()).collect();
    (visited, jobs)
}

#[test]
fn strip_fragment_is_idempotent() {
    for s in ["https://a.com/p#frag", "https://a.com/p", "https://a.com/p?q=1#x#y", "mailto:x@a.com#z"] {
        let once = url(s).strip_fragment();
        let twice = once.strip_fragment();
        assert_eq!(once.as_str(), twice.as_str());
    }
    assert_eq!(url("https://a.com/p#frag").strip_fragment().as_str(), "https://a.com/p");
}

#[test]
fn filter_rejects_other_schemes() {
    let page = url("https://a.com/p");
    for s in ["mailto:someone@a.com", "javascript:void(0)", "ftp://a.com/file"] {
        assert!(!page.is_eligible(&url(s)));
        assert_eq!(enqueue("https://a.com/p", s), None);
    }
    assert!(page.is_eligible(&url("http://a.com/q")));
}

#[test]
fn self_link_excluded() {
    let page = url("https://a.com/p");
    assert!(!page.is_eligible(&url("https://a.com/p")));
    assert_eq!(enqueue("https://a.com/p", "https://a.com/p"), None);
    assert_eq!(enqueue("https://a.com/p", "https://a.com/p#section"), None);
    assert_eq!(enqueue("https://a.com/p", "#section"), None);
}

#[test]
fn cross_domain_excluded() {
    let page = url("https://a.com/p");
    assert!(!page.is_eligible(&url("https://b.com/x")));
    assert!(page.is_eligible(&url("https://a.com/y")));
    assert!(!page.is_eligible(&url("https://sub.a.com/y")));
    assert!(page.is_eligible(&url("https://a.com:8080/y")));
}

#[test]
fn relative_resolution() {
    let base = url("https://a.com/dir/page");
    assert_eq!(base.resolve("../other").unwrap().as_str(), "https://a.com/other");
    assert_eq!(base.resolve("x").unwrap().as_str(), "https://a.com/dir/x");
    assert_eq!(base.resolve("https://b.com/z").unwrap().as_str(), "https://b.com/z");
    assert!(base.resolve("http://").is_none());
    assert_eq!(enqueue("https://a.com/dir/page", "../other#top"), Some("https://a.com/other".to_string()));
}

#[test]
fn parse_errors() {
    assert_eq!(WebUrl::parse("../main.css").unwrap_err(), UrlParseError::RelativeUrlWithoutBase);
    assert_eq!(WebUrl::parse("http://").unwrap_err(), UrlParseError::Invalid);
    assert_eq!(url("HTTPS://A.com").as_str(), "https://a.com/");
    assert_eq!(url("https://a.com/p").scheme(), "https");
    assert_eq!(url("https://a.com/p").domain(), Some("a.com".to_string()));
    assert_eq!(url("https://127.0.0.1/p").domain(), None);
}

#[test]
fn frontier_terminates_on_dag() {
    let mut site = HashMap::new();
    let page = |links: &[&str]| links.iter().map(|l| format!("<a href=\"{}\">l</a>", l)).collect::<String>();
    site.insert("https://d.test/".to_string(), page(&["/a", "/b", "https://e.test/x"]));
    site.insert("https://d.test/a".to_string(), page(&["/c", "/b"]));
    site.insert("https://d.test/b".to_string(), page(&["/c", "/d"]));
    site.insert("https://d.test/c".to_string(), page(&["/d"]));
    site.insert("https://d.test/d".to_string(), page(&[]));
    let (visited, jobs) = crawl("https://d.test/", &site);
    let expected: HashSet<&str> =
        ["https://d.test/", "https://d.test/a", "https://d.test/b", "https://d.test/c", "https://d.test/d"]
            .into_iter()
            .collect();
    assert_eq!(visited.len(), expected.len());
    assert_eq!(visited.iter().map(|s| s.as_str()).collect::<HashSet<_>>(), expected);
    assert_eq!(visited[0], "https://d.test/");
    assert_eq!(jobs, 5);
}

#[test]
fn end_to_end_scenario() {
    let mut site = HashMap::new();
    site.insert(
        "https://site.test/".to_string(),
        "<a href=\"/a\">x</a><a href=\"https://other.test/b\">y</a><a href=\"#frag\">z</a>".to_string(),
    );
    site.insert("https://site.test/a".to_string(), String::new());
    site.insert("https://other.test/b".to_string(), String::new());
    let (visited, jobs) = crawl("https://site.test/", &site);
    assert_eq!(visited, vec!["https://site.test/".to_string(), "https://site.test/a".to_string()]);
    assert_eq!(jobs, 2);
}

#[test]
fn job_ids_are_distinct() {
    let mut ids = HashSet::new();
    for _ in 0..10_000 {
        let page = Page::new(url("https://a.com/"), String::new(), Vec::new());
        assert_eq!(page.jid.len(), JOB_ID_LEN);
        assert!(page.jid.chars().all(|c| c.is_ascii_alphanumeric()));
        ids.insert(page.jid);
    }
    assert_eq!(ids.len(), 10_000);
}

#[test]
fn headers_are_lowercased_last_wins() {
    let raw = vec![
        ("Content-Type".to_string(), "text/html".to_string()),
        ("X-Id".to_string(), "1".to_string()),
        ("x-ID".to_string(), "2".to_string()),
    ];
    let page = Page::new(url("https://a.com/"), "body".to_string(), raw);
    let mut headers = page.headers.clone();
    headers.sort();
    assert_eq!(
        headers,
        vec![
            ("content-type".to_string(), "text/html".to_string()),
            ("x-id".to_string(), "2".to_string()),
        ]
    );
    assert!(page.urls.is_empty());
}

#[test]
fn job_envelope_fields() {
    let raw = vec![("Server".to_string(), "x".to_string())];
    let page = Page::new(url("https://a.com/p"), "doc".to_string(), raw);
    let job = page.job_at(10, 11);
    assert_eq!(job.class, "Maman");
    assert!(job.retry);
    assert_eq!(job.url, "https://a.com/p");
    assert_eq!(job.document, "doc");
    assert_eq!(job.headers, vec![("server".to_string(), "x".to_string())]);
    assert_eq!(job.jid, page.jid);
    assert_eq!((job.created_at, job.enqueued_at), (10, 11));
    let now = page.to_job();
    assert!(now.created_at > 1_500_000_000);
    assert!(now.enqueued_at >= now.created_at);
}

#[test]
fn spider_configuration() {
    let s = Spider::new("https://a.com/".to_string(), None);
    assert_eq!(s.env, "development");
    assert_eq!(s.redis_queue_name, "development:queue:maman");
    let s = Spider::new("https://a.com/".to_string(), Some("production".to_string()));
    assert_eq!(s.redis_queue_name, "production:queue:maman");
    assert!(s.visited_urls().is_empty());
}

#[test]
fn read_response_needs_url_and_body() {
    let s = Spider::new("https://a.com/".to_string(), None);
    assert!(s.read_response("not a url", Vec::new(), Some(String::new())).is_none());
    assert!(s.read_response("https://a.com/", Vec::new(), None).is_none());
    let page = s.read_response("https://a.com/", Vec::new(), Some("b".to_string())).unwrap();
    assert_eq!(page.url.as_str(), "https://a.com/");
    assert_eq!(page.document, "b");
}

#[test]
fn process_tag_reads_anchor_hrefs_only() {
    let mut page = Page::new(url("https://a.com/p"), String::new(), Vec::new());
    let attrs = vec![
        ("class".to_string(), "/no".to_string()),
        ("href".to_string(), "/one".to_string()),
        ("href".to_string(), "/two#x".to_string()),
    ];
    page.process_tag("div", &attrs);
    assert!(page.urls.is_empty());
    page.process_tag("a", &attrs);
    let got: Vec<&str> = page.urls.iter().map(|u| u.as_str()).collect();
    assert_eq!(got, vec!["https://a.com/one", "https://a.com/two"]);
    extract(&mut page, "<A HREF='/three'>t</A><img href='/no'><a href=/four><a href='mailto:x@a.com'>");
    let got: Vec<&str> = page.urls.iter().map(|u| u.as_str()).collect();
    assert_eq!(got, vec!["https://a.com/one", "https://a.com/two", "https://a.com/three", "https://a.com/four"]);
}

#[test]
fn next_url_pops_last_and_skips_visited() {
    let mut s = Spider::new("https://a.com/".to_string(), None);
    let mut seed = s.read_response("https://a.com/", Vec::new(), Some(String::new())).unwrap();
    seed.urls.push(url("https://a.com/x"));
    seed.urls.push(url("https://a.com/y"));
    seed.urls.push(url("https://a.com/"));
    s.visit_page(seed);
    assert_eq!(s.unvisited_urls.len(), 3);
    assert_eq!(s.next_url().unwrap().as_str(), "https://a.com/y");
    assert!(s.is_visited(&url("https://a.com/")));
    assert!(!s.is_visited(&url("https://a.com/y")));
    assert_eq!(s.next_url().unwrap().as_str(), "https://a.com/x");
    assert!(s.next_url().is_none());
    assert!(s.unvisited_urls.is_empty());
}
