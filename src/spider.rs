//! The crawl frontier: which pages have been visited, which links wait, and
//! what is done with each fetched page.

use vstd::prelude::*;
use crate::address::{UrlParseError, WebUrl, parse_outcome};
use crate::page::{
    JobEnvelope,
    Page,
    header_map,
    is_alphanumeric,
    job_class,
    pairs_map,
    unique_names,
    url_texts,
    JOB_ID_LEN,
};

verus! {

/// The index of the last entry of `waiting` that is not in `visited`, or -1
/// when every entry has been visited.
pub open spec fn last_fresh(waiting: Seq<Seq<char>>, visited: Seq<Seq<char>>) -> int
    decreases waiting.len(),
{
    if waiting.len() == 0 {
        -1
    } else if !visited.contains(waiting.last()) {
        waiting.len() - 1
    } else {
        last_fresh(waiting.drop_last(), visited)
    }
}

proof fn lemma_last_fresh_range(waiting: Seq<Seq<char>>, visited: Seq<Seq<char>>)
    ensures
        -1 <= last_fresh(waiting, visited) < waiting.len(),
        last_fresh(waiting, visited) >= 0 ==> !visited.contains(
            waiting[last_fresh(waiting, visited)],
        ),
    decreases waiting.len(),
{
    if waiting.len() > 0 && visited.contains(waiting.last()) {
        lemma_last_fresh_range(waiting.drop_last(), visited);
    }
}

/// The address that the frontier hands out next is never one already
/// visited, so recording its visit keeps every visited address recorded
/// exactly once.
pub proof fn lemma_next_visit_keeps_unique(visited: Seq<Seq<char>>, waiting: Seq<Seq<char>>)
    requires
        visited.no_duplicates(),
        last_fresh(waiting, visited) >= 0,
    ensures
        !visited.contains(waiting[last_fresh(waiting, visited)]),
        visited.push(waiting[last_fresh(waiting, visited)]).no_duplicates(),
{
    lemma_last_fresh_range(waiting, visited);
    let x = waiting[last_fresh(waiting, visited)];
    let v = visited.push(x);
    assert forall|i: int, j: int| 0 <= i < v.len() && 0 <= j < v.len() && i != j implies v[i]
        != v[j] by {
        if i < visited.len() && j < visited.len() {
        } else if i < visited.len() {
            assert(visited[i] == v[i]);
        } else {
            assert(visited[j] == v[j]);
        }
    }
}

/// The environment name used when none is configured.
pub open spec fn default_env() -> Seq<char> {
    "development"@
}

/// The crawler's state.
pub struct Spider {
    /// The seed address.
    pub base_url: String,
    /// Addresses already visited, in the order of their visits.
    pub visited_urls: Vec<WebUrl>,
    /// Links waiting to be visited; the last one is taken first.
    pub unvisited_urls: Vec<WebUrl>,
    /// The deployment environment name.
    pub env: String,
    /// The work queue that jobs go to.
    pub redis_queue_name: String,
}

impl Spider {
    /// No address has been visited twice.
    pub open spec fn wf(&self) -> bool {
        url_texts(self.visited_urls@).no_duplicates()
    }

    /// A crawler for the seed `base_url` in the environment `env`
    /// ("development" when none is given); its queue is `<env>:queue:maman`.
    pub fn new(base_url: String, env: Option<String>) -> (r: Spider)
        ensures
            r.wf(),
            r.base_url@ == base_url@,
            r.visited_urls@.len() == 0,
            r.unvisited_urls@.len() == 0,
            r.env@ == match env {
                Some(e) => e@,
                None => default_env(),
            },
            r.redis_queue_name@ == r.env@ + ":queue:maman"@,
    {
        proof {
            reveal_strlit("development");
            reveal_strlit(":queue:maman");
        }
        let env = match env {
            Some(e) => e,
            None => "development".to_string(),
        };
        let queue = env.clone().concat(":queue:maman");
        let r = Spider {
            base_url,
            visited_urls: Vec::new(),
            unvisited_urls: Vec::new(),
            env,
            redis_queue_name: queue,
        };
        assert(url_texts(r.visited_urls@) =~= Seq::<Seq<char>>::empty());
        r
    }

    /// Whether `url` has been visited.
    pub fn is_visited(&self, url: &WebUrl) -> (r: bool)
        ensures
            r == url_texts(self.visited_urls@).contains(url@),
    {
        let mut i: usize = 0;
        while i < self.visited_urls.len()
            invariant
                0 <= i <= self.visited_urls@.len(),
                forall|k: int| 0 <= k < i ==> self.visited_urls@[k]@ != url@,
            decreases self.visited_urls@.len() - i,
        {
            if self.visited_urls[i].same_as(url) {
                assert(url_texts(self.visited_urls@)[i as int] == url@);
                return true;
            }
            i = i + 1;
        }
        assert(!url_texts(self.visited_urls@).contains(url@)) by {
            if url_texts(self.visited_urls@).contains(url@) {
                let k = choose|k: int|
                    0 <= k < url_texts(self.visited_urls@).len() && url_texts(
                        self.visited_urls@,
                    )[k] == url@;
                assert(self.visited_urls@[k]@ == url@);
            }
        }
        false
    }

    /// The visited addresses, in the order of their visits.
    pub fn visited_urls(&self) -> (r: &Vec<WebUrl>)
        ensures
            r@ == self.visited_urls@,
    {
        &self.visited_urls
    }

    /// The page for a response to `page_url` with the given headers and
    /// body; none when `page_url` is not an absolute URL or the body could
    /// not be read as text. Its links are not extracted yet.
    pub fn read_response(
        &self,
        page_url: &str,
        headers: Vec<(String, String)>,
        body: Option<String>,
    ) -> (r: Option<Page>)
        ensures
            r is Some <==> (parse_outcome(page_url@) is Ok && body is Some),
            match r {
                Some(p) => {
                    &&& parse_outcome(page_url@) == Ok::<Seq<char>, UrlParseError>(p.url@)
                    &&& p.document@ == body->0@
                    &&& unique_names(p.headers@)
                    &&& pairs_map(p.headers@) == header_map(headers@)
                    &&& p.urls@.len() == 0
                    &&& p.jid@.len() == JOB_ID_LEN
                    &&& forall|i: int| 0 <= i < JOB_ID_LEN ==> is_alphanumeric(#[trigger] p.jid@[i])
                },
                None => true,
            },
    {
        match WebUrl::parse(page_url) {
            Ok(u) => match body {
                Some(document) => Some(Page::new(u, document, headers)),
                None => None,
            },
            Err(_) => None,
        }
    }

    /// Records a processed page: its address joins the visited ones, its
    /// links join the waiting ones in order, and its job envelope is
    /// returned for publication.
    pub fn visit_page(&mut self, page: Page) -> (r: JobEnvelope)
        requires
            old(self).wf(),
            !url_texts(old(self).visited_urls@).contains(page.url@),
        ensures
            final(self).wf(),
            url_texts(final(self).visited_urls@) == url_texts(old(self).visited_urls@).push(
                page.url@,
            ),
            url_texts(final(self).unvisited_urls@) == url_texts(old(self).unvisited_urls@)
                + url_texts(page.urls@),
            final(self).base_url == old(self).base_url,
            final(self).env == old(self).env,
            final(self).redis_queue_name == old(self).redis_queue_name,
            r.class@ == job_class(),
            r.retry,
            r.url@ == page.url@,
            r.document@ == page.document@,
            r.jid@ == page.jid@,
            r.headers@.len() == page.headers@.len(),
            forall|i: int|
                0 <= i < page.headers@.len() ==> (#[trigger] r.headers@[i]).0@
                    == page.headers@[i].0@ && r.headers@[i].1@ == page.headers@[i].1@,
    {
        let ghost old_visited = url_texts(self.visited_urls@);
        self.visited_urls.push(page.url.duplicate());
        assert(url_texts(self.visited_urls@) =~= old_visited.push(page.url@));
        let mut i: usize = 0;
        let ghost start = url_texts(self.unvisited_urls@);
        while i < page.urls.len()
            invariant
                0 <= i <= page.urls@.len(),
                url_texts(self.visited_urls@) == old_visited.push(page.url@),
                url_texts(self.unvisited_urls@) == start + url_texts(page.urls@).take(i as int),
                self.base_url == old(self).base_url,
                self.env == old(self).env,
                self.redis_queue_name == old(self).redis_queue_name,
            decreases page.urls@.len() - i,
        {
            let ghost prev = url_texts(self.unvisited_urls@);
            self.unvisited_urls.push(page.urls[i].duplicate());
            assert(url_texts(self.unvisited_urls@) =~= prev.push(page.urls@[i as int]@));
            assert(url_texts(page.urls@).take(i + 1) =~= url_texts(page.urls@).take(i as int).push(
                page.urls@[i as int]@,
            ));
            i = i + 1;
        }
        assert(url_texts(page.urls@).take(page.urls@.len() as int) =~= url_texts(page.urls@));
        page.to_job()
    }

    /// Takes the next address to fetch: waiting links are taken from the
    /// end, and those already visited are dropped on the way. None once no
    /// unvisited link waits.
    pub fn next_url(&mut self) -> (r: Option<WebUrl>)
        ensures
            final(self).visited_urls == old(self).visited_urls,
            final(self).base_url == old(self).base_url,
            final(self).env == old(self).env,
            final(self).redis_queue_name == old(self).redis_queue_name,
            ({
                let k = last_fresh(
                    url_texts(old(self).unvisited_urls@),
                    url_texts(old(self).visited_urls@),
                );
                if k < 0 {
                    r is None && final(self).unvisited_urls@.len() == 0
                } else {
                    &&& r is Some
                    &&& r->0@ == url_texts(old(self).unvisited_urls@)[k]
                    &&& !url_texts(old(self).visited_urls@).contains(r->0@)
                    &&& url_texts(final(self).unvisited_urls@) == url_texts(
                        old(self).unvisited_urls@,
                    ).take(k)
                }
            }),
    {
        let ghost visited = url_texts(self.visited_urls@);
        let ghost all = url_texts(self.unvisited_urls@);
        proof {
            lemma_last_fresh_range(all, visited);
        }
        while self.unvisited_urls.len() > 0
            invariant
                self.visited_urls == old(self).visited_urls,
                self.base_url == old(self).base_url,
                self.env == old(self).env,
                self.redis_queue_name == old(self).redis_queue_name,
                visited == url_texts(self.visited_urls@),
                all == url_texts(old(self).unvisited_urls@),
                self.unvisited_urls@.len() <= all.len(),
                url_texts(self.unvisited_urls@) == all.take(self.unvisited_urls@.len() as int),
                last_fresh(all, visited) == last_fresh(url_texts(self.unvisited_urls@), visited),
            decreases self.unvisited_urls@.len(),
        {
            let ghost cur = url_texts(self.unvisited_urls@);
            let u = self.unvisited_urls.pop().unwrap();
            assert(url_texts(self.unvisited_urls@) =~= cur.drop_last());
            assert(cur.last() == u@);
            if !self.is_visited(&u) {
                assert(all.take(cur.len() - 1) =~= cur.drop_last());
                return Some(u);
            }
            assert(all.take(self.unvisited_urls@.len() as int) =~= cur.drop_last());
        }
        assert(url_texts(self.unvisited_urls@) =~= Seq::<Seq<char>>::empty());
        None
    }
}

} // verus!
