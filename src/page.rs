//! Fetched pages: their header table, job id, outbound links, and the job
//! envelope that is published for each.

use vstd::prelude::*;
use crate::address::{WebUrl, enqueued, opt_url};

verus! {

/// The number of characters of a job id.
pub const JOB_ID_LEN: usize = 24;

/// ASCII lower case of one character; other characters are kept.
pub open spec fn lower_char(c: char) -> char {
    if 'A' <= c && c <= 'Z' {
        ((c as u8) + 32) as u8 as char
    } else {
        c
    }
}

/// ASCII lower case of a text.
pub open spec fn lower(s: Seq<char>) -> Seq<char> {
    s.map_values(|c: char| lower_char(c))
}

/// Whether a character is an ASCII letter or digit.
pub open spec fn is_alphanumeric(c: char) -> bool {
    ('a' <= c && c <= 'z') || ('A' <= c && c <= 'Z') || ('0' <= c && c <= '9')
}

/// Relies on `str::to_ascii_lowercase`: maps 'A'..='Z' to 'a'..='z' and keeps
/// every other character.
#[verifier::external_body]
fn ascii_lowercase(s: &str) -> (r: String)
    ensures
        r@ == lower(s@),
{
    s.to_ascii_lowercase()
}

/// Relies on `rand`'s `Alphanumeric` distribution (`DistString::sample_string`):
/// `n` characters, each drawn from A-Z, a-z and 0-9.
#[verifier::external_body]
fn random_alphanumeric(n: usize) -> (r: String)
    ensures
        r@.len() == n,
        forall|i: int| 0 <= i < n ==> is_alphanumeric(#[trigger] r@[i]),
{
    rand::distributions::DistString::sample_string(
        &rand::distributions::Alphanumeric,
        &mut rand::thread_rng(),
        n,
    )
}

/// Relies on `time::now_utc`: the current UTC time in seconds since the epoch.
#[verifier::external_body]
fn now_seconds() -> (r: i64) {
    time::now_utc().to_timespec().sec
}

/// The texts of a sequence of addresses.
pub open spec fn url_texts(v: Seq<WebUrl>) -> Seq<Seq<char>> {
    v.map_values(|u: WebUrl| u@)
}

/// A header table read as a map; a later entry for a name overrides an
/// earlier one.
pub open spec fn pairs_map(pairs: Seq<(String, String)>) -> Map<Seq<char>, Seq<char>>
    decreases pairs.len(),
{
    if pairs.len() == 0 {
        Map::empty()
    } else {
        pairs_map(pairs.drop_last()).insert(pairs.last().0@, pairs.last().1@)
    }
}

/// Response headers as a page stores them: names in lower case, the last
/// value of a repeated name kept.
pub open spec fn header_map(raw: Seq<(String, String)>) -> Map<Seq<char>, Seq<char>>
    decreases raw.len(),
{
    if raw.len() == 0 {
        Map::empty()
    } else {
        header_map(raw.drop_last()).insert(lower(raw.last().0@), raw.last().1@)
    }
}

/// No name occurs twice in a header table.
pub open spec fn unique_names(pairs: Seq<(String, String)>) -> bool {
    forall|i: int, j: int|
        0 <= i < pairs.len() && 0 <= j < pairs.len() && i != j ==> #[trigger] pairs[i].0@
            != #[trigger] pairs[j].0@
}

proof fn lemma_pairs_map_update(pairs: Seq<(String, String)>, j: int, entry: (String, String))
    requires
        unique_names(pairs),
        0 <= j < pairs.len(),
        pairs[j].0@ == entry.0@,
    ensures
        pairs_map(pairs.update(j, entry)) == pairs_map(pairs).insert(entry.0@, entry.1@),
    decreases pairs.len(),
{
    let upd = pairs.update(j, entry);
    assert(upd.drop_last() =~= if j == pairs.len() - 1 {
        pairs.drop_last()
    } else {
        pairs.drop_last().update(j, entry)
    });
    if j == pairs.len() - 1 {
        assert(pairs_map(upd) =~= pairs_map(pairs).insert(entry.0@, entry.1@));
    } else {
        assert(unique_names(pairs.drop_last())) by {
            assert forall|a: int, b: int|
                0 <= a < pairs.drop_last().len() && 0 <= b < pairs.drop_last().len() && a
                    != b implies #[trigger] pairs.drop_last()[a].0@
                != #[trigger] pairs.drop_last()[b].0@ by {
                assert(pairs.drop_last()[a] == pairs[a]);
                assert(pairs.drop_last()[b] == pairs[b]);
            }
        }
        lemma_pairs_map_update(pairs.drop_last(), j, entry);
        assert(pairs[j].0@ != pairs[pairs.len() - 1].0@);
        assert(pairs_map(upd) =~= pairs_map(pairs).insert(entry.0@, entry.1@));
    }
}

/// Sets `name` to `value` in a header table whose names are unique.
fn set_header(headers: &mut Vec<(String, String)>, name: String, value: String)
    requires
        unique_names(old(headers)@),
    ensures
        unique_names(final(headers)@),
        pairs_map(final(headers)@) == pairs_map(old(headers)@).insert(name@, value@),
{
    let mut i: usize = 0;
    while i < headers.len()
        invariant
            0 <= i <= headers@.len(),
            *headers == *old(headers),
            unique_names(headers@),
            forall|k: int| 0 <= k < i ==> headers@[k].0@ != name@,
        decreases headers@.len() - i,
    {
        if headers[i].0 == name {
            proof {
                lemma_pairs_map_update(headers@, i as int, (name, value));
            }
            let ghost before = headers@;
            headers.set(i, (name, value));
            assert(headers@ == before.update(i as int, (name, value)));
            assert(unique_names(headers@)) by {
                assert forall|a: int, b: int|
                    0 <= a < headers@.len() && 0 <= b < headers@.len() && a != b implies #[trigger] headers@[a].0@
                    != #[trigger] headers@[b].0@ by {
                    if a != i && b != i {
                        assert(headers@[a] == before[a]);
                        assert(headers@[b] == before[b]);
                    } else if a == i {
                        assert(headers@[b] == before[b]);
                        assert(before[i as int].0@ == name@);
                    } else {
                        assert(headers@[a] == before[a]);
                        assert(before[i as int].0@ == name@);
                    }
                }
            }
            return ;
        }
        i = i + 1;
    }
    let ghost before = headers@;
    headers.push((name, value));
    assert(headers@.drop_last() =~= before);
    assert(unique_names(headers@)) by {
        assert forall|a: int, b: int|
            0 <= a < headers@.len() && 0 <= b < headers@.len() && a != b implies #[trigger] headers@[a].0@
            != #[trigger] headers@[b].0@ by {
            if a < before.len() && b < before.len() {
                assert(headers@[a] == before[a]);
                assert(headers@[b] == before[b]);
            } else if a < before.len() {
                assert(headers@[a] == before[a]);
            } else {
                assert(headers@[b] == before[b]);
            }
        }
    }
}

/// Builds the header table of a page from response headers.
pub fn lowercase_headers(raw: &Vec<(String, String)>) -> (r: Vec<(String, String)>)
    ensures
        unique_names(r@),
        pairs_map(r@) == header_map(raw@),
{
    let mut table: Vec<(String, String)> = Vec::new();
    let mut i: usize = 0;
    while i < raw.len()
        invariant
            0 <= i <= raw@.len(),
            unique_names(table@),
            pairs_map(table@) == header_map(raw@.take(i as int)),
        decreases raw@.len() - i,
    {
        let name = ascii_lowercase(raw[i].0.as_str());
        let value = raw[i].1.clone();
        set_header(&mut table, name, value);
        assert(raw@.take(i + 1).drop_last() =~= raw@.take(i as int));
        i = i + 1;
    }
    assert(raw@.take(raw@.len() as int) =~= raw@);
    table
}

/// The links that one tag token adds to a page at `page`: for an `a` tag, the
/// frontier entry of each `href` attribute, in order; nothing for other tags.
pub open spec fn tag_links(page: Seq<char>, name: Seq<char>, attrs: Seq<(String, String)>) -> Seq<
    Seq<char>,
>
    decreases attrs.len(),
{
    if name != "a"@ || attrs.len() == 0 {
        Seq::empty()
    } else {
        let before = tag_links(page, name, attrs.drop_last());
        if attrs.last().0@ == "href"@ {
            match enqueued(page, attrs.last().1@) {
                Some(u) => before.push(u),
                None => before,
            }
        } else {
            before
        }
    }
}

/// One fetched document.
pub struct Page {
    /// The address it was fetched from.
    pub url: WebUrl,
    /// The response body.
    pub document: String,
    /// Response headers: lower-case names, unique, the last value kept.
    pub headers: Vec<(String, String)>,
    /// Eligible outbound links, in document order.
    pub urls: Vec<WebUrl>,
    /// The queue job id.
    pub jid: String,
}

/// The record pushed to the work queue for one page.
pub struct JobEnvelope {
    /// The job class; the same for every job.
    pub class: String,
    /// Whether the consumer may retry the job; always true.
    pub retry: bool,
    /// The page address.
    pub url: String,
    /// The page body.
    pub document: String,
    /// The page headers.
    pub headers: Vec<(String, String)>,
    /// The job id.
    pub jid: String,
    /// Seconds since the epoch when the job was made.
    pub created_at: i64,
    /// Seconds since the epoch when the job was queued.
    pub enqueued_at: i64,
}

/// The job class of every envelope.
pub open spec fn job_class() -> Seq<char> {
    "Maman"@
}

fn copy_headers(h: &Vec<(String, String)>) -> (r: Vec<(String, String)>)
    ensures
        r@.len() == h@.len(),
        forall|i: int|
            0 <= i < h@.len() ==> (#[trigger] r@[i]).0@ == h@[i].0@ && r@[i].1@ == h@[i].1@,
{
    let mut r: Vec<(String, String)> = Vec::new();
    let mut i: usize = 0;
    while i < h.len()
        invariant
            0 <= i <= h@.len(),
            r@.len() == i,
            forall|k: int| 0 <= k < i ==> (#[trigger] r@[k]).0@ == h@[k].0@ && r@[k].1@ == h@[k].1@,
        decreases h@.len() - i,
    {
        r.push((h[i].0.clone(), h[i].1.clone()));
        i = i + 1;
    }
    r
}

impl Page {
    /// A page for a fetched document: headers lower-cased (last value of a
    /// repeated name kept), no links yet, and a fresh job id of
    /// `JOB_ID_LEN` letters and digits.
    pub fn new(url: WebUrl, document: String, headers: Vec<(String, String)>) -> (r: Page)
        ensures
            r.url@ == url@,
            r.document@ == document@,
            unique_names(r.headers@),
            pairs_map(r.headers@) == header_map(headers@),
            r.urls@.len() == 0,
            r.jid@.len() == JOB_ID_LEN,
            forall|i: int| 0 <= i < JOB_ID_LEN ==> is_alphanumeric(#[trigger] r.jid@[i]),
    {
        let table = lowercase_headers(&headers);
        let jid = random_alphanumeric(JOB_ID_LEN);
        Page { url, document, headers: table, urls: Vec::new(), jid }
    }

    /// The frontier entry that a link `raw` on this page yields, if any.
    pub fn can_enqueue(&self, raw: &str) -> (r: Option<WebUrl>)
        ensures
            opt_url(r) == enqueued(self.url@, raw@),
    {
        self.url.can_enqueue(raw)
    }

    /// Handles one tag token of the document: for an `a` tag, each `href`
    /// attribute whose link is eligible adds that link to `urls`.
    pub fn process_tag(&mut self, name: &str, attrs: &Vec<(String, String)>)
        ensures
            final(self).url@ == old(self).url@,
            final(self).document@ == old(self).document@,
            final(self).headers@ == old(self).headers@,
            final(self).jid@ == old(self).jid@,
            url_texts(final(self).urls@) == url_texts(old(self).urls@) + tag_links(
                old(self).url@,
                name@,
                attrs@,
            ),
    {
        let tag = name.to_string();
        let anchor = "a".to_string();
        let href = "href".to_string();
        proof {
            reveal_strlit("a");
            reveal_strlit("href");
        }
        let ghost start = url_texts(self.urls@);
        if tag != anchor {
            assert(start + tag_links(self.url@, name@, attrs@) =~= start);
            return ;
        }
        let mut i: usize = 0;
        while i < attrs.len()
            invariant
                0 <= i <= attrs@.len(),
                name@ == "a"@,
                href@ == "href"@,
                self.url@ == old(self).url@,
                self.document@ == old(self).document@,
                self.headers@ == old(self).headers@,
                self.jid@ == old(self).jid@,
                start == url_texts(old(self).urls@),
                url_texts(self.urls@) == start + tag_links(self.url@, name@, attrs@.take(i as int)),
            decreases attrs@.len() - i,
        {
            assert(attrs@.take(i + 1).drop_last() =~= attrs@.take(i as int));
            if attrs[i].0 == href {
                match self.can_enqueue(attrs[i].1.as_str()) {
                    Some(u) => {
                        let ghost prev = url_texts(self.urls@);
                        self.urls.push(u);
                        assert(url_texts(self.urls@) =~= prev.push(u@));
                    },
                    None => {},
                }
            }
            i = i + 1;
        }
        assert(attrs@.take(attrs@.len() as int) =~= attrs@);
    }

    /// The job envelope of this page, stamped with the given times.
    pub fn job_at(&self, created_at: i64, enqueued_at: i64) -> (r: JobEnvelope)
        ensures
            r.class@ == job_class(),
            r.retry,
            r.url@ == self.url@,
            r.document@ == self.document@,
            r.headers@.len() == self.headers@.len(),
            forall|i: int|
                0 <= i < self.headers@.len() ==> (#[trigger] r.headers@[i]).0@
                    == self.headers@[i].0@ && r.headers@[i].1@ == self.headers@[i].1@,
            r.jid@ == self.jid@,
            r.created_at == created_at,
            r.enqueued_at == enqueued_at,
    {
        proof {
            reveal_strlit("Maman");
        }
        JobEnvelope {
            class: "Maman".to_string(),
            retry: true,
            url: self.url.as_str().to_string(),
            document: self.document.clone(),
            headers: copy_headers(&self.headers),
            jid: self.jid.clone(),
            created_at,
            enqueued_at,
        }
    }

    /// The job envelope of this page, stamped with the current time, read
    /// once for each of the two stamps.
    pub fn to_job(&self) -> (r: JobEnvelope)
        ensures
            r.class@ == job_class(),
            r.retry,
            r.url@ == self.url@,
            r.document@ == self.document@,
            r.headers@.len() == self.headers@.len(),
            forall|i: int|
                0 <= i < self.headers@.len() ==> (#[trigger] r.headers@[i]).0@
                    == self.headers@[i].0@ && r.headers@[i].1@ == self.headers@[i].1@,
            r.jid@ == self.jid@,
    {
        let created_at = now_seconds();
        let enqueued_at = now_seconds();
        self.job_at(created_at, enqueued_at)
    }
}

} // verus!
