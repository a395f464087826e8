//! The peer API as the crawl uses it: which URLs it requests and what it
//! reads from the responses.
use crate::json::Json;
use vstd::prelude::*;
use vstd::string::StringExecFns;

verus! {

/// One of the two follow listings a peer publishes.
#[derive(Clone, Copy, PartialEq, Eq, Structural, Debug)]
pub enum Direction {
    Followers,
    Following,
}

impl Direction {
    pub open spec fn endpoint_spec(self) -> Seq<char> {
        match self {
            Direction::Followers => "/server/followers"@,
            Direction::Following => "/server/following"@,
        }
    }

    pub open spec fn entry_name_spec(self) -> Seq<char> {
        match self {
            Direction::Followers => "follower"@,
            Direction::Following => "following"@,
        }
    }

    /// Path of the listing under `/api/v1`.
    pub fn endpoint(&self) -> (r: &'static str)
        ensures
            r@ == self.endpoint_spec(),
    {
        match self {
            Direction::Followers => "/server/followers",
            Direction::Following => "/server/following",
        }
    }

    /// Member of a listing entry that holds the neighbor.
    pub fn entry_name(&self) -> (r: &'static str)
        ensures
            r@ == self.entry_name_spec(),
    {
        match self {
            Direction::Followers => "follower",
            Direction::Following => "following",
        }
    }
}

/// Why a request to a peer failed.
#[derive(Clone, Copy, PartialEq, Eq, Structural, Debug)]
pub enum TransportError {
    ConnectFailed,
    CertificateInvalid,
    ResolveFailed,
    Timeout,
    Other,
}

impl TransportError {
    /// Whether the failure is the expected background noise of a federation
    /// of independently run servers (unreachable, misconfigured TLS, unknown
    /// host), which is not worth a warning.
    pub fn is_background_noise(&self) -> (r: bool)
        ensures
            r == (*self == TransportError::ConnectFailed || *self == TransportError::CertificateInvalid
                || *self == TransportError::ResolveFailed),
    {
        match self {
            TransportError::ConnectFailed => true,
            TransportError::CertificateInvalid => true,
            TransportError::ResolveFailed => true,
            _ => false,
        }
    }
}

/// The total count a listing response reports: its member `total`, when
/// that is a non-negative integer.
pub open spec fn reported_total(page: Json) -> Option<u64> {
    match page.member("total"@) {
        Some(v) => v.as_u64_spec(),
        None => None,
    }
}

/// The entries of a listing response: its member `data`, when that is an array.
pub open spec fn page_entries(page: Json) -> Option<Seq<Json>> {
    match page.member("data"@) {
        Some(v) => v.as_array_spec(),
        None => None,
    }
}

/// The host named by one follow-listing entry: `entry[entry_name].host`.
pub open spec fn entry_host(entry: Json, entry_name: Seq<char>) -> Option<Seq<char>> {
    match entry.member(entry_name) {
        Some(side) => match side.member("host"@) {
            Some(h) => h.as_str_spec(),
            None => None,
        },
        None => None,
    }
}

/// The neighbors that `entries` name, in order, leaving out entries without
/// a host and those naming `own`, the peer being crawled.
pub open spec fn neighbors(entries: Seq<Json>, entry_name: Seq<char>, own: Seq<char>) -> Seq<
    Seq<char>,
>
    decreases entries.len(),
{
    if entries.len() == 0 {
        Seq::empty()
    } else {
        let rest = neighbors(entries.drop_last(), entry_name, own);
        match entry_host(entries.last(), entry_name) {
            Some(h) => if h == own {
                rest
            } else {
                rest.push(h)
            },
            None => rest,
        }
    }
}

/// What one listing page tells the fetch loop.
pub struct PageShape {
    /// The total the response reported, if any.
    pub total: Option<u64>,
    /// Number of entries on the page.
    pub entries: usize,
}

/// What one page of a follow listing holds.
pub struct FollowPage {
    /// The total the response reported, if any.
    pub total: Option<u64>,
    /// Number of entries on the page, with or without a usable host.
    pub entries: usize,
    /// The neighbors found on the page, other than the peer itself.
    pub hosts: Vec<String>,
}

/// Reads the total and the number of entries of a listing response; `None`
/// when the response has no `data` array (it does not follow the API).
pub fn page_shape(page: &Json) -> (r: Option<PageShape>)
    ensures
        match r {
            Some(p) => {
                &&& page_entries(*page) is Some
                &&& p.entries == page_entries(*page)->Some_0.len()
                &&& p.total == reported_total(*page)
            },
            None => page_entries(*page) is None,
        },
{
    let data = match page.get("data") {
        Some(d) => d.as_array(),
        None => None,
    };
    match data {
        Some(items) => {
            let total = match page.get("total") {
                Some(t) => t.as_u64(),
                None => None,
            };
            Some(PageShape { total, entries: items.len() })
        },
        None => None,
    }
}

/// The host named by one follow-listing entry.
fn host_of<'a>(entry: &'a Json, entry_name: &str) -> (r: Option<&'a String>)
    ensures
        match r {
            Some(h) => entry_host(*entry, entry_name@) == Some(h@),
            None => entry_host(*entry, entry_name@) is None,
        },
{
    match entry.get(entry_name) {
        Some(side) => match side.get("host") {
            Some(h) => h.as_str(),
            None => None,
        },
        None => None,
    }
}

/// Reads one page of the `direction` follow listing of the peer `own`.
/// `None` when the response has no `data` array.
pub fn follow_page(page: &Json, direction: Direction, own: &String) -> (r: Option<FollowPage>)
    ensures
        match r {
            Some(p) => {
                &&& page_entries(*page) is Some
                &&& p.entries == page_entries(*page)->Some_0.len()
                &&& p.total == reported_total(*page)
                &&& p.hosts.deep_view() == neighbors(
                    page_entries(*page)->Some_0,
                    direction.entry_name_spec(),
                    own@,
                )
            },
            None => page_entries(*page) is None,
        },
{
    let data = match page.get("data") {
        Some(d) => d.as_array(),
        None => None,
    };
    let items = match data {
        Some(items) => items,
        None => {
            return None;
        },
    };
    let total = match page.get("total") {
        Some(t) => t.as_u64(),
        None => None,
    };
    let entry_name = direction.entry_name();
    let mut hosts: Vec<String> = Vec::new();
    let mut i: usize = 0;
    while i < items.len()
        invariant
            0 <= i <= items@.len(),
            entry_name@ == direction.entry_name_spec(),
            hosts.deep_view() == neighbors(items@.take(i as int), entry_name@, own@),
        decreases items@.len() - i,
    {
        assert(items@.take(i + 1).drop_last() =~= items@.take(i as int));
        match host_of(&items[i], entry_name) {
            Some(h) => {
                if *h != *own {
                    hosts.push(h.clone());
                }
            },
            None => {},
        }
        assert(hosts.deep_view() =~= neighbors(items@.take(i + 1), entry_name@, own@));
        i = i + 1;
    }
    assert(items@.take(items@.len() as int) =~= items@);
    Some(FollowPage { total, entries: items.len(), hosts })
}

/// A peer never finds itself among its neighbors: whatever a follow listing
/// of `own` says, no neighbor read from it is `own`.
pub proof fn lemma_no_self_loop(entries: Seq<Json>, entry_name: Seq<char>, own: Seq<char>)
    ensures
        forall|i: int|
            0 <= i < neighbors(entries, entry_name, own).len() ==> #[trigger] neighbors(
                entries,
                entry_name,
                own,
            )[i] != own,
    decreases entries.len(),
{
    if entries.len() > 0 {
        let rest = neighbors(entries.drop_last(), entry_name, own);
        lemma_no_self_loop(entries.drop_last(), entry_name, own);
        let all = neighbors(entries, entry_name, own);
        assert forall|i: int| 0 <= i < all.len() implies #[trigger] all[i] != own by {
            if i < rest.len() {
                assert(all[i] == rest[i]);
            }
        }
    }
}

/// The character of the decimal digit `d`.
pub open spec fn digit_char(d: nat) -> char {
    if d == 0 {
        '0'
    } else if d == 1 {
        '1'
    } else if d == 2 {
        '2'
    } else if d == 3 {
        '3'
    } else if d == 4 {
        '4'
    } else if d == 5 {
        '5'
    } else if d == 6 {
        '6'
    } else if d == 7 {
        '7'
    } else if d == 8 {
        '8'
    } else {
        '9'
    }
}

/// `n` written in decimal, without leading zeros.
pub open spec fn decimal(n: nat) -> Seq<char>
    decreases n,
{
    if n < 10 {
        seq![digit_char(n)]
    } else {
        decimal(n / 10).push(digit_char(n % 10))
    }
}

fn digit_str(d: u64) -> (r: &'static str)
    requires
        d < 10,
    ensures
        r@ == seq![digit_char(d as nat)],
{
    proof {
        reveal_strlit("0");
        reveal_strlit("1");
        reveal_strlit("2");
        reveal_strlit("3");
        reveal_strlit("4");
        reveal_strlit("5");
        reveal_strlit("6");
        reveal_strlit("7");
        reveal_strlit("8");
        reveal_strlit("9");
    }
    if d == 0 {
        "0"
    } else if d == 1 {
        "1"
    } else if d == 2 {
        "2"
    } else if d == 3 {
        "3"
    } else if d == 4 {
        "4"
    } else if d == 5 {
        "5"
    } else if d == 6 {
        "6"
    } else if d == 7 {
        "7"
    } else if d == 8 {
        "8"
    } else {
        "9"
    }
}

/// Appends `n` in decimal to `s`.
pub fn push_decimal(s: &mut String, n: u64)
    ensures
        final(s)@ == old(s)@ + decimal(n as nat),
    decreases n,
{
    if n >= 10 {
        push_decimal(s, n / 10);
    }
    s.append(digit_str(n % 10));
    assert(old(s)@ + decimal(n as nat) =~= if n >= 10 {
        old(s)@ + decimal((n / 10) as nat) + seq![digit_char((n % 10) as nat)]
    } else {
        old(s)@ + seq![digit_char((n % 10) as nat)]
    });
}

/// URL of the page starting at `start` of the `direction` follow listing of `host`.
pub open spec fn follow_query_spec(host: Seq<char>, direction: Direction, page_size: nat, start: nat) -> Seq<char> {
    "https://"@ + host + "/api/v1"@ + direction.endpoint_spec() + "?count="@ + decimal(page_size)
        + "&start="@ + decimal(start)
}

/// URL of the page starting at `start` of the local content listing of `host`.
pub open spec fn content_query_spec(host: Seq<char>, page_size: nat, start: nat) -> Seq<char> {
    "https://"@ + host + "/api/v1/videos?count="@ + decimal(page_size) + "&filter=local&start="@
        + decimal(start)
}

/// URL of the instance list of the bootstrap directory, asking for `count` entries.
pub open spec fn directory_query_spec(count: nat) -> Seq<char> {
    "https://instances.joinpeertube.org/api/v1/instances?start=0&count="@ + decimal(count)
}

/// Builds the URL of one page of a follow listing.
pub fn follow_query(host: &String, direction: Direction, page_size: u64, start: u64) -> (r: String)
    ensures
        r@ == follow_query_spec(host@, direction, page_size as nat, start as nat),
{
    let mut q = String::from_str("https://");
    q.append(host.as_str());
    q.append("/api/v1");
    q.append(direction.endpoint());
    q.append("?count=");
    push_decimal(&mut q, page_size);
    q.append("&start=");
    push_decimal(&mut q, start);
    q
}

/// Builds the URL of one page of the local content listing.
pub fn content_query(host: &String, page_size: u64, start: u64) -> (r: String)
    ensures
        r@ == content_query_spec(host@, page_size as nat, start as nat),
{
    let mut q = String::from_str("https://");
    q.append(host.as_str());
    q.append("/api/v1/videos?count=");
    push_decimal(&mut q, page_size);
    q.append("&filter=local&start=");
    push_decimal(&mut q, start);
    q
}

/// Builds the URL of the bootstrap directory's instance list.
pub fn directory_query(count: u64) -> (r: String)
    ensures
        r@ == directory_query_spec(count as nat),
{
    let mut q = String::from_str("https://instances.joinpeertube.org/api/v1/instances?start=0&count=");
    push_decimal(&mut q, count);
    q
}

/// Reads the hosts out of the bootstrap directory's response: the string
/// member `host` of each entry of `data`, in order; entries without one are
/// left out. `None` when the response has no `data` array.
pub fn directory_hosts(page: &Json) -> (r: Option<Vec<String>>)
    ensures
        match r {
            Some(hosts) => page_entries(*page) is Some && hosts.deep_view() == directory_hosts_spec(
                page_entries(*page)->Some_0,
            ),
            None => page_entries(*page) is None,
        },
{
    let data = match page.get("data") {
        Some(d) => d.as_array(),
        None => None,
    };
    let items = match data {
        Some(items) => items,
        None => {
            return None;
        },
    };
    let mut hosts: Vec<String> = Vec::new();
    let mut i: usize = 0;
    while i < items.len()
        invariant
            0 <= i <= items@.len(),
            hosts.deep_view() == directory_hosts_spec(items@.take(i as int)),
        decreases items@.len() - i,
    {
        assert(items@.take(i + 1).drop_last() =~= items@.take(i as int));
        let host = match items[i].get("host") {
            Some(h) => h.as_str(),
            None => None,
        };
        match host {
            Some(h) => {
                hosts.push(h.clone());
            },
            None => {},
        }
        assert(hosts.deep_view() =~= directory_hosts_spec(items@.take(i + 1)));
        i = i + 1;
    }
    assert(items@.take(items@.len() as int) =~= items@);
    Some(hosts)
}

/// The string members `host` of `entries`, in order.
pub open spec fn directory_hosts_spec(entries: Seq<Json>) -> Seq<Seq<char>>
    decreases entries.len(),
{
    if entries.len() == 0 {
        Seq::empty()
    } else {
        let rest = directory_hosts_spec(entries.drop_last());
        match entries.last().member("host"@) {
            Some(h) => match h.as_str_spec() {
                Some(s) => rest.push(s),
                None => rest,
            },
            None => rest,
        }
    }
}

} // verus!
