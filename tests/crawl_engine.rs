use peertube_lib::crawl::{initial_seeds, APIInstance, Admission, CrawlState};
use peertube_lib::fetch::{harvest_path, ContentFetch, FollowFetch, Scheduled};
use peertube_lib::json::Json;
use peertube_lib::paging::PageCursor;
use peertube_lib::peer::{
    content_query, directory_hosts, directory_query, follow_page, follow_query, page_shape,
    push_decimal, Direction,
};
use peertube_lib::video_storage::{next_index_step, Database, IndexStep};

fn s(text: &str) -> String {
    text.to_string()
}

fn obj(fields: Vec<(&str, Json)>) -> Json {
    Json::Object(fields.into_iter().map(|(k, v)| (k.to_string(), v)).collect())
}

fn follow_entry(entry_name: &str, host: &str) -> Json {
    obj(vec![(entry_name, obj(vec![("host", Json::Str(s(host)))]))])
}

fn listing(total: Option<u64>, data: Vec<Json>) -> Json {
    let mut fields = vec![("data", Json::Array(data))];
    if let Some(t) = total {
        fields.push(("total", Json::UInt(t)));
    }
    obj(fields)
}

/// The hosts among `found` that are to be crawled now.
fn launched(found: Vec<Scheduled>) -> Vec<String> {
    found.into_iter().filter(|f| f.admission == Admission::Launch).map(|f| f.host).collect()
}

/// Runs a cursor against a peer holding `total` items and serving pages of
/// `page` entries; returns the number of requests and the items received.
fn run_mock(total: u64, page: u64) -> (u64, u64) {
    let mut cursor = PageCursor::new();
    let mut requests = 0;
    while cursor.wants_page() {
        requests += 1;
        let start = cursor.next_start();
        let served = if start >= total { 0 } else { std::cmp::min(page, total - start) };
        cursor.on_page(served as usize, Some(total));
    }
    (requests, cursor.fetched())
}

#[test]
fn pagination_makes_ceil_requests() {
    assert_eq!(run_mock(250, 100), (3, 250));
    assert_eq!(run_mock(200, 100), (2, 200));
    assert_eq!(run_mock(1, 100), (1, 1));
    assert_eq!(run_mock(7, 1), (7, 7));
}

#[test]
fn pagination_of_empty_listing_makes_one_request() {
    assert_eq!(run_mock(0, 100), (1, 0));
}

#[test]
fn cursor_without_reported_total_stops_after_first_page() {
    let mut cursor = PageCursor::new();
    assert!(cursor.wants_page());
    assert_eq!(cursor.known_total(), None);
    cursor.on_page(5, None);
    assert_eq!(cursor.fetched(), 5);
    assert_eq!(cursor.known_total(), Some(5));
    assert!(!cursor.wants_page());
}

#[test]
fn cursor_keeps_first_reported_total() {
    let mut cursor = PageCursor::new();
    cursor.on_page(10, Some(30));
    cursor.on_page(10, Some(1000));
    assert_eq!(cursor.known_total(), Some(30));
    assert_eq!(cursor.next_start(), 20);
    assert!(cursor.wants_page());
}

#[test]
fn cursor_stops_on_empty_page_and_on_failure() {
    let mut cursor = PageCursor::new();
    cursor.on_page(10, Some(100));
    cursor.on_page(0, Some(100));
    assert!(!cursor.wants_page());
    assert_eq!(cursor.fetched(), 10);

    let mut other = PageCursor::new();
    other.on_page(10, Some(100));
    other.on_failure();
    assert!(!other.wants_page());
    assert_eq!(other.fetched(), 10);
}

#[test]
fn cursor_index_saturates() {
    let mut cursor = PageCursor::new();
    cursor.on_page(10, Some(u64::MAX));
    cursor.on_page(usize::MAX, None);
    assert_eq!(cursor.fetched(), u64::MAX);
    assert!(!cursor.wants_page());
}

#[test]
fn json_lookup_takes_first_matching_key() {
    let v = obj(vec![("a", Json::UInt(1)), ("b", Json::Bool(true)), ("a", Json::UInt(2))]);
    assert_eq!(v.get("a").and_then(|x| x.as_u64()), Some(1));
    assert!(v.get("c").is_none());
    assert!(Json::Array(vec![]).get("a").is_none());
    assert_eq!(Json::NegInt(-3).as_u64(), None);
    assert_eq!(Json::Str(s("x")).as_str(), Some(&s("x")));
}

#[test]
fn follow_page_reads_hosts_and_skips_self() {
    let page = listing(
        Some(4),
        vec![
            follow_entry("following", "b.example"),
            follow_entry("following", "a.example"),
            obj(vec![("following", obj(vec![("name", Json::Str(s("x")))]))]),
            follow_entry("following", "c.example"),
        ],
    );
    let found = follow_page(&page, Direction::Following, &s("a.example")).unwrap();
    assert_eq!(found.total, Some(4));
    assert_eq!(found.entries, 4);
    assert_eq!(found.hosts, vec![s("b.example"), s("c.example")]);

    let by_followers = follow_page(&page, Direction::Followers, &s("a.example")).unwrap();
    assert!(by_followers.hosts.is_empty());
}

#[test]
fn follow_page_without_data_is_rejected() {
    let page = obj(vec![("total", Json::UInt(3)), ("data", Json::Str(s("oops")))]);
    assert!(follow_page(&page, Direction::Followers, &s("a.example")).is_none());
    assert!(page_shape(&page).is_none());
    assert!(page_shape(&Json::Null).is_none());
}

#[test]
fn page_shape_counts_entries() {
    let page = listing(None, vec![Json::Null, Json::UInt(1)]);
    let shape = page_shape(&page).unwrap();
    assert_eq!(shape.entries, 2);
    assert_eq!(shape.total, None);
}

#[test]
fn queries_are_built_exactly() {
    assert_eq!(
        follow_query(&s("peer.example"), Direction::Following, 100, 0),
        "https://peer.example/api/v1/server/following?count=100&start=0"
    );
    assert_eq!(
        follow_query(&s("peer.example"), Direction::Followers, 100, 1230),
        "https://peer.example/api/v1/server/followers?count=100&start=1230"
    );
    assert_eq!(
        content_query(&s("peer.example"), 50, 250),
        "https://peer.example/api/v1/videos?count=50&filter=local&start=250"
    );
    assert_eq!(
        directory_query(100000000),
        "https://instances.joinpeertube.org/api/v1/instances?start=0&count=100000000"
    );
    assert_eq!(harvest_path(&s("b.example")), "crawled/b.example.json");
}

#[test]
fn decimal_rendering() {
    let mut text = s("n=");
    push_decimal(&mut text, 0);
    assert_eq!(text, "n=0");
    let mut big = String::new();
    push_decimal(&mut big, u64::MAX);
    assert_eq!(big, u64::MAX.to_string());
    let mut mid = String::new();
    push_decimal(&mut mid, 1090);
    assert_eq!(mid, "1090");
}

#[test]
fn directory_hosts_are_read_in_order() {
    let page = listing(
        None,
        vec![
            obj(vec![("host", Json::Str(s("one.example")))]),
            obj(vec![("host", Json::UInt(3))]),
            obj(vec![("host", Json::Str(s("two.example")))]),
        ],
    );
    assert_eq!(directory_hosts(&page), Some(vec![s("one.example"), s("two.example")]));
    assert_eq!(directory_hosts(&obj(vec![])), None);
}

#[test]
fn claim_is_granted_once() {
    let mut state = CrawlState::new(0);
    let id = s("a.example");
    let answers: Vec<bool> = (0..5).map(|_| state.try_claim(&id)).collect();
    assert_eq!(answers, vec![true, false, false, false, false]);
    assert_eq!(state.visited_count(), 1);
    assert!(state.contains(&id));
    assert!(!state.contains(&s("b.example")));
}

#[test]
fn budget_caps_launches() {
    let mut state = CrawlState::new(2);
    let ids = ["a", "b", "a", "c", "d"];
    let admissions: Vec<Admission> = ids.iter().map(|i| state.schedule(&s(i))).collect();
    assert_eq!(
        admissions,
        vec![
            Admission::Launch,
            Admission::Launch,
            Admission::OverBudget,
            Admission::OverBudget,
            Admission::OverBudget,
        ]
    );
    assert_eq!(state.launched(), 2);
    assert_eq!(state.visited_count(), 2);
    assert!(!state.contains(&s("c")));
}

#[test]
fn unbounded_budget_dedups() {
    let mut state = CrawlState::new(0);
    assert_eq!(state.schedule(&s("a")), Admission::Launch);
    assert_eq!(state.schedule(&s("a")), Admission::AlreadyClaimed);
    assert_eq!(state.schedule(&s("b")), Admission::Launch);
    assert_eq!(state.launched(), 2);
    assert!(Admission::AlreadyClaimed.notifies_registry());
    assert!(Admission::Launch.notifies_registry());
    assert!(!Admission::OverBudget.notifies_registry());
}

#[test]
fn reseeding_changes_nothing() {
    let ids = ["a", "b", "c", "b"];
    let mut state = CrawlState::new(0);
    for i in ids.iter() {
        state.try_claim(&s(i));
    }
    let before = state.visited_count();
    for i in ids.iter() {
        assert!(!state.try_claim(&s(i)));
        assert_eq!(state.schedule(&s(i)), Admission::AlreadyClaimed);
    }
    assert_eq!(state.visited_count(), before);
    assert_eq!(before, 3);
}

#[test]
fn seeds_prefer_root_then_registry() {
    assert_eq!(initial_seeds(Some(s("r")), vec![s("x")]), Some(vec![s("r")]));
    assert_eq!(initial_seeds(None, vec![s("x"), s("y")]), Some(vec![s("x"), s("y")]));
    assert_eq!(initial_seeds(None, vec![]), None);
}

#[test]
fn record_never_lists_itself() {
    let mut record = APIInstance::new(s("a.example"));
    record.add_neighbor(Direction::Followers, s("a.example"));
    record.add_neighbor(Direction::Followers, s("b.example"));
    record.add_neighbor(Direction::Following, s("c.example"));
    assert_eq!(record.followers, vec![s("b.example")]);
    assert_eq!(record.following, vec![s("c.example")]);
}

#[test]
fn self_listing_peer_is_not_scheduled() {
    let mut state = CrawlState::new(0);
    let own = s("a.example");
    assert!(state.try_claim(&own));
    let mut record = APIInstance::new(own.clone());
    let mut fetch = FollowFetch::new(Direction::Followers, 100);
    let page = listing(Some(1), vec![follow_entry("follower", "a.example")]);
    let launch = fetch.on_page(Some(&page), &mut record, &mut state);
    assert!(launch.is_empty());
    assert!(record.followers.is_empty());
    assert_eq!(state.visited_count(), 1);
}

#[test]
fn malformed_follow_page_is_isolated() {
    let mut state = CrawlState::new(0);
    state.try_claim(&s("a.example"));
    state.try_claim(&s("b.example"));

    // Peer A answers its follow listing with JSON of the wrong shape.
    let mut record_a = APIInstance::new(s("a.example"));
    let mut follow_a = FollowFetch::new(Direction::Following, 100);
    let mut content_a = ContentFetch::new(100);
    let bad = obj(vec![("error", Json::Str(s("nope")))]);
    assert!(follow_a.on_page(Some(&bad), &mut record_a, &mut state).is_empty());
    assert!(follow_a.next_query(&s("a.example")).is_none());

    // Peer B's neighbors are still scheduled.
    let mut record_b = APIInstance::new(s("b.example"));
    let mut follow_b = FollowFetch::new(Direction::Following, 100);
    let page_b = listing(Some(1), vec![follow_entry("following", "c.example")]);
    let launch = launched(follow_b.on_page(Some(&page_b), &mut record_b, &mut state));
    assert_eq!(launch, vec![s("c.example")]);

    // Peer A's content fetch goes on.
    assert_eq!(
        content_a.next_query(&s("a.example")),
        Some(s("https://a.example/api/v1/videos?count=100&filter=local&start=0"))
    );
    let videos = listing(Some(3), vec![Json::Null, Json::Null]);
    assert!(content_a.on_page(Some(&videos)));
    assert_eq!(
        content_a.next_query(&s("a.example")),
        Some(s("https://a.example/api/v1/videos?count=100&filter=local&start=2"))
    );
    assert!(!content_a.on_page(None));
    assert!(content_a.next_query(&s("a.example")).is_none());
}

#[test]
fn over_budget_neighbors_are_reported() {
    let mut state = CrawlState::new(1);
    assert_eq!(state.schedule(&s("a.example")), Admission::Launch);
    let mut record = APIInstance::new(s("a.example"));
    let mut fetch = FollowFetch::new(Direction::Following, 100);
    let page = listing(Some(1), vec![follow_entry("following", "b.example")]);
    let found = fetch.on_page(Some(&page), &mut record, &mut state);
    assert_eq!(found.len(), 1);
    assert_eq!(found[0].admission, Admission::OverBudget);
    assert!(!found[0].admission.notifies_registry());
    assert_eq!(record.following, vec![s("b.example")]);
    assert_eq!(state.visited_count(), 1);
}

#[test]
fn follow_fetch_pages_through_listing() {
    let mut state = CrawlState::new(0);
    state.try_claim(&s("a.example"));
    let mut record = APIInstance::new(s("a.example"));
    let mut fetch = FollowFetch::new(Direction::Followers, 2);
    assert_eq!(
        fetch.next_query(&s("a.example")),
        Some(s("https://a.example/api/v1/server/followers?count=2&start=0"))
    );
    let first = listing(
        Some(3),
        vec![follow_entry("follower", "b.example"), follow_entry("follower", "c.example")],
    );
    assert_eq!(
        launched(fetch.on_page(Some(&first), &mut record, &mut state)),
        vec![s("b.example"), s("c.example")]
    );
    assert_eq!(
        fetch.next_query(&s("a.example")),
        Some(s("https://a.example/api/v1/server/followers?count=2&start=2"))
    );
    let second = listing(Some(3), vec![follow_entry("follower", "b.example")]);
    let again = fetch.on_page(Some(&second), &mut record, &mut state);
    assert_eq!(again.len(), 1);
    assert_eq!(again[0].host, "b.example");
    assert_eq!(again[0].admission, Admission::AlreadyClaimed);
    assert!(fetch.next_query(&s("a.example")).is_none());
    assert_eq!(record.followers, vec![s("b.example"), s("c.example"), s("b.example")]);
}

/// Seed `a.example`, which follows `b.example`; `b.example` has no neighbors
/// and two content items on one page.
#[test]
fn two_instance_crawl() {
    let mut state = CrawlState::new(0);
    let mut queue: Vec<String> = Vec::new();
    for seed in initial_seeds(Some(s("a.example")), vec![]).unwrap() {
        if state.schedule(&seed) == Admission::Launch {
            queue.push(seed);
        }
    }
    let mut harvested: Vec<(String, usize)> = Vec::new();
    while let Some(host) = queue.pop() {
        let mut record = APIInstance::new(host.clone());
        for direction in [Direction::Following, Direction::Followers] {
            let mut fetch = FollowFetch::new(direction, 100);
            while fetch.next_query(&host).is_some() {
                let entries = if host == "a.example" && direction == Direction::Following {
                    vec![follow_entry("following", "b.example")]
                } else {
                    vec![]
                };
                let page = listing(Some(entries.len() as u64), entries);
                queue.extend(launched(fetch.on_page(Some(&page), &mut record, &mut state)));
            }
        }
        let mut content = ContentFetch::new(100);
        let mut items = 0;
        while content.next_query(&host).is_some() {
            let data = if host == "b.example" { vec![Json::Null, Json::Null] } else { vec![] };
            let count = data.len();
            let page = listing(Some(count as u64), data);
            if content.on_page(Some(&page)) {
                items += count;
            }
        }
        if items > 0 {
            harvested.push((harvest_path(&host), items));
        }
    }
    assert_eq!(state.visited_count(), 2);
    assert!(state.contains(&s("a.example")));
    assert!(state.contains(&s("b.example")));
    assert_eq!(harvested, vec![(s("crawled/b.example.json"), 2)]);
}

#[test]
fn index_upserts_by_uuid() {
    let db = Database::new(7u8);
    assert_eq!(*db.client(), 7);
    assert_eq!(next_index_step(None), IndexStep::Update);
    assert_eq!(next_index_step(Some((IndexStep::Update, false))), IndexStep::Index);
    assert_eq!(next_index_step(Some((IndexStep::Update, true))), IndexStep::Done);
    assert_eq!(next_index_step(Some((IndexStep::Index, false))), IndexStep::Done);
}
