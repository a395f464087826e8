//! The fetches run for one instance: its two follow listings, which feed the
//! scheduler, and its content listing, which feeds the harvest.
use crate::crawl::{schedule_all, Admission, APIInstance, CrawlState};
use crate::json::Json;
use crate::paging::{CursorState, PageCursor};
use crate::peer::{
    content_query, content_query_spec, follow_page, follow_query, follow_query_spec, neighbors,
    page_entries, page_shape, reported_total, Direction,
};
use vstd::prelude::*;
use vstd::string::StringExecFns;

verus! {

/// A neighbor found on a follow-listing page, with what scheduling it decided.
pub struct Scheduled {
    pub host: String,
    pub admission: Admission,
}

/// The hosts of `found`.
pub open spec fn hosts_of(found: Seq<Scheduled>) -> Seq<Seq<char>> {
    found.map_values(|x: Scheduled| x.host@)
}

/// The admissions of `found`.
pub open spec fn admissions_of(found: Seq<Scheduled>) -> Seq<Admission> {
    found.map_values(|x: Scheduled| x.admission)
}

/// The neighbor list of `record` in `direction`.
pub open spec fn listed(record: APIInstance, direction: Direction) -> Seq<Seq<char>> {
    match direction {
        Direction::Followers => record.followers.deep_view(),
        Direction::Following => record.following.deep_view(),
    }
}

/// The neighbor list of `record` in the other direction.
pub open spec fn listed_other(record: APIInstance, direction: Direction) -> Seq<Seq<char>> {
    match direction {
        Direction::Followers => record.following.deep_view(),
        Direction::Following => record.followers.deep_view(),
    }
}

/// One follow-listing fetch of one instance.
pub struct FollowFetch {
    pub direction: Direction,
    pub page_size: u64,
    pub cursor: PageCursor,
}

impl FollowFetch {
    /// A fetch of the `direction` listing, asking for pages of `page_size` entries.
    pub fn new(direction: Direction, page_size: u64) -> (r: FollowFetch)
        ensures
            r.direction == direction,
            r.page_size == page_size,
            r.cursor@ == CursorState::initial(),
    {
        FollowFetch { direction, page_size, cursor: PageCursor::new() }
    }

    /// The URL of the next page to request from `host`; `None` once the
    /// fetch is over.
    pub fn next_query(&self, host: &String) -> (r: Option<String>)
        ensures
            self.cursor@.wants_page() ==> r is Some && r->Some_0@ == follow_query_spec(
                host@,
                self.direction,
                self.page_size as nat,
                self.cursor@.index,
            ),
            !self.cursor@.wants_page() ==> r is None,
    {
        if self.cursor.wants_page() {
            Some(follow_query(host, self.direction, self.page_size, self.cursor.next_start()))
        } else {
            None
        }
    }

    /// Takes in the response to the last request: `None` when the request
    /// failed or its body was not JSON. A response that is a listing records
    /// its neighbors in `record`, schedules each of them in `state`, and
    /// returns each of them with its admission. Anything else ends this
    /// fetch alone: the record, the scheduler and every other fetch are left
    /// as they were.
    pub fn on_page(&mut self, page: Option<&Json>, record: &mut APIInstance, state: &mut CrawlState) -> (r:
        Vec<Scheduled>)
        requires
            old(state).wf(),
        ensures
            final(state).wf(),
            final(self).direction == old(self).direction,
            final(self).page_size == old(self).page_size,
            final(record).name == old(record).name,
            listed_other(*final(record), old(self).direction) == listed_other(
                *old(record),
                old(self).direction,
            ),
            match page {
                Some(json) if page_entries(*json) is Some => {
                    let hosts = neighbors(
                        page_entries(*json)->Some_0,
                        old(self).direction.entry_name_spec(),
                        old(record).name@,
                    );
                    &&& final(self).cursor@ == old(self).cursor@.after_page(
                        page_entries(*json)->Some_0.len(),
                        match reported_total(*json) {
                            Some(t) => Some(t as nat),
                            None => None,
                        },
                    )
                    &&& listed(*final(record), old(self).direction) == listed(
                        *old(record),
                        old(self).direction,
                    ) + hosts
                    &&& final(state)@ == schedule_all(old(state)@, hosts).0
                    &&& hosts_of(r@) == hosts
                    &&& admissions_of(r@) == schedule_all(old(state)@, hosts).1
                },
                _ => {
                    &&& final(self).cursor@ == old(self).cursor@.after_failure()
                    &&& *final(record) == *old(record)
                    &&& final(state)@ == old(state)@
                    &&& r@.len() == 0
                },
            },
    {
        let mut launch: Vec<Scheduled> = Vec::new();
        let json = match page {
            Some(json) => json,
            None => {
                self.cursor.on_failure();
                return launch;
            },
        };
        let found = match follow_page(json, self.direction, &record.name) {
            Some(found) => found,
            None => {
                self.cursor.on_failure();
                return launch;
            },
        };
        self.cursor.on_page(found.entries, found.total);
        let hosts = found.hosts;
        let ghost s0 = state@;
        let ghost r0 = *record;
        proof {
            crate::peer::lemma_no_self_loop(
                page_entries(*json)->Some_0,
                self.direction.entry_name_spec(),
                record.name@,
            );
        }
        assert forall|k: int| 0 <= k < hosts@.len() implies #[trigger] hosts@[k]@ != r0.name@ by {
            assert(hosts.deep_view()[k] == hosts@[k]@);
        }
        let mut i: usize = 0;
        while i < hosts.len()
            invariant
                0 <= i <= hosts@.len(),
                state.wf(),
                record.name == r0.name,
                forall|k: int| 0 <= k < hosts@.len() ==> #[trigger] hosts@[k]@ != r0.name@,
                hosts.deep_view() == neighbors(
                    page_entries(*json)->Some_0,
                    self.direction.entry_name_spec(),
                    r0.name@,
                ),
                state@ == schedule_all(s0, hosts.deep_view().take(i as int)).0,
                hosts_of(launch@) == hosts.deep_view().take(i as int),
                admissions_of(launch@) == schedule_all(s0, hosts.deep_view().take(i as int)).1,
                listed(*record, self.direction) == listed(r0, self.direction) + hosts.deep_view().take(
                    i as int,
                ),
                listed_other(*record, self.direction) == listed_other(r0, self.direction),
            decreases hosts@.len() - i,
        {
            let ghost before = hosts.deep_view().take(i as int);
            let ghost after = hosts.deep_view().take(i + 1);
            assert(after.drop_last() =~= before);
            assert(after.last() == hosts@[i as int]@);
            assert(hosts.deep_view()[i as int] == hosts@[i as int]@);
            let admission = state.schedule(&hosts[i]);
            launch.push(Scheduled { host: hosts[i].clone(), admission });
            assert(hosts_of(launch@) =~= after);
            assert(admissions_of(launch@) =~= schedule_all(s0, after).1);
            let ghost rec_before = *record;
            record.add_neighbor(self.direction, hosts[i].clone());
            proof {
                if self.direction == Direction::Followers {
                    assert(record.followers.deep_view() =~= rec_before.followers.deep_view().push(
                        hosts@[i as int]@,
                    ));
                } else {
                    assert(record.following.deep_view() =~= rec_before.following.deep_view().push(
                        hosts@[i as int]@,
                    ));
                }
            }
            assert(listed(*record, self.direction) =~= listed(r0, self.direction) + after);
            i = i + 1;
        }
        assert(hosts.deep_view().take(hosts@.len() as int) =~= hosts.deep_view());
        launch
    }
}

/// The content-listing fetch of one instance.
pub struct ContentFetch {
    pub page_size: u64,
    pub cursor: PageCursor,
}

impl ContentFetch {
    /// A fetch asking for pages of `page_size` entries.
    pub fn new(page_size: u64) -> (r: ContentFetch)
        ensures
            r.page_size == page_size,
            r.cursor@ == CursorState::initial(),
    {
        ContentFetch { page_size, cursor: PageCursor::new() }
    }

    /// The URL of the next page to request from `host`; `None` once the
    /// fetch is over.
    pub fn next_query(&self, host: &String) -> (r: Option<String>)
        ensures
            self.cursor@.wants_page() ==> r is Some && r->Some_0@ == content_query_spec(
                host@,
                self.page_size as nat,
                self.cursor@.index,
            ),
            !self.cursor@.wants_page() ==> r is None,
    {
        if self.cursor.wants_page() {
            Some(content_query(host, self.page_size, self.cursor.next_start()))
        } else {
            None
        }
    }

    /// Takes in the response to the last request (`None`: the request failed
    /// or its body was not JSON). Returns whether it is a listing, whose
    /// `data` entries are then to be harvested; anything else ends the fetch.
    pub fn on_page(&mut self, page: Option<&Json>) -> (r: bool)
        ensures
            final(self).page_size == old(self).page_size,
            match page {
                Some(json) if page_entries(*json) is Some => {
                    &&& r
                    &&& final(self).cursor@ == old(self).cursor@.after_page(
                        page_entries(*json)->Some_0.len(),
                        match reported_total(*json) {
                            Some(t) => Some(t as nat),
                            None => None,
                        },
                    )
                },
                _ => !r && final(self).cursor@ == old(self).cursor@.after_failure(),
            },
    {
        let shape = match page {
            Some(json) => page_shape(json),
            None => None,
        };
        match shape {
            Some(shape) => {
                self.cursor.on_page(shape.entries, shape.total);
                true
            },
            None => {
                self.cursor.on_failure();
                false
            },
        }
    }
}

/// Where the harvest of `host` is written: one file per instance.
pub open spec fn harvest_path_spec(host: Seq<char>) -> Seq<char> {
    "crawled/"@ + host + ".json"@
}

/// Builds the path of the harvest file of `host`.
pub fn harvest_path(host: &String) -> (r: String)
    ensures
        r@ == harvest_path_spec(host@),
{
    let mut p = String::from_str("crawled/");
    p.append(host.as_str());
    p.append(".json");
    p
}

} // verus!
