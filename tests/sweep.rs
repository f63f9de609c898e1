use std::collections::HashMap;

use replay_downloader::limiter::{Limiter, Wait};
use replay_downloader::sweep::{Action, Config, Event, Fault, Phase, Reply, Sweep};

const NO_WAIT: Wait = Wait { slot: false, cooldown: false, window: false };
const SLOT: Wait = Wait { slot: true, cooldown: false, window: false };
const COOLDOWN: Wait = Wait { slot: true, cooldown: true, window: false };

fn config(categories: &[&str], page_size: u64) -> Config {
    Config {
        api_url: "https://example.org/api/replays".to_string(),
        playlist: "ranked-standard".to_string(),
        season: "f13".to_string(),
        page_size,
        categories: categories.iter().map(|c| c.to_string()).collect(),
        call_budget: 500,
    }
}

fn page(count: u64, links: &[Option<&str>], next: Option<&str>) -> String {
    let items: Vec<String> = links
        .iter()
        .map(|l| match l {
            Some(l) => format!("{{\"id\":\"x\",\"link\":\"{l}\"}}"),
            None => "{\"id\":\"x\"}".to_string(),
        })
        .collect();
    let next = match next {
        Some(n) => format!("\"{n}\""),
        None => "null".to_string(),
    };
    format!("{{\"count\":{count},\"list\":[{}],\"next\":{next}}}", items.join(","))
}

/// An in-memory store and upstream that answer the machine's actions.
struct World {
    pages: HashMap<(usize, u64), String>,
    counters: HashMap<usize, String>,
    artifacts: HashMap<(usize, u64), String>,
    upstream: HashMap<String, Reply>,
    calls: Vec<String>,
    artifact_writes: Vec<(usize, u64)>,
    visits: Vec<Action>,
    download_waits: Vec<Wait>,
    pending: Option<Action>,
}

impl World {
    fn new() -> World {
        World {
            pages: HashMap::new(),
            counters: HashMap::new(),
            artifacts: HashMap::new(),
            upstream: HashMap::new(),
            calls: Vec::new(),
            artifact_writes: Vec::new(),
            visits: Vec::new(),
            download_waits: Vec::new(),
            pending: None,
        }
    }

    fn answer(&mut self, action: &Action) -> Event {
        match action {
            Action::Visit { category, .. } => {
                self.visits.push(action.clone());
                Event::Counter(self.counters.get(category).cloned())
            }
            Action::LoadPages { category, index } => Event::Pages {
                current: self.pages.get(&(*category, *index)).cloned(),
                previous: if *index == 0 {
                    None
                } else {
                    self.pages.get(&(*category, index - 1)).cloned()
                },
            },
            Action::FetchPage { url, .. } => {
                self.calls.push(url.clone());
                Event::Reply(self.upstream.get(url).cloned())
            }
            Action::Download { url, wait, .. } => {
                self.download_waits.push(*wait);
                self.calls.push(url.clone());
                Event::Reply(self.upstream.get(url).cloned())
            }
            Action::SavePage { category, index, page } => {
                self.pages.insert((*category, *index), page.clone());
                Event::Done
            }
            Action::SaveArtifact { category, counter, payload } => {
                self.artifacts.insert((*category, *counter), payload.clone());
                self.artifact_writes.push((*category, *counter));
                Event::Done
            }
            Action::SaveCounter { category, value } => {
                self.counters.insert(*category, value.to_string());
                Event::Done
            }
            Action::Halt { .. } => Event::Done,
        }
    }

    /// Runs the machine through `visits` visits in all; returns the action that
    /// would begin the next one.
    fn run(&mut self, sweep: &mut Sweep, visits: usize) -> Action {
        let mut event = match self.pending.take() {
            Some(action) => self.answer(&action),
            None => Event::Start,
        };
        loop {
            let action = sweep.step(event);
            assert!(!matches!(action, Action::Halt { .. }), "halted: {action:?}");
            if let Action::Visit { .. } = action {
                if self.visits.len() == visits {
                    self.pending = Some(action.clone());
                    return action;
                }
            }
            event = self.answer(&action);
        }
    }
}

fn ok(body: &str) -> Reply {
    Reply { status: 200, body: Some(body.to_string()) }
}

#[test]
fn five_items_then_caught_up_forever() {
    let links = ["u/0", "u/1", "u/2", "u/3", "u/4"];
    let mut w = World::new();
    w.pages.insert((0, 0), page(5, &links.map(Some), None));
    w.counters.insert(0, "0".to_string());
    for (i, l) in links.iter().enumerate() {
        w.upstream.insert(l.to_string(), ok(&format!("{{\"replay\":{i}}}")));
    }
    let mut sweep = Sweep::new(config(&["gold-2"], 200));
    w.run(&mut sweep, 5);
    assert_eq!(w.counters[&0], "5");
    assert_eq!(w.calls, links.map(String::from).to_vec());
    for i in 0..5u64 {
        assert_eq!(w.artifacts[&(0, i)], format!("{{\"replay\":{i}}}"));
    }
    // every later visit reports the category caught up, skips the wait, calls nothing
    w.run(&mut sweep, 20);
    assert_eq!(w.calls.len(), 5);
    assert_eq!(w.artifacts.len(), 5);
    assert_eq!(w.counters[&0], "5");
    assert_eq!(w.visits.len(), 20);
    assert_eq!(w.visits[5], Action::Visit { category: 0, wait: SLOT });
    for v in &w.visits[6..] {
        assert_eq!(*v, Action::Visit { category: 0, wait: NO_WAIT });
    }
}

#[test]
fn restart_after_crash_reattempts_the_item_once() {
    let mut w = World::new();
    w.pages.insert((0, 0), page(4, &[Some("u/0"), Some("u/1"), Some("u/2"), Some("u/3")], None));
    // the artifact at 2 was written (partly) but the counter still says 2
    w.counters.insert(0, "2".to_string());
    w.artifacts.insert((0, 2), "{\"replay\":2".to_string());
    w.upstream.insert("u/2".to_string(), ok("{\"replay\":2}"));
    w.upstream.insert("u/3".to_string(), ok("{\"replay\":3}"));
    let mut sweep = Sweep::new(config(&["gold-2"], 200));
    w.run(&mut sweep, 1);
    assert_eq!(w.calls, vec!["u/2".to_string()]);
    assert_eq!(w.artifact_writes, vec![(0, 2)]);
    assert_eq!(w.artifacts[&(0, 2)], "{\"replay\":2}");
    assert_eq!(w.counters[&0], "3");
}

#[test]
fn counter_matches_artifacts_and_skips() {
    let mut w = World::new();
    w.pages.insert((0, 0), page(3, &[Some("u/0"), None, Some("u/2")], None));
    w.pages.insert((1, 0), page(1, &[Some("v/0")], None));
    w.counters.insert(0, "0".to_string());
    w.counters.insert(1, "0".to_string());
    for l in ["u/0", "u/2", "v/0"] {
        w.upstream.insert(l.to_string(), ok("{}"));
    }
    let mut sweep = Sweep::new(config(&["a", "b"], 200));
    w.run(&mut sweep, 12);
    assert_eq!(w.counters[&0], "3");
    assert_eq!(w.counters[&1], "1");
    let keys: Vec<(usize, u64)> = {
        let mut k: Vec<_> = w.artifacts.keys().cloned().collect();
        k.sort();
        k
    };
    assert_eq!(keys, vec![(0, 0), (0, 2), (1, 0)]);
}

#[test]
fn next_page_is_fetched_by_repaired_link_and_stored() {
    let mut w = World::new();
    let next = "https://example.org/api/replays?after=p1&max-rank=&min-rank=gold-2";
    let fixed = "https://example.org/api/replays?after=p1&max-rank=gold-2&min-rank=gold-2";
    w.pages.insert((0, 0), page(4, &[Some("u/0"), Some("u/1")], Some(next)));
    w.counters.insert(0, "2".to_string());
    let second = page(4, &[Some("u/2"), Some("u/3")], None);
    w.upstream.insert(fixed.to_string(), ok(&second));
    w.upstream.insert("u/2".to_string(), ok("{\"replay\":2}"));
    let mut sweep = Sweep::new(config(&["gold-2"], 2));
    w.run(&mut sweep, 1);
    assert_eq!(w.calls, vec![fixed.to_string(), "u/2".to_string()]);
    // the page fetch used the visit's slot; the download waited for its own
    assert_eq!(w.download_waits, vec![SLOT]);
    assert_eq!(w.pages[&(0, 1)], second);
    assert_eq!(w.artifacts[&(0, 2)], "{\"replay\":2}");
    assert_eq!(w.counters[&0], "3");
}

#[test]
fn stored_page_is_never_fetched_again() {
    let mut sweep = Sweep::new(config(&["gold-2"], 2));
    sweep.step(Event::Start);
    let a = sweep.step(Event::Counter(Some("2".to_string())));
    assert_eq!(a, Action::LoadPages { category: 0, index: 1 });
    let a = sweep.step(Event::Pages {
        current: Some(page(4, &[Some("u/2"), Some("u/3")], None)),
        previous: Some(page(4, &[Some("u/0"), Some("u/1")], Some("n?max-rank=&"))),
    });
    assert_eq!(a, Action::Download { category: 0, counter: 2, url: "u/2".to_string(), wait: NO_WAIT });
}

#[test]
fn no_next_link_moves_on() {
    let mut sweep = Sweep::new(config(&["a", "b"], 2));
    sweep.step(Event::Start);
    sweep.step(Event::Counter(Some("2".to_string())));
    let a = sweep.step(Event::Pages {
        current: None,
        previous: Some(page(2, &[Some("u/0"), Some("u/1")], None)),
    });
    assert_eq!(a, Action::Visit { category: 1, wait: SLOT });
    assert_eq!(sweep.phase, Phase::AwaitCounter);
}

#[test]
fn unresolvable_item_is_skipped() {
    let mut sweep = Sweep::new(config(&["a"], 200));
    sweep.step(Event::Start);
    sweep.step(Event::Counter(Some("1".to_string())));
    let a = sweep.step(Event::Pages { current: Some(page(3, &[Some("u/0"), None], None)), previous: None });
    assert_eq!(a, Action::SaveCounter { category: 0, value: 2 });
    let a = sweep.step(Event::Pages { current: None, previous: None });
    assert_eq!(a, Action::Halt { fault: Fault::UnexpectedEvent });
}

#[test]
fn item_past_end_of_list_is_skipped() {
    let mut sweep = Sweep::new(config(&["a"], 200));
    sweep.step(Event::Start);
    sweep.step(Event::Counter(Some("1".to_string())));
    let a = sweep.step(Event::Pages { current: Some(page(3, &[Some("u/0")], None)), previous: None });
    assert_eq!(a, Action::SaveCounter { category: 0, value: 2 });
}

fn at_download() -> Sweep {
    let mut sweep = Sweep::new(config(&["a", "b"], 200));
    sweep.step(Event::Start);
    sweep.step(Event::Counter(Some("0".to_string())));
    let a = sweep.step(Event::Pages { current: Some(page(3, &[Some("u/0")], None)), previous: None });
    assert_eq!(a, Action::Download { category: 0, counter: 0, url: "u/0".to_string(), wait: NO_WAIT });
    assert_eq!(sweep.limiter.calls, 1);
    sweep
}

#[test]
fn disguised_throttle_is_a_transport_failure() {
    let mut throttled = at_download();
    let a1 = throttled.step(Event::Reply(Some(ok(r#"{"error":"Too many requests"}"#))));
    let mut failed = at_download();
    let a2 = failed.step(Event::Reply(None));
    assert_eq!(a1, Action::Visit { category: 1, wait: COOLDOWN });
    assert_eq!(a1, a2);
    assert_eq!(throttled.phase, failed.phase);
    assert_eq!(throttled.limiter.calls, 0);
    assert!(!throttled.limiter.penalized);
}

#[test]
fn non_success_status_is_a_transport_failure() {
    let mut sweep = at_download();
    let a = sweep.step(Event::Reply(Some(Reply { status: 500, body: Some("{}".to_string()) })));
    assert_eq!(a, Action::Visit { category: 1, wait: COOLDOWN });
}

#[test]
fn artifact_before_counter() {
    let mut sweep = at_download();
    let a = sweep.step(Event::Reply(Some(ok("{\"replay\":0}"))));
    assert_eq!(a, Action::SaveArtifact { category: 0, counter: 0, payload: "{\"replay\":0}".to_string() });
    let a = sweep.step(Event::Done);
    assert_eq!(a, Action::SaveCounter { category: 0, value: 1 });
    let a = sweep.step(Event::Done);
    assert_eq!(a, Action::Visit { category: 1, wait: SLOT });
}

#[test]
fn broken_store_halts() {
    let start = || {
        let mut s = Sweep::new(config(&["a"], 200));
        s.step(Event::Start);
        s
    };
    assert_eq!(start().step(Event::Counter(None)), Action::Halt { fault: Fault::MissingCounter });
    assert_eq!(
        start().step(Event::Counter(Some("x1".to_string()))),
        Action::Halt { fault: Fault::CorruptCounter }
    );
    assert_eq!(start().step(Event::Done), Action::Halt { fault: Fault::UnexpectedEvent });
    let mut s = start();
    s.step(Event::Counter(Some("0".to_string())));
    assert_eq!(
        s.step(Event::Pages { current: None, previous: None }),
        Action::Halt { fault: Fault::MissingPage }
    );
    assert_eq!(s.phase, Phase::Halted);
    let mut s = start();
    s.step(Event::Counter(Some("0".to_string())));
    assert_eq!(
        s.step(Event::Pages { current: Some("not json".to_string()), previous: None }),
        Action::Halt { fault: Fault::CorruptPage }
    );
    let mut s = start();
    s.step(Event::Counter(Some(u64::MAX.to_string())));
    assert_eq!(
        s.step(Event::Pages { current: Some(page(3, &[], None)), previous: None }),
        Action::Halt { fault: Fault::CounterOverflow }
    );
}

fn at_page_fetch() -> Sweep {
    let mut sweep = Sweep::new(config(&["gold-2", "gold-3"], 2));
    sweep.step(Event::Start);
    sweep.step(Event::Counter(Some("2".to_string())));
    let a = sweep.step(Event::Pages {
        current: None,
        previous: Some(page(4, &[Some("u/0"), Some("u/1")], Some("n?max-rank=&x=1"))),
    });
    assert_eq!(
        a,
        Action::FetchPage { category: 0, index: 1, url: "n?max-rank=gold-2&x=1".to_string(), wait: NO_WAIT }
    );
    sweep
}

#[test]
fn throttled_page_fetch_is_a_transport_failure_with_cooldown() {
    let mut throttled = at_page_fetch();
    let a1 = throttled.step(Event::Reply(Some(ok(r#"{"error":"Too many requests"}"#))));
    let mut failed = at_page_fetch();
    let a2 = failed.step(Event::Reply(None));
    assert_eq!(a1, Action::Visit { category: 1, wait: COOLDOWN });
    assert_eq!(a1, a2);
    assert_eq!(throttled.phase, Phase::AwaitCounter);
    assert_eq!(throttled.limiter.calls, 0);
    let mut refused = at_page_fetch();
    let a3 = refused.step(Event::Reply(Some(Reply { status: 503, body: None })));
    assert_eq!(a3, Action::Visit { category: 1, wait: COOLDOWN });
}

#[test]
fn first_call_after_caught_up_takes_its_own_slot() {
    let mut sweep = Sweep::new(config(&["a", "b"], 200));
    sweep.step(Event::Start);
    sweep.step(Event::Counter(Some("1".to_string())));
    let a = sweep.step(Event::Pages { current: Some(page(1, &[Some("u/0")], None)), previous: None });
    assert_eq!(a, Action::Visit { category: 1, wait: NO_WAIT });
    sweep.step(Event::Counter(Some("0".to_string())));
    let a = sweep.step(Event::Pages { current: Some(page(2, &[Some("v/0")], None)), previous: None });
    assert_eq!(a, Action::Download { category: 1, counter: 0, url: "v/0".to_string(), wait: SLOT });
}

#[test]
fn spent_call_budget_pauses_for_a_window() {
    let mut cfg = config(&["a"], 200);
    cfg.call_budget = 2;
    let mut w = World::new();
    w.pages.insert((0, 0), page(5, &[Some("u/0"), Some("u/1"), Some("u/2"), Some("u/3"), Some("u/4")], None));
    w.counters.insert(0, "0".to_string());
    for l in ["u/0", "u/1", "u/2", "u/3", "u/4"] {
        w.upstream.insert(l.to_string(), ok("{}"));
    }
    let mut sweep = Sweep::new(cfg);
    w.run(&mut sweep, 5);
    let window = Wait { slot: true, cooldown: false, window: true };
    assert_eq!(
        w.visits,
        vec![
            Action::Visit { category: 0, wait: SLOT },
            Action::Visit { category: 0, wait: SLOT },
            Action::Visit { category: 0, wait: window },
            Action::Visit { category: 0, wait: SLOT },
            Action::Visit { category: 0, wait: window },
        ]
    );
    assert_eq!(w.counters[&0], "5");
}

#[test]
fn limiter_cooldown_and_window() {
    let mut l = Limiter::new(2);
    assert_eq!(l.acquire(), SLOT);
    l.record_call();
    l.penalize();
    assert_eq!(l.acquire(), COOLDOWN);
    assert_eq!(l.calls, 0);
    assert_eq!(l.window_calls, 1);
    l.record_call();
    assert_eq!(l.acquire(), Wait { slot: true, cooldown: false, window: true });
    assert_eq!(l.window_calls, 0);
}
