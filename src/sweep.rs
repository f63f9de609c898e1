//! The steady-state sweep: one category at a time, in fixed order, forever.
//!
//! `Sweep::step` takes what came of the last action and returns the next one.
//! A visit reads the category's progress counter, finds the page that holds
//! the next item (fetching it by the repaired `next` link of the page before
//! when it is not stored yet), and then either reports the category caught up,
//! skips an item that has no link, or downloads the item, stores it, and only
//! then stores the incremented counter.
use vstd::prelude::*;
use crate::limiter::{acquired, counted, no_wait, wait_of, Limiter, Wait};
use crate::page::{count_field, link_field, next_field, read_count, read_link, read_next};
use crate::paging::{
    counter_parses, decimal_text, decimal_value, fixed_next_link, is_throttled, page_position,
    parse_counter, repaired_link, throttle_marker,
};
use crate::text::occurs;

verus! {

/// The static configuration of a harvest.
pub struct Config {
    pub api_url: String,
    pub playlist: String,
    pub season: String,
    /// Items per page, as asked of upstream when pages are requested.
    pub page_size: u64,
    /// The categories (ranks), in sweep order.
    pub categories: Vec<String>,
    /// The most upstream calls in one budget window.
    pub call_budget: u64,
}

impl Config {
    pub open spec fn wf(&self) -> bool {
        self.page_size > 0 && self.categories.len() > 0 && self.call_budget > 0
    }

    /// The query for the first page of category `category`.
    pub open spec fn initial_query_spec(&self, category: int) -> Seq<char> {
        self.api_url@ + "?playlist="@ + self.playlist@ + "&season="@ + self.season@
            + "&min-rank="@ + self.categories[category]@ + "&max-rank="@
            + self.categories[category]@ + "&count="@ + decimal_text(self.page_size as nat)
    }

    /// The bootstrap query for category `category`: both rank filters pinned to it.
    pub fn initial_query(&self, category: usize) -> (r: String)
        requires
            category < self.categories.len(),
        ensures
            r@ == self.initial_query_spec(category as int),
    {
        let name = self.categories[category].as_str();
        let count = crate::paging::counter_text(self.page_size);
        let mut url = self.api_url.clone();
        url.append("?playlist=");
        url.append(self.playlist.as_str());
        url.append("&season=");
        url.append(self.season.as_str());
        url.append("&min-rank=");
        url.append(name);
        url.append("&max-rank=");
        url.append(name);
        url.append("&count=");
        url.append(count.as_str());
        url
    }
}

/// Why the sweep stopped. Each of these means the stored state is not what
/// bootstrap and earlier visits leave behind.
#[derive(Debug, Clone, Copy, PartialEq, Eq)]
pub enum Fault {
    MissingCounter,
    CorruptCounter,
    MissingPage,
    CorruptPage,
    CounterOverflow,
    UnexpectedEvent,
}

/// What an upstream call returned: its status and, where it could be read, its body.
#[derive(Debug, Clone, PartialEq, Eq)]
pub struct Reply {
    pub status: u16,
    pub body: Option<String>,
}

/// What came of the last action.
#[derive(Debug, Clone, PartialEq, Eq)]
pub enum Event {
    /// The sweep is started: the answer to nothing.
    Start,
    /// The stored counter text of the category of `Visit`, if any.
    Counter(Option<String>),
    /// The stored pages at the index of `LoadPages` and at the one before it.
    Pages { current: Option<String>, previous: Option<String> },
    /// The reply to `FetchPage` or `Download`; `None` on a transport failure.
    Reply(Option<Reply>),
    /// The write asked for was made durable.
    Done,
}

/// What the caller is to do next.
#[derive(Debug, Clone, PartialEq, Eq)]
pub enum Action {
    /// Wait as `wait` says, then read the category's counter.
    Visit { category: usize, wait: Wait },
    /// Read the stored pages at `index` and at `index - 1`.
    LoadPages { category: usize, index: u64 },
    /// Wait as `wait` says, then fetch a page from upstream.
    FetchPage { category: usize, index: u64, url: String, wait: Wait },
    /// Store a fetched page under `index`.
    SavePage { category: usize, index: u64, page: String },
    /// Wait as `wait` says, then download an item.
    Download { category: usize, counter: u64, url: String, wait: Wait },
    /// Store a downloaded item under the counter it was fetched at.
    SaveArtifact { category: usize, counter: u64, payload: String },
    /// Store the category's new counter.
    SaveCounter { category: usize, value: u64 },
    /// Stop: the stored state is broken.
    Halt { fault: Fault },
}

/// Where the machine is inside a visit.
#[derive(Debug, Clone, PartialEq, Eq)]
pub enum Phase {
    Idle,
    AwaitCounter,
    AwaitPages { counter: u64 },
    AwaitPageReply { counter: u64 },
    AwaitPageSaved { counter: u64, page: String },
    AwaitDownload { counter: u64 },
    AwaitArtifactSaved { counter: u64 },
    AwaitCounterSaved { value: u64 },
    Halted,
}

pub struct Sweep {
    pub config: Config,
    /// The category being visited.
    pub category: usize,
    pub phase: Phase,
    pub limiter: Limiter,
    /// The slot taken when the visit began is still unused: the visit's first
    /// call needs no other.
    pub slot_held: bool,
}

/// The body of a reply that counts as success: status 200, a readable body,
/// and not the throttling error that upstream sends with status 200.
pub open spec fn accepted(reply: Option<Reply>) -> Option<Seq<char>> {
    match reply {
        Some(r) => if r.status == 200 {
            match r.body {
                Some(b) => if occurs(b@, throttle_marker()) {
                    None
                } else {
                    Some(b@)
                },
                None => None,
            }
        } else {
            None
        },
        None => None,
    }
}

/// The body of a successful reply; `None` for a transport failure, a status
/// other than 200, an unreadable body, or a disguised throttling error.
pub fn accepted_body(reply: Option<Reply>) -> (r: Option<String>)
    ensures
        r matches Some(b) ==> accepted(reply) == Some(b@),
        r is None ==> accepted(reply) is None,
{
    match reply {
        Some(rep) => {
            if rep.status != 200 {
                return None;
            }
            match rep.body {
                Some(b) => {
                    if is_throttled(b.as_str()) {
                        None
                    } else {
                        Some(b)
                    }
                },
                None => None,
            }
        },
        None => None,
    }
}

/// The machine stops with `fault`.
pub open spec fn halted(old: Sweep, new: Sweep, a: Action, fault: Fault) -> bool {
    &&& new == (Sweep { phase: Phase::Halted, ..old })
    &&& a == (Action::Halt { fault })
}

/// The category after `c`, in a cycle of `n`.
pub open spec fn next_category(c: usize, n: nat) -> usize {
    if c + 1 < n {
        (c + 1) as usize
    } else {
        0
    }
}

/// The visit ends and the next category's visit begins. It takes a slot of
/// the limiter, unless this category was caught up: then the next visit begins
/// at once and its first call takes the slot. A throttling sign or an outage
/// penalizes the limiter first, so that the next slot comes after the cooldown.
pub open spec fn ended(old: Sweep, new: Sweep, a: Action, caught_up: bool, penalize: bool) -> bool {
    let next = next_category(old.category, old.config.categories.len() as nat);
    let l = if penalize { Limiter { penalized: true, ..old.limiter } } else { old.limiter };
    &&& new == (Sweep {
        category: next,
        phase: Phase::AwaitCounter,
        limiter: if caught_up { l } else { acquired(l) },
        slot_held: !caught_up,
        ..old
    })
    &&& a == (Action::Visit { category: next, wait: if caught_up { no_wait() } else { wait_of(l) } })
}

/// The limiter once an upstream call is made from `old`, and what the call waits
/// for: nothing when the visit's slot is unused, else a slot of its own.
pub open spec fn requested(old: Sweep) -> (Limiter, Wait) {
    if old.slot_held {
        (counted(old.limiter), no_wait())
    } else {
        (counted(acquired(old.limiter)), wait_of(old.limiter))
    }
}

/// The page `text` covers item `counter`: the category is caught up when the
/// page's total equals the counter; otherwise the item at the counter's offset
/// is downloaded, or skipped when it has no link.
pub open spec fn planned(old: Sweep, new: Sweep, a: Action, text: Seq<char>, counter: u64) -> bool {
    let offset = counter % old.config.page_size;
    match count_field(text) {
        None => halted(old, new, a, Fault::CorruptPage),
        Some(total) => if total == counter {
            ended(old, new, a, true, false)
        } else if counter == u64::MAX {
            halted(old, new, a, Fault::CounterOverflow)
        } else {
            match link_field(text, offset as nat) {
                None => {
                    &&& new == (Sweep { phase: Phase::AwaitCounterSaved { value: (counter + 1) as u64 }, ..old })
                    &&& a == (Action::SaveCounter { category: old.category, value: (counter + 1) as u64 })
                },
                Some(link) => {
                    &&& new == (Sweep {
                        phase: Phase::AwaitDownload { counter },
                        limiter: requested(old).0,
                        slot_held: false,
                        ..old
                    })
                    &&& a is Download
                    &&& a->Download_category == old.category
                    &&& a->Download_counter == counter
                    &&& a->Download_url@ == link
                    &&& a->Download_wait == requested(old).1
                },
            }
        },
    }
}

/// One step of the machine: from `old`, on event `e`, to `new`, asking for `a`.
pub open spec fn transition(old: Sweep, e: Event, new: Sweep, a: Action) -> bool {
    let ps = old.config.page_size;
    let cat = old.category;
    match old.phase {
        Phase::Idle => {
            &&& new == (Sweep {
                phase: Phase::AwaitCounter,
                limiter: acquired(old.limiter),
                slot_held: true,
                ..old
            })
            &&& a == (Action::Visit { category: cat, wait: wait_of(old.limiter) })
        },
        Phase::AwaitCounter => match e {
            Event::Counter(Some(t)) => if counter_parses(t@) {
                let n = decimal_value(t@) as u64;
                &&& new == (Sweep { phase: Phase::AwaitPages { counter: n }, ..old })
                &&& a == (Action::LoadPages { category: cat, index: n / ps })
            } else {
                halted(old, new, a, Fault::CorruptCounter)
            },
            Event::Counter(None) => halted(old, new, a, Fault::MissingCounter),
            _ => halted(old, new, a, Fault::UnexpectedEvent),
        },
        Phase::AwaitPages { counter } => match e {
            Event::Pages { current: Some(p), previous: _ } => planned(old, new, a, p@, counter),
            Event::Pages { current: None, previous: Some(q) } => if counter / ps == 0 {
                halted(old, new, a, Fault::MissingPage)
            } else {
                match next_field(q@) {
                    None => ended(old, new, a, false, false),
                    Some(link) => {
                        &&& new == (Sweep {
                            phase: Phase::AwaitPageReply { counter },
                            limiter: requested(old).0,
                            slot_held: false,
                            ..old
                        })
                        &&& a is FetchPage
                        &&& a->FetchPage_category == cat
                        &&& a->FetchPage_index == counter / ps
                        &&& a->FetchPage_url@ == repaired_link(link, old.config.categories[cat as int]@)
                        &&& a->FetchPage_wait == requested(old).1
                    },
                }
            },
            Event::Pages { current: None, previous: None } => halted(old, new, a, Fault::MissingPage),
            _ => halted(old, new, a, Fault::UnexpectedEvent),
        },
        Phase::AwaitPageReply { counter } => match e {
            Event::Reply(r) => match accepted(r) {
                None => ended(old, new, a, false, true),
                Some(b) => {
                    &&& new.config == old.config
                    &&& new.category == cat
                    &&& new.limiter == old.limiter
                    &&& new.slot_held == old.slot_held
                    &&& new.phase is AwaitPageSaved
                    &&& new.phase->AwaitPageSaved_counter == counter
                    &&& new.phase->AwaitPageSaved_page@ == b
                    &&& a is SavePage
                    &&& a->SavePage_category == cat
                    &&& a->SavePage_index == counter / ps
                    &&& a->SavePage_page@ == b
                },
            },
            _ => halted(old, new, a, Fault::UnexpectedEvent),
        },
        Phase::AwaitPageSaved { counter, page } => match e {
            Event::Done => planned(old, new, a, page@, counter),
            _ => halted(old, new, a, Fault::UnexpectedEvent),
        },
        Phase::AwaitDownload { counter } => match e {
            Event::Reply(r) => match accepted(r) {
                None => ended(old, new, a, false, true),
                Some(b) => {
                    &&& new == (Sweep { phase: Phase::AwaitArtifactSaved { counter }, ..old })
                    &&& a is SaveArtifact
                    &&& a->SaveArtifact_category == cat
                    &&& a->SaveArtifact_counter == counter
                    &&& a->SaveArtifact_payload@ == b
                },
            },
            _ => halted(old, new, a, Fault::UnexpectedEvent),
        },
        Phase::AwaitArtifactSaved { counter } => match e {
            Event::Done => {
                &&& new == (Sweep { phase: Phase::AwaitCounterSaved { value: (counter + 1) as u64 }, ..old })
                &&& a == (Action::SaveCounter { category: cat, value: (counter + 1) as u64 })
            },
            _ => halted(old, new, a, Fault::UnexpectedEvent),
        },
        Phase::AwaitCounterSaved { value: _ } => match e {
            Event::Done => ended(old, new, a, false, false),
            _ => halted(old, new, a, Fault::UnexpectedEvent),
        },
        Phase::Halted => halted(old, new, a, Fault::UnexpectedEvent),
    }
}

impl Sweep {
    /// The machine's invariant: a usable configuration, a category inside it,
    /// and a counter that can still be incremented wherever one is pending.
    pub open spec fn wf(&self) -> bool {
        &&& self.config.wf()
        &&& self.category < self.config.categories.len()
        &&& self.limiter.wf()
        &&& (self.slot_held ==> self.limiter.window_calls < self.limiter.budget)
        &&& (self.phase matches Phase::AwaitDownload { counter } ==> counter < u64::MAX)
        &&& (self.phase matches Phase::AwaitArtifactSaved { counter } ==> counter < u64::MAX)
    }

    /// A sweep that starts at the first category.
    pub fn new(config: Config) -> (r: Sweep)
        requires
            config.wf(),
        ensures
            r.wf(),
            r.config == config,
            r.category == 0,
            r.phase == Phase::Idle,
            r.limiter == (Limiter { penalized: false, calls: 0, window_calls: 0, budget: config.call_budget }),
            !r.slot_held,
    {
        let budget = config.call_budget;
        Sweep { config, category: 0, phase: Phase::Idle, limiter: Limiter::new(budget), slot_held: false }
    }

    /// Takes what an upstream call needs: the visit's unused slot, or a new one.
    fn request(&mut self) -> (w: Wait)
        requires
            old(self).wf(),
        ensures
            (final(self).limiter, w) == requested(*old(self)),
            *final(self) == (Sweep { limiter: final(self).limiter, slot_held: false, ..*old(self) }),
            final(self).limiter.wf(),
    {
        let w = if self.slot_held {
            Wait { slot: false, cooldown: false, window: false }
        } else {
            self.limiter.acquire()
        };
        self.slot_held = false;
        self.limiter.record_call();
        w
    }

    fn halt(&mut self, fault: Fault) -> (a: Action)
        ensures
            halted(*old(self), *final(self), a, fault),
    {
        self.phase = Phase::Halted;
        Action::Halt { fault }
    }

    fn end_visit(&mut self, caught_up: bool, penalize: bool) -> (a: Action)
        requires
            old(self).wf(),
        ensures
            ended(*old(self), *final(self), a, caught_up, penalize),
            final(self).wf(),
    {
        if penalize {
            self.limiter.penalize();
        }
        self.category = if self.category + 1 < self.config.categories.len() {
            self.category + 1
        } else {
            0
        };
        let wait = if caught_up {
            Wait { slot: false, cooldown: false, window: false }
        } else {
            self.limiter.acquire()
        };
        self.slot_held = !caught_up;
        self.phase = Phase::AwaitCounter;
        Action::Visit { category: self.category, wait }
    }

    fn plan_item(&mut self, page: &str, counter: u64) -> (a: Action)
        requires
            old(self).wf(),
        ensures
            planned(*old(self), *final(self), a, page@, counter),
            final(self).wf(),
    {
        let total = match read_count(page) {
            Some(t) => t,
            None => {
                return self.halt(Fault::CorruptPage);
            },
        };
        if total == counter {
            return self.end_visit(true, false);
        }
        if counter == u64::MAX {
            return self.halt(Fault::CounterOverflow);
        }
        let (_, offset) = page_position(counter, self.config.page_size);
        match read_link(page, offset) {
            None => {
                self.phase = Phase::AwaitCounterSaved { value: counter + 1 };
                Action::SaveCounter { category: self.category, value: counter + 1 }
            },
            Some(url) => {
                let wait = self.request();
                self.phase = Phase::AwaitDownload { counter };
                Action::Download { category: self.category, counter, url, wait }
            },
        }
    }

    /// Takes what came of the last action and returns the next one.
    pub fn step(&mut self, event: Event) -> (a: Action)
        requires
            old(self).wf(),
        ensures
            transition(*old(self), event, *final(self), a),
            final(self).wf(),
    {
        let ps = self.config.page_size;
        let cat = self.category;
        match self.phase {
            Phase::Idle => {
                let wait = self.limiter.acquire();
                self.slot_held = true;
                self.phase = Phase::AwaitCounter;
                Action::Visit { category: cat, wait }
            },
            Phase::AwaitCounter => match event {
                Event::Counter(Some(t)) => match parse_counter(t.as_str()) {
                    Some(n) => {
                        self.phase = Phase::AwaitPages { counter: n };
                        Action::LoadPages { category: cat, index: n / ps }
                    },
                    None => self.halt(Fault::CorruptCounter),
                },
                Event::Counter(None) => self.halt(Fault::MissingCounter),
                _ => self.halt(Fault::UnexpectedEvent),
            },
            Phase::AwaitPages { counter } => match event {
                Event::Pages { current: Some(p), previous: _ } => self.plan_item(p.as_str(), counter),
                Event::Pages { current: None, previous: Some(q) } => {
                    if counter / ps == 0 {
                        return self.halt(Fault::MissingPage);
                    }
                    match read_next(q.as_str()) {
                        None => self.end_visit(false, false),
                        Some(link) => {
                            let url = fixed_next_link(link.as_str(), self.config.categories[cat].as_str());
                            let wait = self.request();
                            self.phase = Phase::AwaitPageReply { counter };
                            Action::FetchPage { category: cat, index: counter / ps, url, wait }
                        },
                    }
                },
                Event::Pages { current: None, previous: None } => self.halt(Fault::MissingPage),
                _ => self.halt(Fault::UnexpectedEvent),
            },
            Phase::AwaitPageReply { counter } => match event {
                Event::Reply(r) => match accepted_body(r) {
                    None => self.end_visit(false, true),
                    Some(b) => {
                        let page = b.clone();
                        self.phase = Phase::AwaitPageSaved { counter, page };
                        Action::SavePage { category: cat, index: counter / ps, page: b }
                    },
                },
                _ => self.halt(Fault::UnexpectedEvent),
            },
            Phase::AwaitPageSaved { counter, ref page } => match event {
                Event::Done => {
                    let text = page.clone();
                    self.plan_item(text.as_str(), counter)
                },
                _ => self.halt(Fault::UnexpectedEvent),
            },
            Phase::AwaitDownload { counter } => match event {
                Event::Reply(r) => match accepted_body(r) {
                    None => self.end_visit(false, true),
                    Some(b) => {
                        self.phase = Phase::AwaitArtifactSaved { counter };
                        Action::SaveArtifact { category: cat, counter, payload: b }
                    },
                },
                _ => self.halt(Fault::UnexpectedEvent),
            },
            Phase::AwaitArtifactSaved { counter } => match event {
                Event::Done => {
                    self.phase = Phase::AwaitCounterSaved { value: counter + 1 };
                    Action::SaveCounter { category: cat, value: counter + 1 }
                },
                _ => self.halt(Fault::UnexpectedEvent),
            },
            Phase::AwaitCounterSaved { value: _ } => match event {
                Event::Done => self.end_visit(false, false),
                _ => self.halt(Fault::UnexpectedEvent),
            },
            Phase::Halted => self.halt(Fault::UnexpectedEvent),
        }
    }
}

} // verus!
