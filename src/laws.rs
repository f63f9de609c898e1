//! Properties of the sweep that hold of every state and event, proved from the
//! machine's transition relation, and of the stored counter format.
use vstd::prelude::*;
use crate::page::{count_field, link_field};
use crate::paging::{lemma_decimal_nonneg, counter_parses, decimal_text, decimal_value, digit_value, is_digit, throttle_marker};
use crate::limiter::{no_wait, Limiter};
use crate::sweep::{accepted, transition, Action, Event, Phase, Reply, Sweep};
use crate::text::occurs;

verus! {

/// The item that the page read in this step leaves unresolvable: the page
/// does not report the category caught up and has no link at the counter's
/// offset.
pub open spec fn skipped_here(old: Sweep, e: Event, counter: u64) -> bool {
    let text = match (old.phase, e) {
        (Phase::AwaitPages { counter: _ }, Event::Pages { current: Some(p), previous: _ }) => p@,
        (Phase::AwaitPageSaved { counter: _, page }, Event::Done) => page@,
        _ => Seq::empty(),
    };
    &&& (old.phase matches Phase::AwaitPages { counter: c } ==> c == counter)
    &&& (old.phase matches Phase::AwaitPageSaved { counter: c, page: _ } ==> c == counter)
    &&& (old.phase is AwaitPages || old.phase is AwaitPageSaved)
    &&& count_field(text) is Some
    &&& count_field(text)->0 != counter
    &&& link_field(text, (counter % old.config.page_size) as nat) is None
}

/// A category's counter is written only as the counter of the current visit
/// plus one, and only once that item is settled: its artifact was stored and
/// acknowledged in this visit, or the page has no link for it.
pub proof fn lemma_counter_follows_outcome(old: Sweep, e: Event, new: Sweep, a: Action)
    requires
        old.wf(),
        transition(old, e, new, a),
        a is SaveCounter,
    ensures
        a->SaveCounter_category == old.category,
        ({
            ||| (old.phase matches Phase::AwaitArtifactSaved { counter } && e is Done
                && a->SaveCounter_value == counter + 1)
            ||| exists|counter: u64| skipped_here(old, e, counter) && a->SaveCounter_value == counter + 1
        }),
{
    match (old.phase, e) {
        (Phase::AwaitPages { counter }, Event::Pages { current: Some(p), previous: _ }) => {
            assert(skipped_here(old, e, counter));
        },
        (Phase::AwaitPageSaved { counter, page }, Event::Done) => {
            assert(skipped_here(old, e, counter));
        },
        _ => {},
    }
}

/// A page that is already stored is used as it is: the step that reads it
/// neither fetches nor stores a page.
pub proof fn lemma_stored_page_not_fetched(
    old: Sweep,
    current: String,
    previous: Option<String>,
    new: Sweep,
    a: Action,
)
    requires
        old.wf(),
        old.phase is AwaitPages,
        transition(old, Event::Pages { current: Some(current), previous }, new, a),
    ensures
        !(a is FetchPage),
        !(a is SavePage),
{
}

/// A download answered with status 200 and a throttling error in its body is
/// handled exactly as a transport failure: nothing is stored, the counter
/// stays, the visit ends and the next one waits out the cooldown first.
pub proof fn lemma_throttled_download_is_failure(
    old: Sweep,
    status: u16,
    body: String,
    new1: Sweep,
    a1: Action,
    new2: Sweep,
    a2: Action,
)
    requires
        old.wf(),
        old.phase is AwaitDownload,
        occurs(body@, throttle_marker()),
        transition(old, Event::Reply(Some(Reply { status, body: Some(body) })), new1, a1),
        transition(old, Event::Reply(None), new2, a2),
    ensures
        new1 == new2,
        a1 == a2,
        a1 is Visit,
        a1->Visit_wait.cooldown,
        new1.phase is AwaitCounter,
        new1.limiter.calls == 0,
        !new1.limiter.penalized,
{
}

/// A page fetch answered with a throttling error is handled exactly as a
/// transport failure: no page is stored, the visit ends, and the next one waits
/// out the cooldown first.
pub proof fn lemma_throttled_page_is_failure(
    old: Sweep,
    status: u16,
    body: String,
    new1: Sweep,
    a1: Action,
    new2: Sweep,
    a2: Action,
)
    requires
        old.wf(),
        old.phase is AwaitPageReply,
        occurs(body@, throttle_marker()),
        transition(old, Event::Reply(Some(Reply { status, body: Some(body) })), new1, a1),
        transition(old, Event::Reply(None), new2, a2),
    ensures
        new1 == new2,
        a1 == a2,
        a1 is Visit,
        a1->Visit_wait.cooldown,
        new1.phase is AwaitCounter,
        new1.limiter.calls == 0,
        !new1.limiter.penalized,
{
}

/// What the store holds for one category, as the counting law sees it: the
/// stored counter, the stored pages by index, the counters under which an
/// artifact was stored, and the slots that were skipped for want of a link.
pub struct Ledger {
    pub counter: nat,
    pub pages: Map<nat, Seq<char>>,
    pub artifacts: Set<nat>,
    pub skipped: Set<nat>,
}

/// The stored page that holds slot `k` has a link for it.
pub open spec fn has_link(l: Ledger, ps: nat, k: nat) -> bool {
    &&& l.pages.contains_key(k / ps)
    &&& link_field(l.pages[k / ps], k % ps) is Some
}

/// The stored page that holds slot `k` has no link for it.
pub open spec fn lacks_link(l: Ledger, ps: nat, k: nat) -> bool {
    &&& l.pages.contains_key(k / ps)
    &&& link_field(l.pages[k / ps], k % ps) is None
}

/// Every slot below the counter is settled (its artifact stored, or skipped);
/// only slots below the counter are skipped; no artifact lies past the counter
/// (at most the one at the counter itself, written just before the counter it
/// would have advanced); an artifact is stored only for a slot that its page
/// links, and a slot is skipped only where its page has no link.
pub open spec fn ledger_ok(l: Ledger, ps: nat) -> bool {
    &&& l.counter <= u64::MAX
    &&& forall|k: nat|
        #![trigger l.artifacts.contains(k)]
        #![trigger l.skipped.contains(k)]
        k < l.counter ==> l.artifacts.contains(k) || l.skipped.contains(k)
    &&& forall|k: nat| #[trigger] l.skipped.contains(k) ==> k < l.counter && lacks_link(l, ps, k)
    &&& forall|k: nat| #[trigger] l.artifacts.contains(k) ==> k <= l.counter && has_link(l, ps, k)
}

/// The sweep and the store agree: every category's ledger is settled, and the
/// counter and page that the current visit works on are the stored ones.
pub open spec fn consistent(s: Sweep, store: Seq<Ledger>) -> bool {
    let l = store[s.category as int];
    let ps = s.config.page_size as nat;
    &&& s.wf()
    &&& store.len() == s.config.categories.len()
    &&& forall|c: int| 0 <= c < store.len() ==> ledger_ok(#[trigger] store[c], ps)
    &&& match s.phase {
        Phase::AwaitPages { counter } => counter == l.counter,
        Phase::AwaitPageReply { counter } => counter == l.counter && !l.pages.contains_key(
            counter as nat / ps,
        ),
        Phase::AwaitPageSaved { counter, page } => counter == l.counter && l.pages.contains_key(
            counter as nat / ps,
        ) && l.pages[counter as nat / ps] == page@,
        Phase::AwaitDownload { counter } => counter == l.counter && has_link(l, ps, counter as nat),
        Phase::AwaitArtifactSaved { counter } => counter == l.counter && l.artifacts.contains(
            counter as nat,
        ),
        Phase::AwaitCounterSaved { value } => value == l.counter,
        _ => true,
    }
}

/// The event is what the store answers: a counter read gives the stored
/// counter, and a page read gives the stored page at the index asked for.
pub open spec fn answered(s: Sweep, store: Seq<Ledger>, e: Event) -> bool {
    let l = store[s.category as int];
    &&& s.phase is AwaitCounter ==> (e matches Event::Counter(Some(t)) && t@ == decimal_text(
        l.counter,
    ))
    &&& s.phase matches Phase::AwaitPages { counter } ==> {
        let index = counter as nat / s.config.page_size as nat;
        e matches Event::Pages { current, previous: _ } && (current is Some
            <==> l.pages.contains_key(index)) && (current matches Some(p) ==> p@ == l.pages[index])
    }
}

/// The store once action `a`, asked for from state `old`, is carried out. A
/// counter written other than after a stored artifact skips the slot.
pub open spec fn performed(store: Seq<Ledger>, old: Sweep, a: Action) -> Seq<Ledger> {
    match a {
        Action::SavePage { category, index, page } => {
            let l = store[category as int];
            store.update(category as int, Ledger { pages: l.pages.insert(index as nat, page@), ..l })
        },
        Action::SaveArtifact { category, counter, payload: _ } => {
            let l = store[category as int];
            store.update(category as int, Ledger { artifacts: l.artifacts.insert(counter as nat), ..l })
        },
        Action::SaveCounter { category, value } => {
            let l = store[category as int];
            let skipped = if old.phase is AwaitArtifactSaved {
                l.skipped
            } else {
                l.skipped.insert(l.counter)
            };
            store.update(category as int, Ledger { counter: value as nat, skipped, ..l })
        },
        _ => store,
    }
}

/// Each step keeps the store consistent with the sweep: a category's counter
/// only moves by one, after the slot is settled, and the slots below it are
/// exactly those that hold an artifact or were skipped (see
/// `lemma_ledger_partition`).
pub proof fn lemma_step_keeps_store_consistent(
    old: Sweep,
    store: Seq<Ledger>,
    e: Event,
    new: Sweep,
    a: Action,
)
    requires
        consistent(old, store),
        answered(old, store, e),
        transition(old, e, new, a),
    ensures
        consistent(new, performed(store, old, a)),
{
    let cat = old.category as int;
    let ps = old.config.page_size as nat;
    let l = store[cat];
    assert(ledger_ok(l, ps));
    if old.phase is AwaitCounter {
        lemma_counter_text_round_trip(l.counter);
    }
    let after = performed(store, old, a);
    match a {
        Action::SavePage { category, index, page } => {
            let m = after[cat];
            assert(!l.pages.contains_key(index as nat));
            assert forall|k: nat| #[trigger] m.artifacts.contains(k) implies k <= m.counter
                && has_link(m, ps, k) by {
                assert(has_link(l, ps, k));
                assert(k / ps != index);
            }
            assert forall|k: nat| #[trigger] m.skipped.contains(k) implies k < m.counter
                && lacks_link(m, ps, k) by {
                assert(lacks_link(l, ps, k));
                assert(k / ps != index);
            }
            assert forall|c: int| 0 <= c < after.len() implies ledger_ok(#[trigger] after[c], ps) by {
                if c != cat {
                    assert(after[c] == store[c]);
                }
            }
        },
        Action::SaveArtifact { category, counter, payload: _ } => {
            let m = after[cat];
            assert forall|k: nat| #[trigger] m.artifacts.contains(k) implies k <= m.counter
                && has_link(m, ps, k) by {
                if k != counter as nat {
                    assert(l.artifacts.contains(k));
                }
            }
            assert forall|c: int| 0 <= c < after.len() implies ledger_ok(#[trigger] after[c], ps) by {
                if c != cat {
                    assert(after[c] == store[c]);
                }
            }
        },
        Action::SaveCounter { category, value } => {
            let m = after[cat];
            assert(value == l.counter + 1);
            assert forall|k: nat|
                #![trigger m.artifacts.contains(k)]
                #![trigger m.skipped.contains(k)]
                k < m.counter implies m.artifacts.contains(k) || m.skipped.contains(k) by {
                if k < l.counter {
                    assert(l.artifacts.contains(k) || l.skipped.contains(k));
                }
            }
            assert forall|k: nat| #[trigger] m.artifacts.contains(k) implies k <= m.counter
                && has_link(m, ps, k) by {
                assert(l.artifacts.contains(k));
            }
            assert forall|k: nat| #[trigger] m.skipped.contains(k) implies k < m.counter
                && lacks_link(m, ps, k) by {
                if k != l.counter {
                    assert(l.skipped.contains(k));
                }
            }
            assert forall|c: int| 0 <= c < after.len() implies ledger_ok(#[trigger] after[c], ps) by {
                if c != cat {
                    assert(after[c] == store[c]);
                }
            }
        },
        _ => {},
    }
}

/// In a settled ledger the slots below the counter are split in two: each
/// holds an artifact or was skipped, never both, and no other slot was
/// skipped. With the artifact at the counter itself left aside (one written
/// just before a crash), the counter is the number of artifacts and skipped
/// slots.
pub proof fn lemma_ledger_partition(l: Ledger, ps: nat, k: nat)
    requires
        ps > 0,
        ledger_ok(l, ps),
    ensures
        k < l.counter <==> ((l.artifacts.contains(k) && k != l.counter) || l.skipped.contains(k)),
        !(l.artifacts.contains(k) && l.skipped.contains(k)),
{
    if l.artifacts.contains(k) && l.skipped.contains(k) {
        assert(has_link(l, ps, k));
        assert(lacks_link(l, ps, k));
    }
}

/// Every upstream call goes through the limiter: it waits for a slot of its
/// own, or uses the slot that its visit took and has not used; and a budget
/// window never holds more calls than the budget.
pub proof fn lemma_every_call_has_a_slot(old: Sweep, e: Event, new: Sweep, a: Action)
    requires
        old.wf(),
        transition(old, e, new, a),
        a is FetchPage || a is Download,
    ensures
        a is FetchPage ==> a->FetchPage_wait.slot || old.slot_held,
        a is Download ==> a->Download_wait.slot || old.slot_held,
        !new.slot_held,
        new.limiter.window_calls <= new.limiter.budget,
        new.limiter.budget == old.limiter.budget,
{
}

/// A visit that reads counter `k` and finds, in the stored page, a link for
/// slot `k` (and not the category caught up) downloads that link once, stores
/// the reply as the artifact at `k` (whatever a crash left there is written
/// over), and only then writes the counter `k + 1`. This holds as well for
/// the first visit after a restart, which starts from the stored counter.
pub proof fn lemma_visit_settles_one_slot(
    s0: Sweep,
    t: String,
    s1: Sweep,
    a1: Action,
    page: String,
    previous: Option<String>,
    s2: Sweep,
    a2: Action,
    reply: Option<Reply>,
    s3: Sweep,
    a3: Action,
    s4: Sweep,
    a4: Action,
)
    requires
        s0.wf(),
        s0.phase is AwaitCounter,
        counter_parses(t@),
        decimal_value(t@) < u64::MAX,
        count_field(page@) is Some,
        count_field(page@)->0 != decimal_value(t@),
        link_field(page@, (decimal_value(t@) % s0.config.page_size as int) as nat) is Some,
        accepted(reply) is Some,
        transition(s0, Event::Counter(Some(t)), s1, a1),
        transition(s1, Event::Pages { current: Some(page), previous }, s2, a2),
        transition(s2, Event::Reply(reply), s3, a3),
        transition(s3, Event::Done, s4, a4),
    ensures
        ({
            let k = decimal_value(t@) as u64;
            &&& a1 == (Action::LoadPages { category: s0.category, index: k / s0.config.page_size })
            &&& a2 is Download && a2->Download_category == s0.category
            &&& a2->Download_counter == k
            &&& Some(a2->Download_url@) == link_field(page@, (k % s0.config.page_size) as nat)
            &&& a3 is SaveArtifact && a3->SaveArtifact_category == s0.category
            &&& a3->SaveArtifact_counter == k
            &&& Some(a3->SaveArtifact_payload@) == accepted(reply)
            &&& a4 == (Action::SaveCounter { category: s0.category, value: (k + 1) as u64 })
            &&& s4.category == s0.category
        }),
{
    let k = decimal_value(t@) as u64;
    lemma_decimal_nonneg(t@);
    assert(s2.phase == Phase::AwaitDownload { counter: k });
}

/// A crash may stop the sweep between any two steps, for instance after an
/// artifact is stored and before its counter is. The store it leaves is a
/// consistent start for a new sweep, which then works from the stored counter.
pub proof fn lemma_restart_after_crash(s: Sweep, store: Seq<Ledger>)
    requires
        consistent(s, store),
    ensures
        consistent(
            Sweep {
                config: s.config,
                category: 0,
                phase: Phase::Idle,
                limiter: Limiter {
                    penalized: false,
                    calls: 0,
                    window_calls: 0,
                    budget: s.config.call_budget,
                },
                slot_held: false,
            },
            store,
        ),
{
}

/// A category whose stored page reports as many items as its counter is
/// caught up: the visit ends at once, makes no upstream call, and the next
/// visit begins without waiting; its first call takes a slot of its own.
pub proof fn lemma_caught_up_makes_no_call(
    old: Sweep,
    page: String,
    previous: Option<String>,
    new: Sweep,
    a: Action,
)
    requires
        old.wf(),
        old.phase matches Phase::AwaitPages { counter } && count_field(page@) == Some(counter),
        transition(old, Event::Pages { current: Some(page), previous }, new, a),
    ensures
        a is Visit,
        a->Visit_wait == no_wait(),
        new.phase is AwaitCounter,
        new.limiter == old.limiter,
        !new.slot_held,
{
}

/// A counter written as text reads back as the same counter.
pub proof fn lemma_counter_text_round_trip(n: nat)
    requires
        n <= u64::MAX,
    ensures
        counter_parses(decimal_text(n)),
        decimal_value(decimal_text(n)) == n,
    decreases n,
{
    let s = decimal_text(n);
    if n < 10 {
        assert(s.drop_last() =~= Seq::<char>::empty());
        assert(decimal_value(s.drop_last()) == 0);
        assert(digit_value(s.last()) == n);
        assert(is_digit(s[0]));
        assert(decimal_value(s) == 10 * decimal_value(s.drop_last()) + digit_value(s.last()));
    } else {
        lemma_counter_text_round_trip(n / 10);
        let t = decimal_text(n / 10);
        assert(s.drop_last() =~= t);
        assert(digit_value(s.last()) == n % 10);
        assert(decimal_value(s) == 10 * decimal_value(s.drop_last()) + digit_value(s.last()));
        assert(is_digit(s.last()));
        assert forall|i: int| 0 <= i < s.len() implies is_digit(#[trigger] s[i]) by {
            if i < t.len() {
                assert(s[i] == t[i]);
            }
        }
    }
}

} // verus!
