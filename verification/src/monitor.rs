//! Price change detection between successive snapshots of offers.
use vstd::prelude::*;
use crate::models::OfferId;
use crate::number::{amount_far, Amount};

verus! {

/// A snapshot entry: an offer id and its price.
pub type Entry = (Seq<char>, (nat, nat));

/// What changed between two snapshots.
#[derive(Debug, Clone)]
pub enum MonitorEvent {
    /// The price moved by more than 0.01.
    PriceChanged { offer_id: OfferId, old_price: Amount, new_price: Amount },
    /// The offer was not in the previous snapshot.
    NewOffer { offer_id: OfferId },
    /// The offer is no longer listed.
    OfferRemoved { offer_id: OfferId },
}

/// A [`MonitorEvent`] as mathematical values.
pub enum EventView {
    PriceChanged(Seq<char>, (nat, nat), (nat, nat)),
    NewOffer(Seq<char>),
    OfferRemoved(Seq<char>),
}

impl View for MonitorEvent {
    type V = EventView;

    open spec fn view(&self) -> EventView {
        match self {
            MonitorEvent::PriceChanged { offer_id, old_price, new_price } => EventView::PriceChanged(
                offer_id.0@,
                old_price@,
                new_price@,
            ),
            MonitorEvent::NewOffer { offer_id } => EventView::NewOffer(offer_id.0@),
            MonitorEvent::OfferRemoved { offer_id } => EventView::OfferRemoved(offer_id.0@),
        }
    }
}

/// The first position at or after `i` of an entry with id `k`.
pub open spec fn index_from(l: Seq<Entry>, k: Seq<char>, i: int) -> Option<int>
    decreases l.len() - i,
{
    if i < 0 || i >= l.len() {
        None
    } else if l[i].0 == k {
        Some(i)
    } else {
        index_from(l, k, i + 1)
    }
}

/// The position of the entry with id `k`.
pub open spec fn index_of(l: Seq<Entry>, k: Seq<char>) -> Option<int> {
    index_from(l, k, 0)
}

/// `l` with the price of `k` set to `v`: in place if `k` is there, else at the
/// end.
pub open spec fn assoc_insert(l: Seq<Entry>, k: Seq<char>, v: (nat, nat)) -> Seq<Entry> {
    match index_of(l, k) {
        Some(i) => l.update(i, (k, v)),
        None => l.push((k, v)),
    }
}

/// The snapshot of a list of offers: each id once, in the order of its first
/// appearance, with the price of its last appearance.
pub open spec fn snapshot(offers: Seq<Entry>) -> Seq<Entry>
    decreases offers.len(),
{
    if offers.len() == 0 {
        seq![]
    } else {
        assoc_insert(snapshot(offers.drop_last()), offers.last().0, offers.last().1)
    }
}

/// No id appears twice.
pub open spec fn distinct_ids(l: Seq<Entry>) -> bool {
    forall|i: int, j: int| 0 <= i < j < l.len() ==> l[i].0 != l[j].0
}

/// For each entry of `cur`, in order: `PriceChanged` if `old` has its id with a
/// price more than 0.01 away, `NewOffer` if `old` lacks its id.
pub open spec fn change_events(old: Seq<Entry>, cur: Seq<Entry>) -> Seq<EventView>
    decreases cur.len(),
{
    if cur.len() == 0 {
        seq![]
    } else {
        let prev = change_events(old, cur.drop_last());
        let (k, v) = cur.last();
        match index_of(old, k) {
            Some(j) => if amount_far(old[j].1, v) {
                prev.push(EventView::PriceChanged(k, old[j].1, v))
            } else {
                prev
            },
            None => prev.push(EventView::NewOffer(k)),
        }
    }
}

/// For each entry of `old` whose id `cur` lacks, in order: `OfferRemoved`.
pub open spec fn removal_events(old: Seq<Entry>, cur: Seq<Entry>) -> Seq<EventView>
    decreases old.len(),
{
    if old.len() == 0 {
        seq![]
    } else {
        let prev = removal_events(old.drop_last(), cur);
        if index_of(cur, old.last().0) is None {
            prev.push(EventView::OfferRemoved(old.last().0))
        } else {
            prev
        }
    }
}

/// The events between the snapshots `old` and `cur`.
pub open spec fn monitor_events(old: Seq<Entry>, cur: Seq<Entry>) -> Seq<EventView> {
    change_events(old, cur) + removal_events(old, cur)
}

/// The entries of a list of offers.
pub open spec fn entries_of(offers: Seq<(OfferId, Amount)>) -> Seq<Entry> {
    offers.map_values(|o: (OfferId, Amount)| (o.0.0@, o.1@))
}

/// Detects new, removed and re-priced offers between successive checks.
pub struct Monitor {
    seen: Vec<(OfferId, Amount)>,
}

impl View for Monitor {
    type V = Seq<Entry>;

    closed spec fn view(&self) -> Seq<Entry> {
        entries_of(self.seen@)
    }
}

proof fn lemma_index_from_found(l: Seq<Entry>, k: Seq<char>, i: int)
    requires
        i >= 0,
    ensures
        index_from(l, k, i) matches Some(j) ==> i <= j < l.len() && l[j].0 == k,
        index_from(l, k, i) is None ==> forall|m: int| i <= m < l.len() ==> l[m].0 != k,
    decreases l.len() - i,
{
    if 0 <= i < l.len() && l[i].0 != k {
        lemma_index_from_found(l, k, i + 1);
    }
}

proof fn lemma_index_of_distinct(l: Seq<Entry>, i: int)
    requires
        distinct_ids(l),
        0 <= i < l.len(),
    ensures
        index_of(l, l[i].0) == Some(i),
{
    lemma_index_from_found(l, l[i].0, 0);
}

proof fn lemma_snapshot_distinct(offers: Seq<Entry>)
    ensures
        distinct_ids(snapshot(offers)),
    decreases offers.len(),
{
    if offers.len() > 0 {
        let prev = snapshot(offers.drop_last());
        lemma_snapshot_distinct(offers.drop_last());
        lemma_index_from_found(prev, offers.last().0, 0);
    }
}

impl Monitor {
    #[verifier::type_invariant]
    spec fn ids_distinct(self) -> bool {
        distinct_ids(entries_of(self.seen@))
    }

    /// A monitor that has seen nothing.
    pub fn new() -> (res: Monitor)
        ensures
            res@ == Seq::<Entry>::empty(),
    {
        let m = Monitor { seen: Vec::new() };
        assert(entries_of(m.seen@) =~= Seq::<Entry>::empty());
        m
    }

    /// The position of the entry with id `k` in `l`.
    fn find(l: &Vec<(OfferId, Amount)>, k: &OfferId) -> (res: Option<usize>)
        ensures
            match res {
                Some(i) => index_of(entries_of(l@), k.0@) == Some(i as int) && i < l.len(),
                None => index_of(entries_of(l@), k.0@) is None,
            },
    {
        let ghost e = entries_of(l@);
        let mut i: usize = 0;
        while i < l.len()
            invariant
                i <= l.len(),
                e == entries_of(l@),
                index_of(e, k.0@) == index_from(e, k.0@, i as int),
            decreases l.len() - i,
        {
            if l[i].0.0 == k.0 {
                return Some(i);
            }
            i += 1;
        }
        None
    }

    /// The snapshot of `offers`.
    fn snapshot_of(offers: &Vec<(OfferId, Amount)>) -> (res: Vec<(OfferId, Amount)>)
        ensures
            entries_of(res@) == snapshot(entries_of(offers@)),
    {
        let mut out: Vec<(OfferId, Amount)> = Vec::new();
        let mut i: usize = 0;
        while i < offers.len()
            invariant
                i <= offers.len(),
                entries_of(out@) == snapshot(entries_of(offers@).take(i as int)),
            decreases offers.len() - i,
        {
            let ghost before = out@;
            assert(entries_of(offers@).take(i + 1).drop_last() =~= entries_of(offers@).take(
                i as int,
            ));
            let id = OfferId(offers[i].0.0.clone());
            let price = offers[i].1.duplicate();
            match Self::find(&out, &id) {
                Some(j) => {
                    out.set(j, (id, price));
                    assert(entries_of(out@) =~= entries_of(before).update(
                        j as int,
                        (offers@[i as int].0.0@, offers@[i as int].1@),
                    ));
                },
                None => {
                    out.push((id, price));
                    assert(entries_of(out@) =~= entries_of(before).push(
                        (offers@[i as int].0.0@, offers@[i as int].1@),
                    ));
                },
            }
            i += 1;
        }
        assert(entries_of(offers@).take(offers.len() as int) =~= entries_of(offers@));
        out
    }

    /// Compares `offers` with the previous snapshot, reports what changed,
    /// and keeps `offers` as the new snapshot.
    ///
    /// The events are, first, for each offer of the new snapshot in order,
    /// `NewOffer` if its id was not seen before, or `PriceChanged` if its price
    /// moved by more than 0.01; then, for each offer of the previous snapshot
    /// in order, `OfferRemoved` if its id is gone. When an id appears more than
    /// once in `offers`, its last price counts.
    pub fn check_for_changes(&mut self, offers: Vec<(OfferId, Amount)>) -> (res: Vec<MonitorEvent>)
        ensures
            distinct_ids(old(self)@),
            distinct_ids(final(self)@),
            final(self)@ == snapshot(entries_of(offers@)),
            res@.map_values(|e: MonitorEvent| e@) == monitor_events(
                old(self)@,
                snapshot(entries_of(offers@)),
            ),
    {
        proof {
            use_type_invariant(&*self);
        }
        let current = Self::snapshot_of(&offers);
        let ghost cur = entries_of(current@);
        let ghost old_e = entries_of(self.seen@);
        let mut events: Vec<MonitorEvent> = Vec::new();
        let mut i: usize = 0;
        while i < current.len()
            invariant
                i <= current.len(),
                cur == entries_of(current@),
                old_e == entries_of(self.seen@),
                events@.map_values(|e: MonitorEvent| e@) == change_events(old_e, cur.take(i as int)),
            decreases current.len() - i,
        {
            let ghost before = events@;
            assert(cur.take(i + 1).drop_last() =~= cur.take(i as int));
            assert(cur.take(i + 1).last() == cur[i as int]);
            let id = &current[i].0;
            let price = current[i].1.duplicate();
            match Self::find(&self.seen, id) {
                Some(j) => {
                    let old_price = self.seen[j].1.duplicate();
                    if old_price.differs_by_more_than_a_hundredth(&price) {
                        events.push(
                            MonitorEvent::PriceChanged {
                                offer_id: OfferId(id.0.clone()),
                                old_price,
                                new_price: price,
                            },
                        );
                        assert(events@.map_values(|e: MonitorEvent| e@) =~= before.map_values(
                            |e: MonitorEvent| e@,
                        ).push(events@.last()@));
                    }
                },
                None => {
                    events.push(MonitorEvent::NewOffer { offer_id: OfferId(id.0.clone()) });
                    assert(events@.map_values(|e: MonitorEvent| e@) =~= before.map_values(
                        |e: MonitorEvent| e@,
                    ).push(events@.last()@));
                },
            }
            i += 1;
        }
        assert(cur.take(current.len() as int) =~= cur);
        let ghost changes = events@.map_values(|e: MonitorEvent| e@);
        let mut r: usize = 0;
        while r < self.seen.len()
            invariant
                r <= self.seen.len(),
                cur == entries_of(current@),
                old_e == entries_of(self.seen@),
                changes == change_events(old_e, cur),
                events@.map_values(|e: MonitorEvent| e@) == changes + removal_events(
                    old_e.take(r as int),
                    cur,
                ),
            decreases self.seen.len() - r,
        {
            let ghost before = events@;
            assert(old_e.take(r + 1).drop_last() =~= old_e.take(r as int));
            assert(old_e.take(r + 1).last() == old_e[r as int]);
            let id = &self.seen[r].0;
            if Self::find(&current, id).is_none() {
                events.push(MonitorEvent::OfferRemoved { offer_id: OfferId(id.0.clone()) });
                assert(events@.map_values(|e: MonitorEvent| e@) =~= before.map_values(
                    |e: MonitorEvent| e@,
                ).push(events@.last()@));
                assert(changes + removal_events(old_e.take(r + 1), cur) =~= (changes
                    + removal_events(old_e.take(r as int), cur)).push(
                    EventView::OfferRemoved(old_e[r as int].0),
                ));
            }
            r += 1;
        }
        assert(old_e.take(self.seen.len() as int) =~= old_e);
        proof {
            lemma_snapshot_distinct(entries_of(offers@));
        }
        self.seen = current;
        events
    }
}

/// Checking the same offers twice in a row reports nothing the second time:
/// the events between a snapshot and itself are empty.
pub proof fn lemma_same_snapshot_no_events(offers: Seq<Entry>)
    ensures
        monitor_events(snapshot(offers), snapshot(offers)) == Seq::<EventView>::empty(),
{
    let s = snapshot(offers);
    lemma_snapshot_distinct(offers);
    lemma_change_events_self(s, s.len());
    lemma_removal_events_self(s, s, s.len());
    assert(s.take(s.len() as int) =~= s);
}

proof fn lemma_change_events_self(s: Seq<Entry>, n: nat)
    requires
        distinct_ids(s),
        n <= s.len(),
    ensures
        change_events(s, s.take(n as int)) == Seq::<EventView>::empty(),
    decreases n,
{
    if n > 0 {
        assert(s.take(n as int).drop_last() =~= s.take(n - 1));
        lemma_change_events_self(s, (n - 1) as nat);
        lemma_index_of_distinct(s, n - 1);
    } else {
        assert(s.take(0) =~= Seq::<Entry>::empty());
    }
}

proof fn lemma_removal_events_self(s: Seq<Entry>, cur: Seq<Entry>, n: nat)
    requires
        distinct_ids(cur),
        s == cur,
        n <= s.len(),
    ensures
        removal_events(s.take(n as int), cur) == Seq::<EventView>::empty(),
    decreases n,
{
    if n > 0 {
        assert(s.take(n as int).drop_last() =~= s.take(n - 1));
        lemma_removal_events_self(s, cur, (n - 1) as nat);
        lemma_index_of_distinct(cur, n - 1);
    } else {
        assert(s.take(0) =~= Seq::<Entry>::empty());
    }
}


/// The offer id that an event is about.
pub open spec fn event_id(e: EventView) -> Seq<char> {
    match e {
        EventView::PriceChanged(k, _, _) => k,
        EventView::NewOffer(k) => k,
        EventView::OfferRemoved(k) => k,
    }
}

/// Whether `e` is among the events between the snapshots `old` and `cur`,
/// each read as a map from offer id to price: a new offer for each id only in
/// `cur`, a price change for each id in both whose prices are more than 0.01
/// apart, a removal for each id only in `old`.
pub open spec fn expected_event(old: Seq<Entry>, cur: Seq<Entry>, e: EventView) -> bool {
    match e {
        EventView::NewOffer(k) => index_of(cur, k) is Some && index_of(old, k) is None,
        EventView::PriceChanged(k, p, q) => {
            &&& index_of(old, k) matches Some(i) && old[i].1 == p
            &&& index_of(cur, k) matches Some(j) && cur[j].1 == q
            &&& amount_far(p, q)
        },
        EventView::OfferRemoved(k) => index_of(old, k) is Some && index_of(cur, k) is None,
    }
}

proof fn lemma_contains_push<A>(s: Seq<A>, x: A, e: A)
    ensures
        s.push(x).contains(e) <==> (s.contains(e) || e == x),
{
    if s.contains(e) {
        let i = choose|i: int| 0 <= i < s.len() && s[i] == e;
        assert(s.push(x)[i] == e);
    }
    if e == x {
        assert(s.push(x)[s.len() as int] == e);
    }
    if s.push(x).contains(e) {
        let i = choose|i: int| 0 <= i < s.push(x).len() && s.push(x)[i] == e;
        if i < s.len() {
            assert(s[i] == e);
        }
    }
}

proof fn lemma_no_dup_push<A>(s: Seq<A>, x: A)
    requires
        s.no_duplicates(),
        !s.contains(x),
    ensures
        s.push(x).no_duplicates(),
{
    let t = s.push(x);
    assert forall|i: int, j: int| 0 <= i < t.len() && 0 <= j < t.len() && i != j implies t[i]
        != t[j] by {
        if i < s.len() && j < s.len() {
            assert(t[i] == s[i] && t[j] == s[j]);
        } else if i < s.len() {
            assert(t[i] == s[i]);
            if s[i] == x {
                assert(s.contains(x));
            }
        } else {
            assert(t[j] == s[j]);
            if s[j] == x {
                assert(s.contains(x));
            }
        }
    }
}

proof fn lemma_contains_concat<A>(a: Seq<A>, b: Seq<A>, e: A)
    ensures
        (a + b).contains(e) <==> (a.contains(e) || b.contains(e)),
{
    if a.contains(e) {
        let i = choose|i: int| 0 <= i < a.len() && a[i] == e;
        assert((a + b)[i] == e);
    }
    if b.contains(e) {
        let i = choose|i: int| 0 <= i < b.len() && b[i] == e;
        assert((a + b)[a.len() + i] == e);
    }
    if (a + b).contains(e) {
        let i = choose|i: int| 0 <= i < (a + b).len() && (a + b)[i] == e;
        if i < a.len() {
            assert(a[i] == e);
        } else {
            assert(b[i - a.len()] == e);
        }
    }
}

proof fn lemma_distinct_drop_last(l: Seq<Entry>)
    requires
        distinct_ids(l),
        l.len() > 0,
    ensures
        distinct_ids(l.drop_last()),
        forall|i: int| 0 <= i < l.len() - 1 ==> l[i].0 != l.last().0,
{
    assert forall|i: int| 0 <= i < l.len() - 1 implies l[i].0 != l.last().0 by {
        assert(l[i].0 != l[l.len() - 1].0);
    }
}

/// Looking up an id after appending an entry whose id is new.
proof fn lemma_index_of_push(l: Seq<Entry>, x: Entry, k: Seq<char>)
    requires
        distinct_ids(l.push(x)),
    ensures
        index_of(l.push(x), k) == (if x.0 == k {
            Some(l.len() as int)
        } else {
            index_of(l, k)
        }),
{
    let t = l.push(x);
    lemma_index_from_found(l, k, 0);
    lemma_index_from_found(t, k, 0);
    if x.0 == k {
        lemma_index_of_distinct(t, l.len() as int);
    } else {
        match index_of(l, k) {
            Some(j) => {
                assert(t[j] == l[j]);
                lemma_index_of_distinct(t, j);
            },
            None => {
                if index_of(t, k) is Some {
                    let j = index_of(t, k)->0;
                    assert(j < l.len());
                    assert(t[j] == l[j]);
                }
            },
        }
    }
}

proof fn lemma_change_events_members(old: Seq<Entry>, cur: Seq<Entry>)
    requires
        distinct_ids(old),
        distinct_ids(cur),
    ensures
        change_events(old, cur).no_duplicates(),
        forall|e: EventView|
            #[trigger] change_events(old, cur).contains(e) <==> (expected_event(old, cur, e)
                && !(e is OfferRemoved)),
    decreases cur.len(),
{
    let ev = change_events(old, cur);
    if cur.len() == 0 {
        assert forall|e: EventView| !expected_event(old, cur, e) || e is OfferRemoved by {
            lemma_index_from_found(cur, event_id(e), 0);
        }
    } else {
        let c1 = cur.drop_last();
        let (k, v) = cur.last();
        lemma_distinct_drop_last(cur);
        assert(c1.push(cur.last()) =~= cur);
        lemma_change_events_members(old, c1);
        let prev = change_events(old, c1);
        lemma_index_from_found(c1, k, 0);
        lemma_index_from_found(old, k, 0);
        assert forall|e: EventView| #[trigger] ev.contains(e) <==> (expected_event(old, cur, e)
            && !(e is OfferRemoved)) by {
            lemma_index_of_push(c1, cur.last(), event_id(e));
            lemma_index_from_found(c1, event_id(e), 0);
            if event_id(e) != k {
                match index_of(c1, event_id(e)) {
                    Some(j) => {
                        assert(cur[j] == c1[j]);
                    },
                    None => {},
                }
            }
            match index_of(old, k) {
                Some(j) => {
                    if amount_far(old[j].1, v) {
                        lemma_contains_push(prev, EventView::PriceChanged(k, old[j].1, v), e);
                    }
                },
                None => {
                    lemma_contains_push(prev, EventView::NewOffer(k), e);
                },
            }
        }
        match index_of(old, k) {
            Some(j) => {
                if amount_far(old[j].1, v) {
                    lemma_no_dup_push(prev, EventView::PriceChanged(k, old[j].1, v));
                }
            },
            None => {
                lemma_no_dup_push(prev, EventView::NewOffer(k));
            },
        }
    }
}

proof fn lemma_removal_events_members(old: Seq<Entry>, cur: Seq<Entry>)
    requires
        distinct_ids(old),
        distinct_ids(cur),
    ensures
        removal_events(old, cur).no_duplicates(),
        forall|e: EventView|
            #[trigger] removal_events(old, cur).contains(e) <==> (expected_event(old, cur, e)
                && e is OfferRemoved),
    decreases old.len(),
{
    let ev = removal_events(old, cur);
    if old.len() == 0 {
        assert forall|e: EventView| !(expected_event(old, cur, e) && e is OfferRemoved) by {
            lemma_index_from_found(old, event_id(e), 0);
        }
    } else {
        let o1 = old.drop_last();
        let k = old.last().0;
        lemma_distinct_drop_last(old);
        assert(o1.push(old.last()) =~= old);
        lemma_removal_events_members(o1, cur);
        let prev = removal_events(o1, cur);
        lemma_index_from_found(o1, k, 0);
        assert forall|e: EventView| #[trigger] ev.contains(e) <==> (expected_event(old, cur, e)
            && e is OfferRemoved) by {
            lemma_index_of_push(o1, old.last(), event_id(e));
            if index_of(cur, k) is None {
                lemma_contains_push(prev, EventView::OfferRemoved(k), e);
            }
        }
        if index_of(cur, k) is None {
            lemma_no_dup_push(prev, EventView::OfferRemoved(k));
        }
    }
}

/// The events between two snapshots, read as an unordered collection, are
/// exactly those of the two snapshots read as maps from offer id to price:
/// `NewOffer` for each id only in the new one, `PriceChanged` with both prices
/// for each id in both whose prices are more than 0.01 apart, `OfferRemoved`
/// for each id only in the old one, each once.
pub proof fn lemma_monitor_events_as_set(old: Seq<Entry>, cur: Seq<Entry>)
    requires
        distinct_ids(old),
        distinct_ids(cur),
    ensures
        monitor_events(old, cur).no_duplicates(),
        forall|e: EventView| #[trigger]
            monitor_events(old, cur).contains(e) <==> expected_event(old, cur, e),
{
    lemma_change_events_members(old, cur);
    lemma_removal_events_members(old, cur);
    let a = change_events(old, cur);
    let b = removal_events(old, cur);
    assert forall|e: EventView| #[trigger] (a + b).contains(e) <==> expected_event(old, cur, e) by {
        lemma_contains_concat(a, b, e);
    }
    let t = a + b;
    assert forall|i: int, j: int| 0 <= i < t.len() && 0 <= j < t.len() && i != j implies t[i]
        != t[j] by {
        if i < a.len() && j < a.len() {
            assert(t[i] == a[i] && t[j] == a[j]);
        } else if i >= a.len() && j >= a.len() {
            assert(t[i] == b[i - a.len()] && t[j] == b[j - a.len()]);
        } else if i < a.len() {
            assert(t[i] == a[i] && a.contains(a[i]));
            assert(t[j] == b[j - a.len()] && b.contains(b[j - a.len()]));
        } else {
            assert(t[j] == a[j] && a.contains(a[j]));
            assert(t[i] == b[i - a.len()] && b.contains(b[i - a.len()]));
        }
    }
}


proof fn lemma_index_same_ids(l1: Seq<Entry>, l2: Seq<Entry>, k: Seq<char>, i: int)
    requires
        l1.len() == l2.len(),
        forall|j: int| 0 <= j < l1.len() ==> #[trigger] l1[j].0 == l2[j].0,
    ensures
        index_from(l1, k, i) == index_from(l2, k, i),
    decreases l1.len() - i,
{
    if 0 <= i < l1.len() {
        assert(l1[i].0 == l2[i].0);
        lemma_index_same_ids(l1, l2, k, i + 1);
    }
}

/// The snapshot of a list of offers is the map that the list builds, a later
/// price winning for a repeated id: it has exactly the ids of the list, and
/// each with the price of the last entry of the list that has that id.
pub proof fn lemma_snapshot_is_map(offers: Seq<Entry>, k: Seq<char>)
    ensures
        distinct_ids(snapshot(offers)),
        index_of(snapshot(offers), k) is Some <==> exists|i: int|
            0 <= i < offers.len() && #[trigger] offers[i].0 == k,
        index_of(snapshot(offers), k) matches Some(j) ==> exists|i: int|
            0 <= i < offers.len() && #[trigger] offers[i] == (k, snapshot(offers)[j].1) && forall|
                i2: int,
            |
                i < i2 < offers.len() ==> #[trigger] offers[i2].0 != k,
    decreases offers.len(),
{
    lemma_snapshot_distinct(offers);
    let s = snapshot(offers);
    lemma_index_from_found(s, k, 0);
    if offers.len() == 0 {
    } else {
        let o1 = offers.drop_last();
        let x = offers.last();
        lemma_snapshot_is_map(o1, k);
        let s1 = snapshot(o1);
        lemma_snapshot_distinct(o1);
        lemma_index_from_found(s1, x.0, 0);
        lemma_index_from_found(s1, k, 0);
        match index_of(s1, x.0) {
            Some(i) => {
                assert(s == s1.update(i, x));
                assert forall|j: int| 0 <= j < s.len() implies #[trigger] s[j].0 == s1[j].0 by {}
                lemma_index_same_ids(s, s1, k, 0);
            },
            None => {
                assert(s == s1.push(x));
                lemma_index_of_push(s1, x, k);
            },
        }
        if x.0 == k {
            assert(offers[offers.len() - 1] == x);
            lemma_index_of_distinct(s, index_of(s, k)->0);
        } else {
            if exists|i: int| 0 <= i < offers.len() && #[trigger] offers[i].0 == k {
                let i = choose|i: int| 0 <= i < offers.len() && #[trigger] offers[i].0 == k;
                assert(i < o1.len());
                assert(o1[i].0 == k);
            }
            if exists|i: int| 0 <= i < o1.len() && #[trigger] o1[i].0 == k {
                let i = choose|i: int| 0 <= i < o1.len() && #[trigger] o1[i].0 == k;
                assert(offers[i].0 == k);
            }
            match index_of(s, k) {
                Some(j) => {
                    let i = choose|i: int|
                        0 <= i < o1.len() && #[trigger] o1[i] == (k, s1[j].1) && forall|i2: int|
                            i < i2 < o1.len() ==> #[trigger] o1[i2].0 != k;
                    assert(s[j] == s1[j]);
                    assert(offers[i] == o1[i]);
                    assert forall|i2: int| i < i2 < offers.len() implies #[trigger] offers[i2].0 != k by {
                        if i2 < o1.len() {
                            assert(offers[i2] == o1[i2]);
                        }
                    }
                },
                None => {},
            }
        }
    }
}

} // verus!
