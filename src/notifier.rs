//! Queue-position notifications: who is subscribed, which rank updates are
//! fresh, what an applicant is told, and how often delivery is tried.

use vstd::prelude::*;

verus! {

/// Delivery attempts made for one notice before it is dropped.
pub const MAX_DELIVERY_ATTEMPTS: u32 = 3;

/// What an applicant is told about their place in the queue.
#[derive(Clone, Copy, Debug, PartialEq, Eq, Structural)]
pub enum RankNotice {
    /// Nobody is ahead: it is their turn.
    YourTurn,
    /// This many applicants are ahead.
    Ahead(i64),
}

/// A change of an applicant's rank, stamped in the order the changes were made.
#[derive(Clone, Copy, Debug, PartialEq, Eq, Structural)]
pub struct RankUpdate {
    pub applicant: i64,
    pub rank: i64,
    pub stamp: u64,
}

/// The notice for `rank`.
pub open spec fn notice_of(rank: i64) -> RankNotice {
    if rank == 0 {
        RankNotice::YourTurn
    } else {
        RankNotice::Ahead(rank)
    }
}

pub fn rank_notice(rank: i64) -> (r: RankNotice)
    ensures
        r == notice_of(rank),
{
    if rank == 0 {
        RankNotice::YourTurn
    } else {
        RankNotice::Ahead(rank)
    }
}

/// Whether to try delivering again after `attempts` tries of which the last
/// one did or did not get through.
pub fn should_retry(attempts: u32, delivered: bool) -> (r: bool)
    ensures
        r == (!delivered && attempts < MAX_DELIVERY_ATTEMPTS),
{
    !delivered && attempts < MAX_DELIVERY_ATTEMPTS
}

/// The set of subscribed applicants that the list `s` holds.
pub open spec fn members(s: Seq<i64>) -> Set<i64> {
    s.to_set()
}

/// `s` without occurrences of `x`.
pub open spec fn drop_id(s: Seq<i64>, x: i64) -> Seq<i64>
    decreases s.len(),
{
    if s.len() == 0 {
        s
    } else if s.last() == x {
        drop_id(s.drop_last(), x)
    } else {
        drop_id(s.drop_last(), x).push(s.last())
    }
}

proof fn lemma_drop_id(s: Seq<i64>, x: i64, y: i64)
    ensures
        drop_id(s, x).contains(y) == (y != x && s.contains(y)),
    decreases s.len(),
{
    if s.len() > 0 {
        lemma_drop_id(s.drop_last(), x, y);
        let d = drop_id(s.drop_last(), x);
        assert(s =~= s.drop_last().push(s.last()));
        if s.last() != x {
            assert(d.push(s.last()).contains(y) == (d.contains(y) || y == s.last())) by {
                if d.push(s.last()).contains(y) {
                    let k = choose|k: int| 0 <= k < d.push(s.last()).len() && d.push(s.last())[k] == y;
                    if k < d.len() {
                        assert(d[k] == y);
                    }
                }
                if d.contains(y) {
                    let k = choose|k: int| 0 <= k < d.len() && d[k] == y;
                    assert(d.push(s.last())[k] == y);
                }
                if y == s.last() {
                    assert(d.push(s.last())[d.len() as int] == y);
                }
            }
        }
        assert(s.contains(y) == (s.drop_last().contains(y) || s.last() == y)) by {
            if s.contains(y) {
                let k = choose|k: int| 0 <= k < s.len() && s[k] == y;
                if k < s.len() - 1 {
                    assert(s.drop_last()[k] == y);
                }
            }
            if s.drop_last().contains(y) {
                let k = choose|k: int| 0 <= k < s.drop_last().len() && s.drop_last()[k] == y;
                assert(s[k] == y);
            }
            if s.last() == y {
                assert(s[s.len() - 1] == y);
            }
        }
    }
}

/// Applicants who asked to follow the queue.
pub struct Subscriptions {
    ids: Vec<i64>,
}

impl View for Subscriptions {
    type V = Set<i64>;

    closed spec fn view(&self) -> Set<i64> {
        members(self.ids@)
    }
}

impl Subscriptions {
    pub fn new() -> (r: Subscriptions)
        ensures
            r@ == Set::<i64>::empty(),
    {
        let r = Subscriptions { ids: Vec::new() };
        assert(members(r.ids@) =~= Set::<i64>::empty());
        r
    }

    pub fn is_subscribed(&self, applicant: i64) -> (r: bool)
        ensures
            r == self@.contains(applicant),
    {
        let mut i: usize = 0;
        while i < self.ids.len()
            invariant
                i <= self.ids.len(),
                forall|k: int| 0 <= k < i ==> self.ids@[k] != applicant,
            decreases self.ids.len() - i,
        {
            if self.ids[i] == applicant {
                assert(self.ids@.contains(applicant));
                return true;
            }
            i = i + 1;
        }
        false
    }

    /// Flips `applicant`'s subscription and tells whether it is now on.
    pub fn toggle(&mut self, applicant: i64) -> (r: bool)
        ensures
            r == !old(self)@.contains(applicant),
            final(self)@.contains(applicant) == r,
            forall|x: i64| x != applicant ==> final(self)@.contains(x) == old(self)@.contains(x),
    {
        let on = self.is_subscribed(applicant);
        let ghost before = self.ids@;
        let mut kept: Vec<i64> = Vec::new();
        let mut i: usize = 0;
        while i < self.ids.len()
            invariant
                i <= self.ids.len(),
                before == self.ids@,
                kept@ == drop_id(self.ids@.subrange(0, i as int), applicant),
            decreases self.ids.len() - i,
        {
            assert(self.ids@.subrange(0, i + 1).drop_last() =~= self.ids@.subrange(0, i as int));
            if self.ids[i] != applicant {
                kept.push(self.ids[i]);
            }
            i = i + 1;
        }
        assert(self.ids@.subrange(0, i as int) =~= self.ids@);
        if !on {
            let ghost d = kept@;
            kept.push(applicant);
            proof {
                assert forall|x: i64| kept@.contains(x) == (d.contains(x) || x == applicant) by {
                    if kept@.contains(x) {
                        let k = choose|k: int| 0 <= k < kept@.len() && kept@[k] == x;
                        if k < d.len() {
                            assert(d[k] == x);
                        }
                    }
                    if d.contains(x) {
                        let k = choose|k: int| 0 <= k < d.len() && d[k] == x;
                        assert(kept@[k] == x);
                    }
                    assert(kept@[d.len() as int] == applicant);
                }
            }
        }
        self.ids = kept;
        proof {
            assert forall|x: i64| x != applicant implies members(self.ids@).contains(x) == members(
                before,
            ).contains(x) by {
                lemma_drop_id(before, applicant, x);
            }
            lemma_drop_id(before, applicant, applicant);
        }
        !on
    }
}

/// The stamp last recorded for `a` in `s`, if any.
pub open spec fn stamp_of(s: Seq<(i64, u64)>, a: i64) -> Option<u64>
    decreases s.len(),
{
    if s.len() == 0 {
        None
    } else if s.last().0 == a {
        Some(s.last().1)
    } else {
        stamp_of(s.drop_last(), a)
    }
}

/// An update is fresh when no update with the same or a later stamp was
/// taken for that applicant.
pub open spec fn fresh(s: Seq<(i64, u64)>, u: RankUpdate) -> bool {
    match stamp_of(s, u.applicant) {
        None => true,
        Some(k) => k < u.stamp,
    }
}

/// The last stamp taken per applicant, so that a stale rank update never
/// overtakes a later one.
pub struct RankLedger {
    stamps: Vec<(i64, u64)>,
}

impl View for RankLedger {
    type V = Seq<(i64, u64)>;

    closed spec fn view(&self) -> Seq<(i64, u64)> {
        self.stamps@
    }
}

impl RankLedger {
    pub fn new() -> (r: RankLedger)
        ensures
            forall|a: i64| stamp_of(r@, a) is None,
    {
        RankLedger { stamps: Vec::new() }
    }

    /// Takes `u` if it is fresh, and tells whether it did.
    pub fn take(&mut self, u: RankUpdate) -> (r: bool)
        ensures
            r == fresh(old(self)@, u),
            r ==> stamp_of(final(self)@, u.applicant) == Some(u.stamp),
            !r ==> final(self)@ == old(self)@,
            forall|a: i64| a != u.applicant ==> stamp_of(final(self)@, a) == stamp_of(old(self)@, a),
    {
        let mut i: usize = self.stamps.len();
        let mut last: Option<u64> = None;
        assert(self.stamps@.subrange(0, i as int) =~= self.stamps@);
        while i > 0 && last.is_none()
            invariant
                i <= self.stamps@.len(),
                last is None ==> stamp_of(self.stamps@, u.applicant) == stamp_of(
                    self.stamps@.subrange(0, i as int),
                    u.applicant,
                ),
                last is Some ==> stamp_of(self.stamps@, u.applicant) == last,
            decreases i,
        {
            assert(self.stamps@.subrange(0, i as int).drop_last() =~= self.stamps@.subrange(
                0,
                i - 1,
            ));
            let (a, k) = self.stamps[i - 1];
            if a == u.applicant {
                last = Some(k);
            }
            i = i - 1;
        }
        if let Some(k) = last {
            if k >= u.stamp {
                return false;
            }
        }
        let ghost before = self.stamps@;
        self.stamps.push((u.applicant, u.stamp));
        assert(self.stamps@.drop_last() =~= before);
        true
    }
}

/// The notice to send for `u`, if its applicant is subscribed and the update
/// is fresh; a fresh update is recorded either way.
pub fn decide(subs: &Subscriptions, ledger: &mut RankLedger, u: RankUpdate) -> (r: Option<RankNotice>)
    ensures
        r == (if fresh(old(ledger)@, u) && subs@.contains(u.applicant) {
            Some(notice_of(u.rank))
        } else {
            None::<RankNotice>
        }),
        fresh(old(ledger)@, u) ==> stamp_of(final(ledger)@, u.applicant) == Some(u.stamp),
{
    if ledger.take(u) && subs.is_subscribed(u.applicant) {
        Some(rank_notice(u.rank))
    } else {
        None
    }
}

/// The notification side of the queue: subscriptions, and the last rank
/// stamp taken per applicant.
pub struct Notifier {
    pub subscriptions: Subscriptions,
    pub ledger: RankLedger,
}

impl Notifier {
    pub fn new() -> (r: Notifier)
        ensures
            r.subscriptions@ == Set::<i64>::empty(),
            forall|a: i64| stamp_of(r.ledger@, a) is None,
    {
        Notifier { subscriptions: Subscriptions::new(), ledger: RankLedger::new() }
    }

    /// Flips `applicant`'s subscription and tells whether it is now on.
    pub fn toggle(&mut self, applicant: i64) -> (r: bool)
        ensures
            r == !old(self).subscriptions@.contains(applicant),
            final(self).subscriptions@.contains(applicant) == r,
            forall|x: i64|
                x != applicant ==> final(self).subscriptions@.contains(x) == old(
                    self,
                ).subscriptions@.contains(x),
            final(self).ledger@ == old(self).ledger@,
    {
        self.subscriptions.toggle(applicant)
    }

    /// The notice to send for a rank change, if any.
    pub fn handle(&mut self, u: RankUpdate) -> (r: Option<RankNotice>)
        ensures
            r == (if fresh(old(self).ledger@, u) && old(self).subscriptions@.contains(u.applicant) {
                Some(notice_of(u.rank))
            } else {
                None::<RankNotice>
            }),
            fresh(old(self).ledger@, u) ==> stamp_of(final(self).ledger@, u.applicant) == Some(
                u.stamp,
            ),
            final(self).subscriptions@ == old(self).subscriptions@,
    {
        decide(&self.subscriptions, &mut self.ledger, u)
    }
}

} // verus!
