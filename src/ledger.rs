use crate::error::DextikError;
use crate::fees::MAX_ROYALTY_BPS;
use crate::identity::{same_identity, Identity};
use vstd::prelude::*;

verus! {

/// Minimum time, in seconds, that a holder keeps a ticket before reselling it.
pub const HOLDING_PERIOD_SECONDS: i64 = 86400;

/// Longest event name, in characters.
pub const MAX_NAME_LEN: usize = 32;

/// Longest venue, in characters.
pub const MAX_VENUE_LEN: usize = 64;

/// Longest description, in characters.
pub const MAX_DESCRIPTION_LEN: usize = 256;

/// An event record. Only `tickets_sold` changes after creation.
pub struct Event {
    pub name: String,
    pub organizer: Identity,
    pub total_tickets: u32,
    pub tickets_sold: u32,
    pub ticket_price: u64,
    /// Royalty on resales, in basis points (500 = 5%).
    pub royalty_bps: u16,
    /// Unix timestamp of the event itself.
    pub event_date: i64,
    pub venue: String,
    pub description: String,
    /// Unix timestamp of the creation of this record.
    pub created_at: i64,
}

impl Event {
    pub open spec fn wf(&self) -> bool {
        &&& 0 < self.total_tickets
        &&& self.tickets_sold <= self.total_tickets
        &&& self.royalty_bps <= MAX_ROYALTY_BPS
        &&& self.name@.len() <= MAX_NAME_LEN
        &&& self.venue@.len() <= MAX_VENUE_LEN
        &&& self.description@.len() <= MAX_DESCRIPTION_LEN
    }
}

/// A minted ticket. It always has exactly one owner.
#[derive(Clone, Copy, Debug)]
pub struct Ticket {
    pub event_id: u64,
    /// Position of this ticket in its event's primary sale, from 0.
    pub serial: u32,
    pub owner: Identity,
    /// The price paid at mint.
    pub purchase_price: u64,
    pub last_transfer_time: i64,
    pub transfer_count: u32,
}

/// One entry of the append-only ownership history: who received which
/// ticket, and when.
#[derive(Clone, Copy, Debug)]
pub struct TransferRecord {
    pub ticket_id: u64,
    pub owner: Identity,
    pub timestamp: i64,
}

/// How many tickets of an event a wallet has minted.
#[derive(Clone, Copy, Debug)]
pub struct WalletCount {
    pub event_id: u64,
    pub wallet: Identity,
    pub count: u32,
}

/// The mint count of `wallet` for `event_id`: the last matching entry, or 0.
pub open spec fn count_for(counts: Seq<WalletCount>, event_id: u64, wallet: Identity) -> nat
    decreases counts.len(),
{
    if counts.len() == 0 {
        0
    } else if counts.last().event_id == event_id && counts.last().wallet == wallet {
        counts.last().count as nat
    } else {
        count_for(counts.drop_last(), event_id, wallet)
    }
}

/// The number of tickets of `event_id`.
pub open spec fn tickets_of(tickets: Seq<Ticket>, event_id: u64) -> nat
    decreases tickets.len(),
{
    if tickets.len() == 0 {
        0
    } else {
        tickets_of(tickets.drop_last(), event_id) + if tickets.last().event_id == event_id {
            1nat
        } else {
            0nat
        }
    }
}

/// `t` after passing to `new_owner` at `timestamp`. The transfer count
/// stops at `u32::MAX`.
pub open spec fn transferred(t: Ticket, new_owner: Identity, timestamp: i64) -> Ticket {
    Ticket {
        owner: new_owner,
        last_transfer_time: timestamp,
        transfer_count: if t.transfer_count < u32::MAX {
            (t.transfer_count + 1) as u32
        } else {
            t.transfer_count
        },
        ..t
    }
}

/// The record store: events and tickets addressed by their index, the
/// per-wallet mint counters, and the ownership history.
pub struct Ledger {
    /// How many tickets of one event a wallet may mint.
    pub max_tickets_per_wallet: u32,
    pub events: Vec<Event>,
    pub tickets: Vec<Ticket>,
    pub wallet_counts: Vec<WalletCount>,
    pub history: Vec<TransferRecord>,
}

impl Ledger {
    /// Every event is valid and has sold exactly as many tickets as the
    /// ledger holds for it; every ticket belongs to an event.
    pub open spec fn wf(&self) -> bool {
        &&& forall|i: int|
            0 <= i < self.events@.len() ==> (#[trigger] self.events@[i]).wf()
                && tickets_of(self.tickets@, i as u64) == self.events@[i].tickets_sold
        &&& forall|j: int|
            0 <= j < self.tickets@.len() ==> (#[trigger] self.tickets@[j]).event_id
                < self.events@.len()
        &&& self.events@.len() <= u64::MAX
        &&& self.tickets@.len() <= u64::MAX
    }

    /// The ledger after `ticket_id` passed from its owner to `new_owner`.
    pub open spec fn transfer_post(
        pre: Ledger,
        post: Ledger,
        ticket_id: u64,
        new_owner: Identity,
        timestamp: i64,
    ) -> bool {
        &&& post.tickets@ == pre.tickets@.update(
            ticket_id as int,
            transferred(pre.tickets@[ticket_id as int], new_owner, timestamp),
        )
        &&& post.history@ == pre.history@.push(
            TransferRecord { ticket_id, owner: new_owner, timestamp },
        )
        &&& post.events@ == pre.events@
        &&& post.wallet_counts@ == pre.wallet_counts@
        &&& post.max_tickets_per_wallet == pre.max_tickets_per_wallet
    }

    /// An empty ledger whose wallets may each mint `max_tickets_per_wallet`
    /// tickets of an event.
    pub fn new(max_tickets_per_wallet: u32) -> (r: Ledger)
        ensures
            r.wf(),
            r.max_tickets_per_wallet == max_tickets_per_wallet,
            r.events@.len() == 0,
            r.tickets@.len() == 0,
            r.wallet_counts@.len() == 0,
            r.history@.len() == 0,
    {
        Ledger {
            max_tickets_per_wallet,
            events: Vec::new(),
            tickets: Vec::new(),
            wallet_counts: Vec::new(),
            history: Vec::new(),
        }
    }

    /// The number of tickets of `event_id` that `wallet` has minted.
    pub fn wallet_count(&self, event_id: u64, wallet: &Identity) -> (r: u32)
        ensures
            r == count_for(self.wallet_counts@, event_id, *wallet),
    {
        match self.find_wallet_count(event_id, wallet) {
            Some(k) => self.wallet_counts[k].count,
            None => 0,
        }
    }

    /// The index of the entry that holds the count of `wallet` for `event_id`.
    fn find_wallet_count(&self, event_id: u64, wallet: &Identity) -> (r: Option<usize>)
        ensures
            r matches Some(k) ==> (k < self.wallet_counts@.len() && self.wallet_counts@[k as int].event_id
                == event_id && self.wallet_counts@[k as int].wallet == *wallet && count_for(
                self.wallet_counts@,
                event_id,
                *wallet,
            ) == self.wallet_counts@[k as int].count && forall|j: int|
                k < j < self.wallet_counts@.len() ==> !(self.wallet_counts@[j].event_id == event_id
                    && self.wallet_counts@[j].wallet == *wallet)),
            r is None ==> count_for(self.wallet_counts@, event_id, *wallet) == 0,
    {
        let mut i: usize = self.wallet_counts.len();
        proof {
            assert(self.wallet_counts@.take(i as int) =~= self.wallet_counts@);
        }
        while i > 0
            invariant
                i <= self.wallet_counts@.len(),
                count_for(self.wallet_counts@, event_id, *wallet) == count_for(
                    self.wallet_counts@.take(i as int),
                    event_id,
                    *wallet,
                ),
                forall|j: int|
                    i <= j < self.wallet_counts@.len() ==> !(self.wallet_counts@[j].event_id == event_id && self.wallet_counts@[j].wallet
                        == *wallet),
            decreases i,
        {
            let c = &self.wallet_counts[i - 1];
            proof {
                assert(self.wallet_counts@.take(i as int).drop_last() =~= self.wallet_counts@.take(i - 1));
            }
            if c.event_id == event_id && same_identity(&c.wallet, wallet) {
                assert(self.wallet_counts@.take(i as int).last() == self.wallet_counts@[i - 1]);
                return Some(i - 1);
            }
            i = i - 1;
        }
        None
    }

    /// Adds one to the count of `wallet` for `event_id`.
    pub(crate) fn bump_wallet_count(&mut self, event_id: u64, wallet: &Identity)
        requires
            count_for(old(self).wallet_counts@, event_id, *wallet) < u32::MAX,
        ensures
            forall|e: u64, w: Identity|
                #[trigger] count_for(final(self).wallet_counts@, e, w) == if e == event_id && w
                    == *wallet {
                    count_for(old(self).wallet_counts@, e, w) + 1
                } else {
                    count_for(old(self).wallet_counts@, e, w)
                },
            final(self).events == old(self).events,
            final(self).tickets == old(self).tickets,
            final(self).history == old(self).history,
            final(self).max_tickets_per_wallet == old(self).max_tickets_per_wallet,
    {
        match self.find_wallet_count(event_id, wallet) {
            Some(k) => {
                let n = self.wallet_counts[k].count;
                let entry = WalletCount { event_id, wallet: *wallet, count: n + 1 };
                proof {
                    lemma_count_for_update(self.wallet_counts@, k as int, entry);
                }
                self.wallet_counts.set(k, entry);
            },
            None => {
                let entry = WalletCount { event_id, wallet: *wallet, count: 1 };
                proof {
                    assert forall|e: u64, w: Identity|
                        #[trigger] count_for(self.wallet_counts@.push(entry), e, w) == if e
                            == event_id && w == *wallet {
                            count_for(self.wallet_counts@, e, w) + 1
                        } else {
                            count_for(self.wallet_counts@, e, w)
                        } by {
                        assert(self.wallet_counts@.push(entry).drop_last()
                            =~= self.wallet_counts@);
                    }
                }
                self.wallet_counts.push(entry);
            },
        }
    }

    /// Compare-and-set of a ticket's owner: `ticket_id` passes to
    /// `new_owner` only if `expected_owner` holds it now.
    pub fn transfer(
        &mut self,
        ticket_id: u64,
        expected_owner: &Identity,
        new_owner: &Identity,
        timestamp: i64,
    ) -> (r: Result<(), DextikError>)
        requires
            old(self).wf(),
        ensures
            final(self).wf(),
            ticket_id >= old(self).tickets@.len() ==> r == Err::<(), DextikError>(
                DextikError::TicketNotFound,
            ),
            ticket_id < old(self).tickets@.len() && old(self).tickets@[ticket_id as int].owner
                != *expected_owner ==> r == Err::<(), DextikError>(DextikError::NotOwner),
            ticket_id < old(self).tickets@.len() && old(self).tickets@[ticket_id as int].owner
                == *expected_owner ==> r is Ok,
            r is Err ==> *final(self) == *old(self),
            r is Ok ==> Ledger::transfer_post(
                *old(self),
                *final(self),
                ticket_id,
                *new_owner,
                timestamp,
            ),
    {
        if ticket_id >= self.tickets.len() as u64 {
            return Err(DextikError::TicketNotFound);
        }
        let k = ticket_id as usize;
        let t = self.tickets[k];
        if !same_identity(&t.owner, expected_owner) {
            return Err(DextikError::NotOwner);
        }
        let count = if t.transfer_count < u32::MAX {
            t.transfer_count + 1
        } else {
            t.transfer_count
        };
        let moved = Ticket {
            owner: *new_owner,
            last_transfer_time: timestamp,
            transfer_count: count,
            ..t
        };
        proof {
            lemma_tickets_of_update(self.tickets@, k as int, moved);
        }
        self.tickets.set(k, moved);
        self.history.push(TransferRecord { ticket_id, owner: *new_owner, timestamp });
        Ok(())
    }
}

/// Replacing an entry by one with the same key changes that key's count only.
proof fn lemma_count_for_update(s: Seq<WalletCount>, k: int, x: WalletCount)
    requires
        0 <= k < s.len(),
        s[k].event_id == x.event_id,
        s[k].wallet == x.wallet,
        forall|j: int|
            k < j < s.len() ==> !(s[j].event_id == x.event_id && s[j].wallet == x.wallet),
    ensures
        forall|e: u64, w: Identity|
            #[trigger] count_for(s.update(k, x), e, w) == if e == x.event_id && w == x.wallet {
                x.count as nat
            } else {
                count_for(s, e, w)
            },
    decreases s.len(),
{
    assert forall|e: u64, w: Identity|
        #[trigger] count_for(s.update(k, x), e, w) == if e == x.event_id && w == x.wallet {
            x.count as nat
        } else {
            count_for(s, e, w)
        } by {
        let u = s.update(k, x);
        assert(count_for(u, e, w) == if u.last().event_id == e && u.last().wallet == w {
            u.last().count as nat
        } else {
            count_for(u.drop_last(), e, w)
        });
        assert(count_for(s, e, w) == if s.last().event_id == e && s.last().wallet == w {
            s.last().count as nat
        } else {
            count_for(s.drop_last(), e, w)
        });
        if k == s.len() - 1 {
            assert(u.drop_last() =~= s.drop_last());
            assert(u.last() == x);
        } else {
            assert(u.drop_last() =~= s.drop_last().update(k, x));
            assert(u.last() == s.last());
            lemma_count_for_update(s.drop_last(), k, x);
        }
    }
}

/// Replacing a ticket by one of the same event keeps every event's count.
proof fn lemma_tickets_of_update(s: Seq<Ticket>, k: int, x: Ticket)
    requires
        0 <= k < s.len(),
        s[k].event_id == x.event_id,
    ensures
        forall|e: u64| #[trigger] tickets_of(s.update(k, x), e) == tickets_of(s, e),
    decreases s.len(),
{
    assert forall|e: u64| #[trigger] tickets_of(s.update(k, x), e) == tickets_of(s, e) by {
        let u = s.update(k, x);
        assert(u.len() == s.len());
        assert(tickets_of(u, e) == tickets_of(u.drop_last(), e) + if u.last().event_id == e {1nat} else {0nat});
        assert(tickets_of(s, e) == tickets_of(s.drop_last(), e) + if s.last().event_id == e {1nat} else {0nat});
        if k == s.len() - 1 {
            assert(u.drop_last() =~= s.drop_last());
            assert(u.last() == x);
        } else {
            assert(u.drop_last() =~= s.drop_last().update(k, x));
            assert(u.last() == s.last());
            lemma_tickets_of_update(s.drop_last(), k, x);
        }
    }
}

/// An event id that no ticket refers to has no tickets.
pub(crate) proof fn lemma_tickets_of_absent(s: Seq<Ticket>, e: u64)
    requires
        forall|j: int| 0 <= j < s.len() ==> #[trigger] s[j].event_id != e,
    ensures
        tickets_of(s, e) == 0,
    decreases s.len(),
{
    if s.len() > 0 {
        lemma_tickets_of_absent(s.drop_last(), e);
    }
}

} // verus!
