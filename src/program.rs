use crate::error::DextikError;
use crate::fees::{royalty_of, split, MAX_ROYALTY_BPS};
use crate::identity::{same_identity, Identity};
use crate::ledger::{
    count_for, lemma_tickets_of_absent, tickets_of, Event, Ledger, Ticket, HOLDING_PERIOD_SECONDS,
    MAX_DESCRIPTION_LEN, MAX_NAME_LEN, MAX_VENUE_LEN,
};
use vstd::prelude::*;

verus! {

/// Configuration of a new ledger.
#[derive(Clone, Copy, Debug)]
pub struct Initialize {
    /// How many tickets of one event a wallet may mint.
    pub max_tickets_per_wallet: u32,
}

/// The accounts and clock reading of an event creation.
#[derive(Clone, Copy, Debug)]
pub struct CreateEvent {
    /// The authenticated caller, who becomes the organizer.
    pub organizer: Identity,
    pub now: i64,
}

/// The accounts and clock reading of a primary sale.
#[derive(Clone, Copy, Debug)]
pub struct MintTicket {
    /// The authenticated caller, who becomes the owner.
    pub buyer: Identity,
    /// What the buyer has available to pay.
    pub buyer_balance: u64,
    pub now: i64,
}

/// The accounts and clock reading of a resale.
#[derive(Clone, Copy, Debug)]
pub struct ResellTicket {
    /// The authenticated caller, who must own the ticket.
    pub seller: Identity,
    pub buyer: Identity,
    /// What the buyer has committed to pay.
    pub buyer_committed: u64,
    pub now: i64,
}

/// The payments that settle a resale, to be made in the same transaction:
/// `buyer` pays `price`, of which `royalty` goes to `organizer` and
/// `seller_proceeds` to `seller`.
#[derive(Clone, Copy, Debug)]
pub struct ResaleSettlement {
    pub organizer: Identity,
    pub royalty: u64,
    pub seller: Identity,
    pub seller_proceeds: u64,
    pub buyer: Identity,
    pub price: u64,
}

/// Creates an empty ledger with the given per-wallet mint limit.
pub fn initialize(ctx: &Initialize) -> (r: Ledger)
    ensures
        r.wf(),
        r.max_tickets_per_wallet == ctx.max_tickets_per_wallet,
        r.events@.len() == 0,
        r.tickets@.len() == 0,
        r.wallet_counts@.len() == 0,
        r.history@.len() == 0,
{
    Ledger::new(ctx.max_tickets_per_wallet)
}

/// Whether the parameters of a new event are in range.
pub open spec fn event_params_valid(
    name: Seq<char>,
    total_tickets: u32,
    royalty_bps: u16,
    venue: Seq<char>,
    description: Seq<char>,
) -> bool {
    &&& total_tickets > 0
    &&& royalty_bps <= MAX_ROYALTY_BPS
    &&& name.len() <= MAX_NAME_LEN
    &&& venue.len() <= MAX_VENUE_LEN
    &&& description.len() <= MAX_DESCRIPTION_LEN
}

/// Registers a new event organized by the caller, with no ticket sold,
/// and returns its id.
pub fn create_event(
    ledger: &mut Ledger,
    ctx: &CreateEvent,
    name: String,
    total_tickets: u32,
    ticket_price: u64,
    royalty_bps: u16,
    event_date: i64,
    venue: String,
    description: String,
) -> (r: Result<u64, DextikError>)
    requires
        old(ledger).wf(),
    ensures
        final(ledger).wf(),
        !event_params_valid(name@, total_tickets, royalty_bps, venue@, description@) ==> r
            == Err::<u64, DextikError>(DextikError::InvalidEventParameters) && *final(ledger)
            == *old(ledger),
        event_params_valid(name@, total_tickets, royalty_bps, venue@, description@) ==> r
            == Ok::<u64, DextikError>(old(ledger).events@.len() as u64) && final(ledger).events@
            == old(ledger).events@.push(
            (Event {
                name,
                organizer: ctx.organizer,
                total_tickets,
                tickets_sold: 0,
                ticket_price,
                royalty_bps,
                event_date,
                venue,
                description,
                created_at: ctx.now,
            }),
        ) && final(ledger).tickets == old(ledger).tickets && final(ledger).wallet_counts
            == old(ledger).wallet_counts && final(ledger).history == old(ledger).history
            && final(ledger).max_tickets_per_wallet == old(ledger).max_tickets_per_wallet,
{
    if total_tickets == 0 || royalty_bps > MAX_ROYALTY_BPS || name.as_str().unicode_len()
        > MAX_NAME_LEN || venue.as_str().unicode_len() > MAX_VENUE_LEN
        || description.as_str().unicode_len() > MAX_DESCRIPTION_LEN {
        return Err(DextikError::InvalidEventParameters);
    }
    let id = ledger.events.len() as u64;
    let event = Event {
        name,
        organizer: ctx.organizer,
        total_tickets,
        tickets_sold: 0,
        ticket_price,
        royalty_bps,
        event_date,
        venue,
        description,
        created_at: ctx.now,
    };
    proof {
        lemma_tickets_of_absent(ledger.tickets@, id);
    }
    ledger.events.push(event);
    // A length read back is a usize, which keeps every event id within u64.
    let _ = ledger.events.len();
    Ok(id)
}

/// Why a mint of `event_id` by `ctx.buyer` is refused, checked in order.
pub open spec fn mint_error(l: Ledger, ctx: MintTicket, event_id: u64) -> Option<DextikError> {
    if event_id >= l.events@.len() {
        Some(DextikError::EventNotFound)
    } else if l.events@[event_id as int].tickets_sold >= l.events@[event_id as int].total_tickets {
        Some(DextikError::SoldOut)
    } else if count_for(l.wallet_counts@, event_id, ctx.buyer) >= l.max_tickets_per_wallet {
        Some(DextikError::TicketLimitReached)
    } else if ctx.buyer_balance < l.events@[event_id as int].ticket_price {
        Some(DextikError::InsufficientFunds)
    } else {
        None
    }
}

/// The ticket that a successful mint creates.
pub open spec fn minted_ticket(l: Ledger, ctx: MintTicket, event_id: u64) -> Ticket {
    Ticket {
        event_id,
        serial: l.events@[event_id as int].tickets_sold,
        owner: ctx.buyer,
        purchase_price: l.events@[event_id as int].ticket_price,
        last_transfer_time: ctx.now,
        transfer_count: 0,
    }
}

/// `post` and `r` are what a mint of `event_id` makes of `pre`: on an error
/// nothing changes; on success the event has sold one more ticket, a new
/// ticket is owned by the buyer, and the buyer's count for the event grows
/// by one.
pub open spec fn mint_step(
    pre: Ledger,
    post: Ledger,
    ctx: MintTicket,
    event_id: u64,
    r: Result<u64, DextikError>,
) -> bool {
    match mint_error(pre, ctx, event_id) {
        Some(e) => r == Err::<u64, DextikError>(e) && post == pre,
        None => {
            let ev = pre.events@[event_id as int];
            &&& r == Ok::<u64, DextikError>(pre.tickets@.len() as u64)
            &&& post.events@ == pre.events@.update(
                event_id as int,
                Event { tickets_sold: (ev.tickets_sold + 1) as u32, ..ev },
            )
            &&& post.tickets@ == pre.tickets@.push(minted_ticket(pre, ctx, event_id))
            &&& forall|e: u64, w: Identity|
                #[trigger] count_for(post.wallet_counts@, e, w) == if e == event_id && w
                    == ctx.buyer {
                    count_for(pre.wallet_counts@, e, w) + 1
                } else {
                    count_for(pre.wallet_counts@, e, w)
                }
            &&& post.history == pre.history
            &&& post.max_tickets_per_wallet == pre.max_tickets_per_wallet
        },
    }
}

/// Sells the next ticket of `event_id` to the caller and returns its id.
pub fn mint_ticket(ledger: &mut Ledger, ctx: &MintTicket, event_id: u64) -> (r: Result<
    u64,
    DextikError,
>)
    requires
        old(ledger).wf(),
    ensures
        final(ledger).wf(),
        mint_step(*old(ledger), *final(ledger), *ctx, event_id, r),
{
    if event_id >= ledger.events.len() as u64 {
        return Err(DextikError::EventNotFound);
    }
    let k = event_id as usize;
    let sold = ledger.events[k].tickets_sold;
    let price = ledger.events[k].ticket_price;
    if sold >= ledger.events[k].total_tickets {
        return Err(DextikError::SoldOut);
    }
    if ledger.wallet_count(event_id, &ctx.buyer) >= ledger.max_tickets_per_wallet {
        return Err(DextikError::TicketLimitReached);
    }
    if ctx.buyer_balance < price {
        return Err(DextikError::InsufficientFunds);
    }
    let ghost pre = *ledger;
    let ticket = Ticket {
        event_id,
        serial: sold,
        owner: ctx.buyer,
        purchase_price: price,
        last_transfer_time: ctx.now,
        transfer_count: 0,
    };
    let id = ledger.tickets.len() as u64;
    ledger.events[k].tickets_sold = sold + 1;
    ledger.tickets.push(ticket);
    // A length read back is a usize, which keeps every ticket id within u64.
    let _ = ledger.tickets.len();
    ledger.bump_wallet_count(event_id, &ctx.buyer);
    proof {
        assert forall|e: u64| #[trigger]
            tickets_of(ledger.tickets@, e) == tickets_of(pre.tickets@, e) + if e == event_id {
                1nat
            } else {
                0nat
            } by {
            assert(ledger.tickets@.drop_last() =~= pre.tickets@);
        }
        assert(ledger.events@ =~= pre.events@.update(
            event_id as int,
            Event { tickets_sold: (sold + 1) as u32, ..pre.events@[event_id as int] },
        ));
        assert forall|i: int| 0 <= i < ledger.events@.len() implies (#[trigger] ledger.events@[
            i
        ]).wf() && tickets_of(ledger.tickets@, i as u64) == ledger.events@[i].tickets_sold by {
            assert(pre.events@[i].wf());
        }
    }
    Ok(id)
}

/// Whether a holder who received a ticket at `last_transfer_time` may resell
/// it at `now`.
pub open spec fn holding_period_met(last_transfer_time: i64, now: i64) -> bool {
    now - last_transfer_time >= HOLDING_PERIOD_SECONDS
}

/// Why a resale of `ticket_id` at `new_price` is refused, checked in order.
pub open spec fn resale_error(l: Ledger, ctx: ResellTicket, ticket_id: u64, new_price: u64) -> Option<
    DextikError,
> {
    if ticket_id >= l.tickets@.len() {
        Some(DextikError::TicketNotFound)
    } else if l.tickets@[ticket_id as int].owner != ctx.seller {
        Some(DextikError::NotOwner)
    } else if !holding_period_met(l.tickets@[ticket_id as int].last_transfer_time, ctx.now) {
        Some(DextikError::HoldingPeriodNotMet)
    } else if new_price == 0 {
        Some(DextikError::InvalidPrice)
    } else if ctx.buyer_committed != new_price {
        Some(DextikError::InsufficientFunds)
    } else {
        None
    }
}

/// The payments of a resale of `ticket_id` at `new_price`.
pub open spec fn settlement_of(l: Ledger, ctx: ResellTicket, ticket_id: u64, new_price: u64) -> ResaleSettlement {
    let ev = l.events@[l.tickets@[ticket_id as int].event_id as int];
    let royalty = royalty_of(new_price, ev.royalty_bps);
    ResaleSettlement {
        organizer: ev.organizer,
        royalty: royalty as u64,
        seller: ctx.seller,
        seller_proceeds: (new_price - royalty) as u64,
        buyer: ctx.buyer,
        price: new_price,
    }
}

/// `post` and `r` are what a resale makes of `pre`: on an error nothing
/// changes; on success the ticket passes from the seller to the buyer at
/// `ctx.now`, and `r` holds the payments that settle it.
pub open spec fn resale_step(
    pre: Ledger,
    post: Ledger,
    ctx: ResellTicket,
    ticket_id: u64,
    new_price: u64,
    r: Result<ResaleSettlement, DextikError>,
) -> bool {
    match resale_error(pre, ctx, ticket_id, new_price) {
        Some(e) => r == Err::<ResaleSettlement, DextikError>(e) && post == pre,
        None => r == Ok::<ResaleSettlement, DextikError>(
            settlement_of(pre, ctx, ticket_id, new_price),
        ) && Ledger::transfer_post(pre, post, ticket_id, ctx.buyer, ctx.now),
    }
}

/// Resells `ticket_id` from the caller to `ctx.buyer` at `new_price`.
pub fn resell_ticket(
    ledger: &mut Ledger,
    ctx: &ResellTicket,
    ticket_id: u64,
    new_price: u64,
) -> (r: Result<ResaleSettlement, DextikError>)
    requires
        old(ledger).wf(),
    ensures
        final(ledger).wf(),
        resale_step(*old(ledger), *final(ledger), *ctx, ticket_id, new_price, r),
{
    if ticket_id >= ledger.tickets.len() as u64 {
        return Err(DextikError::TicketNotFound);
    }
    let t = ledger.tickets[ticket_id as usize];
    if !same_identity(&t.owner, &ctx.seller) {
        return Err(DextikError::NotOwner);
    }
    if (ctx.now as i128) - (t.last_transfer_time as i128) < HOLDING_PERIOD_SECONDS as i128 {
        return Err(DextikError::HoldingPeriodNotMet);
    }
    if new_price == 0 {
        return Err(DextikError::InvalidPrice);
    }
    if ctx.buyer_committed != new_price {
        return Err(DextikError::InsufficientFunds);
    }
    proof {
        assert(ledger.events@[t.event_id as int].wf());
    }
    // A length read back is a usize, so the event id below fits one.
    let _ = ledger.events.len();
    let e = t.event_id as usize;
    let organizer = ledger.events[e].organizer;
    let royalty_bps = ledger.events[e].royalty_bps;
    let (royalty, seller_proceeds) = match split(new_price, royalty_bps) {
        Ok(parts) => parts,
        Err(e) => return Err(e),
    };
    match ledger.transfer(ticket_id, &ctx.seller, &ctx.buyer, ctx.now) {
        Ok(()) => {},
        Err(e) => return Err(e),
    }
    Ok(
        ResaleSettlement {
            organizer,
            royalty,
            seller: ctx.seller,
            seller_proceeds,
            buyer: ctx.buyer,
            price: new_price,
        },
    )
}

} // verus!
