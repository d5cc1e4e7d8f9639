use crate::error::DextikError;
use crate::identity::Identity;
use crate::ledger::{tickets_of, Ledger};
use crate::program::{
    holding_period_met, mint_step, resale_error, resale_step, MintTicket, ResaleSettlement,
    ResellTicket,
};
use vstd::prelude::*;

verus! {

/// The number of successful results in `rs`.
pub open spec fn successes(rs: Seq<Result<u64, DextikError>>) -> nat
    decreases rs.len(),
{
    if rs.len() == 0 {
        0
    } else {
        successes(rs.drop_last()) + if rs.last() is Ok {
            1nat
        } else {
            0nat
        }
    }
}

/// What one mint of an existing event does to that event and its tickets.
proof fn lemma_mint_step_event(
    pre: Ledger,
    post: Ledger,
    ctx: MintTicket,
    event_id: u64,
    r: Result<u64, DextikError>,
)
    requires
        event_id < pre.events@.len(),
        mint_step(pre, post, ctx, event_id, r),
    ensures
        post.events@.len() == pre.events@.len(),
        post.events@[event_id as int].total_tickets == pre.events@[event_id as int].total_tickets,
        r is Ok ==> pre.events@[event_id as int].tickets_sold
            < pre.events@[event_id as int].total_tickets && post.events@[event_id as int].tickets_sold
            == pre.events@[event_id as int].tickets_sold + 1 && tickets_of(post.tickets@, event_id)
            == tickets_of(pre.tickets@, event_id) + 1,
        r is Err ==> post.events@[event_id as int].tickets_sold
            == pre.events@[event_id as int].tickets_sold && tickets_of(post.tickets@, event_id)
            == tickets_of(pre.tickets@, event_id),
        pre.events@[event_id as int].tickets_sold >= pre.events@[event_id as int].total_tickets
            ==> r == Err::<u64, DextikError>(DextikError::SoldOut),
        pre.events@[event_id as int].tickets_sold < pre.events@[event_id as int].total_tickets
            && r != Err::<u64, DextikError>(DextikError::TicketLimitReached) && r != Err::<
            u64,
            DextikError,
        >(DextikError::InsufficientFunds) ==> r is Ok,
{
    if r is Ok {
        assert(post.tickets@.drop_last() =~= pre.tickets@);
    }
}

/// No overselling: over any sequence of mints of one event, each one a
/// complete transition of the ledger, the tickets sold grow by exactly the
/// number of successful calls and never pass the event's supply, and the
/// ledger holds one ticket of the event per sale. When no call is refused
/// for its wallet limit or its funds, exactly `min(remaining supply, calls)`
/// calls succeed.
pub proof fn lemma_no_overselling(
    states: Seq<Ledger>,
    ctxs: Seq<MintTicket>,
    event_id: u64,
    results: Seq<Result<u64, DextikError>>,
)
    requires
        states.len() == results.len() + 1,
        ctxs.len() == results.len(),
        states[0].wf(),
        event_id < states[0].events@.len(),
        forall|i: int|
            0 <= i < results.len() ==> mint_step(
                #[trigger] states[i],
                states[i + 1],
                ctxs[i],
                event_id,
                results[i],
            ),
    ensures
        ({
            let first = states[0].events@[event_id as int];
            let last = states.last().events@[event_id as int];
            &&& event_id < states.last().events@.len()
            &&& last.total_tickets == first.total_tickets
            &&& last.tickets_sold == first.tickets_sold + successes(results)
            &&& last.tickets_sold <= last.total_tickets
            &&& tickets_of(states.last().tickets@, event_id) == last.tickets_sold
            &&& (forall|i: int|
                0 <= i < results.len() ==> #[trigger] results[i] != Err::<u64, DextikError>(
                    DextikError::TicketLimitReached,
                ) && results[i] != Err::<u64, DextikError>(DextikError::InsufficientFunds))
                ==> successes(results) == if first.total_tickets - first.tickets_sold
                < results.len() {
                first.total_tickets - first.tickets_sold
            } else {
                results.len() as int
            }
        }),
    decreases results.len(),
{
    assert(states[0].events@[event_id as int].wf());
    if results.len() > 0 {
        let n = results.len() - 1;
        let prefix = states.take(n + 1);
        assert forall|i: int| 0 <= i < n implies mint_step(
            #[trigger] prefix[i],
            prefix[i + 1],
            ctxs.drop_last()[i],
            event_id,
            results.drop_last()[i],
        ) by {
            assert(mint_step(states[i], states[i + 1], ctxs[i], event_id, results[i]));
        }
        lemma_no_overselling(prefix, ctxs.drop_last(), event_id, results.drop_last());
        assert(prefix.last() == states[n]);
        assert(mint_step(states[n], states[n + 1], ctxs[n], event_id, results[n]));
        lemma_mint_step_event(states[n], states[n + 1], ctxs[n], event_id, results[n]);
        assert(results.last() == results[n]);
        if forall|i: int|
            0 <= i < results.len() ==> #[trigger] results[i] != Err::<u64, DextikError>(
                DextikError::TicketLimitReached,
            ) && results[i] != Err::<u64, DextikError>(DextikError::InsufficientFunds) {
            assert forall|i: int| 0 <= i < n implies #[trigger] results.drop_last()[i] != Err::<
                u64,
                DextikError,
            >(DextikError::TicketLimitReached) && results.drop_last()[i] != Err::<
                u64,
                DextikError,
            >(DextikError::InsufficientFunds) by {
                assert(results.drop_last()[i] == results[i]);
            }
        }
    }
}

/// No double sale: once the owner of a ticket has sold it to a buyer, a
/// second resale of it by the same seller fails with `NotOwner` and changes
/// nothing, so the ticket stays with the first buyer. Whichever of two such
/// calls is applied first is the one that succeeds.
pub proof fn lemma_no_double_sale(
    l0: Ledger,
    l1: Ledger,
    l2: Ledger,
    first: ResellTicket,
    second: ResellTicket,
    ticket_id: u64,
    first_price: u64,
    second_price: u64,
    r1: Result<ResaleSettlement, DextikError>,
    r2: Result<ResaleSettlement, DextikError>,
)
    requires
        resale_error(l0, first, ticket_id, first_price) is None,
        first.seller == second.seller,
        first.buyer != first.seller,
        resale_step(l0, l1, first, ticket_id, first_price, r1),
        resale_step(l1, l2, second, ticket_id, second_price, r2),
    ensures
        r1 is Ok,
        r2 == Err::<ResaleSettlement, DextikError>(DextikError::NotOwner),
        l2 == l1,
        l2.tickets@[ticket_id as int].owner == first.buyer,
{
}

/// The holding period gate: a resale by the owner of an existing ticket
/// before the holding period has passed fails with `HoldingPeriodNotMet` and
/// changes nothing; once it has passed, with a positive price that the buyer
/// has committed, the resale succeeds and the buyer owns the ticket.
pub proof fn lemma_holding_period_gate(
    pre: Ledger,
    post: Ledger,
    ctx: ResellTicket,
    ticket_id: u64,
    new_price: u64,
    r: Result<ResaleSettlement, DextikError>,
)
    requires
        ticket_id < pre.tickets@.len(),
        pre.tickets@[ticket_id as int].owner == ctx.seller,
        resale_step(pre, post, ctx, ticket_id, new_price, r),
    ensures
        !holding_period_met(pre.tickets@[ticket_id as int].last_transfer_time, ctx.now) ==> r
            == Err::<ResaleSettlement, DextikError>(DextikError::HoldingPeriodNotMet) && post
            == pre,
        holding_period_met(pre.tickets@[ticket_id as int].last_transfer_time, ctx.now)
            && new_price > 0 && ctx.buyer_committed == new_price ==> r is Ok
            && post.tickets@[ticket_id as int].owner == ctx.buyer
            && post.tickets@[ticket_id as int].last_transfer_time == ctx.now,
{
}

} // verus!
