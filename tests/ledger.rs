use dextik::{
    create_event, initialize, mint_ticket, resell_ticket, same_identity, CreateEvent, DextikError,
    Identity, Initialize, Ledger, MintTicket, ResellTicket, HOLDING_PERIOD_SECONDS,
};

const T0: i64 = 1_700_000_000;

fn id(b: u8) -> Identity {
    Identity::new([b; 32])
}

fn organizer() -> Identity {
    id(1)
}

fn new_ledger(limit: u32) -> Ledger {
    initialize(&Initialize { max_tickets_per_wallet: limit })
}

fn add_event(ledger: &mut Ledger, total: u32, price: u64, royalty_bps: u16) -> u64 {
    create_event(
        ledger,
        &CreateEvent { organizer: organizer(), now: T0 },
        "Concert".to_string(),
        total,
        price,
        royalty_bps,
        T0 + 1_000_000,
        "Main Hall".to_string(),
        "An evening of music".to_string(),
    )
    .unwrap()
}

fn mint(ledger: &mut Ledger, buyer: Identity, balance: u64, event_id: u64, now: i64) -> Result<u64, DextikError> {
    mint_ticket(ledger, &MintTicket { buyer, buyer_balance: balance, now }, event_id)
}

fn resell(
    ledger: &mut Ledger,
    seller: Identity,
    buyer: Identity,
    ticket_id: u64,
    price: u64,
    now: i64,
) -> Result<dextik::ResaleSettlement, DextikError> {
    resell_ticket(
        ledger,
        &ResellTicket { seller, buyer, buyer_committed: price, now },
        ticket_id,
        price,
    )
}

fn owner_of(ledger: &Ledger, ticket_id: u64) -> Identity {
    ledger.tickets[ticket_id as usize].owner
}

#[test]
fn initialize_gives_empty_ledger() {
    let l = new_ledger(4);
    assert_eq!(l.max_tickets_per_wallet, 4);
    assert!(l.events.is_empty());
    assert!(l.tickets.is_empty());
    assert!(l.wallet_counts.is_empty());
    assert!(l.history.is_empty());
}

#[test]
fn create_event_records_all_fields() {
    let mut l = new_ledger(4);
    let r = create_event(
        &mut l,
        &CreateEvent { organizer: organizer(), now: T0 },
        "Gala".to_string(),
        50,
        2500,
        750,
        T0 + 86400 * 30,
        "Opera House".to_string(),
        "Black tie".to_string(),
    );
    assert_eq!(r, Ok(0));
    let e = &l.events[0];
    assert_eq!(e.name, "Gala");
    assert!(same_identity(&e.organizer, &organizer()));
    assert_eq!(e.total_tickets, 50);
    assert_eq!(e.tickets_sold, 0);
    assert_eq!(e.ticket_price, 2500);
    assert_eq!(e.royalty_bps, 750);
    assert_eq!(e.event_date, T0 + 86400 * 30);
    assert_eq!(e.venue, "Opera House");
    assert_eq!(e.description, "Black tie");
    assert_eq!(e.created_at, T0);
    assert_eq!(add_event(&mut l, 1, 1, 0), 1);
}

#[test]
fn create_event_rejects_bad_parameters() {
    let mut l = new_ledger(4);
    let ctx = CreateEvent { organizer: organizer(), now: T0 };
    let ok = |s: usize| "x".repeat(s);
    let cases: Vec<(String, u32, u16, String, String)> = vec![
        (ok(4), 0, 500, ok(4), ok(4)),
        (ok(4), 10, 10001, ok(4), ok(4)),
        (ok(33), 10, 500, ok(4), ok(4)),
        (ok(4), 10, 500, ok(65), ok(4)),
        (ok(4), 10, 500, ok(4), ok(257)),
    ];
    for (name, total, bps, venue, desc) in cases {
        let r = create_event(&mut l, &ctx, name, total, 100, bps, T0, venue, desc);
        assert_eq!(r, Err(DextikError::InvalidEventParameters));
        assert!(l.events.is_empty());
    }
    let r = create_event(&mut l, &ctx, ok(32), 1, 100, 10000, T0, ok(64), ok(256));
    assert_eq!(r, Ok(0));
}

#[test]
fn create_event_counts_characters_not_bytes() {
    let mut l = new_ledger(4);
    let ctx = CreateEvent { organizer: organizer(), now: T0 };
    let name = "é".repeat(32);
    let r = create_event(&mut l, &ctx, name, 1, 100, 0, T0, String::new(), String::new());
    assert_eq!(r, Ok(0));
}

#[test]
fn primary_sale_sells_out() {
    let (a, b, c) = (id(10), id(11), id(12));
    let mut l = new_ledger(10);
    let e = add_event(&mut l, 2, 100, 500);
    assert_eq!(mint(&mut l, a, 100, e, T0), Ok(0));
    assert_eq!(l.events[0].tickets_sold, 1);
    assert_eq!(mint(&mut l, b, 100, e, T0), Ok(1));
    assert_eq!(l.events[0].tickets_sold, 2);
    assert_eq!(mint(&mut l, c, 100, e, T0), Err(DextikError::SoldOut));
    assert_eq!(l.events[0].tickets_sold, 2);
    assert_eq!(l.tickets.len(), 2);
}

#[test]
fn mint_creates_ticket_for_buyer() {
    let a = id(10);
    let mut l = new_ledger(10);
    let e = add_event(&mut l, 5, 100, 500);
    let t = mint(&mut l, a, 150, e, T0 + 5).unwrap();
    let ticket = l.tickets[t as usize];
    assert_eq!(ticket.event_id, e);
    assert_eq!(ticket.serial, 0);
    assert!(same_identity(&ticket.owner, &a));
    assert_eq!(ticket.purchase_price, 100);
    assert_eq!(ticket.last_transfer_time, T0 + 5);
    assert_eq!(ticket.transfer_count, 0);
    assert_eq!(l.wallet_count(e, &a), 1);
}

#[test]
fn no_overselling_under_excess_demand() {
    let mut l = new_ledger(10);
    let e = add_event(&mut l, 3, 100, 0);
    let mut ok = Vec::new();
    for b in 0..7u8 {
        match mint(&mut l, id(20 + b), 100, e, T0) {
            Ok(t) => ok.push(t),
            Err(err) => assert_eq!(err, DextikError::SoldOut),
        }
    }
    assert_eq!(ok, vec![0, 1, 2]);
    assert_eq!(l.events[0].tickets_sold, 3);
    assert_eq!(l.tickets.len(), 3);
    for (i, t) in l.tickets.iter().enumerate() {
        assert_eq!(t.serial as usize, i);
    }
}

#[test]
fn mint_of_unknown_event_fails() {
    let mut l = new_ledger(10);
    add_event(&mut l, 3, 100, 0);
    assert_eq!(mint(&mut l, id(9), 100, 1, T0), Err(DextikError::EventNotFound));
    assert!(l.tickets.is_empty());
}

#[test]
fn per_wallet_limit_is_enforced() {
    let a = id(10);
    let mut l = new_ledger(2);
    let e = add_event(&mut l, 10, 100, 0);
    let other = add_event(&mut l, 10, 100, 0);
    assert!(mint(&mut l, a, 100, e, T0).is_ok());
    assert!(mint(&mut l, a, 100, e, T0).is_ok());
    assert_eq!(mint(&mut l, a, 100, e, T0), Err(DextikError::TicketLimitReached));
    assert_eq!(l.events[0].tickets_sold, 2);
    assert_eq!(l.wallet_count(e, &a), 2);
    // The limit is per event and per wallet.
    assert!(mint(&mut l, a, 100, other, T0).is_ok());
    assert!(mint(&mut l, id(11), 100, e, T0).is_ok());
}

#[test]
fn zero_wallet_limit_blocks_every_mint() {
    let mut l = new_ledger(0);
    let e = add_event(&mut l, 10, 100, 0);
    assert_eq!(mint(&mut l, id(10), 100, e, T0), Err(DextikError::TicketLimitReached));
}

#[test]
fn mint_needs_enough_funds() {
    let mut l = new_ledger(10);
    let e = add_event(&mut l, 10, 100, 0);
    assert_eq!(mint(&mut l, id(10), 99, e, T0), Err(DextikError::InsufficientFunds));
    assert_eq!(l.events[0].tickets_sold, 0);
    assert!(l.wallet_counts.is_empty());
    assert_eq!(mint(&mut l, id(10), 100, e, T0), Ok(0));
}

#[test]
fn sold_out_is_reported_before_wallet_limit_and_funds() {
    let a = id(10);
    let mut l = new_ledger(1);
    let e = add_event(&mut l, 1, 100, 0);
    assert_eq!(mint(&mut l, a, 100, e, T0), Ok(0));
    assert_eq!(mint(&mut l, a, 0, e, T0), Err(DextikError::SoldOut));
}

#[test]
fn resale_after_holding_period_pays_royalty() {
    let (a, b, d) = (id(10), id(11), id(13));
    let mut l = new_ledger(10);
    let e = add_event(&mut l, 2, 100, 500);
    let t = mint(&mut l, a, 100, e, T0).unwrap();
    mint(&mut l, b, 100, e, T0).unwrap();
    let now = T0 + HOLDING_PERIOD_SECONDS;
    let s = resell(&mut l, a, d, t, 200, now).unwrap();
    assert_eq!(s.royalty, 10);
    assert_eq!(s.seller_proceeds, 190);
    assert_eq!(s.price, 200);
    assert!(same_identity(&s.organizer, &organizer()));
    assert!(same_identity(&s.seller, &a));
    assert!(same_identity(&s.buyer, &d));
    let ticket = l.tickets[t as usize];
    assert!(same_identity(&ticket.owner, &d));
    assert_eq!(ticket.last_transfer_time, now);
    assert_eq!(ticket.transfer_count, 1);
    assert_eq!(ticket.purchase_price, 100);
    assert_eq!(l.history.len(), 1);
    assert_eq!(l.history[0].ticket_id, t);
    assert!(same_identity(&l.history[0].owner, &d));
    assert_eq!(l.history[0].timestamp, now);
}

#[test]
fn immediate_second_resale_fails_and_owner_stays() {
    let (a, d, x) = (id(10), id(13), id(14));
    let mut l = new_ledger(10);
    let e = add_event(&mut l, 2, 100, 500);
    let t = mint(&mut l, a, 100, e, T0).unwrap();
    let now = T0 + HOLDING_PERIOD_SECONDS;
    resell(&mut l, a, d, t, 200, now).unwrap();
    // The former owner is turned away first: ownership is checked before
    // the holding period.
    assert_eq!(resell(&mut l, a, x, t, 300, now + 1).err(), Some(DextikError::NotOwner));
    assert!(same_identity(&owner_of(&l, t), &d));
    // The new owner is still inside the holding period.
    assert_eq!(resell(&mut l, d, x, t, 300, now + 1).err(), Some(DextikError::HoldingPeriodNotMet));
    assert!(same_identity(&owner_of(&l, t), &d));
    assert_eq!(l.tickets[t as usize].transfer_count, 1);
    assert_eq!(l.history.len(), 1);
}

#[test]
fn holding_period_boundary() {
    let (a, d) = (id(10), id(13));
    let mut l = new_ledger(10);
    let e = add_event(&mut l, 2, 100, 500);
    let t = mint(&mut l, a, 100, e, T0).unwrap();
    let before = resell(&mut l, a, d, t, 200, T0 + HOLDING_PERIOD_SECONDS - 1);
    assert_eq!(before.err(), Some(DextikError::HoldingPeriodNotMet));
    assert!(same_identity(&owner_of(&l, t), &a));
    assert_eq!(l.tickets[t as usize].last_transfer_time, T0);
    assert!(resell(&mut l, a, d, t, 200, T0 + HOLDING_PERIOD_SECONDS).is_ok());
    assert!(same_identity(&owner_of(&l, t), &d));
}

#[test]
fn holding_period_with_extreme_timestamps() {
    let (a, d) = (id(10), id(13));
    let mut l = new_ledger(10);
    let e = add_event(&mut l, 2, 100, 500);
    let t = mint(&mut l, a, 100, e, i64::MIN).unwrap();
    assert!(resell(&mut l, a, d, t, 200, i64::MAX).is_ok());
    assert_eq!(resell(&mut l, d, a, t, 200, i64::MIN).err(), Some(DextikError::HoldingPeriodNotMet));
}

#[test]
fn no_double_sale() {
    let (a, b1, b2) = (id(10), id(11), id(12));
    let mut l = new_ledger(10);
    let e = add_event(&mut l, 2, 100, 500);
    let t = mint(&mut l, a, 100, e, T0).unwrap();
    let now = T0 + 2 * HOLDING_PERIOD_SECONDS;
    assert!(resell(&mut l, a, b1, t, 150, now).is_ok());
    assert_eq!(resell(&mut l, a, b2, t, 160, now).err(), Some(DextikError::NotOwner));
    assert!(same_identity(&owner_of(&l, t), &b1));
}

#[test]
fn resale_errors_leave_ticket_unchanged() {
    let (a, d) = (id(10), id(13));
    let mut l = new_ledger(10);
    let e = add_event(&mut l, 2, 100, 500);
    let t = mint(&mut l, a, 100, e, T0).unwrap();
    let now = T0 + HOLDING_PERIOD_SECONDS;
    assert_eq!(resell(&mut l, a, d, 7, 200, now).err(), Some(DextikError::TicketNotFound));
    assert_eq!(resell(&mut l, d, a, t, 200, now).err(), Some(DextikError::NotOwner));
    assert_eq!(resell(&mut l, a, d, t, 0, now).err(), Some(DextikError::InvalidPrice));
    let short = ResellTicket { seller: a, buyer: d, buyer_committed: 199, now };
    assert_eq!(resell_ticket(&mut l, &short, t, 200).err(), Some(DextikError::InsufficientFunds));
    let over = ResellTicket { seller: a, buyer: d, buyer_committed: 201, now };
    assert_eq!(resell_ticket(&mut l, &over, t, 200).err(), Some(DextikError::InsufficientFunds));
    let ticket = l.tickets[t as usize];
    assert!(same_identity(&ticket.owner, &a));
    assert_eq!(ticket.transfer_count, 0);
    assert_eq!(ticket.last_transfer_time, T0);
    assert!(l.history.is_empty());
}

#[test]
fn resale_does_not_touch_wallet_counts() {
    let (a, d) = (id(10), id(13));
    let mut l = new_ledger(1);
    let e = add_event(&mut l, 3, 100, 500);
    let t = mint(&mut l, a, 100, e, T0).unwrap();
    resell(&mut l, a, d, t, 200, T0 + HOLDING_PERIOD_SECONDS).unwrap();
    assert_eq!(l.wallet_count(e, &a), 1);
    assert_eq!(l.wallet_count(e, &d), 0);
    assert_eq!(mint(&mut l, a, 100, e, T0), Err(DextikError::TicketLimitReached));
    assert_eq!(mint(&mut l, d, 100, e, T0), Ok(1));
}

#[test]
fn repeated_resales_count_transfers() {
    let (a, b) = (id(10), id(11));
    let mut l = new_ledger(10);
    let e = add_event(&mut l, 1, 100, 1000);
    let t = mint(&mut l, a, 100, e, T0).unwrap();
    let mut now = T0;
    let mut holder = a;
    let mut next = b;
    for i in 1..=4u32 {
        now += HOLDING_PERIOD_SECONDS;
        let s = resell(&mut l, holder, next, t, 1000, now).unwrap();
        assert_eq!((s.royalty, s.seller_proceeds), (100, 900));
        assert_eq!(l.tickets[t as usize].transfer_count, i);
        std::mem::swap(&mut holder, &mut next);
    }
    assert_eq!(l.history.len(), 4);
    assert!(same_identity(&owner_of(&l, t), &a));
}

#[test]
fn transfer_is_compare_and_set() {
    let (a, b, c) = (id(10), id(11), id(12));
    let mut l = new_ledger(10);
    let e = add_event(&mut l, 1, 100, 0);
    let t = mint(&mut l, a, 100, e, T0).unwrap();
    assert_eq!(l.transfer(t, &b, &c, T0 + 1), Err(DextikError::NotOwner));
    assert_eq!(l.transfer(t + 1, &a, &c, T0 + 1), Err(DextikError::TicketNotFound));
    assert_eq!(l.transfer(t, &a, &b, T0 + 1), Ok(()));
    assert_eq!(l.transfer(t, &a, &c, T0 + 2), Err(DextikError::NotOwner));
    assert!(same_identity(&owner_of(&l, t), &b));
    assert_eq!(l.tickets[t as usize].last_transfer_time, T0 + 1);
}

#[test]
fn transfer_count_stops_at_maximum() {
    let (a, b) = (id(10), id(11));
    let mut l = new_ledger(10);
    let e = add_event(&mut l, 1, 100, 0);
    let t = mint(&mut l, a, 100, e, T0).unwrap();
    l.tickets[t as usize].transfer_count = u32::MAX;
    assert_eq!(l.transfer(t, &a, &b, T0), Ok(()));
    assert_eq!(l.tickets[t as usize].transfer_count, u32::MAX);
}

#[test]
fn identities_compare_by_every_byte() {
    let a = id(10);
    let mut bytes = [10u8; 32];
    assert!(same_identity(&a, &Identity::new(bytes)));
    bytes[31] = 11;
    assert!(!same_identity(&a, &Identity::new(bytes)));
    bytes[31] = 10;
    bytes[0] = 0;
    assert!(!same_identity(&a, &Identity::new(bytes)));
}
