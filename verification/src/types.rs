//! Event flags, order enumerations and the order record shared by the backtester and the live bot.
//!
//! Prices are carried in ticks and quantities in lots (integer multiples of the tick size and of
//! the lot size); converting a floating-point price or quantity to ticks or lots happens where the
//! data enters the library.
use vstd::prelude::*;

verus! {

/// Indicates a buy: a bid-side event for depth events, a buyer-initiated trade for trade events.
pub const BUY_EVENT: u64 = 0x2000_0000;

/// Indicates a sell: an ask-side event for depth events, a seller-initiated trade for trade events.
pub const SELL_EVENT: u64 = 0x1000_0000;

/// Indicates that the market depth is changed.
pub const DEPTH_EVENT: u64 = 1;

/// Indicates that a trade occurs in the market.
pub const TRADE_EVENT: u64 = 2;

/// Indicates that the market depth is cleared.
pub const DEPTH_CLEAR_EVENT: u64 = 3;

/// Indicates that the market depth snapshot is received.
pub const DEPTH_SNAPSHOT_EVENT: u64 = 4;

/// Indicates that the best bid and best ask update event is received.
pub const DEPTH_BBO_EVENT: u64 = 5;

/// Indicates that an order has been added to the order book.
pub const ADD_ORDER_EVENT: u64 = 10;

/// Indicates that an order in the order book has been canceled.
pub const CANCEL_ORDER_EVENT: u64 = 11;

/// Indicates that an order in the order book has been modified.
pub const MODIFY_ORDER_EVENT: u64 = 12;

/// Indicates that an order in the order book has been filled.
pub const FILL_EVENT: u64 = 13;

/// Indicates a valid event to be handled by the exchange processor at the exchange timestamp.
pub const EXCH_EVENT: u64 = 0x8000_0000;

/// Indicates a valid event to be handled by the local processor at the local timestamp.
pub const LOCAL_EVENT: u64 = 0x4000_0000;

/// [`DEPTH_CLEAR_EVENT`] combined with [`LOCAL_EVENT`].
pub const LOCAL_DEPTH_CLEAR_EVENT: u64 = DEPTH_CLEAR_EVENT | LOCAL_EVENT;

/// [`DEPTH_CLEAR_EVENT`] combined with [`EXCH_EVENT`].
pub const EXCH_DEPTH_CLEAR_EVENT: u64 = DEPTH_CLEAR_EVENT | EXCH_EVENT;

/// [`DEPTH_EVENT`], [`BUY_EVENT`] and [`LOCAL_EVENT`] combined.
pub const LOCAL_BID_DEPTH_EVENT: u64 = DEPTH_EVENT | BUY_EVENT | LOCAL_EVENT;

/// [`DEPTH_EVENT`], [`SELL_EVENT`] and [`LOCAL_EVENT`] combined.
pub const LOCAL_ASK_DEPTH_EVENT: u64 = DEPTH_EVENT | SELL_EVENT | LOCAL_EVENT;

/// [`DEPTH_CLEAR_EVENT`], [`BUY_EVENT`] and [`LOCAL_EVENT`] combined.
pub const LOCAL_BID_DEPTH_CLEAR_EVENT: u64 = DEPTH_CLEAR_EVENT | BUY_EVENT | LOCAL_EVENT;

/// [`DEPTH_CLEAR_EVENT`], [`SELL_EVENT`] and [`LOCAL_EVENT`] combined.
pub const LOCAL_ASK_DEPTH_CLEAR_EVENT: u64 = DEPTH_CLEAR_EVENT | SELL_EVENT | LOCAL_EVENT;

/// [`DEPTH_SNAPSHOT_EVENT`], [`BUY_EVENT`] and [`LOCAL_EVENT`] combined.
pub const LOCAL_BID_DEPTH_SNAPSHOT_EVENT: u64 = DEPTH_SNAPSHOT_EVENT | BUY_EVENT | LOCAL_EVENT;

/// [`DEPTH_SNAPSHOT_EVENT`], [`SELL_EVENT`] and [`LOCAL_EVENT`] combined.
pub const LOCAL_ASK_DEPTH_SNAPSHOT_EVENT: u64 = DEPTH_SNAPSHOT_EVENT | SELL_EVENT | LOCAL_EVENT;

/// [`DEPTH_BBO_EVENT`], [`BUY_EVENT`] and [`LOCAL_EVENT`] combined.
pub const LOCAL_BID_DEPTH_BBO_EVENT: u64 = DEPTH_BBO_EVENT | BUY_EVENT | LOCAL_EVENT;

/// [`DEPTH_BBO_EVENT`], [`SELL_EVENT`] and [`LOCAL_EVENT`] combined.
pub const LOCAL_ASK_DEPTH_BBO_EVENT: u64 = DEPTH_BBO_EVENT | SELL_EVENT | LOCAL_EVENT;

/// [`TRADE_EVENT`] combined with [`LOCAL_EVENT`].
pub const LOCAL_TRADE_EVENT: u64 = TRADE_EVENT | LOCAL_EVENT;

/// [`LOCAL_TRADE_EVENT`] combined with [`BUY_EVENT`].
pub const LOCAL_BUY_TRADE_EVENT: u64 = LOCAL_TRADE_EVENT | BUY_EVENT;

/// [`LOCAL_TRADE_EVENT`] combined with [`SELL_EVENT`].
pub const LOCAL_SELL_TRADE_EVENT: u64 = LOCAL_TRADE_EVENT | SELL_EVENT;

/// [`DEPTH_EVENT`], [`BUY_EVENT`] and [`EXCH_EVENT`] combined.
pub const EXCH_BID_DEPTH_EVENT: u64 = DEPTH_EVENT | BUY_EVENT | EXCH_EVENT;

/// [`DEPTH_EVENT`], [`SELL_EVENT`] and [`EXCH_EVENT`] combined.
pub const EXCH_ASK_DEPTH_EVENT: u64 = DEPTH_EVENT | SELL_EVENT | EXCH_EVENT;

/// [`DEPTH_CLEAR_EVENT`], [`BUY_EVENT`] and [`EXCH_EVENT`] combined.
pub const EXCH_BID_DEPTH_CLEAR_EVENT: u64 = DEPTH_CLEAR_EVENT | BUY_EVENT | EXCH_EVENT;

/// [`DEPTH_CLEAR_EVENT`], [`SELL_EVENT`] and [`EXCH_EVENT`] combined.
pub const EXCH_ASK_DEPTH_CLEAR_EVENT: u64 = DEPTH_CLEAR_EVENT | SELL_EVENT | EXCH_EVENT;

/// [`DEPTH_SNAPSHOT_EVENT`], [`BUY_EVENT`] and [`EXCH_EVENT`] combined.
pub const EXCH_BID_DEPTH_SNAPSHOT_EVENT: u64 = DEPTH_SNAPSHOT_EVENT | BUY_EVENT | EXCH_EVENT;

/// [`DEPTH_SNAPSHOT_EVENT`], [`SELL_EVENT`] and [`EXCH_EVENT`] combined.
pub const EXCH_ASK_DEPTH_SNAPSHOT_EVENT: u64 = DEPTH_SNAPSHOT_EVENT | SELL_EVENT | EXCH_EVENT;

/// [`DEPTH_BBO_EVENT`], [`BUY_EVENT`] and [`EXCH_EVENT`] combined.
pub const EXCH_BID_DEPTH_BBO_EVENT: u64 = DEPTH_BBO_EVENT | BUY_EVENT | EXCH_EVENT;

/// [`DEPTH_BBO_EVENT`], [`SELL_EVENT`] and [`EXCH_EVENT`] combined.
pub const EXCH_ASK_DEPTH_BBO_EVENT: u64 = DEPTH_BBO_EVENT | SELL_EVENT | EXCH_EVENT;

/// [`TRADE_EVENT`] combined with [`EXCH_EVENT`].
pub const EXCH_TRADE_EVENT: u64 = TRADE_EVENT | EXCH_EVENT;

/// [`EXCH_TRADE_EVENT`] combined with [`BUY_EVENT`].
pub const EXCH_BUY_TRADE_EVENT: u64 = EXCH_TRADE_EVENT | BUY_EVENT;

/// [`EXCH_TRADE_EVENT`] combined with [`SELL_EVENT`].
pub const EXCH_SELL_TRADE_EVENT: u64 = EXCH_TRADE_EVENT | SELL_EVENT;

/// [`LOCAL_EVENT`] combined with [`ADD_ORDER_EVENT`].
pub const LOCAL_ADD_ORDER_EVENT: u64 = LOCAL_EVENT | ADD_ORDER_EVENT;

/// [`BUY_EVENT`] combined with [`LOCAL_ADD_ORDER_EVENT`].
pub const LOCAL_BID_ADD_ORDER_EVENT: u64 = BUY_EVENT | LOCAL_ADD_ORDER_EVENT;

/// [`SELL_EVENT`] combined with [`LOCAL_ADD_ORDER_EVENT`].
pub const LOCAL_ASK_ADD_ORDER_EVENT: u64 = SELL_EVENT | LOCAL_ADD_ORDER_EVENT;

/// [`LOCAL_EVENT`] combined with [`CANCEL_ORDER_EVENT`].
pub const LOCAL_CANCEL_ORDER_EVENT: u64 = LOCAL_EVENT | CANCEL_ORDER_EVENT;

/// [`LOCAL_EVENT`] combined with [`MODIFY_ORDER_EVENT`].
pub const LOCAL_MODIFY_ORDER_EVENT: u64 = LOCAL_EVENT | MODIFY_ORDER_EVENT;

/// [`LOCAL_EVENT`] combined with [`FILL_EVENT`].
pub const LOCAL_FILL_EVENT: u64 = LOCAL_EVENT | FILL_EVENT;

/// [`EXCH_EVENT`] combined with [`ADD_ORDER_EVENT`].
pub const EXCH_ADD_ORDER_EVENT: u64 = EXCH_EVENT | ADD_ORDER_EVENT;

/// [`BUY_EVENT`] combined with [`EXCH_ADD_ORDER_EVENT`].
pub const EXCH_BID_ADD_ORDER_EVENT: u64 = BUY_EVENT | EXCH_ADD_ORDER_EVENT;

/// [`SELL_EVENT`] combined with [`EXCH_ADD_ORDER_EVENT`].
pub const EXCH_ASK_ADD_ORDER_EVENT: u64 = SELL_EVENT | EXCH_ADD_ORDER_EVENT;

/// [`EXCH_EVENT`] combined with [`CANCEL_ORDER_EVENT`].
pub const EXCH_CANCEL_ORDER_EVENT: u64 = EXCH_EVENT | CANCEL_ORDER_EVENT;

/// [`EXCH_EVENT`] combined with [`MODIFY_ORDER_EVENT`].
pub const EXCH_MODIFY_ORDER_EVENT: u64 = EXCH_EVENT | MODIFY_ORDER_EVENT;

/// [`EXCH_EVENT`] combined with [`FILL_EVENT`].
pub const EXCH_FILL_EVENT: u64 = EXCH_EVENT | FILL_EVENT;

/// Indicates that one should continue until the end of the data.
pub const UNTIL_END_OF_DATA: i64 = 0x7fff_ffff_ffff_ffff;

/// Order identifier.
pub type OrderId = u64;

/// The kind of an event flag: its lowest byte.
pub open spec fn event_kind(ev: u64) -> u64 {
    ev & 0xff
}

/// `ev` corresponds to `event`: every bit of `event` is set in `ev`, and when `event` names an
/// event kind, `ev` has the same kind.
pub open spec fn spec_event_is(ev: u64, event: u64) -> bool {
    &&& (ev & event) == event
    &&& (event_kind(event) == 0 || event_kind(ev) == event_kind(event))
}

/// Checks if the event flag `ev` corresponds to the given event.
pub fn event_is(ev: u64, event: u64) -> (r: bool)
    ensures
        r == spec_event_is(ev, event),
{
    if (ev & event) != event {
        false
    } else {
        let event_kind = event & 0xff;
        if event_kind == 0 {
            true
        } else {
            ev & 0xff == event_kind
        }
    }
}

/// A feed event, its price in ticks and its quantity in lots.
#[derive(Clone, Copy, Debug)]
pub struct Event {
    /// Event flag.
    pub ev: u64,
    /// Exchange timestamp, the time at which the event occurs on the exchange.
    pub exch_ts: i64,
    /// Local timestamp, the time at which the event is received by the local.
    pub local_ts: i64,
    /// Price in ticks.
    pub price_tick: i64,
    /// Quantity in lots.
    pub qty_lot: i64,
    /// Order ID, only for the L3 Market-By-Order feed.
    pub order_id: u64,
    /// Reserved for an additional value.
    pub ival: i64,
}

impl Event {
    /// Checks if this event corresponds to the given event.
    pub fn is(&self, event: u64) -> (r: bool)
        ensures
            r == spec_event_is(self.ev, event),
    {
        event_is(self.ev, event)
    }
}

/// Which response an order wait is satisfied by.
#[derive(Copy, Clone, PartialEq, Eq, Structural, Debug)]
pub enum WaitOrderResponse {
    /// Waits for no response.
    Nil,
    Any,
    Specified { asset_no: usize, order_id: OrderId },
}

/// Error type assigned to a live error.
#[derive(Clone, Copy, Eq, PartialEq, Structural, Debug)]
pub enum ErrorKind {
    ConnectionInterrupted,
    CriticalConnectionError,
    OrderError,
    Custom(i64),
}

/// The side of an order, or the initiator's side in a trade event.
#[derive(Clone, Copy, Eq, PartialEq, Structural, Debug)]
pub enum Side {
    /// The bid side in a depth event; a buyer-initiated trade in a trade event.
    Buy,
    /// The ask side in a depth event; a seller-initiated trade in a trade event.
    Sell,
    /// No side provided.
    Nil,
    /// A side value received that has no corresponding variant.
    Unsupported,
}

impl Side {
    /// The numeric code of the side: 1 for a buy, -1 for a sell, 0 for none, 127 otherwise.
    pub open spec fn spec_code(self) -> int {
        match self {
            Side::Buy => 1,
            Side::Sell => -1,
            Side::Nil => 0,
            Side::Unsupported => 127,
        }
    }

    /// Returns the numeric code of the side.
    pub fn code(&self) -> (r: i8)
        ensures
            r == self.spec_code(),
    {
        match self {
            Side::Buy => 1,
            Side::Sell => -1,
            Side::Nil => 0,
            Side::Unsupported => 127,
        }
    }

    /// The direction of the side: 1 for a buy, -1 for a sell.
    pub open spec fn spec_sign(self) -> int {
        match self {
            Side::Buy => 1,
            _ => -1,
        }
    }

    /// Returns 1 for a buy and -1 for a sell; a side without a direction has none.
    pub fn sign(&self) -> (r: i64)
        requires
            *self == Side::Buy || *self == Side::Sell,
        ensures
            r == self.spec_sign(),
    {
        match self {
            Side::Buy => 1,
            _ => -1,
        }
    }

    /// Returns the side's name as the exchanges spell it.
    pub fn as_str(&self) -> (r: &'static str)
        requires
            *self == Side::Buy || *self == Side::Sell,
        ensures
            *self == Side::Buy ==> r@ == "BUY"@,
            *self == Side::Sell ==> r@ == "SELL"@,
    {
        match self {
            Side::Buy => "BUY",
            _ => "SELL",
        }
    }
}

/// Order status.
#[derive(Clone, Copy, Eq, PartialEq, Structural, Debug)]
pub enum Status {
    /// No status yet.
    Nil,
    New,
    Expired,
    Filled,
    Canceled,
    PartiallyFilled,
    Rejected,
    Replaced,
    /// A status value received that has no corresponding variant.
    Unsupported,
}

/// Time in force.
#[derive(Clone, Copy, Eq, PartialEq, Structural, Debug)]
pub enum TimeInForce {
    /// Good 'Til Canceled
    GTC,
    /// Post-only
    GTX,
    /// Fill or Kill
    FOK,
    /// Immediate or Cancel
    IOC,
    /// A time-in-force value received that has no corresponding variant.
    Unsupported,
}

impl TimeInForce {
    /// Returns the time-in-force's name as the exchanges spell it.
    pub fn as_str(&self) -> (r: &'static str)
        requires
            *self != TimeInForce::Unsupported,
        ensures
            *self == TimeInForce::GTC ==> r@ == "GTC"@,
            *self == TimeInForce::GTX ==> r@ == "GTX"@,
            *self == TimeInForce::FOK ==> r@ == "FOK"@,
            *self == TimeInForce::IOC ==> r@ == "IOC"@,
    {
        match self {
            TimeInForce::GTC => "GTC",
            TimeInForce::GTX => "GTX",
            TimeInForce::FOK => "FOK",
            _ => "IOC",
        }
    }
}

/// Order type.
#[derive(Clone, Copy, Eq, PartialEq, Structural, Debug)]
pub enum OrdType {
    Limit,
    Market,
    Unsupported,
}

impl OrdType {
    /// Returns the order type's name as the exchanges spell it.
    pub fn as_str(&self) -> (r: &'static str)
        requires
            *self != OrdType::Unsupported,
        ensures
            *self == OrdType::Limit ==> r@ == "LIMIT"@,
            *self == OrdType::Market ==> r@ == "MARKET"@,
    {
        match self {
            OrdType::Limit => "LIMIT",
            _ => "MARKET",
        }
    }
}

/// The result of elapsing time in a bot.
#[derive(Eq, PartialEq, Structural, Copy, Clone, Debug)]
pub enum ElapseResult {
    /// The requested time was reached within the data.
    Elapsed,
    EndOfData,
    MarketFeed,
    OrderResponse,
}

/// Errors that can occur in builders.
#[derive(Debug)]
pub enum BuildError {
    /// The named field is required.
    BuilderIncomplete(&'static str),
    /// An argument is invalid.
    InvalidArgument(&'static str),
    /// The pair already exists.
    Duplicate(String, String),
    /// The named connector is not found.
    ConnectorNotFound(String),
    /// Another error, by its message.
    Error(String),
}

/// An order, its price in ticks and its quantities in lots.
#[derive(Clone, Copy, Debug)]
pub struct Order {
    /// Order quantity.
    pub qty: i64,
    /// The quantity not executed yet.
    pub leaves_qty: i64,
    /// Executed quantity, only available when this order is executed.
    pub exec_qty: i64,
    /// Executed price in ticks, only available when this order is executed.
    pub exec_price_tick: i64,
    /// Order price in ticks.
    pub price_tick: i64,
    /// The time at which the exchange processes this order.
    pub exch_timestamp: i64,
    /// The time at which the local receives this order or sends it to the exchange.
    pub local_timestamp: i64,
    pub order_id: u64,
    /// Whether the order is executed as a maker, only available when this order is executed.
    pub maker: bool,
    pub order_type: OrdType,
    /// Request status: [`Status::New`] to open a new order, [`Status::Canceled`] to cancel it.
    pub req: Status,
    pub status: Status,
    pub side: Side,
    pub time_in_force: TimeInForce,
}

impl Order {
    /// Constructs an order that has no status, no request and no execution yet.
    pub fn new(
        order_id: u64,
        price_tick: i64,
        qty: i64,
        side: Side,
        order_type: OrdType,
        time_in_force: TimeInForce,
    ) -> (o: Order)
        ensures
            o.order_id == order_id,
            o.price_tick == price_tick,
            o.qty == qty,
            o.leaves_qty == qty,
            o.side == side,
            o.order_type == order_type,
            o.time_in_force == time_in_force,
            o.exch_timestamp == 0,
            o.local_timestamp == 0,
            o.status == Status::Nil,
            o.req == Status::Nil,
            o.exec_price_tick == 0,
            o.exec_qty == 0,
            !o.maker,
    {
        Order {
            qty,
            leaves_qty: qty,
            price_tick,
            side,
            time_in_force,
            exch_timestamp: 0,
            status: Status::Nil,
            local_timestamp: 0,
            req: Status::Nil,
            exec_price_tick: 0,
            exec_qty: 0,
            order_id,
            maker: false,
            order_type,
        }
    }

    /// The order is open in the market.
    pub open spec fn spec_active(self) -> bool {
        self.status == Status::New || self.status == Status::PartiallyFilled
    }

    /// The order is open in the market and no request on it is in flight.
    pub open spec fn spec_cancellable(self) -> bool {
        self.spec_active() && self.req == Status::Nil
    }

    /// Returns whether this order is cancelable.
    pub fn cancellable(&self) -> (r: bool)
        ensures
            r == self.spec_cancellable(),
    {
        (self.status == Status::New || self.status == Status::PartiallyFilled) && self.req
            == Status::Nil
    }

    /// Returns whether this order is active in the market.
    pub fn active(&self) -> (r: bool)
        ensures
            r == self.spec_active(),
    {
        self.status == Status::New || self.status == Status::PartiallyFilled
    }

    /// Returns whether this order has an ongoing request.
    pub fn pending(&self) -> (r: bool)
        ensures
            r == (self.req != Status::Nil),
    {
        self.req != Status::Nil
    }

    /// Whether the update would move the exchange timestamp backwards, which hints at
    /// inconsistent timestamp ordering across the data files.
    pub fn update_goes_back(&self, order: &Order) -> (r: bool)
        ensures
            r == (order.exch_timestamp < self.exch_timestamp),
    {
        order.exch_timestamp < self.exch_timestamp
    }

    /// Updates this order with the given order: every field is taken from it, except the local
    /// timestamp, which is kept, and the exchange timestamp, which is taken only when positive.
    pub fn update(&mut self, order: &Order)
        ensures
            final(self).qty == order.qty,
            final(self).leaves_qty == order.leaves_qty,
            final(self).price_tick == order.price_tick,
            final(self).side == order.side,
            final(self).time_in_force == order.time_in_force,
            final(self).exch_timestamp == (if order.exch_timestamp > 0 {
                order.exch_timestamp
            } else {
                old(self).exch_timestamp
            }),
            final(self).local_timestamp == old(self).local_timestamp,
            final(self).status == order.status,
            final(self).req == order.req,
            final(self).exec_price_tick == order.exec_price_tick,
            final(self).exec_qty == order.exec_qty,
            final(self).order_id == order.order_id,
            final(self).maker == order.maker,
            final(self).order_type == order.order_type,
    {
        self.qty = order.qty;
        self.leaves_qty = order.leaves_qty;
        self.price_tick = order.price_tick;
        self.side = order.side;
        self.time_in_force = order.time_in_force;
        if order.exch_timestamp > 0 {
            self.exch_timestamp = order.exch_timestamp;
        }
        self.status = order.status;
        self.req = order.req;
        self.exec_price_tick = order.exec_price_tick;
        self.exec_qty = order.exec_qty;
        self.order_id = order.order_id;
        self.maker = order.maker;
        self.order_type = order.order_type;
    }
}

} // verus!
