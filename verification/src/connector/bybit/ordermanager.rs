//! The orders a Bybit connector has sent, by order id, with the order link ids under which Bybit
//! reports on them. An order link id is the connector's prefix, eight random characters and the
//! order id in decimal.
use std::collections::HashMap;
use vstd::prelude::*;
use vstd::std_specs::iter::IteratorSpec;
use vstd::string::{StringExecFns, StringSliceAdditionalSpecFns};
use vstd::utf8::{
    encode_utf8, encode_utf8_valid_utf8, is_ascii_chars, is_ascii_chars_encode_utf8,
    is_char_boundary, is_char_boundary_iff_not_is_continuation_byte, is_continuation_byte,
};

use crate::backtest::data::npy::{decimal, digit_char, push_decimal};
use crate::types::{OrdType, Order, OrderId, Side, Status, TimeInForce};

verus! {

broadcast use vstd::std_specs::hash::group_hash_axioms;

/// Errors in handling what the exchange reports about orders.
#[derive(Debug)]
pub enum HandleError {
    /// The order id in an order link id is not a number, with the reason.
    InvalidOrderId(String),
    /// The order link id does not start with the connector's prefix.
    PrefixUnmatched,
    /// No order of the connector has the order id.
    OrderNotFound,
    /// The named argument is invalid.
    InvalidArg(&'static str),
    /// An order with the order id exists already.
    OrderAlreadyExist,
}

/// An order request in Bybit's terms; the fields that a request leaves out are `None`.
#[derive(Debug)]
pub struct BybitOrder {
    pub symbol: String,
    pub side: Option<String>,
    pub order_type: Option<String>,
    pub qty: Option<String>,
    pub price: Option<String>,
    pub category: String,
    pub time_in_force: Option<String>,
    pub order_link_id: String,
}

/// The value of the decimal digits.
pub open spec fn decimal_value(b: Seq<u8>) -> int
    decreases b.len(),
{
    if b.len() == 0 {
        0
    } else {
        decimal_value(b.drop_last()) * 10 + (b.last() - 48)
    }
}

/// Every byte is an ASCII decimal digit.
pub open spec fn all_digits(b: Seq<u8>) -> bool {
    forall|i: int| 0 <= i < b.len() ==> 48 <= #[trigger] b[i] <= 57
}

/// The `u64` that the text spells in decimal, with an optional leading `+`, if it spells one
/// that fits.
pub open spec fn parsed_u64(b: Seq<u8>) -> Option<u64> {
    let d = if b.len() > 0 && b[0] == 43 {
        b.drop_first()
    } else {
        b
    };
    if d.len() > 0 && all_digits(d) && decimal_value(d) <= u64::MAX {
        Some(decimal_value(d) as u64)
    } else {
        None
    }
}

/// The message of the error `str::parse` gives for text that does not spell a `u64`.
pub uninterp spec fn parse_u64_error(b: Seq<u8>) -> Seq<char>;

/// Parses the text as a `u64` with `str::parse`; an error carries its message, named
/// [`parse_u64_error`].
#[verifier::external_body]
fn parse_u64(s: &str) -> (r: Result<u64, String>)
    ensures
        r is Ok <==> parsed_u64(s.spec_bytes()) is Some,
        r matches Ok(v) ==> parsed_u64(s.spec_bytes()) == Some(v),
        r matches Err(m) ==> m@ == parse_u64_error(s.spec_bytes()),
{
    match s.parse::<u64>() {
        Ok(v) => Ok(v),
        Err(e) => Err(e.to_string()),
    }
}

/// Returns whether the bytes start with the prefix.
fn starts_with(b: &[u8], p: &[u8]) -> (r: bool)
    ensures
        r == p@.is_prefix_of(b@),
{
    if p.len() > b.len() {
        return false;
    }
    let mut i: usize = 0;
    while i < p.len()
        invariant
            i <= p@.len() <= b@.len(),
            forall|j: int| 0 <= j < i ==> p@[j] == b@[j],
        decreases p@.len() - i,
    {
        if p[i] != b[i] {
            assert(p@ != b@.subrange(0, p@.len() as int) ==> !p@.is_prefix_of(b@));
            assert(b@.subrange(0, p@.len() as int)[i as int] == b@[i as int]);
            return false;
        }
        i = i + 1;
    }
    assert(p@ =~= b@.subrange(0, p@.len() as int));
    true
}

/// The encoding of two texts one after the other is the two encodings one after the other.
pub proof fn lemma_encode_concat(a: Seq<char>, b: Seq<char>)
    ensures
        encode_utf8(a + b) == encode_utf8(a) + encode_utf8(b),
    decreases a.len(),
{
    if a.len() == 0 {
        assert(a + b =~= b);
        assert(encode_utf8(a) + encode_utf8(b) =~= encode_utf8(b));
    } else {
        assert((a + b).drop_first() =~= a.drop_first() + b);
        lemma_encode_concat(a.drop_first(), b);
        assert((a + b)[0] == a[0]);
        assert(encode_utf8(a + b) =~= encode_utf8(a) + encode_utf8(b));
    }
}

/// A decimal digit's character is the ASCII byte of the digit.
proof fn lemma_digit_char(d: nat)
    requires
        d < 10,
    ensures
        digit_char(d) as u8 == d + 48,
        '\0' <= digit_char(d) <= '\u{7f}',
{
}

/// The decimal digits of `n` are ASCII digits whose value is `n`.
pub proof fn lemma_decimal_digits(n: nat)
    ensures
        is_ascii_chars(decimal(n)),
        encode_utf8(decimal(n)).len() == decimal(n).len() > 0,
        all_digits(encode_utf8(decimal(n))),
        decimal_value(encode_utf8(decimal(n))) == n,
    decreases n,
{
    let c = decimal(n);
    if n < 10 {
        let d = digit_char(n);
        lemma_digit_char(n);
        assert(c == seq![d]);
        assert(is_ascii_chars(c));
        is_ascii_chars_encode_utf8(c);
        let b = encode_utf8(c);
        assert(b[0] == (n + 48) as u8);
        assert(b.drop_last() =~= Seq::<u8>::empty());
        assert(all_digits(b));
        assert(b.last() == n + 48);
        assert(decimal_value(b.drop_last()) == 0);
        assert(decimal_value(b) == n);
    } else {
        let h = decimal(n / 10);
        let d = digit_char(n % 10);
        lemma_digit_char(n % 10);
        lemma_decimal_digits(n / 10);
        assert(c == h + seq![d]);
        assert(is_ascii_chars(seq![d]));
        is_ascii_chars_encode_utf8(seq![d]);
        assert(is_ascii_chars(c));
        lemma_encode_concat(h, seq![d]);
        let b = encode_utf8(c);
        let bh = encode_utf8(h);
        assert(encode_utf8(seq![d])[0] == ((n % 10) + 48) as u8);
        assert(b.drop_last() =~= bh);
        assert(b.last() == ((n % 10) + 48) as u8);
        assert(all_digits(b)) by {
            assert forall|i: int| 0 <= i < b.len() implies 48 <= #[trigger] b[i] <= 57 by {
                if i < bh.len() {
                    assert(b[i] == bh[i]);
                }
            }
        }
        assert(b.last() == (n % 10) + 48);
        assert(decimal_value(b) == decimal_value(bh) * 10 + (b.last() - 48));
        assert(decimal_value(bh) == n / 10);
        assert((n / 10) * 10 + n % 10 == n);
    }
}

/// Bybit's name of the side.
pub open spec fn side_name(side: Side) -> Seq<char> {
    if side == Side::Buy {
        "Buy"@
    } else {
        "Sell"@
    }
}

/// Bybit's name of the order type.
pub open spec fn order_type_name(order_type: OrdType) -> Seq<char> {
    if order_type == OrdType::Limit {
        "Limit"@
    } else {
        "Market"@
    }
}

/// Bybit's name of the time in force.
pub open spec fn time_in_force_name(tif: TimeInForce) -> Seq<char> {
    match tif {
        TimeInForce::GTC => "GTC"@,
        TimeInForce::GTX => "PostOnly"@,
        TimeInForce::FOK => "FOK"@,
        _ => "IOC"@,
    }
}

/// The order after Bybit reports its status at `updated_time` milliseconds: no request is in
/// flight any more.
pub open spec fn status_updated(o: Order, status: Status, updated_time: i64) -> Order {
    Order { req: Status::Nil, status, exch_timestamp: (updated_time * 1_000_000) as i64, ..o }
}

/// The order after Bybit reports an execution at `exec_time` milliseconds.
pub open spec fn executed(o: Order, exec_price_tick: i64, exec_qty: i64, exec_time: i64) -> Order {
    Order { exec_price_tick, exec_qty, exch_timestamp: (exec_time * 1_000_000) as i64, ..o }
}

/// The order with its status set to canceled.
pub open spec fn canceled(o: Order) -> Order {
    Order { status: Status::Canceled, ..o }
}

/// Tracks the orders a Bybit connector has sent.
pub struct OrderManager {
    prefix: String,
    orders: HashMap<OrderId, (usize, String, Order)>,
}

impl OrderManager {
    /// The prefix of the connector's order link ids.
    pub closed spec fn prefix(&self) -> Seq<char> {
        self.prefix@
    }

    /// The orders by order id: (asset number, order link id, order).
    pub closed spec fn orders(&self) -> Map<OrderId, (usize, Seq<char>, Order)> {
        self.orders@.map_values(|v: (usize, String, Order)| (v.0, v.1@, v.2))
    }

    /// The UTF-8 bytes of the prefix.
    pub open spec fn prefix_bytes(&self) -> Seq<u8> {
        encode_utf8(self.prefix())
    }

    /// The order link id starts with the prefix.
    pub open spec fn prefix_matches(&self, link: Seq<char>) -> bool {
        self.prefix_bytes().is_prefix_of(encode_utf8(link))
    }

    /// An order link id that starts with the prefix can be cut after the prefix and eight more
    /// bytes, on a character boundary.
    pub open spec fn link_readable(&self, link: Seq<char>) -> bool {
        self.prefix_matches(link) ==> {
            &&& self.prefix_bytes().len() + 8 <= encode_utf8(link).len()
            &&& is_char_boundary(encode_utf8(link), self.prefix_bytes().len() + 8int)
        }
    }

    /// The bytes of an order link id after the prefix and eight characters.
    pub open spec fn link_tail(&self, link: Seq<char>) -> Seq<u8> {
        let b = encode_utf8(link);
        b.subrange(self.prefix_bytes().len() + 8int, b.len() as int)
    }

    /// The order id an order link id carries: the number after the prefix and eight characters.
    pub open spec fn link_order_id(&self, link: Seq<char>) -> Option<OrderId> {
        let b = encode_utf8(link);
        if self.prefix_matches(link) {
            parsed_u64(b.subrange(self.prefix_bytes().len() + 8int, b.len() as int))
        } else {
            None
        }
    }

    /// Constructs an order manager with no order; its order link ids start with `prefix`.
    pub fn new(prefix: &str) -> (r: Self)
        ensures
            r.prefix() == prefix@,
            r.orders() == Map::<OrderId, (usize, Seq<char>, Order)>::empty(),
    {
        let r = OrderManager { prefix: prefix.to_owned(), orders: HashMap::new() };
        assert(r.orders() =~= Map::<OrderId, (usize, Seq<char>, Order)>::empty());
        r
    }

    /// Returns the order id in an order link id; the prefix must match and the number must parse.
    fn parse_order_id(&self, order_link_id: &str) -> (r: Result<OrderId, HandleError>)
        requires
            self.link_readable(order_link_id@),
        ensures
            !self.prefix_matches(order_link_id@) ==> r matches Err(HandleError::PrefixUnmatched),
            self.prefix_matches(order_link_id@) ==> match self.link_order_id(order_link_id@) {
                Some(id) => r == Ok::<OrderId, HandleError>(id),
                None => r matches Err(HandleError::InvalidOrderId(m)) && m@ == parse_u64_error(
                    self.link_tail(order_link_id@),
                ),
            },
    {
        let p = self.prefix.as_str().as_bytes();
        let b = order_link_id.as_bytes();
        if !starts_with(b, p) {
            return Err(HandleError::PrefixUnmatched);
        }
        let n = b.len();
        assert(p@.len() + 8 <= n);
        let mid = p.len() + 8;
        let (_, tail) = order_link_id.split_at(mid);
        match parse_u64(tail) {
            Ok(id) => Ok(id),
            Err(m) => Err(HandleError::InvalidOrderId(m)),
        }
    }

    /// The order id of the order link id, when it names an order of the manager.
    pub open spec fn found(&self, link: Seq<char>) -> Option<OrderId> {
        match self.link_order_id(link) {
            Some(id) => if self.orders().contains_key(id) {
                Some(id)
            } else {
                None
            },
            None => None,
        }
    }

    /// The error answered for an order link id that names no order of the manager: the prefix
    /// does not match, or the order id does not parse, or no order has it.
    pub open spec fn lookup_error<T>(&self, link: Seq<char>, r: Result<T, HandleError>) -> bool {
        if !self.prefix_matches(link) {
            r matches Err(HandleError::PrefixUnmatched)
        } else if self.link_order_id(link) is None {
            r matches Err(HandleError::InvalidOrderId(m)) && m@ == parse_u64_error(self.link_tail(link))
        } else {
            r matches Err(HandleError::OrderNotFound)
        }
    }

    /// Returns the order id of the order link id with its entry, or the error of
    /// [`Self::lookup_error`].
    fn lookup(&self, order_link_id: &str) -> (r: Result<(OrderId, usize, String, Order), HandleError>)
        requires
            self.link_readable(order_link_id@),
        ensures
            self.found(order_link_id@) is None ==> self.lookup_error(order_link_id@, r),
            self.found(order_link_id@) matches Some(id) ==> r matches Ok((i, a, l, o)) && i == id
                && self.orders()[id] == (a, l@, o),
    {
        let order_id = match self.parse_order_id(order_link_id) {
            Ok(id) => id,
            Err(e) => return Err(e),
        };
        match self.orders.get(&order_id) {
            Some(e) => Ok((order_id, e.0, e.1.clone(), e.2)),
            None => Err(HandleError::OrderNotFound),
        }
    }

    /// Records the status Bybit reports for the order with the order link id at `updated_time`
    /// milliseconds and returns (its asset number, the order), as [`status_updated`] describes;
    /// an order no longer active is removed.
    pub fn update_order(&mut self, order_link_id: &str, order_status: Status, updated_time: i64)
        -> (r: Result<(usize, Order), HandleError>)
        requires
            old(self).link_readable(order_link_id@),
            i64::MIN <= updated_time * 1_000_000 <= i64::MAX,
        ensures
            final(self).prefix() == old(self).prefix(),
            old(self).found(order_link_id@) is None ==> old(self).lookup_error(order_link_id@, r)
                && final(self).orders() == old(self).orders(),
            old(self).found(order_link_id@) matches Some(id) ==> {
                let (asset_no, link, o) = old(self).orders()[id];
                let o2 = status_updated(o, order_status, updated_time);
                &&& r == Ok::<(usize, Order), HandleError>((asset_no, o2))
                &&& final(self).orders() == (if o2.spec_active() {
                    old(self).orders().insert(id, (asset_no, link, o2))
                } else {
                    old(self).orders().remove(id)
                })
            },
    {
        let (order_id, asset_no, link, mut order) = match self.lookup(order_link_id) {
            Ok(e) => e,
            Err(e) => return Err(e),
        };
        order.req = Status::Nil;
        order.status = order_status;
        order.exch_timestamp = updated_time * 1_000_000;
        let ghost link_view = link@;
        if !order.active() {
            self.orders.remove(&order_id);
            assert(self.orders() =~= old(self).orders().remove(order_id));
        } else {
            self.orders.insert(order_id, (asset_no, link, order));
            assert(self.orders() =~= old(self).orders().insert(order_id, (asset_no, link_view, order)));
        }
        Ok((asset_no, order))
    }

    /// Records an execution Bybit reports for the order with the order link id at `exec_time`
    /// milliseconds, its price in ticks and its quantity in lots, and returns (its asset number,
    /// the order), as [`executed`] describes.
    pub fn update_execution(
        &mut self,
        order_link_id: &str,
        exec_price_tick: i64,
        exec_qty: i64,
        exec_time: i64,
    ) -> (r: Result<(usize, Order), HandleError>)
        requires
            old(self).link_readable(order_link_id@),
            i64::MIN <= exec_time * 1_000_000 <= i64::MAX,
        ensures
            final(self).prefix() == old(self).prefix(),
            old(self).found(order_link_id@) is None ==> old(self).lookup_error(order_link_id@, r)
                && final(self).orders() == old(self).orders(),
            old(self).found(order_link_id@) matches Some(id) ==> {
                let (asset_no, link, o) = old(self).orders()[id];
                let o2 = executed(o, exec_price_tick, exec_qty, exec_time);
                &&& r == Ok::<(usize, Order), HandleError>((asset_no, o2))
                &&& final(self).orders() == old(self).orders().insert(id, (asset_no, link, o2))
            },
    {
        let (order_id, asset_no, link, mut order) = match self.lookup(order_link_id) {
            Ok(e) => e,
            Err(e) => return Err(e),
        };
        order.exec_price_tick = exec_price_tick;
        order.exec_qty = exec_qty;
        order.exch_timestamp = exec_time * 1_000_000;
        let ghost link_view = link@;
        self.orders.insert(order_id, (asset_no, link, order));
        assert(self.orders() =~= old(self).orders().insert(order_id, (asset_no, link_view, order)));
        Ok((asset_no, order))
    }

    /// Records an execution from Bybit's fast execution stream, as [`Self::update_execution`]
    /// does.
    pub fn update_fast_execution(
        &mut self,
        order_link_id: &str,
        exec_price_tick: i64,
        exec_qty: i64,
        exec_time: i64,
    ) -> (r: Result<(usize, Order), HandleError>)
        requires
            old(self).link_readable(order_link_id@),
            i64::MIN <= exec_time * 1_000_000 <= i64::MAX,
        ensures
            final(self).prefix() == old(self).prefix(),
            old(self).found(order_link_id@) is None ==> old(self).lookup_error(order_link_id@, r)
                && final(self).orders() == old(self).orders(),
            old(self).found(order_link_id@) matches Some(id) ==> {
                let (asset_no, link, o) = old(self).orders()[id];
                let o2 = executed(o, exec_price_tick, exec_qty, exec_time);
                &&& r == Ok::<(usize, Order), HandleError>((asset_no, o2))
                &&& final(self).orders() == old(self).orders().insert(id, (asset_no, link, o2))
            },
    {
        self.update_execution(order_link_id, exec_price_tick, exec_qty, exec_time)
    }

    /// Registers a new order of the asset and returns Bybit's request for it. Its side, order
    /// type and time in force must be supported, in that order, or the request is an invalid
    /// argument; its order link id is the prefix, `rand_id` and the order id; an order id
    /// already registered is an error. `qty` and `price` are the quantity and the price as the
    /// request writes them.
    pub fn new_order(
        &mut self,
        symbol: &str,
        category: &str,
        asset_no: usize,
        order: Order,
        qty: String,
        price: String,
        rand_id: &str,
    ) -> (r: Result<BybitOrder, HandleError>)
        ensures
            final(self).prefix() == old(self).prefix(),
            order.side != Side::Buy && order.side != Side::Sell ==> (r matches Err(
                HandleError::InvalidArg(a),
            ) && a@ == "side"@),
            (order.side == Side::Buy || order.side == Side::Sell) && order.order_type
                == OrdType::Unsupported ==> (r matches Err(HandleError::InvalidArg(a)) && a@
                == "order_type"@),
            (order.side == Side::Buy || order.side == Side::Sell) && order.order_type
                != OrdType::Unsupported && order.time_in_force == TimeInForce::Unsupported ==> (
            r matches Err(HandleError::InvalidArg(a)) && a@ == "time_in_force"@),
            r is Err ==> final(self).orders() == old(self).orders(),
            (order.side == Side::Buy || order.side == Side::Sell) && order.order_type
                != OrdType::Unsupported && order.time_in_force != TimeInForce::Unsupported ==> {
                let link = old(self).prefix() + rand_id@ + decimal(order.order_id as nat);
                &&& old(self).orders().contains_key(order.order_id) ==> (r matches Err(
                    HandleError::OrderAlreadyExist,
                ))
                &&& !old(self).orders().contains_key(order.order_id) ==> {
                    &&& r matches Ok(b) && {
                        &&& b.symbol@ == symbol@
                        &&& b.side matches Some(s) && s@ == side_name(order.side)
                        &&& b.order_type matches Some(t) && t@ == order_type_name(order.order_type)
                        &&& b.qty matches Some(q) && q@ == qty@
                        &&& b.price matches Some(p) && p@ == price@
                        &&& b.category@ == category@
                        &&& b.time_in_force matches Some(t) && t@ == time_in_force_name(
                            order.time_in_force,
                        )
                        &&& b.order_link_id@ == link
                    }
                    &&& final(self).orders() == old(self).orders().insert(
                        order.order_id,
                        (asset_no, link, order),
                    )
                }
            },
    {
        let side = match order.side {
            Side::Buy => "Buy".to_owned(),
            Side::Sell => "Sell".to_owned(),
            _ => return Err(HandleError::InvalidArg("side")),
        };
        let order_type = match order.order_type {
            OrdType::Limit => "Limit".to_owned(),
            OrdType::Market => "Market".to_owned(),
            _ => return Err(HandleError::InvalidArg("order_type")),
        };
        let time_in_force = match order.time_in_force {
            TimeInForce::GTC => "GTC".to_owned(),
            TimeInForce::GTX => "PostOnly".to_owned(),
            TimeInForce::FOK => "FOK".to_owned(),
            TimeInForce::IOC => "IOC".to_owned(),
            _ => return Err(HandleError::InvalidArg("time_in_force")),
        };
        let mut order_link_id = self.prefix.clone();
        order_link_id.append(rand_id);
        let mut id_text = String::new();
        push_decimal(&mut id_text, order.order_id);
        order_link_id.append(id_text.as_str());
        let bybit_order = BybitOrder {
            symbol: symbol.to_owned(),
            side: Some(side),
            order_type: Some(order_type),
            qty: Some(qty),
            price: Some(price),
            category: category.to_owned(),
            time_in_force: Some(time_in_force),
            order_link_id: order_link_id.clone(),
        };
        if self.orders.contains_key(&order.order_id) {
            return Err(HandleError::OrderAlreadyExist);
        }
        let ghost link_view = order_link_id@;
        self.orders.insert(order.order_id, (asset_no, order_link_id, order));
        assert(self.orders() =~= old(self).orders().insert(
            order.order_id,
            (asset_no, link_view, order),
        ));
        Ok(bybit_order)
    }

    /// Returns Bybit's request to cancel the order; an order id not registered is an error. The
    /// request names the order by its order link id only.
    pub fn cancel_order(&mut self, symbol: &str, category: &str, order_id: OrderId) -> (r: Result<
        BybitOrder,
        HandleError,
    >)
        ensures
            final(self).prefix() == old(self).prefix(),
            final(self).orders() == old(self).orders(),
            !old(self).orders().contains_key(order_id) ==> r matches Err(HandleError::OrderNotFound),
            old(self).orders().contains_key(order_id) ==> (r matches Ok(b) && {
                &&& b.symbol@ == symbol@
                &&& b.side is None
                &&& b.order_type is None
                &&& b.qty is None
                &&& b.price is None
                &&& b.category@ == category@
                &&& b.time_in_force is None
                &&& b.order_link_id@ == old(self).orders()[order_id].1
            }),
    {
        let order_link_id = match self.orders.get(&order_id) {
            Some(e) => e.1.clone(),
            None => return Err(HandleError::OrderNotFound),
        };
        Ok(BybitOrder {
            symbol: symbol.to_owned(),
            side: None,
            order_type: None,
            qty: None,
            price: None,
            category: category.to_owned(),
            time_in_force: None,
            order_link_id,
        })
    }

    /// Records that Bybit refused to open the order with the order link id: the order is
    /// removed and returned expired, with no request in flight, with its asset number.
    pub fn update_submit_fail(&mut self, order_link_id: &str) -> (r: Result<(usize, Order), HandleError>)
        requires
            old(self).link_readable(order_link_id@),
        ensures
            final(self).prefix() == old(self).prefix(),
            old(self).found(order_link_id@) is None ==> old(self).lookup_error(order_link_id@, r)
                && final(self).orders() == old(self).orders(),
            old(self).found(order_link_id@) matches Some(id) ==> {
                let (asset_no, link, o) = old(self).orders()[id];
                &&& r == Ok::<(usize, Order), HandleError>(
                    (asset_no, Order { req: Status::Nil, status: Status::Expired, ..o }),
                )
                &&& final(self).orders() == old(self).orders().remove(id)
            },
    {
        let (order_id, asset_no, _link, mut order) = match self.lookup(order_link_id) {
            Ok(e) => e,
            Err(e) => return Err(e),
        };
        self.orders.remove(&order_id);
        assert(self.orders() =~= old(self).orders().remove(order_id));
        order.req = Status::Nil;
        order.status = Status::Expired;
        Ok((asset_no, order))
    }

    /// Reports that Bybit refused to cancel the order with the order link id: returns (its asset
    /// number, the order with no request in flight). The order kept is left as it is.
    pub fn update_cancel_fail(&mut self, order_link_id: &str) -> (r: Result<(usize, Order), HandleError>)
        requires
            old(self).link_readable(order_link_id@),
        ensures
            final(self).prefix() == old(self).prefix(),
            final(self).orders() == old(self).orders(),
            old(self).found(order_link_id@) is None ==> old(self).lookup_error(order_link_id@, r),
            old(self).found(order_link_id@) matches Some(id) ==> {
                let (asset_no, link, o) = old(self).orders()[id];
                r == Ok::<(usize, Order), HandleError>((asset_no, Order { req: Status::Nil, ..o }))
            },
    {
        let (_order_id, asset_no, _link, mut order) = match self.lookup(order_link_id) {
            Ok(e) => e,
            Err(e) => return Err(e),
        };
        order.req = Status::Nil;
        Ok((asset_no, order))
    }

    /// Takes every order out and returns them canceled, with their asset numbers, in the order
    /// the map yields them.
    pub fn clear_orders(&mut self) -> (r: Vec<(usize, Order)>)
        ensures
            final(self).prefix() == old(self).prefix(),
            final(self).orders() == Map::<OrderId, (usize, Seq<char>, Order)>::empty(),
            exists|ids: Seq<OrderId>|
                {
                    &&& ids.no_duplicates()
                    &&& ids.to_set() == old(self).orders().dom()
                    &&& ids.len() == r@.len()
                    &&& forall|j: int|
                        0 <= j < ids.len() ==> #[trigger] r@[j] == (
                            old(self).orders()[ids[j]].0,
                            canceled(old(self).orders()[ids[j]].2),
                        )
                },
    {
        let mut values: Vec<(usize, Order)> = Vec::new();
        let keys = self.orders.keys();
        let ghost all = IteratorSpec::remaining(&keys);
        assert(all.unref().to_set() == self.orders@.dom());
        assert(all.unref().no_duplicates());
        for id in it: keys
            invariant
                it.seq() == all,
                all.unref().to_set() == self.orders@.dom(),
                self.orders@ == old(self).orders@,
                values@.len() == it.index(),
                forall|j: int|
                    0 <= j < it.index() ==> #[trigger] values@[j] == (
                        old(self).orders()[*all[j]].0,
                        canceled(old(self).orders()[*all[j]].2),
                    ),
        {
            let ghost i = it.index();
            assert(all.unref()[i] == *id);
            assert(all.unref().to_set().contains(*id));
            match self.orders.get(id) {
                Some(e) => {
                    let mut order = e.2;
                    order.status = Status::Canceled;
                    values.push((e.0, order));
                },
                None => {},
            }
        }
        proof {
            let ids = all.unref();
            assert(ids.len() == values@.len());
            assert forall|j: int| 0 <= j < ids.len() implies #[trigger] values@[j] == (
                old(self).orders()[ids[j]].0,
                canceled(old(self).orders()[ids[j]].2),
            ) by {
                assert(ids[j] == *all[j]);
            }
            assert(ids.to_set() =~= old(self).orders().dom());
        }
        self.orders.clear();
        assert(self.orders() =~= Map::<OrderId, (usize, Seq<char>, Order)>::empty());
        values
    }
}

/// The order link id given to an order names that order: a link made of the prefix, eight
/// ASCII characters and the order id in decimal, as [`OrderManager::new_order`] makes it, can be
/// read, and the order id it carries is that order id.
pub proof fn lemma_link_names_order(m: OrderManager, rand_id: Seq<char>, order_id: OrderId)
    requires
        rand_id.len() == 8,
        is_ascii_chars(rand_id),
    ensures
        m.link_readable(m.prefix() + rand_id + decimal(order_id as nat)),
        m.link_order_id(m.prefix() + rand_id + decimal(order_id as nat)) == Some(order_id),
{
    let p = m.prefix();
    let d = decimal(order_id as nat);
    let link = p + rand_id + d;
    lemma_decimal_digits(order_id as nat);
    lemma_encode_concat(p + rand_id, d);
    lemma_encode_concat(p, rand_id);
    is_ascii_chars_encode_utf8(rand_id);
    let ep = encode_utf8(p);
    let ed = encode_utf8(d);
    let b = encode_utf8(link);
    assert(b == ep + encode_utf8(rand_id) + ed);
    let idx: int = ep.len() + 8int;
    assert(b.subrange(0, ep.len() as int) =~= ep);
    assert(m.prefix_matches(link));
    assert(b.subrange(idx, b.len() as int) =~= ed);
    assert(b[idx] == ed[0]);
    assert(48 <= ed[0] <= 57);
    encode_utf8_valid_utf8(link);
    is_char_boundary_iff_not_is_continuation_byte(b, idx);
    assert(!is_continuation_byte(b[idx]));
    assert(m.link_readable(link));
    assert(ed[0] != 43);
}

} // verus!
