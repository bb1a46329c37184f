//! Configuration of the Bybit connector; only the `linear` category (linear futures) is supported.
use vstd::prelude::*;
use vstd::utf8::encode_utf8;

use crate::connector::{insert_string, lemma_views_push, string_set, views};
use crate::types::BuildError;

pub mod ordermanager;

verus! {

/// A Bybit endpoint.
#[derive(Clone, Debug)]
pub enum Endpoint {
    Linear,
    Testnet,
    /// A URL given by the user.
    Custom(String),
}

impl From<String> for Endpoint {
    fn from(value: String) -> (r: Self) {
        Endpoint::Custom(value)
    }
}

impl vstd::std_specs::convert::FromSpecImpl<String> for Endpoint {
    open spec fn obeys_from_spec() -> bool {
        true
    }

    open spec fn from_spec(value: String) -> Self {
        Endpoint::Custom(value)
    }
}

/// Errors of the Bybit connector.
#[derive(Clone, Debug)]
pub enum BybitError {
    AssetNotFound,
    AuthError { code: i64, msg: String },
    OrderError { code: i64, msg: String },
}

/// The public Websocket stream URL of an endpoint.
pub open spec fn public_url_of(endpoint: Endpoint) -> Seq<char> {
    match endpoint {
        Endpoint::Linear => "wss://stream.bybit.com/v5/public/linear"@,
        Endpoint::Testnet => "wss://stream-testnet.bybit.com/v5/public/linear"@,
        Endpoint::Custom(url) => url@,
    }
}

/// The private Websocket stream URL of an endpoint.
pub open spec fn private_url_of(endpoint: Endpoint) -> Seq<char> {
    match endpoint {
        Endpoint::Linear => "wss://stream.bybit.com/v5/private"@,
        Endpoint::Testnet => "wss://stream-testnet.bybit.com/v5/private"@,
        Endpoint::Custom(url) => url@,
    }
}

/// The trade Websocket stream URL of an endpoint.
pub open spec fn trade_url_of(endpoint: Endpoint) -> Seq<char> {
    match endpoint {
        Endpoint::Linear => "wss://stream.bybit.com/v5/trade"@,
        Endpoint::Testnet => "wss://stream-testnet.bybit.com/v5/trade"@,
        Endpoint::Custom(url) => url@,
    }
}

/// The REST API URL of an endpoint.
pub open spec fn rest_url_of(endpoint: Endpoint) -> Seq<char> {
    match endpoint {
        Endpoint::Linear => "https://api.bybit.com"@,
        Endpoint::Testnet => "https://api-testnet.bybit.com"@,
        Endpoint::Custom(url) => url@,
    }
}

/// The settings a [`BybitBuilder`] has gathered.
pub struct BybitBuilderView {
    pub public_url: Seq<char>,
    pub private_url: Seq<char>,
    pub trade_url: Seq<char>,
    pub rest_url: Seq<char>,
    pub topics: Set<Seq<char>>,
    pub api_key: Seq<char>,
    pub secret: Seq<char>,
    pub category: Seq<char>,
    pub order_prefix: Seq<char>,
}

/// The validated settings of a Bybit connector.
pub struct BybitParams {
    pub public_url: String,
    pub private_url: String,
    pub trade_url: String,
    pub rest_url: String,
    pub topics: Vec<String>,
    pub api_key: String,
    pub secret: String,
    pub category: String,
    pub order_prefix: String,
}

/// Bybit connector builder.
pub struct BybitBuilder {
    public_url: String,
    private_url: String,
    trade_url: String,
    rest_url: String,
    topics: Vec<String>,
    api_key: String,
    secret: String,
    category: String,
    order_prefix: String,
}

impl View for BybitBuilder {
    type V = BybitBuilderView;

    closed spec fn view(&self) -> BybitBuilderView {
        BybitBuilderView {
            public_url: self.public_url@,
            private_url: self.private_url@,
            trade_url: self.trade_url@,
            rest_url: self.rest_url@,
            topics: string_set(self.topics@),
            api_key: self.api_key@,
            secret: self.secret@,
            category: self.category@,
            order_prefix: self.order_prefix@,
        }
    }
}

/// A copy of an endpoint that is not a custom one.
fn copy_endpoint(endpoint: &Endpoint) -> (r: Endpoint)
    requires
        !(*endpoint is Custom),
    ensures
        r == *endpoint,
{
    match endpoint {
        Endpoint::Linear => Endpoint::Linear,
        _ => Endpoint::Testnet,
    }
}

impl BybitBuilder {
    /// Constructs a builder with every setting empty.
    pub fn new() -> (r: Self)
        ensures
            r@.public_url == Seq::<char>::empty(),
            r@.private_url == Seq::<char>::empty(),
            r@.trade_url == Seq::<char>::empty(),
            r@.rest_url == Seq::<char>::empty(),
            r@.topics == Set::<Seq<char>>::empty(),
            r@.api_key == Seq::<char>::empty(),
            r@.secret == Seq::<char>::empty(),
            r@.category == Seq::<char>::empty(),
            r@.order_prefix == Seq::<char>::empty(),
    {
        let r = BybitBuilder {
            public_url: String::new(),
            private_url: String::new(),
            trade_url: String::new(),
            rest_url: String::new(),
            topics: Vec::new(),
            api_key: String::new(),
            secret: String::new(),
            category: String::new(),
            order_prefix: String::new(),
        };
        assert(r@.topics =~= Set::<Seq<char>>::empty());
        r
    }

    /// Sets an endpoint to connect to; a custom endpoint is set with `public_url`,
    /// `private_url`, `trade_url` and `rest_url` instead.
    pub fn endpoint(self, endpoint: Endpoint) -> (r: Self)
        requires
            !(endpoint is Custom),
        ensures
            r@ == (BybitBuilderView {
                public_url: public_url_of(endpoint),
                private_url: private_url_of(endpoint),
                trade_url: trade_url_of(endpoint),
                rest_url: rest_url_of(endpoint),
                ..self@
            }),
    {
        let e1 = copy_endpoint(&endpoint);
        let e2 = copy_endpoint(&endpoint);
        let e3 = copy_endpoint(&endpoint);
        self.public_url(e1).private_url(e2).trade_url(e3).rest_url(endpoint)
    }

    /// Sets the public Websocket stream endpoint URL.
    pub fn public_url(self, endpoint: Endpoint) -> (r: Self)
        ensures
            r@ == (BybitBuilderView { public_url: public_url_of(endpoint), ..self@ }),
    {
        let public_url = match endpoint {
            Endpoint::Linear => "wss://stream.bybit.com/v5/public/linear".to_owned(),
            Endpoint::Testnet => "wss://stream-testnet.bybit.com/v5/public/linear".to_owned(),
            Endpoint::Custom(url) => url,
        };
        BybitBuilder { public_url, ..self }
    }

    /// Sets the private Websocket stream endpoint URL.
    pub fn private_url(self, endpoint: Endpoint) -> (r: Self)
        ensures
            r@ == (BybitBuilderView { private_url: private_url_of(endpoint), ..self@ }),
    {
        let private_url = match endpoint {
            Endpoint::Linear => "wss://stream.bybit.com/v5/private".to_owned(),
            Endpoint::Testnet => "wss://stream-testnet.bybit.com/v5/private".to_owned(),
            Endpoint::Custom(url) => url,
        };
        BybitBuilder { private_url, ..self }
    }

    /// Sets the trade Websocket stream endpoint URL.
    pub fn trade_url(self, endpoint: Endpoint) -> (r: Self)
        ensures
            r@ == (BybitBuilderView { trade_url: trade_url_of(endpoint), ..self@ }),
    {
        let trade_url = match endpoint {
            Endpoint::Linear => "wss://stream.bybit.com/v5/trade".to_owned(),
            Endpoint::Testnet => "wss://stream-testnet.bybit.com/v5/trade".to_owned(),
            Endpoint::Custom(url) => url,
        };
        BybitBuilder { trade_url, ..self }
    }

    /// Sets the REST API endpoint URL.
    pub fn rest_url(self, endpoint: Endpoint) -> (r: Self)
        ensures
            r@ == (BybitBuilderView { rest_url: rest_url_of(endpoint), ..self@ }),
    {
        let rest_url = match endpoint {
            Endpoint::Linear => "https://api.bybit.com".to_owned(),
            Endpoint::Testnet => "https://api-testnet.bybit.com".to_owned(),
            Endpoint::Custom(url) => url,
        };
        BybitBuilder { rest_url, ..self }
    }

    /// Sets the category.
    pub fn category(self, category: &str) -> (r: Self)
        ensures
            r@ == (BybitBuilderView { category: category@, ..self@ }),
    {
        BybitBuilder { category: category.to_owned(), ..self }
    }

    /// Sets the API key.
    pub fn api_key(self, api_key: &str) -> (r: Self)
        ensures
            r@ == (BybitBuilderView { api_key: api_key@, ..self@ }),
    {
        BybitBuilder { api_key: api_key.to_owned(), ..self }
    }

    /// Sets the secret key.
    pub fn secret(self, secret: &str) -> (r: Self)
        ensures
            r@ == (BybitBuilderView { secret: secret@, ..self@ }),
    {
        BybitBuilder { secret: secret.to_owned(), ..self }
    }

    /// Sets the order prefix, which tells apart the orders submitted through this connector.
    pub fn order_prefix(self, order_prefix: &str) -> (r: Self)
        ensures
            r@ == (BybitBuilderView { order_prefix: order_prefix@, ..self@ }),
    {
        BybitBuilder { order_prefix: order_prefix.to_owned(), ..self }
    }

    /// Adds a topic to receive through the public WebSocket stream.
    pub fn add_topic(self, topic: &str) -> (r: Self)
        ensures
            r@ == (BybitBuilderView { topics: self@.topics.insert(topic@), ..self@ }),
    {
        let mut this = self;
        insert_string(&mut this.topics, topic.to_owned());
        this
    }

    /// Subscribes to the `orderbook.1` and `orderbook.500` topics, for a wide depth and the most
    /// frequent updates; a market depth that fuses streams should be used with them.
    pub fn subscribe_multiple_depth(self) -> (r: Self)
        ensures
            r@ == (BybitBuilderView {
                topics: self@.topics.insert("orderbook.1"@).insert("orderbook.500"@),
                ..self@
            }),
    {
        let mut this = self;
        insert_string(&mut this.topics, "orderbook.1".to_owned());
        insert_string(&mut this.topics, "orderbook.500".to_owned());
        this
    }

    /// Every setting that `build` checks is set.
    pub open spec fn complete(v: BybitBuilderView) -> bool {
        &&& v.public_url.len() != 0
        &&& v.private_url.len() != 0
        &&& v.trade_url.len() != 0
        &&& v.rest_url.len() != 0
        &&& v.api_key.len() != 0
        &&& v.secret.len() != 0
        &&& v.category.len() != 0
    }

    /// Checks that the public, private, trade and REST URLs, the API key, the secret and the
    /// category are set, in this order, and returns the connector's settings; the first one
    /// missing is an error. The order prefix must not hold `/` nor take more than 8 bytes.
    pub fn build(self) -> (r: Result<BybitParams, BuildError>)
        requires
            Self::complete(self@) ==> !self@.order_prefix.contains('/') && encode_utf8(
                self@.order_prefix,
            ).len() <= 8,
        ensures
            self@.public_url.len() == 0 ==> (r matches Err(BuildError::BuilderIncomplete(f)) && f@
                == "public_url"@),
            self@.public_url.len() != 0 && self@.private_url.len() == 0 ==> (r matches Err(
                BuildError::BuilderIncomplete(f),
            ) && f@ == "private_url"@),
            self@.public_url.len() != 0 && self@.private_url.len() != 0 && self@.trade_url.len()
                == 0 ==> (r matches Err(BuildError::BuilderIncomplete(f)) && f@ == "trade_url"@),
            self@.public_url.len() != 0 && self@.private_url.len() != 0 && self@.trade_url.len()
                != 0 && self@.rest_url.len() == 0 ==> (r matches Err(
                BuildError::BuilderIncomplete(f),
            ) && f@ == "rest_url"@),
            self@.public_url.len() != 0 && self@.private_url.len() != 0 && self@.trade_url.len()
                != 0 && self@.rest_url.len() != 0 && self@.api_key.len() == 0 ==> (r matches Err(
                BuildError::BuilderIncomplete(f),
            ) && f@ == "api_key"@),
            self@.public_url.len() != 0 && self@.private_url.len() != 0 && self@.trade_url.len()
                != 0 && self@.rest_url.len() != 0 && self@.api_key.len() != 0 && self@.secret.len()
                == 0 ==> (r matches Err(BuildError::BuilderIncomplete(f)) && f@ == "secret"@),
            self@.public_url.len() != 0 && self@.private_url.len() != 0 && self@.trade_url.len()
                != 0 && self@.rest_url.len() != 0 && self@.api_key.len() != 0 && self@.secret.len()
                != 0 && self@.category.len() == 0 ==> (r matches Err(
                BuildError::BuilderIncomplete(f),
            ) && f@ == "category"@),
            Self::complete(self@) ==> (r matches Ok(p) && p.public_url@ == self@.public_url
                && p.private_url@ == self@.private_url && p.trade_url@ == self@.trade_url
                && p.rest_url@ == self@.rest_url && string_set(p.topics@) == self@.topics
                && p.api_key@ == self@.api_key && p.secret@ == self@.secret && p.category@
                == self@.category && p.order_prefix@ == self@.order_prefix),
    {
        if self.public_url.as_str().is_empty() {
            return Err(BuildError::BuilderIncomplete("public_url"));
        }
        if self.private_url.as_str().is_empty() {
            return Err(BuildError::BuilderIncomplete("private_url"));
        }
        if self.trade_url.as_str().is_empty() {
            return Err(BuildError::BuilderIncomplete("trade_url"));
        }
        if self.rest_url.as_str().is_empty() {
            return Err(BuildError::BuilderIncomplete("rest_url"));
        }
        if self.api_key.as_str().is_empty() {
            return Err(BuildError::BuilderIncomplete("api_key"));
        }
        if self.secret.as_str().is_empty() {
            return Err(BuildError::BuilderIncomplete("secret"));
        }
        if self.category.as_str().is_empty() {
            return Err(BuildError::BuilderIncomplete("category"));
        }
        Ok(
            BybitParams {
                public_url: self.public_url,
                private_url: self.private_url,
                trade_url: self.trade_url,
                rest_url: self.rest_url,
                topics: self.topics,
                api_key: self.api_key,
                secret: self.secret,
                category: self.category,
                order_prefix: self.order_prefix,
            },
        )
    }
}


impl BybitParams {
    /// The topics the public stream subscribes to: the order book and the public trades, then
    /// the topics added to the builder.
    pub fn public_topics(&self) -> (r: Vec<String>)
        ensures
            views(r@) == seq!["orderbook.50"@, "publicTrade"@] + views(self.topics@),
    {
        let mut topics: Vec<String> = vec!["orderbook.50".to_owned(), "publicTrade".to_owned()];
        let ghost base = views(topics@);
        assert(base =~= seq!["orderbook.50"@, "publicTrade"@]);
        let mut i: usize = 0;
        while i < self.topics.len()
            invariant
                i <= self.topics@.len(),
                base == seq!["orderbook.50"@, "publicTrade"@],
                views(topics@) == base + views(self.topics@).take(i as int),
            decreases self.topics@.len() - i,
        {
            let topic = self.topics[i].clone();
            assert(topic@ == views(self.topics@)[i as int]);
            proof {
                lemma_views_push(topics@, topic);
            }
            topics.push(topic);
            assert(views(topics@) =~= base + views(self.topics@).take(i + 1));
            i = i + 1;
        }
        assert(views(self.topics@).take(self.topics@.len() as int) =~= views(self.topics@));
        topics
    }
}

} // verus!
