//! Configuration of the Binance USD-M Futures connector.
use vstd::prelude::*;

use crate::connector::{append_joined, insert_string, joined, lemma_views_push, string_set, views};
use crate::types::BuildError;

verus! {

/// A Binance Futures endpoint.
#[derive(Clone, Debug)]
pub enum Endpoint {
    Public,
    Private,
    Testnet,
    LowLatency,
    /// A URL given by the user.
    Custom(String),
}

impl From<String> for Endpoint {
    fn from(value: String) -> (r: Self) {
        Endpoint::Custom(value)
    }
}

impl vstd::std_specs::convert::FromSpecImpl<String> for Endpoint {
    open spec fn obeys_from_spec() -> bool {
        true
    }

    open spec fn from_spec(value: String) -> Self {
        Endpoint::Custom(value)
    }
}

/// The WebSocket stream URL of an endpoint.
pub open spec fn stream_url_of(endpoint: Endpoint) -> Seq<char> {
    match endpoint {
        Endpoint::Public => "wss://fstream.binance.com"@,
        Endpoint::Private => "wss://fstream-auth.binance.com"@,
        Endpoint::Testnet => "wss://fstream.binancefuture.com"@,
        Endpoint::LowLatency => "wss://fstream-mm.binance.com"@,
        Endpoint::Custom(url) => url@,
    }
}

/// The REST API URL of an endpoint.
pub open spec fn api_url_of(endpoint: Endpoint) -> Seq<char> {
    match endpoint {
        Endpoint::Public => "https://fapi.binance.com"@,
        Endpoint::Private => "https://fapi.binance.com"@,
        Endpoint::Testnet => "https://testnet.binancefuture.com"@,
        Endpoint::LowLatency => "https://fapi-mm.binance.com"@,
        Endpoint::Custom(url) => url@,
    }
}

/// The settings a [`BinanceFuturesBuilder`] has gathered.
pub struct BinanceFuturesBuilderView {
    pub stream_url: Seq<char>,
    pub api_url: Seq<char>,
    pub order_prefix: Seq<char>,
    pub api_key: Seq<char>,
    pub secret: Seq<char>,
    pub streams: Set<Seq<char>>,
}

/// The validated settings of a Binance Futures connector.
pub struct BinanceFuturesParams {
    pub url: String,
    pub prefix: String,
    pub api_url: String,
    pub api_key: String,
    pub secret: String,
    pub streams: Vec<String>,
}

/// Binance Futures USD-M connector builder.
pub struct BinanceFuturesBuilder {
    stream_url: String,
    api_url: String,
    order_prefix: String,
    api_key: String,
    secret: String,
    streams: Vec<String>,
}

impl View for BinanceFuturesBuilder {
    type V = BinanceFuturesBuilderView;

    closed spec fn view(&self) -> BinanceFuturesBuilderView {
        BinanceFuturesBuilderView {
            stream_url: self.stream_url@,
            api_url: self.api_url@,
            order_prefix: self.order_prefix@,
            api_key: self.api_key@,
            secret: self.secret@,
            streams: string_set(self.streams@),
        }
    }
}

impl BinanceFuturesBuilder {
    /// Constructs a builder with every setting empty.
    pub fn new() -> (r: Self)
        ensures
            r@.stream_url == Seq::<char>::empty(),
            r@.api_url == Seq::<char>::empty(),
            r@.order_prefix == Seq::<char>::empty(),
            r@.api_key == Seq::<char>::empty(),
            r@.secret == Seq::<char>::empty(),
            r@.streams == Set::<Seq<char>>::empty(),
    {
        let r = BinanceFuturesBuilder {
            stream_url: String::new(),
            api_url: String::new(),
            order_prefix: String::new(),
            api_key: String::new(),
            secret: String::new(),
            streams: Vec::new(),
        };
        assert(r@.streams =~= Set::<Seq<char>>::empty());
        r
    }

    /// Sets an endpoint to connect to; a custom endpoint is set with `stream_url` and `api_url`
    /// instead.
    pub fn endpoint(self, endpoint: Endpoint) -> (r: Self)
        requires
            !(endpoint is Custom),
        ensures
            r@ == (BinanceFuturesBuilderView {
                stream_url: stream_url_of(endpoint),
                api_url: api_url_of(endpoint),
                ..self@
            }),
    {
        let copy = match &endpoint {
            Endpoint::Public => Endpoint::Public,
            Endpoint::Private => Endpoint::Private,
            Endpoint::Testnet => Endpoint::Testnet,
            _ => Endpoint::LowLatency,
        };
        self.stream_url(copy).api_url(endpoint)
    }

    /// Sets the WebSocket streams endpoint URL.
    pub fn stream_url(self, endpoint: Endpoint) -> (r: Self)
        ensures
            r@ == (BinanceFuturesBuilderView { stream_url: stream_url_of(endpoint), ..self@ }),
    {
        let stream_url = match endpoint {
            Endpoint::Public => "wss://fstream.binance.com".to_owned(),
            Endpoint::Private => "wss://fstream-auth.binance.com".to_owned(),
            Endpoint::Testnet => "wss://fstream.binancefuture.com".to_owned(),
            Endpoint::LowLatency => "wss://fstream-mm.binance.com".to_owned(),
            Endpoint::Custom(url) => url,
        };
        BinanceFuturesBuilder { stream_url, ..self }
    }

    /// Sets the REST APIs endpoint URL.
    pub fn api_url(self, endpoint: Endpoint) -> (r: Self)
        ensures
            r@ == (BinanceFuturesBuilderView { api_url: api_url_of(endpoint), ..self@ }),
    {
        let api_url = match endpoint {
            Endpoint::Public => "https://fapi.binance.com".to_owned(),
            Endpoint::Private => "https://fapi.binance.com".to_owned(),
            Endpoint::Testnet => "https://testnet.binancefuture.com".to_owned(),
            Endpoint::LowLatency => "https://fapi-mm.binance.com".to_owned(),
            Endpoint::Custom(url) => url,
        };
        BinanceFuturesBuilder { api_url, ..self }
    }

    /// Sets the API key.
    pub fn api_key(self, api_key: &str) -> (r: Self)
        ensures
            r@ == (BinanceFuturesBuilderView { api_key: api_key@, ..self@ }),
    {
        BinanceFuturesBuilder { api_key: api_key.to_owned(), ..self }
    }

    /// Sets the secret key.
    pub fn secret(self, secret: &str) -> (r: Self)
        ensures
            r@ == (BinanceFuturesBuilderView { secret: secret@, ..self@ }),
    {
        BinanceFuturesBuilder { secret: secret.to_owned(), ..self }
    }

    /// Sets the order prefix, which tells apart the orders submitted through this connector.
    pub fn order_prefix(self, order_prefix: &str) -> (r: Self)
        ensures
            r@ == (BinanceFuturesBuilderView { order_prefix: order_prefix@, ..self@ }),
    {
        BinanceFuturesBuilder { order_prefix: order_prefix.to_owned(), ..self }
    }

    /// Adds a stream to receive through the WebSocket connection.
    pub fn add_stream(self, stream: &str) -> (r: Self)
        ensures
            r@ == (BinanceFuturesBuilderView { streams: self@.streams.insert(stream@), ..self@ }),
    {
        let mut this = self;
        insert_string(&mut this.streams, stream.to_owned());
        this
    }

    /// Checks that the stream URL, the API URL, the API key and the secret are set, in this
    /// order, and returns the connector's settings; the first one missing is an error.
    pub fn build(self) -> (r: Result<BinanceFuturesParams, BuildError>)
        ensures
            self@.stream_url.len() == 0 ==> (r matches Err(BuildError::BuilderIncomplete(f)) && f@
                == "stream_url"@),
            self@.stream_url.len() != 0 && self@.api_url.len() == 0 ==> (r matches Err(
                BuildError::BuilderIncomplete(f),
            ) && f@ == "api_url"@),
            self@.stream_url.len() != 0 && self@.api_url.len() != 0 && self@.api_key.len() == 0
                ==> (r matches Err(BuildError::BuilderIncomplete(f)) && f@ == "api_key"@),
            self@.stream_url.len() != 0 && self@.api_url.len() != 0 && self@.api_key.len() != 0
                && self@.secret.len() == 0 ==> (r matches Err(BuildError::BuilderIncomplete(f))
                && f@ == "secret"@),
            self@.stream_url.len() != 0 && self@.api_url.len() != 0 && self@.api_key.len() != 0
                && self@.secret.len() != 0 ==> (r matches Ok(p) && p.url@ == self@.stream_url
                && p.api_url@ == self@.api_url && p.prefix@ == self@.order_prefix && p.api_key@
                == self@.api_key && p.secret@ == self@.secret && string_set(p.streams@)
                == self@.streams),
    {
        if self.stream_url.as_str().is_empty() {
            return Err(BuildError::BuilderIncomplete("stream_url"));
        }
        if self.api_url.as_str().is_empty() {
            return Err(BuildError::BuilderIncomplete("api_url"));
        }
        if self.api_key.as_str().is_empty() {
            return Err(BuildError::BuilderIncomplete("api_key"));
        }
        if self.secret.as_str().is_empty() {
            return Err(BuildError::BuilderIncomplete("secret"));
        }
        Ok(
            BinanceFuturesParams {
                url: self.stream_url,
                prefix: self.order_prefix,
                api_url: self.api_url,
                api_key: self.api_key,
                secret: self.secret,
                streams: self.streams,
            },
        )
    }
}


/// What `str::to_lowercase` returns for the characters.
pub uninterp spec fn lowercase(s: Seq<char>) -> Seq<char>;

/// Calls `str::to_lowercase`, whose result is named [`lowercase`].
#[verifier::external_body]
fn to_lowercase(s: &str) -> (r: String)
    ensures
        r@ == lowercase(s@),
{
    s.to_lowercase()
}

/// The market data streams of a symbol: its depth updates and its trades.
pub open spec fn symbol_streams(symbol: Seq<char>) -> Seq<char> {
    lowercase(symbol) + "@depth@0ms/"@ + lowercase(symbol) + "@trade"@
}

/// The URL of the combined stream: the user data stream of the listen key, the market data
/// streams of each symbol, then the added streams, joined with `/`.
pub open spec fn combined_stream_url(
    base_url: Seq<char>,
    listen_key: Seq<char>,
    symbols: Seq<Seq<char>>,
    streams: Seq<Seq<char>>,
) -> Seq<char> {
    base_url + "/stream?streams="@ + listen_key + "/"@ + joined(
        symbols.map_values(|s: Seq<char>| symbol_streams(s)) + streams,
        '/',
    )
}

impl BinanceFuturesParams {
    /// The URL to connect to, over the symbols of the assets and the listen key of the user data
    /// stream.
    pub fn stream_url(&self, listen_key: &str, symbols: &Vec<String>) -> (r: String)
        ensures
            r@ == combined_stream_url(self.url@, listen_key@, views(symbols@), views(self.streams@)),
    {
        proof {
            reveal_strlit("@depth@0ms/");
            reveal_strlit("@trade");
            reveal_strlit("/");
        }
        let mut parts: Vec<String> = Vec::new();
        let ghost target = views(symbols@).map_values(|s: Seq<char>| symbol_streams(s));
        let mut i: usize = 0;
        while i < symbols.len()
            invariant
                i <= symbols@.len(),
                target == views(symbols@).map_values(|s: Seq<char>| symbol_streams(s)),
                views(parts@) == target.take(i as int),
            decreases symbols@.len() - i,
        {
            proof {
                reveal_strlit("@depth@0ms/");
                reveal_strlit("@trade");
            }
            let lower = to_lowercase(symbols[i].as_str());
            let mut part = lower.clone();
            assert(views(symbols@)[i as int] == symbols@[i as int]@);
            part.append("@depth@0ms/");
            part.append(lower.as_str());
            part.append("@trade");
            let ghost prev = parts@;
            proof {
                lemma_views_push(prev, part);
            }
            parts.push(part);
            assert(views(parts@) =~= target.take(i + 1));
            i = i + 1;
        }
        assert(target.take(symbols@.len() as int) =~= target);
        let ghost before = views(parts@);
        let mut j: usize = 0;
        while j < self.streams.len()
            invariant
                j <= self.streams@.len(),
                views(parts@) == before + views(self.streams@).take(j as int),
            decreases self.streams@.len() - j,
        {
            let stream = self.streams[j].clone();
            assert(stream@ == views(self.streams@)[j as int]);
            proof {
                lemma_views_push(parts@, stream);
            }
            parts.push(stream);
            assert(views(parts@) =~= before + views(self.streams@).take(j + 1));
            j = j + 1;
        }
        assert(views(self.streams@).take(self.streams@.len() as int) =~= views(self.streams@));
        let mut url = self.url.clone();
        url.append("/stream?streams=");
        url.append(listen_key);
        url.append("/");
        append_joined(&mut url, &parts, "/");
        url
    }
}

/// The step of a connection attempt to Binance Futures at which the attempt ends.
#[derive(Clone, Copy, Debug, PartialEq, Eq, Structural)]
pub enum ConnectionEnd {
    /// Cancelling the open orders of a symbol failed.
    CancelAllOrders,
    /// Fetching the positions failed.
    GetPositions,
    /// Starting the user data stream failed.
    StartUserDataStream,
    /// The stream connection ended, with an error or not.
    Stream,
}

/// The error count after a connection attempt ends at the step: every end counts one error,
/// except a failure to start the user data stream, which reconnects at once without counting
/// one. The count decides the wait before the next attempt, as
/// [`crate::connector::reconnect_delay_secs`] says.
pub fn errors_after(end: ConnectionEnd, error_count: u64) -> (r: u64)
    requires
        error_count < u64::MAX,
    ensures
        r == (if end == ConnectionEnd::StartUserDataStream {
            error_count
        } else {
            (error_count + 1) as u64
        }),
{
    match end {
        ConnectionEnd::StartUserDataStream => error_count,
        _ => error_count + 1,
    }
}

} // verus!
