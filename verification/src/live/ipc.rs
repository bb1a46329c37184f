//! Settings of the shared-memory channels that connect bots and connectors.
use vstd::prelude::*;

verus! {

/// The largest message payload, in bytes.
pub const MAX_PAYLOAD_SIZE: usize = 512;

/// The default largest number of bots that a connector serves.
pub const MAX_BOTS_PER_CONNECTOR: usize = 200;

/// The default number of messages a subscriber buffers.
pub const CHANNEL_BUFFER_SIZE: usize = 10000;

/// The header attached to each message: the sender's id and the payload length.
#[derive(Default, Debug, Clone, Copy)]
pub struct CustomHeader {
    pub id: u64,
    pub len: usize,
}

/// The channel settings.
#[derive(Debug, Clone, Copy)]
pub struct ChannelConfig {
    pub buffer_size: usize,
    pub max_bots: usize,
}

impl Default for ChannelConfig {
    fn default() -> (r: Self)
        ensures
            r.buffer_size == CHANNEL_BUFFER_SIZE,
            r.max_bots == MAX_BOTS_PER_CONNECTOR,
    {
        ChannelConfig { buffer_size: CHANNEL_BUFFER_SIZE, max_bots: MAX_BOTS_PER_CONNECTOR }
    }
}

impl ChannelConfig {
    /// The configuration read from a file when it could be read and parsed, the defaults
    /// otherwise.
    pub fn or_default(loaded: Option<ChannelConfig>) -> (r: Self)
        ensures
            match loaded {
                Some(c) => r == c,
                None => r.buffer_size == CHANNEL_BUFFER_SIZE && r.max_bots == MAX_BOTS_PER_CONNECTOR,
            },
    {
        match loaded {
            Some(c) => c,
            None => ChannelConfig::default(),
        }
    }
}

/// Builder of the channel between bots and a connector.
pub struct IceoryxBuilder {
    name: String,
    bot: bool,
}

impl IceoryxBuilder {
    /// Constructs a builder for the channel of the given name, on the bot's end.
    pub fn new(name: &str) -> (r: Self)
        ensures
            r.name()@ == name@,
            r.is_bot(),
    {
        Self { name: name.to_owned(), bot: true }
    }

    /// The channel's name.
    pub closed spec fn name(&self) -> String {
        self.name
    }

    /// The builder is on the bot's end of the channel.
    pub closed spec fn is_bot(&self) -> bool {
        self.bot
    }

    /// Sets whether the builder is on the bot's end of the channel.
    pub fn bot(self, bot: bool) -> (r: Self)
        ensures
            r.name()@ == self.name()@,
            r.is_bot() == bot,
    {
        Self { bot, ..self }
    }

    /// Returns the channel's name.
    pub fn get_name(&self) -> (r: &str)
        ensures
            r@ == self.name()@,
    {
        self.name.as_str()
    }

    /// Returns whether the builder is on the bot's end of the channel.
    pub fn get_bot(&self) -> (r: bool)
        ensures
            r == self.is_bot(),
    {
        self.bot
    }

    /// The name of the service a receiver subscribes to: messages to the bot on the bot's end,
    /// messages from the bots on the connector's end.
    pub fn receiver_service_name(&self) -> (r: String)
        ensures
            r@ == self.name()@ + (if self.is_bot() {
                "/ToBot"@
            } else {
                "/FromBot"@
            }),
    {
        let mut s = self.name.clone();
        if self.bot {
            s.append("/ToBot");
        } else {
            s.append("/FromBot");
        }
        s
    }

    /// The name of the service a sender publishes to: messages from the bot on the bot's end,
    /// messages to the bots on the connector's end.
    pub fn sender_service_name(&self) -> (r: String)
        ensures
            r@ == self.name()@ + (if self.is_bot() {
                "/FromBot"@
            } else {
                "/ToBot"@
            }),
    {
        let mut s = self.name.clone();
        if self.bot {
            s.append("/FromBot");
        } else {
            s.append("/ToBot");
        }
        s
    }
}

} // verus!
