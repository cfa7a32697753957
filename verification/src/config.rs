//! The settings of the relay and the rules they must meet.
//!
//! The program reads the settings from wherever it keeps them and hands
//! them over as text; a setting that is not there is handed over as `None`.

use crate::text::{split, split_on, to_chars, to_text, trim, trimmed};
use vstd::prelude::*;
use vstd::string::StringExecFns;

verus! {

broadcast use vstd::string::group_string_axioms;

/// The most characters that a channel name may have.
pub const CHANNEL_NAME_MAX: usize = 200;

/// What can be wrong with a channel name.
#[derive(Debug, PartialEq, Eq, Structural, Clone, Copy)]
pub enum ChannelFault {
    /// The name is empty.
    Empty,
    /// The name is only `#`.
    NameMissing,
    /// The name does not start with `#`.
    HashMissing,
    /// The name is longer than `CHANNEL_NAME_MAX` characters.
    TooLong,
}

impl ChannelFault {
    /// The fault in words.
    pub open spec fn message(self) -> Seq<char> {
        match self {
            ChannelFault::Empty => "Channel name can not be empty"@,
            ChannelFault::NameMissing =>
                "Channel name missing, specify a channel like so: #channel"@,
            ChannelFault::HashMissing =>
                "Channel name has to start with a # char, e.g #mychannel"@,
            ChannelFault::TooLong => "Channel name can not be longer than 200 characters"@,
        }
    }
}

/// The first rule that a channel name breaks, if it breaks one.
pub open spec fn channel_fault(name: Seq<char>) -> Option<ChannelFault> {
    if name.len() == 0 {
        Some(ChannelFault::Empty)
    } else if name =~= seq!['#'] {
        Some(ChannelFault::NameMissing)
    } else if name[0] != '#' {
        Some(ChannelFault::HashMissing)
    } else if name.len() > CHANNEL_NAME_MAX {
        Some(ChannelFault::TooLong)
    } else {
        None
    }
}

/// The channel names written in a list: its pieces between spaces and
/// commas, each trimmed.
pub open spec fn channel_names(list: Seq<char>) -> Seq<Seq<char>> {
    let pieces = split_on(list, seq![' ', ',']);
    Seq::new(pieces.len(), |i: int| trimmed(pieces[i]))
}

/// Index of the first of `names` that breaks a rule, or their number when
/// none does.
pub open spec fn first_invalid(names: Seq<Seq<char>>) -> int
    decreases names.len(),
{
    if names.len() == 0 {
        0
    } else if channel_fault(names.first()) is Some {
        0
    } else {
        1 + first_invalid(names.drop_first())
    }
}

/// Why settings were refused, as mathematical values.
pub enum ConfigErrorView {
    ChannelIdMissing,
    TokenMissing,
    NickMissing,
    ChannelsMissing,
    InvalidChannel { name: Seq<char>, fault: ChannelFault },
}

/// Settings as mathematical values.
pub struct ConfigView {
    pub channel_id: Seq<char>,
    pub token: Seq<char>,
    pub nick: Seq<char>,
    pub irc_channels: Seq<Seq<char>>,
}

/// The text of a setting, if it was given.
pub open spec fn given(setting: Option<String>) -> Option<Seq<char>> {
    match setting {
        Some(s) => Some(s@),
        None => None,
    }
}

/// What the given settings make: the configuration, or the first thing
/// that is wrong with them. The settings are looked at in the order of the
/// parameters, the channel names in the order in which they are written.
pub open spec fn checked(
    channel_id: Option<Seq<char>>,
    token: Option<Seq<char>>,
    nick: Option<Seq<char>>,
    irc_channels: Option<Seq<char>>,
) -> Result<ConfigView, ConfigErrorView> {
    if channel_id is None {
        Err(ConfigErrorView::ChannelIdMissing)
    } else if token is None {
        Err(ConfigErrorView::TokenMissing)
    } else if nick is None {
        Err(ConfigErrorView::NickMissing)
    } else if irc_channels is None {
        Err(ConfigErrorView::ChannelsMissing)
    } else {
        let names = channel_names(irc_channels->0);
        let bad = first_invalid(names);
        if 0 <= bad < names.len() {
            Err(
                ConfigErrorView::InvalidChannel {
                    name: names[bad],
                    fault: channel_fault(names[bad])->0,
                },
            )
        } else {
            Ok(
                ConfigView {
                    channel_id: channel_id->0,
                    token: token->0,
                    nick: nick->0,
                    irc_channels: names,
                },
            )
        }
    }
}

/// An index with a faulty name and none before it is the first invalid one.
pub proof fn lemma_first_invalid_is(names: Seq<Seq<char>>, k: int)
    requires
        0 <= k <= names.len(),
        k < names.len() ==> channel_fault(names[k]) is Some,
        forall|i: int| 0 <= i < k ==> channel_fault(#[trigger] names[i]) is None,
    ensures
        first_invalid(names) == k,
    decreases k,
{
    if k > 0 {
        let rest = names.drop_first();
        assert(channel_fault(names[0]) is None);
        assert forall|i: int| 0 <= i < k - 1 implies channel_fault(#[trigger] rest[i]) is None by {
            assert(rest[i] == names[i + 1]);
        }
        lemma_first_invalid_is(rest, k - 1);
    }
}

/// The settings of the relay.
#[derive(Debug)]
pub struct Config {
    /// The channel whose events are listened to.
    pub channel_id: String,
    /// The token that opens both feeds.
    pub token: String,
    /// The nickname on the chat feed.
    pub nick: String,
    /// The chat channels to join, each with its leading `#`.
    pub irc_channels: Vec<String>,
}

impl View for Config {
    type V = ConfigView;

    open spec fn view(&self) -> ConfigView {
        ConfigView {
            channel_id: self.channel_id@,
            token: self.token@,
            nick: self.nick@,
            irc_channels: Seq::new(self.irc_channels@.len(), |i: int| self.irc_channels@[i]@),
        }
    }
}

/// Why settings were refused.
#[derive(Debug)]
pub enum ConfigError {
    /// No channel id was given.
    ChannelIdMissing,
    /// No token was given.
    TokenMissing,
    /// No nickname was given.
    NickMissing,
    /// No list of chat channels was given.
    ChannelsMissing,
    /// A chat channel name breaks a rule.
    InvalidChannel { name: String, fault: ChannelFault },
}

impl View for ConfigError {
    type V = ConfigErrorView;

    open spec fn view(&self) -> ConfigErrorView {
        match self {
            ConfigError::ChannelIdMissing => ConfigErrorView::ChannelIdMissing,
            ConfigError::TokenMissing => ConfigErrorView::TokenMissing,
            ConfigError::NickMissing => ConfigErrorView::NickMissing,
            ConfigError::ChannelsMissing => ConfigErrorView::ChannelsMissing,
            ConfigError::InvalidChannel { name, fault } => ConfigErrorView::InvalidChannel {
                name: name@,
                fault: *fault,
            },
        }
    }
}

impl ConfigErrorView {
    /// The error in words.
    pub open spec fn message(self) -> Seq<char> {
        match self {
            ConfigErrorView::ChannelIdMissing => "Channel id missing"@,
            ConfigErrorView::TokenMissing => "OAuth token missing"@,
            ConfigErrorView::NickMissing => "Nick is missing"@,
            ConfigErrorView::ChannelsMissing => "Channels are missing"@,
            ConfigErrorView::InvalidChannel { name, fault } => "Invalid irc channel name \""@
                + name + "\": "@ + fault.message(),
        }
    }
}

impl ChannelFault {
    /// The fault in words.
    pub fn to_string(&self) -> (s: String)
        ensures
            s@ == self.message(),
    {
        match self {
            ChannelFault::Empty => "Channel name can not be empty".to_owned(),
            ChannelFault::NameMissing =>
                "Channel name missing, specify a channel like so: #channel".to_owned(),
            ChannelFault::HashMissing =>
                "Channel name has to start with a # char, e.g #mychannel".to_owned(),
            ChannelFault::TooLong => "Channel name can not be longer than 200 characters".to_owned(),
        }
    }
}

impl ConfigError {
    /// The error in words.
    pub fn to_string(&self) -> (s: String)
        ensures
            s@ == self@.message(),
    {
        match self {
            ConfigError::ChannelIdMissing => "Channel id missing".to_owned(),
            ConfigError::TokenMissing => "OAuth token missing".to_owned(),
            ConfigError::NickMissing => "Nick is missing".to_owned(),
            ConfigError::ChannelsMissing => "Channels are missing".to_owned(),
            ConfigError::InvalidChannel { name, fault } => {
                let mut s = "Invalid irc channel name \"".to_owned();
                s.append(name.as_str());
                s.append("\": ");
                let reason = fault.to_string();
                s.append(reason.as_str());
                s
            },
        }
    }
}

/// The first rule that the characters of a channel name break.
pub fn check_channel(name: &[char]) -> (r: Option<ChannelFault>)
    ensures
        r == channel_fault(name@),
{
    if name.len() == 0 {
        Some(ChannelFault::Empty)
    } else if name.len() == 1 && name[0] == '#' {
        assert(name@ =~= seq!['#']);
        Some(ChannelFault::NameMissing)
    } else if name[0] != '#' {
        Some(ChannelFault::HashMissing)
    } else if name.len() > CHANNEL_NAME_MAX {
        Some(ChannelFault::TooLong)
    } else {
        None
    }
}

/// Says what is wrong with a channel name, or nothing if it is in order.
pub fn validate_channel(channel: &str) -> (r: Option<String>)
    ensures
        match channel_fault(channel@) {
            Some(fault) => r matches Some(words) && words@ == fault.message(),
            None => r is None,
        },
{
    let chars = to_chars(channel);
    match check_channel(chars.as_slice()) {
        Some(fault) => Some(fault.to_string()),
        None => None,
    }
}

impl Config {
    /// Checks the settings and keeps them. The list of chat channels is cut
    /// at spaces and commas and each name is trimmed; every name must then
    /// be in order.
    pub fn new(
        channel_id: Option<String>,
        token: Option<String>,
        nick: Option<String>,
        irc_channels: Option<String>,
    ) -> (r: Result<Config, ConfigError>)
        ensures
            match r {
                Ok(config) => Ok::<ConfigView, ConfigErrorView>(config@),
                Err(error) => Err(error@),
            } == checked(given(channel_id), given(token), given(nick), given(irc_channels)),
    {
        let id = match channel_id {
            Some(s) => s,
            None => {
                return Err(ConfigError::ChannelIdMissing);
            },
        };
        let secret = match token {
            Some(s) => s,
            None => {
                return Err(ConfigError::TokenMissing);
            },
        };
        let name = match nick {
            Some(s) => s,
            None => {
                return Err(ConfigError::NickMissing);
            },
        };
        let list = match irc_channels {
            Some(s) => s,
            None => {
                return Err(ConfigError::ChannelsMissing);
            },
        };
        let chars = to_chars(list.as_str());
        let separators: Vec<char> = vec![' ', ','];
        assert(separators@ =~= seq![' ', ',']);
        let pieces = split(chars.as_slice(), separators.as_slice());
        let ghost names = channel_names(list@);
        let mut channels: Vec<String> = Vec::new();
        let mut i: usize = 0;
        while i < pieces.len()
            invariant
                given(channel_id) is Some,
                given(token) is Some,
                given(nick) is Some,
                given(irc_channels) == Some(list@),
                names == channel_names(list@),
                i <= pieces@.len() == names.len(),
                forall|j: int| 0 <= j < pieces@.len() ==> trimmed((#[trigger] pieces@[j])@) == names[j],
                channels@.len() == i,
                forall|j: int| 0 <= j < i ==> (#[trigger] channels@[j])@ == names[j],
                forall|j: int| 0 <= j < i ==> channel_fault(#[trigger] names[j]) is None,
            decreases pieces@.len() - i,
        {
            let channel = trim(pieces[i]);
            match check_channel(channel) {
                Some(fault) => {
                    proof {
                        assert(channel@ == trimmed(pieces@[i as int]@));
                        assert(channel_fault(names[i as int]) == Some(fault));
                        lemma_first_invalid_is(names, i as int);
                    }
                    return Err(ConfigError::InvalidChannel { name: to_text(channel), fault });
                },
                None => {},
            }
            channels.push(to_text(channel));
            i += 1;
        }
        proof {
            lemma_first_invalid_is(names, names.len() as int);
        }
        let config = Config { channel_id: id, token: secret, nick: name, irc_channels: channels };
        assert(config@.irc_channels =~= names);
        Ok(config)
    }
}

} // verus!
