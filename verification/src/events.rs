//! The bodies of the messages of the event feed. They are plain data: the
//! relay passes messages on as they come, and these types name what a
//! subscriber finds inside.

use vstd::prelude::*;

verus! {

/// Makes `serde_json::Map` known as a type. Nothing is said of what a value
/// of it holds: a reward carries such objects along as they came.
#[verifier::external_type_specification]
#[verifier::external_body]
#[verifier::reject_recursive_types(K)]
#[verifier::reject_recursive_types(V)]
pub struct ExJsonMap<K, V>(serde_json::map::Map<K, V>);

/// Makes `serde_json::Value` known as a type. Nothing is said of what a
/// value of it holds.
#[verifier::external_type_specification]
#[verifier::external_body]
pub struct ExJsonValue(serde_json::Value);

/// The feed's answer to a request.
#[derive(Debug)]
pub struct TwitchMessageResponse {
    /// The kind of frame.
    pub kind: String,
    /// What went wrong, or the empty text.
    pub error: String,
    /// The nonce of the request that is answered.
    pub nonce: String,
}

/// Channel follow event
#[derive(Debug)]
pub struct FollowEvent {
    /// Display name
    pub display_name: String,
    /// Username
    pub username: String,
    /// User id
    pub user_id: String,
}

/// Channel subscription, of the topic `channel-subscribe-events-v1`.
#[derive(Debug)]
pub struct SubscribeEvent {
    /// Display name of the person who subscribed or sent a gift
    /// subscription. Absent on anonymous gifts.
    pub display_name: Option<String>,
    /// Sub plan id: Prime, 1000, 2000 or 3000
    pub sub_plan: String,
    /// Deprecated by Twitch, use `cumulative_months` instead
    pub months: Option<usize>,
    /// Cumulative number of tenure months of the subscription
    pub cumulative_months: Option<usize>,
    /// The most recent (and contiguous) subscription tenure streak in the
    /// channel
    pub streak_months: Option<usize>,
    /// Event type associated with the subscription product: sub, resub,
    /// subgift, anonsubgift, resubgift or anonresubgift
    pub context: String,
    /// If this sub message was caused by a gift subscription
    pub is_gift: bool,
    /// Display name of the person who received the subscription gift
    pub recipient_display_name: Option<String>,
    /// Number of months gifted as part of a single, multi-month gift, or
    /// number of months purchased as part of a multi-month subscription
    pub multi_month_duration: Option<usize>,
    /// The body of the user-entered resub message
    pub sub_message: SubscribeMessage,
}

/// The message that a subscriber entered.
#[derive(Debug)]
pub struct SubscribeMessage {
    pub message: String,
}

/// Channel points event, of the topic `channel-points-channel-v1`.
#[derive(Debug)]
pub enum ChannelPointsEvent {
    /// A reward was redeemed.
    RewardRedeemed { timestamp: String, redemption: ChannelPoints },
    /// Any other kind of event.
    Unknown,
}

/// One redemption of a reward.
#[derive(Debug)]
pub struct ChannelPoints {
    pub id: String,
    pub user: User,
    pub channel_id: String,
    pub redeemed_at: String,
    pub reward: Reward,
    pub status: String,
    pub user_input: Option<String>,
}

/// A reward that viewers can redeem.
#[derive(Debug)]
pub struct Reward {
    pub id: String,
    pub channel_id: String,
    pub title: String,
    pub prompt: String,
    pub cost: usize,
    pub is_user_input_required: bool,
    pub is_sub_only: bool,
    pub image: Option<serde_json::map::Map<String, serde_json::Value>>,
    pub default_image: Option<serde_json::map::Map<String, serde_json::Value>>,
    pub background_color: String,
    pub is_enabled: bool,
    pub is_paused: bool,
    pub is_in_stock: bool,
    pub max_per_stream: Option<serde_json::map::Map<String, serde_json::Value>>,
    pub should_redemptions_skip_request_queue: bool,
}

/// The user who redeemed a reward.
#[derive(Debug)]
pub struct User {
    pub id: String,
    pub login: String,
    pub display_name: String,
}

/// Bits event, of the topics `channel-bits-events-v1` and
/// `channel-bits-events-v2`.
#[derive(Debug)]
pub struct BitsEvent {
    pub data: BitsData,
}

/// What a bits event holds.
#[derive(Debug)]
pub struct BitsData {
    /// Login name of the person who used the Bits, absent if anonymous
    pub user_name: Option<String>,
    /// Chat message sent with the cheer.
    pub chat_message: Option<String>,
    /// Number of bits used.
    pub bits_used: usize,
}

} // verus!
