use vstd::prelude::*;

verus! {

/// Where the sign-in flow stands.
#[derive(PartialEq, Eq, Structural, Clone, Copy, Debug)]
pub enum AuthPhase {
    Unauthorized,
    WaitingForDeviceCode,
    WaitingForAuth,
    FailedAuth,
    Authorized,
}

/// The sign-in state shown to the user: the phase, the code to enter while
/// the device flow waits, and the credential once there is one.
#[derive(Debug)]
pub struct AuthState {
    pub phase: AuthPhase,
    pub device_code: String,
    pub token: Option<UserToken>,
}

impl AuthState {
    /// The state before any sign-in.
    pub fn new() -> (r: AuthState)
        ensures
            r.phase == AuthPhase::Unauthorized,
            r.device_code@.len() == 0,
            r.token is None,
    {
        AuthState { phase: AuthPhase::Unauthorized, device_code: String::new(), token: None }
    }

    /// The device flow has started: the user must enter `user_code`.
    pub fn waiting_for_auth(&mut self, user_code: String)
        ensures
            final(self).phase == AuthPhase::WaitingForAuth,
            final(self).device_code == user_code,
            final(self).token == old(self).token,
    {
        self.phase = AuthPhase::WaitingForAuth;
        self.device_code = user_code;
    }

    /// The user signed in and `token` was obtained.
    pub fn authorized(&mut self, token: UserToken)
        ensures
            final(self).phase == AuthPhase::Authorized,
            final(self).token == Some(token),
            final(self).device_code == old(self).device_code,
    {
        self.phase = AuthPhase::Authorized;
        self.token = Some(token);
    }

    /// The credential was lost (a failed device flow, validation or
    /// refresh): the user must sign in again.
    pub fn needs_reauthorization(&mut self)
        ensures
            final(self).phase == AuthPhase::FailedAuth,
            final(self).token is None,
            final(self).device_code@.len() == 0,
    {
        self.phase = AuthPhase::FailedAuth;
        self.token = None;
        self.device_code = String::new();
    }
}

/// A bearer credential as the library holds it.
#[derive(Debug)]
pub struct UserToken {
    /// The access token used to authenticate requests with
    pub access_token: String,
    pub client_id: String,
    /// Username of user associated with this token
    pub login: String,
    /// User ID of the user associated with this token
    pub user_id: String,
    /// The refresh token used to extend the life of this user token
    pub refresh_token: Option<String>,
    /// Seconds of validity left when the credential was read.
    pub expires_in: u64,
}

impl Clone for UserToken {
    fn clone(&self) -> (r: Self)
        ensures
            r == *self,
    {
        UserToken {
            access_token: self.access_token.clone(),
            client_id: self.client_id.clone(),
            login: self.login.clone(),
            user_id: self.user_id.clone(),
            refresh_token: match &self.refresh_token {
                Some(t) => Some(t.clone()),
                None => None,
            },
            expires_in: self.expires_in,
        }
    }
}

/// A live stream of a followed channel.
#[derive(Clone, Debug)]
pub struct Stream {
    /// ID of the game being played on the stream.
    pub game_id: String,
    /// Name of the game being played.
    pub game_name: String,
    /// Stream ID.
    pub id: String,
    /// Stream language.
    pub language: String,
    /// Whether the broadcaster marked the channel as mature.
    pub is_mature: bool,
    /// UTC timestamp.
    pub started_at: String,
    pub tags: Vec<String>,
    /// Thumbnail URL of the stream, with `{width}` and `{height}` to fill in.
    pub thumbnail_url: String,
    /// Stream title.
    pub title: String,
    /// ID of the user who is streaming.
    pub user_id: String,
    /// Display name corresponding to user_id.
    pub user_name: String,
    /// Login of the user who is streaming.
    pub user_login: String,
    /// Number of viewers watching the stream at the time of the query.
    pub viewer_count: usize,
}

/// A channel the user follows.
#[derive(Clone, Debug)]
pub struct Broadcaster {
    /// An ID that uniquely identifies the broadcaster.
    pub id: String,
    /// The broadcaster's login name.
    pub login: String,
    /// The broadcaster's display name.
    pub display_name: String,
    pub profile_image_url: String,
    pub offline_image_url: String,
    pub description: String,
    pub created_at: String,
}

/// What a channel's owner has set about it.
#[derive(Clone, Debug)]
pub struct ChannelInfo {
    /// User ID of this channel owner
    pub broadcaster_id: String,
    /// User login of this channel owner
    pub broadcaster_login: String,
    /// User display name of this channel owner
    pub broadcaster_name: String,
    /// Current game ID being played on the channel
    pub game_id: String,
    /// Name of the game being played on the channel
    pub game_name: String,
    /// Language of the channel
    pub broadcaster_language: String,
    /// Title of the stream
    pub title: String,
    /// Description of the stream
    pub description: String,
    /// Stream delay in seconds; accurate only for a partnered broadcaster's own token.
    pub delay: i64,
    /// The tags applied to the channel.
    pub tags: Vec<String>,
    /// Whether the channel has branded content.
    pub is_branded_content: bool,
}

/// A chat badge shown beside a chatter's name.
#[derive(Clone, Debug)]
pub struct Badge {
    /// The set the badge belongs to, such as Bits or Subscriber.
    pub set_id: String,
    /// The version of the badge within its set.
    pub id: String,
    /// Extra data, such as the months a subscriber has been subscribed.
    pub info: String,
}

/// The kind of a chat message.
#[derive(PartialEq, Eq, Structural, Clone, Copy, Debug)]
pub enum ChannelMessageType {
    /// An Unknown Message Type
    Unknown,
    /// A regular text message
    Text,
    /// A highlighted message with channel points
    ChannelPointsHighlighted,
    /// A message sent with channel points during sub-only mode
    ChannelPointsSubOnly,
    /// A first message from a user
    UserIntro,
    /// A gigantified emote
    PowerUpsGigantifiedEmote,
    /// A message sent with effects
    PowerUpsMessageEffect,
}

/// A chat message as the interface shows it.
#[derive(Clone, Debug)]
pub struct ChannelMessage {
    pub ts: String,
    /// The raw payload, as JSON.
    pub payload: String,
    /// The user ID of the user that sent the message.
    pub chatter_user_id: String,
    /// The user name of the user that sent the message.
    pub chatter_user_name: String,
    /// A UUID that identifies the message.
    pub message_id: String,
    pub text: String,
    /// The type of message.
    pub message_type: ChannelMessageType,
    /// List of chat badges.
    pub badges: Vec<Badge>,
    /// The color of the user's name, `#RRGGBB`, or empty if never set.
    pub color: String,
    /// A stable index that the interface can use.
    pub index: usize,
}

} // verus!
