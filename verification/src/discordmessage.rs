//! The closed set of gateway events and the payload snapshots they carry,
//! together with the mathematical view of each shape. Payloads are read-only
//! value snapshots copied verbatim from server frames; no relationship
//! between them is enforced, because the protocol itself guarantees none.

use vstd::prelude::*;

verus! {

/// Element-wise view of a sequence.
pub open spec fn views_of<T: View>(v: Seq<T>) -> Seq<T::V> {
    Seq::new(v.len(), |k: int| v[k]@)
}

/// View of an optional string field.
pub open spec fn view_opt_str(o: Option<String>) -> Option<Seq<char>> {
    match o {
        Some(s) => Some(s@),
        None => None,
    }
}

/// A custom or unicode emoji reference.
#[derive(Debug, Clone)]
pub struct Emoji {
    pub id: Option<String>,
    pub name: Option<String>,
}

/// Mathematical shape of [`Emoji`].
pub struct EmojiView {
    pub id: Option<Seq<char>>,
    pub name: Option<Seq<char>>,
}

impl View for Emoji {
    type V = EmojiView;

    open spec fn view(&self) -> EmojiView {
        EmojiView { id: view_opt_str(self.id), name: view_opt_str(self.name) }
    }
}

/// One reaction tally on a message.
#[derive(Debug)]
pub struct Reaction {
    pub count: u32,
    pub me: bool,
    pub emoji: Emoji,
}

/// Mathematical shape of [`Reaction`].
pub struct ReactionView {
    pub count: u32,
    pub me: bool,
    pub emoji: EmojiView,
}

impl View for Reaction {
    type V = ReactionView;

    open spec fn view(&self) -> ReactionView {
        ReactionView { count: self.count, me: self.me, emoji: self.emoji@ }
    }
}

/// A REST response that is either the expected payload or a rate-limit
/// notice telling the client how long to wait before retrying.
#[derive(Debug)]
pub enum RateLimited<T> {
    RateLimit { global: bool, message: String, retry_after: u32 },
    Success { data: T },
}

/// A message snapshot.
#[derive(Debug)]
pub struct Message {
    pub id: String,
    pub channel_id: String,
    pub guild_id: Option<String>,
    pub author: User,
    pub member: Option<GuildMember>,
    pub content: String,
    pub timestamp: String,
    pub edited_timestamp: Option<String>,
    pub tts: bool,
    pub reactions: Option<Vec<Reaction>>,
}

/// Mathematical shape of [`Message`].
pub struct MessageView {
    pub id: Seq<char>,
    pub channel_id: Seq<char>,
    pub guild_id: Option<Seq<char>>,
    pub author: UserView,
    pub member: Option<GuildMemberView>,
    pub content: Seq<char>,
    pub timestamp: Seq<char>,
    pub edited_timestamp: Option<Seq<char>>,
    pub tts: bool,
    pub reactions: Option<Seq<ReactionView>>,
}

impl View for Message {
    type V = MessageView;

    open spec fn view(&self) -> MessageView {
        MessageView {
            id: self.id@,
            channel_id: self.channel_id@,
            guild_id: view_opt_str(self.guild_id),
            author: self.author@,
            member: match self.member {
                Some(m) => Some(m@),
                None => None,
            },
            content: self.content@,
            timestamp: self.timestamp@,
            edited_timestamp: view_opt_str(self.edited_timestamp),
            tts: self.tts,
            reactions: match self.reactions {
                Some(rs) => Some(views_of(rs@)),
                None => None,
            },
        }
    }
}

/// Response to posting a message: the created message's id, or a
/// rate-limit notice.
#[derive(Debug)]
pub enum CreateMessageResponse {
    RateLimit { global: bool, message: String, retry_after: u32 },
    Success { id: String },
}

/// Mathematical shape of [`CreateMessageResponse`].
pub enum CreateMessageResponseView {
    RateLimit { global: bool, message: Seq<char>, retry_after: u32 },
    Success { id: Seq<char> },
}

impl View for CreateMessageResponse {
    type V = CreateMessageResponseView;

    open spec fn view(&self) -> CreateMessageResponseView {
        match self {
            CreateMessageResponse::RateLimit { global, message, retry_after } => (
            CreateMessageResponseView::RateLimit {
                global: *global,
                message: message@,
                retry_after: *retry_after,
            }),
            CreateMessageResponse::Success { id } => CreateMessageResponseView::Success {
                id: id@,
            },
        }
    }
}

/// A channel snapshot. The JSON key `type` is held in the field `kind`.
#[derive(Debug, Clone)]
pub struct Channel {
    pub id: String,
    pub kind: u32,
    pub guild_id: Option<String>,
    pub last_message_id: Option<String>,
    pub name: Option<String>,
    pub topic: Option<String>,
}

/// Mathematical shape of [`Channel`].
pub struct ChannelView {
    pub id: Seq<char>,
    pub kind: u32,
    pub guild_id: Option<Seq<char>>,
    pub last_message_id: Option<Seq<char>>,
    pub name: Option<Seq<char>>,
    pub topic: Option<Seq<char>>,
}

impl View for Channel {
    type V = ChannelView;

    open spec fn view(&self) -> ChannelView {
        ChannelView {
            id: self.id@,
            kind: self.kind,
            guild_id: view_opt_str(self.guild_id),
            last_message_id: view_opt_str(self.last_message_id),
            name: view_opt_str(self.name),
            topic: view_opt_str(self.topic),
        }
    }
}

/// Payload of the `READY` event closing an Identify handshake.
#[derive(Debug)]
pub struct ReadyMessage {
    pub v: u32,
    pub user: User,
    pub session_id: String,
    pub guilds: Vec<UnavailableGuild>,
}

/// Mathematical shape of [`ReadyMessage`].
pub struct ReadyMessageView {
    pub v: u32,
    pub user: UserView,
    pub session_id: Seq<char>,
    pub guilds: Seq<Seq<char>>,
}

impl View for ReadyMessage {
    type V = ReadyMessageView;

    open spec fn view(&self) -> ReadyMessageView {
        ReadyMessageView {
            v: self.v,
            user: self.user@,
            session_id: self.session_id@,
            guilds: views_of(self.guilds@),
        }
    }
}

/// Payload of the `RESUMED` event closing a Resume handshake.
#[derive(Debug)]
pub struct ResumedMessage {
    pub v: u32,
    pub session_id: String,
}

/// Mathematical shape of [`ResumedMessage`].
pub struct ResumedMessageView {
    pub v: u32,
    pub session_id: Seq<char>,
}

impl View for ResumedMessage {
    type V = ResumedMessageView;

    open spec fn view(&self) -> ResumedMessageView {
        ResumedMessageView { v: self.v, session_id: self.session_id@ }
    }
}

/// Payload of the `Hello` control frame.
#[derive(Debug)]
pub struct HelloMessage {
    pub heartbeat_interval: u64,
}

impl View for HelloMessage {
    type V = u64;

    open spec fn view(&self) -> u64 {
        self.heartbeat_interval
    }
}

/// A guild known to exist but not yet delivered.
#[derive(Debug)]
pub struct UnavailableGuild {
    pub id: String,
}

impl View for UnavailableGuild {
    type V = Seq<char>;

    open spec fn view(&self) -> Seq<char> {
        self.id@
    }
}

/// A guild snapshot.
#[derive(Debug, Clone)]
pub struct Guild {
    pub id: String,
    pub name: String,
    pub owner_id: String,
    pub permissions: Option<u32>,
    pub members: Option<Vec<GuildMember>>,
    pub channels: Option<Vec<Channel>>,
}

/// Mathematical shape of [`Guild`].
pub struct GuildView {
    pub id: Seq<char>,
    pub name: Seq<char>,
    pub owner_id: Seq<char>,
    pub permissions: Option<u32>,
    pub members: Option<Seq<GuildMemberView>>,
    pub channels: Option<Seq<ChannelView>>,
}

impl View for Guild {
    type V = GuildView;

    open spec fn view(&self) -> GuildView {
        GuildView {
            id: self.id@,
            name: self.name@,
            owner_id: self.owner_id@,
            permissions: self.permissions,
            members: match self.members {
                Some(ms) => Some(views_of(ms@)),
                None => None,
            },
            channels: match self.channels {
                Some(cs) => Some(views_of(cs@)),
                None => None,
            },
        }
    }
}

/// A user snapshot.
#[derive(Debug, Clone)]
pub struct User {
    pub id: String,
    pub username: Option<String>,
    pub discriminator: Option<String>,
    pub bot: Option<bool>,
    pub email: Option<String>,
}

/// Mathematical shape of [`User`].
pub struct UserView {
    pub id: Seq<char>,
    pub username: Option<Seq<char>>,
    pub discriminator: Option<Seq<char>>,
    pub bot: Option<bool>,
    pub email: Option<Seq<char>>,
}

impl View for User {
    type V = UserView;

    open spec fn view(&self) -> UserView {
        UserView {
            id: self.id@,
            username: view_opt_str(self.username),
            discriminator: view_opt_str(self.discriminator),
            bot: self.bot,
            email: view_opt_str(self.email),
        }
    }
}

/// A guild-membership snapshot.
#[derive(Debug, Clone)]
pub struct GuildMember {
    pub user: Option<User>,
    pub nick: Option<String>,
    pub roles: Vec<String>,
}

/// Mathematical shape of [`GuildMember`].
pub struct GuildMemberView {
    pub user: Option<UserView>,
    pub nick: Option<Seq<char>>,
    pub roles: Seq<Seq<char>>,
}

impl View for GuildMember {
    type V = GuildMemberView;

    open spec fn view(&self) -> GuildMemberView {
        GuildMemberView {
            user: match self.user {
                Some(u) => Some(u@),
                None => None,
            },
            nick: view_opt_str(self.nick),
            roles: views_of(self.roles@),
        }
    }
}

/// An activity shown in a presence. The JSON key `type` is held in the
/// field `kind`.
#[derive(Debug, Clone)]
pub struct Activity {
    pub name: String,
    pub kind: u32,
    pub created_at: u64,
    pub application_id: Option<String>,
    pub details: Option<String>,
    pub state: Option<String>,
    pub emoji: Option<Emoji>,
}

/// Mathematical shape of [`Activity`].
pub struct ActivityView {
    pub name: Seq<char>,
    pub kind: u32,
    pub created_at: u64,
    pub application_id: Option<Seq<char>>,
    pub details: Option<Seq<char>>,
    pub state: Option<Seq<char>>,
    pub emoji: Option<EmojiView>,
}

impl View for Activity {
    type V = ActivityView;

    open spec fn view(&self) -> ActivityView {
        ActivityView {
            name: self.name@,
            kind: self.kind,
            created_at: self.created_at,
            application_id: view_opt_str(self.application_id),
            details: view_opt_str(self.details),
            state: view_opt_str(self.state),
            emoji: match self.emoji {
                Some(e) => Some(e@),
                None => None,
            },
        }
    }
}

/// Per-platform presence status.
#[derive(Debug, Clone)]
pub struct ClientStatus {
    pub web: Option<String>,
    pub desktop: Option<String>,
    pub mobile: Option<String>,
}

/// Mathematical shape of [`ClientStatus`].
pub struct ClientStatusView {
    pub web: Option<Seq<char>>,
    pub desktop: Option<Seq<char>>,
    pub mobile: Option<Seq<char>>,
}

impl View for ClientStatus {
    type V = ClientStatusView;

    open spec fn view(&self) -> ClientStatusView {
        ClientStatusView {
            web: view_opt_str(self.web),
            desktop: view_opt_str(self.desktop),
            mobile: view_opt_str(self.mobile),
        }
    }
}

/// A presence-change snapshot.
#[derive(Debug, Clone)]
pub struct PresenceUpdate {
    pub user: User,
    pub game: Option<Activity>,
    pub guild_id: String,
    pub client_status: ClientStatus,
    pub nick: Option<String>,
}

/// Mathematical shape of [`PresenceUpdate`].
pub struct PresenceUpdateView {
    pub user: UserView,
    pub game: Option<ActivityView>,
    pub guild_id: Seq<char>,
    pub client_status: ClientStatusView,
    pub nick: Option<Seq<char>>,
}

impl View for PresenceUpdate {
    type V = PresenceUpdateView;

    open spec fn view(&self) -> PresenceUpdateView {
        PresenceUpdateView {
            user: self.user@,
            game: match self.game {
                Some(a) => Some(a@),
                None => None,
            },
            guild_id: self.guild_id@,
            client_status: self.client_status@,
            nick: view_opt_str(self.nick),
        }
    }
}

/// A typing notification snapshot.
#[derive(Debug, Clone)]
pub struct TypingStart {
    pub user_id: String,
    pub channel_id: String,
    pub timestamp: u64,
}

/// One decoded gateway event: exactly one variant per inbound frame.
/// Variants the upstream protocol tags with a sequence number carry it in
/// `s`; the control variants carry none. An event name outside the closed
/// set becomes `Unknown` with its raw payload text kept verbatim.
#[derive(Debug)]
pub enum DiscordMessage {
    Ready { s: u64, d: ReadyMessage },
    Resumed { s: u64, d: ResumedMessage },
    GuildCreate { s: u64, d: Guild },
    PresenceUpdate { s: u64, d: PresenceUpdate },
    MessageCreate { s: u64, d: Message },
    Unknown { s: u64, t: String, d: String },
    InvalidSession {},
    HeartbeatAck {},
    Hello { d: HelloMessage },
}

/// Mathematical shape of [`DiscordMessage`].
pub enum DiscordMessageView {
    Ready { s: u64, d: ReadyMessageView },
    Resumed { s: u64, d: ResumedMessageView },
    GuildCreate { s: u64, d: GuildView },
    PresenceUpdate { s: u64, d: PresenceUpdateView },
    MessageCreate { s: u64, d: MessageView },
    Unknown { s: u64, t: Seq<char>, d: Seq<char> },
    InvalidSession {},
    HeartbeatAck {},
    Hello { d: u64 },
}

impl View for DiscordMessage {
    type V = DiscordMessageView;

    open spec fn view(&self) -> DiscordMessageView {
        match self {
            DiscordMessage::Ready { s, d } => DiscordMessageView::Ready { s: *s, d: d@ },
            DiscordMessage::Resumed { s, d } => DiscordMessageView::Resumed { s: *s, d: d@ },
            DiscordMessage::GuildCreate { s, d } => DiscordMessageView::GuildCreate {
                s: *s,
                d: d@,
            },
            DiscordMessage::PresenceUpdate { s, d } => DiscordMessageView::PresenceUpdate {
                s: *s,
                d: d@,
            },
            DiscordMessage::MessageCreate { s, d } => DiscordMessageView::MessageCreate {
                s: *s,
                d: d@,
            },
            DiscordMessage::Unknown { s, t, d } => DiscordMessageView::Unknown {
                s: *s,
                t: t@,
                d: d@,
            },
            DiscordMessage::InvalidSession {} => DiscordMessageView::InvalidSession {},
            DiscordMessage::HeartbeatAck {} => DiscordMessageView::HeartbeatAck {},
            DiscordMessage::Hello { d } => DiscordMessageView::Hello { d: d@ },
        }
    }
}

/// The sequence number a view carries, if its variant is tagged with one.
pub open spec fn spec_seq_of(m: DiscordMessageView) -> Option<u64> {
    match m {
        DiscordMessageView::Ready { s, .. } => Some(s),
        DiscordMessageView::Resumed { s, .. } => Some(s),
        DiscordMessageView::GuildCreate { s, .. } => Some(s),
        DiscordMessageView::PresenceUpdate { s, .. } => Some(s),
        DiscordMessageView::MessageCreate { s, .. } => Some(s),
        DiscordMessageView::Unknown { s, .. } => Some(s),
        DiscordMessageView::InvalidSession {} => None,
        DiscordMessageView::HeartbeatAck {} => None,
        DiscordMessageView::Hello { .. } => None,
    }
}

impl DiscordMessage {
    /// The sequence number this event carries, if its variant is tagged
    /// with one.
    pub fn seq(&self) -> (r: Option<u64>)
        ensures
            r == spec_seq_of(self@),
    {
        match &self {
            Self::Ready { s, .. } => Some(*s),
            Self::Resumed { s, .. } => Some(*s),
            Self::GuildCreate { s, .. } => Some(*s),
            Self::PresenceUpdate { s, .. } => Some(*s),
            Self::MessageCreate { s, .. } => Some(*s),
            Self::Unknown { s, .. } => Some(*s),
            Self::InvalidSession {} => None,
            Self::HeartbeatAck {} => None,
            Self::Hello { .. } => None,
        }
    }
}

} // verus!
