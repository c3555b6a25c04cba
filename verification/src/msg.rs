//! Protocol-level message types and the eligibility rules that decide which
//! messages a connection may send in its current state.

use crate::character::{Body, CharacterId, Gender};
use vstd::prelude::*;

verus! {

/// Administrative roles an account can hold, in increasing order of power.
#[derive(Clone, Copy, Debug, PartialEq, Eq, Structural)]
pub enum AdminRole {
    Moderator,
    Admin,
}

/// The kind of client behind a connection, declared once when the
/// connection is opened and fixed for its lifetime.
#[derive(Clone, Copy, Debug, PartialEq, Eq, Structural)]
pub enum ClientType {
    /// A regular client that plays the game.
    Game,
    /// A chat-only client that never binds a character.
    ChatOnly,
    /// A spectator-only client that stays out of login/logout and player
    /// list events. Reserved for accounts holding an admin role.
    SilentSpectator,
    /// A bot; a privileged bot may run admin commands.
    Bot { privileged: bool },
}

impl ClientType {
    /// Whether a client of this kind may be admitted when the account holds
    /// the given role: spectating silently or running a privileged bot
    /// demands a role.
    pub fn is_valid_for_role(&self, role: Option<AdminRole>) -> (valid: bool)
        ensures
            valid == match *self {
                ClientType::SilentSpectator => role is Some,
                ClientType::Bot { privileged } => !privileged || role is Some,
                _ => true,
            },
    {
        match self {
            ClientType::SilentSpectator => role.is_some(),
            ClientType::Bot { privileged } => !privileged || role.is_some(),
            _ => true,
        }
    }

    /// Whether sessions of this kind appear in login/logout and player list
    /// broadcasts.
    pub fn emit_login_events(&self) -> (emits: bool)
        ensures
            emits == (*self != ClientType::SilentSpectator),
    {
        !matches!(self, ClientType::SilentSpectator)
    }

    pub fn can_spectate(&self) -> (r: bool)
        ensures
            r == (*self == ClientType::Game || *self == ClientType::SilentSpectator),
    {
        matches!(self, ClientType::Game | ClientType::SilentSpectator)
    }

    pub fn can_enter_character(&self) -> (r: bool)
        ensures
            r == (*self == ClientType::Game),
    {
        *self == ClientType::Game
    }

    pub fn can_send_message(&self) -> (r: bool)
        ensures
            r == (*self != ClientType::SilentSpectator),
    {
        !matches!(self, ClientType::SilentSpectator)
    }
}

/// Keep-alive messages exchanged on their own stream.
#[derive(Clone, Copy, Debug, PartialEq, Eq, Structural)]
pub enum PingMsg {
    Ping,
    Pong,
}

/// The registration request a client sends once to log in.
#[derive(Debug)]
pub struct ClientRegister {
    pub token_or_username: String,
    pub locale: Option<String>,
}

/// How far the client wants the world streamed, in chunks.
#[derive(Clone, Copy, Debug, PartialEq, Eq, Structural)]
pub struct ViewDistances {
    pub terrain: u32,
    pub entity: u32,
}

/// What a registered session is currently bound to in the world.
#[derive(Clone, Copy, Debug, PartialEq, Eq, Structural)]
pub enum PresenceKind {
    Spectator,
    Character(CharacterId),
}

/// Messages a registered client may send. Payloads carry only the fields
/// the eligibility rules and the admission subsystem read.
#[derive(Debug)]
pub enum ClientGeneral {
    // Character-screen only
    RequestCharacterList,
    CreateCharacter {
        alias: String,
        mainhand: Option<String>,
        offhand: Option<String>,
        body: Body,
        hardcore: bool,
        start_site: Option<u64>,
    },
    DeleteCharacter(CharacterId),
    EditCharacter { id: CharacterId, alias: String, body: Body },
    Character(CharacterId, ViewDistances),
    Spectate(ViewDistances),
    // In-game only
    ControllerInputs,
    ControlEvent,
    ControlAction,
    SetViewDistance(ViewDistances),
    BreakBlock(i32, i32, i32),
    PlaceBlock(i32, i32, i32),
    ExitInGame,
    PlayerPhysics { force_counter: u64 },
    UnlockSkill,
    RequestSiteInfo(u64),
    UpdateMapMarker,
    SetBattleMode(BattleMode),
    SpectatePosition,
    // In-game, terrain stream
    TerrainChunkRequest { key: (i32, i32) },
    LodZoneRequest { key: (i32, i32) },
    // Always possible
    ChatMsg(String),
    Command(String, Vec<String>),
    Terminate,
    RequestPlayerPhysics { server_authoritative: bool },
    RequestLossyTerrainCompression { lossy_terrain_compression: bool },
    RequestPlugins(Vec<u64>),
}

/// Everything a client can send, over any stream.
#[derive(Debug)]
pub enum ClientMsg {
    /// Sent once, first, to declare the client's intention.
    Type(ClientType),
    /// Sent once to register and authenticate.
    Register(ClientRegister),
    /// Any message allowed only after registration.
    General(ClientGeneral),
    Ping(PingMsg),
}

/// When a message of the given shape is allowed from a session that
/// declared `c_type`, has registration state `registered`, and is bound to
/// `presence` in the world.
pub open spec fn spec_verify_msg(
    msg: ClientMsg,
    c_type: ClientType,
    registered: bool,
    presence: Option<PresenceKind>,
) -> bool {
    match msg {
        ClientMsg::Type(t) => c_type == t,
        ClientMsg::Register(_) => !registered && presence is None,
        ClientMsg::General(g) => registered && match g {
            ClientGeneral::RequestCharacterList
            | ClientGeneral::CreateCharacter { .. }
            | ClientGeneral::EditCharacter { .. }
            | ClientGeneral::DeleteCharacter(_) => c_type != ClientType::ChatOnly
                && presence is None,
            ClientGeneral::Character(_, _) => c_type == ClientType::Game && presence is None,
            ClientGeneral::Spectate(_) => (c_type == ClientType::Game
                || c_type == ClientType::SilentSpectator) && presence is None,
            ClientGeneral::ControllerInputs
            | ClientGeneral::ControlEvent
            | ClientGeneral::ControlAction
            | ClientGeneral::SetViewDistance(_)
            | ClientGeneral::BreakBlock(_, _, _)
            | ClientGeneral::PlaceBlock(_, _, _)
            | ClientGeneral::ExitInGame
            | ClientGeneral::PlayerPhysics { .. }
            | ClientGeneral::TerrainChunkRequest { .. }
            | ClientGeneral::UnlockSkill
            | ClientGeneral::RequestSiteInfo(_)
            | ClientGeneral::RequestPlayerPhysics { .. }
            | ClientGeneral::RequestLossyTerrainCompression { .. }
            | ClientGeneral::UpdateMapMarker
            | ClientGeneral::SetBattleMode(_) => c_type == ClientType::Game
                && presence is Some,
            ClientGeneral::SpectatePosition => (c_type == ClientType::Game
                || c_type == ClientType::SilentSpectator) && presence is Some,
            ClientGeneral::ChatMsg(_) => c_type != ClientType::SilentSpectator,
            ClientGeneral::Command(_, _)
            | ClientGeneral::Terminate
            | ClientGeneral::LodZoneRequest { .. } => true,
            ClientGeneral::RequestPlugins(_) => true,
        },
        ClientMsg::Ping(_) => true,
    }
}

impl ClientMsg {
    /// The message-level eligibility gate: whether this message is allowed
    /// from a session in the given state.
    pub fn verify(
        &self,
        c_type: ClientType,
        registered: bool,
        presence: Option<PresenceKind>,
    ) -> (allowed: bool)
        ensures
            allowed == spec_verify_msg(*self, c_type, registered, presence),
    {
        match self {
            ClientMsg::Type(t) => c_type == *t,
            ClientMsg::Register(_) => !registered && presence.is_none(),
            ClientMsg::General(g) => registered && match g {
                ClientGeneral::RequestCharacterList
                | ClientGeneral::CreateCharacter { .. }
                | ClientGeneral::EditCharacter { .. }
                | ClientGeneral::DeleteCharacter(_) => {
                    c_type != ClientType::ChatOnly && presence.is_none()
                },
                ClientGeneral::Character(_, _) => {
                    c_type == ClientType::Game && presence.is_none()
                },
                ClientGeneral::Spectate(_) => c_type.can_spectate() && presence.is_none(),
                ClientGeneral::ControllerInputs
                | ClientGeneral::ControlEvent
                | ClientGeneral::ControlAction
                | ClientGeneral::SetViewDistance(_)
                | ClientGeneral::BreakBlock(_, _, _)
                | ClientGeneral::PlaceBlock(_, _, _)
                | ClientGeneral::ExitInGame
                | ClientGeneral::PlayerPhysics { .. }
                | ClientGeneral::TerrainChunkRequest { .. }
                | ClientGeneral::UnlockSkill
                | ClientGeneral::RequestSiteInfo(_)
                | ClientGeneral::RequestPlayerPhysics { .. }
                | ClientGeneral::RequestLossyTerrainCompression { .. }
                | ClientGeneral::UpdateMapMarker
                | ClientGeneral::SetBattleMode(_) => {
                    c_type == ClientType::Game && presence.is_some()
                },
                ClientGeneral::SpectatePosition => c_type.can_spectate() && presence.is_some(),
                ClientGeneral::ChatMsg(_) => c_type.can_send_message(),
                ClientGeneral::Command(_, _)
                | ClientGeneral::Terminate
                | ClientGeneral::LodZoneRequest { .. } => true,
                ClientGeneral::RequestPlugins(_) => true,
            },
            ClientMsg::Ping(_) => true,
        }
    }
}

/// Battle-mode preference of an account.
#[derive(Clone, Copy, Debug, PartialEq, Eq, Structural)]
pub enum BattleMode {
    PvP,
    PvE,
}

/// Why a login attempt was refused.
#[derive(Debug)]
pub enum RegisterError {
    AuthError(String),
    Banned(String),
    Kicked(String),
    InvalidCharacter,
    NotOnWhitelist,
    TooManyPlayers,
}

impl Clone for RegisterError {
    fn clone(&self) -> (res: Self)
        ensures
            res == *self,
    {
        match self {
            RegisterError::AuthError(s) => RegisterError::AuthError(s.clone()),
            RegisterError::Banned(s) => RegisterError::Banned(s.clone()),
            RegisterError::Kicked(s) => RegisterError::Kicked(s.clone()),
            RegisterError::InvalidCharacter => RegisterError::InvalidCharacter,
            RegisterError::NotOnWhitelist => RegisterError::NotOnWhitelist,
            RegisterError::TooManyPlayers => RegisterError::TooManyPlayers,
        }
    }
}

/// The client-visible reason attached to a server-initiated disconnect.
#[derive(Debug)]
pub enum DisconnectReason {
    /// Removed by the server, with a display message.
    Kicked(String),
    /// Superseded by a newer login on the same account.
    NewerLogin,
    /// The declared client kind is not allowed for the account's role.
    InvalidClientType,
}

/// Why the server tears a session down, as consumed by the disconnect
/// machinery.
#[derive(Clone, Copy, Debug, PartialEq, Eq, Structural)]
pub enum DisconnectCause {
    Kicked,
    NewerLogin,
    InvalidClientType,
}

/// The character summary shown beside a roster entry once a character is
/// selected.
#[derive(Debug)]
pub struct CharacterInfo {
    pub name: String,
    pub gender: Option<Gender>,
    pub battle_mode: BattleMode,
}

impl Clone for CharacterInfo {
    fn clone(&self) -> (res: Self)
        ensures
            res == *self,
    {
        CharacterInfo {
            name: self.name.clone(),
            gender: self.gender,
            battle_mode: self.battle_mode,
        }
    }
}

/// One roster entry as shown to every client.
#[derive(Debug)]
pub struct PlayerInfo {
    pub player_alias: String,
    pub is_online: bool,
    pub is_moderator: bool,
    pub character: Option<CharacterInfo>,
    pub uuid: u128,
}

impl Clone for PlayerInfo {
    fn clone(&self) -> (res: Self)
        ensures
            res == *self,
    {
        PlayerInfo {
            player_alias: self.player_alias.clone(),
            is_online: self.is_online,
            is_moderator: self.is_moderator,
            character: match &self.character {
                Some(c) => Some(c.clone()),
                None => None,
            },
            uuid: self.uuid,
        }
    }
}

/// A change to the player roster, as broadcast to clients.
#[derive(Debug)]
pub enum PlayerListUpdate {
    /// The full roster, sent to a client once at admission.
    Init(Vec<(u64, PlayerInfo)>),
    /// One newly admitted player, keyed by session short-id.
    Add(u64, PlayerInfo),
}

/// The server's description texts for one locale.
#[derive(Debug)]
pub struct ServerDescription {
    pub motd: String,
    pub rules: Option<String>,
}

impl Clone for ServerDescription {
    fn clone(&self) -> (res: Self)
        ensures
            res == *self,
    {
        ServerDescription {
            motd: self.motd.clone(),
            rules: match &self.rules {
                Some(r) => Some(r.clone()),
                None => None,
            },
        }
    }
}

/// The initial world-sync payload sent once at admission. The bundle is
/// assembled from collaborating subsystems; only the parts this subsystem
/// decides are carried here.
#[derive(Debug)]
pub struct InitialSync {
    pub entity: u64,
    pub role: Option<AdminRole>,
    pub description: ServerDescription,
}

/// Everything the admission subsystem can send to a client.
#[derive(Debug)]
pub enum ServerMsg {
    /// The outcome of the client's registration request.
    RegisterAnswer(Result<(), RegisterError>),
    /// The initial world sync, sent once on admission.
    Init(InitialSync),
    /// A roster snapshot or increment.
    PlayerList(PlayerListUpdate),
    /// A server-initiated disconnect notice.
    Disconnect(DisconnectReason),
}

} // verus!
