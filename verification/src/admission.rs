//! The session admission engine: one pass per tick over every connection
//! with an in-flight login, deciding accept, reject, or retry, while
//! keeping at most one live session per account.
//!
//! All network sends and disconnects are deferred: the pass appends
//! [`Effect`] values to a list, and the caller performs them after the pass,
//! in list order.

use crate::msg::{
    AdminRole, BattleMode, ClientType, DisconnectCause, DisconnectReason, InitialSync, PlayerInfo,
    PlayerListUpdate, RegisterError, ServerDescription, ServerMsg,
};
use crate::roster::{snap_index, PlayerRecord, RosterSnapshot, SnapshotEntry};
use crate::uuid_map::{uuid_map_of, UuidMap};
use vstd::prelude::*;

verus! {

/// A resolved or still-running authentication attempt, as reported by the
/// authenticator.
pub enum PendingState {
    /// The authenticator has not answered yet.
    Unresolved,
    /// Authentication failed terminally.
    Failed(RegisterError),
    /// Authentication succeeded for the given account.
    Succeeded { username: String, uuid: u128 },
}

impl Clone for PendingState {
    fn clone(&self) -> (res: Self)
        ensures
            res == *self,
    {
        match self {
            PendingState::Unresolved => PendingState::Unresolved,
            PendingState::Failed(e) => PendingState::Failed(e.clone()),
            PendingState::Succeeded { username, uuid } => PendingState::Succeeded {
                username: username.clone(),
                uuid: *uuid,
            },
        }
    }
}

/// One session's tracked login attempt: the credential it presented and
/// how far the authenticator has taken it.
pub struct PendingLogin {
    pub token: String,
    pub state: PendingState,
}

impl Clone for PendingLogin {
    fn clone(&self) -> (res: Self)
        ensures
            res == *self,
    {
        PendingLogin { token: self.token.clone(), state: self.state.clone() }
    }
}

impl PendingLogin {
    /// A fresh, unresolved attempt for the given credential.
    pub fn new(token: String) -> (p: PendingLogin)
        ensures
            p.token == token,
            p.state is Unresolved,
    {
        PendingLogin { token, state: PendingState::Unresolved }
    }
}

/// Server-side configuration the admission pass reads.
pub struct Settings {
    /// Hard cap on concurrently logged-in players.
    pub max_players: u16,
    /// Battle mode given to a fresh login before character selection.
    pub battle_mode: BattleMode,
    /// Accounts holding an administrative role.
    pub admins: Vec<(u128, AdminRole)>,
    /// Description shown to clients with no matching locale.
    pub default_description: ServerDescription,
    /// Per-locale description texts.
    pub descriptions: Vec<(String, ServerDescription)>,
}

/// The first role paired with `uuid`, if any.
pub open spec fn spec_admin_role(admins: Seq<(u128, AdminRole)>, uuid: u128) -> Option<AdminRole>
    decreases admins.len(),
{
    if admins.len() == 0 {
        None
    } else if admins[0].0 == uuid {
        Some(admins[0].1)
    } else {
        spec_admin_role(admins.drop_first(), uuid)
    }
}

/// Look up the administrative role of an account.
pub fn lookup_admin(admins: &Vec<(u128, AdminRole)>, uuid: u128) -> (role: Option<AdminRole>)
    ensures
        role == spec_admin_role(admins@, uuid),
{
    let mut i: usize = 0;
    proof {
        assert(admins@.skip(0) =~= admins@);
    }
    while i < admins.len()
        invariant
            i <= admins@.len(),
            spec_admin_role(admins@, uuid) == spec_admin_role(admins@.skip(i as int), uuid),
        decreases admins@.len() - i,
    {
        proof {
            assert(admins@.skip(i as int)[0] == admins@[i as int]);
            assert(admins@.skip(i as int).drop_first() =~= admins@.skip(i as int + 1));
        }
        if admins[i].0 == uuid {
            return Some(admins[i].1);
        }
        i = i + 1;
    }
    proof {
        assert(admins@.skip(admins@.len() as int).len() == 0);
    }
    None
}

/// The description texts served to a client with the given locale: the
/// first entry for that locale, or the default.
pub open spec fn spec_description_for(
    descriptions: Seq<(String, ServerDescription)>,
    default_description: ServerDescription,
    locale: Option<String>,
) -> ServerDescription
    decreases descriptions.len(),
{
    match locale {
        None => default_description,
        Some(l) => if descriptions.len() == 0 {
            default_description
        } else if descriptions[0].0@ == l@ {
            descriptions[0].1
        } else {
            spec_description_for(descriptions.drop_first(), default_description, locale)
        },
    }
}

/// Pick the description texts for a client's locale.
pub fn description_for(settings: &Settings, locale: &Option<String>) -> (d: ServerDescription)
    ensures
        d == spec_description_for(settings.descriptions@, settings.default_description, *locale),
{
    match locale {
        None => settings.default_description.clone(),
        Some(l) => {
            let mut i: usize = 0;
            proof {
                assert(settings.descriptions@.skip(0) =~= settings.descriptions@);
            }
            while i < settings.descriptions.len()
                invariant
                    i <= settings.descriptions@.len(),
                    locale matches Some(lo) && lo == l,
                    spec_description_for(
                        settings.descriptions@,
                        settings.default_description,
                        *locale,
                    ) == spec_description_for(
                        settings.descriptions@.skip(i as int),
                        settings.default_description,
                        *locale,
                    ),
                decreases settings.descriptions@.len() - i,
            {
                proof {
                    assert(settings.descriptions@.skip(i as int)[0]
                        == settings.descriptions@[i as int]);
                    assert(settings.descriptions@.skip(i as int).drop_first()
                        =~= settings.descriptions@.skip(i as int + 1));
                }
                if settings.descriptions[i].0.eq(l) {
                    return settings.descriptions[i].1.clone();
                }
                i = i + 1;
            }
            proof {
                assert(settings.descriptions@.skip(settings.descriptions@.len() as int).len()
                    == 0);
            }
            settings.default_description.clone()
        },
    }
}

/// An account bound to a newly admitted session, before the merge into the
/// roster.
pub struct Player {
    pub alias: String,
    pub uuid: u128,
    pub battle_mode: BattleMode,
}

/// A player alias the roster accepts.
pub open spec fn valid_alias(alias: Seq<char>) -> bool {
    alias.len() > 0
}

impl Player {
    /// Whether this player may appear on the roster.
    pub fn is_valid(&self) -> (v: bool)
        ensures
            v == valid_alias(self.alias@),
    {
        !self.alias.as_str().is_empty()
    }
}

/// One admission accepted during the current tick, staged until the merge.
pub struct NewPlayerEntry {
    pub entity: u64,
    pub uid: u64,
    pub client_type: ClientType,
    pub player: Player,
    pub admin: Option<AdminRole>,
    /// The roster increment to broadcast, absent for session kinds that
    /// stay out of player-list events.
    pub list_msg: Option<PlayerInfo>,
}

/// The UUID-to-entity index over staged admissions, later entries winning.
pub open spec fn entries_index(entries: Seq<NewPlayerEntry>) -> Map<u128, u64>
    decreases entries.len(),
{
    if entries.len() == 0 {
        Map::empty()
    } else {
        entries_index(entries.drop_last()).insert(
            entries.last().player.uuid,
            entries.last().entity,
        )
    }
}

/// A UUID is in the staged-admission index exactly when a staged entry
/// carries it.
pub proof fn lemma_entries_index_complete(entries: Seq<NewPlayerEntry>, uuid: u128)
    ensures
        entries_index(entries).contains_key(uuid) <==> exists|k: int|
            0 <= k < entries.len() && entries[k].player.uuid == uuid,
    decreases entries.len(),
{
    if entries.len() > 0 {
        lemma_entries_index_complete(entries.drop_last(), uuid);
        if entries_index(entries).contains_key(uuid) && entries.last().player.uuid != uuid {
            let k = choose|k: int|
                0 <= k < entries.drop_last().len() && entries.drop_last()[k].player.uuid == uuid;
            assert(entries[k].player.uuid == uuid);
        }
        if exists|k: int| 0 <= k < entries.len() && entries[k].player.uuid == uuid {
            let k = choose|k: int| 0 <= k < entries.len() && entries[k].player.uuid == uuid;
            if k < entries.len() - 1 {
                assert(entries.drop_last()[k].player.uuid == uuid);
            }
        }
    }
}

/// The ghost value of a [`NewPlayers`] accumulator.
pub struct AccModel {
    pub entries: Seq<NewPlayerEntry>,
    pub retries: Seq<(u64, PendingLogin)>,
    pub finished: Seq<u64>,
}

impl AccModel {
    /// The accumulator every tick starts from.
    pub open spec fn empty() -> AccModel {
        AccModel { entries: Seq::empty(), retries: Seq::empty(), finished: Seq::empty() }
    }
}

/// The tick-scoped staging area shared by the admission tasks of one pass:
/// admissions accepted so far, logins to retry next tick, and tracker
/// entries that concluded.
pub struct NewPlayers {
    /// Hash index from account UUID to admitting entity, mirroring
    /// `entries`.
    pub index: UuidMap,
    pub entries: Vec<NewPlayerEntry>,
    pub retries: Vec<(u64, PendingLogin)>,
    pub finished: Vec<u64>,
}

impl NewPlayers {
    pub open spec fn model(&self) -> AccModel {
        AccModel { entries: self.entries@, retries: self.retries@, finished: self.finished@ }
    }

    /// The hash index holds exactly the staged entries.
    pub open spec fn wf(&self) -> bool {
        uuid_map_of(self.index) == entries_index(self.entries@)
    }

    /// An empty accumulator for a fresh pass.
    pub fn new() -> (acc: NewPlayers)
        ensures
            acc.wf(),
            acc.model() == AccModel::empty(),
    {
        NewPlayers {
            index: UuidMap::new(),
            entries: Vec::new(),
            retries: Vec::new(),
            finished: Vec::new(),
        }
    }
}

/// A deferred side effect of the admission pass, performed by the caller
/// after the pass in list order.
pub enum Effect {
    /// Deliver a message to the session bound to this entity.
    Send { to: u64, msg: ServerMsg },
    /// Deliver the roster snapshot taken at tick start to this entity, as a
    /// player-list `Init`; see [`roster_init_msg`].
    SendRosterInit { to: u64 },
    /// Tear the session of this entity down for the given cause.
    Disconnect { entity: u64, cause: DisconnectCause },
    /// Grant the role that was resolved for this newly admitted account.
    MakeAdmin { entity: u64, role: AdminRole, uuid: u128 },
    /// A roster entry had no live connection handle: report the anomaly.
    WarnPlayerWithoutClient { entity: u64 },
}

/// The player-list `Init` message a [`Effect::SendRosterInit`] effect
/// stands for: the roster snapshot taken at tick start.
pub fn roster_init_msg(snap: &RosterSnapshot) -> (m: ServerMsg)
    ensures
        m matches ServerMsg::PlayerList(PlayerListUpdate::Init(list))
            && list@ == snap.entries@.map_values(|e: SnapshotEntry| (e.uid, e.info)),
{
    let mut list: Vec<(u64, PlayerInfo)> = Vec::new();
    let mut i: usize = 0;
    while i < snap.entries.len()
        invariant
            i <= snap.entries@.len(),
            list@ == snap.entries@.take(i as int).map_values(
                |e: SnapshotEntry| (e.uid, e.info),
            ),
        decreases snap.entries@.len() - i,
    {
        let e = &snap.entries[i];
        list.push((e.uid, e.info.clone()));
        proof {
            assert(list@ =~= snap.entries@.take(i as int + 1).map_values(
                |e: SnapshotEntry| (e.uid, e.info),
            ));
        }
        i = i + 1;
    }
    proof {
        assert(snap.entries@.take(snap.entries@.len() as int) =~= snap.entries@);
    }
    ServerMsg::PlayerList(PlayerListUpdate::Init(list))
}

/// How one tick's processing of one pending login concluded.
pub enum AdmissionOutcome {
    /// The authenticator has not answered; the login stays pending.
    StillPending,
    /// Authentication, or the capacity check, failed terminally; the
    /// session was told and disconnected.
    Failed(RegisterError),
    /// The declared client kind is not allowed for the account's role.
    InvalidClientType,
    /// Another live session held the account; it was told to disconnect,
    /// and this login retries next tick.
    RetryNextTick { old_entity: u64 },
    /// Another roster entry held the account but had no connection handle;
    /// it was disconnected defensively, and this login was dropped.
    ReplacedOld { old_entity: u64 },
    /// The staged roster entry was malformed; the session was told.
    RejectedInvalidCharacterData,
    /// The session was admitted and staged for the roster merge.
    AdmittedNew,
}

impl Clone for AdmissionOutcome {
    fn clone(&self) -> (res: Self)
        ensures
            res == *self,
    {
        match self {
            AdmissionOutcome::StillPending => AdmissionOutcome::StillPending,
            AdmissionOutcome::Failed(e) => AdmissionOutcome::Failed(e.clone()),
            AdmissionOutcome::InvalidClientType => AdmissionOutcome::InvalidClientType,
            AdmissionOutcome::RetryNextTick { old_entity } => AdmissionOutcome::RetryNextTick {
                old_entity: *old_entity,
            },
            AdmissionOutcome::ReplacedOld { old_entity } => AdmissionOutcome::ReplacedOld {
                old_entity: *old_entity,
            },
            AdmissionOutcome::RejectedInvalidCharacterData =>
                AdmissionOutcome::RejectedInvalidCharacterData,
            AdmissionOutcome::AdmittedNew => AdmissionOutcome::AdmittedNew,
        }
    }
}

/// What one step of the admission pass does: the outcome, the accumulator
/// afterwards, and the effects it appends.
pub struct StepRes {
    pub outcome: AdmissionOutcome,
    pub acc: AccModel,
    pub effects: Seq<Effect>,
}

/// One session's login, as drawn from the tracker for the admission pass.
pub struct LoginItem {
    pub entity: u64,
    pub uid: u64,
    pub client_type: ClientType,
    pub locale: Option<String>,
    pub pending: PendingLogin,
}

/// The decision tree for one pending login, against the tick-start
/// snapshot `snap_entries` and the accumulator state `acc`.
///
/// A duplicate account is found first among the players that were live
/// before the tick, then among this tick's staged admissions; in both
/// cases the earlier session loses. Capacity counts the pre-tick roster
/// plus everything staged so far.
pub open spec fn spec_step(
    settings: Settings,
    snap_entries: Seq<SnapshotEntry>,
    item: LoginItem,
    acc: AccModel,
) -> StepRes {
    match item.pending.state {
        PendingState::Unresolved => StepRes {
            outcome: AdmissionOutcome::StillPending,
            acc,
            effects: Seq::empty(),
        },
        PendingState::Failed(e) => StepRes {
            outcome: AdmissionOutcome::Failed(e),
            acc: AccModel { finished: acc.finished.push(item.entity), ..acc },
            effects: seq![
                Effect::Disconnect { entity: item.entity, cause: DisconnectCause::Kicked },
                Effect::Send {
                    to: item.entity,
                    msg: ServerMsg::RegisterAnswer(Err(e)),
                },
            ],
        },
        PendingState::Succeeded { username, uuid } => {
            let role = spec_admin_role(settings.admins@, uuid);
            if !spec_role_ok(item.client_type, role) {
                StepRes {
                    outcome: AdmissionOutcome::InvalidClientType,
                    acc: AccModel { finished: acc.finished.push(item.entity), ..acc },
                    effects: seq![
                        Effect::Disconnect {
                            entity: item.entity,
                            cause: DisconnectCause::InvalidClientType,
                        },
                    ],
                }
            } else if snap_entries.len() + acc.entries.len() >= settings.max_players as int {
                StepRes {
                    outcome: AdmissionOutcome::Failed(RegisterError::TooManyPlayers),
                    acc: AccModel { finished: acc.finished.push(item.entity), ..acc },
                    effects: seq![
                        Effect::Disconnect { entity: item.entity, cause: DisconnectCause::Kicked },
                        Effect::Send {
                            to: item.entity,
                            msg: ServerMsg::RegisterAnswer(Err(RegisterError::TooManyPlayers)),
                        },
                    ],
                }
            } else if snap_index(snap_entries).contains_key(uuid) {
                let old = snap_entries[snap_index(snap_entries)[uuid] as int];
                if old.has_client {
                    StepRes {
                        outcome: AdmissionOutcome::RetryNextTick { old_entity: old.entity },
                        acc: AccModel {
                            retries: acc.retries.push((item.entity, item.pending)),
                            finished: acc.finished.push(item.entity),
                            ..acc
                        },
                        effects: seq![
                            Effect::Send {
                                to: old.entity,
                                msg: ServerMsg::Disconnect(DisconnectReason::NewerLogin),
                            },
                            Effect::Disconnect {
                                entity: old.entity,
                                cause: DisconnectCause::NewerLogin,
                            },
                        ],
                    }
                } else {
                    StepRes {
                        outcome: AdmissionOutcome::ReplacedOld { old_entity: old.entity },
                        acc: AccModel { finished: acc.finished.push(item.entity), ..acc },
                        effects: seq![
                            Effect::WarnPlayerWithoutClient { entity: old.entity },
                            Effect::Disconnect {
                                entity: old.entity,
                                cause: DisconnectCause::NewerLogin,
                            },
                        ],
                    }
                }
            } else if entries_index(acc.entries).contains_key(uuid) {
                let old_entity = entries_index(acc.entries)[uuid];
                StepRes {
                    outcome: AdmissionOutcome::RetryNextTick { old_entity },
                    acc: AccModel {
                        retries: acc.retries.push((item.entity, item.pending)),
                        finished: acc.finished.push(item.entity),
                        ..acc
                    },
                    effects: seq![
                        Effect::Send {
                            to: old_entity,
                            msg: ServerMsg::Disconnect(DisconnectReason::NewerLogin),
                        },
                        Effect::Disconnect { entity: old_entity, cause: DisconnectCause::NewerLogin },
                    ],
                }
            } else if !valid_alias(username@) {
                StepRes {
                    outcome: AdmissionOutcome::RejectedInvalidCharacterData,
                    acc: AccModel { finished: acc.finished.push(item.entity), ..acc },
                    effects: seq![
                        Effect::Send {
                            to: item.entity,
                            msg: ServerMsg::RegisterAnswer(Err(RegisterError::InvalidCharacter)),
                        },
                    ],
                }
            } else {
                let entry = NewPlayerEntry {
                    entity: item.entity,
                    uid: item.uid,
                    client_type: item.client_type,
                    player: Player {
                        alias: username,
                        uuid,
                        battle_mode: settings.battle_mode,
                    },
                    admin: role,
                    list_msg: if item.client_type != ClientType::SilentSpectator {
                        Some(
                            PlayerInfo {
                                player_alias: username,
                                is_online: true,
                                is_moderator: role is Some,
                                character: None,
                                uuid,
                            },
                        )
                    } else {
                        None
                    },
                };
                StepRes {
                    outcome: AdmissionOutcome::AdmittedNew,
                    acc: AccModel {
                        entries: acc.entries.push(entry),
                        finished: acc.finished.push(item.entity),
                        ..acc
                    },
                    effects: seq![
                        Effect::Send { to: item.entity, msg: ServerMsg::RegisterAnswer(Ok(())) },
                        Effect::Send {
                            to: item.entity,
                            msg: ServerMsg::Init(
                                InitialSync {
                                    entity: item.entity,
                                    role,
                                    description: spec_description_for(
                                        settings.descriptions@,
                                        settings.default_description,
                                        item.locale,
                                    ),
                                },
                            ),
                        },
                        Effect::SendRosterInit { to: item.entity },
                    ],
                }
            }
        },
    }
}

proof fn lemma_append_empty<T>(s: Seq<T>)
    ensures
        s == s + Seq::<T>::empty(),
{
    assert(s =~= s + Seq::<T>::empty());
}

proof fn lemma_append_push1<T>(s: Seq<T>, t: Seq<T>)
    requires
        t.len() == 1,
    ensures
        s.push(t[0]) == s + t,
{
    assert(s.push(t[0]) =~= s + t);
}

proof fn lemma_append_push2<T>(s: Seq<T>, t: Seq<T>)
    requires
        t.len() == 2,
    ensures
        s.push(t[0]).push(t[1]) == s + t,
{
    assert(s.push(t[0]).push(t[1]) =~= s + t);
}

proof fn lemma_append_push3<T>(s: Seq<T>, t: Seq<T>)
    requires
        t.len() == 3,
    ensures
        s.push(t[0]).push(t[1]).push(t[2]) == s + t,
{
    assert(s.push(t[0]).push(t[1]).push(t[2]) =~= s + t);
}

/// Whether the declared client kind is allowed for the given role.
pub open spec fn spec_role_ok(client_type: ClientType, role: Option<AdminRole>) -> bool {
    match client_type {
        ClientType::SilentSpectator => role is Some,
        ClientType::Bot { privileged } => !privileged || role is Some,
        _ => true,
    }
}

/// Process one pending login against the tick-start snapshot and the
/// shared accumulator, appending the deferred effects.
///
/// This is the critical section of the admission pass: between entry and
/// exit nothing else may touch `acc`.
pub fn process_login(
    settings: &Settings,
    snap: &RosterSnapshot,
    item: &LoginItem,
    acc: &mut NewPlayers,
    effects: &mut Vec<Effect>,
) -> (outcome: AdmissionOutcome)
    requires
        old(acc).wf(),
        uuid_map_of(snap.old_by_uuid) == snap_index(snap.entries@),
    ensures
        final(acc).wf(),
        ({
            let res = spec_step(*settings, snap.entries@, *item, old(acc).model());
            &&& final(acc).model() == res.acc
            &&& final(effects)@ == old(effects)@ + res.effects
            &&& outcome == res.outcome
        }),
{
    match &item.pending.state {
        PendingState::Unresolved => {
            proof {
                lemma_append_empty(effects@);
            }
            AdmissionOutcome::StillPending
        },
        PendingState::Failed(e) => {
            acc.finished.push(item.entity);
            effects.push(
                Effect::Disconnect { entity: item.entity, cause: DisconnectCause::Kicked },
            );
            effects.push(
                Effect::Send { to: item.entity, msg: ServerMsg::RegisterAnswer(Err(e.clone())) },
            );
            proof {
                let res = spec_step(*settings, snap.entries@, *item, old(acc).model());
                lemma_append_push2(old(effects)@, res.effects);
            }
            AdmissionOutcome::Failed(e.clone())
        },
        PendingState::Succeeded { username, uuid } => {
            let uuid = *uuid;
            let role = lookup_admin(&settings.admins, uuid);
            let role_ok = match item.client_type {
                ClientType::SilentSpectator => role.is_some(),
                ClientType::Bot { privileged } => !privileged || role.is_some(),
                _ => true,
            };
            if !role_ok {
                acc.finished.push(item.entity);
                effects.push(
                    Effect::Disconnect {
                        entity: item.entity,
                        cause: DisconnectCause::InvalidClientType,
                    },
                );
                proof {
                    let res = spec_step(*settings, snap.entries@, *item, old(acc).model());
                    lemma_append_push1(old(effects)@, res.effects);
                }
                return AdmissionOutcome::InvalidClientType;
            }
            let old_count = snap.entries.len();
            let max = settings.max_players as usize;
            if old_count >= max || acc.entries.len() >= max - old_count {
                acc.finished.push(item.entity);
                effects.push(
                    Effect::Disconnect { entity: item.entity, cause: DisconnectCause::Kicked },
                );
                effects.push(
                    Effect::Send {
                        to: item.entity,
                        msg: ServerMsg::RegisterAnswer(Err(RegisterError::TooManyPlayers)),
                    },
                );
                proof {
                    let res = spec_step(*settings, snap.entries@, *item, old(acc).model());
                    lemma_append_push2(old(effects)@, res.effects);
                }
                return AdmissionOutcome::Failed(RegisterError::TooManyPlayers);
            }
            proof {
                crate::roster::lemma_snap_index_complete(snap.entries@, uuid);
            }
            if let Some(j) = snap.old_by_uuid.get(uuid) {
                let old_entry = &snap.entries[j as usize];
                if old_entry.has_client {
                    acc.retries.push((item.entity, item.pending.clone()));
                    acc.finished.push(item.entity);
                    effects.push(
                        Effect::Send {
                            to: old_entry.entity,
                            msg: ServerMsg::Disconnect(DisconnectReason::NewerLogin),
                        },
                    );
                    effects.push(
                        Effect::Disconnect {
                            entity: old_entry.entity,
                            cause: DisconnectCause::NewerLogin,
                        },
                    );
                    proof {
                        let res = spec_step(*settings, snap.entries@, *item, old(acc).model());
                        lemma_append_push2(old(effects)@, res.effects);
                    }
                    return AdmissionOutcome::RetryNextTick { old_entity: old_entry.entity };
                } else {
                    acc.finished.push(item.entity);
                    effects.push(Effect::WarnPlayerWithoutClient { entity: old_entry.entity });
                    effects.push(
                        Effect::Disconnect {
                            entity: old_entry.entity,
                            cause: DisconnectCause::NewerLogin,
                        },
                    );
                    proof {
                        let res = spec_step(*settings, snap.entries@, *item, old(acc).model());
                        lemma_append_push2(old(effects)@, res.effects);
                    }
                    return AdmissionOutcome::ReplacedOld { old_entity: old_entry.entity };
                }
            }
            if let Some(old_entity) = acc.index.get(uuid) {
                acc.retries.push((item.entity, item.pending.clone()));
                acc.finished.push(item.entity);
                effects.push(
                    Effect::Send {
                        to: old_entity,
                        msg: ServerMsg::Disconnect(DisconnectReason::NewerLogin),
                    },
                );
                effects.push(
                    Effect::Disconnect { entity: old_entity, cause: DisconnectCause::NewerLogin },
                );
                proof {
                    let res = spec_step(*settings, snap.entries@, *item, old(acc).model());
                    lemma_append_push2(old(effects)@, res.effects);
                }
                return AdmissionOutcome::RetryNextTick { old_entity };
            }
            let player = Player {
                alias: username.clone(),
                uuid,
                battle_mode: settings.battle_mode,
            };
            if !player.is_valid() {
                acc.finished.push(item.entity);
                effects.push(
                    Effect::Send {
                        to: item.entity,
                        msg: ServerMsg::RegisterAnswer(Err(RegisterError::InvalidCharacter)),
                    },
                );
                proof {
                    let res = spec_step(*settings, snap.entries@, *item, old(acc).model());
                    lemma_append_push1(old(effects)@, res.effects);
                }
                return AdmissionOutcome::RejectedInvalidCharacterData;
            }
            let ghost prev_entries = acc.entries@;
            let list_msg = if item.client_type.emit_login_events() {
                Some(
                    PlayerInfo {
                        player_alias: username.clone(),
                        is_online: true,
                        is_moderator: role.is_some(),
                        character: None,
                        uuid,
                    },
                )
            } else {
                None
            };
            let entry = NewPlayerEntry {
                entity: item.entity,
                uid: item.uid,
                client_type: item.client_type,
                player,
                admin: role,
                list_msg,
            };
            acc.entries.push(entry);
            let _ = acc.index.insert(uuid, item.entity);
            acc.finished.push(item.entity);
            proof {
                assert(acc.entries@.drop_last() =~= prev_entries);
            }
            let description = description_for(settings, &item.locale);
            effects.push(
                Effect::Send { to: item.entity, msg: ServerMsg::RegisterAnswer(Ok(())) },
            );
            effects.push(
                Effect::Send {
                    to: item.entity,
                    msg: ServerMsg::Init(
                        InitialSync { entity: item.entity, role, description },
                    ),
                },
            );
            effects.push(Effect::SendRosterInit { to: item.entity });
            proof {
                let res = spec_step(*settings, snap.entries@, *item, old(acc).model());
                lemma_append_push3(old(effects)@, res.effects);
            }
            AdmissionOutcome::AdmittedNew
        },
    }
}

/// What a whole admission pass does: the final accumulator, the effects in
/// order, and one outcome per processed login.
pub struct PassRes {
    pub acc: AccModel,
    pub effects: Seq<Effect>,
    pub outcomes: Seq<AdmissionOutcome>,
}

/// The admission pass: every login processed in order against one shared
/// accumulator, starting from the empty one.
pub open spec fn spec_pass(
    settings: Settings,
    snap_entries: Seq<SnapshotEntry>,
    logins: Seq<LoginItem>,
) -> PassRes
    decreases logins.len(),
{
    if logins.len() == 0 {
        PassRes { acc: AccModel::empty(), effects: Seq::empty(), outcomes: Seq::empty() }
    } else {
        let prev = spec_pass(settings, snap_entries, logins.drop_last());
        let step = spec_step(settings, snap_entries, logins.last(), prev.acc);
        PassRes {
            acc: step.acc,
            effects: prev.effects + step.effects,
            outcomes: prev.outcomes.push(step.outcome),
        }
    }
}

/// Run one tick's admission pass over the pending logins, in order.
///
/// The worker tasks of a pass coordinate only through the accumulator's
/// lock, so the pass equals its logins processed one by one in lock order;
/// the order of `logins` is that order.
pub fn run_admission_pass(
    settings: &Settings,
    snap: &RosterSnapshot,
    logins: &Vec<LoginItem>,
) -> (r: (NewPlayers, Vec<Effect>, Vec<AdmissionOutcome>))
    requires
        uuid_map_of(snap.old_by_uuid) == snap_index(snap.entries@),
    ensures
        r.0.wf(),
        ({
            let res = spec_pass(*settings, snap.entries@, logins@);
            &&& r.0.model() == res.acc
            &&& r.1@ == res.effects
            &&& r.2@ == res.outcomes
        }),
{
    let mut acc = NewPlayers::new();
    let mut effects: Vec<Effect> = Vec::new();
    let mut outcomes: Vec<AdmissionOutcome> = Vec::new();
    let mut i: usize = 0;
    while i < logins.len()
        invariant
            i <= logins@.len(),
            acc.wf(),
            uuid_map_of(snap.old_by_uuid) == snap_index(snap.entries@),
            acc.model() == spec_pass(*settings, snap.entries@, logins@.take(i as int)).acc,
            effects@ == spec_pass(*settings, snap.entries@, logins@.take(i as int)).effects,
            outcomes@ == spec_pass(*settings, snap.entries@, logins@.take(i as int)).outcomes,
        decreases logins@.len() - i,
    {
        proof {
            assert(logins@.take(i as int + 1).drop_last() =~= logins@.take(i as int));
            assert(logins@.take(i as int + 1).last() == logins@[i as int]);
        }
        let outcome = process_login(settings, snap, &logins[i], &mut acc, &mut effects);
        outcomes.push(outcome);
        i = i + 1;
    }
    proof {
        assert(logins@.take(logins@.len() as int) =~= logins@);
    }
    (acc, effects, outcomes)
}

/// What the roster merge does: the roster afterwards, the effects it
/// appends, and the `Add` notifications to broadcast, in staging order.
pub struct MergeRes {
    pub players: Seq<PlayerRecord>,
    pub effects: Seq<Effect>,
    pub msgs: Seq<(u64, PlayerInfo)>,
}

/// The roster record a staged admission becomes.
pub open spec fn record_of_entry(e: NewPlayerEntry) -> PlayerRecord {
    PlayerRecord {
        entity: e.entity,
        uid: e.uid,
        client_type: Some(e.client_type),
        alias: e.player.alias,
        uuid: e.player.uuid,
        battle_mode: e.player.battle_mode,
        is_moderator: e.admin is Some,
        character: None,
    }
}

/// The merge of one tick's staged admissions into the roster, in staging
/// order.
pub open spec fn spec_merge(players: Seq<PlayerRecord>, entries: Seq<NewPlayerEntry>) -> MergeRes
    decreases entries.len(),
{
    if entries.len() == 0 {
        MergeRes { players, effects: Seq::empty(), msgs: Seq::empty() }
    } else {
        let prev = spec_merge(players, entries.drop_last());
        let e = entries.last();
        MergeRes {
            players: prev.players.push(record_of_entry(e)),
            effects: prev.effects + match e.admin {
                Some(role) => seq![
                    Effect::MakeAdmin { entity: e.entity, role, uuid: e.player.uuid },
                ],
                None => Seq::empty(),
            },
            msgs: prev.msgs + match e.list_msg {
                Some(info) => seq![(e.uid, info)],
                None => Seq::empty(),
            },
        }
    }
}

/// Merge the accepted admissions of one pass into the roster, in staging
/// order, and hand back the `Add` notifications to broadcast.
pub fn merge_new_players(
    players: &mut Vec<PlayerRecord>,
    acc: NewPlayers,
    effects: &mut Vec<Effect>,
) -> (msgs: Vec<(u64, PlayerInfo)>)
    ensures
        ({
            let res = spec_merge(old(players)@, acc.entries@);
            &&& final(players)@ == res.players
            &&& final(effects)@ == old(effects)@ + res.effects
            &&& msgs@ == res.msgs
        }),
{
    let mut msgs: Vec<(u64, PlayerInfo)> = Vec::new();
    let mut i: usize = 0;
    proof {
        lemma_append_empty(effects@);
    }
    while i < acc.entries.len()
        invariant
            i <= acc.entries@.len(),
            players@ == spec_merge(old(players)@, acc.entries@.take(i as int)).players,
            effects@ == old(effects)@ + spec_merge(old(players)@, acc.entries@.take(i as int))
                .effects,
            msgs@ == spec_merge(old(players)@, acc.entries@.take(i as int)).msgs,
        decreases acc.entries@.len() - i,
    {
        proof {
            assert(acc.entries@.take(i as int + 1).drop_last() =~= acc.entries@.take(i as int));
            assert(acc.entries@.take(i as int + 1).last() == acc.entries@[i as int]);
        }
        let e = &acc.entries[i];
        let record = PlayerRecord {
            entity: e.entity,
            uid: e.uid,
            client_type: Some(e.client_type),
            alias: e.player.alias.clone(),
            uuid: e.player.uuid,
            battle_mode: e.player.battle_mode,
            is_moderator: e.admin.is_some(),
            character: None,
        };
        players.push(record);
        if let Some(role) = e.admin {
            effects.push(Effect::MakeAdmin { entity: e.entity, role, uuid: e.player.uuid });
            proof {
                let res = spec_merge(old(players)@, acc.entries@.take(i as int + 1));
                assert(effects@ =~= old(effects)@ + res.effects);
            }
        }
        if let Some(info) = &e.list_msg {
            msgs.push((e.uid, info.clone()));
            proof {
                let res = spec_merge(old(players)@, acc.entries@.take(i as int + 1));
                assert(msgs@ =~= res.msgs);
            }
        }
        proof {
            let res = spec_merge(old(players)@, acc.entries@.take(i as int + 1));
            assert(effects@ =~= old(effects)@ + res.effects);
            assert(msgs@ =~= res.msgs);
        }
        i = i + 1;
    }
    proof {
        assert(acc.entries@.take(acc.entries@.len() as int) =~= acc.entries@);
    }
    msgs
}

/// The `Add` notifications one session receives, in staging order.
pub open spec fn adds_for(entity: u64, msgs: Seq<(u64, PlayerInfo)>) -> Seq<Effect> {
    msgs.map_values(
        |m: (u64, PlayerInfo)| Effect::Send {
            to: entity,
            msg: ServerMsg::PlayerList(PlayerListUpdate::Add(m.0, m.1)),
        },
    )
}

/// The tick-end broadcast: every roster record with a live connection gets
/// each `Add` notification, in staging order.
pub open spec fn spec_broadcast(players: Seq<PlayerRecord>, msgs: Seq<(u64, PlayerInfo)>) -> Seq<
    Effect,
>
    decreases players.len(),
{
    if players.len() == 0 {
        Seq::empty()
    } else {
        spec_broadcast(players.drop_last(), msgs) + if players.last().client_type is Some {
            adds_for(players.last().entity, msgs)
        } else {
            Seq::empty()
        }
    }
}

/// Fan the `Add` notifications of this tick out to every connected player,
/// the newly admitted ones included.
pub fn broadcast_adds(
    players: &Vec<PlayerRecord>,
    msgs: &Vec<(u64, PlayerInfo)>,
    effects: &mut Vec<Effect>,
)
    ensures
        final(effects)@ == old(effects)@ + spec_broadcast(players@, msgs@),
{
    let mut i: usize = 0;
    proof {
        lemma_append_empty(effects@);
    }
    while i < players.len()
        invariant
            i <= players@.len(),
            effects@ == old(effects)@ + spec_broadcast(players@.take(i as int), msgs@),
        decreases players@.len() - i,
    {
        proof {
            assert(players@.take(i as int + 1).drop_last() =~= players@.take(i as int));
            assert(players@.take(i as int + 1).last() == players@[i as int]);
        }
        let target = &players[i];
        if target.client_type.is_some() {
            let entity = target.entity;
            let ghost base = effects@;
            let mut k: usize = 0;
            while k < msgs.len()
                invariant
                    k <= msgs@.len(),
                    effects@ == base + adds_for(entity, msgs@).take(k as int),
                decreases msgs@.len() - k,
            {
                let m = &msgs[k];
                effects.push(
                    Effect::Send {
                        to: entity,
                        msg: ServerMsg::PlayerList(PlayerListUpdate::Add(m.0, m.1.clone())),
                    },
                );
                proof {
                    assert(adds_for(entity, msgs@).take(k as int + 1) =~= adds_for(
                        entity,
                        msgs@,
                    ).take(k as int).push(adds_for(entity, msgs@)[k as int]));
                    assert(effects@ =~= base + adds_for(entity, msgs@).take(k as int + 1));
                }
                k = k + 1;
            }
            proof {
                assert(adds_for(entity, msgs@).take(msgs@.len() as int) =~= adds_for(
                    entity,
                    msgs@,
                ));
                assert(effects@ =~= old(effects)@ + spec_broadcast(
                    players@.take(i as int + 1),
                    msgs@,
                ));
            }
        } else {
            proof {
                assert(effects@ =~= old(effects)@ + spec_broadcast(
                    players@.take(i as int + 1),
                    msgs@,
                ));
            }
        }
        i = i + 1;
    }
    proof {
        assert(players@.take(players@.len() as int) =~= players@);
    }
}

} // verus!
