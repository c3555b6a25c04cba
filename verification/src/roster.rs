//! The player roster and the immutable snapshot of it taken at the start of
//! every tick's admission pass.

use crate::msg::{BattleMode, CharacterInfo, ClientType, PlayerInfo};
use crate::uuid_map::{uuid_map_of, UuidMap};
use vstd::prelude::*;

verus! {

/// One logged-in account: the server-side record behind a roster entry.
///
/// `client_type` is `None` for the anomalous state of a player record whose
/// connection handle is already gone.
pub struct PlayerRecord {
    pub entity: u64,
    pub uid: u64,
    pub client_type: Option<ClientType>,
    pub alias: String,
    pub uuid: u128,
    pub battle_mode: BattleMode,
    pub is_moderator: bool,
    pub character: Option<CharacterInfo>,
}

/// Whether this record takes part in login/logout and player-list
/// broadcasts. A record without a connection handle is kept visible so the
/// anomaly cannot hide a stale entry.
pub open spec fn emits(r: PlayerRecord) -> bool {
    match r.client_type {
        Some(ct) => ct != ClientType::SilentSpectator,
        None => true,
    }
}

/// The roster entry shown to clients for this record.
pub open spec fn record_info(r: PlayerRecord) -> PlayerInfo {
    PlayerInfo {
        player_alias: r.alias,
        is_online: true,
        is_moderator: r.is_moderator,
        character: r.character,
        uuid: r.uuid,
    }
}

/// No two broadcast-visible records share an account UUID: the central
/// invariant of the roster.
pub open spec fn roster_uuids_unique(players: Seq<PlayerRecord>) -> bool {
    forall|i: int, j: int|
        0 <= i < j < players.len() && emits(players[i]) && emits(players[j])
            ==> players[i].uuid != players[j].uuid
}

/// One line of the tick-start snapshot: everything the admission pass may
/// read about a player that was already logged in.
pub struct SnapshotEntry {
    pub entity: u64,
    pub uid: u64,
    pub has_client: bool,
    pub info: PlayerInfo,
}

/// The snapshot lines for the given roster, in roster order, restricted to
/// broadcast-visible records.
pub open spec fn spec_snapshot_entries(players: Seq<PlayerRecord>) -> Seq<SnapshotEntry>
    decreases players.len(),
{
    if players.len() == 0 {
        Seq::empty()
    } else {
        let r = players.last();
        spec_snapshot_entries(players.drop_last()) + if emits(r) {
            seq![
                SnapshotEntry {
                    entity: r.entity,
                    uid: r.uid,
                    has_client: r.client_type is Some,
                    info: record_info(r),
                },
            ]
        } else {
            Seq::empty()
        }
    }
}

/// The lookup index of a snapshot: each line's account UUID mapped to the
/// line's position, later lines winning.
pub open spec fn snap_index(entries: Seq<SnapshotEntry>) -> Map<u128, u64>
    decreases entries.len(),
{
    if entries.len() == 0 {
        Map::empty()
    } else {
        snap_index(entries.drop_last()).insert(
            entries.last().info.uuid,
            (entries.len() - 1) as u64,
        )
    }
}

/// The snapshot of the roster taken before an admission pass: the
/// broadcast-visible players, and a hash index from account UUID to
/// snapshot line for duplicate-login detection.
pub struct RosterSnapshot {
    pub entries: Vec<SnapshotEntry>,
    pub old_by_uuid: UuidMap,
}

impl RosterSnapshot {
    /// The snapshot describes exactly the given roster.
    pub open spec fn of(&self, players: Seq<PlayerRecord>) -> bool {
        &&& self.entries@ == spec_snapshot_entries(players)
        &&& uuid_map_of(self.old_by_uuid) == snap_index(self.entries@)
    }
}

/// A UUID is in a snapshot's index exactly when one of its lines carries
/// it, and the indexed line always carries the UUID it is found under.
pub proof fn lemma_snap_index_complete(entries: Seq<SnapshotEntry>, uuid: u128)
    requires
        entries.len() <= u64::MAX,
    ensures
        snap_index(entries).contains_key(uuid) <==> exists|j: int|
            0 <= j < entries.len() && entries[j].info.uuid == uuid,
        snap_index(entries).contains_key(uuid) ==> {
            let j = snap_index(entries)[uuid] as int;
            0 <= j < entries.len() && entries[j].info.uuid == uuid
        },
    decreases entries.len(),
{
    if entries.len() > 0 {
        lemma_snap_index_complete(entries.drop_last(), uuid);
        if snap_index(entries).contains_key(uuid) {
            if entries.last().info.uuid != uuid {
                let j = snap_index(entries.drop_last())[uuid] as int;
                assert(entries[j].info.uuid == uuid);
            }
        }
        if exists|j: int| 0 <= j < entries.len() && entries[j].info.uuid == uuid {
            let j = choose|j: int| 0 <= j < entries.len() && entries[j].info.uuid == uuid;
            if j < entries.len() - 1 {
                assert(entries.drop_last()[j].info.uuid == uuid);
            }
        }
    }
}

/// The roster entry cloned into a snapshot or broadcast message.
pub fn make_player_info(r: &PlayerRecord) -> (info: PlayerInfo)
    ensures
        info == record_info(*r),
{
    PlayerInfo {
        player_alias: r.alias.clone(),
        is_online: true,
        is_moderator: r.is_moderator,
        character: match &r.character {
            Some(c) => Some(c.clone()),
            None => None,
        },
        uuid: r.uuid,
    }
}

/// Take the tick-start snapshot of the roster: the broadcast-visible
/// players in roster order, with a UUID index over them.
pub fn build_snapshot(players: &Vec<PlayerRecord>) -> (snap: RosterSnapshot)
    requires
        players@.len() <= u64::MAX,
    ensures
        snap.of(players@),
{
    let mut entries: Vec<SnapshotEntry> = Vec::new();
    let mut old_by_uuid = UuidMap::new();
    let mut i: usize = 0;
    while i < players.len()
        invariant
            i <= players@.len(),
            players@.len() <= u64::MAX,
            entries@ == spec_snapshot_entries(players@.take(i as int)),
            uuid_map_of(old_by_uuid) == snap_index(entries@),
        decreases players@.len() - i,
    {
        let r = &players[i];
        let is_visible = match &r.client_type {
            Some(ct) => ct.emit_login_events(),
            None => true,
        };
        proof {
            assert(players@.take(i as int + 1).drop_last() =~= players@.take(i as int));
            assert(players@.take(i as int + 1).last() == players@[i as int]);
        }
        if is_visible {
            let ghost prev_entries = entries@;
            let entry = SnapshotEntry {
                entity: r.entity,
                uid: r.uid,
                has_client: r.client_type.is_some(),
                info: make_player_info(r),
            };
            let pos = entries.len() as u64;
            entries.push(entry);
            let _ = old_by_uuid.insert(r.uuid, pos);
            proof {
                assert(entries@.drop_last() =~= prev_entries);
            }
        }
        proof {
            assert(entries@ =~= spec_snapshot_entries(players@.take(i as int + 1)));
        }
        i = i + 1;
    }
    proof {
        assert(players@.take(players@.len() as int) =~= players@);
    }
    RosterSnapshot { entries, old_by_uuid }
}

} // verus!
