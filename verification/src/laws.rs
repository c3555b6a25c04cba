//! The guarantees of the admission engine, stated and proved over the
//! models of the pass, the merge, and the broadcast.

use crate::admission::{
    entries_index, lemma_entries_index_complete, record_of_entry, spec_admin_role, spec_broadcast,
    spec_merge, spec_pass, spec_role_ok, spec_step, valid_alias, AccModel, AdmissionOutcome,
    Effect, LoginItem, NewPlayerEntry, Settings,
};
use crate::msg::{
    ClientType, DisconnectCause, DisconnectReason, PlayerListUpdate, RegisterError, ServerMsg,
};
use crate::roster::{
    emits, lemma_snap_index_complete, roster_uuids_unique, snap_index, spec_snapshot_entries,
    PlayerRecord, SnapshotEntry,
};
use vstd::prelude::*;

verus! {

/// A snapshot has at most one line per roster record.
pub proof fn lemma_snapshot_len(players: Seq<PlayerRecord>)
    ensures
        spec_snapshot_entries(players).len() <= players.len(),
    decreases players.len(),
{
    if players.len() > 0 {
        lemma_snapshot_len(players.drop_last());
    }
}

/// Every broadcast-visible record is covered by a snapshot line carrying
/// its account UUID.
pub proof fn lemma_snapshot_covers(players: Seq<PlayerRecord>, i: int)
    requires
        0 <= i < players.len(),
        emits(players[i]),
    ensures
        exists|j: int|
            0 <= j < spec_snapshot_entries(players).len() && #[trigger] spec_snapshot_entries(
                players,
            )[j].info.uuid == players[i].uuid,
    decreases players.len(),
{
    let entries = spec_snapshot_entries(players);
    if i == players.len() - 1 {
        assert(entries[entries.len() - 1].info.uuid == players[i].uuid);
    } else {
        lemma_snapshot_covers(players.drop_last(), i);
        let prefix = spec_snapshot_entries(players.drop_last());
        let j = choose|j: int|
            0 <= j < prefix.len() && #[trigger] prefix[j].info.uuid == players[i].uuid;
        assert(entries[j].info.uuid == players[i].uuid);
    }
}

/// Everything the accumulator of a pass can hold: no staged account was
/// live before the tick, no account is staged twice, and the staging never
/// grows past the player cap.
pub proof fn lemma_pass_entries_sound(
    settings: Settings,
    snap_entries: Seq<SnapshotEntry>,
    logins: Seq<LoginItem>,
)
    ensures
        ({
            let entries = spec_pass(settings, snap_entries, logins).acc.entries;
            &&& forall|k: int|
                0 <= k < entries.len() ==> !snap_index(snap_entries).contains_key(
                    #[trigger] entries[k].player.uuid,
                )
            &&& forall|k: int, l: int|
                0 <= k < l < entries.len() ==> entries[k].player.uuid != entries[l].player.uuid
            &&& entries.len() <= if snap_entries.len() < settings.max_players as int {
                settings.max_players as int - snap_entries.len()
            } else {
                0
            }
        }),
    decreases logins.len(),
{
    if logins.len() > 0 {
        lemma_pass_entries_sound(settings, snap_entries, logins.drop_last());
        let prev = spec_pass(settings, snap_entries, logins.drop_last());
        let item = logins.last();
        let entries = spec_pass(settings, snap_entries, logins).acc.entries;
        if entries.len() > prev.acc.entries.len() {
            let uuid = item.pending.state->uuid;
            lemma_entries_index_complete(prev.acc.entries, uuid);
            assert(forall|k: int|
                0 <= k < prev.acc.entries.len() ==> #[trigger] prev.acc.entries[k].player.uuid
                    != uuid);
        }
    }
}

/// The merge appends one roster record per staged admission, in staging
/// order, and touches nothing else.
pub proof fn lemma_merge_shape(players: Seq<PlayerRecord>, entries: Seq<NewPlayerEntry>)
    ensures
        spec_merge(players, entries).players == players + entries.map_values(
            |e: NewPlayerEntry| record_of_entry(e),
        ),
    decreases entries.len(),
{
    if entries.len() == 0 {
        assert(spec_merge(players, entries).players =~= players + entries.map_values(
            |e: NewPlayerEntry| record_of_entry(e),
        ));
    } else {
        lemma_merge_shape(players, entries.drop_last());
        assert(spec_merge(players, entries).players =~= players + entries.map_values(
            |e: NewPlayerEntry| record_of_entry(e),
        ));
    }
}

/// At most one live session per account: if the roster's broadcast-visible
/// records carry pairwise distinct account UUIDs before a tick, they still
/// do after the tick's admissions are merged in.
pub proof fn lemma_at_most_one_session_per_account(
    players: Seq<PlayerRecord>,
    settings: Settings,
    logins: Seq<LoginItem>,
)
    requires
        roster_uuids_unique(players),
        players.len() <= u64::MAX,
    ensures
        roster_uuids_unique(
            spec_merge(
                players,
                spec_pass(settings, spec_snapshot_entries(players), logins).acc.entries,
            ).players,
        ),
{
    let snap_entries = spec_snapshot_entries(players);
    let entries = spec_pass(settings, snap_entries, logins).acc.entries;
    let merged = spec_merge(players, entries).players;
    lemma_pass_entries_sound(settings, snap_entries, logins);
    lemma_merge_shape(players, entries);
    lemma_snapshot_len(players);
    let recs = entries.map_values(|e: NewPlayerEntry| record_of_entry(e));
    assert forall|i: int, j: int|
        0 <= i < j < merged.len() && emits(merged[i]) && emits(merged[j]) implies merged[i].uuid
        != merged[j].uuid by {
        if i < players.len() && j >= players.len() {
            let k = j - players.len();
            assert(merged[j] == recs[k]);
            assert(merged[j].uuid == entries[k].player.uuid);
            if merged[i].uuid == merged[j].uuid {
                lemma_snapshot_covers(players, i);
                lemma_snap_index_complete(snap_entries, players[i].uuid);
                assert(snap_index(snap_entries).contains_key(entries[k].player.uuid));
            }
        } else if i >= players.len() {
            let k = i - players.len();
            let l = j - players.len();
            assert(merged[i] == recs[k]);
            assert(merged[j] == recs[l]);
            assert(entries[k].player.uuid != entries[l].player.uuid);
        }
    }
}

/// Capacity enforcement: a login that would push the server past
/// `max_players` is rejected with a capacity error and stages nothing.
pub proof fn lemma_capacity_rejection(
    settings: Settings,
    snap_entries: Seq<SnapshotEntry>,
    item: LoginItem,
    acc: AccModel,
)
    requires
        item.pending.state is Succeeded,
        spec_role_ok(
            item.client_type,
            spec_admin_role(settings.admins@, item.pending.state->uuid),
        ),
        snap_entries.len() + acc.entries.len() >= settings.max_players as int,
    ensures
        ({
            let res = spec_step(settings, snap_entries, item, acc);
            &&& res.outcome == AdmissionOutcome::Failed(RegisterError::TooManyPlayers)
            &&& res.acc.entries == acc.entries
            &&& res.acc.retries == acc.retries
        }),
{
}

/// Capacity enforcement: a roster within the player cap stays within it
/// across a tick, however many logins the pass processes.
pub proof fn lemma_roster_stays_capped(
    players: Seq<PlayerRecord>,
    settings: Settings,
    logins: Seq<LoginItem>,
)
    requires
        spec_snapshot_entries(players).len() <= settings.max_players as int,
    ensures
        ({
            let merged = spec_merge(
                players,
                spec_pass(settings, spec_snapshot_entries(players), logins).acc.entries,
            ).players;
            spec_snapshot_entries(merged).len() <= settings.max_players as int
        }),
{
    let snap_entries = spec_snapshot_entries(players);
    let entries = spec_pass(settings, snap_entries, logins).acc.entries;
    let merged = spec_merge(players, entries).players;
    lemma_pass_entries_sound(settings, snap_entries, logins);
    lemma_merge_shape(players, entries);
    let recs = entries.map_values(|e: NewPlayerEntry| record_of_entry(e));
    lemma_snapshot_concat(players, recs);
    lemma_snapshot_len(recs);
    assert(spec_snapshot_entries(merged).len() <= snap_entries.len() + recs.len());
}

/// A snapshot of a roster built from two parts is the two parts'
/// snapshots, one after the other.
pub proof fn lemma_snapshot_concat(a: Seq<PlayerRecord>, b: Seq<PlayerRecord>)
    ensures
        spec_snapshot_entries(a + b) == spec_snapshot_entries(a) + spec_snapshot_entries(b),
    decreases b.len(),
{
    if b.len() == 0 {
        assert(a + b =~= a);
        assert(spec_snapshot_entries(a + b) =~= spec_snapshot_entries(a)
            + spec_snapshot_entries(b));
    } else {
        lemma_snapshot_concat(a, b.drop_last());
        assert((a + b).drop_last() =~= a + b.drop_last());
        assert((a + b).last() == b.last());
        assert(spec_snapshot_entries(a + b) =~= spec_snapshot_entries(a)
            + spec_snapshot_entries(b));
    }
}


/// Tie-break across ticks: when a resolved login finds a live older
/// session holding the same account, the older session is the one told to
/// disconnect for a newer login, and the newer session is queued to retry
/// next tick -- never the reverse.
pub proof fn lemma_newer_login_wins_across_ticks(
    settings: Settings,
    snap_entries: Seq<SnapshotEntry>,
    item: LoginItem,
    acc: AccModel,
)
    requires
        item.pending.state is Succeeded,
        spec_role_ok(
            item.client_type,
            spec_admin_role(settings.admins@, item.pending.state->uuid),
        ),
        snap_entries.len() + acc.entries.len() < settings.max_players as int,
        snap_index(snap_entries).contains_key(item.pending.state->uuid),
        snap_entries[snap_index(snap_entries)[item.pending.state->uuid] as int].has_client,
    ensures
        ({
            let old_line = snap_entries[
                snap_index(snap_entries)[item.pending.state->uuid] as int
            ];
            let res = spec_step(settings, snap_entries, item, acc);
            &&& res.outcome == (AdmissionOutcome::RetryNextTick { old_entity: old_line.entity })
            &&& res.acc.entries == acc.entries
            &&& res.acc.retries == acc.retries.push((item.entity, item.pending))
            &&& res.effects == seq![
                Effect::Send {
                    to: old_line.entity,
                    msg: ServerMsg::Disconnect(DisconnectReason::NewerLogin),
                },
                Effect::Disconnect {
                    entity: old_line.entity,
                    cause: DisconnectCause::NewerLogin,
                },
            ]
        }),
{
}

/// Tie-break within a tick: when two sessions resolve the same account in
/// one pass, the one staged first keeps its staged entry; the later one is
/// queued to retry, and the staged session is the one told to disconnect.
pub proof fn lemma_newer_login_wins_within_tick(
    settings: Settings,
    snap_entries: Seq<SnapshotEntry>,
    item: LoginItem,
    acc: AccModel,
)
    requires
        item.pending.state is Succeeded,
        spec_role_ok(
            item.client_type,
            spec_admin_role(settings.admins@, item.pending.state->uuid),
        ),
        snap_entries.len() + acc.entries.len() < settings.max_players as int,
        !snap_index(snap_entries).contains_key(item.pending.state->uuid),
        entries_index(acc.entries).contains_key(item.pending.state->uuid),
    ensures
        ({
            let winner = entries_index(acc.entries)[item.pending.state->uuid];
            let res = spec_step(settings, snap_entries, item, acc);
            &&& res.outcome == (AdmissionOutcome::RetryNextTick { old_entity: winner })
            &&& res.acc.entries == acc.entries
            &&& res.acc.retries == acc.retries.push((item.entity, item.pending))
        }),
{
}

/// Role gating: a silent-spectator session whose account resolves to no
/// administrative role is always turned away as an invalid client type,
/// however valid its credentials were.
pub proof fn lemma_silent_spectator_needs_role(
    settings: Settings,
    snap_entries: Seq<SnapshotEntry>,
    item: LoginItem,
    acc: AccModel,
)
    requires
        item.pending.state is Succeeded,
        item.client_type == ClientType::SilentSpectator,
        spec_admin_role(settings.admins@, item.pending.state->uuid) is None,
    ensures
        ({
            let res = spec_step(settings, snap_entries, item, acc);
            &&& res.outcome == AdmissionOutcome::InvalidClientType
            &&& res.acc.entries == acc.entries
            &&& res.acc.retries == acc.retries
            &&& res.effects == seq![
                Effect::Disconnect {
                    entity: item.entity,
                    cause: DisconnectCause::InvalidClientType,
                },
            ]
        }),
{
}

/// Idempotent retry: a login deferred earlier and carrying a pre-resolved
/// success is admitted once nothing holds its account any more, staging
/// exactly one entry for that account; re-authentication never happens,
/// since the pass reads only the stored resolution.
pub proof fn lemma_deferred_login_admitted_once(
    settings: Settings,
    snap_entries: Seq<SnapshotEntry>,
    item: LoginItem,
    acc: AccModel,
)
    requires
        item.pending.state is Succeeded,
        spec_role_ok(
            item.client_type,
            spec_admin_role(settings.admins@, item.pending.state->uuid),
        ),
        snap_entries.len() + acc.entries.len() < settings.max_players as int,
        !snap_index(snap_entries).contains_key(item.pending.state->uuid),
        !entries_index(acc.entries).contains_key(item.pending.state->uuid),
        valid_alias(item.pending.state->username@),
    ensures
        ({
            let uuid = item.pending.state->uuid;
            let res = spec_step(settings, snap_entries, item, acc);
            &&& res.outcome == AdmissionOutcome::AdmittedNew
            &&& res.acc.entries.len() == acc.entries.len() + 1
            &&& res.acc.entries.last().player.uuid == uuid
            &&& res.acc.entries.last().entity == item.entity
            &&& forall|k: int|
                0 <= k < acc.entries.len() ==> #[trigger] res.acc.entries[k] == acc.entries[k]
                    && acc.entries[k].player.uuid != uuid
            &&& res.acc.retries == acc.retries
        }),
{
    lemma_entries_index_complete(acc.entries, item.pending.state->uuid);
}

/// Whether this effect delivers the tick-start roster snapshot.
pub open spec fn is_roster_init(e: Effect) -> bool {
    e is SendRosterInit
}

/// Whether this effect delivers a roster `Add` increment.
pub open spec fn is_add_send(e: Effect) -> bool {
    e matches Effect::Send { msg: ServerMsg::PlayerList(PlayerListUpdate::Add(_, _)), .. }
}

/// One step of the pass never queues a roster `Add`.
proof fn lemma_step_no_add_sends(
    settings: Settings,
    snap_entries: Seq<SnapshotEntry>,
    item: LoginItem,
    acc: AccModel,
)
    ensures
        forall|k: int|
            0 <= k < spec_step(settings, snap_entries, item, acc).effects.len()
                ==> !is_add_send(#[trigger] spec_step(settings, snap_entries, item, acc).effects[k]),
{
}

/// The whole pass never queues a roster `Add`.
proof fn lemma_pass_no_add_sends(
    settings: Settings,
    snap_entries: Seq<SnapshotEntry>,
    logins: Seq<LoginItem>,
)
    ensures
        forall|k: int|
            0 <= k < spec_pass(settings, snap_entries, logins).effects.len() ==> !is_add_send(
                #[trigger] spec_pass(settings, snap_entries, logins).effects[k],
            ),
    decreases logins.len(),
{
    if logins.len() > 0 {
        lemma_pass_no_add_sends(settings, snap_entries, logins.drop_last());
        let prev = spec_pass(settings, snap_entries, logins.drop_last());
        lemma_step_no_add_sends(settings, snap_entries, logins.last(), prev.acc);
    }
}

/// The merge queues role grants and nothing else.
proof fn lemma_merge_effects_admin_only(players: Seq<PlayerRecord>, entries: Seq<NewPlayerEntry>)
    ensures
        forall|k: int|
            0 <= k < spec_merge(players, entries).effects.len()
                ==> #[trigger] spec_merge(players, entries).effects[k] is MakeAdmin,
    decreases entries.len(),
{
    if entries.len() > 0 {
        lemma_merge_effects_admin_only(players, entries.drop_last());
    }
}

/// The broadcast queues roster `Add` deliveries and nothing else.
proof fn lemma_broadcast_adds_only(
    players: Seq<PlayerRecord>,
    msgs: Seq<(u64, crate::msg::PlayerInfo)>,
)
    ensures
        forall|k: int|
            0 <= k < spec_broadcast(players, msgs).len() ==> is_add_send(
                #[trigger] spec_broadcast(players, msgs)[k],
            ),
    decreases players.len(),
{
    if players.len() > 0 {
        lemma_broadcast_adds_only(players.drop_last(), msgs);
        let bc = spec_broadcast(players, msgs);
        let prefix = spec_broadcast(players.drop_last(), msgs);
        assert forall|k: int| 0 <= k < bc.len() implies is_add_send(#[trigger] bc[k]) by {
            if k < prefix.len() {
                assert(bc[k] == prefix[k]);
            } else {
                let af = crate::admission::adds_for(players.last().entity, msgs);
                assert(bc[k] == af[k - prefix.len()]);
                assert(af[k - prefix.len()] == Effect::Send {
                    to: players.last().entity,
                    msg: ServerMsg::PlayerList(
                        PlayerListUpdate::Add(msgs[k - prefix.len()].0, msgs[k - prefix.len()].1),
                    ),
                });
            }
        }
    }
}

/// Roster ordering: in a tick's effect list, every delivery of the roster
/// snapshot comes before every roster `Add` delivery, so no client can see
/// an `Add` for this tick before its own `Init`.
pub proof fn lemma_init_precedes_adds(
    players: Seq<PlayerRecord>,
    settings: Settings,
    logins: Seq<LoginItem>,
)
    ensures
        ({
            let pass = spec_pass(settings, spec_snapshot_entries(players), logins);
            let merge = spec_merge(players, pass.acc.entries);
            let effects = pass.effects + merge.effects + spec_broadcast(
                merge.players,
                merge.msgs,
            );
            forall|i: int, j: int|
                0 <= i < effects.len() && 0 <= j < effects.len() && is_roster_init(
                    #[trigger] effects[i],
                ) && is_add_send(#[trigger] effects[j]) ==> i < j
        }),
{
    let snap_entries = spec_snapshot_entries(players);
    let pass = spec_pass(settings, snap_entries, logins);
    let merge = spec_merge(players, pass.acc.entries);
    let casts = spec_broadcast(merge.players, merge.msgs);
    let effects = pass.effects + merge.effects + casts;
    lemma_pass_no_add_sends(settings, snap_entries, logins);
    lemma_merge_effects_admin_only(players, pass.acc.entries);
    lemma_broadcast_adds_only(merge.players, merge.msgs);
    assert forall|i: int, j: int|
        0 <= i < effects.len() && 0 <= j < effects.len() && is_roster_init(effects[i])
            && is_add_send(effects[j]) implies i < j by {
        let p = pass.effects.len() as int;
        let m = merge.effects.len() as int;
        if i >= p + m {
            assert(is_add_send(casts[i - p - m]));
        } else if i >= p {
            assert(merge.effects[i - p] is MakeAdmin);
        }
        if j < p {
            assert(!is_add_send(pass.effects[j]));
        } else if j < p + m {
            assert(merge.effects[j - p] is MakeAdmin);
        }
    }
}


/// The central invariant at the level of one whole tick: starting from a
/// roster whose broadcast-visible records carry distinct account UUIDs,
/// the roster a tick leaves behind does so too, whatever the connections
/// were up to.
pub proof fn lemma_tick_keeps_accounts_unique(w: crate::tick::World)
    requires
        roster_uuids_unique(w.players@),
        w.players@.len() <= u64::MAX,
    ensures
        ({
            let logins = crate::tick::spec_collect(
                crate::tick::intaken_conns(w.connections@),
                w.players@,
            );
            let pass = spec_pass(w.settings, spec_snapshot_entries(w.players@), logins);
            roster_uuids_unique(spec_merge(w.players@, pass.acc.entries).players)
        }),
{
    let logins = crate::tick::spec_collect(
        crate::tick::intaken_conns(w.connections@),
        w.players@,
    );
    lemma_at_most_one_session_per_account(w.players@, w.settings, logins);
}

/// Capacity at the level of one whole tick: a roster within the player
/// cap stays within it, whatever the connections were up to.
pub proof fn lemma_tick_keeps_roster_capped(w: crate::tick::World)
    requires
        spec_snapshot_entries(w.players@).len() <= w.settings.max_players as int,
    ensures
        ({
            let logins = crate::tick::spec_collect(
                crate::tick::intaken_conns(w.connections@),
                w.players@,
            );
            let pass = spec_pass(w.settings, spec_snapshot_entries(w.players@), logins);
            spec_snapshot_entries(spec_merge(w.players@, pass.acc.entries).players).len()
                <= w.settings.max_players as int
        }),
{
    let logins = crate::tick::spec_collect(
        crate::tick::intaken_conns(w.connections@),
        w.players@,
    );
    lemma_roster_stays_capped(w.players@, w.settings, logins);
}

} // verus!
