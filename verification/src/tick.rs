//! One simulation tick of the registration subsystem: snapshot, intake,
//! admission pass, tracker bookkeeping, roster merge, and broadcast.

use crate::admission::{
    broadcast_adds, merge_new_players, run_admission_pass, spec_broadcast, spec_merge, spec_pass,
    AccModel, Effect, LoginItem, NewPlayers, PendingLogin, PendingState, Settings,
};
use crate::msg::ClientRegister;
use crate::roster::{build_snapshot, spec_snapshot_entries, PlayerRecord, RosterSnapshot};
use vstd::prelude::*;

verus! {

/// One network connection and its negotiated attributes, together with its
/// per-connection slots: queued registration requests and the tracked
/// login attempt.
pub struct Connection {
    pub entity: u64,
    pub uid: u64,
    pub client_type: crate::msg::ClientType,
    pub locale: Option<String>,
    /// Registration requests received and not yet consumed; intake drains
    /// one per tick.
    pub inbox: Vec<ClientRegister>,
    /// The in-flight or resolved login attempt, if any.
    pub pending: Option<PendingLogin>,
}

/// Equality on every connection attribute except the inbox.
pub open spec fn conn_eq_mod_inbox(a: Connection, b: Connection) -> bool {
    &&& a.entity == b.entity
    &&& a.uid == b.uid
    &&& a.client_type == b.client_type
    &&& a.locale == b.locale
    &&& a.pending == b.pending
}

/// What intake does to one connection, the inbox left aside: the first
/// queued registration request becomes a fresh unresolved login, and a
/// locale carried on the request replaces the connection's.
pub open spec fn intake_conn(c: Connection) -> Connection {
    if c.inbox@.len() == 0 {
        c
    } else {
        let m = c.inbox@[0];
        Connection {
            locale: match m.locale {
                Some(l) => Some(l),
                None => c.locale,
            },
            pending: Some(PendingLogin { token: m.token_or_username, state: PendingState::Unresolved }),
            ..c
        }
    }
}

/// The inbox after intake: one request consumed, if one was queued.
pub open spec fn intaken_inbox(c: Connection) -> Seq<ClientRegister> {
    if c.inbox@.len() == 0 {
        c.inbox@
    } else {
        c.inbox@.drop_first()
    }
}

/// The world state this subsystem owns: configuration, the roster, and
/// every live connection.
pub struct World {
    pub settings: Settings,
    pub players: Vec<PlayerRecord>,
    pub connections: Vec<Connection>,
}

/// Absorb at most one registration request per connection into the
/// pending-login tracker, updating locales along the way.
pub fn intake(world: &mut World)
    ensures
        final(world).settings == old(world).settings,
        final(world).players == old(world).players,
        final(world).connections@.len() == old(world).connections@.len(),
        forall|j: int|
            0 <= j < old(world).connections@.len() ==> conn_eq_mod_inbox(
                #[trigger] final(world).connections@[j],
                intake_conn(old(world).connections@[j]),
            ) && final(world).connections@[j].inbox@ == intaken_inbox(
                old(world).connections@[j],
            ),
{
    let mut i: usize = 0;
    while i < world.connections.len()
        invariant
            i <= world.connections@.len(),
            world.settings == old(world).settings,
            world.players == old(world).players,
            world.connections@.len() == old(world).connections@.len(),
            forall|j: int|
                i <= j < world.connections@.len() ==> #[trigger] world.connections@[j] == old(
                    world,
                ).connections@[j],
            forall|j: int|
                0 <= j < i ==> conn_eq_mod_inbox(
                    #[trigger] world.connections@[j],
                    intake_conn(old(world).connections@[j]),
                ) && world.connections@[j].inbox@ == intaken_inbox(old(world).connections@[j]),
        decreases world.connections@.len() - i,
    {
        let ghost before = world.connections@;
        let mut c = world.connections.remove(i);
        if c.inbox.len() > 0 {
            let ghost inbox_before = c.inbox@;
            let m = c.inbox.remove(0);
            proof {
                assert(c.inbox@ =~= inbox_before.drop_first());
            }
            c.pending = Some(PendingLogin::new(m.token_or_username));
            if let Some(l) = m.locale {
                c.locale = Some(l);
            }
        }
        let ghost cg = c;
        world.connections.insert(i, c);
        proof {
            assert(world.connections@ =~= before.update(i as int, cg));
        }
        i = i + 1;
    }
}

/// Whether some roster record is bound to this entity.
pub open spec fn spec_is_bound(players: Seq<PlayerRecord>, entity: u64) -> bool {
    exists|j: int| 0 <= j < players.len() && players[j].entity == entity
}

/// Whether some roster record is bound to this entity.
pub fn contains_entity(players: &Vec<PlayerRecord>, entity: u64) -> (r: bool)
    ensures
        r == spec_is_bound(players@, entity),
{
    let mut i: usize = 0;
    while i < players.len()
        invariant
            i <= players@.len(),
            forall|j: int| 0 <= j < i ==> #[trigger] players@[j].entity != entity,
        decreases players@.len() - i,
    {
        if players[i].entity == entity {
            return true;
        }
        i = i + 1;
    }
    false
}

/// A copy of a connection's locale.
pub fn clone_locale(locale: &Option<String>) -> (r: Option<String>)
    ensures
        r == *locale,
{
    match locale {
        Some(l) => Some(l.clone()),
        None => None,
    }
}

/// The logins the admission pass will process: every connection that
/// tracks a login attempt and is not yet bound to a roster record, in
/// connection order.
pub open spec fn spec_collect(conns: Seq<Connection>, players: Seq<PlayerRecord>) -> Seq<
    LoginItem,
>
    decreases conns.len(),
{
    if conns.len() == 0 {
        Seq::empty()
    } else {
        let c = conns.last();
        spec_collect(conns.drop_last(), players) + match c.pending {
            Some(p) => if !spec_is_bound(players, c.entity) {
                seq![
                    LoginItem {
                        entity: c.entity,
                        uid: c.uid,
                        client_type: c.client_type,
                        locale: c.locale,
                        pending: p,
                    },
                ]
            } else {
                Seq::empty()
            },
            None => Seq::empty(),
        }
    }
}

/// Draw the pass's work list from the connections: each tracked login of a
/// connection without a roster record.
pub fn collect_logins(conns: &Vec<Connection>, players: &Vec<PlayerRecord>) -> (logins: Vec<
    LoginItem,
>)
    ensures
        logins@ == spec_collect(conns@, players@),
{
    let mut logins: Vec<LoginItem> = Vec::new();
    let mut i: usize = 0;
    while i < conns.len()
        invariant
            i <= conns@.len(),
            logins@ == spec_collect(conns@.take(i as int), players@),
        decreases conns@.len() - i,
    {
        proof {
            assert(conns@.take(i as int + 1).drop_last() =~= conns@.take(i as int));
            assert(conns@.take(i as int + 1).last() == conns@[i as int]);
        }
        let c = &conns[i];
        if let Some(p) = &c.pending {
            if !contains_entity(players, c.entity) {
                logins.push(
                    LoginItem {
                        entity: c.entity,
                        uid: c.uid,
                        client_type: c.client_type,
                        locale: clone_locale(&c.locale),
                        pending: p.clone(),
                    },
                );
            }
        }
        proof {
            assert(logins@ =~= spec_collect(conns@.take(i as int + 1), players@));
        }
        i = i + 1;
    }
    proof {
        assert(conns@.take(conns@.len() as int) =~= conns@);
    }
    logins
}

/// The retry queued for this entity during the pass, the last one winning.
pub open spec fn retries_lookup(retries: Seq<(u64, PendingLogin)>, entity: u64) -> Option<
    PendingLogin,
>
    decreases retries.len(),
{
    if retries.len() == 0 {
        None
    } else if retries.last().0 == entity {
        Some(retries.last().1)
    } else {
        retries_lookup(retries.drop_last(), entity)
    }
}

/// Find the retry queued for this entity, if any.
pub fn retries_find(retries: &Vec<(u64, PendingLogin)>, entity: u64) -> (r: Option<PendingLogin>)
    ensures
        r == retries_lookup(retries@, entity),
{
    let mut found: Option<usize> = None;
    let mut j: usize = 0;
    while j < retries.len()
        invariant
            j <= retries@.len(),
            match found {
                Some(f) => f < j && retries@[f as int].0 == entity && retries_lookup(
                    retries@.take(j as int),
                    entity,
                ) == Some(retries@[f as int].1),
                None => retries_lookup(retries@.take(j as int), entity) is None,
            },
        decreases retries@.len() - j,
    {
        proof {
            assert(retries@.take(j as int + 1).drop_last() =~= retries@.take(j as int));
            assert(retries@.take(j as int + 1).last() == retries@[j as int]);
        }
        if retries[j].0 == entity {
            found = Some(j);
        }
        j = j + 1;
    }
    proof {
        assert(retries@.take(retries@.len() as int) =~= retries@);
    }
    match found {
        Some(f) => Some(retries[f].1.clone()),
        None => None,
    }
}

/// Whether an entity's tracker entry concluded this pass.
pub fn finished_contains(finished: &Vec<u64>, entity: u64) -> (r: bool)
    ensures
        r == finished@.contains(entity),
{
    let mut i: usize = 0;
    while i < finished.len()
        invariant
            i <= finished@.len(),
            forall|j: int| 0 <= j < i ==> #[trigger] finished@[j] != entity,
        decreases finished@.len() - i,
    {
        if finished[i] == entity {
            proof {
                assert(finished@.contains(entity)) by {
                    assert(finished@[i as int] == entity);
                }
            }
            return true;
        }
        i = i + 1;
    }
    false
}

/// A connection's tracked login after the pass's bookkeeping: a queued
/// retry replaces it, a concluded attempt clears it, anything else stays.
pub open spec fn post_pass_pending(c: Connection, acc: AccModel) -> Option<PendingLogin> {
    match retries_lookup(acc.retries, c.entity) {
        Some(p) => Some(p),
        None => if acc.finished.contains(c.entity) {
            None
        } else {
            c.pending
        },
    }
}

/// A connection after the pass's tracker bookkeeping, the inbox left
/// aside.
pub open spec fn tracker_conn(c: Connection, acc: AccModel) -> Connection {
    Connection { pending: post_pass_pending(c, acc), ..c }
}

/// Apply the pass's tracker bookkeeping: drop concluded attempts, then
/// queue the retries for the next tick.
pub fn apply_tracker_updates(conns: &mut Vec<Connection>, acc: &NewPlayers)
    ensures
        final(conns)@.len() == old(conns)@.len(),
        forall|j: int|
            0 <= j < old(conns)@.len() ==> conn_eq_mod_inbox(
                #[trigger] final(conns)@[j],
                tracker_conn(old(conns)@[j], acc.model()),
            ) && final(conns)@[j].inbox@ == old(conns)@[j].inbox@,
{
    let mut i: usize = 0;
    while i < conns.len()
        invariant
            i <= conns@.len(),
            conns@.len() == old(conns)@.len(),
            forall|j: int|
                i <= j < conns@.len() ==> #[trigger] conns@[j] == old(conns)@[j],
            forall|j: int|
                0 <= j < i ==> conn_eq_mod_inbox(
                    #[trigger] conns@[j],
                    tracker_conn(old(conns)@[j], acc.model()),
                ) && conns@[j].inbox@ == old(conns)@[j].inbox@,
        decreases conns@.len() - i,
    {
        let ghost before = conns@;
        let mut c = conns.remove(i);
        match retries_find(&acc.retries, c.entity) {
            Some(p) => {
                c.pending = Some(p);
            },
            None => {
                if finished_contains(&acc.finished, c.entity) {
                    c.pending = None;
                }
            },
        }
        let ghost cg = c;
        conns.insert(i, c);
        proof {
            assert(conns@ =~= before.update(i as int, cg));
        }
        i = i + 1;
    }
}

/// A connection after an authenticator answer for this entity lands: a
/// tracked, matching attempt takes the answered state.
pub open spec fn resolve_conn(c: Connection, entity: u64, state: PendingState) -> Connection {
    if c.entity == entity {
        match c.pending {
            Some(p) => Connection {
                pending: Some(PendingLogin { token: p.token, state }),
                ..c
            },
            None => c,
        }
    } else {
        c
    }
}

/// Record the authenticator's answer for this entity's tracked login.
/// Returns whether a tracked attempt was found.
pub fn resolve_login(world: &mut World, entity: u64, state: PendingState) -> (found: bool)
    ensures
        final(world).settings == old(world).settings,
        final(world).players == old(world).players,
        final(world).connections@.len() == old(world).connections@.len(),
        forall|j: int|
            0 <= j < old(world).connections@.len() ==> conn_eq_mod_inbox(
                #[trigger] final(world).connections@[j],
                resolve_conn(old(world).connections@[j], entity, state),
            ) && final(world).connections@[j].inbox@ == old(world).connections@[j].inbox@,
        found == exists|j: int|
            0 <= j < old(world).connections@.len() && #[trigger] old(
                world,
            ).connections@[j].entity == entity && old(world).connections@[j].pending is Some,
{
    let mut found = false;
    let mut i: usize = 0;
    while i < world.connections.len()
        invariant
            i <= world.connections@.len(),
            world.settings == old(world).settings,
            world.players == old(world).players,
            world.connections@.len() == old(world).connections@.len(),
            forall|j: int|
                i <= j < world.connections@.len() ==> #[trigger] world.connections@[j] == old(
                    world,
                ).connections@[j],
            forall|j: int|
                0 <= j < i ==> conn_eq_mod_inbox(
                    #[trigger] world.connections@[j],
                    resolve_conn(old(world).connections@[j], entity, state),
                ) && world.connections@[j].inbox@ == old(world).connections@[j].inbox@,
            found == exists|j: int|
                0 <= j < i && #[trigger] old(world).connections@[j].entity == entity && old(
                    world,
                ).connections@[j].pending is Some,
        decreases world.connections@.len() - i,
    {
        let ghost before = world.connections@;
        let mut c = world.connections.remove(i);
        if c.entity == entity {
            match &c.pending {
                Some(p) => {
                    let token = p.token.clone();
                    c.pending = Some(PendingLogin { token, state: state.clone() });
                    found = true;
                },
                None => {},
            }
        }
        let ghost cg = c;
        world.connections.insert(i, c);
        proof {
            assert(world.connections@ =~= before.update(i as int, cg));
        }
        i = i + 1;
    }
    found
}


/// The pass's work list reads no inbox, so connections equal up to their
/// inboxes yield the same work list.
proof fn lemma_collect_eq_mod_inbox(
    a: Seq<Connection>,
    b: Seq<Connection>,
    players: Seq<PlayerRecord>,
)
    requires
        a.len() == b.len(),
        forall|i: int| 0 <= i < a.len() ==> conn_eq_mod_inbox(#[trigger] a[i], b[i]),
    ensures
        spec_collect(a, players) == spec_collect(b, players),
    decreases a.len(),
{
    if a.len() > 0 {
        assert(forall|i: int|
            0 <= i < a.drop_last().len() ==> conn_eq_mod_inbox(
                #[trigger] a.drop_last()[i],
                b.drop_last()[i],
            ));
        lemma_collect_eq_mod_inbox(a.drop_last(), b.drop_last(), players);
        assert(conn_eq_mod_inbox(a[a.len() - 1], b[b.len() - 1]));
    }
}

/// Every connection after intake, inboxes left aside.
pub open spec fn intaken_conns(conns: Seq<Connection>) -> Seq<Connection> {
    conns.map_values(|c: Connection| intake_conn(c))
}

/// Run one tick: snapshot the roster, absorb new registration requests,
/// run the admission pass, keep the tracker straight, merge the accepted
/// admissions, and queue the roster broadcast.
///
/// Returns the tick-start snapshot (whose player list every
/// [`Effect::SendRosterInit`] effect refers to) and the deferred effects,
/// to be performed in order.
pub fn run_tick(world: &mut World) -> (r: (RosterSnapshot, Vec<Effect>))
    ensures
        ({
            let conns1 = intaken_conns(old(world).connections@);
            let logins = spec_collect(conns1, old(world).players@);
            let pass = spec_pass(
                old(world).settings,
                spec_snapshot_entries(old(world).players@),
                logins,
            );
            let merge = spec_merge(old(world).players@, pass.acc.entries);
            &&& final(world).settings == old(world).settings
            &&& final(world).players@ == merge.players
            &&& r.1@ == pass.effects + merge.effects + spec_broadcast(merge.players, merge.msgs)
            &&& r.0.of(old(world).players@)
            &&& final(world).connections@.len() == old(world).connections@.len()
            &&& forall|j: int|
                0 <= j < old(world).connections@.len() ==> conn_eq_mod_inbox(
                    #[trigger] final(world).connections@[j],
                    tracker_conn(intake_conn(old(world).connections@[j]), pass.acc),
                ) && final(world).connections@[j].inbox@ == intaken_inbox(
                    old(world).connections@[j],
                )
        }),
{
    let ghost conns1 = intaken_conns(old(world).connections@);
    let n_players = world.players.len();
    proof {
        assert(n_players as nat == world.players@.len());
        assert(world.players@.len() <= u64::MAX);
    }
    let snap = build_snapshot(&world.players);
    intake(world);
    let ghost mid_conns = world.connections@;
    proof {
        assert(forall|i: int|
            0 <= i < mid_conns.len() ==> conn_eq_mod_inbox(#[trigger] mid_conns[i], conns1[i]));
        lemma_collect_eq_mod_inbox(mid_conns, conns1, world.players@);
    }
    let logins = collect_logins(&world.connections, &world.players);
    let pass_result = run_admission_pass(&world.settings, &snap, &logins);
    let acc = pass_result.0;
    let mut effects = pass_result.1;
    apply_tracker_updates(&mut world.connections, &acc);
    proof {
        let pass = spec_pass(
            old(world).settings,
            spec_snapshot_entries(old(world).players@),
            spec_collect(conns1, old(world).players@),
        );
        assert(acc.model() == pass.acc);
        assert forall|j: int| 0 <= j < old(world).connections@.len() implies conn_eq_mod_inbox(
            #[trigger] world.connections@[j],
            tracker_conn(intake_conn(old(world).connections@[j]), pass.acc),
        ) && world.connections@[j].inbox@ == intaken_inbox(old(world).connections@[j]) by {
            assert(conn_eq_mod_inbox(
                world.connections@[j],
                tracker_conn(mid_conns[j], acc.model()),
            ));
            assert(conn_eq_mod_inbox(mid_conns[j], intake_conn(old(world).connections@[j])));
        }
    }
    let msgs = merge_new_players(&mut world.players, acc, &mut effects);
    broadcast_adds(&world.players, &msgs, &mut effects);
    (snap, effects)
}

} // verus!
