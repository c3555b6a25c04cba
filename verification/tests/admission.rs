//! End-to-end ticks of the session admission engine.

use session_admission::admission::{
    AdmissionOutcome, Effect, NewPlayers, PendingLogin, PendingState, Settings,
};
use session_admission::msg::{
    AdminRole, BattleMode, ClientType, DisconnectCause, DisconnectReason, PlayerListUpdate,
    RegisterError, ServerDescription, ServerMsg,
};
use session_admission::roster::{build_snapshot, PlayerRecord};
use session_admission::tick::{intake, resolve_login, run_tick, Connection, World};

fn settings(max_players: u16) -> Settings {
    Settings {
        max_players,
        battle_mode: BattleMode::PvE,
        admins: Vec::new(),
        default_description: ServerDescription {
            motd: String::from("welcome"),
            rules: None,
        },
        descriptions: Vec::new(),
    }
}

fn record(entity: u64, uid: u64, alias: &str, uuid: u128) -> PlayerRecord {
    PlayerRecord {
        entity,
        uid,
        client_type: Some(ClientType::Game),
        alias: String::from(alias),
        uuid,
        battle_mode: BattleMode::PvE,
        is_moderator: false,
        character: None,
    }
}

fn conn(entity: u64, uid: u64) -> Connection {
    Connection {
        entity,
        uid,
        client_type: ClientType::Game,
        locale: None,
        inbox: Vec::new(),
        pending: None,
    }
}

fn succeeded(username: &str, uuid: u128) -> Option<PendingLogin> {
    Some(PendingLogin {
        token: String::from(username),
        state: PendingState::Succeeded {
            username: String::from(username),
            uuid,
        },
    })
}

fn admitted_uuids(world: &World) -> Vec<u128> {
    world.players.iter().map(|p| p.uuid).collect()
}

fn add_sends(effects: &[Effect]) -> Vec<(u64, u64, u128)> {
    let mut out = Vec::new();
    for e in effects {
        if let Effect::Send {
            to,
            msg: ServerMsg::PlayerList(PlayerListUpdate::Add(uid, info)),
        } = e
        {
            out.push((*to, *uid, info.uuid));
        }
    }
    out
}

#[test]
fn fresh_account_is_admitted_and_broadcast() {
    // Five players are online; a sixth account logs in.
    let mut world = World {
        settings: settings(100),
        players: (1u64..=5)
            .map(|i| record(i, 10 + i, &format!("p{}", i), 100 + i as u128))
            .collect(),
        connections: (1u64..=5).map(|i| conn(i, 10 + i)).collect(),
    };
    let mut s1 = conn(6, 16);
    s1.pending = succeeded("u1", 201);
    world.connections.push(s1);

    let (snap, effects) = run_tick(&mut world);

    assert_eq!(world.players.len(), 6);
    assert_eq!(world.players[5].uuid, 201);
    assert_eq!(world.players[5].alias, "u1");

    // The newcomer is told its registration succeeded.
    assert!(effects.iter().any(|e| matches!(
        e,
        Effect::Send { to: 6, msg: ServerMsg::RegisterAnswer(Ok(())) }
    )));
    // It receives the tick-start snapshot, which lists the five old players.
    assert!(effects
        .iter()
        .any(|e| matches!(e, Effect::SendRosterInit { to: 6 })));
    let init = session_admission::admission::roster_init_msg(&snap);
    match init {
        ServerMsg::PlayerList(PlayerListUpdate::Init(list)) => {
            assert_eq!(list.len(), 5);
            let uids: Vec<u64> = list.iter().map(|(uid, _)| *uid).collect();
            assert_eq!(uids, vec![11, 12, 13, 14, 15]);
        }
        _ => panic!("snapshot message has the wrong shape"),
    }
    // All six connected players get the roster increment for the newcomer.
    let adds = add_sends(&effects);
    assert_eq!(adds.len(), 6);
    for (i, add) in adds.iter().enumerate() {
        assert_eq!(add.0, 1 + i as u64);
        assert_eq!(add.1, 16);
        assert_eq!(add.2, 201);
    }
    // The tracker entry is gone.
    assert!(world.connections[5].pending.is_none());
}

#[test]
fn init_always_precedes_adds() {
    let mut world = World {
        settings: settings(100),
        players: vec![record(1, 11, "p1", 101)],
        connections: vec![conn(1, 11)],
    };
    let mut s2 = conn(2, 12);
    s2.pending = succeeded("u2", 202);
    world.connections.push(s2);

    let (_snap, effects) = run_tick(&mut world);
    let init_positions: Vec<usize> = effects
        .iter()
        .enumerate()
        .filter(|(_, e)| matches!(e, Effect::SendRosterInit { .. }))
        .map(|(i, _)| i)
        .collect();
    let add_positions: Vec<usize> = effects
        .iter()
        .enumerate()
        .filter(|(_, e)| {
            matches!(
                e,
                Effect::Send { msg: ServerMsg::PlayerList(PlayerListUpdate::Add(_, _)), .. }
            )
        })
        .map(|(i, _)| i)
        .collect();
    assert!(!init_positions.is_empty());
    assert!(!add_positions.is_empty());
    for i in &init_positions {
        for j in &add_positions {
            assert!(i < j);
        }
    }
}

#[test]
fn newer_login_replaces_older_session_across_ticks() {
    // Account 500 is live through session 1; session 2 logs into it.
    let mut world = World {
        settings: settings(100),
        players: vec![record(1, 11, "dup", 500)],
        connections: vec![conn(1, 11)],
    };
    let mut s2 = conn(2, 12);
    s2.pending = succeeded("dup", 500);
    world.connections.push(s2);

    let (_snap, effects) = run_tick(&mut world);

    // No new roster entry this tick.
    assert_eq!(world.players.len(), 1);
    // The *old* session is notified and torn down with the newer-login cause.
    assert!(effects.iter().any(|e| matches!(
        e,
        Effect::Send { to: 1, msg: ServerMsg::Disconnect(DisconnectReason::NewerLogin) }
    )));
    assert!(effects.iter().any(|e| matches!(
        e,
        Effect::Disconnect { entity: 1, cause: DisconnectCause::NewerLogin }
    )));
    // The new session keeps a pre-resolved attempt for the next tick.
    match &world.connections[1].pending {
        Some(p) => match &p.state {
            PendingState::Succeeded { username, uuid } => {
                assert_eq!(username, "dup");
                assert_eq!(*uuid, 500);
            }
            _ => panic!("retry lost its resolution"),
        },
        None => panic!("retry was dropped from the tracker"),
    }

    // The old session's disconnect completes between the ticks.
    world.players.clear();
    world.connections.remove(0);

    let (_snap2, effects2) = run_tick(&mut world);
    assert_eq!(world.players.len(), 1);
    assert_eq!(world.players[0].uuid, 500);
    assert_eq!(admitted_uuids(&world), vec![500]);
    assert!(effects2.iter().any(|e| matches!(
        e,
        Effect::Send { to: 2, msg: ServerMsg::RegisterAnswer(Ok(())) }
    )));
    assert!(world.connections[0].pending.is_none());
}

#[test]
fn same_tick_race_has_a_single_winner() {
    // Two fresh sessions resolve the same account in one tick.
    let mut world = World {
        settings: settings(100),
        players: Vec::new(),
        connections: Vec::new(),
    };
    let mut a = conn(1, 11);
    a.pending = succeeded("racer", 900);
    let mut b = conn(2, 12);
    b.pending = succeeded("racer", 900);
    world.connections.push(a);
    world.connections.push(b);

    let (_snap, effects) = run_tick(&mut world);

    // Exactly one roster entry for the account.
    let entries: Vec<&PlayerRecord> =
        world.players.iter().filter(|p| p.uuid == 900).collect();
    assert_eq!(entries.len(), 1);
    assert_eq!(entries[0].entity, 1);
    // The session staged first is the one flagged for disconnection.
    assert!(effects.iter().any(|e| matches!(
        e,
        Effect::Disconnect { entity: 1, cause: DisconnectCause::NewerLogin }
    )));
    // The later session is deferred, still resolved.
    assert!(matches!(
        &world.connections[1].pending,
        Some(PendingLogin { state: PendingState::Succeeded { .. }, .. })
    ));
}

#[test]
fn capacity_is_enforced() {
    // Cap of two; three successful authentications race in one tick.
    let mut world = World {
        settings: settings(2),
        players: Vec::new(),
        connections: Vec::new(),
    };
    for i in 1u64..=3 {
        let mut c = conn(i, 10 + i);
        c.pending = succeeded(&format!("cap{}", i), 1000 + i as u128);
        world.connections.push(c);
    }

    let (_snap, effects) = run_tick(&mut world);

    assert_eq!(world.players.len(), 2);
    assert_eq!(admitted_uuids(&world), vec![1001, 1002]);
    // The third is told the server is full and is kicked.
    assert!(effects.iter().any(|e| matches!(
        e,
        Effect::Send {
            to: 3,
            msg: ServerMsg::RegisterAnswer(Err(RegisterError::TooManyPlayers))
        }
    )));
    assert!(effects.iter().any(|e| matches!(
        e,
        Effect::Disconnect { entity: 3, cause: DisconnectCause::Kicked }
    )));
    // No retry for a capacity failure.
    assert!(world.connections[2].pending.is_none());
}

#[test]
fn silent_spectator_without_role_is_turned_away() {
    let mut world = World {
        settings: settings(100),
        players: Vec::new(),
        connections: Vec::new(),
    };
    let mut c = conn(1, 11);
    c.client_type = ClientType::SilentSpectator;
    c.pending = succeeded("watcher", 300);
    world.connections.push(c);

    let (_snap, effects) = run_tick(&mut world);

    assert_eq!(world.players.len(), 0);
    assert!(effects.iter().any(|e| matches!(
        e,
        Effect::Disconnect { entity: 1, cause: DisconnectCause::InvalidClientType }
    )));
    assert!(world.connections[0].pending.is_none());
}

#[test]
fn silent_spectator_with_role_is_admitted_but_not_broadcast() {
    let mut world = World {
        settings: settings(100),
        players: Vec::new(),
        connections: Vec::new(),
    };
    world.settings.admins.push((300, AdminRole::Moderator));
    let mut c = conn(1, 11);
    c.client_type = ClientType::SilentSpectator;
    c.pending = succeeded("watcher", 300);
    world.connections.push(c);

    let (_snap, effects) = run_tick(&mut world);

    assert_eq!(world.players.len(), 1);
    assert_eq!(add_sends(&effects).len(), 0);
    assert!(effects.iter().any(|e| matches!(
        e,
        Effect::MakeAdmin { entity: 1, role: AdminRole::Moderator, uuid: 300 }
    )));
}

#[test]
fn privileged_bot_requires_role() {
    let mut world = World {
        settings: settings(100),
        players: Vec::new(),
        connections: Vec::new(),
    };
    let mut c = conn(1, 11);
    c.client_type = ClientType::Bot { privileged: true };
    c.pending = succeeded("bot", 400);
    world.connections.push(c);
    let mut d = conn(2, 12);
    d.client_type = ClientType::Bot { privileged: false };
    d.pending = succeeded("bot2", 401);
    world.connections.push(d);

    let (_snap, effects) = run_tick(&mut world);

    // The privileged bot without a role is refused; the plain bot enters.
    assert_eq!(admitted_uuids(&world), vec![401]);
    assert!(effects.iter().any(|e| matches!(
        e,
        Effect::Disconnect { entity: 1, cause: DisconnectCause::InvalidClientType }
    )));
}

#[test]
fn empty_alias_is_rejected_as_invalid_character() {
    let mut world = World {
        settings: settings(100),
        players: Vec::new(),
        connections: Vec::new(),
    };
    let mut c = conn(1, 11);
    c.pending = succeeded("", 777);
    world.connections.push(c);

    let (_snap, effects) = run_tick(&mut world);

    assert_eq!(world.players.len(), 0);
    assert!(effects.iter().any(|e| matches!(
        e,
        Effect::Send {
            to: 1,
            msg: ServerMsg::RegisterAnswer(Err(RegisterError::InvalidCharacter))
        }
    )));
}

#[test]
fn failed_authentication_is_terminal() {
    let mut world = World {
        settings: settings(100),
        players: Vec::new(),
        connections: Vec::new(),
    };
    let mut c = conn(1, 11);
    c.pending = Some(PendingLogin {
        token: String::from("bad"),
        state: PendingState::Failed(RegisterError::AuthError(String::from("bad token"))),
    });
    world.connections.push(c);

    let (_snap, effects) = run_tick(&mut world);

    assert_eq!(world.players.len(), 0);
    let mut saw_err = false;
    for e in &effects {
        if let Effect::Send {
            to: 1,
            msg: ServerMsg::RegisterAnswer(Err(RegisterError::AuthError(m))),
        } = e
        {
            assert_eq!(m, "bad token");
            saw_err = true;
        }
    }
    assert!(saw_err);
    assert!(effects.iter().any(|e| matches!(
        e,
        Effect::Disconnect { entity: 1, cause: DisconnectCause::Kicked }
    )));
    assert!(world.connections[0].pending.is_none());
}

#[test]
fn unresolved_login_stays_pending() {
    let mut world = World {
        settings: settings(100),
        players: Vec::new(),
        connections: Vec::new(),
    };
    let mut c = conn(1, 11);
    c.pending = Some(PendingLogin::new(String::from("tok")));
    world.connections.push(c);

    let (_snap, effects) = run_tick(&mut world);

    assert_eq!(world.players.len(), 0);
    assert_eq!(effects.len(), 0);
    assert!(matches!(
        &world.connections[0].pending,
        Some(PendingLogin { state: PendingState::Unresolved, .. })
    ));
}

#[test]
fn intake_consumes_one_registration_per_tick() {
    let mut world = World {
        settings: settings(100),
        players: Vec::new(),
        connections: Vec::new(),
    };
    let mut c = conn(1, 11);
    c.inbox.push(session_admission::msg::ClientRegister {
        token_or_username: String::from("first"),
        locale: Some(String::from("de")),
    });
    c.inbox.push(session_admission::msg::ClientRegister {
        token_or_username: String::from("second"),
        locale: None,
    });
    world.connections.push(c);

    intake(&mut world);
    assert_eq!(world.connections[0].inbox.len(), 1);
    assert_eq!(world.connections[0].locale.as_deref(), Some("de"));
    match &world.connections[0].pending {
        Some(p) => {
            assert_eq!(p.token, "first");
            assert!(matches!(p.state, PendingState::Unresolved));
        }
        None => panic!("intake did not track the login"),
    }

    intake(&mut world);
    assert_eq!(world.connections[0].inbox.len(), 0);
    assert_eq!(world.connections[0].pending.as_ref().unwrap().token, "second");
}

#[test]
fn resolve_login_records_the_authenticator_answer() {
    let mut world = World {
        settings: settings(100),
        players: Vec::new(),
        connections: Vec::new(),
    };
    let mut c = conn(1, 11);
    c.pending = Some(PendingLogin::new(String::from("tok")));
    world.connections.push(c);

    // No tracked attempt for an unknown entity.
    assert!(!resolve_login(
        &mut world,
        9,
        PendingState::Succeeded { username: String::from("x"), uuid: 1 }
    ));
    assert!(resolve_login(
        &mut world,
        1,
        PendingState::Succeeded { username: String::from("u"), uuid: 42 }
    ));
    match &world.connections[0].pending {
        Some(p) => {
            assert_eq!(p.token, "tok");
            assert!(
                matches!(&p.state, PendingState::Succeeded { username, uuid }
                    if username == "u" && *uuid == 42)
            );
        }
        None => panic!("resolution dropped the attempt"),
    }

    let (_snap, _effects) = run_tick(&mut world);
    assert_eq!(admitted_uuids(&world), vec![42]);
}

#[test]
fn admitted_client_gets_localized_description() {
    let mut world = World {
        settings: settings(100),
        players: Vec::new(),
        connections: Vec::new(),
    };
    world.settings.descriptions.push((
        String::from("de"),
        ServerDescription {
            motd: String::from("hallo"),
            rules: Some(String::from("regeln")),
        },
    ));
    let mut a = conn(1, 11);
    a.locale = Some(String::from("de"));
    a.pending = succeeded("ua", 1);
    let mut b = conn(2, 12);
    b.pending = succeeded("ub", 2);
    world.connections.push(a);
    world.connections.push(b);

    let (_snap, effects) = run_tick(&mut world);

    let mut motds = Vec::new();
    for e in &effects {
        if let Effect::Send { to, msg: ServerMsg::Init(sync) } = e {
            motds.push((*to, sync.description.motd.clone(), sync.description.rules.clone()));
        }
    }
    assert_eq!(motds.len(), 2);
    assert_eq!(motds[0], (1, String::from("hallo"), Some(String::from("regeln"))));
    assert_eq!(motds[1], (2, String::from("welcome"), None));
}

#[test]
fn admin_account_is_flagged_moderator_in_broadcast() {
    let mut world = World {
        settings: settings(100),
        players: Vec::new(),
        connections: Vec::new(),
    };
    world.settings.admins.push((55, AdminRole::Admin));
    let mut c = conn(1, 11);
    c.pending = succeeded("boss", 55);
    world.connections.push(c);

    let (_snap, effects) = run_tick(&mut world);

    assert!(effects.iter().any(|e| matches!(
        e,
        Effect::MakeAdmin { entity: 1, role: AdminRole::Admin, uuid: 55 }
    )));
    let mut saw_add = false;
    for e in &effects {
        if let Effect::Send {
            msg: ServerMsg::PlayerList(PlayerListUpdate::Add(_, info)),
            ..
        } = e
        {
            assert!(info.is_moderator);
            assert!(info.is_online);
            assert!(info.character.is_none());
            saw_add = true;
        }
    }
    assert!(saw_add);
    assert!(world.players[0].is_moderator);
}

#[test]
fn stale_record_without_handle_is_still_replaced() {
    // A roster record whose connection handle is already gone.
    let mut world = World {
        settings: settings(100),
        players: vec![PlayerRecord {
            client_type: None,
            ..record(1, 11, "ghost", 600)
        }],
        connections: Vec::new(),
    };
    let mut c = conn(2, 12);
    c.pending = succeeded("ghost", 600);
    world.connections.push(c);

    let (_snap, effects) = run_tick(&mut world);

    // The anomaly is reported, the stale record is torn down, and the new
    // login is dropped rather than retried.
    assert!(effects
        .iter()
        .any(|e| matches!(e, Effect::WarnPlayerWithoutClient { entity: 1 })));
    assert!(effects.iter().any(|e| matches!(
        e,
        Effect::Disconnect { entity: 1, cause: DisconnectCause::NewerLogin }
    )));
    assert_eq!(world.players.len(), 1);
    assert!(world.connections[0].pending.is_none());
}

#[test]
fn snapshot_excludes_silent_spectators() {
    let mut players = vec![record(1, 11, "p1", 101)];
    players.push(PlayerRecord {
        client_type: Some(ClientType::SilentSpectator),
        ..record(2, 12, "watcher", 102)
    });
    let snap = build_snapshot(&players);
    match session_admission::admission::roster_init_msg(&snap) {
        ServerMsg::PlayerList(PlayerListUpdate::Init(list)) => {
            assert_eq!(list.len(), 1);
            assert_eq!(list[0].0, 11);
            assert_eq!(list[0].1.uuid, 101);
            assert_eq!(list[0].1.player_alias, "p1");
        }
        _ => panic!("snapshot message has the wrong shape"),
    }
}

#[test]
fn direct_pass_reports_outcomes_in_order() {
    let settings = settings(100);
    let players = Vec::new();
    let snap = build_snapshot(&players);
    let logins = vec![
        session_admission::admission::LoginItem {
            entity: 1,
            uid: 11,
            client_type: ClientType::Game,
            locale: None,
            pending: PendingLogin::new(String::from("t")),
        },
        session_admission::admission::LoginItem {
            entity: 2,
            uid: 12,
            client_type: ClientType::Game,
            locale: None,
            pending: succeeded("u", 5).unwrap(),
        },
    ];
    let (acc, _effects, outcomes) =
        session_admission::admission::run_admission_pass(&settings, &snap, &logins);
    assert_eq!(outcomes.len(), 2);
    assert!(matches!(outcomes[0], AdmissionOutcome::StillPending));
    assert!(matches!(outcomes[1], AdmissionOutcome::AdmittedNew));
    let NewPlayers { entries, retries, finished, .. } = acc;
    assert_eq!(entries.len(), 1);
    assert_eq!(entries[0].player.uuid, 5);
    assert_eq!(retries.len(), 0);
    assert_eq!(finished, vec![2]);
}

#[test]
fn post_tick_roster_never_holds_duplicate_accounts() {
    // A mixed tick: one fresh account, one duplicate of a live account,
    // and an in-tick race on a third account.
    let mut world = World {
        settings: settings(100),
        players: vec![record(1, 11, "live", 700)],
        connections: vec![conn(1, 11)],
    };
    let mut fresh = conn(2, 12);
    fresh.pending = succeeded("fresh", 701);
    let mut dup = conn(3, 13);
    dup.pending = succeeded("live", 700);
    let mut race_a = conn(4, 14);
    race_a.pending = succeeded("race", 702);
    let mut race_b = conn(5, 15);
    race_b.pending = succeeded("race", 702);
    world.connections.push(fresh);
    world.connections.push(dup);
    world.connections.push(race_a);
    world.connections.push(race_b);

    let (_snap, _effects) = run_tick(&mut world);

    let uuids = admitted_uuids(&world);
    for (i, a) in uuids.iter().enumerate() {
        for b in uuids.iter().skip(i + 1) {
            assert_ne!(a, b);
        }
    }
    assert_eq!(uuids, vec![700, 701, 702]);
}

#[test]
fn whitelist_failure_is_relayed_to_the_client() {
    let mut world = World {
        settings: settings(100),
        players: Vec::new(),
        connections: Vec::new(),
    };
    let mut c = conn(1, 11);
    c.pending = Some(PendingLogin {
        token: String::from("outsider"),
        state: PendingState::Failed(RegisterError::NotOnWhitelist),
    });
    world.connections.push(c);

    let (_snap, effects) = run_tick(&mut world);

    assert!(effects.iter().any(|e| matches!(
        e,
        Effect::Send {
            to: 1,
            msg: ServerMsg::RegisterAnswer(Err(RegisterError::NotOnWhitelist))
        }
    )));
    assert_eq!(world.players.len(), 0);
}

#[test]
fn unknown_locale_falls_back_to_default_description() {
    let mut world = World {
        settings: settings(100),
        players: Vec::new(),
        connections: Vec::new(),
    };
    world.settings.descriptions.push((
        String::from("de"),
        ServerDescription { motd: String::from("hallo"), rules: None },
    ));
    let mut c = conn(1, 11);
    c.locale = Some(String::from("fr"));
    c.pending = succeeded("u", 9);
    world.connections.push(c);

    let (_snap, effects) = run_tick(&mut world);

    let mut saw_init = false;
    for e in &effects {
        if let Effect::Send { to: 1, msg: ServerMsg::Init(sync) } = e {
            assert_eq!(sync.description.motd, "welcome");
            saw_init = true;
        }
    }
    assert!(saw_init);
}

#[test]
fn snapshot_carries_character_summaries() {
    let mut player = record(1, 11, "p1", 101);
    player.character = Some(session_admission::msg::CharacterInfo {
        name: String::from("hera"),
        gender: Some(session_admission::character::Gender::Feminine),
        battle_mode: BattleMode::PvP,
    });
    let snap = build_snapshot(&vec![player]);
    match session_admission::admission::roster_init_msg(&snap) {
        ServerMsg::PlayerList(PlayerListUpdate::Init(list)) => {
            assert_eq!(list.len(), 1);
            let info = &list[0].1;
            match &info.character {
                Some(ci) => {
                    assert_eq!(ci.name, "hera");
                    assert!(matches!(ci.gender, Some(session_admission::character::Gender::Feminine)));
                    assert!(matches!(ci.battle_mode, BattleMode::PvP));
                }
                None => panic!("character summary was dropped from the snapshot"),
            }
        }
        _ => panic!("snapshot message has the wrong shape"),
    }
}
