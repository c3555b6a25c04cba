//! Characters, species metadata, and the client-side menu states.

use session_admission::arthropod::{all_body_types, all_species, AllSpecies, Body, Species};
use session_admission::char_select::{CharSelectionState, CharSelectionUi, Client};
use session_admission::character::{Character, CharacterId, CharacterItem, Gender};
use session_admission::menu::{LoginInfo, Showing};

#[test]
fn species_lists_are_complete() {
    let species = all_species();
    assert_eq!(species.len(), 13);
    assert!(matches!(species[0], Species::Tarantula));
    assert!(matches!(species[12], Species::Emberfly));
    assert_eq!(all_body_types().len(), 2);
}

#[test]
fn species_metadata_lookup_picks_the_right_field() {
    let meta: AllSpecies<u32> = AllSpecies {
        tarantula: 0,
        black_widow: 1,
        antlion: 2,
        horn_beetle: 3,
        leaf_beetle: 4,
        stag_beetle: 5,
        weevil: 6,
        cave_spider: 7,
        crawler_molten: 8,
        crawler_moss: 9,
        crawler_sand: 10,
        dagonite: 11,
        emberfly: 12,
    };
    for (i, s) in all_species().iter().enumerate() {
        assert_eq!(*meta.index(s), i as u32);
    }
}

#[test]
fn random_bodies_are_well_formed() {
    let body = Body::random_with(&Species::Dagonite);
    assert!(matches!(body.species, Species::Dagonite));
    let any = Body::random();
    assert!(all_species().contains(&any.species));
    assert!(all_body_types().contains(&any.body_type));
}

#[test]
fn menu_pane_toggle_flips_back_to_login() {
    let mut showing = Showing::Login;
    showing.toggle(Showing::Languages);
    assert_eq!(showing, Showing::Languages);
    showing.toggle(Showing::Languages);
    assert_eq!(showing, Showing::Login);
    showing.toggle(Showing::Login);
    assert_eq!(showing, Showing::Login);
}

#[test]
fn login_info_carries_the_form_fields() {
    let info = LoginInfo {
        username: String::from("u"),
        password: String::from("p"),
        server: String::from("s"),
    };
    assert_eq!(info.username, "u");
    assert_eq!(info.password, "p");
    assert_eq!(info.server, "s");
}

fn char_item(name: &str, body: session_admission::character::Body) -> CharacterItem {
    CharacterItem {
        character: Character { id: Some(CharacterId(1)), alias: String::from(name) },
        body,
        hardcore: false,
        location: None,
    }
}

#[test]
fn char_selection_state_holds_its_client() {
    let client = Client {
        registered: true,
        character_list: vec![char_item(
            "hero",
            session_admission::character::Body::Humanoid { gender: Gender::Feminine },
        )],
    };
    let state = CharSelectionState::new(client);
    assert!(state.client().registered);
    assert_eq!(state.client().character_list.len(), 1);
    assert_eq!(state.client().character_list[0].character.alias, "hero");
}

#[test]
fn displayed_body_is_humanoid_only() {
    let client = Client {
        registered: true,
        character_list: vec![
            char_item(
                "hero",
                session_admission::character::Body::Humanoid { gender: Gender::Masculine },
            ),
            char_item(
                "bug",
                session_admission::character::Body::Arthropod(Body {
                    species: Species::Weevil,
                    body_type: session_admission::arthropod::BodyType::Female,
                }),
            ),
        ],
    };
    let ui = CharSelectionUi { selected: Some(0) };
    assert_eq!(
        CharSelectionState::get_humanoid_body_inventory(&ui, &client),
        Some(Gender::Masculine)
    );
    let ui = CharSelectionUi { selected: Some(1) };
    assert_eq!(CharSelectionState::get_humanoid_body_inventory(&ui, &client), None);
    let ui = CharSelectionUi { selected: Some(9) };
    assert_eq!(CharSelectionState::get_humanoid_body_inventory(&ui, &client), None);
    let ui = CharSelectionUi { selected: None };
    assert_eq!(CharSelectionState::get_humanoid_body_inventory(&ui, &client), None);
}

#[test]
fn humanoid_gender_reads_off_the_body() {
    let b = session_admission::character::Body::Humanoid { gender: Gender::Feminine };
    assert_eq!(b.humanoid_gender(), Some(Gender::Feminine));
    let a = session_admission::character::Body::Arthropod(Body {
        species: Species::Antlion,
        body_type: session_admission::arthropod::BodyType::Male,
    });
    assert_eq!(a.humanoid_gender(), None);
}
