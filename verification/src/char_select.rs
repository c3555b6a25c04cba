//! Client-side character selection: the play state shown between a
//! successful registration and entering the world.

use crate::character::{CharacterItem, Gender};
use vstd::prelude::*;

verus! {

/// The client-side view of the connection while on the character screen:
/// what the selection logic reads of the game client.
pub struct Client {
    /// Whether the server has admitted this connection.
    pub registered: bool,
    /// The characters the server listed for this account.
    pub character_list: Vec<CharacterItem>,
}

/// The character-selection interface state.
pub struct CharSelectionUi {
    /// Which entry of the character list is shown, if any.
    pub selected: Option<usize>,
}

/// The character-selection play state.
pub struct CharSelectionState {
    pub char_selection_ui: CharSelectionUi,
    pub client: Client,
}

/// The gender of the character shown on the selection screen, when the
/// shown body is humanoid.
pub open spec fn spec_displayed_gender(
    ui: CharSelectionUi,
    characters: Seq<CharacterItem>,
) -> Option<Gender> {
    match ui.selected {
        Some(i) => if i < characters.len() {
            match characters[i as int].body {
                crate::character::Body::Humanoid { gender } => Some(gender),
                _ => None,
            }
        } else {
            None
        },
        None => None,
    }
}

impl CharSelectionState {
    /// A fresh character-selection state over the given client, with
    /// nothing selected yet.
    pub fn new(client: Client) -> (s: Self)
        ensures
            s.client == client,
            s.char_selection_ui.selected is None,
    {
        CharSelectionState { char_selection_ui: CharSelectionUi { selected: None }, client }
    }

    /// The client this state drives.
    pub fn client(&self) -> (c: &Client)
        ensures
            *c == self.client,
    {
        &self.client
    }

    /// The humanoid body shown on the selection screen, if the selected
    /// character has one.
    pub fn get_humanoid_body_inventory(
        char_selection_ui: &CharSelectionUi,
        client: &Client,
    ) -> (gender: Option<Gender>)
        ensures
            gender == spec_displayed_gender(*char_selection_ui, client.character_list@),
    {
        match char_selection_ui.selected {
            Some(i) => {
                if i < client.character_list.len() {
                    match &client.character_list[i].body {
                        crate::character::Body::Humanoid { gender } => Some(*gender),
                        _ => None,
                    }
                } else {
                    None
                }
            },
            None => None,
        }
    }
}

} // verus!
