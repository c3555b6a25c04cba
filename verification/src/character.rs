//! Playable characters: the minimum data the server needs to identify and
//! list a character.

use vstd::prelude::*;

verus! {

/// The limit on how many characters a player can have.
pub const MAX_CHARACTERS_PER_PLAYER: usize = 8;

/// The limit on the length of a character's name.
pub const MAX_NAME_LENGTH: usize = 20;

/// Database identifier of a stored character.
#[derive(Clone, Copy, Debug, PartialEq, Eq, Structural)]
pub struct CharacterId(pub i64);

/// The presented gender of a humanoid body.
#[derive(Clone, Copy, Debug, PartialEq, Eq, Structural)]
pub enum Gender {
    Feminine,
    Masculine,
}

/// The body a character walks around in; the admission subsystem only reads
/// which family it belongs to and, for humanoids, the gender shown on the
/// player list.
#[derive(Clone, Copy, Debug, PartialEq, Eq, Structural)]
pub enum Body {
    Humanoid { gender: Gender },
    Arthropod(crate::arthropod::Body),
}

impl Body {
    /// The gender shown for this body on the player list, if it has one.
    pub fn humanoid_gender(&self) -> (g: Option<Gender>)
        ensures
            g == match *self {
                Body::Humanoid { gender } => Some(gender),
                _ => None::<Gender>,
            },
    {
        match self {
            Body::Humanoid { gender } => Some(*gender),
            _ => None,
        }
    }
}

/// The minimum data needed to create a new character on the server.
#[derive(Clone, Debug)]
pub struct Character {
    pub id: Option<CharacterId>,
    pub alias: String,
}

/// One entry of the character list shown during character selection.
#[derive(Clone, Debug)]
pub struct CharacterItem {
    pub character: Character,
    pub body: Body,
    pub hardcore: bool,
    pub location: Option<String>,
}

} // verus!
