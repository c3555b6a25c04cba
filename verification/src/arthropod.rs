//! Arthropod bodies: species, body types, and per-species metadata lookup.

use vstd::prelude::*;

verus! {

#[derive(Clone, Copy, Debug, PartialEq, Eq, Structural)]
pub enum Species {
    Tarantula,
    Blackwidow,
    Antlion,
    Hornbeetle,
    Leafbeetle,
    Stagbeetle,
    Weevil,
    Cavespider,
    Moltencrawler,
    Mosscrawler,
    Sandcrawler,
    Dagonite,
    Emberfly,
}

#[derive(Clone, Copy, Debug, PartialEq, Eq, Structural)]
pub enum BodyType {
    Female,
    Male,
}

#[derive(Clone, Copy, Debug, PartialEq, Eq, Structural)]
pub struct Body {
    pub species: Species,
    pub body_type: BodyType,
}

/// Every species, in declaration order.
pub open spec fn all_species_seq() -> Seq<Species> {
    seq![
        Species::Tarantula,
        Species::Blackwidow,
        Species::Antlion,
        Species::Hornbeetle,
        Species::Leafbeetle,
        Species::Stagbeetle,
        Species::Weevil,
        Species::Cavespider,
        Species::Moltencrawler,
        Species::Mosscrawler,
        Species::Sandcrawler,
        Species::Dagonite,
        Species::Emberfly,
    ]
}

/// Every body type, in declaration order.
pub open spec fn all_body_types_seq() -> Seq<BodyType> {
    seq![BodyType::Female, BodyType::Male]
}

/// Every species, in declaration order.
pub fn all_species() -> (list: Vec<Species>)
    ensures
        list@ == all_species_seq(),
{
    let list: Vec<Species> = vec![
        Species::Tarantula,
        Species::Blackwidow,
        Species::Antlion,
        Species::Hornbeetle,
        Species::Leafbeetle,
        Species::Stagbeetle,
        Species::Weevil,
        Species::Cavespider,
        Species::Moltencrawler,
        Species::Mosscrawler,
        Species::Sandcrawler,
        Species::Dagonite,
        Species::Emberfly,
    ];
    proof {
        assert(list@ =~= all_species_seq());
    }
    list
}

/// Every body type, in declaration order.
pub fn all_body_types() -> (list: Vec<BodyType>)
    ensures
        list@ == all_body_types_seq(),
{
    let list: Vec<BodyType> = vec![BodyType::Female, BodyType::Male];
    proof {
        assert(list@ =~= all_body_types_seq());
    }
    list
}

/// Relies on `rand::Rng::gen_range` (on a `thread_rng`): the result lies in
/// the half-open range `0..len`. Nothing else can be said of a random draw.
#[verifier::external_body]
fn random_index(len: usize) -> (i: usize)
    requires
        len >= 1,
    ensures
        i < len,
{
    rand::Rng::gen_range(&mut rand::thread_rng(), 0..len)
}

impl Body {
    /// A body of a random species and body type.
    pub fn random() -> Body {
        let species_list = all_species();
        let i = random_index(species_list.len());
        let species = species_list[i];
        Body::random_with(&species)
    }

    /// A body of the given species with a random body type.
    pub fn random_with(species: &Species) -> (body: Body)
        ensures
            body.species == *species,
    {
        let body_types = all_body_types();
        let i = random_index(body_types.len());
        let body_type = body_types[i];
        Body { species: *species, body_type }
    }
}

/// Per-species generic data.
#[derive(Clone, Copy, Debug, PartialEq, Eq)]
pub struct AllSpecies<SpeciesMeta> {
    pub tarantula: SpeciesMeta,
    pub black_widow: SpeciesMeta,
    pub antlion: SpeciesMeta,
    pub horn_beetle: SpeciesMeta,
    pub leaf_beetle: SpeciesMeta,
    pub stag_beetle: SpeciesMeta,
    pub weevil: SpeciesMeta,
    pub cave_spider: SpeciesMeta,
    pub crawler_molten: SpeciesMeta,
    pub crawler_moss: SpeciesMeta,
    pub crawler_sand: SpeciesMeta,
    pub dagonite: SpeciesMeta,
    pub emberfly: SpeciesMeta,
}

impl<SpeciesMeta> AllSpecies<SpeciesMeta> {
    /// The metadata field that belongs to the given species.
    pub open spec fn spec_index(&self, species: Species) -> SpeciesMeta {
        match species {
            Species::Tarantula => self.tarantula,
            Species::Blackwidow => self.black_widow,
            Species::Antlion => self.antlion,
            Species::Hornbeetle => self.horn_beetle,
            Species::Leafbeetle => self.leaf_beetle,
            Species::Stagbeetle => self.stag_beetle,
            Species::Weevil => self.weevil,
            Species::Cavespider => self.cave_spider,
            Species::Moltencrawler => self.crawler_molten,
            Species::Mosscrawler => self.crawler_moss,
            Species::Sandcrawler => self.crawler_sand,
            Species::Dagonite => self.dagonite,
            Species::Emberfly => self.emberfly,
        }
    }

    /// The metadata that belongs to the given species.
    pub fn index(&self, species: &Species) -> (meta: &SpeciesMeta)
        ensures
            *meta == self.spec_index(*species),
    {
        match species {
            Species::Tarantula => &self.tarantula,
            Species::Blackwidow => &self.black_widow,
            Species::Antlion => &self.antlion,
            Species::Hornbeetle => &self.horn_beetle,
            Species::Leafbeetle => &self.leaf_beetle,
            Species::Stagbeetle => &self.stag_beetle,
            Species::Weevil => &self.weevil,
            Species::Cavespider => &self.cave_spider,
            Species::Moltencrawler => &self.crawler_molten,
            Species::Mosscrawler => &self.crawler_moss,
            Species::Sandcrawler => &self.crawler_sand,
            Species::Dagonite => &self.dagonite,
            Species::Emberfly => &self.emberfly,
        }
    }
}

} // verus!
