//! Resource kinds of the galaxy and the crafting recipes that relate them.

use vstd::prelude::*;

verus! {

/// The basic resources a planet can generate.
#[derive(Clone, Copy, Debug, PartialEq, Eq, Structural, Hash)]
pub enum BasicResourceType {
    Oxygen,
    Hydrogen,
    Carbon,
    Silicon,
}

/// The complex resources a planet can combine from two ingredients.
#[derive(Clone, Copy, Debug, PartialEq, Eq, Structural, Hash)]
pub enum ComplexResourceType {
    Diamond,
    Water,
    Life,
    Robot,
    Dolphin,
    AIPartner,
}

/// Any resource kind.
#[derive(Clone, Copy, Debug, PartialEq, Eq, Structural, Hash)]
pub enum ResourceType {
    Basic(BasicResourceType),
    Complex(ComplexResourceType),
}

/// The four planet types of the galaxy.
#[derive(Clone, Copy, Debug, PartialEq, Eq, Structural, Hash)]
pub enum PlanetType {
    A,
    B,
    C,
    D,
}

/// Number of basic resource kinds.
pub const N_BASIC: usize = 4;

/// Number of complex resource kinds.
pub const N_COMPLEX: usize = 6;

/// Number of resource kinds.
pub const N_RESOURCES: usize = 10;

/// Position of a basic kind in declaration order.
pub open spec fn basic_pos(b: BasicResourceType) -> int {
    match b {
        BasicResourceType::Oxygen => 0,
        BasicResourceType::Hydrogen => 1,
        BasicResourceType::Carbon => 2,
        BasicResourceType::Silicon => 3,
    }
}

/// Position of a complex kind in declaration order.
pub open spec fn complex_pos(c: ComplexResourceType) -> int {
    match c {
        ComplexResourceType::Diamond => 0,
        ComplexResourceType::Water => 1,
        ComplexResourceType::Life => 2,
        ComplexResourceType::Robot => 3,
        ComplexResourceType::Dolphin => 4,
        ComplexResourceType::AIPartner => 5,
    }
}

/// Position of a resource kind: basic kinds first, then complex ones.
pub open spec fn resource_pos(r: ResourceType) -> int {
    match r {
        ResourceType::Basic(b) => basic_pos(b),
        ResourceType::Complex(c) => N_BASIC + complex_pos(c),
    }
}

/// The basic kind at a position.
pub open spec fn basic_at(i: int) -> BasicResourceType {
    if i == 0 {
        BasicResourceType::Oxygen
    } else if i == 1 {
        BasicResourceType::Hydrogen
    } else if i == 2 {
        BasicResourceType::Carbon
    } else {
        BasicResourceType::Silicon
    }
}

/// The complex kind at a position.
pub open spec fn complex_at(i: int) -> ComplexResourceType {
    if i == 0 {
        ComplexResourceType::Diamond
    } else if i == 1 {
        ComplexResourceType::Water
    } else if i == 2 {
        ComplexResourceType::Life
    } else if i == 3 {
        ComplexResourceType::Robot
    } else if i == 4 {
        ComplexResourceType::Dolphin
    } else {
        ComplexResourceType::AIPartner
    }
}

/// The resource kind at a position.
pub open spec fn resource_at(i: int) -> ResourceType {
    if i < N_BASIC {
        ResourceType::Basic(basic_at(i))
    } else {
        ResourceType::Complex(complex_at(i - N_BASIC))
    }
}

/// Positions and kinds are in one-to-one correspondence.
pub proof fn lemma_positions()
    ensures
        forall|b: BasicResourceType| #![auto] 0 <= basic_pos(b) < N_BASIC && basic_at(basic_pos(b)) == b,
        forall|c: ComplexResourceType| #![auto] 0 <= complex_pos(c) < N_COMPLEX && complex_at(complex_pos(c)) == c,
        forall|r: ResourceType| #![auto] 0 <= resource_pos(r) < N_RESOURCES && resource_at(resource_pos(r)) == r,
        forall|i: int| #![auto] 0 <= i < N_BASIC ==> basic_pos(basic_at(i)) == i,
        forall|i: int| #![auto] 0 <= i < N_COMPLEX ==> complex_pos(complex_at(i)) == i,
        forall|i: int| #![auto] 0 <= i < N_RESOURCES ==> resource_pos(resource_at(i)) == i,
{
}

/// The position of a basic kind.
pub fn basic_index(b: BasicResourceType) -> (i: usize)
    ensures
        i == basic_pos(b),
        i < N_BASIC,
{
    match b {
        BasicResourceType::Oxygen => 0,
        BasicResourceType::Hydrogen => 1,
        BasicResourceType::Carbon => 2,
        BasicResourceType::Silicon => 3,
    }
}

/// The position of a complex kind.
pub fn complex_index(c: ComplexResourceType) -> (i: usize)
    ensures
        i == complex_pos(c),
        i < N_COMPLEX,
{
    match c {
        ComplexResourceType::Diamond => 0,
        ComplexResourceType::Water => 1,
        ComplexResourceType::Life => 2,
        ComplexResourceType::Robot => 3,
        ComplexResourceType::Dolphin => 4,
        ComplexResourceType::AIPartner => 5,
    }
}

/// The position of a resource kind.
pub fn resource_index(r: ResourceType) -> (i: usize)
    ensures
        i == resource_pos(r),
        i < N_RESOURCES,
{
    match r {
        ResourceType::Basic(b) => basic_index(b),
        ResourceType::Complex(c) => N_BASIC + complex_index(c),
    }
}

/// The basic kind at a position.
pub fn basic_from_index(i: usize) -> (b: BasicResourceType)
    requires
        i < N_BASIC,
    ensures
        b == basic_at(i as int),
{
    if i == 0 {
        BasicResourceType::Oxygen
    } else if i == 1 {
        BasicResourceType::Hydrogen
    } else if i == 2 {
        BasicResourceType::Carbon
    } else {
        BasicResourceType::Silicon
    }
}

/// The complex kind at a position.
pub fn complex_from_index(i: usize) -> (c: ComplexResourceType)
    requires
        i < N_COMPLEX,
    ensures
        c == complex_at(i as int),
{
    if i == 0 {
        ComplexResourceType::Diamond
    } else if i == 1 {
        ComplexResourceType::Water
    } else if i == 2 {
        ComplexResourceType::Life
    } else if i == 3 {
        ComplexResourceType::Robot
    } else if i == 4 {
        ComplexResourceType::Dolphin
    } else {
        ComplexResourceType::AIPartner
    }
}

/// The resource kind at a position.
pub fn resource_from_index(i: usize) -> (r: ResourceType)
    requires
        i < N_RESOURCES,
    ensures
        r == resource_at(i as int),
{
    if i < N_BASIC {
        ResourceType::Basic(basic_from_index(i))
    } else {
        ResourceType::Complex(complex_from_index(i - N_BASIC))
    }
}

/// The two ingredients of each complex resource, in the order in which a
/// combination request takes them.
pub open spec fn recipe(c: ComplexResourceType) -> (ResourceType, ResourceType) {
    match c {
        ComplexResourceType::Water => (
            ResourceType::Basic(BasicResourceType::Hydrogen),
            ResourceType::Basic(BasicResourceType::Oxygen),
        ),
        ComplexResourceType::Diamond => (
            ResourceType::Basic(BasicResourceType::Carbon),
            ResourceType::Basic(BasicResourceType::Carbon),
        ),
        ComplexResourceType::Life => (
            ResourceType::Complex(ComplexResourceType::Water),
            ResourceType::Basic(BasicResourceType::Carbon),
        ),
        ComplexResourceType::Robot => (
            ResourceType::Basic(BasicResourceType::Silicon),
            ResourceType::Complex(ComplexResourceType::Life),
        ),
        ComplexResourceType::Dolphin => (
            ResourceType::Complex(ComplexResourceType::Water),
            ResourceType::Complex(ComplexResourceType::Life),
        ),
        ComplexResourceType::AIPartner => (
            ResourceType::Complex(ComplexResourceType::Robot),
            ResourceType::Complex(ComplexResourceType::Diamond),
        ),
    }
}

/// The recipe of a complex resource.
pub fn get_resource_recipe(resource: &ComplexResourceType) -> (r: (ResourceType, ResourceType))
    ensures
        r == recipe(*resource),
{
    match resource {
        ComplexResourceType::Water => (
            ResourceType::Basic(BasicResourceType::Hydrogen),
            ResourceType::Basic(BasicResourceType::Oxygen),
        ),
        ComplexResourceType::Diamond => (
            ResourceType::Basic(BasicResourceType::Carbon),
            ResourceType::Basic(BasicResourceType::Carbon),
        ),
        ComplexResourceType::Life => (
            ResourceType::Complex(ComplexResourceType::Water),
            ResourceType::Basic(BasicResourceType::Carbon),
        ),
        ComplexResourceType::Robot => (
            ResourceType::Basic(BasicResourceType::Silicon),
            ResourceType::Complex(ComplexResourceType::Life),
        ),
        ComplexResourceType::Dolphin => (
            ResourceType::Complex(ComplexResourceType::Water),
            ResourceType::Complex(ComplexResourceType::Life),
        ),
        ComplexResourceType::AIPartner => (
            ResourceType::Complex(ComplexResourceType::Robot),
            ResourceType::Complex(ComplexResourceType::Diamond),
        ),
    }
}

/// Crafting depth of a complex resource: how many combination levels lie
/// below it (the recipes form a well-founded order).
pub open spec fn craft_depth(c: ComplexResourceType) -> nat {
    match c {
        ComplexResourceType::Water => 1,
        ComplexResourceType::Diamond => 1,
        ComplexResourceType::Life => 2,
        ComplexResourceType::Robot => 3,
        ComplexResourceType::Dolphin => 3,
        ComplexResourceType::AIPartner => 4,
    }
}

/// Depth of any resource kind (basic kinds have depth 0).
pub open spec fn resource_depth(r: ResourceType) -> nat {
    match r {
        ResourceType::Basic(_) => 0,
        ResourceType::Complex(c) => craft_depth(c),
    }
}

/// Every ingredient lies strictly below the resource it is used for.
pub proof fn lemma_recipe_decreases(c: ComplexResourceType)
    ensures
        resource_depth(recipe(c).0) < craft_depth(c),
        resource_depth(recipe(c).1) < craft_depth(c),
{
}

/// How many units of basic resource `b` one unit of resource `r` consumes
/// once every ingredient is expanded down to basic resources.
pub open spec fn expanded_basic_count(r: ResourceType, b: BasicResourceType) -> nat
    decreases resource_depth(r),
{
    match r {
        ResourceType::Basic(x) => if x == b { 1 } else { 0 },
        ResourceType::Complex(c) => {
            proof {
                lemma_recipe_decreases(c);
            }
            expanded_basic_count(recipe(c).0, b) + expanded_basic_count(recipe(c).1, b)
        },
    }
}

/// The table of basic resources one unit of each complex resource needs,
/// as the collecting strategy plans them.
pub open spec fn basic_need(c: ComplexResourceType, b: BasicResourceType) -> nat {
    match (c, b) {
        (ComplexResourceType::Water, BasicResourceType::Hydrogen) => 1,
        (ComplexResourceType::Water, BasicResourceType::Oxygen) => 1,
        (ComplexResourceType::Diamond, BasicResourceType::Carbon) => 2,
        (ComplexResourceType::Life, BasicResourceType::Hydrogen) => 1,
        (ComplexResourceType::Life, BasicResourceType::Oxygen) => 1,
        (ComplexResourceType::Life, BasicResourceType::Carbon) => 1,
        (ComplexResourceType::Robot, BasicResourceType::Silicon) => 1,
        (ComplexResourceType::Robot, BasicResourceType::Hydrogen) => 1,
        (ComplexResourceType::Robot, BasicResourceType::Oxygen) => 1,
        (ComplexResourceType::Robot, BasicResourceType::Carbon) => 1,
        (ComplexResourceType::Dolphin, BasicResourceType::Hydrogen) => 2,
        (ComplexResourceType::Dolphin, BasicResourceType::Oxygen) => 2,
        (ComplexResourceType::Dolphin, BasicResourceType::Carbon) => 1,
        (ComplexResourceType::AIPartner, BasicResourceType::Silicon) => 1,
        (ComplexResourceType::AIPartner, BasicResourceType::Carbon) => 3,
        (ComplexResourceType::AIPartner, BasicResourceType::Hydrogen) => 1,
        (ComplexResourceType::AIPartner, BasicResourceType::Oxygen) => 1,
        _ => 0,
    }
}

/// The collecting table agrees with the recipes: one unit of a complex
/// resource needs exactly the basic resources its recipe tree expands to.
pub proof fn law_basic_need_matches_recipes(c: ComplexResourceType, b: BasicResourceType)
    ensures
        basic_need(c, b) == expanded_basic_count(ResourceType::Complex(c), b),
{
    reveal_with_fuel(expanded_basic_count, 5);
}

} // verus!
