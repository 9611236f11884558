//! The records of a data file.
//!
//! Texts are views into the text that was parsed. A decimal number is kept
//! as it was written: the parser finds where it ends and leaves its value to
//! the caller.

use crate::model::Model;
use vstd::prelude::*;

verus! {

/// Mortgage owned by a player
#[derive(Debug, PartialEq, Clone, Copy)]
pub struct Mortgage<'a> {
    /// amount of mortgage
    pub principal: u64,
    /// interest rate, as written
    pub interest: &'a str,
    /// term by which mortgage is due
    pub term: u16,
}

/// [`Mortgage`] in contracts.
pub struct MortgageModel {
    pub principal: u64,
    pub interest: Seq<u8>,
    pub term: u16,
}

impl<'a> Model for Mortgage<'a> {
    type M = MortgageModel;

    open spec fn model(&self) -> MortgageModel {
        MortgageModel {
            principal: self.principal.model(),
            interest: self.interest.model(),
            term: self.term.model(),
        }
    }
}

/// Account of a player
#[derive(Debug, PartialEq, Clone, Copy)]
pub struct Account<'a> {
    /// how much he currently has
    pub credits: u64,
    /// his credit score
    pub score: u32,
    /// his current mortgage
    pub mortgage: Mortgage<'a>,
}

/// [`Account`] in contracts.
pub struct AccountModel {
    pub credits: u64,
    pub score: u32,
    pub mortgage: MortgageModel,
}

impl<'a> Model for Account<'a> {
    type M = AccountModel;

    open spec fn model(&self) -> AccountModel {
        AccountModel {
            credits: self.credits.model(),
            score: self.score.model(),
            mortgage: self.mortgage.model(),
        }
    }
}

/// A date
#[derive(Debug, PartialEq, Eq, Clone, Copy, Structural)]
pub struct Date {
    /// the year
    pub year: u16,
    /// the month
    pub month: u8,
    /// the day
    pub day: u8,
}

impl Model for Date {
    type M = Date;

    open spec fn model(&self) -> Date {
        *self
    }
}

/// A fleet
#[derive(Debug, PartialEq, Clone)]
pub struct Fleet<'a> {
    /// kind of the fleet
    pub kind: &'a str,
    /// count of ships in the fleet
    pub count: u16,
}

/// [`Fleet`] in contracts.
pub struct FleetModel {
    pub kind: Seq<u8>,
    pub count: u16,
}

impl<'a> Model for Fleet<'a> {
    type M = FleetModel;

    open spec fn model(&self) -> FleetModel {
        FleetModel {
            kind: self.kind.model(),
            count: self.count.model(),
        }
    }
}

/// Tribute given by a planet
#[derive(Debug, PartialEq, Clone)]
pub struct Tribute<'a> {
    /// amount given for tribute
    pub value: u32,
    /// menace threshold at which planet will reply for tribute
    pub threshold: u32,
    /// fleet that will protect planet
    pub fleet: Fleet<'a>,
}

/// [`Tribute`] in contracts.
pub struct TributeModel {
    pub value: u32,
    pub threshold: u32,
    pub fleet: FleetModel,
}

impl<'a> Model for Tribute<'a> {
    type M = TributeModel;

    open spec fn model(&self) -> TributeModel {
        TributeModel {
            value: self.value.model(),
            threshold: self.threshold.model(),
            fleet: self.fleet.model(),
        }
    }
}

/// Start point for the player
#[derive(Debug, PartialEq, Clone)]
pub struct Start<'a> {
    /// start date
    pub date: Date,
    /// start system
    pub system: &'a str,
    /// start planet
    pub planet: &'a str,
    /// start account
    pub account: Account<'a>,
    /// start set
    pub set: &'a str,
}

/// [`Start`] in contracts.
pub struct StartModel {
    pub date: Date,
    pub system: Seq<u8>,
    pub planet: Seq<u8>,
    pub account: AccountModel,
    pub set: Seq<u8>,
}

impl<'a> Model for Start<'a> {
    type M = StartModel;

    open spec fn model(&self) -> StartModel {
        StartModel {
            date: self.date.model(),
            system: self.system.model(),
            planet: self.planet.model(),
            account: self.account.model(),
            set: self.set.model(),
        }
    }
}

/// A planet
#[derive(Debug, PartialEq, Clone)]
pub struct Planet<'a> {
    /// name of the planet
    pub name: &'a str,
    /// attributes of the planet
    pub attributes: Vec<&'a str>,
    /// landscape to display for the planet
    pub landscape: Option<&'a str>,
    /// government of the planet, if different from the parent system
    pub government: Option<&'a str>,
    /// music to play on landing
    pub music: Option<&'a str>,
    /// description of the planet, each text is a line
    pub description: Vec<&'a str>,
    /// description of the spaceport, each text is a line
    pub spaceport: Vec<&'a str>,
    /// shipyard, each text is a set of ships sold
    pub shipyard: Vec<&'a str>,
    /// outfitter, each text is a set of outfits sold
    pub outfitter: Vec<&'a str>,
    /// factor for bribe, as written
    pub bribe: Option<&'a str>,
    /// security of the planet, as written
    pub security: Option<&'a str>,
    /// tribute for this planet
    pub tribute: Option<Tribute<'a>>,
    /// required reputation with planet faction to land, as written
    pub required_reputation: Option<&'a str>,
}

/// [`Planet`] in contracts.
pub struct PlanetModel {
    pub name: Seq<u8>,
    pub attributes: Seq<Seq<u8>>,
    pub landscape: Option<Seq<u8>>,
    pub government: Option<Seq<u8>>,
    pub music: Option<Seq<u8>>,
    pub description: Seq<Seq<u8>>,
    pub spaceport: Seq<Seq<u8>>,
    pub shipyard: Seq<Seq<u8>>,
    pub outfitter: Seq<Seq<u8>>,
    pub bribe: Option<Seq<u8>>,
    pub security: Option<Seq<u8>>,
    pub tribute: Option<TributeModel>,
    pub required_reputation: Option<Seq<u8>>,
}

impl<'a> Model for Planet<'a> {
    type M = PlanetModel;

    open spec fn model(&self) -> PlanetModel {
        PlanetModel {
            name: self.name.model(),
            attributes: self.attributes.model(),
            landscape: self.landscape.model(),
            government: self.government.model(),
            music: self.music.model(),
            description: self.description.model(),
            spaceport: self.spaceport.model(),
            shipyard: self.shipyard.model(),
            outfitter: self.outfitter.model(),
            bribe: self.bribe.model(),
            security: self.security.model(),
            tribute: self.tribute.model(),
            required_reputation: self.required_reputation.model(),
        }
    }
}

/// A position
#[derive(Debug, PartialEq, Clone, Copy)]
pub struct Position<'a> {
    /// x pos, as written
    pub x: &'a str,
    /// y pos, as written
    pub y: &'a str,
}

/// [`Position`] in contracts.
pub struct PositionModel {
    pub x: Seq<u8>,
    pub y: Seq<u8>,
}

impl<'a> Model for Position<'a> {
    type M = PositionModel;

    open spec fn model(&self) -> PositionModel {
        PositionModel {
            x: self.x.model(),
            y: self.y.model(),
        }
    }
}

/// A galaxy
#[derive(Debug, PartialEq, Clone)]
pub struct Galaxy<'a> {
    /// its position
    pub pos: Position<'a>,
    /// its name
    pub name: &'a str,
    /// its sprite
    pub sprite: Option<&'a str>,
}

/// [`Galaxy`] in contracts.
pub struct GalaxyModel {
    pub pos: PositionModel,
    pub name: Seq<u8>,
    pub sprite: Option<Seq<u8>>,
}

impl<'a> Model for Galaxy<'a> {
    type M = GalaxyModel;

    open spec fn model(&self) -> GalaxyModel {
        GalaxyModel {
            pos: self.pos.model(),
            name: self.name.model(),
            sprite: self.sprite.model(),
        }
    }
}

/// An asteroid
#[derive(Debug, PartialEq, Clone)]
pub struct Asteroids<'a> {
    /// its name
    pub name: &'a str,
    /// a count whose meaning the data does not tell
    pub first_value: u32,
    /// a decimal whose meaning the data does not tell, as written
    pub second_value: &'a str,
}

/// [`Asteroids`] in contracts.
pub struct AsteroidsModel {
    pub name: Seq<u8>,
    pub first_value: u32,
    pub second_value: Seq<u8>,
}

impl<'a> Model for Asteroids<'a> {
    type M = AsteroidsModel;

    open spec fn model(&self) -> AsteroidsModel {
        AsteroidsModel {
            name: self.name.model(),
            first_value: self.first_value.model(),
            second_value: self.second_value.model(),
        }
    }
}

/// A minable
#[derive(Debug, PartialEq, Clone)]
pub struct Minables<'a> {
    /// its name
    pub name: &'a str,
    /// a count whose meaning the data does not tell
    pub first_value: u32,
    /// a decimal whose meaning the data does not tell, as written
    pub second_value: &'a str,
}

/// [`Minables`] in contracts.
pub struct MinablesModel {
    pub name: Seq<u8>,
    pub first_value: u32,
    pub second_value: Seq<u8>,
}

impl<'a> Model for Minables<'a> {
    type M = MinablesModel;

    open spec fn model(&self) -> MinablesModel {
        MinablesModel {
            name: self.name.model(),
            first_value: self.first_value.model(),
            second_value: self.second_value.model(),
        }
    }
}

/// A trade good with a price
#[derive(Debug, PartialEq, Clone)]
pub struct Trade<'a> {
    /// its name
    pub name: &'a str,
    /// price
    pub price: u32,
}

/// [`Trade`] in contracts.
pub struct TradeModel {
    pub name: Seq<u8>,
    pub price: u32,
}

impl<'a> Model for Trade<'a> {
    type M = TradeModel;

    open spec fn model(&self) -> TradeModel {
        TradeModel {
            name: self.name.model(),
            price: self.price.model(),
        }
    }
}

/// An object in a system
#[derive(Debug, PartialEq)]
pub struct SystemObject<'a> {
    /// its name
    pub name: Option<&'a str>,
    /// its sprite
    pub sprite: Option<&'a str>,
    /// distance, as written
    pub distance: Option<&'a str>,
    /// period, as written
    pub period: &'a str,
    /// offset, as written
    pub offset: Option<&'a str>,
    /// related objects
    pub objects: Vec<SystemObject<'a>>,
}

/// [`SystemObject`] in contracts.
pub struct SystemObjectModel {
    pub name: Option<Seq<u8>>,
    pub sprite: Option<Seq<u8>>,
    pub distance: Option<Seq<u8>>,
    pub period: Seq<u8>,
    pub offset: Option<Seq<u8>>,
    pub objects: Seq<SystemObjectModel>,
}

impl<'a> Model for SystemObject<'a> {
    type M = SystemObjectModel;

    open spec fn model(&self) -> SystemObjectModel {
        object_model(*self)
    }
}

/// What an object stands for: its own fields, and what each of its
/// children stands for, in their order.
pub open spec fn object_model(object: SystemObject) -> SystemObjectModel
    decreases object,
{
    SystemObjectModel {
        name: object.name.model(),
        sprite: object.sprite.model(),
        distance: object.distance.model(),
        period: object.period.model(),
        offset: object.offset.model(),
        objects: Seq::new(
            object.objects@.len(),
            |i: int|
                if 0 <= i < object.objects.len() {
                    object_model(object.objects[i])
                } else {
                    arbitrary()
                },
        ),
    }
}

/// A system
#[derive(Debug, PartialEq)]
pub struct System<'a> {
    /// its name
    pub name: &'a str,
    /// its position
    pub pos: Position<'a>,
    /// its government
    pub government: &'a str,
    /// habitable zone, as written
    pub habitable: &'a str,
    /// belt
    pub belt: Option<u32>,
    /// haze type
    pub haze: Option<&'a str>,
    /// links to other systems
    pub links: Vec<&'a str>,
    /// asteroids present in the system
    pub asteroids: Vec<Asteroids<'a>>,
    /// minables present in the system
    pub minables: Vec<Minables<'a>>,
    /// trade goods that are sold here
    pub trades: Vec<Trade<'a>>,
    /// fleets present in the system
    pub fleets: Vec<Fleet<'a>>,
    /// objects present in the system
    pub objects: Vec<SystemObject<'a>>,
}

/// [`System`] in contracts.
pub struct SystemModel {
    pub name: Seq<u8>,
    pub pos: PositionModel,
    pub government: Seq<u8>,
    pub habitable: Seq<u8>,
    pub belt: Option<u32>,
    pub haze: Option<Seq<u8>>,
    pub links: Seq<Seq<u8>>,
    pub asteroids: Seq<AsteroidsModel>,
    pub minables: Seq<MinablesModel>,
    pub trades: Seq<TradeModel>,
    pub fleets: Seq<FleetModel>,
    pub objects: Seq<SystemObjectModel>,
}

impl<'a> Model for System<'a> {
    type M = SystemModel;

    open spec fn model(&self) -> SystemModel {
        SystemModel {
            name: self.name.model(),
            pos: self.pos.model(),
            government: self.government.model(),
            habitable: self.habitable.model(),
            belt: self.belt.model(),
            haze: self.haze.model(),
            links: self.links.model(),
            asteroids: self.asteroids.model(),
            minables: self.minables.model(),
            trades: self.trades.model(),
            fleets: self.fleets.model(),
            objects: self.objects.model(),
        }
    }
}

/// Weapon of a ship
#[derive(Debug, PartialEq, Eq, Clone, Copy, Structural)]
pub struct ShipWeapon {
    /// its blast radius
    pub blast_radius: u32,
    /// its shield damage
    pub shield_damage: u32,
    /// its hull damage
    pub hull_damage: u32,
    /// its hit force
    pub hit_force: u32,
}

impl Model for ShipWeapon {
    type M = ShipWeapon;

    open spec fn model(&self) -> ShipWeapon {
        *self
    }
}

/// Attributes of a ship
#[derive(Debug, PartialEq, Clone)]
pub struct ShipAttributes<'a> {
    /// licences needed to pilot this ship
    pub licenses: Vec<&'a str>,
    /// its category
    pub category: &'a str,
    /// its cost
    pub cost: u32,
    /// its shield
    pub shields: u32,
    /// its hull strength
    pub hull: u32,
    /// is it an automaton
    pub automaton: bool,
    /// its required crew count
    pub required_crew: u32,
    /// its bunk count
    pub bunks: u32,
    /// its mass
    pub mass: u32,
    /// its drag, as written
    pub drag: &'a str,
    /// its heat dissipation, as written
    pub heat_dissipation: &'a str,
    /// its fuel capacity
    pub fuel_capacity: u32,
    /// its cargo space
    pub cargo_space: u32,
    /// its outfit space
    pub outfit_space: u32,
    /// its weapon capacity
    pub weapon_capacity: u32,
    /// its engine capacity
    pub engine_capacity: u32,
    /// its weapon
    pub weapon: ShipWeapon,
}

/// [`ShipAttributes`] in contracts.
pub struct ShipAttributesModel {
    pub licenses: Seq<Seq<u8>>,
    pub category: Seq<u8>,
    pub cost: u32,
    pub shields: u32,
    pub hull: u32,
    pub automaton: bool,
    pub required_crew: u32,
    pub bunks: u32,
    pub mass: u32,
    pub drag: Seq<u8>,
    pub heat_dissipation: Seq<u8>,
    pub fuel_capacity: u32,
    pub cargo_space: u32,
    pub outfit_space: u32,
    pub weapon_capacity: u32,
    pub engine_capacity: u32,
    pub weapon: ShipWeapon,
}

impl<'a> Model for ShipAttributes<'a> {
    type M = ShipAttributesModel;

    open spec fn model(&self) -> ShipAttributesModel {
        ShipAttributesModel {
            licenses: self.licenses.model(),
            category: self.category.model(),
            cost: self.cost.model(),
            shields: self.shields.model(),
            hull: self.hull.model(),
            automaton: self.automaton.model(),
            required_crew: self.required_crew.model(),
            bunks: self.bunks.model(),
            mass: self.mass.model(),
            drag: self.drag.model(),
            heat_dissipation: self.heat_dissipation.model(),
            fuel_capacity: self.fuel_capacity.model(),
            cargo_space: self.cargo_space.model(),
            outfit_space: self.outfit_space.model(),
            weapon_capacity: self.weapon_capacity.model(),
            engine_capacity: self.engine_capacity.model(),
            weapon: self.weapon.model(),
        }
    }
}

/// A sprite
#[derive(Debug, PartialEq, Clone)]
pub enum Sprite<'a> {
    /// Complex sprite with multiple frames
    Sprite {
        /// name of the sprite
        name: &'a str,
        /// time of one frame
        frame_time: u32,
        /// delay
        delay: u32,
        /// whether the animation starts at a random frame
        random_start_frame: bool,
    },
    /// Simple sprite
    Simple(&'a str),
}

/// [`Sprite`] in contracts.
pub enum SpriteModel {
    Sprite { name: Seq<u8>, frame_time: u32, delay: u32, random_start_frame: bool },
    Simple(Seq<u8>),
}

impl<'a> Model for Sprite<'a> {
    type M = SpriteModel;

    open spec fn model(&self) -> SpriteModel {
        match self {
            Sprite::Sprite { name, frame_time, delay, random_start_frame } => SpriteModel::Sprite {
                name: name.model(),
                frame_time: *frame_time,
                delay: *delay,
                random_start_frame: *random_start_frame,
            },
            Sprite::Simple(name) => SpriteModel::Simple(name.model()),
        }
    }
}

/// A ship
#[derive(Debug, PartialEq, Clone)]
pub struct Ship<'a> {
    /// name of the ship
    pub name: &'a str,
    /// subclass of the ship
    pub subclass: Option<&'a str>,
    /// plural form of the name
    pub plural: Option<&'a str>,
    /// sprite of the ship
    pub sprite: Sprite<'a>,
    /// thumbnail of the ship
    pub thumbnail: &'a str,
    /// attributes of the ship
    pub attributes: ShipAttributes<'a>,
    /// outfits of the ship, each with its count
    pub outfits: Vec<(&'a str, u32)>,
    /// engine locations, as written, each with an optional third decimal
    pub engine: Vec<(&'a str, &'a str, Option<&'a str>)>,
    /// gun mount locations, as written, and what they hold
    pub gun: Vec<(&'a str, &'a str, Option<&'a str>)>,
    /// turret mount locations, as written, and what they hold
    pub turret: Vec<(&'a str, &'a str, Option<&'a str>)>,
    /// fighter mount locations, as written, and where they are
    pub fighter: Vec<(&'a str, &'a str, Option<&'a str>)>,
    /// drone mount locations, as written, and where they are
    pub drone: Vec<(&'a str, &'a str, Option<&'a str>)>,
    /// leaks
    pub leak: Vec<(&'a str, u32, u32)>,
    /// explosions on death, each with its count
    pub explode: Vec<(&'a str, u32)>,
    /// final explosion
    pub final_explode: Option<&'a str>,
    /// description, each text is a line
    pub description: Vec<&'a str>,
}

/// [`Ship`] in contracts.
pub struct ShipModel {
    pub name: Seq<u8>,
    pub subclass: Option<Seq<u8>>,
    pub plural: Option<Seq<u8>>,
    pub sprite: SpriteModel,
    pub thumbnail: Seq<u8>,
    pub attributes: ShipAttributesModel,
    pub outfits: Seq<(Seq<u8>, u32)>,
    pub engine: Seq<(Seq<u8>, Seq<u8>, Option<Seq<u8>>)>,
    pub gun: Seq<(Seq<u8>, Seq<u8>, Option<Seq<u8>>)>,
    pub turret: Seq<(Seq<u8>, Seq<u8>, Option<Seq<u8>>)>,
    pub fighter: Seq<(Seq<u8>, Seq<u8>, Option<Seq<u8>>)>,
    pub drone: Seq<(Seq<u8>, Seq<u8>, Option<Seq<u8>>)>,
    pub leak: Seq<(Seq<u8>, u32, u32)>,
    pub explode: Seq<(Seq<u8>, u32)>,
    pub final_explode: Option<Seq<u8>>,
    pub description: Seq<Seq<u8>>,
}

impl<'a> Model for Ship<'a> {
    type M = ShipModel;

    open spec fn model(&self) -> ShipModel {
        ShipModel {
            name: self.name.model(),
            subclass: self.subclass.model(),
            plural: self.plural.model(),
            sprite: self.sprite.model(),
            thumbnail: self.thumbnail.model(),
            attributes: self.attributes.model(),
            outfits: self.outfits.model(),
            engine: self.engine.model(),
            gun: self.gun.model(),
            turret: self.turret.model(),
            fighter: self.fighter.model(),
            drone: self.drone.model(),
            leak: self.leak.model(),
            explode: self.explode.model(),
            final_explode: self.final_explode.model(),
            description: self.description.model(),
        }
    }
}

/// The children of an object stand for the list of what each child stands
/// for.
pub proof fn lemma_object_children(object: SystemObject)
    ensures
        object.model().objects == object.objects.model(),
{
    let direct = object.model().objects;
    let listed = object.objects.model();
    assert(direct.len() == listed.len());
    assert forall|i: int| 0 <= i < direct.len() implies direct[i] == listed[i] by {
        assert(object.objects[i] == object.objects@[i]);
    }
    assert(direct =~= listed);
}

/// The top level records that a data file holds.
#[derive(Debug, PartialEq)]
pub enum Object<'a> {
    /// player start
    Start(Start<'a>),
    /// a planet
    Planet(Planet<'a>),
    /// a galaxy
    Galaxy(Galaxy<'a>),
    /// a system
    System(System<'a>),
    /// a ship
    Ship(Ship<'a>),
}

/// [`Object`] in contracts.
pub enum ObjectModel {
    Start(StartModel),
    Planet(PlanetModel),
    Galaxy(GalaxyModel),
    System(SystemModel),
    Ship(ShipModel),
}

impl<'a> Model for Object<'a> {
    type M = ObjectModel;

    open spec fn model(&self) -> ObjectModel {
        match self {
            Object::Start(record) => ObjectModel::Start(record.model()),
            Object::Planet(record) => ObjectModel::Planet(record.model()),
            Object::Galaxy(record) => ObjectModel::Galaxy(record.model()),
            Object::System(record) => ObjectModel::System(record.model()),
            Object::Ship(record) => ObjectModel::Ship(record.model()),
        }
    }
}

} // verus!
