//! Drafts of records. A record is read field by field into a draft and
//! finalized when no more field fits: the draft then yields the record, or
//! the name of the first required field that the text never gave.

use crate::helpers::{fail_invalid, invalid};
use crate::model::{lemma_model_empty, Model, Outcome, Parsed};
use crate::types::{
    lemma_object_children, Account, AccountModel, Asteroids, AsteroidsModel, Date, Fleet,
    FleetModel, Galaxy, GalaxyModel, Minables, MinablesModel, Mortgage, MortgageModel, Planet,
    PlanetModel, Position, PositionModel, Ship, ShipAttributes, ShipAttributesModel, ShipModel,
    ShipWeapon, Sprite, SpriteModel, Start, StartModel, System, SystemModel, SystemObject,
    SystemObjectModel, Trade, TradeModel, Tribute, TributeModel,
};
use vstd::prelude::*;

verus! {

/// A [`Galaxy`] in the making, with one slot for each field. A slot holds
/// what the text gave for its field, or nothing yet.
#[derive(Debug)]
pub struct GalaxyBuilder<'a> {
    pub pos: Option<Position<'a>>,
    pub name: Option<&'a str>,
    pub sprite: Option<&'a str>,
}

/// [`GalaxyBuilder`] in contracts.
pub struct GalaxyBuilderModel {
    pub pos: Option<PositionModel>,
    pub name: Option<Seq<u8>>,
    pub sprite: Option<Seq<u8>>,
}

impl<'a> Model for GalaxyBuilder<'a> {
    type M = GalaxyBuilderModel;

    open spec fn model(&self) -> GalaxyBuilderModel {
        GalaxyBuilderModel {
            pos: self.pos.model(),
            name: self.name.model(),
            sprite: self.sprite.model(),
        }
    }
}

/// A field of a [`Galaxy`] as the text gives it.
pub enum GalaxyField {
    Pos(PositionModel),
    Sprite(Seq<u8>),
}

impl GalaxyField {
    /// The slot that the field goes to, by its place among the fields.
    pub open spec fn slot(self) -> nat {
        match self {
            GalaxyField::Pos(_) => 0,
            GalaxyField::Sprite(_) => 1,
        }
    }
}

impl GalaxyBuilderModel {
    /// The draft with every slot empty.
    pub open spec fn empty() -> GalaxyBuilderModel {
        GalaxyBuilderModel {
            pos: None,
            name: None,
            sprite: None,
        }
    }

    /// The draft with `field` put into its slot. What the slot held before
    /// is replaced; every other slot stays.
    pub open spec fn with(self, field: GalaxyField) -> GalaxyBuilderModel {
        match field {
            GalaxyField::Pos(v) => GalaxyBuilderModel { pos: Some(v), ..self },
            GalaxyField::Sprite(v) => GalaxyBuilderModel { sprite: Some(v), ..self },
        }
    }

    /// The name of the first required field, in declaration order, whose
    /// slot is empty.
    pub open spec fn missing(self) -> Option<&'static str> {
        if self.pos is None {
            Some("pos")
        } else if self.name is None {
            Some("name")
        } else {
            None
        }
    }

    /// The record that a draft without a missing field stands for. A
    /// field that is not required and was never read is absent, empty or
    /// zero.
    pub open spec fn record(self) -> GalaxyModel {
        GalaxyModel {
            pos: self.pos->0,
            name: self.name->0,
            sprite: self.sprite,
        }
    }

    /// What the draft makes of the fields read up to `rest`: the record,
    /// or the hard failure that names the record and its missing field.
    pub open spec fn finish(self, rest: Seq<u8>) -> Outcome<GalaxyModel> {
        match self.missing() {
            Some(field) => invalid(rest, "galaxy", field),
            None => Ok((rest, self.record())),
        }
    }

    /// True when the slot `slot` is empty.
    pub open spec fn lacks(self, slot: nat) -> bool {
        if slot == 0 {
            self.pos is None
        } else if slot == 1 {
            self.sprite is None
        } else {
            false
        }
    }
}

impl GalaxyField {
    /// True when a record cannot do without the field of the slot `slot`.
    pub open spec fn is_required(slot: nat) -> bool {
        slot == 0
    }
}

impl<'a> GalaxyBuilder<'a> {
    /// A draft with every slot empty.
    pub fn new() -> (draft: GalaxyBuilder<'a>)
        ensures
            draft.model() == GalaxyBuilderModel::empty(),
    {
        GalaxyBuilder {
            pos: None,
            name: None,
            sprite: None,
        }
    }

    /// Finalizes the draft. Fails with the name of the first required
    /// field, in declaration order, that was never read.
    pub fn build(self) -> (r: Result<Galaxy<'a>, &'static str>)
        ensures
            match self.model().missing() {
                Some(field) => r matches Err(name) && name@ == field@,
                None => r matches Ok(record) && record.model() == self.model().record(),
            },
    {
        let pos = match self.pos {
            Some(v) => v,
            None => {
                return Err("pos");
            },
        };
        let name = match self.name {
            Some(v) => v,
            None => {
                return Err("name");
            },
        };
        Ok(
            Galaxy {
                pos,
                name,
                sprite: self.sprite,
            },
        )
    }

    /// Finalizes the draft of a record that was read up to `rest`.
    pub fn finish<'b>(self, rest: &'b str) -> (r: Parsed<'b, Galaxy<'a>>)
        ensures
            r.model() == self.model().finish(rest.model()),
    {
        match self.build() {
            Ok(record) => Ok((rest, record)),
            Err(field) => fail_invalid(rest, "galaxy", field),
        }
    }
}

/// Taking a field into a draft fills its slot and no other.
pub proof fn lemma_galaxy_field_fills(draft: GalaxyBuilderModel, field: GalaxyField, slot: nat)
    ensures
        field.slot() != slot ==> draft.with(field).lacks(slot) == draft.lacks(slot),
        !draft.with(field).lacks(field.slot()),
        GalaxyField::is_required(slot) && draft.lacks(slot) ==> draft.missing() is Some,
{
}

/// Two fields of different slots can be taken into a draft in either order.
pub proof fn lemma_galaxy_fields_commute(
    draft: GalaxyBuilderModel,
    first: GalaxyField,
    second: GalaxyField,
)
    requires
        first.slot() != second.slot(),
    ensures
        draft.with(first).with(second) == draft.with(second).with(first),
{
}

/// A [`Mortgage`] in the making, with one slot for each field. A slot holds
/// what the text gave for its field, or nothing yet.
#[derive(Debug)]
pub struct MortgageBuilder<'a> {
    pub principal: Option<u64>,
    pub interest: Option<&'a str>,
    pub term: Option<u16>,
}

/// [`MortgageBuilder`] in contracts.
pub struct MortgageBuilderModel {
    pub principal: Option<u64>,
    pub interest: Option<Seq<u8>>,
    pub term: Option<u16>,
}

impl<'a> Model for MortgageBuilder<'a> {
    type M = MortgageBuilderModel;

    open spec fn model(&self) -> MortgageBuilderModel {
        MortgageBuilderModel {
            principal: self.principal.model(),
            interest: self.interest.model(),
            term: self.term.model(),
        }
    }
}

/// A field of a [`Mortgage`] as the text gives it.
pub enum MortgageField {
    Principal(u64),
    Interest(Seq<u8>),
    Term(u16),
}

impl MortgageField {
    /// The slot that the field goes to, by its place among the fields.
    pub open spec fn slot(self) -> nat {
        match self {
            MortgageField::Principal(_) => 0,
            MortgageField::Interest(_) => 1,
            MortgageField::Term(_) => 2,
        }
    }
}

impl MortgageBuilderModel {
    /// The draft with every slot empty.
    pub open spec fn empty() -> MortgageBuilderModel {
        MortgageBuilderModel {
            principal: None,
            interest: None,
            term: None,
        }
    }

    /// The draft with `field` put into its slot. What the slot held before
    /// is replaced; every other slot stays.
    pub open spec fn with(self, field: MortgageField) -> MortgageBuilderModel {
        match field {
            MortgageField::Principal(v) => MortgageBuilderModel { principal: Some(v), ..self },
            MortgageField::Interest(v) => MortgageBuilderModel { interest: Some(v), ..self },
            MortgageField::Term(v) => MortgageBuilderModel { term: Some(v), ..self },
        }
    }

    /// The name of the first required field, in declaration order, whose
    /// slot is empty.
    pub open spec fn missing(self) -> Option<&'static str> {
        if self.principal is None {
            Some("principal")
        } else if self.interest is None {
            Some("interest")
        } else if self.term is None {
            Some("term")
        } else {
            None
        }
    }

    /// The record that a draft without a missing field stands for. A
    /// field that is not required and was never read is absent, empty or
    /// zero.
    pub open spec fn record(self) -> MortgageModel {
        MortgageModel {
            principal: self.principal->0,
            interest: self.interest->0,
            term: self.term->0,
        }
    }

    /// What the draft makes of the fields read up to `rest`: the record,
    /// or the hard failure that names the record and its missing field.
    pub open spec fn finish(self, rest: Seq<u8>) -> Outcome<MortgageModel> {
        match self.missing() {
            Some(field) => invalid(rest, "mortgage", field),
            None => Ok((rest, self.record())),
        }
    }

    /// True when the slot `slot` is empty.
    pub open spec fn lacks(self, slot: nat) -> bool {
        if slot == 0 {
            self.principal is None
        } else if slot == 1 {
            self.interest is None
        } else if slot == 2 {
            self.term is None
        } else {
            false
        }
    }
}

impl MortgageField {
    /// True when a record cannot do without the field of the slot `slot`.
    pub open spec fn is_required(slot: nat) -> bool {
        slot == 0 || slot == 1 || slot == 2
    }
}

impl<'a> MortgageBuilder<'a> {
    /// A draft with every slot empty.
    pub fn new() -> (draft: MortgageBuilder<'a>)
        ensures
            draft.model() == MortgageBuilderModel::empty(),
    {
        MortgageBuilder {
            principal: None,
            interest: None,
            term: None,
        }
    }

    /// Finalizes the draft. Fails with the name of the first required
    /// field, in declaration order, that was never read.
    pub fn build(self) -> (r: Result<Mortgage<'a>, &'static str>)
        ensures
            match self.model().missing() {
                Some(field) => r matches Err(name) && name@ == field@,
                None => r matches Ok(record) && record.model() == self.model().record(),
            },
    {
        let principal = match self.principal {
            Some(v) => v,
            None => {
                return Err("principal");
            },
        };
        let interest = match self.interest {
            Some(v) => v,
            None => {
                return Err("interest");
            },
        };
        let term = match self.term {
            Some(v) => v,
            None => {
                return Err("term");
            },
        };
        Ok(
            Mortgage {
                principal,
                interest,
                term,
            },
        )
    }

    /// Finalizes the draft of a record that was read up to `rest`.
    pub fn finish<'b>(self, rest: &'b str) -> (r: Parsed<'b, Mortgage<'a>>)
        ensures
            r.model() == self.model().finish(rest.model()),
    {
        match self.build() {
            Ok(record) => Ok((rest, record)),
            Err(field) => fail_invalid(rest, "mortgage", field),
        }
    }
}

/// Taking a field into a draft fills its slot and no other.
pub proof fn lemma_mortgage_field_fills(
    draft: MortgageBuilderModel,
    field: MortgageField,
    slot: nat,
)
    ensures
        field.slot() != slot ==> draft.with(field).lacks(slot) == draft.lacks(slot),
        !draft.with(field).lacks(field.slot()),
        MortgageField::is_required(slot) && draft.lacks(slot) ==> draft.missing() is Some,
{
}

/// Two fields of different slots can be taken into a draft in either order.
pub proof fn lemma_mortgage_fields_commute(
    draft: MortgageBuilderModel,
    first: MortgageField,
    second: MortgageField,
)
    requires
        first.slot() != second.slot(),
    ensures
        draft.with(first).with(second) == draft.with(second).with(first),
{
}

/// An [`Account`] in the making, with one slot for each field. A slot holds
/// what the text gave for its field, or nothing yet.
#[derive(Debug)]
pub struct AccountBuilder<'a> {
    pub credits: Option<u64>,
    pub score: Option<u32>,
    pub mortgage: Option<Mortgage<'a>>,
}

/// [`AccountBuilder`] in contracts.
pub struct AccountBuilderModel {
    pub credits: Option<u64>,
    pub score: Option<u32>,
    pub mortgage: Option<MortgageModel>,
}

impl<'a> Model for AccountBuilder<'a> {
    type M = AccountBuilderModel;

    open spec fn model(&self) -> AccountBuilderModel {
        AccountBuilderModel {
            credits: self.credits.model(),
            score: self.score.model(),
            mortgage: self.mortgage.model(),
        }
    }
}

/// A field of an [`Account`] as the text gives it.
pub enum AccountField {
    Credits(u64),
    Score(u32),
    Mortgage(MortgageModel),
}

impl AccountField {
    /// The slot that the field goes to, by its place among the fields.
    pub open spec fn slot(self) -> nat {
        match self {
            AccountField::Credits(_) => 0,
            AccountField::Score(_) => 1,
            AccountField::Mortgage(_) => 2,
        }
    }
}

impl AccountBuilderModel {
    /// The draft with every slot empty.
    pub open spec fn empty() -> AccountBuilderModel {
        AccountBuilderModel {
            credits: None,
            score: None,
            mortgage: None,
        }
    }

    /// The draft with `field` put into its slot. What the slot held before
    /// is replaced; every other slot stays.
    pub open spec fn with(self, field: AccountField) -> AccountBuilderModel {
        match field {
            AccountField::Credits(v) => AccountBuilderModel { credits: Some(v), ..self },
            AccountField::Score(v) => AccountBuilderModel { score: Some(v), ..self },
            AccountField::Mortgage(v) => AccountBuilderModel { mortgage: Some(v), ..self },
        }
    }

    /// The name of the first required field, in declaration order, whose
    /// slot is empty.
    pub open spec fn missing(self) -> Option<&'static str> {
        if self.credits is None {
            Some("credits")
        } else if self.score is None {
            Some("score")
        } else if self.mortgage is None {
            Some("mortgage")
        } else {
            None
        }
    }

    /// The record that a draft without a missing field stands for. A
    /// field that is not required and was never read is absent, empty or
    /// zero.
    pub open spec fn record(self) -> AccountModel {
        AccountModel {
            credits: self.credits->0,
            score: self.score->0,
            mortgage: self.mortgage->0,
        }
    }

    /// What the draft makes of the fields read up to `rest`: the record,
    /// or the hard failure that names the record and its missing field.
    pub open spec fn finish(self, rest: Seq<u8>) -> Outcome<AccountModel> {
        match self.missing() {
            Some(field) => invalid(rest, "account", field),
            None => Ok((rest, self.record())),
        }
    }

    /// True when the slot `slot` is empty.
    pub open spec fn lacks(self, slot: nat) -> bool {
        if slot == 0 {
            self.credits is None
        } else if slot == 1 {
            self.score is None
        } else if slot == 2 {
            self.mortgage is None
        } else {
            false
        }
    }
}

impl AccountField {
    /// True when a record cannot do without the field of the slot `slot`.
    pub open spec fn is_required(slot: nat) -> bool {
        slot == 0 || slot == 1 || slot == 2
    }
}

impl<'a> AccountBuilder<'a> {
    /// A draft with every slot empty.
    pub fn new() -> (draft: AccountBuilder<'a>)
        ensures
            draft.model() == AccountBuilderModel::empty(),
    {
        AccountBuilder {
            credits: None,
            score: None,
            mortgage: None,
        }
    }

    /// Finalizes the draft. Fails with the name of the first required
    /// field, in declaration order, that was never read.
    pub fn build(self) -> (r: Result<Account<'a>, &'static str>)
        ensures
            match self.model().missing() {
                Some(field) => r matches Err(name) && name@ == field@,
                None => r matches Ok(record) && record.model() == self.model().record(),
            },
    {
        let credits = match self.credits {
            Some(v) => v,
            None => {
                return Err("credits");
            },
        };
        let score = match self.score {
            Some(v) => v,
            None => {
                return Err("score");
            },
        };
        let mortgage = match self.mortgage {
            Some(v) => v,
            None => {
                return Err("mortgage");
            },
        };
        Ok(
            Account {
                credits,
                score,
                mortgage,
            },
        )
    }

    /// Finalizes the draft of a record that was read up to `rest`.
    pub fn finish<'b>(self, rest: &'b str) -> (r: Parsed<'b, Account<'a>>)
        ensures
            r.model() == self.model().finish(rest.model()),
    {
        match self.build() {
            Ok(record) => Ok((rest, record)),
            Err(field) => fail_invalid(rest, "account", field),
        }
    }
}

/// Taking a field into a draft fills its slot and no other.
pub proof fn lemma_account_field_fills(draft: AccountBuilderModel, field: AccountField, slot: nat)
    ensures
        field.slot() != slot ==> draft.with(field).lacks(slot) == draft.lacks(slot),
        !draft.with(field).lacks(field.slot()),
        AccountField::is_required(slot) && draft.lacks(slot) ==> draft.missing() is Some,
{
}

/// Two fields of different slots can be taken into a draft in either order.
pub proof fn lemma_account_fields_commute(
    draft: AccountBuilderModel,
    first: AccountField,
    second: AccountField,
)
    requires
        first.slot() != second.slot(),
    ensures
        draft.with(first).with(second) == draft.with(second).with(first),
{
}

/// A [`Start`] in the making, with one slot for each field. A slot holds
/// what the text gave for its field, or nothing yet.
#[derive(Debug)]
pub struct StartBuilder<'a> {
    pub date: Option<Date>,
    pub system: Option<&'a str>,
    pub planet: Option<&'a str>,
    pub account: Option<Account<'a>>,
    pub set: Option<&'a str>,
}

/// [`StartBuilder`] in contracts.
pub struct StartBuilderModel {
    pub date: Option<Date>,
    pub system: Option<Seq<u8>>,
    pub planet: Option<Seq<u8>>,
    pub account: Option<AccountModel>,
    pub set: Option<Seq<u8>>,
}

impl<'a> Model for StartBuilder<'a> {
    type M = StartBuilderModel;

    open spec fn model(&self) -> StartBuilderModel {
        StartBuilderModel {
            date: self.date.model(),
            system: self.system.model(),
            planet: self.planet.model(),
            account: self.account.model(),
            set: self.set.model(),
        }
    }
}

/// A field of a [`Start`] as the text gives it.
pub enum StartField {
    Date(Date),
    System(Seq<u8>),
    Planet(Seq<u8>),
    Account(AccountModel),
    StartSet(Seq<u8>),
}

impl StartField {
    /// The slot that the field goes to, by its place among the fields.
    pub open spec fn slot(self) -> nat {
        match self {
            StartField::Date(_) => 0,
            StartField::System(_) => 1,
            StartField::Planet(_) => 2,
            StartField::Account(_) => 3,
            StartField::StartSet(_) => 4,
        }
    }
}

impl StartBuilderModel {
    /// The draft with every slot empty.
    pub open spec fn empty() -> StartBuilderModel {
        StartBuilderModel {
            date: None,
            system: None,
            planet: None,
            account: None,
            set: None,
        }
    }

    /// The draft with `field` put into its slot. What the slot held before
    /// is replaced; every other slot stays.
    pub open spec fn with(self, field: StartField) -> StartBuilderModel {
        match field {
            StartField::Date(v) => StartBuilderModel { date: Some(v), ..self },
            StartField::System(v) => StartBuilderModel { system: Some(v), ..self },
            StartField::Planet(v) => StartBuilderModel { planet: Some(v), ..self },
            StartField::Account(v) => StartBuilderModel { account: Some(v), ..self },
            StartField::StartSet(v) => StartBuilderModel { set: Some(v), ..self },
        }
    }

    /// The name of the first required field, in declaration order, whose
    /// slot is empty.
    pub open spec fn missing(self) -> Option<&'static str> {
        if self.date is None {
            Some("date")
        } else if self.system is None {
            Some("system")
        } else if self.planet is None {
            Some("planet")
        } else if self.account is None {
            Some("account")
        } else if self.set is None {
            Some("set")
        } else {
            None
        }
    }

    /// The record that a draft without a missing field stands for. A
    /// field that is not required and was never read is absent, empty or
    /// zero.
    pub open spec fn record(self) -> StartModel {
        StartModel {
            date: self.date->0,
            system: self.system->0,
            planet: self.planet->0,
            account: self.account->0,
            set: self.set->0,
        }
    }

    /// What the draft makes of the fields read up to `rest`: the record,
    /// or the hard failure that names the record and its missing field.
    pub open spec fn finish(self, rest: Seq<u8>) -> Outcome<StartModel> {
        match self.missing() {
            Some(field) => invalid(rest, "start", field),
            None => Ok((rest, self.record())),
        }
    }

    /// True when the slot `slot` is empty.
    pub open spec fn lacks(self, slot: nat) -> bool {
        if slot == 0 {
            self.date is None
        } else if slot == 1 {
            self.system is None
        } else if slot == 2 {
            self.planet is None
        } else if slot == 3 {
            self.account is None
        } else if slot == 4 {
            self.set is None
        } else {
            false
        }
    }
}

impl StartField {
    /// True when a record cannot do without the field of the slot `slot`.
    pub open spec fn is_required(slot: nat) -> bool {
        slot == 0 || slot == 1 || slot == 2 || slot == 3 || slot == 4
    }
}

impl<'a> StartBuilder<'a> {
    /// A draft with every slot empty.
    pub fn new() -> (draft: StartBuilder<'a>)
        ensures
            draft.model() == StartBuilderModel::empty(),
    {
        StartBuilder {
            date: None,
            system: None,
            planet: None,
            account: None,
            set: None,
        }
    }

    /// Finalizes the draft. Fails with the name of the first required
    /// field, in declaration order, that was never read.
    pub fn build(self) -> (r: Result<Start<'a>, &'static str>)
        ensures
            match self.model().missing() {
                Some(field) => r matches Err(name) && name@ == field@,
                None => r matches Ok(record) && record.model() == self.model().record(),
            },
    {
        let date = match self.date {
            Some(v) => v,
            None => {
                return Err("date");
            },
        };
        let system = match self.system {
            Some(v) => v,
            None => {
                return Err("system");
            },
        };
        let planet = match self.planet {
            Some(v) => v,
            None => {
                return Err("planet");
            },
        };
        let account = match self.account {
            Some(v) => v,
            None => {
                return Err("account");
            },
        };
        let set = match self.set {
            Some(v) => v,
            None => {
                return Err("set");
            },
        };
        Ok(
            Start {
                date,
                system,
                planet,
                account,
                set,
            },
        )
    }

    /// Finalizes the draft of a record that was read up to `rest`.
    pub fn finish<'b>(self, rest: &'b str) -> (r: Parsed<'b, Start<'a>>)
        ensures
            r.model() == self.model().finish(rest.model()),
    {
        match self.build() {
            Ok(record) => Ok((rest, record)),
            Err(field) => fail_invalid(rest, "start", field),
        }
    }
}

/// Taking a field into a draft fills its slot and no other.
pub proof fn lemma_start_field_fills(draft: StartBuilderModel, field: StartField, slot: nat)
    ensures
        field.slot() != slot ==> draft.with(field).lacks(slot) == draft.lacks(slot),
        !draft.with(field).lacks(field.slot()),
        StartField::is_required(slot) && draft.lacks(slot) ==> draft.missing() is Some,
{
}

/// Two fields of different slots can be taken into a draft in either order.
pub proof fn lemma_start_fields_commute(
    draft: StartBuilderModel,
    first: StartField,
    second: StartField,
)
    requires
        first.slot() != second.slot(),
    ensures
        draft.with(first).with(second) == draft.with(second).with(first),
{
}

/// A [`Tribute`] in the making, with one slot for each field. A slot holds
/// what the text gave for its field, or nothing yet.
#[derive(Debug)]
pub struct TributeBuilder<'a> {
    pub value: Option<u32>,
    pub threshold: Option<u32>,
    pub fleet: Option<Fleet<'a>>,
}

/// [`TributeBuilder`] in contracts.
pub struct TributeBuilderModel {
    pub value: Option<u32>,
    pub threshold: Option<u32>,
    pub fleet: Option<FleetModel>,
}

impl<'a> Model for TributeBuilder<'a> {
    type M = TributeBuilderModel;

    open spec fn model(&self) -> TributeBuilderModel {
        TributeBuilderModel {
            value: self.value.model(),
            threshold: self.threshold.model(),
            fleet: self.fleet.model(),
        }
    }
}

/// A field of a [`Tribute`] as the text gives it.
pub enum TributeField {
    Threshold(u32),
    Fleet(FleetModel),
}

impl TributeField {
    /// The slot that the field goes to, by its place among the fields.
    pub open spec fn slot(self) -> nat {
        match self {
            TributeField::Threshold(_) => 0,
            TributeField::Fleet(_) => 1,
        }
    }
}

impl TributeBuilderModel {
    /// The draft with every slot empty.
    pub open spec fn empty() -> TributeBuilderModel {
        TributeBuilderModel {
            value: None,
            threshold: None,
            fleet: None,
        }
    }

    /// The draft with `field` put into its slot. What the slot held before
    /// is replaced; every other slot stays.
    pub open spec fn with(self, field: TributeField) -> TributeBuilderModel {
        match field {
            TributeField::Threshold(v) => TributeBuilderModel { threshold: Some(v), ..self },
            TributeField::Fleet(v) => TributeBuilderModel { fleet: Some(v), ..self },
        }
    }

    /// The name of the first required field, in declaration order, whose
    /// slot is empty.
    pub open spec fn missing(self) -> Option<&'static str> {
        if self.value is None {
            Some("value")
        } else if self.threshold is None {
            Some("threshold")
        } else if self.fleet is None {
            Some("fleet")
        } else {
            None
        }
    }

    /// The record that a draft without a missing field stands for. A
    /// field that is not required and was never read is absent, empty or
    /// zero.
    pub open spec fn record(self) -> TributeModel {
        TributeModel {
            value: self.value->0,
            threshold: self.threshold->0,
            fleet: self.fleet->0,
        }
    }

    /// What the draft makes of the fields read up to `rest`: the record,
    /// or the hard failure that names the record and its missing field.
    pub open spec fn finish(self, rest: Seq<u8>) -> Outcome<TributeModel> {
        match self.missing() {
            Some(field) => invalid(rest, "tribute", field),
            None => Ok((rest, self.record())),
        }
    }

    /// True when the slot `slot` is empty.
    pub open spec fn lacks(self, slot: nat) -> bool {
        if slot == 0 {
            self.threshold is None
        } else if slot == 1 {
            self.fleet is None
        } else {
            false
        }
    }
}

impl TributeField {
    /// True when a record cannot do without the field of the slot `slot`.
    pub open spec fn is_required(slot: nat) -> bool {
        slot == 0 || slot == 1
    }
}

impl<'a> TributeBuilder<'a> {
    /// A draft with every slot empty.
    pub fn new() -> (draft: TributeBuilder<'a>)
        ensures
            draft.model() == TributeBuilderModel::empty(),
    {
        TributeBuilder {
            value: None,
            threshold: None,
            fleet: None,
        }
    }

    /// Finalizes the draft. Fails with the name of the first required
    /// field, in declaration order, that was never read.
    pub fn build(self) -> (r: Result<Tribute<'a>, &'static str>)
        ensures
            match self.model().missing() {
                Some(field) => r matches Err(name) && name@ == field@,
                None => r matches Ok(record) && record.model() == self.model().record(),
            },
    {
        let value = match self.value {
            Some(v) => v,
            None => {
                return Err("value");
            },
        };
        let threshold = match self.threshold {
            Some(v) => v,
            None => {
                return Err("threshold");
            },
        };
        let fleet = match self.fleet {
            Some(v) => v,
            None => {
                return Err("fleet");
            },
        };
        Ok(
            Tribute {
                value,
                threshold,
                fleet,
            },
        )
    }

    /// Finalizes the draft of a record that was read up to `rest`.
    pub fn finish<'b>(self, rest: &'b str) -> (r: Parsed<'b, Tribute<'a>>)
        ensures
            r.model() == self.model().finish(rest.model()),
    {
        match self.build() {
            Ok(record) => Ok((rest, record)),
            Err(field) => fail_invalid(rest, "tribute", field),
        }
    }
}

/// Taking a field into a draft fills its slot and no other.
pub proof fn lemma_tribute_field_fills(draft: TributeBuilderModel, field: TributeField, slot: nat)
    ensures
        field.slot() != slot ==> draft.with(field).lacks(slot) == draft.lacks(slot),
        !draft.with(field).lacks(field.slot()),
        TributeField::is_required(slot) && draft.lacks(slot) ==> draft.missing() is Some,
{
}

/// Two fields of different slots can be taken into a draft in either order.
pub proof fn lemma_tribute_fields_commute(
    draft: TributeBuilderModel,
    first: TributeField,
    second: TributeField,
)
    requires
        first.slot() != second.slot(),
    ensures
        draft.with(first).with(second) == draft.with(second).with(first),
{
}

/// A [`Planet`] in the making, with one slot for each field. A slot holds
/// what the text gave for its field, or nothing yet.
#[derive(Debug)]
pub struct PlanetBuilder<'a> {
    pub name: Option<&'a str>,
    pub attributes: Option<Vec<&'a str>>,
    pub landscape: Option<&'a str>,
    pub government: Option<&'a str>,
    pub music: Option<&'a str>,
    pub description: Option<Vec<&'a str>>,
    pub spaceport: Option<Vec<&'a str>>,
    pub shipyard: Option<Vec<&'a str>>,
    pub outfitter: Option<Vec<&'a str>>,
    pub bribe: Option<&'a str>,
    pub security: Option<&'a str>,
    pub tribute: Option<Tribute<'a>>,
    pub required_reputation: Option<&'a str>,
}

/// [`PlanetBuilder`] in contracts.
pub struct PlanetBuilderModel {
    pub name: Option<Seq<u8>>,
    pub attributes: Option<Seq<Seq<u8>>>,
    pub landscape: Option<Seq<u8>>,
    pub government: Option<Seq<u8>>,
    pub music: Option<Seq<u8>>,
    pub description: Option<Seq<Seq<u8>>>,
    pub spaceport: Option<Seq<Seq<u8>>>,
    pub shipyard: Option<Seq<Seq<u8>>>,
    pub outfitter: Option<Seq<Seq<u8>>>,
    pub bribe: Option<Seq<u8>>,
    pub security: Option<Seq<u8>>,
    pub tribute: Option<TributeModel>,
    pub required_reputation: Option<Seq<u8>>,
}

impl<'a> Model for PlanetBuilder<'a> {
    type M = PlanetBuilderModel;

    open spec fn model(&self) -> PlanetBuilderModel {
        PlanetBuilderModel {
            name: self.name.model(),
            attributes: self.attributes.model(),
            landscape: self.landscape.model(),
            government: self.government.model(),
            music: self.music.model(),
            description: self.description.model(),
            spaceport: self.spaceport.model(),
            shipyard: self.shipyard.model(),
            outfitter: self.outfitter.model(),
            bribe: self.bribe.model(),
            security: self.security.model(),
            tribute: self.tribute.model(),
            required_reputation: self.required_reputation.model(),
        }
    }
}

/// A field of a [`Planet`] as the text gives it.
pub enum PlanetField {
    Attributes(Seq<Seq<u8>>),
    Landscape(Seq<u8>),
    Government(Seq<u8>),
    Music(Seq<u8>),
    Description(Seq<Seq<u8>>),
    Spaceport(Seq<Seq<u8>>),
    Shipyard(Seq<Seq<u8>>),
    Outfitter(Seq<Seq<u8>>),
    Bribe(Seq<u8>),
    Security(Seq<u8>),
    Tribute(TributeModel),
    RequiredReputation(Seq<u8>),
}

impl PlanetField {
    /// The slot that the field goes to, by its place among the fields.
    pub open spec fn slot(self) -> nat {
        match self {
            PlanetField::Attributes(_) => 0,
            PlanetField::Landscape(_) => 1,
            PlanetField::Government(_) => 2,
            PlanetField::Music(_) => 3,
            PlanetField::Description(_) => 4,
            PlanetField::Spaceport(_) => 5,
            PlanetField::Shipyard(_) => 6,
            PlanetField::Outfitter(_) => 7,
            PlanetField::Bribe(_) => 8,
            PlanetField::Security(_) => 9,
            PlanetField::Tribute(_) => 10,
            PlanetField::RequiredReputation(_) => 11,
        }
    }
}

impl PlanetBuilderModel {
    /// The draft with every slot empty.
    pub open spec fn empty() -> PlanetBuilderModel {
        PlanetBuilderModel {
            name: None,
            attributes: None,
            landscape: None,
            government: None,
            music: None,
            description: None,
            spaceport: None,
            shipyard: None,
            outfitter: None,
            bribe: None,
            security: None,
            tribute: None,
            required_reputation: None,
        }
    }

    /// The draft with `field` put into its slot. What the slot held before
    /// is replaced; every other slot stays.
    pub open spec fn with(self, field: PlanetField) -> PlanetBuilderModel {
        match field {
            PlanetField::Attributes(v) => PlanetBuilderModel { attributes: Some(v), ..self },
            PlanetField::Landscape(v) => PlanetBuilderModel { landscape: Some(v), ..self },
            PlanetField::Government(v) => PlanetBuilderModel { government: Some(v), ..self },
            PlanetField::Music(v) => PlanetBuilderModel { music: Some(v), ..self },
            PlanetField::Description(v) => PlanetBuilderModel { description: Some(v), ..self },
            PlanetField::Spaceport(v) => PlanetBuilderModel { spaceport: Some(v), ..self },
            PlanetField::Shipyard(v) => PlanetBuilderModel { shipyard: Some(v), ..self },
            PlanetField::Outfitter(v) => PlanetBuilderModel { outfitter: Some(v), ..self },
            PlanetField::Bribe(v) => PlanetBuilderModel { bribe: Some(v), ..self },
            PlanetField::Security(v) => PlanetBuilderModel { security: Some(v), ..self },
            PlanetField::Tribute(v) => PlanetBuilderModel { tribute: Some(v), ..self },
            PlanetField::RequiredReputation(v) => PlanetBuilderModel {
                required_reputation: Some(v),
                ..self
            },
        }
    }

    /// The name of the first required field, in declaration order, whose
    /// slot is empty.
    pub open spec fn missing(self) -> Option<&'static str> {
        if self.name is None {
            Some("name")
        } else if self.description is None {
            Some("description")
        } else {
            None
        }
    }

    /// The record that a draft without a missing field stands for. A
    /// field that is not required and was never read is absent, empty or
    /// zero.
    pub open spec fn record(self) -> PlanetModel {
        PlanetModel {
            name: self.name->0,
            attributes: match self.attributes {
                Some(v) => v,
                None => Seq::empty(),
            },
            landscape: self.landscape,
            government: self.government,
            music: self.music,
            description: self.description->0,
            spaceport: match self.spaceport {
                Some(v) => v,
                None => Seq::empty(),
            },
            shipyard: match self.shipyard {
                Some(v) => v,
                None => Seq::empty(),
            },
            outfitter: match self.outfitter {
                Some(v) => v,
                None => Seq::empty(),
            },
            bribe: self.bribe,
            security: self.security,
            tribute: self.tribute,
            required_reputation: self.required_reputation,
        }
    }

    /// What the draft makes of the fields read up to `rest`: the record,
    /// or the hard failure that names the record and its missing field.
    pub open spec fn finish(self, rest: Seq<u8>) -> Outcome<PlanetModel> {
        match self.missing() {
            Some(field) => invalid(rest, "planet", field),
            None => Ok((rest, self.record())),
        }
    }

    /// True when the slot `slot` is empty.
    pub open spec fn lacks(self, slot: nat) -> bool {
        if slot == 0 {
            self.attributes is None
        } else if slot == 1 {
            self.landscape is None
        } else if slot == 2 {
            self.government is None
        } else if slot == 3 {
            self.music is None
        } else if slot == 4 {
            self.description is None
        } else if slot == 5 {
            self.spaceport is None
        } else if slot == 6 {
            self.shipyard is None
        } else if slot == 7 {
            self.outfitter is None
        } else if slot == 8 {
            self.bribe is None
        } else if slot == 9 {
            self.security is None
        } else if slot == 10 {
            self.tribute is None
        } else if slot == 11 {
            self.required_reputation is None
        } else {
            false
        }
    }
}

impl PlanetField {
    /// True when a record cannot do without the field of the slot `slot`.
    pub open spec fn is_required(slot: nat) -> bool {
        slot == 4
    }
}

impl<'a> PlanetBuilder<'a> {
    /// A draft with every slot empty.
    pub fn new() -> (draft: PlanetBuilder<'a>)
        ensures
            draft.model() == PlanetBuilderModel::empty(),
    {
        PlanetBuilder {
            name: None,
            attributes: None,
            landscape: None,
            government: None,
            music: None,
            description: None,
            spaceport: None,
            shipyard: None,
            outfitter: None,
            bribe: None,
            security: None,
            tribute: None,
            required_reputation: None,
        }
    }

    /// Finalizes the draft. Fails with the name of the first required
    /// field, in declaration order, that was never read.
    pub fn build(self) -> (r: Result<Planet<'a>, &'static str>)
        ensures
            match self.model().missing() {
                Some(field) => r matches Err(name) && name@ == field@,
                None => r matches Ok(record) && record.model() == self.model().record(),
            },
    {
        let name = match self.name {
            Some(v) => v,
            None => {
                return Err("name");
            },
        };
        let description = match self.description {
            Some(v) => v,
            None => {
                return Err("description");
            },
        };
        let attributes = match self.attributes {
            Some(v) => v,
            None => {
                let none: Vec<&'a str> = Vec::new();
                proof {
                    lemma_model_empty(none);
                }
                none
            },
        };
        let spaceport = match self.spaceport {
            Some(v) => v,
            None => {
                let none: Vec<&'a str> = Vec::new();
                proof {
                    lemma_model_empty(none);
                }
                none
            },
        };
        let shipyard = match self.shipyard {
            Some(v) => v,
            None => {
                let none: Vec<&'a str> = Vec::new();
                proof {
                    lemma_model_empty(none);
                }
                none
            },
        };
        let outfitter = match self.outfitter {
            Some(v) => v,
            None => {
                let none: Vec<&'a str> = Vec::new();
                proof {
                    lemma_model_empty(none);
                }
                none
            },
        };
        Ok(
            Planet {
                name,
                attributes,
                landscape: self.landscape,
                government: self.government,
                music: self.music,
                description,
                spaceport,
                shipyard,
                outfitter,
                bribe: self.bribe,
                security: self.security,
                tribute: self.tribute,
                required_reputation: self.required_reputation,
            },
        )
    }

    /// Finalizes the draft of a record that was read up to `rest`.
    pub fn finish<'b>(self, rest: &'b str) -> (r: Parsed<'b, Planet<'a>>)
        ensures
            r.model() == self.model().finish(rest.model()),
    {
        match self.build() {
            Ok(record) => Ok((rest, record)),
            Err(field) => fail_invalid(rest, "planet", field),
        }
    }
}

/// Taking a field into a draft fills its slot and no other.
pub proof fn lemma_planet_field_fills(draft: PlanetBuilderModel, field: PlanetField, slot: nat)
    ensures
        field.slot() != slot ==> draft.with(field).lacks(slot) == draft.lacks(slot),
        !draft.with(field).lacks(field.slot()),
        PlanetField::is_required(slot) && draft.lacks(slot) ==> draft.missing() is Some,
{
}

/// Two fields of different slots can be taken into a draft in either order.
pub proof fn lemma_planet_fields_commute(
    draft: PlanetBuilderModel,
    first: PlanetField,
    second: PlanetField,
)
    requires
        first.slot() != second.slot(),
    ensures
        draft.with(first).with(second) == draft.with(second).with(first),
{
}

/// A [`SystemObject`] in the making, with one slot for each field. A slot holds
/// what the text gave for its field, or nothing yet.
#[derive(Debug)]
pub struct SystemObjectBuilder<'a> {
    pub name: Option<&'a str>,
    pub sprite: Option<&'a str>,
    pub distance: Option<&'a str>,
    pub period: Option<&'a str>,
    pub offset: Option<&'a str>,
    pub objects: Option<Vec<SystemObject<'a>>>,
}

/// [`SystemObjectBuilder`] in contracts.
pub struct SystemObjectBuilderModel {
    pub name: Option<Seq<u8>>,
    pub sprite: Option<Seq<u8>>,
    pub distance: Option<Seq<u8>>,
    pub period: Option<Seq<u8>>,
    pub offset: Option<Seq<u8>>,
    pub objects: Option<Seq<SystemObjectModel>>,
}

impl<'a> Model for SystemObjectBuilder<'a> {
    type M = SystemObjectBuilderModel;

    open spec fn model(&self) -> SystemObjectBuilderModel {
        SystemObjectBuilderModel {
            name: self.name.model(),
            sprite: self.sprite.model(),
            distance: self.distance.model(),
            period: self.period.model(),
            offset: self.offset.model(),
            objects: self.objects.model(),
        }
    }
}

/// A field of a [`SystemObject`] as the text gives it.
pub enum SystemObjectField {
    Sprite(Seq<u8>),
    Distance(Seq<u8>),
    Period(Seq<u8>),
    Offset(Seq<u8>),
    Objects(Seq<SystemObjectModel>),
}

impl SystemObjectField {
    /// The slot that the field goes to, by its place among the fields.
    pub open spec fn slot(self) -> nat {
        match self {
            SystemObjectField::Sprite(_) => 0,
            SystemObjectField::Distance(_) => 1,
            SystemObjectField::Period(_) => 2,
            SystemObjectField::Offset(_) => 3,
            SystemObjectField::Objects(_) => 4,
        }
    }
}

impl SystemObjectBuilderModel {
    /// The draft with every slot empty.
    pub open spec fn empty() -> SystemObjectBuilderModel {
        SystemObjectBuilderModel {
            name: None,
            sprite: None,
            distance: None,
            period: None,
            offset: None,
            objects: None,
        }
    }

    /// The draft with `field` put into its slot. What the slot held before
    /// is replaced; every other slot stays.
    pub open spec fn with(self, field: SystemObjectField) -> SystemObjectBuilderModel {
        match field {
            SystemObjectField::Sprite(v) => SystemObjectBuilderModel { sprite: Some(v), ..self },
            SystemObjectField::Distance(v) => SystemObjectBuilderModel {
                distance: Some(v),
                ..self
            },
            SystemObjectField::Period(v) => SystemObjectBuilderModel { period: Some(v), ..self },
            SystemObjectField::Offset(v) => SystemObjectBuilderModel { offset: Some(v), ..self },
            SystemObjectField::Objects(v) => SystemObjectBuilderModel { objects: Some(v), ..self },
        }
    }

    /// The name of the first required field, in declaration order, whose
    /// slot is empty.
    pub open spec fn missing(self) -> Option<&'static str> {
        if self.period is None {
            Some("period")
        } else {
            None
        }
    }

    /// The record that a draft without a missing field stands for. A
    /// field that is not required and was never read is absent, empty or
    /// zero.
    pub open spec fn record(self) -> SystemObjectModel {
        SystemObjectModel {
            name: self.name,
            sprite: self.sprite,
            distance: self.distance,
            period: self.period->0,
            offset: self.offset,
            objects: match self.objects {
                Some(v) => v,
                None => Seq::empty(),
            },
        }
    }

    /// What the draft makes of the fields read up to `rest`: the record,
    /// or the hard failure that names the record and its missing field.
    pub open spec fn finish(self, rest: Seq<u8>) -> Outcome<SystemObjectModel> {
        match self.missing() {
            Some(field) => invalid(rest, "object", field),
            None => Ok((rest, self.record())),
        }
    }

    /// True when the slot `slot` is empty.
    pub open spec fn lacks(self, slot: nat) -> bool {
        if slot == 0 {
            self.sprite is None
        } else if slot == 1 {
            self.distance is None
        } else if slot == 2 {
            self.period is None
        } else if slot == 3 {
            self.offset is None
        } else if slot == 4 {
            self.objects is None
        } else {
            false
        }
    }
}

impl SystemObjectField {
    /// True when a record cannot do without the field of the slot `slot`.
    pub open spec fn is_required(slot: nat) -> bool {
        slot == 2
    }
}

impl<'a> SystemObjectBuilder<'a> {
    /// A draft with every slot empty.
    pub fn new() -> (draft: SystemObjectBuilder<'a>)
        ensures
            draft.model() == SystemObjectBuilderModel::empty(),
    {
        SystemObjectBuilder {
            name: None,
            sprite: None,
            distance: None,
            period: None,
            offset: None,
            objects: None,
        }
    }

    /// Finalizes the draft. Fails with the name of the first required
    /// field, in declaration order, that was never read.
    pub fn build(self) -> (r: Result<SystemObject<'a>, &'static str>)
        ensures
            match self.model().missing() {
                Some(field) => r matches Err(name) && name@ == field@,
                None => r matches Ok(record) && record.model() == self.model().record(),
            },
    {
        let period = match self.period {
            Some(v) => v,
            None => {
                return Err("period");
            },
        };
        let objects = match self.objects {
            Some(v) => v,
            None => {
                let none: Vec<SystemObject<'a>> = Vec::new();
                proof {
                    lemma_model_empty(none);
                }
                none
            },
        };
        let record = SystemObject {
            name: self.name,
            sprite: self.sprite,
            distance: self.distance,
            period,
            offset: self.offset,
            objects,
        };
        proof {
            lemma_object_children(record);
        }
        Ok(record)
    }

    /// Finalizes the draft of a record that was read up to `rest`.
    pub fn finish<'b>(self, rest: &'b str) -> (r: Parsed<'b, SystemObject<'a>>)
        ensures
            r.model() == self.model().finish(rest.model()),
    {
        match self.build() {
            Ok(record) => Ok((rest, record)),
            Err(field) => fail_invalid(rest, "object", field),
        }
    }
}

/// Taking a field into a draft fills its slot and no other.
pub proof fn lemma_system_object_field_fills(
    draft: SystemObjectBuilderModel,
    field: SystemObjectField,
    slot: nat,
)
    ensures
        field.slot() != slot ==> draft.with(field).lacks(slot) == draft.lacks(slot),
        !draft.with(field).lacks(field.slot()),
        SystemObjectField::is_required(slot) && draft.lacks(slot) ==> draft.missing() is Some,
{
}

/// Two fields of different slots can be taken into a draft in either order.
pub proof fn lemma_system_object_fields_commute(
    draft: SystemObjectBuilderModel,
    first: SystemObjectField,
    second: SystemObjectField,
)
    requires
        first.slot() != second.slot(),
    ensures
        draft.with(first).with(second) == draft.with(second).with(first),
{
}

/// A [`System`] in the making, with one slot for each field. A slot holds
/// what the text gave for its field, or nothing yet.
#[derive(Debug)]
pub struct SystemBuilder<'a> {
    pub name: Option<&'a str>,
    pub pos: Option<Position<'a>>,
    pub government: Option<&'a str>,
    pub habitable: Option<&'a str>,
    pub belt: Option<u32>,
    pub haze: Option<&'a str>,
    pub links: Option<Vec<&'a str>>,
    pub asteroids: Option<Vec<Asteroids<'a>>>,
    pub minables: Option<Vec<Minables<'a>>>,
    pub trades: Option<Vec<Trade<'a>>>,
    pub fleets: Option<Vec<Fleet<'a>>>,
    pub objects: Option<Vec<SystemObject<'a>>>,
}

/// [`SystemBuilder`] in contracts.
pub struct SystemBuilderModel {
    pub name: Option<Seq<u8>>,
    pub pos: Option<PositionModel>,
    pub government: Option<Seq<u8>>,
    pub habitable: Option<Seq<u8>>,
    pub belt: Option<u32>,
    pub haze: Option<Seq<u8>>,
    pub links: Option<Seq<Seq<u8>>>,
    pub asteroids: Option<Seq<AsteroidsModel>>,
    pub minables: Option<Seq<MinablesModel>>,
    pub trades: Option<Seq<TradeModel>>,
    pub fleets: Option<Seq<FleetModel>>,
    pub objects: Option<Seq<SystemObjectModel>>,
}

impl<'a> Model for SystemBuilder<'a> {
    type M = SystemBuilderModel;

    open spec fn model(&self) -> SystemBuilderModel {
        SystemBuilderModel {
            name: self.name.model(),
            pos: self.pos.model(),
            government: self.government.model(),
            habitable: self.habitable.model(),
            belt: self.belt.model(),
            haze: self.haze.model(),
            links: self.links.model(),
            asteroids: self.asteroids.model(),
            minables: self.minables.model(),
            trades: self.trades.model(),
            fleets: self.fleets.model(),
            objects: self.objects.model(),
        }
    }
}

/// A field of a [`System`] as the text gives it.
pub enum SystemField {
    Pos(PositionModel),
    Government(Seq<u8>),
    Habitable(Seq<u8>),
    Belt(u32),
    Haze(Seq<u8>),
    Links(Seq<Seq<u8>>),
    Asteroids(Seq<AsteroidsModel>),
    Minables(Seq<MinablesModel>),
    Trades(Seq<TradeModel>),
    Fleets(Seq<FleetModel>),
    Objects(Seq<SystemObjectModel>),
}

impl SystemField {
    /// The slot that the field goes to, by its place among the fields.
    pub open spec fn slot(self) -> nat {
        match self {
            SystemField::Pos(_) => 0,
            SystemField::Government(_) => 1,
            SystemField::Habitable(_) => 2,
            SystemField::Belt(_) => 3,
            SystemField::Haze(_) => 4,
            SystemField::Links(_) => 5,
            SystemField::Asteroids(_) => 6,
            SystemField::Minables(_) => 7,
            SystemField::Trades(_) => 8,
            SystemField::Fleets(_) => 9,
            SystemField::Objects(_) => 10,
        }
    }
}

impl SystemBuilderModel {
    /// The draft with every slot empty.
    pub open spec fn empty() -> SystemBuilderModel {
        SystemBuilderModel {
            name: None,
            pos: None,
            government: None,
            habitable: None,
            belt: None,
            haze: None,
            links: None,
            asteroids: None,
            minables: None,
            trades: None,
            fleets: None,
            objects: None,
        }
    }

    /// The draft with `field` put into its slot. What the slot held before
    /// is replaced; every other slot stays.
    pub open spec fn with(self, field: SystemField) -> SystemBuilderModel {
        match field {
            SystemField::Pos(v) => SystemBuilderModel { pos: Some(v), ..self },
            SystemField::Government(v) => SystemBuilderModel { government: Some(v), ..self },
            SystemField::Habitable(v) => SystemBuilderModel { habitable: Some(v), ..self },
            SystemField::Belt(v) => SystemBuilderModel { belt: Some(v), ..self },
            SystemField::Haze(v) => SystemBuilderModel { haze: Some(v), ..self },
            SystemField::Links(v) => SystemBuilderModel { links: Some(v), ..self },
            SystemField::Asteroids(v) => SystemBuilderModel { asteroids: Some(v), ..self },
            SystemField::Minables(v) => SystemBuilderModel { minables: Some(v), ..self },
            SystemField::Trades(v) => SystemBuilderModel { trades: Some(v), ..self },
            SystemField::Fleets(v) => SystemBuilderModel { fleets: Some(v), ..self },
            SystemField::Objects(v) => SystemBuilderModel { objects: Some(v), ..self },
        }
    }

    /// The name of the first required field, in declaration order, whose
    /// slot is empty.
    pub open spec fn missing(self) -> Option<&'static str> {
        if self.name is None {
            Some("name")
        } else if self.pos is None {
            Some("pos")
        } else if self.government is None {
            Some("government")
        } else if self.habitable is None {
            Some("habitable")
        } else {
            None
        }
    }

    /// The record that a draft without a missing field stands for. A
    /// field that is not required and was never read is absent, empty or
    /// zero.
    pub open spec fn record(self) -> SystemModel {
        SystemModel {
            name: self.name->0,
            pos: self.pos->0,
            government: self.government->0,
            habitable: self.habitable->0,
            belt: self.belt,
            haze: self.haze,
            links: match self.links {
                Some(v) => v,
                None => Seq::empty(),
            },
            asteroids: match self.asteroids {
                Some(v) => v,
                None => Seq::empty(),
            },
            minables: match self.minables {
                Some(v) => v,
                None => Seq::empty(),
            },
            trades: match self.trades {
                Some(v) => v,
                None => Seq::empty(),
            },
            fleets: match self.fleets {
                Some(v) => v,
                None => Seq::empty(),
            },
            objects: match self.objects {
                Some(v) => v,
                None => Seq::empty(),
            },
        }
    }

    /// What the draft makes of the fields read up to `rest`: the record,
    /// or the hard failure that names the record and its missing field.
    pub open spec fn finish(self, rest: Seq<u8>) -> Outcome<SystemModel> {
        match self.missing() {
            Some(field) => invalid(rest, "system", field),
            None => Ok((rest, self.record())),
        }
    }

    /// True when the slot `slot` is empty.
    pub open spec fn lacks(self, slot: nat) -> bool {
        if slot == 0 {
            self.pos is None
        } else if slot == 1 {
            self.government is None
        } else if slot == 2 {
            self.habitable is None
        } else if slot == 3 {
            self.belt is None
        } else if slot == 4 {
            self.haze is None
        } else if slot == 5 {
            self.links is None
        } else if slot == 6 {
            self.asteroids is None
        } else if slot == 7 {
            self.minables is None
        } else if slot == 8 {
            self.trades is None
        } else if slot == 9 {
            self.fleets is None
        } else if slot == 10 {
            self.objects is None
        } else {
            false
        }
    }
}

impl SystemField {
    /// True when a record cannot do without the field of the slot `slot`.
    pub open spec fn is_required(slot: nat) -> bool {
        slot == 0 || slot == 1 || slot == 2
    }
}

impl<'a> SystemBuilder<'a> {
    /// A draft with every slot empty.
    pub fn new() -> (draft: SystemBuilder<'a>)
        ensures
            draft.model() == SystemBuilderModel::empty(),
    {
        SystemBuilder {
            name: None,
            pos: None,
            government: None,
            habitable: None,
            belt: None,
            haze: None,
            links: None,
            asteroids: None,
            minables: None,
            trades: None,
            fleets: None,
            objects: None,
        }
    }

    /// Finalizes the draft. Fails with the name of the first required
    /// field, in declaration order, that was never read.
    pub fn build(self) -> (r: Result<System<'a>, &'static str>)
        ensures
            match self.model().missing() {
                Some(field) => r matches Err(name) && name@ == field@,
                None => r matches Ok(record) && record.model() == self.model().record(),
            },
    {
        let name = match self.name {
            Some(v) => v,
            None => {
                return Err("name");
            },
        };
        let pos = match self.pos {
            Some(v) => v,
            None => {
                return Err("pos");
            },
        };
        let government = match self.government {
            Some(v) => v,
            None => {
                return Err("government");
            },
        };
        let habitable = match self.habitable {
            Some(v) => v,
            None => {
                return Err("habitable");
            },
        };
        let links = match self.links {
            Some(v) => v,
            None => {
                let none: Vec<&'a str> = Vec::new();
                proof {
                    lemma_model_empty(none);
                }
                none
            },
        };
        let asteroids = match self.asteroids {
            Some(v) => v,
            None => {
                let none: Vec<Asteroids<'a>> = Vec::new();
                proof {
                    lemma_model_empty(none);
                }
                none
            },
        };
        let minables = match self.minables {
            Some(v) => v,
            None => {
                let none: Vec<Minables<'a>> = Vec::new();
                proof {
                    lemma_model_empty(none);
                }
                none
            },
        };
        let trades = match self.trades {
            Some(v) => v,
            None => {
                let none: Vec<Trade<'a>> = Vec::new();
                proof {
                    lemma_model_empty(none);
                }
                none
            },
        };
        let fleets = match self.fleets {
            Some(v) => v,
            None => {
                let none: Vec<Fleet<'a>> = Vec::new();
                proof {
                    lemma_model_empty(none);
                }
                none
            },
        };
        let objects = match self.objects {
            Some(v) => v,
            None => {
                let none: Vec<SystemObject<'a>> = Vec::new();
                proof {
                    lemma_model_empty(none);
                }
                none
            },
        };
        Ok(
            System {
                name,
                pos,
                government,
                habitable,
                belt: self.belt,
                haze: self.haze,
                links,
                asteroids,
                minables,
                trades,
                fleets,
                objects,
            },
        )
    }

    /// Finalizes the draft of a record that was read up to `rest`.
    pub fn finish<'b>(self, rest: &'b str) -> (r: Parsed<'b, System<'a>>)
        ensures
            r.model() == self.model().finish(rest.model()),
    {
        match self.build() {
            Ok(record) => Ok((rest, record)),
            Err(field) => fail_invalid(rest, "system", field),
        }
    }
}

/// Taking a field into a draft fills its slot and no other.
pub proof fn lemma_system_field_fills(draft: SystemBuilderModel, field: SystemField, slot: nat)
    ensures
        field.slot() != slot ==> draft.with(field).lacks(slot) == draft.lacks(slot),
        !draft.with(field).lacks(field.slot()),
        SystemField::is_required(slot) && draft.lacks(slot) ==> draft.missing() is Some,
{
}

/// Two fields of different slots can be taken into a draft in either order.
pub proof fn lemma_system_fields_commute(
    draft: SystemBuilderModel,
    first: SystemField,
    second: SystemField,
)
    requires
        first.slot() != second.slot(),
    ensures
        draft.with(first).with(second) == draft.with(second).with(first),
{
}

/// A [`ShipWeapon`] in the making, with one slot for each field. A slot holds
/// what the text gave for its field, or nothing yet.
#[derive(Debug)]
pub struct ShipWeaponBuilder {
    pub blast_radius: Option<u32>,
    pub shield_damage: Option<u32>,
    pub hull_damage: Option<u32>,
    pub hit_force: Option<u32>,
}

/// [`ShipWeaponBuilder`] in contracts.
pub struct ShipWeaponBuilderModel {
    pub blast_radius: Option<u32>,
    pub shield_damage: Option<u32>,
    pub hull_damage: Option<u32>,
    pub hit_force: Option<u32>,
}

impl Model for ShipWeaponBuilder {
    type M = ShipWeaponBuilderModel;

    open spec fn model(&self) -> ShipWeaponBuilderModel {
        ShipWeaponBuilderModel {
            blast_radius: self.blast_radius.model(),
            shield_damage: self.shield_damage.model(),
            hull_damage: self.hull_damage.model(),
            hit_force: self.hit_force.model(),
        }
    }
}

/// A field of a [`ShipWeapon`] as the text gives it.
pub enum ShipWeaponField {
    BlastRadius(u32),
    ShieldDamage(u32),
    HullDamage(u32),
    HitForce(u32),
}

impl ShipWeaponField {
    /// The slot that the field goes to, by its place among the fields.
    pub open spec fn slot(self) -> nat {
        match self {
            ShipWeaponField::BlastRadius(_) => 0,
            ShipWeaponField::ShieldDamage(_) => 1,
            ShipWeaponField::HullDamage(_) => 2,
            ShipWeaponField::HitForce(_) => 3,
        }
    }
}

impl ShipWeaponBuilderModel {
    /// The draft with every slot empty.
    pub open spec fn empty() -> ShipWeaponBuilderModel {
        ShipWeaponBuilderModel {
            blast_radius: None,
            shield_damage: None,
            hull_damage: None,
            hit_force: None,
        }
    }

    /// The draft with `field` put into its slot. What the slot held before
    /// is replaced; every other slot stays.
    pub open spec fn with(self, field: ShipWeaponField) -> ShipWeaponBuilderModel {
        match field {
            ShipWeaponField::BlastRadius(v) => ShipWeaponBuilderModel {
                blast_radius: Some(v),
                ..self
            },
            ShipWeaponField::ShieldDamage(v) => ShipWeaponBuilderModel {
                shield_damage: Some(v),
                ..self
            },
            ShipWeaponField::HullDamage(v) => ShipWeaponBuilderModel {
                hull_damage: Some(v),
                ..self
            },
            ShipWeaponField::HitForce(v) => ShipWeaponBuilderModel { hit_force: Some(v), ..self },
        }
    }

    /// The name of the first required field, in declaration order, whose
    /// slot is empty.
    pub open spec fn missing(self) -> Option<&'static str> {
        if self.blast_radius is None {
            Some("blast_radius")
        } else if self.shield_damage is None {
            Some("shield_damage")
        } else if self.hull_damage is None {
            Some("hull_damage")
        } else if self.hit_force is None {
            Some("hit_force")
        } else {
            None
        }
    }

    /// The record that a draft without a missing field stands for. A
    /// field that is not required and was never read is absent, empty or
    /// zero.
    pub open spec fn record(self) -> ShipWeapon {
        ShipWeapon {
            blast_radius: self.blast_radius->0,
            shield_damage: self.shield_damage->0,
            hull_damage: self.hull_damage->0,
            hit_force: self.hit_force->0,
        }
    }

    /// What the draft makes of the fields read up to `rest`: the record,
    /// or the hard failure that names the record and its missing field.
    pub open spec fn finish(self, rest: Seq<u8>) -> Outcome<ShipWeapon> {
        match self.missing() {
            Some(field) => invalid(rest, "ship attributes - weapon", field),
            None => Ok((rest, self.record())),
        }
    }

    /// True when the slot `slot` is empty.
    pub open spec fn lacks(self, slot: nat) -> bool {
        if slot == 0 {
            self.blast_radius is None
        } else if slot == 1 {
            self.shield_damage is None
        } else if slot == 2 {
            self.hull_damage is None
        } else if slot == 3 {
            self.hit_force is None
        } else {
            false
        }
    }
}

impl ShipWeaponField {
    /// True when a record cannot do without the field of the slot `slot`.
    pub open spec fn is_required(slot: nat) -> bool {
        slot == 0 || slot == 1 || slot == 2 || slot == 3
    }
}

impl ShipWeaponBuilder {
    /// A draft with every slot empty.
    pub fn new() -> (draft: ShipWeaponBuilder)
        ensures
            draft.model() == ShipWeaponBuilderModel::empty(),
    {
        ShipWeaponBuilder {
            blast_radius: None,
            shield_damage: None,
            hull_damage: None,
            hit_force: None,
        }
    }

    /// Finalizes the draft. Fails with the name of the first required
    /// field, in declaration order, that was never read.
    pub fn build(self) -> (r: Result<ShipWeapon, &'static str>)
        ensures
            match self.model().missing() {
                Some(field) => r matches Err(name) && name@ == field@,
                None => r matches Ok(record) && record.model() == self.model().record(),
            },
    {
        let blast_radius = match self.blast_radius {
            Some(v) => v,
            None => {
                return Err("blast_radius");
            },
        };
        let shield_damage = match self.shield_damage {
            Some(v) => v,
            None => {
                return Err("shield_damage");
            },
        };
        let hull_damage = match self.hull_damage {
            Some(v) => v,
            None => {
                return Err("hull_damage");
            },
        };
        let hit_force = match self.hit_force {
            Some(v) => v,
            None => {
                return Err("hit_force");
            },
        };
        Ok(
            ShipWeapon {
                blast_radius,
                shield_damage,
                hull_damage,
                hit_force,
            },
        )
    }

    /// Finalizes the draft of a record that was read up to `rest`.
    pub fn finish<'b>(self, rest: &'b str) -> (r: Parsed<'b, ShipWeapon>)
        ensures
            r.model() == self.model().finish(rest.model()),
    {
        match self.build() {
            Ok(record) => Ok((rest, record)),
            Err(field) => fail_invalid(rest, "ship attributes - weapon", field),
        }
    }
}

/// Taking a field into a draft fills its slot and no other.
pub proof fn lemma_ship_weapon_field_fills(
    draft: ShipWeaponBuilderModel,
    field: ShipWeaponField,
    slot: nat,
)
    ensures
        field.slot() != slot ==> draft.with(field).lacks(slot) == draft.lacks(slot),
        !draft.with(field).lacks(field.slot()),
        ShipWeaponField::is_required(slot) && draft.lacks(slot) ==> draft.missing() is Some,
{
}

/// Two fields of different slots can be taken into a draft in either order.
pub proof fn lemma_ship_weapon_fields_commute(
    draft: ShipWeaponBuilderModel,
    first: ShipWeaponField,
    second: ShipWeaponField,
)
    requires
        first.slot() != second.slot(),
    ensures
        draft.with(first).with(second) == draft.with(second).with(first),
{
}

/// A [`ShipAttributes`] in the making, with one slot for each field. A slot holds
/// what the text gave for its field, or nothing yet.
#[derive(Debug)]
pub struct ShipAttributesBuilder<'a> {
    pub licenses: Option<Vec<&'a str>>,
    pub category: Option<&'a str>,
    pub cost: Option<u32>,
    pub shields: Option<u32>,
    pub hull: Option<u32>,
    pub automaton: Option<bool>,
    pub required_crew: Option<u32>,
    pub bunks: Option<u32>,
    pub mass: Option<u32>,
    pub drag: Option<&'a str>,
    pub heat_dissipation: Option<&'a str>,
    pub fuel_capacity: Option<u32>,
    pub cargo_space: Option<u32>,
    pub outfit_space: Option<u32>,
    pub weapon_capacity: Option<u32>,
    pub engine_capacity: Option<u32>,
    pub weapon: Option<ShipWeapon>,
}

/// [`ShipAttributesBuilder`] in contracts.
pub struct ShipAttributesBuilderModel {
    pub licenses: Option<Seq<Seq<u8>>>,
    pub category: Option<Seq<u8>>,
    pub cost: Option<u32>,
    pub shields: Option<u32>,
    pub hull: Option<u32>,
    pub automaton: Option<bool>,
    pub required_crew: Option<u32>,
    pub bunks: Option<u32>,
    pub mass: Option<u32>,
    pub drag: Option<Seq<u8>>,
    pub heat_dissipation: Option<Seq<u8>>,
    pub fuel_capacity: Option<u32>,
    pub cargo_space: Option<u32>,
    pub outfit_space: Option<u32>,
    pub weapon_capacity: Option<u32>,
    pub engine_capacity: Option<u32>,
    pub weapon: Option<ShipWeapon>,
}

impl<'a> Model for ShipAttributesBuilder<'a> {
    type M = ShipAttributesBuilderModel;

    open spec fn model(&self) -> ShipAttributesBuilderModel {
        ShipAttributesBuilderModel {
            licenses: self.licenses.model(),
            category: self.category.model(),
            cost: self.cost.model(),
            shields: self.shields.model(),
            hull: self.hull.model(),
            automaton: self.automaton.model(),
            required_crew: self.required_crew.model(),
            bunks: self.bunks.model(),
            mass: self.mass.model(),
            drag: self.drag.model(),
            heat_dissipation: self.heat_dissipation.model(),
            fuel_capacity: self.fuel_capacity.model(),
            cargo_space: self.cargo_space.model(),
            outfit_space: self.outfit_space.model(),
            weapon_capacity: self.weapon_capacity.model(),
            engine_capacity: self.engine_capacity.model(),
            weapon: self.weapon.model(),
        }
    }
}

/// A field of a [`ShipAttributes`] as the text gives it.
pub enum ShipAttributesField {
    Licenses(Seq<Seq<u8>>),
    Category(Seq<u8>),
    Cost(u32),
    Shields(u32),
    Hull(u32),
    Automaton(bool),
    RequiredCrew(u32),
    Bunks(u32),
    Mass(u32),
    Drag(Seq<u8>),
    HeatDissipation(Seq<u8>),
    FuelCapacity(u32),
    CargoSpace(u32),
    OutfitSpace(u32),
    WeaponCapacity(u32),
    EngineCapacity(u32),
    Weapon(ShipWeapon),
}

impl ShipAttributesField {
    /// The slot that the field goes to, by its place among the fields.
    pub open spec fn slot(self) -> nat {
        match self {
            ShipAttributesField::Licenses(_) => 0,
            ShipAttributesField::Category(_) => 1,
            ShipAttributesField::Cost(_) => 2,
            ShipAttributesField::Shields(_) => 3,
            ShipAttributesField::Hull(_) => 4,
            ShipAttributesField::Automaton(_) => 5,
            ShipAttributesField::RequiredCrew(_) => 6,
            ShipAttributesField::Bunks(_) => 7,
            ShipAttributesField::Mass(_) => 8,
            ShipAttributesField::Drag(_) => 9,
            ShipAttributesField::HeatDissipation(_) => 10,
            ShipAttributesField::FuelCapacity(_) => 11,
            ShipAttributesField::CargoSpace(_) => 12,
            ShipAttributesField::OutfitSpace(_) => 13,
            ShipAttributesField::WeaponCapacity(_) => 14,
            ShipAttributesField::EngineCapacity(_) => 15,
            ShipAttributesField::Weapon(_) => 16,
        }
    }
}

impl ShipAttributesBuilderModel {
    /// The draft with every slot empty.
    pub open spec fn empty() -> ShipAttributesBuilderModel {
        ShipAttributesBuilderModel {
            licenses: None,
            category: None,
            cost: None,
            shields: None,
            hull: None,
            automaton: None,
            required_crew: None,
            bunks: None,
            mass: None,
            drag: None,
            heat_dissipation: None,
            fuel_capacity: None,
            cargo_space: None,
            outfit_space: None,
            weapon_capacity: None,
            engine_capacity: None,
            weapon: None,
        }
    }

    /// The draft with `field` put into its slot. What the slot held before
    /// is replaced; every other slot stays.
    pub open spec fn with(self, field: ShipAttributesField) -> ShipAttributesBuilderModel {
        match field {
            ShipAttributesField::Licenses(v) => ShipAttributesBuilderModel {
                licenses: Some(v),
                ..self
            },
            ShipAttributesField::Category(v) => ShipAttributesBuilderModel {
                category: Some(v),
                ..self
            },
            ShipAttributesField::Cost(v) => ShipAttributesBuilderModel { cost: Some(v), ..self },
            ShipAttributesField::Shields(v) => ShipAttributesBuilderModel {
                shields: Some(v),
                ..self
            },
            ShipAttributesField::Hull(v) => ShipAttributesBuilderModel { hull: Some(v), ..self },
            ShipAttributesField::Automaton(v) => ShipAttributesBuilderModel {
                automaton: Some(v),
                ..self
            },
            ShipAttributesField::RequiredCrew(v) => ShipAttributesBuilderModel {
                required_crew: Some(v),
                ..self
            },
            ShipAttributesField::Bunks(v) => ShipAttributesBuilderModel { bunks: Some(v), ..self },
            ShipAttributesField::Mass(v) => ShipAttributesBuilderModel { mass: Some(v), ..self },
            ShipAttributesField::Drag(v) => ShipAttributesBuilderModel { drag: Some(v), ..self },
            ShipAttributesField::HeatDissipation(v) => ShipAttributesBuilderModel {
                heat_dissipation: Some(v),
                ..self
            },
            ShipAttributesField::FuelCapacity(v) => ShipAttributesBuilderModel {
                fuel_capacity: Some(v),
                ..self
            },
            ShipAttributesField::CargoSpace(v) => ShipAttributesBuilderModel {
                cargo_space: Some(v),
                ..self
            },
            ShipAttributesField::OutfitSpace(v) => ShipAttributesBuilderModel {
                outfit_space: Some(v),
                ..self
            },
            ShipAttributesField::WeaponCapacity(v) => ShipAttributesBuilderModel {
                weapon_capacity: Some(v),
                ..self
            },
            ShipAttributesField::EngineCapacity(v) => ShipAttributesBuilderModel {
                engine_capacity: Some(v),
                ..self
            },
            ShipAttributesField::Weapon(v) => ShipAttributesBuilderModel {
                weapon: Some(v),
                ..self
            },
        }
    }

    /// The name of the first required field, in declaration order, whose
    /// slot is empty.
    pub open spec fn missing(self) -> Option<&'static str> {
        if self.category is None {
            Some("category")
        } else if self.cost is None {
            Some("cost")
        } else if self.hull is None {
            Some("hull")
        } else if self.mass is None {
            Some("mass")
        } else if self.drag is None {
            Some("drag")
        } else if self.heat_dissipation is None {
            Some("heat_dissipation")
        } else if self.outfit_space is None {
            Some("outfit_space")
        } else if self.engine_capacity is None {
            Some("engine_capacity")
        } else if self.weapon is None {
            Some("weapon")
        } else {
            None
        }
    }

    /// The record that a draft without a missing field stands for. A
    /// field that is not required and was never read is absent, empty or
    /// zero.
    pub open spec fn record(self) -> ShipAttributesModel {
        ShipAttributesModel {
            licenses: match self.licenses {
                Some(v) => v,
                None => Seq::empty(),
            },
            category: self.category->0,
            cost: self.cost->0,
            shields: match self.shields {
                Some(v) => v,
                None => 0,
            },
            hull: self.hull->0,
            automaton: match self.automaton {
                Some(v) => v,
                None => false,
            },
            required_crew: match self.required_crew {
                Some(v) => v,
                None => 0,
            },
            bunks: match self.bunks {
                Some(v) => v,
                None => 0,
            },
            mass: self.mass->0,
            drag: self.drag->0,
            heat_dissipation: self.heat_dissipation->0,
            fuel_capacity: match self.fuel_capacity {
                Some(v) => v,
                None => 0,
            },
            cargo_space: match self.cargo_space {
                Some(v) => v,
                None => 0,
            },
            outfit_space: self.outfit_space->0,
            weapon_capacity: match self.weapon_capacity {
                Some(v) => v,
                None => 0,
            },
            engine_capacity: self.engine_capacity->0,
            weapon: self.weapon->0,
        }
    }

    /// What the draft makes of the fields read up to `rest`: the record,
    /// or the hard failure that names the record and its missing field.
    pub open spec fn finish(self, rest: Seq<u8>) -> Outcome<ShipAttributesModel> {
        match self.missing() {
            Some(field) => invalid(rest, "ship attributes", field),
            None => Ok((rest, self.record())),
        }
    }

    /// True when the slot `slot` is empty.
    pub open spec fn lacks(self, slot: nat) -> bool {
        if slot == 0 {
            self.licenses is None
        } else if slot == 1 {
            self.category is None
        } else if slot == 2 {
            self.cost is None
        } else if slot == 3 {
            self.shields is None
        } else if slot == 4 {
            self.hull is None
        } else if slot == 5 {
            self.automaton is None
        } else if slot == 6 {
            self.required_crew is None
        } else if slot == 7 {
            self.bunks is None
        } else if slot == 8 {
            self.mass is None
        } else if slot == 9 {
            self.drag is None
        } else if slot == 10 {
            self.heat_dissipation is None
        } else if slot == 11 {
            self.fuel_capacity is None
        } else if slot == 12 {
            self.cargo_space is None
        } else if slot == 13 {
            self.outfit_space is None
        } else if slot == 14 {
            self.weapon_capacity is None
        } else if slot == 15 {
            self.engine_capacity is None
        } else if slot == 16 {
            self.weapon is None
        } else {
            false
        }
    }
}

impl ShipAttributesField {
    /// True when a record cannot do without the field of the slot `slot`.
    pub open spec fn is_required(slot: nat) -> bool {
        slot == 1
            || slot == 2
            || slot == 4
            || slot == 8
            || slot == 9
            || slot == 10
            || slot == 13
            || slot == 15
            || slot == 16
    }
}

impl<'a> ShipAttributesBuilder<'a> {
    /// A draft with every slot empty.
    pub fn new() -> (draft: ShipAttributesBuilder<'a>)
        ensures
            draft.model() == ShipAttributesBuilderModel::empty(),
    {
        ShipAttributesBuilder {
            licenses: None,
            category: None,
            cost: None,
            shields: None,
            hull: None,
            automaton: None,
            required_crew: None,
            bunks: None,
            mass: None,
            drag: None,
            heat_dissipation: None,
            fuel_capacity: None,
            cargo_space: None,
            outfit_space: None,
            weapon_capacity: None,
            engine_capacity: None,
            weapon: None,
        }
    }

    /// Finalizes the draft. Fails with the name of the first required
    /// field, in declaration order, that was never read.
    pub fn build(self) -> (r: Result<ShipAttributes<'a>, &'static str>)
        ensures
            match self.model().missing() {
                Some(field) => r matches Err(name) && name@ == field@,
                None => r matches Ok(record) && record.model() == self.model().record(),
            },
    {
        let category = match self.category {
            Some(v) => v,
            None => {
                return Err("category");
            },
        };
        let cost = match self.cost {
            Some(v) => v,
            None => {
                return Err("cost");
            },
        };
        let hull = match self.hull {
            Some(v) => v,
            None => {
                return Err("hull");
            },
        };
        let mass = match self.mass {
            Some(v) => v,
            None => {
                return Err("mass");
            },
        };
        let drag = match self.drag {
            Some(v) => v,
            None => {
                return Err("drag");
            },
        };
        let heat_dissipation = match self.heat_dissipation {
            Some(v) => v,
            None => {
                return Err("heat_dissipation");
            },
        };
        let outfit_space = match self.outfit_space {
            Some(v) => v,
            None => {
                return Err("outfit_space");
            },
        };
        let engine_capacity = match self.engine_capacity {
            Some(v) => v,
            None => {
                return Err("engine_capacity");
            },
        };
        let weapon = match self.weapon {
            Some(v) => v,
            None => {
                return Err("weapon");
            },
        };
        let licenses = match self.licenses {
            Some(v) => v,
            None => {
                let none: Vec<&'a str> = Vec::new();
                proof {
                    lemma_model_empty(none);
                }
                none
            },
        };
        let shields = match self.shields {
            Some(v) => v,
            None => 0,
        };
        let automaton = match self.automaton {
            Some(v) => v,
            None => false,
        };
        let required_crew = match self.required_crew {
            Some(v) => v,
            None => 0,
        };
        let bunks = match self.bunks {
            Some(v) => v,
            None => 0,
        };
        let fuel_capacity = match self.fuel_capacity {
            Some(v) => v,
            None => 0,
        };
        let cargo_space = match self.cargo_space {
            Some(v) => v,
            None => 0,
        };
        let weapon_capacity = match self.weapon_capacity {
            Some(v) => v,
            None => 0,
        };
        Ok(
            ShipAttributes {
                licenses,
                category,
                cost,
                shields,
                hull,
                automaton,
                required_crew,
                bunks,
                mass,
                drag,
                heat_dissipation,
                fuel_capacity,
                cargo_space,
                outfit_space,
                weapon_capacity,
                engine_capacity,
                weapon,
            },
        )
    }

    /// Finalizes the draft of a record that was read up to `rest`.
    pub fn finish<'b>(self, rest: &'b str) -> (r: Parsed<'b, ShipAttributes<'a>>)
        ensures
            r.model() == self.model().finish(rest.model()),
    {
        match self.build() {
            Ok(record) => Ok((rest, record)),
            Err(field) => fail_invalid(rest, "ship attributes", field),
        }
    }
}

/// Taking a field into a draft fills its slot and no other.
pub proof fn lemma_ship_attributes_field_fills(
    draft: ShipAttributesBuilderModel,
    field: ShipAttributesField,
    slot: nat,
)
    ensures
        field.slot() != slot ==> draft.with(field).lacks(slot) == draft.lacks(slot),
        !draft.with(field).lacks(field.slot()),
        ShipAttributesField::is_required(slot) && draft.lacks(slot) ==> draft.missing() is Some,
{
}

/// Two fields of different slots can be taken into a draft in either order.
pub proof fn lemma_ship_attributes_fields_commute(
    draft: ShipAttributesBuilderModel,
    first: ShipAttributesField,
    second: ShipAttributesField,
)
    requires
        first.slot() != second.slot(),
    ensures
        draft.with(first).with(second) == draft.with(second).with(first),
{
}

/// A [`Ship`] in the making, with one slot for each field. A slot holds
/// what the text gave for its field, or nothing yet.
#[derive(Debug)]
pub struct ShipBuilder<'a> {
    pub name: Option<&'a str>,
    pub subclass: Option<&'a str>,
    pub plural: Option<&'a str>,
    pub sprite: Option<Sprite<'a>>,
    pub thumbnail: Option<&'a str>,
    pub attributes: Option<ShipAttributes<'a>>,
    pub outfits: Option<Vec<(&'a str, u32)>>,
    pub engine: Option<Vec<(&'a str, &'a str, Option<&'a str>)>>,
    pub gun: Option<Vec<(&'a str, &'a str, Option<&'a str>)>>,
    pub turret: Option<Vec<(&'a str, &'a str, Option<&'a str>)>>,
    pub fighter: Option<Vec<(&'a str, &'a str, Option<&'a str>)>>,
    pub drone: Option<Vec<(&'a str, &'a str, Option<&'a str>)>>,
    pub leak: Option<Vec<(&'a str, u32, u32)>>,
    pub explode: Option<Vec<(&'a str, u32)>>,
    pub final_explode: Option<&'a str>,
    pub description: Option<Vec<&'a str>>,
}

/// [`ShipBuilder`] in contracts.
pub struct ShipBuilderModel {
    pub name: Option<Seq<u8>>,
    pub subclass: Option<Seq<u8>>,
    pub plural: Option<Seq<u8>>,
    pub sprite: Option<SpriteModel>,
    pub thumbnail: Option<Seq<u8>>,
    pub attributes: Option<ShipAttributesModel>,
    pub outfits: Option<Seq<(Seq<u8>, u32)>>,
    pub engine: Option<Seq<(Seq<u8>, Seq<u8>, Option<Seq<u8>>)>>,
    pub gun: Option<Seq<(Seq<u8>, Seq<u8>, Option<Seq<u8>>)>>,
    pub turret: Option<Seq<(Seq<u8>, Seq<u8>, Option<Seq<u8>>)>>,
    pub fighter: Option<Seq<(Seq<u8>, Seq<u8>, Option<Seq<u8>>)>>,
    pub drone: Option<Seq<(Seq<u8>, Seq<u8>, Option<Seq<u8>>)>>,
    pub leak: Option<Seq<(Seq<u8>, u32, u32)>>,
    pub explode: Option<Seq<(Seq<u8>, u32)>>,
    pub final_explode: Option<Seq<u8>>,
    pub description: Option<Seq<Seq<u8>>>,
}

impl<'a> Model for ShipBuilder<'a> {
    type M = ShipBuilderModel;

    open spec fn model(&self) -> ShipBuilderModel {
        ShipBuilderModel {
            name: self.name.model(),
            subclass: self.subclass.model(),
            plural: self.plural.model(),
            sprite: self.sprite.model(),
            thumbnail: self.thumbnail.model(),
            attributes: self.attributes.model(),
            outfits: self.outfits.model(),
            engine: self.engine.model(),
            gun: self.gun.model(),
            turret: self.turret.model(),
            fighter: self.fighter.model(),
            drone: self.drone.model(),
            leak: self.leak.model(),
            explode: self.explode.model(),
            final_explode: self.final_explode.model(),
            description: self.description.model(),
        }
    }
}

/// A field of a [`Ship`] as the text gives it.
pub enum ShipField {
    Plural(Seq<u8>),
    Sprite(SpriteModel),
    Thumbnail(Seq<u8>),
    Attributes(ShipAttributesModel),
    Outfits(Seq<(Seq<u8>, u32)>),
    Engine(Seq<(Seq<u8>, Seq<u8>, Option<Seq<u8>>)>),
    Gun(Seq<(Seq<u8>, Seq<u8>, Option<Seq<u8>>)>),
    Turret(Seq<(Seq<u8>, Seq<u8>, Option<Seq<u8>>)>),
    Fighter(Seq<(Seq<u8>, Seq<u8>, Option<Seq<u8>>)>),
    Drone(Seq<(Seq<u8>, Seq<u8>, Option<Seq<u8>>)>),
    Leak(Seq<(Seq<u8>, u32, u32)>),
    Explode(Seq<(Seq<u8>, u32)>),
    FinalExplode(Seq<u8>),
    Description(Seq<Seq<u8>>),
}

impl ShipField {
    /// The slot that the field goes to, by its place among the fields.
    pub open spec fn slot(self) -> nat {
        match self {
            ShipField::Plural(_) => 0,
            ShipField::Sprite(_) => 1,
            ShipField::Thumbnail(_) => 2,
            ShipField::Attributes(_) => 3,
            ShipField::Outfits(_) => 4,
            ShipField::Engine(_) => 5,
            ShipField::Gun(_) => 6,
            ShipField::Turret(_) => 7,
            ShipField::Fighter(_) => 8,
            ShipField::Drone(_) => 9,
            ShipField::Leak(_) => 10,
            ShipField::Explode(_) => 11,
            ShipField::FinalExplode(_) => 12,
            ShipField::Description(_) => 13,
        }
    }
}

impl ShipBuilderModel {
    /// The draft with every slot empty.
    pub open spec fn empty() -> ShipBuilderModel {
        ShipBuilderModel {
            name: None,
            subclass: None,
            plural: None,
            sprite: None,
            thumbnail: None,
            attributes: None,
            outfits: None,
            engine: None,
            gun: None,
            turret: None,
            fighter: None,
            drone: None,
            leak: None,
            explode: None,
            final_explode: None,
            description: None,
        }
    }

    /// The draft with `field` put into its slot. What the slot held before
    /// is replaced; every other slot stays.
    pub open spec fn with(self, field: ShipField) -> ShipBuilderModel {
        match field {
            ShipField::Plural(v) => ShipBuilderModel { plural: Some(v), ..self },
            ShipField::Sprite(v) => ShipBuilderModel { sprite: Some(v), ..self },
            ShipField::Thumbnail(v) => ShipBuilderModel { thumbnail: Some(v), ..self },
            ShipField::Attributes(v) => ShipBuilderModel { attributes: Some(v), ..self },
            ShipField::Outfits(v) => ShipBuilderModel { outfits: Some(v), ..self },
            ShipField::Engine(v) => ShipBuilderModel { engine: Some(v), ..self },
            ShipField::Gun(v) => ShipBuilderModel { gun: Some(v), ..self },
            ShipField::Turret(v) => ShipBuilderModel { turret: Some(v), ..self },
            ShipField::Fighter(v) => ShipBuilderModel { fighter: Some(v), ..self },
            ShipField::Drone(v) => ShipBuilderModel { drone: Some(v), ..self },
            ShipField::Leak(v) => ShipBuilderModel { leak: Some(v), ..self },
            ShipField::Explode(v) => ShipBuilderModel { explode: Some(v), ..self },
            ShipField::FinalExplode(v) => ShipBuilderModel { final_explode: Some(v), ..self },
            ShipField::Description(v) => ShipBuilderModel { description: Some(v), ..self },
        }
    }

    /// The name of the first required field, in declaration order, whose
    /// slot is empty.
    pub open spec fn missing(self) -> Option<&'static str> {
        if self.name is None {
            Some("name")
        } else if self.sprite is None {
            Some("sprite")
        } else if self.thumbnail is None {
            Some("thumbnail")
        } else if self.attributes is None {
            Some("attributes")
        } else if self.outfits is None {
            Some("outfits")
        } else if self.engine is None {
            Some("engine")
        } else if self.explode is None {
            Some("explode")
        } else if self.description is None {
            Some("description")
        } else {
            None
        }
    }

    /// The record that a draft without a missing field stands for. A
    /// field that is not required and was never read is absent, empty or
    /// zero.
    pub open spec fn record(self) -> ShipModel {
        ShipModel {
            name: self.name->0,
            subclass: self.subclass,
            plural: self.plural,
            sprite: self.sprite->0,
            thumbnail: self.thumbnail->0,
            attributes: self.attributes->0,
            outfits: self.outfits->0,
            engine: self.engine->0,
            gun: match self.gun {
                Some(v) => v,
                None => Seq::empty(),
            },
            turret: match self.turret {
                Some(v) => v,
                None => Seq::empty(),
            },
            fighter: match self.fighter {
                Some(v) => v,
                None => Seq::empty(),
            },
            drone: match self.drone {
                Some(v) => v,
                None => Seq::empty(),
            },
            leak: match self.leak {
                Some(v) => v,
                None => Seq::empty(),
            },
            explode: self.explode->0,
            final_explode: self.final_explode,
            description: self.description->0,
        }
    }

    /// What the draft makes of the fields read up to `rest`: the record,
    /// or the hard failure that names the record and its missing field.
    pub open spec fn finish(self, rest: Seq<u8>) -> Outcome<ShipModel> {
        match self.missing() {
            Some(field) => invalid(rest, "ship", field),
            None => Ok((rest, self.record())),
        }
    }

    /// True when the slot `slot` is empty.
    pub open spec fn lacks(self, slot: nat) -> bool {
        if slot == 0 {
            self.plural is None
        } else if slot == 1 {
            self.sprite is None
        } else if slot == 2 {
            self.thumbnail is None
        } else if slot == 3 {
            self.attributes is None
        } else if slot == 4 {
            self.outfits is None
        } else if slot == 5 {
            self.engine is None
        } else if slot == 6 {
            self.gun is None
        } else if slot == 7 {
            self.turret is None
        } else if slot == 8 {
            self.fighter is None
        } else if slot == 9 {
            self.drone is None
        } else if slot == 10 {
            self.leak is None
        } else if slot == 11 {
            self.explode is None
        } else if slot == 12 {
            self.final_explode is None
        } else if slot == 13 {
            self.description is None
        } else {
            false
        }
    }
}

impl ShipField {
    /// True when a record cannot do without the field of the slot `slot`.
    pub open spec fn is_required(slot: nat) -> bool {
        slot == 1 || slot == 2 || slot == 3 || slot == 4 || slot == 5 || slot == 11 || slot == 13
    }
}

impl<'a> ShipBuilder<'a> {
    /// A draft with every slot empty.
    pub fn new() -> (draft: ShipBuilder<'a>)
        ensures
            draft.model() == ShipBuilderModel::empty(),
    {
        ShipBuilder {
            name: None,
            subclass: None,
            plural: None,
            sprite: None,
            thumbnail: None,
            attributes: None,
            outfits: None,
            engine: None,
            gun: None,
            turret: None,
            fighter: None,
            drone: None,
            leak: None,
            explode: None,
            final_explode: None,
            description: None,
        }
    }

    /// Finalizes the draft. Fails with the name of the first required
    /// field, in declaration order, that was never read.
    pub fn build(self) -> (r: Result<Ship<'a>, &'static str>)
        ensures
            match self.model().missing() {
                Some(field) => r matches Err(name) && name@ == field@,
                None => r matches Ok(record) && record.model() == self.model().record(),
            },
    {
        let name = match self.name {
            Some(v) => v,
            None => {
                return Err("name");
            },
        };
        let sprite = match self.sprite {
            Some(v) => v,
            None => {
                return Err("sprite");
            },
        };
        let thumbnail = match self.thumbnail {
            Some(v) => v,
            None => {
                return Err("thumbnail");
            },
        };
        let attributes = match self.attributes {
            Some(v) => v,
            None => {
                return Err("attributes");
            },
        };
        let outfits = match self.outfits {
            Some(v) => v,
            None => {
                return Err("outfits");
            },
        };
        let engine = match self.engine {
            Some(v) => v,
            None => {
                return Err("engine");
            },
        };
        let explode = match self.explode {
            Some(v) => v,
            None => {
                return Err("explode");
            },
        };
        let description = match self.description {
            Some(v) => v,
            None => {
                return Err("description");
            },
        };
        let gun = match self.gun {
            Some(v) => v,
            None => {
                let none: Vec<(&'a str, &'a str, Option<&'a str>)> = Vec::new();
                proof {
                    lemma_model_empty(none);
                }
                none
            },
        };
        let turret = match self.turret {
            Some(v) => v,
            None => {
                let none: Vec<(&'a str, &'a str, Option<&'a str>)> = Vec::new();
                proof {
                    lemma_model_empty(none);
                }
                none
            },
        };
        let fighter = match self.fighter {
            Some(v) => v,
            None => {
                let none: Vec<(&'a str, &'a str, Option<&'a str>)> = Vec::new();
                proof {
                    lemma_model_empty(none);
                }
                none
            },
        };
        let drone = match self.drone {
            Some(v) => v,
            None => {
                let none: Vec<(&'a str, &'a str, Option<&'a str>)> = Vec::new();
                proof {
                    lemma_model_empty(none);
                }
                none
            },
        };
        let leak = match self.leak {
            Some(v) => v,
            None => {
                let none: Vec<(&'a str, u32, u32)> = Vec::new();
                proof {
                    lemma_model_empty(none);
                }
                none
            },
        };
        Ok(
            Ship {
                name,
                subclass: self.subclass,
                plural: self.plural,
                sprite,
                thumbnail,
                attributes,
                outfits,
                engine,
                gun,
                turret,
                fighter,
                drone,
                leak,
                explode,
                final_explode: self.final_explode,
                description,
            },
        )
    }

    /// Finalizes the draft of a record that was read up to `rest`.
    pub fn finish<'b>(self, rest: &'b str) -> (r: Parsed<'b, Ship<'a>>)
        ensures
            r.model() == self.model().finish(rest.model()),
    {
        match self.build() {
            Ok(record) => Ok((rest, record)),
            Err(field) => fail_invalid(rest, "ship", field),
        }
    }
}

/// Taking a field into a draft fills its slot and no other.
pub proof fn lemma_ship_field_fills(draft: ShipBuilderModel, field: ShipField, slot: nat)
    ensures
        field.slot() != slot ==> draft.with(field).lacks(slot) == draft.lacks(slot),
        !draft.with(field).lacks(field.slot()),
        ShipField::is_required(slot) && draft.lacks(slot) ==> draft.missing() is Some,
{
}

/// Two fields of different slots can be taken into a draft in either order.
pub proof fn lemma_ship_fields_commute(draft: ShipBuilderModel, first: ShipField, second: ShipField)
    requires
        first.slot() != second.slot(),
    ensures
        draft.with(first).with(second) == draft.with(second).with(first),
{
}

} // verus!
