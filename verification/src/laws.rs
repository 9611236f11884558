//! What holds of every record, whatever the text.
//!
//! For each kind of record: its fields can stand in any order, and a record
//! whose text never gives a required field is invalid. Both are stated over
//! the fields as the sweep takes them: `takes_fields` says which fields a
//! text gives, in which order, and where they end.

use crate::builders::{
    lemma_account_field_fills, lemma_account_fields_commute, lemma_galaxy_field_fills,
    lemma_galaxy_fields_commute, lemma_mortgage_field_fills, lemma_mortgage_fields_commute,
    lemma_planet_field_fills, lemma_planet_fields_commute, lemma_ship_attributes_field_fills,
    lemma_ship_attributes_fields_commute, lemma_ship_field_fills, lemma_ship_fields_commute,
    lemma_ship_weapon_field_fills, lemma_ship_weapon_fields_commute, lemma_start_field_fills,
    lemma_start_fields_commute, lemma_system_field_fills, lemma_system_fields_commute,
    lemma_system_object_field_fills, lemma_system_object_fields_commute, lemma_tribute_field_fills,
    lemma_tribute_fields_commute, AccountBuilderModel, AccountField, GalaxyBuilderModel,
    GalaxyField, MortgageBuilderModel, MortgageField, PlanetBuilderModel, PlanetField,
    ShipAttributesBuilderModel, ShipAttributesField, ShipBuilderModel, ShipField,
    ShipWeaponBuilderModel, ShipWeaponField, StartBuilderModel, StartField, SystemBuilderModel,
    SystemField, SystemObjectBuilderModel, SystemObjectField, TributeBuilderModel, TributeField,
};
use crate::errors::{Context, ErrorModel, FailureModel, Mismatch};
use crate::fields::{
    exchanged, fold_fields, lemma_fold_leaves_empty, lemma_sweep_by_fields, lemma_sweep_order,
    spec_sweep, takes_fields,
};
use crate::galaxy::{galaxy_apply, galaxy_search, spec_parse_galaxy};
use crate::helpers::invalid;
use crate::model::Model;
use crate::planet::{planet_apply, planet_search, spec_parse_planet, tribute_apply, tribute_search};
use crate::ship::{
    ship_apply, ship_attributes_apply, ship_attributes_search, ship_search, ship_weapon_apply,
    ship_weapon_search, spec_parse_ship,
};
use crate::start::{
    account_apply, account_search, mortgage_apply, mortgage_search, spec_parse_start, start_apply,
    start_search,
};
use crate::system::{object_apply, object_search, spec_parse_system, system_apply, system_search};
use crate::text::tail;
use crate::types::{
    AccountModel, GalaxyModel, MortgageModel, PlanetModel, ShipAttributesModel, ShipModel,
    ShipWeapon, StartModel, SystemModel, SystemObjectModel, TributeModel,
};
use vstd::prelude::*;
use vstd::string::*;

verus! {

/// Order independence of the fields of a galaxy. Two texts that give the same
/// fields, but for two neighbours of different slots that are exchanged, and
/// that go on alike behind the fields, are read to the same end: the same
/// draft, before the same rest, and so the same record.
pub proof fn lemma_galaxy_order(
    s: Seq<u8>,
    t: Seq<u8>,
    draft: GalaxyBuilderModel,
    fields: Seq<GalaxyField>,
    i: int,
    rest: Seq<u8>,
)
    requires
        0 <= i < fields.len() - 1,
        takes_fields(s, draft, galaxy_search(), galaxy_apply(), fields, rest),
        takes_fields(
            t,
            draft,
            galaxy_search(),
            galaxy_apply(),
            exchanged(fields, i),
            rest,
        ),
        fields[i].slot() != fields[i + 1].slot(),
    ensures
        spec_sweep(s, draft, galaxy_search(), galaxy_apply()) == spec_sweep(
            t,
            draft,
            galaxy_search(),
            galaxy_apply(),
        ),
{
    let apply = galaxy_apply();
    assert forall|d: GalaxyBuilderModel| #[trigger]
        apply(apply(d, fields[i]), fields[i + 1]) == apply(apply(d, fields[i + 1]), fields[i]) by {
        lemma_galaxy_fields_commute(d, fields[i], fields[i + 1]);
    }
    lemma_sweep_order(s, t, draft, galaxy_search(), apply, fields, i, rest);
}

/// Validation of a galaxy. A text that gives no field for a required slot,
/// read into a draft that lacks it, is read to its end and then fails: hard,
/// with a validation error that names the record as `galaxy` and, as the
/// field, the first required field in declaration order that the draft lacks.
pub proof fn lemma_galaxy_missing(
    s: Seq<u8>,
    draft: GalaxyBuilderModel,
    fields: Seq<GalaxyField>,
    rest: Seq<u8>,
    slot: nat,
)
    requires
        takes_fields(s, draft, galaxy_search(), galaxy_apply(), fields, rest),
        galaxy_search()(
            rest,
            fold_fields(draft, fields, galaxy_apply()),
        ) is Nothing,
        GalaxyField::is_required(slot),
        draft.lacks(slot),
        forall|i: int| 0 <= i < fields.len() ==> (#[trigger] fields[i]).slot() != slot,
    ensures
        ({
            let full = fold_fields(draft, fields, galaxy_apply());
            &&& spec_sweep(s, draft, galaxy_search(), galaxy_apply()) == Ok::<
                (Seq<u8>, GalaxyBuilderModel),
                ErrorModel,
            >((rest, full))
            &&& full.lacks(slot)
            &&& full.missing() is Some
            &&& full.finish(rest) == invalid::<GalaxyModel>(rest, "galaxy", full.missing()->0)
        }),
{
    let apply = galaxy_apply();
    let full = fold_fields(draft, fields, apply);
    lemma_sweep_by_fields(s, draft, galaxy_search(), apply, fields, rest);
    assert forall|d: GalaxyBuilderModel, f: GalaxyField|
        f.slot() != slot implies #[trigger] apply(d, f).lacks(slot) == d.lacks(slot) by {
        lemma_galaxy_field_fills(d, f, slot);
    }
    lemma_fold_leaves_empty(
        draft,
        fields,
        apply,
        |f: GalaxyField| f.slot(),
        |d: GalaxyBuilderModel, k: nat| d.lacks(k),
        slot,
    );
    lemma_galaxy_field_fills(full, arbitrary(), slot);
}

/// Order independence of the fields of a system. Two texts that give the same
/// fields, but for two neighbours of different slots that are exchanged, and
/// that go on alike behind the fields, are read to the same end: the same
/// draft, before the same rest, and so the same record.
pub proof fn lemma_system_order(
    s: Seq<u8>,
    t: Seq<u8>,
    draft: SystemBuilderModel,
    fields: Seq<SystemField>,
    i: int,
    rest: Seq<u8>,
)
    requires
        0 <= i < fields.len() - 1,
        takes_fields(s, draft, system_search(), system_apply(), fields, rest),
        takes_fields(
            t,
            draft,
            system_search(),
            system_apply(),
            exchanged(fields, i),
            rest,
        ),
        fields[i].slot() != fields[i + 1].slot(),
    ensures
        spec_sweep(s, draft, system_search(), system_apply()) == spec_sweep(
            t,
            draft,
            system_search(),
            system_apply(),
        ),
{
    let apply = system_apply();
    assert forall|d: SystemBuilderModel| #[trigger]
        apply(apply(d, fields[i]), fields[i + 1]) == apply(apply(d, fields[i + 1]), fields[i]) by {
        lemma_system_fields_commute(d, fields[i], fields[i + 1]);
    }
    lemma_sweep_order(s, t, draft, system_search(), apply, fields, i, rest);
}

/// Validation of a system. A text that gives no field for a required slot,
/// read into a draft that lacks it, is read to its end and then fails: hard,
/// with a validation error that names the record as `system` and, as the
/// field, the first required field in declaration order that the draft lacks.
pub proof fn lemma_system_missing(
    s: Seq<u8>,
    draft: SystemBuilderModel,
    fields: Seq<SystemField>,
    rest: Seq<u8>,
    slot: nat,
)
    requires
        takes_fields(s, draft, system_search(), system_apply(), fields, rest),
        system_search()(
            rest,
            fold_fields(draft, fields, system_apply()),
        ) is Nothing,
        SystemField::is_required(slot),
        draft.lacks(slot),
        forall|i: int| 0 <= i < fields.len() ==> (#[trigger] fields[i]).slot() != slot,
    ensures
        ({
            let full = fold_fields(draft, fields, system_apply());
            &&& spec_sweep(s, draft, system_search(), system_apply()) == Ok::<
                (Seq<u8>, SystemBuilderModel),
                ErrorModel,
            >((rest, full))
            &&& full.lacks(slot)
            &&& full.missing() is Some
            &&& full.finish(rest) == invalid::<SystemModel>(rest, "system", full.missing()->0)
        }),
{
    let apply = system_apply();
    let full = fold_fields(draft, fields, apply);
    lemma_sweep_by_fields(s, draft, system_search(), apply, fields, rest);
    assert forall|d: SystemBuilderModel, f: SystemField|
        f.slot() != slot implies #[trigger] apply(d, f).lacks(slot) == d.lacks(slot) by {
        lemma_system_field_fills(d, f, slot);
    }
    lemma_fold_leaves_empty(
        draft,
        fields,
        apply,
        |f: SystemField| f.slot(),
        |d: SystemBuilderModel, k: nat| d.lacks(k),
        slot,
    );
    lemma_system_field_fills(full, arbitrary(), slot);
}

/// Order independence of the fields of an object with its fields at `depth`.
/// Two texts that give the same fields, but for two neighbours of different
/// slots that are exchanged, and that go on alike behind the fields, are read
/// to the same end: the same draft, before the same rest, and so the same
/// record.
pub proof fn lemma_object_order(
    depth: nat,
    s: Seq<u8>,
    t: Seq<u8>,
    draft: SystemObjectBuilderModel,
    fields: Seq<SystemObjectField>,
    i: int,
    rest: Seq<u8>,
)
    requires
        0 <= i < fields.len() - 1,
        takes_fields(s, draft, object_search(depth), object_apply(), fields, rest),
        takes_fields(
            t,
            draft,
            object_search(depth),
            object_apply(),
            exchanged(fields, i),
            rest,
        ),
        fields[i].slot() != fields[i + 1].slot(),
    ensures
        spec_sweep(s, draft, object_search(depth), object_apply()) == spec_sweep(
            t,
            draft,
            object_search(depth),
            object_apply(),
        ),
{
    let apply = object_apply();
    assert forall|d: SystemObjectBuilderModel| #[trigger]
        apply(apply(d, fields[i]), fields[i + 1]) == apply(apply(d, fields[i + 1]), fields[i]) by {
        lemma_system_object_fields_commute(d, fields[i], fields[i + 1]);
    }
    lemma_sweep_order(s, t, draft, object_search(depth), apply, fields, i, rest);
}

/// Validation of an object with its fields at `depth`. A text that gives no
/// field for a required slot, read into a draft that lacks it, is read to its
/// end and then fails: hard, with a validation error that names the record as
/// `object` and, as the field, the first required field in declaration order
/// that the draft lacks.
pub proof fn lemma_object_missing(
    depth: nat,
    s: Seq<u8>,
    draft: SystemObjectBuilderModel,
    fields: Seq<SystemObjectField>,
    rest: Seq<u8>,
    slot: nat,
)
    requires
        takes_fields(s, draft, object_search(depth), object_apply(), fields, rest),
        object_search(depth)(
            rest,
            fold_fields(draft, fields, object_apply()),
        ) is Nothing,
        SystemObjectField::is_required(slot),
        draft.lacks(slot),
        forall|i: int| 0 <= i < fields.len() ==> (#[trigger] fields[i]).slot() != slot,
    ensures
        ({
            let full = fold_fields(draft, fields, object_apply());
            &&& spec_sweep(s, draft, object_search(depth), object_apply()) == Ok::<
                (Seq<u8>, SystemObjectBuilderModel),
                ErrorModel,
            >((rest, full))
            &&& full.lacks(slot)
            &&& full.missing() is Some
            &&& full.finish(rest) == invalid::<SystemObjectModel>(rest, "object", full.missing()->0)
        }),
{
    let apply = object_apply();
    let full = fold_fields(draft, fields, apply);
    lemma_sweep_by_fields(s, draft, object_search(depth), apply, fields, rest);
    assert forall|d: SystemObjectBuilderModel, f: SystemObjectField|
        f.slot() != slot implies #[trigger] apply(d, f).lacks(slot) == d.lacks(slot) by {
        lemma_system_object_field_fills(d, f, slot);
    }
    lemma_fold_leaves_empty(
        draft,
        fields,
        apply,
        |f: SystemObjectField| f.slot(),
        |d: SystemObjectBuilderModel, k: nat| d.lacks(k),
        slot,
    );
    lemma_system_object_field_fills(full, arbitrary(), slot);
}

/// Order independence of the fields of a planet. Two texts that give the same
/// fields, but for two neighbours of different slots that are exchanged, and
/// that go on alike behind the fields, are read to the same end: the same
/// draft, before the same rest, and so the same record.
pub proof fn lemma_planet_order(
    s: Seq<u8>,
    t: Seq<u8>,
    draft: PlanetBuilderModel,
    fields: Seq<PlanetField>,
    i: int,
    rest: Seq<u8>,
)
    requires
        0 <= i < fields.len() - 1,
        takes_fields(s, draft, planet_search(), planet_apply(), fields, rest),
        takes_fields(
            t,
            draft,
            planet_search(),
            planet_apply(),
            exchanged(fields, i),
            rest,
        ),
        fields[i].slot() != fields[i + 1].slot(),
    ensures
        spec_sweep(s, draft, planet_search(), planet_apply()) == spec_sweep(
            t,
            draft,
            planet_search(),
            planet_apply(),
        ),
{
    let apply = planet_apply();
    assert forall|d: PlanetBuilderModel| #[trigger]
        apply(apply(d, fields[i]), fields[i + 1]) == apply(apply(d, fields[i + 1]), fields[i]) by {
        lemma_planet_fields_commute(d, fields[i], fields[i + 1]);
    }
    lemma_sweep_order(s, t, draft, planet_search(), apply, fields, i, rest);
}

/// Validation of a planet. A text that gives no field for a required slot,
/// read into a draft that lacks it, is read to its end and then fails: hard,
/// with a validation error that names the record as `planet` and, as the
/// field, the first required field in declaration order that the draft lacks.
pub proof fn lemma_planet_missing(
    s: Seq<u8>,
    draft: PlanetBuilderModel,
    fields: Seq<PlanetField>,
    rest: Seq<u8>,
    slot: nat,
)
    requires
        takes_fields(s, draft, planet_search(), planet_apply(), fields, rest),
        planet_search()(
            rest,
            fold_fields(draft, fields, planet_apply()),
        ) is Nothing,
        PlanetField::is_required(slot),
        draft.lacks(slot),
        forall|i: int| 0 <= i < fields.len() ==> (#[trigger] fields[i]).slot() != slot,
    ensures
        ({
            let full = fold_fields(draft, fields, planet_apply());
            &&& spec_sweep(s, draft, planet_search(), planet_apply()) == Ok::<
                (Seq<u8>, PlanetBuilderModel),
                ErrorModel,
            >((rest, full))
            &&& full.lacks(slot)
            &&& full.missing() is Some
            &&& full.finish(rest) == invalid::<PlanetModel>(rest, "planet", full.missing()->0)
        }),
{
    let apply = planet_apply();
    let full = fold_fields(draft, fields, apply);
    lemma_sweep_by_fields(s, draft, planet_search(), apply, fields, rest);
    assert forall|d: PlanetBuilderModel, f: PlanetField|
        f.slot() != slot implies #[trigger] apply(d, f).lacks(slot) == d.lacks(slot) by {
        lemma_planet_field_fills(d, f, slot);
    }
    lemma_fold_leaves_empty(
        draft,
        fields,
        apply,
        |f: PlanetField| f.slot(),
        |d: PlanetBuilderModel, k: nat| d.lacks(k),
        slot,
    );
    lemma_planet_field_fills(full, arbitrary(), slot);
}

/// Order independence of the fields of a tribute. Two texts that give the
/// same fields, but for two neighbours of different slots that are exchanged,
/// and that go on alike behind the fields, are read to the same end: the same
/// draft, before the same rest, and so the same record.
pub proof fn lemma_tribute_order(
    s: Seq<u8>,
    t: Seq<u8>,
    draft: TributeBuilderModel,
    fields: Seq<TributeField>,
    i: int,
    rest: Seq<u8>,
)
    requires
        0 <= i < fields.len() - 1,
        takes_fields(s, draft, tribute_search(), tribute_apply(), fields, rest),
        takes_fields(
            t,
            draft,
            tribute_search(),
            tribute_apply(),
            exchanged(fields, i),
            rest,
        ),
        fields[i].slot() != fields[i + 1].slot(),
    ensures
        spec_sweep(s, draft, tribute_search(), tribute_apply()) == spec_sweep(
            t,
            draft,
            tribute_search(),
            tribute_apply(),
        ),
{
    let apply = tribute_apply();
    assert forall|d: TributeBuilderModel| #[trigger]
        apply(apply(d, fields[i]), fields[i + 1]) == apply(apply(d, fields[i + 1]), fields[i]) by {
        lemma_tribute_fields_commute(d, fields[i], fields[i + 1]);
    }
    lemma_sweep_order(s, t, draft, tribute_search(), apply, fields, i, rest);
}

/// Validation of a tribute. A text that gives no field for a required slot,
/// read into a draft that lacks it, is read to its end and then fails: hard,
/// with a validation error that names the record as `tribute` and, as the
/// field, the first required field in declaration order that the draft lacks.
pub proof fn lemma_tribute_missing(
    s: Seq<u8>,
    draft: TributeBuilderModel,
    fields: Seq<TributeField>,
    rest: Seq<u8>,
    slot: nat,
)
    requires
        takes_fields(s, draft, tribute_search(), tribute_apply(), fields, rest),
        tribute_search()(
            rest,
            fold_fields(draft, fields, tribute_apply()),
        ) is Nothing,
        TributeField::is_required(slot),
        draft.lacks(slot),
        forall|i: int| 0 <= i < fields.len() ==> (#[trigger] fields[i]).slot() != slot,
    ensures
        ({
            let full = fold_fields(draft, fields, tribute_apply());
            &&& spec_sweep(s, draft, tribute_search(), tribute_apply()) == Ok::<
                (Seq<u8>, TributeBuilderModel),
                ErrorModel,
            >((rest, full))
            &&& full.lacks(slot)
            &&& full.missing() is Some
            &&& full.finish(rest) == invalid::<TributeModel>(rest, "tribute", full.missing()->0)
        }),
{
    let apply = tribute_apply();
    let full = fold_fields(draft, fields, apply);
    lemma_sweep_by_fields(s, draft, tribute_search(), apply, fields, rest);
    assert forall|d: TributeBuilderModel, f: TributeField|
        f.slot() != slot implies #[trigger] apply(d, f).lacks(slot) == d.lacks(slot) by {
        lemma_tribute_field_fills(d, f, slot);
    }
    lemma_fold_leaves_empty(
        draft,
        fields,
        apply,
        |f: TributeField| f.slot(),
        |d: TributeBuilderModel, k: nat| d.lacks(k),
        slot,
    );
    lemma_tribute_field_fills(full, arbitrary(), slot);
}

/// Order independence of the fields of a ship. Two texts that give the same
/// fields, but for two neighbours of different slots that are exchanged, and
/// that go on alike behind the fields, are read to the same end: the same
/// draft, before the same rest, and so the same record.
pub proof fn lemma_ship_order(
    s: Seq<u8>,
    t: Seq<u8>,
    draft: ShipBuilderModel,
    fields: Seq<ShipField>,
    i: int,
    rest: Seq<u8>,
)
    requires
        0 <= i < fields.len() - 1,
        takes_fields(s, draft, ship_search(), ship_apply(), fields, rest),
        takes_fields(
            t,
            draft,
            ship_search(),
            ship_apply(),
            exchanged(fields, i),
            rest,
        ),
        fields[i].slot() != fields[i + 1].slot(),
    ensures
        spec_sweep(s, draft, ship_search(), ship_apply()) == spec_sweep(
            t,
            draft,
            ship_search(),
            ship_apply(),
        ),
{
    let apply = ship_apply();
    assert forall|d: ShipBuilderModel| #[trigger]
        apply(apply(d, fields[i]), fields[i + 1]) == apply(apply(d, fields[i + 1]), fields[i]) by {
        lemma_ship_fields_commute(d, fields[i], fields[i + 1]);
    }
    lemma_sweep_order(s, t, draft, ship_search(), apply, fields, i, rest);
}

/// Validation of a ship. A text that gives no field for a required slot, read
/// into a draft that lacks it, is read to its end and then fails: hard, with
/// a validation error that names the record as `ship` and, as the field, the
/// first required field in declaration order that the draft lacks.
pub proof fn lemma_ship_missing(
    s: Seq<u8>,
    draft: ShipBuilderModel,
    fields: Seq<ShipField>,
    rest: Seq<u8>,
    slot: nat,
)
    requires
        takes_fields(s, draft, ship_search(), ship_apply(), fields, rest),
        ship_search()(
            rest,
            fold_fields(draft, fields, ship_apply()),
        ) is Nothing,
        ShipField::is_required(slot),
        draft.lacks(slot),
        forall|i: int| 0 <= i < fields.len() ==> (#[trigger] fields[i]).slot() != slot,
    ensures
        ({
            let full = fold_fields(draft, fields, ship_apply());
            &&& spec_sweep(s, draft, ship_search(), ship_apply()) == Ok::<
                (Seq<u8>, ShipBuilderModel),
                ErrorModel,
            >((rest, full))
            &&& full.lacks(slot)
            &&& full.missing() is Some
            &&& full.finish(rest) == invalid::<ShipModel>(rest, "ship", full.missing()->0)
        }),
{
    let apply = ship_apply();
    let full = fold_fields(draft, fields, apply);
    lemma_sweep_by_fields(s, draft, ship_search(), apply, fields, rest);
    assert forall|d: ShipBuilderModel, f: ShipField|
        f.slot() != slot implies #[trigger] apply(d, f).lacks(slot) == d.lacks(slot) by {
        lemma_ship_field_fills(d, f, slot);
    }
    lemma_fold_leaves_empty(
        draft,
        fields,
        apply,
        |f: ShipField| f.slot(),
        |d: ShipBuilderModel, k: nat| d.lacks(k),
        slot,
    );
    lemma_ship_field_fills(full, arbitrary(), slot);
}

/// Order independence of the fields of a ship's attributes. Two texts that
/// give the same fields, but for two neighbours of different slots that are
/// exchanged, and that go on alike behind the fields, are read to the same
/// end: the same draft, before the same rest, and so the same record.
pub proof fn lemma_ship_attributes_order(
    s: Seq<u8>,
    t: Seq<u8>,
    draft: ShipAttributesBuilderModel,
    fields: Seq<ShipAttributesField>,
    i: int,
    rest: Seq<u8>,
)
    requires
        0 <= i < fields.len() - 1,
        takes_fields(s, draft, ship_attributes_search(), ship_attributes_apply(), fields, rest),
        takes_fields(
            t,
            draft,
            ship_attributes_search(),
            ship_attributes_apply(),
            exchanged(fields, i),
            rest,
        ),
        fields[i].slot() != fields[i + 1].slot(),
    ensures
        spec_sweep(s, draft, ship_attributes_search(), ship_attributes_apply()) == spec_sweep(
            t,
            draft,
            ship_attributes_search(),
            ship_attributes_apply(),
        ),
{
    let apply = ship_attributes_apply();
    assert forall|d: ShipAttributesBuilderModel| #[trigger]
        apply(apply(d, fields[i]), fields[i + 1]) == apply(apply(d, fields[i + 1]), fields[i]) by {
        lemma_ship_attributes_fields_commute(d, fields[i], fields[i + 1]);
    }
    lemma_sweep_order(s, t, draft, ship_attributes_search(), apply, fields, i, rest);
}

/// Validation of a ship's attributes. A text that gives no field for a
/// required slot, read into a draft that lacks it, is read to its end and
/// then fails: hard, with a validation error that names the record as `ship
/// attributes` and, as the field, the first required field in declaration
/// order that the draft lacks.
pub proof fn lemma_ship_attributes_missing(
    s: Seq<u8>,
    draft: ShipAttributesBuilderModel,
    fields: Seq<ShipAttributesField>,
    rest: Seq<u8>,
    slot: nat,
)
    requires
        takes_fields(s, draft, ship_attributes_search(), ship_attributes_apply(), fields, rest),
        ship_attributes_search()(
            rest,
            fold_fields(draft, fields, ship_attributes_apply()),
        ) is Nothing,
        ShipAttributesField::is_required(slot),
        draft.lacks(slot),
        forall|i: int| 0 <= i < fields.len() ==> (#[trigger] fields[i]).slot() != slot,
    ensures
        ({
            let full = fold_fields(draft, fields, ship_attributes_apply());
            &&& spec_sweep(s, draft, ship_attributes_search(), ship_attributes_apply()) == Ok::<
                (Seq<u8>, ShipAttributesBuilderModel),
                ErrorModel,
            >((rest, full))
            &&& full.lacks(slot)
            &&& full.missing() is Some
            &&& full.finish(rest) == invalid::<ShipAttributesModel>(
                rest,
                "ship attributes",
                full.missing()->0,
            )
        }),
{
    let apply = ship_attributes_apply();
    let full = fold_fields(draft, fields, apply);
    lemma_sweep_by_fields(s, draft, ship_attributes_search(), apply, fields, rest);
    assert forall|d: ShipAttributesBuilderModel, f: ShipAttributesField|
        f.slot() != slot implies #[trigger] apply(d, f).lacks(slot) == d.lacks(slot) by {
        lemma_ship_attributes_field_fills(d, f, slot);
    }
    lemma_fold_leaves_empty(
        draft,
        fields,
        apply,
        |f: ShipAttributesField| f.slot(),
        |d: ShipAttributesBuilderModel, k: nat| d.lacks(k),
        slot,
    );
    lemma_ship_attributes_field_fills(full, arbitrary(), slot);
}

/// Order independence of the fields of a ship's weapon. Two texts that give
/// the same fields, but for two neighbours of different slots that are
/// exchanged, and that go on alike behind the fields, are read to the same
/// end: the same draft, before the same rest, and so the same record.
pub proof fn lemma_ship_weapon_order(
    s: Seq<u8>,
    t: Seq<u8>,
    draft: ShipWeaponBuilderModel,
    fields: Seq<ShipWeaponField>,
    i: int,
    rest: Seq<u8>,
)
    requires
        0 <= i < fields.len() - 1,
        takes_fields(s, draft, ship_weapon_search(), ship_weapon_apply(), fields, rest),
        takes_fields(
            t,
            draft,
            ship_weapon_search(),
            ship_weapon_apply(),
            exchanged(fields, i),
            rest,
        ),
        fields[i].slot() != fields[i + 1].slot(),
    ensures
        spec_sweep(s, draft, ship_weapon_search(), ship_weapon_apply()) == spec_sweep(
            t,
            draft,
            ship_weapon_search(),
            ship_weapon_apply(),
        ),
{
    let apply = ship_weapon_apply();
    assert forall|d: ShipWeaponBuilderModel| #[trigger]
        apply(apply(d, fields[i]), fields[i + 1]) == apply(apply(d, fields[i + 1]), fields[i]) by {
        lemma_ship_weapon_fields_commute(d, fields[i], fields[i + 1]);
    }
    lemma_sweep_order(s, t, draft, ship_weapon_search(), apply, fields, i, rest);
}

/// Validation of a ship's weapon. A text that gives no field for a required
/// slot, read into a draft that lacks it, is read to its end and then fails:
/// hard, with a validation error that names the record as `ship attributes -
/// weapon` and, as the field, the first required field in declaration order
/// that the draft lacks.
pub proof fn lemma_ship_weapon_missing(
    s: Seq<u8>,
    draft: ShipWeaponBuilderModel,
    fields: Seq<ShipWeaponField>,
    rest: Seq<u8>,
    slot: nat,
)
    requires
        takes_fields(s, draft, ship_weapon_search(), ship_weapon_apply(), fields, rest),
        ship_weapon_search()(
            rest,
            fold_fields(draft, fields, ship_weapon_apply()),
        ) is Nothing,
        ShipWeaponField::is_required(slot),
        draft.lacks(slot),
        forall|i: int| 0 <= i < fields.len() ==> (#[trigger] fields[i]).slot() != slot,
    ensures
        ({
            let full = fold_fields(draft, fields, ship_weapon_apply());
            &&& spec_sweep(s, draft, ship_weapon_search(), ship_weapon_apply()) == Ok::<
                (Seq<u8>, ShipWeaponBuilderModel),
                ErrorModel,
            >((rest, full))
            &&& full.lacks(slot)
            &&& full.missing() is Some
            &&& full.finish(rest) == invalid::<ShipWeapon>(
                rest,
                "ship attributes - weapon",
                full.missing()->0,
            )
        }),
{
    let apply = ship_weapon_apply();
    let full = fold_fields(draft, fields, apply);
    lemma_sweep_by_fields(s, draft, ship_weapon_search(), apply, fields, rest);
    assert forall|d: ShipWeaponBuilderModel, f: ShipWeaponField|
        f.slot() != slot implies #[trigger] apply(d, f).lacks(slot) == d.lacks(slot) by {
        lemma_ship_weapon_field_fills(d, f, slot);
    }
    lemma_fold_leaves_empty(
        draft,
        fields,
        apply,
        |f: ShipWeaponField| f.slot(),
        |d: ShipWeaponBuilderModel, k: nat| d.lacks(k),
        slot,
    );
    lemma_ship_weapon_field_fills(full, arbitrary(), slot);
}

/// Order independence of the fields of a start. Two texts that give the same
/// fields, but for two neighbours of different slots that are exchanged, and
/// that go on alike behind the fields, are read to the same end: the same
/// draft, before the same rest, and so the same record.
pub proof fn lemma_start_order(
    s: Seq<u8>,
    t: Seq<u8>,
    draft: StartBuilderModel,
    fields: Seq<StartField>,
    i: int,
    rest: Seq<u8>,
)
    requires
        0 <= i < fields.len() - 1,
        takes_fields(s, draft, start_search(), start_apply(), fields, rest),
        takes_fields(
            t,
            draft,
            start_search(),
            start_apply(),
            exchanged(fields, i),
            rest,
        ),
        fields[i].slot() != fields[i + 1].slot(),
    ensures
        spec_sweep(s, draft, start_search(), start_apply()) == spec_sweep(
            t,
            draft,
            start_search(),
            start_apply(),
        ),
{
    let apply = start_apply();
    assert forall|d: StartBuilderModel| #[trigger]
        apply(apply(d, fields[i]), fields[i + 1]) == apply(apply(d, fields[i + 1]), fields[i]) by {
        lemma_start_fields_commute(d, fields[i], fields[i + 1]);
    }
    lemma_sweep_order(s, t, draft, start_search(), apply, fields, i, rest);
}

/// Validation of a start. A text that gives no field for a required slot,
/// read into a draft that lacks it, is read to its end and then fails: hard,
/// with a validation error that names the record as `start` and, as the
/// field, the first required field in declaration order that the draft lacks.
pub proof fn lemma_start_missing(
    s: Seq<u8>,
    draft: StartBuilderModel,
    fields: Seq<StartField>,
    rest: Seq<u8>,
    slot: nat,
)
    requires
        takes_fields(s, draft, start_search(), start_apply(), fields, rest),
        start_search()(
            rest,
            fold_fields(draft, fields, start_apply()),
        ) is Nothing,
        StartField::is_required(slot),
        draft.lacks(slot),
        forall|i: int| 0 <= i < fields.len() ==> (#[trigger] fields[i]).slot() != slot,
    ensures
        ({
            let full = fold_fields(draft, fields, start_apply());
            &&& spec_sweep(s, draft, start_search(), start_apply()) == Ok::<
                (Seq<u8>, StartBuilderModel),
                ErrorModel,
            >((rest, full))
            &&& full.lacks(slot)
            &&& full.missing() is Some
            &&& full.finish(rest) == invalid::<StartModel>(rest, "start", full.missing()->0)
        }),
{
    let apply = start_apply();
    let full = fold_fields(draft, fields, apply);
    lemma_sweep_by_fields(s, draft, start_search(), apply, fields, rest);
    assert forall|d: StartBuilderModel, f: StartField|
        f.slot() != slot implies #[trigger] apply(d, f).lacks(slot) == d.lacks(slot) by {
        lemma_start_field_fills(d, f, slot);
    }
    lemma_fold_leaves_empty(
        draft,
        fields,
        apply,
        |f: StartField| f.slot(),
        |d: StartBuilderModel, k: nat| d.lacks(k),
        slot,
    );
    lemma_start_field_fills(full, arbitrary(), slot);
}

/// Order independence of the fields of an account. Two texts that give the
/// same fields, but for two neighbours of different slots that are exchanged,
/// and that go on alike behind the fields, are read to the same end: the same
/// draft, before the same rest, and so the same record.
pub proof fn lemma_account_order(
    s: Seq<u8>,
    t: Seq<u8>,
    draft: AccountBuilderModel,
    fields: Seq<AccountField>,
    i: int,
    rest: Seq<u8>,
)
    requires
        0 <= i < fields.len() - 1,
        takes_fields(s, draft, account_search(), account_apply(), fields, rest),
        takes_fields(
            t,
            draft,
            account_search(),
            account_apply(),
            exchanged(fields, i),
            rest,
        ),
        fields[i].slot() != fields[i + 1].slot(),
    ensures
        spec_sweep(s, draft, account_search(), account_apply()) == spec_sweep(
            t,
            draft,
            account_search(),
            account_apply(),
        ),
{
    let apply = account_apply();
    assert forall|d: AccountBuilderModel| #[trigger]
        apply(apply(d, fields[i]), fields[i + 1]) == apply(apply(d, fields[i + 1]), fields[i]) by {
        lemma_account_fields_commute(d, fields[i], fields[i + 1]);
    }
    lemma_sweep_order(s, t, draft, account_search(), apply, fields, i, rest);
}

/// Validation of an account. A text that gives no field for a required slot,
/// read into a draft that lacks it, is read to its end and then fails: hard,
/// with a validation error that names the record as `account` and, as the
/// field, the first required field in declaration order that the draft lacks.
pub proof fn lemma_account_missing(
    s: Seq<u8>,
    draft: AccountBuilderModel,
    fields: Seq<AccountField>,
    rest: Seq<u8>,
    slot: nat,
)
    requires
        takes_fields(s, draft, account_search(), account_apply(), fields, rest),
        account_search()(
            rest,
            fold_fields(draft, fields, account_apply()),
        ) is Nothing,
        AccountField::is_required(slot),
        draft.lacks(slot),
        forall|i: int| 0 <= i < fields.len() ==> (#[trigger] fields[i]).slot() != slot,
    ensures
        ({
            let full = fold_fields(draft, fields, account_apply());
            &&& spec_sweep(s, draft, account_search(), account_apply()) == Ok::<
                (Seq<u8>, AccountBuilderModel),
                ErrorModel,
            >((rest, full))
            &&& full.lacks(slot)
            &&& full.missing() is Some
            &&& full.finish(rest) == invalid::<AccountModel>(rest, "account", full.missing()->0)
        }),
{
    let apply = account_apply();
    let full = fold_fields(draft, fields, apply);
    lemma_sweep_by_fields(s, draft, account_search(), apply, fields, rest);
    assert forall|d: AccountBuilderModel, f: AccountField|
        f.slot() != slot implies #[trigger] apply(d, f).lacks(slot) == d.lacks(slot) by {
        lemma_account_field_fills(d, f, slot);
    }
    lemma_fold_leaves_empty(
        draft,
        fields,
        apply,
        |f: AccountField| f.slot(),
        |d: AccountBuilderModel, k: nat| d.lacks(k),
        slot,
    );
    lemma_account_field_fills(full, arbitrary(), slot);
}

/// Order independence of the fields of a mortgage. Two texts that give the
/// same fields, but for two neighbours of different slots that are exchanged,
/// and that go on alike behind the fields, are read to the same end: the same
/// draft, before the same rest, and so the same record.
pub proof fn lemma_mortgage_order(
    s: Seq<u8>,
    t: Seq<u8>,
    draft: MortgageBuilderModel,
    fields: Seq<MortgageField>,
    i: int,
    rest: Seq<u8>,
)
    requires
        0 <= i < fields.len() - 1,
        takes_fields(s, draft, mortgage_search(), mortgage_apply(), fields, rest),
        takes_fields(
            t,
            draft,
            mortgage_search(),
            mortgage_apply(),
            exchanged(fields, i),
            rest,
        ),
        fields[i].slot() != fields[i + 1].slot(),
    ensures
        spec_sweep(s, draft, mortgage_search(), mortgage_apply()) == spec_sweep(
            t,
            draft,
            mortgage_search(),
            mortgage_apply(),
        ),
{
    let apply = mortgage_apply();
    assert forall|d: MortgageBuilderModel| #[trigger]
        apply(apply(d, fields[i]), fields[i + 1]) == apply(apply(d, fields[i + 1]), fields[i]) by {
        lemma_mortgage_fields_commute(d, fields[i], fields[i + 1]);
    }
    lemma_sweep_order(s, t, draft, mortgage_search(), apply, fields, i, rest);
}

/// Validation of a mortgage. A text that gives no field for a required slot,
/// read into a draft that lacks it, is read to its end and then fails: hard,
/// with a validation error that names the record as `mortgage` and, as the
/// field, the first required field in declaration order that the draft lacks.
pub proof fn lemma_mortgage_missing(
    s: Seq<u8>,
    draft: MortgageBuilderModel,
    fields: Seq<MortgageField>,
    rest: Seq<u8>,
    slot: nat,
)
    requires
        takes_fields(s, draft, mortgage_search(), mortgage_apply(), fields, rest),
        mortgage_search()(
            rest,
            fold_fields(draft, fields, mortgage_apply()),
        ) is Nothing,
        MortgageField::is_required(slot),
        draft.lacks(slot),
        forall|i: int| 0 <= i < fields.len() ==> (#[trigger] fields[i]).slot() != slot,
    ensures
        ({
            let full = fold_fields(draft, fields, mortgage_apply());
            &&& spec_sweep(s, draft, mortgage_search(), mortgage_apply()) == Ok::<
                (Seq<u8>, MortgageBuilderModel),
                ErrorModel,
            >((rest, full))
            &&& full.lacks(slot)
            &&& full.missing() is Some
            &&& full.finish(rest) == invalid::<MortgageModel>(rest, "mortgage", full.missing()->0)
        }),
{
    let apply = mortgage_apply();
    let full = fold_fields(draft, fields, apply);
    lemma_sweep_by_fields(s, draft, mortgage_search(), apply, fields, rest);
    assert forall|d: MortgageBuilderModel, f: MortgageField|
        f.slot() != slot implies #[trigger] apply(d, f).lacks(slot) == d.lacks(slot) by {
        lemma_mortgage_field_fills(d, f, slot);
    }
    lemma_fold_leaves_empty(
        draft,
        fields,
        apply,
        |f: MortgageField| f.slot(),
        |d: MortgageBuilderModel, k: nat| d.lacks(k),
        slot,
    );
    lemma_mortgage_field_fills(full, arbitrary(), slot);
}

/// Soft and hard failures of a galaxy. Reading a galaxy fails softly in one
/// case only: the text does not begin with the keyword `galaxy`, and the
/// failure is the mismatch of that keyword at the start of the text. Behind
/// the keyword, reading succeeds or fails hard.
pub proof fn lemma_galaxy_soft_or_hard(s: Seq<u8>)
    ensures
        match spec_parse_galaxy(s) {
            Ok(_) => "galaxy".model().is_prefix_of(s),
            Err(FailureModel::Hard(_)) => "galaxy".model().is_prefix_of(s),
            Err(FailureModel::Soft(e)) => !"galaxy".model().is_prefix_of(s) && e
                == ErrorModel::Mismatch(
                Mismatch { remaining: s.len() as usize, context: Context::GalaxyTag },
            ),
        },
{
}

/// Soft and hard failures of a system. Reading a system fails softly in one
/// case only: the text does not begin with the keyword `system`, and the
/// failure is the mismatch of that keyword at the start of the text. Behind
/// the keyword, reading succeeds or fails hard.
pub proof fn lemma_system_soft_or_hard(s: Seq<u8>)
    ensures
        match spec_parse_system(s) {
            Ok(_) => "system".model().is_prefix_of(s),
            Err(FailureModel::Hard(_)) => "system".model().is_prefix_of(s),
            Err(FailureModel::Soft(e)) => !"system".model().is_prefix_of(s) && e
                == ErrorModel::Mismatch(
                Mismatch { remaining: s.len() as usize, context: Context::SystemTag },
            ),
        },
{
}

/// Soft and hard failures of a planet. Reading a planet fails softly in one
/// case only: the text does not begin with the keyword `planet`, and the
/// failure is the mismatch of that keyword at the start of the text. Behind
/// the keyword, reading succeeds or fails hard.
pub proof fn lemma_planet_soft_or_hard(s: Seq<u8>)
    ensures
        match spec_parse_planet(s) {
            Ok(_) => "planet".model().is_prefix_of(s),
            Err(FailureModel::Hard(_)) => "planet".model().is_prefix_of(s),
            Err(FailureModel::Soft(e)) => !"planet".model().is_prefix_of(s) && e
                == ErrorModel::Mismatch(
                Mismatch { remaining: s.len() as usize, context: Context::PlanetTag },
            ),
        },
{
}

/// Soft and hard failures of a ship. Reading a ship fails softly in one case
/// only: the text does not begin with the keyword `ship`, and the failure is
/// the mismatch of that keyword at the start of the text. Behind the keyword,
/// reading succeeds or fails hard.
pub proof fn lemma_ship_soft_or_hard(s: Seq<u8>)
    ensures
        match spec_parse_ship(s) {
            Ok(_) => "ship".model().is_prefix_of(s),
            Err(FailureModel::Hard(_)) => "ship".model().is_prefix_of(s),
            Err(FailureModel::Soft(e)) => !"ship".model().is_prefix_of(s) && e
                == ErrorModel::Mismatch(
                Mismatch { remaining: s.len() as usize, context: Context::ShipTag },
            ),
        },
{
}

/// Soft and hard failures of a start. Reading a start fails softly in one
/// case only: the text does not begin with the keyword `start`, and the
/// failure is the mismatch of that keyword at the start of the text. Behind
/// the keyword, reading succeeds or fails hard.
pub proof fn lemma_start_soft_or_hard(s: Seq<u8>)
    ensures
        match spec_parse_start(s) {
            Ok(_) => "start".model().is_prefix_of(s),
            Err(FailureModel::Hard(_)) => "start".model().is_prefix_of(s),
            Err(FailureModel::Soft(e)) => !"start".model().is_prefix_of(s) && e
                == ErrorModel::Mismatch(
                Mismatch { remaining: s.len() as usize, context: Context::StartTag },
            ),
        },
{
}

} // verus!
