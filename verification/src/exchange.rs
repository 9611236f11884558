//! Field lines that change places.
//!
//! For the fields that stand on a line of their own, the order of two
//! neighbouring lines does not matter: the text with the two lines the other
//! way round is read to the same end. This holds of the text itself, byte
//! for byte, and rests on what `locality` shows of every such line: it is
//! read alike wherever it stands.

use crate::builders::{
    lemma_account_field_fills, lemma_account_fields_commute, lemma_galaxy_field_fills,
    lemma_galaxy_fields_commute, lemma_mortgage_field_fills, lemma_mortgage_fields_commute,
    lemma_planet_fields_commute, lemma_ship_attributes_fields_commute, lemma_ship_fields_commute,
    lemma_ship_weapon_fields_commute, lemma_start_field_fills, lemma_start_fields_commute,
    lemma_system_field_fills, lemma_system_fields_commute, lemma_system_object_field_fills,
    lemma_system_object_fields_commute, lemma_tribute_field_fills, lemma_tribute_fields_commute,
    AccountBuilderModel, AccountField, GalaxyBuilderModel, GalaxyField, MortgageBuilderModel,
    MortgageField, PlanetBuilderModel, PlanetField, ShipAttributesBuilderModel,
    ShipAttributesField, ShipBuilderModel, ShipField, ShipWeaponBuilderModel, ShipWeaponField,
    StartBuilderModel, StartField, SystemBuilderModel, SystemField, SystemObjectBuilderModel,
    SystemObjectField, TributeBuilderModel, TributeField,
};
use crate::fields::{at_field, spec_sweep, taken};
use crate::galaxy::{galaxy_apply, galaxy_search};
use crate::helpers::spec_line_ending;
use crate::locality::{
    agree, blank_free, lemma_agree_front, lemma_date_steady, lemma_flag_steady, lemma_fleet_steady,
    lemma_item_local, lemma_item_shape, lemma_keyword, lemma_line_local, lemma_literal,
    lemma_number_closed, lemma_number_steady, lemma_other_keyword, lemma_other_peek,
    lemma_path_closed, lemma_path_steady, lemma_position_steady, lemma_string_closed,
    lemma_string_steady, lemma_u16_steady, lemma_u32_closed, lemma_u32_steady, lemma_u64_steady,
};
use crate::model::Model;
use crate::planet::{planet_apply, planet_search, tribute_apply, tribute_search};
use crate::ship::{
    ship_apply, ship_attributes_apply, ship_attributes_search, ship_search, ship_weapon_apply,
    ship_weapon_search,
};
use crate::start::{
    account_apply, account_search, mortgage_apply, mortgage_search, start_apply, start_search,
};
use crate::system::{object_apply, object_search, system_apply, system_search};
use crate::text::tail;
use crate::values::{
    date_rule, flag_rule, fleet_rule, number_rule, path_rule, position_rule, string_rule, u16_rule,
    u32_rule, u64_rule,
};
use vstd::prelude::*;
use vstd::string::*;

verus! {

/// The keywords of the lines of a galaxy hold no blank and differ from one
/// another.
pub proof fn lemma_galaxy_keywords()
    ensures
        blank_free("pos".model()),
        blank_free("sprite".model()),
        "pos".model() != "sprite".model(),
{
    reveal_strlit("pos");
    lemma_keyword("pos");
    reveal_strlit("sprite");
    lemma_keyword("sprite");
    assert("pos".model().len() != "sprite".model().len());
}

/// A line of a galaxy is read alike from texts that agree as far as the line
/// goes. Where the sweep reads a field from a line that takes up the first
/// `n` bytes of `s`, one of `pos`, `sprite`, it reads the same field from the
/// first `n` bytes of every text `t` that begins with them, into every draft
/// that lacks the field.
pub proof fn lemma_galaxy_line_moves(
    s: Seq<u8>,
    t: Seq<u8>,
    n: int,
    from: GalaxyBuilderModel,
    into: GalaxyBuilderModel,
    f: GalaxyField,
)
    requires
        taken(s, from, galaxy_search()) == Some((tail(s, n), f)),
        0 < n <= s.len(),
        agree(s, t, n),
        into.lacks(f.slot()),
    ensures
        taken(t, into, galaxy_search()) == Some((tail(t, n), f)),
        from.lacks(f.slot()),
{
    lemma_galaxy_keywords();
    if f is Pos {
        lemma_position_steady();
        lemma_line_local(s, t, n, 1, "pos".model(), position_rule());
        lemma_other_keyword(t, 1, "pos".model(), "sprite".model(), position_rule(), path_rule());
    } else if f is Sprite {
        lemma_path_steady();
        lemma_line_local(s, t, n, 1, "sprite".model(), path_rule());
        lemma_other_keyword(t, 1, "sprite".model(), "pos".model(), path_rule(), position_rule());
    }
}

/// Two lines of a galaxy can change places. Where the fields come on the line
/// `first` and, next, on the line `second`, each of them one of `pos`,
/// `sprite`, the text that holds the two lines the other way round is read to
/// the same end: the same draft, before the same rest.
pub proof fn lemma_galaxy_lines_exchange(
    first: Seq<u8>,
    second: Seq<u8>,
    rest: Seq<u8>,
    draft: GalaxyBuilderModel,
    f: GalaxyField,
    g: GalaxyField,
)
    requires
        taken(first + (second + rest), draft, galaxy_search()) == Some((second + rest, f)),
        taken(second + rest, draft.with(f), galaxy_search()) == Some((rest, g)),
    ensures
        spec_sweep(
            second + (first + rest),
            draft,
            galaxy_search(),
            galaxy_apply(),
        ) == spec_sweep(
            first + (second + rest),
            draft,
            galaxy_search(),
            galaxy_apply(),
        ),
{
    let a = first + (second + rest);
    let b = second + (first + rest);
    let m = second + rest;
    let e = first + rest;
    let search = galaxy_search();
    let apply = galaxy_apply();
    lemma_agree_front(first, m, rest);
    lemma_agree_front(second, rest, e);
    lemma_agree_front(second, e, rest);
    lemma_agree_front(first, rest, m);
    lemma_galaxy_field_fills(draft, f, g.slot());
    lemma_galaxy_field_fills(draft, g, f.slot());
    lemma_galaxy_line_moves(m, b, second.len() as int, draft.with(f), draft, g);
    lemma_galaxy_line_moves(a, e, first.len() as int, draft, draft.with(g), f);
    lemma_galaxy_fields_commute(draft, f, g);
    assert(taken(b, draft, search) == Some((e, g)));
    assert(taken(e, apply(draft, g), search) == Some((rest, f)));
    assert(spec_sweep(b, draft, search, apply) == spec_sweep(
        rest,
        apply(apply(draft, g), f),
        search,
        apply,
    )) by {
        reveal_with_fuel(spec_sweep, 3);
    }
    assert(spec_sweep(a, draft, search, apply) == spec_sweep(
        rest,
        apply(apply(draft, f), g),
        search,
        apply,
    )) by {
        reveal_with_fuel(spec_sweep, 3);
    }
}

/// The keywords of the lines of a mortgage hold no blank and differ from one
/// another.
pub proof fn lemma_mortgage_keywords()
    ensures
        blank_free("principal".model()),
        blank_free("interest".model()),
        blank_free("term".model()),
        "principal".model() != "interest".model(),
        "principal".model() != "term".model(),
        "interest".model() != "term".model(),
{
    reveal_strlit("principal");
    lemma_keyword("principal");
    reveal_strlit("interest");
    lemma_keyword("interest");
    reveal_strlit("term");
    lemma_keyword("term");
    assert("principal".model().len() != "interest".model().len());
    assert("principal".model().len() != "term".model().len());
    assert("interest".model().len() != "term".model().len());
}

/// A line of a mortgage is read alike from texts that agree as far as the
/// line goes. Where the sweep reads a field from a line that takes up the
/// first `n` bytes of `s`, one of `principal`, `interest`, `term`, it reads
/// the same field from the first `n` bytes of every text `t` that begins with
/// them, into every draft that lacks the field.
pub proof fn lemma_mortgage_line_moves(
    s: Seq<u8>,
    t: Seq<u8>,
    n: int,
    from: MortgageBuilderModel,
    into: MortgageBuilderModel,
    f: MortgageField,
)
    requires
        taken(s, from, mortgage_search()) == Some((tail(s, n), f)),
        0 < n <= s.len(),
        agree(s, t, n),
        into.lacks(f.slot()),
    ensures
        taken(t, into, mortgage_search()) == Some((tail(t, n), f)),
        from.lacks(f.slot()),
{
    lemma_mortgage_keywords();
    if f is Principal {
        lemma_u64_steady();
        lemma_line_local(s, t, n, 3, "principal".model(), u64_rule());
        lemma_other_keyword(
            t,
            3,
            "principal".model(),
            "interest".model(),
            u64_rule(),
            number_rule(),
        );
        lemma_other_keyword(t, 3, "principal".model(), "term".model(), u64_rule(), u16_rule());
    } else if f is Interest {
        lemma_number_steady();
        lemma_line_local(s, t, n, 3, "interest".model(), number_rule());
        lemma_other_keyword(
            t,
            3,
            "interest".model(),
            "principal".model(),
            number_rule(),
            u64_rule(),
        );
        lemma_other_keyword(t, 3, "interest".model(), "term".model(), number_rule(), u16_rule());
    } else if f is Term {
        lemma_u16_steady();
        lemma_line_local(s, t, n, 3, "term".model(), u16_rule());
        lemma_other_keyword(t, 3, "term".model(), "principal".model(), u16_rule(), u64_rule());
        lemma_other_keyword(t, 3, "term".model(), "interest".model(), u16_rule(), number_rule());
    }
}

/// Two lines of a mortgage can change places. Where the fields come on the
/// line `first` and, next, on the line `second`, each of them one of
/// `principal`, `interest`, `term`, the text that holds the two lines the
/// other way round is read to the same end: the same draft, before the same
/// rest.
pub proof fn lemma_mortgage_lines_exchange(
    first: Seq<u8>,
    second: Seq<u8>,
    rest: Seq<u8>,
    draft: MortgageBuilderModel,
    f: MortgageField,
    g: MortgageField,
)
    requires
        taken(first + (second + rest), draft, mortgage_search()) == Some((second + rest, f)),
        taken(second + rest, draft.with(f), mortgage_search()) == Some((rest, g)),
    ensures
        spec_sweep(
            second + (first + rest),
            draft,
            mortgage_search(),
            mortgage_apply(),
        ) == spec_sweep(
            first + (second + rest),
            draft,
            mortgage_search(),
            mortgage_apply(),
        ),
{
    let a = first + (second + rest);
    let b = second + (first + rest);
    let m = second + rest;
    let e = first + rest;
    let search = mortgage_search();
    let apply = mortgage_apply();
    lemma_agree_front(first, m, rest);
    lemma_agree_front(second, rest, e);
    lemma_agree_front(second, e, rest);
    lemma_agree_front(first, rest, m);
    lemma_mortgage_field_fills(draft, f, g.slot());
    lemma_mortgage_field_fills(draft, g, f.slot());
    lemma_mortgage_line_moves(m, b, second.len() as int, draft.with(f), draft, g);
    lemma_mortgage_line_moves(a, e, first.len() as int, draft, draft.with(g), f);
    lemma_mortgage_fields_commute(draft, f, g);
    assert(taken(b, draft, search) == Some((e, g)));
    assert(taken(e, apply(draft, g), search) == Some((rest, f)));
    assert(spec_sweep(b, draft, search, apply) == spec_sweep(
        rest,
        apply(apply(draft, g), f),
        search,
        apply,
    )) by {
        reveal_with_fuel(spec_sweep, 3);
    }
    assert(spec_sweep(a, draft, search, apply) == spec_sweep(
        rest,
        apply(apply(draft, f), g),
        search,
        apply,
    )) by {
        reveal_with_fuel(spec_sweep, 3);
    }
}

/// The keywords of the lines of an account hold no blank and differ from one
/// another.
pub proof fn lemma_account_keywords()
    ensures
        blank_free("credits".model()),
        blank_free("score".model()),
        "credits".model() != "score".model(),
{
    reveal_strlit("credits");
    lemma_keyword("credits");
    reveal_strlit("score");
    lemma_keyword("score");
    assert("credits".model().len() != "score".model().len());
}

/// A line of an account is read alike from texts that agree as far as the
/// line goes. Where the sweep reads a field from a line that takes up the
/// first `n` bytes of `s`, one of `credits`, `score`, it reads the same field
/// from the first `n` bytes of every text `t` that begins with them, into
/// every draft that lacks the field.
pub proof fn lemma_account_line_moves(
    s: Seq<u8>,
    t: Seq<u8>,
    n: int,
    from: AccountBuilderModel,
    into: AccountBuilderModel,
    f: AccountField,
)
    requires
        taken(s, from, account_search()) == Some((tail(s, n), f)),
        0 < n <= s.len(),
        agree(s, t, n),
        into.lacks(f.slot()),
        f is Credits || f is Score,
    ensures
        taken(t, into, account_search()) == Some((tail(t, n), f)),
        from.lacks(f.slot()),
{
    lemma_account_keywords();
    if f is Credits {
        lemma_u64_steady();
        lemma_line_local(s, t, n, 2, "credits".model(), u64_rule());
        lemma_other_keyword(t, 2, "credits".model(), "score".model(), u64_rule(), u32_rule());
    } else if f is Score {
        lemma_u32_steady();
        lemma_line_local(s, t, n, 2, "score".model(), u32_rule());
        lemma_other_keyword(t, 2, "score".model(), "credits".model(), u32_rule(), u64_rule());
    }
}

/// Two lines of an account can change places. Where the fields come on the
/// line `first` and, next, on the line `second`, each of them one of
/// `credits`, `score`, the text that holds the two lines the other way round
/// is read to the same end: the same draft, before the same rest.
pub proof fn lemma_account_lines_exchange(
    first: Seq<u8>,
    second: Seq<u8>,
    rest: Seq<u8>,
    draft: AccountBuilderModel,
    f: AccountField,
    g: AccountField,
)
    requires
        taken(first + (second + rest), draft, account_search()) == Some((second + rest, f)),
        taken(second + rest, draft.with(f), account_search()) == Some((rest, g)),
        f is Credits || f is Score,
        g is Credits || g is Score,
    ensures
        spec_sweep(
            second + (first + rest),
            draft,
            account_search(),
            account_apply(),
        ) == spec_sweep(
            first + (second + rest),
            draft,
            account_search(),
            account_apply(),
        ),
{
    let a = first + (second + rest);
    let b = second + (first + rest);
    let m = second + rest;
    let e = first + rest;
    let search = account_search();
    let apply = account_apply();
    lemma_agree_front(first, m, rest);
    lemma_agree_front(second, rest, e);
    lemma_agree_front(second, e, rest);
    lemma_agree_front(first, rest, m);
    lemma_account_field_fills(draft, f, g.slot());
    lemma_account_field_fills(draft, g, f.slot());
    lemma_account_line_moves(m, b, second.len() as int, draft.with(f), draft, g);
    lemma_account_line_moves(a, e, first.len() as int, draft, draft.with(g), f);
    lemma_account_fields_commute(draft, f, g);
    assert(taken(b, draft, search) == Some((e, g)));
    assert(taken(e, apply(draft, g), search) == Some((rest, f)));
    assert(spec_sweep(b, draft, search, apply) == spec_sweep(
        rest,
        apply(apply(draft, g), f),
        search,
        apply,
    )) by {
        reveal_with_fuel(spec_sweep, 3);
    }
    assert(spec_sweep(a, draft, search, apply) == spec_sweep(
        rest,
        apply(apply(draft, f), g),
        search,
        apply,
    )) by {
        reveal_with_fuel(spec_sweep, 3);
    }
}

/// The keywords of the lines of a start hold no blank and differ from one
/// another.
pub proof fn lemma_start_keywords()
    ensures
        blank_free("system".model()),
        blank_free("planet".model()),
        blank_free("date".model()),
        blank_free("set".model()),
        "system".model() != "planet".model(),
        "system".model() != "date".model(),
        "system".model() != "set".model(),
        "planet".model() != "date".model(),
        "planet".model() != "set".model(),
        "date".model() != "set".model(),
{
    reveal_strlit("system");
    lemma_keyword("system");
    reveal_strlit("planet");
    lemma_keyword("planet");
    reveal_strlit("date");
    lemma_keyword("date");
    reveal_strlit("set");
    lemma_keyword("set");
    assert("system".model()[0] != "planet".model()[0]);
    assert("system".model().len() != "date".model().len());
    assert("system".model().len() != "set".model().len());
    assert("planet".model().len() != "date".model().len());
    assert("planet".model().len() != "set".model().len());
    assert("date".model().len() != "set".model().len());
}

/// A line of a start is read alike from texts that agree as far as the line
/// goes. Where the sweep reads a field from a line that takes up the first
/// `n` bytes of `s`, one of `system`, `planet`, `date`, `set`, it reads the
/// same field from the first `n` bytes of every text `t` that begins with
/// them, into every draft that lacks the field.
pub proof fn lemma_start_line_moves(
    s: Seq<u8>,
    t: Seq<u8>,
    n: int,
    from: StartBuilderModel,
    into: StartBuilderModel,
    f: StartField,
)
    requires
        taken(s, from, start_search()) == Some((tail(s, n), f)),
        0 < n <= s.len(),
        agree(s, t, n),
        into.lacks(f.slot()),
        f is System || f is Planet || f is Date || f is StartSet,
    ensures
        taken(t, into, start_search()) == Some((tail(t, n), f)),
        from.lacks(f.slot()),
{
    lemma_start_keywords();
    if f is System {
        lemma_string_steady();
        lemma_line_local(s, t, n, 1, "system".model(), string_rule());
        lemma_other_keyword(t, 1, "system".model(), "planet".model(), string_rule(), string_rule());
        lemma_other_keyword(t, 1, "system".model(), "date".model(), string_rule(), date_rule());
        lemma_other_keyword(t, 1, "system".model(), "set".model(), string_rule(), string_rule());
    } else if f is Planet {
        lemma_string_steady();
        lemma_line_local(s, t, n, 1, "planet".model(), string_rule());
        lemma_other_keyword(t, 1, "planet".model(), "system".model(), string_rule(), string_rule());
        lemma_other_keyword(t, 1, "planet".model(), "date".model(), string_rule(), date_rule());
        lemma_other_keyword(t, 1, "planet".model(), "set".model(), string_rule(), string_rule());
    } else if f is Date {
        lemma_date_steady();
        lemma_line_local(s, t, n, 1, "date".model(), date_rule());
        lemma_other_keyword(t, 1, "date".model(), "system".model(), date_rule(), string_rule());
        lemma_other_keyword(t, 1, "date".model(), "planet".model(), date_rule(), string_rule());
        lemma_other_keyword(t, 1, "date".model(), "set".model(), date_rule(), string_rule());
    } else if f is StartSet {
        lemma_string_steady();
        lemma_line_local(s, t, n, 1, "set".model(), string_rule());
        lemma_other_keyword(t, 1, "set".model(), "system".model(), string_rule(), string_rule());
        lemma_other_keyword(t, 1, "set".model(), "planet".model(), string_rule(), string_rule());
        lemma_other_keyword(t, 1, "set".model(), "date".model(), string_rule(), date_rule());
    }
}

/// Two lines of a start can change places. Where the fields come on the line
/// `first` and, next, on the line `second`, each of them one of `system`,
/// `planet`, `date`, `set`, the text that holds the two lines the other way
/// round is read to the same end: the same draft, before the same rest.
pub proof fn lemma_start_lines_exchange(
    first: Seq<u8>,
    second: Seq<u8>,
    rest: Seq<u8>,
    draft: StartBuilderModel,
    f: StartField,
    g: StartField,
)
    requires
        taken(first + (second + rest), draft, start_search()) == Some((second + rest, f)),
        taken(second + rest, draft.with(f), start_search()) == Some((rest, g)),
        f is System || f is Planet || f is Date || f is StartSet,
        g is System || g is Planet || g is Date || g is StartSet,
    ensures
        spec_sweep(
            second + (first + rest),
            draft,
            start_search(),
            start_apply(),
        ) == spec_sweep(
            first + (second + rest),
            draft,
            start_search(),
            start_apply(),
        ),
{
    let a = first + (second + rest);
    let b = second + (first + rest);
    let m = second + rest;
    let e = first + rest;
    let search = start_search();
    let apply = start_apply();
    lemma_agree_front(first, m, rest);
    lemma_agree_front(second, rest, e);
    lemma_agree_front(second, e, rest);
    lemma_agree_front(first, rest, m);
    lemma_start_field_fills(draft, f, g.slot());
    lemma_start_field_fills(draft, g, f.slot());
    lemma_start_line_moves(m, b, second.len() as int, draft.with(f), draft, g);
    lemma_start_line_moves(a, e, first.len() as int, draft, draft.with(g), f);
    lemma_start_fields_commute(draft, f, g);
    assert(taken(b, draft, search) == Some((e, g)));
    assert(taken(e, apply(draft, g), search) == Some((rest, f)));
    assert(spec_sweep(b, draft, search, apply) == spec_sweep(
        rest,
        apply(apply(draft, g), f),
        search,
        apply,
    )) by {
        reveal_with_fuel(spec_sweep, 3);
    }
    assert(spec_sweep(a, draft, search, apply) == spec_sweep(
        rest,
        apply(apply(draft, f), g),
        search,
        apply,
    )) by {
        reveal_with_fuel(spec_sweep, 3);
    }
}

/// The keywords of the lines of a tribute hold no blank and differ from one
/// another.
pub proof fn lemma_tribute_keywords()
    ensures
        blank_free("threshold".model()),
        blank_free("fleet".model()),
        "threshold".model() != "fleet".model(),
{
    reveal_strlit("threshold");
    lemma_keyword("threshold");
    reveal_strlit("fleet");
    lemma_keyword("fleet");
    assert("threshold".model().len() != "fleet".model().len());
}

/// A line of a tribute is read alike from texts that agree as far as the line
/// goes. Where the sweep reads a field from a line that takes up the first
/// `n` bytes of `s`, one of `threshold`, `fleet`, it reads the same field
/// from the first `n` bytes of every text `t` that begins with them, into
/// every draft that lacks the field.
pub proof fn lemma_tribute_line_moves(
    s: Seq<u8>,
    t: Seq<u8>,
    n: int,
    from: TributeBuilderModel,
    into: TributeBuilderModel,
    f: TributeField,
)
    requires
        taken(s, from, tribute_search()) == Some((tail(s, n), f)),
        0 < n <= s.len(),
        agree(s, t, n),
        into.lacks(f.slot()),
    ensures
        taken(t, into, tribute_search()) == Some((tail(t, n), f)),
        from.lacks(f.slot()),
{
    lemma_tribute_keywords();
    if f is Threshold {
        lemma_u32_steady();
        lemma_line_local(s, t, n, 2, "threshold".model(), u32_rule());
        lemma_other_keyword(t, 2, "threshold".model(), "fleet".model(), u32_rule(), fleet_rule());
    } else if f is Fleet {
        lemma_fleet_steady();
        lemma_line_local(s, t, n, 2, "fleet".model(), fleet_rule());
        lemma_other_keyword(t, 2, "fleet".model(), "threshold".model(), fleet_rule(), u32_rule());
    }
}

/// Two lines of a tribute can change places. Where the fields come on the
/// line `first` and, next, on the line `second`, each of them one of
/// `threshold`, `fleet`, the text that holds the two lines the other way
/// round is read to the same end: the same draft, before the same rest.
pub proof fn lemma_tribute_lines_exchange(
    first: Seq<u8>,
    second: Seq<u8>,
    rest: Seq<u8>,
    draft: TributeBuilderModel,
    f: TributeField,
    g: TributeField,
)
    requires
        taken(first + (second + rest), draft, tribute_search()) == Some((second + rest, f)),
        taken(second + rest, draft.with(f), tribute_search()) == Some((rest, g)),
    ensures
        spec_sweep(
            second + (first + rest),
            draft,
            tribute_search(),
            tribute_apply(),
        ) == spec_sweep(
            first + (second + rest),
            draft,
            tribute_search(),
            tribute_apply(),
        ),
{
    let a = first + (second + rest);
    let b = second + (first + rest);
    let m = second + rest;
    let e = first + rest;
    let search = tribute_search();
    let apply = tribute_apply();
    lemma_agree_front(first, m, rest);
    lemma_agree_front(second, rest, e);
    lemma_agree_front(second, e, rest);
    lemma_agree_front(first, rest, m);
    lemma_tribute_field_fills(draft, f, g.slot());
    lemma_tribute_field_fills(draft, g, f.slot());
    lemma_tribute_line_moves(m, b, second.len() as int, draft.with(f), draft, g);
    lemma_tribute_line_moves(a, e, first.len() as int, draft, draft.with(g), f);
    lemma_tribute_fields_commute(draft, f, g);
    assert(taken(b, draft, search) == Some((e, g)));
    assert(taken(e, apply(draft, g), search) == Some((rest, f)));
    assert(spec_sweep(b, draft, search, apply) == spec_sweep(
        rest,
        apply(apply(draft, g), f),
        search,
        apply,
    )) by {
        reveal_with_fuel(spec_sweep, 3);
    }
    assert(spec_sweep(a, draft, search, apply) == spec_sweep(
        rest,
        apply(apply(draft, f), g),
        search,
        apply,
    )) by {
        reveal_with_fuel(spec_sweep, 3);
    }
}

/// The keywords of the lines of a system hold no blank and differ from one
/// another.
pub proof fn lemma_system_keywords()
    ensures
        blank_free("pos".model()),
        blank_free("government".model()),
        blank_free("habitable".model()),
        blank_free("belt".model()),
        blank_free("haze".model()),
        "pos".model() != "government".model(),
        "pos".model() != "habitable".model(),
        "pos".model() != "belt".model(),
        "pos".model() != "haze".model(),
        "government".model() != "habitable".model(),
        "government".model() != "belt".model(),
        "government".model() != "haze".model(),
        "habitable".model() != "belt".model(),
        "habitable".model() != "haze".model(),
        "belt".model() != "haze".model(),
{
    reveal_strlit("pos");
    lemma_keyword("pos");
    reveal_strlit("government");
    lemma_keyword("government");
    reveal_strlit("habitable");
    lemma_keyword("habitable");
    reveal_strlit("belt");
    lemma_keyword("belt");
    reveal_strlit("haze");
    lemma_keyword("haze");
    assert("pos".model().len() != "government".model().len());
    assert("pos".model().len() != "habitable".model().len());
    assert("pos".model().len() != "belt".model().len());
    assert("pos".model().len() != "haze".model().len());
    assert("government".model().len() != "habitable".model().len());
    assert("government".model().len() != "belt".model().len());
    assert("government".model().len() != "haze".model().len());
    assert("habitable".model().len() != "belt".model().len());
    assert("habitable".model().len() != "haze".model().len());
    assert("belt".model()[0] != "haze".model()[0]);
}

/// A line of a system is read alike from texts that agree as far as the line
/// goes. Where the sweep reads a field from a line that takes up the first
/// `n` bytes of `s`, one of `pos`, `government`, `habitable`, `belt`, `haze`,
/// it reads the same field from the first `n` bytes of every text `t` that
/// begins with them, into every draft that lacks the field.
pub proof fn lemma_system_line_moves(
    s: Seq<u8>,
    t: Seq<u8>,
    n: int,
    from: SystemBuilderModel,
    into: SystemBuilderModel,
    f: SystemField,
)
    requires
        taken(s, from, system_search()) == Some((tail(s, n), f)),
        0 < n <= s.len(),
        agree(s, t, n),
        into.lacks(f.slot()),
        f is Pos || f is Government || f is Habitable || f is Belt || f is Haze,
    ensures
        taken(t, into, system_search()) == Some((tail(t, n), f)),
        from.lacks(f.slot()),
{
    lemma_system_keywords();
    if f is Pos {
        lemma_position_steady();
        lemma_line_local(s, t, n, 1, "pos".model(), position_rule());
        lemma_other_keyword(
            t,
            1,
            "pos".model(),
            "government".model(),
            position_rule(),
            string_rule(),
        );
        lemma_other_keyword(
            t,
            1,
            "pos".model(),
            "habitable".model(),
            position_rule(),
            number_rule(),
        );
        lemma_other_keyword(t, 1, "pos".model(), "belt".model(), position_rule(), u32_rule());
        lemma_other_keyword(t, 1, "pos".model(), "haze".model(), position_rule(), path_rule());
    } else if f is Government {
        lemma_string_steady();
        lemma_line_local(s, t, n, 1, "government".model(), string_rule());
        lemma_other_keyword(
            t,
            1,
            "government".model(),
            "pos".model(),
            string_rule(),
            position_rule(),
        );
        lemma_other_keyword(
            t,
            1,
            "government".model(),
            "habitable".model(),
            string_rule(),
            number_rule(),
        );
        lemma_other_keyword(t, 1, "government".model(), "belt".model(), string_rule(), u32_rule());
        lemma_other_keyword(t, 1, "government".model(), "haze".model(), string_rule(), path_rule());
    } else if f is Habitable {
        lemma_number_steady();
        lemma_line_local(s, t, n, 1, "habitable".model(), number_rule());
        lemma_other_keyword(
            t,
            1,
            "habitable".model(),
            "pos".model(),
            number_rule(),
            position_rule(),
        );
        lemma_other_keyword(
            t,
            1,
            "habitable".model(),
            "government".model(),
            number_rule(),
            string_rule(),
        );
        lemma_other_keyword(t, 1, "habitable".model(), "belt".model(), number_rule(), u32_rule());
        lemma_other_keyword(t, 1, "habitable".model(), "haze".model(), number_rule(), path_rule());
    } else if f is Belt {
        lemma_u32_steady();
        lemma_line_local(s, t, n, 1, "belt".model(), u32_rule());
        lemma_other_keyword(t, 1, "belt".model(), "pos".model(), u32_rule(), position_rule());
        lemma_other_keyword(t, 1, "belt".model(), "government".model(), u32_rule(), string_rule());
        lemma_other_keyword(t, 1, "belt".model(), "habitable".model(), u32_rule(), number_rule());
        lemma_other_keyword(t, 1, "belt".model(), "haze".model(), u32_rule(), path_rule());
    } else if f is Haze {
        lemma_path_steady();
        lemma_line_local(s, t, n, 1, "haze".model(), path_rule());
        lemma_other_keyword(t, 1, "haze".model(), "pos".model(), path_rule(), position_rule());
        lemma_other_keyword(t, 1, "haze".model(), "government".model(), path_rule(), string_rule());
        lemma_other_keyword(t, 1, "haze".model(), "habitable".model(), path_rule(), number_rule());
        lemma_other_keyword(t, 1, "haze".model(), "belt".model(), path_rule(), u32_rule());
    }
}

/// Two lines of a system can change places. Where the fields come on the line
/// `first` and, next, on the line `second`, each of them one of `pos`,
/// `government`, `habitable`, `belt`, `haze`, the text that holds the two
/// lines the other way round is read to the same end: the same draft, before
/// the same rest.
pub proof fn lemma_system_lines_exchange(
    first: Seq<u8>,
    second: Seq<u8>,
    rest: Seq<u8>,
    draft: SystemBuilderModel,
    f: SystemField,
    g: SystemField,
)
    requires
        taken(first + (second + rest), draft, system_search()) == Some((second + rest, f)),
        taken(second + rest, draft.with(f), system_search()) == Some((rest, g)),
        f is Pos || f is Government || f is Habitable || f is Belt || f is Haze,
        g is Pos || g is Government || g is Habitable || g is Belt || g is Haze,
    ensures
        spec_sweep(
            second + (first + rest),
            draft,
            system_search(),
            system_apply(),
        ) == spec_sweep(
            first + (second + rest),
            draft,
            system_search(),
            system_apply(),
        ),
{
    let a = first + (second + rest);
    let b = second + (first + rest);
    let m = second + rest;
    let e = first + rest;
    let search = system_search();
    let apply = system_apply();
    lemma_agree_front(first, m, rest);
    lemma_agree_front(second, rest, e);
    lemma_agree_front(second, e, rest);
    lemma_agree_front(first, rest, m);
    lemma_system_field_fills(draft, f, g.slot());
    lemma_system_field_fills(draft, g, f.slot());
    lemma_system_line_moves(m, b, second.len() as int, draft.with(f), draft, g);
    lemma_system_line_moves(a, e, first.len() as int, draft, draft.with(g), f);
    lemma_system_fields_commute(draft, f, g);
    assert(taken(b, draft, search) == Some((e, g)));
    assert(taken(e, apply(draft, g), search) == Some((rest, f)));
    assert(spec_sweep(b, draft, search, apply) == spec_sweep(
        rest,
        apply(apply(draft, g), f),
        search,
        apply,
    )) by {
        reveal_with_fuel(spec_sweep, 3);
    }
    assert(spec_sweep(a, draft, search, apply) == spec_sweep(
        rest,
        apply(apply(draft, f), g),
        search,
        apply,
    )) by {
        reveal_with_fuel(spec_sweep, 3);
    }
}

/// The keywords of the lines of an object with its fields at `depth` hold no
/// blank and differ from one another.
pub proof fn lemma_object_keywords()
    ensures
        blank_free("sprite".model()),
        blank_free("distance".model()),
        blank_free("period".model()),
        blank_free("offset".model()),
        "sprite".model() != "distance".model(),
        "sprite".model() != "period".model(),
        "sprite".model() != "offset".model(),
        "distance".model() != "period".model(),
        "distance".model() != "offset".model(),
        "period".model() != "offset".model(),
{
    reveal_strlit("sprite");
    lemma_keyword("sprite");
    reveal_strlit("distance");
    lemma_keyword("distance");
    reveal_strlit("period");
    lemma_keyword("period");
    reveal_strlit("offset");
    lemma_keyword("offset");
    assert("sprite".model().len() != "distance".model().len());
    assert("sprite".model()[0] != "period".model()[0]);
    assert("sprite".model()[0] != "offset".model()[0]);
    assert("distance".model().len() != "period".model().len());
    assert("distance".model().len() != "offset".model().len());
    assert("period".model()[0] != "offset".model()[0]);
}

/// A line of an object with its fields at `depth` is read alike from texts
/// that agree as far as the line goes. Where the sweep reads a field from a
/// line that takes up the first `n` bytes of `s`, one of `sprite`,
/// `distance`, `period`, `offset`, it reads the same field from the first `n`
/// bytes of every text `t` that begins with them, into every draft that lacks
/// the field.
pub proof fn lemma_object_line_moves(
    depth: nat,
    s: Seq<u8>,
    t: Seq<u8>,
    n: int,
    from: SystemObjectBuilderModel,
    into: SystemObjectBuilderModel,
    f: SystemObjectField,
)
    requires
        taken(s, from, object_search(depth)) == Some((tail(s, n), f)),
        0 < n <= s.len(),
        agree(s, t, n),
        into.lacks(f.slot()),
        f is Sprite || f is Distance || f is Period || f is Offset,
    ensures
        taken(t, into, object_search(depth)) == Some((tail(t, n), f)),
        from.lacks(f.slot()),
{
    lemma_object_keywords();
    if f is Sprite {
        lemma_path_steady();
        lemma_line_local(s, t, n, depth, "sprite".model(), path_rule());
        lemma_other_keyword(
            t,
            depth,
            "sprite".model(),
            "distance".model(),
            path_rule(),
            number_rule(),
        );
        lemma_other_keyword(
            t,
            depth,
            "sprite".model(),
            "period".model(),
            path_rule(),
            number_rule(),
        );
        lemma_other_keyword(
            t,
            depth,
            "sprite".model(),
            "offset".model(),
            path_rule(),
            number_rule(),
        );
    } else if f is Distance {
        lemma_number_steady();
        lemma_line_local(s, t, n, depth, "distance".model(), number_rule());
        lemma_other_keyword(
            t,
            depth,
            "distance".model(),
            "sprite".model(),
            number_rule(),
            path_rule(),
        );
        lemma_other_keyword(
            t,
            depth,
            "distance".model(),
            "period".model(),
            number_rule(),
            number_rule(),
        );
        lemma_other_keyword(
            t,
            depth,
            "distance".model(),
            "offset".model(),
            number_rule(),
            number_rule(),
        );
    } else if f is Period {
        lemma_number_steady();
        lemma_line_local(s, t, n, depth, "period".model(), number_rule());
        lemma_other_keyword(
            t,
            depth,
            "period".model(),
            "sprite".model(),
            number_rule(),
            path_rule(),
        );
        lemma_other_keyword(
            t,
            depth,
            "period".model(),
            "distance".model(),
            number_rule(),
            number_rule(),
        );
        lemma_other_keyword(
            t,
            depth,
            "period".model(),
            "offset".model(),
            number_rule(),
            number_rule(),
        );
    } else if f is Offset {
        lemma_number_steady();
        lemma_line_local(s, t, n, depth, "offset".model(), number_rule());
        lemma_other_keyword(
            t,
            depth,
            "offset".model(),
            "sprite".model(),
            number_rule(),
            path_rule(),
        );
        lemma_other_keyword(
            t,
            depth,
            "offset".model(),
            "distance".model(),
            number_rule(),
            number_rule(),
        );
        lemma_other_keyword(
            t,
            depth,
            "offset".model(),
            "period".model(),
            number_rule(),
            number_rule(),
        );
    }
}

/// Two lines of an object with its fields at `depth` can change places. Where
/// the fields come on the line `first` and, next, on the line `second`, each
/// of them one of `sprite`, `distance`, `period`, `offset`, the text that
/// holds the two lines the other way round is read to the same end: the same
/// draft, before the same rest.
pub proof fn lemma_object_lines_exchange(
    depth: nat,
    first: Seq<u8>,
    second: Seq<u8>,
    rest: Seq<u8>,
    draft: SystemObjectBuilderModel,
    f: SystemObjectField,
    g: SystemObjectField,
)
    requires
        taken(first + (second + rest), draft, object_search(depth)) == Some((second + rest, f)),
        taken(second + rest, draft.with(f), object_search(depth)) == Some((rest, g)),
        f is Sprite || f is Distance || f is Period || f is Offset,
        g is Sprite || g is Distance || g is Period || g is Offset,
    ensures
        spec_sweep(
            second + (first + rest),
            draft,
            object_search(depth),
            object_apply(),
        ) == spec_sweep(
            first + (second + rest),
            draft,
            object_search(depth),
            object_apply(),
        ),
{
    let a = first + (second + rest);
    let b = second + (first + rest);
    let m = second + rest;
    let e = first + rest;
    let search = object_search(depth);
    let apply = object_apply();
    lemma_agree_front(first, m, rest);
    lemma_agree_front(second, rest, e);
    lemma_agree_front(second, e, rest);
    lemma_agree_front(first, rest, m);
    lemma_system_object_field_fills(draft, f, g.slot());
    lemma_system_object_field_fills(draft, g, f.slot());
    lemma_object_line_moves(depth, m, b, second.len() as int, draft.with(f), draft, g);
    lemma_object_line_moves(depth, a, e, first.len() as int, draft, draft.with(g), f);
    lemma_system_object_fields_commute(draft, f, g);
    assert(taken(b, draft, search) == Some((e, g)));
    assert(taken(e, apply(draft, g), search) == Some((rest, f)));
    assert(spec_sweep(b, draft, search, apply) == spec_sweep(
        rest,
        apply(apply(draft, g), f),
        search,
        apply,
    )) by {
        reveal_with_fuel(spec_sweep, 3);
    }
    assert(spec_sweep(a, draft, search, apply) == spec_sweep(
        rest,
        apply(apply(draft, f), g),
        search,
        apply,
    )) by {
        reveal_with_fuel(spec_sweep, 3);
    }
}

/// The bytes of the keywords of a planet.
pub proof fn lemma_planet_literals()
    ensures
        "attributes".model() == seq![
            0x61u8, 0x74u8, 0x74u8, 0x72u8, 0x69u8, 0x62u8, 0x75u8, 0x74u8, 0x65u8, 0x73u8,
        ],
        "landscape".model() == seq![
            0x6cu8, 0x61u8, 0x6eu8, 0x64u8, 0x73u8, 0x63u8, 0x61u8, 0x70u8, 0x65u8,
        ],
        "government".model() == seq![
            0x67u8, 0x6fu8, 0x76u8, 0x65u8, 0x72u8, 0x6eu8, 0x6du8, 0x65u8, 0x6eu8, 0x74u8,
        ],
        "description".model() == seq![
            0x64u8, 0x65u8, 0x73u8, 0x63u8, 0x72u8, 0x69u8, 0x70u8, 0x74u8, 0x69u8, 0x6fu8,
            0x6eu8,
        ],
        "music".model() == seq![0x6du8, 0x75u8, 0x73u8, 0x69u8, 0x63u8],
        "spaceport".model() == seq![
            0x73u8, 0x70u8, 0x61u8, 0x63u8, 0x65u8, 0x70u8, 0x6fu8, 0x72u8, 0x74u8,
        ],
        "shipyard".model() == seq![
            0x73u8, 0x68u8, 0x69u8, 0x70u8, 0x79u8, 0x61u8, 0x72u8, 0x64u8,
        ],
        "outfitter".model() == seq![
            0x6fu8, 0x75u8, 0x74u8, 0x66u8, 0x69u8, 0x74u8, 0x74u8, 0x65u8, 0x72u8,
        ],
        "bribe".model() == seq![0x62u8, 0x72u8, 0x69u8, 0x62u8, 0x65u8],
        "security".model() == seq![
            0x73u8, 0x65u8, 0x63u8, 0x75u8, 0x72u8, 0x69u8, 0x74u8, 0x79u8,
        ],
        "\"required reputation\"".model() == seq![
            0x22u8, 0x72u8, 0x65u8, 0x71u8, 0x75u8, 0x69u8, 0x72u8, 0x65u8, 0x64u8, 0x20u8,
            0x72u8, 0x65u8, 0x70u8, 0x75u8, 0x74u8, 0x61u8, 0x74u8, 0x69u8, 0x6fu8, 0x6eu8,
            0x22u8,
        ],
        "tribute".model() == seq![
            0x74u8, 0x72u8, 0x69u8, 0x62u8, 0x75u8, 0x74u8, 0x65u8,
        ],
{
    reveal_strlit("attributes");
    lemma_literal("attributes");
    assert("attributes".model() =~= seq![
        0x61u8, 0x74u8, 0x74u8, 0x72u8, 0x69u8, 0x62u8, 0x75u8, 0x74u8, 0x65u8, 0x73u8,
    ]);
    reveal_strlit("landscape");
    lemma_literal("landscape");
    assert("landscape".model() =~= seq![
        0x6cu8, 0x61u8, 0x6eu8, 0x64u8, 0x73u8, 0x63u8, 0x61u8, 0x70u8, 0x65u8,
    ]);
    reveal_strlit("government");
    lemma_literal("government");
    assert("government".model() =~= seq![
        0x67u8, 0x6fu8, 0x76u8, 0x65u8, 0x72u8, 0x6eu8, 0x6du8, 0x65u8, 0x6eu8, 0x74u8,
    ]);
    reveal_strlit("description");
    lemma_literal("description");
    assert("description".model() =~= seq![
        0x64u8, 0x65u8, 0x73u8, 0x63u8, 0x72u8, 0x69u8, 0x70u8, 0x74u8, 0x69u8, 0x6fu8,
        0x6eu8,
    ]);
    reveal_strlit("music");
    lemma_literal("music");
    assert("music".model() =~= seq![0x6du8, 0x75u8, 0x73u8, 0x69u8, 0x63u8]);
    reveal_strlit("spaceport");
    lemma_literal("spaceport");
    assert("spaceport".model() =~= seq![
        0x73u8, 0x70u8, 0x61u8, 0x63u8, 0x65u8, 0x70u8, 0x6fu8, 0x72u8, 0x74u8,
    ]);
    reveal_strlit("shipyard");
    lemma_literal("shipyard");
    assert("shipyard".model() =~= seq![
        0x73u8, 0x68u8, 0x69u8, 0x70u8, 0x79u8, 0x61u8, 0x72u8, 0x64u8,
    ]);
    reveal_strlit("outfitter");
    lemma_literal("outfitter");
    assert("outfitter".model() =~= seq![
        0x6fu8, 0x75u8, 0x74u8, 0x66u8, 0x69u8, 0x74u8, 0x74u8, 0x65u8, 0x72u8,
    ]);
    reveal_strlit("bribe");
    lemma_literal("bribe");
    assert("bribe".model() =~= seq![0x62u8, 0x72u8, 0x69u8, 0x62u8, 0x65u8]);
    reveal_strlit("security");
    lemma_literal("security");
    assert("security".model() =~= seq![
        0x73u8, 0x65u8, 0x63u8, 0x75u8, 0x72u8, 0x69u8, 0x74u8, 0x79u8,
    ]);
    reveal_strlit("\"required reputation\"");
    lemma_literal("\"required reputation\"");
    assert("\"required reputation\"".model() =~= seq![
        0x22u8, 0x72u8, 0x65u8, 0x71u8, 0x75u8, 0x69u8, 0x72u8, 0x65u8, 0x64u8, 0x20u8,
        0x72u8, 0x65u8, 0x70u8, 0x75u8, 0x74u8, 0x61u8, 0x74u8, 0x69u8, 0x6fu8, 0x6eu8,
        0x22u8,
    ]);
    reveal_strlit("tribute");
    lemma_literal("tribute");
    assert("tribute".model() =~= seq![0x74u8, 0x72u8, 0x69u8, 0x62u8, 0x75u8, 0x74u8, 0x65u8]);
}

/// Where the keyword `landscape` of a planet stands, none of the keywords
/// stands that the record looks for before it, and the keyword ends with no
/// line feed.
pub proof fn lemma_planet_keyword_landscape(s: Seq<u8>)
    requires
        at_field(s, 1, "landscape".model()),
    ensures
        "landscape".model().len() >= 1,
        "landscape".model().last() != 0x0a,
        !at_field(s, 1, "attributes".model()),
{
    lemma_planet_literals();
    lemma_other_peek(s, 1, "landscape".model(), "attributes".model(), 0);
}

/// Where the keyword `government` of a planet stands, none of the keywords
/// stands that the record looks for before it, and the keyword ends with no
/// line feed.
pub proof fn lemma_planet_keyword_government(s: Seq<u8>)
    requires
        at_field(s, 1, "government".model()),
    ensures
        "government".model().len() >= 1,
        "government".model().last() != 0x0a,
        !at_field(s, 1, "attributes".model()),
        !at_field(s, 1, "landscape".model()),
{
    lemma_planet_literals();
    lemma_other_peek(s, 1, "government".model(), "attributes".model(), 0);
    lemma_other_peek(s, 1, "government".model(), "landscape".model(), 0);
}

/// Where the keyword `music` of a planet stands, none of the keywords stands
/// that the record looks for before it, and the keyword ends with no line
/// feed.
pub proof fn lemma_planet_keyword_music(s: Seq<u8>)
    requires
        at_field(s, 1, "music".model()),
    ensures
        "music".model().len() >= 1,
        "music".model().last() != 0x0a,
        !at_field(s, 1, "attributes".model()),
        !at_field(s, 1, "landscape".model()),
        !at_field(s, 1, "government".model()),
        !at_field(s, 1, "description".model()),
{
    lemma_planet_literals();
    lemma_other_peek(s, 1, "music".model(), "attributes".model(), 0);
    lemma_other_peek(s, 1, "music".model(), "landscape".model(), 0);
    lemma_other_peek(s, 1, "music".model(), "government".model(), 0);
    lemma_other_peek(s, 1, "music".model(), "description".model(), 0);
}

/// Where the keyword `bribe` of a planet stands, none of the keywords stands
/// that the record looks for before it, and the keyword ends with no line
/// feed.
pub proof fn lemma_planet_keyword_bribe(s: Seq<u8>)
    requires
        at_field(s, 1, "bribe".model()),
    ensures
        "bribe".model().len() >= 1,
        "bribe".model().last() != 0x0a,
        !at_field(s, 1, "attributes".model()),
        !at_field(s, 1, "landscape".model()),
        !at_field(s, 1, "government".model()),
        !at_field(s, 1, "description".model()),
        !at_field(s, 1, "music".model()),
        !at_field(s, 1, "spaceport".model()),
        !at_field(s, 1, "shipyard".model()),
        !at_field(s, 1, "outfitter".model()),
{
    lemma_planet_literals();
    lemma_other_peek(s, 1, "bribe".model(), "attributes".model(), 0);
    lemma_other_peek(s, 1, "bribe".model(), "landscape".model(), 0);
    lemma_other_peek(s, 1, "bribe".model(), "government".model(), 0);
    lemma_other_peek(s, 1, "bribe".model(), "description".model(), 0);
    lemma_other_peek(s, 1, "bribe".model(), "music".model(), 0);
    lemma_other_peek(s, 1, "bribe".model(), "spaceport".model(), 0);
    lemma_other_peek(s, 1, "bribe".model(), "shipyard".model(), 0);
    lemma_other_peek(s, 1, "bribe".model(), "outfitter".model(), 0);
}

/// Where the keyword `security` of a planet stands, none of the keywords
/// stands that the record looks for before it, and the keyword ends with no
/// line feed.
pub proof fn lemma_planet_keyword_security(s: Seq<u8>)
    requires
        at_field(s, 1, "security".model()),
    ensures
        "security".model().len() >= 1,
        "security".model().last() != 0x0a,
        !at_field(s, 1, "attributes".model()),
        !at_field(s, 1, "landscape".model()),
        !at_field(s, 1, "government".model()),
        !at_field(s, 1, "description".model()),
        !at_field(s, 1, "music".model()),
        !at_field(s, 1, "spaceport".model()),
        !at_field(s, 1, "shipyard".model()),
        !at_field(s, 1, "outfitter".model()),
        !at_field(s, 1, "bribe".model()),
{
    lemma_planet_literals();
    lemma_other_peek(s, 1, "security".model(), "attributes".model(), 0);
    lemma_other_peek(s, 1, "security".model(), "landscape".model(), 0);
    lemma_other_peek(s, 1, "security".model(), "government".model(), 0);
    lemma_other_peek(s, 1, "security".model(), "description".model(), 0);
    lemma_other_peek(s, 1, "security".model(), "music".model(), 0);
    lemma_other_peek(s, 1, "security".model(), "spaceport".model(), 1);
    lemma_other_peek(s, 1, "security".model(), "shipyard".model(), 1);
    lemma_other_peek(s, 1, "security".model(), "outfitter".model(), 0);
    lemma_other_peek(s, 1, "security".model(), "bribe".model(), 0);
}

/// Where the keyword `"required reputation"` of a planet stands, none of the
/// keywords stands that the record looks for before it, and the keyword ends
/// with no line feed.
pub proof fn lemma_planet_keyword_required_reputation(s: Seq<u8>)
    requires
        at_field(s, 1, "\"required reputation\"".model()),
    ensures
        "\"required reputation\"".model().len() >= 1,
        "\"required reputation\"".model().last() != 0x0a,
        !at_field(s, 1, "attributes".model()),
        !at_field(s, 1, "landscape".model()),
        !at_field(s, 1, "government".model()),
        !at_field(s, 1, "description".model()),
        !at_field(s, 1, "music".model()),
        !at_field(s, 1, "spaceport".model()),
        !at_field(s, 1, "shipyard".model()),
        !at_field(s, 1, "outfitter".model()),
        !at_field(s, 1, "bribe".model()),
        !at_field(s, 1, "security".model()),
{
    lemma_planet_literals();
    lemma_other_peek(s, 1, "\"required reputation\"".model(), "attributes".model(), 0);
    lemma_other_peek(s, 1, "\"required reputation\"".model(), "landscape".model(), 0);
    lemma_other_peek(s, 1, "\"required reputation\"".model(), "government".model(), 0);
    lemma_other_peek(s, 1, "\"required reputation\"".model(), "description".model(), 0);
    lemma_other_peek(s, 1, "\"required reputation\"".model(), "music".model(), 0);
    lemma_other_peek(s, 1, "\"required reputation\"".model(), "spaceport".model(), 0);
    lemma_other_peek(s, 1, "\"required reputation\"".model(), "shipyard".model(), 0);
    lemma_other_peek(s, 1, "\"required reputation\"".model(), "outfitter".model(), 0);
    lemma_other_peek(s, 1, "\"required reputation\"".model(), "bribe".model(), 0);
    lemma_other_peek(s, 1, "\"required reputation\"".model(), "security".model(), 0);
}

/// A field of a planet that stands on a line of its own, one of `landscape`,
/// `government`, `music`, `bribe`, `security`, `"required reputation"`,
/// begins with indentation, and what it leaves unread begins with no line
/// ending.
pub proof fn lemma_planet_item_shape(s: Seq<u8>, n: int, draft: PlanetBuilderModel, f: PlanetField)
    requires
        taken(s, draft, planet_search()) == Some((tail(s, n), f)),
        0 <= n <= s.len(),
        f is Landscape
            || f is Government
            || f is Music
            || f is Bribe
            || f is Security
            || f is RequiredReputation,
    ensures
        n >= 1,
        s[0] == 0x09 || s[0] == 0x20,
        spec_line_ending(tail(s, n)) is Err,
{
    if f is Landscape && at_field(s, 1, "landscape".model()) {
        lemma_planet_keyword_landscape(s);
        lemma_item_shape(s, 1, "landscape".model(), path_rule());
    }
    if f is Government && at_field(s, 1, "government".model()) {
        lemma_planet_keyword_government(s);
        lemma_item_shape(s, 1, "government".model(), string_rule());
    }
    if f is Music && at_field(s, 1, "music".model()) {
        lemma_planet_keyword_music(s);
        lemma_item_shape(s, 1, "music".model(), path_rule());
    }
    if f is Bribe && at_field(s, 1, "bribe".model()) {
        lemma_planet_keyword_bribe(s);
        lemma_item_shape(s, 1, "bribe".model(), number_rule());
    }
    if f is Security && at_field(s, 1, "security".model()) {
        lemma_planet_keyword_security(s);
        lemma_item_shape(s, 1, "security".model(), number_rule());
    }
    if f is RequiredReputation && at_field(s, 1, "\"required reputation\"".model()) {
        lemma_planet_keyword_required_reputation(s);
        lemma_item_shape(s, 1, "\"required reputation\"".model(), number_rule());
    }
}

/// A field of a planet that stands on a line of its own is read alike from
/// texts that agree as far as the line goes. Where the sweep reads a field,
/// one of `landscape`, `government`, `music`, `bribe`, `security`, `"required
/// reputation"`, from the first `n` bytes of `s`, which end with a line feed,
/// it reads the same field from the first `n` bytes of every text `t` that
/// begins with them and goes on with no line ending.
pub proof fn lemma_planet_item_moves(
    s: Seq<u8>,
    t: Seq<u8>,
    n: int,
    from: PlanetBuilderModel,
    into: PlanetBuilderModel,
    f: PlanetField,
)
    requires
        taken(s, from, planet_search()) == Some((tail(s, n), f)),
        0 < n <= s.len(),
        agree(s, t, n),
        s[n - 1] == 0x0a,
        spec_line_ending(tail(t, n)) is Err,
        f is Landscape
            || f is Government
            || f is Music
            || f is Bribe
            || f is Security
            || f is RequiredReputation,
    ensures
        taken(t, into, planet_search()) == Some((tail(t, n), f)),
{
    if f is Landscape && at_field(s, 1, "landscape".model()) {
        lemma_planet_keyword_landscape(s);
        lemma_path_steady();
        lemma_path_closed();
        lemma_item_local(s, t, n, 1, "landscape".model(), path_rule());
        lemma_planet_keyword_landscape(t);
    }
    if f is Government && at_field(s, 1, "government".model()) {
        lemma_planet_keyword_government(s);
        lemma_string_steady();
        lemma_string_closed();
        lemma_item_local(s, t, n, 1, "government".model(), string_rule());
        lemma_planet_keyword_government(t);
    }
    if f is Music && at_field(s, 1, "music".model()) {
        lemma_planet_keyword_music(s);
        lemma_path_steady();
        lemma_path_closed();
        lemma_item_local(s, t, n, 1, "music".model(), path_rule());
        lemma_planet_keyword_music(t);
    }
    if f is Bribe && at_field(s, 1, "bribe".model()) {
        lemma_planet_keyword_bribe(s);
        lemma_number_steady();
        lemma_number_closed();
        lemma_item_local(s, t, n, 1, "bribe".model(), number_rule());
        lemma_planet_keyword_bribe(t);
    }
    if f is Security && at_field(s, 1, "security".model()) {
        lemma_planet_keyword_security(s);
        lemma_number_steady();
        lemma_number_closed();
        lemma_item_local(s, t, n, 1, "security".model(), number_rule());
        lemma_planet_keyword_security(t);
    }
    if f is RequiredReputation && at_field(s, 1, "\"required reputation\"".model()) {
        lemma_planet_keyword_required_reputation(s);
        lemma_number_steady();
        lemma_number_closed();
        lemma_item_local(s, t, n, 1, "\"required reputation\"".model(), number_rule());
        lemma_planet_keyword_required_reputation(t);
    }
}

/// Two lines of a planet can change places. Where the fields come on the line
/// `first` and, next, on the line `second`, each line ends with a line feed,
/// and the fields are two different ones of `landscape`, `government`,
/// `music`, `bribe`, `security`, `"required reputation"`, the text that holds
/// the two lines the other way round is read to the same end: the same draft,
/// before the same rest.
pub proof fn lemma_planet_lines_exchange(
    first: Seq<u8>,
    second: Seq<u8>,
    rest: Seq<u8>,
    draft: PlanetBuilderModel,
    f: PlanetField,
    g: PlanetField,
)
    requires
        taken(first + (second + rest), draft, planet_search()) == Some((second + rest, f)),
        taken(second + rest, draft.with(f), planet_search()) == Some((rest, g)),
        f.slot() != g.slot(),
        first.len() >= 1 && first.last() == 0x0a,
        second.len() >= 1 && second.last() == 0x0a,
        f is Landscape
            || f is Government
            || f is Music
            || f is Bribe
            || f is Security
            || f is RequiredReputation,
        g is Landscape
            || g is Government
            || g is Music
            || g is Bribe
            || g is Security
            || g is RequiredReputation,
    ensures
        spec_sweep(
            second + (first + rest),
            draft,
            planet_search(),
            planet_apply(),
        ) == spec_sweep(
            first + (second + rest),
            draft,
            planet_search(),
            planet_apply(),
        ),
{
    let a = first + (second + rest);
    let b = second + (first + rest);
    let m = second + rest;
    let e = first + rest;
    let search = planet_search();
    let apply = planet_apply();
    lemma_agree_front(first, m, rest);
    lemma_agree_front(second, rest, e);
    lemma_agree_front(second, e, rest);
    lemma_agree_front(first, rest, m);
    lemma_planet_item_shape(a, first.len() as int, draft, f);
    lemma_planet_item_shape(m, second.len() as int, draft.with(f), g);
    assert(e[0] == a[0]);
    assert(m[second.len() - 1] == second.last());
    assert(a[first.len() - 1] == first.last());
    lemma_planet_item_moves(m, b, second.len() as int, draft.with(f), draft, g);
    lemma_planet_item_moves(a, e, first.len() as int, draft, draft.with(g), f);
    lemma_planet_fields_commute(draft, f, g);
    assert(taken(b, draft, search) == Some((e, g)));
    assert(taken(e, apply(draft, g), search) == Some((rest, f)));
    assert(spec_sweep(b, draft, search, apply) == spec_sweep(
        rest,
        apply(apply(draft, g), f),
        search,
        apply,
    )) by {
        reveal_with_fuel(spec_sweep, 3);
    }
    assert(spec_sweep(a, draft, search, apply) == spec_sweep(
        rest,
        apply(apply(draft, f), g),
        search,
        apply,
    )) by {
        reveal_with_fuel(spec_sweep, 3);
    }
}

/// The bytes of the keywords of a ship.
pub proof fn lemma_ship_literals()
    ensures
        "plural".model() == seq![0x70u8, 0x6cu8, 0x75u8, 0x72u8, 0x61u8, 0x6cu8],
        "sprite".model() == seq![0x73u8, 0x70u8, 0x72u8, 0x69u8, 0x74u8, 0x65u8],
        "thumbnail".model() == seq![
            0x74u8, 0x68u8, 0x75u8, 0x6du8, 0x62u8, 0x6eu8, 0x61u8, 0x69u8, 0x6cu8,
        ],
        "attributes".model() == seq![
            0x61u8, 0x74u8, 0x74u8, 0x72u8, 0x69u8, 0x62u8, 0x75u8, 0x74u8, 0x65u8, 0x73u8,
        ],
        "outfits".model() == seq![
            0x6fu8, 0x75u8, 0x74u8, 0x66u8, 0x69u8, 0x74u8, 0x73u8,
        ],
        "engine".model() == seq![0x65u8, 0x6eu8, 0x67u8, 0x69u8, 0x6eu8, 0x65u8],
        "gun".model() == seq![0x67u8, 0x75u8, 0x6eu8],
        "turret".model() == seq![0x74u8, 0x75u8, 0x72u8, 0x72u8, 0x65u8, 0x74u8],
        "fighter".model() == seq![
            0x66u8, 0x69u8, 0x67u8, 0x68u8, 0x74u8, 0x65u8, 0x72u8,
        ],
        "drone".model() == seq![0x64u8, 0x72u8, 0x6fu8, 0x6eu8, 0x65u8],
        "leak".model() == seq![0x6cu8, 0x65u8, 0x61u8, 0x6bu8],
        "explode".model() == seq![
            0x65u8, 0x78u8, 0x70u8, 0x6cu8, 0x6fu8, 0x64u8, 0x65u8,
        ],
        "\"final explode\"".model() == seq![
            0x22u8, 0x66u8, 0x69u8, 0x6eu8, 0x61u8, 0x6cu8, 0x20u8, 0x65u8, 0x78u8, 0x70u8,
            0x6cu8, 0x6fu8, 0x64u8, 0x65u8, 0x22u8,
        ],
        "description".model() == seq![
            0x64u8, 0x65u8, 0x73u8, 0x63u8, 0x72u8, 0x69u8, 0x70u8, 0x74u8, 0x69u8, 0x6fu8,
            0x6eu8,
        ],
{
    reveal_strlit("plural");
    lemma_literal("plural");
    assert("plural".model() =~= seq![0x70u8, 0x6cu8, 0x75u8, 0x72u8, 0x61u8, 0x6cu8]);
    reveal_strlit("sprite");
    lemma_literal("sprite");
    assert("sprite".model() =~= seq![0x73u8, 0x70u8, 0x72u8, 0x69u8, 0x74u8, 0x65u8]);
    reveal_strlit("thumbnail");
    lemma_literal("thumbnail");
    assert("thumbnail".model() =~= seq![
        0x74u8, 0x68u8, 0x75u8, 0x6du8, 0x62u8, 0x6eu8, 0x61u8, 0x69u8, 0x6cu8,
    ]);
    reveal_strlit("attributes");
    lemma_literal("attributes");
    assert("attributes".model() =~= seq![
        0x61u8, 0x74u8, 0x74u8, 0x72u8, 0x69u8, 0x62u8, 0x75u8, 0x74u8, 0x65u8, 0x73u8,
    ]);
    reveal_strlit("outfits");
    lemma_literal("outfits");
    assert("outfits".model() =~= seq![0x6fu8, 0x75u8, 0x74u8, 0x66u8, 0x69u8, 0x74u8, 0x73u8]);
    reveal_strlit("engine");
    lemma_literal("engine");
    assert("engine".model() =~= seq![0x65u8, 0x6eu8, 0x67u8, 0x69u8, 0x6eu8, 0x65u8]);
    reveal_strlit("gun");
    lemma_literal("gun");
    assert("gun".model() =~= seq![0x67u8, 0x75u8, 0x6eu8]);
    reveal_strlit("turret");
    lemma_literal("turret");
    assert("turret".model() =~= seq![0x74u8, 0x75u8, 0x72u8, 0x72u8, 0x65u8, 0x74u8]);
    reveal_strlit("fighter");
    lemma_literal("fighter");
    assert("fighter".model() =~= seq![0x66u8, 0x69u8, 0x67u8, 0x68u8, 0x74u8, 0x65u8, 0x72u8]);
    reveal_strlit("drone");
    lemma_literal("drone");
    assert("drone".model() =~= seq![0x64u8, 0x72u8, 0x6fu8, 0x6eu8, 0x65u8]);
    reveal_strlit("leak");
    lemma_literal("leak");
    assert("leak".model() =~= seq![0x6cu8, 0x65u8, 0x61u8, 0x6bu8]);
    reveal_strlit("explode");
    lemma_literal("explode");
    assert("explode".model() =~= seq![0x65u8, 0x78u8, 0x70u8, 0x6cu8, 0x6fu8, 0x64u8, 0x65u8]);
    reveal_strlit("\"final explode\"");
    lemma_literal("\"final explode\"");
    assert("\"final explode\"".model() =~= seq![
        0x22u8, 0x66u8, 0x69u8, 0x6eu8, 0x61u8, 0x6cu8, 0x20u8, 0x65u8, 0x78u8, 0x70u8,
        0x6cu8, 0x6fu8, 0x64u8, 0x65u8, 0x22u8,
    ]);
    reveal_strlit("description");
    lemma_literal("description");
    assert("description".model() =~= seq![
        0x64u8, 0x65u8, 0x73u8, 0x63u8, 0x72u8, 0x69u8, 0x70u8, 0x74u8, 0x69u8, 0x6fu8,
        0x6eu8,
    ]);
}

/// The keyword `plural` of a ship, the first that the record looks for, ends
/// with no line feed.
pub proof fn lemma_ship_keyword_plural(s: Seq<u8>)
    requires
        at_field(s, 1, "plural".model()),
    ensures
        "plural".model().len() >= 1,
        "plural".model().last() != 0x0a,
{
    lemma_ship_literals();
}

/// Where the keyword `thumbnail` of a ship stands, none of the keywords
/// stands that the record looks for before it, and the keyword ends with no
/// line feed.
pub proof fn lemma_ship_keyword_thumbnail(s: Seq<u8>)
    requires
        at_field(s, 1, "thumbnail".model()),
    ensures
        "thumbnail".model().len() >= 1,
        "thumbnail".model().last() != 0x0a,
        !at_field(s, 1, "plural".model()),
        !at_field(s, 1, "sprite".model()),
{
    lemma_ship_literals();
    lemma_other_peek(s, 1, "thumbnail".model(), "plural".model(), 0);
    lemma_other_peek(s, 1, "thumbnail".model(), "sprite".model(), 0);
}

/// Where the keyword `"final explode"` of a ship stands, none of the keywords
/// stands that the record looks for before it, and the keyword ends with no
/// line feed.
pub proof fn lemma_ship_keyword_final_explode(s: Seq<u8>)
    requires
        at_field(s, 1, "\"final explode\"".model()),
    ensures
        "\"final explode\"".model().len() >= 1,
        "\"final explode\"".model().last() != 0x0a,
        !at_field(s, 1, "plural".model()),
        !at_field(s, 1, "sprite".model()),
        !at_field(s, 1, "thumbnail".model()),
        !at_field(s, 1, "attributes".model()),
        !at_field(s, 1, "outfits".model()),
        !at_field(s, 1, "engine".model()),
        !at_field(s, 1, "gun".model()),
        !at_field(s, 1, "turret".model()),
        !at_field(s, 1, "fighter".model()),
        !at_field(s, 1, "drone".model()),
        !at_field(s, 1, "leak".model()),
        !at_field(s, 1, "explode".model()),
{
    lemma_ship_literals();
    lemma_other_peek(s, 1, "\"final explode\"".model(), "plural".model(), 0);
    lemma_other_peek(s, 1, "\"final explode\"".model(), "sprite".model(), 0);
    lemma_other_peek(s, 1, "\"final explode\"".model(), "thumbnail".model(), 0);
    lemma_other_peek(s, 1, "\"final explode\"".model(), "attributes".model(), 0);
    lemma_other_peek(s, 1, "\"final explode\"".model(), "outfits".model(), 0);
    lemma_other_peek(s, 1, "\"final explode\"".model(), "engine".model(), 0);
    lemma_other_peek(s, 1, "\"final explode\"".model(), "gun".model(), 0);
    lemma_other_peek(s, 1, "\"final explode\"".model(), "turret".model(), 0);
    lemma_other_peek(s, 1, "\"final explode\"".model(), "fighter".model(), 0);
    lemma_other_peek(s, 1, "\"final explode\"".model(), "drone".model(), 0);
    lemma_other_peek(s, 1, "\"final explode\"".model(), "leak".model(), 0);
    lemma_other_peek(s, 1, "\"final explode\"".model(), "explode".model(), 0);
}

/// A field of a ship that stands on a line of its own, one of `plural`,
/// `thumbnail`, `"final explode"`, begins with indentation, and what it
/// leaves unread begins with no line ending.
pub proof fn lemma_ship_item_shape(s: Seq<u8>, n: int, draft: ShipBuilderModel, f: ShipField)
    requires
        taken(s, draft, ship_search()) == Some((tail(s, n), f)),
        0 <= n <= s.len(),
        f is Plural || f is Thumbnail || f is FinalExplode,
    ensures
        n >= 1,
        s[0] == 0x09 || s[0] == 0x20,
        spec_line_ending(tail(s, n)) is Err,
{
    if f is Plural && at_field(s, 1, "plural".model()) {
        lemma_ship_keyword_plural(s);
        lemma_item_shape(s, 1, "plural".model(), string_rule());
    }
    if f is Thumbnail && at_field(s, 1, "thumbnail".model()) {
        lemma_ship_keyword_thumbnail(s);
        lemma_item_shape(s, 1, "thumbnail".model(), path_rule());
    }
    if f is FinalExplode && at_field(s, 1, "\"final explode\"".model()) {
        lemma_ship_keyword_final_explode(s);
        lemma_item_shape(s, 1, "\"final explode\"".model(), string_rule());
    }
}

/// A field of a ship that stands on a line of its own is read alike from
/// texts that agree as far as the line goes. Where the sweep reads a field,
/// one of `plural`, `thumbnail`, `"final explode"`, from the first `n` bytes
/// of `s`, which end with a line feed, it reads the same field from the first
/// `n` bytes of every text `t` that begins with them and goes on with no line
/// ending.
pub proof fn lemma_ship_item_moves(
    s: Seq<u8>,
    t: Seq<u8>,
    n: int,
    from: ShipBuilderModel,
    into: ShipBuilderModel,
    f: ShipField,
)
    requires
        taken(s, from, ship_search()) == Some((tail(s, n), f)),
        0 < n <= s.len(),
        agree(s, t, n),
        s[n - 1] == 0x0a,
        spec_line_ending(tail(t, n)) is Err,
        f is Plural || f is Thumbnail || f is FinalExplode,
    ensures
        taken(t, into, ship_search()) == Some((tail(t, n), f)),
{
    if f is Plural && at_field(s, 1, "plural".model()) {
        lemma_ship_keyword_plural(s);
        lemma_string_steady();
        lemma_string_closed();
        lemma_item_local(s, t, n, 1, "plural".model(), string_rule());
        lemma_ship_keyword_plural(t);
    }
    if f is Thumbnail && at_field(s, 1, "thumbnail".model()) {
        lemma_ship_keyword_thumbnail(s);
        lemma_path_steady();
        lemma_path_closed();
        lemma_item_local(s, t, n, 1, "thumbnail".model(), path_rule());
        lemma_ship_keyword_thumbnail(t);
    }
    if f is FinalExplode && at_field(s, 1, "\"final explode\"".model()) {
        lemma_ship_keyword_final_explode(s);
        lemma_string_steady();
        lemma_string_closed();
        lemma_item_local(s, t, n, 1, "\"final explode\"".model(), string_rule());
        lemma_ship_keyword_final_explode(t);
    }
}

/// Two lines of a ship can change places. Where the fields come on the line
/// `first` and, next, on the line `second`, each line ends with a line feed,
/// and the fields are two different ones of `plural`, `thumbnail`, `"final
/// explode"`, the text that holds the two lines the other way round is read
/// to the same end: the same draft, before the same rest.
pub proof fn lemma_ship_lines_exchange(
    first: Seq<u8>,
    second: Seq<u8>,
    rest: Seq<u8>,
    draft: ShipBuilderModel,
    f: ShipField,
    g: ShipField,
)
    requires
        taken(first + (second + rest), draft, ship_search()) == Some((second + rest, f)),
        taken(second + rest, draft.with(f), ship_search()) == Some((rest, g)),
        f.slot() != g.slot(),
        first.len() >= 1 && first.last() == 0x0a,
        second.len() >= 1 && second.last() == 0x0a,
        f is Plural || f is Thumbnail || f is FinalExplode,
        g is Plural || g is Thumbnail || g is FinalExplode,
    ensures
        spec_sweep(
            second + (first + rest),
            draft,
            ship_search(),
            ship_apply(),
        ) == spec_sweep(
            first + (second + rest),
            draft,
            ship_search(),
            ship_apply(),
        ),
{
    let a = first + (second + rest);
    let b = second + (first + rest);
    let m = second + rest;
    let e = first + rest;
    let search = ship_search();
    let apply = ship_apply();
    lemma_agree_front(first, m, rest);
    lemma_agree_front(second, rest, e);
    lemma_agree_front(second, e, rest);
    lemma_agree_front(first, rest, m);
    lemma_ship_item_shape(a, first.len() as int, draft, f);
    lemma_ship_item_shape(m, second.len() as int, draft.with(f), g);
    assert(e[0] == a[0]);
    assert(m[second.len() - 1] == second.last());
    assert(a[first.len() - 1] == first.last());
    lemma_ship_item_moves(m, b, second.len() as int, draft.with(f), draft, g);
    lemma_ship_item_moves(a, e, first.len() as int, draft, draft.with(g), f);
    lemma_ship_fields_commute(draft, f, g);
    assert(taken(b, draft, search) == Some((e, g)));
    assert(taken(e, apply(draft, g), search) == Some((rest, f)));
    assert(spec_sweep(b, draft, search, apply) == spec_sweep(
        rest,
        apply(apply(draft, g), f),
        search,
        apply,
    )) by {
        reveal_with_fuel(spec_sweep, 3);
    }
    assert(spec_sweep(a, draft, search, apply) == spec_sweep(
        rest,
        apply(apply(draft, f), g),
        search,
        apply,
    )) by {
        reveal_with_fuel(spec_sweep, 3);
    }
}

/// The bytes of the keywords of a ship's attributes.
pub proof fn lemma_ship_attributes_literals()
    ensures
        "licenses".model() == seq![
            0x6cu8, 0x69u8, 0x63u8, 0x65u8, 0x6eu8, 0x73u8, 0x65u8, 0x73u8,
        ],
        "category".model() == seq![
            0x63u8, 0x61u8, 0x74u8, 0x65u8, 0x67u8, 0x6fu8, 0x72u8, 0x79u8,
        ],
        "\"cost\"".model() == seq![0x22u8, 0x63u8, 0x6fu8, 0x73u8, 0x74u8, 0x22u8],
        "cost".model() == seq![0x63u8, 0x6fu8, 0x73u8, 0x74u8],
        "\"shields\"".model() == seq![
            0x22u8, 0x73u8, 0x68u8, 0x69u8, 0x65u8, 0x6cu8, 0x64u8, 0x73u8, 0x22u8,
        ],
        "\"hull\"".model() == seq![0x22u8, 0x68u8, 0x75u8, 0x6cu8, 0x6cu8, 0x22u8],
        "\"automaton\"".model() == seq![
            0x22u8, 0x61u8, 0x75u8, 0x74u8, 0x6fu8, 0x6du8, 0x61u8, 0x74u8, 0x6fu8, 0x6eu8,
            0x22u8,
        ],
        "\"required crew\"".model() == seq![
            0x22u8, 0x72u8, 0x65u8, 0x71u8, 0x75u8, 0x69u8, 0x72u8, 0x65u8, 0x64u8, 0x20u8,
            0x63u8, 0x72u8, 0x65u8, 0x77u8, 0x22u8,
        ],
        "\"bunks\"".model() == seq![
            0x22u8, 0x62u8, 0x75u8, 0x6eu8, 0x6bu8, 0x73u8, 0x22u8,
        ],
        "\"mass\"".model() == seq![0x22u8, 0x6du8, 0x61u8, 0x73u8, 0x73u8, 0x22u8],
        "\"drag\"".model() == seq![0x22u8, 0x64u8, 0x72u8, 0x61u8, 0x67u8, 0x22u8],
        "\"heat dissipation\"".model() == seq![
            0x22u8, 0x68u8, 0x65u8, 0x61u8, 0x74u8, 0x20u8, 0x64u8, 0x69u8, 0x73u8, 0x73u8,
            0x69u8, 0x70u8, 0x61u8, 0x74u8, 0x69u8, 0x6fu8, 0x6eu8, 0x22u8,
        ],
        "\"fuel capacity\"".model() == seq![
            0x22u8, 0x66u8, 0x75u8, 0x65u8, 0x6cu8, 0x20u8, 0x63u8, 0x61u8, 0x70u8, 0x61u8,
            0x63u8, 0x69u8, 0x74u8, 0x79u8, 0x22u8,
        ],
        "\"cargo space\"".model() == seq![
            0x22u8, 0x63u8, 0x61u8, 0x72u8, 0x67u8, 0x6fu8, 0x20u8, 0x73u8, 0x70u8, 0x61u8,
            0x63u8, 0x65u8, 0x22u8,
        ],
        "\"outfit space\"".model() == seq![
            0x22u8, 0x6fu8, 0x75u8, 0x74u8, 0x66u8, 0x69u8, 0x74u8, 0x20u8, 0x73u8, 0x70u8,
            0x61u8, 0x63u8, 0x65u8, 0x22u8,
        ],
        "\"weapon capacity\"".model() == seq![
            0x22u8, 0x77u8, 0x65u8, 0x61u8, 0x70u8, 0x6fu8, 0x6eu8, 0x20u8, 0x63u8, 0x61u8,
            0x70u8, 0x61u8, 0x63u8, 0x69u8, 0x74u8, 0x79u8, 0x22u8,
        ],
        "\"engine capacity\"".model() == seq![
            0x22u8, 0x65u8, 0x6eu8, 0x67u8, 0x69u8, 0x6eu8, 0x65u8, 0x20u8, 0x63u8, 0x61u8,
            0x70u8, 0x61u8, 0x63u8, 0x69u8, 0x74u8, 0x79u8, 0x22u8,
        ],
        "weapon".model() == seq![0x77u8, 0x65u8, 0x61u8, 0x70u8, 0x6fu8, 0x6eu8],
{
    reveal_strlit("licenses");
    lemma_literal("licenses");
    assert("licenses".model() =~= seq![
        0x6cu8, 0x69u8, 0x63u8, 0x65u8, 0x6eu8, 0x73u8, 0x65u8, 0x73u8,
    ]);
    reveal_strlit("category");
    lemma_literal("category");
    assert("category".model() =~= seq![
        0x63u8, 0x61u8, 0x74u8, 0x65u8, 0x67u8, 0x6fu8, 0x72u8, 0x79u8,
    ]);
    reveal_strlit("\"cost\"");
    lemma_literal("\"cost\"");
    assert("\"cost\"".model() =~= seq![0x22u8, 0x63u8, 0x6fu8, 0x73u8, 0x74u8, 0x22u8]);
    reveal_strlit("cost");
    lemma_literal("cost");
    assert("cost".model() =~= seq![0x63u8, 0x6fu8, 0x73u8, 0x74u8]);
    reveal_strlit("\"shields\"");
    lemma_literal("\"shields\"");
    assert("\"shields\"".model() =~= seq![
        0x22u8, 0x73u8, 0x68u8, 0x69u8, 0x65u8, 0x6cu8, 0x64u8, 0x73u8, 0x22u8,
    ]);
    reveal_strlit("\"hull\"");
    lemma_literal("\"hull\"");
    assert("\"hull\"".model() =~= seq![0x22u8, 0x68u8, 0x75u8, 0x6cu8, 0x6cu8, 0x22u8]);
    reveal_strlit("\"automaton\"");
    lemma_literal("\"automaton\"");
    assert("\"automaton\"".model() =~= seq![
        0x22u8, 0x61u8, 0x75u8, 0x74u8, 0x6fu8, 0x6du8, 0x61u8, 0x74u8, 0x6fu8, 0x6eu8,
        0x22u8,
    ]);
    reveal_strlit("\"required crew\"");
    lemma_literal("\"required crew\"");
    assert("\"required crew\"".model() =~= seq![
        0x22u8, 0x72u8, 0x65u8, 0x71u8, 0x75u8, 0x69u8, 0x72u8, 0x65u8, 0x64u8, 0x20u8,
        0x63u8, 0x72u8, 0x65u8, 0x77u8, 0x22u8,
    ]);
    reveal_strlit("\"bunks\"");
    lemma_literal("\"bunks\"");
    assert("\"bunks\"".model() =~= seq![0x22u8, 0x62u8, 0x75u8, 0x6eu8, 0x6bu8, 0x73u8, 0x22u8]);
    reveal_strlit("\"mass\"");
    lemma_literal("\"mass\"");
    assert("\"mass\"".model() =~= seq![0x22u8, 0x6du8, 0x61u8, 0x73u8, 0x73u8, 0x22u8]);
    reveal_strlit("\"drag\"");
    lemma_literal("\"drag\"");
    assert("\"drag\"".model() =~= seq![0x22u8, 0x64u8, 0x72u8, 0x61u8, 0x67u8, 0x22u8]);
    reveal_strlit("\"heat dissipation\"");
    lemma_literal("\"heat dissipation\"");
    assert("\"heat dissipation\"".model() =~= seq![
        0x22u8, 0x68u8, 0x65u8, 0x61u8, 0x74u8, 0x20u8, 0x64u8, 0x69u8, 0x73u8, 0x73u8,
        0x69u8, 0x70u8, 0x61u8, 0x74u8, 0x69u8, 0x6fu8, 0x6eu8, 0x22u8,
    ]);
    reveal_strlit("\"fuel capacity\"");
    lemma_literal("\"fuel capacity\"");
    assert("\"fuel capacity\"".model() =~= seq![
        0x22u8, 0x66u8, 0x75u8, 0x65u8, 0x6cu8, 0x20u8, 0x63u8, 0x61u8, 0x70u8, 0x61u8,
        0x63u8, 0x69u8, 0x74u8, 0x79u8, 0x22u8,
    ]);
    reveal_strlit("\"cargo space\"");
    lemma_literal("\"cargo space\"");
    assert("\"cargo space\"".model() =~= seq![
        0x22u8, 0x63u8, 0x61u8, 0x72u8, 0x67u8, 0x6fu8, 0x20u8, 0x73u8, 0x70u8, 0x61u8,
        0x63u8, 0x65u8, 0x22u8,
    ]);
    reveal_strlit("\"outfit space\"");
    lemma_literal("\"outfit space\"");
    assert("\"outfit space\"".model() =~= seq![
        0x22u8, 0x6fu8, 0x75u8, 0x74u8, 0x66u8, 0x69u8, 0x74u8, 0x20u8, 0x73u8, 0x70u8,
        0x61u8, 0x63u8, 0x65u8, 0x22u8,
    ]);
    reveal_strlit("\"weapon capacity\"");
    lemma_literal("\"weapon capacity\"");
    assert("\"weapon capacity\"".model() =~= seq![
        0x22u8, 0x77u8, 0x65u8, 0x61u8, 0x70u8, 0x6fu8, 0x6eu8, 0x20u8, 0x63u8, 0x61u8,
        0x70u8, 0x61u8, 0x63u8, 0x69u8, 0x74u8, 0x79u8, 0x22u8,
    ]);
    reveal_strlit("\"engine capacity\"");
    lemma_literal("\"engine capacity\"");
    assert("\"engine capacity\"".model() =~= seq![
        0x22u8, 0x65u8, 0x6eu8, 0x67u8, 0x69u8, 0x6eu8, 0x65u8, 0x20u8, 0x63u8, 0x61u8,
        0x70u8, 0x61u8, 0x63u8, 0x69u8, 0x74u8, 0x79u8, 0x22u8,
    ]);
    reveal_strlit("weapon");
    lemma_literal("weapon");
    assert("weapon".model() =~= seq![0x77u8, 0x65u8, 0x61u8, 0x70u8, 0x6fu8, 0x6eu8]);
}

/// Where the keyword `category` of a ship's attributes stands, none of the
/// keywords stands that the record looks for before it, and the keyword ends
/// with no line feed.
pub proof fn lemma_ship_attributes_keyword_category(s: Seq<u8>)
    requires
        at_field(s, 2, "category".model()),
    ensures
        "category".model().len() >= 1,
        "category".model().last() != 0x0a,
        !at_field(s, 2, "licenses".model()),
{
    lemma_ship_attributes_literals();
    lemma_other_peek(s, 2, "category".model(), "licenses".model(), 0);
}

/// Where the keyword `"cost"` of a ship's attributes stands, none of the
/// keywords stands that the record looks for before it, and the keyword ends
/// with no line feed.
pub proof fn lemma_ship_attributes_keyword_cost_quoted(s: Seq<u8>)
    requires
        at_field(s, 2, "\"cost\"".model()),
    ensures
        "\"cost\"".model().len() >= 1,
        "\"cost\"".model().last() != 0x0a,
        !at_field(s, 2, "licenses".model()),
        !at_field(s, 2, "category".model()),
{
    lemma_ship_attributes_literals();
    lemma_other_peek(s, 2, "\"cost\"".model(), "licenses".model(), 0);
    lemma_other_peek(s, 2, "\"cost\"".model(), "category".model(), 0);
}

/// Where the keyword `cost` of a ship's attributes stands, none of the
/// keywords stands that the record looks for before it, and the keyword ends
/// with no line feed.
pub proof fn lemma_ship_attributes_keyword_cost(s: Seq<u8>)
    requires
        at_field(s, 2, "cost".model()),
    ensures
        "cost".model().len() >= 1,
        "cost".model().last() != 0x0a,
        !at_field(s, 2, "licenses".model()),
        !at_field(s, 2, "category".model()),
        !at_field(s, 2, "\"cost\"".model()),
{
    lemma_ship_attributes_literals();
    lemma_other_peek(s, 2, "cost".model(), "licenses".model(), 0);
    lemma_other_peek(s, 2, "cost".model(), "category".model(), 1);
    lemma_other_peek(s, 2, "cost".model(), "\"cost\"".model(), 0);
}

/// Where the keyword `"shields"` of a ship's attributes stands, none of the
/// keywords stands that the record looks for before it, and the keyword ends
/// with no line feed.
pub proof fn lemma_ship_attributes_keyword_shields(s: Seq<u8>)
    requires
        at_field(s, 2, "\"shields\"".model()),
    ensures
        "\"shields\"".model().len() >= 1,
        "\"shields\"".model().last() != 0x0a,
        !at_field(s, 2, "licenses".model()),
        !at_field(s, 2, "category".model()),
        !at_field(s, 2, "\"cost\"".model()),
        !at_field(s, 2, "cost".model()),
{
    lemma_ship_attributes_literals();
    lemma_other_peek(s, 2, "\"shields\"".model(), "licenses".model(), 0);
    lemma_other_peek(s, 2, "\"shields\"".model(), "category".model(), 0);
    lemma_other_peek(s, 2, "\"shields\"".model(), "\"cost\"".model(), 1);
    lemma_other_peek(s, 2, "\"shields\"".model(), "cost".model(), 0);
}

/// Where the keyword `"hull"` of a ship's attributes stands, none of the
/// keywords stands that the record looks for before it, and the keyword ends
/// with no line feed.
pub proof fn lemma_ship_attributes_keyword_hull(s: Seq<u8>)
    requires
        at_field(s, 2, "\"hull\"".model()),
    ensures
        "\"hull\"".model().len() >= 1,
        "\"hull\"".model().last() != 0x0a,
        !at_field(s, 2, "licenses".model()),
        !at_field(s, 2, "category".model()),
        !at_field(s, 2, "\"cost\"".model()),
        !at_field(s, 2, "cost".model()),
        !at_field(s, 2, "\"shields\"".model()),
{
    lemma_ship_attributes_literals();
    lemma_other_peek(s, 2, "\"hull\"".model(), "licenses".model(), 0);
    lemma_other_peek(s, 2, "\"hull\"".model(), "category".model(), 0);
    lemma_other_peek(s, 2, "\"hull\"".model(), "\"cost\"".model(), 1);
    lemma_other_peek(s, 2, "\"hull\"".model(), "cost".model(), 0);
    lemma_other_peek(s, 2, "\"hull\"".model(), "\"shields\"".model(), 1);
}

/// Where the keyword `"automaton"` of a ship's attributes stands, none of the
/// keywords stands that the record looks for before it, and the keyword ends
/// with no line feed.
pub proof fn lemma_ship_attributes_keyword_automaton(s: Seq<u8>)
    requires
        at_field(s, 2, "\"automaton\"".model()),
    ensures
        "\"automaton\"".model().len() >= 1,
        "\"automaton\"".model().last() != 0x0a,
        !at_field(s, 2, "licenses".model()),
        !at_field(s, 2, "category".model()),
        !at_field(s, 2, "\"cost\"".model()),
        !at_field(s, 2, "cost".model()),
        !at_field(s, 2, "\"shields\"".model()),
        !at_field(s, 2, "\"hull\"".model()),
{
    lemma_ship_attributes_literals();
    lemma_other_peek(s, 2, "\"automaton\"".model(), "licenses".model(), 0);
    lemma_other_peek(s, 2, "\"automaton\"".model(), "category".model(), 0);
    lemma_other_peek(s, 2, "\"automaton\"".model(), "\"cost\"".model(), 1);
    lemma_other_peek(s, 2, "\"automaton\"".model(), "cost".model(), 0);
    lemma_other_peek(s, 2, "\"automaton\"".model(), "\"shields\"".model(), 1);
    lemma_other_peek(s, 2, "\"automaton\"".model(), "\"hull\"".model(), 1);
}

/// Where the keyword `"required crew"` of a ship's attributes stands, none of
/// the keywords stands that the record looks for before it, and the keyword
/// ends with no line feed.
pub proof fn lemma_ship_attributes_keyword_required_crew(s: Seq<u8>)
    requires
        at_field(s, 2, "\"required crew\"".model()),
    ensures
        "\"required crew\"".model().len() >= 1,
        "\"required crew\"".model().last() != 0x0a,
        !at_field(s, 2, "licenses".model()),
        !at_field(s, 2, "category".model()),
        !at_field(s, 2, "\"cost\"".model()),
        !at_field(s, 2, "cost".model()),
        !at_field(s, 2, "\"shields\"".model()),
        !at_field(s, 2, "\"hull\"".model()),
        !at_field(s, 2, "\"automaton\"".model()),
{
    lemma_ship_attributes_literals();
    lemma_other_peek(s, 2, "\"required crew\"".model(), "licenses".model(), 0);
    lemma_other_peek(s, 2, "\"required crew\"".model(), "category".model(), 0);
    lemma_other_peek(s, 2, "\"required crew\"".model(), "\"cost\"".model(), 1);
    lemma_other_peek(s, 2, "\"required crew\"".model(), "cost".model(), 0);
    lemma_other_peek(s, 2, "\"required crew\"".model(), "\"shields\"".model(), 1);
    lemma_other_peek(s, 2, "\"required crew\"".model(), "\"hull\"".model(), 1);
    lemma_other_peek(s, 2, "\"required crew\"".model(), "\"automaton\"".model(), 1);
}

/// Where the keyword `"bunks"` of a ship's attributes stands, none of the
/// keywords stands that the record looks for before it, and the keyword ends
/// with no line feed.
pub proof fn lemma_ship_attributes_keyword_bunks(s: Seq<u8>)
    requires
        at_field(s, 2, "\"bunks\"".model()),
    ensures
        "\"bunks\"".model().len() >= 1,
        "\"bunks\"".model().last() != 0x0a,
        !at_field(s, 2, "licenses".model()),
        !at_field(s, 2, "category".model()),
        !at_field(s, 2, "\"cost\"".model()),
        !at_field(s, 2, "cost".model()),
        !at_field(s, 2, "\"shields\"".model()),
        !at_field(s, 2, "\"hull\"".model()),
        !at_field(s, 2, "\"automaton\"".model()),
        !at_field(s, 2, "\"required crew\"".model()),
{
    lemma_ship_attributes_literals();
    lemma_other_peek(s, 2, "\"bunks\"".model(), "licenses".model(), 0);
    lemma_other_peek(s, 2, "\"bunks\"".model(), "category".model(), 0);
    lemma_other_peek(s, 2, "\"bunks\"".model(), "\"cost\"".model(), 1);
    lemma_other_peek(s, 2, "\"bunks\"".model(), "cost".model(), 0);
    lemma_other_peek(s, 2, "\"bunks\"".model(), "\"shields\"".model(), 1);
    lemma_other_peek(s, 2, "\"bunks\"".model(), "\"hull\"".model(), 1);
    lemma_other_peek(s, 2, "\"bunks\"".model(), "\"automaton\"".model(), 1);
    lemma_other_peek(s, 2, "\"bunks\"".model(), "\"required crew\"".model(), 1);
}

/// Where the keyword `"mass"` of a ship's attributes stands, none of the
/// keywords stands that the record looks for before it, and the keyword ends
/// with no line feed.
pub proof fn lemma_ship_attributes_keyword_mass(s: Seq<u8>)
    requires
        at_field(s, 2, "\"mass\"".model()),
    ensures
        "\"mass\"".model().len() >= 1,
        "\"mass\"".model().last() != 0x0a,
        !at_field(s, 2, "licenses".model()),
        !at_field(s, 2, "category".model()),
        !at_field(s, 2, "\"cost\"".model()),
        !at_field(s, 2, "cost".model()),
        !at_field(s, 2, "\"shields\"".model()),
        !at_field(s, 2, "\"hull\"".model()),
        !at_field(s, 2, "\"automaton\"".model()),
        !at_field(s, 2, "\"required crew\"".model()),
        !at_field(s, 2, "\"bunks\"".model()),
{
    lemma_ship_attributes_literals();
    lemma_other_peek(s, 2, "\"mass\"".model(), "licenses".model(), 0);
    lemma_other_peek(s, 2, "\"mass\"".model(), "category".model(), 0);
    lemma_other_peek(s, 2, "\"mass\"".model(), "\"cost\"".model(), 1);
    lemma_other_peek(s, 2, "\"mass\"".model(), "cost".model(), 0);
    lemma_other_peek(s, 2, "\"mass\"".model(), "\"shields\"".model(), 1);
    lemma_other_peek(s, 2, "\"mass\"".model(), "\"hull\"".model(), 1);
    lemma_other_peek(s, 2, "\"mass\"".model(), "\"automaton\"".model(), 1);
    lemma_other_peek(s, 2, "\"mass\"".model(), "\"required crew\"".model(), 1);
    lemma_other_peek(s, 2, "\"mass\"".model(), "\"bunks\"".model(), 1);
}

/// Where the keyword `"drag"` of a ship's attributes stands, none of the
/// keywords stands that the record looks for before it, and the keyword ends
/// with no line feed.
pub proof fn lemma_ship_attributes_keyword_drag(s: Seq<u8>)
    requires
        at_field(s, 2, "\"drag\"".model()),
    ensures
        "\"drag\"".model().len() >= 1,
        "\"drag\"".model().last() != 0x0a,
        !at_field(s, 2, "licenses".model()),
        !at_field(s, 2, "category".model()),
        !at_field(s, 2, "\"cost\"".model()),
        !at_field(s, 2, "cost".model()),
        !at_field(s, 2, "\"shields\"".model()),
        !at_field(s, 2, "\"hull\"".model()),
        !at_field(s, 2, "\"automaton\"".model()),
        !at_field(s, 2, "\"required crew\"".model()),
        !at_field(s, 2, "\"bunks\"".model()),
        !at_field(s, 2, "\"mass\"".model()),
{
    lemma_ship_attributes_literals();
    lemma_other_peek(s, 2, "\"drag\"".model(), "licenses".model(), 0);
    lemma_other_peek(s, 2, "\"drag\"".model(), "category".model(), 0);
    lemma_other_peek(s, 2, "\"drag\"".model(), "\"cost\"".model(), 1);
    lemma_other_peek(s, 2, "\"drag\"".model(), "cost".model(), 0);
    lemma_other_peek(s, 2, "\"drag\"".model(), "\"shields\"".model(), 1);
    lemma_other_peek(s, 2, "\"drag\"".model(), "\"hull\"".model(), 1);
    lemma_other_peek(s, 2, "\"drag\"".model(), "\"automaton\"".model(), 1);
    lemma_other_peek(s, 2, "\"drag\"".model(), "\"required crew\"".model(), 1);
    lemma_other_peek(s, 2, "\"drag\"".model(), "\"bunks\"".model(), 1);
    lemma_other_peek(s, 2, "\"drag\"".model(), "\"mass\"".model(), 1);
}

/// Where the keyword `"heat dissipation"` of a ship's attributes stands, none
/// of the keywords stands that the record looks for before it, and the
/// keyword ends with no line feed.
pub proof fn lemma_ship_attributes_keyword_heat_dissipation(s: Seq<u8>)
    requires
        at_field(s, 2, "\"heat dissipation\"".model()),
    ensures
        "\"heat dissipation\"".model().len() >= 1,
        "\"heat dissipation\"".model().last() != 0x0a,
        !at_field(s, 2, "licenses".model()),
        !at_field(s, 2, "category".model()),
        !at_field(s, 2, "\"cost\"".model()),
        !at_field(s, 2, "cost".model()),
        !at_field(s, 2, "\"shields\"".model()),
        !at_field(s, 2, "\"hull\"".model()),
        !at_field(s, 2, "\"automaton\"".model()),
        !at_field(s, 2, "\"required crew\"".model()),
        !at_field(s, 2, "\"bunks\"".model()),
        !at_field(s, 2, "\"mass\"".model()),
        !at_field(s, 2, "\"drag\"".model()),
{
    lemma_ship_attributes_literals();
    lemma_other_peek(s, 2, "\"heat dissipation\"".model(), "licenses".model(), 0);
    lemma_other_peek(s, 2, "\"heat dissipation\"".model(), "category".model(), 0);
    lemma_other_peek(s, 2, "\"heat dissipation\"".model(), "\"cost\"".model(), 1);
    lemma_other_peek(s, 2, "\"heat dissipation\"".model(), "cost".model(), 0);
    lemma_other_peek(s, 2, "\"heat dissipation\"".model(), "\"shields\"".model(), 1);
    lemma_other_peek(s, 2, "\"heat dissipation\"".model(), "\"hull\"".model(), 2);
    lemma_other_peek(s, 2, "\"heat dissipation\"".model(), "\"automaton\"".model(), 1);
    lemma_other_peek(s, 2, "\"heat dissipation\"".model(), "\"required crew\"".model(), 1);
    lemma_other_peek(s, 2, "\"heat dissipation\"".model(), "\"bunks\"".model(), 1);
    lemma_other_peek(s, 2, "\"heat dissipation\"".model(), "\"mass\"".model(), 1);
    lemma_other_peek(s, 2, "\"heat dissipation\"".model(), "\"drag\"".model(), 1);
}

/// Where the keyword `"fuel capacity"` of a ship's attributes stands, none of
/// the keywords stands that the record looks for before it, and the keyword
/// ends with no line feed.
pub proof fn lemma_ship_attributes_keyword_fuel_capacity(s: Seq<u8>)
    requires
        at_field(s, 2, "\"fuel capacity\"".model()),
    ensures
        "\"fuel capacity\"".model().len() >= 1,
        "\"fuel capacity\"".model().last() != 0x0a,
        !at_field(s, 2, "licenses".model()),
        !at_field(s, 2, "category".model()),
        !at_field(s, 2, "\"cost\"".model()),
        !at_field(s, 2, "cost".model()),
        !at_field(s, 2, "\"shields\"".model()),
        !at_field(s, 2, "\"hull\"".model()),
        !at_field(s, 2, "\"automaton\"".model()),
        !at_field(s, 2, "\"required crew\"".model()),
        !at_field(s, 2, "\"bunks\"".model()),
        !at_field(s, 2, "\"mass\"".model()),
        !at_field(s, 2, "\"drag\"".model()),
        !at_field(s, 2, "\"heat dissipation\"".model()),
{
    lemma_ship_attributes_literals();
    lemma_other_peek(s, 2, "\"fuel capacity\"".model(), "licenses".model(), 0);
    lemma_other_peek(s, 2, "\"fuel capacity\"".model(), "category".model(), 0);
    lemma_other_peek(s, 2, "\"fuel capacity\"".model(), "\"cost\"".model(), 1);
    lemma_other_peek(s, 2, "\"fuel capacity\"".model(), "cost".model(), 0);
    lemma_other_peek(s, 2, "\"fuel capacity\"".model(), "\"shields\"".model(), 1);
    lemma_other_peek(s, 2, "\"fuel capacity\"".model(), "\"hull\"".model(), 1);
    lemma_other_peek(s, 2, "\"fuel capacity\"".model(), "\"automaton\"".model(), 1);
    lemma_other_peek(s, 2, "\"fuel capacity\"".model(), "\"required crew\"".model(), 1);
    lemma_other_peek(s, 2, "\"fuel capacity\"".model(), "\"bunks\"".model(), 1);
    lemma_other_peek(s, 2, "\"fuel capacity\"".model(), "\"mass\"".model(), 1);
    lemma_other_peek(s, 2, "\"fuel capacity\"".model(), "\"drag\"".model(), 1);
    lemma_other_peek(s, 2, "\"fuel capacity\"".model(), "\"heat dissipation\"".model(), 1);
}

/// Where the keyword `"cargo space"` of a ship's attributes stands, none of
/// the keywords stands that the record looks for before it, and the keyword
/// ends with no line feed.
pub proof fn lemma_ship_attributes_keyword_cargo_space(s: Seq<u8>)
    requires
        at_field(s, 2, "\"cargo space\"".model()),
    ensures
        "\"cargo space\"".model().len() >= 1,
        "\"cargo space\"".model().last() != 0x0a,
        !at_field(s, 2, "licenses".model()),
        !at_field(s, 2, "category".model()),
        !at_field(s, 2, "\"cost\"".model()),
        !at_field(s, 2, "cost".model()),
        !at_field(s, 2, "\"shields\"".model()),
        !at_field(s, 2, "\"hull\"".model()),
        !at_field(s, 2, "\"automaton\"".model()),
        !at_field(s, 2, "\"required crew\"".model()),
        !at_field(s, 2, "\"bunks\"".model()),
        !at_field(s, 2, "\"mass\"".model()),
        !at_field(s, 2, "\"drag\"".model()),
        !at_field(s, 2, "\"heat dissipation\"".model()),
        !at_field(s, 2, "\"fuel capacity\"".model()),
{
    lemma_ship_attributes_literals();
    lemma_other_peek(s, 2, "\"cargo space\"".model(), "licenses".model(), 0);
    lemma_other_peek(s, 2, "\"cargo space\"".model(), "category".model(), 0);
    lemma_other_peek(s, 2, "\"cargo space\"".model(), "\"cost\"".model(), 2);
    lemma_other_peek(s, 2, "\"cargo space\"".model(), "cost".model(), 0);
    lemma_other_peek(s, 2, "\"cargo space\"".model(), "\"shields\"".model(), 1);
    lemma_other_peek(s, 2, "\"cargo space\"".model(), "\"hull\"".model(), 1);
    lemma_other_peek(s, 2, "\"cargo space\"".model(), "\"automaton\"".model(), 1);
    lemma_other_peek(s, 2, "\"cargo space\"".model(), "\"required crew\"".model(), 1);
    lemma_other_peek(s, 2, "\"cargo space\"".model(), "\"bunks\"".model(), 1);
    lemma_other_peek(s, 2, "\"cargo space\"".model(), "\"mass\"".model(), 1);
    lemma_other_peek(s, 2, "\"cargo space\"".model(), "\"drag\"".model(), 1);
    lemma_other_peek(s, 2, "\"cargo space\"".model(), "\"heat dissipation\"".model(), 1);
    lemma_other_peek(s, 2, "\"cargo space\"".model(), "\"fuel capacity\"".model(), 1);
}

/// Where the keyword `"outfit space"` of a ship's attributes stands, none of
/// the keywords stands that the record looks for before it, and the keyword
/// ends with no line feed.
pub proof fn lemma_ship_attributes_keyword_outfit_space(s: Seq<u8>)
    requires
        at_field(s, 2, "\"outfit space\"".model()),
    ensures
        "\"outfit space\"".model().len() >= 1,
        "\"outfit space\"".model().last() != 0x0a,
        !at_field(s, 2, "licenses".model()),
        !at_field(s, 2, "category".model()),
        !at_field(s, 2, "\"cost\"".model()),
        !at_field(s, 2, "cost".model()),
        !at_field(s, 2, "\"shields\"".model()),
        !at_field(s, 2, "\"hull\"".model()),
        !at_field(s, 2, "\"automaton\"".model()),
        !at_field(s, 2, "\"required crew\"".model()),
        !at_field(s, 2, "\"bunks\"".model()),
        !at_field(s, 2, "\"mass\"".model()),
        !at_field(s, 2, "\"drag\"".model()),
        !at_field(s, 2, "\"heat dissipation\"".model()),
        !at_field(s, 2, "\"fuel capacity\"".model()),
        !at_field(s, 2, "\"cargo space\"".model()),
{
    lemma_ship_attributes_literals();
    lemma_other_peek(s, 2, "\"outfit space\"".model(), "licenses".model(), 0);
    lemma_other_peek(s, 2, "\"outfit space\"".model(), "category".model(), 0);
    lemma_other_peek(s, 2, "\"outfit space\"".model(), "\"cost\"".model(), 1);
    lemma_other_peek(s, 2, "\"outfit space\"".model(), "cost".model(), 0);
    lemma_other_peek(s, 2, "\"outfit space\"".model(), "\"shields\"".model(), 1);
    lemma_other_peek(s, 2, "\"outfit space\"".model(), "\"hull\"".model(), 1);
    lemma_other_peek(s, 2, "\"outfit space\"".model(), "\"automaton\"".model(), 1);
    lemma_other_peek(s, 2, "\"outfit space\"".model(), "\"required crew\"".model(), 1);
    lemma_other_peek(s, 2, "\"outfit space\"".model(), "\"bunks\"".model(), 1);
    lemma_other_peek(s, 2, "\"outfit space\"".model(), "\"mass\"".model(), 1);
    lemma_other_peek(s, 2, "\"outfit space\"".model(), "\"drag\"".model(), 1);
    lemma_other_peek(s, 2, "\"outfit space\"".model(), "\"heat dissipation\"".model(), 1);
    lemma_other_peek(s, 2, "\"outfit space\"".model(), "\"fuel capacity\"".model(), 1);
    lemma_other_peek(s, 2, "\"outfit space\"".model(), "\"cargo space\"".model(), 1);
}

/// Where the keyword `"weapon capacity"` of a ship's attributes stands, none
/// of the keywords stands that the record looks for before it, and the
/// keyword ends with no line feed.
pub proof fn lemma_ship_attributes_keyword_weapon_capacity(s: Seq<u8>)
    requires
        at_field(s, 2, "\"weapon capacity\"".model()),
    ensures
        "\"weapon capacity\"".model().len() >= 1,
        "\"weapon capacity\"".model().last() != 0x0a,
        !at_field(s, 2, "licenses".model()),
        !at_field(s, 2, "category".model()),
        !at_field(s, 2, "\"cost\"".model()),
        !at_field(s, 2, "cost".model()),
        !at_field(s, 2, "\"shields\"".model()),
        !at_field(s, 2, "\"hull\"".model()),
        !at_field(s, 2, "\"automaton\"".model()),
        !at_field(s, 2, "\"required crew\"".model()),
        !at_field(s, 2, "\"bunks\"".model()),
        !at_field(s, 2, "\"mass\"".model()),
        !at_field(s, 2, "\"drag\"".model()),
        !at_field(s, 2, "\"heat dissipation\"".model()),
        !at_field(s, 2, "\"fuel capacity\"".model()),
        !at_field(s, 2, "\"cargo space\"".model()),
        !at_field(s, 2, "\"outfit space\"".model()),
{
    lemma_ship_attributes_literals();
    lemma_other_peek(s, 2, "\"weapon capacity\"".model(), "licenses".model(), 0);
    lemma_other_peek(s, 2, "\"weapon capacity\"".model(), "category".model(), 0);
    lemma_other_peek(s, 2, "\"weapon capacity\"".model(), "\"cost\"".model(), 1);
    lemma_other_peek(s, 2, "\"weapon capacity\"".model(), "cost".model(), 0);
    lemma_other_peek(s, 2, "\"weapon capacity\"".model(), "\"shields\"".model(), 1);
    lemma_other_peek(s, 2, "\"weapon capacity\"".model(), "\"hull\"".model(), 1);
    lemma_other_peek(s, 2, "\"weapon capacity\"".model(), "\"automaton\"".model(), 1);
    lemma_other_peek(s, 2, "\"weapon capacity\"".model(), "\"required crew\"".model(), 1);
    lemma_other_peek(s, 2, "\"weapon capacity\"".model(), "\"bunks\"".model(), 1);
    lemma_other_peek(s, 2, "\"weapon capacity\"".model(), "\"mass\"".model(), 1);
    lemma_other_peek(s, 2, "\"weapon capacity\"".model(), "\"drag\"".model(), 1);
    lemma_other_peek(s, 2, "\"weapon capacity\"".model(), "\"heat dissipation\"".model(), 1);
    lemma_other_peek(s, 2, "\"weapon capacity\"".model(), "\"fuel capacity\"".model(), 1);
    lemma_other_peek(s, 2, "\"weapon capacity\"".model(), "\"cargo space\"".model(), 1);
    lemma_other_peek(s, 2, "\"weapon capacity\"".model(), "\"outfit space\"".model(), 1);
}

/// Where the keyword `"engine capacity"` of a ship's attributes stands, none
/// of the keywords stands that the record looks for before it, and the
/// keyword ends with no line feed.
pub proof fn lemma_ship_attributes_keyword_engine_capacity(s: Seq<u8>)
    requires
        at_field(s, 2, "\"engine capacity\"".model()),
    ensures
        "\"engine capacity\"".model().len() >= 1,
        "\"engine capacity\"".model().last() != 0x0a,
        !at_field(s, 2, "licenses".model()),
        !at_field(s, 2, "category".model()),
        !at_field(s, 2, "\"cost\"".model()),
        !at_field(s, 2, "cost".model()),
        !at_field(s, 2, "\"shields\"".model()),
        !at_field(s, 2, "\"hull\"".model()),
        !at_field(s, 2, "\"automaton\"".model()),
        !at_field(s, 2, "\"required crew\"".model()),
        !at_field(s, 2, "\"bunks\"".model()),
        !at_field(s, 2, "\"mass\"".model()),
        !at_field(s, 2, "\"drag\"".model()),
        !at_field(s, 2, "\"heat dissipation\"".model()),
        !at_field(s, 2, "\"fuel capacity\"".model()),
        !at_field(s, 2, "\"cargo space\"".model()),
        !at_field(s, 2, "\"outfit space\"".model()),
        !at_field(s, 2, "\"weapon capacity\"".model()),
{
    lemma_ship_attributes_literals();
    lemma_other_peek(s, 2, "\"engine capacity\"".model(), "licenses".model(), 0);
    lemma_other_peek(s, 2, "\"engine capacity\"".model(), "category".model(), 0);
    lemma_other_peek(s, 2, "\"engine capacity\"".model(), "\"cost\"".model(), 1);
    lemma_other_peek(s, 2, "\"engine capacity\"".model(), "cost".model(), 0);
    lemma_other_peek(s, 2, "\"engine capacity\"".model(), "\"shields\"".model(), 1);
    lemma_other_peek(s, 2, "\"engine capacity\"".model(), "\"hull\"".model(), 1);
    lemma_other_peek(s, 2, "\"engine capacity\"".model(), "\"automaton\"".model(), 1);
    lemma_other_peek(s, 2, "\"engine capacity\"".model(), "\"required crew\"".model(), 1);
    lemma_other_peek(s, 2, "\"engine capacity\"".model(), "\"bunks\"".model(), 1);
    lemma_other_peek(s, 2, "\"engine capacity\"".model(), "\"mass\"".model(), 1);
    lemma_other_peek(s, 2, "\"engine capacity\"".model(), "\"drag\"".model(), 1);
    lemma_other_peek(s, 2, "\"engine capacity\"".model(), "\"heat dissipation\"".model(), 1);
    lemma_other_peek(s, 2, "\"engine capacity\"".model(), "\"fuel capacity\"".model(), 1);
    lemma_other_peek(s, 2, "\"engine capacity\"".model(), "\"cargo space\"".model(), 1);
    lemma_other_peek(s, 2, "\"engine capacity\"".model(), "\"outfit space\"".model(), 1);
    lemma_other_peek(s, 2, "\"engine capacity\"".model(), "\"weapon capacity\"".model(), 1);
}

/// A field of a ship's attributes that stands on a line of its own, one of
/// `category`, `"cost"`, `cost`, `"shields"`, `"hull"`, `"automaton"`,
/// `"required crew"`, `"bunks"`, `"mass"`, `"drag"`, `"heat dissipation"`,
/// `"fuel capacity"`, `"cargo space"`, `"outfit space"`, `"weapon capacity"`,
/// `"engine capacity"`, begins with indentation, and what it leaves unread
/// begins with no line ending.
pub proof fn lemma_ship_attributes_item_shape(
    s: Seq<u8>,
    n: int,
    draft: ShipAttributesBuilderModel,
    f: ShipAttributesField,
)
    requires
        taken(s, draft, ship_attributes_search()) == Some((tail(s, n), f)),
        0 <= n <= s.len(),
        f is Category
            || f is Cost
            || f is Shields
            || f is Hull
            || f is Automaton
            || f is RequiredCrew
            || f is Bunks
            || f is Mass
            || f is Drag
            || f is HeatDissipation
            || f is FuelCapacity
            || f is CargoSpace
            || f is OutfitSpace
            || f is WeaponCapacity
            || f is EngineCapacity,
    ensures
        n >= 1,
        s[0] == 0x09 || s[0] == 0x20,
        spec_line_ending(tail(s, n)) is Err,
{
    if f is Category && at_field(s, 2, "category".model()) {
        lemma_ship_attributes_keyword_category(s);
        lemma_item_shape(s, 2, "category".model(), string_rule());
    }
    if f is Cost && at_field(s, 2, "\"cost\"".model()) {
        lemma_ship_attributes_keyword_cost_quoted(s);
        lemma_item_shape(s, 2, "\"cost\"".model(), u32_rule());
    }
    if f is Cost && at_field(s, 2, "cost".model()) {
        lemma_ship_attributes_keyword_cost(s);
        lemma_item_shape(s, 2, "cost".model(), u32_rule());
    }
    if f is Shields && at_field(s, 2, "\"shields\"".model()) {
        lemma_ship_attributes_keyword_shields(s);
        lemma_item_shape(s, 2, "\"shields\"".model(), u32_rule());
    }
    if f is Hull && at_field(s, 2, "\"hull\"".model()) {
        lemma_ship_attributes_keyword_hull(s);
        lemma_item_shape(s, 2, "\"hull\"".model(), u32_rule());
    }
    if f is Automaton && at_field(s, 2, "\"automaton\"".model()) {
        lemma_ship_attributes_keyword_automaton(s);
        lemma_item_shape(s, 2, "\"automaton\"".model(), flag_rule());
    }
    if f is RequiredCrew && at_field(s, 2, "\"required crew\"".model()) {
        lemma_ship_attributes_keyword_required_crew(s);
        lemma_item_shape(s, 2, "\"required crew\"".model(), u32_rule());
    }
    if f is Bunks && at_field(s, 2, "\"bunks\"".model()) {
        lemma_ship_attributes_keyword_bunks(s);
        lemma_item_shape(s, 2, "\"bunks\"".model(), u32_rule());
    }
    if f is Mass && at_field(s, 2, "\"mass\"".model()) {
        lemma_ship_attributes_keyword_mass(s);
        lemma_item_shape(s, 2, "\"mass\"".model(), u32_rule());
    }
    if f is Drag && at_field(s, 2, "\"drag\"".model()) {
        lemma_ship_attributes_keyword_drag(s);
        lemma_item_shape(s, 2, "\"drag\"".model(), number_rule());
    }
    if f is HeatDissipation && at_field(s, 2, "\"heat dissipation\"".model()) {
        lemma_ship_attributes_keyword_heat_dissipation(s);
        lemma_item_shape(s, 2, "\"heat dissipation\"".model(), number_rule());
    }
    if f is FuelCapacity && at_field(s, 2, "\"fuel capacity\"".model()) {
        lemma_ship_attributes_keyword_fuel_capacity(s);
        lemma_item_shape(s, 2, "\"fuel capacity\"".model(), u32_rule());
    }
    if f is CargoSpace && at_field(s, 2, "\"cargo space\"".model()) {
        lemma_ship_attributes_keyword_cargo_space(s);
        lemma_item_shape(s, 2, "\"cargo space\"".model(), u32_rule());
    }
    if f is OutfitSpace && at_field(s, 2, "\"outfit space\"".model()) {
        lemma_ship_attributes_keyword_outfit_space(s);
        lemma_item_shape(s, 2, "\"outfit space\"".model(), u32_rule());
    }
    if f is WeaponCapacity && at_field(s, 2, "\"weapon capacity\"".model()) {
        lemma_ship_attributes_keyword_weapon_capacity(s);
        lemma_item_shape(s, 2, "\"weapon capacity\"".model(), u32_rule());
    }
    if f is EngineCapacity && at_field(s, 2, "\"engine capacity\"".model()) {
        lemma_ship_attributes_keyword_engine_capacity(s);
        lemma_item_shape(s, 2, "\"engine capacity\"".model(), u32_rule());
    }
}

/// A field of a ship's attributes that stands on a line of its own is read
/// alike from texts that agree as far as the line goes. Where the sweep reads
/// a field, one of `category`, `"cost"`, `cost`, `"shields"`, `"hull"`,
/// `"automaton"`, `"required crew"`, `"bunks"`, `"mass"`, `"drag"`, `"heat
/// dissipation"`, `"fuel capacity"`, `"cargo space"`, `"outfit space"`,
/// `"weapon capacity"`, `"engine capacity"`, from the first `n` bytes of `s`,
/// which end with a line feed, it reads the same field from the first `n`
/// bytes of every text `t` that begins with them and goes on with no line
/// ending.
pub proof fn lemma_ship_attributes_item_moves(
    s: Seq<u8>,
    t: Seq<u8>,
    n: int,
    from: ShipAttributesBuilderModel,
    into: ShipAttributesBuilderModel,
    f: ShipAttributesField,
)
    requires
        taken(s, from, ship_attributes_search()) == Some((tail(s, n), f)),
        0 < n <= s.len(),
        agree(s, t, n),
        s[n - 1] == 0x0a,
        spec_line_ending(tail(t, n)) is Err,
        f is Category
            || f is Cost
            || f is Shields
            || f is Hull
            || f is Automaton
            || f is RequiredCrew
            || f is Bunks
            || f is Mass
            || f is Drag
            || f is HeatDissipation
            || f is FuelCapacity
            || f is CargoSpace
            || f is OutfitSpace
            || f is WeaponCapacity
            || f is EngineCapacity,
    ensures
        taken(t, into, ship_attributes_search()) == Some((tail(t, n), f)),
{
    if f is Category && at_field(s, 2, "category".model()) {
        lemma_ship_attributes_keyword_category(s);
        lemma_string_steady();
        lemma_string_closed();
        lemma_item_local(s, t, n, 2, "category".model(), string_rule());
        lemma_ship_attributes_keyword_category(t);
    }
    if f is Cost && at_field(s, 2, "\"cost\"".model()) {
        lemma_ship_attributes_keyword_cost_quoted(s);
        lemma_u32_steady();
        lemma_u32_closed();
        lemma_item_local(s, t, n, 2, "\"cost\"".model(), u32_rule());
        lemma_ship_attributes_keyword_cost_quoted(t);
    }
    if f is Cost && at_field(s, 2, "cost".model()) {
        lemma_ship_attributes_keyword_cost(s);
        lemma_u32_steady();
        lemma_u32_closed();
        lemma_item_local(s, t, n, 2, "cost".model(), u32_rule());
        lemma_ship_attributes_keyword_cost(t);
    }
    if f is Shields && at_field(s, 2, "\"shields\"".model()) {
        lemma_ship_attributes_keyword_shields(s);
        lemma_u32_steady();
        lemma_u32_closed();
        lemma_item_local(s, t, n, 2, "\"shields\"".model(), u32_rule());
        lemma_ship_attributes_keyword_shields(t);
    }
    if f is Hull && at_field(s, 2, "\"hull\"".model()) {
        lemma_ship_attributes_keyword_hull(s);
        lemma_u32_steady();
        lemma_u32_closed();
        lemma_item_local(s, t, n, 2, "\"hull\"".model(), u32_rule());
        lemma_ship_attributes_keyword_hull(t);
    }
    if f is Automaton && at_field(s, 2, "\"automaton\"".model()) {
        lemma_ship_attributes_keyword_automaton(s);
        lemma_flag_steady();
        lemma_item_local(s, t, n, 2, "\"automaton\"".model(), flag_rule());
        lemma_ship_attributes_keyword_automaton(t);
    }
    if f is RequiredCrew && at_field(s, 2, "\"required crew\"".model()) {
        lemma_ship_attributes_keyword_required_crew(s);
        lemma_u32_steady();
        lemma_u32_closed();
        lemma_item_local(s, t, n, 2, "\"required crew\"".model(), u32_rule());
        lemma_ship_attributes_keyword_required_crew(t);
    }
    if f is Bunks && at_field(s, 2, "\"bunks\"".model()) {
        lemma_ship_attributes_keyword_bunks(s);
        lemma_u32_steady();
        lemma_u32_closed();
        lemma_item_local(s, t, n, 2, "\"bunks\"".model(), u32_rule());
        lemma_ship_attributes_keyword_bunks(t);
    }
    if f is Mass && at_field(s, 2, "\"mass\"".model()) {
        lemma_ship_attributes_keyword_mass(s);
        lemma_u32_steady();
        lemma_u32_closed();
        lemma_item_local(s, t, n, 2, "\"mass\"".model(), u32_rule());
        lemma_ship_attributes_keyword_mass(t);
    }
    if f is Drag && at_field(s, 2, "\"drag\"".model()) {
        lemma_ship_attributes_keyword_drag(s);
        lemma_number_steady();
        lemma_number_closed();
        lemma_item_local(s, t, n, 2, "\"drag\"".model(), number_rule());
        lemma_ship_attributes_keyword_drag(t);
    }
    if f is HeatDissipation && at_field(s, 2, "\"heat dissipation\"".model()) {
        lemma_ship_attributes_keyword_heat_dissipation(s);
        lemma_number_steady();
        lemma_number_closed();
        lemma_item_local(s, t, n, 2, "\"heat dissipation\"".model(), number_rule());
        lemma_ship_attributes_keyword_heat_dissipation(t);
    }
    if f is FuelCapacity && at_field(s, 2, "\"fuel capacity\"".model()) {
        lemma_ship_attributes_keyword_fuel_capacity(s);
        lemma_u32_steady();
        lemma_u32_closed();
        lemma_item_local(s, t, n, 2, "\"fuel capacity\"".model(), u32_rule());
        lemma_ship_attributes_keyword_fuel_capacity(t);
    }
    if f is CargoSpace && at_field(s, 2, "\"cargo space\"".model()) {
        lemma_ship_attributes_keyword_cargo_space(s);
        lemma_u32_steady();
        lemma_u32_closed();
        lemma_item_local(s, t, n, 2, "\"cargo space\"".model(), u32_rule());
        lemma_ship_attributes_keyword_cargo_space(t);
    }
    if f is OutfitSpace && at_field(s, 2, "\"outfit space\"".model()) {
        lemma_ship_attributes_keyword_outfit_space(s);
        lemma_u32_steady();
        lemma_u32_closed();
        lemma_item_local(s, t, n, 2, "\"outfit space\"".model(), u32_rule());
        lemma_ship_attributes_keyword_outfit_space(t);
    }
    if f is WeaponCapacity && at_field(s, 2, "\"weapon capacity\"".model()) {
        lemma_ship_attributes_keyword_weapon_capacity(s);
        lemma_u32_steady();
        lemma_u32_closed();
        lemma_item_local(s, t, n, 2, "\"weapon capacity\"".model(), u32_rule());
        lemma_ship_attributes_keyword_weapon_capacity(t);
    }
    if f is EngineCapacity && at_field(s, 2, "\"engine capacity\"".model()) {
        lemma_ship_attributes_keyword_engine_capacity(s);
        lemma_u32_steady();
        lemma_u32_closed();
        lemma_item_local(s, t, n, 2, "\"engine capacity\"".model(), u32_rule());
        lemma_ship_attributes_keyword_engine_capacity(t);
    }
}

/// Two lines of a ship's attributes can change places. Where the fields come
/// on the line `first` and, next, on the line `second`, each line ends with a
/// line feed, and the fields are two different ones of `category`, `"cost"`,
/// `cost`, `"shields"`, `"hull"`, `"automaton"`, `"required crew"`,
/// `"bunks"`, `"mass"`, `"drag"`, `"heat dissipation"`, `"fuel capacity"`,
/// `"cargo space"`, `"outfit space"`, `"weapon capacity"`, `"engine
/// capacity"`, the text that holds the two lines the other way round is read
/// to the same end: the same draft, before the same rest.
pub proof fn lemma_ship_attributes_lines_exchange(
    first: Seq<u8>,
    second: Seq<u8>,
    rest: Seq<u8>,
    draft: ShipAttributesBuilderModel,
    f: ShipAttributesField,
    g: ShipAttributesField,
)
    requires
        taken(first + (second + rest), draft, ship_attributes_search()) == Some((second + rest, f)),
        taken(second + rest, draft.with(f), ship_attributes_search()) == Some((rest, g)),
        f.slot() != g.slot(),
        first.len() >= 1 && first.last() == 0x0a,
        second.len() >= 1 && second.last() == 0x0a,
        f is Category
            || f is Cost
            || f is Shields
            || f is Hull
            || f is Automaton
            || f is RequiredCrew
            || f is Bunks
            || f is Mass
            || f is Drag
            || f is HeatDissipation
            || f is FuelCapacity
            || f is CargoSpace
            || f is OutfitSpace
            || f is WeaponCapacity
            || f is EngineCapacity,
        g is Category
            || g is Cost
            || g is Shields
            || g is Hull
            || g is Automaton
            || g is RequiredCrew
            || g is Bunks
            || g is Mass
            || g is Drag
            || g is HeatDissipation
            || g is FuelCapacity
            || g is CargoSpace
            || g is OutfitSpace
            || g is WeaponCapacity
            || g is EngineCapacity,
    ensures
        spec_sweep(
            second + (first + rest),
            draft,
            ship_attributes_search(),
            ship_attributes_apply(),
        ) == spec_sweep(
            first + (second + rest),
            draft,
            ship_attributes_search(),
            ship_attributes_apply(),
        ),
{
    let a = first + (second + rest);
    let b = second + (first + rest);
    let m = second + rest;
    let e = first + rest;
    let search = ship_attributes_search();
    let apply = ship_attributes_apply();
    lemma_agree_front(first, m, rest);
    lemma_agree_front(second, rest, e);
    lemma_agree_front(second, e, rest);
    lemma_agree_front(first, rest, m);
    lemma_ship_attributes_item_shape(a, first.len() as int, draft, f);
    lemma_ship_attributes_item_shape(m, second.len() as int, draft.with(f), g);
    assert(e[0] == a[0]);
    assert(m[second.len() - 1] == second.last());
    assert(a[first.len() - 1] == first.last());
    lemma_ship_attributes_item_moves(m, b, second.len() as int, draft.with(f), draft, g);
    lemma_ship_attributes_item_moves(a, e, first.len() as int, draft, draft.with(g), f);
    lemma_ship_attributes_fields_commute(draft, f, g);
    assert(taken(b, draft, search) == Some((e, g)));
    assert(taken(e, apply(draft, g), search) == Some((rest, f)));
    assert(spec_sweep(b, draft, search, apply) == spec_sweep(
        rest,
        apply(apply(draft, g), f),
        search,
        apply,
    )) by {
        reveal_with_fuel(spec_sweep, 3);
    }
    assert(spec_sweep(a, draft, search, apply) == spec_sweep(
        rest,
        apply(apply(draft, f), g),
        search,
        apply,
    )) by {
        reveal_with_fuel(spec_sweep, 3);
    }
}

/// The bytes of the keywords of a ship's weapon.
pub proof fn lemma_ship_weapon_literals()
    ensures
        "\"blast radius\"".model() == seq![
            0x22u8, 0x62u8, 0x6cu8, 0x61u8, 0x73u8, 0x74u8, 0x20u8, 0x72u8, 0x61u8, 0x64u8,
            0x69u8, 0x75u8, 0x73u8, 0x22u8,
        ],
        "\"shield damage\"".model() == seq![
            0x22u8, 0x73u8, 0x68u8, 0x69u8, 0x65u8, 0x6cu8, 0x64u8, 0x20u8, 0x64u8, 0x61u8,
            0x6du8, 0x61u8, 0x67u8, 0x65u8, 0x22u8,
        ],
        "\"hull damage\"".model() == seq![
            0x22u8, 0x68u8, 0x75u8, 0x6cu8, 0x6cu8, 0x20u8, 0x64u8, 0x61u8, 0x6du8, 0x61u8,
            0x67u8, 0x65u8, 0x22u8,
        ],
        "\"hit force\"".model() == seq![
            0x22u8, 0x68u8, 0x69u8, 0x74u8, 0x20u8, 0x66u8, 0x6fu8, 0x72u8, 0x63u8, 0x65u8,
            0x22u8,
        ],
{
    reveal_strlit("\"blast radius\"");
    lemma_literal("\"blast radius\"");
    assert("\"blast radius\"".model() =~= seq![
        0x22u8, 0x62u8, 0x6cu8, 0x61u8, 0x73u8, 0x74u8, 0x20u8, 0x72u8, 0x61u8, 0x64u8,
        0x69u8, 0x75u8, 0x73u8, 0x22u8,
    ]);
    reveal_strlit("\"shield damage\"");
    lemma_literal("\"shield damage\"");
    assert("\"shield damage\"".model() =~= seq![
        0x22u8, 0x73u8, 0x68u8, 0x69u8, 0x65u8, 0x6cu8, 0x64u8, 0x20u8, 0x64u8, 0x61u8,
        0x6du8, 0x61u8, 0x67u8, 0x65u8, 0x22u8,
    ]);
    reveal_strlit("\"hull damage\"");
    lemma_literal("\"hull damage\"");
    assert("\"hull damage\"".model() =~= seq![
        0x22u8, 0x68u8, 0x75u8, 0x6cu8, 0x6cu8, 0x20u8, 0x64u8, 0x61u8, 0x6du8, 0x61u8,
        0x67u8, 0x65u8, 0x22u8,
    ]);
    reveal_strlit("\"hit force\"");
    lemma_literal("\"hit force\"");
    assert("\"hit force\"".model() =~= seq![
        0x22u8, 0x68u8, 0x69u8, 0x74u8, 0x20u8, 0x66u8, 0x6fu8, 0x72u8, 0x63u8, 0x65u8,
        0x22u8,
    ]);
}

/// The keyword `"blast radius"` of a ship's weapon, the first that the record
/// looks for, ends with no line feed.
pub proof fn lemma_ship_weapon_keyword_blast_radius(s: Seq<u8>)
    requires
        at_field(s, 3, "\"blast radius\"".model()),
    ensures
        "\"blast radius\"".model().len() >= 1,
        "\"blast radius\"".model().last() != 0x0a,
{
    lemma_ship_weapon_literals();
}

/// Where the keyword `"shield damage"` of a ship's weapon stands, none of the
/// keywords stands that the record looks for before it, and the keyword ends
/// with no line feed.
pub proof fn lemma_ship_weapon_keyword_shield_damage(s: Seq<u8>)
    requires
        at_field(s, 3, "\"shield damage\"".model()),
    ensures
        "\"shield damage\"".model().len() >= 1,
        "\"shield damage\"".model().last() != 0x0a,
        !at_field(s, 3, "\"blast radius\"".model()),
{
    lemma_ship_weapon_literals();
    lemma_other_peek(s, 3, "\"shield damage\"".model(), "\"blast radius\"".model(), 1);
}

/// Where the keyword `"hull damage"` of a ship's weapon stands, none of the
/// keywords stands that the record looks for before it, and the keyword ends
/// with no line feed.
pub proof fn lemma_ship_weapon_keyword_hull_damage(s: Seq<u8>)
    requires
        at_field(s, 3, "\"hull damage\"".model()),
    ensures
        "\"hull damage\"".model().len() >= 1,
        "\"hull damage\"".model().last() != 0x0a,
        !at_field(s, 3, "\"blast radius\"".model()),
        !at_field(s, 3, "\"shield damage\"".model()),
{
    lemma_ship_weapon_literals();
    lemma_other_peek(s, 3, "\"hull damage\"".model(), "\"blast radius\"".model(), 1);
    lemma_other_peek(s, 3, "\"hull damage\"".model(), "\"shield damage\"".model(), 1);
}

/// Where the keyword `"hit force"` of a ship's weapon stands, none of the
/// keywords stands that the record looks for before it, and the keyword ends
/// with no line feed.
pub proof fn lemma_ship_weapon_keyword_hit_force(s: Seq<u8>)
    requires
        at_field(s, 3, "\"hit force\"".model()),
    ensures
        "\"hit force\"".model().len() >= 1,
        "\"hit force\"".model().last() != 0x0a,
        !at_field(s, 3, "\"blast radius\"".model()),
        !at_field(s, 3, "\"shield damage\"".model()),
        !at_field(s, 3, "\"hull damage\"".model()),
{
    lemma_ship_weapon_literals();
    lemma_other_peek(s, 3, "\"hit force\"".model(), "\"blast radius\"".model(), 1);
    lemma_other_peek(s, 3, "\"hit force\"".model(), "\"shield damage\"".model(), 1);
    lemma_other_peek(s, 3, "\"hit force\"".model(), "\"hull damage\"".model(), 2);
}

/// A field of a ship's weapon that stands on a line of its own, one of
/// `"blast radius"`, `"shield damage"`, `"hull damage"`, `"hit force"`,
/// begins with indentation, and what it leaves unread begins with no line
/// ending.
pub proof fn lemma_ship_weapon_item_shape(
    s: Seq<u8>,
    n: int,
    draft: ShipWeaponBuilderModel,
    f: ShipWeaponField,
)
    requires
        taken(s, draft, ship_weapon_search()) == Some((tail(s, n), f)),
        0 <= n <= s.len(),
    ensures
        n >= 1,
        s[0] == 0x09 || s[0] == 0x20,
        spec_line_ending(tail(s, n)) is Err,
{
    if f is BlastRadius && at_field(s, 3, "\"blast radius\"".model()) {
        lemma_ship_weapon_keyword_blast_radius(s);
        lemma_item_shape(s, 3, "\"blast radius\"".model(), u32_rule());
    }
    if f is ShieldDamage && at_field(s, 3, "\"shield damage\"".model()) {
        lemma_ship_weapon_keyword_shield_damage(s);
        lemma_item_shape(s, 3, "\"shield damage\"".model(), u32_rule());
    }
    if f is HullDamage && at_field(s, 3, "\"hull damage\"".model()) {
        lemma_ship_weapon_keyword_hull_damage(s);
        lemma_item_shape(s, 3, "\"hull damage\"".model(), u32_rule());
    }
    if f is HitForce && at_field(s, 3, "\"hit force\"".model()) {
        lemma_ship_weapon_keyword_hit_force(s);
        lemma_item_shape(s, 3, "\"hit force\"".model(), u32_rule());
    }
}

/// A field of a ship's weapon that stands on a line of its own is read alike
/// from texts that agree as far as the line goes. Where the sweep reads a
/// field, one of `"blast radius"`, `"shield damage"`, `"hull damage"`, `"hit
/// force"`, from the first `n` bytes of `s`, which end with a line feed, it
/// reads the same field from the first `n` bytes of every text `t` that
/// begins with them and goes on with no line ending.
pub proof fn lemma_ship_weapon_item_moves(
    s: Seq<u8>,
    t: Seq<u8>,
    n: int,
    from: ShipWeaponBuilderModel,
    into: ShipWeaponBuilderModel,
    f: ShipWeaponField,
)
    requires
        taken(s, from, ship_weapon_search()) == Some((tail(s, n), f)),
        0 < n <= s.len(),
        agree(s, t, n),
        s[n - 1] == 0x0a,
        spec_line_ending(tail(t, n)) is Err,
    ensures
        taken(t, into, ship_weapon_search()) == Some((tail(t, n), f)),
{
    if f is BlastRadius && at_field(s, 3, "\"blast radius\"".model()) {
        lemma_ship_weapon_keyword_blast_radius(s);
        lemma_u32_steady();
        lemma_u32_closed();
        lemma_item_local(s, t, n, 3, "\"blast radius\"".model(), u32_rule());
        lemma_ship_weapon_keyword_blast_radius(t);
    }
    if f is ShieldDamage && at_field(s, 3, "\"shield damage\"".model()) {
        lemma_ship_weapon_keyword_shield_damage(s);
        lemma_u32_steady();
        lemma_u32_closed();
        lemma_item_local(s, t, n, 3, "\"shield damage\"".model(), u32_rule());
        lemma_ship_weapon_keyword_shield_damage(t);
    }
    if f is HullDamage && at_field(s, 3, "\"hull damage\"".model()) {
        lemma_ship_weapon_keyword_hull_damage(s);
        lemma_u32_steady();
        lemma_u32_closed();
        lemma_item_local(s, t, n, 3, "\"hull damage\"".model(), u32_rule());
        lemma_ship_weapon_keyword_hull_damage(t);
    }
    if f is HitForce && at_field(s, 3, "\"hit force\"".model()) {
        lemma_ship_weapon_keyword_hit_force(s);
        lemma_u32_steady();
        lemma_u32_closed();
        lemma_item_local(s, t, n, 3, "\"hit force\"".model(), u32_rule());
        lemma_ship_weapon_keyword_hit_force(t);
    }
}

/// Two lines of a ship's weapon can change places. Where the fields come on
/// the line `first` and, next, on the line `second`, each line ends with a
/// line feed, and the fields are two different ones of `"blast radius"`,
/// `"shield damage"`, `"hull damage"`, `"hit force"`, the text that holds the
/// two lines the other way round is read to the same end: the same draft,
/// before the same rest.
pub proof fn lemma_ship_weapon_lines_exchange(
    first: Seq<u8>,
    second: Seq<u8>,
    rest: Seq<u8>,
    draft: ShipWeaponBuilderModel,
    f: ShipWeaponField,
    g: ShipWeaponField,
)
    requires
        taken(first + (second + rest), draft, ship_weapon_search()) == Some((second + rest, f)),
        taken(second + rest, draft.with(f), ship_weapon_search()) == Some((rest, g)),
        f.slot() != g.slot(),
        first.len() >= 1 && first.last() == 0x0a,
        second.len() >= 1 && second.last() == 0x0a,
    ensures
        spec_sweep(
            second + (first + rest),
            draft,
            ship_weapon_search(),
            ship_weapon_apply(),
        ) == spec_sweep(
            first + (second + rest),
            draft,
            ship_weapon_search(),
            ship_weapon_apply(),
        ),
{
    let a = first + (second + rest);
    let b = second + (first + rest);
    let m = second + rest;
    let e = first + rest;
    let search = ship_weapon_search();
    let apply = ship_weapon_apply();
    lemma_agree_front(first, m, rest);
    lemma_agree_front(second, rest, e);
    lemma_agree_front(second, e, rest);
    lemma_agree_front(first, rest, m);
    lemma_ship_weapon_item_shape(a, first.len() as int, draft, f);
    lemma_ship_weapon_item_shape(m, second.len() as int, draft.with(f), g);
    assert(e[0] == a[0]);
    assert(m[second.len() - 1] == second.last());
    assert(a[first.len() - 1] == first.last());
    lemma_ship_weapon_item_moves(m, b, second.len() as int, draft.with(f), draft, g);
    lemma_ship_weapon_item_moves(a, e, first.len() as int, draft, draft.with(g), f);
    lemma_ship_weapon_fields_commute(draft, f, g);
    assert(taken(b, draft, search) == Some((e, g)));
    assert(taken(e, apply(draft, g), search) == Some((rest, f)));
    assert(spec_sweep(b, draft, search, apply) == spec_sweep(
        rest,
        apply(apply(draft, g), f),
        search,
        apply,
    )) by {
        reveal_with_fuel(spec_sweep, 3);
    }
    assert(spec_sweep(a, draft, search, apply) == spec_sweep(
        rest,
        apply(apply(draft, f), g),
        search,
        apply,
    )) by {
        reveal_with_fuel(spec_sweep, 3);
    }
}

} // verus!
