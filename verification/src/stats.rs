//! Derived combat statistics for a character: the dodge score is the natural
//! dodge minus the sum of the state maluses, clamped at zero. Equipment
//! bonuses and weight penalties are deliberately disabled and always zero.

use vstd::prelude::*;

verus! {

pub struct BaseStats {
    pub esquive_naturelle: i32,
}

pub enum EquipmentType {
    Armure,
    Arme,
    Sac,
    Autre,
}

pub struct Equipement {
    pub nom: String,
    pub equipement_type: EquipmentType,
}

pub struct Etats {
    pub fatigue: i32,
    pub alcool: i32,
    pub drogue: i32,
    pub blessure_tete: i32,
}

pub struct FinalStats {
    pub esquive_totale: i32,
    pub esquive_naturelle: i32,
    pub bonus_equipement: i32,
    pub malus_poids: i32,
    pub malus_etats: i32,
}

/// The total malus contributed by the character's states, as a mathematical sum.
pub open spec fn spec_malus_etats(etats: Etats) -> int {
    etats.fatigue + etats.alcool + etats.drogue + etats.blessure_tete
}

/// Computes the final statistics of a character. The equipment list is
/// accepted but ignored: bonuses and weight penalties are disabled, so the
/// total dodge is the natural dodge minus the state maluses, never negative.
pub fn calculer_stats_finales(
    base: BaseStats,
    _equipements: Vec<Equipement>,
    etats: Etats,
) -> (r: FinalStats)
    requires
        i32::MIN <= spec_malus_etats(etats) <= i32::MAX,
        i32::MIN <= base.esquive_naturelle - spec_malus_etats(etats) <= i32::MAX,
    ensures
        r.malus_etats == spec_malus_etats(etats),
        r.esquive_totale == if base.esquive_naturelle - spec_malus_etats(etats) >= 0 {
            base.esquive_naturelle - spec_malus_etats(etats)
        } else {
            0
        },
        r.esquive_naturelle == base.esquive_naturelle,
        r.bonus_equipement == 0,
        r.malus_poids == 0,
{
    let malus_poids: i32 = 0;
    let bonus_equipement: i32 = 0;

    let malus_wide: i64 = etats.fatigue as i64 + etats.alcool as i64 + etats.drogue as i64
        + etats.blessure_tete as i64;
    let malus_etats: i32 = malus_wide as i32;

    let raw_esquive: i64 = base.esquive_naturelle as i64 + bonus_equipement as i64
        - malus_poids as i64 - malus_wide;

    let esquive_totale: i32 = if raw_esquive >= 0 {
        raw_esquive as i32
    } else {
        0
    };

    FinalStats {
        esquive_totale,
        esquive_naturelle: base.esquive_naturelle,
        bonus_equipement,
        malus_poids,
        malus_etats,
    }
}

} // verus!
