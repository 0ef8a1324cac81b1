use refsync::stats::{BaseStats, Equipement, EquipmentType, Etats, calculer_stats_finales};

fn mock_stats() -> BaseStats {
    BaseStats { esquive_naturelle: 10 }
}

fn mock_etats() -> Etats {
    Etats { fatigue: 0, alcool: 0, drogue: 0, blessure_tete: 0 }
}

#[test]
fn test_esquive_basic() {
    let base = mock_stats();
    let etats = mock_etats();
    let eq = vec![];

    let final_stats = calculer_stats_finales(base, eq, etats);
    assert_eq!(final_stats.esquive_totale, 10);
}

#[test]
fn test_esquive_with_equipment_bonus_ignored() {
    let base = mock_stats();
    let etats = mock_etats();
    let eq = vec![Equipement {
        nom: "Bottes agiles".to_string(),
        equipement_type: EquipmentType::Autre,
    }];

    let final_stats = calculer_stats_finales(base, eq, etats);
    // Bonus ignored -> 10
    assert_eq!(final_stats.esquive_totale, 10);
}

#[test]
fn test_esquive_weight_penalty_ignored() {
    let base = mock_stats(); // 10
    let etats = mock_etats();
    let eq = vec![Equipement {
        nom: "Lourde armure".to_string(),
        equipement_type: EquipmentType::Armure,
    }];

    let final_stats = calculer_stats_finales(base, eq, etats);
    // Weight penalty ignored -> 10
    assert_eq!(final_stats.esquive_totale, 10);
}

#[test]
fn test_esquive_mixed_modifiers_only_states() {
    let base = mock_stats(); // 10
    let mut etats = mock_etats();
    etats.fatigue = 1; // -1

    let eq = vec![Equipement {
        nom: "Bouclier".to_string(),
        equipement_type: EquipmentType::Armure,
    }];

    let final_stats = calculer_stats_finales(base, eq, etats);
    // 10 - 1 (fatigue) = 9
    assert_eq!(final_stats.esquive_totale, 9);
}

#[test]
fn test_esquive_cannot_be_negative() {
    let base = BaseStats { esquive_naturelle: 0 };
    let mut etats = mock_etats();
    etats.fatigue = 10;

    let eq = vec![];

    let final_stats = calculer_stats_finales(base, eq, etats);
    assert_eq!(final_stats.esquive_totale, 0);
}
