use rust_math::material_parser::parse_material_layers;

#[test]
fn parses_two_layer_material_text() {
    let layers = parse_material_layers("pet 20 + Metall BOPP 30");
    assert_eq!(
        layers,
        vec![
            ("pet".to_string(), "20".to_string()),
            ("oppm".to_string(), "30".to_string())
        ]
    );
}

#[test]
fn keeps_slash_layer_together() {
    let layers = parse_material_layers("pet 12 + oppm/pe pr 20/30");
    assert_eq!(
        layers,
        vec![
            ("pet".to_string(), "12".to_string()),
            ("oppm/pe pr".to_string(), "20/30".to_string())
        ]
    );
}

#[test]
fn keeps_at_most_three_layers_and_maps_bopp() {
    let layers = parse_material_layers("BOPP 20 + bopp  mat 18 + pe 30 + cpp 25");
    assert_eq!(
        layers,
        vec![
            ("opp".to_string(), "20".to_string()),
            ("opp mat".to_string(), "18".to_string()),
            ("pe".to_string(), "30".to_string())
        ]
    );
}

#[test]
fn skips_pieces_without_a_micron() {
    let layers = parse_material_layers("pet + 30");
    assert!(layers.is_empty());
}
