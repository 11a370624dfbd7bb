use wallgen::Gradiant;

#[test]
fn tables_have_nine_rows() {
    let styles = [
        Gradiant::Auto,
        Gradiant::Standard,
        Gradiant::Vibrant,
        Gradiant::Pastel,
        Gradiant::Mono,
    ];
    for g in styles {
        assert_eq!(g.gradiant().len(), 9);
    }
}

#[test]
fn standard_table_rows() {
    let t = Gradiant::Standard.gradiant();
    assert_eq!(t[0], (32, 50));
    assert_eq!(t[4], (64, 38));
    assert_eq!(t[8], (100, 20));
}

#[test]
fn auto_shares_standard_table() {
    assert_eq!(Gradiant::Auto.gradiant(), Gradiant::Standard.gradiant());
}

#[test]
fn mono_table_has_zero_saturation() {
    for (_, s) in Gradiant::Mono.gradiant() {
        assert_eq!(s, 0);
    }
}

#[test]
fn vibrant_and_pastel_tables_start_alike() {
    assert_eq!(Gradiant::Vibrant.gradiant()[0], (18, 99));
    assert_eq!(Gradiant::Pastel.gradiant()[0], (18, 99));
    assert_eq!(Gradiant::Pastel.gradiant()[1], (17, 66));
}

#[test]
fn names_round_trip() {
    let styles = [
        Gradiant::Auto,
        Gradiant::Standard,
        Gradiant::Vibrant,
        Gradiant::Pastel,
        Gradiant::Mono,
    ];
    for g in styles {
        assert_eq!(Gradiant::from_str(g.name()), Some(g));
    }
    assert_eq!(Gradiant::from_str("bogus"), None);
    assert_eq!(Gradiant::from_str("Mono"), None);
}

#[test]
fn resolve_auto_by_saturation() {
    assert_eq!(Gradiant::Auto.resolve(true), Gradiant::Mono);
    assert_eq!(Gradiant::Auto.resolve(false), Gradiant::Standard);
}

#[test]
fn resolve_keeps_concrete_styles() {
    assert_eq!(Gradiant::Vibrant.resolve(true), Gradiant::Vibrant);
    assert_eq!(Gradiant::Mono.resolve(false), Gradiant::Mono);
}

#[test]
fn default_is_auto() {
    assert_eq!(Gradiant::default(), Gradiant::Auto);
}
