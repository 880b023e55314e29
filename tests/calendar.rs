use siliconsneaker2::calendar::{
    day_symbol, is_american_thanksgiving, is_easter, is_fourth_thursday, symbol_for, DaySymbol,
};

#[test]
fn thanksgiving_2024() {
    assert!(is_american_thanksgiving(2024, 11, 28));
    assert!(!is_american_thanksgiving(2024, 11, 21));
    assert!(!is_american_thanksgiving(2024, 10, 28));
    assert!(is_american_thanksgiving(2025, 11, 27));
}

#[test]
fn fourth_thursday_from_weekday() {
    // November 1st 2024 was a Friday (4 days from Monday).
    assert!(is_fourth_thursday(4, 28));
    assert!(!is_fourth_thursday(4, 21));
    // A Thursday on the 1st puts the fourth one on the 22nd.
    assert!(is_fourth_thursday(3, 22));
}

#[test]
fn easter_reference_dates() {
    assert!(is_easter(2024, 3, 31));
    assert!(is_easter(2025, 4, 20));
    assert!(is_easter(2000, 4, 23));
    assert!(!is_easter(2024, 4, 1));
}

#[test]
fn symbols_by_date() {
    assert_eq!(day_symbol(2024, 3, 31), DaySymbol::Bunny);
    assert_eq!(day_symbol(2024, 11, 28), DaySymbol::Turkey);
    assert_eq!(day_symbol(2024, 12, 25), DaySymbol::Gift);
    assert_eq!(day_symbol(2024, 1, 1), DaySymbol::Champagne);
    assert_eq!(day_symbol(2024, 6, 5), DaySymbol::Runner);
    assert_eq!(symbol_for(3, 17, false, false), DaySymbol::Clover);
    assert_eq!(symbol_for(12, 25, true, true), DaySymbol::Bunny);
    assert_eq!(DaySymbol::Runner.markup(), "<span size=\"200%\">🏃</span>");
}
