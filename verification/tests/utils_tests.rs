use studio_commons::utils::{format_currency, generate_id, Currency, Region, StreamType};

#[test]
fn test_region_from_str() {
    assert_eq!(Region::from_str("LA"), Region::LA);
    assert_eq!(Region::from_str("mumbai"), Region::Mumbai);
}

#[test]
fn test_format_currency() {
    assert_eq!(format_currency(100050, &Currency::USD), "$1000.50");
    assert_eq!(format_currency(100050, &Currency::EUR), "€1000.50");
}

#[test]
fn test_generate_id() {
    let id1 = generate_id();
    let id2 = generate_id();
    assert_ne!(id1, id2);
}

#[test]
fn region_unknown_name_is_custom_as_given() {
    assert_eq!(Region::from_str("Paris"), Region::Custom("Paris".to_string()));
    assert_eq!(Region::from_str("sYdNeY"), Region::Sydney);
}

#[test]
fn format_currency_every_currency() {
    assert_eq!(format_currency(5, &Currency::USD), "$0.05");
    assert_eq!(format_currency(123456, &Currency::GBP), "£1234.56");
    assert_eq!(format_currency(123456, &Currency::INR), "₹1234.56");
    assert_eq!(format_currency(123456, &Currency::JPY), "¥123456");
    assert_eq!(format_currency(100050, &Currency::XRP), "0.100050 XRP");
    assert_eq!(format_currency(1_500_000, &Currency::XRP), "1.500000 XRP");
    assert_eq!(format_currency(0, &Currency::XRP), "0.000000 XRP");
    assert_eq!(format_currency(100, &Currency::USDC), "$1.00 USDC");
    assert_eq!(format_currency(0, &Currency::EURS), "€0.00 EURS");
}

#[test]
fn display_names() {
    assert_eq!(Region::LA.to_display_string(), "Los Angeles");
    assert_eq!(Region::Custom("Oslo".to_string()).to_display_string(), "Oslo");
    assert_eq!(StreamType::EquipmentFees.to_display_string(), "Equipment Fees");
    assert_eq!(StreamType::Other("Merch".to_string()).to_display_string(), "Merch");
}

#[test]
fn printed_region_names_parse_back() {
    for r in [
        Region::Atlanta,
        Region::Mumbai,
        Region::Berlin,
        Region::Lagos,
        Region::London,
        Region::Tokyo,
        Region::Sydney,
        Region::Custom("Reykjavik".to_string()),
    ] {
        assert_eq!(Region::from_str(&r.to_display_string()), r);
    }
    // Los Angeles and New York City print their full names, not their codes.
    assert_eq!(
        Region::from_str(&Region::LA.to_display_string()),
        Region::Custom("Los Angeles".to_string())
    );
}
