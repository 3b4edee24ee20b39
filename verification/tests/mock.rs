use txapi::domain::{Location, Transaction, TransactionCategory};
use txapi::parse::parse_transaction;
use txapi::wire::render_transaction;

fn luhn_ok(digits: &str) -> bool {
    let sum: u32 = digits
        .chars()
        .rev()
        .enumerate()
        .map(|(idx, c)| {
            let mut d = c.to_digit(10).expect("digit");
            if idx % 2 == 1 {
                d *= 2;
                if d > 9 {
                    d -= 9;
                }
            }
            d
        })
        .sum();
    sum % 10 == 0
}

#[test]
fn luhn_checksum_exact_value() {
    let digits: Vec<u8> = vec![4, 5, 9, 9];
    let check = Transaction::calculate_luhn_checksum(&digits);
    assert_eq!(check, 7);
    assert!(luhn_ok("45997"));
}

#[test]
fn generated_card_numbers_are_luhn_valid() {
    for _ in 0..50 {
        let cc = Transaction::generate_valid_cc_number();
        assert_eq!(cc.len(), 16);
        assert!(cc.starts_with('4'));
        assert!(cc.chars().all(|c| c.is_ascii_digit()));
        assert!(luhn_ok(&cc));
    }
}

#[test]
fn all_categories_in_order() {
    let all = TransactionCategory::all();
    assert_eq!(all.len(), 8);
    assert_eq!(all[0], TransactionCategory::Grocery);
    assert_eq!(all[7], TransactionCategory::Utilities);
}

#[test]
fn typical_amount_ranges_exact() {
    assert_eq!(TransactionCategory::Grocery.typical_amount_range(), (500, 15000));
    assert_eq!(TransactionCategory::GasStation.typical_amount_range(), (2000, 8000));
    assert_eq!(TransactionCategory::Restaurant.typical_amount_range(), (1000, 12000));
    assert_eq!(TransactionCategory::OnlineRetail.typical_amount_range(), (1500, 25000));
    assert_eq!(TransactionCategory::Entertainment.typical_amount_range(), (1000, 20000));
    assert_eq!(TransactionCategory::Travel.typical_amount_range(), (5000, 100000));
    assert_eq!(TransactionCategory::Healthcare.typical_amount_range(), (3000, 50000));
    assert_eq!(TransactionCategory::Utilities.typical_amount_range(), (5000, 30000));
}

#[test]
fn weighted_category_thresholds() {
    assert_eq!(TransactionCategory::from_percent(0), TransactionCategory::Grocery);
    assert_eq!(TransactionCategory::from_percent(24), TransactionCategory::Grocery);
    assert_eq!(TransactionCategory::from_percent(25), TransactionCategory::Restaurant);
    assert_eq!(TransactionCategory::from_percent(40), TransactionCategory::GasStation);
    assert_eq!(TransactionCategory::from_percent(55), TransactionCategory::OnlineRetail);
    assert_eq!(TransactionCategory::from_percent(70), TransactionCategory::Entertainment);
    assert_eq!(TransactionCategory::from_percent(80), TransactionCategory::Utilities);
    assert_eq!(TransactionCategory::from_percent(90), TransactionCategory::Travel);
    assert_eq!(TransactionCategory::from_percent(95), TransactionCategory::Healthcare);
    assert_eq!(TransactionCategory::from_percent(99), TransactionCategory::Healthcare);
}

#[test]
fn location_table_values() {
    let sf = Location::from_index(0);
    assert_eq!(sf.city, "San Francisco");
    assert_eq!(sf.country_iso, "US");
    assert_eq!(sf.latitude_micro, 37_774_929);
    assert_eq!(sf.longitude_micro, -122_419_418);
    let sydney = Location::from_index(8);
    assert_eq!(sydney.city, "Sydney");
    assert_eq!(sydney.country_iso, "AU");
    assert_eq!(sydney.latitude_micro, -33_868_820);
    assert_eq!(sydney.longitude_micro, 151_209_290);
}

#[test]
fn mock_transactions_are_well_formed() {
    for _ in 0..25 {
        let tx = Transaction::simple_mock();
        assert_eq!(tx.id.len(), 32);
        assert!(tx.id.chars().all(|c| c.is_ascii_hexdigit()));
        assert_eq!(tx.cc_number.len(), 16);
        assert!(luhn_ok(&tx.cc_number));
        let (lo, hi) = tx.category.typical_amount_range();
        assert!(lo <= tx.amount_usd_cents && tx.amount_usd_cents <= hi);
        assert!(-90_000_000 <= tx.location.latitude_micro && tx.location.latitude_micro <= 90_000_000);
        assert!(-180_000_000 <= tx.location.longitude_micro && tx.location.longitude_micro <= 180_000_000);
    }
}

#[test]
fn mock_transactions_round_trip_through_the_wire() {
    for _ in 0..25 {
        let tx = Transaction::simple_mock();
        let wire = render_transaction(&tx);
        let back = parse_transaction(&wire).expect("mock transaction must round trip");
        assert_eq!(back.id, tx.id);
        assert_eq!(back.timestamp, tx.timestamp);
        assert_eq!(back.cc_number, tx.cc_number);
        assert_eq!(back.category, tx.category);
        assert_eq!(back.amount_usd_cents, tx.amount_usd_cents);
        assert_eq!(back.location.city, tx.location.city);
        assert_eq!(back.is_online, tx.is_online);
    }
}
