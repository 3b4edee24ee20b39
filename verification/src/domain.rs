//! Domain events: heartbeats and mock financial transactions.
//!
//! The transaction generator is a stand-in upstream source: it draws
//! category, amount, location and card number at random, but every
//! generated value satisfies the same well-formedness contract
//! ([`tx_wf`]) that the wire codec relies on. Coordinates are carried
//! as integer millionths of a degree so that the wire form is exact.

use vstd::prelude::*;
use crate::text::{digit_str, is_digit_char, digit_char_val, json_plain, json_plain_char};

verus! {

/// A periodic liveness pulse.
#[derive(Debug, Clone)]
pub struct Heartbeat {
    pub status: String,
}

impl View for Heartbeat {
    type V = Seq<char>;

    open spec fn view(&self) -> Seq<char> {
        self.status@
    }
}

/// Merchant category of a transaction.
#[derive(Clone, Copy, Debug, PartialEq, Eq, Hash, Structural)]
pub enum TransactionCategory {
    Grocery,
    GasStation,
    Restaurant,
    OnlineRetail,
    Entertainment,
    Travel,
    Healthcare,
    Utilities,
}

/// The category a uniform draw in `0..100` selects: the weighted
/// distribution of the mock source.
pub open spec fn spec_category_of_percent(p: int) -> TransactionCategory {
    if p < 25 {
        TransactionCategory::Grocery
    } else if p < 40 {
        TransactionCategory::Restaurant
    } else if p < 55 {
        TransactionCategory::GasStation
    } else if p < 70 {
        TransactionCategory::OnlineRetail
    } else if p < 80 {
        TransactionCategory::Entertainment
    } else if p < 90 {
        TransactionCategory::Utilities
    } else if p < 95 {
        TransactionCategory::Travel
    } else {
        TransactionCategory::Healthcare
    }
}

/// Typical amount range of each category, in USD cents.
pub open spec fn spec_typical_amount_range(c: TransactionCategory) -> (u64, u64) {
    match c {
        TransactionCategory::Grocery => (500u64, 15000u64),
        TransactionCategory::GasStation => (2000u64, 8000u64),
        TransactionCategory::Restaurant => (1000u64, 12000u64),
        TransactionCategory::OnlineRetail => (1500u64, 25000u64),
        TransactionCategory::Entertainment => (1000u64, 20000u64),
        TransactionCategory::Travel => (5000u64, 100000u64),
        TransactionCategory::Healthcare => (3000u64, 50000u64),
        TransactionCategory::Utilities => (5000u64, 30000u64),
    }
}

impl TransactionCategory {
    /// All categories, in their fixed order.
    pub fn all() -> (r: Vec<TransactionCategory>)
        ensures
            r@ == seq![
                TransactionCategory::Grocery,
                TransactionCategory::GasStation,
                TransactionCategory::Restaurant,
                TransactionCategory::OnlineRetail,
                TransactionCategory::Entertainment,
                TransactionCategory::Travel,
                TransactionCategory::Healthcare,
                TransactionCategory::Utilities,
            ],
    {
        let r = vec![
            TransactionCategory::Grocery,
            TransactionCategory::GasStation,
            TransactionCategory::Restaurant,
            TransactionCategory::OnlineRetail,
            TransactionCategory::Entertainment,
            TransactionCategory::Travel,
            TransactionCategory::Healthcare,
            TransactionCategory::Utilities,
        ];
        proof {
            assert(r@ =~= seq![
                TransactionCategory::Grocery,
                TransactionCategory::GasStation,
                TransactionCategory::Restaurant,
                TransactionCategory::OnlineRetail,
                TransactionCategory::Entertainment,
                TransactionCategory::Travel,
                TransactionCategory::Healthcare,
                TransactionCategory::Utilities,
            ]);
        }
        r
    }

    /// The category a percentile draw selects.
    pub fn from_percent(p: u64) -> (r: TransactionCategory)
        requires
            p < 100,
        ensures
            r == spec_category_of_percent(p as int),
    {
        if p < 25 {
            TransactionCategory::Grocery
        } else if p < 40 {
            TransactionCategory::Restaurant
        } else if p < 55 {
            TransactionCategory::GasStation
        } else if p < 70 {
            TransactionCategory::OnlineRetail
        } else if p < 80 {
            TransactionCategory::Entertainment
        } else if p < 90 {
            TransactionCategory::Utilities
        } else if p < 95 {
            TransactionCategory::Travel
        } else {
            TransactionCategory::Healthcare
        }
    }

    /// A random category, weighted as the typical transaction mix.
    pub fn random() -> (r: TransactionCategory) {
        Self::from_percent(random_below(100))
    }

    /// Typical amount range for this category (min, max) in cents.
    pub fn typical_amount_range(&self) -> (r: (u64, u64))
        ensures
            r == spec_typical_amount_range(*self),
            r.0 <= r.1,
    {
        match self {
            TransactionCategory::Grocery => (500, 15000),
            TransactionCategory::GasStation => (2000, 8000),
            TransactionCategory::Restaurant => (1000, 12000),
            TransactionCategory::OnlineRetail => (1500, 25000),
            TransactionCategory::Entertainment => (1000, 20000),
            TransactionCategory::Travel => (5000, 100000),
            TransactionCategory::Healthcare => (3000, 50000),
            TransactionCategory::Utilities => (5000, 30000),
        }
    }
}

/// Ghost image of a [`Location`].
#[verifier::ext_equal]
pub ghost struct LocView {
    pub city: Seq<char>,
    pub country_iso: Seq<char>,
    pub latitude_micro: i64,
    pub longitude_micro: i64,
}

/// Well-formedness of a location: coordinates within the globe and
/// names that embed in a JSON string unescaped.
pub open spec fn loc_wf(v: LocView) -> bool {
    &&& json_plain(v.city)
    &&& json_plain(v.country_iso)
    &&& -90_000_000 <= v.latitude_micro <= 90_000_000
    &&& -180_000_000 <= v.longitude_micro <= 180_000_000
}

/// Geographic location of a transaction. Coordinates are degrees in
/// millionths (micro-degrees), so every wire value is exact.
#[derive(Debug, Clone)]
pub struct Location {
    /// City name
    pub city: String,
    /// ISO 3166-1 alpha-2 country code
    pub country_iso: String,
    /// Latitude in millionths of a degree (-90e6 to 90e6)
    pub latitude_micro: i64,
    /// Longitude in millionths of a degree (-180e6 to 180e6)
    pub longitude_micro: i64,
}

impl View for Location {
    type V = LocView;

    open spec fn view(&self) -> LocView {
        LocView {
            city: self.city@,
            country_iso: self.country_iso@,
            latitude_micro: self.latitude_micro,
            longitude_micro: self.longitude_micro,
        }
    }
}

impl Location {
    /// The fixed table of cities the mock source draws from.
    pub fn from_index(i: u64) -> (r: Location)
        requires
            i < 10,
        ensures
            loc_wf(r@),
            i == 0 ==> r@ == (LocView { city: "San Francisco"@, country_iso: "US"@, latitude_micro: 37774929i64, longitude_micro: -122419418i64 }),
            i == 1 ==> r@ == (LocView { city: "New York"@, country_iso: "US"@, latitude_micro: 40712776i64, longitude_micro: -74005974i64 }),
            i == 2 ==> r@ == (LocView { city: "Los Angeles"@, country_iso: "US"@, latitude_micro: 34052235i64, longitude_micro: -118243683i64 }),
            i == 3 ==> r@ == (LocView { city: "Chicago"@, country_iso: "US"@, latitude_micro: 41878113i64, longitude_micro: -87629799i64 }),
            i == 4 ==> r@ == (LocView { city: "Miami"@, country_iso: "US"@, latitude_micro: 25761681i64, longitude_micro: -80191788i64 }),
            i == 5 ==> r@ == (LocView { city: "London"@, country_iso: "GB"@, latitude_micro: 51507351i64, longitude_micro: -127758i64 }),
            i == 6 ==> r@ == (LocView { city: "Paris"@, country_iso: "FR"@, latitude_micro: 48856613i64, longitude_micro: 2352222i64 }),
            i == 7 ==> r@ == (LocView { city: "Tokyo"@, country_iso: "JP"@, latitude_micro: 35689487i64, longitude_micro: 139691711i64 }),
            i == 8 ==> r@ == (LocView { city: "Sydney"@, country_iso: "AU"@, latitude_micro: -33868820i64, longitude_micro: 151209290i64 }),
            i == 9 ==> r@ == (LocView { city: "Toronto"@, country_iso: "CA"@, latitude_micro: 43651070i64, longitude_micro: -79347015i64 }),
    {
        proof {
            reveal_strlit("San Francisco");
            reveal_strlit("New York");
            reveal_strlit("Los Angeles");
            reveal_strlit("Chicago");
            reveal_strlit("Miami");
            reveal_strlit("London");
            reveal_strlit("Paris");
            reveal_strlit("Tokyo");
            reveal_strlit("Sydney");
            reveal_strlit("Toronto");
            reveal_strlit("US");
            reveal_strlit("GB");
            reveal_strlit("FR");
            reveal_strlit("JP");
            reveal_strlit("AU");
            reveal_strlit("CA");
        }
        if i == 0 {
            Location { city: String::from_str("San Francisco"), country_iso: String::from_str("US"), latitude_micro: 37774929, longitude_micro: -122419418 }
        } else if i == 1 {
            Location { city: String::from_str("New York"), country_iso: String::from_str("US"), latitude_micro: 40712776, longitude_micro: -74005974 }
        } else if i == 2 {
            Location { city: String::from_str("Los Angeles"), country_iso: String::from_str("US"), latitude_micro: 34052235, longitude_micro: -118243683 }
        } else if i == 3 {
            Location { city: String::from_str("Chicago"), country_iso: String::from_str("US"), latitude_micro: 41878113, longitude_micro: -87629799 }
        } else if i == 4 {
            Location { city: String::from_str("Miami"), country_iso: String::from_str("US"), latitude_micro: 25761681, longitude_micro: -80191788 }
        } else if i == 5 {
            Location { city: String::from_str("London"), country_iso: String::from_str("GB"), latitude_micro: 51507351, longitude_micro: -127758 }
        } else if i == 6 {
            Location { city: String::from_str("Paris"), country_iso: String::from_str("FR"), latitude_micro: 48856613, longitude_micro: 2352222 }
        } else if i == 7 {
            Location { city: String::from_str("Tokyo"), country_iso: String::from_str("JP"), latitude_micro: 35689487, longitude_micro: 139691711 }
        } else if i == 8 {
            Location { city: String::from_str("Sydney"), country_iso: String::from_str("AU"), latitude_micro: -33868820, longitude_micro: 151209290 }
        } else {
            Location { city: String::from_str("Toronto"), country_iso: String::from_str("CA"), latitude_micro: 43651070, longitude_micro: -79347015 }
        }
    }

    /// A random location from the fixed table of cities.
    pub fn random() -> (r: Location)
        ensures
            loc_wf(r@),
    {
        Self::from_index(random_below(10))
    }
}

/// Ghost image of a [`Transaction`].
#[verifier::ext_equal]
pub ghost struct TxView {
    pub id: Seq<char>,
    pub timestamp: Seq<char>,
    pub cc_number: Seq<char>,
    pub category: TransactionCategory,
    pub amount_usd_cents: u64,
    pub location: LocView,
    pub is_online: bool,
}

/// Well-formedness of a transaction: every text field embeds in a JSON
/// string unescaped, and the location is well formed.
pub open spec fn tx_wf(v: TxView) -> bool {
    &&& json_plain(v.id)
    &&& json_plain(v.timestamp)
    &&& json_plain(v.cc_number)
    &&& loc_wf(v.location)
}

/// A mock credit card transaction.
#[derive(Debug, Clone)]
pub struct Transaction {
    /// Unique transaction identifier (32 hex characters)
    pub id: String,
    /// Transaction timestamp in RFC3339 format
    pub timestamp: String,
    /// Credit card number (mock data only)
    pub cc_number: String,
    /// Merchant category
    pub category: TransactionCategory,
    /// Transaction amount in USD cents
    pub amount_usd_cents: u64,
    /// Geographic location of the transaction
    pub location: Location,
    /// Whether the transaction was made online
    pub is_online: bool,
}

impl View for Transaction {
    type V = TxView;

    open spec fn view(&self) -> TxView {
        TxView {
            id: self.id@,
            timestamp: self.timestamp@,
            cc_number: self.cc_number@,
            category: self.category,
            amount_usd_cents: self.amount_usd_cents,
            location: self.location@,
            is_online: self.is_online,
        }
    }
}

/// The Luhn contribution of one digit: doubled digits above four fold
/// back by nine.
pub open spec fn luhn_contrib(d: u8, dbl: bool) -> int {
    if dbl {
        if 2 * d > 9 {
            2 * d - 9
        } else {
            2 * d
        }
    } else {
        d as int
    }
}

/// The Luhn sum of a digit sequence, walking from the right; `dbl`
/// says whether the rightmost digit is doubled.
pub open spec fn luhn_sum(s: Seq<u8>, dbl: bool) -> int
    decreases s.len(),
{
    if s.len() == 0 {
        0
    } else {
        luhn_contrib(s.last(), dbl) + luhn_sum(s.drop_last(), !dbl)
    }
}

/// The digit values of a string of digit characters.
pub open spec fn digit_vals(s: Seq<char>) -> Seq<u8> {
    Seq::new(s.len(), |i: int| digit_char_val(s[i]) as u8)
}

/// A valid mock card number: sixteen digits whose Luhn sum (check
/// digit not doubled) is divisible by ten.
pub open spec fn cc_digits_valid(s: Seq<char>) -> bool {
    &&& s.len() == 16
    &&& forall|i: int| 0 <= i < s.len() ==> is_digit_char(#[trigger] s[i])
    &&& luhn_sum(digit_vals(s), false) % 10 == 0
}

fn luhn_sum_upto(digits: &Vec<u8>, upto: usize, dbl: bool) -> (r: u64)
    requires
        upto <= digits.len(),
        digits.len() <= 4096,
        forall|i: int| 0 <= i < digits.len() ==> digits[i] < 10,
    ensures
        r as int == luhn_sum(digits@.subrange(0, upto as int), dbl),
        r <= 9 * upto,
    decreases upto,
{
    if upto == 0 {
        assert(digits@.subrange(0, 0) =~= Seq::<u8>::empty());
        0
    } else {
        let d = digits[upto - 1];
        let c: u64 = if dbl {
            if 2 * d > 9 {
                (2 * d - 9) as u64
            } else {
                (2 * d) as u64
            }
        } else {
            d as u64
        };
        let rest = luhn_sum_upto(digits, upto - 1, !dbl);
        proof {
            let s = digits@.subrange(0, upto as int);
            assert(s.last() == digits@[upto - 1]);
            assert(s.drop_last() =~= digits@.subrange(0, upto - 1));
        }
        c + rest
    }
}

impl Transaction {
    /// The Luhn check digit for a sequence of digits: appending it
    /// makes the whole sequence Luhn-valid.
    pub fn calculate_luhn_checksum(digits: &Vec<u8>) -> (r: u8)
        requires
            digits.len() <= 4096,
            forall|i: int| 0 <= i < digits.len() ==> digits[i] < 10,
        ensures
            r < 10,
            luhn_sum(digits@.push(r), false) % 10 == 0,
    {
        let sum = luhn_sum_upto(digits, digits.len(), true);
        let m = sum % 10;
        let r: u8 = if m == 0 {
            0
        } else {
            (10 - m) as u8
        };
        proof {
            assert(digits@.subrange(0, digits.len() as int) =~= digits@);
            let full = digits@.push(r);
            assert(full.last() == r);
            assert(full.drop_last() =~= digits@);
            assert(luhn_sum(full, false) == r + luhn_sum(digits@, true));
            vstd::arithmetic::div_mod::lemma_fundamental_div_mod(sum as int, 10);
            if m != 0 {
                assert(r + sum as int == 10 * ((sum as int) / 10 + 1));
                vstd::arithmetic::div_mod::lemma_mod_multiples_basic(
                    (sum as int) / 10 + 1,
                    10,
                );
            }
        }
        r
    }

    /// A mock card number with the scheme prefix four, fourteen random
    /// digits, and a valid Luhn check digit.
    pub fn generate_valid_cc_number() -> (r: String)
        ensures
            cc_digits_valid(r@),
    {
        let mut digits: Vec<u8> = Vec::new();
        digits.push(4);
        let mut k: usize = 0;
        while k < 14
            invariant
                digits.len() == k + 1,
                k <= 14,
                forall|i: int| 0 <= i < digits.len() ==> digits[i] < 10,
            decreases 14 - k,
        {
            digits.push(random_below(10) as u8);
            k += 1;
        }
        let check = Self::calculate_luhn_checksum(&digits);
        digits.push(check);
        let mut out = String::new();
        let mut j: usize = 0;
        while j < digits.len()
            invariant
                j <= digits.len(),
                digits.len() == 16,
                forall|i: int| 0 <= i < digits.len() ==> digits[i] < 10,
                luhn_sum(digits@, false) % 10 == 0,
                out@.len() == j,
                forall|i: int| 0 <= i < j ==> out@[i] == crate::text::spec_digit_char(
                    digits[i] as int,
                ),
            decreases digits.len() - j,
        {
            out.append(digit_str(digits[j] as u64));
            j += 1;
        }
        proof {
            assert forall|i: int| 0 <= i < out@.len() implies is_digit_char(#[trigger] out@[i]) by {
                assert(out@[i] == crate::text::spec_digit_char(digits[i] as int));
            }
            assert(digit_vals(out@) =~= digits@);
        }
        out
    }

    /// A realistic mock transaction: valid Luhn card number, a city
    /// from the fixed table, a category-appropriate amount, and a
    /// roughly thirty-percent share of online payments.
    pub fn simple_mock() -> (r: Transaction)
        ensures
            tx_wf(r@),
            r.id@.len() == 32,
            cc_digits_valid(r.cc_number@),
            spec_typical_amount_range(r.category).0 <= r.amount_usd_cents
                <= spec_typical_amount_range(r.category).1,
    {
        let category = TransactionCategory::random();
        let location = Location::random();
        let (min_amount, max_amount) = category.typical_amount_range();
        let amount_usd_cents = random_in_range(min_amount, max_amount);
        let is_online = random_below(100) < 30;
        let id = fresh_id();
        let timestamp = now_rfc3339();
        let cc_number = Self::generate_valid_cc_number();
        proof {
            assert forall|i: int| 0 <= i < cc_number@.len() implies json_plain_char(
                #[trigger] cc_number@[i],
            ) by {
                assert(is_digit_char(cc_number@[i]));
            }
            assert forall|i: int| 0 <= i < id@.len() implies json_plain_char(
                #[trigger] id@[i],
            ) by {
                assert(is_hex_char(id@[i]));
            }
        }
        Transaction {
            id,
            timestamp,
            cc_number,
            category,
            amount_usd_cents,
            location,
            is_online,
        }
    }
}

/// A uniform draw below `bound`.
/// Relies on rand's `Rng::random_range` over `0..bound`: the sample
/// lies in the given range; the range must not be empty.
#[verifier::external_body]
fn random_below(bound: u64) -> (r: u64)
    requires
        bound >= 1,
    ensures
        r < bound,
{
    rand::Rng::random_range(&mut rand::rng(), 0..bound)
}

/// A uniform draw from the inclusive range `lo..=hi`.
fn random_in_range(lo: u64, hi: u64) -> (r: u64)
    requires
        lo <= hi,
        hi - lo < u64::MAX,
    ensures
        lo <= r <= hi,
{
    lo + random_below(hi - lo + 1)
}

/// A fresh 32-character identifier.
/// Relies on uuid's `Uuid::new_v4` and its simple format: the text is
/// exactly 32 lowercase hexadecimal digits.
#[verifier::external_body]
fn fresh_id() -> (r: String)
    ensures
        r@.len() == 32,
        forall|i: int| 0 <= i < r@.len() ==> is_hex_char(#[trigger] r@[i]),
{
    uuid::Uuid::new_v4().simple().to_string()
}

/// A lowercase hexadecimal digit character.
pub open spec fn is_hex_char(c: char) -> bool {
    is_digit_char(c) || c == 'a' || c == 'b' || c == 'c' || c == 'd' || c == 'e' || c == 'f'
}

/// The current time as an RFC3339 text.
/// Relies on chrono's `DateTime::to_rfc3339`: the text is built from
/// digits and the separators `-+:.TZ` only, so it embeds in a JSON
/// string unescaped.
#[verifier::external_body]
fn now_rfc3339() -> (r: String)
    ensures
        json_plain(r@),
{
    chrono::Utc::now().to_rfc3339()
}

} // verus!
