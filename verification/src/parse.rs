//! Verified parsers for the wire frames.
//!
//! Each accepted grammar is defined by a spec-level parser over a
//! `Seq<char>`; the executable parsers are proved to return exactly
//! what the spec parser says. The round-trip laws at the end prove
//! that parsing a rendered transaction yields it back field for field.

use vstd::prelude::*;
use crate::text::{is_digit_char, digit_char_val, json_plain_char, str_eq};
use crate::domain::{Transaction, TransactionCategory, TxView, Location, LocView, tx_wf};
use crate::wire::{dec_of, padded_of, micro_of, bool_of, cat_name, wire_of_tx};

verus! {

// ---------------------------------------------------------------------
// Spec-level scanning primitives
// ---------------------------------------------------------------------

/// JSON insignificant whitespace.
pub open spec fn is_ws_char(c: char) -> bool {
    c == ' ' || c == '\t' || c == '\n' || c == '\r'
}

/// The first index at or after `i` holding a non-whitespace character.
pub open spec fn ws_end(s: Seq<char>, i: int) -> int
    decreases s.len() - i,
{
    if 0 <= i < s.len() && is_ws_char(s[i]) {
        ws_end(s, i + 1)
    } else {
        i
    }
}

/// Consumes an exact literal at `i`.
pub open spec fn sp_lit(s: Seq<char>, i: int, lit: Seq<char>) -> Option<int> {
    if 0 <= i && i + lit.len() <= s.len() && s.subrange(i, i + lit.len()) == lit {
        Some(i + lit.len())
    } else {
        None
    }
}

/// The index of the closing quote of a string body starting at `i`;
/// escape sequences are not part of the accepted grammar.
pub open spec fn str_end(s: Seq<char>, i: int) -> Option<int>
    decreases s.len() - i,
{
    if !(0 <= i < s.len()) {
        None
    } else if s[i] == '"' {
        Some(i)
    } else if s[i] == '\\' {
        None
    } else {
        str_end(s, i + 1)
    }
}

/// Consumes a string body up to (not including) its closing quote.
pub open spec fn sp_str_content(s: Seq<char>, i: int) -> Option<(Seq<char>, int)> {
    match str_end(s, i) {
        Some(e) => Some((s.subrange(i, e), e)),
        None => None,
    }
}

/// Consumes a whole quoted string at `i`, yielding its body.
pub open spec fn sp_string(s: Seq<char>, i: int) -> Option<(Seq<char>, int)> {
    if 0 <= i < s.len() && s[i] == '"' {
        match sp_str_content(s, i + 1) {
            Some((body, e)) => Some((body, e + 1)),
            None => None,
        }
    } else {
        None
    }
}

/// The end of the run of digit characters starting at `i`.
pub open spec fn dig_end(s: Seq<char>, i: int) -> int
    decreases s.len() - i,
{
    if 0 <= i < s.len() && is_digit_char(s[i]) {
        dig_end(s, i + 1)
    } else {
        i
    }
}

/// The value of a sequence of digit characters.
pub open spec fn seq_digit_val(s: Seq<char>) -> nat
    decreases s.len(),
{
    if s.len() == 0 {
        0
    } else {
        (seq_digit_val(s.drop_last()) * 10 + digit_char_val(s.last())) as nat
    }
}

/// Consumes a canonical decimal `u64` at `i`: at least one digit, no
/// leading zero, value within `u64`.
pub open spec fn sp_u64(s: Seq<char>, i: int) -> Option<(u64, int)> {
    let e = dig_end(s, i);
    if e == i {
        None
    } else if s[i] == '0' && e > i + 1 {
        None
    } else if seq_digit_val(s.subrange(i, e)) > u64::MAX {
        None
    } else {
        Some((seq_digit_val(s.subrange(i, e)) as u64, e))
    }
}

/// Ten to the `k`.
pub open spec fn pow10(k: nat) -> nat
    decreases k,
{
    if k == 0 {
        1
    } else {
        10 * pow10((k - 1) as nat)
    }
}

/// Consumes a signed fixed-point coordinate at `i`: optional minus,
/// canonical integer part, a dot, one to six fraction digits; the value
/// is in millionths and bounded by a thousand degrees.
pub open spec fn sp_micro(s: Seq<char>, i: int) -> Option<(int, int)> {
    let neg = 0 <= i < s.len() && s[i] == '-';
    let i1 = if neg { i + 1 } else { i };
    match sp_u64(s, i1) {
        None => None,
        Some((ip, j)) => {
            if !(j < s.len() && s[j] == '.') {
                None
            } else {
                let e = dig_end(s, j + 1);
                let k = e - (j + 1);
                if !(1 <= k <= 6) {
                    None
                } else {
                    let frac = seq_digit_val(s.subrange(j + 1, e)) * pow10((6 - k) as nat);
                    let mag = ip * 1000000 + frac;
                    if mag > 1_000_000_000 {
                        None
                    } else {
                        Some((if neg { -mag } else { mag as int }, e))
                    }
                }
            }
        },
    }
}

/// Consumes a JSON boolean at `i`.
pub open spec fn sp_bool(s: Seq<char>, i: int) -> Option<(bool, int)> {
    match sp_lit(s, i, "true"@) {
        Some(j) => Some((true, j)),
        None => match sp_lit(s, i, "false"@) {
            Some(j) => Some((false, j)),
            None => None,
        },
    }
}

/// The category a wire name designates, if any.
pub open spec fn spec_cat_of_name(name: Seq<char>) -> Option<TransactionCategory> {
    if name == "grocery"@ {
        Some(TransactionCategory::Grocery)
    } else if name == "gas_station"@ {
        Some(TransactionCategory::GasStation)
    } else if name == "restaurant"@ {
        Some(TransactionCategory::Restaurant)
    } else if name == "online_retail"@ {
        Some(TransactionCategory::OnlineRetail)
    } else if name == "entertainment"@ {
        Some(TransactionCategory::Entertainment)
    } else if name == "travel"@ {
        Some(TransactionCategory::Travel)
    } else if name == "healthcare"@ {
        Some(TransactionCategory::Healthcare)
    } else if name == "utilities"@ {
        Some(TransactionCategory::Utilities)
    } else {
        None
    }
}

// ---------------------------------------------------------------------
// Laws about the scanning primitives on rendered text
// ---------------------------------------------------------------------

/// A literal standing at its own position is consumed.
pub proof fn lemma_sp_lit_at(s: Seq<char>, i: int, lit: Seq<char>)
    requires
        0 <= i,
        i + lit.len() <= s.len(),
        s.subrange(i, i + lit.len()) == lit,
    ensures
        sp_lit(s, i, lit) == Some(i + lit.len()),
{
}

/// Scanning a string body of plain characters stops exactly at the
/// closing quote.
pub proof fn lemma_str_end_plain(s: Seq<char>, i: int, n: int)
    requires
        0 <= i,
        0 <= n,
        i + n < s.len(),
        forall|j: int| i <= j < i + n ==> json_plain_char(#[trigger] s[j]),
        s[i + n] == '"',
    ensures
        str_end(s, i) == Some(i + n),
    decreases n,
{
    if n > 0 {
        assert(json_plain_char(s[i]));
        lemma_str_end_plain(s, i + 1, n - 1);
    }
}

/// A digit run bounded by a non-digit ends exactly at the boundary.
pub proof fn lemma_dig_end_run(s: Seq<char>, i: int, n: int)
    requires
        0 <= i,
        0 <= n,
        i + n <= s.len(),
        forall|j: int| i <= j < i + n ==> is_digit_char(#[trigger] s[j]),
        i + n == s.len() || !is_digit_char(s[i + n]),
    ensures
        dig_end(s, i) == i + n,
    decreases n,
{
    if n > 0 {
        lemma_dig_end_run(s, i + 1, n - 1);
    }
}

/// The canonical decimal text of `n` is all digits, starts with a zero
/// only for zero itself, and evaluates back to `n`.
pub proof fn lemma_dec_of_val(n: nat)
    ensures
        dec_of(n).len() >= 1,
        forall|j: int| 0 <= j < dec_of(n).len() ==> is_digit_char(#[trigger] dec_of(n)[j]),
        seq_digit_val(dec_of(n)) == n,
        dec_of(n)[0] == '0' ==> n == 0,
    decreases n,
{
    if n < 10 {
        assert(dec_of(n) == seq![crate::text::spec_digit_char(n as int)]);
        assert(dec_of(n).drop_last() =~= Seq::<char>::empty());
        assert(dec_of(n).last() == crate::text::spec_digit_char(n as int));
        assert(digit_char_val(crate::text::spec_digit_char(n as int)) == n);
        assert(seq_digit_val(dec_of(n)) == seq_digit_val(Seq::<char>::empty()) * 10
            + digit_char_val(dec_of(n).last()));
    } else {
        lemma_dec_of_val(n / 10);
        let s = dec_of(n);
        assert(s == dec_of(n / 10).push(crate::text::spec_digit_char((n % 10) as int)));
        assert(s.drop_last() =~= dec_of(n / 10));
        assert(s.last() == crate::text::spec_digit_char((n % 10) as int));
        assert(digit_char_val(crate::text::spec_digit_char((n % 10) as int)) == n % 10);
        assert(seq_digit_val(s) == seq_digit_val(dec_of(n / 10)) * 10 + digit_char_val(s.last()));
        vstd::arithmetic::div_mod::lemma_fundamental_div_mod(n as int, 10);
        assert(s[0] == dec_of(n / 10)[0]);
    }
}

/// The zero-padded text of `n` below ten-to-the-`k` is `k` digits and
/// evaluates back to `n`.
pub proof fn lemma_padded_of_val(n: nat, k: nat)
    requires
        n < pow10(k),
    ensures
        padded_of(n, k).len() == k,
        forall|j: int| 0 <= j < k ==> is_digit_char(#[trigger] padded_of(n, k)[j]),
        seq_digit_val(padded_of(n, k)) == n,
    decreases k,
{
    if k == 0 {
    } else {
        vstd::arithmetic::div_mod::lemma_fundamental_div_mod(n as int, 10);
        assert(n / 10 < pow10((k - 1) as nat)) by {
            assert(pow10(k) == 10 * pow10((k - 1) as nat));
        }
        lemma_padded_of_val(n / 10, (k - 1) as nat);
        let s = padded_of(n, k);
        assert(s == padded_of(n / 10, (k - 1) as nat).push(
            crate::text::spec_digit_char((n % 10) as int),
        ));
        assert(s.drop_last() =~= padded_of(n / 10, (k - 1) as nat));
    }
}

/// Ten to the six, spelled out.
pub proof fn lemma_pow10_6()
    ensures
        pow10(6) == 1000000,
{
    assert(pow10(0) == 1);
    assert(pow10(1) == 10);
    assert(pow10(2) == 100);
    assert(pow10(3) == 1000);
    assert(pow10(4) == 10000);
    assert(pow10(5) == 100000);
    assert(pow10(6) == 1000000);
}

/// A rendered `u64` bounded by a non-digit parses back to itself.
pub proof fn lemma_sp_u64_of(s: Seq<char>, i: int, n: u64)
    requires
        0 <= i,
        i + dec_of(n as nat).len() <= s.len(),
        s.subrange(i, i + dec_of(n as nat).len()) == dec_of(n as nat),
        i + dec_of(n as nat).len() == s.len() || !is_digit_char(s[i + dec_of(n as nat).len()]),
    ensures
        sp_u64(s, i) == Some((n, i + dec_of(n as nat).len())),
{
    let d = dec_of(n as nat);
    lemma_dec_of_val(n as nat);
    assert forall|j: int| i <= j < i + d.len() implies is_digit_char(#[trigger] s[j]) by {
        assert(s[j] == d[j - i]);
    }
    lemma_dig_end_run(s, i, d.len() as int);
    assert(s.subrange(i, i + d.len()) == d);
    assert(s[i] == d[0]);
    if s[i] == '0' {
        assert(n == 0);
        assert(d.len() == 1);
    }
}

/// A plain string body followed by its closing quote parses back to
/// itself.
pub proof fn lemma_sp_str_content_of(s: Seq<char>, i: int, body: Seq<char>)
    requires
        0 <= i,
        crate::text::json_plain(body),
        i + body.len() < s.len(),
        s.subrange(i, i + body.len()) == body,
        s[i + body.len()] == '"',
    ensures
        sp_str_content(s, i) == Some((body, i + body.len())),
{
    assert forall|j: int| i <= j < i + body.len() implies json_plain_char(#[trigger] s[j]) by {
        assert(s[j] == body[j - i]);
    }
    lemma_str_end_plain(s, i, body.len() as int);
}

/// A rendered coordinate bounded by a non-digit parses back to itself.
pub proof fn lemma_sp_micro_of(s: Seq<char>, i: int, v: int)
    requires
        0 <= i,
        -1_000_000_000 <= v <= 1_000_000_000,
        i + micro_of(v).len() <= s.len(),
        s.subrange(i, i + micro_of(v).len()) == micro_of(v),
        i + micro_of(v).len() == s.len() || !is_digit_char(s[i + micro_of(v).len()]),
    ensures
        sp_micro(s, i) == Some((v, i + micro_of(v).len())),
{
    let m = micro_of(v);
    let a = if v < 0 { -v } else { v };
    let sign: Seq<char> = if v < 0 { seq!['-'] } else { Seq::<char>::empty() };
    let ip = a / 1000000;
    let fr = a % 1000000;
    let dints = dec_of(ip as nat);
    let frs = padded_of(fr as nat, 6);
    vstd::arithmetic::div_mod::lemma_fundamental_div_mod(a, 1000000);
    vstd::arithmetic::div_mod::lemma_mod_bound(a, 1000000);
    vstd::arithmetic::div_mod::lemma_div_pos_is_pos(a, 1000000);
    vstd::arithmetic::div_mod::lemma_div_is_ordered(a, 1_000_000_000, 1000000);
    assert(0 <= ip <= 1000);
    assert(0 <= fr < 1000000);
    assert(m == sign + dints + seq!['.'] + frs);
    lemma_pow10_6();
    lemma_dec_of_val(ip as nat);
    lemma_padded_of_val(fr as nat, 6);
    assert(dec_of((ip as u64) as nat) == dints);
    let i1 = i + sign.len();
    let j = i1 + dints.len();
    let e = j + 1 + 6;
    assert(e == i + m.len());
    assert forall|k: int| i <= k < i + m.len() implies s[k] == m[k - i] by {
        assert(s.subrange(i, i + m.len())[k - i] == s[k]);
    }
    if v < 0 {
        assert(s[i] == '-');
    } else {
        assert(s[i] == dints[0]);
        assert(is_digit_char(s[i]));
        assert(s[i] != '-');
    }
    // integer part
    assert(s.subrange(i1, j) =~= dints);
    assert(s[j] == '.');
    assert(!is_digit_char('.'));
    lemma_sp_u64_of(s, i1, ip as u64);
    // fraction digits
    assert(s.subrange(j + 1, e) =~= frs);
    assert forall|k: int| j + 1 <= k < e implies is_digit_char(#[trigger] s[k]) by {
        assert(s[k] == frs[k - (j + 1)]);
    }
    lemma_dig_end_run(s, j + 1, 6);
    assert(seq_digit_val(s.subrange(j + 1, e)) == fr);
    assert(pow10(0) == 1);
    assert(ip * 1000000 + fr == a);
    assert(sp_u64(s, i1) == Some((ip as u64, j)));
    let kk = (6 - (e - (j + 1))) as nat;
    assert(kk == 0);
    assert(pow10(kk) == 1);
    let sdv = seq_digit_val(s.subrange(j + 1, e));
    assert(sdv * pow10(kk) == sdv * 1) by {
        assert(pow10(kk) == 1);
    }
}

/// A rendered boolean parses back to itself.
pub proof fn lemma_sp_bool_of(s: Seq<char>, i: int, b: bool)
    requires
        0 <= i,
        i + bool_of(b).len() <= s.len(),
        s.subrange(i, i + bool_of(b).len()) == bool_of(b),
    ensures
        sp_bool(s, i) == Some((b, i + bool_of(b).len())),
{
    reveal_strlit("true");
    reveal_strlit("false");
    if b {
        lemma_sp_lit_at(s, i, "true"@);
    } else {
        lemma_sp_lit_at(s, i, "false"@);
        assert(s[i] == "false"@[0]);
        if i + 4 <= s.len() && s.subrange(i, i + 4) == "true"@ {
            assert(s[i] == "true"@[0]);
            assert(false);
        }
    }
}

/// Every category's wire name maps back to the category.
pub proof fn lemma_cat_name_round_trip(c: TransactionCategory)
    ensures
        spec_cat_of_name(cat_name(c)) == Some(c),
{
    reveal_strlit("grocery");
    reveal_strlit("gas_station");
    reveal_strlit("restaurant");
    reveal_strlit("online_retail");
    reveal_strlit("entertainment");
    reveal_strlit("travel");
    reveal_strlit("healthcare");
    reveal_strlit("utilities");
    assert("grocery"@.len() == 7);
    assert("gas_station"@.len() == 11);
    assert("restaurant"@.len() == 10);
    assert("online_retail"@.len() == 13);
    assert("entertainment"@.len() == 13);
    assert("travel"@.len() == 6);
    assert("healthcare"@.len() == 10);
    assert("utilities"@.len() == 9);
    assert("restaurant"@[0] == 'r');
    assert("healthcare"@[0] == 'h');
    assert("online_retail"@[0] == 'o');
    assert("entertainment"@[0] == 'e');
}

/// Consumes one transaction object at `i`: the canonical wire form,
/// field by field in its fixed order.
pub open spec fn sp_tx(s: Seq<char>, i: int) -> Option<(TxView, int)> {
    match sp_lit(s, i, "{\"id\":\""@) {
        None => None,
        Some(i1) => match sp_str_content(s, i1) {
            None => None,
            Some((id, e1)) => match sp_lit(s, e1, "\",\"timestamp\":\""@) {
                None => None,
                Some(i2) => match sp_str_content(s, i2) {
                    None => None,
                    Some((timestamp, e2)) => match sp_lit(s, e2, "\",\"cc_number\":\""@) {
                        None => None,
                        Some(i3) => match sp_str_content(s, i3) {
                            None => None,
                            Some((cc, e3)) => match sp_lit(s, e3, "\",\"category\":\""@) {
                                None => None,
                                Some(i4) => match sp_str_content(s, i4) {
                                    None => None,
                                    Some((catname, e4)) => match spec_cat_of_name(catname) {
                                        None => None,
                                        Some(category) => match sp_lit(
                                            s,
                                            e4,
                                            "\",\"amount_usd_cents\":"@,
                                        ) {
                                            None => None,
                                            Some(i5) => match sp_u64(s, i5) {
                                                None => None,
                                                Some((amount, e5)) => sp_tx_tail(
                                                    s,
                                                    e5,
                                                    id,
                                                    timestamp,
                                                    cc,
                                                    category,
                                                    amount,
                                                ),
                                            },
                                        },
                                    },
                                },
                            },
                        },
                    },
                },
            },
        },
    }
}

/// Every category's wire name embeds in a JSON string unescaped.
pub proof fn lemma_cat_name_plain(c: TransactionCategory)
    ensures
        crate::text::json_plain(cat_name(c)),
{
    reveal_strlit("grocery");
    reveal_strlit("gas_station");
    reveal_strlit("restaurant");
    reveal_strlit("online_retail");
    reveal_strlit("entertainment");
    reveal_strlit("travel");
    reveal_strlit("healthcare");
    reveal_strlit("utilities");
}

/// Splitting a known prefix of `s` into its two halves.
proof fn lemma_split_prefix<T>(s: Seq<T>, x: Seq<T>, y: Seq<T>, b: int)
    requires
        b == x.len() + y.len(),
        b <= s.len(),
        s.subrange(0, b) == x + y,
    ensures
        s.subrange(0, x.len() as int) == x,
        s.subrange(x.len() as int, b) == y,
{
    assert(s.subrange(0, x.len() as int) =~= x);
    assert forall|j: int| 0 <= j < y.len() implies s.subrange(x.len() as int, b)[j] == y[j] by {
        assert((x + y)[x.len() + j] == y[j]);
        assert(s.subrange(0, b)[x.len() + j] == s[x.len() + j]);
    }
    assert(s.subrange(x.len() as int, b) =~= y);
}

/// First characters and lengths of the fixed chunks of the
/// transaction wire form.
proof fn lemma_tx_lit_facts()
    ensures
        ("{\"id\":\""@).len() == 7,
        ("\",\"timestamp\":\""@).len() == 15,
        ("\",\"timestamp\":\""@)[0] == '"',
        ("\",\"cc_number\":\""@).len() == 15,
        ("\",\"cc_number\":\""@)[0] == '"',
        ("\",\"category\":\""@).len() == 14,
        ("\",\"category\":\""@)[0] == '"',
        ("\",\"amount_usd_cents\":"@).len() == 21,
        ("\",\"amount_usd_cents\":"@)[0] == '"',
        (",\"city\":\""@).len() == 9,
        (",\"city\":\""@)[0] == ',',
        ("\",\"country_iso\":\""@).len() == 17,
        ("\",\"country_iso\":\""@)[0] == '"',
        ("\",\"latitude\":"@).len() == 13,
        ("\",\"latitude\":"@)[0] == '"',
        (",\"longitude\":"@).len() == 13,
        (",\"longitude\":"@)[0] == ',',
        (",\"is_online\":"@).len() == 13,
        (",\"is_online\":"@)[0] == ',',
        ("}"@).len() == 1,
{
    reveal_strlit("{\"id\":\"");
    reveal_strlit("\",\"timestamp\":\"");
    reveal_strlit("\",\"cc_number\":\"");
    reveal_strlit("\",\"category\":\"");
    reveal_strlit("\",\"amount_usd_cents\":");
    reveal_strlit(",\"city\":\"");
    reveal_strlit("\",\"country_iso\":\"");
    reveal_strlit("\",\"latitude\":");
    reveal_strlit(",\"longitude\":");
    reveal_strlit(",\"is_online\":");
    reveal_strlit("}");
}

/// Round trip: parsing the rendered wire form of a well-formed
/// transaction yields it back, field for field, consuming the whole
/// text.
#[verifier::rlimit(100)]
pub proof fn lemma_tx_round_trip(t: TxView)
    requires
        tx_wf(t),
    ensures
        sp_tx(wire_of_tx(t), 0) == Some((t, wire_of_tx(t).len() as int)),
{
    let s = wire_of_tx(t);
    let l1 = "{\"id\":\""@;
    let l2 = "\",\"timestamp\":\""@;
    let l3 = "\",\"cc_number\":\""@;
    let l4 = "\",\"category\":\""@;
    let l5 = "\",\"amount_usd_cents\":"@;
    let l6 = ",\"city\":\""@;
    let l7 = "\",\"country_iso\":\""@;
    let l8 = "\",\"latitude\":"@;
    let l9 = ",\"longitude\":"@;
    let l10 = ",\"is_online\":"@;
    let l11 = "}"@;
    lemma_tx_lit_facts();
    let cn = cat_name(t.category);
    let am = dec_of(t.amount_usd_cents as nat);
    let lat = micro_of(t.location.latitude_micro as int);
    let lon = micro_of(t.location.longitude_micro as int);
    let bo = bool_of(t.is_online);
    lemma_cat_name_plain(t.category);
    let i1 = 0 + l1.len() as int;
    let e1 = i1 + t.id.len();
    let i2 = e1 + l2.len();
    let e2 = i2 + t.timestamp.len();
    let i3 = e2 + l3.len();
    let e3 = i3 + t.cc_number.len();
    let i4 = e3 + l4.len();
    let e4 = i4 + cn.len();
    let i5 = e4 + l5.len();
    let e5 = i5 + am.len();
    let i6 = e5 + l6.len();
    let e6 = i6 + t.location.city.len();
    let i7 = e6 + l7.len();
    let e7 = i7 + t.location.country_iso.len();
    let i8 = e7 + l8.len();
    let e8 = i8 + lat.len();
    let i9 = e8 + l9.len();
    let e9 = i9 + lon.len();
    let i10 = e9 + l10.len();
    let e10 = i10 + bo.len();
    let i11 = e10 + l11.len();
    assert(s.len() == i11);
    let c2 = l1 + t.id;
    let c3 = c2 + l2;
    let c4 = c3 + t.timestamp;
    let c5 = c4 + l3;
    let c6 = c5 + t.cc_number;
    let c7 = c6 + l4;
    let c8 = c7 + cn;
    let c9 = c8 + l5;
    let c10 = c9 + am;
    let c11 = c10 + l6;
    let c12 = c11 + t.location.city;
    let c13 = c12 + l7;
    let c14 = c13 + t.location.country_iso;
    let c15 = c14 + l8;
    let c16 = c15 + lat;
    let c17 = c16 + l9;
    let c18 = c17 + lon;
    let c19 = c18 + l10;
    let c20 = c19 + bo;
    let c21 = c20 + l11;
    assert(s == c21);
    assert(s.subrange(0, i11) =~= c21);
    lemma_split_prefix(s, c20, l11, i11);
    lemma_split_prefix(s, c19, bo, e10);
    lemma_split_prefix(s, c18, l10, i10);
    lemma_split_prefix(s, c17, lon, e9);
    lemma_split_prefix(s, c16, l9, i9);
    lemma_split_prefix(s, c15, lat, e8);
    lemma_split_prefix(s, c14, l8, i8);
    lemma_split_prefix(s, c13, t.location.country_iso, e7);
    lemma_split_prefix(s, c12, l7, i7);
    lemma_split_prefix(s, c11, t.location.city, e6);
    lemma_split_prefix(s, c10, l6, i6);
    lemma_split_prefix(s, c9, am, e5);
    lemma_split_prefix(s, c8, l5, i5);
    lemma_split_prefix(s, c7, cn, e4);
    lemma_split_prefix(s, c6, l4, i4);
    lemma_split_prefix(s, c5, t.cc_number, e3);
    lemma_split_prefix(s, c4, l3, i3);
    lemma_split_prefix(s, c3, t.timestamp, e2);
    lemma_split_prefix(s, c2, l2, i2);
    lemma_split_prefix(s, l1, t.id, e1);
    lemma_sp_lit_at(s, 0, l1);
    assert(s[e1] == l2[0]);
    lemma_sp_str_content_of(s, i1, t.id);
    lemma_sp_lit_at(s, e1, l2);
    assert(s[e2] == l3[0]);
    lemma_sp_str_content_of(s, i2, t.timestamp);
    lemma_sp_lit_at(s, e2, l3);
    assert(s[e3] == l4[0]);
    lemma_sp_str_content_of(s, i3, t.cc_number);
    lemma_sp_lit_at(s, e3, l4);
    assert(s[e4] == l5[0]);
    lemma_sp_str_content_of(s, i4, cn);
    lemma_cat_name_round_trip(t.category);
    lemma_sp_lit_at(s, e4, l5);
    assert(s[e5] == l6[0]);
    assert(!is_digit_char(','));
    lemma_sp_u64_of(s, i5, t.amount_usd_cents);
    lemma_sp_lit_at(s, e5, l6);
    assert(s[e6] == l7[0]);
    lemma_sp_str_content_of(s, i6, t.location.city);
    lemma_sp_lit_at(s, e6, l7);
    assert(s[e7] == l8[0]);
    lemma_sp_str_content_of(s, i7, t.location.country_iso);
    lemma_sp_lit_at(s, e7, l8);
    assert(s[e8] == l9[0]);
    lemma_sp_micro_of(s, i8, t.location.latitude_micro as int);
    lemma_sp_lit_at(s, e8, l9);
    assert(s[e9] == l10[0]);
    lemma_sp_micro_of(s, i9, t.location.longitude_micro as int);
    lemma_sp_lit_at(s, e9, l10);
    lemma_sp_bool_of(s, i10, t.is_online);
    lemma_sp_lit_at(s, e10, l11);
    assert(sp_tx_tail(
        s,
        e5,
        t.id,
        t.timestamp,
        t.cc_number,
        t.category,
        t.amount_usd_cents,
    ) matches Some(p) && p.0 =~= t && p.1 == i11);
    assert(sp_tx(s, 0) == Some((t, i11)));
}

/// The location and flag fields of a transaction object, from the
/// comma before `city` on.
pub open spec fn sp_tx_tail(
    s: Seq<char>,
    i: int,
    id: Seq<char>,
    timestamp: Seq<char>,
    cc: Seq<char>,
    category: TransactionCategory,
    amount: u64,
) -> Option<(TxView, int)> {
    match sp_lit(s, i, ",\"city\":\""@) {
        None => None,
        Some(i6) => match sp_str_content(s, i6) {
            None => None,
            Some((city, e6)) => match sp_lit(s, e6, "\",\"country_iso\":\""@) {
                None => None,
                Some(i7) => match sp_str_content(s, i7) {
                    None => None,
                    Some((country, e7)) => match sp_lit(s, e7, "\",\"latitude\":"@) {
                        None => None,
                        Some(i8) => match sp_micro(s, i8) {
                            None => None,
                            Some((lat, e8)) => match sp_lit(s, e8, ",\"longitude\":"@) {
                                None => None,
                                Some(i9) => match sp_micro(s, i9) {
                                    None => None,
                                    Some((lon, e9)) => match sp_lit(s, e9, ",\"is_online\":"@) {
                                        None => None,
                                        Some(i10) => match sp_bool(s, i10) {
                                            None => None,
                                            Some((is_online, e10)) => match sp_lit(s, e10, "}"@) {
                                                None => None,
                                                Some(i11) => Some(
                                                    (
                                                        TxView {
                                                            id,
                                                            timestamp,
                                                            cc_number: cc,
                                                            category,
                                                            amount_usd_cents: amount,
                                                            location: LocView {
                                                                city,
                                                                country_iso: country,
                                                                latitude_micro: lat as i64,
                                                                longitude_micro: lon as i64,
                                                            },
                                                            is_online,
                                                        },
                                                        i11,
                                                    ),
                                                ),
                                            },
                                        },
                                    },
                                },
                            },
                        },
                    },
                },
            },
        },
    }
}

// ---------------------------------------------------------------------
// Executable scanners
// ---------------------------------------------------------------------

fn char_is_digit(c: char) -> (r: bool)
    ensures
        r == is_digit_char(c),
{
    c == '0' || c == '1' || c == '2' || c == '3' || c == '4' || c == '5' || c == '6' || c == '7'
        || c == '8' || c == '9'
}

fn char_is_ws(c: char) -> (r: bool)
    ensures
        r == is_ws_char(c),
{
    c == ' ' || c == '\t' || c == '\n' || c == '\r'
}

fn char_digit_val(c: char) -> (r: u8)
    requires
        is_digit_char(c),
    ensures
        r as int == digit_char_val(c),
        r < 10,
{
    if c == '0' { 0 }
    else if c == '1' { 1 }
    else if c == '2' { 2 }
    else if c == '3' { 3 }
    else if c == '4' { 4 }
    else if c == '5' { 5 }
    else if c == '6' { 6 }
    else if c == '7' { 7 }
    else if c == '8' { 8 }
    else { 9 }
}

/// Consumes an exact literal at `i`.
fn expect_lit(s: &str, i: usize, lit: &str) -> (r: Option<usize>)
    ensures
        r is Some <==> sp_lit(s@, i as int, lit@) is Some,
        r matches Some(j) ==> sp_lit(s@, i as int, lit@) == Some(j as int),
{
    let n = s.unicode_len();
    let ll = lit.unicode_len();
    if i > n || ll > n - i {
        return None;
    }
    let sub = s.substring_char(i, i + ll);
    if str_eq(sub, lit) {
        Some(i + ll)
    } else {
        None
    }
}

/// Scans a string body up to its closing quote.
fn scan_string_content(s: &str, i: usize) -> (r: Option<(String, usize)>)
    ensures
        r is Some <==> sp_str_content(s@, i as int) is Some,
        r matches Some((body, e)) ==> sp_str_content(s@, i as int) == Some((body@, e as int)),
{
    let n = s.unicode_len();
    if i >= n {
        return None;
    }
    let mut j: usize = i;
    while j < n
        invariant
            i <= j <= n,
            n == s@.len(),
            str_end(s@, i as int) == str_end(s@, j as int),
        decreases n - j,
    {
        let c = s.get_char(j);
        if c == '"' {
            let body = s.substring_char(i, j).to_owned();
            return Some((body, j));
        }
        if c == '\\' {
            return None;
        }
        j += 1;
    }
    None
}

/// Consumes a canonical decimal `u64` at `i`.
pub fn parse_u64_at(s: &str, i: usize) -> (r: Option<(u64, usize)>)
    ensures
        r is Some <==> sp_u64(s@, i as int) is Some,
        r matches Some((v, j)) ==> sp_u64(s@, i as int) == Some((v, j as int)),
{
    let n = s.unicode_len();
    if i >= n {
        return None;
    }
    let first = s.get_char(i);
    if !char_is_digit(first) {
        return None;
    }
    let mut j: usize = i;
    let mut acc: u64 = 0;
    let mut over: bool = false;
    while j < n && char_is_digit(s.get_char(j))
        invariant
            i <= j <= n,
            n == s@.len(),
            dig_end(s@, i as int) == dig_end(s@, j as int),
            !over ==> acc as nat == seq_digit_val(s@.subrange(i as int, j as int)),
            over ==> seq_digit_val(s@.subrange(i as int, j as int)) > u64::MAX,
        decreases n - j,
    {
        let d = char_digit_val(s.get_char(j));
        proof {
            assert(s@.subrange(i as int, j + 1).drop_last() =~= s@.subrange(i as int, j as int));
            assert(s@.subrange(i as int, j + 1).last() == s@[j as int]);
        }
        if over || acc > u64::MAX / 10 || (acc == u64::MAX / 10 && d > 5) {
            over = true;
        } else {
            acc = acc * 10 + (d as u64);
        }
        j += 1;
    }
    if over {
        return None;
    }
    if first == '0' && j > i + 1 {
        return None;
    }
    Some((acc, j))
}

/// Ten to a small power.
fn pow10_exec(m: usize) -> (r: u64)
    requires
        m <= 6,
    ensures
        r as nat == pow10(m as nat),
        r <= 1000000,
{
    proof {
        assert(pow10(0) == 1);
        assert(pow10(1) == 10);
        assert(pow10(2) == 100);
        assert(pow10(3) == 1000);
        assert(pow10(4) == 10000);
        assert(pow10(5) == 100000);
        assert(pow10(6) == 1000000);
    }
    if m == 0 { 1 }
    else if m == 1 { 10 }
    else if m == 2 { 100 }
    else if m == 3 { 1000 }
    else if m == 4 { 10000 }
    else if m == 5 { 100000 }
    else { 1000000 }
}

/// The digit end never lies before its start.
proof fn lemma_dig_end_ge(s: Seq<char>, i: int)
    requires
        0 <= i,
    ensures
        dig_end(s, i) >= i,
    decreases s.len() - i,
{
    if 0 <= i < s.len() && is_digit_char(s[i]) {
        lemma_dig_end_ge(s, i + 1);
    }
}

/// A digit run extends the digit end at least this far.
proof fn lemma_dig_end_at_least(s: Seq<char>, i: int, n: int)
    requires
        0 <= i,
        0 <= n,
        i + n <= s.len(),
        forall|j: int| i <= j < i + n ==> is_digit_char(#[trigger] s[j]),
    ensures
        dig_end(s, i) >= i + n,
    decreases n,
{
    if n > 0 {
        assert(is_digit_char(s[i]));
        lemma_dig_end_at_least(s, i + 1, n - 1);
    } else {
        lemma_dig_end_ge(s, i);
    }
}

/// Powers of ten grow with the exponent.
proof fn lemma_pow10_mono(a: nat, b: nat)
    requires
        a <= b,
    ensures
        pow10(a) <= pow10(b),
    decreases b,
{
    if a < b {
        lemma_pow10_mono(a, (b - 1) as nat);
        assert(pow10(b) == 10 * pow10((b - 1) as nat));
    }
}

/// Consumes a signed fixed-point coordinate at `i`.
pub fn parse_micro_at(s: &str, i: usize) -> (r: Option<(i64, usize)>)
    ensures
        r is Some <==> sp_micro(s@, i as int) is Some,
        r matches Some((v, e)) ==> sp_micro(s@, i as int) == Some((v as int, e as int)),
{
    let n = s.unicode_len();
    let neg = i < n && s.get_char(i) == '-';
    let i1 = if neg { i + 1 } else { i };
    let (ip, j) = match parse_u64_at(s, i1) {
        None => {
            return None;
        },
        Some(p) => p,
    };
    if !(j < n && s.get_char(j) == '.') {
        return None;
    }
    // the run of fraction digits, up to one past the accepted width
    let mut e: usize = j + 1;
    while e < n && e - (j + 1) < 7 && char_is_digit(s.get_char(e))
        invariant
            j + 1 <= e <= n,
            n == s@.len(),
            e - (j + 1) <= 7,
            forall|q: int| j + 1 <= q < e ==> is_digit_char(#[trigger] s@[q]),
        decreases n - e,
    {
        e += 1;
    }
    let k = e - (j + 1);
    proof {
        lemma_dig_end_at_least(s@, j + 1 as int, k as int);
    }
    if k == 0 {
        return None;
    }
    if k == 7 {
        proof {
            assert(dig_end(s@, j + 1 as int) - (j + 1) >= 7);
        }
        return None;
    }
    proof {
        lemma_dig_end_run(s@, j + 1 as int, k as int);
    }
    // value of the fraction digits
    let mut fv: u64 = 0;
    let mut p: usize = j + 1;
    while p < e
        invariant
            j + 1 <= p <= e <= n,
            n == s@.len(),
            k == e - (j + 1),
            k <= 6,
            forall|q: int| j + 1 <= q < e ==> is_digit_char(#[trigger] s@[q]),
            fv as nat == seq_digit_val(s@.subrange(j + 1 as int, p as int)),
            fv < 1000000,
        decreases e - p,
    {
        let d = char_digit_val(s.get_char(p));
        proof {
            assert(s@.subrange(j + 1 as int, p + 1).drop_last() =~= s@.subrange(
                j + 1 as int,
                p as int,
            ));
            assert(s@.subrange(j + 1 as int, p + 1).last() == s@[p as int]);
            assert(s@.subrange(j + 1 as int, p as int).len() == p - (j + 1));
            assert forall|q: int|
                0 <= q < s@.subrange(j + 1 as int, p + 1).len() implies is_digit_char(
                #[trigger] s@.subrange(j + 1 as int, p + 1)[q],
            ) by {
                assert(s@.subrange(j + 1 as int, p + 1)[q] == s@[j + 1 + q]);
            }
            lemma_seq_digit_val_bound(s@.subrange(j + 1 as int, p + 1));
            lemma_pow10_mono((p + 1 - (j + 1)) as nat, 6);
            lemma_pow10_6();
        }
        fv = fv * 10 + (d as u64);
        p += 1;
    }
    let pw = pow10_exec(6 - k);
    proof {
        assert(fv * pw <= 999999 * 1000000) by (nonlinear_arith)
            requires
                fv <= 999999,
                pw <= 1000000,
        ;
    }
    let frac = fv * pw;
    if ip > 1000 {
        proof {
            assert((ip * 1000000 + seq_digit_val(s@.subrange(j + 1 as int, e as int)) * pow10(
                (6 - (k as int)) as nat,
            )) > 1_000_000_000) by (nonlinear_arith)
                requires
                    ip > 1000,
            ;
        }
        return None;
    }
    let mag = ip * 1000000 + frac;
    if mag > 1_000_000_000 {
        return None;
    }
    let v: i64 = if neg {
        -(mag as i64)
    } else {
        mag as i64
    };
    Some((v, e))
}

/// A digit string's value is below ten to its length.
proof fn lemma_seq_digit_val_bound(s: Seq<char>)
    requires
        forall|j: int| 0 <= j < s.len() ==> is_digit_char(#[trigger] s[j]),
    ensures
        seq_digit_val(s) < pow10(s.len()),
    decreases s.len(),
{
    if s.len() == 0 {
        assert(pow10(0) == 1);
    } else {
        assert(s.drop_last() =~= s.subrange(0, s.len() - 1));
        assert(forall|j: int|
            0 <= j < s.drop_last().len() ==> is_digit_char(#[trigger] s.drop_last()[j]));
        lemma_seq_digit_val_bound(s.drop_last());
        assert(is_digit_char(s.last()));
        assert(digit_char_val(s.last()) <= 9);
        assert(pow10(s.len()) == 10 * pow10((s.len() - 1) as nat));
    }
}

/// Consumes a JSON boolean at `i`.
fn parse_bool_at(s: &str, i: usize) -> (r: Option<(bool, usize)>)
    ensures
        r is Some <==> sp_bool(s@, i as int) is Some,
        r matches Some((b, j)) ==> sp_bool(s@, i as int) == Some((b, j as int)),
{
    match expect_lit(s, i, "true") {
        Some(j) => Some((true, j)),
        None => match expect_lit(s, i, "false") {
            Some(j) => Some((false, j)),
            None => None,
        },
    }
}

/// Maps a wire name to a category.
pub fn category_from_name(name: &str) -> (r: Option<TransactionCategory>)
    ensures
        r == spec_cat_of_name(name@),
{
    if crate::text::str_eq(name, "grocery") {
        Some(TransactionCategory::Grocery)
    } else if crate::text::str_eq(name, "gas_station") {
        Some(TransactionCategory::GasStation)
    } else if crate::text::str_eq(name, "restaurant") {
        Some(TransactionCategory::Restaurant)
    } else if crate::text::str_eq(name, "online_retail") {
        Some(TransactionCategory::OnlineRetail)
    } else if crate::text::str_eq(name, "entertainment") {
        Some(TransactionCategory::Entertainment)
    } else if crate::text::str_eq(name, "travel") {
        Some(TransactionCategory::Travel)
    } else if crate::text::str_eq(name, "healthcare") {
        Some(TransactionCategory::Healthcare)
    } else if crate::text::str_eq(name, "utilities") {
        Some(TransactionCategory::Utilities)
    } else {
        None
    }
}

/// Parses one whole transaction object in its canonical wire form.
pub fn parse_transaction(s: &str) -> (r: Option<Transaction>)
    ensures
        r matches Some(t) ==> sp_tx(s@, 0) == Some((t@, s@.len() as int)),
        r is None ==> (sp_tx(s@, 0) matches Some(p) ==> p.1 != s@.len() as int),
{
    let i1 = match expect_lit(s, 0, "{\"id\":\"") {
        None => { return None; },
        Some(x) => x,
    };
    let (id, e1) = match scan_string_content(s, i1) {
        None => { return None; },
        Some(x) => x,
    };
    let i2 = match expect_lit(s, e1, "\",\"timestamp\":\"") {
        None => { return None; },
        Some(x) => x,
    };
    let (timestamp, e2) = match scan_string_content(s, i2) {
        None => { return None; },
        Some(x) => x,
    };
    let i3 = match expect_lit(s, e2, "\",\"cc_number\":\"") {
        None => { return None; },
        Some(x) => x,
    };
    let (cc_number, e3) = match scan_string_content(s, i3) {
        None => { return None; },
        Some(x) => x,
    };
    let i4 = match expect_lit(s, e3, "\",\"category\":\"") {
        None => { return None; },
        Some(x) => x,
    };
    let (cname, e4) = match scan_string_content(s, i4) {
        None => { return None; },
        Some(x) => x,
    };
    let category = match category_from_name(cname.as_str()) {
        None => { return None; },
        Some(c) => c,
    };
    let i5 = match expect_lit(s, e4, "\",\"amount_usd_cents\":") {
        None => { return None; },
        Some(x) => x,
    };
    let (amount_usd_cents, e5) = match parse_u64_at(s, i5) {
        None => { return None; },
        Some(x) => x,
    };
    let i6 = match expect_lit(s, e5, ",\"city\":\"") {
        None => { return None; },
        Some(x) => x,
    };
    let (city, e6) = match scan_string_content(s, i6) {
        None => { return None; },
        Some(x) => x,
    };
    let i7 = match expect_lit(s, e6, "\",\"country_iso\":\"") {
        None => { return None; },
        Some(x) => x,
    };
    let (country_iso, e7) = match scan_string_content(s, i7) {
        None => { return None; },
        Some(x) => x,
    };
    let i8 = match expect_lit(s, e7, "\",\"latitude\":") {
        None => { return None; },
        Some(x) => x,
    };
    let (latitude_micro, e8) = match parse_micro_at(s, i8) {
        None => { return None; },
        Some(x) => x,
    };
    let i9 = match expect_lit(s, e8, ",\"longitude\":") {
        None => { return None; },
        Some(x) => x,
    };
    let (longitude_micro, e9) = match parse_micro_at(s, i9) {
        None => { return None; },
        Some(x) => x,
    };
    let i10 = match expect_lit(s, e9, ",\"is_online\":") {
        None => { return None; },
        Some(x) => x,
    };
    let (is_online, e10) = match parse_bool_at(s, i10) {
        None => { return None; },
        Some(x) => x,
    };
    let i11 = match expect_lit(s, e10, "}") {
        None => { return None; },
        Some(x) => x,
    };
    if i11 != s.unicode_len() {
        return None;
    }
    let t = Transaction {
        id,
        timestamp,
        cc_number,
        category,
        amount_usd_cents,
        location: Location { city, country_iso, latitude_micro, longitude_micro },
        is_online,
    };
    proof {
        let sp = sp_tx(s@, 0);
        assert(sp matches Some(p) && p.0 =~= t@ && p.1 == i11 as int);
    }
    Some(t)
}

// ---------------------------------------------------------------------
// The command envelope
// ---------------------------------------------------------------------

/// The accepted grammar of a client command frame: a JSON object with
/// a `method` string naming `subscribe` or `unsubscribe` and a
/// `params` object with a `channel` string, with optional whitespace
/// between tokens and nothing after the closing brace.
pub open spec fn sp_cmd(s: Seq<char>) -> Option<crate::wire::CmdView> {
    match sp_lit(s, ws_end(s, 0), "{"@) {
        None => None,
        Some(a1) => match sp_lit(s, ws_end(s, a1), "\"method\""@) {
            None => None,
            Some(a3) => match sp_lit(s, ws_end(s, a3), ":"@) {
                None => None,
                Some(a5) => match sp_string(s, ws_end(s, a5)) {
                    None => None,
                    Some((method, a7)) => match sp_lit(s, ws_end(s, a7), ","@) {
                        None => None,
                        Some(a9) => match sp_lit(s, ws_end(s, a9), "\"params\""@) {
                            None => None,
                            Some(a11) => match sp_lit(s, ws_end(s, a11), ":"@) {
                                None => None,
                                Some(a13) => match sp_lit(s, ws_end(s, a13), "{"@) {
                                    None => None,
                                    Some(a15) => match sp_lit(s, ws_end(s, a15), "\"channel\""@) {
                                        None => None,
                                        Some(a17) => match sp_lit(s, ws_end(s, a17), ":"@) {
                                            None => None,
                                            Some(a19) => match sp_string(s, ws_end(s, a19)) {
                                                None => None,
                                                Some((channel, a21)) => match sp_lit(
                                                    s,
                                                    ws_end(s, a21),
                                                    "}"@,
                                                ) {
                                                    None => None,
                                                    Some(a23) => match sp_lit(
                                                        s,
                                                        ws_end(s, a23),
                                                        "}"@,
                                                    ) {
                                                        None => None,
                                                        Some(a25) => if ws_end(s, a25) == s.len()
                                                            && method == "subscribe"@ {
                                                            Some(
                                                                crate::wire::CmdView::Subscribe {
                                                                    channel,
                                                                },
                                                            )
                                                        } else if ws_end(s, a25) == s.len()
                                                            && method == "unsubscribe"@ {
                                                            Some(
                                                                crate::wire::CmdView::Unsubscribe {
                                                                    channel,
                                                                },
                                                            )
                                                        } else {
                                                            None
                                                        },
                                                    },
                                                },
                                            },
                                        },
                                    },
                                },
                            },
                        },
                    },
                },
            },
        },
    }
}

/// The first non-whitespace position at or after `i`.
fn skip_ws(s: &str, i: usize) -> (r: usize)
    ensures
        r as int == ws_end(s@, i as int),
{
    let n = s.unicode_len();
    if i >= n {
        return i;
    }
    let mut j: usize = i;
    while j < n && char_is_ws(s.get_char(j))
        invariant
            i <= j <= n,
            n == s@.len(),
            ws_end(s@, i as int) == ws_end(s@, j as int),
        decreases n - j,
    {
        j += 1;
    }
    j
}

/// Consumes a whole quoted string at `i`.
fn parse_string_at(s: &str, i: usize) -> (r: Option<(String, usize)>)
    ensures
        r is Some <==> sp_string(s@, i as int) is Some,
        r matches Some((body, e)) ==> sp_string(s@, i as int) == Some((body@, e as int)),
{
    let n = s.unicode_len();
    if !(i < n && s.get_char(i) == '"') {
        return None;
    }
    proof {
        lemma_str_end_in_bounds(s@, i + 1);
    }
    match scan_string_content(s, i + 1) {
        None => None,
        Some((body, e)) => Some((body, e + 1)),
    }
}

/// A found closing quote lies within the text.
proof fn lemma_str_end_in_bounds(s: Seq<char>, i: int)
    ensures
        str_end(s, i) matches Some(e) ==> i <= e < s.len(),
    decreases s.len() - i,
{
    if 0 <= i < s.len() && s[i] != '"' && s[i] != '\\' {
        lemma_str_end_in_bounds(s, i + 1);
    }
}

/// Parses a client command frame; anything outside the accepted
/// grammar is rejected.
pub fn parse_command(s: &str) -> (r: Option<crate::wire::WsMessage>)
    ensures
        r is Some <==> sp_cmd(s@) is Some,
        r matches Some(m) ==> sp_cmd(s@) == Some(m@),
{
    let a0 = skip_ws(s, 0);
    let a1 = match expect_lit(s, a0, "{") {
        None => { return None; },
        Some(x) => x,
    };
    let a3 = match expect_lit(s, skip_ws(s, a1), "\"method\"") {
        None => { return None; },
        Some(x) => x,
    };
    let a5 = match expect_lit(s, skip_ws(s, a3), ":") {
        None => { return None; },
        Some(x) => x,
    };
    let (method, a7) = match parse_string_at(s, skip_ws(s, a5)) {
        None => { return None; },
        Some(x) => x,
    };
    let a9 = match expect_lit(s, skip_ws(s, a7), ",") {
        None => { return None; },
        Some(x) => x,
    };
    let a11 = match expect_lit(s, skip_ws(s, a9), "\"params\"") {
        None => { return None; },
        Some(x) => x,
    };
    let a13 = match expect_lit(s, skip_ws(s, a11), ":") {
        None => { return None; },
        Some(x) => x,
    };
    let a15 = match expect_lit(s, skip_ws(s, a13), "{") {
        None => { return None; },
        Some(x) => x,
    };
    let a17 = match expect_lit(s, skip_ws(s, a15), "\"channel\"") {
        None => { return None; },
        Some(x) => x,
    };
    let a19 = match expect_lit(s, skip_ws(s, a17), ":") {
        None => { return None; },
        Some(x) => x,
    };
    let (channel, a21) = match parse_string_at(s, skip_ws(s, a19)) {
        None => { return None; },
        Some(x) => x,
    };
    let a23 = match expect_lit(s, skip_ws(s, a21), "}") {
        None => { return None; },
        Some(x) => x,
    };
    let a25 = match expect_lit(s, skip_ws(s, a23), "}") {
        None => { return None; },
        Some(x) => x,
    };
    if skip_ws(s, a25) != s.unicode_len() {
        return None;
    }
    if str_eq(method.as_str(), "subscribe") {
        Some(crate::wire::WsMessage::Subscribe {
            params: crate::wire::SubscribeParams { channel },
        })
    } else if str_eq(method.as_str(), "unsubscribe") {
        Some(crate::wire::WsMessage::Unsubscribe {
            params: crate::wire::UnsubscribeParams { channel },
        })
    } else {
        None
    }
}

} // verus!
