use txapi::domain::{Heartbeat, Location, Transaction, TransactionCategory};
use txapi::health::HealthResponse;
use txapi::parse::{parse_command, parse_transaction};
use txapi::wire::{render_channel_msg, render_micro, render_transaction, render_u64, ChannelMsg,
    WsMessage};

fn sample_tx() -> Transaction {
    Transaction {
        id: "0123456789abcdef0123456789abcdef".to_string(),
        timestamp: "2024-01-15T10:30:00+00:00".to_string(),
        cc_number: "4539148803436467".to_string(),
        category: TransactionCategory::Grocery,
        amount_usd_cents: 4599,
        location: Location {
            city: "San Francisco".to_string(),
            country_iso: "US".to_string(),
            latitude_micro: 37_774_929,
            longitude_micro: -122_419_418,
        },
        is_online: false,
    }
}

#[test]
fn renders_decimals() {
    assert_eq!(render_u64(0), "0");
    assert_eq!(render_u64(4599), "4599");
    assert_eq!(render_u64(u64::MAX), "18446744073709551615");
}

#[test]
fn renders_coordinates() {
    assert_eq!(render_micro(37_774_929), "37.774929");
    assert_eq!(render_micro(-122_419_418), "-122.419418");
    assert_eq!(render_micro(0), "0.000000");
    assert_eq!(render_micro(151_209_290), "151.209290");
}

#[test]
fn end_to_end_transaction_envelope() {
    let tx = sample_tx();
    let msg = ChannelMsg::Transactions { data: vec![tx] };
    let s = render_channel_msg(&msg);
    assert_eq!(
        s,
        "{\"channel\":\"transactions\",\"data\":[{\"id\":\"0123456789abcdef0123456789abcdef\",\
         \"timestamp\":\"2024-01-15T10:30:00+00:00\",\"cc_number\":\"4539148803436467\",\
         \"category\":\"grocery\",\"amount_usd_cents\":4599,\"city\":\"San Francisco\",\
         \"country_iso\":\"US\",\"latitude\":37.774929,\"longitude\":-122.419418,\
         \"is_online\":false}]}"
    );
}

#[test]
fn heartbeat_envelope() {
    let msg = ChannelMsg::Heartbeat { data: Heartbeat { status: "ok".to_string() } };
    assert_eq!(
        render_channel_msg(&msg),
        "{\"channel\":\"heartbeat\",\"data\":{\"status\":\"ok\"}}"
    );
}

#[test]
fn transaction_round_trip() {
    let tx = sample_tx();
    let wire = render_transaction(&tx);
    let back = parse_transaction(&wire).expect("rendered transaction must parse");
    assert_eq!(back.id, tx.id);
    assert_eq!(back.timestamp, tx.timestamp);
    assert_eq!(back.cc_number, tx.cc_number);
    assert_eq!(back.category, tx.category);
    assert_eq!(back.amount_usd_cents, tx.amount_usd_cents);
    assert_eq!(back.location.city, tx.location.city);
    assert_eq!(back.location.country_iso, tx.location.country_iso);
    assert_eq!(back.location.latitude_micro, tx.location.latitude_micro);
    assert_eq!(back.location.longitude_micro, tx.location.longitude_micro);
    assert_eq!(back.is_online, tx.is_online);
}

#[test]
fn round_trip_across_categories_and_signs() {
    for (i, category) in TransactionCategory::all().into_iter().enumerate() {
        let mut tx = sample_tx();
        tx.category = category;
        tx.amount_usd_cents = 1 + (i as u64) * 997;
        tx.location = Location::from_index(i as u64);
        tx.is_online = i % 2 == 0;
        let wire = render_transaction(&tx);
        let back = parse_transaction(&wire).expect("rendered transaction must parse");
        assert_eq!(back.category, tx.category);
        assert_eq!(back.amount_usd_cents, tx.amount_usd_cents);
        assert_eq!(back.location.city, tx.location.city);
        assert_eq!(back.location.latitude_micro, tx.location.latitude_micro);
        assert_eq!(back.location.longitude_micro, tx.location.longitude_micro);
        assert_eq!(back.is_online, tx.is_online);
    }
}

#[test]
fn parse_rejects_damaged_wire_forms() {
    let tx = sample_tx();
    let wire = render_transaction(&tx);
    assert!(parse_transaction(&wire[..wire.len() - 1]).is_none());
    assert!(parse_transaction(&format!("{} ", wire)).is_none());
    assert!(parse_transaction("{}").is_none());
    assert!(parse_transaction("").is_none());
    let damaged = wire.replace("\"category\":\"grocery\"", "\"category\":\"groceries\"");
    assert!(parse_transaction(&damaged).is_none());
}

#[test]
fn command_parsing_accepts_both_methods_and_whitespace() {
    match parse_command("{\"method\":\"subscribe\",\"params\":{\"channel\":\"transactions\"}}") {
        Some(WsMessage::Subscribe { params }) => assert_eq!(params.channel, "transactions"),
        other => panic!("got {:?}", other),
    }
    match parse_command(
        " { \"method\" : \"unsubscribe\" ,\n \"params\" : { \"channel\" : \"heartbeat\" } } ",
    ) {
        Some(WsMessage::Unsubscribe { params }) => assert_eq!(params.channel, "heartbeat"),
        other => panic!("got {:?}", other),
    }
}

#[test]
fn command_parsing_rejects_bad_frames() {
    assert!(parse_command("").is_none());
    assert!(parse_command("{\"method\":\"subscribe\"}").is_none());
    assert!(parse_command("{\"method\":\"ping\",\"params\":{\"channel\":\"transactions\"}}")
        .is_none());
    assert!(parse_command("{\"method\":\"subscribe\",\"params\":{\"channel\":\"transactions\"}}x")
        .is_none());
}

#[test]
fn unknown_channel_name_still_parses_as_a_command() {
    // the name is rejected later, by the registry mapping, not the parser
    match parse_command("{\"method\":\"subscribe\",\"params\":{\"channel\":\"bogus\"}}") {
        Some(WsMessage::Subscribe { params }) => assert_eq!(params.channel, "bogus"),
        other => panic!("got {:?}", other),
    }
}

#[test]
fn rendered_envelope_is_valid_json() {
    let msg = ChannelMsg::Transactions { data: vec![sample_tx()] };
    let s = render_channel_msg(&msg);
    let v: serde_json::Value = serde_json::from_str(&s).expect("envelope must be valid JSON");
    assert_eq!(v["channel"], "transactions");
    let item = &v["data"][0];
    assert_eq!(item["amount_usd_cents"].as_u64(), Some(4599));
    assert_eq!(item["category"], "grocery");
    assert_eq!(item["city"], "San Francisco");
    assert_eq!(item["latitude"].as_f64(), Some(37.774929));
    assert_eq!(item["longitude"].as_f64(), Some(-122.419418));
    assert_eq!(item["is_online"].as_bool(), Some(false));

    let hb = ChannelMsg::Heartbeat { data: Heartbeat { status: "ok".to_string() } };
    let v: serde_json::Value =
        serde_json::from_str(&render_channel_msg(&hb)).expect("heartbeat must be valid JSON");
    assert_eq!(v["channel"], "heartbeat");
    assert_eq!(v["data"]["status"], "ok");
}

#[test]
fn health_body_is_exact() {
    let h = HealthResponse { status: "ok".to_string(), version: "0.1.0".to_string() };
    assert_eq!(h.render(), "{\"status\":\"ok\",\"version\":\"0.1.0\"}");
}
