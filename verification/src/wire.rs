//! Wire messages and the verified renderer.
//!
//! The server-to-client broadcast envelope and the client-to-server
//! command envelope are JSON frames. The exact character sequence of
//! every rendered frame is defined by the spec functions here
//! ([`wire_of_tx`], [`wire_of_msg`]) and the executable renderers are
//! proved to produce it.

use vstd::prelude::*;
use crate::domain::{Heartbeat, Transaction, TransactionCategory, TxView};
use crate::text::{digit_str, spec_digit_char};

verus! {

// ---------------------------------------------------------------------
// Message types
// ---------------------------------------------------------------------

/// Parameters of a subscribe command.
#[derive(Debug, Clone)]
pub struct SubscribeParams {
    pub channel: String,
}

/// Parameters of an unsubscribe command.
#[derive(Debug, Clone)]
pub struct UnsubscribeParams {
    pub channel: String,
}

/// A client-to-server command envelope, discriminated by its `method`.
#[derive(Debug, Clone)]
pub enum WsMessage {
    Subscribe { params: SubscribeParams },
    Unsubscribe { params: UnsubscribeParams },
}

/// Ghost image of a command.
pub ghost enum CmdView {
    Subscribe { channel: Seq<char> },
    Unsubscribe { channel: Seq<char> },
}

impl View for WsMessage {
    type V = CmdView;

    open spec fn view(&self) -> CmdView {
        match self {
            WsMessage::Subscribe { params } => CmdView::Subscribe { channel: params.channel@ },
            WsMessage::Unsubscribe { params } => CmdView::Unsubscribe {
                channel: params.channel@,
            },
        }
    }
}

/// A server-to-client broadcast envelope, discriminated by its
/// `channel`.
#[derive(Debug, Clone)]
pub enum ChannelMsg {
    Transactions { data: Vec<Transaction> },
    Heartbeat { data: Heartbeat },
}

/// Ghost image of a broadcast envelope.
pub ghost enum MsgView {
    Transactions { data: Seq<TxView> },
    Heartbeat { status: Seq<char> },
}

impl View for ChannelMsg {
    type V = MsgView;

    open spec fn view(&self) -> MsgView {
        match self {
            ChannelMsg::Transactions { data } => MsgView::Transactions {
                data: data@.map_values(|t: Transaction| t@),
            },
            ChannelMsg::Heartbeat { data } => MsgView::Heartbeat { status: data@ },
        }
    }
}

// ---------------------------------------------------------------------
// The wire form, as spec functions
// ---------------------------------------------------------------------

/// The canonical decimal text of a number: no sign, no leading zero.
pub open spec fn dec_of(n: nat) -> Seq<char>
    decreases n,
{
    if n < 10 {
        seq![spec_digit_char(n as int)]
    } else {
        dec_of(n / 10).push(spec_digit_char((n % 10) as int))
    }
}

/// The low `k` digits of a number, zero-padded to width `k`.
pub open spec fn padded_of(n: nat, k: nat) -> Seq<char>
    decreases k,
{
    if k == 0 {
        Seq::empty()
    } else {
        padded_of(n / 10, (k - 1) as nat).push(spec_digit_char((n % 10) as int))
    }
}

/// A coordinate in millionths of a degree, written as a signed decimal
/// with exactly six fraction digits.
pub open spec fn micro_of(v: int) -> Seq<char> {
    let a = if v < 0 { -v } else { v };
    let sign: Seq<char> = if v < 0 { seq!['-'] } else { Seq::empty() };
    sign + dec_of((a / 1000000) as nat) + seq!['.'] + padded_of((a % 1000000) as nat, 6)
}

/// The JSON text of a boolean.
pub open spec fn bool_of(b: bool) -> Seq<char> {
    if b { "true"@ } else { "false"@ }
}

/// The wire name of a category.
pub open spec fn cat_name(c: TransactionCategory) -> Seq<char> {
    match c {
        TransactionCategory::Grocery => "grocery"@,
        TransactionCategory::GasStation => "gas_station"@,
        TransactionCategory::Restaurant => "restaurant"@,
        TransactionCategory::OnlineRetail => "online_retail"@,
        TransactionCategory::Entertainment => "entertainment"@,
        TransactionCategory::Travel => "travel"@,
        TransactionCategory::Healthcare => "healthcare"@,
        TransactionCategory::Utilities => "utilities"@,
    }
}

/// The wire form of one transaction object.
pub open spec fn wire_of_tx(t: TxView) -> Seq<char> {
    "{\"id\":\""@ + t.id + "\",\"timestamp\":\""@ + t.timestamp + "\",\"cc_number\":\""@
        + t.cc_number + "\",\"category\":\""@ + cat_name(t.category)
        + "\",\"amount_usd_cents\":"@ + dec_of(t.amount_usd_cents as nat) + ",\"city\":\""@
        + t.location.city + "\",\"country_iso\":\""@ + t.location.country_iso
        + "\",\"latitude\":"@ + micro_of(t.location.latitude_micro as int) + ",\"longitude\":"@
        + micro_of(t.location.longitude_micro as int) + ",\"is_online\":"@ + bool_of(t.is_online)
        + "}"@
}

/// The wire form of a list of transaction objects, comma separated.
pub open spec fn txs_wire(ts: Seq<TxView>) -> Seq<char>
    decreases ts.len(),
{
    if ts.len() == 0 {
        Seq::empty()
    } else if ts.len() == 1 {
        wire_of_tx(ts[0])
    } else {
        txs_wire(ts.drop_last()) + seq![','] + wire_of_tx(ts.last())
    }
}

/// The wire form of a broadcast envelope.
pub open spec fn wire_of_msg(m: MsgView) -> Seq<char> {
    match m {
        MsgView::Transactions { data } => "{\"channel\":\"transactions\",\"data\":["@ + txs_wire(
            data,
        ) + "]}"@,
        MsgView::Heartbeat { status } => "{\"channel\":\"heartbeat\",\"data\":{\"status\":\""@
            + status + "\"}}"@,
    }
}

// ---------------------------------------------------------------------
// The renderer
// ---------------------------------------------------------------------

/// The canonical decimal text of `n`.
pub fn render_u64(n: u64) -> (r: String)
    ensures
        r@ == dec_of(n as nat),
    decreases n,
{
    if n < 10 {
        let mut s = String::new();
        s.append(digit_str(n));
        s
    } else {
        let mut s = render_u64(n / 10);
        s.append(digit_str(n % 10));
        s
    }
}

/// The low `k` digits of `n`, zero-padded to width `k`.
pub fn render_padded(n: u64, k: usize) -> (r: String)
    ensures
        r@ == padded_of(n as nat, k as nat),
    decreases k,
{
    if k == 0 {
        String::new()
    } else {
        let mut s = render_padded(n / 10, k - 1);
        s.append(digit_str(n % 10));
        s
    }
}

/// A coordinate in millionths of a degree as its wire text.
pub fn render_micro(v: i64) -> (r: String)
    requires
        -1_000_000_000 <= v <= 1_000_000_000,
    ensures
        r@ == micro_of(v as int),
{
    let mut s = String::new();
    let a: u64 = if v < 0 {
        s.append("-");
        proof {
            reveal_strlit("-");
            assert(s@ =~= seq!['-']);
        }
        (-v) as u64
    } else {
        proof {
            assert(s@ =~= Seq::<char>::empty());
        }
        v as u64
    };
    s.append(render_u64(a / 1000000).as_str());
    s.append(".");
    proof {
        reveal_strlit(".");
        assert("."@ =~= seq!['.']);
    }
    s.append(render_padded(a % 1000000, 6).as_str());
    s
}

/// The wire name of a category.
pub fn category_wire_name(c: TransactionCategory) -> (r: &'static str)
    ensures
        r@ == cat_name(c),
{
    match c {
        TransactionCategory::Grocery => "grocery",
        TransactionCategory::GasStation => "gas_station",
        TransactionCategory::Restaurant => "restaurant",
        TransactionCategory::OnlineRetail => "online_retail",
        TransactionCategory::Entertainment => "entertainment",
        TransactionCategory::Travel => "travel",
        TransactionCategory::Healthcare => "healthcare",
        TransactionCategory::Utilities => "utilities",
    }
}

/// The JSON text of a boolean.
pub fn bool_str(b: bool) -> (r: &'static str)
    ensures
        r@ == bool_of(b),
{
    if b { "true" } else { "false" }
}

/// Renders one transaction object exactly as [`wire_of_tx`] defines.
pub fn render_transaction(t: &Transaction) -> (r: String)
    requires
        -1_000_000_000 <= t.location.latitude_micro <= 1_000_000_000,
        -1_000_000_000 <= t.location.longitude_micro <= 1_000_000_000,
    ensures
        r@ == wire_of_tx(t@),
{
    let mut s = String::new();
    s.append("{\"id\":\"");
    s.append(t.id.as_str());
    s.append("\",\"timestamp\":\"");
    s.append(t.timestamp.as_str());
    s.append("\",\"cc_number\":\"");
    s.append(t.cc_number.as_str());
    s.append("\",\"category\":\"");
    s.append(category_wire_name(t.category));
    s.append("\",\"amount_usd_cents\":");
    s.append(render_u64(t.amount_usd_cents).as_str());
    s.append(",\"city\":\"");
    s.append(t.location.city.as_str());
    s.append("\",\"country_iso\":\"");
    s.append(t.location.country_iso.as_str());
    s.append("\",\"latitude\":");
    s.append(render_micro(t.location.latitude_micro).as_str());
    s.append(",\"longitude\":");
    s.append(render_micro(t.location.longitude_micro).as_str());
    s.append(",\"is_online\":");
    s.append(bool_str(t.is_online));
    s.append("}");
    proof {
        assert(s@ =~= wire_of_tx(t@));
    }
    s
}

/// Whether every transaction in the list has in-range coordinates.
pub open spec fn coords_in_range(ts: Seq<TxView>) -> bool {
    forall|i: int|
        0 <= i < ts.len() ==> {
            &&& -1_000_000_000 <= (#[trigger] ts[i]).location.latitude_micro <= 1_000_000_000
            &&& -1_000_000_000 <= ts[i].location.longitude_micro <= 1_000_000_000
        }
}

/// Renders a broadcast envelope exactly as [`wire_of_msg`] defines.
pub fn render_channel_msg(m: &ChannelMsg) -> (r: String)
    requires
        m matches ChannelMsg::Transactions { data } ==> coords_in_range(
            data@.map_values(|t: Transaction| t@),
        ),
    ensures
        r@ == wire_of_msg(m@),
{
    match m {
        ChannelMsg::Transactions { data } => {
            let ghost dv = data@.map_values(|t: Transaction| t@);
            let mut s = String::new();
            s.append("{\"channel\":\"transactions\",\"data\":[");
            let mut i: usize = 0;
            while i < data.len()
                invariant
                    i <= data.len(),
                    dv == data@.map_values(|t: Transaction| t@),
                    coords_in_range(dv),
                    dv.len() == data@.len(),
                    s@ == "{\"channel\":\"transactions\",\"data\":["@ + txs_wire(
                        dv.take(i as int),
                    ),
                decreases data.len() - i,
            {
                if i > 0 {
                    s.append(",");
                    proof {
                        reveal_strlit(",");
                        assert(","@ =~= seq![',']);
                    }
                }
                proof {
                    assert(dv[i as int] == data@[i as int]@);
                }
                s.append(render_transaction(&data[i]).as_str());
                proof {
                    assert(dv.take(i + 1).drop_last() =~= dv.take(i as int));
                    assert(dv.take(i + 1).last() == dv[i as int]);
                    assert(dv[i as int] == data@[i as int]@);
                    if i == 0 {
                        assert(txs_wire(dv.take(1)) == wire_of_tx(dv[0]));
                        assert(s@ =~= "{\"channel\":\"transactions\",\"data\":["@ + txs_wire(
                            dv.take(1),
                        ));
                    } else {
                        assert(s@ =~= "{\"channel\":\"transactions\",\"data\":["@ + txs_wire(
                            dv.take(i + 1),
                        ));
                    }
                }
                i += 1;
            }
            s.append("]}");
            proof {
                assert(dv.take(dv.len() as int) =~= dv);
                assert(s@ =~= wire_of_msg(m@));
            }
            s
        },
        ChannelMsg::Heartbeat { data } => {
            let mut s = String::new();
            s.append("{\"channel\":\"heartbeat\",\"data\":{\"status\":\"");
            s.append(data.status.as_str());
            s.append("\"}}");
            proof {
                assert(s@ =~= wire_of_msg(m@));
            }
            s
        },
    }
}

} // verus!
