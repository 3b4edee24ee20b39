//! Connection session logic.
//!
//! A session owns one socket, split into an inbound half (commands in,
//! registry out) and an outbound half (hub events in, envelopes out).
//! The functions here are the decisions both halves make; the task and
//! socket plumbing around them lives in the application crate.

use vstd::prelude::*;
use crate::domain::{Heartbeat, Transaction, TxView};
use crate::registry::{Channel, WsClient, spec_channel_from_name};
use crate::wire::{ChannelMsg, MsgView, WsMessage, CmdView};
use crate::parse::{parse_command, sp_cmd};

verus! {

/// The registry membership a command leaves behind: a known channel is
/// added or removed, an unknown channel name changes nothing.
pub open spec fn registry_after(reg: Set<Channel>, cmd: CmdView) -> Set<Channel> {
    match cmd {
        CmdView::Subscribe { channel } => match spec_channel_from_name(channel) {
            Some(c) => reg.insert(c),
            None => reg,
        },
        CmdView::Unsubscribe { channel } => match spec_channel_from_name(channel) {
            Some(c) => reg.remove(c),
            None => reg,
        },
    }
}

/// Applies one parsed command to the session's registry. An unknown
/// channel name is rejected silently: no registry change, no reply.
pub fn handle_incoming(msg: &WsMessage, client: &mut WsClient)
    ensures
        final(client)@ == registry_after(old(client)@, msg@),
{
    match msg {
        WsMessage::Subscribe { params } => {
            match Channel::from_name(params.channel.as_str()) {
                Some(c) => {
                    client.subscribe(c);
                },
                None => {},
            }
        },
        WsMessage::Unsubscribe { params } => {
            match Channel::from_name(params.channel.as_str()) {
                Some(c) => {
                    client.unsubscribe(c);
                },
                None => {},
            }
        },
    }
}

/// Handles one inbound text frame: a frame outside the command grammar
/// is dropped and the registry is untouched; a well-formed command is
/// applied. The connection is never torn down over a bad frame.
pub fn handle_frame(text: &str, client: &mut WsClient)
    ensures
        match sp_cmd(text@) {
            None => final(client)@ == old(client)@,
            Some(cmd) => final(client)@ == registry_after(old(client)@, cmd),
        },
{
    match parse_command(text) {
        None => {},
        Some(msg) => handle_incoming(&msg, client),
    }
}

/// A command naming an unknown channel leaves any registry exactly as
/// it was.
pub proof fn lemma_unknown_channel_noop(reg: Set<Channel>, cmd: CmdView)
    requires
        match cmd {
            CmdView::Subscribe { channel } => spec_channel_from_name(channel) is None,
            CmdView::Unsubscribe { channel } => spec_channel_from_name(channel) is None,
        },
    ensures
        registry_after(reg, cmd) == reg,
{
}

/// One event read from the hub by the outbound half.
pub enum HubEvent {
    Heartbeat(Heartbeat),
    Transaction(Transaction),
}

/// Ghost image of a hub event.
pub ghost enum EvView {
    Heartbeat(Seq<char>),
    Transaction(TxView),
}

impl View for HubEvent {
    type V = EvView;

    open spec fn view(&self) -> EvView {
        match self {
            HubEvent::Heartbeat(h) => EvView::Heartbeat(h@),
            HubEvent::Transaction(t) => EvView::Transaction(t@),
        }
    }
}

/// The envelope the outbound half forwards for one event, if any:
/// heartbeats go to every session unconditionally; a transaction goes
/// out only while the registry holds the transactions channel.
pub open spec fn spec_outbound(reg: Set<Channel>, ev: EvView) -> Option<MsgView> {
    match ev {
        EvView::Heartbeat(status) => Some(MsgView::Heartbeat { status }),
        EvView::Transaction(t) => if reg.contains(Channel::Transactions) {
            Some(MsgView::Transactions { data: seq![t] })
        } else {
            None
        },
    }
}

/// The outbound half's delivery decision for one event.
pub fn outbound_msg(client: &WsClient, ev: HubEvent) -> (r: Option<ChannelMsg>)
    ensures
        match spec_outbound(client@, ev@) {
            None => r is None,
            Some(mv) => r matches Some(m) && m@ == mv,
        },
{
    match ev {
        HubEvent::Heartbeat(h) => Some(ChannelMsg::Heartbeat { data: h }),
        HubEvent::Transaction(t) => {
            if client.is_subscribed(&Channel::Transactions) {
                let ghost tv = t@;
                let mut data: Vec<Transaction> = Vec::new();
                data.push(t);
                proof {
                    assert(data@.map_values(|x: Transaction| x@) =~= seq![tv]);
                }
                Some(ChannelMsg::Transactions { data })
            } else {
                None
            }
        },
    }
}

/// Subscription controls delivery: right after subscribing to the
/// transactions channel every transaction event is forwarded, and
/// right after unsubscribing none is, whatever the registry held
/// before.
pub proof fn lemma_subscription_controls_delivery(reg: Set<Channel>, t: TxView)
    ensures
        spec_outbound(reg.insert(Channel::Transactions), EvView::Transaction(t)) == Some(
            MsgView::Transactions { data: seq![t] },
        ),
        spec_outbound(reg.remove(Channel::Transactions), EvView::Transaction(t)) is None,
{
}

/// The positions in an event stream whose transactions a session with
/// registry `reg` receives.
pub open spec fn delivered_tx_indices(reg: Set<Channel>, evs: Seq<EvView>) -> Set<int> {
    Set::new(
        |i: int|
            0 <= i < evs.len() && evs[i] is Transaction && reg.contains(Channel::Transactions),
    )
}

/// Per-session filtering: two sessions of which at most one subscribes
/// to the transactions channel receive disjoint transaction projections
/// of the same event stream. (Heartbeats are a global broadcast and are
/// delivered to every session alike, so only transactions project.)
pub proof fn lemma_disjoint_projection(r1: Set<Channel>, r2: Set<Channel>, evs: Seq<EvView>)
    requires
        !(r1.contains(Channel::Transactions) && r2.contains(Channel::Transactions)),
    ensures
        delivered_tx_indices(r1, evs).intersect(delivered_tx_indices(r2, evs))
            == Set::<int>::empty(),
{
    assert(delivered_tx_indices(r1, evs).intersect(delivered_tx_indices(r2, evs))
        =~= Set::<int>::empty());
}

/// What a session delivers depends on its own registry alone: sessions
/// with equal membership of the transactions channel deliver the same
/// projection, whatever else differs.
pub proof fn lemma_projection_own_registry(r1: Set<Channel>, r2: Set<Channel>, evs: Seq<EvView>)
    requires
        r1.contains(Channel::Transactions) == r2.contains(Channel::Transactions),
    ensures
        delivered_tx_indices(r1, evs) == delivered_tx_indices(r2, evs),
{
    assert(delivered_tx_indices(r1, evs) =~= delivered_tx_indices(r2, evs));
}

/// The lifecycle of a session: both halves running, one half ended and
/// the sibling being cancelled, or finished.
#[derive(Clone, Copy, Debug, PartialEq, Eq, Structural)]
pub enum SessionState {
    Open,
    HalfClosing,
    Closed,
}

/// What befalls a session: one of its halves terminates, or the
/// cancelled sibling finishes.
#[derive(Clone, Copy, Debug, PartialEq, Eq, Structural)]
pub enum SessionEvent {
    HalfEnded,
    SiblingCancelled,
}

/// The session lifecycle step: the first half to end moves the session
/// to `HalfClosing`; the sibling's cancellation closes it; `Closed` is
/// terminal.
pub open spec fn spec_session_step(s: SessionState, e: SessionEvent) -> SessionState {
    match s {
        SessionState::Open => match e {
            SessionEvent::HalfEnded => SessionState::HalfClosing,
            SessionEvent::SiblingCancelled => SessionState::Open,
        },
        SessionState::HalfClosing => match e {
            SessionEvent::HalfEnded => SessionState::HalfClosing,
            SessionEvent::SiblingCancelled => SessionState::Closed,
        },
        SessionState::Closed => SessionState::Closed,
    }
}

/// Advances the session lifecycle by one event.
pub fn session_step(s: SessionState, e: SessionEvent) -> (r: SessionState)
    ensures
        r == spec_session_step(s, e),
{
    match s {
        SessionState::Open => match e {
            SessionEvent::HalfEnded => SessionState::HalfClosing,
            SessionEvent::SiblingCancelled => SessionState::Open,
        },
        SessionState::HalfClosing => match e {
            SessionEvent::HalfEnded => SessionState::HalfClosing,
            SessionEvent::SiblingCancelled => SessionState::Closed,
        },
        SessionState::Closed => SessionState::Closed,
    }
}

/// The session lifecycle after a whole run of events.
pub open spec fn session_run(s: SessionState, evs: Seq<SessionEvent>) -> SessionState
    decreases evs.len(),
{
    if evs.len() == 0 {
        s
    } else {
        session_run(spec_session_step(s, evs[0]), evs.drop_first())
    }
}

/// A closed session stays closed: no run of events reopens it.
pub proof fn lemma_closed_terminal(evs: Seq<SessionEvent>)
    ensures
        session_run(SessionState::Closed, evs) == SessionState::Closed,
    decreases evs.len(),
{
    if evs.len() > 0 {
        lemma_closed_terminal(evs.drop_first());
    }
}

} // verus!
