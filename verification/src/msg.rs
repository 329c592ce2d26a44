//! Requests, the envelope a host delivers them in, and the answers.

use crate::state::{Coin, CoinView, RoundWinners};
use vstd::prelude::*;

verus! {

/// Creates the lottery. Without `admin`, the sender becomes the administrator.
#[derive(Debug, Clone, PartialEq, Eq)]
pub struct InstantiateMsg {
    pub admin: Option<String>,
    pub ticket_price: Coin,
    pub round_duration: u64,
}

/// The requests that change the state.
#[derive(Debug, Clone, Copy, PartialEq, Eq, Structural)]
pub enum ExecuteMsg {
    BuyTicket {},
    EndRound {},
    Pause {},
    Resume {},
}

/// The requests that only read.
#[derive(Debug, Clone, PartialEq, Eq)]
pub enum QueryMsg {
    GetTicketId { address: String },
    GetRoundWinners { round_id: u64 },
}

/// What the host knows when a request arrives: the current time in seconds.
#[derive(Debug, Clone, Copy, PartialEq, Eq, Structural)]
pub struct Env {
    pub time: u64,
}

/// Who sent a request, and the coins attached to it.
#[derive(Debug, Clone, PartialEq, Eq)]
pub struct MessageInfo {
    pub sender: String,
    pub funds: Vec<Coin>,
}

/// An instruction to the host to pay `amount` to `to_address`.
#[derive(Debug, Clone, PartialEq, Eq)]
pub struct Transfer {
    pub to_address: String,
    pub amount: Coin,
}

/// The answer to an [`ExecuteMsg`].
#[derive(Debug, Clone, PartialEq, Eq)]
pub enum Response {
    /// The ticket sold is the `ticket_id`-th of its round.
    BuyTicket { ticket_id: u64 },
    /// Round `round_id` was closed with `winners`; the host must carry out
    /// all of `messages`, or the closing has not happened.
    EndRound { round_id: u64, winners: RoundWinners, messages: Vec<Transfer> },
    Pause {},
    Resume {},
}

/// The answer to a [`QueryMsg`].
#[derive(Debug, Clone, PartialEq, Eq)]
pub enum QueryResponse {
    TicketId(u64),
    RoundWinners(Vec<String>),
}

/// Model of an [`InstantiateMsg`].
pub struct InstantiateMsgView {
    pub admin: Option<Seq<char>>,
    pub ticket_price: CoinView,
    pub round_duration: nat,
}

/// Model of a [`QueryMsg`].
pub enum QueryMsgView {
    GetTicketId { address: Seq<char> },
    GetRoundWinners { round_id: nat },
}

/// Model of a [`MessageInfo`].
pub struct MessageInfoView {
    pub sender: Seq<char>,
    pub funds: Seq<CoinView>,
}

/// Model of a [`Transfer`].
pub struct TransferView {
    pub to_address: Seq<char>,
    pub amount: CoinView,
}

/// Model of a [`Response`].
pub enum ResponseView {
    BuyTicket { ticket_id: nat },
    EndRound { round_id: nat, winners: Seq<Seq<char>>, messages: Seq<TransferView> },
    Pause {},
    Resume {},
}

/// Model of a [`QueryResponse`].
pub enum QueryResponseView {
    TicketId(nat),
    RoundWinners(Seq<Seq<char>>),
}

impl View for InstantiateMsg {
    type V = InstantiateMsgView;

    open spec fn view(&self) -> InstantiateMsgView {
        InstantiateMsgView {
            admin: match self.admin {
                Some(a) => Some(a@),
                None => None,
            },
            ticket_price: self.ticket_price@,
            round_duration: self.round_duration as nat,
        }
    }
}

impl View for QueryMsg {
    type V = QueryMsgView;

    open spec fn view(&self) -> QueryMsgView {
        match self {
            QueryMsg::GetTicketId { address } => QueryMsgView::GetTicketId { address: address@ },
            QueryMsg::GetRoundWinners { round_id } => QueryMsgView::GetRoundWinners {
                round_id: *round_id as nat,
            },
        }
    }
}

impl View for MessageInfo {
    type V = MessageInfoView;

    open spec fn view(&self) -> MessageInfoView {
        MessageInfoView { sender: self.sender@, funds: self.funds.deep_view() }
    }
}

impl View for Transfer {
    type V = TransferView;

    open spec fn view(&self) -> TransferView {
        TransferView { to_address: self.to_address@, amount: self.amount@ }
    }
}

impl DeepView for Transfer {
    type V = TransferView;

    open spec fn deep_view(&self) -> TransferView {
        self@
    }
}

impl View for Response {
    type V = ResponseView;

    open spec fn view(&self) -> ResponseView {
        match self {
            Response::BuyTicket { ticket_id } => ResponseView::BuyTicket {
                ticket_id: *ticket_id as nat,
            },
            Response::EndRound { round_id, winners, messages } => ResponseView::EndRound {
                round_id: *round_id as nat,
                winners: winners@,
                messages: messages.deep_view(),
            },
            Response::Pause {} => ResponseView::Pause {},
            Response::Resume {} => ResponseView::Resume {},
        }
    }
}

impl View for QueryResponse {
    type V = QueryResponseView;

    open spec fn view(&self) -> QueryResponseView {
        match self {
            QueryResponse::TicketId(id) => QueryResponseView::TicketId(*id as nat),
            QueryResponse::RoundWinners(winners) => QueryResponseView::RoundWinners(
                winners.deep_view(),
            ),
        }
    }
}

} // verus!
