//! What the lottery keeps between requests, and the mathematical model of it.
//!
//! Each stored type has a view made of sequences and natural numbers. The
//! contracts of the crate are stated over those views.

use crate::payout::WINNER_COUNT;
use vstd::prelude::*;

verus! {

/// An amount of one currency.
#[derive(Debug, Clone, PartialEq, Eq)]
pub struct Coin {
    pub denom: String,
    pub amount: u128,
}

/// The parameters of the lottery. Only the pause flag changes after creation.
#[derive(Debug, Clone, PartialEq, Eq)]
pub struct Config {
    pub admin: String,
    pub ticket_price: Coin,
    pub round_duration: u64,
    pub paused: bool,
}

/// The round that is open. One entry of `participants` is one ticket, in the
/// order of sale; an address occurs once for each ticket it bought.
#[derive(Debug, Clone, PartialEq, Eq)]
pub struct Round {
    pub id: u64,
    pub total_funds: Coin,
    pub participants: Vec<String>,
    pub start_time: u64,
}

/// The winners of one closed round, in the order they were drawn.
#[derive(Debug, Clone, PartialEq, Eq)]
pub struct RoundWinners {
    pub winners: Vec<String>,
}

/// The whole state: configuration, the open round, and the winners of every
/// closed round. Round ids start at 1 and grow by one with each closing, so
/// entry `k` of `history` belongs to round `k + 1`.
#[derive(Debug, Clone, PartialEq, Eq)]
pub struct Lottery {
    pub config: Config,
    pub round: Round,
    pub history: Vec<RoundWinners>,
}

/// Model of a [`Coin`].
pub struct CoinView {
    pub denom: Seq<char>,
    pub amount: nat,
}

/// Model of a [`Config`].
pub struct ConfigView {
    pub admin: Seq<char>,
    pub ticket_price: CoinView,
    pub round_duration: nat,
    pub paused: bool,
}

/// Model of a [`Round`].
pub struct RoundView {
    pub id: nat,
    pub total_funds: CoinView,
    pub participants: Seq<Seq<char>>,
    pub start_time: nat,
}

/// Model of a [`Lottery`].
pub struct LotteryView {
    pub config: ConfigView,
    pub round: RoundView,
    pub history: Seq<Seq<Seq<char>>>,
}

impl View for Coin {
    type V = CoinView;

    open spec fn view(&self) -> CoinView {
        CoinView { denom: self.denom@, amount: self.amount as nat }
    }
}

impl DeepView for Coin {
    type V = CoinView;

    open spec fn deep_view(&self) -> CoinView {
        self@
    }
}

impl View for Config {
    type V = ConfigView;

    open spec fn view(&self) -> ConfigView {
        ConfigView {
            admin: self.admin@,
            ticket_price: self.ticket_price@,
            round_duration: self.round_duration as nat,
            paused: self.paused,
        }
    }
}

impl View for Round {
    type V = RoundView;

    open spec fn view(&self) -> RoundView {
        RoundView {
            id: self.id as nat,
            total_funds: self.total_funds@,
            participants: self.participants.deep_view(),
            start_time: self.start_time as nat,
        }
    }
}

impl View for RoundWinners {
    type V = Seq<Seq<char>>;

    open spec fn view(&self) -> Seq<Seq<char>> {
        self.winners.deep_view()
    }
}

impl DeepView for RoundWinners {
    type V = Seq<Seq<char>>;

    open spec fn deep_view(&self) -> Seq<Seq<char>> {
        self@
    }
}

impl View for Lottery {
    type V = LotteryView;

    open spec fn view(&self) -> LotteryView {
        LotteryView {
            config: self.config@,
            round: self.round@,
            history: self.history.deep_view(),
        }
    }
}

impl ConfigView {
    /// The entry price is positive. No request changes the price, so this
    /// holds for the lifetime of a lottery that was created with it.
    pub open spec fn wf(self) -> bool {
        self.ticket_price.amount > 0
    }

    /// `other` differs from this configuration in the pause flag at most.
    pub open spec fn same_terms(self, other: ConfigView) -> bool {
        &&& self.admin == other.admin
        &&& self.ticket_price == other.ticket_price
        &&& self.round_duration == other.round_duration
    }
}

impl RoundView {
    /// The round is numbered from 1, is kept in the currency of the entry
    /// price, and holds exactly one entry price for each ticket sold.
    pub open spec fn wf(self, config: ConfigView) -> bool {
        &&& self.id >= 1
        &&& self.total_funds.denom == config.ticket_price.denom
        &&& self.total_funds.amount == config.ticket_price.amount * self.participants.len()
    }

    /// A round with no ticket sold, opened at `now` under `config`.
    pub open spec fn fresh(id: nat, config: ConfigView, now: nat) -> RoundView {
        RoundView {
            id,
            total_funds: CoinView { denom: config.ticket_price.denom, amount: 0 },
            participants: Seq::empty(),
            start_time: now,
        }
    }

    /// The first moment at which the round may be closed.
    pub open spec fn end_time(self, config: ConfigView) -> nat {
        self.start_time + config.round_duration
    }
}

impl LotteryView {
    /// The round is well formed under the configuration, every closed round
    /// has its entry in the history, and each entry names as many winners as
    /// a closing draws.
    pub open spec fn wf(self) -> bool {
        &&& self.round.wf(self.config)
        &&& self.history.len() + 1 == self.round.id
        &&& forall|k: int|
            0 <= k < self.history.len() ==> (#[trigger] self.history[k]).len() == WINNER_COUNT
    }
}

impl Config {
    /// See [`ConfigView::wf`].
    pub open spec fn wf(&self) -> bool {
        self@.wf()
    }
}

impl Round {
    /// See [`RoundView::wf`].
    pub open spec fn wf(&self, config: &Config) -> bool {
        self@.wf(config@)
    }
}

impl Lottery {
    /// See [`LotteryView::wf`].
    pub open spec fn wf(&self) -> bool {
        self@.wf()
    }
}

} // verus!
