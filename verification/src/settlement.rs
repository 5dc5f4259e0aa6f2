//! What a fill is made of: transfers that the host carries out, and the step
//! that resumes the fill when a transfer has resolved.

use vstd::prelude::*;
use crate::constants::{FT_TRANSFER_TGAS, ONE_YOCTO};
use crate::fees::{fee_part, net_of_fee};
use crate::order::{NewOrderAction, NewOrderData, OrderData};
use crate::order_id::OrderId;

verus! {

/// A transfer of an asset that the market asks the host to carry out.
#[derive(Debug, PartialEq, Eq)]
pub struct Transfer {
    pub receiver_id: String,
    pub amount: u128,
    pub msg: String,
    pub token: String,
    pub deposit: u128,
    pub gas: u64,
}

/// What a [`Transfer`] says, as mathematical values.
pub struct TransferData {
    pub receiver_id: Seq<char>,
    pub amount: u128,
    pub msg: Seq<char>,
    pub token: Seq<char>,
    pub deposit: u128,
    pub gas: u64,
}

impl View for Transfer {
    type V = TransferData;

    open spec fn view(&self) -> TransferData {
        TransferData {
            receiver_id: self.receiver_id@,
            amount: self.amount,
            msg: self.msg@,
            token: self.token@,
            deposit: self.deposit,
            gas: self.gas,
        }
    }
}

/// The step to resume with once a transfer has resolved, with all it needs:
/// nothing else of a fill is kept between its steps.
#[derive(Debug, PartialEq, Eq)]
pub enum Callback {
    /// The maker is being paid; next the taker is.
    OnSendTokensToMaker {
        sender_id: String,
        sell_amount: u128,
        sell_token: String,
        buy_token: String,
        order_id: OrderId,
    },
    /// The taker is being paid; next the fee is booked and the order leaves.
    AfterDeposit { fee: u128, sell_token: String, buy_token: String, order_id: OrderId },
    /// Earned fees are being paid out; next they are taken off the ledger.
    OnSendTokensToExtAccount { token: String, amount: u128 },
}

/// What a [`Callback`] says, as mathematical values.
pub enum CallbackData {
    OnSendTokensToMaker {
        sender_id: Seq<char>,
        sell_amount: u128,
        sell_token: Seq<char>,
        buy_token: Seq<char>,
        order_id: OrderId,
    },
    AfterDeposit { fee: u128, sell_token: Seq<char>, buy_token: Seq<char>, order_id: OrderId },
    OnSendTokensToExtAccount { token: Seq<char>, amount: u128 },
}

impl View for Callback {
    type V = CallbackData;

    open spec fn view(&self) -> CallbackData {
        match *self {
            Callback::OnSendTokensToMaker { sender_id, sell_amount, sell_token, buy_token, order_id } =>
                CallbackData::OnSendTokensToMaker {
                    sender_id: sender_id@,
                    sell_amount,
                    sell_token: sell_token@,
                    buy_token: buy_token@,
                    order_id,
                },
            Callback::AfterDeposit { fee, sell_token, buy_token, order_id } => CallbackData::AfterDeposit {
                fee,
                sell_token: sell_token@,
                buy_token: buy_token@,
                order_id,
            },
            Callback::OnSendTokensToExtAccount { token, amount } => CallbackData::OnSendTokensToExtAccount {
                token: token@,
                amount,
            },
        }
    }
}

/// A transfer to carry out, and the step to resume with when it has resolved.
#[derive(Debug, PartialEq, Eq)]
pub struct Step {
    pub transfer: Transfer,
    pub callback: Callback,
}

/// What a [`Step`] says, as mathematical values.
pub struct StepData {
    pub transfer: TransferData,
    pub callback: CallbackData,
}

impl View for Step {
    type V = StepData;

    open spec fn view(&self) -> StepData {
        StepData { transfer: self.transfer@, callback: self.callback@ }
    }
}

/// How a transfer ended.
#[derive(Clone, Copy, Debug, PartialEq, Eq, Structural)]
pub enum TransferOutcome {
    Succeeded,
    Failed,
}

/// What the market answers to an incoming transfer.
#[derive(Debug, PartialEq, Eq)]
pub enum Receipt {
    /// Nothing more happens; this much of the amount goes back to the sender.
    Unused(u128),
    /// A fill has begun with this step.
    Pending(Step),
}

/// What a [`Receipt`] says, as mathematical values.
pub enum ReceiptData {
    Unused(u128),
    Pending(StepData),
}

impl View for Receipt {
    type V = ReceiptData;

    open spec fn view(&self) -> ReceiptData {
        match *self {
            Receipt::Unused(amount) => ReceiptData::Unused(amount),
            Receipt::Pending(step) => ReceiptData::Pending(step@),
        }
    }
}

/// What comes with an incoming transfer.
#[derive(Debug, PartialEq, Eq)]
pub enum TokenReceiverMessage {
    /// Fill the order with this id.
    Match { order_id: OrderId },
    /// Place this order.
    NewOrder(NewOrderAction),
}

/// What a [`TokenReceiverMessage`] says, as mathematical values.
pub enum MessageData {
    Match { order_id: OrderId },
    NewOrder(NewOrderData),
}

impl View for TokenReceiverMessage {
    type V = MessageData;

    open spec fn view(&self) -> MessageData {
        match *self {
            TokenReceiverMessage::Match { order_id } => MessageData::Match { order_id },
            TokenReceiverMessage::NewOrder(action) => MessageData::NewOrder(action@),
        }
    }
}

/// A transfer as the market makes them: with a deposit of `ONE_YOCTO` and
/// gas of `FT_TRANSFER_TGAS`.
pub open spec fn transfer_of(receiver_id: Seq<char>, amount: u128, msg: Seq<char>, token: Seq<char>) -> TransferData {
    TransferData { receiver_id, amount, msg, token, deposit: ONE_YOCTO, gas: FT_TRANSFER_TGAS }
}

/// First step of a fill: the maker gets what the order asks for.
pub open spec fn maker_leg(order: OrderData, order_id: OrderId, sender_id: Seq<char>) -> StepData {
    StepData {
        transfer: transfer_of(order.maker, order.buy_amount, Seq::empty(), order.buy_token),
        callback: CallbackData::OnSendTokensToMaker {
            sender_id,
            sell_amount: order.sell_amount,
            sell_token: order.sell_token,
            buy_token: order.buy_token,
            order_id,
        },
    }
}

/// Second step of a fill: the taker gets what the order sells, less the fee
/// at the rate `percent`; the fee is booked when this transfer has succeeded.
pub open spec fn taker_leg(
    sender_id: Seq<char>,
    sell_amount: u128,
    sell_token: Seq<char>,
    buy_token: Seq<char>,
    order_id: OrderId,
    percent: u16,
) -> StepData {
    StepData {
        transfer: transfer_of(
            sender_id,
            net_of_fee(sell_amount as nat, percent as nat) as u128,
            Seq::empty(),
            sell_token,
        ),
        callback: CallbackData::AfterDeposit {
            fee: fee_part(sell_amount as nat, percent as nat) as u128,
            sell_token,
            buy_token,
            order_id,
        },
    }
}

/// The note that goes with a payout of earned fees.
pub open spec fn payout_note() -> Seq<char> {
    "transfer from contract"@
}

/// The payout of `amount` of the fees earned in `token` to `receiver`.
pub open spec fn payout(token: Seq<char>, amount: u128, receiver: Seq<char>) -> StepData {
    StepData {
        transfer: transfer_of(receiver, amount, payout_note(), token),
        callback: CallbackData::OnSendTokensToExtAccount { token, amount },
    }
}

} // verus!
