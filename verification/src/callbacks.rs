//! The steps of a fill and of a payout of earned fees. Each step decides on
//! what the previous transfer came to and names the next transfer; between
//! two steps the market is open to every other operation.

use vstd::prelude::*;
use vstd::string::*;
use crate::errors::MarketError;
use crate::helpers::{assert_owner, ft_transfer, CallContext};
use crate::market::Market;
use crate::order_id::OrderId;
use crate::settlement::{Callback, Step, StepData, TransferOutcome};
use crate::state::MarketState;

verus! {

impl Market {
    /// Begins the payout of `amount` of the fees earned in `token` to
    /// `receiver`, for the owner, who must be the caller. Nothing is taken off
    /// the ledger before the transfer has succeeded.
    pub fn transfer_earned_fees(
        &self,
        context: &CallContext,
        token: String,
        amount: u128,
        receiver: String,
    ) -> (begun: Result<Step, MarketError>)
        requires
            self.wf(),
        ensures
            ({
                let by_owner = context.current_account_id@ == context.predecessor_account_id@;
                match begun {
                    Ok(step) => self@.pay_out(by_owner, token@, amount, receiver@) == Ok::<StepData, MarketError>(
                        step@,
                    ),
                    Err(e) => self@.pay_out(by_owner, token@, amount, receiver@) == Err::<StepData, MarketError>(
                        e,
                    ),
                }
            }),
    {
        match assert_owner(context) {
            Ok(()) => {},
            Err(e) => {
                return Err(e);
            },
        }
        let fee_info = self.fee_info(&token);
        if amount > fee_info.earned {
            return Err(MarketError::InsufficientFunds);
        }
        let transfer = ft_transfer(&receiver, amount, "transfer from contract", &token);
        Ok(Step { transfer, callback: Callback::OnSendTokensToExtAccount { token, amount } })
    }

    /// Resumes a payout of earned fees once its transfer has resolved, and
    /// returns how the transfer ended: a failed one changes nothing.
    pub fn callback_on_send_tokens_to_ext_account(
        &mut self,
        results: &Vec<TransferOutcome>,
        token: String,
        amount: u128,
    ) -> (resumed: Result<TransferOutcome, MarketError>)
        requires
            old(self).wf(),
        ensures
            final(self).wf(),
            match resumed {
                Ok(outcome) => outcome == results@[0] && old(self)@.paid_out(results@, token@, amount) == Ok::<
                    MarketState,
                    MarketError,
                >(final(self)@),
                Err(e) => old(self)@.paid_out(results@, token@, amount) == Err::<MarketState, MarketError>(e)
                    && final(self)@ == old(self)@,
            },
    {
        if results.len() != 1 {
            return Err(MarketError::BadCallbackResultCount);
        }
        match results[0] {
            TransferOutcome::Failed => {},
            TransferOutcome::Succeeded => {
                self.internal_on_tokens_sent_to_ext_account(&token, amount);
            },
        }
        Ok(results[0])
    }

    /// Begins the fill of the order under `order_id`: `sender_id` has sent
    /// `amount` of `token`. Returns the transfer that pays the maker and the
    /// step to resume with. The books stay as they are.
    pub fn match_order(&self, sender_id: &String, order_id: &OrderId, amount: u128, token: &String) -> (begun: Result<
        Step,
        MarketError,
    >)
        requires
            self.wf(),
        ensures
            match begun {
                Ok(step) => self@.fill(sender_id@, *order_id, amount, token@) == Ok::<StepData, MarketError>(step@),
                Err(e) => self@.fill(sender_id@, *order_id, amount, token@) == Err::<StepData, MarketError>(e),
            },
    {
        let order = match self.get_order(*order_id) {
            Some(order) => order,
            None => {
                return Err(MarketError::OrderNotFound);
            },
        };
        if order.buy_amount != amount {
            return Err(MarketError::InvalidAmount);
        }
        if order.buy_token != *token {
            return Err(MarketError::InvalidToken);
        }
        proof {
            reveal_strlit("");
            assert(""@ =~= Seq::<char>::empty());
        }
        let transfer = ft_transfer(&order.maker, order.buy_amount, "", &order.buy_token);
        Ok(
            Step {
                transfer,
                callback: Callback::OnSendTokensToMaker {
                    sender_id: sender_id.clone(),
                    sell_amount: order.sell_amount,
                    sell_token: order.sell_token,
                    buy_token: order.buy_token,
                    order_id: *order_id,
                },
            },
        )
    }

    /// Resumes a fill once the transfer to the maker has resolved: on success
    /// returns the transfer that pays the taker and the step to resume with.
    /// The order stays in the books whatever the result.
    pub fn callback_on_send_tokens_to_maker(
        &mut self,
        results: &Vec<TransferOutcome>,
        sender_id: String,
        sell_amount: u128,
        sell_token: String,
        buy_token: String,
        order_id: OrderId,
    ) -> (resumed: Result<Step, MarketError>)
        requires
            old(self).wf(),
        ensures
            final(self).wf(),
            match resumed {
                Ok(step) => old(self)@.maker_paid(results@, sender_id@, sell_amount, sell_token@, buy_token@, order_id)
                    == Ok::<(MarketState, StepData), MarketError>((final(self)@, step@)),
                Err(e) => old(self)@.maker_paid(results@, sender_id@, sell_amount, sell_token@, buy_token@, order_id)
                    == Err::<(MarketState, StepData), MarketError>(e) && final(self)@ == old(self)@,
            },
    {
        if results.len() != 1 {
            return Err(MarketError::BadCallbackResultCount);
        }
        match results[0] {
            TransferOutcome::Failed => {
                return Err(MarketError::SettlementAborted);
            },
            TransferOutcome::Succeeded => {},
        }
        let net: u128 = self.take_fee(sell_amount, &sell_token);
        let fee: u128 = sell_amount - net;
        proof {
            reveal_strlit("");
            assert(""@ =~= Seq::<char>::empty());
        }
        let transfer = ft_transfer(&sender_id, net, "", &sell_token);
        Ok(Step { transfer, callback: Callback::AfterDeposit { fee, sell_token, buy_token, order_id } })
    }

    /// Ends a fill once the transfer to the taker has resolved: on success
    /// `fee` is booked as earned; either way the order leaves the books.
    /// Returns how the transfer ended.
    pub fn callback_after_deposit(
        &mut self,
        results: &Vec<TransferOutcome>,
        fee: u128,
        sell_token: String,
        buy_token: String,
        order_id: OrderId,
    ) -> (resumed: Result<TransferOutcome, MarketError>)
        requires
            old(self).wf(),
            results@.len() == 1 && results@[0] == TransferOutcome::Succeeded ==> old(self)@.fee(
                sell_token@,
            ).earned + fee <= u128::MAX,
        ensures
            final(self).wf(),
            match resumed {
                Ok(outcome) => outcome == results@[0] && old(self)@.taker_paid(
                    results@,
                    fee,
                    sell_token@,
                    buy_token@,
                    order_id,
                ) == Ok::<MarketState, MarketError>(final(self)@),
                Err(e) => old(self)@.taker_paid(results@, fee, sell_token@, buy_token@, order_id) == Err::<
                    MarketState,
                    MarketError,
                >(e) && final(self)@ == old(self)@,
            },
    {
        if results.len() != 1 {
            return Err(MarketError::BadCallbackResultCount);
        }
        match self.internal_remove_order(&sell_token, &buy_token, &order_id) {
            Ok(()) => {},
            Err(e) => {
                return Err(e);
            },
        }
        match results[0] {
            TransferOutcome::Failed => {},
            TransferOutcome::Succeeded => {
                self.on_success_deposit(fee, &sell_token);
            },
        }
        Ok(results[0])
    }
}

} // verus!
