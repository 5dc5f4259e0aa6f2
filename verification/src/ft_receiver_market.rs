//! What the market does with an asset that is sent to it.

use vstd::prelude::*;
use crate::errors::MarketError;
use crate::helpers::CallContext;
use crate::market::Market;
use crate::order::amounts_valid;
use crate::settlement::{Receipt, ReceiptData, TokenReceiverMessage};
use crate::state::MarketState;

verus! {

impl Market {
    /// Answers an incoming transfer: `sender_id` has sent `amount` of the asset
    /// that is the caller, with the text `msg`; `message` is what the text
    /// says, or `None` where it could not be read.
    pub fn ft_on_transfer(
        &mut self,
        context: &CallContext,
        sender_id: String,
        amount: u128,
        msg: &str,
        message: Option<TokenReceiverMessage>,
    ) -> (answer: Result<Receipt, MarketError>)
        requires
            old(self).wf(),
            msg@.len() > 0 ==> match message {
                Some(TokenReceiverMessage::NewOrder(action)) => amounts_valid(action.sell_amount, action.buy_amount),
                _ => true,
            },
        ensures
            final(self).wf(),
            ({
                let view = match message {
                    Some(m) => Some(m@),
                    None => None,
                };
                let outcome = old(self)@.receive(context.predecessor_account_id@, sender_id@, amount, msg@, view);
                match answer {
                    Ok(receipt) => outcome == Ok::<(MarketState, ReceiptData), MarketError>(
                        (final(self)@, receipt@),
                    ),
                    Err(e) => outcome == Err::<(MarketState, ReceiptData), MarketError>(e)
                        && final(self)@ == old(self)@,
                }
            }),
    {
        if msg.is_empty() {
            return Ok(Receipt::Unused(amount));
        }
        match message {
            None => Err(MarketError::BadMessageFormat),
            Some(TokenReceiverMessage::Match { order_id }) => {
                match self.match_order(&sender_id, &order_id, amount, &context.predecessor_account_id) {
                    Ok(step) => Ok(Receipt::Pending(step)),
                    Err(e) => Err(e),
                }
            },
            Some(TokenReceiverMessage::NewOrder(action)) => {
                match self.add_order(action, sender_id) {
                    Ok(()) => Ok(Receipt::Unused(amount)),
                    Err(e) => Err(e),
                }
            },
        }
    }
}

} // verus!
