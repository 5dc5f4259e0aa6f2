//! Small steps that several operations share.

use vstd::prelude::*;
use vstd::string::*;
use crate::constants::{FT_TRANSFER_TGAS, ONE_YOCTO, RESERVE_TGAS};
use crate::errors::MarketError;
use crate::settlement::{Transfer, TransferData};
use crate::state::pair_key;

verus! {

/// Who runs the market and who called it, as the host reports them.
#[derive(Debug, PartialEq, Eq)]
pub struct CallContext {
    /// The account the market runs under: its owner.
    pub current_account_id: String,
    /// The account that made the call.
    pub predecessor_account_id: String,
}

/// Passes only the owner: the caller must be the account the market runs under.
pub fn assert_owner(context: &CallContext) -> (checked: Result<(), MarketError>)
    ensures
        checked is Ok <==> context.current_account_id@ == context.predecessor_account_id@,
        checked is Err ==> checked == Err::<(), MarketError>(MarketError::PermissionDenied),
{
    if context.current_account_id == context.predecessor_account_id {
        Ok(())
    } else {
        Err(MarketError::PermissionDenied)
    }
}

/// The gas that the next step may use: what was paid for, less what is used,
/// less what a transfer and the step after it are given.
pub fn get_next_gas(prepaid_gas: u64, used_gas: u64) -> (gas: u64)
    requires
        used_gas + FT_TRANSFER_TGAS + RESERVE_TGAS <= prepaid_gas,
    ensures
        gas == prepaid_gas - used_gas - FT_TRANSFER_TGAS - RESERVE_TGAS,
{
    prepaid_gas - used_gas - FT_TRANSFER_TGAS - RESERVE_TGAS
}

/// The key of the pair that sells `sell_token` for `buy_token`.
pub fn compose_key(sell_token: &String, buy_token: &String) -> (key: String)
    ensures
        key@ == pair_key(sell_token@, buy_token@),
{
    let mut key = sell_token.clone();
    key.append("#");
    key.append(buy_token.as_str());
    proof {
        reveal_strlit("#");
    }
    key
}

/// The transfer of `amount` of `token` to `receiver_id`, with the note `msg`,
/// the deposit and the gas that every transfer of the market carries.
pub fn ft_transfer(receiver_id: &String, amount: u128, msg: &str, token: &String) -> (transfer: Transfer)
    ensures
        transfer@ == (TransferData {
            receiver_id: receiver_id@,
            amount,
            msg: msg@,
            token: token@,
            deposit: ONE_YOCTO,
            gas: FT_TRANSFER_TGAS,
        }),
{
    Transfer {
        receiver_id: receiver_id.clone(),
        amount,
        msg: String::from_str(msg),
        token: token.clone(),
        deposit: ONE_YOCTO,
        gas: FT_TRANSFER_TGAS,
    }
}

} // verus!
