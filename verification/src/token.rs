//! The token ledger core: the explicit ledger state and every operation of
//! the token interface, together with the decision kernels the operations
//! share with a host-environment shell.

use vstd::prelude::*;

use crate::allowances;
use crate::allowances::AllowanceKey;
use crate::allowances::AllowanceValue;
use crate::balances;

verus! {

/// Number of decimal places of the token, fixed at compile time.
pub const TOKEN_DECIMALS: u32 = 7;

/// The fixed supply in whole tokens.
pub const FIXED_SUPPLY_WHOLE: i128 = 77_000_000_000;

/// Base units per whole token: ten to the power of `TOKEN_DECIMALS`.
pub const TOKEN_SCALE: i128 = 10_000_000;

/// The entire fixed supply in base units, minted once at initialization.
pub const TOTAL_SUPPLY: i128 = FIXED_SUPPLY_WHOLE * TOKEN_SCALE;

/// The token's human-readable name.
pub const TOKEN_NAME: &'static str = "Auxano";

/// The token's ticker symbol.
pub const TOKEN_SYMBOL: &'static str = "AVXO";

/// The failure codes of the ledger. Every failing operation reports one of
/// these and leaves the ledger state exactly as it was.
#[derive(Clone, Copy, Debug, PartialEq, Eq, Structural)]
pub enum TokenError {
    AlreadyInitialized,
    NotInitialized,
    AmountMustBePositive,
    InsufficientBalance,
    InsufficientAllowance,
    BurnDisabled,
}

/// A transfer recipient: a base identity plus an optional sub-identity
/// discriminator. The discriminator never affects balance accounting; it
/// is only echoed in the emitted event.
#[derive(Clone, Copy, Debug, PartialEq, Eq)]
pub struct MuxedAddress {
    pub address: u64,
    pub muxed_id: Option<u64>,
}

/// The notification a successful direct transfer asks the host to publish.
#[derive(Clone, Copy, Debug, PartialEq, Eq)]
pub struct TransferEvent {
    pub from: u64,
    pub to: u64,
    pub to_muxed_id: Option<u64>,
    pub amount: i128,
}

/// An allowance is expired when it tracks an expiration and that ledger
/// sequence lies strictly before the current one.
pub open spec fn is_expired(v: AllowanceValue, current_ledger: u32) -> bool {
    v.expiration_ledger != 0 && v.expiration_ledger < current_ledger
}

/// The amount an allowance record grants at the given ledger sequence: 0
/// once expired, the stored amount otherwise.
pub open spec fn live_amount(v: AllowanceValue, current_ledger: u32) -> int {
    if is_expired(v, current_ledger) {
        0
    } else {
        v.amount as int
    }
}

/// Rejects a transfer amount that is not strictly positive.
pub fn check_positive(amount: i128) -> (r: Result<(), TokenError>)
    ensures
        r == (if amount > 0 {
            Ok::<(), TokenError>(())
        } else {
            Err::<(), TokenError>(TokenError::AmountMustBePositive)
        }),
{
    if amount <= 0 {
        Err(TokenError::AmountMustBePositive)
    } else {
        Ok(())
    }
}

/// Validates approval parameters and builds the record to store: the
/// amount must be non-negative, and a non-zero amount must not already be
/// expired at the current ledger sequence.
pub fn validate_approval(amount: i128, expiration_ledger: u32, current_ledger: u32) -> (r: Result<
    AllowanceValue,
    TokenError,
>)
    ensures
        r == (if amount < 0 || (amount != 0 && expiration_ledger < current_ledger) {
            Err::<AllowanceValue, TokenError>(TokenError::AmountMustBePositive)
        } else {
            Ok::<AllowanceValue, TokenError>(AllowanceValue { amount, expiration_ledger })
        }),
{
    if amount < 0 {
        return Err(TokenError::AmountMustBePositive);
    }
    if amount != 0 && expiration_ledger < current_ledger {
        return Err(TokenError::AmountMustBePositive);
    }
    Ok(AllowanceValue { amount, expiration_ledger })
}

/// The amount an allowance record grants at the given ledger sequence.
pub fn live_allowance_amount(v: AllowanceValue, current_ledger: u32) -> (r: i128)
    ensures
        r as int == live_amount(v, current_ledger),
{
    if v.expiration_ledger != 0 && v.expiration_ledger < current_ledger {
        0
    } else {
        v.amount
    }
}

/// Deducts `amount` from a holder's balance, refusing overdrafts.
pub fn debit(balance: i128, amount: i128) -> (r: Result<i128, TokenError>)
    requires
        0 <= amount,
    ensures
        r == (if balance >= amount {
            Ok::<i128, TokenError>((balance - amount) as i128)
        } else {
            Err::<i128, TokenError>(TokenError::InsufficientBalance)
        }),
{
    if balance < amount {
        Err(TokenError::InsufficientBalance)
    } else {
        Ok(balance - amount)
    }
}

/// Adds `amount` to a recipient's balance. The caller shows the sum fits;
/// inside the ledger that follows from conservation of the fixed supply.
pub fn credit(balance: i128, amount: i128) -> (r: i128)
    requires
        0 <= amount,
        balance + amount <= i128::MAX,
    ensures
        r as int == balance + amount,
{
    balance + amount
}

/// Applies a delegated spend to an allowance record: refuses an expired
/// record or one granting less than `amount`, and otherwise decrements the
/// stored amount, keeping the expiration.
pub fn spend_allowance(v: AllowanceValue, amount: i128, current_ledger: u32) -> (r: Result<
    AllowanceValue,
    TokenError,
>)
    requires
        0 < amount,
    ensures
        r == (if is_expired(v, current_ledger) || v.amount < amount {
            Err::<AllowanceValue, TokenError>(TokenError::InsufficientAllowance)
        } else {
            Ok::<AllowanceValue, TokenError>(
                (AllowanceValue {
                    amount: (v.amount - amount) as i128,
                    expiration_ledger: v.expiration_ledger,
                }),
            )
        }),
{
    if v.expiration_ledger != 0 && v.expiration_ledger < current_ledger {
        return Err(TokenError::InsufficientAllowance);
    }
    if v.amount < amount {
        return Err(TokenError::InsufficientAllowance);
    }
    Ok(AllowanceValue { amount: v.amount - amount, expiration_ledger: v.expiration_ledger })
}

/// The whole ledger state: the init flag, the recorded total supply, the
/// balance table and the allowance table. The host persists a value of
/// this type and hands it, with the inputs of the invocation, to exactly
/// one operation at a time; on failure it discards the value, which the
/// contracts make unnecessary by leaving it unchanged on every error.
pub struct AuxanoToken {
    pub inited: bool,
    pub supply: i128,
    pub balances: Vec<(u64, i128)>,
    pub allowances: Vec<(AllowanceKey, AllowanceValue)>,
}

impl AuxanoToken {
    /// Well-formedness: the tables carry no duplicate keys, balances and
    /// allowance amounts are non-negative, an initialized ledger records
    /// the fixed supply and its balances sum exactly to it, and an
    /// uninitialized ledger holds no entries at all.
    pub open spec fn wf(self) -> bool {
        &&& balances::keys_unique(self.balances@)
        &&& balances::nonneg(self.balances@)
        &&& allowances::keys_unique(self.allowances@)
        &&& allowances::amounts_nonneg(self.allowances@)
        &&& (self.inited ==> self.supply == TOTAL_SUPPLY && balances::sum(self.balances@)
            == self.supply as int)
        &&& (!self.inited ==> self.balances@.len() == 0 && self.allowances@.len() == 0)
    }

    /// The balance the ledger holds for `id` (0 when no entry exists).
    pub open spec fn balance_of(self, id: u64) -> int {
        balances::lookup(self.balances@, id)
    }

    /// The allowance record stored for the (owner, spender) pair.
    pub open spec fn allowance_record(self, from: u64, spender: u64) -> AllowanceValue {
        allowances::lookup(self.allowances@, AllowanceKey { from: from, spender: spender })
    }

    /// A fresh, uninitialized ledger.
    pub fn new() -> (t: AuxanoToken)
        ensures
            t.wf(),
            !t.inited,
    {
        AuxanoToken { inited: false, supply: 0, balances: Vec::new(), allowances: Vec::new() }
    }

    /// The number of decimal places, available whatever the init state.
    pub fn decimals(&self) -> (r: u32)
        ensures
            r == TOKEN_DECIMALS,
    {
        TOKEN_DECIMALS
    }

    /// The token name, available whatever the init state.
    pub fn name(&self) -> (r: String)
        ensures
            r@ == TOKEN_NAME@,
    {
        TOKEN_NAME.to_owned()
    }

    /// The ticker symbol, available whatever the init state.
    pub fn symbol(&self) -> (r: String)
        ensures
            r@ == TOKEN_SYMBOL@,
    {
        TOKEN_SYMBOL.to_owned()
    }

    /// Mints the fixed supply once: exactly one call ever succeeds, giving
    /// the whole supply to `recipient`; every later call fails and leaves
    /// the ledger untouched. No event is asked for: the genesis mint is
    /// deliberately silent.
    pub fn initialize(&mut self, recipient: u64) -> (r: Result<(), TokenError>)
        requires
            old(self).wf(),
        ensures
            final(self).wf(),
            old(self).inited ==> r == Err::<(), TokenError>(TokenError::AlreadyInitialized)
                && *final(self) == *old(self),
            !old(self).inited ==> {
                &&& r == Ok::<(), TokenError>(())
                &&& final(self).inited
                &&& final(self).supply == TOTAL_SUPPLY
                &&& final(self).balance_of(recipient) == TOTAL_SUPPLY as int
                &&& (forall|x: u64| x != recipient ==> final(self).balance_of(x) == 0)
                &&& final(self).allowances == old(self).allowances
            },
    {
        if self.inited {
            return Err(TokenError::AlreadyInitialized);
        }
        self.supply = TOTAL_SUPPLY;
        balances::set(&mut self.balances, recipient, TOTAL_SUPPLY);
        self.inited = true;
        Ok(())
    }

    /// The recorded total supply; gated on initialization.
    pub fn total_supply(&self) -> (r: Result<i128, TokenError>)
        requires
            self.wf(),
        ensures
            r == (if self.inited {
                Ok::<i128, TokenError>(TOTAL_SUPPLY)
            } else {
                Err::<i128, TokenError>(TokenError::NotInitialized)
            }),
    {
        if !self.inited {
            return Err(TokenError::NotInitialized);
        }
        Ok(self.supply)
    }

    /// The balance held for `id`; gated on initialization.
    pub fn balance(&self, id: u64) -> (r: Result<i128, TokenError>)
        requires
            self.wf(),
        ensures
            !self.inited ==> r == Err::<i128, TokenError>(TokenError::NotInitialized),
            self.inited ==> (r matches Ok(b) && b as int == self.balance_of(id)),
    {
        if !self.inited {
            return Err(TokenError::NotInitialized);
        }
        Ok(balances::get(&self.balances, id))
    }

    /// The live allowance the (from, spender) pair grants at the current
    /// ledger sequence: 0 once expired, the stored amount otherwise. A
    /// read never mutates the stored record.
    pub fn allowance(&self, from: u64, spender: u64, current_ledger: u32) -> (r: Result<
        i128,
        TokenError,
    >)
        requires
            self.wf(),
        ensures
            !self.inited ==> r == Err::<i128, TokenError>(TokenError::NotInitialized),
            self.inited ==> (r matches Ok(a) && a as int == live_amount(
                self.allowance_record(from, spender),
                current_ledger,
            )),
    {
        if !self.inited {
            return Err(TokenError::NotInitialized);
        }
        let v = allowances::get(&self.allowances, AllowanceKey { from, spender });
        Ok(live_allowance_amount(v, current_ledger))
    }

    /// Overwrites the allowance the (from, spender) pair grants with the
    /// given amount and expiration (never additive). The host certifies
    /// `from` before the call reaches the ledger.
    pub fn approve(
        &mut self,
        from: u64,
        spender: u64,
        amount: i128,
        expiration_ledger: u32,
        current_ledger: u32,
    ) -> (r: Result<(), TokenError>)
        requires
            old(self).wf(),
        ensures
            final(self).wf(),
            !old(self).inited ==> r == Err::<(), TokenError>(TokenError::NotInitialized) && *final(self) == *old(self),
            old(self).inited && (amount < 0 || (amount != 0 && expiration_ledger < current_ledger))
                ==> r == Err::<(), TokenError>(TokenError::AmountMustBePositive) && *final(self)
                == *old(self),
            old(self).inited && amount >= 0 && (amount == 0 || expiration_ledger >= current_ledger)
                ==> {
                &&& r == Ok::<(), TokenError>(())
                &&& final(self).allowance_record(from, spender) == (AllowanceValue {
                    amount,
                    expiration_ledger,
                })
                &&& (forall|f: u64, s: u64|
                    !(f == from && s == spender) ==> final(self).allowance_record(f, s) == old(self).allowance_record(f, s))
                &&& final(self).balances == old(self).balances
                &&& final(self).inited == old(self).inited
                &&& final(self).supply == old(self).supply
            },
    {
        if !self.inited {
            return Err(TokenError::NotInitialized);
        }
        let v = match validate_approval(amount, expiration_ledger, current_ledger) {
            Ok(v) => v,
            Err(e) => {
                return Err(e);
            },
        };
        allowances::set(&mut self.allowances, AllowanceKey { from, spender }, v);
        Ok(())
    }

    /// Moves `amount` from `from` to the recipient's base identity. The
    /// host certifies `from` before the call reaches the ledger. On
    /// success the returned event, carrying the recipient's optional
    /// sub-identity, is what the host publishes; every failure leaves the
    /// ledger untouched.
    pub fn transfer(&mut self, from: u64, to: MuxedAddress, amount: i128) -> (r: Result<
        TransferEvent,
        TokenError,
    >)
        requires
            old(self).wf(),
        ensures
            final(self).wf(),
            !old(self).inited ==> r == Err::<TransferEvent, TokenError>(TokenError::NotInitialized)
                && *final(self) == *old(self),
            old(self).inited && amount <= 0 ==> r == Err::<TransferEvent, TokenError>(
                TokenError::AmountMustBePositive,
            ) && *final(self) == *old(self),
            old(self).inited && amount > 0 && old(self).balance_of(from) < amount as int ==> r
                == Err::<TransferEvent, TokenError>(TokenError::InsufficientBalance) && *final(self)
                == *old(self),
            old(self).inited && amount > 0 && old(self).balance_of(from) >= amount as int ==> {
                &&& r == Ok::<TransferEvent, TokenError>(
                    (TransferEvent {
                        from,
                        to: to.address,
                        to_muxed_id: to.muxed_id,
                        amount,
                    }),
                )
                &&& (from != to.address ==> final(self).balance_of(from) == old(self).balance_of(
                    from,
                ) - amount && final(self).balance_of(to.address) == old(self).balance_of(to.address)
                    + amount)
                &&& (from == to.address ==> final(self).balance_of(from) == old(self).balance_of(
                    from,
                ))
                &&& (forall|x: u64|
                    x != from && x != to.address ==> final(self).balance_of(x) == old(self).balance_of(x))
                &&& balances::sum(final(self).balances@) == balances::sum(old(self).balances@)
                &&& final(self).allowances == old(self).allowances
                &&& final(self).inited == old(self).inited
                &&& final(self).supply == old(self).supply
            },
    {
        if !self.inited {
            return Err(TokenError::NotInitialized);
        }
        match check_positive(amount) {
            Ok(()) => (),
            Err(e) => {
                return Err(e);
            },
        }
        let to_addr = to.address;
        let bal = balances::get(&self.balances, from);
        let new_from = match debit(bal, amount) {
            Ok(b) => b,
            Err(e) => {
                return Err(e);
            },
        };
        proof {
            if from != to_addr {
                balances::lemma_two_lookups(self.balances@, from, to_addr);
            }
        }
        balances::set(&mut self.balances, from, new_from);
        let bal_to = balances::get(&self.balances, to_addr);
        proof {
            balances::lemma_lookup_nonneg(self.balances@, to_addr);
        }
        let new_to = credit(bal_to, amount);
        balances::set(&mut self.balances, to_addr, new_to);
        Ok(TransferEvent { from, to: to_addr, to_muxed_id: to.muxed_id, amount })
    }

    /// Moves `amount` from `from` to `to` on the strength of the allowance
    /// `from` granted to `spender`, which is checked before the balance
    /// and decremented by exactly the amount moved. The host certifies
    /// `spender` (not `from`) before the call reaches the ledger. No
    /// event and no sub-identity resolution on this path, deliberately
    /// unlike the direct transfer.
    pub fn transfer_from(
        &mut self,
        spender: u64,
        from: u64,
        to: u64,
        amount: i128,
        current_ledger: u32,
    ) -> (r: Result<(), TokenError>)
        requires
            old(self).wf(),
        ensures
            final(self).wf(),
            !old(self).inited ==> r == Err::<(), TokenError>(TokenError::NotInitialized) && *final(self) == *old(self),
            old(self).inited && amount <= 0 ==> r == Err::<(), TokenError>(
                TokenError::AmountMustBePositive,
            ) && *final(self) == *old(self),
            old(self).inited && amount > 0 && (is_expired(
                old(self).allowance_record(from, spender),
                current_ledger,
            ) || old(self).allowance_record(from, spender).amount < amount) ==> r == Err::<
                (),
                TokenError,
            >(TokenError::InsufficientAllowance) && *final(self) == *old(self),
            old(self).inited && amount > 0 && !is_expired(
                old(self).allowance_record(from, spender),
                current_ledger,
            ) && old(self).allowance_record(from, spender).amount >= amount && old(self).balance_of(
                from,
            ) < amount as int ==> r == Err::<(), TokenError>(TokenError::InsufficientBalance)
                && *final(self) == *old(self),
            old(self).inited && amount > 0 && !is_expired(
                old(self).allowance_record(from, spender),
                current_ledger,
            ) && old(self).allowance_record(from, spender).amount >= amount && old(self).balance_of(
                from,
            ) >= amount as int ==> {
                &&& r == Ok::<(), TokenError>(())
                &&& final(self).allowance_record(from, spender) == (AllowanceValue {
                    amount: (old(self).allowance_record(from, spender).amount - amount) as i128,
                    expiration_ledger: old(self).allowance_record(from, spender).expiration_ledger,
                })
                &&& (forall|f: u64, s: u64|
                    !(f == from && s == spender) ==> final(self).allowance_record(f, s) == old(self).allowance_record(f, s))
                &&& (from != to ==> final(self).balance_of(from) == old(self).balance_of(from)
                    - amount && final(self).balance_of(to) == old(self).balance_of(to) + amount)
                &&& (from == to ==> final(self).balance_of(from) == old(self).balance_of(from))
                &&& (forall|x: u64|
                    x != from && x != to ==> final(self).balance_of(x) == old(self).balance_of(x))
                &&& balances::sum(final(self).balances@) == balances::sum(old(self).balances@)
                &&& final(self).inited == old(self).inited
                &&& final(self).supply == old(self).supply
            },
    {
        if !self.inited {
            return Err(TokenError::NotInitialized);
        }
        match check_positive(amount) {
            Ok(()) => (),
            Err(e) => {
                return Err(e);
            },
        }
        let key = AllowanceKey { from, spender };
        let v = allowances::get(&self.allowances, key);
        let new_v = match spend_allowance(v, amount, current_ledger) {
            Ok(nv) => nv,
            Err(e) => {
                return Err(e);
            },
        };
        let bal = balances::get(&self.balances, from);
        let new_from = match debit(bal, amount) {
            Ok(b) => b,
            Err(e) => {
                return Err(e);
            },
        };
        proof {
            if from != to {
                balances::lemma_two_lookups(self.balances@, from, to);
            }
        }
        allowances::set(&mut self.allowances, key, new_v);
        balances::set(&mut self.balances, from, new_from);
        let bal_to = balances::get(&self.balances, to);
        proof {
            balances::lemma_lookup_nonneg(self.balances@, to);
        }
        let new_to = credit(bal_to, amount);
        balances::set(&mut self.balances, to, new_to);
        Ok(())
    }

    /// Burning is permanently disabled: after the init gate the call
    /// always fails with `BurnDisabled`, for any caller, amount or state,
    /// and never alters the ledger.
    pub fn burn(&mut self, from: u64, amount: i128) -> (r: Result<(), TokenError>)
        requires
            old(self).wf(),
        ensures
            *final(self) == *old(self),
            r == (if old(self).inited {
                Err::<(), TokenError>(TokenError::BurnDisabled)
            } else {
                Err::<(), TokenError>(TokenError::NotInitialized)
            }),
    {
        if !self.inited {
            return Err(TokenError::NotInitialized);
        }
        Err(TokenError::BurnDisabled)
    }

    /// The delegated burn path is disabled exactly like the direct one.
    pub fn burn_from(&mut self, spender: u64, from: u64, amount: i128) -> (r: Result<
        (),
        TokenError,
    >)
        requires
            old(self).wf(),
        ensures
            *final(self) == *old(self),
            r == (if old(self).inited {
                Err::<(), TokenError>(TokenError::BurnDisabled)
            } else {
                Err::<(), TokenError>(TokenError::NotInitialized)
            }),
    {
        if !self.inited {
            return Err(TokenError::NotInitialized);
        }
        Err(TokenError::BurnDisabled)
    }
}

/// Conservation of supply. Every operation requires well-formedness and
/// re-establishes it, so by induction every state reachable from a freshly
/// initialized ledger is well-formed; in any such state the recorded
/// balances sum exactly to the fixed total supply.
pub proof fn lemma_conservation(t: AuxanoToken)
    requires
        t.wf(),
        t.inited,
    ensures
        balances::sum(t.balances@) == TOTAL_SUPPLY as int,
{
}

/// In a well-formed initialized ledger every single balance lies between
/// 0 and the fixed total supply.
pub proof fn lemma_balance_in_range(t: AuxanoToken, id: u64)
    requires
        t.wf(),
        t.inited,
    ensures
        0 <= t.balance_of(id) <= TOTAL_SUPPLY as int,
{
    balances::lemma_lookup_nonneg(t.balances@, id);
    balances::lemma_lookup_le_sum(t.balances@, id);
}

/// In a well-formed ledger no stored allowance amount is negative.
pub proof fn lemma_allowance_nonneg(t: AuxanoToken, from: u64, spender: u64)
    requires
        t.wf(),
    ensures
        t.allowance_record(from, spender).amount >= 0,
{
    allowances::lemma_lookup_amount_nonneg(
        t.allowances@,
        AllowanceKey { from: from, spender: spender },
    );
}

/// An expired allowance grants amount 0, whatever its record still holds.
pub proof fn lemma_expired_allowance_reads_zero(v: AllowanceValue, current_ledger: u32)
    requires
        is_expired(v, current_ledger),
    ensures
        live_amount(v, current_ledger) == 0,
{
}

} // verus!
