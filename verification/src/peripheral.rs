//! The per-member peripheral account: a small value store owned jointly by
//! its member and the rotation center, which may force funds back on a
//! timeout.

use vstd::prelude::*;

verus! {

/// Why a peripheral operation was rejected.
#[derive(Clone, Copy, PartialEq, Eq, Structural, Debug)]
pub enum PeripheralError {
    OwnerOnly,
    Sc0Only,
    OwnerOrSc0Only,
    InsufficientBalance,
}

/// The calls the rotation center issues to a peripheral account.
pub trait PeripheralContract {
    /// Move value out of the account toward the next stop of the rotation.
    fn transfer(&mut self, caller: u64, to: u64, amount: u128) -> Result<(), PeripheralError>;

    /// Recover the whole balance back to the center.
    fn force_transfer_to_sc0(&mut self, caller: u64) -> Result<u128, PeripheralError>;
}

/// One peripheral account.
#[derive(Clone, Copy, PartialEq, Eq, Structural, Debug)]
pub struct CirclePeripheral {
    /// The member wallet that owns this account.
    pub owner: u64,
    /// The rotation center that deployed it.
    pub sc0_address: u64,
    /// Whether the account takes part in rotations.
    pub is_active: bool,
    /// The account's native-value balance.
    pub balance: u128,
}

impl CirclePeripheral {
    /// A fresh account, deployed by the center for `owner`.
    pub fn init(owner: u64, sc0_address: u64) -> (r: CirclePeripheral)
        ensures
            r == (CirclePeripheral { owner, sc0_address, is_active: true, balance: 0 }),
    {
        CirclePeripheral { owner, sc0_address, is_active: true, balance: 0 }
    }

    /// Owner gate.
    pub fn require_owner(&self, caller: u64) -> (r: Result<(), PeripheralError>)
        ensures
            r is Ok <==> caller == self.owner,
            r is Err ==> r == Result::<(), PeripheralError>::Err(PeripheralError::OwnerOnly),
    {
        if caller == self.owner {
            Ok(())
        } else {
            Err(PeripheralError::OwnerOnly)
        }
    }

    /// Center gate.
    pub fn require_sc0(&self, caller: u64) -> (r: Result<(), PeripheralError>)
        ensures
            r is Ok <==> caller == self.sc0_address,
            r is Err ==> r == Result::<(), PeripheralError>::Err(PeripheralError::Sc0Only),
    {
        if caller == self.sc0_address {
            Ok(())
        } else {
            Err(PeripheralError::Sc0Only)
        }
    }

    /// Gate shared by the transfer endpoints: owner or center.
    pub fn require_owner_or_sc0(&self, caller: u64) -> (r: Result<(), PeripheralError>)
        ensures
            r is Ok <==> caller == self.owner || caller == self.sc0_address,
            r is Err ==> r == Result::<(), PeripheralError>::Err(PeripheralError::OwnerOrSc0Only),
    {
        if caller == self.owner || caller == self.sc0_address {
            Ok(())
        } else {
            Err(PeripheralError::OwnerOrSc0Only)
        }
    }

    /// Accepts a payment from anyone.
    pub fn deposit(&mut self, caller: u64, payment: u128)
        requires
            old(self).balance + payment <= u128::MAX,
        ensures
            *final(self) == (CirclePeripheral {
                balance: (old(self).balance + payment) as u128,
                ..*old(self)
            }),
    {
        let _ = caller;
        self.balance = self.balance + payment;
    }

    /// The bare payable entry: accepts value with no bookkeeping beyond the
    /// balance.
    pub fn receive(&mut self, payment: u128)
        requires
            old(self).balance + payment <= u128::MAX,
        ensures
            *final(self) == (CirclePeripheral {
                balance: (old(self).balance + payment) as u128,
                ..*old(self)
            }),
    {
        self.balance = self.balance + payment;
    }

    /// Forwards part of the balance to the next stop of the rotation; the
    /// returned pair is the transfer the host must perform.
    pub fn sign_and_forward(&mut self, caller: u64, next_sc: u64, amount: u128) -> (r: Result<
        (u64, u128),
        PeripheralError,
    >)
        ensures
            r is Ok <==> (caller == old(self).owner || caller == old(self).sc0_address) && old(self).balance >= amount,
            r is Err ==> *final(self) == *old(self),
            (match r {
                Err(e) => e == if caller != old(self).owner && caller != old(self).sc0_address {
                    PeripheralError::OwnerOrSc0Only
                } else {
                    PeripheralError::InsufficientBalance
                },
                Ok(t) => {
                    &&& (caller == old(self).owner || caller == old(self).sc0_address)
                    &&& old(self).balance >= amount
                    &&& t == (next_sc, amount)
                    &&& *final(self) == (CirclePeripheral {
                        balance: (old(self).balance - amount) as u128,
                        ..*old(self)
                    })
                },
            }),
    {
        self.require_owner_or_sc0(caller)?;
        if self.balance < amount {
            return Err(PeripheralError::InsufficientBalance);
        }
        self.balance = self.balance - amount;
        Ok((next_sc, amount))
    }

    /// Deactivates the account (owner only).
    pub fn deactivate(&mut self, caller: u64) -> (r: Result<(), PeripheralError>)
        ensures
            r is Ok <==> caller == old(self).owner,
            r is Ok ==> *final(self) == (CirclePeripheral { is_active: false, ..*old(self) }),
            r is Err ==> *final(self) == *old(self) && r == Result::<(), PeripheralError>::Err(
                PeripheralError::OwnerOnly,
            ),
    {
        self.require_owner(caller)?;
        self.is_active = false;
        Ok(())
    }

    /// Reactivates the account (owner only).
    pub fn activate(&mut self, caller: u64) -> (r: Result<(), PeripheralError>)
        ensures
            r is Ok <==> caller == old(self).owner,
            r is Ok ==> *final(self) == (CirclePeripheral { is_active: true, ..*old(self) }),
            r is Err ==> *final(self) == *old(self) && r == Result::<(), PeripheralError>::Err(
                PeripheralError::OwnerOnly,
            ),
    {
        self.require_owner(caller)?;
        self.is_active = true;
        Ok(())
    }

    pub fn get_owner(&self) -> (r: u64)
        ensures
            r == self.owner,
    {
        self.owner
    }

    pub fn get_sc0_address(&self) -> (r: u64)
        ensures
            r == self.sc0_address,
    {
        self.sc0_address
    }

    pub fn get_is_active(&self) -> (r: bool)
        ensures
            r == self.is_active,
    {
        self.is_active
    }

    pub fn get_balance(&self) -> (r: u128)
        ensures
            r == self.balance,
    {
        self.balance
    }
}

impl PeripheralContract for CirclePeripheral {
    /// Sends `amount` to `to`, allowed to the owner and to the center.
    fn transfer(&mut self, caller: u64, to: u64, amount: u128) -> (r: Result<
        (),
        PeripheralError,
    >)
        ensures
            r is Ok <==> (caller == old(self).owner || caller == old(self).sc0_address) && old(self).balance >= amount,
            r is Err ==> *final(self) == *old(self),
            (match r {
                Err(e) => e == if caller != old(self).owner && caller != old(self).sc0_address {
                    PeripheralError::OwnerOrSc0Only
                } else {
                    PeripheralError::InsufficientBalance
                },
                Ok(()) => {
                    &&& (caller == old(self).owner || caller == old(self).sc0_address)
                    &&& old(self).balance >= amount
                    &&& *final(self) == (CirclePeripheral {
                        balance: (old(self).balance - amount) as u128,
                        ..*old(self)
                    })
                },
            }),
    {
        self.require_owner_or_sc0(caller)?;
        if self.balance < amount {
            return Err(PeripheralError::InsufficientBalance);
        }
        let _ = to;
        self.balance = self.balance - amount;
        Ok(())
    }

    /// Empties the account back to the center, on the center's demand;
    /// returns how much was recovered.
    fn force_transfer_to_sc0(&mut self, caller: u64) -> (r: Result<u128, PeripheralError>)
        ensures
            r is Err ==> *final(self) == *old(self) && r == Result::<u128, PeripheralError>::Err(
                PeripheralError::Sc0Only,
            ) && caller != old(self).sc0_address,
            (match r {
                Err(_) => true,
                Ok(recovered) => {
                    &&& caller == old(self).sc0_address
                    &&& recovered == old(self).balance
                    &&& *final(self) == (CirclePeripheral { balance: 0, ..*old(self) })
                },
            }),
    {
        self.require_sc0(caller)?;
        let recovered = self.balance;
        if recovered > 0 {
            self.balance = 0;
        }
        Ok(recovered)
    }
}

} // verus!
