//! The state of one client's account.

use crate::amount::Amount;
use crate::numeral::int_text;
use crate::numeral::u16_to_text;
use vstd::prelude::*;

verus! {

/// The balances of one client and whether the account is locked.
#[derive(Clone, Copy, Debug, PartialEq, Eq, Structural)]
pub struct AccountStatus {
    pub client_id: u16,
    pub available: Amount,
    pub held: Amount,
    pub locked: bool,
}

impl AccountStatus {
    /// The account of a client that has not been seen before: nothing
    /// available, nothing held, not locked.
    pub open spec fn opened(client_id: u16) -> AccountStatus {
        AccountStatus { client_id, available: Amount::zero(), held: Amount::zero(), locked: false }
    }

    /// The total balance: what is available plus what is held.
    pub open spec fn total(self) -> Amount {
        self.available.plus(self.held)
    }

    /// The account as one line of text: client, available, held, total and
    /// lock flag, separated by a comma and a space.
    pub open spec fn text_of(self) -> Seq<char> {
        int_text(self.client_id as int) + ", "@ + self.available.text_of() + ", "@
            + self.held.text_of() + ", "@ + self.total().text_of() + ", "@ + (if self.locked {
            "true"@
        } else {
            "false"@
        })
    }

    /// Opens the account of a client.
    pub fn new(client_id: u16) -> (r: AccountStatus)
        ensures
            r == AccountStatus::opened(client_id),
    {
        AccountStatus {
            client_id,
            available: Amount::default(),
            held: Amount::default(),
            locked: false,
        }
    }

    /// Computes the total balance.
    pub fn total_amount(&self) -> (r: Amount)
        ensures
            r == self.total(),
    {
        self.available + self.held
    }

    /// Writes the account as one line of text.
    pub fn text(&self) -> (r: String)
        ensures
            r@ == self.text_of(),
    {
        let mut out = u16_to_text(self.client_id);
        out.append(", ");
        out.append(self.available.text().as_str());
        out.append(", ");
        out.append(self.held.text().as_str());
        out.append(", ");
        out.append(self.total_amount().text().as_str());
        out.append(", ");
        if self.locked {
            out.append("true");
        } else {
            out.append("false");
        }
        out
    }
}

} // verus!
