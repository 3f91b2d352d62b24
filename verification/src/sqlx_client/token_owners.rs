use vstd::prelude::*;
use crate::models::records::TokenOwnerDb;
use crate::sqlx_client::{Ledger, SqlxClient, StorageError};

verus! {

/// Whether a link names the account at a chain location as its owner.
pub open spec fn owned_by(link: TokenOwnerDb, workchain_id: i32, hex: Seq<char>) -> bool {
    link.owner_account_workchain_id == workchain_id && link.owner_account_hex@ == hex
}

/// The first ownership link of an account in a table, if it has one.
pub open spec fn owner_link(all: Seq<TokenOwnerDb>, workchain_id: i32, hex: Seq<char>) -> Option<
    TokenOwnerDb,
>
    decreases all.len(),
{
    if all.len() == 0 {
        None
    } else if owned_by(all.first(), workchain_id, hex) {
        Some(all.first())
    } else {
        owner_link(all.drop_first(), workchain_id, hex)
    }
}

impl SqlxClient {
    fn has_token_owner(&self, address: &String) -> (found: bool)
        ensures
            found == self@.has_token_owner(address@),
    {
        let mut i: usize = 0;
        while i < self.pool.token_owners.len()
            invariant
                i <= self.pool.token_owners.len(),
                forall|j: int|
                    0 <= j < i ==> (#[trigger] self.pool.token_owners@[j]).address@ != address@,
            decreases self.pool.token_owners.len() - i,
        {
            if self.pool.token_owners[i].address == *address {
                assert(self@.token_owners[i as int].address@ == address@);
                return true;
            }
            i = i + 1;
        }
        false
    }

    /// Inserts an ownership link unless one with the same token wallet
    /// address is there: then the store stays as it was.
    pub fn create_token_owner(&mut self, token_owner: TokenOwnerDb)
        requires
            old(self)@.wf(),
        ensures
            final(self)@.wf(),
            old(self)@.has_token_owner(token_owner.address@) ==> final(self)@ == old(self)@,
            !old(self)@.has_token_owner(token_owner.address@) ==> final(self)@ == (Ledger {
                token_owners: old(self)@.token_owners.push(token_owner),
                ..old(self)@
            }),
    {
        if !self.has_token_owner(&token_owner.address) {
            self.pool.token_owners.push(token_owner);
        }
    }

    /// The first ownership link of the account at a chain location, or
    /// `NotFound` where the account owns no token wallet.
    pub fn get_token_owner_by_owner_account(
        &self,
        owner_account_workchain_id: i32,
        owner_account_hex: &str,
    ) -> (link: Result<TokenOwnerDb, StorageError>)
        ensures
            match link {
                Ok(l) => owner_link(
                    self@.token_owners,
                    owner_account_workchain_id,
                    owner_account_hex@,
                ) == Some(l),
                Err(e) => e == StorageError::NotFound && owner_link(
                    self@.token_owners,
                    owner_account_workchain_id,
                    owner_account_hex@,
                ) is None,
            },
    {
        let wanted: String = owner_account_hex.to_owned();
        let mut i: usize = 0;
        assert(self@.token_owners.skip(0) =~= self@.token_owners);
        while i < self.pool.token_owners.len()
            invariant
                i <= self.pool.token_owners.len(),
                wanted@ == owner_account_hex@,
                owner_link(self@.token_owners, owner_account_workchain_id, owner_account_hex@)
                    == owner_link(
                    self@.token_owners.skip(i as int),
                    owner_account_workchain_id,
                    owner_account_hex@,
                ),
            decreases self.pool.token_owners.len() - i,
        {
            assert(self@.token_owners.skip(i as int).first() == self@.token_owners[i as int]);
            assert(self@.token_owners.skip(i as int).drop_first() =~= self@.token_owners.skip(
                i + 1,
            ));
            if self.pool.token_owners[i].owner_account_workchain_id == owner_account_workchain_id
                && self.pool.token_owners[i].owner_account_hex == wanted {
                return Ok(self.pool.token_owners[i].clone());
            }
            i = i + 1;
        }
        Err(StorageError::NotFound)
    }
}

} // verus!
