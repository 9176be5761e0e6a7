//! One token of a pool: its accounts and its weight.

use vstd::prelude::*;

verus! {

/// The address of an account: 32 bytes.
pub type Pubkey = [u8; 32];

/// Whether two addresses are the same.
pub fn same_key(a: &Pubkey, b: &Pubkey) -> (r: bool)
    ensures
        r == (a@ == b@),
{
    let mut i: usize = 0;
    while i < 32
        invariant
            i <= 32,
            forall|j: int| 0 <= j < i ==> a@[j] == b@[j],
        decreases 32 - i,
    {
        if a[i] != b[i] {
            return false;
        }
        i = i + 1;
    }
    assert(a@ =~= b@);
    true
}

/// The address made of zero bytes, which stands for no account.
pub open spec fn no_key() -> Seq<u8> {
    Seq::new(32, |i: int| 0u8)
}

/// A token of the pool. The weight is set when the token is added and is
/// above zero.
#[derive(Debug, Clone, Copy)]
pub struct AnySwapItem {
    /// The account that holds the pool's reserve of the token.
    pub vault_account: Pubkey,
    /// The mint of the token.
    pub mint_account: Pubkey,
    /// The weight of the token in the invariant.
    pub weight: u64,
}

impl AnySwapItem {
    /// An unused item: no accounts, weight zero.
    pub fn empty() -> (r: AnySwapItem)
        ensures
            r.vault_account@ == no_key(),
            r.mint_account@ == no_key(),
            r.weight == 0,
    {
        let r = AnySwapItem { vault_account: [0u8; 32], mint_account: [0u8; 32], weight: 0 };
        assert(r.vault_account@ =~= no_key());
        assert(r.mint_account@ =~= no_key());
        r
    }

    /// Whether the item is unused: its mint is the address of zero bytes.
    pub fn is_empty(&self) -> (r: bool)
        ensures
            r == (self.mint_account@ == no_key()),
    {
        let zero: Pubkey = [0u8; 32];
        assert(zero@ =~= no_key());
        same_key(&self.mint_account, &zero)
    }

    pub fn vault_pubkey(&self) -> (r: &Pubkey)
        ensures
            *r == self.vault_account,
    {
        &self.vault_account
    }

    pub fn mint_pubkey(&self) -> (r: &Pubkey)
        ensures
            *r == self.mint_account,
    {
        &self.mint_account
    }

    pub fn get_weight(&self) -> (r: u64)
        ensures
            r == self.weight,
    {
        self.weight
    }

    pub fn set_weight(&mut self, weight: u64)
        ensures
            *final(self) == (AnySwapItem { weight, ..*old(self) }),
    {
        self.weight = weight;
    }

    pub fn set_vault_account(&mut self, pubkey: &Pubkey)
        ensures
            *final(self) == (AnySwapItem { vault_account: *pubkey, ..*old(self) }),
    {
        self.vault_account = *pubkey;
    }

    pub fn set_mint_account(&mut self, pubkey: &Pubkey)
        ensures
            *final(self) == (AnySwapItem { mint_account: *pubkey, ..*old(self) }),
    {
        self.mint_account = *pubkey;
    }

    /// The bytes that an item takes when stored: two addresses and a weight.
    pub fn space() -> (r: usize)
        ensures
            r == 72,
    {
        32 + 32 + 8
    }
}

} // verus!
