//! Accounts as the processor sees them, and the steps by which the host
//! provisions one that this program does not own yet.

use crate::address::Pubkey;
use crate::wire::zeros;
use vstd::prelude::*;

verus! {

/// An account that a command refers to: an addressable buffer of fixed
/// capacity that holds one encoded record once this program owns it.
#[derive(Clone, Debug, PartialEq, Eq)]
pub struct Account {
    /// The address of the account.
    pub key: Pubkey,
    /// The program that owns the account.
    pub owner: Pubkey,
    /// Whether the holder of the key signed the command.
    pub is_signer: bool,
    /// The buffer. Its length is the capacity of the account.
    pub data: Vec<u8>,
}

/// An account as a mathematical value.
pub struct AccountView {
    pub key: Seq<u8>,
    pub owner: Seq<u8>,
    pub is_signer: bool,
    pub data: Seq<u8>,
}

impl View for Account {
    type V = AccountView;

    open spec fn view(&self) -> AccountView {
        AccountView {
            key: self.key@,
            owner: self.owner@,
            is_signer: self.is_signer,
            data: self.data@,
        }
    }
}

impl DeepView for Account {
    type V = AccountView;

    open spec fn deep_view(&self) -> AccountView {
        self@
    }
}

impl AccountView {
    /// The key and the owner are addresses.
    pub open spec fn well_formed(self) -> bool {
        self.key.len() == 32 && self.owner.len() == 32
    }

    /// The account once the host has provisioned it for `program_id` with
    /// `space` bytes: owned by the program and filled with zeros. An
    /// account that the program owns already stays as it is.
    pub open spec fn provisioned(self, program_id: Seq<u8>, space: nat) -> AccountView {
        if self.owner == program_id {
            self
        } else {
            AccountView { owner: program_id, data: zeros(space), ..self }
        }
    }

    /// The account with `data` as its buffer.
    pub open spec fn holding(self, data: Seq<u8>) -> AccountView {
        AccountView { data, ..self }
    }
}

impl Account {
    /// The account at `key`, owned by `owner`, with `data` as its buffer.
    pub fn new(key: Pubkey, owner: Pubkey, is_signer: bool, data: Vec<u8>) -> (r: Account)
        ensures
            r@ == (AccountView { key: key@, owner: owner@, is_signer, data: data@ }),
    {
        Account { key, owner, is_signer, data }
    }
}

/// One step of provisioning an account. The host carries the steps out in
/// their order, each by a call of the system program, and supplies the
/// funds that keep `space` bytes.
#[derive(Clone, Debug, PartialEq, Eq)]
pub enum ProvisionStep {
    /// `from` pays into `to` what an account of `space` bytes has to hold.
    Fund { from: Pubkey, to: Pubkey, space: usize },
    /// `account`, which signs by `seeds`, is given `space` bytes of zeros.
    Allocate { account: Pubkey, space: usize, seeds: Vec<Vec<u8>> },
    /// `account`, which signs by `seeds`, is handed over to `owner`.
    Assign { account: Pubkey, owner: Pubkey, seeds: Vec<Vec<u8>> },
    /// `from` pays for the new account `to` of `space` bytes of zeros,
    /// owned by `owner`: funding, allocation and assignment in one.
    Create { from: Pubkey, to: Pubkey, space: usize, owner: Pubkey },
}

/// A step of provisioning as a mathematical value.
pub enum StepView {
    Fund { from: Seq<u8>, to: Seq<u8>, space: usize },
    Allocate { account: Seq<u8>, space: usize, seeds: Seq<Seq<u8>> },
    Assign { account: Seq<u8>, owner: Seq<u8>, seeds: Seq<Seq<u8>> },
    Create { from: Seq<u8>, to: Seq<u8>, space: usize, owner: Seq<u8> },
}

impl View for ProvisionStep {
    type V = StepView;

    open spec fn view(&self) -> StepView {
        match *self {
            ProvisionStep::Fund { from, to, space } => StepView::Fund {
                from: from@,
                to: to@,
                space,
            },
            ProvisionStep::Allocate { account, space, seeds } => StepView::Allocate {
                account: account@,
                space,
                seeds: seeds.deep_view(),
            },
            ProvisionStep::Assign { account, owner, seeds } => StepView::Assign {
                account: account@,
                owner: owner@,
                seeds: seeds.deep_view(),
            },
            ProvisionStep::Create { from, to, space, owner } => StepView::Create {
                from: from@,
                to: to@,
                space,
                owner: owner@,
            },
        }
    }
}

impl DeepView for ProvisionStep {
    type V = StepView;

    open spec fn deep_view(&self) -> StepView {
        self@
    }
}

} // verus!
