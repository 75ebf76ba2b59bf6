//! The credential store and the index file, taken together.
//!
//! A command changes the two one after the other, through the steps that it
//! hands out. This module says what the two hold once a caller has carried
//! out every step of a command, with a store and a file that do not fail,
//! and shows that the index then names the accounts that the store holds.

use crate::command::{
    begun, failed, index_loaded, index_saved, removed_line, store_written, stored_line,
    CommandView, Context, StepView, StoreWriteView,
};
use crate::error::ErrorView;
use crate::index::{add_change, listing, remove_change};
use crate::index_laws::{
    blank_from, holds, is_closed, is_plain, lemma_index_add_idempotent, lemma_index_add_listing,
    lemma_index_remove_keeps_form, lemma_index_remove_listing, names_once,
};
use crate::secret::{decoded_secret, validated_secret};
use vstd::prelude::*;

verus! {

/// What is kept outside a command: the secrets in the credential store, by
/// account, and the content of the index file, `None` while there is no
/// file.
pub struct World {
    pub store: Map<Seq<char>, Seq<char>>,
    pub index: Option<Seq<char>>,
}

impl World {
    /// The world once the caller has done what `step` asks for, and the step
    /// that the command answers with. A step that asks for no change, or for
    /// nothing at all, leaves the world as it is.
    pub open spec fn served(self, step: StepView) -> (World, StepView) {
        match step {
            StepView::WriteStore(write) => {
                let store = match write {
                    StoreWriteView::Put { account, secret } => self.store.insert(account, secret),
                    StoreWriteView::Delete { account } => self.store.remove(account),
                };
                (World { store, index: self.index }, store_written(write, Ok(())))
            },
            StepView::LoadIndex(load) => (self, index_loaded(load, Ok(self.index))),
            StepView::SaveIndex(save) => (
                World { store: self.store, index: save.update.applied(self.index) },
                index_saved(save, Ok(())),
            ),
            _ => (self, step),
        }
    }

    /// The world after `command`, and its last step. No command asks for
    /// more than three things.
    pub open spec fn after(self, command: CommandView) -> (World, StepView) {
        let (first, step) = self.served(begun(command));
        let (second, step) = first.served(step);
        second.served(step)
    }

    /// Whether the index names exactly the accounts that have a secret in
    /// the store, each once, and a line appended to it would stand by
    /// itself. Accounts whose name is not plain, or is empty, are not looked
    /// at: no line can name the first, and the second is named by a file
    /// without accounts.
    pub open spec fn in_sync(self) -> bool {
        &&& self.index matches Some(text) ==> is_closed(text)
        &&& names_once(self.index)
        &&& forall|account: Seq<char>|
            is_plain(account) && account.len() > 0 ==> (#[trigger] holds(self.index, account)
                <==> self.store.dom().contains(account))
    }
}

/// `add` with a secret that is refused ends at its first step, with the
/// error of the secret, and leaves the store and the index as they were. For
/// a secret that decodes to fewer than 16 bytes the error tells that length,
/// in bytes and in bits.
pub proof fn lemma_refused_secret_changes_nothing(
    world: World,
    account: Seq<char>,
    secret: Seq<char>,
)
    requires
        validated_secret(secret) is Err,
    ensures
        ({
            let (after, last) = world.after(CommandView::Add { account, secret });
            &&& after == world
            &&& last == failed(Context::ValidatingSecret, validated_secret(secret)->Err_0)
            &&& decoded_secret(secret) matches Some(key) ==> key.len() < 16 && last == failed(
                Context::ValidatingSecret,
                ErrorView::SecretTooShort { bytes: key.len(), bits: key.len() * 8 },
            )
        }),
{
}

/// `add` with a valid secret keeps the secret for the account, leaves the
/// other secrets alone, changes the index as `index_add` says, and confirms.
pub proof fn lemma_add_outcome(world: World, account: Seq<char>, secret: Seq<char>)
    requires
        validated_secret(secret) is Ok,
    ensures
        ({
            let (after, last) = world.after(CommandView::Add { account, secret });
            &&& after.store == world.store.insert(account, secret)
            &&& after.index == add_change(world.index, account).applied(world.index)
            &&& last == StepView::Done(seq![stored_line(account)])
        }),
{
}

/// `remove` deletes the secret of the account, leaves the other secrets
/// alone, changes the index as `index_remove` says, and confirms.
pub proof fn lemma_remove_outcome(world: World, account: Seq<char>)
    ensures
        ({
            let (after, last) = world.after(CommandView::Remove { account });
            &&& after.store == world.store.remove(account)
            &&& after.index == remove_change(world.index, account).applied(world.index)
            &&& last == StepView::Done(seq![removed_line(account)])
        }),
{
}

/// `list` changes nothing and shows the lines of the index.
pub proof fn lemma_list_outcome(world: World)
    ensures
        ({
            let (after, last) = world.after(CommandView::List);
            &&& after == world
            &&& last == StepView::Done(listing(world.index))
        }),
{
}

/// `add` of a plain, non-empty account keeps the store and the index in
/// sync, whether the secret is accepted or not.
pub proof fn lemma_add_keeps_in_sync(world: World, account: Seq<char>, secret: Seq<char>)
    requires
        world.in_sync(),
        is_plain(account),
        account.len() > 0,
    ensures
        world.after(CommandView::Add { account, secret }).0.in_sync(),
{
    let after = world.after(CommandView::Add { account, secret }).0;
    if validated_secret(secret) is Ok {
        lemma_add_outcome(world, account, secret);
        lemma_index_add_listing(world.index, account, account);
        assert forall|other: Seq<char>| is_plain(other) && other.len() > 0 implies (
        #[trigger] holds(after.index, other) <==> after.store.dom().contains(other)) by {
            lemma_index_add_listing(world.index, account, other);
            assert(holds(world.index, other) <==> world.store.dom().contains(other));
        }
    } else {
        lemma_refused_secret_changes_nothing(world, account, secret);
    }
}

/// `add` a second time, with the same secret, changes nothing more: the
/// store and the index are as after the first.
pub proof fn lemma_add_twice_is_add_once(world: World, account: Seq<char>, secret: Seq<char>)
    requires
        is_plain(account),
        world.index matches Some(text) ==> is_closed(text),
    ensures
        ({
            let command = CommandView::Add { account, secret };
            let once = world.after(command).0;
            once.after(command).0 == once
        }),
{
    let command = CommandView::Add { account, secret };
    let once = world.after(command).0;
    if validated_secret(secret) is Ok {
        lemma_add_outcome(world, account, secret);
        lemma_add_outcome(once, account, secret);
        if let Some(text) = world.index {
            assert(blank_from(text, text.len() as int));
        }
        lemma_index_add_idempotent(world.index, account);
        assert(once.store.insert(account, secret) =~= once.store);
    } else {
        lemma_refused_secret_changes_nothing(world, account, secret);
    }
}

/// `remove` keeps the store and the index in sync.
pub proof fn lemma_remove_keeps_in_sync(world: World, account: Seq<char>)
    requires
        world.in_sync(),
    ensures
        world.after(CommandView::Remove { account }).0.in_sync(),
{
    let after = world.after(CommandView::Remove { account }).0;
    lemma_remove_outcome(world, account);
    assert forall|other: Seq<char>| is_plain(other) && other.len() > 0 implies (#[trigger] holds(
        after.index,
        other,
    ) <==> after.store.dom().contains(other)) by {
        lemma_index_remove_listing(world.index, account, other);
        assert(holds(world.index, other) <==> world.store.dom().contains(other));
    }
    lemma_index_remove_keeps_form(world.index, account);
}

/// `code` changes nothing: it only asks for the secret to be read.
pub proof fn lemma_code_changes_nothing(
    world: World,
    account: Seq<char>,
    digits: usize,
    period: u64,
    algorithm: Seq<char>,
)
    ensures
        world.after(CommandView::Code { account, digits, period, algorithm }).0 == world,
{
}

/// A world without secrets and without index file is in sync.
pub proof fn lemma_empty_world_in_sync()
    ensures
        (World { store: Map::empty(), index: None }).in_sync(),
{
}

} // verus!
