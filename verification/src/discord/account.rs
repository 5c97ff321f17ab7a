//! One account of the Discord plugin.

use crate::discord::bot_token::BotToken;
use std::sync::Arc;
use vstd::prelude::*;

verus! {

/// The types of the handles that the surrounding process supplies. The plugin
/// carries them and never looks into them.
pub trait Handles {
    /// Where messages are logged.
    type MessageLog;

    /// Where channel events go.
    type EventSink;

    /// Cancels the gateway task of an account.
    type CancelToken;

    /// The running gateway task of an account.
    type TaskHandle;

    /// Sends messages for an account.
    type Http;

    /// The settings of an account that the plugin does not read.
    type Settings;
}

/// The configuration of an account.
pub struct DiscordAccountConfig<H: Handles> {
    pub token: BotToken,
    pub otp_cooldown_secs: u64,
    pub settings: H::Settings,
}

/// An account that was started.
pub struct AccountState<H: Handles> {
    pub account_id: String,
    pub config: DiscordAccountConfig<H>,
    pub message_log: Option<Arc<H::MessageLog>>,
    pub event_sink: Option<Arc<H::EventSink>>,
    pub cancel: H::CancelToken,
    pub task_handle: Option<H::TaskHandle>,
    pub bot_user_id: Option<u64>,
    pub http: Option<H::Http>,
    /// The cooldown with which the account's one-time passwords were set up.
    pub otp_cooldown_secs: u64,
}

/// An account that was started, as a mathematical value. Its identifier is the key
/// under which the plugin keeps it.
pub struct AccountView<H: Handles> {
    pub config: DiscordAccountConfig<H>,
    pub message_log: Option<Arc<H::MessageLog>>,
    pub event_sink: Option<Arc<H::EventSink>>,
    pub cancel: H::CancelToken,
    pub task_handle: Option<H::TaskHandle>,
    pub bot_user_id: Option<u64>,
    pub http: Option<H::Http>,
    pub otp_cooldown_secs: u64,
}

impl<H: Handles> View for AccountState<H> {
    type V = AccountView<H>;

    open spec fn view(&self) -> AccountView<H> {
        AccountView {
            config: self.config,
            message_log: self.message_log,
            event_sink: self.event_sink,
            cancel: self.cancel,
            task_handle: self.task_handle,
            bot_user_id: self.bot_user_id,
            http: self.http,
            otp_cooldown_secs: self.otp_cooldown_secs,
        }
    }
}

/// No two accounts of a list have the same identifier.
pub open spec fn distinct_ids<H: Handles>(list: Seq<AccountState<H>>) -> bool {
    forall|i: int, j: int|
        0 <= i < j < list.len() ==> #[trigger] list[i].account_id@ != #[trigger] list[j].account_id@
}

/// The accounts of a list by their identifiers.
pub open spec fn by_id<H: Handles>(list: Seq<AccountState<H>>) -> Map<Seq<char>, AccountView<H>>
    decreases list.len(),
{
    if list.len() == 0 {
        Map::empty()
    } else {
        by_id(list.drop_last()).insert(list.last().account_id@, list.last()@)
    }
}

/// A list of accounts with distinct identifiers holds under each identifier the
/// account that has it, and nothing else.
pub proof fn lemma_by_id<H: Handles>(list: Seq<AccountState<H>>)
    requires
        distinct_ids(list),
    ensures
        forall|i: int|
            0 <= i < list.len() ==> by_id(list).contains_key(#[trigger] list[i].account_id@)
                && by_id(list)[list[i].account_id@] == list[i]@,
        forall|id: Seq<char>| #[trigger]
            by_id(list).contains_key(id) ==> exists|i: int|
                0 <= i < list.len() && #[trigger] list[i].account_id@ == id,
    decreases list.len(),
{
    if list.len() > 0 {
        let shorter = list.drop_last();
        let last = list.len() - 1;
        lemma_by_id(shorter);
        assert forall|i: int| 0 <= i < list.len() implies by_id(list).contains_key(
            #[trigger] list[i].account_id@,
        ) && by_id(list)[list[i].account_id@] == list[i]@ by {
            if i < last {
                assert(list[i] == shorter[i]);
                assert(list[i].account_id@ != list[last].account_id@);
            }
        }
        assert forall|id: Seq<char>| #[trigger] by_id(list).contains_key(id) implies exists|i: int|
            0 <= i < list.len() && #[trigger] list[i].account_id@ == id by {
            if id == list.last().account_id@ {
                assert(list[last].account_id@ == id);
            } else {
                assert(by_id(shorter).contains_key(id));
                let i = choose|i: int|
                    0 <= i < shorter.len() && #[trigger] shorter[i].account_id@ == id;
                assert(list[i].account_id@ == id);
            }
        }
    }
}

/// An account put in the place of one with the same identifier.
pub proof fn lemma_by_id_update<H: Handles>(list: Seq<AccountState<H>>, at: int, account: AccountState<H>)
    requires
        distinct_ids(list),
        0 <= at < list.len(),
        account.account_id@ == list[at].account_id@,
    ensures
        distinct_ids(list.update(at, account)),
        by_id(list.update(at, account)) == by_id(list).insert(account.account_id@, account@),
{
    let updated = list.update(at, account);
    assert forall|i: int, j: int| 0 <= i < j < updated.len() implies #[trigger] updated[i].account_id@
        != #[trigger] updated[j].account_id@ by {
        assert(list[i].account_id@ != list[j].account_id@);
    }
    lemma_by_id(list);
    lemma_by_id(updated);
    let expected = by_id(list).insert(account.account_id@, account@);
    assert forall|id: Seq<char>| by_id(updated).contains_key(id) == #[trigger] expected.contains_key(id) by {
        if by_id(updated).contains_key(id) {
            let i = choose|i: int| 0 <= i < updated.len() && #[trigger] updated[i].account_id@ == id;
            assert(list[i].account_id@ == id);
        }
        if by_id(list).contains_key(id) {
            let i = choose|i: int| 0 <= i < list.len() && #[trigger] list[i].account_id@ == id;
            assert(updated[i].account_id@ == id);
        }
        assert(updated[at].account_id@ == account.account_id@);
    }
    assert forall|id: Seq<char>| #[trigger] expected.contains_key(id) implies by_id(updated)[id]
        == expected[id] by {
        assert(updated[at].account_id@ == account.account_id@);
        if id != account.account_id@ {
            let i = choose|i: int| 0 <= i < list.len() && #[trigger] list[i].account_id@ == id;
            assert(updated[i] == list[i]);
            assert(updated[i].account_id@ == id);
        }
    }
    assert(by_id(updated) =~= expected);
}

/// An account added at the end, with an identifier that is new.
pub proof fn lemma_by_id_push<H: Handles>(list: Seq<AccountState<H>>, account: AccountState<H>)
    requires
        distinct_ids(list),
        forall|i: int| 0 <= i < list.len() ==> #[trigger] list[i].account_id@ != account.account_id@,
    ensures
        distinct_ids(list.push(account)),
        by_id(list.push(account)) == by_id(list).insert(account.account_id@, account@),
{
    assert(list.push(account).drop_last() =~= list);
}

/// An account taken out.
pub proof fn lemma_by_id_remove<H: Handles>(list: Seq<AccountState<H>>, at: int)
    requires
        distinct_ids(list),
        0 <= at < list.len(),
    ensures
        distinct_ids(list.remove(at)),
        by_id(list.remove(at)) == by_id(list).remove(list[at].account_id@),
{
    let shorter = list.remove(at);
    assert forall|i: int, j: int| 0 <= i < j < shorter.len() implies #[trigger] shorter[i].account_id@
        != #[trigger] shorter[j].account_id@ by {
        let i2 = if i < at {
            i
        } else {
            i + 1
        };
        let j2 = if j < at {
            j
        } else {
            j + 1
        };
        assert(list[i2].account_id@ != list[j2].account_id@);
    }
    lemma_by_id(list);
    lemma_by_id(shorter);
    let gone = list[at].account_id@;
    let expected = by_id(list).remove(gone);
    assert forall|id: Seq<char>| by_id(shorter).contains_key(id) == #[trigger] expected.contains_key(id)
        && (expected.contains_key(id) ==> by_id(shorter)[id] == expected[id]) by {
        if by_id(shorter).contains_key(id) {
            let i = choose|i: int| 0 <= i < shorter.len() && #[trigger] shorter[i].account_id@ == id;
            let i2 = if i < at {
                i
            } else {
                i + 1
            };
            assert(list[i2] == shorter[i]);
            assert(list[i2].account_id@ == id);
            assert(list[i2].account_id@ != list[at].account_id@);
        }
        if expected.contains_key(id) {
            let i = choose|i: int| 0 <= i < list.len() && #[trigger] list[i].account_id@ == id;
            let i2 = if i < at {
                i
            } else {
                i - 1
            };
            assert(shorter[i2] == list[i]);
            assert(shorter[i2].account_id@ == id);
        }
    }
    assert(by_id(shorter) =~= expected);
}

} // verus!
