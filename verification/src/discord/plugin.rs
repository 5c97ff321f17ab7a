//! The Discord channel plugin.

use crate::discord::account::{
    by_id, distinct_ids, lemma_by_id, lemma_by_id_push, lemma_by_id_remove, lemma_by_id_update, AccountState,
    AccountView, DiscordAccountConfig, Handles,
};
use crate::discord::stop::{StopAction, STOP_TIMEOUT_SECS};
use crate::text::{same_text, texts};
use std::sync::Arc;
use vstd::prelude::*;

verus! {

/// Why a request to the plugin was refused.
#[derive(Debug)]
pub enum ChannelError {
    /// The configuration cannot be read.
    InvalidConfig { reason: String },
    /// The request is not acceptable.
    InvalidInput { message: String },
    /// There is no such account.
    UnknownAccount { account_id: String },
}

/// Why a request to the plugin was refused, as plain values.
pub enum ChannelErrorView {
    InvalidConfig { reason: Seq<char> },
    InvalidInput { message: Seq<char> },
    UnknownAccount { account_id: Seq<char> },
}

impl View for ChannelError {
    type V = ChannelErrorView;

    open spec fn view(&self) -> ChannelErrorView {
        match *self {
            ChannelError::InvalidConfig { reason } => ChannelErrorView::InvalidConfig {
                reason: reason@,
            },
            ChannelError::InvalidInput { message } => ChannelErrorView::InvalidInput {
                message: message@,
            },
            ChannelError::UnknownAccount { account_id } => ChannelErrorView::UnknownAccount {
                account_id: account_id@,
            },
        }
    }
}

/// The health of an account.
#[derive(Debug)]
pub struct ChannelHealthSnapshot {
    pub connected: bool,
    pub account_id: String,
    pub details: Option<String>,
}

/// What the gateway task of a started account needs.
pub struct GatewayLaunch {
    pub account_id: String,
    pub token: String,
}

/// What is left to do for a stopped account: cancel its gateway task and then, if
/// the task is known, wait for its end, though no longer than the timeout.
pub struct StoppedAccount<H: Handles> {
    /// What is to be done first; what follows is for `stop_step` to say.
    pub first: StopAction,
    pub cancel: H::CancelToken,
    pub task: Option<H::TaskHandle>,
    pub timeout_secs: u64,
}

/// The plugin as a mathematical value: the started accounts by their identifiers,
/// and the handles that new accounts get.
pub struct PluginView<H: Handles> {
    pub accounts: Map<Seq<char>, AccountView<H>>,
    pub message_log: Option<Arc<H::MessageLog>>,
    pub event_sink: Option<Arc<H::EventSink>>,
}

/// What is wrong with a request to start an account, if anything is: the
/// configuration cannot be read, or it has no bot token.
pub open spec fn start_refusal<H: Handles>(
    config: Result<DiscordAccountConfig<H>, ChannelError>,
) -> Option<ChannelErrorView> {
    match config {
        Err(error) => Some(error@),
        Ok(config) => if config.token@.len() == 0 {
            Some(ChannelErrorView::InvalidInput { message: "Discord bot token is required"@ })
        } else {
            None
        },
    }
}

impl<H: Handles> PluginView<H> {
    /// A new account of the plugin.
    pub open spec fn new_account(
        self,
        config: DiscordAccountConfig<H>,
        cancel: H::CancelToken,
    ) -> AccountView<H> {
        AccountView {
            config,
            message_log: self.message_log,
            event_sink: self.event_sink,
            cancel,
            task_handle: None,
            bot_user_id: None,
            http: None,
            otp_cooldown_secs: config.otp_cooldown_secs,
        }
    }

    /// The plugin with an account set, new or in place of the one it had.
    pub open spec fn with_account(self, account_id: Seq<char>, account: AccountView<H>) -> PluginView<H> {
        PluginView { accounts: self.accounts.insert(account_id, account), ..self }
    }

    /// The plugin after an account was started.
    pub open spec fn started(
        self,
        account_id: Seq<char>,
        config: DiscordAccountConfig<H>,
        cancel: H::CancelToken,
    ) -> PluginView<H> {
        self.with_account(account_id, self.new_account(config, cancel))
    }

    /// The plugin after an account was stopped.
    pub open spec fn stopped(self, account_id: Seq<char>) -> PluginView<H> {
        PluginView { accounts: self.accounts.remove(account_id), ..self }
    }

    /// The plugin after the configuration of an account was replaced. Without the
    /// account nothing changes, here and in the three operations that follow.
    pub open spec fn with_config(
        self,
        account_id: Seq<char>,
        config: DiscordAccountConfig<H>,
    ) -> PluginView<H> {
        if self.accounts.contains_key(account_id) {
            self.with_account(account_id, AccountView { config, ..self.accounts[account_id] })
        } else {
            self
        }
    }

    /// The plugin after the gateway task of an account was stored.
    pub open spec fn with_task(self, account_id: Seq<char>, task: H::TaskHandle) -> PluginView<H> {
        if self.accounts.contains_key(account_id) {
            self.with_account(
                account_id,
                AccountView { task_handle: Some(task), ..self.accounts[account_id] },
            )
        } else {
            self
        }
    }

    /// The plugin after the HTTP handle of an account was stored.
    pub open spec fn with_http(self, account_id: Seq<char>, http: H::Http) -> PluginView<H> {
        if self.accounts.contains_key(account_id) {
            self.with_account(account_id, AccountView { http: Some(http), ..self.accounts[account_id] })
        } else {
            self
        }
    }

    /// The plugin after the bot user of an account became known.
    pub open spec fn with_bot_user(self, account_id: Seq<char>, bot_user_id: u64) -> PluginView<H> {
        if self.accounts.contains_key(account_id) {
            self.with_account(
                account_id,
                AccountView { bot_user_id: Some(bot_user_id), ..self.accounts[account_id] },
            )
        } else {
            self
        }
    }

    /// Whether an account is connected: its bot user is known.
    pub open spec fn connected(self, account_id: Seq<char>) -> bool {
        self.accounts.contains_key(account_id) && self.accounts[account_id].bot_user_id is Some
    }

    /// The words for the health of an account.
    pub open spec fn health_details(self, account_id: Seq<char>) -> Seq<char> {
        if !self.accounts.contains_key(account_id) {
            "account not started"@
        } else if self.connected(account_id) {
            "gateway connected"@
        } else {
            "connecting to Discord gateway..."@
        }
    }
}

/// Whether this is what starting an account leaves behind and hands back.
pub open spec fn start_done<H: Handles>(
    before: PluginView<H>,
    after: PluginView<H>,
    account_id: Seq<char>,
    config: Result<DiscordAccountConfig<H>, ChannelError>,
    cancel: H::CancelToken,
    launch: Result<GatewayLaunch, ChannelError>,
) -> bool {
    match launch {
        Ok(launch) => {
            &&& start_refusal(config) is None
            &&& config matches Ok(config)
            &&& launch.account_id@ == account_id
            &&& launch.token@ == config.token@
            &&& after == before.started(account_id, config, cancel)
        },
        Err(error) => start_refusal(config) == Some(error@) && after == before,
    }
}

/// Whether this is what stopping an account leaves behind and hands back.
pub open spec fn stop_done<H: Handles>(
    before: PluginView<H>,
    after: PluginView<H>,
    account_id: Seq<char>,
    stopped: Option<StoppedAccount<H>>,
) -> bool {
    &&& after == before.stopped(account_id)
    &&& match stopped {
        Some(stopped) => {
            let account = before.accounts[account_id];
            &&& before.accounts.contains_key(account_id)
            &&& stopped.first == (StopAction::Cancel { task_known: account.task_handle is Some })
            &&& stopped.cancel == account.cancel
            &&& stopped.task == account.task_handle
            &&& stopped.timeout_secs == STOP_TIMEOUT_SECS
        },
        None => !before.accounts.contains_key(account_id),
    }
}

/// Whether this is what updating a configuration leaves behind and hands back.
pub open spec fn update_done<H: Handles>(
    before: PluginView<H>,
    after: PluginView<H>,
    account_id: Seq<char>,
    config: Result<DiscordAccountConfig<H>, ChannelError>,
    result: Result<(), ChannelError>,
) -> bool {
    match config {
        Err(unreadable) => result == Err::<(), ChannelError>(unreadable) && after == before,
        Ok(config) => {
            &&& after == before.with_config(account_id, config)
            &&& match result {
                Ok(_) => before.accounts.contains_key(account_id),
                Err(error) => {
                    &&& !before.accounts.contains_key(account_id)
                    &&& error@ == (ChannelErrorView::UnknownAccount { account_id })
                },
            }
        },
    }
}

/// Whether this is the health that is reported of an account.
pub open spec fn probe_done<H: Handles>(
    plugin: PluginView<H>,
    account_id: Seq<char>,
    snapshot: Result<ChannelHealthSnapshot, ChannelError>,
) -> bool {
    snapshot matches Ok(snapshot) && {
        &&& snapshot.connected == plugin.connected(account_id)
        &&& snapshot.account_id@ == account_id
        &&& snapshot.details matches Some(details)
        &&& details@ == plugin.health_details(account_id)
    }
}

/// `Arc::clone`: another handle to the same value.
#[verifier::external_body]
fn share<T>(handle: &Arc<T>) -> (shared: Arc<T>)
    ensures
        shared == *handle,
{
    Arc::clone(handle)
}

fn share_optional<T>(handle: &Option<Arc<T>>) -> (shared: Option<Arc<T>>)
    ensures
        shared == *handle,
{
    match handle {
        Some(handle) => Some(share(handle)),
        None => None,
    }
}

/// The Discord channel plugin.
pub struct DiscordPlugin<H: Handles> {
    accounts: Vec<AccountState<H>>,
    message_log: Option<Arc<H::MessageLog>>,
    event_sink: Option<Arc<H::EventSink>>,
}

impl<H: Handles> View for DiscordPlugin<H> {
    type V = PluginView<H>;

    closed spec fn view(&self) -> PluginView<H> {
        PluginView {
            accounts: by_id(self.accounts@),
            message_log: self.message_log,
            event_sink: self.event_sink,
        }
    }
}

/// The position of the account with an identifier.
fn position<H: Handles>(accounts: &Vec<AccountState<H>>, account_id: &str) -> (at: Option<usize>)
    requires
        distinct_ids(accounts@),
    ensures
        match at {
            Some(at) => {
                &&& at < accounts@.len()
                &&& accounts@[at as int].account_id@ == account_id@
                &&& by_id(accounts@).contains_key(account_id@)
                &&& by_id(accounts@)[account_id@] == accounts@[at as int]@
            },
            None => {
                &&& !by_id(accounts@).contains_key(account_id@)
                &&& forall|i: int|
                    0 <= i < accounts@.len() ==> #[trigger] accounts@[i].account_id@ != account_id@
            },
        },
{
    proof {
        lemma_by_id(accounts@);
    }
    for i in 0..accounts.len()
        invariant
            distinct_ids(accounts@),
            forall|j: int| 0 <= j < i ==> #[trigger] accounts@[j].account_id@ != account_id@,
    {
        if same_text(accounts[i].account_id.as_str(), account_id) {
            proof {
                lemma_by_id(accounts@);
            }
            return Some(i);
        }
    }
    None
}

impl<H: Handles> Default for DiscordPlugin<H> {
    fn default() -> (plugin: Self)
        ensures
            plugin@.accounts == Map::<Seq<char>, AccountView<H>>::empty(),
            plugin@.message_log is None,
            plugin@.event_sink is None,
    {
        DiscordPlugin { accounts: Vec::new(), message_log: None, event_sink: None }
    }
}

impl<H: Handles> DiscordPlugin<H> {
    #[verifier::type_invariant]
    spec fn ids_are_distinct(self) -> bool {
        distinct_ids(self.accounts@)
    }

    /// A plugin without accounts, message log and event sink.
    pub fn new() -> (plugin: Self)
        ensures
            plugin@.accounts == Map::<Seq<char>, AccountView<H>>::empty(),
            plugin@.message_log is None,
            plugin@.event_sink is None,
    {
        DiscordPlugin { accounts: Vec::new(), message_log: None, event_sink: None }
    }

    /// The plugin with a message log for the accounts that it starts.
    pub fn with_message_log(self, log: Arc<H::MessageLog>) -> (plugin: Self)
        ensures
            plugin@ == (PluginView { message_log: Some(log), ..self@ }),
    {
        proof {
            use_type_invariant(&self);
        }
        let mut plugin = self;
        plugin.message_log = Some(log);
        plugin
    }

    /// The plugin with an event sink for the accounts that it starts.
    pub fn with_event_sink(self, sink: Arc<H::EventSink>) -> (plugin: Self)
        ensures
            plugin@ == (PluginView { event_sink: Some(sink), ..self@ }),
    {
        proof {
            use_type_invariant(&self);
        }
        let mut plugin = self;
        plugin.event_sink = Some(sink);
        plugin
    }

    /// The identifiers of the started accounts, each once.
    pub fn account_ids(&self) -> (ids: Vec<String>)
        ensures
            texts(ids@).no_duplicates(),
            forall|id: Seq<char>| #[trigger]
                texts(ids@).contains(id) <==> self@.accounts.contains_key(id),
    {
        proof {
            use_type_invariant(self);
            lemma_by_id(self.accounts@);
        }
        let mut ids: Vec<String> = Vec::new();
        for i in 0..self.accounts.len()
            invariant
                ids@.len() == i,
                forall|j: int|
                    0 <= j < i ==> #[trigger] ids@[j]@ == self.accounts@[j].account_id@,
        {
            ids.push(self.accounts[i].account_id.clone());
        }
        proof {
            let list = texts(ids@);
            assert forall|i: int, j: int| 0 <= i < list.len() && 0 <= j < list.len() && i
                != j implies list[i] != list[j] by {
                assert(list[i] == self.accounts@[i].account_id@);
                assert(list[j] == self.accounts@[j].account_id@);
                if i < j {
                    assert(self.accounts@[i].account_id@ != self.accounts@[j].account_id@);
                } else {
                    assert(self.accounts@[j].account_id@ != self.accounts@[i].account_id@);
                }
            }
            assert forall|id: Seq<char>| #[trigger]
                list.contains(id) <==> self@.accounts.contains_key(id) by {
                if list.contains(id) {
                    let i = choose|i: int| 0 <= i < list.len() && list[i] == id;
                    assert(self.accounts@[i].account_id@ == id);
                }
                if self@.accounts.contains_key(id) {
                    let i = choose|i: int|
                        0 <= i < self.accounts@.len() && #[trigger] self.accounts@[i].account_id@ == id;
                    assert(list[i] == ids@[i]@);
                }
            }
        }
        ids
    }

    /// Whether an account is started.
    pub fn has_account(&self, account_id: &str) -> (yes: bool)
        ensures
            yes == self@.accounts.contains_key(account_id@),
    {
        proof {
            use_type_invariant(self);
        }
        position(&self.accounts, account_id).is_some()
    }

    /// A started account.
    pub fn account(&self, account_id: &str) -> (account: Option<&AccountState<H>>)
        ensures
            match account {
                Some(account) => {
                    &&& self@.accounts.contains_key(account_id@)
                    &&& account.account_id@ == account_id@
                    &&& account@ == self@.accounts[account_id@]
                },
                None => !self@.accounts.contains_key(account_id@),
            },
    {
        proof {
            use_type_invariant(self);
        }
        match position(&self.accounts, account_id) {
            Some(at) => Some(&self.accounts[at]),
            None => None,
        }
    }

    /// The configuration of a started account.
    pub fn account_config(&self, account_id: &str) -> (config: Option<&DiscordAccountConfig<H>>)
        ensures
            match config {
                Some(config) => {
                    &&& self@.accounts.contains_key(account_id@)
                    &&& *config == self@.accounts[account_id@].config
                },
                None => !self@.accounts.contains_key(account_id@),
            },
    {
        match self.account(account_id) {
            Some(account) => Some(&account.config),
            None => None,
        }
    }

    /// Sets an account, new or in place of the one with its identifier.
    fn put(&mut self, account: AccountState<H>)
        ensures
            final(self)@ == old(self)@.with_account(account.account_id@, account@),
    {
        proof {
            use_type_invariant(&*self);
        }
        let mut accounts: Vec<AccountState<H>> = Vec::new();
        std::mem::swap(&mut accounts, &mut self.accounts);
        match position(&accounts, account.account_id.as_str()) {
            Some(at) => {
                proof {
                    lemma_by_id_update(accounts@, at as int, account);
                }
                accounts.set(at, account);
            },
            None => {
                proof {
                    lemma_by_id_push(accounts@, account);
                }
                accounts.push(account);
            },
        }
        self.accounts = accounts;
    }

    /// Takes an account out.
    fn take(&mut self, account_id: &str) -> (account: Option<AccountState<H>>)
        ensures
            final(self)@ == old(self)@.stopped(account_id@),
            match account {
                Some(account) => {
                    &&& old(self)@.accounts.contains_key(account_id@)
                    &&& account.account_id@ == account_id@
                    &&& account@ == old(self)@.accounts[account_id@]
                },
                None => !old(self)@.accounts.contains_key(account_id@),
            },
    {
        proof {
            use_type_invariant(&*self);
        }
        let mut accounts: Vec<AccountState<H>> = Vec::new();
        std::mem::swap(&mut accounts, &mut self.accounts);
        let account = match position(&accounts, account_id) {
            Some(at) => {
                proof {
                    lemma_by_id_remove(accounts@, at as int);
                }
                Some(accounts.remove(at))
            },
            None => {
                assert(by_id(accounts@).remove(account_id@) =~= by_id(accounts@));
                None
            },
        };
        self.accounts = accounts;
        account
    }

    /// Replaces the configuration of a started account, given what came of reading
    /// the new one. A configuration that cannot be read is refused first. Nothing
    /// but the configuration changes.
    pub fn update_account_config(
        &mut self,
        account_id: &str,
        config: Result<DiscordAccountConfig<H>, ChannelError>,
    ) -> (result: Result<(), ChannelError>)
        ensures
            update_done(old(self)@, final(self)@, account_id@, config, result),
            match (config, result) {
                (Err(unreadable), Err(error)) => error == unreadable && final(self)@ == old(self)@,
                (Ok(config), Ok(_)) => {
                    &&& old(self)@.accounts.contains_key(account_id@)
                    &&& final(self)@ == old(self)@.with_config(account_id@, config)
                },
                (Ok(config), Err(error)) => {
                    &&& !old(self)@.accounts.contains_key(account_id@)
                    &&& error@ == (ChannelErrorView::UnknownAccount { account_id: account_id@ })
                    &&& final(self)@ == old(self)@
                },
                (Err(_), Ok(_)) => false,
            },
    {
        let config = match config {
            Ok(config) => config,
            Err(error) => {
                return Err(error);
            },
        };
        match self.take(account_id) {
            Some(account) => {
                let mut account = account;
                account.config = config;
                self.put(account);
                assert(self@.accounts =~= old(self)@.with_config(account_id@, config).accounts);
                Ok(())
            },
            None => {
                assert(self@.accounts =~= old(self)@.accounts);
                Err(ChannelError::UnknownAccount { account_id: account_id.to_owned() })
            },
        }
    }

    /// Starts an account, given what came of reading its configuration and the token
    /// by which its gateway task will be cancelled. A running account with the same
    /// identifier is replaced. What comes back is what the gateway task needs.
    pub fn start_account(
        &mut self,
        account_id: &str,
        config: Result<DiscordAccountConfig<H>, ChannelError>,
        cancel: H::CancelToken,
    ) -> (launch: Result<GatewayLaunch, ChannelError>)
        ensures
            start_done(old(self)@, final(self)@, account_id@, config, cancel, launch),
            launch is Ok <==> (config matches Ok(config) && config.token@.len() > 0),
            match launch {
                Ok(launch) => {
                    &&& start_refusal(config) is None
                    &&& config matches Ok(config)
                    &&& launch.account_id@ == account_id@
                    &&& launch.token@ == config.token@
                    &&& final(self)@ == old(self)@.started(account_id@, config, cancel)
                },
                Err(error) => {
                    &&& start_refusal(config) == Some(error@)
                    &&& final(self)@ == old(self)@
                },
            },
    {
        let config = match config {
            Ok(config) => config,
            Err(error) => {
                return Err(error);
            },
        };
        if config.token.expose_secret().as_str().is_empty() {
            return Err(
                ChannelError::InvalidInput { message: "Discord bot token is required".to_owned() },
            );
        }
        let token = config.token.expose_secret().clone();
        let otp_cooldown_secs: u64 = config.otp_cooldown_secs;
        let account = AccountState {
            account_id: account_id.to_owned(),
            config,
            message_log: share_optional(&self.message_log),
            event_sink: share_optional(&self.event_sink),
            cancel,
            task_handle: None,
            bot_user_id: None,
            http: None,
            otp_cooldown_secs,
        };
        self.put(account);
        Ok(GatewayLaunch { account_id: account_id.to_owned(), token })
    }

    /// Stores the HTTP handle of an account's client, if the account is still there.
    pub fn store_http(&mut self, account_id: &str, http: H::Http)
        ensures
            final(self)@ == old(self)@.with_http(account_id@, http),
            final(self)@.accounts.contains_key(account_id@) ==> final(self)@.accounts[account_id@].http == Some(http),
    {
        match self.take(account_id) {
            Some(account) => {
                let mut account = account;
                account.http = Some(http);
                self.put(account);
            },
            None => {},
        }
        assert(self@.accounts =~= old(self)@.with_http(account_id@, http).accounts);
    }

    /// Stores the gateway task of an account, if the account is still there, so that
    /// stopping the account can wait for the end of the task.
    pub fn store_task(&mut self, account_id: &str, task: H::TaskHandle)
        ensures
            final(self)@ == old(self)@.with_task(account_id@, task),
            final(self)@.accounts.contains_key(account_id@) ==> final(self)@.accounts[account_id@].task_handle == Some(task),
    {
        match self.take(account_id) {
            Some(account) => {
                let mut account = account;
                account.task_handle = Some(task);
                self.put(account);
            },
            None => {},
        }
        assert(self@.accounts =~= old(self)@.with_task(account_id@, task).accounts);
    }

    /// Stores the bot user as which an account is connected, if the account is still there.
    pub fn store_bot_user(&mut self, account_id: &str, bot_user_id: u64)
        ensures
            final(self)@ == old(self)@.with_bot_user(account_id@, bot_user_id),
            final(self)@.accounts.contains_key(account_id@) ==> final(self)@.accounts[account_id@].bot_user_id == Some(bot_user_id),
    {
        match self.take(account_id) {
            Some(account) => {
                let mut account = account;
                account.bot_user_id = Some(bot_user_id);
                self.put(account);
            },
            None => {},
        }
        assert(self@.accounts =~= old(self)@.with_bot_user(account_id@, bot_user_id).accounts);
    }

    /// Stops an account. What comes back is what is left to do, and nothing if the
    /// account was not started.
    pub fn stop_account(&mut self, account_id: &str) -> (stopped: Option<StoppedAccount<H>>)
        ensures
            stop_done(old(self)@, final(self)@, account_id@, stopped),
            final(self)@ == old(self)@.stopped(account_id@),
            match stopped {
                Some(stopped) => {
                    &&& old(self)@.accounts.contains_key(account_id@)
                    &&& stopped.first == (StopAction::Cancel {
                        task_known: old(self)@.accounts[account_id@].task_handle is Some,
                    })
                    &&& stopped.cancel == old(self)@.accounts[account_id@].cancel
                    &&& stopped.task == old(self)@.accounts[account_id@].task_handle
                    &&& stopped.timeout_secs == STOP_TIMEOUT_SECS
                },
                None => !old(self)@.accounts.contains_key(account_id@),
            },
    {
        match self.take(account_id) {
            Some(account) => Some(
                StoppedAccount {
                    first: StopAction::Cancel { task_known: account.task_handle.is_some() },
                    cancel: account.cancel,
                    task: account.task_handle,
                    timeout_secs: STOP_TIMEOUT_SECS,
                },
            ),
            None => None,
        }
    }

    /// The health of an account, started or not. This never fails.
    pub fn probe(&self, account_id: &str) -> (snapshot: Result<ChannelHealthSnapshot, ChannelError>)
        ensures
            probe_done(self@, account_id@, snapshot),
            snapshot matches Ok(snapshot) && {
                &&& snapshot.connected == self@.connected(account_id@)
                &&& snapshot.connected <==> self@.accounts.contains_key(account_id@)
                    && self@.accounts[account_id@].bot_user_id is Some
                &&& snapshot.account_id@ == account_id@
                &&& snapshot.details matches Some(details)
                &&& details@ == self@.health_details(account_id@)
            },
    {
        match self.account(account_id) {
            Some(account) => {
                let connected = account.bot_user_id.is_some();
                let details = if connected {
                    "gateway connected".to_owned()
                } else {
                    "connecting to Discord gateway...".to_owned()
                };
                Ok(
                    ChannelHealthSnapshot {
                        connected,
                        account_id: account.account_id.clone(),
                        details: Some(details),
                    },
                )
            },
            None => Ok(
                ChannelHealthSnapshot {
                    connected: false,
                    account_id: account_id.to_owned(),
                    details: Some("account not started".to_owned()),
                },
            ),
        }
    }

    /// The identifier of the plugin.
    pub fn id(&self) -> (id: &'static str)
        ensures
            id@ == "discord"@,
    {
        "discord"
    }

    /// The name of the plugin.
    pub fn name(&self) -> (name: &'static str)
        ensures
            name@ == "Discord"@,
    {
        "Discord"
    }
}

/// An account that was started is there, and is not connected before its bot user
/// is known.
pub proof fn law_started_account_is_connecting<H: Handles>(
    plugin: PluginView<H>,
    account_id: Seq<char>,
    config: DiscordAccountConfig<H>,
    cancel: H::CancelToken,
)
    ensures
        ({
            let after = plugin.started(account_id, config, cancel);
            &&& after.accounts.contains_key(account_id)
            &&& !after.connected(account_id)
            &&& after.health_details(account_id) == "connecting to Discord gateway..."@
            &&& after.accounts[account_id].config == config
            &&& after.accounts[account_id].message_log == plugin.message_log
            &&& after.accounts[account_id].event_sink == plugin.event_sink
        }),
{
}

/// A started account is connected exactly from when its bot user is known.
pub proof fn law_known_bot_user_is_connected<H: Handles>(
    plugin: PluginView<H>,
    account_id: Seq<char>,
    bot_user_id: u64,
)
    ensures
        plugin.with_bot_user(account_id, bot_user_id).connected(account_id)
            == plugin.accounts.contains_key(account_id),
{
}

/// An account that was stopped is gone, and stopping it again changes nothing.
pub proof fn law_stopped_account_is_gone<H: Handles>(plugin: PluginView<H>, account_id: Seq<char>)
    ensures
        !plugin.stopped(account_id).accounts.contains_key(account_id),
        !plugin.stopped(account_id).connected(account_id),
        plugin.stopped(account_id).health_details(account_id) == "account not started"@,
        plugin.stopped(account_id).stopped(account_id) == plugin.stopped(account_id),
{
    assert(plugin.stopped(account_id).stopped(account_id).accounts =~= plugin.stopped(
        account_id,
    ).accounts);
}

/// Stopping an account undoes starting it, where it was not there before. Starting
/// an account after stopping it leaves nothing of what it was.
pub proof fn law_stop_undoes_start<H: Handles>(
    plugin: PluginView<H>,
    account_id: Seq<char>,
    config: DiscordAccountConfig<H>,
    cancel: H::CancelToken,
)
    ensures
        plugin.started(account_id, config, cancel).stopped(account_id) == plugin.stopped(account_id),
        !plugin.accounts.contains_key(account_id) ==> plugin.started(
            account_id,
            config,
            cancel,
        ).stopped(account_id) == plugin,
        plugin.stopped(account_id).started(account_id, config, cancel) == plugin.started(
            account_id,
            config,
            cancel,
        ),
{
    assert(plugin.stopped(account_id).started(account_id, config, cancel).accounts =~= plugin.started(
        account_id,
        config,
        cancel,
    ).accounts);
    assert(plugin.started(account_id, config, cancel).stopped(account_id).accounts =~= plugin.stopped(
        account_id,
    ).accounts);
    if !plugin.accounts.contains_key(account_id) {
        assert(plugin.stopped(account_id).accounts =~= plugin.accounts);
    }
}

/// Whether two states of a plugin agree on the gateway task of an account and on
/// the token that cancels it.
pub open spec fn same_task<H: Handles>(
    before: PluginView<H>,
    after: PluginView<H>,
    account_id: Seq<char>,
) -> bool {
    &&& before.accounts.contains_key(account_id)
    &&& after.accounts.contains_key(account_id)
    &&& before.accounts[account_id].cancel == after.accounts[account_id].cancel
    &&& before.accounts[account_id].task_handle == after.accounts[account_id].task_handle
}

/// A started account has the cancel token that it was started with and the gateway
/// task that was stored for it, and keeps both whatever else is stored or updated.
/// So stopping the account can cancel that task and wait for its end before another
/// client connects.
pub proof fn law_stop_finds_the_running_task<H: Handles>(
    plugin: PluginView<H>,
    account_id: Seq<char>,
    config: DiscordAccountConfig<H>,
    cancel: H::CancelToken,
    task: H::TaskHandle,
    http: H::Http,
    bot_user_id: u64,
)
    ensures
        ({
            let running = plugin.started(account_id, config, cancel).with_task(account_id, task);
            &&& running.accounts[account_id].cancel == cancel
            &&& running.accounts[account_id].task_handle == Some(task)
        }),
        plugin.accounts.contains_key(account_id) ==> {
            &&& same_task(plugin, plugin.with_http(account_id, http), account_id)
            &&& same_task(plugin, plugin.with_bot_user(account_id, bot_user_id), account_id)
            &&& same_task(plugin, plugin.with_config(account_id, config), account_id)
        },
{
}

/// A gateway task that reports after its account was stopped does not bring the
/// account back.
pub proof fn law_late_reports_change_nothing<H: Handles>(
    plugin: PluginView<H>,
    account_id: Seq<char>,
    task: H::TaskHandle,
    http: H::Http,
    bot_user_id: u64,
)
    requires
        !plugin.accounts.contains_key(account_id),
    ensures
        plugin.with_task(account_id, task) == plugin,
        plugin.with_http(account_id, http) == plugin,
        plugin.with_bot_user(account_id, bot_user_id) == plugin,
{
}

/// An updated configuration is read back, and everything else of the account stays:
/// its handles, its connection and the cooldown of its one-time passwords.
pub proof fn law_update_changes_config_only<H: Handles>(
    plugin: PluginView<H>,
    account_id: Seq<char>,
    config: DiscordAccountConfig<H>,
)
    requires
        plugin.accounts.contains_key(account_id),
    ensures
        ({
            let before = plugin.accounts[account_id];
            let after = plugin.with_config(account_id, config).accounts[account_id];
            &&& after.config == config
            &&& after == (AccountView { config, ..before })
            &&& after.otp_cooldown_secs == before.otp_cooldown_secs
            &&& plugin.with_config(account_id, config).connected(account_id) == plugin.connected(
                account_id,
            )
        }),
{
}

/// No operation on one account touches another.
pub proof fn law_other_accounts_are_untouched<H: Handles>(
    plugin: PluginView<H>,
    account_id: Seq<char>,
    other: Seq<char>,
    config: DiscordAccountConfig<H>,
    cancel: H::CancelToken,
    task: H::TaskHandle,
    http: H::Http,
    bot_user_id: u64,
)
    requires
        other != account_id,
    ensures
        same_account(plugin, plugin.started(account_id, config, cancel), other),
        same_account(plugin, plugin.stopped(account_id), other),
        same_account(plugin, plugin.with_config(account_id, config), other),
        same_account(plugin, plugin.with_task(account_id, task), other),
        same_account(plugin, plugin.with_http(account_id, http), other),
        same_account(plugin, plugin.with_bot_user(account_id, bot_user_id), other),
{
}

/// Whether two states of a plugin agree on an account.
pub open spec fn same_account<H: Handles>(
    before: PluginView<H>,
    after: PluginView<H>,
    account_id: Seq<char>,
) -> bool {
    &&& before.accounts.contains_key(account_id) == after.accounts.contains_key(account_id)
    &&& before.accounts.contains_key(account_id) ==> before.accounts[account_id]
        == after.accounts[account_id]
}

/// An account is started exactly if its configuration could be read and has a bot
/// token of at least one character. An unreadable configuration is refused with the
/// reason for which it could not be read, an empty token by name.
pub proof fn law_any_token_but_the_empty_one_starts<H: Handles>(
    config: Result<DiscordAccountConfig<H>, ChannelError>,
)
    ensures
        start_refusal(config) is None <==> (config matches Ok(config) && config.token@.len() > 0),
        config matches Err(error) ==> start_refusal(config) == Some(error@),
        config matches Ok(readable) && readable.token@.len() == 0 ==> start_refusal(config) == Some(
            ChannelErrorView::InvalidInput { message: "Discord bot token is required"@ },
        ),
{
}

/// Whether two states of a plugin agree on everything but one account.
pub open spec fn rest_is_untouched<H: Handles>(
    before: PluginView<H>,
    after: PluginView<H>,
    account_id: Seq<char>,
) -> bool {
    &&& before.message_log == after.message_log
    &&& before.event_sink == after.event_sink
    &&& forall|other: Seq<char>|
        other != account_id ==> #[trigger] before.accounts.contains_key(other)
            == after.accounts.contains_key(other) && (before.accounts.contains_key(other)
            ==> before.accounts[other] == after.accounts[other])
}

/// A stored HTTP handle is the one that the account has from then on, whatever state
/// the account was in. Nothing else of the account or of the plugin changes.
pub proof fn law_stored_http_is_kept<H: Handles>(
    plugin: PluginView<H>,
    account_id: Seq<char>,
    http: H::Http,
)
    requires
        plugin.accounts.contains_key(account_id),
    ensures
        ({
            let stored = plugin.with_http(account_id, http);
            let before = plugin.accounts[account_id];
            let after = stored.accounts[account_id];
            &&& stored.accounts.contains_key(account_id)
            &&& after.http == Some(http)
            &&& after.config == before.config
            &&& after.message_log == before.message_log
            &&& after.event_sink == before.event_sink
            &&& after.cancel == before.cancel
            &&& after.task_handle == before.task_handle
            &&& after.bot_user_id == before.bot_user_id
            &&& after.otp_cooldown_secs == before.otp_cooldown_secs
            &&& rest_is_untouched(plugin, stored, account_id)
        }),
{
}

/// A stored gateway task is the one that the account has from then on, whatever state
/// the account was in. Nothing else of the account or of the plugin changes.
pub proof fn law_stored_task_is_kept<H: Handles>(
    plugin: PluginView<H>,
    account_id: Seq<char>,
    task: H::TaskHandle,
)
    requires
        plugin.accounts.contains_key(account_id),
    ensures
        ({
            let stored = plugin.with_task(account_id, task);
            let before = plugin.accounts[account_id];
            let after = stored.accounts[account_id];
            &&& stored.accounts.contains_key(account_id)
            &&& after.task_handle == Some(task)
            &&& after.config == before.config
            &&& after.message_log == before.message_log
            &&& after.event_sink == before.event_sink
            &&& after.cancel == before.cancel
            &&& after.bot_user_id == before.bot_user_id
            &&& after.http == before.http
            &&& after.otp_cooldown_secs == before.otp_cooldown_secs
            &&& rest_is_untouched(plugin, stored, account_id)
        }),
{
}

/// A stored bot user is the one that the account has from then on, whatever state the
/// account was in. Nothing else of the account or of the plugin changes.
pub proof fn law_stored_bot_user_is_kept<H: Handles>(
    plugin: PluginView<H>,
    account_id: Seq<char>,
    bot_user_id: u64,
)
    requires
        plugin.accounts.contains_key(account_id),
    ensures
        ({
            let stored = plugin.with_bot_user(account_id, bot_user_id);
            let before = plugin.accounts[account_id];
            let after = stored.accounts[account_id];
            &&& stored.accounts.contains_key(account_id)
            &&& after.bot_user_id == Some(bot_user_id)
            &&& after.config == before.config
            &&& after.message_log == before.message_log
            &&& after.event_sink == before.event_sink
            &&& after.cancel == before.cancel
            &&& after.task_handle == before.task_handle
            &&& after.http == before.http
            &&& after.otp_cooldown_secs == before.otp_cooldown_secs
            &&& rest_is_untouched(plugin, stored, account_id)
        }),
{
}

/// A new configuration is the one that the account has from then on, whatever it
/// holds and whatever state the account was in. Nothing else of the account or of
/// the plugin changes, and no account comes into being.
pub proof fn law_new_config_is_kept<H: Handles>(
    plugin: PluginView<H>,
    account_id: Seq<char>,
    config: DiscordAccountConfig<H>,
)
    ensures
        ({
            let updated = plugin.with_config(account_id, config);
            let before = plugin.accounts[account_id];
            let after = updated.accounts[account_id];
            &&& updated.accounts.contains_key(account_id) == plugin.accounts.contains_key(account_id)
            &&& plugin.accounts.contains_key(account_id) ==> {
                &&& after.config == config
                &&& after.message_log == before.message_log
                &&& after.event_sink == before.event_sink
                &&& after.cancel == before.cancel
                &&& after.task_handle == before.task_handle
                &&& after.bot_user_id == before.bot_user_id
                &&& after.http == before.http
                &&& after.otp_cooldown_secs == before.otp_cooldown_secs
            }
            &&& rest_is_untouched(plugin, updated, account_id)
        }),
{
}

/// A started account has its configuration and cancel token, the plugin's message log
/// and event sink, the cooldown of its configuration, and nothing of an account that
/// was there before. Nothing else of the plugin changes.
pub proof fn law_started_account_is_new<H: Handles>(
    plugin: PluginView<H>,
    account_id: Seq<char>,
    config: DiscordAccountConfig<H>,
    cancel: H::CancelToken,
)
    ensures
        ({
            let started = plugin.started(account_id, config, cancel);
            let account = started.accounts[account_id];
            &&& started.accounts.contains_key(account_id)
            &&& account.config == config
            &&& account.message_log == plugin.message_log
            &&& account.event_sink == plugin.event_sink
            &&& account.cancel == cancel
            &&& account.task_handle is None
            &&& account.bot_user_id is None
            &&& account.http is None
            &&& account.otp_cooldown_secs == config.otp_cooldown_secs
            &&& rest_is_untouched(plugin, started, account_id)
        }),
{
}

/// A stopped account is gone, and nothing else of the plugin changes.
pub proof fn law_stop_removes_one_account<H: Handles>(plugin: PluginView<H>, account_id: Seq<char>)
    ensures
        !plugin.stopped(account_id).accounts.contains_key(account_id),
        rest_is_untouched(plugin, plugin.stopped(account_id), account_id),
{
}

/// An account is connected exactly if it is started and its bot user is known. The
/// words for its health tell the three cases apart.
pub proof fn law_connected_means_known_bot_user<H: Handles>(
    plugin: PluginView<H>,
    account_id: Seq<char>,
)
    ensures
        plugin.connected(account_id) <==> plugin.accounts.contains_key(account_id)
            && plugin.accounts[account_id].bot_user_id is Some,
        !plugin.accounts.contains_key(account_id) ==> plugin.health_details(account_id)
            == "account not started"@,
        plugin.accounts.contains_key(account_id) && plugin.accounts[account_id].bot_user_id is Some
            ==> plugin.health_details(account_id) == "gateway connected"@,
        plugin.accounts.contains_key(account_id) && plugin.accounts[account_id].bot_user_id is None
            ==> plugin.health_details(account_id) == "connecting to Discord gateway..."@,
{
}

/// Whether two states of a plugin report the same health of an account.
pub open spec fn same_health<H: Handles>(
    before: PluginView<H>,
    after: PluginView<H>,
    account_id: Seq<char>,
) -> bool {
    &&& before.connected(account_id) == after.connected(account_id)
    &&& before.health_details(account_id) == after.health_details(account_id)
}

/// Storing a gateway task, an HTTP handle or a configuration, of whichever account,
/// leaves the reported health of every account as it was.
pub proof fn law_only_the_bot_user_changes_the_health<H: Handles>(
    plugin: PluginView<H>,
    stored_id: Seq<char>,
    probed_id: Seq<char>,
    task: H::TaskHandle,
    http: H::Http,
    config: DiscordAccountConfig<H>,
)
    ensures
        same_health(plugin, plugin.with_task(stored_id, task), probed_id),
        same_health(plugin, plugin.with_http(stored_id, http), probed_id),
        same_health(plugin, plugin.with_config(stored_id, config), probed_id),
{
}

/// A started account for which a gateway task, an HTTP handle and a configuration were
/// stored is reported as connecting, in whatever order they were stored, and as
/// connected once its bot user is stored too.
pub proof fn law_account_connects_with_its_bot_user<H: Handles>(
    plugin: PluginView<H>,
    account_id: Seq<char>,
    config: DiscordAccountConfig<H>,
    cancel: H::CancelToken,
    task: H::TaskHandle,
    http: H::Http,
    later: DiscordAccountConfig<H>,
    bot_user_id: u64,
)
    ensures
        ({
            let started = plugin.started(account_id, config, cancel);
            let running = started.with_task(account_id, task).with_http(account_id, http).with_config(
                account_id,
                later,
            );
            let other = started.with_config(account_id, later).with_http(account_id, http).with_task(
                account_id,
                task,
            );
            &&& running == other
            &&& !running.connected(account_id)
            &&& running.health_details(account_id) == "connecting to Discord gateway..."@
            &&& running.accounts[account_id].http == Some(http)
            &&& running.accounts[account_id].task_handle == Some(task)
            &&& running.with_bot_user(account_id, bot_user_id).connected(account_id)
            &&& running.with_bot_user(account_id, bot_user_id).health_details(account_id)
                == "gateway connected"@
        }),
{
    let started = plugin.started(account_id, config, cancel);
    let running = started.with_task(account_id, task).with_http(account_id, http).with_config(
        account_id,
        later,
    );
    let other = started.with_config(account_id, later).with_http(account_id, http).with_task(
        account_id,
        task,
    );
    assert(running.accounts =~= other.accounts);
}

/// A refusal keeps its reason, and an account all that it holds.
pub proof fn law_values_are_taken_over<H: Handles>(
    reason: String,
    message: String,
    account_id: String,
    account: AccountState<H>,
)
    ensures
        (ChannelError::InvalidConfig { reason })@ == (ChannelErrorView::InvalidConfig {
            reason: reason@,
        }),
        (ChannelError::InvalidInput { message })@ == (ChannelErrorView::InvalidInput {
            message: message@,
        }),
        (ChannelError::UnknownAccount { account_id })@ == (ChannelErrorView::UnknownAccount {
            account_id: account_id@,
        }),
        account@.config == account.config,
        account@.message_log == account.message_log,
        account@.event_sink == account.event_sink,
        account@.cancel == account.cancel,
        account@.task_handle == account.task_handle,
        account@.bot_user_id == account.bot_user_id,
        account@.http == account.http,
        account@.otp_cooldown_secs == account.otp_cooldown_secs,
{
}


/// Starting an account succeeds exactly if its configuration could be read and its
/// token is not empty. The gateway task then gets the identifier and the token of the
/// account, and the account is there with its configuration and cancel token. A
/// refusal changes nothing.
pub proof fn law_start_launches_the_account<H: Handles>(
    before: PluginView<H>,
    after: PluginView<H>,
    account_id: Seq<char>,
    config: Result<DiscordAccountConfig<H>, ChannelError>,
    cancel: H::CancelToken,
    launch: Result<GatewayLaunch, ChannelError>,
)
    requires
        start_done(before, after, account_id, config, cancel, launch),
    ensures
        launch is Ok <==> (config matches Ok(config) && config.token@.len() > 0),
        launch matches Ok(launch) ==> {
            &&& launch.account_id@ == account_id
            &&& launch.token@ == config->Ok_0.token@
            &&& after.accounts.contains_key(account_id)
            &&& after.accounts[account_id].config == config->Ok_0
            &&& after.accounts[account_id].cancel == cancel
            &&& rest_is_untouched(before, after, account_id)
        },
        launch matches Err(error) ==> {
            &&& after == before
            &&& config matches Err(unreadable) ==> error@ == unreadable@
            &&& config is Ok ==> error@ == (ChannelErrorView::InvalidInput {
                message: "Discord bot token is required"@,
            })
        },
{
}

/// Stopping an account takes it out and hands back its cancel token and its task, to
/// be cancelled first and waited for for at most five seconds. Where there is no such
/// account, nothing is left to do and nothing changes.
pub proof fn law_stop_hands_back_token_and_task<H: Handles>(
    before: PluginView<H>,
    after: PluginView<H>,
    account_id: Seq<char>,
    stopped: Option<StoppedAccount<H>>,
)
    requires
        stop_done(before, after, account_id, stopped),
    ensures
        stopped is Some <==> before.accounts.contains_key(account_id),
        !after.accounts.contains_key(account_id),
        rest_is_untouched(before, after, account_id),
        stopped is None ==> after == before,
        stopped matches Some(stopped) ==> {
            &&& stopped.cancel == before.accounts[account_id].cancel
            &&& stopped.task == before.accounts[account_id].task_handle
            &&& stopped.timeout_secs == 5
            &&& stopped.first == (StopAction::Cancel { task_known: stopped.task is Some })
        },
{
    if !before.accounts.contains_key(account_id) {
        assert(before.accounts.remove(account_id) =~= before.accounts);
    }
}

/// An account that was started, whose task was stored and for which an HTTP handle
/// and a bot user were reported, is stopped by the cancel token with which it was
/// started and by that task.
pub proof fn law_stop_ends_what_start_began<H: Handles>(
    before: PluginView<H>,
    started: PluginView<H>,
    after: PluginView<H>,
    account_id: Seq<char>,
    config: Result<DiscordAccountConfig<H>, ChannelError>,
    cancel: H::CancelToken,
    launch: Result<GatewayLaunch, ChannelError>,
    task: H::TaskHandle,
    http: H::Http,
    bot_user_id: u64,
    stopped: Option<StoppedAccount<H>>,
)
    requires
        start_done(before, started, account_id, config, cancel, launch),
        launch is Ok,
        stop_done(
            started.with_task(account_id, task).with_http(account_id, http).with_bot_user(
                account_id,
                bot_user_id,
            ),
            after,
            account_id,
            stopped,
        ),
    ensures
        stopped matches Some(stopped) && stopped.cancel == cancel && stopped.task == Some(task),
        !after.accounts.contains_key(account_id),
        rest_is_untouched(before, after, account_id),
{
}

/// A configuration is replaced exactly if it could be read and the account is there.
/// An unreadable one is refused with its reason, whether or not the account is there,
/// and an unknown account by its identifier. A refusal changes nothing.
pub proof fn law_update_replaces_the_config<H: Handles>(
    before: PluginView<H>,
    after: PluginView<H>,
    account_id: Seq<char>,
    config: Result<DiscordAccountConfig<H>, ChannelError>,
    result: Result<(), ChannelError>,
)
    requires
        update_done(before, after, account_id, config, result),
    ensures
        result is Ok <==> config is Ok && before.accounts.contains_key(account_id),
        result is Ok ==> {
            &&& after.accounts.contains_key(account_id)
            &&& after.accounts[account_id].config == config->Ok_0
            &&& rest_is_untouched(before, after, account_id)
        },
        result matches Err(error) ==> {
            &&& after == before
            &&& config matches Err(unreadable) ==> error == unreadable
            &&& config is Ok ==> error@ == (ChannelErrorView::UnknownAccount { account_id })
        },
{
}

/// The health of an account is always reported, under the identifier that was asked
/// for: as connected exactly if the account is started and its bot user is known.
pub proof fn law_probe_reports_the_bot_user<H: Handles>(
    plugin: PluginView<H>,
    account_id: Seq<char>,
    snapshot: Result<ChannelHealthSnapshot, ChannelError>,
)
    requires
        probe_done(plugin, account_id, snapshot),
    ensures
        snapshot matches Ok(snapshot) && {
            &&& snapshot.account_id@ == account_id
            &&& snapshot.connected <==> plugin.accounts.contains_key(account_id)
                && plugin.accounts[account_id].bot_user_id is Some
            &&& snapshot.details is Some
            &&& snapshot.connected <==> snapshot.details->0@ == "gateway connected"@
            &&& !plugin.accounts.contains_key(account_id) <==> snapshot.details->0@
                == "account not started"@
        },
{
    reveal_strlit("gateway connected");
    reveal_strlit("account not started");
    reveal_strlit("connecting to Discord gateway...");
    assert("gateway connected"@[0] == 'g');
    assert("account not started"@[0] == 'a');
    assert("connecting to Discord gateway..."@[0] == 'c');
}


} // verus!
