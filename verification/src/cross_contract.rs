//! Routed cross-contract messaging with a FIFO queue, per-sender rate
//! limiting, optional callbacks and an audit trail per message.
//!
//! The host calls (target and callback invocations) are made by the caller of
//! this library; their outcomes are handed to [`CrossContractCommunication::process_next`].
use std::collections::HashMap;
use crate::common::copy_bytes;
use vstd::prelude::*;

verus! {

broadcast use vstd::std_specs::hash::group_hash_axioms;

/// An account or contract address, identified by a number.
pub type AccountId = u64;

/// A symbol (route key or method name), identified by a number.
pub type SymbolId = u64;

#[derive(Clone, Copy, Debug, PartialEq, Eq, Structural)]
pub enum CrossContractError {
    InvalidConfig,
    AlreadyInitialized,
    NotInitialized,
    Unauthorized,
    RouteNotFound,
    RouteDisabled,
    InvalidCallbackConfig,
    RateLimited,
    QueueEmpty,
    MessageNotFound,
    MessageNotQueued,
    TargetInvocationFailed,
    CallbackInvocationFailed,
    UnexpectedQueueState,
}

impl CrossContractError {
    /// The numeric error code of the contract interface.
    pub open spec fn spec_code(self) -> u32 {
        match self {
            CrossContractError::InvalidConfig => 1,
            CrossContractError::AlreadyInitialized => 2,
            CrossContractError::NotInitialized => 3,
            CrossContractError::Unauthorized => 4,
            CrossContractError::RouteNotFound => 5,
            CrossContractError::RouteDisabled => 6,
            CrossContractError::InvalidCallbackConfig => 7,
            CrossContractError::RateLimited => 8,
            CrossContractError::QueueEmpty => 9,
            CrossContractError::MessageNotFound => 10,
            CrossContractError::MessageNotQueued => 11,
            CrossContractError::TargetInvocationFailed => 12,
            CrossContractError::CallbackInvocationFailed => 13,
            CrossContractError::UnexpectedQueueState => 14,
        }
    }

    /// The numeric error code of the contract interface.
    pub fn code(&self) -> (r: u32)
        ensures
            r == self.spec_code(),
    {
        match self {
            CrossContractError::InvalidConfig => 1,
            CrossContractError::AlreadyInitialized => 2,
            CrossContractError::NotInitialized => 3,
            CrossContractError::Unauthorized => 4,
            CrossContractError::RouteNotFound => 5,
            CrossContractError::RouteDisabled => 6,
            CrossContractError::InvalidCallbackConfig => 7,
            CrossContractError::RateLimited => 8,
            CrossContractError::QueueEmpty => 9,
            CrossContractError::MessageNotFound => 10,
            CrossContractError::MessageNotQueued => 11,
            CrossContractError::TargetInvocationFailed => 12,
            CrossContractError::CallbackInvocationFailed => 13,
            CrossContractError::UnexpectedQueueState => 14,
        }
    }
}

#[derive(Clone, Copy, Debug, PartialEq, Eq, Structural)]
pub enum MessageStatus {
    Queued,
    Delivered,
    Failed,
    CallbackFailed,
}

#[derive(Clone, Copy, Debug, PartialEq, Eq, Structural)]
pub enum AuditAction {
    Enqueued,
    Routed,
    CallbackSucceeded,
    Delivered,
    Failed,
    CallbackFailed,
}

#[derive(Clone, Copy, Debug, PartialEq, Eq, Structural)]
pub struct RateLimitConfig {
    pub window_secs: u64,
    pub max_messages: u32,
}

#[derive(Clone, Copy, Debug, PartialEq, Eq, Structural)]
pub struct SenderWindow {
    pub window: u64,
    pub count: u32,
}

#[derive(Clone, Copy, Debug, PartialEq, Eq, Structural)]
pub struct RouteConfig {
    pub key: SymbolId,
    pub target_contract: AccountId,
    pub target_method: SymbolId,
    pub default_callback_contract: Option<AccountId>,
    pub default_callback_method: Option<SymbolId>,
    pub enabled: bool,
}

#[derive(Debug)]
pub struct Message {
    pub id: u64,
    pub route: SymbolId,
    pub sender: AccountId,
    pub payload: Vec<u8>,
    pub atomic: bool,
    pub target_contract: AccountId,
    pub target_method: SymbolId,
    pub callback_contract: Option<AccountId>,
    pub callback_method: Option<SymbolId>,
    pub status: MessageStatus,
    pub queued_at: u64,
    pub processed_at: Option<u64>,
    pub response: Option<Vec<u8>>,
    pub last_error: Option<u32>,
}

#[derive(Clone, Copy, Debug, PartialEq, Eq, Structural)]
pub struct AuditEntry {
    pub timestamp: u64,
    pub action: AuditAction,
    pub status: MessageStatus,
    pub error: Option<u32>,
}

#[derive(Debug)]
pub struct ProcessOutcome {
    pub message_id: u64,
    pub status: MessageStatus,
    pub response: Option<Vec<u8>>,
}

/// A call into a message's target: the contract, the method, and the
/// arguments in order (message id, sender, route, payload).
pub struct TargetCall {
    pub contract: AccountId,
    pub method: SymbolId,
    pub message_id: u64,
    pub sender: AccountId,
    pub route: SymbolId,
    pub payload: Vec<u8>,
}

/// A call into a message's callback: the contract, the method, and the
/// arguments in order (message id, route, the target's response, sender).
pub struct CallbackCall {
    pub contract: AccountId,
    pub method: SymbolId,
    pub message_id: u64,
    pub route: SymbolId,
    pub response: Vec<u8>,
    pub sender: AccountId,
}

/// The call that delivers message `m` to its target.
pub fn target_call(m: &Message) -> (r: TargetCall)
    ensures
        r.contract == m.target_contract,
        r.method == m.target_method,
        r.message_id == m.id,
        r.sender == m.sender,
        r.route == m.route,
        r.payload@ == m.payload@,
{
    TargetCall {
        contract: m.target_contract,
        method: m.target_method,
        message_id: m.id,
        sender: m.sender,
        route: m.route,
        payload: copy_bytes(&m.payload),
    }
}

/// The call that reports the target's `response` to the callback of
/// message `m`, when the message has one (contract and method).
pub fn callback_call(m: &Message, response: &Vec<u8>) -> (r: Option<CallbackCall>)
    ensures
        match (m.callback_contract, m.callback_method) {
            (Some(c), Some(meth)) => r matches Some(call) && call.contract == c && call.method == meth
                && call.message_id == m.id && call.route == m.route && call.response@ == response@
                && call.sender == m.sender,
            _ => r is None,
        },
{
    match (m.callback_contract, m.callback_method) {
        (Some(c), Some(meth)) => Some(
            CallbackCall {
                contract: c,
                method: meth,
                message_id: m.id,
                route: m.route,
                response: copy_bytes(response),
                sender: m.sender,
            },
        ),
        _ => None,
    }
}

/// The contract's storage.
pub struct CrossContractCommunication {
    pub admin: Option<AccountId>,
    pub rate_limit: Option<RateLimitConfig>,
    pub queue_head: Option<u64>,
    pub queue_tail: Option<u64>,
    pub next_message_id: Option<u64>,
    pub routes: HashMap<SymbolId, RouteConfig>,
    pub messages: HashMap<u64, Message>,
    pub audits: HashMap<u64, Vec<AuditEntry>>,
    pub queue_slots: HashMap<u64, u64>,
    pub sender_windows: HashMap<AccountId, SenderWindow>,
}

/// `o.unwrap_or(d)`.
pub open spec fn or_default(o: Option<u64>, d: u64) -> u64 {
    match o {
        Some(v) => v,
        None => d,
    }
}

/// A rate-limit configuration is valid when both the window and the quota are positive.
pub open spec fn spec_validate_rate_limit(window_secs: u64, max_messages: u32) -> Result<
    RateLimitConfig,
    CrossContractError,
> {
    if window_secs == 0 || max_messages == 0 {
        Err(CrossContractError::InvalidConfig)
    } else {
        Ok(RateLimitConfig { window_secs, max_messages })
    }
}

/// Success or the error of a result, without its value.
pub open spec fn unit_of<T>(r: Result<T, CrossContractError>) -> Result<(), CrossContractError> {
    match r {
        Ok(_) => Ok(()),
        Err(e) => Err(e),
    }
}

/// Checks a rate-limit configuration: both the window and the quota must be positive.
pub fn validate_rate_limit(window_secs: u64, max_messages: u32) -> (r: Result<
    RateLimitConfig,
    CrossContractError,
>)
    ensures
        r == spec_validate_rate_limit(window_secs, max_messages),
{
    if window_secs == 0 || max_messages == 0 {
        return Err(CrossContractError::InvalidConfig);
    }
    Ok(RateLimitConfig { window_secs, max_messages })
}

/// A callback is either fully given (contract and method) or absent.
pub open spec fn callback_pair_ok(c: Option<AccountId>, m: Option<SymbolId>) -> bool {
    c.is_some() == m.is_some()
}

/// Rejects a callback with only one of contract and method.
pub fn validate_callback_pair(c: &Option<AccountId>, m: &Option<SymbolId>) -> (r: Result<
    (),
    CrossContractError,
>)
    ensures
        r == (if callback_pair_ok(*c, *m) {
            Ok(())
        } else {
            Err(CrossContractError::InvalidCallbackConfig)
        }),
{
    match (c, m) {
        (None, None) | (Some(_), Some(_)) => Ok(()),
        _ => Err(CrossContractError::InvalidCallbackConfig),
    }
}

/// The callback a message uses: the one given with the message if any,
/// otherwise the route's default.
pub open spec fn spec_resolve_callback(
    route: RouteConfig,
    c: Option<AccountId>,
    m: Option<SymbolId>,
) -> Result<(Option<AccountId>, Option<SymbolId>), CrossContractError> {
    if !callback_pair_ok(c, m) || !callback_pair_ok(
        route.default_callback_contract,
        route.default_callback_method,
    ) {
        Err(CrossContractError::InvalidCallbackConfig)
    } else if c.is_some() {
        Ok((c, m))
    } else {
        Ok((route.default_callback_contract, route.default_callback_method))
    }
}

pub fn resolve_callback(route: &RouteConfig, c: Option<AccountId>, m: Option<SymbolId>) -> (r:
    Result<(Option<AccountId>, Option<SymbolId>), CrossContractError>)
    ensures
        r == spec_resolve_callback(*route, c, m),
{
    validate_callback_pair(&c, &m)?;
    validate_callback_pair(&route.default_callback_contract, &route.default_callback_method)?;
    if c.is_some() {
        Ok((c, m))
    } else {
        Ok((route.default_callback_contract, route.default_callback_method))
    }
}

/// The window record of a sender after one more message at time `now`, or
/// `None` when the sender has used up its quota in the current window.
pub open spec fn spec_next_window(
    config: RateLimitConfig,
    usage: Option<SenderWindow>,
    now: u64,
) -> Option<SenderWindow> {
    let current = (now / config.window_secs) as u64;
    match usage {
        Some(u) => if u.window == current {
            if u.count >= config.max_messages {
                None
            } else {
                Some(SenderWindow { window: current, count: (u.count + 1) as u32 })
            }
        } else {
            Some(SenderWindow { window: current, count: 1 })
        },
        None => Some(SenderWindow { window: current, count: 1 }),
    }
}

/// The audit trail of a message as stored (empty when none is stored).
pub open spec fn trail_of(audits: Map<u64, Vec<AuditEntry>>, id: u64) -> Seq<AuditEntry> {
    if audits.contains_key(id) {
        audits[id]@
    } else {
        Seq::empty()
    }
}

impl Message {
    /// `self` is `old` with status, processing time, response and last error replaced.
    pub open spec fn is_processed_from(
        self,
        old: Message,
        status: MessageStatus,
        now: u64,
        response: Option<Seq<u8>>,
        last_error: Option<u32>,
    ) -> bool {
        &&& self.id == old.id
        &&& self.route == old.route
        &&& self.sender == old.sender
        &&& self.payload@ == old.payload@
        &&& self.atomic == old.atomic
        &&& self.target_contract == old.target_contract
        &&& self.target_method == old.target_method
        &&& self.callback_contract == old.callback_contract
        &&& self.callback_method == old.callback_method
        &&& self.status == status
        &&& self.queued_at == old.queued_at
        &&& self.processed_at == Some(now)
        &&& match response {
            Some(r) => self.response.is_some() && self.response.unwrap()@ == r,
            None => self.response.is_none() == old.response.is_none() && (old.response.is_some()
                ==> self.response.unwrap()@ == old.response.unwrap()@),
        }
        &&& self.last_error == last_error
    }

    /// The message has a complete callback (contract and method).
    pub open spec fn has_callback(self) -> bool {
        self.callback_contract.is_some() && self.callback_method.is_some()
    }
}

impl CrossContractCommunication {
    /// Storage of a contract that has not been initialized.
    pub fn new() -> (r: Self)
        ensures
            r.admin.is_none(),
            r.rate_limit.is_none(),
            r.queue_head.is_none(),
            r.queue_tail.is_none(),
            r.next_message_id.is_none(),
            r.routes@ == Map::<SymbolId, RouteConfig>::empty(),
            r.messages@ == Map::<u64, Message>::empty(),
            r.audits@ == Map::<u64, Vec<AuditEntry>>::empty(),
            r.queue_slots@ == Map::<u64, u64>::empty(),
            r.sender_windows@ == Map::<AccountId, SenderWindow>::empty(),
    {
        CrossContractCommunication {
            admin: None,
            rate_limit: None,
            queue_head: None,
            queue_tail: None,
            next_message_id: None,
            routes: HashMap::new(),
            messages: HashMap::new(),
            audits: HashMap::new(),
            queue_slots: HashMap::new(),
            sender_windows: HashMap::new(),
        }
    }

    /// Number of queued messages: tail minus head, saturating at zero.
    pub open spec fn spec_queue_size(self) -> u64 {
        let h = or_default(self.queue_head, 0);
        let t = or_default(self.queue_tail, 0);
        if t >= h {
            (t - h) as u64
        } else {
            0
        }
    }

    /// All fields but the message map, audit map, queue head and queue slots are unchanged.
    pub open spec fn same_config(self, other: Self) -> bool {
        &&& self.admin == other.admin
        &&& self.rate_limit == other.rate_limit
        &&& self.routes@ == other.routes@
        &&& self.sender_windows@ == other.sender_windows@
        &&& self.next_message_id == other.next_message_id
        &&& self.queue_tail == other.queue_tail
    }

    /// Sets admin, rate limit, empty queue and the first message id.
    /// Errors: `AlreadyInitialized` when an admin is stored; `InvalidConfig`
    /// for a zero window or quota. On error nothing changes.
    pub fn initialize(&mut self, admin: AccountId, window_secs: u64, max_messages: u32) -> (r:
        Result<(), CrossContractError>)
        ensures
            old(self).admin.is_some() ==> r == Err::<(), _>(CrossContractError::AlreadyInitialized),
            old(self).admin.is_none() ==> r == unit_of(spec_validate_rate_limit(window_secs, max_messages)),
            r.is_err() ==> *final(self) == *old(self),
            r.is_ok() ==> {
                &&& final(self).admin == Some(admin)
                &&& final(self).rate_limit == Some(RateLimitConfig { window_secs, max_messages })
                &&& final(self).queue_head == Some(0u64)
                &&& final(self).queue_tail == Some(0u64)
                &&& final(self).next_message_id == Some(1u64)
                &&& final(self).routes == old(self).routes
                &&& final(self).messages == old(self).messages
                &&& final(self).audits == old(self).audits
                &&& final(self).queue_slots == old(self).queue_slots
                &&& final(self).sender_windows == old(self).sender_windows
            },
    {
        if self.admin.is_some() {
            return Err(CrossContractError::AlreadyInitialized);
        }
        let config = validate_rate_limit(window_secs, max_messages)?;
        self.admin = Some(admin);
        self.rate_limit = Some(config);
        self.queue_head = Some(0);
        self.queue_tail = Some(0);
        self.next_message_id = Some(1);
        Ok(())
    }

    /// Fails with `NotInitialized` unless an admin is stored.
    pub fn ensure_initialized(&self) -> (r: Result<(), CrossContractError>)
        ensures
            r == (if self.admin.is_some() {
                Ok(())
            } else {
                Err(CrossContractError::NotInitialized)
            }),
    {
        if self.admin.is_none() {
            return Err(CrossContractError::NotInitialized);
        }
        Ok(())
    }

    /// The stored admin must be `admin`.
    pub open spec fn spec_require_admin(self, admin: AccountId) -> Result<(), CrossContractError> {
        match self.admin {
            None => Err(CrossContractError::NotInitialized),
            Some(a) => if a == admin {
                Ok(())
            } else {
                Err(CrossContractError::Unauthorized)
            },
        }
    }

    pub fn require_admin(&self, admin: AccountId) -> (r: Result<(), CrossContractError>)
        ensures
            r == self.spec_require_admin(admin),
    {
        self.ensure_initialized()?;
        match self.admin {
            Some(a) => if a != admin {
                Err(CrossContractError::Unauthorized)
            } else {
                Ok(())
            },
            None => Err(CrossContractError::NotInitialized),
        }
    }

    /// Replaces the rate limit (admin only).
    pub fn set_rate_limit(&mut self, admin: AccountId, window_secs: u64, max_messages: u32) -> (r:
        Result<(), CrossContractError>)
        ensures
            r == (match old(self).spec_require_admin(admin) {
                Err(e) => Err(e),
                Ok(_) => unit_of(spec_validate_rate_limit(window_secs, max_messages)),
            }),
            r.is_err() ==> *final(self) == *old(self),
            r.is_ok() ==> *final(self) == (CrossContractCommunication {
                rate_limit: Some(RateLimitConfig { window_secs, max_messages }),
                ..*old(self)
            }),
    {
        self.require_admin(admin)?;
        let config = validate_rate_limit(window_secs, max_messages)?;
        self.rate_limit = Some(config);
        Ok(())
    }

    /// The stored rate limit, if any, has a positive window and quota (as
    /// `initialize` and `set_rate_limit` ensure).
    pub open spec fn wf(self) -> bool {
        self.rate_limit matches Some(c) ==> c.window_secs > 0 && c.max_messages > 0
    }

    /// Registers (or replaces) a route, enabled (admin only).
    pub fn register_route(
        &mut self,
        admin: AccountId,
        key: SymbolId,
        target_contract: AccountId,
        target_method: SymbolId,
        callback_contract: Option<AccountId>,
        callback_method: Option<SymbolId>,
    ) -> (r: Result<(), CrossContractError>)
        ensures
            r == (match old(self).spec_require_admin(admin) {
                Err(e) => Err(e),
                Ok(_) => if callback_pair_ok(callback_contract, callback_method) {
                    Ok(())
                } else {
                    Err(CrossContractError::InvalidCallbackConfig)
                },
            }),
            r.is_err() ==> *final(self) == *old(self),
            r.is_ok() ==> {
                &&& final(self).routes@ == old(self).routes@.insert(
                    key,
                    RouteConfig {
                        key,
                        target_contract,
                        target_method,
                        default_callback_contract: callback_contract,
                        default_callback_method: callback_method,
                        enabled: true,
                    },
                )
                &&& final(self).admin == old(self).admin
                &&& final(self).rate_limit == old(self).rate_limit
                &&& final(self).queue_head == old(self).queue_head
                &&& final(self).queue_tail == old(self).queue_tail
                &&& final(self).next_message_id == old(self).next_message_id
                &&& final(self).messages == old(self).messages
                &&& final(self).audits == old(self).audits
                &&& final(self).queue_slots == old(self).queue_slots
                &&& final(self).sender_windows == old(self).sender_windows
            },
    {
        self.require_admin(admin)?;
        validate_callback_pair(&callback_contract, &callback_method)?;
        let route = RouteConfig {
            key,
            target_contract,
            target_method,
            default_callback_contract: callback_contract,
            default_callback_method: callback_method,
            enabled: true,
        };
        self.routes.insert(key, route);
        Ok(())
    }

    /// Enables or disables a registered route (admin only).
    pub fn set_route_enabled(&mut self, admin: AccountId, key: SymbolId, enabled: bool) -> (r:
        Result<(), CrossContractError>)
        ensures
            r == (match old(self).spec_require_admin(admin) {
                Err(e) => Err(e),
                Ok(_) => if old(self).routes@.contains_key(key) {
                    Ok(())
                } else {
                    Err(CrossContractError::RouteNotFound)
                },
            }),
            r.is_err() ==> *final(self) == *old(self),
            r.is_ok() ==> {
                &&& final(self).routes@ == old(self).routes@.insert(
                    key,
                    RouteConfig { enabled, ..old(self).routes@[key] },
                )
                &&& final(self).admin == old(self).admin
                &&& final(self).rate_limit == old(self).rate_limit
                &&& final(self).queue_head == old(self).queue_head
                &&& final(self).queue_tail == old(self).queue_tail
                &&& final(self).next_message_id == old(self).next_message_id
                &&& final(self).messages == old(self).messages
                &&& final(self).audits == old(self).audits
                &&& final(self).queue_slots == old(self).queue_slots
                &&& final(self).sender_windows == old(self).sender_windows
            },
    {
        self.require_admin(admin)?;
        let mut route = match self.routes.get(&key) {
            Some(r) => *r,
            None => return Err(CrossContractError::RouteNotFound),
        };
        route.enabled = enabled;
        self.routes.insert(key, route);
        Ok(())
    }

    /// Counts one more message of `sender` against the rate limit.
    /// Errors: `NotInitialized` without a rate limit; `RateLimited` when the
    /// sender's quota for the current window is used up. On error nothing changes.
    pub fn enforce_rate_limit(&mut self, now: u64, sender: AccountId) -> (r: Result<
        (),
        CrossContractError,
    >)
        requires
            old(self).wf(),
        ensures
            match old(self).rate_limit {
                None => r == Err::<(), _>(CrossContractError::NotInitialized),
                Some(c) => match spec_next_window(
                    c,
                    map_get(old(self).sender_windows@, sender),
                    now,
                ) {
                    None => r == Err::<(), _>(CrossContractError::RateLimited),
                    Some(w) => r == Ok::<(), CrossContractError>(()) && final(self).sender_windows@
                        == old(self).sender_windows@.insert(sender, w),
                },
            },
            r.is_err() ==> *final(self) == *old(self),
            r.is_ok() ==> final(self).same_state_but_windows(*old(self)),
    {
        let config = match self.rate_limit {
            Some(c) => c,
            None => return Err(CrossContractError::NotInitialized),
        };
        let current_window = now / config.window_secs;
        let usage = match self.sender_windows.get(&sender) {
            Some(w) => *w,
            None => SenderWindow { window: current_window, count: 0 },
        };
        let next = if usage.window == current_window {
            if usage.count >= config.max_messages {
                return Err(CrossContractError::RateLimited);
            }
            SenderWindow { window: current_window, count: usage.count + 1 }
        } else {
            SenderWindow { window: current_window, count: 1 }
        };
        self.sender_windows.insert(sender, next);
        Ok(())
    }

    /// Everything but the sender windows is unchanged.
    pub open spec fn same_state_but_windows(self, old: Self) -> bool {
        &&& self.admin == old.admin
        &&& self.rate_limit == old.rate_limit
        &&& self.queue_head == old.queue_head
        &&& self.queue_tail == old.queue_tail
        &&& self.next_message_id == old.next_message_id
        &&& self.routes == old.routes
        &&& self.messages == old.messages
        &&& self.audits == old.audits
        &&& self.queue_slots == old.queue_slots
    }

    /// Hands out the next message id (starting at 1) and advances the counter.
    pub fn next_message_id(&mut self) -> (id: u64)
        requires
            or_default(old(self).next_message_id, 1) < u64::MAX,
        ensures
            id == or_default(old(self).next_message_id, 1),
            *final(self) == (CrossContractCommunication {
                next_message_id: Some((id + 1) as u64),
                ..*old(self)
            }),
    {
        let next = match self.next_message_id {
            Some(v) => v,
            None => 1,
        };
        self.next_message_id = Some(next + 1);
        next
    }

    /// `new` is this queue with `message_id` appended at the tail.
    pub open spec fn spec_pushed(self, new: Self, message_id: u64) -> bool {
        &&& new.queue_slots@ == self.queue_slots@.insert(or_default(self.queue_tail, 0), message_id)
        &&& new.queue_tail == Some((or_default(self.queue_tail, 0) + 1) as u64)
        &&& new.queue_head == self.queue_head
    }

    /// Appends `message_id` at the tail of the queue.
    pub fn push_queue(&mut self, message_id: u64)
        requires
            or_default(old(self).queue_tail, 0) < u64::MAX,
        ensures
            old(self).spec_pushed(*final(self), message_id),
            final(self).admin == old(self).admin,
            final(self).rate_limit == old(self).rate_limit,
            final(self).queue_head == old(self).queue_head,
            final(self).next_message_id == old(self).next_message_id,
            final(self).routes == old(self).routes,
            final(self).messages == old(self).messages,
            final(self).audits == old(self).audits,
            final(self).sender_windows == old(self).sender_windows,
    {
        let tail = match self.queue_tail {
            Some(v) => v,
            None => 0,
        };
        self.queue_slots.insert(tail, message_id);
        self.queue_tail = Some(tail + 1);
    }

    /// The message id at the head of the queue.
    pub open spec fn spec_peek_queue(self) -> Result<u64, CrossContractError> {
        let h = or_default(self.queue_head, 0);
        let t = or_default(self.queue_tail, 0);
        if h >= t {
            Err(CrossContractError::QueueEmpty)
        } else if self.queue_slots@.contains_key(h) {
            Ok(self.queue_slots@[h])
        } else {
            Err(CrossContractError::UnexpectedQueueState)
        }
    }

    pub fn peek_queue(&self) -> (r: Result<u64, CrossContractError>)
        ensures
            r == self.spec_peek_queue(),
    {
        let head = match self.queue_head {
            Some(v) => v,
            None => 0,
        };
        let tail = match self.queue_tail {
            Some(v) => v,
            None => 0,
        };
        if head >= tail {
            return Err(CrossContractError::QueueEmpty);
        }
        match self.queue_slots.get(&head) {
            Some(id) => Ok(*id),
            None => Err(CrossContractError::UnexpectedQueueState),
        }
    }

    /// Removes the head of the queue, which must hold `expected_message_id`.
    pub fn pop_queue(&mut self, expected_message_id: u64) -> (r: Result<(), CrossContractError>)
        requires
            or_default(old(self).queue_head, 0) < u64::MAX,
        ensures
            ({
                let h = or_default(old(self).queue_head, 0);
                if old(self).queue_slots@.contains_key(h) && old(self).queue_slots@[h]
                    == expected_message_id {
                    &&& r is Ok
                    &&& final(self).queue_slots@ == old(self).queue_slots@.remove(h)
                    &&& final(self).queue_head == Some((h + 1) as u64)
                    &&& final(self).queue_tail == old(self).queue_tail
                    &&& final(self).admin == old(self).admin
                    &&& final(self).rate_limit == old(self).rate_limit
                    &&& final(self).next_message_id == old(self).next_message_id
                    &&& final(self).routes == old(self).routes
                    &&& final(self).messages == old(self).messages
                    &&& final(self).audits == old(self).audits
                    &&& final(self).sender_windows == old(self).sender_windows
                } else {
                    r == Err::<(), _>(CrossContractError::UnexpectedQueueState) && *final(self)
                        == *old(self)
                }
            }),
    {
        let head = match self.queue_head {
            Some(v) => v,
            None => 0,
        };
        let actual = match self.queue_slots.get(&head) {
            Some(id) => *id,
            None => return Err(CrossContractError::UnexpectedQueueState),
        };
        if actual != expected_message_id {
            return Err(CrossContractError::UnexpectedQueueState);
        }
        self.queue_slots.remove(&head);
        self.queue_head = Some(head + 1);
        Ok(())
    }

    /// Number of queued messages (`NotInitialized` before initialization).
    pub fn get_queue_size(&self) -> (r: Result<u64, CrossContractError>)
        ensures
            r == (if self.admin.is_some() {
                Ok(self.spec_queue_size())
            } else {
                Err(CrossContractError::NotInitialized)
            }),
    {
        self.ensure_initialized()?;
        let head = match self.queue_head {
            Some(v) => v,
            None => 0,
        };
        let tail = match self.queue_tail {
            Some(v) => v,
            None => 0,
        };
        Ok(tail.saturating_sub(head))
    }

    /// The rate limit (`NotInitialized` before initialization).
    pub fn get_rate_limit(&self) -> (r: Result<RateLimitConfig, CrossContractError>)
        ensures
            r == (if self.admin.is_none() {
                Err(CrossContractError::NotInitialized)
            } else {
                match self.rate_limit {
                    Some(c) => Ok(c),
                    None => Err(CrossContractError::NotInitialized),
                }
            }),
    {
        self.ensure_initialized()?;
        match self.rate_limit {
            Some(c) => Ok(c),
            None => Err(CrossContractError::NotInitialized),
        }
    }

    /// The stored window record of a sender.
    pub fn get_sender_window(&self, sender: AccountId) -> (r: Option<SenderWindow>)
        ensures
            r == map_get(self.sender_windows@, sender),
    {
        match self.sender_windows.get(&sender) {
            Some(w) => Some(*w),
            None => None,
        }
    }

    /// The stored route of a key.
    pub fn get_route(&self, key: SymbolId) -> (r: Option<RouteConfig>)
        ensures
            r == map_get(self.routes@, key),
    {
        match self.routes.get(&key) {
            Some(w) => Some(*w),
            None => None,
        }
    }

    /// The stored message of an id.
    pub fn get_message(&self, message_id: u64) -> (r: Option<&Message>)
        ensures
            match r {
                Some(m) => self.messages@.contains_key(message_id) && *m
                    == self.messages@[message_id],
                None => !self.messages@.contains_key(message_id),
            },
    {
        self.messages.get(&message_id)
    }

    /// The audit trail of a message, oldest entry first.
    pub fn get_audit_trail(&self, message_id: u64) -> (r: Vec<AuditEntry>)
        ensures
            r@ == trail_of(self.audits@, message_id),
    {
        let mut out: Vec<AuditEntry> = Vec::new();
        match self.audits.get(&message_id) {
            Some(trail) => {
                let mut i: usize = 0;
                while i < trail.len()
                    invariant
                        i <= trail.len(),
                        out@ == trail@.subrange(0, i as int),
                    decreases trail.len() - i,
                {
                    out.push(trail[i]);
                    i = i + 1;
                    assert(out@ =~= trail@.subrange(0, i as int));
                }
                assert(trail@.subrange(0, trail.len() as int) =~= trail@);
            },
            None => {},
        }
        out
    }

    /// Appends an audit entry stamped `now` to a message's trail.
    pub fn append_audit(
        &mut self,
        now: u64,
        message_id: u64,
        action: AuditAction,
        status: MessageStatus,
        error: Option<u32>,
    )
        ensures
            final(self).audits@ == old(self).audits@.insert(
                message_id,
                final(self).audits@[message_id],
            ),
            final(self).audits@[message_id]@ == trail_of(old(self).audits@, message_id).push(
                AuditEntry { timestamp: now, action, status, error },
            ),
            final(self).same_state_but_audits(*old(self)),
    {
        let mut trail = match self.audits.remove(&message_id) {
            Some(t) => t,
            None => Vec::new(),
        };
        trail.push(AuditEntry { timestamp: now, action, status, error });
        self.audits.insert(message_id, trail);
        assert(self.audits@ =~= old(self).audits@.insert(message_id, self.audits@[message_id]));
    }

    /// Everything but the audit trails is unchanged.
    pub open spec fn same_state_but_audits(self, old: Self) -> bool {
        &&& self.admin == old.admin
        &&& self.rate_limit == old.rate_limit
        &&& self.queue_head == old.queue_head
        &&& self.queue_tail == old.queue_tail
        &&& self.next_message_id == old.next_message_id
        &&& self.routes == old.routes
        &&& self.messages == old.messages
        &&& self.queue_slots == old.queue_slots
        &&& self.sender_windows == old.sender_windows
    }

    /// The queue head as read by the contract (0 when absent).
    pub open spec fn head(self) -> u64 {
        or_default(self.queue_head, 0)
    }

    /// The outcome of `queue_message` before any change: the new id, or the error.
    pub open spec fn spec_queue_message(
        self,
        now: u64,
        sender: AccountId,
        route: SymbolId,
        callback_contract: Option<AccountId>,
        callback_method: Option<SymbolId>,
    ) -> Result<u64, CrossContractError> {
        if self.admin.is_none() {
            Err(CrossContractError::NotInitialized)
        } else if !self.routes@.contains_key(route) {
            Err(CrossContractError::RouteNotFound)
        } else if !self.routes@[route].enabled {
            Err(CrossContractError::RouteDisabled)
        } else {
            match spec_resolve_callback(self.routes@[route], callback_contract, callback_method) {
                Err(e) => Err(e),
                Ok(_) => match self.rate_limit {
                    None => Err(CrossContractError::NotInitialized),
                    Some(c) => match spec_next_window(
                        c,
                        map_get(self.sender_windows@, sender),
                        now,
                    ) {
                        None => Err(CrossContractError::RateLimited),
                        Some(_) => Ok(or_default(self.next_message_id, 1)),
                    },
                },
            }
        }
    }

    /// Queues a message on an enabled route, after the rate limit admits it.
    /// On success the message is stored as `Queued` under a fresh id, its id
    /// is appended to the queue, and its trail starts with `Enqueued`.
    pub fn queue_message(
        &mut self,
        now: u64,
        sender: AccountId,
        route: SymbolId,
        payload: Vec<u8>,
        atomic: bool,
        callback_contract: Option<AccountId>,
        callback_method: Option<SymbolId>,
    ) -> (r: Result<u64, CrossContractError>)
        requires
            old(self).wf(),
            or_default(old(self).next_message_id, 1) < u64::MAX,
            or_default(old(self).queue_tail, 0) < u64::MAX,
        ensures
            r == old(self).spec_queue_message(
                now,
                sender,
                route,
                callback_contract,
                callback_method,
            ),
            r.is_err() ==> *final(self) == *old(self),
            r matches Ok(id) ==> {
                let cfg = old(self).routes@[route];
                let cb = spec_resolve_callback(cfg, callback_contract, callback_method)->Ok_0;
                let tail = or_default(old(self).queue_tail, 0);
                let m = final(self).messages@[id];
                &&& final(self).next_message_id == Some((id + 1) as u64)
                &&& final(self).sender_windows@ == old(self).sender_windows@.insert(
                    sender,
                    spec_next_window(
                        old(self).rate_limit->Some_0,
                        map_get(old(self).sender_windows@, sender),
                        now,
                    )->Some_0,
                )
                &&& final(self).queue_slots@ == old(self).queue_slots@.insert(tail, id)
                &&& final(self).queue_tail == Some((tail + 1) as u64)
                &&& final(self).messages@ == old(self).messages@.insert(id, m)
                &&& m.id == id && m.route == route && m.sender == sender && m.payload@ == payload@
                &&& m.atomic == atomic && m.target_contract == cfg.target_contract
                &&& m.target_method == cfg.target_method
                &&& m.callback_contract == cb.0 && m.callback_method == cb.1
                &&& m.status == MessageStatus::Queued && m.queued_at == now
                &&& m.processed_at.is_none() && m.response.is_none() && m.last_error.is_none()
                &&& final(self).audits@ == old(self).audits@.insert(id, final(self).audits@[id])
                &&& final(self).audits@[id]@ == trail_of(old(self).audits@, id).push(
                    AuditEntry {
                        timestamp: now,
                        action: AuditAction::Enqueued,
                        status: MessageStatus::Queued,
                        error: None,
                    },
                )
                &&& final(self).admin == old(self).admin
                &&& final(self).rate_limit == old(self).rate_limit
                &&& final(self).routes == old(self).routes
                &&& final(self).queue_head == old(self).queue_head
            },
    {
        self.ensure_initialized()?;
        let route_cfg = match self.routes.get(&route) {
            Some(r) => *r,
            None => return Err(CrossContractError::RouteNotFound),
        };
        if !route_cfg.enabled {
            return Err(CrossContractError::RouteDisabled);
        }
        let (cb_contract, cb_method) = resolve_callback(
            &route_cfg,
            callback_contract,
            callback_method,
        )?;
        self.enforce_rate_limit(now, sender)?;
        let message_id = self.next_message_id();
        let message = Message {
            id: message_id,
            route,
            sender,
            payload,
            atomic,
            target_contract: route_cfg.target_contract,
            target_method: route_cfg.target_method,
            callback_contract: cb_contract,
            callback_method: cb_method,
            status: MessageStatus::Queued,
            queued_at: now,
            processed_at: None,
            response: None,
            last_error: None,
        };
        self.messages.insert(message_id, message);
        self.push_queue(message_id);
        self.append_audit(now, message_id, AuditAction::Enqueued, MessageStatus::Queued, None);
        Ok(message_id)
    }

    /// The message `process_next` would deliver, or the error it stops with.
    pub open spec fn spec_next_message(self) -> Result<u64, CrossContractError> {
        if self.admin.is_none() {
            Err(CrossContractError::NotInitialized)
        } else {
            match self.spec_peek_queue() {
                Err(e) => Err(e),
                Ok(id) => if !self.messages@.contains_key(id) {
                    Err(CrossContractError::MessageNotFound)
                } else if self.messages@[id].status != MessageStatus::Queued {
                    Err(CrossContractError::MessageNotQueued)
                } else {
                    Ok(id)
                },
            }
        }
    }

    /// The id of the message that `process_next` delivers next: the head of
    /// the queue, which must be stored and still queued.
    pub fn next_to_process(&self) -> (r: Result<u64, CrossContractError>)
        ensures
            r == self.spec_next_message(),
    {
        self.ensure_initialized()?;
        let id = self.peek_queue()?;
        match self.messages.get(&id) {
            None => Err(CrossContractError::MessageNotFound),
            Some(m) => if m.status != MessageStatus::Queued {
                Err(CrossContractError::MessageNotQueued)
            } else {
                Ok(id)
            },
        }
    }

    /// The queue lost its head slot and the head moved on by one.
    pub open spec fn popped_from(self, old: Self) -> bool {
        &&& self.queue_slots@ == old.queue_slots@.remove(old.head())
        &&& self.queue_head == Some((old.head() + 1) as u64)
        &&& self.queue_tail == old.queue_tail
    }

    /// Admin, rate limit, routes, id counter and sender windows are unchanged.
    pub open spec fn config_same(self, old: Self) -> bool {
        &&& self.admin == old.admin
        &&& self.rate_limit == old.rate_limit
        &&& self.routes == old.routes
        &&& self.next_message_id == old.next_message_id
        &&& self.sender_windows == old.sender_windows
    }

    /// Message `id` was replaced by its processed form.
    pub open spec fn message_processed(
        self,
        old: Self,
        id: u64,
        status: MessageStatus,
        now: u64,
        response: Option<Seq<u8>>,
        last_error: Option<u32>,
    ) -> bool {
        &&& self.messages@ == old.messages@.insert(id, self.messages@[id])
        &&& self.messages@[id].is_processed_from(
            old.messages@[id],
            status,
            now,
            response,
            last_error,
        )
    }

    /// The trail of message `id` grew by `entries`.
    pub open spec fn trail_extended(self, old: Self, id: u64, entries: Seq<AuditEntry>) -> bool {
        &&& self.audits@ == old.audits@.insert(id, self.audits@[id])
        &&& self.audits@[id]@ == trail_of(old.audits@, id) + entries
    }

    /// The trail entries of a delivered message.
    pub open spec fn delivered_entries(now: u64, with_callback: bool) -> Seq<AuditEntry> {
        let routed = AuditEntry {
            timestamp: now,
            action: AuditAction::Routed,
            status: MessageStatus::Queued,
            error: None,
        };
        let delivered = AuditEntry {
            timestamp: now,
            action: AuditAction::Delivered,
            status: MessageStatus::Delivered,
            error: None,
        };
        if with_callback {
            seq![
                routed,
                AuditEntry {
                    timestamp: now,
                    action: AuditAction::CallbackSucceeded,
                    status: MessageStatus::Queued,
                    error: None,
                },
                delivered,
            ]
        } else {
            seq![routed, delivered]
        }
    }

    /// Message `id` was delivered with `response`, popped from the queue and
    /// audited, and `r` reports it.
    pub open spec fn delivered(
        self,
        old: Self,
        r: Result<ProcessOutcome, CrossContractError>,
        now: u64,
        id: u64,
        response: Seq<u8>,
    ) -> bool {
        &&& r matches Ok(o) && o.message_id == id && o.status == MessageStatus::Delivered
            && o.response.is_some() && o.response.unwrap()@ == response
        &&& self.message_processed(old, id, MessageStatus::Delivered, now, Some(response), None)
        &&& self.trail_extended(
            old,
            id,
            Self::delivered_entries(now, old.messages@[id].has_callback()),
        )
        &&& self.popped_from(old)
        &&& self.config_same(old)
    }

    /// What processing message `id` does, given what the target call returned
    /// (`None` when it failed) and what the callback call returned (`None`
    /// when it failed; consulted only when the target answered and the message
    /// has a callback).
    pub open spec fn spec_processed(
        self,
        new: Self,
        r: Result<ProcessOutcome, CrossContractError>,
        now: u64,
        id: u64,
        target: Option<Seq<u8>>,
        callback: Option<bool>,
    ) -> bool {
        let m = self.messages@[id];
        match target {
            None => if m.atomic {
                r == Err::<ProcessOutcome, _>(CrossContractError::TargetInvocationFailed) && new
                    == self
            } else {
                &&& r == Err::<ProcessOutcome, _>(CrossContractError::TargetInvocationFailed)
                &&& new.message_processed(self, id, MessageStatus::Failed, now, None, Some(12))
                &&& new.trail_extended(
                    self,
                    id,
                    seq![
                        AuditEntry {
                            timestamp: now,
                            action: AuditAction::Failed,
                            status: MessageStatus::Failed,
                            error: Some(12u32),
                        },
                    ],
                )
                &&& new.popped_from(self)
                &&& new.config_same(self)
            },
            Some(resp) => if m.has_callback() && callback != Some(true) {
                if m.atomic {
                    r == Err::<ProcessOutcome, _>(CrossContractError::CallbackInvocationFailed)
                        && new == self
                } else {
                    &&& r == Err::<ProcessOutcome, _>(
                        CrossContractError::CallbackInvocationFailed,
                    )
                    &&& new.message_processed(
                        self,
                        id,
                        MessageStatus::CallbackFailed,
                        now,
                        Some(resp),
                        Some(13),
                    )
                    &&& new.trail_extended(
                        self,
                        id,
                        seq![
                            AuditEntry {
                                timestamp: now,
                                action: AuditAction::Routed,
                                status: MessageStatus::Queued,
                                error: None,
                            },
                            AuditEntry {
                                timestamp: now,
                                action: AuditAction::CallbackFailed,
                                status: MessageStatus::CallbackFailed,
                                error: Some(13u32),
                            },
                        ],
                    )
                    &&& new.popped_from(self)
                    &&& new.config_same(self)
                }
            } else {
                new.delivered(self, r, now, id, resp)
            },
        }
    }

    /// Delivers the message at the head of the queue. `target` is what the
    /// target contract returned (`None` when the call failed); `callback` is
    /// what the callback returned (`None` when the call failed), consulted
    /// only when the target answered and the message carries a callback.
    ///
    /// An atomic message that fails leaves everything unchanged. A non-atomic
    /// message that fails is recorded as `Failed` (target) or `CallbackFailed`
    /// (callback), leaves the queue and is audited, and the error is returned.
    pub fn process_next(
        &mut self,
        now: u64,
        target: Option<Vec<u8>>,
        callback: Option<bool>,
    ) -> (r: Result<ProcessOutcome, CrossContractError>)
        ensures
            match old(self).spec_next_message() {
                Err(e) => r == Err::<ProcessOutcome, _>(e) && *final(self) == *old(self),
                Ok(id) => old(self).spec_processed(
                    *final(self),
                    r,
                    now,
                    id,
                    opt_view(target),
                    callback,
                ),
            },
    {
        let id = self.next_to_process()?;
        let atomic = match self.messages.get(&id) {
            Some(m) => m.atomic,
            None => {
                proof {
                    assert(false);
                }
                return Err(CrossContractError::MessageNotFound);
            },
        };
        if atomic {
            self.process_atomic(now, id, target, callback)
        } else {
            self.process_non_atomic(now, id, target, callback)
        }
    }

    /// Processes the queued atomic message `id` at the head of the queue.
    pub fn process_atomic(
        &mut self,
        now: u64,
        id: u64,
        target: Option<Vec<u8>>,
        callback: Option<bool>,
    ) -> (r: Result<ProcessOutcome, CrossContractError>)
        requires
            old(self).spec_next_message() == Ok::<u64, CrossContractError>(id),
            old(self).messages@[id].atomic,
        ensures
            old(self).spec_processed(*final(self), r, now, id, opt_view(target), callback),
    {
        let response = match target {
            Some(resp) => resp,
            None => return Err(CrossContractError::TargetInvocationFailed),
        };
        let has_callback = match self.messages.get(&id) {
            Some(m) => m.callback_contract.is_some() && m.callback_method.is_some(),
            None => {
                proof {
                    assert(false);
                }
                false
            },
        };
        if has_callback {
            match callback {
                Some(true) => {},
                _ => return Err(CrossContractError::CallbackInvocationFailed),
            }
        }
        self.finish_delivery(now, id, response, has_callback)
    }

    /// Processes the queued non-atomic message `id` at the head of the queue.
    pub fn process_non_atomic(
        &mut self,
        now: u64,
        id: u64,
        target: Option<Vec<u8>>,
        callback: Option<bool>,
    ) -> (r: Result<ProcessOutcome, CrossContractError>)
        requires
            old(self).spec_next_message() == Ok::<u64, CrossContractError>(id),
            !old(self).messages@[id].atomic,
        ensures
            old(self).spec_processed(*final(self), r, now, id, opt_view(target), callback),
    {
        let response = match target {
            Some(resp) => resp,
            None => {
                let mut message = match self.messages.remove(&id) {
                    Some(m) => m,
                    None => {
                        proof {
                            assert(false);
                        }
                        return Err(CrossContractError::MessageNotFound);
                    },
                };
                message.status = MessageStatus::Failed;
                message.processed_at = Some(now);
                message.last_error = Some(12);
                self.messages.insert(id, message);
                assert(self.messages@ =~= old(self).messages@.insert(id, self.messages@[id]));
                let popped = self.pop_queue(id);
                assert(popped is Ok);
                self.append_audit(now, id, AuditAction::Failed, MessageStatus::Failed, Some(12));
                assert(self.audits@[id]@ =~= trail_of(old(self).audits@, id) + seq![
                    AuditEntry {
                        timestamp: now,
                        action: AuditAction::Failed,
                        status: MessageStatus::Failed,
                        error: Some(12u32),
                    },
                ]);
                return Err(CrossContractError::TargetInvocationFailed);
            },
        };
        let has_callback = match self.messages.get(&id) {
            Some(m) => m.callback_contract.is_some() && m.callback_method.is_some(),
            None => {
                proof {
                    assert(false);
                }
                false
            },
        };
        if has_callback {
            match callback {
                Some(true) => {},
                _ => {
                    self.append_audit(now, id, AuditAction::Routed, MessageStatus::Queued, None);
                    let ghost after_routed = *self;
                    let mut message = match self.messages.remove(&id) {
                        Some(m) => m,
                        None => {
                            proof {
                                assert(false);
                            }
                            return Err(CrossContractError::MessageNotFound);
                        },
                    };
                    message.status = MessageStatus::CallbackFailed;
                    message.processed_at = Some(now);
                    message.response = Some(response);
                    message.last_error = Some(13);
                    self.messages.insert(id, message);
                    assert(self.messages@ =~= old(self).messages@.insert(id, self.messages@[id]));
                    let popped = self.pop_queue(id);
                    assert(popped is Ok);
                    self.append_audit(
                        now,
                        id,
                        AuditAction::CallbackFailed,
                        MessageStatus::CallbackFailed,
                        Some(13),
                    );
                    assert(self.audits@ =~= old(self).audits@.insert(id, self.audits@[id]));
                    assert(self.audits@[id]@ =~= trail_of(old(self).audits@, id) + seq![
                        AuditEntry {
                            timestamp: now,
                            action: AuditAction::Routed,
                            status: MessageStatus::Queued,
                            error: None,
                        },
                        AuditEntry {
                            timestamp: now,
                            action: AuditAction::CallbackFailed,
                            status: MessageStatus::CallbackFailed,
                            error: Some(13u32),
                        },
                    ]);
                    return Err(CrossContractError::CallbackInvocationFailed);
                },
            }
        }
        self.finish_delivery(now, id, response, has_callback)
    }

    /// Marks message `id` delivered with `response`, pops it and audits it.
    fn finish_delivery(&mut self, now: u64, id: u64, response: Vec<u8>, has_callback: bool) -> (r:
        Result<ProcessOutcome, CrossContractError>)
        requires
            old(self).spec_next_message() == Ok::<u64, CrossContractError>(id),
            has_callback == old(self).messages@[id].has_callback(),
        ensures
            final(self).delivered(*old(self), r, now, id, response@),
    {
        self.append_audit(now, id, AuditAction::Routed, MessageStatus::Queued, None);
        if has_callback {
            self.append_audit(
                now,
                id,
                AuditAction::CallbackSucceeded,
                MessageStatus::Queued,
                None,
            );
        }
        let mut message = match self.messages.remove(&id) {
            Some(m) => m,
            None => {
                proof {
                    assert(false);
                }
                return Err(CrossContractError::MessageNotFound);
            },
        };
        let kept = copy_bytes(&response);
        message.status = MessageStatus::Delivered;
        message.processed_at = Some(now);
        message.response = Some(kept);
        message.last_error = None;
        self.messages.insert(id, message);
        assert(self.messages@ =~= old(self).messages@.insert(id, self.messages@[id]));
        let popped = self.pop_queue(id);
        assert(popped is Ok);
        self.append_audit(now, id, AuditAction::Delivered, MessageStatus::Delivered, None);
        assert(self.audits@ =~= old(self).audits@.insert(id, self.audits@[id]));
        assert(self.audits@[id]@ =~= trail_of(old(self).audits@, id) + Self::delivered_entries(
            now,
            has_callback,
        ));
        Ok(ProcessOutcome { message_id: id, status: MessageStatus::Delivered, response: Some(response) })
    }
}

/// The view of an optional byte string.
pub open spec fn opt_view(o: Option<Vec<u8>>) -> Option<Seq<u8>> {
    match o {
        Some(v) => Some(v@),
        None => None,
    }
}

/// The value a map holds for a key, if any.
pub open spec fn map_get<K, V>(m: Map<K, V>, k: K) -> Option<V> {
    if m.contains_key(k) {
        Some(m[k])
    } else {
        None
    }
}

/// The rate limit holds: whenever a message of a sender is let through, the
/// sender's count for the current window is at most the configured maximum
/// (it is one more than before in the same window, or 1 in a new one).
pub proof fn lemma_rate_limit_respected(config: RateLimitConfig, usage: Option<SenderWindow>, now: u64)
    requires
        config.window_secs > 0,
        config.max_messages > 0,
    ensures
        spec_next_window(config, usage, now) matches Some(n) ==> {
            &&& n.count <= config.max_messages
            &&& n.window == now / config.window_secs
            &&& n.count == (match usage {
                Some(u) => if u.window == n.window {
                    u.count + 1
                } else {
                    1
                },
                None => 1,
            })
        },
{
}

/// The queue is first in, first out: appending a message never changes
/// which message is delivered next, unless the queue was empty, in which
/// case the appended message is next.
pub proof fn lemma_queue_fifo(s: CrossContractCommunication, new: CrossContractCommunication, message_id: u64)
    requires
        s.spec_pushed(new, message_id),
        or_default(s.queue_head, 0) <= or_default(s.queue_tail, 0) < u64::MAX,
    ensures
        s.spec_peek_queue() is Ok ==> new.spec_peek_queue() == s.spec_peek_queue(),
        s.spec_peek_queue() == Err::<u64, CrossContractError>(CrossContractError::QueueEmpty) ==> new.spec_peek_queue()
            == Ok::<u64, CrossContractError>(message_id),
{
    let h = or_default(s.queue_head, 0);
    let t = or_default(s.queue_tail, 0);
    assert(or_default(new.queue_head, 0) == h);
    assert(or_default(new.queue_tail, 0) == t + 1);
    if h < t {
        assert(new.queue_slots@.contains_key(h) == s.queue_slots@.contains_key(h));
    }
}

} // verus!
