use vstd::prelude::*;
use crate::account::{
    Account, AccountKind, accounts_extraction, extract_account_ids, filter_accounts,
    filtered_accounts, find_account,
};
use crate::error::ClientError;
use crate::extract::{
    extract_challenge_token, extract_data_matrix_keys, json_string_array,
    spec_challenge_token_pattern, spec_matrix_keys_pattern,
};
use crate::summary::Summary;
use crate::text::{find_pattern_from, has_pattern, quoted_capture_after};
use crate::virtual_pad::{
    KeypadKeystroke, covered, first_uncovered_at, keystrokes_for, password_to_virtual_pad_keys,
};

verus! {

/// Lifecycle of one session: created bare, initialized by the pre-login
/// handshake, authenticated only once a success response was fully
/// received. One session serves one logical user request; it carries one
/// set of authentication cookies and must never be shared.
#[derive(Debug, PartialEq, Eq, Structural, Clone, Copy)]
pub enum SessionState {
    Uninitialized,
    Initialized,
    Authenticated,
}

/// The session state machine. The transport that actually fetches and
/// submits pages is a collaborator: it hands the response bodies to these
/// functions, which make every decision and account for every failure.
#[derive(Debug)]
pub struct Session {
    pub state: SessionState,
}

/// Everything the authentication endpoint is sent: the username, the
/// keystroke transcription of the password, and the challenge token bound
/// to the login page rendering. The plaintext password is absent.
#[derive(Debug)]
pub struct LoginSubmission {
    pub username: String,
    pub keys: Vec<KeypadKeystroke>,
    pub challenge_token: String,
}

/// The keypad slot identifiers a login page carries, when its attribute is
/// present and its payload decodes.
pub open spec fn page_slots(page: Seq<char>) -> Option<Seq<Seq<char>>> {
    match quoted_capture_after(page, spec_matrix_keys_pattern()) {
        None => None,
        Some(c) => json_string_array(c),
    }
}

/// The challenge token a login page carries, if any.
pub open spec fn page_token(page: Seq<char>) -> Option<Seq<char>> {
    quoted_capture_after(page, spec_challenge_token_pattern())
}

/// Marker of the second-factor step in an authentication response.
pub open spec fn spec_mfa_marker() -> Seq<char> {
    "/securisation"@
}

/// Marker of a response that bounced to the login flow: the session was
/// not (or no longer) authenticated server-side.
pub open spec fn spec_login_redirect_marker() -> Seq<char> {
    "/connexion"@
}

/// Attribute whose quoted value carries the remote side's order rejection
/// reason.
pub open spec fn spec_order_error_pattern() -> Seq<char> {
    "\"errorMessage\":\""@
}

/// How an authentication response is classified. A response that demands
/// the second factor is `MfaRequired`; one that re-renders the login form
/// (recognizable by a fresh challenge-token field) rejected the
/// credentials; anything else is success. Login on a session that is not
/// exactly `Initialized` is refused outright.
pub open spec fn login_result(s: SessionState, body: Seq<char>) -> Result<(), ClientError> {
    if s != SessionState::Initialized {
        Err(ClientError::Unauthorized)
    } else if has_pattern(body, spec_mfa_marker()) {
        Err(ClientError::MfaRequired)
    } else if has_pattern(body, spec_challenge_token_pattern()) {
        Err(ClientError::Unauthorized)
    } else {
        Ok(())
    }
}

/// The state after an authentication response: only a fully received
/// success response authenticates; an MFA demand or a rejection leaves the
/// state untouched.
pub open spec fn login_next_state(s: SessionState, body: Seq<char>) -> SessionState {
    if login_result(s, body) is Ok {
        SessionState::Authenticated
    } else {
        s
    }
}

/// Whether authenticated operations are allowed.
pub open spec fn accounts_allowed(s: SessionState) -> bool {
    s == SessionState::Authenticated
}

impl Session {
    /// A fresh, uninitialized session for one logical request.
    pub fn new() -> (r: Session)
        ensures
            r.state == SessionState::Uninitialized,
    {
        Session { state: SessionState::Uninitialized }
    }

    /// Record that the pre-login handshake completed and a valid pre-login
    /// context is held. Idempotent: repeating it is harmless, and it never
    /// demotes an authenticated session.
    pub fn init_session(&mut self)
        ensures
            final(self).state == (if old(self).state == SessionState::Uninitialized {
                SessionState::Initialized
            } else {
                old(self).state
            }),
    {
        if self.state == SessionState::Uninitialized {
            self.state = SessionState::Initialized;
        }
    }

    /// Logout or expiry: back to the bare state.
    pub fn reset(&mut self)
        ensures
            final(self).state == SessionState::Uninitialized,
    {
        self.state = SessionState::Uninitialized;
    }

    /// Build the credential submission from the login page: extract the
    /// keypad layout and the challenge token, then transcribe the
    /// password. Every failure aborts before anything is submitted: a
    /// missing or undecodable layout or token is a payload failure, and a
    /// password character without a slot surfaces as `SlotNotFound`.
    pub fn prepare_login(&self, login_page: &str, username: &str, password: &str) -> (r: Result<
        LoginSubmission,
        ClientError,
    >)
        ensures
            match r {
                Ok(sub) => {
                    &&& self.state == SessionState::Initialized
                    &&& page_slots(login_page@) matches Some(slots) && covered(slots, password@)
                        && keystrokes_for(slots, password@, sub.keys@)
                    &&& page_token(login_page@) == Some(sub.challenge_token@)
                    &&& sub.username@ == username@
                },
                Err(e) => {
                    &&& self.state != SessionState::Initialized ==> e == ClientError::Unauthorized
                    &&& self.state == SessionState::Initialized ==> match page_slots(login_page@) {
                        None => e == ClientError::MalformedPayload,
                        Some(slots) => match page_token(login_page@) {
                            None => e == ClientError::MalformedPayload,
                            Some(t) => !covered(slots, password@) && exists|j: int|
                                first_uncovered_at(slots, password@, j) && e
                                    == ClientError::SlotNotFound(password@[j]),
                        },
                    }
                },
            },
    {
        if self.state != SessionState::Initialized {
            return Err(ClientError::Unauthorized);
        }
        let slots = match extract_data_matrix_keys(login_page) {
            Err(_) => {
                return Err(ClientError::MalformedPayload);
            },
            Ok(v) => v,
        };
        let token = match extract_challenge_token(login_page) {
            Err(_) => {
                return Err(ClientError::MalformedPayload);
            },
            Ok(t) => t,
        };
        let keys = match password_to_virtual_pad_keys(&slots, password) {
            Err(e) => {
                return Err(e);
            },
            Ok(k) => k,
        };
        Ok(LoginSubmission { username: username.to_owned(), keys, challenge_token: token })
    }

    /// Classify the authentication response and advance the state machine.
    /// The state flips to `Authenticated` only on a fully received success
    /// response; an MFA demand or a credential rejection leaves it where
    /// it was.
    pub fn complete_login(&mut self, response_body: &str) -> (r: Result<(), ClientError>)
        ensures
            r == login_result(old(self).state, response_body@),
            final(self).state == login_next_state(old(self).state, response_body@),
    {
        if self.state != SessionState::Initialized {
            return Err(ClientError::Unauthorized);
        }
        match find_pattern_from(response_body, "/securisation", 0) {
            Some(_) => {
                return Err(ClientError::MfaRequired);
            },
            None => {},
        }
        match find_pattern_from(response_body, "name=\"challengeToken\" value=\"", 0) {
            Some(_) => {
                return Err(ClientError::Unauthorized);
            },
            None => {},
        }
        self.state = SessionState::Authenticated;
        Ok(())
    }

    /// Discover accounts from the overview page, optionally restricted to
    /// one kind. Refused as `Unauthorized` on a session that is not
    /// authenticated, and on a page that bounced back to the login flow; a
    /// page without a single account anchor means the layout changed, not
    /// that the user holds no accounts.
    pub fn get_accounts(&self, overview_page: &str, kind_filter: Option<AccountKind>) -> (r:
        Result<Vec<Account>, ClientError>)
        ensures
            match r {
                Ok(v) => {
                    &&& accounts_allowed(self.state)
                    &&& !has_pattern(overview_page@, spec_login_redirect_marker())
                    &&& exists|full: Seq<Account>|
                        #[trigger] accounts_extraction(overview_page@, full) && full.len() > 0
                            && v@ == filtered_accounts(full, kind_filter)
                },
                Err(e) => {
                    &&& !accounts_allowed(self.state) ==> e == ClientError::Unauthorized
                    &&& accounts_allowed(self.state) ==> {
                        if has_pattern(overview_page@, spec_login_redirect_marker()) {
                            e == ClientError::Unauthorized
                        } else {
                            e == ClientError::MalformedPayload && accounts_extraction(
                                overview_page@,
                                Seq::empty(),
                            )
                        }
                    }
                },
            },
    {
        if self.state != SessionState::Authenticated {
            return Err(ClientError::Unauthorized);
        }
        match find_pattern_from(overview_page, "/connexion", 0) {
            Some(_) => {
                return Err(ClientError::Unauthorized);
            },
            None => {},
        }
        let full = match extract_account_ids(overview_page) {
            Err(_) => {
                return Err(ClientError::MalformedPayload);
            },
            Ok(v) => v,
        };
        let ghost full_view = full@;
        let filtered = filter_accounts(full, kind_filter);
        proof {
            assert(accounts_extraction(overview_page@, full_view) && full_view.len() > 0
                && filtered@ == filtered_accounts(full_view, kind_filter));
        }
        Ok(filtered)
    }

    /// Accept the decoded trading summary of an account for an
    /// authenticated session. The segments pass through untouched — the
    /// caller flattens their positions, and nothing is deduplicated here.
    /// A summary that did not decode means the response shape changed.
    pub fn get_trading_summary(&self, parsed: Option<Vec<Summary>>) -> (r: Result<
        Vec<Summary>,
        ClientError,
    >)
        ensures
            match r {
                Ok(v) => accounts_allowed(self.state) && parsed == Some(v),
                Err(e) => {
                    if !accounts_allowed(self.state) {
                        e == ClientError::Unauthorized
                    } else {
                        e == ClientError::MalformedPayload && parsed is None
                    }
                },
            },
    {
        if self.state != SessionState::Authenticated {
            return Err(ClientError::Unauthorized);
        }
        match parsed {
            None => Err(ClientError::MalformedPayload),
            Some(v) => Ok(v),
        }
    }

    /// Validate an order against a freshly discovered list of trading
    /// accounts and build the submission value. The account must come from
    /// a discovery pass restricted to the trading kind, and the quantity
    /// must be positive.
    pub fn prepare_order(
        &self,
        accounts: &Vec<Account>,
        account_id: &str,
        side: OrderSide,
        symbol: &str,
        quantity: usize,
        limit_price: Option<u64>,
    ) -> (r: Result<Order, ClientError>)
        requires
            forall|k: int| 0 <= k < accounts@.len() ==> accounts@[k].kind == AccountKind::Trading,
            quantity >= 1,
        ensures
            match r {
                Ok(o) => {
                    &&& accounts_allowed(self.state)
                    &&& exists|j: int| 0 <= j < accounts@.len() && accounts@[j].id@ == account_id@
                    &&& o.side == side
                    &&& o.account_id@ == account_id@
                    &&& o.symbol@ == symbol@
                    &&& o.quantity == quantity
                    &&& o.limit_price == limit_price
                },
                Err(e) => {
                    &&& !accounts_allowed(self.state) ==> e == ClientError::Unauthorized
                    &&& accounts_allowed(self.state) ==> e == ClientError::AccountNotFound
                        && forall|j: int|
                        0 <= j < accounts@.len() ==> accounts@[j].id@ != account_id@
                },
            },
    {
        if self.state != SessionState::Authenticated {
            return Err(ClientError::Unauthorized);
        }
        let j = match find_account(accounts, account_id) {
            Err(e) => {
                return Err(e);
            },
            Ok(j) => j,
        };
        proof {
            assert(accounts@[j as int].id@ == account_id@);
        }
        Ok(
            Order {
                side,
                account_id: account_id.to_owned(),
                symbol: symbol.to_owned(),
                quantity,
                limit_price,
            },
        )
    }
}

/// Which way an order trades.
#[derive(Debug, PartialEq, Eq, Structural, Clone, Copy)]
pub enum OrderSide {
    Buy,
    Sell,
}

/// A validated order submission: constructed, submitted once, discarded.
#[derive(Debug)]
pub struct Order {
    pub side: OrderSide,
    pub account_id: String,
    pub symbol: String,
    pub quantity: usize,
    pub limit_price: Option<u64>,
}

/// Classify the order endpoint's response: a bounce to the login flow is
/// an expired session; a response carrying a rejection reason passes that
/// reason through; anything else is acceptance.
pub fn classify_order_response(response_body: &str) -> (r: Result<(), ClientError>)
    ensures
        match r {
            Ok(u) => !has_pattern(response_body@, spec_login_redirect_marker())
                && quoted_capture_after(response_body@, spec_order_error_pattern()) is None,
            Err(e) => {
                if has_pattern(response_body@, spec_login_redirect_marker()) {
                    e == ClientError::Unauthorized
                } else {
                    quoted_capture_after(response_body@, spec_order_error_pattern())
                        matches Some(msg) && e matches ClientError::OrderRejected(reason)
                        && reason@ == msg
                }
            },
        },
{
    match find_pattern_from(response_body, "/connexion", 0) {
        Some(_) => {
            return Err(ClientError::Unauthorized);
        },
        None => {},
    }
    match crate::text::capture_quoted(response_body, "\"errorMessage\":\"") {
        Some(msg) => Err(ClientError::OrderRejected(msg)),
        None => Ok(()),
    }
}

/// The operations the transport performs on the session layer's behalf.
#[derive(Debug, PartialEq, Eq, Structural, Clone, Copy)]
pub enum Operation {
    InitSession,
    Login,
    FetchAccounts,
    FetchTicks,
    SubmitOrder,
    FetchSummary,
}

/// How many transport attempts one logical call may spend on an operation.
/// Quote retrieval may retry once after a transient transport failure;
/// login gets one attempt (a repeated keypad submission risks an
/// anti-automation lockout); order submission gets exactly one attempt,
/// ever, so a duplicate order can never be placed by this layer.
pub open spec fn spec_max_attempts(op: Operation) -> nat {
    match op {
        Operation::FetchTicks => 2,
        _ => 1,
    }
}

pub open spec fn spec_should_retry(op: Operation, attempts_made: u32, transient: bool) -> bool {
    transient && (attempts_made as nat) < spec_max_attempts(op)
}

/// Decide whether the transport may try `op` again after `attempts_made`
/// attempts whose last failure was transient (`transient`) or final.
pub fn should_retry(op: Operation, attempts_made: u32, transient: bool) -> (b: bool)
    ensures
        b == spec_should_retry(op, attempts_made, transient),
{
    let max: u32 = match op {
        Operation::FetchTicks => 2,
        _ => 1,
    };
    transient && attempts_made < max
}

/// An order submission is issued at most once per logical call: after its
/// single permitted attempt the driver may never retry it, however the
/// attempt failed.
pub proof fn lemma_order_never_retried(attempts_made: u32, transient: bool)
    requires
        attempts_made >= 1,
    ensures
        !spec_should_retry(Operation::SubmitOrder, attempts_made, transient),
{
}

/// A login attempt classified as MFA-required leaves the session short of
/// `Authenticated`, so a following account listing is refused as
/// `Unauthorized` rather than silently succeeding.
pub proof fn lemma_mfa_blocks_accounts(state: SessionState, login_body: Seq<char>)
    requires
        login_result(state, login_body) == Err::<(), ClientError>(ClientError::MfaRequired),
    ensures
        !accounts_allowed(login_next_state(state, login_body)),
{
}

} // verus!
