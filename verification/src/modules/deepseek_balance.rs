//! The DeepSeek account balance module.
use vstd::prelude::*;

use crate::http_status::{is_success_spec, status_display, status_text_spec};
use crate::localtime::{is_hms, local_hms};
use crate::module_trait::{ModuleUpdate, PanelModule};
use crate::text::{push_str, str_eq, string_of};

verus! {

/// One entry of the balance answer.
#[derive(Debug, Clone)]
pub struct BalanceInfo {
    pub currency: String,
    pub total_balance: String,
    pub granted_balance: String,
    pub topped_up_balance: String,
}

/// The balance answer.
#[derive(Debug, Clone)]
pub struct BalanceResponse {
    pub is_available: bool,
    pub balance_infos: Vec<BalanceInfo>,
}

/// What came of one request for the balance.
#[derive(Debug, Clone)]
pub enum FetchOutcome {
    /// A success status, and the body read as a balance answer.
    Parsed(BalanceResponse),
    /// A success status, and the text of the error met reading the body.
    Unreadable(String),
    /// A status code that is not a success.
    Refused(u16),
    /// The text of the error that stopped the request.
    Failed(String),
}

/// What to do after a request.
#[derive(Debug, Clone, Copy, PartialEq, Eq, Structural)]
pub enum NextStep {
    /// Stop: the module shows what it has.
    Done,
    /// Wait this many seconds, then ask again.
    RetryAfter(u64),
}

/// Where the balance is asked for.
pub fn balance_url() -> (r: &'static str)
    ensures
        r@ == "https://api.deepseek.com/user/balance"@,
{
    "https://api.deepseek.com/user/balance"
}

/// The error text a failed request leaves.
pub open spec fn outcome_error(outcome: FetchOutcome) -> Option<Seq<char>> {
    match outcome {
        FetchOutcome::Parsed(_) => None,
        FetchOutcome::Unreadable(e) => Some("解析失败："@ + e@),
        FetchOutcome::Refused(code) => Some("API 错误："@ + status_text_spec(code, "<unknown status code>"@)),
        FetchOutcome::Failed(e) => Some("网络错误："@ + e@),
    }
}

/// The step after request number `attempt` (counted from 0): a refusal for
/// too many requests (429) is retried after 2 s, a failed request after
/// 1 s, each only after the first request; all else is done.
pub open spec fn next_step_spec(attempt: u32, outcome: FetchOutcome) -> NextStep {
    match outcome {
        FetchOutcome::Refused(code) => if code == 429 && attempt == 0 {
            NextStep::RetryAfter(2)
        } else {
            NextStep::Done
        },
        FetchOutcome::Failed(_) => if attempt == 0 {
            NextStep::RetryAfter(1)
        } else {
            NextStep::Done
        },
        _ => NextStep::Done,
    }
}

/// The first line of the balance box.
#[derive(Debug, Clone, PartialEq, Eq)]
pub enum Headline {
    /// The total balance with its currency.
    Balance(String),
    /// No balance yet, and the error.
    Failed(String),
    /// No balance yet and no error.
    Loading,
}

/// The balance figures shown: total, currency, granted, topped up.
pub struct DeepSeekBalanceModule {
    balance: String,
    currency: String,
    granted_balance: String,
    topped_up_balance: String,
    last_update: String,
    error: Option<String>,
    refresh_interval: u64,
    paused: bool,
    api_key: String,
}

impl DeepSeekBalanceModule {
    /// Total, currency, granted, topped up.
    pub closed spec fn figures(&self) -> (Seq<char>, Seq<char>, Seq<char>, Seq<char>) {
        (self.balance@, self.currency@, self.granted_balance@, self.topped_up_balance@)
    }

    pub closed spec fn key_text(&self) -> Seq<char> {
        self.api_key@
    }

    pub closed spec fn last_update_text(&self) -> Seq<char> {
        self.last_update@
    }

    pub fn new(api_key: String, refresh_interval: u64) -> (r: Self)
        ensures
            r.figures() == (Seq::<char>::empty(), "CNY"@, Seq::<char>::empty(), Seq::<char>::empty()),
            r.key_text() == api_key@,
            r.last_update_text() == Seq::<char>::empty(),
            r.spec_error() is None,
            r.spec_stored_interval() == refresh_interval,
            !r.spec_paused(),
    {
        DeepSeekBalanceModule {
            balance: String::new(),
            currency: "CNY".to_owned(),
            granted_balance: String::new(),
            topped_up_balance: String::new(),
            last_update: String::new(),
            error: None,
            refresh_interval,
            paused: false,
            api_key,
        }
    }

    /// The `Authorization` header's value: `Bearer ` and the key.
    pub fn authorization(&self) -> (r: String)
        ensures
            r@ == "Bearer "@ + self.key_text(),
    {
        let mut v: Vec<char> = Vec::new();
        push_str(&mut v, "Bearer ");
        push_str(&mut v, self.api_key.as_str());
        string_of(&v)
    }

    /// Records what came of request number `attempt` (counted from 0) and
    /// says what to do next. A balance answer shows its first entry (if it
    /// has one), is stamped with the local time and clears the error; any
    /// other outcome leaves its error text and the figures as they were.
    pub fn record_attempt(&mut self, attempt: u32, outcome: FetchOutcome) -> (r: NextStep)
        requires
            match outcome {
                FetchOutcome::Refused(code) => 100 <= code <= 999 && !is_success_spec(code),
                _ => true,
            },
        ensures
            r == next_step_spec(attempt, outcome),
            final(self).spec_error() == outcome_error(outcome),
            match outcome {
                FetchOutcome::Parsed(data) => {
                    &&& final(self).figures() == (if data.balance_infos@.len() > 0 {
                        (
                            data.balance_infos@[0].total_balance@,
                            data.balance_infos@[0].currency@,
                            data.balance_infos@[0].granted_balance@,
                            data.balance_infos@[0].topped_up_balance@,
                        )
                    } else {
                        old(self).figures()
                    })
                    &&& is_hms(final(self).last_update_text())
                },
                _ => final(self).figures() == old(self).figures() && final(self).last_update_text()
                    == old(self).last_update_text(),
            },
            final(self).key_text() == old(self).key_text(),
            final(self).spec_stored_interval() == old(self).spec_stored_interval(),
            final(self).spec_paused() == old(self).spec_paused(),
    {
        match outcome {
            FetchOutcome::Parsed(data) => {
                if data.balance_infos.len() > 0 {
                    let info = &data.balance_infos[0];
                    self.balance = info.total_balance.clone();
                    self.currency = info.currency.clone();
                    self.granted_balance = info.granted_balance.clone();
                    self.topped_up_balance = info.topped_up_balance.clone();
                }
                self.last_update = local_hms();
                self.error = None;
                NextStep::Done
            },
            FetchOutcome::Unreadable(e) => {
                let mut v: Vec<char> = Vec::new();
                push_str(&mut v, "解析失败：");
                push_str(&mut v, e.as_str());
                self.error = Some(string_of(&v));
                NextStep::Done
            },
            FetchOutcome::Refused(code) => {
                let mut v: Vec<char> = Vec::new();
                push_str(&mut v, "API 错误：");
                push_str(&mut v, status_display(code).as_str());
                self.error = Some(string_of(&v));
                if code == 429 && attempt == 0 {
                    NextStep::RetryAfter(2)
                } else {
                    NextStep::Done
                }
            },
            FetchOutcome::Failed(e) => {
                let mut v: Vec<char> = Vec::new();
                push_str(&mut v, "网络错误：");
                push_str(&mut v, e.as_str());
                self.error = Some(string_of(&v));
                if attempt == 0 {
                    NextStep::RetryAfter(1)
                } else {
                    NextStep::Done
                }
            },
        }
    }

    /// The result of an update: a success unless there is an error, which it
    /// carries.
    pub fn update_result(&self) -> (r: ModuleUpdate)
        ensures
            r.id@ == "deepseek_balance"@,
            r.success == (self.spec_error() is None),
            match r.error {
                Some(e) => self.spec_error() == Some(e@),
                None => self.spec_error() is None,
            },
    {
        ModuleUpdate {
            id: "deepseek_balance".to_owned(),
            success: self.error.is_none(),
            error: match &self.error {
                Some(e) => Some(e.clone()),
                None => None,
            },
        }
    }

    /// When the module last took its readings (`%H:%M:%S`), or nothing yet.
    pub fn last_update(&self) -> (r: &str)
        ensures
            r@ == self.last_update_text(),
    {
        self.last_update.as_str()
    }

    /// Whether there is a balance to show.
    pub fn shows_data(&self) -> (r: bool)
        ensures
            r == (self.figures().0.len() > 0),
    {
        proof {
            reveal_strlit("");
        }
        assert(self.balance@.len() == 0 ==> self.balance@ =~= ""@);
        !str_eq(self.balance.as_str(), "")
    }

    /// An amount with the currency after a space.
    fn with_currency(&self, amount: &str) -> (r: String)
        ensures
            r@ == amount@ + " "@ + self.figures().1,
    {
        let mut v: Vec<char> = Vec::new();
        push_str(&mut v, amount);
        push_str(&mut v, " ");
        push_str(&mut v, self.currency.as_str());
        string_of(&v)
    }

    /// The total balance and the currency.
    pub fn total_text(&self) -> (r: String)
        ensures
            r@ == self.figures().0 + " "@ + self.figures().1,
    {
        self.with_currency(self.balance.as_str())
    }

    /// The granted balance and the currency.
    pub fn granted_text(&self) -> (r: String)
        ensures
            r@ == self.figures().2 + " "@ + self.figures().1,
    {
        self.with_currency(self.granted_balance.as_str())
    }

    /// The topped-up balance and the currency.
    pub fn topped_up_text(&self) -> (r: String)
        ensures
            r@ == self.figures().3 + " "@ + self.figures().1,
    {
        self.with_currency(self.topped_up_balance.as_str())
    }

    /// The first line: the total when there is one, else the error, else
    /// the loading notice.
    pub fn headline(&self) -> (r: Headline)
        ensures
            self.figures().0.len() > 0 ==> (r matches Headline::Balance(t) && t@ == self.figures().0
                + " "@ + self.figures().1),
            self.figures().0.len() == 0 ==> match self.spec_error() {
                Some(e) => r matches Headline::Failed(t) && t@ == e,
                None => r matches Headline::Loading,
            },
    {
        if self.shows_data() {
            Headline::Balance(self.total_text())
        } else {
            match &self.error {
                Some(e) => Headline::Failed(e.clone()),
                None => Headline::Loading,
            }
        }
    }

    /// The warning under the figures: the error, when a balance is shown
    /// beside it.
    pub fn warning(&self) -> (r: Option<String>)
        ensures
            match r {
                Some(t) => self.figures().0.len() > 0 && self.spec_error() == Some(t@),
                None => self.figures().0.len() == 0 || self.spec_error() is None,
            },
    {
        if self.shows_data() {
            match &self.error {
                Some(e) => Some(e.clone()),
                None => None,
            }
        } else {
            None
        }
    }

    pub fn pause_line(&self) -> (r: String)
        ensures
            r@ == super::pause_label_spec(self.spec_paused(), self.spec_stored_interval()),
    {
        super::pause_label(self.paused, self.refresh_interval)
    }
}

impl PanelModule for DeepSeekBalanceModule {
    open spec fn spec_id(&self) -> Seq<char> {
        "deepseek_balance"@
    }

    open spec fn spec_name(&self) -> Seq<char> {
        "💰 DeepSeek 余额"@
    }

    closed spec fn spec_stored_interval(&self) -> u64 {
        self.refresh_interval
    }

    closed spec fn spec_paused(&self) -> bool {
        self.paused
    }

    open spec fn spec_height(&self) -> u16 {
        7
    }

    closed spec fn spec_error(&self) -> Option<Seq<char>> {
        match self.error {
            Some(e) => Some(e@),
            None => None,
        }
    }

    fn id(&self) -> (r: &str) {
        "deepseek_balance"
    }

    fn name(&self) -> (r: &str) {
        "💰 DeepSeek 余额"
    }

    fn refresh_interval(&self) -> (r: u64) {
        if self.paused {
            0
        } else {
            self.refresh_interval
        }
    }

    /// Sets the interval; a positive interval resumes, 0 leaves the pause
    /// switch as it was.
    fn set_refresh_interval(&mut self, interval: u64)
        ensures
            final(self).spec_paused() == (if interval > 0 { false } else { old(self).spec_paused() }),
    {
        self.refresh_interval = interval;
        if interval > 0 {
            self.paused = false;
        }
    }

    fn toggle_pause(&mut self) {
        self.paused = !self.paused;
    }

    fn height(&self) -> (r: u16) {
        7
    }

    fn get_error(&self) -> (r: Option<&str>) {
        match &self.error {
            Some(e) => Some(e.as_str()),
            None => None,
        }
    }
}

/// The balance is asked for at most twice per update: after the second
/// request (number 1) the step is always `Done`.
pub proof fn law_at_most_two_requests(attempt: u32, outcome: FetchOutcome)
    requires
        attempt >= 1,
    ensures
        next_step_spec(attempt, outcome) == NextStep::Done,
{
}

} // verus!
