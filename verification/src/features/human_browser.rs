//! The Human Browser: its navigation policy, its shell-visible status, its
//! typed errors and its activity clock. The webview itself lives in the
//! application shell and consumes these decisions.
use vstd::prelude::*;
use vstd::rwlock::RwLock;
use std::sync::Arc;
use std::path::PathBuf;
use std::time::Instant;
use crate::provider::credential::AnyContents;
use crate::text::{owned, text_eq};
use crate::time::{clock_elapsed, clock_now, whole_secs};

pub mod policy;

verus! {

/// The shell-visible status of the Human Browser.
#[derive(Debug, PartialEq, Eq)]
pub struct HumanStatus {
    pub role: policy::BrowserRole,
    pub visible: bool,
    pub url: Option<String>,
    pub title: Option<String>,
    pub can_go_back: bool,
    pub can_go_forward: bool,
    pub last_denial: Option<String>,
}

/// A status as plain values.
pub struct HumanStatusView {
    pub visible: bool,
    pub url: Option<Seq<char>>,
    pub title: Option<Seq<char>>,
    pub can_go_back: bool,
    pub can_go_forward: bool,
    pub last_denial: Option<Seq<char>>,
}

pub open spec fn opt_text(o: Option<String>) -> Option<Seq<char>> {
    match o {
        Some(s) => Some(s@),
        None => None,
    }
}

impl View for HumanStatus {
    type V = HumanStatusView;

    open spec fn view(&self) -> HumanStatusView {
        HumanStatusView {
            visible: self.visible,
            url: opt_text(self.url),
            title: opt_text(self.title),
            can_go_back: self.can_go_back,
            can_go_forward: self.can_go_forward,
            last_denial: opt_text(self.last_denial),
        }
    }
}

fn clone_text(o: &Option<String>) -> (r: Option<String>)
    ensures
        opt_text(r) == opt_text(*o),
{
    match o {
        Some(s) => Some(s.clone()),
        None => None,
    }
}

impl Clone for HumanStatus {
    fn clone(&self) -> (r: Self)
        ensures
            r@ == self@,
    {
        HumanStatus {
            role: self.role,
            visible: self.visible,
            url: clone_text(&self.url),
            title: clone_text(&self.title),
            can_go_back: self.can_go_back,
            can_go_forward: self.can_go_forward,
            last_denial: clone_text(&self.last_denial),
        }
    }
}

impl Default for HumanStatus {
    fn default() -> (r: Self)
        ensures
            r@ == (HumanStatusView {
                visible: false,
                url: None,
                title: None,
                can_go_back: false,
                can_go_forward: false,
                last_denial: None,
            }),
    {
        HumanStatus {
            role: policy::BrowserRole::Human,
            visible: false,
            url: None,
            title: None,
            can_go_back: false,
            can_go_forward: false,
            last_denial: None,
        }
    }
}

impl HumanStatus {
    /// Records why a navigation was refused.
    pub fn record_denial(&mut self, code: &str)
        ensures
            final(self)@ == (HumanStatusView { last_denial: Some(code@), ..old(self)@ }),
    {
        self.last_denial = Some(owned(code));
    }

    /// Records an allowed navigation target; any earlier refusal is cleared.
    pub fn record_allowed(&mut self, candidate: &str)
        ensures
            final(self)@ == (HumanStatusView { url: Some(candidate@), last_denial: None, ..old(self)@ }),
    {
        self.url = Some(owned(candidate));
        self.last_denial = None;
    }

    /// Records the page title the view reports.
    pub fn record_title(&mut self, title: &str)
        ensures
            final(self)@ == (HumanStatusView { title: Some(title@), ..old(self)@ }),
    {
        self.title = Some(owned(title));
    }

    /// Records a view just shown on `url`.
    pub fn record_shown(&mut self, url: &str)
        ensures
            final(self)@ == (HumanStatusView { visible: true, url: Some(url@), ..old(self)@ }),
    {
        self.visible = true;
        self.url = Some(owned(url));
    }

    /// Records what the live view reports: its address and its history.
    pub fn record_live(&mut self, url: Option<String>, can_go_back: bool, can_go_forward: bool)
        ensures
            final(self)@ == (HumanStatusView {
                visible: true,
                url: opt_text(url),
                can_go_back,
                can_go_forward,
                ..old(self)@
            }),
    {
        self.visible = true;
        self.url = url;
        self.can_go_back = can_go_back;
        self.can_go_forward = can_go_forward;
    }

    /// Applies the policy to a navigation target before it reaches the view:
    /// an allowed target passes; an external or denied one is refused with
    /// its code, which is recorded as the last denial.
    pub fn gate(&mut self, url: &str) -> (r: Result<(), String>)
        ensures
            match policy::navigation_of(policy::url_parts(url@)) {
                policy::DecisionView::Allow => r is Ok && final(self)@ == old(self)@,
                policy::DecisionView::OpenExternal => (r matches Err(c) && c@ == "human_external_open"@)
                    && final(self)@ == (HumanStatusView {
                        last_denial: Some("human_external_open"@),
                        ..old(self)@
                    }),
                policy::DecisionView::Deny(code) => (r matches Err(c) && c@ == code)
                    && final(self)@ == (HumanStatusView { last_denial: Some(code), ..old(self)@ }),
            },
    {
        match policy::decide_navigation(url) {
            policy::NavigationDecision::Allow => Ok(()),
            policy::NavigationDecision::OpenExternal => {
                self.record_denial("human_external_open");
                Err(owned("human_external_open"))
            },
            policy::NavigationDecision::Deny { code } => {
                self.record_denial(code.as_str());
                Err(code)
            },
        }
    }
}

/// A typed Human Browser error: a stable code and a plain message.
#[derive(Debug, PartialEq, Eq)]
pub struct HumanError {
    pub code: String,
    pub message: String,
}

/// The plain message of each error code.
pub open spec fn human_error_text(code: Seq<char>) -> Seq<char> {
    if code == "human_scheme_denied"@ {
        "This link type is not opened in the browser."@
    } else if code == "human_userinfo_denied"@ {
        "Links with embedded credentials are not opened."@
    } else if code == "human_url_invalid"@ {
        "That address is not valid."@
    } else if code == "human_external_open"@ {
        "This link opens outside BrainRoot."@
    } else if code == "human_popup_denied"@ {
        "Popups are blocked."@
    } else if code == "human_download_denied"@ {
        "Downloads are blocked in this version."@
    } else if code == "human_view_failed"@ {
        "The browser view could not be shown."@
    } else if code == "human_view_not_visible"@ {
        "The browser is not visible."@
    } else if code == "human_profile_unavailable"@ {
        "BrainRoot could not prepare the browser profile."@
    } else {
        "The browser request could not be completed."@
    }
}

impl HumanError {
    pub fn new(code: &str, message: &str) -> (r: Self)
        ensures
            r.code@ == code@,
            r.message@ == message@,
    {
        HumanError { code: owned(code), message: owned(message) }
    }

    pub fn from_code(code: &str) -> (r: Self)
        ensures
            r.code@ == code@,
            r.message@ == human_error_text(code@),
    {
        let message = if text_eq(code, "human_scheme_denied") {
            "This link type is not opened in the browser."
        } else if text_eq(code, "human_userinfo_denied") {
            "Links with embedded credentials are not opened."
        } else if text_eq(code, "human_url_invalid") {
            "That address is not valid."
        } else if text_eq(code, "human_external_open") {
            "This link opens outside BrainRoot."
        } else if text_eq(code, "human_popup_denied") {
            "Popups are blocked."
        } else if text_eq(code, "human_download_denied") {
            "Downloads are blocked in this version."
        } else if text_eq(code, "human_view_failed") {
            "The browser view could not be shown."
        } else if text_eq(code, "human_view_not_visible") {
            "The browser is not visible."
        } else if text_eq(code, "human_profile_unavailable") {
            "BrainRoot could not prepare the browser profile."
        } else {
            "The browser request could not be completed."
        };
        HumanError::new(code, message)
    }
}


/// A status shared between the shell's commands and the view's callbacks.
pub struct SharedHumanStatus {
    inner: Arc<RwLock<HumanStatus, AnyContents>>,
}

impl Clone for SharedHumanStatus {
    /// A second handle on the same status.
    fn clone(&self) -> (r: Self)
        ensures
            r == *self,
    {
        SharedHumanStatus { inner: self.inner.clone() }
    }
}

impl SharedHumanStatus {
    pub fn new() -> (r: Self) {
        SharedHumanStatus {
            inner: Arc::new(RwLock::new(HumanStatus::default(), Ghost(AnyContents))),
        }
    }

    /// A copy of the status now.
    pub fn snapshot(&self) -> (r: HumanStatus) {
        let read = self.inner.acquire_read();
        let copy = read.borrow().clone();
        read.release_read();
        copy
    }

    /// Applies the policy to a navigation target and records a refusal.
    pub fn gate(&self, url: &str) -> (r: Result<(), String>)
        ensures
            match policy::navigation_of(policy::url_parts(url@)) {
                policy::DecisionView::Allow => r is Ok,
                policy::DecisionView::OpenExternal => r matches Err(c) && c@ == "human_external_open"@,
                policy::DecisionView::Deny(code) => r matches Err(c) && c@ == code,
            },
    {
        let (mut status, handle) = self.inner.acquire_write();
        let outcome = status.gate(url);
        handle.release_write(status);
        outcome
    }

    pub fn record_allowed(&self, candidate: &str) {
        let (mut status, handle) = self.inner.acquire_write();
        status.record_allowed(candidate);
        handle.release_write(status);
    }

    pub fn record_denial(&self, code: &str) {
        let (mut status, handle) = self.inner.acquire_write();
        status.record_denial(code);
        handle.release_write(status);
    }

    pub fn record_title(&self, title: &str) {
        let (mut status, handle) = self.inner.acquire_write();
        status.record_title(title);
        handle.release_write(status);
    }

    pub fn record_shown(&self, url: &str) {
        let (mut status, handle) = self.inner.acquire_write();
        status.record_shown(url);
        handle.release_write(status);
    }

    pub fn record_live(&self, url: Option<String>, can_go_back: bool, can_go_forward: bool) {
        let (mut status, handle) = self.inner.acquire_write();
        status.record_live(url, can_go_back, can_go_forward);
        handle.release_write(status);
    }

    /// Back to the status of no view.
    pub fn reset(&self) {
        let (_, handle) = self.inner.acquire_write();
        handle.release_write(HumanStatus::default());
    }
}

#[verifier::external_type_specification]
#[verifier::external_body]
pub struct ExPathBuf(PathBuf);

/// A copy of a path (`PathBuf::clone`). The path is opaque here, so nothing
/// is stated of the copy.
#[verifier::external_body]
fn copy_path(path: &PathBuf) -> (r: PathBuf) {
    path.clone()
}

/// The Human Browser's shared state: its status, the moment of the last user
/// action, and a profile directory that a harness may put in place of the
/// application's own.
pub struct HumanBrowserState {
    status: SharedHumanStatus,
    activity: RwLock<Option<Instant>, AnyContents>,
    profile_override: RwLock<Option<PathBuf>, AnyContents>,
}

impl Default for HumanBrowserState {
    fn default() -> (r: Self) {
        HumanBrowserState {
            status: SharedHumanStatus::new(),
            activity: RwLock::new(None, Ghost(AnyContents)),
            profile_override: RwLock::new(None, Ghost(AnyContents)),
        }
    }
}

impl HumanBrowserState {
    /// Records user activity for the idle clock; status reads never move it.
    pub fn touch(&self) {
        let (_, handle) = self.activity.acquire_write();
        handle.release_write(Some(clock_now()));
    }

    /// Whole seconds since the last user action, or `None` if never used.
    pub fn idle_secs(&self) -> (r: Option<u64>) {
        let read = self.activity.acquire_read();
        let secs = match read.borrow() {
            Some(at) => Some(whole_secs(clock_elapsed(at))),
            None => None,
        };
        read.release_read();
        secs
    }

    /// Points the profile at `root` in place of the application's data
    /// directory; meant for probes and harnesses.
    pub fn debug_set_profile_root(&self, root: PathBuf) {
        let (_, handle) = self.profile_override.acquire_write();
        handle.release_write(Some(root));
    }

    /// The profile directory set by [`Self::debug_set_profile_root`], if any.
    pub fn profile_override(&self) -> (r: Option<PathBuf>) {
        let read = self.profile_override.acquire_read();
        let root = match read.borrow() {
            Some(path) => Some(copy_path(path)),
            None => None,
        };
        read.release_read();
        root
    }

    /// The status this state shares with its view.
    pub closed spec fn shared_status(&self) -> SharedHumanStatus {
        self.status
    }

    /// A handle on the shared status.
    pub fn status(&self) -> (r: SharedHumanStatus)
        ensures
            r == self.shared_status(),
    {
        self.status.clone()
    }

    /// A copy of the status now.
    pub fn snapshot(&self) -> (r: HumanStatus) {
        self.status.snapshot()
    }

    /// Applies the policy to a navigation target and records a refusal in
    /// the shared status.
    pub fn gate(&self, url: &str) -> (r: Result<(), String>)
        ensures
            match policy::navigation_of(policy::url_parts(url@)) {
                policy::DecisionView::Allow => r is Ok,
                policy::DecisionView::OpenExternal => r matches Err(c) && c@ == "human_external_open"@,
                policy::DecisionView::Deny(code) => r matches Err(c) && c@ == code,
            },
    {
        self.status.gate(url)
    }
}

} // verus!
