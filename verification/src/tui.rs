//! The decisions of the terminal interface: which screen is shown, what each
//! key does, what the status line says, and what the screens read. Drawing,
//! the terminal and the commands that a key asks for are the application's.
use crate::environment::{CheckResult, UserInfo};
use crate::error::{Invalid, Result, ThumedError};
use crate::i18n::{
    error_text, error_text_spec, fill, fill_spec, strings_for, toggled, views, Lang, Strings,
};
use crate::pod_handler::{pod_form_config, pod_form_error, PodConfig, PodHandler};
use crate::text::{
    lines, lines_of, lemma_chars_deep_view, strictly_sorted, texts, decimal, decimal_string,
    chars_of, is_ascii_digit, decimal_value, lemma_decimal_value_grows, string_of, trim, trimmed,
};
use vstd::prelude::*;

verus! {

/// The number of entries of the main menu.
pub const MENU_COUNT: usize = 6;

/// The most pods that the menu lists.
pub const MAX_PODS_SHOWN: usize = 12;

// ---------------------------------------------------------------------------
// Keys, screens, status
// ---------------------------------------------------------------------------
/// The keys that the interface tells apart.
#[derive(Clone, Copy, Debug, PartialEq, Eq, Structural)]
pub enum Key {
    Up,
    Down,
    PageUp,
    PageDown,
    Home,
    End,
    Enter,
    Esc,
    Tab,
    BackTab,
    Backspace,
    Delete,
    F(u8),
    Char(char),
    Other,
}

/// What a pod picker was opened for.
#[derive(Clone, Copy, Debug, PartialEq, Eq, Structural)]
pub enum PodAction {
    Login,
    Forward,
    Uninstall,
}

impl PodAction {
    pub fn title(self, lang: Lang) -> (r: &'static str)
        ensures
            r == pod_action_title(self, strings_for(lang)),
    {
        let t = lang.t();
        match self {
            Self::Login => t.title_login,
            Self::Forward => t.title_forward,
            Self::Uninstall => t.title_uninstall,
        }
    }
}

pub open spec fn pod_action_title(action: PodAction, t: Strings) -> &'static str {
    match action {
        PodAction::Login => t.title_login,
        PodAction::Forward => t.title_forward,
        PodAction::Uninstall => t.title_uninstall,
    }
}

/// The two forms: creating a pod and updating the account.
#[derive(Clone, Copy, Debug, PartialEq, Eq, Structural)]
pub enum FormKind {
    Install,
    Credentials,
}

/// How many fields a form has.
pub open spec fn field_count(kind: FormKind) -> nat {
    match kind {
        FormKind::Install => 3,
        FormKind::Credentials => 2,
    }
}

impl FormKind {
    /// The labels of the form's fields.
    pub fn labels(self, lang: Lang) -> (r: Vec<&'static str>)
        ensures
            r@.len() == field_count(self),
            forall|i: int|
                0 <= i < r@.len() ==> #[trigger] r@[i] == (match self {
                    FormKind::Install => strings_for(lang).install_labels@[i],
                    FormKind::Credentials => strings_for(lang).credential_labels@[i],
                }),
    {
        let t = lang.t();
        let mut r: Vec<&'static str> = Vec::new();
        match self {
            Self::Install => {
                r.push(t.install_labels[0]);
                r.push(t.install_labels[1]);
                r.push(t.install_labels[2]);
            },
            Self::Credentials => {
                r.push(t.credential_labels[0]);
                r.push(t.credential_labels[1]);
            },
        }
        r
    }

    pub fn title(self, lang: Lang) -> (r: &'static str)
        ensures
            r == (match self {
                FormKind::Install => strings_for(lang).title_install,
                FormKind::Credentials => strings_for(lang).title_credentials,
            }),
    {
        match self {
            Self::Install => lang.t().title_install,
            Self::Credentials => lang.t().title_credentials,
        }
    }
}

/// The screens of the interface.
pub enum Screen {
    Initialize,
    Menu,
    Report(Vec<CheckResult>),
    InstallFailed { release: String, error: ThumedError },
    PodPicker(PodAction),
    Form(FormKind),
    ConfirmUninstall { pod_name: String, release: String },
    /// Port forwarding runs; the application owns the forwarding process.
    Forwarding { pod_name: String },
}

/// Status messages without arguments are stored as a key so the language
/// toggle can re-render them; formatted ones keep the wording they were made with.
#[derive(Clone, Copy, Debug, PartialEq, Eq, Structural)]
pub enum StatusKey {
    Blank,
    Loading,
    EnvDone,
    EnvIncomplete,
    WaitingForPod,
    NoPods,
    LoginEnded,
    ForwardStarted,
    ForwardStopped,
    Installing,
    Installed,
    UserSaved,
    UninstallCancelled,
    Checking,
}

/// The text of a status key in a table of texts (none for `None`).
pub open spec fn status_text(key: StatusKey, t: Strings) -> Option<&'static str> {
    match key {
        StatusKey::Blank => Option::None,
        StatusKey::Loading => Some(t.status_loading),
        StatusKey::EnvDone => Some(t.status_env_done),
        StatusKey::EnvIncomplete => Some(t.status_env_incomplete),
        StatusKey::WaitingForPod => Some(t.pod_waiting),
        StatusKey::NoPods => Some(t.status_no_pods),
        StatusKey::LoginEnded => Some(t.status_login_ended),
        StatusKey::ForwardStarted => Some(t.status_forward_started),
        StatusKey::ForwardStopped => Some(t.status_forward_stopped),
        StatusKey::Installing => Some(t.status_installing),
        StatusKey::Installed => Some(t.status_installed),
        StatusKey::UserSaved => Some(t.status_user_saved),
        StatusKey::UninstallCancelled => Some(t.status_uninstall_cancelled),
        StatusKey::Checking => Some(t.check_running),
    }
}

/// The status line that a key gives in a language (empty for `None`).
pub open spec fn status_line_of(key: StatusKey, lang: Lang) -> Seq<char> {
    match status_text(key, strings_for(lang)) {
        Some(s) => s@,
        None => seq![],
    }
}

impl StatusKey {
    pub fn text(self, lang: Lang) -> (r: Option<&'static str>)
        ensures
            r == status_text(self, strings_for(lang)),
    {
        let t = lang.t();
        match self {
            Self::Blank => None,
            Self::Loading => Some(t.status_loading),
            Self::EnvDone => Some(t.status_env_done),
            Self::EnvIncomplete => Some(t.status_env_incomplete),
            Self::WaitingForPod => Some(t.pod_waiting),
            Self::NoPods => Some(t.status_no_pods),
            Self::LoginEnded => Some(t.status_login_ended),
            Self::ForwardStarted => Some(t.status_forward_started),
            Self::ForwardStopped => Some(t.status_forward_stopped),
            Self::Installing => Some(t.status_installing),
            Self::Installed => Some(t.status_installed),
            Self::UserSaved => Some(t.status_user_saved),
            Self::UninstallCancelled => Some(t.status_uninstall_cancelled),
            Self::Checking => Some(t.check_running),
        }
    }
}

// ---------------------------------------------------------------------------
// Small decisions
// ---------------------------------------------------------------------------
/// Moves an index through a list of `count` entries, wrapping at both ends.
pub fn move_index(index: usize, delta: isize, count: usize) -> (r: usize)
    requires
        index <= isize::MAX,
        count <= isize::MAX,
        isize::MIN <= index + delta <= isize::MAX,
    ensures
        count == 0 ==> r == 0,
        count > 0 ==> r == (index + delta) % (count as int),
{
    if count == 0 {
        return 0;
    }
    let s: isize = index as isize + delta;
    match s.checked_rem_euclid(count as isize) {
        Some(r) => r as usize,
        None => 0,
    }
}

/// Moving forward and then back by the same amount returns to where one
/// started, and a move always lands inside the list.
pub proof fn lemma_move_index_round_trip(index: int, delta: int, count: int)
    requires
        0 <= index < count,
    ensures
        0 <= (index + delta) % count < count,
        (((index + delta) % count) + (-delta)) % count == index,
{
    vstd::arithmetic::div_mod::lemma_add_mod_noop(index + delta, -delta, count);
    vstd::arithmetic::div_mod::lemma_mod_twice(index + delta, count);
    vstd::arithmetic::div_mod::lemma_mod_bound(index + delta, count);
    vstd::arithmetic::div_mod::lemma_mod_bound(-delta, count);
    vstd::arithmetic::div_mod::lemma_add_mod_noop((index + delta) % count, -delta, count);
    vstd::arithmetic::div_mod::lemma_small_mod(index as nat, count as nat);
    vstd::arithmetic::div_mod::lemma_mod_twice(-delta, count);
}

/// A pod number typed in the picker: digits only, without a leading zero.
pub open spec fn valid_pod_number(s: Seq<char>) -> bool {
    (forall|i: int| 0 <= i < s.len() ==> is_ascii_digit(#[trigger] s[i])) && (s.len() > 0 ==> s[0]
        != '0')
}

/// Adds a typed digit to the pod number; a leading zero and anything but a
/// digit are refused.
pub fn append_pod_number(number: &mut String, digit: char) -> (r: bool)
    ensures
        r == (is_ascii_digit(digit) && !(digit == '0' && old(number)@.len() == 0)),
        r ==> final(number)@ == old(number)@.push(digit),
        !r ==> final(number)@ == old(number)@,
{
    if !('0' <= digit && digit <= '9') || (digit == '0' && number.as_str().is_empty()) {
        return false;
    }
    number.push(digit);
    true
}

/// Appending keeps a pod number a pod number.
pub proof fn lemma_pod_number_stays_valid(s: Seq<char>, digit: char)
    requires
        valid_pod_number(s),
        is_ascii_digit(digit),
        !(digit == '0' && s.len() == 0),
    ensures
        valid_pod_number(s.push(digit)),
{
    let t = s.push(digit);
    assert forall|i: int| 0 <= i < t.len() implies is_ascii_digit(#[trigger] t[i]) by {
        if i < s.len() {
            assert(t[i] == s[i]);
        }
    }
}

/// The number that a pod number reads as, where it fits.
pub open spec fn pod_number_value(s: Seq<char>) -> Option<nat> {
    if (forall|i: int| 0 <= i < s.len() ==> is_ascii_digit(#[trigger] s[i])) && s.len() > 0
        && decimal_value(s) <= usize::MAX {
        Some(decimal_value(s))
    } else {
        None
    }
}

/// Reads a pod number (`str::parse::<usize>` of digits).
pub fn parse_pod_number(s: &str) -> (r: Option<usize>)
    ensures
        match pod_number_value(s@) {
            Some(v) => r == Some(v as usize),
            None => r is None,
        },
{
    let v = chars_of(s);
    if v.len() == 0 {
        return None;
    }
    let mut acc: usize = 0;
    let mut i: usize = 0;
    while i < v.len()
        invariant
            i <= v.len(),
            v@ == s@,
            acc as nat == decimal_value(v@.take(i as int)),
            forall|j: int| 0 <= j < i ==> is_ascii_digit(#[trigger] v@[j]),
        decreases v.len() - i,
    {
        let c = v[i];
        if !('0' <= c && c <= '9') {
            assert(!is_ascii_digit(v@[i as int]));
            return None;
        }
        let d = (c as u32 - '0' as u32) as usize;
        assert(d < 10);
        proof {
            assert(v@.take(i + 1).drop_last() == v@.take(i as int));
            assert(v@.take(i + 1).last() == c);
        }
        if acc > (usize::MAX - d) / 10 {
            proof {
                lemma_decimal_value_grows(v@, i + 1);
                assert(decimal_value(v@.take(i + 1)) == acc * 10 + d);
                assert(acc * 10 + d > usize::MAX) by (nonlinear_arith)
                    requires
                        acc > (usize::MAX - d) / 10,
                        d < 10,
                ;
            }
            return None;
        }
        acc = acc * 10 + d;
        i = i + 1;
    }
    assert(v@.take(v.len() as int) == v@);
    Some(acc)
}

/// Scrolls the report: by one line, by ten, or to either end, never past the
/// end.
pub fn scroll_report(current: u16, key: Key, max: u16) -> (r: u16)
    ensures
        r == scrolled(current, key, max),
        r <= max,
{
    let current = if current < max {
        current
    } else {
        max
    };
    match key {
        Key::Up => current.saturating_sub(1),
        Key::Down => {
            let next = current.saturating_add(1);
            if next < max {
                next
            } else {
                max
            }
        },
        Key::PageUp => current.saturating_sub(10),
        Key::PageDown => {
            let next = current.saturating_add(10);
            if next < max {
                next
            } else {
                max
            }
        },
        Key::Home => 0,
        Key::End => max,
        _ => current,
    }
}

/// Where the report scrolls to.
pub open spec fn scrolled(current: u16, key: Key, max: u16) -> u16 {
    let c = if current < max {
        current
    } else {
        max
    };
    match key {
        Key::Up => if c >= 1 {
            (c - 1) as u16
        } else {
            0
        },
        Key::Down => if c + 1 < max {
            (c + 1) as u16
        } else {
            max
        },
        Key::PageUp => if c >= 10 {
            (c - 10) as u16
        } else {
            0
        },
        Key::PageDown => if c + 10 < max {
            (c + 10) as u16
        } else {
            max
        },
        Key::Home => 0,
        Key::End => max,
        _ => c,
    }
}

// ---------------------------------------------------------------------------
// The state of the interface
// ---------------------------------------------------------------------------
/// What the interface shows and remembers.
pub struct App {
    pub selected: usize,
    pub pod_selected: usize,
    pub pod_number: String,
    pub form_selected: usize,
    pub form_values: Vec<String>,
    pub credentials: Option<UserInfo>,
    pub report_scroll: u16,
    pub screen: Screen,
    pub status: String,
    pub status_key: StatusKey,
    pub lang: Lang,
}

/// What a key asks the application to do, beyond what the interface changed
/// itself.
pub enum Request {
    Nothing,
    Quit,
    /// Run the environment check, then call `App::environment_checked`.
    CheckEnvironment,
    /// Load the account, then call `App::begin_credentials`.
    LoadCredentials,
    /// Refresh the pod list, then call `App::pods_refreshed` and `App::open_pod_picker`.
    OpenPodPicker(PodAction),
    /// Suspend the terminal and log in to the pod, then call `App::login_finished`.
    Login(String),
    /// Start port forwarding to the pod, then call `App::forward_started`.
    StartForward(String),
    /// Look up the pod's release, then call `App::release_found`.
    FindRelease(String),
    /// Measure the report and call `scroll_report` with this key.
    ScrollReport(Key),
    /// Save the account that `credentials` holds, then call `App::credentials_saved`.
    SaveCredentials,
    /// Install the pod, wait for it, then call `App::finish_installation`.
    Install(PodConfig),
    /// Uninstall the release, then call `App::uninstall_finished`.
    Uninstall { pod_name: String, release: String },
    /// Stop the forwarding process.
    StopForward,
}

/// The interface is consistent: the menu selection is an entry, a keyed
/// status shows its text in the current language, and a form has its fields
/// with one of them selected.
pub open spec fn app_wf(app: &App) -> bool {
    &&& app.selected < MENU_COUNT
    &&& app.status_key != StatusKey::Blank ==> app.status@ == status_line_of(app.status_key, app.lang)
    &&& app.screen matches Screen::Form(kind) ==> app.form_values@.len() == field_count(kind)
        && app.form_selected < app.form_values@.len()
    &&& valid_pod_number(app.pod_number@)
}

/// The picker's selection is a pod of the list.
pub open spec fn picker_wf(app: &App, pods: &PodHandler) -> bool {
    app.screen matches Screen::PodPicker(_) ==> app.pod_selected < pods.pod_list@.len()
}

/// `b` is `a` in the other language: a keyed status message follows the
/// language, a formatted one keeps its wording, and nothing else changes.
pub open spec fn switches_language(a: &App, b: &App) -> bool {
    &&& b.lang == toggled(a.lang)
    &&& b.status_key == a.status_key
    &&& a.status_key != StatusKey::Blank ==> b.status@ == status_line_of(
        a.status_key,
        toggled(a.lang),
    )
    &&& a.status_key == StatusKey::Blank ==> b.status == a.status
    &&& b.selected == a.selected
    &&& b.screen == a.screen
    &&& b.form_values == a.form_values
    &&& b.form_selected == a.form_selected
    &&& b.pod_number == a.pod_number
    &&& b.pod_selected == a.pod_selected
    &&& b.credentials == a.credentials
    &&& b.report_scroll == a.report_scroll
}

/// Switching the language twice gives back the interface one started with:
/// the same screen, selections, form, account and scroll, and the same status
/// text.
pub proof fn lemma_language_switch_round_trip(a: &App, b: &App, c: &App)
    requires
        app_wf(a),
        switches_language(a, b),
        switches_language(b, c),
    ensures
        c.lang == a.lang,
        c.status@ == a.status@,
        c.status_key == a.status_key,
        keeps_details(c, a),
        c.screen == a.screen,
        c.selected == a.selected,
{
    crate::i18n::lemma_toggle_round_trip(a.lang);
}

impl App {
    /// The interface at start: the menu once the environment was set up,
    /// the setup prompt before; Chinese.
    pub fn new(initialized: bool) -> (app: Self)
        ensures
            app_wf(&app),
            app.lang == Lang::Zh,
            initialized ==> app.screen is Menu && app.status_key == StatusKey::Loading,
            !initialized ==> app.screen is Initialize && app.status_key == StatusKey::Blank,
            app.status@ == status_line_of(app.status_key, app.lang),
            app.selected == 0,
            app.form_values@.len() == 0,
            app.credentials is None,
    {
        let lang = Lang::Zh;
        let status_key = if initialized {
            StatusKey::Loading
        } else {
            StatusKey::Blank
        };
        let status = match status_key.text(lang) {
            Some(s) => string_of(chars_of(s).as_slice()),
            None => String::new(),
        };
        App {
            selected: 0,
            pod_selected: 0,
            pod_number: String::new(),
            form_selected: 0,
            form_values: Vec::new(),
            credentials: None,
            report_scroll: 0,
            screen: if initialized {
                Screen::Menu
            } else {
                Screen::Initialize
            },
            status,
            status_key,
            lang,
        }
    }

    /// Without a kubeconfig file the setup prompt is shown, whatever setup was
    /// recorded before.
    pub fn require_kubeconfig(&mut self, present: bool)
        requires
            app_wf(old(self)),
        ensures
            app_wf(final(self)),
            present ==> unchanged(final(self), old(self)),
            !present ==> final(self).screen == Screen::Initialize && keeps_details(
                final(self),
                old(self),
            ) && final(self).status == old(self).status && final(self).selected == old(
                self,
            ).selected,
    {
        if !present {
            self.screen = Screen::Initialize;
        }
    }

    /// Once the kubeconfig file is in place, the setup prompt goes on to the
    /// environment check without another key.
    pub fn setup_ready(&self, present: bool) -> (r: bool)
        ensures
            r == (self.screen is Initialize && present),
    {
        present && matches!(self.screen, Screen::Initialize)
    }

    /// Shows a keyed status message.
    pub fn set_status(&mut self, key: StatusKey)
        ensures
            final(self).status_key == key,
            final(self).status@ == status_line_of(key, old(self).lang),
            final(self).lang == old(self).lang,
            final(self).selected == old(self).selected,
            final(self).screen == old(self).screen,
            final(self).form_values == old(self).form_values,
            final(self).form_selected == old(self).form_selected,
            final(self).pod_number == old(self).pod_number,
            final(self).pod_selected == old(self).pod_selected,
            final(self).credentials == old(self).credentials,
            final(self).report_scroll == old(self).report_scroll,
    {
        self.status_key = key;
        self.status = match key.text(self.lang) {
            Some(s) => string_of(chars_of(s).as_slice()),
            None => String::new(),
        };
    }

    /// Shows a formatted status message, which keeps its wording.
    pub fn set_status_text(&mut self, text: String)
        ensures
            final(self).status_key == StatusKey::Blank,
            final(self).status == text,
            final(self).lang == old(self).lang,
            final(self).selected == old(self).selected,
            final(self).screen == old(self).screen,
            final(self).form_values == old(self).form_values,
            final(self).form_selected == old(self).form_selected,
            final(self).pod_number == old(self).pod_number,
            final(self).pod_selected == old(self).pod_selected,
            final(self).credentials == old(self).credentials,
            final(self).report_scroll == old(self).report_scroll,
    {
        self.status_key = StatusKey::Blank;
        self.status = text;
    }

    /// Shows an error in the status line.
    pub fn set_error(&mut self, error: &ThumedError)
        ensures
            final(self).status_key == StatusKey::Blank,
            exists|io_text: Seq<char>|
                final(self).status@ == #[trigger] error_text_spec(error, old(self).lang, io_text),
            final(self).lang == old(self).lang,
            final(self).selected == old(self).selected,
            final(self).screen == old(self).screen,
            final(self).form_values == old(self).form_values,
            final(self).form_selected == old(self).form_selected,
            final(self).pod_number == old(self).pod_number,
            final(self).pod_selected == old(self).pod_selected,
            final(self).credentials == old(self).credentials,
            final(self).report_scroll == old(self).report_scroll,
    {
        let text = error_text(error, self.lang);
        self.set_status_text(text);
    }

    /// Switches the language; a keyed status message follows it, a formatted
    /// one keeps its wording.
    pub fn toggle_lang(&mut self)
        ensures
            switches_language(old(self), final(self)),
    {
        self.lang = self.lang.toggle();
        match self.status_key.text(self.lang) {
            Some(text) => {
                self.status = string_of(chars_of(text).as_slice());
            },
            None => {},
        }
    }

    /// Moves the menu selection, wrapping at both ends.
    pub fn move_selection(&mut self, delta: isize)
        requires
            -1 <= delta <= 1,
            old(self).selected < MENU_COUNT,
        ensures
            final(self).selected == (old(self).selected + delta) % (MENU_COUNT as int),
            final(self).selected < MENU_COUNT,
            final(self).screen == old(self).screen,
            final(self).status == old(self).status,
            final(self).status_key == old(self).status_key,
            final(self).lang == old(self).lang,
            final(self).form_values == old(self).form_values,
            final(self).form_selected == old(self).form_selected,
            final(self).pod_number == old(self).pod_number,
            final(self).pod_selected == old(self).pod_selected,
            final(self).credentials == old(self).credentials,
            final(self).report_scroll == old(self).report_scroll,
    {
        self.selected = move_index(self.selected, delta, MENU_COUNT);
        proof {
            vstd::arithmetic::div_mod::lemma_mod_bound(old(self).selected + delta, 6);
        }
    }

    /// Opens the creation form with its three fields empty.
    pub fn begin_form(&mut self)
        ensures
            final(self).screen == Screen::Form(FormKind::Install),
            final(self).form_selected == 0,
            final(self).form_values@.len() == 3,
            forall|i: int| 0 <= i < 3 ==> (#[trigger] final(self).form_values@[i])@.len() == 0,
            final(self).credentials is None,
            final(self).selected == old(self).selected,
            final(self).status == old(self).status,
            final(self).status_key == old(self).status_key,
            final(self).lang == old(self).lang,
            final(self).pod_number == old(self).pod_number,
            final(self).pod_selected == old(self).pod_selected,
            final(self).report_scroll == old(self).report_scroll,
    {
        self.form_selected = 0;
        self.credentials = None;
        let mut values: Vec<String> = Vec::new();
        values.push(String::new());
        values.push(String::new());
        values.push(String::new());
        self.form_values = values;
        self.screen = Screen::Form(FormKind::Install);
    }

    /// Opens the account form, filled in with the current user name and
    /// password.
    pub fn begin_credentials(&mut self, info: UserInfo)
        ensures
            final(self).screen == Screen::Form(FormKind::Credentials),
            final(self).form_selected == 0,
            final(self).form_values@.len() == 2,
            final(self).form_values@[0]@ == info.user@,
            final(self).form_values@[1]@ == info.password@,
            final(self).credentials == Some(info),
            final(self).selected == old(self).selected,
            final(self).status == old(self).status,
            final(self).status_key == old(self).status_key,
            final(self).lang == old(self).lang,
            final(self).pod_number == old(self).pod_number,
            final(self).pod_selected == old(self).pod_selected,
            final(self).report_scroll == old(self).report_scroll,
    {
        self.form_selected = 0;
        let mut values: Vec<String> = Vec::new();
        values.push(string_of(chars_of(info.user.as_str()).as_slice()));
        values.push(string_of(chars_of(info.password.as_str()).as_slice()));
        self.form_values = values;
        self.credentials = Some(info);
        self.screen = Screen::Form(FormKind::Credentials);
    }
}

/// Everything but the screen, the menu selection and the status line is as before.
pub open spec fn keeps_details(a: &App, b: &App) -> bool {
    &&& a.form_values == b.form_values
    &&& a.form_selected == b.form_selected
    &&& a.credentials == b.credentials
    &&& a.pod_number == b.pod_number
    &&& a.pod_selected == b.pod_selected
    &&& a.report_scroll == b.report_scroll
    &&& a.lang == b.lang
}

/// Nothing changed.
pub open spec fn unchanged(a: &App, b: &App) -> bool {
    &&& keeps_details(a, b)
    &&& a.screen == b.screen
    &&& a.selected == b.selected
    &&& a.status == b.status
    &&& a.status_key == b.status_key
}

/// The request of each menu entry that the menu does not handle itself.
pub open spec fn menu_request(selected: usize) -> Option<Request> {
    if selected == 1 {
        Some(Request::OpenPodPicker(PodAction::Login))
    } else if selected == 2 {
        Some(Request::OpenPodPicker(PodAction::Forward))
    } else if selected == 3 {
        Some(Request::OpenPodPicker(PodAction::Uninstall))
    } else if selected == 4 {
        Some(Request::LoadCredentials)
    } else if selected == 5 {
        Some(Request::CheckEnvironment)
    } else {
        Option::None
    }
}

/// Enter on a menu entry asks for what the entry's label names, in either
/// language: logging in to a pod opens the login picker, accessing RStudio
/// the forwarding picker, uninstalling the uninstall picker; updating the
/// user information loads the account, and checking the environment checks
/// it.
pub proof fn lemma_menu_entries_do_what_they_say(k: usize)
    requires
        1 <= k < MENU_COUNT,
    ensures
        ({
            let en = strings_for(Lang::En).menu_labels@[k as int]@;
            let zh = strings_for(Lang::Zh).menu_labels@[k as int]@;
            &&& (en == "Login to pod"@ && zh == "登录 Pod"@) ==> menu_request(k) == Some(
                Request::OpenPodPicker(PodAction::Login),
            )
            &&& (en == "Access RStudio"@ && zh == "访问 RStudio"@) ==> menu_request(k) == Some(
                Request::OpenPodPicker(PodAction::Forward),
            )
            &&& (en == "Uninstall pod"@ && zh == "卸载 Pod"@) ==> menu_request(k) == Some(
                Request::OpenPodPicker(PodAction::Uninstall),
            )
            &&& (en == "Update user information"@ && zh == "更新用户信息"@) ==> menu_request(k)
                == Some(Request::LoadCredentials)
            &&& (en == "Check environment"@ && zh == "检查环境"@) ==> menu_request(k) == Some(
                Request::CheckEnvironment,
            )
        }),
{
    reveal_strlit("Login to pod");
    reveal_strlit("Access RStudio");
    reveal_strlit("Uninstall pod");
    reveal_strlit("Update user information");
    reveal_strlit("Check environment");
    reveal_strlit("Install pod");
    let labels = strings_for(Lang::En).menu_labels@;
    let en = labels[k as int]@;
    assert(en.len() == "Login to pod"@.len() ==> k == 1) by {
        assert(labels[2]@.len() == 14 && labels[3]@.len() == 13 && labels[4]@.len() == 23
            && labels[5]@.len() == 17);
    }
    assert(en.len() == "Access RStudio"@.len() ==> k == 2) by {
        assert(labels[1]@.len() == 12 && labels[3]@.len() == 13 && labels[4]@.len() == 23
            && labels[5]@.len() == 17);
    }
    assert(en.len() == "Uninstall pod"@.len() ==> k == 3) by {
        assert(labels[1]@.len() == 12 && labels[2]@.len() == 14 && labels[4]@.len() == 23
            && labels[5]@.len() == 17);
    }
    assert(en.len() == "Update user information"@.len() ==> k == 4) by {
        assert(labels[1]@.len() == 12 && labels[2]@.len() == 14 && labels[3]@.len() == 13
            && labels[5]@.len() == 17);
    }
    assert(en.len() == "Check environment"@.len() ==> k == 5) by {
        assert(labels[1]@.len() == 12 && labels[2]@.len() == 14 && labels[3]@.len() == 13
            && labels[4]@.len() == 23);
    }
}

pub open spec fn is_up(key: Key) -> bool {
    key == Key::Up || key == Key::Char('k')
}

pub open spec fn is_down(key: Key) -> bool {
    key == Key::Down || key == Key::Char('j')
}

/// A key that types a character into the pod picker (`k` and `j` move).
pub open spec fn is_picker_char(key: Key) -> bool {
    key matches Key::Char(d) && d != 'k' && d != 'j'
}

/// The character of a character key.
pub open spec fn key_char(key: Key) -> char {
    match key {
        Key::Char(d) => d,
        _ => ' ',
    }
}

/// Whether a digit may be typed next into a pod number: no leading zero.
pub open spec fn digit_accepted(number: Seq<char>, d: char) -> bool {
    is_ascii_digit(d) && !(d == '0' && number.len() == 0)
}

pub open spec fn is_scroll_key(key: Key) -> bool {
    key == Key::Up || key == Key::Down || key == Key::PageUp || key == Key::PageDown || key
        == Key::Home || key == Key::End
}

/// The keys of the setup prompt (see `App::handle_initialize_key`).
pub open spec fn initialize_key_follows(a: &App, b: &App, key: Key, r: Request) -> bool {
    &&& (!(b.screen is PodPicker))
    &&& (key == Key::Enter ==> r == Request::CheckEnvironment && unchanged(b, a))
    &&& (key == Key::Esc ==> r == Request::Nothing && b.screen == Screen::Menu
                && b.selected == MENU_COUNT - 1 && keeps_details(b, a)
                && b.status == a.status)
    &&& (key != Key::Enter && key != Key::Esc ==> r == Request::Nothing && unchanged(
                b,
                a,
            ))
}

/// The keys of the main menu (see `App::handle_menu_key`).
pub open spec fn menu_key_follows(a: &App, b: &App, key: Key, r: Request) -> bool {
    &&& (!(b.screen is PodPicker))
    &&& (is_up(key) ==> r == Request::Nothing && b.selected == (a.selected
                + MENU_COUNT - 1) % (MENU_COUNT as int) && b.screen == a.screen
                && keeps_details(b, a) && b.status == a.status && b.status_key == a.status_key)
    &&& (is_down(key) ==> r == Request::Nothing && b.selected == (a.selected
                + 1) % (MENU_COUNT as int) && b.screen == a.screen
                && keeps_details(b, a) && b.status == a.status && b.status_key == a.status_key)
    &&& (key == Key::Enter && a.selected == 0 ==> r == Request::Nothing
                && b.screen == Screen::Form(FormKind::Install)
                && b.form_values@.len() == 3 && b.form_selected == 0 && (forall|
                i: int,
            | 0 <= i < 3 ==> (#[trigger] b.form_values@[i])@.len() == 0)
                && b.credentials is None && b.selected == a.selected
                && b.status == a.status)
    &&& (key == Key::Enter && a.selected != 0 ==> Some(r) == menu_request(
                a.selected,
            ) && unchanged(b, a))
    &&& (!is_up(key) && !is_down(key) && key != Key::Enter ==> r == Request::Nothing
                && unchanged(b, a))
}

/// The keys of the environment report (see `App::handle_report_key`).
pub open spec fn report_key_follows(a: &App, b: &App, key: Key, r: Request) -> bool {
    &&& (!(b.screen is PodPicker))
    &&& ((key == Key::Esc || key == Key::Enter) ==> r == Request::Nothing && b.screen
                == Screen::Menu && keeps_details(b, a) && b.selected
                == a.selected && b.status == a.status)
    &&& (key == Key::Char('r') ==> r == Request::CheckEnvironment && unchanged(
                b,
                a,
            ))
    &&& (key == Key::Char('u') ==> r == Request::LoadCredentials && unchanged(
                b,
                a,
            ))
    &&& (is_scroll_key(key) ==> r == Request::ScrollReport(key) && unchanged(
                b,
                a,
            ))
    &&& (!(key == Key::Esc || key == Key::Enter || key == Key::Char('r') || key == Key::Char(
                'u',
            ) || is_scroll_key(key)) ==> r == Request::Nothing && unchanged(b, a))
}

/// The pod picker keeps what is not its own: the forms, the account, the
/// report's scroll, the language and the menu's selection.
pub open spec fn keeps_all_but_picker(a: &App, b: &App) -> bool {
    &&& b.form_values == a.form_values
    &&& b.form_selected == a.form_selected
    &&& b.credentials == a.credentials
    &&& b.report_scroll == a.report_scroll
    &&& b.lang == a.lang
    &&& b.selected == a.selected
}

/// The keys of the pod picker (see `App::handle_pod_picker_key`).
pub open spec fn picker_key_follows(a: &App, b: &App, pods: &PodHandler, action: PodAction, key: Key, r: Request) -> bool {
    &&& keeps_all_but_picker(a, b)
    &&& (key == Key::Esc ==> r == Request::Nothing && b.screen == Screen::Menu
                && b.pod_number == a.pod_number && b.pod_selected == a.pod_selected
                && b.status == a.status && b.status_key == a.status_key)
    &&& (is_up(key) ==> r == Request::Nothing && b.pod_selected == (
            a.pod_selected - 1) % (pods.pod_list@.len() as int) && b.screen == a.screen
                && b.pod_number == a.pod_number && b.status == a.status
                && b.status_key == a.status_key)
    &&& (is_down(key) ==> r == Request::Nothing && b.pod_selected == (
            a.pod_selected + 1) % (pods.pod_list@.len() as int) && b.screen == a.screen
                && b.pod_number == a.pod_number && b.status == a.status
                && b.status_key == a.status_key)
    &&& (key == Key::Backspace ==> r == Request::Nothing && b.pod_number@ == (if a.pod_number@.len() > 0 {
                a.pod_number@.drop_last()
            } else {
                a.pod_number@
            }) && b.screen == a.screen && b.pod_selected == a.pod_selected
                && b.status == a.status && b.status_key == a.status_key)
    &&& (!(key == Key::Esc || is_up(key) || is_down(key) || key == Key::Backspace
                || is_picker_char(key) || key == Key::Enter) ==> r == Request::Nothing
                && unchanged(b, a))
    &&& (is_picker_char(key) ==> ({
                let d = key_char(key);
                let typed = a.pod_number@.push(d);
                &&& r == Request::Nothing
                &&& b.screen == a.screen
                &&& b.status == a.status
                &&& b.status_key == a.status_key
                &&& if digit_accepted(a.pod_number@, d) {
                    &&& b.pod_number@ == typed
                    &&& b.pod_selected == (match pod_number_value(typed) {
                        Some(v) => if 1 <= v <= pods.pod_list@.len() {
                            (v - 1) as usize
                        } else {
                            a.pod_selected
                        },
                        None => a.pod_selected,
                    })
                } else {
                    b.pod_number@ == a.pod_number@ && b.pod_selected
                        == a.pod_selected
                }
            }))
    &&& (key == Key::Enter ==> ({
                let count = pods.pod_list@.len();
                let typed = a.pod_number@;
                let n = match pod_number_value(typed) {
                    Some(v) => v,
                    None => 0,
                };
                if typed.len() > 0 && (n == 0 || n > count) {
                    r == Request::Nothing && b.status@ == fill_spec(
                        strings_for(a.lang).status_pod_range@,
                        seq![crate::text::decimal(count)],
                    ) && b.status_key == StatusKey::Blank && b.screen == a.screen
                        && b.pod_number == a.pod_number && b.pod_selected == a.pod_selected
                } else {
                    let chosen = if typed.len() > 0 {
                        (n - 1) as int
                    } else {
                        a.pod_selected as int
                    };
                    let pod = pods.pod_list@[chosen]@;
                    &&& b.pod_selected == chosen
                    &&& b.pod_number == a.pod_number
                    &&& b.status == a.status
                    &&& b.status_key == a.status_key
                    &&& match action {
                        PodAction::Login => r matches Request::Login(p) && p@ == pod
                            && b.screen == Screen::Menu,
                        PodAction::Forward => r matches Request::StartForward(p) && p@ == pod
                            && b.screen == a.screen,
                        PodAction::Uninstall => r matches Request::FindRelease(p) && p@ == pod
                            && b.screen == a.screen,
                    }
                }
            }))
}

/// A form keeps what is not its own: the pod picker's state, the report's
/// scroll, the language and the menu's selection.
pub open spec fn keeps_all_but_form(a: &App, b: &App) -> bool {
    &&& b.pod_number == a.pod_number
    &&& b.pod_selected == a.pod_selected
    &&& b.report_scroll == a.report_scroll
    &&& b.lang == a.lang
    &&& b.selected == a.selected
}

/// The form's keys that only move or edit: the screen, the account being
/// edited and the status stay.
pub open spec fn form_stays(a: &App, b: &App) -> bool {
    &&& b.screen == a.screen
    &&& b.credentials == a.credentials
    &&& b.status == a.status
    &&& b.status_key == a.status_key
}

/// The keys of a form (see `App::handle_form_key`).
pub open spec fn form_key_follows(a: &App, b: &App, kind: FormKind, key: Key, r: Result<Request>) -> bool {
    &&& (!(b.screen is PodPicker))
    &&& keeps_all_but_form(a, b)
    &&& (key == Key::Esc ==> (r matches Ok(Request::Nothing) && b.screen == Screen::Menu
                && b.credentials is None && b.form_values@.len() == 0 && b.status == a.status
                && b.status_key == a.status_key))
    &&& ((key == Key::Up || key == Key::BackTab) ==> (r matches Ok(Request::Nothing)
                && b.form_selected == (a.form_selected - 1) % (
            a.form_values@.len() as int) && b.form_values == a.form_values && form_stays(a, b)))
    &&& ((key == Key::Down || key == Key::Tab) ==> (r matches Ok(Request::Nothing)
                && b.form_selected == (a.form_selected + 1) % (
            a.form_values@.len() as int) && b.form_values == a.form_values && form_stays(a, b)))
    &&& (!(key == Key::Esc || key == Key::Up || key == Key::BackTab || key == Key::Down || key
                == Key::Tab || is_edit_key(key) || key == Key::Enter) ==> (r matches Ok(
                Request::Nothing,
            ) && unchanged(b, a)))
    &&& (is_edit_key(key) ==> (r matches Ok(Request::Nothing) && form_stays(a, b) && b.form_selected == a.form_selected && b.form_values@.len() == a.form_values@.len()
                && b.form_values@[a.form_selected as int]@ == edited_field(
                a.form_values@[a.form_selected as int]@,
                key,
            ) && forall|i: int|
                0 <= i < a.form_values@.len() && i != a.form_selected ==> (
                #[trigger] b.form_values@[i]) == a.form_values@[i]))
    &&& (key == Key::Enter && kind == FormKind::Credentials ==> match a.credentials {
                Option::None => r matches Err(e) && e == ThumedError::Invalid(
                    Invalid::SavedCredentials,
                ) && unchanged(b, a),
                Some(info) => r matches Ok(Request::SaveCredentials) && b.credentials
                    matches Some(edited) && edited.user@ == trim(a.form_values@[0]@)
                    && edited.password@ == a.form_values@[1]@ && edited.context
                    == info.context && edited.server == info.server && edited.config_user
                    == info.config_user && edited.namespace == info.namespace
                    && b.screen == a.screen && b.form_values == a.form_values
                    && b.form_selected == a.form_selected && b.status == a.status
                    && b.status_key == a.status_key,
            })
    &&& (key == Key::Enter && kind == FormKind::Install ==> match pod_form_error(
                a.form_values@[0]@,
                a.form_values@[1]@,
                a.form_values@[2]@,
            ) {
                Some(k) => r matches Err(e) && e == ThumedError::Invalid(k) && unchanged(b, a),
                Option::None => r matches Ok(Request::Install(c)) && pod_form_config(
                    c,
                    a.form_values@[0]@,
                    a.form_values@[1]@,
                    a.form_values@[2]@,
                ) && b.status_key == StatusKey::Installing && b.screen == a.screen
                    && b.form_values == a.form_values && b.form_selected == a.form_selected
                    && b.credentials == a.credentials,
            })
}

/// The keys of the uninstall confirmation (see `App::handle_uninstall_confirmation`).
pub open spec fn uninstall_key_follows(a: &App, b: &App, key: Key, r: Request) -> bool {
    &&& (!(b.screen is PodPicker))
    &&& ((key == Key::Char('y') || key == Key::Char('Y')) ==> (a.screen matches Screen::ConfirmUninstall {
                pod_name,
                release,
            } && r matches Request::Uninstall { pod_name: p, release: rel } && p@ == pod_name@
                && rel@ == release@) && unchanged(b, a))
    &&& ((key == Key::Char('n') || key == Key::Char('N') || key == Key::Esc) ==> r
                == Request::Nothing && b.screen == Screen::Menu && b.status_key
                == StatusKey::UninstallCancelled && b.status@ == status_line_of(
                StatusKey::UninstallCancelled,
                a.lang,
            ) && b.selected == a.selected && keeps_details(b, a))
    &&& (!(key == Key::Char('y') || key == Key::Char('Y') || key == Key::Char('n') || key
                == Key::Char('N') || key == Key::Esc) ==> r == Request::Nothing && unchanged(
                b,
                a,
            ))
}

/// The keys of the forwarding screen (see `App::handle_forwarding_key`).
pub open spec fn forwarding_key_follows(a: &App, b: &App, key: Key, r: Request) -> bool {
    &&& (!(b.screen is PodPicker))
    &&& ((key == Key::Esc || key == Key::Char('q')) ==> r == Request::StopForward
                && b.screen == Screen::Menu && b.status_key
                == StatusKey::ForwardStopped && b.status@ == status_line_of(
                StatusKey::ForwardStopped,
                a.lang,
            ) && b.selected == a.selected && keeps_details(b, a))
    &&& (!(key == Key::Esc || key == Key::Char('q')) ==> r == Request::Nothing && unchanged(
                b,
                a,
            ))
}

/// The keys of the screen that shows a failed installation: Enter or Esc
/// goes back to the menu, keeping the selected entry and the status; every
/// other key leaves everything as it is.
pub open spec fn install_failed_key_follows(a: &App, b: &App, key: Key) -> bool {
    if key == Key::Enter || key == Key::Esc {
        &&& b.screen == Screen::Menu
        &&& keeps_details(b, a)
        &&& b.selected == a.selected
        &&& b.status == a.status
        &&& b.status_key == a.status_key
    } else {
        unchanged(b, a)
    }
}

/// What a key does on the screen that is shown (see `App::handle_key`).
pub open spec fn key_follows(a: &App, b: &App, pods: &PodHandler, key: Key, r: Result<Request>) -> bool {
    match a.screen {
        Screen::Initialize => r matches Ok(q) && initialize_key_follows(a, b, key, q),
        Screen::Menu => r matches Ok(q) && menu_key_follows(a, b, key, q),
        Screen::Report(_) => r matches Ok(q) && report_key_follows(a, b, key, q),
        Screen::InstallFailed { .. } => r matches Ok(q) && q == Request::Nothing
            && install_failed_key_follows(a, b, key),
        Screen::PodPicker(action) => r matches Ok(q) && picker_key_follows(a, b, pods, action, key, q),
        Screen::Form(kind) => form_key_follows(a, b, kind, key, r),
        Screen::ConfirmUninstall { .. } => r matches Ok(q) && uninstall_key_follows(a, b, key, q),
        Screen::Forwarding { .. } => r matches Ok(q) && forwarding_key_follows(a, b, key, q),
    }
}

/// `b` is `a` with the error `e` shown in the status line.
pub open spec fn shows_error(a: &App, b: &App, e: ThumedError) -> bool {
    &&& keeps_details(b, a)
    &&& b.screen == a.screen
    &&& b.selected == a.selected
    &&& b.status_key == StatusKey::Blank
    &&& exists|io_text: Seq<char>| b.status@ == #[trigger] error_text_spec(&e, a.lang, io_text)
}

impl App {
    /// The keys of the setup prompt: Enter checks the environment, Esc goes
    /// to the menu with "check environment" selected.
    pub fn handle_initialize_key(&mut self, key: Key) -> (r: Request)
        requires
            app_wf(old(self)),
            old(self).screen is Initialize,
        ensures
            app_wf(final(self)),
            initialize_key_follows(old(self), final(self), key, r),
    {
        match key {
            Key::Enter => Request::CheckEnvironment,
            Key::Esc => {
                self.selected = MENU_COUNT - 1;
                self.screen = Screen::Menu;
                Request::Nothing
            },
            _ => Request::Nothing,
        }
    }

    /// The keys of the main menu.
    pub fn handle_menu_key(&mut self, key: Key) -> (r: Request)
        requires
            app_wf(old(self)),
            old(self).screen is Menu,
        ensures
            app_wf(final(self)),
            menu_key_follows(old(self), final(self), key, r),
    {
        match key {
            Key::Up | Key::Char('k') => {
                self.move_selection(-1);
                proof {
                    vstd::arithmetic::div_mod::lemma_add_mod_noop_right(
                        old(self).selected as int - 1,
                        6,
                        6,
                    );
                    vstd::arithmetic::div_mod::lemma_mod_self_0(6);
                }
                Request::Nothing
            },
            Key::Down | Key::Char('j') => {
                self.move_selection(1);
                Request::Nothing
            },
            Key::Enter => {
                if self.selected == 0 {
                    self.begin_form();
                    Request::Nothing
                } else if self.selected == 1 {
                    Request::OpenPodPicker(PodAction::Login)
                } else if self.selected == 2 {
                    Request::OpenPodPicker(PodAction::Forward)
                } else if self.selected == 3 {
                    Request::OpenPodPicker(PodAction::Uninstall)
                } else if self.selected == 4 {
                    Request::LoadCredentials
                } else {
                    Request::CheckEnvironment
                }
            },
            _ => Request::Nothing,
        }
    }

    /// The keys of the environment report.
    pub fn handle_report_key(&mut self, key: Key) -> (r: Request)
        requires
            app_wf(old(self)),
            old(self).screen is Report,
        ensures
            app_wf(final(self)),
            report_key_follows(old(self), final(self), key, r),
    {
        match key {
            Key::Esc | Key::Enter => {
                self.screen = Screen::Menu;
                Request::Nothing
            },
            Key::Char('r') => Request::CheckEnvironment,
            Key::Char('u') => Request::LoadCredentials,
            Key::Up | Key::Down | Key::PageUp | Key::PageDown | Key::Home | Key::End => {
                Request::ScrollReport(key)
            },
            _ => Request::Nothing,
        }
    }

    /// The keys of the pod picker: move, type a number, choose.
    pub fn handle_pod_picker_key(&mut self, pods: &PodHandler, action: PodAction, key: Key) -> (r:
        Request)
        requires
            app_wf(old(self)),
            old(self).screen == Screen::PodPicker(action),
            picker_wf(old(self), pods),
            pods.pod_list@.len() <= isize::MAX,
        ensures
            app_wf(final(self)),
            picker_wf(final(self), pods),
            picker_key_follows(old(self), final(self), pods, action, key, r),
    {
        let count = pods.pod_list.len();
        match key {
            Key::Esc => {
                self.screen = Screen::Menu;
                Request::Nothing
            },
            Key::Up | Key::Char('k') => {
                self.pod_selected = move_index(self.pod_selected, -1, count);
                proof {
                    vstd::arithmetic::div_mod::lemma_mod_bound(old(self).pod_selected - 1, count as int);
                }
                Request::Nothing
            },
            Key::Down | Key::Char('j') => {
                self.pod_selected = move_index(self.pod_selected, 1, count);
                proof {
                    vstd::arithmetic::div_mod::lemma_mod_bound(old(self).pod_selected + 1, count as int);
                }
                Request::Nothing
            },
            Key::Backspace => {
                self.pop_pod_number();
                Request::Nothing
            },
            Key::Enter => {
                if !self.pod_number.as_str().is_empty() {
                    let number = match parse_pod_number(self.pod_number.as_str()) {
                        Some(n) => n,
                        None => 0,
                    };
                    if number == 0 || number > count {
                        let count_text = crate::text::decimal_string(count as u64);
                        let args = [count_text.as_str()];
                        let text = fill(self.lang.t().status_pod_range, &args);
                        assert(views(args@) =~= seq![crate::text::decimal(count as nat)]);
                        self.set_status_text(text);
                        return Request::Nothing;
                    }
                    self.pod_selected = number - 1;
                }
                let pod_name = string_of(chars_of(pods.pod_list[self.pod_selected].as_str()).as_slice());
                match action {
                    PodAction::Login => {
                        self.screen = Screen::Menu;
                        Request::Login(pod_name)
                    },
                    PodAction::Forward => Request::StartForward(pod_name),
                    PodAction::Uninstall => Request::FindRelease(pod_name),
                }
            },
            Key::Char(digit) => {
                if self.push_pod_digit(digit) {
                    match parse_pod_number(self.pod_number.as_str()) {
                        Some(number) => {
                            if number >= 1 && number <= count {
                                self.pod_selected = number - 1;
                            }
                        },
                        None => {},
                    }
                }
                Request::Nothing
            },
            _ => Request::Nothing,
        }
    }

    /// Removes the last typed digit of the pod number.
    fn pop_pod_number(&mut self)
        requires
            valid_pod_number(old(self).pod_number@),
        ensures
            final(self).pod_number@ == (if old(self).pod_number@.len() > 0 {
                old(self).pod_number@.drop_last()
            } else {
                old(self).pod_number@
            }),
            valid_pod_number(final(self).pod_number@),
            final(self).screen == old(self).screen,
            final(self).selected == old(self).selected,
            final(self).pod_selected == old(self).pod_selected,
            final(self).form_values == old(self).form_values,
            final(self).form_selected == old(self).form_selected,
            final(self).status == old(self).status,
            final(self).status_key == old(self).status_key,
            final(self).lang == old(self).lang,
            final(self).credentials == old(self).credentials,
            final(self).report_scroll == old(self).report_scroll,
    {
        let v = chars_of(self.pod_number.as_str());
        if v.len() > 0 {
            let shorter = crate::text::slice_of(v.as_slice(), 0, v.len() - 1);
            assert(shorter@ == v@.drop_last());
            self.pod_number = string_of(shorter.as_slice());
            proof {
                let t = old(self).pod_number@;
                assert forall|i: int| 0 <= i < t.len() - 1 implies is_ascii_digit(
                    #[trigger] t.drop_last()[i],
                ) by {
                    assert(t.drop_last()[i] == t[i]);
                }
            }
        }
    }

    /// Types a digit into the pod number, where it may stand there.
    fn push_pod_digit(&mut self, digit: char) -> (r: bool)
        requires
            valid_pod_number(old(self).pod_number@),
        ensures
            r == (is_ascii_digit(digit) && !(digit == '0' && old(self).pod_number@.len() == 0)),
            r ==> final(self).pod_number@ == old(self).pod_number@.push(digit),
            !r ==> final(self).pod_number@ == old(self).pod_number@,
            valid_pod_number(final(self).pod_number@),
            final(self).screen == old(self).screen,
            final(self).selected == old(self).selected,
            final(self).pod_selected == old(self).pod_selected,
            final(self).form_values == old(self).form_values,
            final(self).form_selected == old(self).form_selected,
            final(self).status == old(self).status,
            final(self).status_key == old(self).status_key,
            final(self).lang == old(self).lang,
            final(self).credentials == old(self).credentials,
            final(self).report_scroll == old(self).report_scroll,
    {
        let r = append_pod_number(&mut self.pod_number, digit);
        proof {
            if r {
                lemma_pod_number_stays_valid(old(self).pod_number@, digit);
            }
        }
        r
    }
}

/// The form's fields after an edit of the selected one.
pub open spec fn edited_field(old_value: Seq<char>, key: Key) -> Seq<char> {
    match key {
        Key::Backspace => if old_value.len() > 0 {
            old_value.drop_last()
        } else {
            old_value
        },
        Key::Delete => seq![],
        Key::Char(c) => old_value.push(c),
        _ => old_value,
    }
}

pub open spec fn is_edit_key(key: Key) -> bool {
    key == Key::Backspace || key == Key::Delete || key is Char
}

impl App {
    /// The keys of a form: move between fields, edit the selected one, submit
    /// or cancel.
    pub fn handle_form_key(&mut self, kind: FormKind, key: Key) -> (r: Result<Request>)
        requires
            app_wf(old(self)),
            old(self).screen == Screen::Form(kind),
        ensures
            app_wf(final(self)),
            form_key_follows(old(self), final(self), kind, key, r),
    {
        let n = self.form_values.len();
        match key {
            Key::Esc => {
                self.credentials = None;
                self.form_values = Vec::new();
                self.screen = Screen::Menu;
                Ok(Request::Nothing)
            },
            Key::Up | Key::BackTab => {
                self.form_selected = move_index(self.form_selected, -1, n);
                proof {
                    vstd::arithmetic::div_mod::lemma_mod_bound(old(self).form_selected - 1, n as int);
                }
                Ok(Request::Nothing)
            },
            Key::Down | Key::Tab => {
                self.form_selected = move_index(self.form_selected, 1, n);
                proof {
                    vstd::arithmetic::div_mod::lemma_mod_bound(old(self).form_selected + 1, n as int);
                }
                Ok(Request::Nothing)
            },
            Key::Backspace | Key::Delete | Key::Char(_) => {
                let i = self.form_selected;
                let current = chars_of(self.form_values[i].as_str());
                let edited: Vec<char> = match key {
                    Key::Backspace => if current.len() > 0 {
                        crate::text::slice_of(current.as_slice(), 0, current.len() - 1)
                    } else {
                        current
                    },
                    Key::Delete => Vec::new(),
                    Key::Char(c) => {
                        let mut e = current;
                        e.push(c);
                        e
                    },
                    _ => current,
                };
                assert(edited@ == edited_field(old(self).form_values@[i as int]@, key));
                self.form_values.set(i, string_of(edited.as_slice()));
                Ok(Request::Nothing)
            },
            Key::Enter => {
                match kind {
                    FormKind::Credentials => {
                        match self.credentials.take() {
                            None => Err(ThumedError::Invalid(Invalid::SavedCredentials)),
                            Some(info) => {
                                let mut info = info;
                                info.user = string_of(
                                    trimmed(chars_of(self.form_values[0].as_str()).as_slice()).as_slice(),
                                );
                                info.password = string_of(
                                    chars_of(self.form_values[1].as_str()).as_slice(),
                                );
                                self.credentials = Some(info);
                                Ok(Request::SaveCredentials)
                            },
                        }
                    },
                    FormKind::Install => {
                        let config = PodConfig::from_values(
                            self.form_values[0].as_str(),
                            self.form_values[1].as_str(),
                            self.form_values[2].as_str(),
                        )?;
                        self.set_status(StatusKey::Installing);
                        Ok(Request::Install(config))
                    },
                }
            },
            _ => Ok(Request::Nothing),
        }
    }

    /// The keys of the uninstall confirmation: `y` uninstalls, `n` or Esc
    /// cancels.
    pub fn handle_uninstall_confirmation(&mut self, key: Key) -> (r: Request)
        requires
            app_wf(old(self)),
            old(self).screen is ConfirmUninstall,
        ensures
            app_wf(final(self)),
            uninstall_key_follows(old(self), final(self), key, r),
    {
        match key {
            Key::Char('y') | Key::Char('Y') => {
                match &self.screen {
                    Screen::ConfirmUninstall { pod_name, release } => Request::Uninstall {
                        pod_name: string_of(chars_of(pod_name.as_str()).as_slice()),
                        release: string_of(chars_of(release.as_str()).as_slice()),
                    },
                    _ => Request::Nothing,
                }
            },
            Key::Char('n') | Key::Char('N') | Key::Esc => {
                self.set_status(StatusKey::UninstallCancelled);
                self.screen = Screen::Menu;
                Request::Nothing
            },
            _ => Request::Nothing,
        }
    }

    /// The keys of the forwarding screen: Esc or `q` stops forwarding.
    pub fn handle_forwarding_key(&mut self, key: Key) -> (r: Request)
        requires
            app_wf(old(self)),
            old(self).screen is Forwarding,
        ensures
            app_wf(final(self)),
            forwarding_key_follows(old(self), final(self), key, r),
    {
        match key {
            Key::Esc | Key::Char('q') => {
                self.screen = Screen::Menu;
                self.set_status(StatusKey::ForwardStopped);
                Request::StopForward
            },
            _ => Request::Nothing,
        }
    }

    /// A key on whatever screen is shown.
    pub fn handle_key(&mut self, pods: &PodHandler, key: Key) -> (r: Result<Request>)
        requires
            app_wf(old(self)),
            picker_wf(old(self), pods),
            pods.pod_list@.len() <= isize::MAX,
        ensures
            app_wf(final(self)),
            picker_wf(final(self), pods),
            key_follows(old(self), final(self), pods, key, r),
    {
        match &self.screen {
            Screen::Initialize => Ok(self.handle_initialize_key(key)),
            Screen::Menu => Ok(self.handle_menu_key(key)),
            Screen::Report(_) => Ok(self.handle_report_key(key)),
            Screen::InstallFailed { .. } => {
                match key {
                    Key::Enter | Key::Esc => {
                        self.screen = Screen::Menu;
                    },
                    _ => {},
                }
                Ok(Request::Nothing)
            },
            Screen::PodPicker(action) => {
                let action = *action;
                Ok(self.handle_pod_picker_key(pods, action, key))
            },
            Screen::Form(kind) => {
                let kind = *kind;
                self.handle_form_key(kind, key)
            },
            Screen::ConfirmUninstall { .. } => Ok(self.handle_uninstall_confirmation(key)),
            Screen::Forwarding { .. } => Ok(self.handle_forwarding_key(key)),
        }
    }

    /// A key as the event loop gets it: F2 switches the language, `q` or Esc
    /// on the menu quits, anything else goes to the screen; an error shows in
    /// the status line.
    pub fn on_key(&mut self, pods: &PodHandler, key: Key) -> (r: Request)
        requires
            app_wf(old(self)),
            picker_wf(old(self), pods),
            pods.pod_list@.len() <= isize::MAX,
        ensures
            app_wf(final(self)),
            picker_wf(final(self), pods),
            key == Key::F(2) ==> r == Request::Nothing && switches_language(old(self), final(self)),
            key != Key::F(2) && old(self).screen is Menu && (key == Key::Char('q') || key
                == Key::Esc) ==> r == Request::Quit && unchanged(final(self), old(self)),
            key != Key::F(2) && !(old(self).screen is Menu && (key == Key::Char('q') || key
                == Key::Esc)) ==> exists|mid: App, res: Result<Request>|
                #[trigger] key_follows(old(self), &mid, pods, key, res) && match res {
                    Ok(q) => r == q && *final(self) == mid,
                    Err(e) => r == Request::Nothing && shows_error(&mid, final(self), e),
                },
    {
        if key == Key::F(2) {
            self.toggle_lang();
            return Request::Nothing;
        }
        if matches!(self.screen, Screen::Menu) && (key == Key::Char('q') || key == Key::Esc) {
            return Request::Quit;
        }
        let res = self.handle_key(pods, key);
        let ghost mid = *self;
        let ghost handled = res;
        assert(key_follows(old(self), &mid, pods, key, handled));
        match res {
            Ok(request) => request,
            Err(error) => {
                self.set_error(&error);
                Request::Nothing
            },
        }
    }
}

/// The last line of the trimmed error output of a forwarding process (empty
/// where there is none).
pub open spec fn last_error_line(stderr: Seq<char>) -> Seq<char> {
    let ls = lines(trim(stderr));
    if ls.len() > 0 {
        ls.last()
    } else {
        seq![]
    }
}

impl App {
    /// An environment check starts: the status says so and the report will
    /// show from its top.
    pub fn begin_environment_check(&mut self)
        requires
            app_wf(old(self)),
        ensures
            app_wf(final(self)),
            final(self).status_key == StatusKey::Checking,
            final(self).status@ == status_line_of(StatusKey::Checking, old(self).lang),
            final(self).report_scroll == 0,
            final(self).screen == old(self).screen,
            final(self).selected == old(self).selected,
            final(self).lang == old(self).lang,
            final(self).form_values == old(self).form_values,
            final(self).form_selected == old(self).form_selected,
            final(self).credentials == old(self).credentials,
            final(self).pod_number == old(self).pod_number,
            final(self).pod_selected == old(self).pod_selected,
    {
        self.set_status(StatusKey::Checking);
        self.report_scroll = 0;
    }

    /// The finished check stays visible as a report. Where every check passed
    /// and that was recorded, the first menu entry is selected; otherwise
    /// "check environment", with the reason in the status line.
    pub fn environment_checked(&mut self, report: Vec<CheckResult>, recorded: Result<bool>)
        requires
            app_wf(old(self)),
        ensures
            app_wf(final(self)),
            final(self).screen == Screen::Report(report),
            final(self).report_scroll == old(self).report_scroll,
            final(self).lang == old(self).lang,
            recorded matches Ok(true) ==> final(self).selected == 0 && final(self).status_key
                == StatusKey::EnvDone && final(self).status@ == status_line_of(
                StatusKey::EnvDone,
                old(self).lang,
            ),
            recorded matches Ok(false) ==> final(self).selected == MENU_COUNT - 1
                && final(self).status_key == StatusKey::EnvIncomplete && final(self).status@
                == status_line_of(StatusKey::EnvIncomplete, old(self).lang),
            recorded matches Err(e) ==> final(self).selected == MENU_COUNT - 1 && exists|
                io_text: Seq<char>,
            | final(self).status@ == #[trigger] error_text_spec(&e, old(self).lang, io_text),
    {
        // Keep successful reports visible too, until the user explicitly leaves.
        self.screen = Screen::Report(report);
        match recorded {
            Ok(true) => {
                self.selected = 0;
                self.set_status(StatusKey::EnvDone);
            },
            Ok(false) => {
                self.selected = MENU_COUNT - 1;
                self.set_status(StatusKey::EnvIncomplete);
            },
            Err(error) => {
                self.selected = MENU_COUNT - 1;
                self.set_error(&error);
            },
        }
    }

    /// After the pod list was refreshed: how many pods there are, or why the
    /// refresh failed.
    pub fn pods_refreshed(&mut self, pods: &PodHandler, result: Result<()>)
        requires
            app_wf(old(self)),
        ensures
            app_wf(final(self)),
            final(self).screen == old(self).screen,
            final(self).selected == old(self).selected,
            result is Ok ==> final(self).status@ == fill_spec(
                strings_for(old(self).lang).status_pods_loaded@,
                seq![decimal(pods.pod_list@.len())],
            ),
            result matches Err(e) ==> exists|io_text: Seq<char>|
                final(self).status@ == #[trigger] error_text_spec(&e, old(self).lang, io_text),
    {
        match result {
            Ok(()) => {
                let count = decimal_string(pods.pod_list.len() as u64);
                let args = [count.as_str()];
                let text = fill(self.lang.t().status_pods_loaded, &args);
                assert(views(args@) =~= seq![decimal(pods.pod_list@.len())]);
                self.set_status_text(text);
            },
            Err(error) => self.set_error(&error),
        }
    }

    /// Opens the pod picker, or says that there is no pod.
    pub fn open_pod_picker(&mut self, pods: &PodHandler, action: PodAction)
        requires
            app_wf(old(self)),
            !(old(self).screen is PodPicker),
        ensures
            app_wf(final(self)),
            picker_wf(final(self), pods),
            pods.pod_list@.len() == 0 ==> final(self).status_key == StatusKey::NoPods
                && final(self).screen == old(self).screen,
            pods.pod_list@.len() > 0 ==> final(self).screen == Screen::PodPicker(action)
                && final(self).pod_selected == 0 && final(self).pod_number@.len() == 0
                && final(self).status == old(self).status,
    {
        if pods.pod_list.len() == 0 {
            self.set_status(StatusKey::NoPods);
        } else {
            self.pod_selected = 0;
            self.pod_number = String::new();
            self.screen = Screen::PodPicker(action);
        }
    }

    /// After an interactive login.
    pub fn login_finished(&mut self, result: Result<()>)
        requires
            app_wf(old(self)),
        ensures
            app_wf(final(self)),
            final(self).screen == old(self).screen,
            result is Ok ==> final(self).status_key == StatusKey::LoginEnded,
            result matches Err(e) ==> exists|io_text: Seq<char>|
                final(self).status@ == #[trigger] error_text_spec(&e, old(self).lang, io_text),
    {
        match result {
            Ok(()) => self.set_status(StatusKey::LoginEnded),
            Err(error) => self.set_error(&error),
        }
    }

    /// After an attempt to start port forwarding.
    pub fn forward_started(&mut self, pod_name: String, result: Result<()>)
        requires
            app_wf(old(self)),
        ensures
            app_wf(final(self)),
            result is Ok ==> final(self).screen == (Screen::Forwarding { pod_name })
                && final(self).status_key == StatusKey::ForwardStarted,
            result matches Err(e) ==> final(self).screen == old(self).screen && exists|
                io_text: Seq<char>,
            | final(self).status@ == #[trigger] error_text_spec(&e, old(self).lang, io_text),
    {
        match result {
            Ok(()) => {
                self.screen = Screen::Forwarding { pod_name };
                self.set_status(StatusKey::ForwardStarted);
            },
            Err(error) => self.set_error(&error),
        }
    }

    /// After looking up the release of the pod to uninstall: ask to confirm.
    pub fn release_found(&mut self, pod_name: String, result: Result<String>)
        requires
            app_wf(old(self)),
        ensures
            app_wf(final(self)),
            result matches Ok(release) ==> final(self).screen == (Screen::ConfirmUninstall {
                pod_name,
                release,
            }),
            result matches Err(e) ==> final(self).screen == old(self).screen && exists|
                io_text: Seq<char>,
            | final(self).status@ == #[trigger] error_text_spec(&e, old(self).lang, io_text),
    {
        match result {
            Ok(release) => {
                self.screen = Screen::ConfirmUninstall { pod_name, release };
            },
            Err(error) => self.set_error(&error),
        }
    }

    /// After saving the account: back to the menu.
    pub fn credentials_saved(&mut self, result: Result<()>)
        requires
            app_wf(old(self)),
        ensures
            app_wf(final(self)),
            result is Ok ==> final(self).screen == Screen::Menu && final(self).credentials is None
                && final(self).form_values@.len() == 0 && final(self).status_key
                == StatusKey::UserSaved && final(self).status@ == status_line_of(
                StatusKey::UserSaved,
                old(self).lang,
            ),
            result matches Err(e) ==> final(self).screen == old(self).screen && exists|
                io_text: Seq<char>,
            | final(self).status@ == #[trigger] error_text_spec(&e, old(self).lang, io_text),
    {
        match result {
            Ok(()) => {
                self.credentials = None;
                self.form_values = Vec::new();
                self.screen = Screen::Menu;
                self.set_status(StatusKey::UserSaved);
            },
            Err(error) => self.set_error(&error),
        }
    }

    /// After installing and waiting: a running pod joins the list and the menu
    /// returns; a failure stays visible until dismissed, with "uninstall
    /// pod" selected where the pod failed to start.
    pub fn finish_installation(
        &mut self,
        pods: &mut PodHandler,
        release: String,
        result: Result<Vec<String>>,
    )
        requires
            app_wf(old(self)),
        ensures
            app_wf(final(self)),
            final(self).form_values@.len() == 0,
            result is Ok ==> final(self).screen == Screen::Menu && final(self).selected == 0
                && final(self).status_key == StatusKey::Installed && final(self).status@
                == status_line_of(StatusKey::Installed, old(self).lang),
            result matches Err(e) ==> exists|io_text: Seq<char>|
                final(self).status@ == #[trigger] error_text_spec(&e, old(self).lang, io_text),
            result matches Ok(names) ==> strictly_sorted(texts(final(pods).pod_list@)) && forall|
                y: Seq<char>,
            |
                #![trigger texts(final(pods).pod_list@).contains(y)]
                #![trigger texts(old(pods).pod_list@).contains(y)]
                #![trigger texts(names@).contains(y)]
                texts(final(pods).pod_list@).contains(y) <==> (texts(old(pods).pod_list@).contains(
                    y,
                ) || texts(names@).contains(y)),
            result matches Err(e) ==> final(self).screen == (Screen::InstallFailed {
                release,
                error: e,
            }) && final(self).selected == (if e is PodStartupFailed {
                3usize
            } else {
                0usize
            }) && final(pods).pod_list == old(pods).pod_list,
    {
        self.form_values = Vec::new();
        match result {
            Ok(names) => {
                pods.add_pods(names);
                self.selected = 0;
                self.screen = Screen::Menu;
                self.set_status(StatusKey::Installed);
            },
            Err(error) => {
                self.selected = if matches!(error, ThumedError::PodStartupFailed { .. }) {
                    3
                } else {
                    0
                };
                self.set_error(&error);
                self.screen = Screen::InstallFailed { release, error };
            },
        }
    }

    /// After uninstalling: back to the menu, naming what was removed.
    pub fn uninstall_finished(&mut self, pod_name: &str, release: &str, result: Result<()>)
        requires
            app_wf(old(self)),
        ensures
            app_wf(final(self)),
            result is Ok ==> final(self).screen == Screen::Menu && final(self).status@ == fill_spec(
                strings_for(old(self).lang).status_uninstalled@,
                seq![pod_name@, release@],
            ),
            result matches Err(e) ==> final(self).screen == old(self).screen && exists|
                io_text: Seq<char>,
            | final(self).status@ == #[trigger] error_text_spec(&e, old(self).lang, io_text),
    {
        match result {
            Ok(()) => {
                let args = [pod_name, release];
                let text = fill(self.lang.t().status_uninstalled, &args);
                assert(views(args@) =~= seq![pod_name@, release@]);
                self.set_status_text(text);
                self.screen = Screen::Menu;
            },
            Err(error) => self.set_error(&error),
        }
    }

    /// A forwarding process ended by itself: back to the menu, with the last
    /// line of what it printed on error.
    pub fn forward_exited(&mut self, stderr: &str)
        requires
            app_wf(old(self)),
        ensures
            app_wf(final(self)),
            final(self).screen == Screen::Menu,
            final(self).status@ == fill_spec(
                strings_for(old(self).lang).status_forward_failed@,
                seq![last_error_line(stderr@)],
            ),
    {
        let t = trimmed(chars_of(stderr).as_slice());
        let ls = lines_of(t.as_slice());
        let last: Vec<char> = if ls.len() > 0 {
            let l = ls[ls.len() - 1].clone();
            proof {
                lemma_chars_deep_view(l);
                lemma_chars_deep_view(ls[ls.len() - 1]);
                assert(ls.deep_view()[ls.len() - 1] == ls[ls.len() - 1]@);
            }
            l
        } else {
            Vec::new()
        };
        let line = string_of(last.as_slice());
        let args = [line.as_str()];
        let message = fill(self.lang.t().status_forward_failed, &args);
        assert(views(args@) =~= seq![last_error_line(stderr@)]);
        self.set_status_text(message);
        self.screen = Screen::Menu;
    }
}

} // verus!
