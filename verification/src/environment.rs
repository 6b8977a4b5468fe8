//! The environment check and the lecture account.
use crate::constants::{HELM_CHART, HELM_REPO_NAME, HELM_REPO_URL, LECTURE_PASSWORD};
use crate::error::{Invalid, Result, ThumedError};
use crate::text::{
    ascii_alphanumeric, decimal, chars_of, has_control, is_ascii_alphanumeric, is_text,
    lemma_chars_deep_view, lemma_index_of_is, lemma_trim_shape, lines, lines_of, no_control,
    push_all, push_str, split, split_chars, string_of, trim, trimmed,
};
use crate::tools::SetupStep;
use vstd::prelude::*;

verus! {

// ---------------------------------------------------------------------------
// The lecture account
// ---------------------------------------------------------------------------
/// Only the lecture TUI deliberately displays the account/password. Never
/// include kubeconfig private keys/tokens in a report.
pub struct UserInfo {
    pub user: String,
    pub password: String,
    pub context: String,
    pub server: String,
    pub namespace: String,
    pub customized: bool,
    /// The kubeconfig user that the account was made from; saved credentials
    /// are bound to it.
    pub config_user: String,
}

/// A user name that the lecture account accepts: not empty, not `.` or `..`,
/// and made of ASCII letters, digits, `_`, `.`, `-` and `@` only.
pub open spec fn valid_username(u: Seq<char>) -> bool {
    &&& u.len() > 0
    &&& u != "."@
    &&& u != ".."@
    &&& forall|i: int| 0 <= i < u.len() ==> is_username_char(#[trigger] u[i])
}

pub open spec fn is_username_char(c: char) -> bool {
    is_ascii_alphanumeric(c) || c == '_' || c == '.' || c == '-' || c == '@'
}

/// The lecture account takes a user name exactly when it is not empty, not
/// `.` or `..`, and made of ASCII letters, decimal digits and the characters
/// `_`, `.`, `-` and `@` alone.
pub proof fn lemma_username_characters(u: Seq<char>)
    ensures
        valid_username(u) <==> {
            &&& u.len() > 0
            &&& u != "."@
            &&& u != ".."@
            &&& forall|i: int|
                0 <= i < u.len() ==> {
                    let c = #[trigger] u[i];
                    ||| ('a' <= c && c <= 'z')
                    ||| ('A' <= c && c <= 'Z')
                    ||| ('0' <= c && c <= '9')
                    ||| c == '_'
                    ||| c == '.'
                    ||| c == '-'
                    ||| c == '@'
                }
        },
{
}

/// A user name and password that may be saved: the name (trimmed) is valid,
/// the password holds more than white space and no control character.
pub open spec fn credentials_ok(user: Seq<char>, password: Seq<char>) -> bool {
    valid_username(trim(user)) && trim(password).len() > 0 && no_control(password)
}

/// The line that binds saved credentials to one context, cluster and
/// kubeconfig user.
pub open spec fn scope_line(context: Seq<char>, server: Seq<char>, config_user: Seq<char>) -> Seq<
    char,
> {
    context + "\t"@ + server + "\t"@ + config_user
}

/// The lines of a credentials file.
pub open spec fn override_lines(scope: Seq<char>, user: Seq<char>, password: Seq<char>) -> Seq<
    char,
> {
    scope + "\n"@ + trim(user) + "\n"@ + password + "\n"@
}

/// What `kubectl config view` printed names an account: four lines, a
/// context and a server, no control characters, and a valid user name.
pub open spec fn config_view_ok(output: Seq<char>) -> bool {
    let f = split(output, '\n');
    &&& f.len() == 4
    &&& trim(f[0]).len() > 0
    &&& trim(f[2]).len() > 0
    &&& forall|i: int| 0 <= i < 4 ==> no_control(#[trigger] f[i])
    &&& valid_username(trim(f[1]))
}

/// The account that `kubectl config view` names: the trimmed user name with
/// the lecture password, the trimmed context and server, the namespace or
/// `default`.
pub open spec fn config_view_account(output: Seq<char>, info: UserInfo) -> bool {
    let f = split(output, '\n');
    &&& info.user@ == trim(f[1])
    &&& info.password@ == LECTURE_PASSWORD@
    &&& info.context@ == trim(f[0])
    &&& info.server@ == trim(f[2])
    &&& info.namespace@ == (if trim(f[3]).len() > 0 {
        trim(f[3])
    } else {
        "default"@
    })
    &&& !info.customized
    &&& info.config_user@ == trim(f[1])
}

/// Whether applying saved credentials succeeds: there are none, they belong
/// to another scope, or they are valid.
pub open spec fn override_succeeds(info: UserInfo, saved: Result<Option<String>>) -> bool {
    match saved {
        Err(_) => false,
        Ok(None) => true,
        Ok(Some(text)) => {
            let ls = lines(text@);
            ls.len() == 0 || ls[0] != info.scope_view() || (ls.len() == 3 && credentials_ok(
                ls[1],
                ls[2],
            ))
        },
    }
}

/// What applying saved credentials gives (see `UserInfo::load_override`).
pub open spec fn override_applied(info: UserInfo, saved: Result<Option<String>>, r: Result<UserInfo>) -> bool {
    match saved {
        Err(e) => r matches Err(x) && x == e,
        Ok(None) => r matches Ok(i) && i == info,
        Ok(Some(text)) => {
            let ls = lines(text@);
            if ls.len() == 0 || ls[0] != info.scope_view() {
                r matches Ok(i) && i == info
            } else if ls.len() == 3 && credentials_ok(ls[1], ls[2]) {
                r matches Ok(i) && i.user@ == trim(ls[1]) && i.password@ == ls[2] && i.customized
                    && i.context == info.context && i.server == info.server && i.namespace
                    == info.namespace && i.config_user@ == info.config_user@
            } else {
                r matches Err(e) && e == ThumedError::Invalid(Invalid::SavedCredentials)
            }
        },
    }
}

/// What `kubectl config view` prints for the account: the current context,
/// its user, its cluster's server and its namespace, one per line. The view is
/// flattened, which checks the files it names, and holds no key or token.
pub open spec fn config_view_columns() -> Seq<char> {
    "jsonpath={.current-context}{\"\\n\"}{.contexts[0].context.user}{\"\\n\"}{.clusters[0].cluster.server}{\"\\n\"}{.contexts[0].context.namespace}"@
}

/// The kubectl arguments that `UserInfo::from_kubeconfig` reads the output of.
pub fn kubeconfig_view_args() -> (r: Vec<&'static str>)
    ensures
        r@.map_values(|a: &str| a@) == seq![
            "config"@,
            "view"@,
            "--minify"@,
            "--flatten"@,
            "-o"@,
            config_view_columns(),
        ],
{
    let mut r: Vec<&'static str> = Vec::new();
    r.push("config");
    r.push("view");
    r.push("--minify");
    r.push("--flatten");
    r.push("-o");
    r.push("jsonpath={.current-context}{\"\\n\"}{.contexts[0].context.user}{\"\\n\"}{.clusters[0].cluster.server}{\"\\n\"}{.contexts[0].context.namespace}");
    assert(r@.map_values(|a: &str| a@) =~= seq![
        "config"@,
        "view"@,
        "--minify"@,
        "--flatten"@,
        "-o"@,
        config_view_columns(),
    ]);
    r
}

impl UserInfo {
    /// The account of the current kubeconfig context, from what `kubectl
    /// config view` printed for it (or why it could not be run).
    pub fn from_kubeconfig(output: Result<String>) -> (r: Result<Self>)
        ensures
            match output {
                Err(e) => r matches Err(x) && x == e,
                Ok(out) => (r is Ok <==> config_view_ok(out@)) && (r matches Err(e) ==> e
                    == ThumedError::Invalid(Invalid::KubeUser)) && (r matches Ok(info)
                    ==> config_view_account(out@, info)),
            },
    {
        match output {
            Err(e) => Err(e),
            Ok(out) => Self::from_config_view(out.as_str()),
        }
    }

    /// The lecture account: the kubeconfig's account, with the credentials
    /// that were saved for exactly that context applied.
    pub fn load(output: Result<String>, saved: Result<Option<String>>) -> (r: Result<Self>)
        ensures
            match output {
                Err(e) => r matches Err(x) && x == e,
                Ok(out) => if config_view_ok(out@) {
                    exists|base: UserInfo|
                        config_view_account(out@, base) && #[trigger] override_applied(
                            base,
                            saved,
                            r,
                        )
                } else {
                    r matches Err(e) && e == ThumedError::Invalid(Invalid::KubeUser)
                },
            },
    {
        match Self::from_kubeconfig(output) {
            Err(e) => Err(e),
            Ok(info) => info.load_override(saved),
        }
    }

    /// The account to edit: as `load` gives it, that is with the credentials
    /// saved for this scope where there are valid ones; where the saved
    /// credentials are damaged or cannot be read, the kubeconfig's account, so
    /// that they can be repaired.
    pub fn load_or_default(output: Result<String>, saved: Result<Option<String>>) -> (r: Result<
        Self,
    >)
        ensures
            match output {
                Err(e) => r matches Err(x) && x == e,
                Ok(out) => if config_view_ok(out@) {
                    exists|base: UserInfo|
                        #[trigger] config_view_account(out@, base) && if override_succeeds(
                            base,
                            saved,
                        ) {
                            override_applied(base, saved, r)
                        } else {
                            r matches Ok(info) && config_view_account(out@, info)
                        }
                } else {
                    r matches Err(e) && e == ThumedError::Invalid(Invalid::KubeUser)
                },
            },
    {
        match output {
            Err(e) => Err(e),
            Ok(out) => match Self::from_config_view(out.as_str()) {
                Err(e) => Err(e),
                Ok(base) => {
                    let ghost first = base;
                    let ghost kept = saved;
                    match base.load_override(saved) {
                        Ok(info) => {
                            let r: Result<Self> = Ok(info);
                            assert(config_view_account(out@, first) && override_applied(first, kept, r));
                            r
                        },
                        Err(_) => match Self::from_config_view(out.as_str()) {
                            Err(e) => Err(e),
                            Ok(again) => {
                                let r: Result<Self> = Ok(again);
                                assert(config_view_account(out@, again));
                                r
                            },
                        },
                    }
                },
            },
        }
    }

    /// The line that binds saved credentials to this account's context.
    pub open spec fn scope_view(&self) -> Seq<char> {
        scope_line(self.context@, self.server@, self.config_user@)
    }

    /// Builds the account of a kubeconfig user: the name trimmed, the lecture
    /// password, namespace `default`, nothing customized.
    pub fn from_username(user: &str) -> (r: Result<Self>)
        ensures
            r is Ok <==> valid_username(trim(user@)),
            r matches Err(e) ==> e == ThumedError::Invalid(Invalid::KubeUser),
            r matches Ok(info) ==> {
                &&& info.user@ == trim(user@)
                &&& info.password@ == LECTURE_PASSWORD@
                &&& info.context@ == Seq::<char>::empty()
                &&& info.server@ == Seq::<char>::empty()
                &&& info.namespace@ == "default"@
                &&& !info.customized
                &&& info.config_user@ == trim(user@)
            },
    {
        let v = chars_of(user);
        let u = trimmed(v.as_slice());
        if !username_ok(u.as_slice()) {
            return Err(ThumedError::Invalid(Invalid::KubeUser));
        }
        Ok(UserInfo {
            user: string_of(u.as_slice()),
            password: string_of(chars_of(LECTURE_PASSWORD).as_slice()),
            context: String::new(),
            server: String::new(),
            namespace: string_of(chars_of("default").as_slice()),
            customized: false,
            config_user: string_of(u.as_slice()),
        })
    }

    /// Reads the account from what `kubectl config view` printed: the current
    /// context, its user, its cluster's server and its namespace, one per line.
    pub fn from_config_view(output: &str) -> (r: Result<Self>)
        ensures
            r is Ok <==> config_view_ok(output@),
            r matches Err(e) ==> e == ThumedError::Invalid(Invalid::KubeUser),
            r matches Ok(info) ==> config_view_account(output@, info),
    {
        let v = chars_of(output);
        let fields = split_chars(v.as_slice(), '\n');
        let ghost f = split(output@, '\n');
        if fields.len() != 4 {
            return Err(ThumedError::Invalid(Invalid::KubeUser));
        }
        proof {
            lemma_chars_deep_view(fields[0]);
            lemma_chars_deep_view(fields[1]);
            lemma_chars_deep_view(fields[2]);
            lemma_chars_deep_view(fields[3]);
            assert(fields.deep_view()[0] == fields[0]@);
            assert(fields.deep_view()[1] == fields[1]@);
            assert(fields.deep_view()[2] == fields[2]@);
            assert(fields.deep_view()[3] == fields[3]@);
        }
        let context = trimmed(fields[0].as_slice());
        let server = trimmed(fields[2].as_slice());
        let namespace = trimmed(fields[3].as_slice());
        if context.len() == 0 || server.len() == 0 || has_control(fields[0].as_slice())
            || has_control(fields[1].as_slice()) || has_control(fields[2].as_slice())
            || has_control(fields[3].as_slice()) {
            return Err(ThumedError::Invalid(Invalid::KubeUser));
        }
        assert(forall|i: int| 0 <= i < 4 ==> no_control(#[trigger] f[i])) by {
            assert forall|i: int| 0 <= i < 4 implies no_control(#[trigger] f[i]) by {
                if i == 0 {
                } else if i == 1 {
                } else if i == 2 {
                } else {
                }
            }
        }
        let user = string_of(fields[1].as_slice());
        let mut info = Self::from_username(user.as_str())?;
        info.context = string_of(context.as_slice());
        info.server = string_of(server.as_slice());
        if namespace.len() > 0 {
            info.namespace = string_of(namespace.as_slice());
        }
        Ok(info)
    }

    /// The line that binds saved credentials to this account's context.
    pub fn scope(&self) -> (r: String)
        ensures
            r@ == self.scope_view(),
    {
        let mut out: Vec<char> = Vec::new();
        push_str(&mut out, self.context.as_str());
        push_str(&mut out, "\t");
        push_str(&mut out, self.server.as_str());
        push_str(&mut out, "\t");
        push_str(&mut out, self.config_user.as_str());
        string_of(out.as_slice())
    }

    /// Checks that the user name and password may be saved.
    pub fn validate_credentials(&self) -> (r: Result<()>)
        ensures
            r is Ok <==> credentials_ok(self.user@, self.password@),
            r matches Err(e) ==> e == ThumedError::Invalid(Invalid::SavedCredentials),
    {
        let u = trimmed(chars_of(self.user.as_str()).as_slice());
        if !username_ok(u.as_slice()) {
            return Err(ThumedError::Invalid(Invalid::SavedCredentials));
        }
        let p = chars_of(self.password.as_str());
        if trimmed(p.as_slice()).len() == 0 || has_control(p.as_slice()) {
            return Err(ThumedError::Invalid(Invalid::SavedCredentials));
        }
        Ok(())
    }

    /// What saving these credentials writes to `lecture-user.config`: the
    /// scope line, the trimmed user name and the password, one per line.
    /// Refused where the credentials are invalid, or where the account has no
    /// context or server. The application writes the text atomically, readable
    /// by the owner only.
    pub fn save(&self) -> (r: Result<String>)
        ensures
            r is Ok <==> credentials_ok(self.user@, self.password@) && self.context@.len() > 0
                && self.server@.len() > 0,
            r matches Err(e) ==> (if credentials_ok(self.user@, self.password@) {
                e == ThumedError::Invalid(Invalid::KubeUser)
            } else {
                e == ThumedError::Invalid(Invalid::SavedCredentials)
            }),
            r matches Ok(text) ==> text@ == override_lines(
                self.scope_view(),
                self.user@,
                self.password@,
            ),
    {
        self.validate_credentials()?;
        if self.context.as_str().is_empty() || self.server.as_str().is_empty() {
            return Err(ThumedError::Invalid(Invalid::KubeUser));
        }
        let mut out: Vec<char> = Vec::new();
        let scope = self.scope();
        push_str(&mut out, scope.as_str());
        push_str(&mut out, "\n");
        let u = trimmed(chars_of(self.user.as_str()).as_slice());
        push_all(&mut out, u.as_slice());
        push_str(&mut out, "\n");
        push_str(&mut out, self.password.as_str());
        push_str(&mut out, "\n");
        Ok(string_of(out.as_slice()))
    }

    /// Applies saved credentials (what reading `lecture-user.config` gave:
    /// its text, `None` where there is no such file, or the error): a read
    /// error is passed on; the text is ignored unless its first line is this
    /// account's scope; otherwise it must hold exactly the scope, a valid user
    /// name and a password.
    pub fn load_override(self, saved: Result<Option<String>>) -> (r: Result<Self>)
        ensures
            override_applied(self, saved, r),
    {
        let text = match saved {
            Err(e) => return Err(e),
            Ok(None) => return Ok(self),
            Ok(Some(text)) => text,
        };
        let ls = lines_of(chars_of(text.as_str()).as_slice());
        let scope = chars_of(self.scope().as_str());
        if ls.len() == 0 {
            return Ok(self);
        }
        proof {
            lemma_chars_deep_view(ls[0]);
            assert(ls.deep_view()[0] == ls[0]@);
        }
        if !is_same(ls[0].as_slice(), scope.as_slice()) {
            return Ok(self);
        }
        if ls.len() != 3 {
            return Err(ThumedError::Invalid(Invalid::SavedCredentials));
        }
        proof {
            lemma_chars_deep_view(ls[1]);
            lemma_chars_deep_view(ls[2]);
            assert(ls.deep_view()[1] == ls[1]@);
            assert(ls.deep_view()[2] == ls[2]@);
        }
        let mut info = self;
        info.user = string_of(trimmed(ls[1].as_slice()).as_slice());
        info.password = string_of(ls[2].as_slice());
        proof {
            lemma_trim_shape(ls[1]@);
        }
        if info.validate_credentials().is_err() {
            return Err(ThumedError::Invalid(Invalid::SavedCredentials));
        }
        info.customized = true;
        Ok(info)
    }
}

/// A line without a line break, followed by a line break and more text.
proof fn lemma_lines_cons(a: Seq<char>, rest: Seq<char>)
    requires
        !a.contains('\n'),
        a.len() == 0 || a.last() != '\r',
    ensures
        lines(a + "\n"@ + rest) == seq![a] + lines(rest),
{
    reveal_strlit("\n");
    let s = a + "\n"@ + rest;
    assert forall|j: int| 0 <= j < a.len() implies #[trigger] s[j] != '\n' by {
        assert(s[j] == a[j]);
    }
    lemma_index_of_is(s, '\n', a.len() as int);
    assert(s.take(a.len() as int) == a);
    assert(s.skip(a.len() + 1int) == rest);
}

/// A valid user name holds no line break and does not end in a carriage return.
proof fn lemma_username_is_one_line(u: Seq<char>)
    requires
        valid_username(u),
    ensures
        !u.contains('\n'),
        u.len() > 0 && u.last() != '\r',
{
    assert(is_username_char(u[u.len() - 1]));
    if u.contains('\n') {
        let k = choose|k: int| 0 <= k < u.len() && u[k] == '\n';
        assert(is_username_char(u[k]));
    }
}

/// A text without control characters holds no line break and no carriage return.
proof fn lemma_plain_is_one_line(p: Seq<char>)
    requires
        no_control(p),
    ensures
        !p.contains('\n'),
        p.len() == 0 || p.last() != '\r',
{
    if p.len() > 0 {
        assert(!crate::text::is_control(p[p.len() - 1]));
    }
    if p.contains('\n') {
        let k = choose|k: int| 0 <= k < p.len() && p[k] == '\n';
        assert(!crate::text::is_control(p[k]));
    }
}

/// Saved credentials read back: for an account whose context and server hold
/// no control characters and whose kubeconfig user is valid, the text a save
/// writes has exactly three lines, the account's scope, the trimmed user name
/// and the password, and they pass the checks of a load. With the account's
/// scope, `load_override` therefore gives back the trimmed name and the
/// password that were saved.
pub proof fn lemma_saved_credentials_round_trip(
    context: Seq<char>,
    server: Seq<char>,
    config_user: Seq<char>,
    user: Seq<char>,
    password: Seq<char>,
)
    requires
        credentials_ok(user, password),
        no_control(context),
        no_control(server),
        valid_username(config_user),
    ensures
        ({
            let scope = scope_line(context, server, config_user);
            let ls = lines(override_lines(scope, user, password));
            &&& ls == seq![scope, trim(user), password]
            &&& credentials_ok(ls[1], ls[2])
            &&& trim(ls[1]) == trim(user)
        }),
{
    reveal_strlit("\t");
    reveal_strlit("\n");
    let scope = scope_line(context, server, config_user);
    let t = trim(user);
    lemma_plain_is_one_line(context);
    lemma_plain_is_one_line(server);
    lemma_username_is_one_line(config_user);
    lemma_username_is_one_line(t);
    lemma_plain_is_one_line(password);
    lemma_trim_shape(user);
    assert(!scope.contains('\n')) by {
        if scope.contains('\n') {
            let k = choose|k: int| 0 <= k < scope.len() && scope[k] == '\n';
            if k < context.len() {
                assert(context[k] == '\n');
            } else if k == context.len() {
            } else if k < context.len() + 1 + server.len() {
                assert(server[k - context.len() - 1] == '\n');
            } else if k == context.len() + 1 + server.len() {
            } else {
                assert(config_user[k - context.len() - 2 - server.len()] == '\n');
            }
        }
    }
    assert(scope.last() == config_user.last());
    let rest2 = password + "\n"@;
    let rest1 = t + "\n"@ + rest2;
    assert(override_lines(scope, user, password) == scope + "\n"@ + rest1);
    lemma_lines_cons(scope, rest1);
    lemma_lines_cons(t, rest2);
    assert(password + "\n"@ == password + "\n"@ + Seq::<char>::empty());
    lemma_lines_cons(password, Seq::<char>::empty());
    assert(lines(Seq::<char>::empty()) == Seq::<Seq<char>>::empty());
}

/// Saved credentials stay with their account: where another account's scope
/// differs, the first line of the saved text is not its scope, so
/// `load_override` leaves that account unchanged.
pub proof fn lemma_saved_credentials_stay_in_scope(
    context: Seq<char>,
    server: Seq<char>,
    config_user: Seq<char>,
    user: Seq<char>,
    password: Seq<char>,
    other_scope: Seq<char>,
)
    requires
        credentials_ok(user, password),
        no_control(context),
        no_control(server),
        valid_username(config_user),
        other_scope != scope_line(context, server, config_user),
    ensures
        lines(override_lines(scope_line(context, server, config_user), user, password))[0]
            != other_scope,
{
    lemma_saved_credentials_round_trip(context, server, config_user, user, password);
}

/// What a load gives back of a save: where `saved` is what `UserInfo::save`
/// wrote for `info`, applying it to an account with the same scope (the same
/// context, server and kubeconfig user) gives that account with the saved
/// user name, trimmed, and password, marked as customized.
pub proof fn lemma_load_gives_back_save(
    info: UserInfo,
    base: UserInfo,
    saved: String,
    r: Result<UserInfo>,
)
    requires
        credentials_ok(info.user@, info.password@),
        no_control(info.context@),
        no_control(info.server@),
        valid_username(info.config_user@),
        saved@ == override_lines(info.scope_view(), info.user@, info.password@),
        base.scope_view() == info.scope_view(),
        override_applied(base, Ok(Some(saved)), r),
    ensures
        r matches Ok(loaded) && loaded.user@ == trim(info.user@) && loaded.password@
            == info.password@ && loaded.customized && loaded.context == base.context
            && loaded.server == base.server && loaded.namespace == base.namespace,
{
    lemma_saved_credentials_round_trip(
        info.context@,
        info.server@,
        info.config_user@,
        info.user@,
        info.password@,
    );
}

/// A save never leaks into another account: applying what `UserInfo::save`
/// wrote for `info` to an account of another scope leaves that account as it
/// is.
pub proof fn lemma_save_stays_with_its_scope(
    info: UserInfo,
    other: UserInfo,
    saved: String,
    r: Result<UserInfo>,
)
    requires
        credentials_ok(info.user@, info.password@),
        no_control(info.context@),
        no_control(info.server@),
        valid_username(info.config_user@),
        saved@ == override_lines(info.scope_view(), info.user@, info.password@),
        other.scope_view() != info.scope_view(),
        override_applied(other, Ok(Some(saved)), r),
    ensures
        r matches Ok(kept) && kept == other,
{
    lemma_saved_credentials_stay_in_scope(
        info.context@,
        info.server@,
        info.config_user@,
        info.user@,
        info.password@,
        other.scope_view(),
    );
    lemma_saved_credentials_round_trip(
        info.context@,
        info.server@,
        info.config_user@,
        info.user@,
        info.password@,
    );
}

/// Whether `a` and `b` hold the same characters.
fn is_same(a: &[char], b: &[char]) -> (r: bool)
    ensures
        r == (a@ == b@),
{
    crate::text::same_chars(a, b)
}

/// Whether a trimmed name is one the lecture account accepts.
fn username_ok(u: &[char]) -> (r: bool)
    ensures
        r == valid_username(u@),
{
    if u.len() == 0 || is_text(u, ".") || is_text(u, "..") {
        return false;
    }
    let mut i: usize = 0;
    while i < u.len()
        invariant
            i <= u.len(),
            forall|j: int| 0 <= j < i ==> is_username_char(#[trigger] u@[j]),
        decreases u.len() - i,
    {
        let c = u[i];
        if !(ascii_alphanumeric(c) || c == '_' || c == '.' || c == '-' || c == '@') {
            return false;
        }
        i = i + 1;
    }
    true
}

// ---------------------------------------------------------------------------
// The environment report
// ---------------------------------------------------------------------------
/// The checks of the environment report, in the order they run.
#[derive(Clone, Copy, PartialEq, Eq, Debug, Structural)]
pub enum CheckItem {
    Kubeconfig,
    Kubectl,
    Credentials,
    Helm,
    Cluster,
    Repo,
}

/// What a passed check shows.
pub enum CheckDetail {
    Text(String),
    Account(UserInfo),
}

/// One line of the report: a check and its outcome.
pub type CheckResult = (CheckItem, Result<CheckDetail>);

/// The checks, in the order they run.
pub open spec fn all_items() -> Seq<CheckItem> {
    seq![
        CheckItem::Kubeconfig,
        CheckItem::Kubectl,
        CheckItem::Credentials,
        CheckItem::Helm,
        CheckItem::Cluster,
        CheckItem::Repo,
    ]
}

impl CheckItem {
    /// The checks, in the order they run.
    pub fn all() -> (r: [CheckItem; 6])
        ensures
            r@ == all_items(),
    {
        let r = [
            CheckItem::Kubeconfig,
            CheckItem::Kubectl,
            CheckItem::Credentials,
            CheckItem::Helm,
            CheckItem::Cluster,
            CheckItem::Repo,
        ];
        assert(r@ =~= all_items());
        r
    }
}

/// The check whose success a check needs: the kubeconfig for the tools,
/// kubectl for the account, the account for the cluster, Helm for the
/// repository.
pub open spec fn prerequisite(item: CheckItem) -> Option<CheckItem> {
    match item {
        CheckItem::Kubeconfig => None,
        CheckItem::Kubectl => Some(CheckItem::Kubeconfig),
        CheckItem::Credentials => Some(CheckItem::Kubectl),
        CheckItem::Helm => Some(CheckItem::Kubeconfig),
        CheckItem::Cluster => Some(CheckItem::Credentials),
        CheckItem::Repo => Some(CheckItem::Helm),
    }
}

/// The report holds a passed line for `item`.
pub open spec fn passed_in(report: Seq<CheckResult>, item: CheckItem) -> bool {
    exists|i: int| 0 <= i < report.len() && (#[trigger] report[i]).0 == item && report[i].1 is Ok
}

/// What each check needs: the kubeconfig for kubectl and for Helm, kubectl
/// for the account, the account for the cluster, Helm for the repository;
/// the kubeconfig needs nothing.
pub proof fn lemma_check_dependencies(report: Seq<CheckResult>)
    ensures
        prerequisite_passed(report, CheckItem::Kubeconfig),
        prerequisite_passed(report, CheckItem::Kubectl) == passed_in(report, CheckItem::Kubeconfig),
        prerequisite_passed(report, CheckItem::Credentials) == passed_in(report, CheckItem::Kubectl),
        prerequisite_passed(report, CheckItem::Helm) == passed_in(report, CheckItem::Kubeconfig),
        prerequisite_passed(report, CheckItem::Cluster) == passed_in(report, CheckItem::Credentials),
        prerequisite_passed(report, CheckItem::Repo) == passed_in(report, CheckItem::Helm),
{
}

/// Whether the report holds a passed line for `item`.
pub fn has_passed(report: &Vec<CheckResult>, item: CheckItem) -> (r: bool)
    ensures
        r == passed_in(report@, item),
{
    let mut i: usize = 0;
    while i < report.len()
        invariant
            i <= report.len(),
            forall|j: int| 0 <= j < i ==> !((#[trigger] report@[j]).0 == item && report@[j].1 is Ok),
        decreases report.len() - i,
    {
        if report[i].0 == item && report[i].1.is_ok() {
            assert(report@[i as int].0 == item && report@[i as int].1 is Ok);
            return true;
        }
        i = i + 1;
    }
    false
}

/// Whether a check may run: its prerequisite, if it has one, passed.
/// Otherwise it is reported as skipped.
pub fn prerequisite_met(item: CheckItem, report: &Vec<CheckResult>) -> (r: bool)
    ensures
        r == match prerequisite(item) {
            None => true,
            Some(p) => passed_in(report@, p),
        },
{
    match item {
        CheckItem::Kubeconfig => true,
        CheckItem::Kubectl => has_passed(report, CheckItem::Kubeconfig),
        CheckItem::Credentials => has_passed(report, CheckItem::Kubectl),
        CheckItem::Helm => has_passed(report, CheckItem::Kubeconfig),
        CheckItem::Cluster => has_passed(report, CheckItem::Credentials),
        CheckItem::Repo => has_passed(report, CheckItem::Helm),
    }
}

/// Whether a check may run in a report: its prerequisite, if it has one,
/// passed.
pub open spec fn prerequisite_passed(report: Seq<CheckResult>, item: CheckItem) -> bool {
    match prerequisite(item) {
        None => true,
        Some(p) => passed_in(report, p),
    }
}

/// The report lists the checks in their order, each once.
pub open spec fn in_order(report: Seq<CheckResult>) -> bool {
    report.len() <= 6 && forall|k: int| 0 <= k < report.len() ==> (#[trigger] report[k]).0
        == all_items()[k]
}

/// The line of a check that was skipped because its prerequisite failed.
pub open spec fn skipped_line(line: CheckResult, item: CheckItem) -> bool {
    line.0 == item && line.1 == Err::<CheckDetail, ThumedError>(
        ThumedError::Invalid(Invalid::SetupPrerequisite),
    )
}

/// Checks that the progress display announces even when their prerequisite
/// failed, once the kubeconfig was found: the account and the cluster.
pub open spec fn announced_when_skipped(report: Seq<CheckResult>, item: CheckItem) -> bool {
    (item == CheckItem::Credentials || item == CheckItem::Cluster) && passed_in(
        report,
        CheckItem::Kubeconfig,
    )
}

/// What the environment check does next.
#[derive(Clone, Copy, PartialEq, Eq, Debug, Structural)]
pub enum EnvStep {
    /// Run this check: its prerequisite passed.
    Run(CheckItem),
    /// Announce this check, then mark it skipped with `skip_check`: its
    /// prerequisite failed.
    Skip(CheckItem),
}

/// One step of the environment check, for a report that holds the first
/// checks in their order: the checks that come next, whose prerequisite
/// failed and that are not announced, are reported as skipped; then the next
/// check is named, to run or to announce and skip, or none once all six are
/// reported. The application announces and runs a check and adds its line to
/// the report, or announces it and marks it skipped.
pub fn check_env(report: &mut Vec<CheckResult>) -> (r: Option<EnvStep>)
    ensures
        old(report)@.len() >= 6 ==> final(report)@ == old(report)@ && r is None,
        old(report)@.len() < 6 ==> {
            &&& old(report)@.len() <= final(report)@.len() <= 6
            &&& final(report)@.take(old(report)@.len() as int) == old(report)@
            &&& forall|k: int|
                old(report)@.len() <= k < final(report)@.len() ==> skipped_line(
                    #[trigger] final(report)@[k],
                    all_items()[k],
                ) && !prerequisite_passed(final(report)@.take(k), all_items()[k])
                    && !announced_when_skipped(final(report)@.take(k), all_items()[k])
            &&& r is None <==> final(report)@.len() == 6
            &&& r matches Some(EnvStep::Run(item)) ==> item == all_items()[final(report)@.len() as int]
                && prerequisite_passed(final(report)@, item)
            &&& r matches Some(EnvStep::Run(item)) ==> match item {
                CheckItem::Kubeconfig => true,
                CheckItem::Kubectl => passed_in(final(report)@, CheckItem::Kubeconfig),
                CheckItem::Credentials => passed_in(final(report)@, CheckItem::Kubectl),
                CheckItem::Helm => passed_in(final(report)@, CheckItem::Kubeconfig),
                CheckItem::Cluster => passed_in(final(report)@, CheckItem::Credentials),
                CheckItem::Repo => passed_in(final(report)@, CheckItem::Helm),
            }
            &&& r matches Some(EnvStep::Skip(item)) ==> item == all_items()[final(report)@.len() as int]
                && !prerequisite_passed(final(report)@, item)
                && announced_when_skipped(final(report)@, item)
        },
        in_order(old(report)@) ==> in_order(final(report)@),
{
    let ghost start = report@;
    if report.len() >= 6 {
        return None;
    }
    let items = CheckItem::all();
    while report.len() < 6
        invariant
            start == old(report)@,
            start.len() < 6,
            start.len() <= report@.len() <= 6,
            report@.take(start.len() as int) == start,
            items@ == all_items(),
            in_order(start) ==> in_order(report@),
            forall|k: int|
                start.len() <= k < report@.len() ==> skipped_line(
                    #[trigger] report@[k],
                    all_items()[k],
                ) && !prerequisite_passed(report@.take(k), all_items()[k])
                    && !announced_when_skipped(report@.take(k), all_items()[k]),
        decreases 6 - report@.len(),
    {
        let n = report.len();
        let item = items[n];
        if prerequisite_met(item, report) {
            return Some(EnvStep::Run(item));
        }
        let announced = (item == CheckItem::Credentials || item == CheckItem::Cluster)
            && has_passed(report, CheckItem::Kubeconfig);
        if announced {
            return Some(EnvStep::Skip(item));
        }
        let ghost before = report@;
        report.push((item, Err(ThumedError::Invalid(Invalid::SetupPrerequisite))));
        proof {
            assert(report@.take(start.len() as int) =~= before.take(start.len() as int));
            assert(report@.take(n as int) =~= before);
            if in_order(start) {
                assert forall|k: int| 0 <= k < report@.len() implies (#[trigger] report@[k]).0
                    == all_items()[k] by {
                    if k < n {
                        assert(report@[k] == before[k]);
                    }
                }
            }
            assert forall|k: int| start.len() <= k < report@.len() implies skipped_line(
                #[trigger] report@[k],
                all_items()[k],
            ) && !prerequisite_passed(report@.take(k), all_items()[k])
                && !announced_when_skipped(report@.take(k), all_items()[k]) by {
                if k < n {
                    assert(report@[k] == before[k]);
                    assert(report@.take(k) =~= before.take(k));
                }
            }
        }
    }
    None
}

/// Marks the check `item`, which comes next, as skipped because its
/// prerequisite failed.
pub fn skip_check(report: &mut Vec<CheckResult>, item: CheckItem)
    ensures
        final(report)@ == old(report)@.push(
            (item, Err::<CheckDetail, ThumedError>(ThumedError::Invalid(Invalid::SetupPrerequisite))),
        ),
{
    report.push((item, Err(ThumedError::Invalid(Invalid::SetupPrerequisite))));
}

/// A report that the environment check has built so far: the checks in their
/// order, and every check whose prerequisite had not passed by its turn is
/// marked skipped.
pub open spec fn check_report_wf(report: Seq<CheckResult>) -> bool {
    &&& in_order(report)
    &&& forall|k: int|
        0 <= k < report.len() && !prerequisite_passed(report.take(k), all_items()[k])
            ==> skipped_line(#[trigger] report[k], all_items()[k])
}

/// Over a whole environment check, from the empty report: `check_env` keeps
/// the report well built; adding the outcome of the check it named to run, or
/// marking the check it named to skip, keeps it well built too. So the final
/// report lists the six checks once each in their order, every check whose
/// prerequisite failed is marked skipped, and every check that ran had its
/// prerequisite passed.
pub proof fn lemma_check_run_keeps_report(
    report: Seq<CheckResult>,
    checked: Seq<CheckResult>,
    r: Option<EnvStep>,
    outcome: Result<CheckDetail>,
)
    requires
        check_report_wf(report),
        report.len() < 6,
        report.len() <= checked.len() <= 6,
        checked.take(report.len() as int) == report,
        forall|k: int|
            report.len() <= k < checked.len() ==> skipped_line(
                #[trigger] checked[k],
                all_items()[k],
            ) && !prerequisite_passed(checked.take(k), all_items()[k]),
        r is None <==> checked.len() == 6,
        r matches Some(EnvStep::Run(item)) ==> item == all_items()[checked.len() as int]
            && prerequisite_passed(checked, item),
        r matches Some(EnvStep::Skip(item)) ==> item == all_items()[checked.len() as int]
            && !prerequisite_passed(checked, item),
    ensures
        check_report_wf(checked),
        r matches Some(EnvStep::Run(item)) ==> check_report_wf(checked.push((item, outcome))),
        r matches Some(EnvStep::Skip(item)) ==> check_report_wf(
            checked.push(
                (item, Err::<CheckDetail, ThumedError>(ThumedError::Invalid(Invalid::SetupPrerequisite))),
            ),
        ),
        r is None ==> checked.len() == 6,
{
    let n = report.len() as int;
    assert forall|k: int| 0 <= k < checked.len() implies (#[trigger] checked[k]).0
        == all_items()[k] by {
        if k < n {
            assert(checked[k] == checked.take(n)[k]);
        } else {
            assert(skipped_line(checked[k], all_items()[k]));
        }
    }
    assert forall|k: int|
        0 <= k < checked.len() && !prerequisite_passed(checked.take(k), all_items()[k]) implies
        skipped_line(#[trigger] checked[k], all_items()[k]) by {
        if k < n {
            assert(checked[k] == report[k]);
            assert(checked.take(k) =~= report.take(k));
        }
    }
    match r {
        Some(EnvStep::Run(item)) => {
            let next = checked.push((item, outcome));
            assert forall|k: int| 0 <= k < next.len() implies (#[trigger] next[k]).0
                == all_items()[k] by {
                if k < checked.len() {
                    assert(next[k] == checked[k]);
                }
            }
            assert forall|k: int|
                0 <= k < next.len() && !prerequisite_passed(next.take(k), all_items()[k]) implies
                skipped_line(#[trigger] next[k], all_items()[k]) by {
                if k < checked.len() {
                    assert(next[k] == checked[k]);
                    assert(next.take(k) =~= checked.take(k));
                } else {
                    assert(next.take(k) =~= checked);
                }
            }
        },
        Some(EnvStep::Skip(item)) => {
            let next = checked.push(
                (item, Err::<CheckDetail, ThumedError>(ThumedError::Invalid(Invalid::SetupPrerequisite))),
            );
            assert forall|k: int| 0 <= k < next.len() implies (#[trigger] next[k]).0
                == all_items()[k] by {
                if k < checked.len() {
                    assert(next[k] == checked[k]);
                }
            }
            assert forall|k: int|
                0 <= k < next.len() && !prerequisite_passed(next.take(k), all_items()[k]) implies
                skipped_line(#[trigger] next[k], all_items()[k]) by {
                if k < checked.len() {
                    assert(next[k] == checked[k]);
                    assert(next.take(k) =~= checked.take(k));
                }
            }
        },
        None => {},
    }
}

/// The report that the environment check builds lists the six checks once
/// each, in their order: the line of the check that `check_env` names next
/// extends an ordered report to an ordered report, whatever its outcome.
pub proof fn lemma_named_check_keeps_order(
    report: Seq<CheckResult>,
    item: CheckItem,
    outcome: Result<CheckDetail>,
)
    requires
        in_order(report),
        report.len() < 6,
        item == all_items()[report.len() as int],
    ensures
        in_order(report.push((item, outcome))),
{
    let next = report.push((item, outcome));
    assert forall|k: int| 0 <= k < next.len() implies (#[trigger] next[k]).0 == all_items()[k] by {
        if k < report.len() {
            assert(next[k] == report[k]);
        }
    }
}

/// Every check of the report passed: only then is the environment recorded
/// as initialized.
pub open spec fn all_passed(report: Seq<CheckResult>) -> bool {
    forall|k: int| 0 <= k < 6 ==> passed_in(report, #[trigger] all_items()[k])
}

/// Whether the environment is to be recorded as initialized: every check has
/// a passed line in the report. The application then writes the marker.
pub fn record_initialization(report: &Vec<CheckResult>) -> (r: bool)
    ensures
        r == all_passed(report@),
{
    let items = CheckItem::all();
    let mut k: usize = 0;
    while k < 6
        invariant
            k <= 6,
            items@ == all_items(),
            forall|j: int| 0 <= j < k ==> passed_in(report@, #[trigger] all_items()[j]),
        decreases 6 - k,
    {
        if !has_passed(report, items[k]) {
            return false;
        }
        k = k + 1;
    }
    true
}

/// The report's line about the cluster: how many pods `kubectl get pods -o
/// name` listed, then the listing.
pub open spec fn cluster_text(listing: Seq<char>) -> Seq<char> {
    decimal(lines(listing).filter(|l: Seq<char>| l.len() > 0).len()) + " Pod\n"@ + trim(listing)
}

pub fn cluster_summary(listing: &str) -> (r: String)
    ensures
        r@ == cluster_text(listing@),
{
    let ls = lines_of(chars_of(listing).as_slice());
    let ghost pred = |l: Seq<char>| l.len() > 0;
    let mut count: usize = 0;
    let mut i: usize = 0;
    while i < ls.len()
        invariant
            i <= ls.len(),
            count <= i,
            pred == (|l: Seq<char>| l.len() > 0),
            count == ls.deep_view().take(i as int).filter(pred).len(),
        decreases ls.len() - i,
    {
        proof {
            let t = ls.deep_view().take(i + 1);
            assert(t.drop_last() == ls.deep_view().take(i as int));
            reveal(Seq::filter);
            lemma_chars_deep_view(ls[i as int]);
            assert(t.last() == ls[i as int]@);
        }
        if ls[i].len() > 0 {
            count = count + 1;
        }
        i = i + 1;
    }
    assert(ls.deep_view().take(ls.len() as int) == ls.deep_view());
    let mut out = crate::text::decimal_chars(count as u64);
    push_str(&mut out, " Pod\n");
    let t = trimmed(chars_of(listing).as_slice());
    push_all(&mut out, t.as_slice());
    string_of(out.as_slice())
}

/// The report's line about the Helm repository.
pub fn repo_summary() -> (r: String)
    ensures
        r@ == HELM_REPO_NAME@ + "\n"@ + HELM_REPO_URL@ + "\n"@ + HELM_CHART@,
{
    let mut out = chars_of(HELM_REPO_NAME);
    push_str(&mut out, "\n");
    push_str(&mut out, HELM_REPO_URL);
    push_str(&mut out, "\n");
    push_str(&mut out, HELM_CHART);
    string_of(out.as_slice())
}

/// The Helm commands that set up the chart repository, in order, each with
/// the step that is shown before it: add (or update) the repository, then
/// fetch its index.
pub fn repo_commands() -> (r: Vec<(SetupStep, Vec<&'static str>)>)
    ensures
        r@.len() == 2,
        r@[0].0 == SetupStep::Configure,
        r@[0].1@.map_values(|a: &str| a@) == seq![
            "repo"@,
            "add"@,
            HELM_REPO_NAME@,
            HELM_REPO_URL@,
            "--force-update"@,
        ],
        r@[1].0 == SetupStep::Update,
        r@[1].1@.map_values(|a: &str| a@) == seq!["repo"@, "update"@, HELM_REPO_NAME@],
{
    let mut add: Vec<&'static str> = Vec::new();
    add.push("repo");
    add.push("add");
    add.push(HELM_REPO_NAME);
    add.push(HELM_REPO_URL);
    add.push("--force-update");
    let mut update: Vec<&'static str> = Vec::new();
    update.push("repo");
    update.push("update");
    update.push(HELM_REPO_NAME);
    assert(add@.map_values(|a: &str| a@) =~= seq![
        "repo"@,
        "add"@,
        HELM_REPO_NAME@,
        HELM_REPO_URL@,
        "--force-update"@,
    ]);
    assert(update@.map_values(|a: &str| a@) =~= seq!["repo"@, "update"@, HELM_REPO_NAME@]);
    let mut r: Vec<(SetupStep, Vec<&'static str>)> = Vec::new();
    r.push((SetupStep::Configure, add));
    r.push((SetupStep::Update, update));
    r
}

/// The report's line about the Helm repository, once its commands ran (the
/// first error, if one failed).
pub fn init_helm_repo(outcome: Result<String>) -> (r: Result<String>)
    ensures
        match outcome {
            Err(e) => r matches Err(x) && x == e,
            Ok(_) => r matches Ok(s) && s@ == HELM_REPO_NAME@ + "\n"@ + HELM_REPO_URL@ + "\n"@
                + HELM_CHART@,
        },
{
    match outcome {
        Err(e) => Err(e),
        Ok(_) => Ok(repo_summary()),
    }
}

/// The report's line about the kubeconfig: its path, where it is a file that
/// could be opened (`opened` is `None` where it is no file, else what opening
/// it gave).
pub fn check_kubeconfig(path: &str, opened: Option<Result<()>>) -> (r: Result<String>)
    ensures
        match opened {
            None => r matches Err(ThumedError::MissingKubeconfig(p)) && p@ == path@,
            Some(Err(e)) => r matches Err(x) && x == e,
            Some(Ok(())) => r matches Ok(p) && p@ == path@,
        },
{
    match opened {
        None => Err(ThumedError::MissingKubeconfig(path.to_owned())),
        Some(Err(e)) => Err(e),
        Some(Ok(())) => Ok(path.to_owned()),
    }
}

/// Whether the marker file of a finished setup holds what this version
/// writes (`initialized_marker`); older markers do not count.
pub fn is_initialized(marker: &[u8]) -> (r: bool)
    ensures
        r == (marker@ == seq![50u8, 10u8]),
{
    let r = marker.len() == 2 && marker[0] == 50u8 && marker[1] == 10u8;
    assert(r ==> marker@ =~= seq![50u8, 10u8]);
    r
}

/// What the marker file of a finished setup holds: `2` and a line break.
pub fn initialized_marker() -> (r: [u8; 2])
    ensures
        r@ == seq![50u8, 10u8],
{
    let r = [50u8, 10u8];
    assert(r@ =~= seq![50u8, 10u8]);
    r
}

/// An entry of `KUBECONFIG` that names a file: not empty.
pub open spec fn names_file(entry: (bool, bool)) -> bool {
    !entry.0
}

/// Which kubeconfig file the setup prompt names among the entries of
/// `KUBECONFIG`, each given as whether it is empty and whether it is an
/// existing file: the first non-empty one that exists, else the first
/// non-empty one; `None` where there is none and the default path is meant.
/// (kubectl merges the files itself; this one is only shown.)
pub fn pick_kubeconfig(entries: &[(bool, bool)]) -> (r: Option<usize>)
    ensures
        (exists|i: int| 0 <= i < entries@.len() && names_file(entries@[i]) && entries@[i].1) ==> (
        r matches Some(k) && k < entries@.len() && names_file(entries@[k as int])
            && entries@[k as int].1 && forall|j: int|
            0 <= j < k ==> !(names_file(#[trigger] entries@[j]) && entries@[j].1)),
        (!exists|i: int| 0 <= i < entries@.len() && names_file(entries@[i]) && entries@[i].1) ==> (
        match r {
            Some(k) => k < entries@.len() && names_file(entries@[k as int]) && forall|j: int|
                0 <= j < k ==> !names_file(#[trigger] entries@[j]),
            None => forall|j: int| 0 <= j < entries@.len() ==> !names_file(#[trigger] entries@[j]),
        }),
{
    let mut first: Option<usize> = None;
    let mut i: usize = 0;
    while i < entries.len()
        invariant
            i <= entries.len(),
            forall|j: int| 0 <= j < i ==> !(names_file(#[trigger] entries@[j]) && entries@[j].1),
            match first {
                Some(k) => k < i && names_file(entries@[k as int]) && forall|j: int|
                    0 <= j < k ==> !names_file(#[trigger] entries@[j]),
                None => forall|j: int| 0 <= j < i ==> !names_file(#[trigger] entries@[j]),
            },
        decreases entries.len() - i,
    {
        let (empty, file) = entries[i];
        if !empty {
            if file {
                return Some(i);
            }
            if first.is_none() {
                first = Some(i);
            }
        }
        i = i + 1;
    }
    first
}

} // verus!
