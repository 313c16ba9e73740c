use vstd::prelude::*;
use crate::bookmark_forms::{field_text, field_value, AfterAnswer};
use crate::data::opt_text;
use crate::routes::{login_destination, spec_split_redirect, Destination};

verus! {

/// Which password rules a password meets: at least 8 characters, a lower
/// case letter, an upper case letter, a digit, a symbol, and equal to its
/// confirmation. The rules themselves are checked outside this library.
#[derive(PartialEq, Eq, Structural, Clone, Copy, Debug)]
pub struct PasswordFlags {
    pub length: bool,
    pub lower_case: bool,
    pub upper_case: bool,
    pub digits: bool,
    pub symbols: bool,
    pub same: bool,
}

impl PasswordFlags {
    /// Whether every rule is met.
    pub open spec fn spec_is_valid(self) -> bool {
        self.length && self.lower_case && self.upper_case && self.digits && self.symbols
            && self.same
    }

    /// Flags with no rule met.
    pub open spec fn none_met() -> PasswordFlags {
        PasswordFlags {
            length: false,
            lower_case: false,
            upper_case: false,
            digits: false,
            symbols: false,
            same: false,
        }
    }

    /// Whether every rule is met.
    pub fn is_valid(&self) -> (r: bool)
        ensures
            r == self.spec_is_valid(),
            r ==> self.length && self.lower_case && self.upper_case && self.digits
                && self.symbols && self.same,
    {
        self.length && self.lower_case && self.upper_case && self.digits && self.symbols
            && self.same
    }

    /// Flags with every rule met.
    pub fn valid() -> (r: PasswordFlags)
        ensures
            r.spec_is_valid(),
            r.length && r.lower_case && r.upper_case && r.digits && r.symbols && r.same,
    {
        PasswordFlags {
            length: true,
            lower_case: true,
            upper_case: true,
            digits: true,
            symbols: true,
            same: true,
        }
    }
}

impl Default for PasswordFlags {
    fn default() -> (r: Self)
        ensures
            !r.length && !r.lower_case && !r.upper_case && !r.digits && !r.symbols && !r.same,
    {
        PasswordFlags {
            length: false,
            lower_case: false,
            upper_case: false,
            digits: false,
            symbols: false,
            same: false,
        }
    }
}

/// A password passes only when it meets every rule: one rule unmet, be it
/// the length, a lower-case letter, an upper-case letter, a digit, a symbol
/// or the confirmation, makes it fail; all of them met make it pass.
pub proof fn law_every_password_rule_required(f: PasswordFlags)
    ensures
        f.spec_is_valid() ==> f.length,
        f.spec_is_valid() ==> f.lower_case,
        f.spec_is_valid() ==> f.upper_case,
        f.spec_is_valid() ==> f.digits,
        f.spec_is_valid() ==> f.symbols,
        f.spec_is_valid() ==> f.same,
        f.length && f.lower_case && f.upper_case && f.digits && f.symbols && f.same
            ==> f.spec_is_valid(),
{
}

/// A form's two password fields, as strings.
pub struct PasswordPair {
    pub password: String,
    pub password_verif: String,
}

// ---------------------------------------------------------------------------
// Login
/// Why a login failed.
#[derive(PartialEq, Eq, Structural, Clone, Copy, Debug)]
pub enum LoginError {
    InvalidCredentials,
}

/// How the server answered a login.
#[derive(PartialEq, Eq, Structural, Clone, Copy, Debug)]
pub enum LoginOutcome {
    Success,
    InvalidCredentials,
    Other,
}

/// The state of the login page.
pub struct LoginState {
    pub username: String,
    pub password: String,
    pub in_progress: bool,
    pub error: Option<LoginError>,
}

/// A login request: the user name and the password.
pub struct LoginRequest {
    pub username: String,
    pub password: String,
}

/// What the login page does after a successful login: it reports the user
/// name and goes to the destination.
pub struct LoggedIn {
    pub username: String,
    pub destination: Destination,
}

impl LoginState {
    /// An empty login form.
    pub fn new() -> (r: LoginState)
        ensures
            r.username@.len() == 0,
            r.password@.len() == 0,
            !r.in_progress,
            r.error is None,
    {
        LoginState {
            username: String::new(),
            password: String::new(),
            in_progress: false,
            error: None,
        }
    }

    /// Submits the form: ignored while a login is under way; else a login
    /// starts with the typed user name and password.
    pub fn on_submit(&mut self) -> (r: Option<LoginRequest>)
        ensures
            old(self).in_progress ==> r is None && *final(self) == *old(self),
            !old(self).in_progress ==> (r matches Some(q) && q.username@ == old(self).username@
                && q.password@ == old(self).password@) && final(self).in_progress
                && final(self).username == old(self).username && final(self).password == old(
                self,
            ).password && final(self).error == old(self).error,
    {
        if self.in_progress {
            return None;
        }
        self.in_progress = true;
        Some(LoginRequest { username: self.username.clone(), password: self.password.clone() })
    }

    /// Handles the server's answer, given the page's `redirect_to`
    /// parameter: on success, the user name and where to go; refused
    /// credentials are shown; the form can be submitted again.
    pub fn on_answer(&mut self, outcome: LoginOutcome, redirect_to: Option<&str>) -> (r: Option<
        LoggedIn,
    >)
        ensures
            !final(self).in_progress,
            final(self).username == old(self).username,
            final(self).password == old(self).password,
            outcome == LoginOutcome::Success ==> (r matches Some(l) && l.username@ == old(
                self,
            ).username@ && (redirect_to is None ==> l.destination is Index) && (
            redirect_to matches Some(t) ==> (l.destination matches Destination::Redirect {
                path,
                query,
            } && (path@, match query {
                Some(q) => Some(q@),
                None => None,
            }) == spec_split_redirect(t@)))) && final(self).error == old(self).error,
            outcome == LoginOutcome::InvalidCredentials ==> r is None && final(self).error == Some(
                LoginError::InvalidCredentials,
            ),
            outcome == LoginOutcome::Other ==> r is None && final(self).error == old(self).error,
    {
        self.in_progress = false;
        match outcome {
            LoginOutcome::Success => Some(
                LoggedIn {
                    username: self.username.clone(),
                    destination: login_destination(redirect_to),
                },
            ),
            LoginOutcome::InvalidCredentials => {
                self.error = Some(LoginError::InvalidCredentials);
                None
            },
            LoginOutcome::Other => None,
        }
    }
}

// ---------------------------------------------------------------------------
// Import from a Shaarli API
/// Where an import from a Shaarli API stands.
#[derive(PartialEq, Eq, Structural, Clone, Copy, Debug)]
pub enum ImportStatus {
    Default,
    Importing,
    Forbidden,
    ShaarliError,
    GenericError,
}

/// How the server answered an import.
#[derive(PartialEq, Eq, Structural, Clone, Copy, Debug)]
pub enum ImportOutcome {
    Success,
    Forbidden,
    ShaarliError,
    Other,
}

/// The state of the page that imports bookmarks from a Shaarli API.
pub struct ImportState {
    pub status: ImportStatus,
    pub api_url: String,
    pub api_key: String,
}

/// An import request: the API's address and key.
pub struct ImportRequest {
    pub url: String,
    pub key: String,
}

impl Default for ImportState {
    /// An empty import form.
    fn default() -> (r: Self)
        ensures
            r.status == ImportStatus::Default,
            r.api_url@.len() == 0,
            r.api_key@.len() == 0,
    {
        ImportState { status: ImportStatus::Default, api_url: String::new(), api_key: String::new() }
    }
}

impl ImportState {
    /// Submits the form: ignored while an import is under way; else the
    /// import starts with the typed address and key.
    pub fn on_submit(&mut self) -> (r: Option<ImportRequest>)
        ensures
            old(self).status == ImportStatus::Importing ==> r is None && *final(self) == *old(
                self,
            ),
            old(self).status != ImportStatus::Importing ==> (r matches Some(q) && q.url@ == old(
                self,
            ).api_url@ && q.key@ == old(self).api_key@) && final(self).status
                == ImportStatus::Importing && final(self).api_url == old(self).api_url
                && final(self).api_key == old(self).api_key,
    {
        if self.status == ImportStatus::Importing {
            return None;
        }
        self.status = ImportStatus::Importing;
        Some(ImportRequest { url: self.api_url.clone(), key: self.api_key.clone() })
    }

    /// Handles the server's answer: on success the page goes to the
    /// bookmark list, else the reason is shown.
    pub fn on_answer(&mut self, outcome: ImportOutcome) -> (r: AfterAnswer)
        ensures
            outcome == ImportOutcome::Success ==> r == AfterAnswer::GoToBookmarks && *final(self)
                == *old(self),
            outcome != ImportOutcome::Success ==> r == AfterAnswer::Stay && final(self).status == (
            match outcome {
                ImportOutcome::Forbidden => ImportStatus::Forbidden,
                ImportOutcome::ShaarliError => ImportStatus::ShaarliError,
                _ => ImportStatus::GenericError,
            }),
            final(self).api_url == old(self).api_url,
            final(self).api_key == old(self).api_key,
    {
        match outcome {
            ImportOutcome::Success => AfterAnswer::GoToBookmarks,
            ImportOutcome::Forbidden => {
                self.status = ImportStatus::Forbidden;
                AfterAnswer::Stay
            },
            ImportOutcome::ShaarliError => {
                self.status = ImportStatus::ShaarliError;
                AfterAnswer::Stay
            },
            ImportOutcome::Other => {
                self.status = ImportStatus::GenericError;
                AfterAnswer::Stay
            },
        }
    }
}

// ---------------------------------------------------------------------------
// Password recovery request
/// Where a password recovery request stands.
#[derive(PartialEq, Eq, Structural, Clone, Copy, Debug)]
pub enum RecoverStatus {
    Default,
    InProgress,
    ServerError,
    ClientError,
    Success,
}

/// How the server answered a recovery request.
#[derive(PartialEq, Eq, Structural, Clone, Copy, Debug)]
pub enum RecoverOutcome {
    Success,
    ServerError,
    Other,
}

/// The state of the page that asks for a password recovery.
pub struct RecoverState {
    pub status: RecoverStatus,
    pub username_or_email: String,
}

impl Default for RecoverState {
    /// An empty recovery request form.
    fn default() -> (r: Self)
        ensures
            r.status == RecoverStatus::Default,
            r.username_or_email@.len() == 0,
    {
        RecoverState { status: RecoverStatus::Default, username_or_email: String::new() }
    }
}

impl RecoverState {
    /// Submits the form: an empty field is refused; a request under way is
    /// not repeated; else the request starts with the typed text.
    pub fn on_submit(&mut self) -> (r: Option<String>)
        ensures
            old(self).username_or_email@.len() == 0 ==> r is None && final(self).status
                == RecoverStatus::ClientError,
            old(self).username_or_email@.len() > 0 && old(self).status == RecoverStatus::InProgress
                ==> r is None && final(self).status == RecoverStatus::InProgress,
            old(self).username_or_email@.len() > 0 && old(self).status != RecoverStatus::InProgress
                ==> (r matches Some(t) && t@ == old(self).username_or_email@) && final(self).status
                == RecoverStatus::InProgress,
            final(self).username_or_email == old(self).username_or_email,
    {
        if self.username_or_email.as_str().is_empty() {
            self.status = RecoverStatus::ClientError;
            return None;
        }
        if self.status == RecoverStatus::InProgress {
            return None;
        }
        self.status = RecoverStatus::InProgress;
        Some(self.username_or_email.clone())
    }

    /// Handles the server's answer.
    pub fn on_answer(&mut self, outcome: RecoverOutcome)
        ensures
            final(self).status == (match outcome {
                RecoverOutcome::Success => RecoverStatus::Success,
                RecoverOutcome::ServerError => RecoverStatus::ServerError,
                RecoverOutcome::Other => RecoverStatus::Default,
            }),
            final(self).username_or_email == old(self).username_or_email,
    {
        self.status = match outcome {
            RecoverOutcome::Success => RecoverStatus::Success,
            RecoverOutcome::ServerError => RecoverStatus::ServerError,
            RecoverOutcome::Other => RecoverStatus::Default,
        };
    }
}

// ---------------------------------------------------------------------------
// New password after a recovery
/// Where the choice of a new password stands.
#[derive(PartialEq, Eq, Structural, Clone, Copy, Debug)]
pub enum NewPasswordStatus {
    Default,
    Success,
    InProgress,
    InvalidToken,
    InvalidPassword,
    ServerError,
    NotAvailable,
}

/// How the server answered a new password.
#[derive(PartialEq, Eq, Structural, Clone, Copy, Debug)]
pub enum NewPasswordOutcome {
    Success,
    InvalidToken,
    InvalidPassword,
    ServerError,
    NotImplemented,
    Other,
}

/// The state of the page that sets a new password after a recovery.
pub struct NewPasswordState {
    pub password: String,
    pub password_verif: String,
    pub password_flags: PasswordFlags,
    pub status: NewPasswordStatus,
}

impl Default for NewPasswordState {
    /// An empty new password form, with no rule met yet.
    fn default() -> (r: Self)
        ensures
            r.password@.len() == 0,
            r.password_verif@.len() == 0,
            r.password_flags == PasswordFlags::none_met(),
            r.status == NewPasswordStatus::Default,
    {
        NewPasswordState {
            password: String::new(),
            password_verif: String::new(),
            password_flags: PasswordFlags::default(),
            status: NewPasswordStatus::Default,
        }
    }
}

impl NewPasswordState {
    /// Records which rules the typed passwords meet.
    pub fn on_checked(&mut self, flags: PasswordFlags)
        ensures
            final(self).password_flags == flags,
            final(self).password == old(self).password,
            final(self).password_verif == old(self).password_verif,
            final(self).status == old(self).status,
    {
        self.password_flags = flags;
    }

    /// Submits the form: ignored while a request is under way or while the
    /// passwords break a rule; else the request starts.
    pub fn on_submit(&mut self) -> (r: Option<PasswordPair>)
        ensures
            old(self).status == NewPasswordStatus::InProgress
                || !old(self).password_flags.spec_is_valid() ==> r is None && *final(self) == *old(
                self,
            ),
            !(old(self).status == NewPasswordStatus::InProgress
                || !old(self).password_flags.spec_is_valid()) ==> (r matches Some(p)
                && p.password@ == old(self).password@ && p.password_verif@ == old(
                self,
            ).password_verif@) && final(self).status == NewPasswordStatus::InProgress
                && final(self).password == old(self).password && final(self).password_verif
                == old(self).password_verif && final(self).password_flags == old(
                self,
            ).password_flags,
            r is Some ==> old(self).password_flags.length && old(self).password_flags.lower_case
                && old(self).password_flags.upper_case && old(self).password_flags.digits && old(
                self,
            ).password_flags.symbols && old(self).password_flags.same,
    {
        if self.status == NewPasswordStatus::InProgress || !self.password_flags.is_valid() {
            return None;
        }
        self.status = NewPasswordStatus::InProgress;
        Some(
            PasswordPair {
                password: self.password.clone(),
                password_verif: self.password_verif.clone(),
            },
        )
    }

    /// Handles the server's answer.
    pub fn on_answer(&mut self, outcome: NewPasswordOutcome)
        ensures
            final(self).status == (match outcome {
                NewPasswordOutcome::Success => NewPasswordStatus::Success,
                NewPasswordOutcome::InvalidToken => NewPasswordStatus::InvalidToken,
                NewPasswordOutcome::InvalidPassword => NewPasswordStatus::InvalidPassword,
                NewPasswordOutcome::ServerError => NewPasswordStatus::ServerError,
                NewPasswordOutcome::NotImplemented => NewPasswordStatus::NotAvailable,
                NewPasswordOutcome::Other => NewPasswordStatus::Default,
            }),
            final(self).password == old(self).password,
            final(self).password_verif == old(self).password_verif,
            final(self).password_flags == old(self).password_flags,
    {
        self.status = match outcome {
            NewPasswordOutcome::Success => NewPasswordStatus::Success,
            NewPasswordOutcome::InvalidToken => NewPasswordStatus::InvalidToken,
            NewPasswordOutcome::InvalidPassword => NewPasswordStatus::InvalidPassword,
            NewPasswordOutcome::ServerError => NewPasswordStatus::ServerError,
            NewPasswordOutcome::NotImplemented => NewPasswordStatus::NotAvailable,
            NewPasswordOutcome::Other => NewPasswordStatus::Default,
        };
    }
}

} // verus!

verus! {

// ---------------------------------------------------------------------------
// Profile
/// Whether a profile update is under way.
#[derive(PartialEq, Eq, Structural, Clone, Copy, Debug)]
pub enum ProfileStatus {
    Default,
    InProgress,
}

/// The message that the profile page shows after an update.
#[derive(PartialEq, Eq, Structural, Clone, Copy, Debug)]
pub enum ProfileMessage {
    Success,
    InvalidCurrentPassword,
    InvalidNewPassword,
    InvalidEmailAddress,
    Other,
}

/// How the server answered a profile update.
#[derive(PartialEq, Eq, Structural, Clone, Copy, Debug)]
pub enum ProfileOutcome {
    Success,
    InvalidCurrentPassword,
    InvalidNewPassword,
    InvalidEmailAddress,
    Other,
}

/// The state of the profile page.
pub struct ProfileState {
    pub email: String,
    pub current_password: String,
    pub new_password: String,
    pub new_password_verif: String,
    pub status: ProfileStatus,
    pub password_flags: PasswordFlags,
    pub message: Option<ProfileMessage>,
}

/// A profile update: the e-mail address, the current password, and the new
/// password with its confirmation, absent when left empty.
pub struct ProfileRequest {
    pub email: String,
    pub current_password: String,
    pub new_password: Option<String>,
    pub new_password_verif: Option<String>,
}

impl ProfileState {
    /// An empty profile form; a new password is not required, so the rules
    /// count as met.
    pub fn new() -> (r: ProfileState)
        ensures
            r.email@.len() == 0,
            r.current_password@.len() == 0,
            r.new_password@.len() == 0,
            r.new_password_verif@.len() == 0,
            r.status == ProfileStatus::Default,
            r.password_flags.spec_is_valid(),
            r.message is None,
    {
        ProfileState {
            email: String::new(),
            current_password: String::new(),
            new_password: String::new(),
            new_password_verif: String::new(),
            status: ProfileStatus::Default,
            password_flags: PasswordFlags::valid(),
            message: None,
        }
    }

    /// Records which rules the new password meets, given the rules' verdict
    /// `checked` on the typed new passwords: when both fields are empty no
    /// new password is asked for, and the rules count as met.
    pub fn on_checked(&mut self, checked: PasswordFlags)
        ensures
            old(self).new_password@.len() == 0 && old(self).new_password_verif@.len() == 0
                ==> final(self).password_flags.spec_is_valid(),
            !(old(self).new_password@.len() == 0 && old(self).new_password_verif@.len() == 0)
                ==> final(self).password_flags == checked,
            final(self).new_password == old(self).new_password,
            final(self).new_password_verif == old(self).new_password_verif,
            final(self).status == old(self).status,
            final(self).message == old(self).message,
            final(self).email == old(self).email,
            final(self).current_password == old(self).current_password,
    {
        if self.new_password.as_str().is_empty() && self.new_password_verif.as_str().is_empty() {
            self.password_flags = PasswordFlags::valid();
        } else {
            self.password_flags = checked;
        }
    }

    /// Handles the loading of the current profile.
    pub fn on_loaded(&mut self, email: Option<String>)
        ensures
            final(self).status == ProfileStatus::Default,
            email matches Some(e) ==> final(self).email == e,
            email is None ==> final(self).email == old(self).email,
            final(self).new_password == old(self).new_password,
            final(self).message == old(self).message,
            final(self).current_password == old(self).current_password,
            final(self).new_password_verif == old(self).new_password_verif,
            final(self).password_flags == old(self).password_flags,
    {
        self.status = ProfileStatus::Default;
        if let Some(e) = email {
            self.email = e;
        }
    }

    /// Submits the form: ignored while an update is under way or while the
    /// new password breaks a rule; else the update starts.
    pub fn on_submit(&mut self) -> (r: Option<ProfileRequest>)
        ensures
            old(self).status == ProfileStatus::InProgress
                || !old(self).password_flags.spec_is_valid() ==> r is None && *final(self) == *old(
                self,
            ),
            !(old(self).status == ProfileStatus::InProgress
                || !old(self).password_flags.spec_is_valid()) ==> (r matches Some(q) && q.email@
                == old(self).email@ && q.current_password@ == old(self).current_password@
                && opt_text(q.new_password) == field_text(old(self).new_password@) && opt_text(
                q.new_password_verif,
            ) == field_text(old(self).new_password_verif@)) && final(self).status
                == ProfileStatus::InProgress,
            !(old(self).status == ProfileStatus::InProgress
                || !old(self).password_flags.spec_is_valid()) ==> (*final(self) == ProfileState {
                status: ProfileStatus::InProgress,
                ..*old(self)
            }),
            r is Some ==> old(self).password_flags.length && old(self).password_flags.lower_case
                && old(self).password_flags.upper_case && old(self).password_flags.digits && old(
                self,
            ).password_flags.symbols && old(self).password_flags.same,
    {
        if self.status == ProfileStatus::InProgress || !self.password_flags.is_valid() {
            return None;
        }
        self.status = ProfileStatus::InProgress;
        Some(
            ProfileRequest {
                email: self.email.clone(),
                current_password: self.current_password.clone(),
                new_password: field_value(self.new_password.as_str()),
                new_password_verif: field_value(self.new_password_verif.as_str()),
            },
        )
    }

    /// Handles the server's answer: a refused password clears the new
    /// password fields; the message says how the update went.
    pub fn on_answer(&mut self, outcome: ProfileOutcome)
        ensures
            final(self).status == ProfileStatus::Default,
            final(self).message == Some(
                match outcome {
                    ProfileOutcome::Success => ProfileMessage::Success,
                    ProfileOutcome::InvalidCurrentPassword => ProfileMessage::InvalidCurrentPassword,
                    ProfileOutcome::InvalidNewPassword => ProfileMessage::InvalidNewPassword,
                    ProfileOutcome::InvalidEmailAddress => ProfileMessage::InvalidEmailAddress,
                    ProfileOutcome::Other => ProfileMessage::Other,
                },
            ),
            outcome == ProfileOutcome::InvalidCurrentPassword || outcome
                == ProfileOutcome::InvalidNewPassword ==> final(self).new_password@.len() == 0
                && final(self).new_password_verif@.len() == 0
                && final(self).password_flags.spec_is_valid(),
            !(outcome == ProfileOutcome::InvalidCurrentPassword || outcome
                == ProfileOutcome::InvalidNewPassword) ==> final(self).new_password == old(
                self,
            ).new_password && final(self).new_password_verif == old(self).new_password_verif
                && final(self).password_flags == old(self).password_flags,
            final(self).email == old(self).email,
            final(self).current_password == old(self).current_password,
    {
        self.status = ProfileStatus::Default;
        match outcome {
            ProfileOutcome::Success => {
                self.message = Some(ProfileMessage::Success);
            },
            ProfileOutcome::InvalidCurrentPassword => {
                self.new_password = String::new();
                self.new_password_verif = String::new();
                self.password_flags = PasswordFlags::valid();
                self.message = Some(ProfileMessage::InvalidCurrentPassword);
            },
            ProfileOutcome::InvalidNewPassword => {
                self.new_password = String::new();
                self.new_password_verif = String::new();
                self.password_flags = PasswordFlags::valid();
                self.message = Some(ProfileMessage::InvalidNewPassword);
            },
            ProfileOutcome::InvalidEmailAddress => {
                self.message = Some(ProfileMessage::InvalidEmailAddress);
            },
            ProfileOutcome::Other => {
                self.message = Some(ProfileMessage::Other);
            },
        }
    }
}

// ---------------------------------------------------------------------------
// Sign-up
/// Why a sign-up failed.
#[derive(PartialEq, Eq, Structural, Clone, Copy, Debug)]
pub enum SignupError {
    InvalidPassword,
}

/// How the server answered a sign-up.
#[derive(PartialEq, Eq, Structural, Clone, Copy, Debug)]
pub enum SignupOutcome {
    Success,
    InvalidPassword,
    Other,
}

/// The state of the sign-up page.
pub struct SignupState {
    pub email: String,
    pub username: String,
    pub password: String,
    pub password_verif: String,
    pub in_progress: bool,
    pub password_flags: PasswordFlags,
    pub error: Option<SignupError>,
}

/// A sign-up request.
pub struct SignupRequest {
    pub email: String,
    pub username: String,
    pub password: String,
    pub password_verif: String,
}

/// What the sign-up page does after an answer.
#[derive(PartialEq, Eq, Structural, Clone, Copy, Debug)]
pub enum AfterSignup {
    /// The account was created: go to the login page.
    GoToLogin,
    /// The password was refused: the password field takes the focus.
    FocusPassword,
    Stay,
}

impl Default for SignupState {
    /// An empty sign-up form, with no rule met yet.
    fn default() -> (r: Self)
        ensures
            r.email@.len() == 0,
            r.username@.len() == 0,
            r.password@.len() == 0,
            r.password_verif@.len() == 0,
            !r.in_progress,
            r.password_flags == PasswordFlags::none_met(),
            r.error is None,
    {
        SignupState {
            email: String::new(),
            username: String::new(),
            password: String::new(),
            password_verif: String::new(),
            in_progress: false,
            password_flags: PasswordFlags::default(),
            error: None,
        }
    }
}

impl SignupState {
    /// Records which rules the typed passwords meet.
    pub fn on_checked(&mut self, flags: PasswordFlags)
        ensures
            final(self).password_flags == flags,
            final(self).password == old(self).password,
            final(self).in_progress == old(self).in_progress,
            final(self).email == old(self).email,
            final(self).username == old(self).username,
            final(self).password_verif == old(self).password_verif,
            final(self).error == old(self).error,
    {
        self.password_flags = flags;
    }

    /// Submits the form: ignored while a sign-up is under way or while the
    /// password breaks a rule; else the sign-up starts.
    pub fn on_submit(&mut self) -> (r: Option<SignupRequest>)
        ensures
            old(self).in_progress || !old(self).password_flags.spec_is_valid() ==> r is None
                && *final(self) == *old(self),
            !(old(self).in_progress || !old(self).password_flags.spec_is_valid()) ==> (r matches Some(
                q,
            ) && q.email@ == old(self).email@ && q.username@ == old(self).username@
                && q.password@ == old(self).password@ && q.password_verif@ == old(
                self,
            ).password_verif@) && final(self).in_progress,
            !(old(self).in_progress || !old(self).password_flags.spec_is_valid()) ==> (*final(self)
                == SignupState { in_progress: true, ..*old(self) }),
            r is Some ==> old(self).password_flags.length && old(self).password_flags.lower_case
                && old(self).password_flags.upper_case && old(self).password_flags.digits && old(
                self,
            ).password_flags.symbols && old(self).password_flags.same,
    {
        if self.in_progress || !self.password_flags.is_valid() {
            return None;
        }
        self.in_progress = true;
        Some(
            SignupRequest {
                email: self.email.clone(),
                username: self.username.clone(),
                password: self.password.clone(),
                password_verif: self.password_verif.clone(),
            },
        )
    }

    /// Handles the server's answer: a refused password is cleared.
    pub fn on_answer(&mut self, outcome: SignupOutcome) -> (r: AfterSignup)
        ensures
            !final(self).in_progress,
            outcome == SignupOutcome::Success ==> r == AfterSignup::GoToLogin,
            outcome == SignupOutcome::InvalidPassword ==> r == AfterSignup::FocusPassword
                && final(self).password@.len() == 0 && final(self).password_verif@.len() == 0
                && final(self).password_flags == PasswordFlags::none_met() && final(self).error
                == Some(SignupError::InvalidPassword),
            outcome != SignupOutcome::InvalidPassword ==> final(self).password == old(self).password
                && final(self).password_verif == old(self).password_verif
                && final(self).password_flags == old(self).password_flags
                && final(self).error == old(self).error,
            outcome == SignupOutcome::Other ==> r == AfterSignup::Stay,
            final(self).email == old(self).email,
            final(self).username == old(self).username,
    {
        self.in_progress = false;
        match outcome {
            SignupOutcome::Success => AfterSignup::GoToLogin,
            SignupOutcome::InvalidPassword => {
                self.password = String::new();
                self.password_verif = String::new();
                self.password_flags = PasswordFlags::default();
                self.error = Some(SignupError::InvalidPassword);
                AfterSignup::FocusPassword
            },
            SignupOutcome::Other => AfterSignup::Stay,
        }
    }
}

// ---------------------------------------------------------------------------
// E-mail validation
/// What the e-mail validation page shows.
#[derive(PartialEq, Eq, Structural, Clone, Copy, Debug)]
pub enum ValidationStatus {
    Loading,
    Success,
    InvalidToken,
    ServerError,
}

/// How the server answered an e-mail validation.
#[derive(PartialEq, Eq, Structural, Clone, Copy, Debug)]
pub enum ValidationOutcome {
    Success,
    InvalidToken,
    ServerError,
    Other,
}

/// What the e-mail validation page shows for the server's answer (none
/// arrived: still loading).
pub fn validation_status(outcome: Option<ValidationOutcome>) -> (r: ValidationStatus)
    ensures
        r == (match outcome {
            Some(ValidationOutcome::Success) => ValidationStatus::Success,
            Some(ValidationOutcome::InvalidToken) => ValidationStatus::InvalidToken,
            Some(ValidationOutcome::ServerError) => ValidationStatus::ServerError,
            _ => ValidationStatus::Loading,
        }),
{
    match outcome {
        Some(ValidationOutcome::Success) => ValidationStatus::Success,
        Some(ValidationOutcome::InvalidToken) => ValidationStatus::InvalidToken,
        Some(ValidationOutcome::ServerError) => ValidationStatus::ServerError,
        _ => ValidationStatus::Loading,
    }
}

} // verus!
