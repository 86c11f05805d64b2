//! The state of the client's login screen: which field has the focus, where
//! the login stands, and which error messages are shown.
use vstd::prelude::*;
use vstd::string::*;
use crate::client::Action;
use crate::home::PageKey;
use crate::input::{InputField, value_spec};
use crate::protocol::{ClientPacket, PacketView};

verus! {

/// The fields of the login screen.
#[derive(Clone, Copy, Debug, PartialEq, Eq, Structural)]
pub enum LoginField {
    IP,
    Username,
    Password,
}

/// Where the login stands.
#[derive(Clone, Copy, Debug, PartialEq, Eq, Structural)]
pub enum LoginStatus {
    Connecting,
    Idle,
    Inputting,
    AttemptLogin,
    LoginFailed,
    LoginSuccessful,
}

/// The field that the focus moves to from `f`: between the username and the
/// password, in either direction; the address field keeps it.
pub open spec fn next_field(f: LoginField) -> LoginField {
    match f {
        LoginField::Username => LoginField::Password,
        LoginField::Password => LoginField::Username,
        LoginField::IP => LoginField::IP,
    }
}

impl LoginField {
    /// Argument of `LoginState::set_focus` that moves the focus forward.
    pub const NEXT: usize = 0;
    /// Argument of `LoginState::set_focus` that moves the focus back.
    pub const PREVIOUS: usize = 1;

    pub fn next(&self) -> (res: Self)
        ensures
            res == next_field(*self),
    {
        match self {
            LoginField::Username => LoginField::Password,
            LoginField::Password => LoginField::Username,
            _ => LoginField::IP,
        }
    }

    pub fn previous(&self) -> (res: Self)
        ensures
            res == next_field(*self),
    {
        match self {
            LoginField::Username => LoginField::Password,
            LoginField::Password => LoginField::Username,
            _ => LoginField::IP,
        }
    }
}

/// Moving the focus twice in the same direction brings it back.
pub proof fn lemma_next_field_involution(f: LoginField)
    ensures
        next_field(next_field(f)) == f,
{
}

/// The state of the login screen.
#[derive(Debug)]
pub struct LoginState {
    pub status: LoginStatus,
    pub focused_field: LoginField,
    /// The error messages shown, oldest first.
    pub errors: Vec<String>,
    pub new_user: bool,
}

/// The texts of `errors`.
pub open spec fn error_texts(errors: Seq<String>) -> Seq<Seq<char>> {
    errors.map_values(|e: String| e@)
}

/// The error list after `add_error(e)`: `e` is appended unless it is shown
/// already.
pub open spec fn errors_after_add(errs: Seq<Seq<char>>, e: Seq<char>) -> Seq<Seq<char>> {
    if errs.contains(e) {
        errs
    } else {
        errs.push(e)
    }
}

/// The error list after `remove_error(e)`: every copy of `e` is dropped and
/// the others keep their order.
pub open spec fn errors_after_remove(errs: Seq<Seq<char>>, e: Seq<char>) -> Seq<Seq<char>> {
    errs.filter(differs_from(e))
}

/// The test that keeps everything but `e`.
pub open spec fn differs_from(e: Seq<char>) -> spec_fn(Seq<char>) -> bool {
    |x: Seq<char>| x != e
}

impl LoginState {
    pub const USERNAME_EMPTY_ERR: &'static str = "Username cannot be empty.";
    pub const PASSWORD_EMPTY_ERR: &'static str = "Password cannot be empty.";
    pub const INCORRECT_INFORMATION: &'static str = "Incorrect username or password.";
    pub const SERVER_DOWN: &'static str = "Unable to connect to server with given IP & port.";

    /// The texts of the errors shown.
    pub open spec fn error_view(&self) -> Seq<Seq<char>> {
        error_texts(self.errors@)
    }

    pub fn has_error(&self, error: &str) -> (res: bool)
        ensures
            res == self.error_view().contains(error@),
    {
        let n = self.errors.len();
        for i in 0..n
            invariant
                n == self.errors@.len(),
                forall|j: int| 0 <= j < i ==> #[trigger] self.errors@[j]@ != error@,
        {
            if crate::text::str_eq(self.errors[i].as_str(), error) {
                assert(self.error_view()[i as int] == error@);
                return true;
            }
        }
        proof {
            if self.error_view().contains(error@) {
                let j = choose|j: int| 0 <= j < self.error_view().len() && self.error_view()[j] == error@;
                assert(self.errors@[j]@ == error@);
            }
        }
        false
    }

    pub fn remove_error(&mut self, error: &str)
        ensures
            final(self).error_view() == errors_after_remove(old(self).error_view(), error@),
            final(self).status == old(self).status,
            final(self).focused_field == old(self).focused_field,
            final(self).new_user == old(self).new_user,
    {
        let ghost pre = self.error_view();
        let mut kept: Vec<String> = Vec::new();
        let n = self.errors.len();
        for i in 0..n
            invariant
                n == self.errors@.len(),
                pre == self.error_view(),
                error_texts(kept@) == pre.subrange(0, i as int).filter(differs_from(error@)),
        {
            let ghost f = differs_from(error@);
            assert(pre.subrange(0, i + 1).drop_last() =~= pre.subrange(0, i as int));
            reveal(Seq::filter);
            if !crate::text::str_eq(self.errors[i].as_str(), error) {
                kept.push(self.errors[i].clone());
                assert(error_texts(kept@) =~= pre.subrange(0, i as int).filter(f).push(pre[i as int]));
            }
        }
        assert(pre.subrange(0, n as int) =~= pre);
        self.errors = kept;
    }

    pub fn add_error(&mut self, error: &str)
        ensures
            final(self).error_view() == errors_after_add(old(self).error_view(), error@),
            final(self).status == old(self).status,
            final(self).focused_field == old(self).focused_field,
            final(self).new_user == old(self).new_user,
    {
        if !self.has_error(error) {
            self.errors.push(error.to_owned());
            assert(self.error_view() =~= old(self).error_view().push(error@));
        }
    }

    pub fn set_state(&mut self, status: LoginStatus)
        ensures
            final(self).status == status,
            final(self).focused_field == old(self).focused_field,
            final(self).errors == old(self).errors,
            final(self).new_user == old(self).new_user,
    {
        self.status = status;
    }

    /// Moves the focus forward for `LoginField::NEXT`, back for
    /// `LoginField::PREVIOUS`, and leaves it for anything else.
    pub fn set_focus(&mut self, to: usize)
        ensures
            (to == LoginField::NEXT || to == LoginField::PREVIOUS) ==> final(self).focused_field == next_field(
                old(self).focused_field,
            ),
            !(to == LoginField::NEXT || to == LoginField::PREVIOUS) ==> final(self).focused_field
                == old(self).focused_field,
            final(self).status == old(self).status,
            final(self).errors == old(self).errors,
            final(self).new_user == old(self).new_user,
    {
        if to == LoginField::NEXT {
            self.focused_field = self.focused_field.next();
        } else if to == LoginField::PREVIOUS {
            self.focused_field = self.focused_field.previous();
        }
    }
}

impl Default for LoginState {
    fn default() -> (res: Self)
        ensures
            res.focused_field == LoginField::IP,
            res.errors@.len() == 0,
            res.status == LoginStatus::Connecting,
            !res.new_user,
    {
        Self { focused_field: LoginField::IP, errors: Vec::new(), status: LoginStatus::Connecting, new_user: false }
    }
}

/// After an error is added, it is shown.
pub proof fn lemma_added_error_shown(errs: Seq<Seq<char>>, e: Seq<char>)
    ensures
        errors_after_add(errs, e).contains(e),
{
    if !errs.contains(e) {
        assert(errs.push(e)[errs.len() as int] == e);
    }
}

/// After an error is removed, it is no longer shown, and every other error
/// that was shown still is.
pub proof fn lemma_removed_error_gone(errs: Seq<Seq<char>>, e: Seq<char>)
    ensures
        !errors_after_remove(errs, e).contains(e),
        forall|x: Seq<char>| x != e && errs.contains(x) ==> errors_after_remove(errs, e).contains(x),
{
    broadcast use vstd::seq_lib::group_filter_ensures;
    let f = differs_from(e);
    if errors_after_remove(errs, e).contains(e) {
        let i = choose|i: int| 0 <= i < errs.filter(f).len() && errs.filter(f)[i] == e;
        errs.lemma_filter_pred(f, i);
    }
    assert forall|x: Seq<char>| x != e && errs.contains(x) implies errors_after_remove(errs, e).contains(x) by {
        let i = choose|i: int| 0 <= i < errs.len() && errs[i] == x;
        errs.lemma_filter_contains(f, i);
    }
}

/// Adding an error twice shows it once.
pub proof fn lemma_add_error_idempotent(errs: Seq<Seq<char>>, e: Seq<char>)
    ensures
        errors_after_add(errors_after_add(errs, e), e) == errors_after_add(errs, e),
{
    lemma_added_error_shown(errs, e);
}

/// Adding errors keeps the list free of repeats.
pub proof fn lemma_add_error_keeps_distinct(errs: Seq<Seq<char>>, e: Seq<char>)
    requires
        errs.no_duplicates(),
    ensures
        errors_after_add(errs, e).no_duplicates(),
{
}

/// Adding an error that is not shown and removing it again gives the list
/// back.
pub proof fn lemma_add_then_remove(errs: Seq<Seq<char>>, e: Seq<char>)
    requires
        !errs.contains(e),
    ensures
        errors_after_remove(errors_after_add(errs, e), e) == errs,
{
    let f = differs_from(e);
    assert(errs.push(e).drop_last() =~= errs);
    reveal(Seq::filter);
    lemma_filter_all_kept(errs, e);
    assert(errs.push(e).filter(f) == errs.filter(f));
}

/// Filtering out an element that does not occur keeps every element.
proof fn lemma_filter_all_kept(errs: Seq<Seq<char>>, e: Seq<char>)
    requires
        !errs.contains(e),
    ensures
        errs.filter(differs_from(e)) == errs,
    decreases errs.len(),
{
    reveal(Seq::filter);
    if errs.len() > 0 {
        assert(!errs.drop_last().contains(e)) by {
            if errs.drop_last().contains(e) {
                let i = choose|i: int| 0 <= i < errs.drop_last().len() && errs.drop_last()[i] == e;
                assert(errs[i] == e);
            }
        }
        lemma_filter_all_kept(errs.drop_last(), e);
        assert(errs.last() != e) by {
            assert(errs[errs.len() - 1] == errs.last());
        }
        assert(errs.drop_last().push(errs.last()) =~= errs);
    }
}

/// The login screen.
#[derive(Debug)]
pub struct LoginPage {
    pub state: LoginState,
    pub ip_input: InputField,
    pub username_input: InputField,
    pub password_input: InputField,
}

/// What a key on the login screen leads to: an action for the client, and
/// the field that receives the key.
#[derive(Debug)]
pub struct LoginOutcome {
    pub action: Option<Action>,
    pub forward_to: Option<LoginField>,
}

/// The fields other than the errors and the texts are as before.
pub open spec fn same_fields(pre: LoginPage, post: LoginPage) -> bool {
    &&& post.state.status == pre.state.status
    &&& post.state.focused_field == pre.state.focused_field
    &&& post.state.new_user == pre.state.new_user
    &&& post.username_input == pre.username_input
    &&& post.password_input == pre.password_input
}

/// The errors after a submission of the username and password: each
/// "cannot be empty" error is shown exactly when its field is empty.
pub open spec fn errors_after_submit(errs: Seq<Seq<char>>, username_empty: bool, password_empty: bool) -> Seq<Seq<char>> {
    let e1 = if username_empty {
        errors_after_add(errs, LoginState::USERNAME_EMPTY_ERR@)
    } else {
        errors_after_remove(errs, LoginState::USERNAME_EMPTY_ERR@)
    };
    if password_empty {
        errors_after_add(e1, LoginState::PASSWORD_EMPTY_ERR@)
    } else {
        errors_after_remove(e1, LoginState::PASSWORD_EMPTY_ERR@)
    }
}

/// What a key does to the login screen (see `LoginPage::handle_event`).
pub open spec fn login_step(pre: LoginPage, post: LoginPage, key: PageKey, res: LoginOutcome) -> bool {
    match key {
        PageKey::Enter => if pre.state.status == LoginStatus::Connecting {
            &&& post.state.error_view() == errors_after_remove(pre.state.error_view(), LoginState::SERVER_DOWN@)
            &&& same_fields(pre, post)
            &&& post.ip_input.text@.len() == 0
            &&& post.ip_input.label == pre.ip_input.label
            &&& post.ip_input.hidden == pre.ip_input.hidden
            &&& post.ip_input.focused == pre.ip_input.focused
            &&& res.forward_to is None
            &&& res.action matches Some(Action::SocketMessage { packet }) && packet@ == (PacketView::ConnectRequest {
                ip: pre.ip_input.text@,
            })
        } else {
            let errs = errors_after_submit(
                pre.state.error_view(),
                pre.username_input.text@.len() == 0,
                pre.password_input.text@.len() == 0,
            );
            &&& post.state.error_view() == errs
            &&& same_fields(pre, post)
            &&& post.ip_input == pre.ip_input
            &&& res.forward_to is None
            &&& if errs.len() == 0 {
                res.action matches Some(Action::LoginAttempt { username, password })
                    && username@ == value_spec(pre.username_input.text@, pre.username_input.hidden)
                    && password@ == value_spec(pre.password_input.text@, pre.password_input.hidden)
            } else {
                res.action is None
            }
        },
        PageKey::Tab { .. } => {
            &&& post.state.focused_field == next_field(pre.state.focused_field)
            &&& post.state.status == pre.state.status
            &&& post.state.errors == pre.state.errors
            &&& post.state.new_user == pre.state.new_user
            &&& post.ip_input == pre.ip_input
            &&& post.username_input == pre.username_input
            &&& post.password_input == pre.password_input
            &&& res.action is None && res.forward_to is None
        },
        _ => {
            &&& post.state.error_view() == errors_after_remove(pre.state.error_view(), LoginState::INCORRECT_INFORMATION@)
            &&& same_fields(pre, post)
            &&& post.ip_input == pre.ip_input
            &&& res.action is None
            &&& res.forward_to == Some(pre.state.focused_field)
        },
    }
}

impl LoginPage {
    /// A login screen asking for the server's address, with the password
    /// field hidden.
    pub fn new() -> (res: Self)
        ensures
            res.state.focused_field == LoginField::IP,
            res.state.errors@.len() == 0,
            res.state.status == LoginStatus::Connecting,
            !res.state.new_user,
            res.ip_input.label@ == "Enter IP:Port to connect to: "@,
            res.username_input.label@ == "Username"@,
            res.password_input.label@ == "Password"@,
            res.ip_input.text@.len() == 0 && !res.ip_input.hidden,
            res.username_input.text@.len() == 0 && !res.username_input.hidden,
            res.password_input.text@.len() == 0 && res.password_input.hidden,
    {
        let state = LoginState::default();
        let ip_input = InputField::new(String::from_str("Enter IP:Port to connect to: "));
        let username_input = InputField::new(String::from_str("Username"));
        let password_input = InputField::new(String::from_str("Password")).set_hidden(true);
        Self { state, ip_input, username_input, password_input }
    }

    /// Applies a key to the login screen.
    ///
    /// Enter asks to connect to the typed address while connecting (and
    /// clears the address field); afterwards it checks that the username and
    /// password are not empty and, if no error is shown, asks to log in with
    /// the username and the password digest. Tab moves the focus (Shift+Tab
    /// backwards). Any other key clears the "incorrect" error and goes to
    /// the focused field.
    pub fn handle_event(&mut self, key: PageKey) -> (res: LoginOutcome)
        ensures
            login_step(*old(self), *final(self), key, res),
    {
        match key {
            PageKey::Enter => {
                match self.state.status {
                    LoginStatus::Connecting => {
                        self.state.remove_error(LoginState::SERVER_DOWN);
                        let ip = self.ip_input.value_and_reset();
                        LoginOutcome {
                            action: Some(Action::SocketMessage { packet: ClientPacket::ConnectRequest { ip } }),
                            forward_to: None,
                        }
                    },
                    _ => {
                        if self.username_input.is_empty() {
                            self.state.add_error(LoginState::USERNAME_EMPTY_ERR);
                        } else {
                            self.state.remove_error(LoginState::USERNAME_EMPTY_ERR);
                        }
                        if self.password_input.is_empty() {
                            self.state.add_error(LoginState::PASSWORD_EMPTY_ERR);
                        } else {
                            self.state.remove_error(LoginState::PASSWORD_EMPTY_ERR);
                        }
                        if self.state.errors.len() == 0 {
                            let username = self.username_input.value();
                            let password = self.password_input.value();
                            LoginOutcome { action: Some(Action::LoginAttempt { username, password }), forward_to: None }
                        } else {
                            LoginOutcome { action: None, forward_to: None }
                        }
                    },
                }
            },
            PageKey::Tab { shift } => {
                if shift {
                    self.state.set_focus(LoginField::PREVIOUS);
                } else {
                    self.state.set_focus(LoginField::NEXT);
                }
                LoginOutcome { action: None, forward_to: None }
            },
            _ => {
                self.state.remove_error(LoginState::INCORRECT_INFORMATION);
                LoginOutcome { action: None, forward_to: Some(self.state.focused_field) }
            },
        }
    }
}

} // verus!
