//! The pages of the web front end and its single-user session: one user at
//! a time is logged in; a browser is logged in while its `username` cookie
//! names that user.

use vstd::prelude::*;
use vstd::utf8::{encode_utf8, is_char_boundary};
use crate::controller::{sliders_view, variables_view, Slider, Variable};

verus! {

/// Data of the home page.
pub struct HomeTemplate {
    pub logged_in: bool,
    pub action: String,
    pub icon_name: String,
    pub cpu_temp: String,
    pub is_running: bool,
}

/// Data of the demo page, with the settings of the running script.
pub struct DemoTemplate {
    pub logged_in: bool,
    pub action: String,
    pub icon_name: String,
    pub settings_sliders: Vec<Slider>,
    pub settings_others: Vec<Variable>,
    pub is_running: bool,
}

/// Data of the maintenance page.
pub struct MaintenanceTemplate {
    pub logged_in: bool,
    pub action: String,
    pub icon_name: String,
    pub settings_sliders: Vec<Slider>,
    pub settings_others: Vec<Variable>,
    pub is_running: bool,
}

/// Data of the login page.
pub struct LoginTemplate {
    pub any_user_online: bool,
}

/// Data of the logout page.
pub struct LogoutTemplate {
    pub logged_in: bool,
    pub username: String,
}

/// The text of an optional string.
pub open spec fn opt_view(s: Option<String>) -> Option<Seq<char>> {
    match s {
        Some(t) => Some(t@),
        None => None,
    }
}

/// A browser is logged in when its cookie names the user logged in.
pub open spec fn session_matches(cookie_user: Option<Seq<char>>, logged_in_user: Option<Seq<char>>) -> bool {
    cookie_user is Some && logged_in_user is Some && cookie_user->0 == logged_in_user->0
}

/// Whether the browser with the given `username` cookie is logged in.
pub fn is_logged_in(cookie_user: &Option<String>, logged_in_user: &Option<String>) -> (r: bool)
    ensures
        r == session_matches(opt_view(*cookie_user), opt_view(*logged_in_user)),
{
    match (cookie_user, logged_in_user) {
        (Some(cookie), Some(user)) => *user == *cookie,
        _ => false,
    }
}

/// The home page. `navbar` is the action and icon of the navigation bar.
pub fn index(
    cookie_user: &Option<String>,
    logged_in_user: &Option<String>,
    is_running: bool,
    navbar: (String, String),
    cpu_temp: String,
) -> (page: HomeTemplate)
    ensures
        page.logged_in == session_matches(opt_view(*cookie_user), opt_view(*logged_in_user)),
        page.action@ == navbar.0@,
        page.icon_name@ == navbar.1@,
        page.cpu_temp@ == cpu_temp@,
        page.is_running == is_running,
{
    let (action, icon_name) = navbar;
    HomeTemplate {
        logged_in: is_logged_in(cookie_user, logged_in_user),
        action,
        icon_name,
        cpu_temp,
        is_running,
    }
}

/// The demo page. `settings` are the settings read from the controller, or
/// `None` when they could not be read; they are shown only while the script
/// runs.
pub fn demo(
    cookie_user: &Option<String>,
    logged_in_user: &Option<String>,
    is_running: bool,
    navbar: (String, String),
    settings: Option<(Vec<Slider>, Vec<Variable>)>,
) -> (page: DemoTemplate)
    ensures
        page.logged_in == session_matches(opt_view(*cookie_user), opt_view(*logged_in_user)),
        page.action@ == navbar.0@,
        page.icon_name@ == navbar.1@,
        page.is_running == is_running,
        match settings {
            Some(s) if is_running => sliders_view(page.settings_sliders@) == sliders_view(s.0@)
                && variables_view(page.settings_others@) == variables_view(s.1@),
            _ => page.settings_sliders@.len() == 0 && page.settings_others@.len() == 0,
        },
{
    let (action, icon_name) = navbar;
    let (settings_sliders, settings_others) = match settings {
        Some(s) if is_running => s,
        _ => (Vec::new(), Vec::new()),
    };
    DemoTemplate {
        logged_in: is_logged_in(cookie_user, logged_in_user),
        action,
        icon_name,
        settings_sliders,
        settings_others,
        is_running,
    }
}

/// The maintenance page; it has no settings yet.
pub fn maintenance(
    cookie_user: &Option<String>,
    logged_in_user: &Option<String>,
    is_running: bool,
    navbar: (String, String),
) -> (page: MaintenanceTemplate)
    ensures
        page.logged_in == session_matches(opt_view(*cookie_user), opt_view(*logged_in_user)),
        page.action@ == navbar.0@,
        page.icon_name@ == navbar.1@,
        page.is_running == is_running,
        page.settings_sliders@.len() == 0,
        page.settings_others@.len() == 0,
{
    let (action, icon_name) = navbar;
    MaintenanceTemplate {
        logged_in: is_logged_in(cookie_user, logged_in_user),
        action,
        icon_name,
        settings_sliders: Vec::new(),
        settings_others: Vec::new(),
        is_running,
    }
}

/// A call that changes the session: `login_form` with a user name, or
/// `logout`.
pub enum SessionOp {
    Login(Seq<char>),
    Logout,
}

/// The user logged in after one session call.
pub open spec fn session_step(user: Option<Seq<char>>, op: SessionOp) -> Option<Seq<char>> {
    match op {
        SessionOp::Login(name) => Some(name),
        SessionOp::Logout => None,
    }
}

/// The user logged in after a sequence of session calls, in order.
pub open spec fn apply_ops(user: Option<Seq<char>>, ops: Seq<SessionOp>) -> Option<Seq<char>>
    decreases ops.len(),
{
    if ops.len() == 0 {
        user
    } else {
        session_step(apply_ops(user, ops.drop_last()), ops.last())
    }
}

/// The session of a freshly started server: nobody is logged in.
pub fn new_session() -> (user: Option<String>)
    ensures
        opt_view(user) == None::<Seq<char>>,
{
    None
}

/// The login page: it tells whether some user is logged in already.
pub fn login(logged_in_user: &Option<String>) -> (page: LoginTemplate)
    ensures
        page.any_user_online == logged_in_user.is_some(),
{
    LoginTemplate { any_user_online: logged_in_user.is_some() }
}

/// Logs `username` in, in place of any user logged in before. The browser
/// gets the cookie `username` with this name; the result is the page to go
/// to next.
pub fn login_form(logged_in_user: &mut Option<String>, username: &String) -> (redirect: String)
    ensures
        opt_view(*final(logged_in_user)) == session_step(
            opt_view(*old(logged_in_user)),
            SessionOp::Login(username@),
        ),
        opt_view(*final(logged_in_user)) == Some(username@),
        redirect@ == "/"@,
{
    *logged_in_user = Some(username.clone());
    "/".to_owned()
}

/// The user name held by a rendered `username=<name>` cookie: the text after
/// its first nine bytes.
pub open spec fn cookie_name_spec(cookie_text: Seq<char>, name: Seq<char>) -> bool {
    encode_utf8(name) == encode_utf8(cookie_text).skip(9)
}

/// Logs the user out. `cookie_text` is the browser's `username` cookie
/// rendered as `username=<name>`, if it sent one; the page greets the name.
pub fn logout(logged_in_user: &mut Option<String>, cookie_text: Option<&str>) -> (page: LogoutTemplate)
    requires
        match cookie_text {
            Some(t) => is_char_boundary(encode_utf8(t@), 9),
            None => true,
        },
    ensures
        opt_view(*final(logged_in_user)) == session_step(
            opt_view(*old(logged_in_user)),
            SessionOp::Logout,
        ),
        *final(logged_in_user) is None,
        page.logged_in == cookie_text.is_some(),
        match cookie_text {
            Some(t) => cookie_name_spec(t@, page.username@),
            None => page.username@ == "no name"@,
        },
{
    *logged_in_user = None;
    match cookie_text {
        Some(text) => {
            let (_, name) = text.split_at(9);
            let username = name.to_owned();
            LogoutTemplate { logged_in: true, username }
        },
        None => LogoutTemplate { logged_in: false, username: "no name".to_owned() },
    }
}


/// The browser that logged in is logged in: after `login_form` with a name,
/// a browser whose cookie holds that name is logged in, and one whose cookie
/// holds another name, or that has no cookie, is not.
pub proof fn lemma_login_session(username: Seq<char>, cookie_user: Option<Seq<char>>)
    ensures
        session_matches(Some(username), Some(username)),
        cookie_user != Some(username) ==> !session_matches(cookie_user, Some(username)),
{
}

/// After `logout` no browser is logged in, whatever cookie it sends.
pub proof fn lemma_logout_session(cookie_user: Option<Seq<char>>)
    ensures
        !session_matches(cookie_user, None),
{
}


/// Whoever called last decides the session: after a sequence of session
/// calls from any browsers, the home, demo and maintenance pages show a
/// browser as logged out when the last call was `logout`, or a login with a
/// name other than the one in the browser's cookie.
pub proof fn lemma_last_call_decides(
    start: Option<Seq<char>>,
    ops: Seq<SessionOp>,
    cookie_user: Option<Seq<char>>,
)
    requires
        ops.len() > 0,
        match ops.last() {
            SessionOp::Logout => true,
            SessionOp::Login(name) => cookie_user != Some(name),
        },
    ensures
        !session_matches(cookie_user, apply_ops(start, ops)),
{
}

/// The login page of a freshly started server, after any sequence of session
/// calls, shows a user online exactly when there was a call and the last one
/// was a login.
pub proof fn lemma_login_page_after_calls(ops: Seq<SessionOp>)
    ensures
        apply_ops(None, ops) is Some <==> (ops.len() > 0 && ops.last() is Login),
{
}

} // verus!
