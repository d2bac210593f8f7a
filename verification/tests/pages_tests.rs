use rpi_control::controller::{Slider, Variable};
use rpi_control::pages::{
    demo, index, is_logged_in, login, login_form, logout, maintenance, new_session,
};

fn navbar() -> (String, String) {
    ("pause".to_string(), "pause".to_string())
}

#[test]
fn login_then_index_is_logged_in() {
    let mut user: Option<String> = None;
    assert!(!login(&user).any_user_online);
    let target = login_form(&mut user, &"alice".to_string());
    assert_eq!(target, "/");
    assert_eq!(user.as_deref(), Some("alice"));
    assert!(login(&user).any_user_online);
    let page = index(&Some("alice".to_string()), &user, true, navbar(), "47'C".to_string());
    assert!(page.logged_in);
    assert_eq!(page.cpu_temp, "47'C");
    assert_eq!(page.action, "pause");
    assert!(page.is_running);
    let other = index(&Some("bob".to_string()), &user, true, navbar(), String::new());
    assert!(!other.logged_in);
    let none = index(&None, &user, false, navbar(), String::new());
    assert!(!none.logged_in);
}

#[test]
fn a_second_login_replaces_the_first() {
    let mut user = Some("alice".to_string());
    login_form(&mut user, &"bob".to_string());
    assert!(!is_logged_in(&Some("alice".to_string()), &user));
    assert!(is_logged_in(&Some("bob".to_string()), &user));
}

#[test]
fn logout_greets_cookie_name() {
    let mut user = Some("alice".to_string());
    let page = logout(&mut user, Some("username=alice"));
    assert!(user.is_none());
    assert!(page.logged_in);
    assert_eq!(page.username, "alice");
    let page = logout(&mut user, None);
    assert!(!page.logged_in);
    assert_eq!(page.username, "no name");
    assert!(!is_logged_in(&Some("alice".to_string()), &user));
}

#[test]
fn demo_shows_settings_only_while_running() {
    let settings = (
        vec![Slider { name: "s".to_string(), min: 0, max: 10, value: 5 }],
        vec![Variable { name: "v".to_string(), value: "x".to_string() }],
    );
    let user = Some("alice".to_string());
    let page = demo(&user, &user, true, navbar(), Some(settings));
    assert!(page.logged_in);
    assert_eq!(page.settings_sliders.len(), 1);
    assert_eq!(page.settings_others[0].value, "x");
    let settings = (vec![Slider { name: "s".to_string(), min: 0, max: 10, value: 5 }], vec![]);
    let page = demo(&None, &user, false, navbar(), Some(settings));
    assert!(!page.logged_in);
    assert!(page.settings_sliders.is_empty());
    let page = demo(&user, &user, true, navbar(), None);
    assert!(page.settings_sliders.is_empty() && page.settings_others.is_empty());
}

#[test]
fn maintenance_has_no_settings() {
    let user = Some("alice".to_string());
    let page = maintenance(&user, &user, false, ("".to_string(), "x-circle".to_string()));
    assert!(page.logged_in);
    assert!(!page.is_running);
    assert_eq!(page.icon_name, "x-circle");
    assert!(page.settings_sliders.is_empty() && page.settings_others.is_empty());
}

#[test]
fn last_session_call_decides() {
    let mut user = new_session();
    assert!(!login(&user).any_user_online);
    login_form(&mut user, &"alice".to_string());
    logout(&mut user, Some("username=alice"));
    login_form(&mut user, &"bob".to_string());
    assert!(login(&user).any_user_online);
    assert!(!is_logged_in(&Some("alice".to_string()), &user));
    assert!(is_logged_in(&Some("bob".to_string()), &user));
    logout(&mut user, None);
    assert!(!login(&user).any_user_online);
    assert!(!is_logged_in(&Some("bob".to_string()), &user));
}
