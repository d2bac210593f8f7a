use rpi_control::controller::{
    check_settings, classify_settings, get_cpu_temp, get_navbar_info, get_settings, get_state,
    is_running,
};
use std::collections::HashMap;

fn entries(pairs: &[(&str, &str)]) -> Vec<(String, String)> {
    pairs.iter().map(|(k, v)| (k.to_string(), v.to_string())).collect()
}

fn reply(pairs: &[(&str, &str)]) -> Vec<u8> {
    let map: HashMap<String, String> =
        pairs.iter().map(|(k, v)| (k.to_string(), v.to_string())).collect();
    serde_cbor::to_vec(&map).unwrap()
}

#[test]
fn controller_running_when_listed() {
    assert!(is_running("pi 123 python3 demo_controller_app.py\npi 124 grep python3"));
    assert!(!is_running("pi 124 grep python3\n"));
    assert!(!is_running("demo_controller_app.p"));
    assert!(is_running("demo_controller_app.py"));
}

#[test]
fn cpu_temp_drops_prefix() {
    assert_eq!(get_cpu_temp("temp=47.2'C\n"), "47.2'C\n");
    assert_eq!(get_cpu_temp("no reading"), "no reading");
    assert_eq!(get_cpu_temp("temp=temp=1"), "1");
    assert_eq!(get_cpu_temp("ttemp=emp=2"), "ttemp=emp=2".replace("temp=", ""));
}

#[test]
fn settings_are_sorted_into_sliders_and_variables() {
    let bytes = reply(&[("my_var", "50"), ("my_message", "Hello!"), ("slider_var", "0:50:100")]);
    let (sliders, others) = get_settings(&bytes).unwrap();
    assert_eq!(sliders.len(), 1);
    assert_eq!(sliders[0].name, "slider_var");
    assert_eq!((sliders[0].min, sliders[0].value, sliders[0].max), (0, 50, 100));
    assert_eq!(others.len(), 2);
    assert_eq!((others[0].name.as_str(), others[0].value.as_str()), ("my_message", "Hello!"));
    assert_eq!((others[1].name.as_str(), others[1].value.as_str()), ("my_var", "50"));
}

#[test]
fn slider_with_extra_pieces_and_plus_signs() {
    let (sliders, others) = classify_settings(&entries(&[("s", "+1:2:+3:junk")]));
    assert!(others.is_empty());
    assert_eq!((sliders[0].min, sliders[0].value, sliders[0].max), (1, 2, 3));
}

#[test]
fn invalid_sliders_are_refused() {
    assert!(get_settings(&reply(&[("s", "1:2")])).is_none());
    assert!(get_settings(&reply(&[("s", "a:b:c")])).is_none());
    assert!(get_settings(&reply(&[("s", "1::3")])).is_none());
    assert!(get_settings(&reply(&[("s", "1:2:4294967296")])).is_none());
    assert!(!check_settings(&entries(&[("ok", "1:2:3"), ("bad", ":")])));
    assert!(check_settings(&entries(&[("ok", "1:2:3"), ("text", "plain")])));
}

#[test]
fn undecodable_settings_reply() {
    assert!(get_settings(&[0x01, 0x02]).is_none());
    assert!(get_state(&[0x01, 0x02]).is_none());
}

#[test]
fn navbar_follows_pause_state() {
    let running = get_state(&reply(&[("paused", "false")])).unwrap();
    assert_eq!(get_navbar_info(Some(&running)), ("pause".to_string(), "pause".to_string()));
    let paused = get_state(&reply(&[("paused", "true")])).unwrap();
    assert_eq!(get_navbar_info(Some(&paused)), ("unpause".to_string(), "play".to_string()));
    let other = get_state(&reply(&[("mode", "false")])).unwrap();
    assert_eq!(get_navbar_info(Some(&other)), ("".to_string(), "x-circle".to_string()));
    assert_eq!(get_navbar_info(None), ("".to_string(), "x-circle".to_string()));
}

#[test]
fn state_reply_keys_are_distinct_and_ascending() {
    let state = get_state(&reply(&[("zeta", "1"), ("paused", "true"), ("alpha", "2")])).unwrap();
    for w in state.windows(2) {
        assert!(w[0].0 < w[1].0);
    }
}
