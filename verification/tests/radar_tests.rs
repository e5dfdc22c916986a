use brimstone::canonicalize;
use brimstone::radar::{
    radar_tick, roster_names, APIResponse, BogeyMode, Disposition, RadarCommand, RadarReading, IFF,
};

fn strings(names: &[&str]) -> Vec<String> {
    names.iter().map(|n| n.to_string()).collect()
}

fn open_iff(mode: BogeyMode) -> IFF {
    IFF {
        bogey_mode: mode,
        whitelist_explicit: Vec::new(),
        whitelist_implicit: Vec::new(),
        blacklist_explicit: Vec::new(),
        blacklist_implicit: Vec::new(),
    }
}

#[test]
fn canonicalize_lowers_and_underscores() {
    assert_eq!(canonicalize("My Nation"), "my_nation");
    assert_eq!(canonicalize("my_nation"), "my_nation");
    assert_eq!(canonicalize("My Nation"), canonicalize("my_nation"));
}

#[test]
fn canonicalize_is_idempotent_on_values() {
    let once = canonicalize("Grand Duchy Of Koln 9");
    let twice = canonicalize(&once);
    assert_eq!(once, twice);
}

#[test]
fn canonicalize_empty_is_empty() {
    assert_eq!(canonicalize(""), "");
}

#[test]
fn split_nations_on_colons() {
    let response = APIResponse { nations: "Alpha One:BETA:gamma".to_string(), last_update: 7 };
    assert_eq!(response.split_nations(), strings(&["alpha_one", "beta", "gamma"]));
}

#[test]
fn split_nations_on_commas() {
    let response = APIResponse { nations: "First Place,Second Place".to_string(), last_update: 0 };
    assert_eq!(response.split_nations(), strings(&["first_place", "second_place"]));
}

#[test]
fn split_nations_without_separator_is_the_lone_member() {
    let response = APIResponse { nations: "Lone Guard".to_string(), last_update: 3 };
    assert_eq!(response.split_nations(), strings(&["lone_guard"]));
}

#[test]
fn split_nations_on_an_empty_field_is_empty() {
    let response = APIResponse { nations: "".to_string(), last_update: 3 };
    assert_eq!(response.split_nations(), Vec::<String>::new());
}

#[test]
fn roster_names_flattens_delegate_and_offices_in_order() {
    let offices = vec![strings(&["First Officer", "second_officer"]), strings(&["Third One"])];
    let roster = roster_names("The Delegate", offices);
    assert_eq!(roster, strings(&["the_delegate", "first_officer", "second_officer", "third_one"]));
}

#[test]
fn roster_names_without_offices_is_the_delegate_alone() {
    let roster = roster_names("Boss", Vec::new());
    assert_eq!(roster, strings(&["boss"]));
}

#[test]
fn explicit_allow_beats_implicit_deny() {
    let mut iff = open_iff(BogeyMode::BanUnknowns);
    iff.whitelist_explicit = strings(&["dual"]);
    iff.blacklist_implicit = strings(&["dual"]);
    assert_eq!(iff.classify(&"dual".to_string()), Disposition::Friendly);
}

#[test]
fn explicit_deny_beats_implicit_allow() {
    let mut iff = open_iff(BogeyMode::SpareUnknowns);
    iff.blacklist_explicit = strings(&["dual"]);
    iff.whitelist_implicit = strings(&["dual"]);
    assert_eq!(iff.classify(&"dual".to_string()), Disposition::Hostile);
}

#[test]
fn unlisted_name_follows_default_disposition() {
    let iff = open_iff(BogeyMode::BanUnknowns);
    assert_eq!(iff.classify(&"stranger".to_string()), Disposition::Hostile);
    let iff = open_iff(BogeyMode::SpareUnknowns);
    assert_eq!(iff.classify(&"stranger".to_string()), Disposition::SparedUnknown);
}

#[test]
fn classify_canonicalizes_its_input() {
    let mut iff = open_iff(BogeyMode::SpareUnknowns);
    iff.blacklist_explicit = strings(&["bad_guy"]);
    assert_eq!(iff.classify(&"Bad Guy".to_string()), Disposition::Hostile);
}

#[test]
fn tick_diffs_departures_and_hostile_arrivals() {
    let prev = strings(&["a", "b", "c"]);
    let curr = RadarReading { nations: strings(&["b", "c", "d"]), last_update: 10 };
    let iff = open_iff(BogeyMode::BanUnknowns);
    let sweep = radar_tick(&prev, 10, &curr, true, &iff);
    assert!(!sweep.hold_fire);
    assert_eq!(sweep.events.len(), 2);
    assert!(matches!(&sweep.events[0], RadarCommand::Seperate(n) if n.as_str() == "a"));
    assert!(matches!(&sweep.events[1], RadarCommand::Inbound(n) if n.as_str() == "d"));
}

#[test]
fn tick_emits_nothing_for_friendly_arrival() {
    let prev = strings(&["a", "b", "c"]);
    let curr = RadarReading { nations: strings(&["b", "c", "d"]), last_update: 10 };
    let mut iff = open_iff(BogeyMode::BanUnknowns);
    iff.whitelist_explicit = strings(&["d"]);
    let sweep = radar_tick(&prev, 10, &curr, true, &iff);
    assert!(!sweep.hold_fire);
    assert_eq!(sweep.events.len(), 1);
    assert!(matches!(&sweep.events[0], RadarCommand::Seperate(n) if n.as_str() == "a"));
}

#[test]
fn tick_on_refresh_emits_only_hold_fire() {
    let prev = strings(&["a", "b", "c"]);
    let curr = RadarReading { nations: strings(&["x", "y"]), last_update: 11 };
    let iff = open_iff(BogeyMode::BanUnknowns);
    let sweep = radar_tick(&prev, 10, &curr, true, &iff);
    assert!(sweep.hold_fire);
    assert_eq!(sweep.events.len(), 1);
    assert!(matches!(&sweep.events[0], RadarCommand::HoldFire));
}

#[test]
fn tick_ignores_refresh_when_not_watching() {
    let prev = strings(&["a"]);
    let curr = RadarReading { nations: strings(&["a", "b"]), last_update: 99 };
    let iff = open_iff(BogeyMode::BanUnknowns);
    let sweep = radar_tick(&prev, 10, &curr, false, &iff);
    assert!(!sweep.hold_fire);
    assert_eq!(sweep.events.len(), 1);
    assert!(matches!(&sweep.events[0], RadarCommand::Inbound(n) if n.as_str() == "b"));
}

#[test]
fn tick_with_equal_snapshots_is_quiet() {
    let prev = strings(&["a", "b"]);
    let curr = RadarReading { nations: strings(&["a", "b"]), last_update: 10 };
    let iff = open_iff(BogeyMode::BanUnknowns);
    let sweep = radar_tick(&prev, 10, &curr, true, &iff);
    assert!(!sweep.hold_fire);
    assert!(sweep.events.is_empty());
}
