use brimstone::missilesystem::{
    classify_failure, str_contains, BanFailure, BanResult, ErrorState, Session,
};

#[test]
fn retry_classes_cover_every_failure() {
    assert_eq!(BanFailure::TooFast.try_again_later(), ErrorState::TryAgain);
    assert_eq!(BanFailure::Unknown.try_again_later(), ErrorState::TryAgain);
    assert_eq!(BanFailure::AlreadyBanned.try_again_later(), ErrorState::Skip);
    assert_eq!(BanFailure::NoInfluence.try_again_later(), ErrorState::Skip);
    assert_eq!(BanFailure::NotAllowed.try_again_later(), ErrorState::Abort);
}

#[test]
fn str_contains_finds_inner_pieces() {
    assert!(str_contains("hello world", "lo wo"));
    assert!(str_contains("hello world", "hello"));
    assert!(str_contains("hello world", "world"));
    assert!(str_contains("anything", ""));
    assert!(!str_contains("abc", "abcd"));
    assert!(!str_contains("hello world", "worlds"));
}

#[test]
fn error_messages_name_their_failure() {
    assert_eq!(
        classify_failure("Our heavy nation-shifting assets are currently deployed elsewhere."),
        BanFailure::TooFast
    );
    assert_eq!(
        classify_failure("You don't have enough regional influence to do that."),
        BanFailure::NoInfluence
    );
    assert_eq!(
        classify_failure("Testlandia is already on the regional ban list."),
        BanFailure::AlreadyBanned
    );
    assert_eq!(
        classify_failure("You are not authorized to handle matters relating to Border Control."),
        BanFailure::NotAllowed
    );
    assert_eq!(classify_failure("Something else went wrong."), BanFailure::Unknown);
}

#[test]
fn fresh_session_has_empty_tokens() {
    let session = Session::new("test_region".to_string());
    let request = session.ban_request(&"target".to_string(), 1);
    assert_eq!(request.region, "test_region");
    assert_eq!(request.pin, "");
    assert_eq!(request.chk, "");
    assert_eq!(request.nation, "target");
    assert_eq!(request.userclick, 1);
}

#[test]
fn override_region_changes_only_the_region() {
    let mut session = Session::new("old_region".to_string());
    session.override_region("new_region");
    assert_eq!(session.region, "new_region");
    let request = session.arm_request(5);
    assert_eq!(request.region, "new_region");
    assert_eq!(request.pin, "");
}

#[test]
fn login_pin_reaches_later_requests() {
    let mut session = Session::new("r".to_string());
    session.set_pin("secretpin".to_string());
    let request = session.arm_request(9);
    assert_eq!(request.pin, "secretpin");
    assert_eq!(request.userclick, 9);
}

#[test]
fn success_page_reports_success_and_refreshes_the_token() {
    let mut session = Session::new("r".to_string());
    let body = "<html><body><p class=\"info\">Nation banned.</p><input type=\"hidden\" name=\"chk\" value=\"tok123\"></body></html>";
    let result = session.yeet_response(body);
    assert_eq!(result, BanResult::Success);
    let request = session.ban_request(&"next".to_string(), 2);
    assert_eq!(request.chk, "tok123");
}

#[test]
fn influence_error_page_reports_no_influence() {
    let mut session = Session::new("r".to_string());
    let body = "<html><body><p class=\"error\">You don't have enough regional influence to banject that nation.</p><input name=\"chk\" value=\"tok9\"></body></html>";
    let result = session.yeet_response(body);
    assert_eq!(result, BanResult::Failure(BanFailure::NoInfluence));
    let request = session.ban_request(&"next".to_string(), 2);
    assert_eq!(request.chk, "tok9");
}

#[test]
fn cooldown_error_page_reports_too_fast() {
    let mut session = Session::new("r".to_string());
    let body = "<html><body><p class=\"error\">Our heavy nation-shifting assets are currently deployed.</p></body></html>";
    assert_eq!(session.yeet_response(body), BanResult::Failure(BanFailure::TooFast));
}

#[test]
fn lost_privilege_page_reports_not_allowed() {
    let mut session = Session::new("r".to_string());
    let body = "<html><body><p class=\"error\">You are not authorized to handle matters relating to Border Control.</p></body></html>";
    assert_eq!(session.yeet_response(body), BanResult::Failure(BanFailure::NotAllowed));
}

#[test]
fn ban_list_page_reports_already_banned() {
    let mut session = Session::new("r".to_string());
    let body = "<html><body><p class=\"error\">Somebody is already on the regional ban list.</p></body></html>";
    assert_eq!(session.yeet_response(body), BanResult::Failure(BanFailure::AlreadyBanned));
}

#[test]
fn page_without_markers_is_an_unknown_failure() {
    let mut session = Session::new("r".to_string());
    let body = "<html><body><p>nothing to see</p></body></html>";
    assert_eq!(session.yeet_response(body), BanResult::Failure(BanFailure::Unknown));
}

#[test]
fn unrecognized_error_text_is_an_unknown_failure() {
    let mut session = Session::new("r".to_string());
    let body = "<html><body><p class=\"error\">A brand new error.</p></body></html>";
    assert_eq!(session.yeet_response(body), BanResult::Failure(BanFailure::Unknown));
}

#[test]
fn page_without_chk_keeps_the_old_token() {
    let mut session = Session::new("r".to_string());
    let with_token = "<html><body><input name=\"chk\" value=\"keepme\"></body></html>";
    session.absorb_chk(with_token);
    let without_token = "<html><body><p class=\"info\">ok</p></body></html>";
    let result = session.yeet_response(without_token);
    assert_eq!(result, BanResult::Success);
    let request = session.ban_request(&"n".to_string(), 3);
    assert_eq!(request.chk, "keepme");
}
