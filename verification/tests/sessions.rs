use tunnel_relay::encoder::Header;
use tunnel_relay::reply::Reply;
use tunnel_relay::session::{
    cookie_named, login_reply, logout_reply, next_delete_step, session_token, token_session,
    user_record, DeleteStep, SessionError, UserInfo, DELETE_RETRY_DELAY_MS, MAX_DELETE_TRIES,
};

fn header(name: &str, value: &str) -> Header {
    Header { name: name.to_string(), value: value.as_bytes().to_vec() }
}

#[test]
fn cookie_named_reads_one_cookie_among_several() {
    assert_eq!(cookie_named(b"a=1; token=abc; b=2", b"token"), b"abc".to_vec());
    assert_eq!(cookie_named(b"token=abc", b"token"), b"abc".to_vec());
    assert_eq!(cookie_named(b"a=1; b=2", b"b"), b"2".to_vec());
}

#[test]
fn cookie_named_gives_nothing_for_a_missing_cookie() {
    assert_eq!(cookie_named(b"a=1; b=2", b"token"), Vec::<u8>::new());
    assert_eq!(cookie_named(b"", b"token"), Vec::<u8>::new());
    assert_eq!(cookie_named(b"tokens=1", b"token"), Vec::<u8>::new());
}

#[test]
fn cookie_named_takes_the_later_of_two() {
    assert_eq!(cookie_named(b"token=first; token=second", b"token"), b"second".to_vec());
    assert_eq!(cookie_named(b"token=first; x=1; token", b"token"), Vec::<u8>::new());
}

#[test]
fn cookie_value_ends_at_a_second_equals_sign() {
    assert_eq!(cookie_named(b"token=a=b", b"token"), b"a".to_vec());
    assert_eq!(cookie_named(b"token=", b"token"), Vec::<u8>::new());
    assert_eq!(cookie_named(b"=v", b""), b"v".to_vec());
}

#[test]
fn cookies_are_separated_by_semicolon_and_space_only() {
    assert_eq!(cookie_named(b"a=1;token=abc", b"token"), Vec::<u8>::new());
    assert_eq!(cookie_named(b"a=1;token=abc", b"a"), b"1;token".to_vec());
    assert_eq!(cookie_named(b"a=1;  token=abc", b"token"), Vec::<u8>::new());
    assert_eq!(cookie_named(b"a=1;  token=abc", b" token"), b"abc".to_vec());
    assert_eq!(cookie_named(b"a=1; ; token=abc", b"token"), b"abc".to_vec());
}

#[test]
fn cookie_named_agrees_with_splitting_into_a_map() {
    let headers: [&str; 6] = [
        "token=1; token=2; a=b=c",
        "a; b; token",
        "; token=9",
        "token=9; ",
        "x=1;  y=2; token=3=4",
        "=",
    ];
    for text in headers {
        let map: std::collections::HashMap<String, String> = text
            .split("; ")
            .map(|cookie| {
                let mut split = cookie.split("=");
                let key = split.next().unwrap_or_default().to_string();
                let value = split.next().unwrap_or_default().to_string();
                (key, value)
            })
            .collect();
        let expected = map.get("token").cloned().unwrap_or_default();
        assert_eq!(cookie_named(text.as_bytes(), b"token"), expected.into_bytes());
    }
}

#[test]
fn session_token_without_a_cookie_header_names_no_session() {
    assert_eq!(session_token(None), Ok(None));
}

#[test]
fn session_token_reads_the_token_cookie() {
    let token = session_token(Some(b"theme=dark; token=550e8400-e29b-41d4-a716-446655440000"));
    assert_eq!(token, Ok(Some(0x550e8400_e29b_41d4_a716_446655440000)));
}

#[test]
fn session_token_reads_a_token_without_hyphens() {
    let token = session_token(Some(b"token=550e8400e29b41d4a716446655440000"));
    assert_eq!(token, Ok(Some(0x550e8400_e29b_41d4_a716_446655440000)));
}

#[test]
fn session_token_rejects_what_is_no_token() {
    assert_eq!(session_token(Some(b"token=abc")), Err(SessionError::InvalidToken));
    assert_eq!(session_token(Some(b"theme=dark")), Err(SessionError::InvalidToken));
    assert_eq!(session_token(Some(b"")), Err(SessionError::InvalidToken));
    assert_eq!(
        session_token(Some(b"token=550e8400-e29b-41d4-a716-44665544000")),
        Err(SessionError::InvalidToken)
    );
}

#[test]
fn session_token_rejects_a_header_that_is_not_text() {
    assert_eq!(
        session_token(Some(b"token=550e8400-e29b-41d4-a716-446655440000; x=\xff")),
        Err(SessionError::HeaderNotText)
    );
    assert_eq!(session_token(Some(b"a\nb")), Err(SessionError::HeaderNotText));
}

#[test]
fn token_session_maps_a_parsed_token() {
    assert_eq!(token_session(Some(7)), Ok(Some(7)));
    assert_eq!(token_session(None), Err(SessionError::InvalidToken));
}

#[test]
fn login_reply_sets_the_cookie_and_redirects() {
    let reply = login_reply(Some("550e8400-e29b-41d4-a716-446655440000"));
    assert_eq!(
        reply,
        Reply {
            status: 307,
            headers: vec![
                header(
                    "Set-Cookie",
                    "token=550e8400-e29b-41d4-a716-446655440000; HttpOnly; Max-Age=2678400; Path=/"
                ),
                header("Location", "/"),
            ],
            body: b"550e8400-e29b-41d4-a716-446655440000".to_vec(),
        }
    );
}

#[test]
fn login_reply_without_a_token_is_a_server_error() {
    assert_eq!(
        login_reply(None),
        Reply { status: 500, headers: vec![], body: b"Internal server error!".to_vec() }
    );
}

#[test]
fn logout_reply_clears_the_cookie_of_a_session() {
    assert_eq!(
        logout_reply(true),
        Reply {
            status: 307,
            headers: vec![
                header("Set-Cookie", "token=; HttpOnly; Path=/; Max-Age=-1"),
                header("Location", "/"),
            ],
            body: vec![],
        }
    );
}

#[test]
fn logout_reply_without_a_session_only_redirects() {
    assert_eq!(
        logout_reply(false),
        Reply { status: 307, headers: vec![header("Location", "/")], body: vec![] }
    );
}

#[test]
fn deletion_is_tried_ten_times() {
    assert_eq!(MAX_DELETE_TRIES, 10);
    assert_eq!(DELETE_RETRY_DELAY_MS, 100);
    let mut failures: u32 = 0;
    let mut attempts: u32 = 0;
    loop {
        attempts += 1;
        match next_delete_step(failures, false) {
            DeleteStep::RetryAfterDelay => failures += 1,
            DeleteStep::FailAfterDelay => break,
            DeleteStep::Done => panic!("a failed deletion is not done"),
        }
    }
    assert_eq!(attempts, 10);
}

#[test]
fn deletion_that_succeeds_is_done() {
    assert_eq!(next_delete_step(0, true), DeleteStep::Done);
    assert_eq!(next_delete_step(9, true), DeleteStep::Done);
    assert_eq!(next_delete_step(u32::MAX, true), DeleteStep::Done);
}

#[test]
fn deletion_steps_at_the_limit() {
    assert_eq!(next_delete_step(0, false), DeleteStep::RetryAfterDelay);
    assert_eq!(next_delete_step(8, false), DeleteStep::RetryAfterDelay);
    assert_eq!(next_delete_step(9, false), DeleteStep::FailAfterDelay);
    assert_eq!(next_delete_step(u32::MAX, false), DeleteStep::FailAfterDelay);
}

#[test]
fn user_record_keeps_the_bits_of_the_identifier() {
    assert_eq!(user_record(42, "octocat".to_string()), UserInfo { id: 42, login: "octocat".to_string() });
    assert_eq!(user_record(i64::MAX as u64, String::new()).id, i64::MAX);
    assert_eq!(user_record(1 << 63, String::new()).id, i64::MIN);
    assert_eq!(user_record(u64::MAX, String::new()).id, -1);
    let samples: [u64; 4] = [0, 1, (1 << 63) + 5, u64::MAX - 7];
    for id in samples {
        assert_eq!(user_record(id, String::new()).id, id as i64);
    }
}
