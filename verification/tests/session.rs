use gemini::client::{Client, Outcome, PromptAction};
use gemini::location::{loc_eq, Location};
use gemini::models::{Pager, Response};

fn loc(host: &str, path: &str) -> Location {
    Location {
        scheme: "gemini".to_string(),
        host: host.to_string(),
        port: None,
        path: path.to_string(),
        query: None,
    }
}

#[test]
fn new_session_is_fresh() {
    let l = loc("host", "/start");
    let c = Client::new(&l, Pager::More);
    assert_eq!(c.redirects, 0);
    assert_eq!(c.max_redirects, 5);
    assert!(c.history.is_empty());
    assert!(c.last_working_url.is_none());
    assert!(loc_eq(&c.current_url, &l));
    assert_eq!(c.pager, Pager::More);
}

#[test]
fn begin_request_appends_history_and_sets_current() {
    let l0 = loc("host", "/a");
    let l1 = loc("host", "/b");
    let mut c = Client::new(&l0, Pager::Less);
    c.begin_request(l0.clone());
    c.begin_request(l1.clone());
    assert_eq!(c.history.len(), 2);
    assert!(loc_eq(&c.history[0], &l0));
    assert!(loc_eq(&c.history[1], &l1));
    assert!(loc_eq(&c.current_url, &l1));
}

#[test]
fn success_records_last_known_good_and_resets_counter() {
    let l = loc("host", "/a");
    let mut c = Client::new(&l, Pager::Less);
    c.begin_request(l.clone());
    c.redirects = 3;
    let resp = Response::parse("20 text/gemini\nhello").unwrap();
    let out = c.handle_response(&resp, &l);
    assert!(matches!(out, Outcome::ShowPage));
    assert_eq!(c.redirects, 0);
    assert!(loc_eq(c.last_working_url.as_ref().unwrap(), &l));
}

#[test]
fn input_codes_pick_visible_or_secret_prompt() {
    let l = loc("host", "/a");
    let mut c = Client::new(&l, Pager::Less);
    c.begin_request(l.clone());
    let visible = Response::parse("10 Enter a term").unwrap();
    match c.handle_response(&visible, &l) {
        Outcome::PromptInput { secret } => assert!(!secret),
        _ => panic!("expected an input prompt"),
    }
    let hidden = Response::parse("11 Password").unwrap();
    match c.handle_response(&hidden, &l) {
        Outcome::PromptInput { secret } => assert!(secret),
        _ => panic!("expected an input prompt"),
    }
}

#[test]
fn input_target_reuses_last_entry_with_query() {
    let l = loc("host", "/search");
    let mut c = Client::new(&l, Pager::Less);
    assert!(c.input_target(Some("q".to_string())).is_none());
    c.begin_request(l.clone());
    let t = c.input_target(Some("answer".to_string())).unwrap();
    assert_eq!(t.host, "host");
    assert_eq!(t.path, "/search");
    assert_eq!(t.query.as_deref(), Some("answer"));
}

#[test]
fn failure_statuses_terminate() {
    let l = loc("host", "/a");
    let mut c = Client::new(&l, Pager::Less);
    c.begin_request(l.clone());
    let temp = Response::parse("40 slow down").unwrap();
    assert!(matches!(c.handle_response(&temp, &l), Outcome::Failed));
    let perm = Response::parse("51 gone").unwrap();
    assert!(matches!(c.handle_response(&perm, &l), Outcome::Failed));
    let cert = Response::parse("60 cert please").unwrap();
    assert!(matches!(c.handle_response(&cert, &l), Outcome::Failed));
    let unknown = Response::parse("99 what").unwrap();
    match c.handle_response(&unknown, &l) {
        Outcome::InvalidCode(code) => assert_eq!(code, 99),
        _ => panic!("expected an invalid-code outcome"),
    }
}

#[test]
fn redirect_chain_falls_back_after_the_bound() {
    let l0 = loc("host", "/start");
    let mut c = Client::new(&l0, Pager::Less);
    c.begin_request(l0.clone());
    let redirect = Response::parse("30 /loop").unwrap();
    let mut gotos: usize = 0;
    loop {
        let target = c.current_url.clone();
        match c.handle_response(&redirect, &target) {
            Outcome::Goto(next) => {
                gotos += 1;
                assert!(gotos < 100, "redirect chain must be bounded");
                c.begin_request(next);
            }
            Outcome::Fallback(fb) => {
                assert!(fb.is_none(), "no last known good location exists");
                break;
            }
            _ => panic!("expected only redirects"),
        }
    }
    assert_eq!(gotos, 4);
    assert_eq!(c.redirects, 5);
}

#[test]
fn redirect_fallback_returns_last_known_good() {
    let l0 = loc("host", "/good");
    let mut c = Client::new(&l0, Pager::Less);
    c.begin_request(l0.clone());
    let ok = Response::parse("20 ok\nfine").unwrap();
    assert!(matches!(c.handle_response(&ok, &l0), Outcome::ShowPage));
    let redirect = Response::parse("30 /loop").unwrap();
    loop {
        let target = c.current_url.clone();
        match c.handle_response(&redirect, &target) {
            Outcome::Goto(next) => c.begin_request(next),
            Outcome::Fallback(fb) => {
                assert!(loc_eq(&fb.unwrap(), &l0));
                break;
            }
            _ => panic!("expected only redirects"),
        }
    }
    assert_eq!(c.redirects, 5);
}

#[test]
fn end_to_end_history_and_counter() {
    let l0 = loc("host", "/a");
    let mut c = Client::new(&l0, Pager::Less);

    c.begin_request(l0.clone());
    let ok = Response::parse("20 ok\n=> /b next").unwrap();
    assert!(matches!(c.handle_response(&ok, &l0), Outcome::ShowPage));

    let l1 = match c.interpret_command(&ok, "0") {
        PromptAction::Goto(l) => l,
        _ => panic!("expected the link click to navigate"),
    };
    assert_eq!(l1.path, "/b");
    c.begin_request(l1.clone());

    let redirect = Response::parse("30 /c").unwrap();
    let l2 = match c.handle_response(&redirect, &l1) {
        Outcome::Goto(l) => l,
        _ => panic!("expected the redirect to resolve"),
    };
    assert_eq!(l2.path, "/c");
    assert_eq!(c.redirects, 1);
    c.begin_request(l2.clone());

    let ok2 = Response::parse("20 ok\ndone").unwrap();
    assert!(matches!(c.handle_response(&ok2, &l2), Outcome::ShowPage));

    assert_eq!(c.history.len(), 3);
    assert!(loc_eq(&c.history[0], &l0));
    assert!(loc_eq(&c.history[1], &l1));
    assert!(loc_eq(&c.history[2], &l2));
    assert!(loc_eq(c.last_working_url.as_ref().unwrap(), &l2));
    assert_eq!(c.redirects, 0);
}

#[test]
fn back_and_reload_use_the_history() {
    let l0 = loc("host", "/a");
    let l1 = loc("host", "/b");
    let l2 = loc("host", "/c");
    let mut c = Client::new(&l0, Pager::Less);
    c.begin_request(l0.clone());
    c.begin_request(l1.clone());
    c.begin_request(l2.clone());
    let resp = Response::parse("20 ok\nx").unwrap();
    match c.interpret_command(&resp, "b") {
        PromptAction::Goto(l) => assert!(loc_eq(&l, &l1)),
        _ => panic!("back must resolve to the entry before the current one"),
    }
    match c.interpret_command(&resp, "r") {
        PromptAction::Goto(l) => assert!(loc_eq(&l, &l2)),
        _ => panic!("reload must resolve to the current entry"),
    }
}

#[test]
fn back_with_short_history_reports_no_history() {
    let l0 = loc("host", "/a");
    let mut c = Client::new(&l0, Pager::Less);
    c.begin_request(l0.clone());
    let resp = Response::parse("20 ok\nx").unwrap();
    assert!(matches!(c.interpret_command(&resp, "b"), PromptAction::NoHistory));
    let fresh = Client::new(&l0, Pager::Less);
    assert!(matches!(fresh.interpret_command(&resp, "r"), PromptAction::NoHistory));
}

#[test]
fn prompt_commands_quit_edit_url_and_invalid() {
    let l0 = loc("host", "/a");
    let mut c = Client::new(&l0, Pager::Less);
    c.begin_request(l0.clone());
    let resp = Response::parse("20 ok\n=> /b next").unwrap();
    assert!(matches!(c.interpret_command(&resp, "q"), PromptAction::Quit));
    assert!(matches!(c.interpret_command(&resp, "e"), PromptAction::Edit));
    match c.interpret_command(&resp, "gemini://elsewhere/x") {
        PromptAction::Goto(l) => assert_eq!(l.host, "elsewhere"),
        _ => panic!("a full URL navigates"),
    }
    assert!(matches!(c.interpret_command(&resp, "nonsense words"), PromptAction::Invalid));
    assert!(matches!(c.interpret_command(&resp, "7"), PromptAction::Invalid));
}

#[test]
fn prompt_external_link_selection() {
    let l0 = loc("host", "/a");
    let mut c = Client::new(&l0, Pager::Less);
    c.begin_request(l0.clone());
    let resp = Response::parse("20 ok\n=> https://www.example.com site").unwrap();
    match c.interpret_command(&resp, "0") {
        PromptAction::OpenExternal(s) => assert_eq!(s, "https://www.example.com"),
        _ => panic!("a foreign-scheme link is handed to an outside opener"),
    }
}
