use tracker::gate::{Authorization, Gate};
use tracker::handlers::{
    history_reply, log_reply, log_request, reset_reply, reset_request, Body, History, LogStep, Reply,
    ResetStep, Status, StoreFailure,
};
use tracker::location::{listing_of, Fix, Location, Token};
use tracker::store::{DuplicateTimestamp, FixStore};
use tracker::text::{compare_text, TextOrder};

fn s(x: &str) -> String {
    x.to_string()
}

fn fix(ts: &str) -> Fix {
    Fix::new(s("1"), s("2"), s(ts), s("3"), s("4"), s("5"), s("6"))
}

#[test]
fn text_compares_by_bytes() {
    assert_eq!(compare_text("a", "b"), TextOrder::Before);
    assert_eq!(compare_text("b", "a"), TextOrder::After);
    assert_eq!(compare_text("abc", "abc"), TextOrder::Same);
    assert_eq!(compare_text("", ""), TextOrder::Same);
    assert_eq!(compare_text("ab", "abc"), TextOrder::Before);
    assert_eq!(compare_text("abc", "ab"), TextOrder::After);
    assert_eq!(compare_text("Z", "a"), TextOrder::Before);
    assert_eq!(compare_text("z", "\u{e9}"), TextOrder::Before);
    assert_eq!(compare_text("\u{ffff}", "\u{10000}"), TextOrder::Before);
}

#[test]
fn gate_is_exact_equality() {
    let g = Gate::new(s("abc"));
    assert_eq!(g.authorize(&s("abc")), Authorization::Authorized);
    assert_eq!(g.authorize(&s("abd")), Authorization::Unauthorized);
    assert_eq!(g.authorize(&s("ABC")), Authorization::Unauthorized);
    assert_eq!(g.authorize(&s("")), Authorization::Unauthorized);
}

#[test]
fn status_codes_and_bodies() {
    assert_eq!(Status::Success.code(), 200);
    assert_eq!(Status::Created.code(), 201);
    assert_eq!(Status::Unauthorized.code(), 401);
    assert_eq!(Status::InternalServerError.code(), 500);
    assert_eq!(Body::Success.text(), "OK");
    assert_eq!(Body::Error.text(), "ERROR");
    assert_eq!(Body::InvalidToken.text(), "ERROR: Invalid Token");
}

#[test]
fn log_steps() {
    let g = Gate::new(s("K"));
    let r = Location::new(s("K"), s("1.0"), s("2.0"), s("T1"), s("0.5"), s("10"), s("0"), s("0"));
    match log_request(&g, &r) {
        LogStep::Insert(f) => assert_eq!(f, Fix::new(s("1.0"), s("2.0"), s("T1"), s("0.5"), s("10"), s("0"), s("0"))),
        LogStep::Respond(_) => panic!("the right token was refused"),
    }
    let bad = Location::new(s("X"), s("1"), s("1"), s("T1"), s("1"), s("1"), s("1"), s("1"));
    match log_request(&g, &bad) {
        LogStep::Respond(reply) => assert_eq!(reply, Reply { status: Status::Unauthorized, body: Body::InvalidToken }),
        LogStep::Insert(_) => panic!("a wrong token was let through"),
    }
    assert_eq!(log_reply(Ok(())), Reply { status: Status::Created, body: Body::Success });
    assert_eq!(log_reply(Err(StoreFailure::Failed)), Reply { status: Status::Success, body: Body::Error });
    assert_eq!(
        log_reply(Err(StoreFailure::Unavailable)),
        Reply { status: Status::InternalServerError, body: Body::Error }
    );
}

#[test]
fn reset_steps() {
    let g = Gate::new(s("K"));
    assert_eq!(reset_request(&g, &Token::new(s("K"))), ResetStep::Clear);
    assert_eq!(
        reset_request(&g, &Token::new(s("BAD"))),
        ResetStep::Respond(Reply { status: Status::Unauthorized, body: Body::InvalidToken })
    );
    assert_eq!(reset_reply(Ok(())), Reply { status: Status::Success, body: Body::Success });
    assert_eq!(reset_reply(Err(StoreFailure::Failed)), Reply { status: Status::InternalServerError, body: Body::Error });
    assert_eq!(reset_reply(Err(StoreFailure::Unavailable)), Reply { status: Status::InternalServerError, body: Body::Error });
}

#[test]
fn history_steps() {
    match history_reply(Ok(vec![fix("T1"), fix("T2")])) {
        History::Listing(entries) => {
            assert_eq!(entries.len(), 2);
            assert_eq!(entries[0].token, "");
            assert_eq!(entries[0].timestamp, "T1");
            assert_eq!(entries[1].timestamp, "T2");
            assert_eq!(entries[1].bearing, "6");
        }
        History::Failure(_) => panic!("a successful read failed"),
    }
    match history_reply(Ok(vec![])) {
        History::Listing(entries) => assert!(entries.is_empty()),
        History::Failure(_) => panic!("an empty read failed"),
    }
    match history_reply(Err(StoreFailure::Failed)) {
        History::Failure(r) => assert_eq!(r.status.code(), 500),
        History::Listing(_) => panic!("a failed read was listed"),
    }
}

#[test]
fn listing_blanks_the_token() {
    let l = listing_of(&vec![fix("T9")]);
    assert_eq!(l, vec![Location::new(s(""), s("1"), s("2"), s("T9"), s("3"), s("4"), s("5"), s("6"))]);
    let back = Location::new(s("tok"), s("1"), s("2"), s("T9"), s("3"), s("4"), s("5"), s("6")).fix();
    assert_eq!(back, fix("T9"));
    assert_eq!(Location::from_fix(fix("T9")).token, "");
}

#[test]
fn store_keeps_order_and_unique_timestamps() {
    let mut st = FixStore::new();
    assert_eq!(st.len(), 0);
    assert_eq!(st.insert(fix("m")), Ok(()));
    assert_eq!(st.insert(fix("a")), Ok(()));
    assert_eq!(st.insert(fix("z")), Ok(()));
    assert_eq!(st.insert(fix("a")), Err(DuplicateTimestamp::Taken));
    assert_eq!(st.len(), 3);
    let ts: Vec<String> = st.list_all().into_iter().map(|f| f.timestamp).collect();
    assert_eq!(ts, vec![s("a"), s("m"), s("z")]);
    st.clear();
    assert_eq!(st.len(), 0);
    assert!(st.list_all().is_empty());
    st.clear();
    assert_eq!(st.len(), 0);
}

#[test]
fn duplicate_keeps_the_first_record() {
    let mut st = FixStore::new();
    assert_eq!(st.insert(fix("T1")), Ok(()));
    let other = Fix::new(s("9"), s("9"), s("T1"), s("9"), s("9"), s("9"), s("9"));
    assert_eq!(st.insert(other), Err(DuplicateTimestamp::Taken));
    assert_eq!(st.list_all(), vec![fix("T1")]);
}
