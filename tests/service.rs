use tracker::handlers::{Body, Reply, Status};
use tracker::location::{Location, Token};
use tracker::service::Tracker;

fn s(x: &str) -> String {
    x.to_string()
}

fn report(token: &str, timestamp: &str) -> Location {
    Location::new(s(token), s("1"), s("1"), s(timestamp), s("1"), s("1"), s("1"), s("1"))
}

fn reply(status: Status, body: Body) -> Reply {
    Reply { status, body }
}

#[test]
fn bad_token_is_refused_and_nothing_stored() {
    let mut t = Tracker::new(s("SECRET"));
    let r = t.log(&report("BAD", "T1"));
    assert_eq!(r, reply(Status::Unauthorized, Body::InvalidToken));
    assert_eq!(r.status.code(), 401);
    assert_eq!(r.body.text(), "ERROR: Invalid Token");
    assert!(t.locations().is_empty());
}

#[test]
fn duplicate_timestamp_is_refused_with_ok_status() {
    let mut t = Tracker::new(s("SECRET"));
    let first = t.log(&report("SECRET", "T1"));
    assert_eq!(first.status.code(), 201);
    assert_eq!(first.body.text(), "OK");
    let second = t.log(&report("SECRET", "T1"));
    assert_eq!(second.status.code(), 200);
    assert_eq!(second.body.text(), "ERROR");
    let listed = t.locations();
    assert_eq!(listed.len(), 1);
    assert_eq!(listed[0].timestamp, "T1");
}

#[test]
fn reset_after_three_fixes_empties_the_history() {
    let mut t = Tracker::new(s("SECRET"));
    for ts in ["T1", "T2", "T3"] {
        assert_eq!(t.log(&report("SECRET", ts)).status, Status::Created);
    }
    assert_eq!(t.locations().len(), 3);
    let r = t.reset(&Token::new(s("SECRET")));
    assert_eq!(r.status.code(), 200);
    assert_eq!(r.body.text(), "OK");
    assert!(t.locations().is_empty());
}

#[test]
fn logged_fix_comes_back_verbatim_without_token() {
    let mut t = Tracker::new(s("SECRET"));
    let fix = Location::new(s("SECRET"), s("1.0"), s("2.0"), s("T1"), s("0.5"), s("10"), s("0"), s("0"));
    assert_eq!(t.log(&fix), reply(Status::Created, Body::Success));
    let listed = t.locations();
    let expected = Location::new(s(""), s("1.0"), s("2.0"), s("T1"), s("0.5"), s("10"), s("0"), s("0"));
    assert_eq!(listed, vec![expected]);
}

#[test]
fn history_is_in_ascending_timestamp_order() {
    let mut t = Tracker::new(s("K"));
    for ts in ["2024-03", "2024-01", "2024-02"] {
        t.log(&report("K", ts));
    }
    let order: Vec<String> = t.locations().into_iter().map(|l| l.timestamp).collect();
    assert_eq!(order, vec![s("2024-01"), s("2024-02"), s("2024-03")]);
}

#[test]
fn history_order_does_not_depend_on_insert_order() {
    let mut a = Tracker::new(s("K"));
    let mut b = Tracker::new(s("K"));
    for ts in ["b", "a", "c", "B"] {
        a.log(&report("K", ts));
    }
    for ts in ["c", "B", "b", "a"] {
        b.log(&report("K", ts));
    }
    let la = a.locations();
    assert_eq!(la, b.locations());
    let order: Vec<String> = la.into_iter().map(|l| l.timestamp).collect();
    assert_eq!(order, vec![s("B"), s("a"), s("b"), s("c")]);
}

#[test]
fn history_order_is_text_order_not_chronological() {
    let mut t = Tracker::new(s("K"));
    for ts in ["9", "10", "100"] {
        t.log(&report("K", ts));
    }
    let order: Vec<String> = t.locations().into_iter().map(|l| l.timestamp).collect();
    assert_eq!(order, vec![s("10"), s("100"), s("9")]);
}

#[test]
fn reset_on_empty_store_twice_succeeds() {
    let mut t = Tracker::new(s("K"));
    let first = t.reset(&Token::new(s("K")));
    let second = t.reset(&Token::new(s("K")));
    assert_eq!(first, reply(Status::Success, Body::Success));
    assert_eq!(second, first);
    assert!(t.locations().is_empty());
}

#[test]
fn reset_with_wrong_token_keeps_rows() {
    let mut t = Tracker::new(s("K"));
    t.log(&report("K", "T1"));
    let r = t.reset(&Token::new(s("k")));
    assert_eq!(r, reply(Status::Unauthorized, Body::InvalidToken));
    assert_eq!(t.locations().len(), 1);
}

#[test]
fn token_must_match_exactly() {
    let mut t = Tracker::new(s("K"));
    assert_eq!(t.log(&report("K ", "T1")).status, Status::Unauthorized);
    assert_eq!(t.log(&report("", "T1")).status, Status::Unauthorized);
    assert_eq!(t.log(&report("K", "T1")).status, Status::Created);
}

#[test]
fn empty_secret_accepts_only_empty_token() {
    let mut t = Tracker::new(s(""));
    assert_eq!(t.log(&report("x", "T1")).status, Status::Unauthorized);
    assert_eq!(t.log(&report("", "T1")).status, Status::Created);
}
