use vstd::prelude::*;
use crate::gate::Gate;
use crate::handlers::{
    cleared, created, denied, log_reply, log_request, reset_reply, reset_request, write_failed,
    LogStep, Reply, ResetStep, StoreFailure,
};
use crate::location::{FixView, Location, LocationView, Token, listed, listing, listing_of, location_views};
use crate::store::{after_insert, ascending, has_timestamp, lemma_timestamp_stored_once, FixStore};

verus! {

/// The reply to an ingestion request and the rows afterwards.
pub open spec fn log_effect(secret: Seq<char>, report: LocationView, rows: Seq<FixView>) -> (
    Reply,
    Seq<FixView>,
) {
    if report.token != secret {
        (denied(), rows)
    } else if has_timestamp(rows, report.fix.timestamp) {
        (write_failed(), rows)
    } else {
        (created(), after_insert(rows, report.fix))
    }
}

/// The reply to a reset request and the rows afterwards.
pub open spec fn reset_effect(secret: Seq<char>, token: Seq<char>, rows: Seq<FixView>) -> (
    Reply,
    Seq<FixView>,
) {
    if token != secret {
        (denied(), rows)
    } else {
        (cleared(), Seq::empty())
    }
}

/// A second report with an already recorded timestamp is answered 200
/// "ERROR" and changes nothing, and exactly one stored fix carries that
/// timestamp.
pub proof fn lemma_second_log_refused(
    secret: Seq<char>,
    rows: Seq<FixView>,
    first: LocationView,
    second: LocationView,
)
    requires
        ascending(rows),
        first.token == secret,
        second.token == secret,
        first.fix.timestamp == second.fix.timestamp,
    ensures
        ({
            let mid = log_effect(secret, first, rows).1;
            &&& log_effect(secret, second, mid) == (write_failed(), mid)
            &&& ascending(mid)
            &&& has_timestamp(mid, first.fix.timestamp)
            &&& forall|i: int, j: int|
                0 <= i < mid.len() && 0 <= j < mid.len() && #[trigger] mid[i].timestamp
                    == first.fix.timestamp && #[trigger] mid[j].timestamp == first.fix.timestamp
                    ==> i == j
        }),
{
    lemma_timestamp_stored_once(rows, first.fix, second.fix);
}

/// A request with a token other than the secret is answered 401 and leaves
/// the rows unchanged; with the secret both protected endpoints go ahead.
pub proof fn lemma_token_gate(
    secret: Seq<char>,
    report: LocationView,
    token: Seq<char>,
    rows: Seq<FixView>,
)
    ensures
        report.token != secret ==> log_effect(secret, report, rows) == (denied(), rows),
        token != secret ==> reset_effect(secret, token, rows) == (denied(), rows),
        report.token == secret ==> log_effect(secret, report, rows).0 != denied(),
        token == secret ==> reset_effect(secret, token, rows).0 == cleared(),
{
}

/// A reset repeated gives the same reply and the same rows; with the secret
/// it answers 200 "OK" and leaves no rows, also on an empty table.
pub proof fn lemma_reset_idempotent(secret: Seq<char>, token: Seq<char>, rows: Seq<FixView>)
    ensures
        ({
            let once = reset_effect(secret, token, rows);
            reset_effect(secret, token, once.1) == once
        }),
        token == secret ==> reset_effect(secret, token, rows) == (cleared(), Seq::<FixView>::empty()),
{
}

/// A report accepted with the secret shows up, with a blank token, in the
/// next history listing.
pub proof fn lemma_logged_fix_listed(secret: Seq<char>, report: LocationView, rows: Seq<FixView>)
    requires
        ascending(rows),
        report.token == secret,
        !has_timestamp(rows, report.fix.timestamp),
    ensures
        log_effect(secret, report, rows).0 == created(),
        listing(log_effect(secret, report, rows).1).contains(listed(report.fix)),
{
    let after = log_effect(secret, report, rows).1;
    lemma_timestamp_stored_once(rows, report.fix, report.fix);
    let i = choose|i: int| 0 <= i < after.len() && after[i] == report.fix;
    assert(listing(after)[i] == listed(report.fix));
}

/// The whole service held in memory: the shared secret and the table of
/// fixes, with the three data endpoints as methods.
pub struct Tracker {
    gate: Gate,
    store: FixStore,
}

impl Tracker {
    pub closed spec fn secret(&self) -> Seq<char> {
        self.gate.secret()
    }

    pub closed spec fn rows(&self) -> Seq<FixView> {
        self.store@
    }

    pub open spec fn wf(&self) -> bool {
        ascending(self.rows())
    }

    /// An empty service guarded by `token`.
    pub fn new(token: String) -> (r: Tracker)
        ensures
            r.secret() == token@,
            r.rows() == Seq::<FixView>::empty(),
            r.wf(),
    {
        Tracker { gate: Gate::new(token), store: FixStore::new() }
    }

    /// The ingestion endpoint.
    pub fn log(&mut self, report: &Location) -> (r: Reply)
        requires
            old(self).wf(),
        ensures
            final(self).wf(),
            final(self).secret() == old(self).secret(),
            (r, final(self).rows()) == log_effect(old(self).secret(), report@, old(self).rows()),
    {
        match log_request(&self.gate, report) {
            LogStep::Respond(reply) => reply,
            LogStep::Insert(fix) => {
                let outcome = match self.store.insert(fix) {
                    Ok(()) => Ok(()),
                    Err(_) => Err(StoreFailure::Failed),
                };
                log_reply(outcome)
            },
        }
    }

    /// The history endpoint: every stored fix in ascending timestamp order,
    /// each with a blank token.
    pub fn locations(&self) -> (r: Vec<Location>)
        ensures
            location_views(r@) == listing(self.rows()),
    {
        listing_of(&self.store.list_all())
    }

    /// The reset endpoint.
    pub fn reset(&mut self, token: &Token) -> (r: Reply)
        requires
            old(self).wf(),
        ensures
            final(self).wf(),
            final(self).secret() == old(self).secret(),
            (r, final(self).rows()) == reset_effect(old(self).secret(), token.token@, old(self).rows()),
    {
        match reset_request(&self.gate, token) {
            ResetStep::Respond(reply) => reply,
            ResetStep::Clear => {
                self.store.clear();
                reset_reply(Ok(()))
            },
        }
    }
}

} // verus!
