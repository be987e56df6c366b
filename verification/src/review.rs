//! The review of queued atoms: which actions may be taken on an atom, the
//! status each decision gives an atom, the page of the queue a listing
//! shows, and what a review is answered.
use vstd::prelude::*;
use crate::error::{MoteError, validation_error_with};
use crate::json::{JsonValue, str_is};
use crate::hub_client::{member, text};
use crate::text::{str_eq, to_owned_string};

verus! {

/// The review status a decision gives an atom: `approve`, `reject` and
/// `auto_approve` are known; any other decision is invalid.
pub open spec fn status_after(decision: Seq<char>) -> Option<Seq<char>> {
    if decision == "approve"@ {
        Some("approved"@)
    } else if decision == "reject"@ {
        Some("rejected"@)
    } else if decision == "auto_approve"@ {
        Some("auto_approved"@)
    } else {
        None
    }
}

/// The review status a recorded decision gives the atom; an unknown
/// decision is a validation error.
pub fn review_status_after(decision: &str) -> (r: Result<&'static str, MoteError>)
    ensures
        match status_after(decision@) {
            Some(s) => r matches Ok(t) && t@ == s,
            None => r is Err && validation_error_with(r->Err_0, "Invalid decision"@),
        },
{
    if str_eq(decision, "approve") {
        Ok("approved")
    } else if str_eq(decision, "reject") {
        Ok("rejected")
    } else if str_eq(decision, "auto_approve") {
        Ok("auto_approved")
    } else {
        Err(MoteError::Validation(to_owned_string("Invalid decision")))
    }
}

/// The check of a review request: its action must be `approve` or
/// `reject` (else `400`), and the atom must exist (else `404`).
pub fn check_review_request(action: &str, atom_exists: bool) -> (r: Result<(), (u16, String)>)
    ensures
        !(action@ == "approve"@ || action@ == "reject"@) ==> (r matches Err((c, m)) && c == 400
            && m@ == "Invalid action. Must be 'approve' or 'reject'"@),
        (action@ == "approve"@ || action@ == "reject"@) && !atom_exists ==> (r matches Err((c, m))
            && c == 404 && m@ == "Atom not found"@),
        (action@ == "approve"@ || action@ == "reject"@) && atom_exists ==> r is Ok,
{
    if !(str_eq(action, "approve") || str_eq(action, "reject")) {
        return Err((400, to_owned_string("Invalid action. Must be 'approve' or 'reject'")));
    }
    if !atom_exists {
        return Err((404, to_owned_string("Atom not found")));
    }
    Ok(())
}

/// The page of the review queue a listing shows: 50 items from the first
/// unless the request says otherwise.
pub fn review_page(limit: Option<i64>, offset: Option<i64>) -> (r: (i64, i64))
    ensures
        r.0 == match limit { Some(l) => l, None => 50 },
        r.1 == match offset { Some(o) => o, None => 0 },
{
    let l = match limit { Some(l) => l, None => 50 };
    let o = match offset { Some(o) => o, None => 0 };
    (l, o)
}

/// The answer to a review: the action taken, the atom, the id of the
/// recorded review, and the reason given (`Reviewed by system` when none).
pub fn review_reply(action: &str, atom_id: &str, review_id: &str, reason: Option<String>) -> (r: JsonValue)
    ensures
        str_is(r.spec_get("status"@), action@),
        str_is(r.spec_get("atom_id"@), atom_id@),
        str_is(r.spec_get("review_id"@), review_id@),
        str_is(r.spec_get("reason"@), match reason { Some(t) => t@, None => "Reviewed by system"@ }),
{
    proof {
        reveal_strlit("atom_id");
        reveal_strlit("reason");
        reveal_strlit("review_id");
        reveal_strlit("status");
        reveal_with_fuel(crate::json::member_index, 5);
        assert("reason"@[2] != "review_id"@[2]);
        assert("status"@[0] != "reason"@[0]);
        assert("status"@[0] != "review_id"@[0]);
        assert("status"@[0] != "atom_id"@[0]);
        assert("reason"@[0] != "atom_id"@[0]);
        assert("review_id"@[0] != "atom_id"@[0]);
    }
    let why = match reason {
        Some(t) => JsonValue::Str(t),
        None => text("Reviewed by system"),
    };
    JsonValue::Object(vec![
        member("atom_id", text(atom_id)),
        member("reason", why),
        member("review_id", text(review_id)),
        member("status", text(action)),
    ])
}

} // verus!
