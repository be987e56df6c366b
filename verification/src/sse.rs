//! Subscriptions to the hub's event stream: which event types a
//! subscriber asked for, which events it is sent, and whether it asked for
//! a spatial filter.
use vstd::prelude::*;
use crate::text::{split_trimmed, trimmed_pieces, str_eq, to_owned_string};
use crate::json::{JsonValue, str_is};
use crate::hub_client::{member, text};

verus! {

/// The event types a subscription names: absent means every type; a list
/// is split at its commas and each piece trimmed.
pub open spec fn requested_types(types: Option<Seq<char>>) -> Option<Seq<Seq<char>>> {
    match types {
        Some(t) => Some(trimmed_pieces(t, ',')),
        None => None,
    }
}

/// The event types a subscription's `types` parameter names.
pub fn requested_event_types(types: Option<&str>) -> (r: Option<Vec<String>>)
    ensures
        match r {
            Some(v) => requested_types(match types { Some(t) => Some(t@), None => None })
                == Some(v@.map_values(|s: String| s@)),
            None => types is None,
        },
{
    match types {
        Some(t) => Some(split_trimmed(t, ',')),
        None => None,
    }
}

fn contains_text(v: &Vec<String>, t: &str) -> (r: bool)
    ensures
        r == v@.map_values(|s: String| s@).contains(t@),
{
    let ghost names = v@.map_values(|s: String| s@);
    let mut i: usize = 0;
    while i < v.len()
        invariant
            i <= v@.len(),
            names == v@.map_values(|s: String| s@),
            forall|k: int| 0 <= k < i ==> names[k] != t@,
        decreases v@.len() - i,
    {
        if str_eq(v[i].as_str(), t) {
            assert(names[i as int] == t@);
            return true;
        }
        i = i + 1;
    }
    false
}

/// Whether a subscriber is sent an event of type `event_type`: always when
/// it named no types, otherwise when the type is among those it named.
pub fn event_type_wanted(requested: &Option<Vec<String>>, event_type: &str) -> (r: bool)
    ensures
        r == match requested {
            None => true,
            Some(v) => v@.map_values(|s: String| s@).contains(event_type@),
        },
{
    match requested {
        None => true,
        Some(v) => contains_text(v, event_type),
    }
}

/// Whether a subscription asked for a spatial filter: `region` and
/// `radius` must come together (then it did) or not at all (then it did
/// not); one without the other is refused with this message.
pub fn spatial_filter_requested(has_region: bool, has_radius: bool) -> (r: Result<bool, String>)
    ensures
        has_region == has_radius ==> r == Ok::<bool, String>(has_region),
        has_region != has_radius ==> (r matches Err(m) && m@ == "Provide both region and radius, or neither"@),
{
    if has_region && has_radius {
        Ok(true)
    } else if !has_region && !has_radius {
        Ok(false)
    } else {
        Err(to_owned_string("Provide both region and radius, or neither"))
    }
}

/// The data of the event that announces a published atom.
pub fn atom_published_event(atom_id: &str, domain: &str, atom_type: &str) -> (r: JsonValue)
    ensures
        str_is(r.spec_get("type"@), "atom_published"@),
        str_is(r.spec_get("atom_id"@), atom_id@),
        str_is(r.spec_get("domain"@), domain@),
        str_is(r.spec_get("atom_type"@), atom_type@),
{
    proof {
        reveal_strlit("type");
        reveal_strlit("atom_id");
        reveal_strlit("domain");
        reveal_strlit("atom_type");
        reveal_with_fuel(crate::json::member_index, 5);
        assert("atom_type"@[5] != "atom_id"@[5]);
        assert("domain"@[0] != "atom_id"@[0]);
        assert("domain"@[0] != "atom_type"@[0]);
        assert("type"@[0] != "atom_id"@[0]);
        assert("type"@[0] != "atom_type"@[0]);
        assert("type"@[0] != "domain"@[0]);
    }
    JsonValue::Object(vec![
        member("atom_id", text(atom_id)),
        member("atom_type", text(atom_type)),
        member("domain", text(domain)),
        member("type", text("atom_published")),
    ])
}

/// The data of the event that announces a contradiction between a new
/// atom and an existing one.
pub fn contradiction_event(atom_id: &str, contradicting_atom_id: &str, domain: &str) -> (r: JsonValue)
    ensures
        str_is(r.spec_get("type"@), "contradiction_detected"@),
        str_is(r.spec_get("atom_id"@), atom_id@),
        str_is(r.spec_get("contradicting_atom_id"@), contradicting_atom_id@),
        str_is(r.spec_get("domain"@), domain@),
{
    proof {
        reveal_strlit("type");
        reveal_strlit("atom_id");
        reveal_strlit("domain");
        reveal_strlit("contradicting_atom_id");
        reveal_with_fuel(crate::json::member_index, 5);
        assert("contradicting_atom_id"@[0] != "atom_id"@[0]);
        assert("domain"@[0] != "atom_id"@[0]);
        assert("domain"@[0] != "contradicting_atom_id"@[0]);
        assert("type"@[0] != "atom_id"@[0]);
        assert("type"@[0] != "contradicting_atom_id"@[0]);
        assert("type"@[0] != "domain"@[0]);
    }
    JsonValue::Object(vec![
        member("atom_id", text(atom_id)),
        member("contradicting_atom_id", text(contradicting_atom_id)),
        member("domain", text(domain)),
        member("type", text("contradiction_detected")),
    ])
}

} // verus!
