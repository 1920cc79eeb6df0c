//! Laws of the members of a JSON document.

use crate::json::Json;
use vstd::prelude::*;

verus! {

/// A member of an object is read as what stands under its key, unchanged, and only where
/// it is of the kind that is asked for.
pub proof fn law_members_are_read_as_they_stand(m: Map<Seq<char>, Json>, key: Seq<char>)
    requires
        m.contains_key(key),
    ensures
        Json::Object(m).member(key) == Some(m[key]),
        Json::Object(m).text_at(key) == (match m[key] {
            Json::Text(t) => Some(t),
            _ => None,
        }),
        Json::Object(m).int64_at(key) == (match m[key] {
            Json::Int(n) => if -0x8000_0000_0000_0000 <= n < 0x8000_0000_0000_0000 {
                Some(n as i64)
            } else {
                None
            },
            _ => None,
        }),
        Json::Object(m).truth_at(key) == (match m[key] {
            Json::Bool(b) => Some(b),
            _ => None,
        }),
        Json::Object(m).items_at(key) == (match m[key] {
            Json::List(l) => Some(l),
            _ => None,
        }),
{
}

/// Where there is no such member, or no object at all, nothing is read.
pub proof fn law_absent_members_are_not_read(v: Json, key: Seq<char>)
    requires
        v matches Json::Object(m) ==> !m.contains_key(key),
    ensures
        v.member(key) is None,
        v.text_at(key) is None,
        v.int64_at(key) is None,
        v.truth_at(key) is None,
        v.items_at(key) is None,
{
}

} // verus!
