//! Fresh names for daemon instances, generations and restarts.
use vstd::prelude::*;

verus! {

/// A digit of base sixteen, in lower case.
pub open spec fn is_hex_digit(c: char) -> bool {
    ('0' <= c && c <= '9') || ('a' <= c && c <= 'f')
}

/// A place of the hyphenated form that holds a hyphen.
pub open spec fn is_hyphen_place(i: int) -> bool {
    i == 8 || i == 13 || i == 18 || i == 23
}

/// The hyphenated form of a random UUID, in lower case: five groups of digits, of which one tells
/// the version and one the variant.
pub open spec fn is_random_uuid(id: Seq<char>) -> bool {
    &&& id.len() == 36
    &&& forall|i: int|
        0 <= i < 36 ==> if is_hyphen_place(i) {
            #[trigger] id[i] == '-'
        } else {
            is_hex_digit(id[i])
        }
    &&& id[14] == '4'
    &&& id[19] == '8' || id[19] == '9' || id[19] == 'a' || id[19] == 'b'
}

/// A fresh random name.
///
/// Calls `uuid::Uuid::new_v4`, which sets the version and the variant, and writes the result in the
/// hyphenated form, in lower case. The name is random: two calls give unrelated names, and nothing
/// else is stated of them.
#[verifier::external_body]
pub(crate) fn fresh_id() -> (id: String)
    ensures
        is_random_uuid(id@),
{
    uuid::Uuid::new_v4().to_string()
}

/// Picks the name of this daemon instance.
pub fn new_instance_id() -> (id: String)
    ensures
        is_random_uuid(id@),
{
    fresh_id()
}

/// Picks the generation of this daemon: the one that a restart asked for, or a fresh one.
pub fn daemon_generation(target_generation: Option<&String>) -> (generation: String)
    ensures
        match target_generation {
            Some(target) => generation@ == target@,
            None => is_random_uuid(generation@),
        },
{
    match target_generation {
        Some(target) => target.clone(),
        None => fresh_id(),
    }
}

/// A daemon takes exactly the generation that a restart asked for.
pub proof fn asked_generation_is_taken(target: &String, generation: String)
    requires
        call_ensures(daemon_generation, (Some(target),), generation),
    ensures
        generation@ == target@,
{
}

} // verus!
