use vstd::prelude::*;

verus! {

/// A character of the lower-case Base36 alphabet that SCRU128 text uses.
pub open spec fn is_base36_digit(c: char) -> bool {
    ('0' <= c && c <= '9') || ('a' <= c && c <= 'z')
}

/// The shape of the canonical text of a SCRU128 identifier: 25 lower-case
/// Base36 digits.
pub open spec fn is_room_id(id: Seq<char>) -> bool {
    &&& id.len() == 25
    &&& forall|i: int| 0 <= i < id.len() ==> is_base36_digit(#[trigger] id[i])
}

/// Calls `scru128::new_string`, which draws a fresh identifier from the
/// process-wide generator (clock and random numbers) and returns its
/// canonical text. The contract claims only the shape of that text, as the
/// crate's `Id::encode` writes it: 25 digits taken from
/// `0123456789abcdefghijklmnopqrstuvwxyz`. Which identifier comes back, and
/// that it differs from earlier ones, is left unsaid.
#[verifier::external_body]
pub(crate) fn new_room_id() -> (id: String)
    ensures
        is_room_id(id@),
{
    scru128::new_string()
}

/// A room identifier is 25 characters, each a digit or a lower-case letter
/// from `a` to `z`.
pub proof fn lemma_room_id_shape(id: Seq<char>)
    ensures
        is_room_id(id) <==> {
            &&& id.len() == 25
            &&& forall|i: int|
                0 <= i < id.len() ==> ('0' <= #[trigger] id[i] && id[i] <= '9') || ('a' <= id[i]
                    && id[i] <= 'z')
        },
{
}

} // verus!
