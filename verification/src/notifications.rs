//! What becomes of the events that other relays send.
use crate::text;
use vstd::prelude::*;

verus! {

/// Whether an error on saving an event is worth a report: an event that is there already is
/// no error.
pub fn reports_save_error(message: &str) -> (reports: bool)
    ensures
        reports == !text::occurs(message@, "duplicate"@),
        reports <==> forall|front: Seq<char>, back: Seq<char>| #[trigger]
            (front + "duplicate"@ + back) != message@,
{
    proof {
        text::a_part_stands_between_the_rest(message@, "duplicate"@);
    }
    !text::contains(message, "duplicate")
}

} // verus!
