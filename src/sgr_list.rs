use vstd::prelude::*;

verus! {

/// Most SGR attributes one sequence may carry.
pub const MAX_SGR: usize = 16;

/// The SGR attribute list of a control sequence: a fixed-capacity vector.
pub type SgrList = heapless::Vec<u8, 16>;

#[verifier::external_type_specification]
#[verifier::external_body]
#[verifier::reject_recursive_types(T)]
pub struct ExHeaplessVec<T, const N: usize>(heapless::Vec<T, N>);

/// The attributes an SGR list holds, in order.
pub uninterp spec fn sgr_items(v: heapless::Vec<u8, 16>) -> Seq<u8>;

/// Relies on `heapless::Vec::new`: an empty vector.
#[verifier::external_body]
pub(crate) fn sgr_new() -> (r: SgrList)
    ensures
        sgr_items(r) == Seq::<u8>::empty(),
{
    heapless::Vec::new()
}

/// Relies on `heapless::Vec::push`: the item is appended when the length is below the capacity
/// of 16, and the vector is left as it was otherwise.
#[verifier::external_body]
pub(crate) fn sgr_push(v: &mut SgrList, x: u8) -> (r: bool)
    ensures
        sgr_items(*old(v)).len() < MAX_SGR ==> r && sgr_items(*final(v)) == sgr_items(*old(v)).push(x),
        sgr_items(*old(v)).len() >= MAX_SGR ==> !r && sgr_items(*final(v)) == sgr_items(*old(v)),
{
    v.push(x).is_ok()
}

/// Relies on `heapless::Vec::as_slice`: the items, in order.
#[verifier::external_body]
pub(crate) fn sgr_slice(v: &SgrList) -> (r: &[u8])
    ensures
        r@ == sgr_items(*v),
{
    v.as_slice()
}

} // verus!
