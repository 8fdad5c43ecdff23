use vstd::prelude::*;

verus! {

/// Code of the first pointer button, `BTN_0`.
pub const BTN_0: u16 = 0x100;

/// Code of the last pointer button, `BTN_THUMBR`.
pub const BTN_THUMBR: u16 = 0x13e;

/// Code of the first relative axis, `REL_X`.
pub const REL_FIRST: u16 = 0x00;

/// Code of the last relative axis that pointers use, `REL_HWHEEL_HI_RES`.
pub const REL_LAST: u16 = 0x0c;

/// The codes `first..=last`, in increasing order.
pub open spec fn code_range(first: u16, last: u16) -> Seq<u16> {
    Seq::new((last - first + 1) as nat, |k: int| (first + k) as u16)
}

fn codes_between(first: u16, last: u16) -> (r: Vec<u16>)
    requires
        first <= last,
    ensures
        r@ == code_range(first, last),
{
    let mut v: Vec<u16> = Vec::new();
    let mut c: u32 = first as u32;
    while c <= last as u32
        invariant
            first <= c <= last + 1,
            v@.len() == c - first,
            forall|k: int| 0 <= k < v@.len() ==> #[trigger] v@[k] == first + k,
        decreases last + 1 - c,
    {
        v.push(c as u16);
        c = c + 1;
    }
    assert(v@ =~= code_range(first, last));
    v
}

/// The key codes the sink device enables: every pointer button, `BTN_0` through
/// `BTN_THUMBR`. Keyboard keys stay off, or the sink would not be taken for a mouse.
pub fn sink_key_codes() -> (r: Vec<u16>)
    ensures
        r@ == code_range(BTN_0, BTN_THUMBR),
{
    codes_between(BTN_0, BTN_THUMBR)
}

/// The relative axes the sink device enables: `REL_X` through `REL_HWHEEL_HI_RES`.
pub fn sink_relative_axes() -> (r: Vec<u16>)
    ensures
        r@ == code_range(REL_FIRST, REL_LAST),
{
    codes_between(REL_FIRST, REL_LAST)
}

} // verus!
