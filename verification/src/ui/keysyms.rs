use vstd::prelude::*;

verus! {

/// Raw value of `xkeysym::Keysym::Escape`: the X11 keysym 0xff1b.
#[verifier::external_body]
pub(crate) fn escape() -> (r: u32)
    ensures
        r == 0xff1b,
{
    xkeysym::Keysym::Escape.raw()
}

/// Raw value of `xkeysym::Keysym::BackSpace`: the X11 keysym 0xff08.
#[verifier::external_body]
pub(crate) fn backspace() -> (r: u32)
    ensures
        r == 0xff08,
{
    xkeysym::Keysym::BackSpace.raw()
}

/// Raw value of `xkeysym::Keysym::a`: the X11 keysym 0x61.
#[verifier::external_body]
pub(crate) fn lower_a() -> (r: u32)
    ensures
        r == 0x61,
{
    xkeysym::Keysym::a.raw()
}

/// Raw value of `xkeysym::Keysym::z`: the X11 keysym 0x7a.
#[verifier::external_body]
pub(crate) fn lower_z() -> (r: u32)
    ensures
        r == 0x7a,
{
    xkeysym::Keysym::z.raw()
}

/// Raw value of `xkeysym::Keysym::A`: the X11 keysym 0x41.
#[verifier::external_body]
pub(crate) fn upper_a() -> (r: u32)
    ensures
        r == 0x41,
{
    xkeysym::Keysym::A.raw()
}

/// Raw value of `xkeysym::Keysym::Z`: the X11 keysym 0x5a.
#[verifier::external_body]
pub(crate) fn upper_z() -> (r: u32)
    ensures
        r == 0x5a,
{
    xkeysym::Keysym::Z.raw()
}

} // verus!
