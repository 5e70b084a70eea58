//! The default macros of ARIB STD-B24: canned statement
//! bodies that designate a whole set of graphic sets in one character.
use vstd::prelude::*;

verus! {

/// The body of default macro `0x60 + i`.
pub open spec fn spec_default_macro(i: int) -> Seq<u8> {
    if i == 0 {
        seq![0x1bu8, 0x24u8, 0x39u8, 0x1bu8, 0x29u8, 0x4au8, 0x1bu8, 0x2au8, 0x30u8, 0x1bu8, 0x2bu8, 0x20u8, 0x70u8, 0x0fu8, 0x1bu8, 0x7du8]
    } else if i == 1 {
        seq![0x1bu8, 0x24u8, 0x39u8, 0x1bu8, 0x29u8, 0x31u8, 0x1bu8, 0x2au8, 0x30u8, 0x1bu8, 0x2bu8, 0x20u8, 0x70u8, 0x0fu8, 0x1bu8, 0x7du8]
    } else if i == 2 {
        seq![0x1bu8, 0x24u8, 0x39u8, 0x1bu8, 0x29u8, 0x20u8, 0x41u8, 0x1bu8, 0x2au8, 0x30u8, 0x1bu8, 0x2bu8, 0x20u8, 0x70u8, 0x0fu8, 0x1bu8, 0x7du8]
    } else if i == 3 {
        seq![0x1bu8, 0x28u8, 0x32u8, 0x1bu8, 0x29u8, 0x34u8, 0x1bu8, 0x2au8, 0x35u8, 0x1bu8, 0x2bu8, 0x20u8, 0x70u8, 0x0fu8, 0x1bu8, 0x7du8]
    } else if i == 4 {
        seq![0x1bu8, 0x28u8, 0x32u8, 0x1bu8, 0x29u8, 0x33u8, 0x1bu8, 0x2au8, 0x35u8, 0x1bu8, 0x2bu8, 0x20u8, 0x70u8, 0x0fu8, 0x1bu8, 0x7du8]
    } else if i == 5 {
        seq![0x1bu8, 0x28u8, 0x32u8, 0x1bu8, 0x29u8, 0x20u8, 0x41u8, 0x1bu8, 0x2au8, 0x35u8, 0x1bu8, 0x2bu8, 0x20u8, 0x70u8, 0x0fu8, 0x1bu8, 0x7du8]
    } else if i == 6 {
        seq![0x1bu8, 0x28u8, 0x20u8, 0x41u8, 0x1bu8, 0x29u8, 0x20u8, 0x42u8, 0x1bu8, 0x2au8, 0x20u8, 0x43u8, 0x1bu8, 0x2bu8, 0x20u8, 0x70u8, 0x0fu8, 0x1bu8, 0x7du8]
    } else if i == 7 {
        seq![0x1bu8, 0x28u8, 0x20u8, 0x44u8, 0x1bu8, 0x29u8, 0x20u8, 0x45u8, 0x1bu8, 0x2au8, 0x20u8, 0x46u8, 0x1bu8, 0x2bu8, 0x20u8, 0x70u8, 0x0fu8, 0x1bu8, 0x7du8]
    } else if i == 8 {
        seq![0x1bu8, 0x28u8, 0x20u8, 0x47u8, 0x1bu8, 0x29u8, 0x20u8, 0x48u8, 0x1bu8, 0x2au8, 0x20u8, 0x49u8, 0x1bu8, 0x2bu8, 0x20u8, 0x70u8, 0x0fu8, 0x1bu8, 0x7du8]
    } else if i == 9 {
        seq![0x1bu8, 0x28u8, 0x20u8, 0x4au8, 0x1bu8, 0x29u8, 0x20u8, 0x4bu8, 0x1bu8, 0x2au8, 0x20u8, 0x4cu8, 0x1bu8, 0x2bu8, 0x20u8, 0x70u8, 0x0fu8, 0x1bu8, 0x7du8]
    } else if i == 10 {
        seq![0x1bu8, 0x28u8, 0x20u8, 0x4du8, 0x1bu8, 0x29u8, 0x20u8, 0x4eu8, 0x1bu8, 0x2au8, 0x20u8, 0x4fu8, 0x1bu8, 0x2bu8, 0x20u8, 0x70u8, 0x0fu8, 0x1bu8, 0x7du8]
    } else if i == 11 {
        seq![0x1bu8, 0x24u8, 0x39u8, 0x1bu8, 0x29u8, 0x20u8, 0x42u8, 0x1bu8, 0x2au8, 0x30u8, 0x1bu8, 0x2bu8, 0x20u8, 0x70u8, 0x0fu8, 0x1bu8, 0x7du8]
    } else if i == 12 {
        seq![0x1bu8, 0x24u8, 0x39u8, 0x1bu8, 0x29u8, 0x20u8, 0x43u8, 0x1bu8, 0x2au8, 0x30u8, 0x1bu8, 0x2bu8, 0x20u8, 0x70u8, 0x0fu8, 0x1bu8, 0x7du8]
    } else if i == 13 {
        seq![0x1bu8, 0x24u8, 0x39u8, 0x1bu8, 0x29u8, 0x20u8, 0x44u8, 0x1bu8, 0x2au8, 0x30u8, 0x1bu8, 0x2bu8, 0x20u8, 0x70u8, 0x0fu8, 0x1bu8, 0x7du8]
    } else if i == 14 {
        seq![0x1bu8, 0x28u8, 0x31u8, 0x1bu8, 0x29u8, 0x30u8, 0x1bu8, 0x2au8, 0x4au8, 0x1bu8, 0x2bu8, 0x20u8, 0x70u8, 0x0fu8, 0x1bu8, 0x7du8]
    } else {
        seq![0x1bu8, 0x24u8, 0x39u8, 0x1bu8, 0x29u8, 0x4au8, 0x1bu8, 0x2au8, 0x42u8, 0x1bu8, 0x2bu8, 0x20u8, 0x70u8, 0x0fu8, 0x1bu8, 0x7du8]
    }
}

/// The body of default macro `0x60 + i`, for `i` below 16.
pub fn default_macro(i: u8) -> (body: &'static [u8])
    requires
        i < 16,
    ensures
        body@ == spec_default_macro(i as int),
{
    if i == 0 {
        let b: &'static [u8] = &[0x1b, 0x24, 0x39, 0x1b, 0x29, 0x4a, 0x1b, 0x2a, 0x30, 0x1b, 0x2b, 0x20, 0x70, 0x0f, 0x1b, 0x7d];
        assert(b@ == spec_default_macro(0));
        b
    } else if i == 1 {
        let b: &'static [u8] = &[0x1b, 0x24, 0x39, 0x1b, 0x29, 0x31, 0x1b, 0x2a, 0x30, 0x1b, 0x2b, 0x20, 0x70, 0x0f, 0x1b, 0x7d];
        assert(b@ == spec_default_macro(1));
        b
    } else if i == 2 {
        let b: &'static [u8] = &[0x1b, 0x24, 0x39, 0x1b, 0x29, 0x20, 0x41, 0x1b, 0x2a, 0x30, 0x1b, 0x2b, 0x20, 0x70, 0x0f, 0x1b, 0x7d];
        assert(b@ == spec_default_macro(2));
        b
    } else if i == 3 {
        let b: &'static [u8] = &[0x1b, 0x28, 0x32, 0x1b, 0x29, 0x34, 0x1b, 0x2a, 0x35, 0x1b, 0x2b, 0x20, 0x70, 0x0f, 0x1b, 0x7d];
        assert(b@ == spec_default_macro(3));
        b
    } else if i == 4 {
        let b: &'static [u8] = &[0x1b, 0x28, 0x32, 0x1b, 0x29, 0x33, 0x1b, 0x2a, 0x35, 0x1b, 0x2b, 0x20, 0x70, 0x0f, 0x1b, 0x7d];
        assert(b@ == spec_default_macro(4));
        b
    } else if i == 5 {
        let b: &'static [u8] = &[0x1b, 0x28, 0x32, 0x1b, 0x29, 0x20, 0x41, 0x1b, 0x2a, 0x35, 0x1b, 0x2b, 0x20, 0x70, 0x0f, 0x1b, 0x7d];
        assert(b@ == spec_default_macro(5));
        b
    } else if i == 6 {
        let b: &'static [u8] = &[0x1b, 0x28, 0x20, 0x41, 0x1b, 0x29, 0x20, 0x42, 0x1b, 0x2a, 0x20, 0x43, 0x1b, 0x2b, 0x20, 0x70, 0x0f, 0x1b, 0x7d];
        assert(b@ == spec_default_macro(6));
        b
    } else if i == 7 {
        let b: &'static [u8] = &[0x1b, 0x28, 0x20, 0x44, 0x1b, 0x29, 0x20, 0x45, 0x1b, 0x2a, 0x20, 0x46, 0x1b, 0x2b, 0x20, 0x70, 0x0f, 0x1b, 0x7d];
        assert(b@ == spec_default_macro(7));
        b
    } else if i == 8 {
        let b: &'static [u8] = &[0x1b, 0x28, 0x20, 0x47, 0x1b, 0x29, 0x20, 0x48, 0x1b, 0x2a, 0x20, 0x49, 0x1b, 0x2b, 0x20, 0x70, 0x0f, 0x1b, 0x7d];
        assert(b@ == spec_default_macro(8));
        b
    } else if i == 9 {
        let b: &'static [u8] = &[0x1b, 0x28, 0x20, 0x4a, 0x1b, 0x29, 0x20, 0x4b, 0x1b, 0x2a, 0x20, 0x4c, 0x1b, 0x2b, 0x20, 0x70, 0x0f, 0x1b, 0x7d];
        assert(b@ == spec_default_macro(9));
        b
    } else if i == 10 {
        let b: &'static [u8] = &[0x1b, 0x28, 0x20, 0x4d, 0x1b, 0x29, 0x20, 0x4e, 0x1b, 0x2a, 0x20, 0x4f, 0x1b, 0x2b, 0x20, 0x70, 0x0f, 0x1b, 0x7d];
        assert(b@ == spec_default_macro(10));
        b
    } else if i == 11 {
        let b: &'static [u8] = &[0x1b, 0x24, 0x39, 0x1b, 0x29, 0x20, 0x42, 0x1b, 0x2a, 0x30, 0x1b, 0x2b, 0x20, 0x70, 0x0f, 0x1b, 0x7d];
        assert(b@ == spec_default_macro(11));
        b
    } else if i == 12 {
        let b: &'static [u8] = &[0x1b, 0x24, 0x39, 0x1b, 0x29, 0x20, 0x43, 0x1b, 0x2a, 0x30, 0x1b, 0x2b, 0x20, 0x70, 0x0f, 0x1b, 0x7d];
        assert(b@ == spec_default_macro(12));
        b
    } else if i == 13 {
        let b: &'static [u8] = &[0x1b, 0x24, 0x39, 0x1b, 0x29, 0x20, 0x44, 0x1b, 0x2a, 0x30, 0x1b, 0x2b, 0x20, 0x70, 0x0f, 0x1b, 0x7d];
        assert(b@ == spec_default_macro(13));
        b
    } else if i == 14 {
        let b: &'static [u8] = &[0x1b, 0x28, 0x31, 0x1b, 0x29, 0x30, 0x1b, 0x2a, 0x4a, 0x1b, 0x2b, 0x20, 0x70, 0x0f, 0x1b, 0x7d];
        assert(b@ == spec_default_macro(14));
        b
    } else {
        let b: &'static [u8] = &[0x1b, 0x24, 0x39, 0x1b, 0x29, 0x4a, 0x1b, 0x2a, 0x42, 0x1b, 0x2b, 0x20, 0x70, 0x0f, 0x1b, 0x7d];
        assert(b@ == spec_default_macro(15));
        b
    }
}

} // verus!
