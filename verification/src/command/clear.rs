//! Clear colors.

use vstd::prelude::*;
use vstd::std_specs::convert::FromSpecImpl;

verus! {

/// A universal clear color supporting integer formats
/// as well as the standard floating-point.
///
/// The floating-point variant holds each component as its IEEE-754
/// single-precision bit pattern (what `f32::to_bits` gives); the bit
/// pattern `0` is the value `0.0`.
#[derive(Clone, Copy, Debug, PartialEq, Eq)]
pub enum ClearColor {
    /// Standard floating-point vec4 color.
    Float([u32; 4]),
    /// Integer vector to clear ivec4 targets.
    Int([i32; 4]),
    /// Unsigned int vector to clear uvec4 targets.
    Uint([u32; 4]),
}

impl From<[i32; 4]> for ClearColor {
    fn from(v: [i32; 4]) -> (c: ClearColor)
        ensures
            c is Int,
            c->Int_0[0] == v[0],
            c->Int_0[1] == v[1],
            c->Int_0[2] == v[2],
            c->Int_0[3] == v[3],
    {
        ClearColor::Int([v[0], v[1], v[2], v[3]])
    }
}

impl FromSpecImpl<[i32; 4]> for ClearColor {
    open spec fn obeys_from_spec() -> bool {
        true
    }

    open spec fn from_spec(v: [i32; 4]) -> ClearColor {
        ClearColor::Int([v[0], v[1], v[2], v[3]])
    }
}

impl From<[i32; 3]> for ClearColor {
    fn from(v: [i32; 3]) -> (c: ClearColor)
        ensures
            c is Int,
            c->Int_0[0] == v[0],
            c->Int_0[1] == v[1],
            c->Int_0[2] == v[2],
            c->Int_0[3] == v[0],
    {
        ClearColor::Int([v[0], v[1], v[2], v[0]])
    }
}

impl FromSpecImpl<[i32; 3]> for ClearColor {
    open spec fn obeys_from_spec() -> bool {
        true
    }

    open spec fn from_spec(v: [i32; 3]) -> ClearColor {
        ClearColor::Int([v[0], v[1], v[2], v[0]])
    }
}

impl From<[i32; 2]> for ClearColor {
    fn from(v: [i32; 2]) -> (c: ClearColor)
        ensures
            c is Int,
            c->Int_0[0] == v[0],
            c->Int_0[1] == v[1],
            c->Int_0[2] == v[0],
            c->Int_0[3] == v[0],
    {
        ClearColor::Int([v[0], v[1], v[0], v[0]])
    }
}

impl FromSpecImpl<[i32; 2]> for ClearColor {
    open spec fn obeys_from_spec() -> bool {
        true
    }

    open spec fn from_spec(v: [i32; 2]) -> ClearColor {
        ClearColor::Int([v[0], v[1], v[0], v[0]])
    }
}

impl From<i32> for ClearColor {
    fn from(v: i32) -> (c: ClearColor)
        ensures
            c is Int,
            c->Int_0[0] == v,
            c->Int_0[1] == 0,
            c->Int_0[2] == 0,
            c->Int_0[3] == 0,
    {
        ClearColor::Int([v, 0i32, 0i32, 0i32])
    }
}

impl FromSpecImpl<i32> for ClearColor {
    open spec fn obeys_from_spec() -> bool {
        true
    }

    open spec fn from_spec(v: i32) -> ClearColor {
        ClearColor::Int([v, 0i32, 0i32, 0i32])
    }
}

impl From<[u32; 4]> for ClearColor {
    fn from(v: [u32; 4]) -> (c: ClearColor)
        ensures
            c is Uint,
            c->Uint_0[0] == v[0],
            c->Uint_0[1] == v[1],
            c->Uint_0[2] == v[2],
            c->Uint_0[3] == v[3],
    {
        ClearColor::Uint([v[0], v[1], v[2], v[3]])
    }
}

impl FromSpecImpl<[u32; 4]> for ClearColor {
    open spec fn obeys_from_spec() -> bool {
        true
    }

    open spec fn from_spec(v: [u32; 4]) -> ClearColor {
        ClearColor::Uint([v[0], v[1], v[2], v[3]])
    }
}

impl From<[u32; 3]> for ClearColor {
    fn from(v: [u32; 3]) -> (c: ClearColor)
        ensures
            c is Uint,
            c->Uint_0[0] == v[0],
            c->Uint_0[1] == v[1],
            c->Uint_0[2] == v[2],
            c->Uint_0[3] == v[0],
    {
        ClearColor::Uint([v[0], v[1], v[2], v[0]])
    }
}

impl FromSpecImpl<[u32; 3]> for ClearColor {
    open spec fn obeys_from_spec() -> bool {
        true
    }

    open spec fn from_spec(v: [u32; 3]) -> ClearColor {
        ClearColor::Uint([v[0], v[1], v[2], v[0]])
    }
}

impl From<[u32; 2]> for ClearColor {
    fn from(v: [u32; 2]) -> (c: ClearColor)
        ensures
            c is Uint,
            c->Uint_0[0] == v[0],
            c->Uint_0[1] == v[1],
            c->Uint_0[2] == v[0],
            c->Uint_0[3] == v[0],
    {
        ClearColor::Uint([v[0], v[1], v[0], v[0]])
    }
}

impl FromSpecImpl<[u32; 2]> for ClearColor {
    open spec fn obeys_from_spec() -> bool {
        true
    }

    open spec fn from_spec(v: [u32; 2]) -> ClearColor {
        ClearColor::Uint([v[0], v[1], v[0], v[0]])
    }
}

impl From<u32> for ClearColor {
    fn from(v: u32) -> (c: ClearColor)
        ensures
            c is Uint,
            c->Uint_0[0] == v,
            c->Uint_0[1] == 0,
            c->Uint_0[2] == 0,
            c->Uint_0[3] == 0,
    {
        ClearColor::Uint([v, 0u32, 0u32, 0u32])
    }
}

impl FromSpecImpl<u32> for ClearColor {
    open spec fn obeys_from_spec() -> bool {
        true
    }

    open spec fn from_spec(v: u32) -> ClearColor {
        ClearColor::Uint([v, 0u32, 0u32, 0u32])
    }
}

impl ClearColor {
    /// The floating-point color of four components, from the components' bit patterns.
    pub fn from_f32_bits4(v: [u32; 4]) -> (c: ClearColor)
        ensures
            c == ClearColor::Float([v[0], v[1], v[2], v[3]]),
    {
        ClearColor::Float([v[0], v[1], v[2], v[3]])
    }

    /// The floating-point color of three components, with the first
    /// repeated as the fourth, from the components' bit patterns.
    pub fn from_f32_bits3(v: [u32; 3]) -> (c: ClearColor)
        ensures
            c == ClearColor::Float([v[0], v[1], v[2], v[0]]),
    {
        ClearColor::Float([v[0], v[1], v[2], v[0]])
    }

    /// The floating-point color of two components, with the first
    /// repeated as the third and fourth, from the components' bit patterns.
    pub fn from_f32_bits2(v: [u32; 2]) -> (c: ClearColor)
        ensures
            c == ClearColor::Float([v[0], v[1], v[0], v[0]]),
    {
        ClearColor::Float([v[0], v[1], v[0], v[0]])
    }

    /// The floating-point color of one component, with the others zero,
    /// from the component's bit pattern.
    pub fn from_f32_bits(v: u32) -> (c: ClearColor)
        ensures
            c == ClearColor::Float([v, 0u32, 0u32, 0u32]),
    {
        ClearColor::Float([v, 0u32, 0u32, 0u32])
    }
}

} // verus!

verus! {

/// A four-component conversion keeps the components as they are, in order.
pub proof fn lemma_four_components_kept(v: [i32; 4], u: [u32; 4])
    ensures
        <ClearColor as vstd::std_specs::convert::FromSpec<[i32; 4]>>::from_spec(v) is Int,
        <ClearColor as vstd::std_specs::convert::FromSpec<[i32; 4]>>::from_spec(v)->Int_0@ == v@,
        <ClearColor as vstd::std_specs::convert::FromSpec<[u32; 4]>>::from_spec(u) is Uint,
        <ClearColor as vstd::std_specs::convert::FromSpec<[u32; 4]>>::from_spec(u)->Uint_0@ == u@,
{
    assert(<ClearColor as vstd::std_specs::convert::FromSpec<[i32; 4]>>::from_spec(v)->Int_0@
        =~= v@);
    assert(<ClearColor as vstd::std_specs::convert::FromSpec<[u32; 4]>>::from_spec(u)->Uint_0@
        =~= u@);
}

/// A color of fewer components is the color of four whose missing
/// components repeat the first: of three components `[x, y, z]` it is the
/// color of `[x, y, z, x]`, of two components `[x, y]` the color of
/// `[x, y, x, x]`. A single value `x` gives the color of `[x, 0, 0, 0]`.
pub proof fn lemma_short_colors_repeat_the_first(x: i32, y: i32, z: i32, p: u32, q: u32, r: u32)
    ensures
        <ClearColor as vstd::std_specs::convert::FromSpec<[i32; 3]>>::from_spec([x, y, z])
            == <ClearColor as vstd::std_specs::convert::FromSpec<[i32; 4]>>::from_spec([x, y, z, x]),
        <ClearColor as vstd::std_specs::convert::FromSpec<[i32; 2]>>::from_spec([x, y])
            == <ClearColor as vstd::std_specs::convert::FromSpec<[i32; 4]>>::from_spec([x, y, x, x]),
        <ClearColor as vstd::std_specs::convert::FromSpec<i32>>::from_spec(x)
            == <ClearColor as vstd::std_specs::convert::FromSpec<[i32; 4]>>::from_spec([x, 0, 0, 0]),
        <ClearColor as vstd::std_specs::convert::FromSpec<[u32; 3]>>::from_spec([p, q, r])
            == <ClearColor as vstd::std_specs::convert::FromSpec<[u32; 4]>>::from_spec([p, q, r, p]),
        <ClearColor as vstd::std_specs::convert::FromSpec<[u32; 2]>>::from_spec([p, q])
            == <ClearColor as vstd::std_specs::convert::FromSpec<[u32; 4]>>::from_spec([p, q, p, p]),
        <ClearColor as vstd::std_specs::convert::FromSpec<u32>>::from_spec(p)
            == <ClearColor as vstd::std_specs::convert::FromSpec<[u32; 4]>>::from_spec([p, 0, 0, 0]),
{
}

} // verus!
