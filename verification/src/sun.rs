//! Turning the sun with the keyboard.
use vstd::prelude::*;

verus! {

/// How fast the sun turns, in tenths of half a turn per second.
#[derive(Clone, Copy, Debug, PartialEq, Eq, Structural)]
pub struct SunRotation {
    /// Around the x axis.
    pub vertical: i32,
    /// Around the y axis.
    pub horizontal: i32,
}

/// 1 if the key is pressed, else 0.
pub open spec fn pressed(key: bool) -> int {
    if key {
        1
    } else {
        0
    }
}

/// How fast the sun turns while the keys are pressed: J turns it around the x axis and H the other
/// way, L around the y axis, twice as fast, and K the other way.
pub open spec fn spec_rotate_sun(h: bool, j: bool, k: bool, l: bool) -> (int, int) {
    (pressed(j) - pressed(h), 2 * (pressed(l) - pressed(k)))
}

/// How fast the sun turns while the keys H, J, K and L are pressed or not.
pub fn rotate_sun(h: bool, j: bool, k: bool, l: bool) -> (rotation: SunRotation)
    ensures
        (rotation.vertical as int, rotation.horizontal as int) == spec_rotate_sun(h, j, k, l),
{
    let mut rotation = SunRotation { vertical: 0, horizontal: 0 };
    if h {
        rotation.vertical = rotation.vertical - 1;
    }
    if j {
        rotation.vertical = rotation.vertical + 1;
    }
    if k {
        rotation.horizontal = rotation.horizontal - 2;
    }
    if l {
        rotation.horizontal = rotation.horizontal + 2;
    }
    rotation
}

/// Each key turns the sun in its own way, whatever the others do: H by one unit around the x axis, J by
/// as much the other way, K by two around the y axis and L by as much the other way. With no key
/// pressed the sun stands still.
pub proof fn law_keys_turn_independently(
    h: bool,
    j: bool,
    k: bool,
    l: bool,
    with: SunRotation,
    without: SunRotation,
    still: SunRotation,
)
    requires
        call_ensures(rotate_sun, (false, false, false, false), still),
    ensures
        still.vertical == 0 && still.horizontal == 0,
        call_ensures(rotate_sun, (true, j, k, l), with) && call_ensures(
            rotate_sun,
            (false, j, k, l),
            without,
        ) ==> with.vertical == without.vertical - 1 && with.horizontal == without.horizontal,
        call_ensures(rotate_sun, (h, true, k, l), with) && call_ensures(
            rotate_sun,
            (h, false, k, l),
            without,
        ) ==> with.vertical == without.vertical + 1 && with.horizontal == without.horizontal,
        call_ensures(rotate_sun, (h, j, true, l), with) && call_ensures(
            rotate_sun,
            (h, j, false, l),
            without,
        ) ==> with.vertical == without.vertical && with.horizontal == without.horizontal - 2,
        call_ensures(rotate_sun, (h, j, k, true), with) && call_ensures(
            rotate_sun,
            (h, j, k, false),
            without,
        ) ==> with.vertical == without.vertical && with.horizontal == without.horizontal + 2,
{
}

/// Keys for opposite directions cancel each other, and to exchange them turns the sun the other way.
pub proof fn law_opposite_keys(h: bool, j: bool, k: bool, l: bool)
    ensures
        h == j ==> spec_rotate_sun(h, j, k, l).0 == 0,
        k == l ==> spec_rotate_sun(h, j, k, l).1 == 0,
        spec_rotate_sun(j, h, l, k).0 == -spec_rotate_sun(h, j, k, l).0,
        spec_rotate_sun(j, h, l, k).1 == -spec_rotate_sun(h, j, k, l).1,
{
}

} // verus!
