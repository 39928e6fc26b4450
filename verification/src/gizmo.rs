//! Transform gizmo modes, handles and handle colours.
use vstd::prelude::*;

use crate::grab_pose::Rgba;

verus! {

#[derive(Clone, Copy, PartialEq, Eq, Debug, Structural)]
pub enum GizmoMode {
    Translate,
    Rotate,
    Scale,
}

/// A gizmo handle: one axis, one plane, or all three axes.
#[derive(Clone, Copy, PartialEq, Eq, Debug, Structural)]
pub enum Axis {
    X,
    Y,
    Z,
    XY,
    XZ,
    YZ,
    XYZ,
}

/// How a handle is drawn.
#[derive(Clone, Copy, PartialEq, Eq, Debug, Structural)]
pub enum ColorState {
    Normal,
    Hover,
    Selected,
}

/// The handles a mode offers: translation has the three axes, the three
/// planes and a free handle; rotation and scale the three axes and a
/// uniform handle.
pub open spec fn axes_of(mode: GizmoMode) -> Seq<Axis> {
    match mode {
        GizmoMode::Translate => seq![Axis::X, Axis::Y, Axis::Z, Axis::XY, Axis::XZ, Axis::YZ, Axis::XYZ],
        GizmoMode::Rotate => seq![Axis::X, Axis::Y, Axis::Z, Axis::XYZ],
        GizmoMode::Scale => seq![Axis::X, Axis::Y, Axis::Z, Axis::XYZ],
    }
}

pub fn all_axes_for(mode: GizmoMode) -> (axes: Vec<Axis>)
    ensures
        axes@ == axes_of(mode),
{
    let mut v: Vec<Axis> = Vec::new();
    v.push(Axis::X);
    v.push(Axis::Y);
    v.push(Axis::Z);
    match mode {
        GizmoMode::Translate => {
            v.push(Axis::XY);
            v.push(Axis::XZ);
            v.push(Axis::YZ);
        },
        _ => {},
    }
    v.push(Axis::XYZ);
    assert(v@ =~= axes_of(mode));
    v
}

/// Resting colour of a handle: red, green, blue for X, Y, Z; planes take the
/// colour of their normal axis, translucent; the uniform handle is white.
pub open spec fn base_rgba(axis: Axis) -> Rgba {
    match axis {
        Axis::X => Rgba(225, 40, 40, 255),
        Axis::Y => Rgba(80, 220, 60, 255),
        Axis::Z => Rgba(50, 120, 230, 255),
        Axis::XY => Rgba(50, 120, 230, 160),
        Axis::XZ => Rgba(80, 220, 60, 160),
        Axis::YZ => Rgba(225, 40, 40, 160),
        Axis::XYZ => Rgba(245, 245, 245, 235),
    }
}

pub fn axis_base_color(axis: Axis) -> (c: Rgba)
    ensures
        c == base_rgba(axis),
{
    match axis {
        Axis::X => Rgba(225, 40, 40, 255),
        Axis::Y => Rgba(80, 220, 60, 255),
        Axis::Z => Rgba(50, 120, 230, 255),
        Axis::XY => Rgba(50, 120, 230, 160),
        Axis::XZ => Rgba(80, 220, 60, 160),
        Axis::YZ => Rgba(225, 40, 40, 160),
        Axis::XYZ => Rgba(245, 245, 245, 235),
    }
}

/// Hovered and selected handles are highlighted yellow.
pub fn color_for(axis: Axis, state: ColorState) -> (c: Rgba)
    ensures
        c == match state {
            ColorState::Hover | ColorState::Selected => Rgba(255, 220, 40, 255),
            ColorState::Normal => base_rgba(axis),
        },
{
    match state {
        ColorState::Hover | ColorState::Selected => Rgba(255, 220, 40, 255),
        ColorState::Normal => axis_base_color(axis),
    }
}

/// Law: the axis handles are opaque red, green and blue; each plane handle
/// has the colour of the axis normal to it, translucent; the free handle is
/// near white. Every mode offers the three axes and the free/uniform
/// handle, and only translation offers the planes.
pub proof fn lemma_handle_colours_and_sets(mode: GizmoMode)
    ensures
        base_rgba(Axis::X).0 > base_rgba(Axis::X).1 && base_rgba(Axis::X).0 > base_rgba(Axis::X).2,
        base_rgba(Axis::Y).1 > base_rgba(Axis::Y).0 && base_rgba(Axis::Y).1 > base_rgba(Axis::Y).2,
        base_rgba(Axis::Z).2 > base_rgba(Axis::Z).0 && base_rgba(Axis::Z).2 > base_rgba(Axis::Z).1,
        base_rgba(Axis::X).3 == 255 && base_rgba(Axis::Y).3 == 255 && base_rgba(Axis::Z).3 == 255,
        base_rgba(Axis::XY).0 == base_rgba(Axis::Z).0 && base_rgba(Axis::XY).1 == base_rgba(
            Axis::Z,
        ).1 && base_rgba(Axis::XY).2 == base_rgba(Axis::Z).2,
        base_rgba(Axis::XZ).0 == base_rgba(Axis::Y).0 && base_rgba(Axis::XZ).1 == base_rgba(
            Axis::Y,
        ).1 && base_rgba(Axis::XZ).2 == base_rgba(Axis::Y).2,
        base_rgba(Axis::YZ).0 == base_rgba(Axis::X).0 && base_rgba(Axis::YZ).1 == base_rgba(
            Axis::X,
        ).1 && base_rgba(Axis::YZ).2 == base_rgba(Axis::X).2,
        base_rgba(Axis::XY).3 < 255 && base_rgba(Axis::XZ).3 < 255 && base_rgba(Axis::YZ).3 < 255,
        axes_of(mode).contains(Axis::X) && axes_of(mode).contains(Axis::Y) && axes_of(
            mode,
        ).contains(Axis::Z) && axes_of(mode).contains(Axis::XYZ),
        axes_of(mode).contains(Axis::XY) <==> mode == GizmoMode::Translate,
        axes_of(mode).contains(Axis::XZ) <==> mode == GizmoMode::Translate,
        axes_of(mode).contains(Axis::YZ) <==> mode == GizmoMode::Translate,
        axes_of(mode).no_duplicates(),
{
    let a = axes_of(mode);
    assert(a[0] == Axis::X && a[1] == Axis::Y && a[2] == Axis::Z);
    assert(a[a.len() - 1] == Axis::XYZ);
    if mode == GizmoMode::Translate {
        assert(a[3] == Axis::XY && a[4] == Axis::XZ && a[5] == Axis::YZ);
    }
}

} // verus!
