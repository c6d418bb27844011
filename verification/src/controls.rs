//! Camera controls: what a frame of input asks of the camera.
//!
//! The camera's vectors are kept by the caller. This module decides, from the
//! controls that are held, which steps the position takes and which turns the
//! look direction makes. The caller carries the steps out in the order given,
//! each with the frame's distance `translation_speed * delta_time`, and then
//! the turns, each with the frame's angle `rotation_speed * delta_time` for
//! every unit that the pointer has moved.

use vstd::prelude::*;

verus! {

/// One of the six directional controls.
#[derive(Clone, Copy, Debug, PartialEq, Eq, Structural)]
pub enum Control {
    Forward,
    Backward,
    StrafeLeft,
    StrafeRight,
    Ascend,
    Descend,
}

/// One of the camera's three vectors of motion.
#[derive(Clone, Copy, Debug, PartialEq, Eq, Structural)]
pub enum Axis {
    /// The look direction.
    Direction,
    /// The normalized cross product of the look direction and the up vector.
    Right,
    /// The up vector.
    Up,
}

/// Whether a step adds its vector to the position or takes it away.
#[derive(Clone, Copy, Debug, PartialEq, Eq, Structural)]
pub enum Sense {
    Along,
    Against,
}

/// One change of the position: the frame's distance along or against an axis.
#[derive(Clone, Copy, Debug, PartialEq, Eq, Structural)]
pub struct Step {
    pub axis: Axis,
    pub sense: Sense,
}

/// One of the two components of the pointer's displacement since the last frame.
#[derive(Clone, Copy, Debug, PartialEq, Eq, Structural)]
pub enum PointerAxis {
    Horizontal,
    Vertical,
}

/// One turn of the look direction: a rotation about an axis, by the frame's
/// angle times a component of the pointer's displacement, or, with the sense
/// `Against`, times its negative.
#[derive(Clone, Copy, Debug, PartialEq, Eq, Structural)]
pub struct Turn {
    pub about: Axis,
    pub pointer: PointerAxis,
    pub sense: Sense,
}

/// The controls that are held during a frame.
#[derive(Clone, Copy, Debug, PartialEq, Eq, Structural)]
pub struct HeldControls {
    pub forward: bool,
    pub backward: bool,
    pub strafe_left: bool,
    pub strafe_right: bool,
    pub ascend: bool,
    pub descend: bool,
    /// The control that lets the pointer turn the look direction.
    pub look: bool,
}

/// What one frame asks of the camera.
#[derive(Debug)]
pub struct FramePlan {
    /// The steps of the position, in the order in which they are taken.
    pub steps: Vec<Step>,
    /// The turns of the look direction. Their rotations are added up to one,
    /// which is applied after the steps.
    pub turns: Vec<Turn>,
}

/// The key that a control is bound to, as a keyboard scancode.
pub open spec fn bound_scancode(control: Control) -> u32 {
    match control {
        Control::Forward => 17,
        Control::Backward => 31,
        Control::StrafeLeft => 30,
        Control::StrafeRight => 32,
        Control::Ascend => 57,
        Control::Descend => 29,
    }
}

/// The step that a control asks for.
pub open spec fn step_of(control: Control) -> Step {
    match control {
        Control::Forward => Step { axis: Axis::Direction, sense: Sense::Along },
        Control::Backward => Step { axis: Axis::Direction, sense: Sense::Against },
        Control::StrafeLeft => Step { axis: Axis::Right, sense: Sense::Against },
        Control::StrafeRight => Step { axis: Axis::Right, sense: Sense::Along },
        Control::Ascend => Step { axis: Axis::Up, sense: Sense::Along },
        Control::Descend => Step { axis: Axis::Up, sense: Sense::Against },
    }
}

/// The step of `control` where it is held, and nothing where it is not.
pub open spec fn step_when(held: HeldControls, control: Control) -> Seq<Step> {
    if held.holds(control) {
        seq![step_of(control)]
    } else {
        Seq::empty()
    }
}

/// The steps of a frame: one for each directional control that is held,
/// forward and backward first, then left and right, then up and down.
pub open spec fn planned_steps(held: HeldControls) -> Seq<Step> {
    step_when(held, Control::Forward) + step_when(held, Control::Backward) + step_when(
        held,
        Control::StrafeLeft,
    ) + step_when(held, Control::StrafeRight) + step_when(held, Control::Ascend) + step_when(
        held,
        Control::Descend,
    )
}

/// The turn up and down: about the right vector, against the pointer's
/// vertical displacement.
pub open spec fn pitch() -> Turn {
    Turn { about: Axis::Right, pointer: PointerAxis::Vertical, sense: Sense::Against }
}

/// The turn left and right: about the up vector, against the pointer's
/// horizontal displacement.
pub open spec fn yaw() -> Turn {
    Turn { about: Axis::Up, pointer: PointerAxis::Horizontal, sense: Sense::Against }
}

/// The turns of a frame: pitch and yaw while the look control is held, and
/// none while it is released.
pub open spec fn planned_turns(held: HeldControls) -> Seq<Turn> {
    if held.look {
        seq![pitch(), yaw()]
    } else {
        Seq::empty()
    }
}

/// The sum of a sequence of steps along one axis, in frame distances: each
/// step along the axis counts one, each step against it minus one.
pub open spec fn net_steps(steps: Seq<Step>, axis: Axis) -> int
    decreases steps.len(),
{
    if steps.len() == 0 {
        0
    } else {
        let ahead = steps.last();
        let counted: int = if ahead.axis != axis {
            0
        } else if ahead.sense == Sense::Along {
            1
        } else {
            -1
        };
        net_steps(steps.drop_last(), axis) + counted
    }
}

/// One where the control is held, zero where it is not.
pub open spec fn pressed(held: HeldControls, control: Control) -> int {
    if held.holds(control) {
        1
    } else {
        0
    }
}

impl Control {
    /// The key that the control is bound to, as a keyboard scancode.
    pub fn scancode(self) -> (code: u32)
        ensures
            code == bound_scancode(self),
    {
        match self {
            Control::Forward => 17,
            Control::Backward => 31,
            Control::StrafeLeft => 30,
            Control::StrafeRight => 32,
            Control::Ascend => 57,
            Control::Descend => 29,
        }
    }

    /// The step that the control asks for.
    pub fn step(self) -> (step: Step)
        ensures
            step == step_of(self),
    {
        match self {
            Control::Forward => Step { axis: Axis::Direction, sense: Sense::Along },
            Control::Backward => Step { axis: Axis::Direction, sense: Sense::Against },
            Control::StrafeLeft => Step { axis: Axis::Right, sense: Sense::Against },
            Control::StrafeRight => Step { axis: Axis::Right, sense: Sense::Along },
            Control::Ascend => Step { axis: Axis::Up, sense: Sense::Along },
            Control::Descend => Step { axis: Axis::Up, sense: Sense::Against },
        }
    }
}

impl HeldControls {
    /// Whether a directional control is held.
    pub open spec fn holds(self, control: Control) -> bool {
        match control {
            Control::Forward => self.forward,
            Control::Backward => self.backward,
            Control::StrafeLeft => self.strafe_left,
            Control::StrafeRight => self.strafe_right,
            Control::Ascend => self.ascend,
            Control::Descend => self.descend,
        }
    }

    /// No directional control is held. The look control is not asked about.
    pub open spec fn at_rest(self) -> bool {
        forall|control: Control| !self.holds(control)
    }

    /// The frame in which nothing is held.
    pub fn idle() -> (held: HeldControls)
        ensures
            held.at_rest(),
            !held.look,
    {
        HeldControls {
            forward: false,
            backward: false,
            strafe_left: false,
            strafe_right: false,
            ascend: false,
            descend: false,
            look: false,
        }
    }
}

/// Decides what a frame of input does to the camera.
///
/// Each directional control that is held gives one step, in the order forward,
/// backward, strafe left, strafe right, ascend, descend; controls held
/// together are all carried out, opposite ones too. The look direction turns
/// only while the look control is held, whatever the pointer does.
pub fn plan_frame(held: &HeldControls) -> (plan: FramePlan)
    ensures
        plan.steps@ == planned_steps(*held),
        plan.turns@ == planned_turns(*held),
{
    let mut steps: Vec<Step> = Vec::new();
    if held.forward {
        steps.push(Control::Forward.step());
    }
    if held.backward {
        steps.push(Control::Backward.step());
    }
    if held.strafe_left {
        steps.push(Control::StrafeLeft.step());
    }
    if held.strafe_right {
        steps.push(Control::StrafeRight.step());
    }
    if held.ascend {
        steps.push(Control::Ascend.step());
    }
    if held.descend {
        steps.push(Control::Descend.step());
    }
    assert(steps@ =~= planned_steps(*held));
    let mut turns: Vec<Turn> = Vec::new();
    if held.look {
        turns.push(
            Turn { about: Axis::Right, pointer: PointerAxis::Vertical, sense: Sense::Against },
        );
        turns.push(
            Turn { about: Axis::Up, pointer: PointerAxis::Horizontal, sense: Sense::Against },
        );
    }
    assert(turns@ =~= planned_turns(*held));
    FramePlan { steps, turns }
}

/// A frame turns the look direction exactly while the look control is held:
/// with the control released it plans no turn, whichever other controls are held.
pub proof fn lemma_turns_only_while_looking(held: HeldControls)
    ensures
        held.look <==> planned_turns(held).len() > 0,
        !held.look ==> planned_turns(held) == Seq::<Turn>::empty(),
{
}

/// A frame in which nothing is held plans nothing: no step and no turn.
pub proof fn lemma_idle_frame_plans_nothing(held: HeldControls)
    requires
        held.at_rest(),
        !held.look,
    ensures
        planned_steps(held) == Seq::<Step>::empty(),
        planned_turns(held) == Seq::<Turn>::empty(),
{
    lemma_no_step_at_rest(held);
    assert(planned_steps(held) =~= Seq::<Step>::empty());
}

/// No two controls are bound to the same key.
pub proof fn lemma_bindings_are_distinct(first: Control, second: Control)
    ensures
        bound_scancode(first) == bound_scancode(second) <==> first == second,
{
}

/// A frame in which no directional control is held takes no step, and one
/// that takes no step holds none.
pub proof fn lemma_no_step_at_rest(held: HeldControls)
    ensures
        held.at_rest() <==> planned_steps(held).len() == 0,
{
    if held.at_rest() {
        assert(!held.holds(Control::Forward));
        assert(!held.holds(Control::Backward));
        assert(!held.holds(Control::StrafeLeft));
        assert(!held.holds(Control::StrafeRight));
        assert(!held.holds(Control::Ascend));
        assert(!held.holds(Control::Descend));
    }
}

/// A frame in which one directional control is held, and no other, takes
/// that control's step and nothing else.
pub proof fn lemma_single_control_single_step(held: HeldControls, control: Control)
    requires
        forall|other: Control| held.holds(other) <==> other == control,
    ensures
        planned_steps(held) == seq![step_of(control)],
{
    assert(held.holds(Control::Forward) <==> Control::Forward == control);
    assert(held.holds(Control::Backward) <==> Control::Backward == control);
    assert(held.holds(Control::StrafeLeft) <==> Control::StrafeLeft == control);
    assert(held.holds(Control::StrafeRight) <==> Control::StrafeRight == control);
    assert(held.holds(Control::Ascend) <==> Control::Ascend == control);
    assert(held.holds(Control::Descend) <==> Control::Descend == control);
    assert(planned_steps(held) =~= seq![step_of(control)]);
}

/// Appending a step changes the sum along its own axis by one, and no other sum.
pub proof fn lemma_net_steps_push(steps: Seq<Step>, step: Step, axis: Axis)
    ensures
        net_steps(steps.push(step), axis) == net_steps(steps, axis) + if step.axis != axis {
            0int
        } else if step.sense == Sense::Along {
            1int
        } else {
            -1int
        },
{
    assert(steps.push(step).drop_last() =~= steps);
}

/// The steps of a frame add up, along each axis, to the control that asks for
/// motion along it less the control that asks for motion against it: controls
/// held together add up, and opposite controls cancel.
pub proof fn lemma_planned_steps_add_up(held: HeldControls)
    ensures
        net_steps(planned_steps(held), Axis::Direction) == pressed(held, Control::Forward)
            - pressed(held, Control::Backward),
        net_steps(planned_steps(held), Axis::Right) == pressed(held, Control::StrafeRight)
            - pressed(held, Control::StrafeLeft),
        net_steps(planned_steps(held), Axis::Up) == pressed(held, Control::Ascend) - pressed(
            held,
            Control::Descend,
        ),
{
    lemma_net_steps_of_plan(held, Axis::Direction);
    lemma_net_steps_of_plan(held, Axis::Right);
    lemma_net_steps_of_plan(held, Axis::Up);
}

/// What a control adds to the sum along an axis where it is held.
pub open spec fn weight(control: Control, axis: Axis) -> int {
    if step_of(control).axis != axis {
        0
    } else if step_of(control).sense == Sense::Along {
        1
    } else {
        -1
    }
}

/// The sum of a frame's steps along an axis is the sum, over the controls
/// that are held, of what each adds along it.
pub proof fn lemma_net_steps_of_plan(held: HeldControls, axis: Axis)
    ensures
        net_steps(planned_steps(held), axis) == pressed(held, Control::Forward) * weight(
            Control::Forward,
            axis,
        ) + pressed(held, Control::Backward) * weight(Control::Backward, axis) + pressed(
            held,
            Control::StrafeLeft,
        ) * weight(Control::StrafeLeft, axis) + pressed(held, Control::StrafeRight) * weight(
            Control::StrafeRight,
            axis,
        ) + pressed(held, Control::Ascend) * weight(Control::Ascend, axis) + pressed(
            held,
            Control::Descend,
        ) * weight(Control::Descend, axis),
{
    let s0 = Seq::<Step>::empty();
    let s1 = s0 + step_when(held, Control::Forward);
    let s2 = s1 + step_when(held, Control::Backward);
    let s3 = s2 + step_when(held, Control::StrafeLeft);
    let s4 = s3 + step_when(held, Control::StrafeRight);
    let s5 = s4 + step_when(held, Control::Ascend);
    let s6 = s5 + step_when(held, Control::Descend);
    lemma_net_steps_append(s0, held, Control::Forward, axis);
    lemma_net_steps_append(s1, held, Control::Backward, axis);
    lemma_net_steps_append(s2, held, Control::StrafeLeft, axis);
    lemma_net_steps_append(s3, held, Control::StrafeRight, axis);
    lemma_net_steps_append(s4, held, Control::Ascend, axis);
    lemma_net_steps_append(s5, held, Control::Descend, axis);
    assert(s6 =~= planned_steps(held));
}

/// Appending the step of a control, where it is held, adds the control's
/// weight to the sum along an axis.
proof fn lemma_net_steps_append(steps: Seq<Step>, held: HeldControls, control: Control, axis: Axis)
    ensures
        net_steps(steps + step_when(held, control), axis) == net_steps(steps, axis) + pressed(
            held,
            control,
        ) * weight(control, axis),
{
    if held.holds(control) {
        assert(steps + step_when(held, control) =~= steps.push(step_of(control)));
        lemma_net_steps_push(steps, step_of(control), axis);
    } else {
        assert(steps + step_when(held, control) =~= steps);
    }
}

} // verus!
