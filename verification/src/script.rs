//! The script that drives the game through a demo: the actions of a VDM file.

use vstd::prelude::*;

verus! {

/// A VDM file of the `vdm` crate: a name and a list of actions.
#[verifier::external_type_specification]
#[verifier::external_body]
pub struct ExVdm(vdm::VDM);

/// The kinds of action that a recording makes.
#[derive(Debug, Clone, Copy, PartialEq, Eq, Structural)]
pub enum ActionKind {
    /// Jumps to a later tick.
    SkipAhead,
    /// Executes console commands.
    PlayCommands,
}

/// An action of a script, as far as a recording sets it. The kind is `None` for the kinds that a
/// recording never makes.
pub struct ActionView {
    pub kind: Option<ActionKind>,
    pub name: Seq<char>,
    pub start_tick: Option<i64>,
    pub skip_to_tick: Option<i64>,
    pub commands: Seq<char>,
}

/// What a recording sets of an action.
#[derive(Debug)]
pub struct ActionProps {
    pub name: String,
    pub start_tick: Option<i64>,
    pub skip_to_tick: Option<i64>,
    pub commands: String,
}

impl ActionProps {
    /// An action of the kind `kind` with these properties.
    pub open spec fn of_kind(self, kind: ActionKind) -> ActionView {
        ActionView {
            kind: Some(kind),
            name: self.name@,
            start_tick: self.start_tick,
            skip_to_tick: self.skip_to_tick,
            commands: self.commands@,
        }
    }
}

/// The actions of a VDM file, in order.
pub uninterp spec fn actions(script: vdm::VDM) -> Seq<ActionView>;

/// The name of a VDM file.
pub uninterp spec fn script_name(script: vdm::VDM) -> Seq<char>;

/// `VDM::new`: a file without actions and without a name.
#[verifier::external_body]
pub(crate) fn new_script() -> (script: vdm::VDM)
    ensures
        actions(script) == Seq::<ActionView>::empty(),
        script_name(script) == Seq::<char>::empty(),
{
    vdm::VDM::new()
}

/// `VDM::len`: the number of actions.
#[verifier::external_body]
pub(crate) fn script_len(script: &vdm::VDM) -> (n: usize)
    ensures
        n == actions(*script).len(),
{
    script.len()
}

/// `VDM::last` and `Action::props`: the start tick of the last action. There is one.
#[verifier::external_body]
pub(crate) fn last_start_tick(script: &vdm::VDM) -> (tick: Option<i64>)
    requires
        actions(*script).len() > 0,
    ensures
        tick == actions(*script).last().start_tick,
{
    script.last().props().start_tick
}

/// `VDM::create_action` and `Action::props_mut`: a new action at the end, with the given
/// properties and every other one at its default; the name of the file stays.
#[verifier::external_body]
pub(crate) fn push_action(script: &mut vdm::VDM, kind: ActionKind, props: ActionProps)
    ensures
        actions(*final(script)) == actions(*old(script)).push(props.of_kind(kind)),
        script_name(*final(script)) == script_name(*old(script)),
{
    let factory = match kind {
        ActionKind::SkipAhead => vdm::action::ActionType::SkipAhead,
        ActionKind::PlayCommands => vdm::action::ActionType::PlayCommands,
    };
    let made = script.create_action(factory).props_mut();
    made.name = props.name;
    made.start_tick = props.start_tick;
    made.skip_to_tick = props.skip_to_tick;
    made.commands = props.commands;
}

/// The field `name` of `VDM`.
#[verifier::external_body]
pub(crate) fn name_of(script: &vdm::VDM) -> (name: String)
    ensures
        name@ == script_name(*script),
{
    script.name.clone()
}

/// Sets the field `name` of `VDM`, and nothing else.
#[verifier::external_body]
pub(crate) fn set_name(script: &mut vdm::VDM, name: String)
    ensures
        script_name(*final(script)) == name@,
        actions(*final(script)) == actions(*old(script)),
{
    script.name = name;
}

/// `VDM::clone`: a file with the same name and the same actions.
#[verifier::external_body]
pub(crate) fn copy_of(script: &vdm::VDM) -> (copy: vdm::VDM)
    ensures
        script_name(copy) == script_name(*script),
        actions(copy) == actions(*script),
{
    script.clone()
}

} // verus!
