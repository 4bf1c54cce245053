//! What a command line asks the tool to do.
use vstd::prelude::*;

verus! {

/// The subcommand of a command line.
#[derive(PartialEq, Eq, Structural, Clone, Copy, Debug)]
pub enum Mode {
    /// Run a command as the login user.
    Run,
    /// Run a command as root.
    Exec,
    /// Show server details.
    Show,
}

/// One thing the tool does for a command line.
#[derive(PartialEq, Eq, Structural, Clone, Copy, Debug)]
pub enum Step {
    /// Run the command on the servers with the target as name.
    RunOnName,
    /// Run the command, in parallel, on the servers with the target as label.
    RunOnLabel,
    /// Run the command as root on the servers with the target as name.
    ExecOnName,
    /// Run the command as root, in parallel, on the servers with the target as
    /// label.
    ExecOnLabel,
    /// Show the details of the servers that the target names.
    ShowDetails,
}

/// A step and the name or label it is for.
pub struct Action {
    pub step: Step,
    pub target: String,
}

/// The step that a server name leads to in `mode`.
pub open spec fn name_step(mode: Mode) -> Step {
    match mode {
        Mode::Run => Step::RunOnName,
        Mode::Exec => Step::ExecOnName,
        Mode::Show => Step::ShowDetails,
    }
}

/// The step that a label leads to in `mode`.
pub open spec fn label_step(mode: Mode) -> Step {
    match mode {
        Mode::Run => Step::RunOnLabel,
        Mode::Exec => Step::ExecOnLabel,
        Mode::Show => Step::ShowDetails,
    }
}

/// Whether an optional argument was given with a non-empty value.
pub open spec fn given(arg: Option<String>) -> bool {
    arg matches Some(s) && s@.len() > 0
}

/// The steps for `mode` with the optional `name` and `label`, in order: one
/// for the name when it is given and not empty, then one for the label when it
/// is given and not empty.
pub open spec fn planned(mode: Mode, name: Option<String>, label: Option<String>) -> Seq<
    (Step, Seq<char>),
> {
    let for_name = if given(name) {
        seq![(name_step(mode), name.unwrap()@)]
    } else {
        Seq::empty()
    };
    let for_label = if given(label) {
        seq![(label_step(mode), label.unwrap()@)]
    } else {
        Seq::empty()
    };
    for_name + for_label
}

/// The plan has one step per given non-empty argument, in every mode: first
/// one for the name, which runs on servers by name (or shows them), then one
/// for the label, which runs on servers by label (or shows them); each step is
/// for its argument's text.
pub proof fn lemma_plan_follows_arguments(mode: Mode, name: Option<String>, label: Option<String>)
    ensures
        planned(mode, name, label).len() == (if name.is_some() && name.unwrap()@.len() > 0 {
            1int
        } else {
            0int
        }) + (if label.is_some() && label.unwrap()@.len() > 0 {
            1int
        } else {
            0int
        }),
        name.is_some() && name.unwrap()@.len() > 0 ==> {
            &&& planned(mode, name, label)[0].1 == name.unwrap()@
            &&& planned(mode, name, label)[0].0 == match mode {
                Mode::Run => Step::RunOnName,
                Mode::Exec => Step::ExecOnName,
                Mode::Show => Step::ShowDetails,
            }
        },
        label.is_some() && label.unwrap()@.len() > 0 ==> {
            &&& planned(mode, name, label).last().1 == label.unwrap()@
            &&& planned(mode, name, label).last().0 == match mode {
                Mode::Run => Step::RunOnLabel,
                Mode::Exec => Step::ExecOnLabel,
                Mode::Show => Step::ShowDetails,
            }
        },
{
}

/// The step for `target` when it is given and not empty.
fn step_for(step: Step, target: &Option<String>, actions: &mut Vec<Action>)
    ensures
        given(*target) ==> {
            &&& final(actions)@.len() == old(actions)@.len() + 1
            &&& final(actions)@.last().step == step
            &&& final(actions)@.last().target@ == target.unwrap()@
        },
        !given(*target) ==> final(actions)@.len() == old(actions)@.len(),
        forall|i: int| 0 <= i < old(actions)@.len() ==> final(actions)@[i] == old(actions)@[i],
{
    match target {
        Some(t) => {
            if t.as_str().unicode_len() > 0 {
                actions.push(Action { step, target: t.clone() });
            }
        },
        None => {},
    }
}

/// What the command line with subcommand `mode` and the optional `name` and
/// `label` asks for, in the order the tool does it.
pub fn plan(mode: Mode, name: &Option<String>, label: &Option<String>) -> (actions: Vec<Action>)
    ensures
        actions@.len() == planned(mode, *name, *label).len(),
        forall|i: int|
            0 <= i < actions@.len() ==> actions@[i].step == planned(mode, *name, *label)[i].0
                && actions@[i].target@ == planned(mode, *name, *label)[i].1,
        actions@.len() == (if name.is_some() && name.unwrap()@.len() > 0 {
            1int
        } else {
            0int
        }) + (if label.is_some() && label.unwrap()@.len() > 0 {
            1int
        } else {
            0int
        }),
        name.is_some() && name.unwrap()@.len() > 0 ==> {
            &&& actions@[0].target@ == name.unwrap()@
            &&& actions@[0].step == match mode {
                Mode::Run => Step::RunOnName,
                Mode::Exec => Step::ExecOnName,
                Mode::Show => Step::ShowDetails,
            }
        },
        label.is_some() && label.unwrap()@.len() > 0 ==> {
            &&& actions@.last().target@ == label.unwrap()@
            &&& actions@.last().step == match mode {
                Mode::Run => Step::RunOnLabel,
                Mode::Exec => Step::ExecOnLabel,
                Mode::Show => Step::ShowDetails,
            }
        },
{
    proof {
        lemma_plan_follows_arguments(mode, *name, *label);
    }
    let mut actions: Vec<Action> = Vec::new();
    let (for_name, for_label) = match mode {
        Mode::Run => (Step::RunOnName, Step::RunOnLabel),
        Mode::Exec => (Step::ExecOnName, Step::ExecOnLabel),
        Mode::Show => (Step::ShowDetails, Step::ShowDetails),
    };
    step_for(for_name, name, &mut actions);
    step_for(for_label, label, &mut actions);
    actions
}

} // verus!
