//! Laws of ComfyUI's installation and of its server.
use crate::clone::{CloneEventView, ClonePhase, CloneView};
use crate::comfy::{
    clone_arguments, clone_step, like_comfy, stop_of, CloneStep, DepsEvent, DepsPhase, DepsView,
    ProcessView, StopPlan, CLONE_ATTEMPTS,
};
use crate::node_runtime::{NodeInstallView, NodePhase};
use crate::steps::StepEventView;
use crate::text::Text;
use vstd::prelude::*;

verus! {

/// A clone is tried at most so often; the first attempt asks for nothing special, the later ones
/// for HTTP/1.1.
pub proof fn clones_are_tried_so_often(url: Text, target: Text, attempt: u32)
    ensures
        clone_step(attempt, false) == CloneStep::CleanAndRetry <==> attempt + 1 < CLONE_ATTEMPTS,
        clone_step(attempt, true) == CloneStep::Publish,
        clone_arguments(url, target, 0).len() == 5,
        attempt > 0 ==> clone_arguments(url, target, attempt)[1] == "http.version=HTTP/1.1"@,
{
}

/// Only a complete clone is published, and from its temporary directory to its place.
pub proof fn only_complete_clones_are_published(run: CloneView, event: CloneEventView)
    ensures
        run.after(event).1.action matches crate::clone::CloneActionView::Rename { from, to } ==> {
            &&& run.phase == ClonePhase::Clone
            &&& event == CloneEventView::Done(true)
            &&& from == run.temporary
            &&& to == run.target
        },
{
}

/// Only a complete clone of a custom node is published, and from its temporary directory to its
/// place.
pub proof fn only_complete_nodes_are_published(run: NodeInstallView, event: StepEventView)
    ensures
        run.after(event).1.action matches crate::steps::StepActionView::Rename { from, to } ==> {
            &&& run.phase == NodePhase::Clone
            &&& event is Done
            &&& from == run.temporary
            &&& to == run.target
        },
{
}

/// What is in the place of a clone is left alone: nothing is cloned, and nothing follows.
pub proof fn what_is_there_is_left_alone(run: CloneView, event: CloneEventView)
    requires
        run.phase == ClonePhase::CheckTarget,
    ensures
        ({
            let (next, turn) = run.after(CloneEventView::Done(true));
            &&& next.phase == ClonePhase::Over
            &&& turn.action is Finish || turn.action is Fail
            &&& turn.remove is None
            &&& next.after(event).0.phase == ClonePhase::Over
            &&& next.after(event).1.action is Fail
            &&& next.after(event).1.remove is None
        }),
{
}

/// A failed attempt to clone is cleaned. The place of the clone, and where it is cloned to, stay
/// the same throughout.
pub proof fn failed_clones_are_cleaned(run: CloneView, event: CloneEventView)
    ensures
        run.phase == ClonePhase::Clone && event != CloneEventView::Done(true) ==> run.after(
            event,
        ).1.remove == Some(run.temporary),
        run.after(event).0.target == run.target,
        run.after(event).0.temporary == run.temporary,
        run.after(event).0.url == run.url,
{
}

/// Only a process that looks like the installation's server, and that has the recorded number, is
/// signalled.
pub proof fn strangers_are_not_signalled(
    windows: bool,
    pid: Option<u32>,
    process: Option<ProcessView>,
    root: Text,
    signalled: u32,
)
    requires
        stop_of(windows, pid, process, root) == Ok::<StopPlan, Text>(StopPlan::Signal(signalled)),
    ensures
        pid == Some(signalled),
        process matches Some(p) && like_comfy(windows, p, root),
{
}

/// The temporary wheels are removed whether the installation from them succeeds or fails.
pub proof fn downloaded_wheels_are_removed(run: DepsView, ok: bool)
    requires
        run.phase == DepsPhase::Install,
    ensures
        match run.after(DepsEvent::Done(ok)).1 {
            crate::comfy::DepsActionView::Finish { remove, .. } => remove == run.wheelhouse,
            crate::comfy::DepsActionView::Fail { remove, .. } => remove == Some(run.wheelhouse),
            _ => false,
        },
{
}

}
