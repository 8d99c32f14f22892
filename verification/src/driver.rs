//! The scene-switch state machine: the contract between an application
//! scene's `on_enter` / `on_frame` / `on_exit` hooks and the external driver
//! loop.
//!
//! Exactly one scene is active at a time.  Each loop iteration the driver
//! calls `on_frame` on the active scene; when that call returns a
//! replacement, the driver must call `on_exit` on the outgoing scene, then
//! `on_enter` on the replacement, and only then the next `on_frame`.  The
//! decision of which hook calls follow one `on_frame` is made here; the loop
//! that performs them is the external driver.

use vstd::prelude::*;

verus! {

/// One hook call of the driver loop, in the order the trace records them.
#[derive(Clone, Copy, Debug, PartialEq, Eq, Structural)]
pub enum DriverCall {
    /// `on_frame` on the active scene.
    Frame,
    /// `on_exit` on the scene being replaced.
    ExitOld,
    /// `on_enter` on the replacement scene.
    EnterNew,
}

/// The hook calls of one driver iteration: `on_frame` always, followed by
/// the exit of the old scene and the entry of the new one exactly when
/// `on_frame` returned a replacement.
pub open spec fn spec_cycle_calls(replaced: bool) -> Seq<DriverCall> {
    if replaced {
        seq![DriverCall::Frame, DriverCall::ExitOld, DriverCall::EnterNew]
    } else {
        seq![DriverCall::Frame]
    }
}

/// The full hook trace of a driver run, given whether each frame requested a
/// replacement.
pub open spec fn spec_driver_trace(replacements: Seq<bool>) -> Seq<DriverCall>
    decreases replacements.len(),
{
    if replacements.len() == 0 {
        Seq::empty()
    } else {
        spec_driver_trace(replacements.drop_last()) + spec_cycle_calls(replacements.last())
    }
}

/// The hook calls the driver must make after one `on_frame` call, in order:
/// none when the scene stays, else `on_exit` of the old scene strictly
/// before `on_enter` of the new one.
pub fn transition_calls(replaced: bool) -> (r: Vec<DriverCall>)
    ensures
        r@ == spec_cycle_calls(replaced).drop_first(),
        replaced ==> r@ =~= seq![DriverCall::ExitOld, DriverCall::EnterNew],
        !replaced ==> r@ =~= Seq::<DriverCall>::empty(),
{
    let mut r: Vec<DriverCall> = Vec::new();
    if replaced {
        r.push(DriverCall::ExitOld);
        r.push(DriverCall::EnterNew);
    }
    proof {
        if replaced {
            assert(r@ =~= spec_cycle_calls(replaced).drop_first());
        } else {
            assert(r@ =~= spec_cycle_calls(replaced).drop_first());
        }
    }
    r
}

/// Scene-switch ordering: in every driver trace, each `on_exit` of a
/// replaced scene is immediately followed by the `on_enter` of its
/// replacement; each `on_enter` is immediately preceded by that `on_exit`;
/// and whatever follows an `on_enter` is the next `on_frame`.
pub proof fn lemma_switch_ordering(replacements: Seq<bool>, k: int)
    requires
        0 <= k < spec_driver_trace(replacements).len(),
    ensures
        spec_driver_trace(replacements)[k] is ExitOld ==> k + 1
            < spec_driver_trace(replacements).len() && spec_driver_trace(replacements)[k + 1]
            is EnterNew,
        spec_driver_trace(replacements)[k] is EnterNew ==> 0 <= k - 1 && spec_driver_trace(
            replacements,
        )[k - 1] is ExitOld,
        spec_driver_trace(replacements)[k] is EnterNew && k + 1 < spec_driver_trace(
            replacements,
        ).len() ==> spec_driver_trace(replacements)[k + 1] is Frame,
    decreases replacements.len(),
{
    if replacements.len() > 0 {
        let prefix = spec_driver_trace(replacements.drop_last());
        let cycle = spec_cycle_calls(replacements.last());
        if k < prefix.len() {
            lemma_switch_ordering(replacements.drop_last(), k);
            if k + 1 >= prefix.len() {
                // `k` is the last call of the shorter trace, which the
                // recursive call shows is neither an exit nor an entry
                // mid-transition; the appended cycle starts with a frame.
                assert(cycle[0] is Frame);
            }
        }
    }
}

} // verus!
