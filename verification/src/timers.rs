//! Timer decisions. The caller runs the periodic tasks; this module decides
//! what each tick means: whether a timer is armed, and which event a
//! master-down tick delivers given the down flag.

use crate::fsm::{self, Event, Flags, States, VrState};
use crate::vrouter::VirtualRouter;
use vstd::prelude::*;

verus! {

/// What a master-down tick delivers: `MasterDown` when the down flag is
/// already set (no advertisement arrived since the last tick), otherwise
/// `MasterDownExpiry`, which asks the state machine to set the flag.
pub open spec fn spec_master_down_tick(down: u8) -> Event {
    if down == 1 {
        Event::MasterDown
    } else {
        Event::MasterDownExpiry
    }
}

/// Decide the event one master-down tick delivers.
pub fn master_down_tick(flags: &Flags) -> (e: Event)
    ensures
        e == spec_master_down_tick(flags.down),
{
    if flags.down == 1 {
        Event::MasterDown
    } else {
        Event::MasterDownExpiry
    }
}

/// Whether the master-down timer is armed: its remaining time is positive.
/// (The name follows the historical sense: `true` keeps the tick running.)
pub fn is_master_down_disabled(vr: &VirtualRouter) -> (r: bool)
    ensures
        r == (vr.timers.master_down > 0),
{
    vr.timers.master_down > 0
}

/// Whether the advertisement timer is armed: its remaining time is positive.
/// (The name follows the historical sense: `true` keeps the tick running.)
pub fn is_advert_disabled(vr: &VirtualRouter) -> (r: bool)
    ensures
        r == (vr.timers.advert > 0),
{
    vr.timers.advert > 0
}

/// Law: in Backup with the down flag clear, two consecutive master-down
/// ticks with no advertisement in between escalate exactly on the second
/// tick: the first delivers `MasterDownExpiry` and only sets the flag, the
/// second delivers `MasterDown` and the router becomes Master.
pub proof fn lemma_two_ticks_elect_master(vr: VrState)
    requires
        vr.wf(),
        vr.state == States::Backup,
        vr.down == 0,
    ensures
        ({
            let e1 = spec_master_down_tick(vr.down);
            let s1 = fsm::spec_step(vr, e1);
            let e2 = spec_master_down_tick(s1.0.down);
            let s2 = fsm::spec_step(s1.0, e2);
            &&& e1 == Event::MasterDownExpiry
            &&& s1.1 =~= Seq::<fsm::Action>::empty()
            &&& s1.0.state == States::Backup
            &&& e2 == Event::MasterDown
            &&& s2.0.state == States::Master
        }),
{
}

} // verus!
