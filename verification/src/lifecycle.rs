//! Chain lifecycle: a two-state machine driven by trigger edges. A press
//! while idle selects the nearest anchor and synthesizes a chain
//! (press-to-attach); a release while attached tears the whole chain down
//! (release-to-detach); a press while already attached is a no-op. The host
//! delivers each input edge exactly once and executes the returned action
//! against its physics registry; if the registry rejects a creation, the
//! host hands back `RegistryRejected` and the controller rolls the chain
//! back, so a partial chain never outlives the tick that made it.

use vstd::prelude::*;

use crate::chain::Chain;
use crate::chain::ChainError;
use crate::chain::is_synthesized;
use crate::chain::synthesize_chain;
use crate::geometry::Point;
use crate::selector::Anchor;
use crate::selector::is_nearest_first;
use crate::selector::nearest_anchor;

verus! {

/// The two externally observable states: no chain, or one live chain.
#[derive(Clone, Copy, Debug, PartialEq, Eq, Structural)]
pub enum LifecycleState {
    Idle,
    Attached,
}

/// One input-change event, delivered once per edge, plus the registry's
/// rejection report.
#[derive(Clone, Copy, Debug, PartialEq, Eq, Structural)]
pub enum TriggerEvent {
    Pressed,
    Released,
    RegistryRejected,
}

/// Edge detection over the trigger level sampled once per tick: the event
/// the controller must see, at most one per input change and none while the
/// level merely stays held or released across frames.
pub fn trigger_edge(held_before: bool, held_now: bool) -> (r: Option<TriggerEvent>)
    ensures
        held_now && !held_before ==> r == Some(TriggerEvent::Pressed),
        !held_now && held_before ==> r == Some(TriggerEvent::Released),
        held_now == held_before ==> r is None,
{
    if held_now && !held_before {
        Some(TriggerEvent::Pressed)
    } else if !held_now && held_before {
        Some(TriggerEvent::Released)
    } else {
        None
    }
}

/// What the host must do against its physics registry after an event.
#[derive(Clone, Debug)]
pub enum Action {
    /// Nothing changed; nothing to do.
    NoChange,
    /// A chain was attached: register every segment body and every joint of
    /// the chain now held in `Controller::live_chain`, bodies first.
    RegisterChain,
    /// A chain was detached: destroy every joint and every segment body of
    /// this chain (joints first is the safe order), leaving nothing behind.
    TearDown(Chain),
}

/// The lifecycle controller. Configuration (nominal segment length and the
/// mobile body's handle) is passed in at construction, not read from
/// ambient state.
pub struct Controller {
    pub state: LifecycleState,
    /// The one live chain; a chain is fully present or fully absent.
    pub live_chain: Option<Chain>,
    /// Nominal segment length handed to every synthesis.
    pub segment_length: u64,
    /// Handle of the dynamic body chains attach to.
    pub mobile_body: u64,
}

impl Controller {
    /// A chain is held exactly in the `Attached` state, and the configured
    /// segment length is usable.
    pub open spec fn wf(self) -> bool {
        &&& self.state is Attached <==> self.live_chain is Some
        &&& self.segment_length >= 1
    }

    pub fn new(segment_length: u64, mobile_body: u64) -> (c: Controller)
        requires
            segment_length >= 1,
        ensures
            c.wf(),
            c.state is Idle,
            c.live_chain is None,
            c.segment_length == segment_length,
            c.mobile_body == mobile_body,
    {
        Controller {
            state: LifecycleState::Idle,
            live_chain: None,
            segment_length,
            mobile_body,
        }
    }

    /// Advances the state machine by one event and says what the host must
    /// do. Every error collapses to "no state change": the controller
    /// always falls back to staying as it is.
    pub fn on_event(&mut self, event: TriggerEvent, mobile: Point, anchors: &Vec<Anchor>) -> (r:
        Result<Action, ChainError>)
        requires
            old(self).wf(),
            mobile.in_bounds(),
            forall|i: int| 0 <= i < anchors@.len() ==> (#[trigger] anchors@[i]).point.in_bounds(),
        ensures
            final(self).wf(),
            final(self).segment_length == old(self).segment_length,
            final(self).mobile_body == old(self).mobile_body,
            r is Err ==> *final(self) == *old(self),
            // A press while idle with nothing to attach to: rejected, idle.
            event is Pressed && old(self).state is Idle && anchors@.len() == 0 ==> r == Err::<
                Action,
                ChainError,
            >(ChainError::EmptyAnchorSet),
            // A press while idle with anchors: the nearest-first anchor is
            // chosen; a coinciding anchor is rejected, any other gets a
            // synthesized chain, held live and handed out for registration.
            event is Pressed && old(self).state is Idle && anchors@.len() > 0 ==> exists|k: int|
                #![auto]
                is_nearest_first(mobile, anchors@, k) && if anchors@[k].point == mobile {
                    r == Err::<Action, ChainError>(ChainError::DegenerateChainRequest)
                } else {
                    &&& r == Ok::<Action, ChainError>(Action::RegisterChain)
                    &&& final(self).state is Attached
                    &&& final(self).live_chain matches Some(c) && is_synthesized(
                        c,
                        mobile,
                        anchors@[k].point,
                        old(self).mobile_body,
                        anchors@[k].body,
                        old(self).segment_length as int,
                    )
                },
            // A press while attached is a no-op: the chain count stays one.
            event is Pressed && old(self).state is Attached ==> r == Ok::<Action, ChainError>(
                Action::NoChange,
            ) && *final(self) == *old(self),
            // A release while attached detaches: the whole chain is handed
            // out for teardown and nothing stays live.
            event is Released && old(self).state is Attached ==> ({
                &&& old(self).live_chain matches Some(c0)
                &&& r == Ok::<Action, ChainError>(Action::TearDown(c0))
                &&& final(self).state is Idle
                &&& final(self).live_chain is None
            }),
            // A registry rejection while attached rolls back the same way.
            event is RegistryRejected && old(self).state is Attached ==> ({
                &&& old(self).live_chain matches Some(c0)
                &&& r == Ok::<Action, ChainError>(Action::TearDown(c0))
                &&& final(self).state is Idle
                &&& final(self).live_chain is None
            }),
            // A release or rejection while idle changes nothing.
            (event is Released || event is RegistryRejected) && old(self).state is Idle ==> r
                == Ok::<Action, ChainError>(Action::NoChange) && *final(self) == *old(self),
    {
        match event {
            TriggerEvent::Pressed => {
                match self.state {
                    LifecycleState::Attached => Ok(Action::NoChange),
                    LifecycleState::Idle => {
                        match nearest_anchor(mobile, anchors) {
                            None => Err(ChainError::EmptyAnchorSet),
                            Some(k) => {
                                let chosen = anchors[k];
                                match synthesize_chain(
                                    mobile,
                                    chosen.point,
                                    self.mobile_body,
                                    chosen.body,
                                    self.segment_length,
                                ) {
                                    Err(e) => Err(e),
                                    Ok(c) => {
                                        self.live_chain = Some(c);
                                        self.state = LifecycleState::Attached;
                                        Ok(Action::RegisterChain)
                                    },
                                }
                            },
                        }
                    },
                }
            },
            TriggerEvent::Released | TriggerEvent::RegistryRejected => {
                match self.state {
                    LifecycleState::Idle => Ok(Action::NoChange),
                    LifecycleState::Attached => {
                        let held: Option<Chain> = self.live_chain.take();
                        self.state = LifecycleState::Idle;
                        match held {
                            Some(c) => Ok(Action::TearDown(c)),
                            // a chain is always held while attached
                            None => unreached(),
                        }
                    },
                }
            },
        }
    }
}

} // verus!
