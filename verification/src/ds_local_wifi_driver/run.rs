//! A whole run of a driver: the application is set up, and the cycle goes on from there without an
//! end. The run keeps its history, so that it can be spoken of.

use crate::ds_local_wifi_driver::cycle::{DriverPhase, Found, StepInput};
use crate::ds_local_wifi_driver::driver::LocalWifiDriverInner;
use crate::ds_local_wifi_driver::frames::{client_frame, ClientFrame};
use crate::ds_local_wifi_driver::layer::{
    actions_of, ClientEvents, DriverAction, LayerState, LocalWifiApplicationLayer,
    LocalWifiClientDevice,
};
use crate::ds_local_wifi_driver::link::Inbound;
use crate::ds_local_wifi_driver::state::{carries_payload, DriverState, Ledger};
use vstd::prelude::*;

verus! {

/// A call that a driver makes to its application.
pub enum AppCall {
    Setup,
    Event { event: ClientEvents },
    Packet { data_frame: ClientFrame, device: LocalWifiClientDevice },
    Fill,
}

impl AppCall {
    /// How the call changes the application and its layer.
    pub open spec fn made<T: LocalWifiApplicationLayer>(
        self,
        before: T,
        layer: LayerState,
        after: T,
        layer_after: LayerState,
    ) -> bool {
        match self {
            AppCall::Setup => T::setup_effect(before, layer, after, layer_after),
            AppCall::Event { event } => T::event_effect(before, event, after) && layer_after
                == layer,
            AppCall::Packet { data_frame, device } => T::packet_effect(
                before,
                layer,
                data_frame,
                device,
                after,
                layer_after,
            ),
            AppCall::Fill => T::fill_effect(before, layer, after, layer_after),
        }
    }
}

/// A step that was made.
pub struct Turn<T> {
    pub before: DriverState<T>,
    pub phase: DriverPhase,
    pub found: Found,
    pub after: DriverState<T>,
    pub next: DriverPhase,
}

impl<T: LocalWifiApplicationLayer> DriverState<T> {
    /// Whether nothing has happened to the driver yet.
    pub open spec fn fresh(self) -> bool {
        self.begins(self.ledger.app->0, self.layer.local_mac.octets)
    }

    /// Whether nobody is connected.
    pub open spec fn alone(self) -> bool {
        forall|k: u64| !#[trigger] self.ledger.clients.contains_key(k)
    }

    /// The call that taking a reply makes to the application, if any, and the layer at that time.
    pub open spec fn reply_call(self, packet: Inbound) -> Option<(AppCall, LayerState)> {
        let device = self.client(packet.mac);
        match packet.data {
            Some(bytes) => if carries_payload(bytes) {
                Some(
                    (
                        AppCall::Packet { data_frame: client_frame(bytes), device },
                        self.replied(device.assoc_id).layer,
                    ),
                )
            } else {
                None
            },
            None => None,
        }
    }

    /// The call that a step makes to the application, if any, and the layer at that time.
    pub open spec fn call(self, phase: DriverPhase, found: Found) -> Option<(AppCall, LayerState)> {
        match phase {
            DriverPhase::Events => match found.event {
                Some(event) => Some((AppCall::Event { event }, self.connecting(event).layer)),
                None => None,
            },
            DriverPhase::Drain { left } => if left > 0 {
                match found.packet {
                    Some(packet) => self.reply_call(packet),
                    None => None,
                }
            } else if self.ledger.clients.len() > 0 && (self.layer.frame->0).rx_console_mask == 0 {
                Some((AppCall::Fill, LayerState { frame: None, ..self.reported().layer }))
            } else {
                None
            },
            DriverPhase::Await { mask } => if mask != 0 && !found.window_over {
                match found.packet {
                    Some(packet) => self.reply_call(packet),
                    None => None,
                }
            } else {
                None
            },
        }
    }

    /// Whether a driver is this one after its owner tended it between two steps: the owner may have
    /// given events to the application and taken events from it, and may have taken the actions.
    pub open spec fn tended(self, after: DriverState<T>) -> bool {
        &&& after.ledger.app is Some
        &&& after.ledger == (Ledger { app: after.ledger.app, ..self.ledger })
        &&& after.layer == (LayerState { actions: after.layer.actions, ..self.layer })
        &&& after.layer.actions == self.layer.actions || after.layer.actions.len() == 0
    }
}

impl<T: LocalWifiApplicationLayer> Turn<T> {
    /// Whether the client event that the step found, if any, fits what the driver knew.
    pub open spec fn fits(self) -> bool {
        self.phase == DriverPhase::Events ==> (self.found.event matches Some(event)
            ==> self.before.expects(event))
    }
}

/// A run: the driver as it began, as it was set up and as it is, the steps that were made, and
/// where in its cycle the driver is.
pub struct RunState<T> {
    pub start: DriverState<T>,
    pub set_up: DriverState<T>,
    pub turns: Seq<Turn<T>>,
    pub driver: DriverState<T>,
    pub phase: DriverPhase,
}

impl<T: LocalWifiApplicationLayer> RunState<T> {
    /// The driver as a number of steps left it.
    pub open spec fn left(self, steps: int) -> DriverState<T> {
        if steps == 0 {
            self.set_up
        } else {
            self.turns[steps - 1].after
        }
    }

    /// Where in its cycle a number of steps left the driver.
    pub open spec fn phase_after(self, steps: int) -> DriverPhase {
        if steps == 0 {
            DriverPhase::Events
        } else {
            self.turns[steps - 1].next
        }
    }

    /// Whether a step of the run was one that the driver could make, from where the step before
    /// it left the driver.
    pub open spec fn turn_follows(self, i: int) -> bool {
        let turn = self.turns[i];
        &&& self.left(i).tended(turn.before)
        &&& turn.phase == self.phase_after(i)
        &&& turn.before.resting()
        &&& turn.before.can_step(turn.phase, turn.found)
        &&& turn.before.steps(turn.phase, turn.found, turn.after, turn.next)
    }

    /// Whether the run is one of the driver: it began with a fresh driver and with the
    /// application's setup, and each step follows from what was there before it.
    pub open spec fn follows(self) -> bool {
        &&& self.start.fresh()
        &&& self.start.sets_up(self.set_up)
        &&& forall|i: int| 0 <= i < self.turns.len() ==> #[trigger] self.turn_follows(i)
        &&& self.left(self.turns.len() as int).tended(self.driver)
        &&& self.phase == self.phase_after(self.turns.len() as int)
        &&& self.driver.resting()
    }

    /// Whether each client event that the run found fits what the driver knew at that time.
    pub open spec fn events_fit(self) -> bool {
        forall|i: int| 0 <= i < self.turns.len() ==> (#[trigger] self.turns[i]).fits()
    }

    /// The run with its application as the owner left it.
    pub open spec fn with_application(self, app: T) -> RunState<T> {
        RunState { driver: self.driver.returned(app, self.driver.layer), ..self }
    }

    /// The calls that the run has made to the application, in order.
    pub open spec fn calls(self) -> Seq<AppCall> {
        seq![AppCall::Setup] + calls_of(self.turns)
    }
}

/// The calls that steps made to the application, in order.
pub open spec fn calls_of<T: LocalWifiApplicationLayer>(turns: Seq<Turn<T>>) -> Seq<AppCall>
    decreases turns.len(),
{
    if turns.len() == 0 {
        Seq::empty()
    } else {
        let turn = turns.last();
        match turn.before.call(turn.phase, turn.found) {
            Some((call, _)) => calls_of(turns.drop_last()).push(call),
            None => calls_of(turns.drop_last()),
        }
    }
}

/// The client events that steps found, in order. Only the phase that asks for one finds one.
pub open spec fn events_found<T>(turns: Seq<Turn<T>>) -> Seq<ClientEvents>
    decreases turns.len(),
{
    if turns.len() == 0 {
        Seq::empty()
    } else {
        let turn = turns.last();
        match (turn.phase, turn.found.event) {
            (DriverPhase::Events, Some(event)) => events_found(turns.drop_last()).push(event),
            _ => events_found(turns.drop_last()),
        }
    }
}

/// The client events that an application hears of through calls, in order.
pub open spec fn events_heard(calls: Seq<AppCall>) -> Seq<ClientEvents>
    decreases calls.len(),
{
    if calls.len() == 0 {
        Seq::empty()
    } else {
        match calls.last() {
            AppCall::Event { event } => events_heard(calls.drop_last()).push(event),
            _ => events_heard(calls.drop_last()),
        }
    }
}

/// A driver on its run.
pub struct Run<T: LocalWifiApplicationLayer> {
    driver: LocalWifiDriverInner<T>,
    phase: DriverPhase,
    start: Ghost<DriverState<T>>,
    set_up: Ghost<DriverState<T>>,
    turns: Ghost<Seq<Turn<T>>>,
}

impl<T: LocalWifiApplicationLayer> View for Run<T> {
    type V = RunState<T>;

    closed spec fn view(&self) -> RunState<T> {
        RunState {
            start: self.start@,
            set_up: self.set_up@,
            turns: self.turns@,
            driver: self.driver@,
            phase: self.phase,
        }
    }
}

impl<T: LocalWifiApplicationLayer> LocalWifiDriverInner<T> {
    /// Begins the run of a fresh driver. The application is set up before anything else.
    pub fn run(self) -> (run: Run<T>)
        requires
            self@.fresh(),
        ensures
            run@.follows(),
            run@.start == self@,
            run@.turns.len() == 0,
            run@.driver == run@.set_up,
            run@.phase == DriverPhase::Events,
    {
        let mut driver = self;
        let ghost start = driver@;
        driver.setup();
        let ghost set_up = driver@;
        Run {
            driver,
            phase: DriverPhase::Events,
            start: Ghost(start),
            set_up: Ghost(set_up),
            turns: Ghost(Seq::empty()),
        }
    }
}

impl<T: LocalWifiApplicationLayer> Run<T> {
    /// Where in its cycle the driver is.
    pub fn phase(&self) -> (phase: DriverPhase)
        ensures
            phase == self@.phase,
    {
        self.phase
    }

    /// Whether the next step can be made.
    pub fn step_ready(&self, input: &StepInput) -> (ready: bool)
        requires
            self@.follows(),
        ensures
            ready <==> self@.driver.can_step(self@.phase, input@),
    {
        self.driver.step_ready(self.phase, input)
    }

    /// Whether the next step asks the application for a frame.
    pub fn asks_application(&self) -> (asks: bool)
        requires
            self@.follows(),
        ensures
            asks <==> self@.phase == (DriverPhase::Drain { left: 0 })
                && self@.driver.ledger.clients.len() > 0 && (
            self@.driver.layer.frame->0).rx_console_mask == 0,
    {
        self.driver.asks_application(self.phase)
    }

    /// Makes the next step, with what the owner found when it waited.
    pub fn step(&mut self, input: &StepInput)
        requires
            old(self)@.follows(),
            old(self)@.driver.can_step(old(self)@.phase, input@),
        ensures
            final(self)@.follows(),
            final(self)@.start == old(self)@.start,
            final(self)@.set_up == old(self)@.set_up,
            final(self)@.turns == old(self)@.turns.push(
                Turn {
                    before: old(self)@.driver,
                    phase: old(self)@.phase,
                    found: input@,
                    after: final(self)@.driver,
                    next: final(self)@.phase,
                },
            ),
            old(self)@.driver.steps(
                old(self)@.phase,
                input@,
                final(self)@.driver,
                final(self)@.phase,
            ),
    {
        let ghost before = self@;
        self.phase = self.driver.step(self.phase, input);
        proof {
            let turn = Turn {
                before: before.driver,
                phase: before.phase,
                found: input@,
                after: self.driver@,
                next: self.phase,
            };
            self.turns@ = before.turns.push(turn);
            let now = self@;
            assert forall|i: int| 0 <= i < now.turns.len() implies #[trigger] now.turn_follows(
                i,
            ) by {
                assert(now.left(i) == before.left(i));
                assert(now.phase_after(i) == before.phase_after(i));
                if i < before.turns.len() {
                    assert(before.turn_follows(i));
                }
            }
        }
    }

    /// The application, for its owner to give it events and to take events from it.
    pub fn application(&mut self) -> (app: &mut T)
        requires
            old(self)@.follows(),
        ensures
            *app == old(self)@.driver.ledger.app->0,
            final(self)@ == old(self)@.with_application(*final(app)),
            final(self)@.follows(),
    {
        proof {
            let before = self@;
            assert forall|app: T| #[trigger] before.with_application(app).follows() by {
                lemma_owner_may_tend(before, before.with_application(app));
            }
        }
        self.driver.application()
    }

    /// What the radio has to do, in order. The run forgets it.
    pub fn take_actions(&mut self) -> (actions: Vec<DriverAction>)
        requires
            old(self)@.follows(),
        ensures
            actions_of(actions@) == old(self)@.driver.layer.actions,
            final(self)@ == (RunState {
                driver: DriverState {
                    layer: LayerState { actions: Seq::empty(), ..old(self)@.driver.layer },
                    ..old(self)@.driver
                },
                ..old(self)@
            }),
            final(self)@.follows(),
    {
        let ghost before = self@;
        let actions = self.driver.take_actions();
        proof {
            lemma_owner_may_tend(before, self@);
        }
        actions
    }
}

/// A run stays a run when its owner tends the driver.
proof fn lemma_owner_may_tend<T: LocalWifiApplicationLayer>(before: RunState<T>, after: RunState<T>)
    requires
        before.follows(),
        before.driver.tended(after.driver),
        after == (RunState { driver: after.driver, ..before }),
    ensures
        after.follows(),
{
    assert forall|i: int| 0 <= i < after.turns.len() implies #[trigger] after.turn_follows(i) by {
        assert(before.turn_follows(i));
        assert(after.left(i) == before.left(i));
        assert(after.phase_after(i) == before.phase_after(i));
    }
    let steps = after.turns.len() as int;
    assert(after.left(steps) == before.left(steps));
    assert(after.phase_after(steps) == before.phase_after(steps));
}

} // verus!
