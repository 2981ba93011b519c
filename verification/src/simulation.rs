//! Virtual machines for exercising the system without hardware.
//!
//! A virtual machine stands in for a remote peer: it has a screen, a
//! cursor, and a record of every event injected into it. The simulation
//! holds a set of them, keyed by name, and routes events to them the way
//! the real loops would; any simulated network latency is the caller's
//! wait, not this module's.

use vstd::prelude::*;
use crate::agent::spec_clamp;
use crate::events::{Event, EventV};
use crate::text::str_eq;

verus! {

/// A simulated machine: a screen, a cursor, and its event record.
#[derive(Debug, Clone)]
pub struct VirtualMachine {
    name: String,
    screen_width: u32,
    screen_height: u32,
    cursor_x: i32,
    cursor_y: i32,
    recorded_events: Vec<Event>,
}

impl VirtualMachine {
    /// The machine's name.
    pub closed spec fn spec_name(&self) -> Seq<char> {
        self.name@
    }

    /// The screen size.
    pub closed spec fn spec_screen(&self) -> (int, int) {
        (self.screen_width as int, self.screen_height as int)
    }

    /// The cursor position.
    pub closed spec fn spec_cursor(&self) -> (int, int) {
        (self.cursor_x as int, self.cursor_y as int)
    }

    /// Every event injected so far, oldest first.
    pub closed spec fn spec_events(&self) -> Seq<EventV> {
        self.recorded_events@.map_values(|e: Event| e@)
    }

    /// The screen fits the signed coordinate space.
    pub open spec fn wf(&self) -> bool {
        self.spec_screen().0 <= i32::MAX && self.spec_screen().1 <= i32::MAX
    }

    /// A machine with the cursor at the screen's center and no events.
    pub fn new(name: String, screen_width: u32, screen_height: u32) -> (r: VirtualMachine)
        requires
            screen_width <= i32::MAX,
            screen_height <= i32::MAX,
        ensures
            r.wf(),
            r.spec_name() == name@,
            r.spec_screen() == (screen_width as int, screen_height as int),
            r.spec_cursor() == (screen_width as int / 2, screen_height as int / 2),
            r.spec_events() =~= Seq::<EventV>::empty(),
    {
        VirtualMachine {
            name,
            screen_width,
            screen_height,
            cursor_x: (screen_width / 2) as i32,
            cursor_y: (screen_height / 2) as i32,
            recorded_events: Vec::new(),
        }
    }

    /// The machine's name.
    pub fn name(&self) -> (r: &str)
        ensures
            r@ == self.spec_name(),
    {
        self.name.as_str()
    }

    /// The screen size as width and height.
    pub fn screen_size(&self) -> (r: (u32, u32))
        ensures
            r.0 as int == self.spec_screen().0,
            r.1 as int == self.spec_screen().1,
    {
        (self.screen_width, self.screen_height)
    }

    /// The cursor position.
    pub fn cursor_position(&self) -> (r: (i32, i32))
        ensures
            r.0 as int == self.spec_cursor().0,
            r.1 as int == self.spec_cursor().1,
    {
        (self.cursor_x, self.cursor_y)
    }

    /// Moves the cursor, clamped to the screen rectangle.
    pub fn set_cursor_position(&mut self, x: i32, y: i32)
        requires
            old(self).wf(),
        ensures
            final(self).wf(),
            final(self).spec_name() == old(self).spec_name(),
            final(self).spec_screen() == old(self).spec_screen(),
            final(self).spec_events() == old(self).spec_events(),
            final(self).spec_cursor() == (
                spec_clamp(x as int, old(self).spec_screen().0),
                spec_clamp(y as int, old(self).spec_screen().1),
            ),
    {
        self.cursor_x = clamp_i32(x, self.screen_width);
        self.cursor_y = clamp_i32(y, self.screen_height);
    }

    /// Records the event and simulates it: a cursor move moves the
    /// cursor (clamped); every other event only joins the record.
    pub fn inject_event(&mut self, event: Event)
        requires
            old(self).wf(),
        ensures
            final(self).wf(),
            final(self).spec_name() == old(self).spec_name(),
            final(self).spec_screen() == old(self).spec_screen(),
            final(self).spec_events() == old(self).spec_events().push(event@),
            final(self).spec_cursor() == match event@ {
                EventV::MouseMove { x, y } => (
                    spec_clamp(x, old(self).spec_screen().0),
                    spec_clamp(y, old(self).spec_screen().1),
                ),
                _ => old(self).spec_cursor(),
            },
    {
        let moved: Option<(i32, i32)> = match &event {
            Event::MouseMove { x, y } => Some((*x, *y)),
            _ => None,
        };
        self.recorded_events.push(event);
        if let Some((x, y)) = moved {
            self.cursor_x = clamp_i32(x, self.screen_width);
            self.cursor_y = clamp_i32(y, self.screen_height);
        }
        proof {
            assert(self.spec_events() =~= old(self).spec_events().push(
                self.recorded_events@.last()@,
            ));
        }
    }

    /// The recorded events, oldest first.
    pub fn recorded_events(&self) -> (r: &[Event])
        ensures
            r@.map_values(|e: Event| e@) == self.spec_events(),
    {
        self.recorded_events.as_slice()
    }

    /// Empties the event record.
    pub fn clear_events(&mut self)
        ensures
            final(self).wf() == old(self).wf(),
            final(self).spec_name() == old(self).spec_name(),
            final(self).spec_screen() == old(self).spec_screen(),
            final(self).spec_cursor() == old(self).spec_cursor(),
            final(self).spec_events() =~= Seq::<EventV>::empty(),
    {
        self.recorded_events.clear();
    }
}

/// Routing an event to a machine the simulation does not know fails.
#[derive(Debug, Clone, Copy, PartialEq, Eq, Structural)]
pub enum SimulationError {
    UnknownMachine,
}

/// Counters describing a simulation run.
#[derive(Debug, Clone, Copy, PartialEq, Eq, Structural)]
pub struct SimulationStatistics {
    /// Events successfully routed to virtual machines.
    pub total_events_sent: usize,
    /// Virtual machines currently in the simulation.
    pub virtual_machine_count: usize,
}

/// A set of virtual machines, keyed by unique name, and a counter of
/// events routed to them.
pub struct SimulationMode {
    virtual_machines: Vec<VirtualMachine>,
    network_latency_ms: u64,
    total_events_sent: usize,
}

impl SimulationMode {
    /// The machines, in insertion order.
    pub closed spec fn spec_vms(&self) -> Seq<VirtualMachine> {
        self.virtual_machines@
    }

    /// The configured pretend latency in milliseconds.
    pub closed spec fn spec_latency_ms(&self) -> int {
        self.network_latency_ms as int
    }

    /// How many events were routed so far.
    pub closed spec fn spec_events_sent(&self) -> int {
        self.total_events_sent as int
    }

    /// Names are unique and every machine's screen fits the coordinate
    /// space.
    pub open spec fn wf(&self) -> bool {
        &&& forall|i: int, j: int|
            0 <= i < j < self.spec_vms().len() ==> (#[trigger] self.spec_vms()[i]).spec_name() != (
            #[trigger] self.spec_vms()[j]).spec_name()
        &&& forall|i: int| 0 <= i < self.spec_vms().len() ==> (#[trigger] self.spec_vms()[i]).wf()
    }

    /// Whether a machine of this name is in the simulation.
    pub open spec fn spec_has_vm(&self, m: Seq<char>) -> bool {
        exists|i: int|
            0 <= i < self.spec_vms().len() && (#[trigger] self.spec_vms()[i]).spec_name() == m
    }

    /// The machine of this name, if it is in the simulation.
    pub open spec fn spec_lookup(&self, m: Seq<char>) -> Option<VirtualMachine> {
        if self.spec_has_vm(m) {
            let i = choose|i: int|
                0 <= i < self.spec_vms().len() && (#[trigger] self.spec_vms()[i]).spec_name() == m;
            Some(self.spec_vms()[i])
        } else {
            None
        }
    }

    /// An empty simulation: no machines, no latency, nothing sent.
    pub fn new() -> (r: SimulationMode)
        ensures
            r.wf(),
            r.spec_vms() =~= Seq::<VirtualMachine>::empty(),
            r.spec_latency_ms() == 0,
            r.spec_events_sent() == 0,
    {
        SimulationMode { virtual_machines: Vec::new(), network_latency_ms: 0, total_events_sent: 0 }
    }

    /// Adds a machine, or resets it when the name is already present:
    /// either way the name afterwards maps to a fresh machine with the
    /// given screen.
    pub fn add_virtual_machine(&mut self, name: String, width: u32, height: u32)
        requires
            old(self).wf(),
            width <= i32::MAX,
            height <= i32::MAX,
        ensures
            final(self).wf(),
            final(self).spec_latency_ms() == old(self).spec_latency_ms(),
            final(self).spec_events_sent() == old(self).spec_events_sent(),
            final(self).spec_has_vm(name@),
            match final(self).spec_lookup(name@) {
                Some(vm) => vm.spec_name() == name@ && vm.spec_screen() == (
                    width as int,
                    height as int,
                ) && vm.spec_events() =~= Seq::<EventV>::empty(),
                None => false,
            },
            forall|m: Seq<char>|
                m != name@ ==> #[trigger] final(self).spec_lookup(m) == old(self).spec_lookup(m),
            final(self).spec_vms().len() == if old(self).spec_has_vm(name@) {
                old(self).spec_vms().len() as int
            } else {
                old(self).spec_vms().len() + 1 as int
            },
    {
        let n = self.virtual_machines.len();
        let mut i: usize = 0;
        while i < n && !str_eq(self.virtual_machines[i].name.as_str(), name.as_str())
            invariant
                i <= n,
                n == self.virtual_machines@.len(),
                self == old(self),
                old(self).wf(),
                forall|j: int|
                    0 <= j < i ==> (#[trigger] self.spec_vms()[j]).spec_name() != name@,
            decreases n - i,
        {
            i = i + 1;
        }
        let vm = VirtualMachine::new(name.clone(), width, height);
        if i < n {
            let entry = vstd::std_specs::vec::vec_index_mut(&mut self.virtual_machines, i);
            *entry = vm;
            proof {
                let vs = self.spec_vms();
                let ovs = old(self).spec_vms();
                assert(ovs[i as int].spec_name() == name@);
                assert(vs =~= ovs.update(i as int, vs[i as int]));
                assert(vs[i as int].spec_name() == name@);
                assert forall|a: int, b: int| 0 <= a < b < vs.len() implies (
                #[trigger] vs[a]).spec_name() != (#[trigger] vs[b]).spec_name() by {
                    assert(ovs[a].spec_name() != ovs[b].spec_name());
                }
                assert forall|k: int| 0 <= k < vs.len() implies (#[trigger] vs[k]).wf() by {
                    if k != i as int {
                        assert(vs[k] == ovs[k]);
                    }
                }
                lemma_vm_lookup_at(self, i as int);
                assert forall|m: Seq<char>| m != name@ implies #[trigger] self.spec_lookup(m)
                    == old(self).spec_lookup(m) by {
                    lemma_vm_lookup_agree(self, old(self), m);
                }
            }
        } else {
            self.virtual_machines.push(vm);
            proof {
                let vs = self.spec_vms();
                let ovs = old(self).spec_vms();
                assert(vs =~= ovs.push(vs[n as int]));
                assert(vs[n as int].spec_name() == name@);
                assert forall|a: int, b: int| 0 <= a < b < vs.len() implies (
                #[trigger] vs[a]).spec_name() != (#[trigger] vs[b]).spec_name() by {
                    if b < n as int {
                        assert(ovs[a].spec_name() != ovs[b].spec_name());
                    } else {
                        assert(vs[a] == ovs[a]);
                        assert(ovs[a].spec_name() != name@);
                    }
                }
                assert forall|k: int| 0 <= k < vs.len() implies (#[trigger] vs[k]).wf() by {
                    if k != n as int {
                        assert(vs[k] == ovs[k]);
                    }
                }
                lemma_vm_lookup_at(self, n as int);
                assert forall|m: Seq<char>| m != name@ implies #[trigger] self.spec_lookup(m)
                    == old(self).spec_lookup(m) by {
                    lemma_vm_lookup_agree(self, old(self), m);
                }
            }
        }
    }

    /// Removes the machine of this name; without one, nothing changes.
    pub fn remove_virtual_machine(&mut self, name: &str)
        requires
            old(self).wf(),
        ensures
            final(self).wf(),
            final(self).spec_latency_ms() == old(self).spec_latency_ms(),
            final(self).spec_events_sent() == old(self).spec_events_sent(),
            !final(self).spec_has_vm(name@),
            forall|m: Seq<char>|
                m != name@ ==> #[trigger] final(self).spec_lookup(m) == old(self).spec_lookup(m),
    {
        let n = self.virtual_machines.len();
        let mut i: usize = 0;
        while i < n
            invariant
                i <= n,
                n == self.virtual_machines@.len(),
                self == old(self),
                old(self).wf(),
                forall|j: int|
                    0 <= j < i ==> (#[trigger] self.spec_vms()[j]).spec_name() != name@,
            decreases n - i,
        {
            if str_eq(self.virtual_machines[i].name.as_str(), name) {
                self.virtual_machines.remove(i);
                proof {
                    let vs = self.spec_vms();
                    let ovs = old(self).spec_vms();
                    assert(vs =~= ovs.remove(i as int));
                    assert forall|k: int| 0 <= k < vs.len() implies (#[trigger] vs[k]) == (if k < i
                        as int {
                        ovs[k]
                    } else {
                        ovs[k + 1]
                    }) by {}
                    assert forall|a: int, b: int| 0 <= a < b < vs.len() implies (
                    #[trigger] vs[a]).spec_name() != (#[trigger] vs[b]).spec_name() by {
                        let a0 = if a < i as int {
                            a
                        } else {
                            a + 1
                        };
                        let b0 = if b < i as int {
                            b
                        } else {
                            b + 1
                        };
                        assert(ovs[a0].spec_name() != ovs[b0].spec_name());
                    }
                    assert forall|k: int| 0 <= k < vs.len() implies (#[trigger] vs[k]).spec_name()
                        != name@ by {
                        if k >= i as int {
                            assert(ovs[i as int].spec_name() != ovs[k + 1].spec_name());
                        }
                    }
                    assert forall|k: int| 0 <= k < vs.len() implies (#[trigger] vs[k]).wf() by {
                        if k < i as int {
                            assert(vs[k] == ovs[k]);
                        } else {
                            assert(vs[k] == ovs[k + 1]);
                        }
                    }
                    assert forall|m: Seq<char>| m != name@ implies #[trigger] self.spec_lookup(m)
                        == old(self).spec_lookup(m) by {
                        lemma_vm_lookup_agree_removed(self, old(self), m, i as int);
                    }
                }
                return ;
            }
            i = i + 1;
        }
    }

    /// The machine of this name, if it is in the simulation.
    pub fn get_virtual_machine(&self, name: &str) -> (r: Option<&VirtualMachine>)
        requires
            self.wf(),
        ensures
            match r {
                Some(vm) => self.spec_lookup(name@) == Some(*vm),
                None => self.spec_lookup(name@) is None,
            },
    {
        let n = self.virtual_machines.len();
        let mut i: usize = 0;
        while i < n
            invariant
                i <= n,
                n == self.virtual_machines@.len(),
                self.wf(),
                forall|j: int|
                    0 <= j < i ==> (#[trigger] self.spec_vms()[j]).spec_name() != name@,
            decreases n - i,
        {
            if str_eq(self.virtual_machines[i].name.as_str(), name) {
                proof {
                    lemma_vm_lookup_at(self, i as int);
                }
                return Some(&self.virtual_machines[i]);
            }
            i = i + 1;
        }
        None
    }

    /// The machine of this name, mutably. Whatever the caller does to it
    /// becomes the machine stored under that slot.
    pub fn get_virtual_machine_mut(&mut self, name: &str) -> (r: Option<&mut VirtualMachine>)
        requires
            old(self).wf(),
        ensures
            match r {
                Some(vm) => {
                    &&& old(self).spec_lookup(name@) == Some(*vm)
                    &&& exists|i: int|
                        0 <= i < old(self).spec_vms().len() && (#[trigger] old(
                            self,
                        ).spec_vms()[i]).spec_name() == name@ && final(self).spec_vms() == old(
                            self,
                        ).spec_vms().update(i, *final(vm))
                    &&& final(self).spec_latency_ms() == old(self).spec_latency_ms()
                    &&& final(self).spec_events_sent() == old(self).spec_events_sent()
                },
                None => old(self).spec_lookup(name@) is None && *final(self) == *old(self),
            },
    {
        let n = self.virtual_machines.len();
        let mut i: usize = 0;
        while i < n
            invariant
                i <= n,
                n == self.virtual_machines@.len(),
                self == old(self),
                old(self).wf(),
                forall|j: int|
                    0 <= j < i ==> (#[trigger] self.spec_vms()[j]).spec_name() != name@,
            decreases n - i,
        {
            if str_eq(self.virtual_machines[i].name.as_str(), name) {
                proof {
                    lemma_vm_lookup_at(self, i as int);
                }
                return Some(vstd::std_specs::vec::vec_index_mut(&mut self.virtual_machines, i));
            }
            i = i + 1;
        }
        None
    }

    /// How many machines the simulation holds.
    pub fn virtual_machine_count(&self) -> (n: usize)
        ensures
            n == self.spec_vms().len(),
    {
        self.virtual_machines.len()
    }

    /// Sets the pretend network latency; the caller sleeps for it before
    /// each delivery.
    pub fn set_network_latency(&mut self, latency_ms: u64)
        ensures
            final(self).spec_latency_ms() == latency_ms as int,
            final(self).spec_vms() == old(self).spec_vms(),
            final(self).spec_events_sent() == old(self).spec_events_sent(),
            old(self).wf() ==> final(self).wf(),
    {
        self.network_latency_ms = latency_ms;
        proof {
            assert(self.spec_vms() =~= old(self).spec_vms());
            if old(self).wf() {
                assert forall|i: int, j: int|
                    0 <= i < j < self.spec_vms().len() implies (
                #[trigger] self.spec_vms()[i]).spec_name() != (
                #[trigger] self.spec_vms()[j]).spec_name() by {
                    assert(self.spec_vms()[i] == old(self).spec_vms()[i]);
                    assert(self.spec_vms()[j] == old(self).spec_vms()[j]);
                }
                assert forall|i: int| 0 <= i < self.spec_vms().len() implies (
                #[trigger] self.spec_vms()[i]).wf() by {
                    assert(self.spec_vms()[i] == old(self).spec_vms()[i]);
                }
            }
        }
    }

    /// The configured pretend latency in milliseconds.
    pub fn network_latency(&self) -> (r: u64)
        ensures
            r as int == self.spec_latency_ms(),
    {
        self.network_latency_ms
    }

    /// Routes one event to the named machine: the event is injected there
    /// and counted, or `UnknownMachine` comes back and nothing changes.
    /// The counter stops at its maximum rather than wrap.
    pub fn send_event_to(&mut self, target: &str, event: Event) -> (r: Result<
        (),
        SimulationError,
    >)
        requires
            old(self).wf(),
        ensures
            final(self).wf(),
            final(self).spec_latency_ms() == old(self).spec_latency_ms(),
            match r {
                Ok(()) => {
                    &&& old(self).spec_has_vm(target@)
                    &&& match (final(self).spec_lookup(target@), old(self).spec_lookup(target@)) {
                        (Some(v2), Some(v1)) => {
                            &&& v2.spec_name() == v1.spec_name()
                            &&& v2.spec_screen() == v1.spec_screen()
                            &&& v2.spec_events() == v1.spec_events().push(event@)
                            &&& v2.spec_cursor() == match event@ {
                                EventV::MouseMove { x, y } => (
                                    spec_clamp(x, v1.spec_screen().0),
                                    spec_clamp(y, v1.spec_screen().1),
                                ),
                                _ => v1.spec_cursor(),
                            }
                        },
                        _ => false,
                    }
                    &&& forall|m: Seq<char>|
                        m != target@ ==> #[trigger] final(self).spec_lookup(m) == old(
                            self,
                        ).spec_lookup(m)
                    &&& final(self).spec_events_sent() == if old(self).spec_events_sent()
                        < usize::MAX {
                        old(self).spec_events_sent() + 1
                    } else {
                        old(self).spec_events_sent()
                    }
                },
                Err(SimulationError::UnknownMachine) => {
                    &&& !old(self).spec_has_vm(target@)
                    &&& *final(self) == *old(self)
                },
            },
    {
        let n = self.virtual_machines.len();
        let mut i: usize = 0;
        while i < n
            invariant
                i <= n,
                n == self.virtual_machines@.len(),
                self == old(self),
                old(self).wf(),
                forall|j: int|
                    0 <= j < i ==> (#[trigger] self.spec_vms()[j]).spec_name() != target@,
            decreases n - i,
        {
            if str_eq(self.virtual_machines[i].name.as_str(), target) {
                proof {
                    lemma_vm_lookup_at(old(self), i as int);
                }
                let vm = vstd::std_specs::vec::vec_index_mut(&mut self.virtual_machines, i);
                vm.inject_event(event);
                if self.total_events_sent < usize::MAX {
                    self.total_events_sent = self.total_events_sent + 1;
                }
                proof {
                    let vs = self.spec_vms();
                    let ovs = old(self).spec_vms();
                    assert(vs =~= ovs.update(i as int, vs[i as int]));
                    assert(vs[i as int].spec_name() == target@);
                    assert forall|a: int, b: int| 0 <= a < b < vs.len() implies (
                    #[trigger] vs[a]).spec_name() != (#[trigger] vs[b]).spec_name() by {
                        assert(ovs[a].spec_name() != ovs[b].spec_name());
                    }
                    assert forall|k: int| 0 <= k < vs.len() implies (#[trigger] vs[k]).wf() by {
                        if k != i as int {
                            assert(vs[k] == ovs[k]);
                        }
                    }
                    lemma_vm_lookup_at(self, i as int);
                    assert forall|m: Seq<char>| m != target@ implies #[trigger] self.spec_lookup(m)
                        == old(self).spec_lookup(m) by {
                        lemma_vm_lookup_agree(self, old(self), m);
                    }
                }
                return Ok(());
            }
            i = i + 1;
        }
        Err(SimulationError::UnknownMachine)
    }

    /// The run's counters.
    pub fn get_statistics(&self) -> (r: SimulationStatistics)
        ensures
            r.total_events_sent as int == self.spec_events_sent(),
            r.virtual_machine_count == self.spec_vms().len(),
    {
        SimulationStatistics {
            total_events_sent: self.total_events_sent,
            virtual_machine_count: self.virtual_machines.len(),
        }
    }
}

fn clamp_i32(v: i32, hi: u32) -> (r: i32)
    requires
        hi <= i32::MAX,
    ensures
        r as int == spec_clamp(v as int, hi as int),
{
    if v < 0 {
        0
    } else if (v as i64) > (hi as i64) {
        hi as i32
    } else {
        v
    }
}

/// With unique names, the machine at a matching index is what the lookup
/// denotes.
proof fn lemma_vm_lookup_at(s: &SimulationMode, i: int)
    requires
        0 <= i < s.spec_vms().len(),
        forall|a: int, b: int|
            0 <= a < b < s.spec_vms().len() ==> (#[trigger] s.spec_vms()[a]).spec_name() != (
            #[trigger] s.spec_vms()[b]).spec_name(),
    ensures
        s.spec_lookup(s.spec_vms()[i].spec_name()) == Some(s.spec_vms()[i]),
{
    let vs = s.spec_vms();
    let m = vs[i].spec_name();
    assert(s.spec_has_vm(m));
    let k = choose|k: int|
        0 <= k < s.spec_vms().len() && (#[trigger] s.spec_vms()[k]).spec_name() == m;
    if k < i {
        assert(vs[k].spec_name() != vs[i].spec_name());
    } else if i < k {
        assert(vs[i].spec_name() != vs[k].spec_name());
    }
}

/// Two simulations that agree on every machine named `m` denote the same
/// machine for `m`.
proof fn lemma_vm_lookup_agree(a: &SimulationMode, b: &SimulationMode, m: Seq<char>)
    requires
        forall|i: int, j: int|
            0 <= i < j < a.spec_vms().len() ==> (#[trigger] a.spec_vms()[i]).spec_name() != (
            #[trigger] a.spec_vms()[j]).spec_name(),
        forall|i: int, j: int|
            0 <= i < j < b.spec_vms().len() ==> (#[trigger] b.spec_vms()[i]).spec_name() != (
            #[trigger] b.spec_vms()[j]).spec_name(),
        forall|k: int|
            0 <= k < a.spec_vms().len() && (#[trigger] a.spec_vms()[k]).spec_name() == m ==> 0 <= k
                < b.spec_vms().len() && b.spec_vms()[k] == a.spec_vms()[k],
        forall|k: int|
            0 <= k < b.spec_vms().len() && (#[trigger] b.spec_vms()[k]).spec_name() == m ==> 0 <= k
                < a.spec_vms().len() && a.spec_vms()[k] == b.spec_vms()[k],
    ensures
        a.spec_lookup(m) == b.spec_lookup(m),
{
    if a.spec_has_vm(m) {
        let ka = choose|k: int|
            0 <= k < a.spec_vms().len() && (#[trigger] a.spec_vms()[k]).spec_name() == m;
        assert(b.spec_vms()[ka] == a.spec_vms()[ka]);
        assert(b.spec_has_vm(m));
    }
    if b.spec_has_vm(m) {
        let kb = choose|k: int|
            0 <= k < b.spec_vms().len() && (#[trigger] b.spec_vms()[k]).spec_name() == m;
        assert(a.spec_vms()[kb] == b.spec_vms()[kb]);
        assert(a.spec_has_vm(m));
    }
    if a.spec_has_vm(m) && b.spec_has_vm(m) {
        let ka = choose|k: int|
            0 <= k < a.spec_vms().len() && (#[trigger] a.spec_vms()[k]).spec_name() == m;
        let kb = choose|k: int|
            0 <= k < b.spec_vms().len() && (#[trigger] b.spec_vms()[k]).spec_name() == m;
        assert(b.spec_vms()[ka] == a.spec_vms()[ka]);
        assert(b.spec_vms()[ka].spec_name() == m);
        if ka < kb {
            assert(b.spec_vms()[ka].spec_name() != b.spec_vms()[kb].spec_name());
        } else if kb < ka {
            assert(b.spec_vms()[kb].spec_name() != b.spec_vms()[ka].spec_name());
        }
    }
}

/// A simulation with machine `i` removed denotes, for any other name,
/// the same machine as before.
proof fn lemma_vm_lookup_agree_removed(
    a: &SimulationMode,
    b: &SimulationMode,
    m: Seq<char>,
    i: int,
)
    requires
        0 <= i < b.spec_vms().len(),
        a.spec_vms() == b.spec_vms().remove(i),
        b.spec_vms()[i].spec_name() != m,
        forall|x: int, j: int|
            0 <= x < j < a.spec_vms().len() ==> (#[trigger] a.spec_vms()[x]).spec_name() != (
            #[trigger] a.spec_vms()[j]).spec_name(),
        forall|x: int, j: int|
            0 <= x < j < b.spec_vms().len() ==> (#[trigger] b.spec_vms()[x]).spec_name() != (
            #[trigger] b.spec_vms()[j]).spec_name(),
    ensures
        a.spec_lookup(m) == b.spec_lookup(m),
{
    let vs = a.spec_vms();
    let ovs = b.spec_vms();
    assert forall|k: int| 0 <= k < vs.len() implies (#[trigger] vs[k]) == (if k < i {
        ovs[k]
    } else {
        ovs[k + 1]
    }) by {}
    if a.spec_has_vm(m) {
        let ka = choose|k: int|
            0 <= k < a.spec_vms().len() && (#[trigger] a.spec_vms()[k]).spec_name() == m;
        if ka < i {
            assert(ovs[ka].spec_name() == m);
        } else {
            assert(ovs[ka + 1].spec_name() == m);
        }
        assert(b.spec_has_vm(m));
    }
    if b.spec_has_vm(m) {
        let kb = choose|k: int|
            0 <= k < b.spec_vms().len() && (#[trigger] b.spec_vms()[k]).spec_name() == m;
        assert(kb != i);
        if kb < i {
            assert(vs[kb].spec_name() == m);
        } else {
            assert(vs[kb - 1].spec_name() == m);
        }
        assert(a.spec_has_vm(m));
    }
    if a.spec_has_vm(m) && b.spec_has_vm(m) {
        let ka = choose|k: int|
            0 <= k < a.spec_vms().len() && (#[trigger] a.spec_vms()[k]).spec_name() == m;
        let kb = choose|k: int|
            0 <= k < b.spec_vms().len() && (#[trigger] b.spec_vms()[k]).spec_name() == m;
        let ka0 = if ka < i {
            ka
        } else {
            ka + 1
        };
        assert(ovs[ka0].spec_name() == m);
        if ka0 < kb {
            assert(ovs[ka0].spec_name() != ovs[kb].spec_name());
        } else if kb < ka0 {
            assert(ovs[kb].spec_name() != ovs[ka0].spec_name());
        }
        assert(ka0 == kb);
        assert(vs[ka] == ovs[kb]);
    }
}

} // verus!
