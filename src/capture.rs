//! The capture worker's decisions. The worker owns the camera handles and
//! runs the loop; what it does with each command, and which devices it reads
//! from, is decided here over a registry of device ids and their open state.
use vstd::prelude::*;

verus! {

/// A command sent to the capture worker.
#[derive(Clone, Copy, Debug, PartialEq, Eq, Structural)]
pub enum Command {
    /// A device handle for this id is handed over, closed.
    Register(i32),
    /// Start reading frames from this device.
    Open(i32),
    /// Stop reading frames from this device.
    Close(i32),
    /// End the worker's loop.
    Shutdown,
}

/// What the worker does with the device handles after a command.
#[derive(Clone, Copy, Debug, PartialEq, Eq, Structural)]
pub enum Action {
    /// Nothing to do.
    Idle,
    /// Keep the handed-over handle under this id, replacing any earlier one.
    Store(i32),
    /// Try to open the device; report the outcome with `opened`.
    TryOpen(i32),
    /// Release the device.
    Release(i32),
    /// Leave the loop.
    Stop,
}

/// A registered device and whether it is open.
#[derive(Clone, Copy, Debug, PartialEq, Eq, Structural)]
pub struct Slot {
    pub id: i32,
    pub open: bool,
}

/// The registered devices, each id once.
#[derive(Clone, Debug)]
pub struct Registry {
    slots: Vec<Slot>,
}

/// The registry as a map from device id to its open state.
pub open spec fn slots_map(s: Seq<Slot>) -> Map<i32, bool> {
    Map::new(
        |id: i32| exists|k: int| 0 <= k < s.len() && s[k].id == id,
        |id: i32| exists|k: int| 0 <= k < s.len() && s[k].id == id && s[k].open,
    )
}

/// The registry after command `c`, and what the worker does.
pub open spec fn apply(m: Map<i32, bool>, c: Command) -> (Map<i32, bool>, Action) {
    match c {
        Command::Register(id) => (m.insert(id, false), Action::Store(id)),
        Command::Open(id) => if m.contains_key(id) && !m[id] {
            (m, Action::TryOpen(id))
        } else {
            (m, Action::Idle)
        },
        Command::Close(id) => if m.contains_key(id) {
            (m.insert(id, false), Action::Release(id))
        } else {
            (m, Action::Idle)
        },
        Command::Shutdown => (m, Action::Stop),
    }
}

/// The registry after an attempt to open device `id` came back `ok`.
pub open spec fn after_open(m: Map<i32, bool>, id: i32, ok: bool) -> Map<i32, bool> {
    if m.contains_key(id) && ok {
        m.insert(id, true)
    } else {
        m
    }
}

/// The registry after a run of commands, whatever the open attempts gave.
pub open spec fn run(m: Map<i32, bool>, cs: Seq<Command>, outcomes: Seq<bool>) -> Map<i32, bool>
    decreases cs.len(),
{
    if cs.len() == 0 {
        m
    } else {
        let (m1, a) = apply(m, cs[0]);
        let m2 = match a {
            Action::TryOpen(id) => after_open(m1, id, outcomes.len() > 0 && outcomes[0]),
            _ => m1,
        };
        run(m2, cs.subrange(1, cs.len() as int), outcomes.subrange(1, outcomes.len() as int))
    }
}

/// Whether the worker reads frames from device `id`.
pub open spec fn is_polled(m: Map<i32, bool>, id: i32) -> bool {
    m.contains_key(id) && m[id]
}

impl Registry {
    pub closed spec fn view(&self) -> Map<i32, bool> {
        slots_map(self.slots@)
    }

    /// No id is registered twice.
    pub closed spec fn wf(&self) -> bool {
        forall|a: int, b: int|
            0 <= a < self.slots@.len() && 0 <= b < self.slots@.len() && a != b
                ==> self.slots@[a].id != self.slots@[b].id
    }

    pub fn new() -> (r: Registry)
        ensures
            r.wf(),
            r@ == Map::<i32, bool>::empty(),
    {
        let r = Registry { slots: Vec::new() };
        assert(r@ =~= Map::<i32, bool>::empty());
        r
    }

    fn find(&self, id: i32) -> (r: Option<usize>)
        ensures
            r matches Some(k) ==> k < self.slots@.len() && self.slots@[k as int].id == id,
            r is None ==> forall|k: int| 0 <= k < self.slots@.len() ==> self.slots@[k].id != id,
    {
        let mut k: usize = 0;
        while k < self.slots.len()
            invariant
                k <= self.slots@.len(),
                forall|j: int| 0 <= j < k ==> self.slots@[j].id != id,
            decreases self.slots@.len() - k,
        {
            if self.slots[k].id == id {
                return Some(k);
            }
            k = k + 1;
        }
        None
    }

    /// Gives slot `k` the open state `open`.
    fn set_open(&mut self, k: usize, open: bool)
        requires
            old(self).wf(),
            k < old(self).slots@.len(),
        ensures
            final(self).wf(),
            final(self)@ == old(self)@.insert(old(self).slots@[k as int].id, open),
            final(self).slots@.len() == old(self).slots@.len(),
    {
        let id = self.slots[k].id;
        let ghost before = self.slots@;
        self.slots.set(k, Slot { id, open });
        assert(self@ =~= slots_map(before).insert(id, open)) by {
            assert forall|x: i32| #[trigger] self@.contains_key(x) implies slots_map(
                before,
            ).insert(id, open).contains_key(x) by {
                let j = choose|j: int| 0 <= j < self.slots@.len() && self.slots@[j].id == x;
                assert(before[j].id == x);
            }
            assert forall|x: i32| #[trigger] slots_map(before).insert(id, open).contains_key(
                x,
            ) implies self@.contains_key(x) by {
                if x != id {
                    let j = choose|j: int| 0 <= j < before.len() && before[j].id == x;
                    assert(self.slots@[j].id == x);
                } else {
                    assert(self.slots@[k as int].id == x);
                }
            }
            assert forall|x: i32| #[trigger] self@.contains_key(x) implies self@[x] == slots_map(
                before,
            ).insert(id, open)[x] by {
                if x == id {
                    assert(self.slots@[k as int].id == x);
                } else {
                    let j = choose|j: int| 0 <= j < self.slots@.len() && self.slots@[j].id == x;
                    assert(before[j].id == x);
                    assert(self.slots@[j] == before[j]);
                }
            }
        }
    }

    /// Registers device `id`, closed.
    fn register(&mut self, id: i32)
        requires
            old(self).wf(),
        ensures
            final(self).wf(),
            final(self)@ == old(self)@.insert(id, false),
    {
        match self.find(id) {
            Some(k) => self.set_open(k, false),
            None => {
                let ghost before = self.slots@;
                self.slots.push(Slot { id, open: false });
                assert(self@ =~= slots_map(before).insert(id, false)) by {
                    assert forall|x: i32| #[trigger] self@.contains_key(x) implies slots_map(
                        before,
                    ).insert(id, false).contains_key(x) by {
                        let j = choose|j: int|
                            0 <= j < self.slots@.len() && self.slots@[j].id == x;
                        if j < before.len() {
                            assert(before[j].id == x);
                        }
                    }
                    assert forall|x: i32| #[trigger] slots_map(before).insert(
                        id,
                        false,
                    ).contains_key(x) implies self@.contains_key(x) by {
                        if x != id {
                            let j = choose|j: int| 0 <= j < before.len() && before[j].id == x;
                            assert(self.slots@[j].id == x);
                        } else {
                            assert(self.slots@[before.len() as int].id == x);
                        }
                    }
                    assert forall|x: i32| #[trigger] self@.contains_key(x) implies self@[x]
                        == slots_map(before).insert(id, false)[x] by {
                        if x == id {
                            assert(self.slots@[before.len() as int].id == x);
                        } else {
                            let j = choose|j: int|
                                0 <= j < self.slots@.len() && self.slots@[j].id == x;
                            assert(j < before.len());
                            assert(before[j].id == x);
                            assert(self.slots@[j] == before[j]);
                        }
                    }
                }
            }
        }
    }

    /// Takes one command: updates the registry and says what the worker does
    /// with the device handles.
    pub fn handle(&mut self, c: Command) -> (a: Action)
        requires
            old(self).wf(),
        ensures
            final(self).wf(),
            (final(self)@, a) == apply(old(self)@, c),
    {
        match c {
            Command::Register(id) => {
                self.register(id);
                Action::Store(id)
            },
            Command::Open(id) => match self.find(id) {
                Some(k) => {
                    if self.slots[k].open {
                        Action::Idle
                    } else {
                        Action::TryOpen(id)
                    }
                },
                None => Action::Idle,
            },
            Command::Close(id) => match self.find(id) {
                Some(k) => {
                    self.set_open(k, false);
                    Action::Release(id)
                },
                None => Action::Idle,
            },
            Command::Shutdown => Action::Stop,
        }
    }

    /// Records the outcome of an attempt to open device `id`.
    pub fn opened(&mut self, id: i32, ok: bool)
        requires
            old(self).wf(),
        ensures
            final(self).wf(),
            final(self)@ == after_open(old(self)@, id, ok),
    {
        if ok {
            match self.find(id) {
                Some(k) => self.set_open(k, true),
                None => {},
            }
        }
    }

    /// The devices to read frames from, each once.
    pub fn polled(&self) -> (r: Vec<i32>)
        requires
            self.wf(),
        ensures
            r@.no_duplicates(),
            forall|id: i32| r@.contains(id) <==> is_polled(self@, id),
    {
        let mut r: Vec<i32> = Vec::new();
        let mut k: usize = 0;
        while k < self.slots.len()
            invariant
                self.wf(),
                k <= self.slots@.len(),
                r@.no_duplicates(),
                forall|id: i32|
                    r@.contains(id) <==> exists|j: int|
                        0 <= j < k && self.slots@[j].id == id && self.slots@[j].open,
            decreases self.slots@.len() - k,
        {
            let s = self.slots[k];
            let ghost old_r = r@;
            if s.open {
                proof {
                    if r@.contains(s.id) {
                        let j = choose|j: int|
                            0 <= j < k && self.slots@[j].id == s.id && self.slots@[j].open;
                        assert(false);
                    }
                }
                r.push(s.id);
            }
            proof {
                assert forall|id: i32| r@.contains(id) implies exists|j: int|
                    0 <= j < k + 1 && self.slots@[j].id == id && self.slots@[j].open by {
                    if id == s.id && s.open {
                        assert(self.slots@[k as int].id == id);
                    } else {
                        if s.open {
                            let q = choose|q: int| 0 <= q < r@.len() && r@[q] == id;
                            assert(q < old_r.len());
                            assert(old_r[q] == id);
                        }
                        assert(old_r.contains(id));
                    }
                }
                assert forall|id: i32|
                    (exists|j: int|
                        0 <= j < k + 1 && self.slots@[j].id == id
                            && self.slots@[j].open) implies r@.contains(id) by {
                    let j = choose|j: int|
                        0 <= j < k + 1 && self.slots@[j].id == id && self.slots@[j].open;
                    if j == k {
                        assert(r@[r@.len() - 1] == id);
                    } else {
                        assert(old_r.contains(id));
                        let q = choose|q: int| 0 <= q < old_r.len() && old_r[q] == id;
                        assert(r@[q] == id);
                    }
                }
            }
            k = k + 1;
        }
        r
    }

    /// Whether a frame from device `id` is to be read and forwarded.
    pub fn is_polled(&self, id: i32) -> (r: bool)
        requires
            self.wf(),
        ensures
            r == is_polled(self@, id),
    {
        match self.find(id) {
            Some(k) => self.slots[k].open,
            None => false,
        }
    }
}

/// Opening a device id that was never registered changes nothing, asks the
/// worker for nothing, and leaves the id unread.
pub proof fn lemma_open_unregistered(m: Map<i32, bool>, id: i32)
    requires
        !m.contains_key(id),
    ensures
        apply(m, Command::Open(id)) == (m, Action::Idle),
        !is_polled(apply(m, Command::Open(id)).0, id),
{
}

/// A device id that is not registered stays unregistered, and so unread,
/// through any run of commands that does not register it, whatever the open
/// attempts give.
pub proof fn lemma_unregistered_never_polled(
    m: Map<i32, bool>,
    cs: Seq<Command>,
    outcomes: Seq<bool>,
    id: i32,
)
    requires
        !m.contains_key(id),
        forall|k: int| 0 <= k < cs.len() ==> cs[k] != Command::Register(id),
    ensures
        !run(m, cs, outcomes).contains_key(id),
        !is_polled(run(m, cs, outcomes), id),
    decreases cs.len(),
{
    if cs.len() > 0 {
        let (m1, a) = apply(m, cs[0]);
        let m2 = match a {
            Action::TryOpen(j) => after_open(m1, j, outcomes.len() > 0 && outcomes[0]),
            _ => m1,
        };
        assert(!m2.contains_key(id));
        let rest = cs.subrange(1, cs.len() as int);
        assert forall|k: int| 0 <= k < rest.len() implies rest[k] != Command::Register(id) by {
            assert(rest[k] == cs[k + 1]);
        }
        lemma_unregistered_never_polled(m2, rest, outcomes.subrange(1, outcomes.len() as int), id);
    }
}

/// Device discovery stops after this many consecutive failed probes.
pub const MAX_MISSES: u32 = 5;

/// Start-up scan for devices: ids are probed from 0 upwards until
/// `MAX_MISSES` probes in a row fail.
#[derive(Clone, Debug)]
pub struct Discovery {
    next: i32,
    misses: u32,
    exhausted: bool,
    found: Vec<i32>,
}

impl Discovery {
    pub closed spec fn next_id(&self) -> int {
        self.next as int
    }

    pub closed spec fn misses(&self) -> nat {
        self.misses as nat
    }

    pub closed spec fn exhausted(&self) -> bool {
        self.exhausted
    }

    pub closed spec fn found_ids(&self) -> Seq<i32> {
        self.found@
    }

    /// Whether the scan is over.
    pub open spec fn done(&self) -> bool {
        self.misses() >= MAX_MISSES || self.exhausted()
    }

    pub fn new() -> (r: Discovery)
        ensures
            r.next_id() == 0,
            r.misses() == 0,
            !r.exhausted(),
            r.found_ids() == Seq::<i32>::empty(),
    {
        Discovery { next: 0, misses: 0, exhausted: false, found: Vec::new() }
    }

    /// The id to probe next, or `None` once the scan is over.
    pub fn next_probe(&self) -> (r: Option<i32>)
        ensures
            r == (if self.done() {
                None
            } else {
                Some(self.next_id() as i32)
            }),
    {
        if self.misses >= MAX_MISSES || self.exhausted {
            None
        } else {
            Some(self.next)
        }
    }

    /// Records whether the device under the probed id could be opened.
    pub fn record(&mut self, ok: bool)
        requires
            !old(self).done(),
        ensures
            final(self).found_ids() == (if ok {
                old(self).found_ids().push(old(self).next_id() as i32)
            } else {
                old(self).found_ids()
            }),
            final(self).misses() == (if ok {
                0
            } else {
                old(self).misses() + 1
            }),
            old(self).next_id() < i32::MAX ==> final(self).next_id() == old(self).next_id() + 1
                && !final(self).exhausted(),
            old(self).next_id() == i32::MAX ==> final(self).exhausted(),
    {
        if ok {
            self.found.push(self.next);
            self.misses = 0;
        } else {
            self.misses = self.misses + 1;
        }
        if self.next < i32::MAX {
            self.next = self.next + 1;
        } else {
            self.exhausted = true;
        }
    }

    /// The ids whose probe succeeded, in probing order.
    pub fn found(&self) -> (r: &Vec<i32>)
        ensures
            r@ == self.found_ids(),
    {
        &self.found
    }
}

/// What the foreground asks of the worker when a frame of device `id`
/// arrives: a device other than the selected one is closed.
pub fn on_frame(selected: Option<i32>, id: i32) -> (r: Option<Command>)
    ensures
        r == (match selected {
            Some(j) => if j != id {
                Some(Command::Close(id))
            } else {
                None
            },
            None => None,
        }),
{
    match selected {
        Some(j) => if j != id {
            Some(Command::Close(id))
        } else {
            None
        },
        None => None,
    }
}

} // verus!
