//! The emulator's scene: a fixed pool of device slots, and the routing of RF
//! frames from one device to all the others.
use vstd::prelude::*;

verus! {

/// Number of device slots.
pub const MAX_DEVICES: usize = 2;

/// Why a device could not join the scene.
#[derive(PartialEq, Eq, Structural, Clone, Copy, Debug)]
pub enum SceneError {
    /// Every slot is taken.
    MaxConnectionsReached,
}

/// Devices by slot. `D` is the driver's handle on a device.
pub struct Scene<D> {
    devices: Vec<Option<D>>,
}

impl<D> Scene<D> {
    /// Device slots, by ID.
    pub closed spec fn slots(&self) -> Seq<Option<D>> {
        self.devices@
    }

    pub open spec fn wf(&self) -> bool {
        self.slots().len() == MAX_DEVICES
    }

    /// A scene with every slot free.
    pub fn new() -> (r: Self)
        ensures
            r.wf(),
            forall|i: int| 0 <= i < MAX_DEVICES ==> (#[trigger] r.slots()[i]).is_none(),
    {
        let mut devices: Vec<Option<D>> = Vec::new();
        let mut i: usize = 0;
        while i < MAX_DEVICES
            invariant
                i <= MAX_DEVICES,
                devices@.len() == i,
                forall|j: int| 0 <= j < i ==> (#[trigger] devices@[j]).is_none(),
            decreases MAX_DEVICES - i,
        {
            devices.push(None);
            i = i + 1;
        }
        Scene { devices }
    }

    /// The lowest free slot, if any: the ID the next device will get.
    pub fn first_free(&self) -> (r: Option<usize>)
        requires
            self.wf(),
        ensures
            match r {
                Some(id) => id < MAX_DEVICES && self.slots()[id as int].is_none() && forall|j: int|
                    0 <= j < id ==> (#[trigger] self.slots()[j]).is_some(),
                None => forall|j: int| 0 <= j < MAX_DEVICES ==> (#[trigger] self.slots()[j]).is_some(),
            },
    {
        let mut id: usize = 0;
        while id < MAX_DEVICES
            invariant
                self.wf(),
                id <= MAX_DEVICES,
                forall|j: int| 0 <= j < id ==> (#[trigger] self.slots()[j]).is_some(),
            decreases MAX_DEVICES - id,
        {
            if self.devices[id].is_none() {
                return Some(id);
            }
            id = id + 1;
        }
        None
    }

    /// Puts a device in the lowest free slot and returns that slot's ID.
    pub fn add_device(&mut self, device: D) -> (r: Result<usize, SceneError>)
        requires
            old(self).wf(),
        ensures
            final(self).wf(),
            match r {
                Ok(id) => {
                    &&& id < MAX_DEVICES
                    &&& old(self).slots()[id as int].is_none()
                    &&& forall|j: int| 0 <= j < id ==> (#[trigger] old(self).slots()[j]).is_some()
                    &&& final(self).slots() == old(self).slots().update(id as int, Some(device))
                },
                Err(e) => {
                    &&& e == SceneError::MaxConnectionsReached
                    &&& forall|j: int| 0 <= j < MAX_DEVICES ==> (#[trigger] old(self).slots()[j]).is_some()
                    &&& final(self).slots() == old(self).slots()
                },
            },
    {
        let mut id: usize = 0;
        while id < MAX_DEVICES
            invariant
                self.wf(),
                self.slots() == old(self).slots(),
                id <= MAX_DEVICES,
                forall|j: int| 0 <= j < id ==> (#[trigger] old(self).slots()[j]).is_some(),
            decreases MAX_DEVICES - id,
        {
            if self.devices[id].is_none() {
                self.devices.set(id, Some(device));
                return Ok(id);
            }
            id = id + 1;
        }
        Err(SceneError::MaxConnectionsReached)
    }

    /// Frees a slot, as when its device's task ends. Returns the device.
    pub fn remove_device(&mut self, id: usize) -> (r: Option<D>)
        requires
            old(self).wf(),
        ensures
            final(self).wf(),
            id < MAX_DEVICES ==> r == old(self).slots()[id as int] && final(self).slots() == old(
                self,
            ).slots().update(id as int, None),
            id >= MAX_DEVICES ==> r.is_none() && final(self).slots() == old(self).slots(),
    {
        if id >= MAX_DEVICES {
            return None;
        }
        let mut out: Option<D> = None;
        let mut slot = self.devices.remove(id);
        std::mem::swap(&mut out, &mut slot);
        self.devices.insert(id, slot);
        assert(self.devices@ =~= old(self).slots().update(id as int, None));
        out
    }

    /// Puts a device back in slot `id`, which must be free, as after it was
    /// taken out with `remove_device` to be polled.
    pub fn put_device(&mut self, id: usize, device: D)
        requires
            old(self).wf(),
            id < MAX_DEVICES,
            old(self).slots()[id as int].is_none(),
        ensures
            final(self).wf(),
            final(self).slots() == old(self).slots().update(id as int, Some(device)),
    {
        self.devices.set(id, Some(device));
    }

    /// The device in slot `id`, if any.
    pub fn device(&self, id: usize) -> (r: Option<&D>)
        requires
            self.wf(),
        ensures
            id < MAX_DEVICES && self.slots()[id as int].is_some() ==> r == Some(
                &self.slots()[id as int].unwrap(),
            ),
            !(id < MAX_DEVICES && self.slots()[id as int].is_some()) ==> r.is_none(),
    {
        if id < MAX_DEVICES {
            match &self.devices[id] {
                Some(d) => Some(d),
                None => None,
            }
        } else {
            None
        }
    }

    /// IDs of the devices an RF frame from `sender_id` goes to: every
    /// occupied slot but the sender's, in increasing order.
    pub fn recipients(&self, sender_id: usize) -> (r: Vec<usize>)
        requires
            self.wf(),
        ensures
            r@ == Seq::new(MAX_DEVICES as nat, |i: int| i as usize).filter(
                |i: usize| i != sender_id && self.slots()[i as int].is_some(),
            ),
    {
        let ghost all = Seq::new(MAX_DEVICES as nat, |i: int| i as usize);
        let ghost pred = |i: usize| i != sender_id && self.slots()[i as int].is_some();
        let mut out: Vec<usize> = Vec::new();
        let mut id: usize = 0;
        while id < MAX_DEVICES
            invariant
                self.wf(),
                id <= MAX_DEVICES,
                all == Seq::new(MAX_DEVICES as nat, |i: int| i as usize),
                pred == (|i: usize| i != sender_id && self.slots()[i as int].is_some()),
                out@ == all.take(id as int).filter(pred),
            decreases MAX_DEVICES - id,
        {
            assert(all.take(id + 1).drop_last() =~= all.take(id as int));
            proof {
                reveal(Seq::filter);
            }
            if id != sender_id && self.devices[id].is_some() {
                out.push(id);
            }
            id = id + 1;
        }
        assert(all.take(MAX_DEVICES as int) =~= all);
        out
    }
}

} // verus!
