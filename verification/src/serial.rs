//! Choosing the serial ports of the robot's devices: the command-line syntax for
//! the ports, and the assignment of each connected device to the role (motor x,
//! y, z or peripherals) that its identifier claims.

use vstd::prelude::*;
use crate::text::{split_owned, split_on, views_of};

verus! {

/// Where to find the devices.
#[derive(Clone, Debug)]
pub enum SerialPorts {
    /// Simulate every device.
    Simulated,
    /// Try every available port.
    Autodiscover,
    /// Try every available port and simulate the devices that are not found.
    AutodiscoverOrSimulate,
    /// Exactly these ports.
    Ports(Vec<String>),
}

/// Whether two texts are equal.
pub fn str_eq(a: &str, b: &str) -> (r: bool)
    ensures
        r == (a@ == b@),
{
    let n = a.unicode_len();
    if n != b.unicode_len() {
        return false;
    }
    let mut i: usize = 0;
    while i < n
        invariant
            n == a@.len(),
            n == b@.len(),
            i <= n,
            forall|j: int| 0 <= j < i ==> a@[j] == b@[j],
        decreases n - i,
    {
        if a.get_char(i) != b.get_char(i) {
            return false;
        }
        i = i + 1;
    }
    assert(a@ =~= b@);
    true
}

impl SerialPorts {
    /// Reads the `--ports` argument: `simulated`, `auto`, `autosimulated`, or a
    /// comma-separated list of port names. Every text is accepted.
    pub fn parse(s: &str) -> (r: Result<SerialPorts, String>)
        ensures
            r matches Ok(p) && (if s@ == "simulated"@ {
                p is Simulated
            } else if s@ == "auto"@ {
                p is Autodiscover
            } else if s@ == "autosimulated"@ {
                p is AutodiscoverOrSimulate
            } else {
                p matches SerialPorts::Ports(v) && views_of(v@) == split_on(s@, ',')
            }),
    {
        if str_eq(s, "simulated") {
            Ok(SerialPorts::Simulated)
        } else if str_eq(s, "auto") {
            Ok(SerialPorts::Autodiscover)
        } else if str_eq(s, "autosimulated") {
            Ok(SerialPorts::AutodiscoverOrSimulate)
        } else {
            Ok(SerialPorts::Ports(split_owned(s, ',')))
        }
    }
}

/// Name and version that a device reports about itself.
#[derive(Clone, Copy, Debug)]
pub struct DeviceIdentifier {
    pub name: [u8; 10],
    pub version: u8,
}

impl DeviceIdentifier {
    /// Whether the device claims a capability, that is whether the capability's
    /// letter appears in its name.
    pub fn handles(&self, capability: u8) -> (r: bool)
        ensures
            r == self.name@.contains(capability),
    {
        let mut i: usize = 0;
        while i < 10
            invariant
                i <= 10,
                self.name@.len() == 10,
                forall|j: int| 0 <= j < i ==> self.name@[j] != capability,
            decreases 10 - i,
        {
            if self.name[i] == capability {
                assert(self.name@[i as int] == capability);
                return true;
            }
            i = i + 1;
        }
        false
    }
}

/// The letters of the four roles: motor x, motor y, motor z and peripherals.
pub open spec fn role_letter(role: int) -> u8 {
    if role == 0 {
        'x' as u8
    } else if role == 1 {
        'y' as u8
    } else if role == 2 {
        'z' as u8
    } else {
        'p' as u8
    }
}

/// For each role, the index of the opened port whose device took it, if any.
pub struct MastersOpt {
    pub x: Option<usize>,
    pub y: Option<usize>,
    pub z: Option<usize>,
    pub peripherals: Option<usize>,
}

impl MastersOpt {
    pub open spec fn role(&self, role: int) -> Option<usize> {
        if role == 0 {
            self.x
        } else if role == 1 {
            self.y
        } else if role == 2 {
            self.z
        } else {
            self.peripherals
        }
    }

    /// No role taken yet.
    pub fn new() -> (r: Self)
        ensures
            forall|k: int| 0 <= k < 4 ==> r.role(k) is None,
    {
        MastersOpt { x: None, y: None, z: None, peripherals: None }
    }

    fn take_role(slot: &mut Option<usize>, capability: u8, port: usize, id: &DeviceIdentifier) -> (r:
        Result<(), u8>)
        ensures
            id.name@.contains(capability) && old(slot).is_some() ==> r == Err::<(), u8>(capability)
                && *final(slot) == *old(slot),
            id.name@.contains(capability) && old(slot).is_none() ==> r == Ok::<(), u8>(()) && *final(slot) == Some(
                port,
            ),
            !id.name@.contains(capability) ==> r == Ok::<(), u8>(()) && *final(slot) == *old(slot),
    {
        if id.handles(capability) {
            if slot.is_some() {
                return Err(capability);
            }
            *slot = Some(port);
        }
        Ok(())
    }

    /// The letter of the first role, in the order x, y, z, peripherals, that
    /// `id` claims but another device already took.
    pub open spec fn first_conflict(&self, id: &DeviceIdentifier) -> Option<u8> {
        if id.name@.contains(role_letter(0)) && self.x is Some {
            Some(role_letter(0))
        } else if id.name@.contains(role_letter(1)) && self.y is Some {
            Some(role_letter(1))
        } else if id.name@.contains(role_letter(2)) && self.z is Some {
            Some(role_letter(2))
        } else if id.name@.contains(role_letter(3)) && self.peripherals is Some {
            Some(role_letter(3))
        } else {
            None
        }
    }

    /// The roles after the device on port `port` took every role it claims.
    pub open spec fn with_claims(&self, id: &DeviceIdentifier, port: usize) -> MastersOpt {
        MastersOpt {
            x: if id.name@.contains(role_letter(0)) {
                Some(port)
            } else {
                self.x
            },
            y: if id.name@.contains(role_letter(1)) {
                Some(port)
            } else {
                self.y
            },
            z: if id.name@.contains(role_letter(2)) {
                Some(port)
            } else {
                self.z
            },
            peripherals: if id.name@.contains(role_letter(3)) {
                Some(port)
            } else {
                self.peripherals
            },
        }
    }

    /// The letter of the first role, in the order x, y, z, peripherals, that no
    /// device took.
    pub open spec fn first_missing(&self) -> Option<u8> {
        if self.x is None {
            Some(role_letter(0))
        } else if self.y is None {
            Some(role_letter(1))
        } else if self.z is None {
            Some(role_letter(2))
        } else if self.peripherals is None {
            Some(role_letter(3))
        } else {
            None
        }
    }

    /// Gives the device on port `port` every role it claims, in the order x, y,
    /// z, peripherals. A claim on a role that another device already took is an
    /// error that names the role's letter.
    pub fn assign(&mut self, port: usize, id: &DeviceIdentifier) -> (r: Result<(), u8>)
        ensures
            r == (match old(self).first_conflict(id) {
                Some(c) => Err::<(), u8>(c),
                None => Ok(()),
            }),
            r is Ok ==> *final(self) == old(self).with_claims(id, port),
    {
        let r0 = Self::take_role(&mut self.x, 'x' as u8, port, id);
        if r0.is_err() {
            return r0;
        }
        let r1 = Self::take_role(&mut self.y, 'y' as u8, port, id);
        if r1.is_err() {
            return r1;
        }
        let r2 = Self::take_role(&mut self.z, 'z' as u8, port, id);
        if r2.is_err() {
            return r2;
        }
        Self::take_role(&mut self.peripherals, 'p' as u8, port, id)
    }

    /// The letter of the first role, in the order x, y, z, peripherals, that no
    /// device took.
    pub fn missing_role(&self) -> (r: Option<u8>)
        ensures
            r == self.first_missing(),
    {
        if self.x.is_none() {
            Some('x' as u8)
        } else if self.y.is_none() {
            Some('y' as u8)
        } else if self.z.is_none() {
            Some('z' as u8)
        } else if self.peripherals.is_none() {
            Some('p' as u8)
        } else {
            None
        }
    }

    /// Whether no role at all was taken by a real device, so that every device
    /// would be simulated.
    pub fn all_missing(&self) -> (r: bool)
        ensures
            r == forall|k: int| 0 <= k < 4 ==> self.role(k) is None,
    {
        let r = self.x.is_none() && self.y.is_none() && self.z.is_none()
            && self.peripherals.is_none();
        if !r {
            if self.x.is_some() {
                assert(self.role(0) is Some);
            } else if self.y.is_some() {
                assert(self.role(1) is Some);
            } else if self.z.is_some() {
                assert(self.role(2) is Some);
            } else {
                assert(self.role(3) is Some);
            }
        }
        r
    }
}

/// Each role is taken by the letter of its own name: a device whose name holds
/// `x` becomes motor x, `y` motor y, `z` motor z and `p` the peripherals; roles
/// whose letter it does not hold keep their device. A claim is refused exactly
/// when some role whose letter the device holds is already taken, and the error
/// names such a letter, the first in the order x, y, z, p.
pub proof fn lemma_roles_follow_letters(m: MastersOpt, id: DeviceIdentifier, port: usize)
    ensures
        m.with_claims(&id, port).x == (if id.name@.contains(120u8) {
            Some(port)
        } else {
            m.x
        }),
        m.with_claims(&id, port).y == (if id.name@.contains(121u8) {
            Some(port)
        } else {
            m.y
        }),
        m.with_claims(&id, port).z == (if id.name@.contains(122u8) {
            Some(port)
        } else {
            m.z
        }),
        m.with_claims(&id, port).peripherals == (if id.name@.contains(112u8) {
            Some(port)
        } else {
            m.peripherals
        }),
        m.first_conflict(&id) is None <==> !((id.name@.contains(120u8) && m.x is Some) || (
        id.name@.contains(121u8) && m.y is Some) || (id.name@.contains(122u8) && m.z is Some) || (
        id.name@.contains(112u8) && m.peripherals is Some)),
        m.first_conflict(&id) == Some(120u8) <==> id.name@.contains(120u8) && m.x is Some,
        m.first_conflict(&id) matches Some(c) ==> id.name@.contains(c),
        m.first_conflict(&id) == Some(121u8) ==> m.y is Some,
        m.first_conflict(&id) == Some(122u8) ==> m.z is Some,
        m.first_conflict(&id) == Some(112u8) ==> m.peripherals is Some,
{
}

} // verus!
