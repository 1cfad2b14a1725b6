//! RISC-V CPU modules shared by the 32-bit and 64-bit cores.

use vstd::prelude::*;

pub mod decode;
pub mod fpu;
pub mod rv32;
pub mod rv64;
pub mod trap;

verus! {

/// Privilege levels (shared across architectures).
#[derive(Clone, Copy, PartialEq, Eq, Structural, Debug)]
pub enum PrivilegeLevel {
    User,
    Supervisor,
    Machine,
}

/// The architectural encoding of a privilege level (User 0, Supervisor 1, Machine 3).
pub open spec fn priv_encoding(p: PrivilegeLevel) -> u32 {
    match p {
        PrivilegeLevel::User => 0,
        PrivilegeLevel::Supervisor => 1,
        PrivilegeLevel::Machine => 3,
    }
}

/// The privilege level that the two low bits of `val` encode (the reserved value 2 reads as Machine).
pub open spec fn priv_from_bits(val: u32) -> PrivilegeLevel {
    let v = val % 4;
    if v == 0 {
        PrivilegeLevel::User
    } else if v == 1 {
        PrivilegeLevel::Supervisor
    } else {
        PrivilegeLevel::Machine
    }
}

impl PrivilegeLevel {
    /// Decodes the two low bits of `val` as a privilege level.
    pub fn from_u8(val: u8) -> (r: PrivilegeLevel)
        ensures
            r == priv_from_bits(val as u32),
    {
        let v = val % 4;
        if v == 0 {
            PrivilegeLevel::User
        } else if v == 1 {
            PrivilegeLevel::Supervisor
        } else {
            PrivilegeLevel::Machine
        }
    }

    /// The architectural encoding of this privilege level.
    pub fn bits(self) -> (r: u32)
        ensures
            r == priv_encoding(self),
            r <= 3,
    {
        match self {
            PrivilegeLevel::User => 0,
            PrivilegeLevel::Supervisor => 1,
            PrivilegeLevel::Machine => 3,
        }
    }
}

/// Decoding the encoding of a level gives the level back.
pub proof fn lemma_priv_round_trip(p: PrivilegeLevel)
    ensures
        priv_from_bits(priv_encoding(p)) == p,
{
}

} // verus!
