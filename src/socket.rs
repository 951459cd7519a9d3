//! The decisions of opening a broadcast manager socket: which system call
//! comes next, and what its result means. The calls themselves are made by
//! the caller, which hands each result back.

use vstd::prelude::*;
use crate::layout::Layout;
use crate::msg::zeros;
use crate::ops::BcmError;
use crate::word::{push_word, word_bytes};

verus! {

/// Address family of CAN sockets.
pub const AF_CAN: u16 = 29;
/// Protocol family of CAN sockets.
pub const PF_CAN: i32 = 29;
/// The broadcast manager protocol of the CAN family.
pub const CAN_BCM: i32 = 2;
/// Size of the CAN socket address.
pub const CAN_ADDR_SIZE: usize = 16;

/// The bytes of the CAN socket address that binds to interface `if_index`:
/// the family, two bytes of padding, the interface index, and the two
/// identifier fields, which this protocol leaves zero.
pub open spec fn can_addr_bytes(if_index: u32, le: bool) -> Seq<u8> {
    word_bytes(AF_CAN as nat, 2, le) + zeros(2) + word_bytes(if_index as nat, 4, le) + zeros(8)
}

/// The address to connect a broadcast manager socket to interface `if_index`.
pub fn can_addr(if_index: u32, layout: &Layout) -> (r: Vec<u8>)
    ensures
        r@ == can_addr_bytes(if_index, layout.little_endian),
{
    let le = layout.little_endian;
    let mut v: Vec<u8> = Vec::new();
    push_word(&mut v, AF_CAN as u64, 2, le);
    v.push(0u8);
    v.push(0u8);
    push_word(&mut v, if_index as u64, 4, le);
    push_word(&mut v, 0, 4, le);
    push_word(&mut v, 0, 4, le);
    proof {
        reveal_with_fuel(word_bytes, 5);
    }
    assert(v@ =~= can_addr_bytes(if_index, le));
    v
}

/// Where an open stands. Each step names the system call that comes next.
#[derive(Clone, Copy, Debug, PartialEq, Eq)]
pub enum OpenState {
    /// the socket is to be created
    Start,
    /// the socket `fd` exists and is to be made non-blocking
    Created(i32),
    /// the socket `fd` is non-blocking and is to be connected
    NonBlocking(i32),
    /// the socket `fd` is open and connected
    Opened(i32),
    /// a step failed with `errno`; `fd` is the socket to release, if one was made
    Failed { errno: i32, fd: Option<i32> },
}

impl OpenState {
    /// The state after the pending system call returned `rv`, with `errno`
    /// the system error at that moment. Socket creation fails on a negative
    /// result, the non-blocking flag on -1, the connect on anything but 0.
    pub fn step(self, rv: i32, errno: i32) -> (r: OpenState)
        ensures
            match self {
                OpenState::Start => r == if rv < 0 {
                    OpenState::Failed { errno, fd: None }
                } else {
                    OpenState::Created(rv)
                },
                OpenState::Created(fd) => r == if rv == -1 {
                    OpenState::Failed { errno, fd: Some(fd) }
                } else {
                    OpenState::NonBlocking(fd)
                },
                OpenState::NonBlocking(fd) => r == if rv != 0 {
                    OpenState::Failed { errno, fd: Some(fd) }
                } else {
                    OpenState::Opened(fd)
                },
                _ => r == self,
            },
    {
        match self {
            OpenState::Start => if rv < 0 {
                OpenState::Failed { errno, fd: None }
            } else {
                OpenState::Created(rv)
            },
            OpenState::Created(fd) => if rv == -1 {
                OpenState::Failed { errno, fd: Some(fd) }
            } else {
                OpenState::NonBlocking(fd)
            },
            OpenState::NonBlocking(fd) => if rv != 0 {
                OpenState::Failed { errno, fd: Some(fd) }
            } else {
                OpenState::Opened(fd)
            },
            _ => self,
        }
    }

    /// The outcome of the open once no call is pending: the connected socket,
    /// or the error of the step that failed.
    pub fn outcome(self) -> (r: Option<Result<i32, BcmError>>)
        ensures
            match self {
                OpenState::Opened(fd) => r == Some(Ok::<i32, BcmError>(fd)),
                OpenState::Failed { errno, .. } => r == Some(Err::<i32, BcmError>(BcmError::Open(errno))),
                _ => r is None,
            },
    {
        match self {
            OpenState::Opened(fd) => Some(Ok(fd)),
            OpenState::Failed { errno, .. } => Some(Err(BcmError::Open(errno))),
            _ => None,
        }
    }
}

} // verus!
