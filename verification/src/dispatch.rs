//! Request dispatcher decisions: what to do with one datagram that
//! arrives on the well-known port.
//!
//! A datagram that does not parse to a request is dropped without a
//! reply, since no session exists to answer into.  A valid request
//! either acquires its registry handle and starts a session, or is
//! refused with an error packet for the source address.  The socket
//! work around these decisions lives with the caller.
use vstd::prelude::*;

use crate::decode::AccessType;
use crate::decode::Error as DecodeError;
use crate::decode::ErrorV as DecodeErrorV;
use crate::decode::Packet;
use crate::decode::PacketV;
use crate::decode::server_item_spec;
use crate::registry::Error as RegistryError;
use crate::registry::FileRegistry;
use crate::registry::LockState;
use crate::registry::ReadFile;
use crate::registry::WriteFile;

verus! {

/// The error-packet code with which a busy or poisoned file is
/// refused: the protocol's access-violation code.
pub const LOCK_REFUSAL_CODE: u16 = 2;

/// What the dispatcher decides for one datagram.
pub enum DispatchOutcome {
    /// Not a parseable request: log and drop, no reply.
    Ignore(DecodeError),
    /// Start a read-direction session holding this handle.
    StartRead(ReadFile),
    /// Start a write-direction session holding this handle.
    StartWrite(WriteFile),
    /// Refuse the request: send this error packet to the source
    /// address and do nothing further.
    Reject(Packet),
}

/// Ghost image of a `DispatchOutcome`; handles stand for the filename
/// they grant access to.
#[verifier::ext_equal]
pub enum DispatchOutcomeV {
    Ignore(DecodeErrorV),
    StartRead(Seq<char>),
    StartWrite(Seq<char>),
    Reject(PacketV),
}

impl View for DispatchOutcome {
    type V = DispatchOutcomeV;

    open spec fn view(&self) -> DispatchOutcomeV {
        match self {
            DispatchOutcome::Ignore(e) => DispatchOutcomeV::Ignore(e@),
            DispatchOutcome::StartRead(h) => DispatchOutcomeV::StartRead(h@),
            DispatchOutcome::StartWrite(h) => DispatchOutcomeV::StartWrite(h@),
            DispatchOutcome::Reject(p) => DispatchOutcomeV::Reject(p@),
        }
    }
}

/// The message with which each registry refusal is reported.
pub open spec fn registry_error_message(e: RegistryError) -> Seq<char> {
    match e {
        RegistryError::Poisoned => "file lock poisoned"@,
        RegistryError::WriteLocked => "file is already write locked"@,
        RegistryError::ReadOrWriteLocked => "file is already read or write locked"@,
    }
}

/// The error packet with which a registry refusal is answered.
pub open spec fn lock_refusal(e: RegistryError) -> PacketV {
    PacketV::ErrorPacket { code: LOCK_REFUSAL_CODE, message: registry_error_message(e) }
}

/// Builds the error packet that reports a registry refusal.
fn lock_refusal_packet(e: RegistryError) -> (p: Packet)
    ensures
        p@ == lock_refusal(e),
{
    let message = match e {
        RegistryError::Poisoned => "file lock poisoned".to_owned(),
        RegistryError::WriteLocked => "file is already write locked".to_owned(),
        RegistryError::ReadOrWriteLocked => "file is already read or write locked".to_owned(),
    };
    Packet::ErrorPacket { code: LOCK_REFUSAL_CODE, message }
}

/// Decides one datagram from the well-known port: drops what is no
/// request, acquires the registry handle a valid request names, and
/// refuses a busy or poisoned file with an error packet.  Only the
/// requested name's lock can change, and only on success.
pub fn dispatch(registry: &mut FileRegistry, datagram: &[u8]) -> (r: DispatchOutcome)
    ensures
        (match server_item_spec(datagram@) {
            Err(e) => r@ == DispatchOutcomeV::Ignore(e) && (forall|n: Seq<char>|
                final(registry).lock_of(n) == old(registry).lock_of(n)),
            Ok(q) => {
                let st = old(registry).lock_of(q.filename);
                &&& (forall|n: Seq<char>|
                    n != q.filename ==> final(registry).lock_of(n) == old(registry).lock_of(n))
                &&& (if q.access == AccessType::Read {
                    match st {
                        LockState::Unlocked => r@ == DispatchOutcomeV::StartRead(q.filename)
                            && final(registry).lock_of(q.filename) == LockState::Readers(1),
                        LockState::Readers(k) => if k < usize::MAX {
                            r@ == DispatchOutcomeV::StartRead(q.filename) && final(registry).lock_of(q.filename) == LockState::Readers((k + 1) as usize)
                        } else {
                            r@ == DispatchOutcomeV::Reject(
                                lock_refusal(RegistryError::ReadOrWriteLocked),
                            ) && final(registry).lock_of(q.filename) == st
                        },
                        LockState::Writer => r@ == DispatchOutcomeV::Reject(
                            lock_refusal(RegistryError::WriteLocked),
                        ) && final(registry).lock_of(q.filename) == st,
                        LockState::Poisoned => r@ == DispatchOutcomeV::Reject(
                            lock_refusal(RegistryError::Poisoned),
                        ) && final(registry).lock_of(q.filename) == st,
                    }
                } else {
                    match st {
                        LockState::Unlocked => r@ == DispatchOutcomeV::StartWrite(q.filename)
                            && final(registry).lock_of(q.filename) == LockState::Writer,
                        LockState::Readers(k) => r@ == DispatchOutcomeV::Reject(
                            lock_refusal(RegistryError::ReadOrWriteLocked),
                        ) && final(registry).lock_of(q.filename) == st,
                        LockState::Writer => r@ == DispatchOutcomeV::Reject(
                            lock_refusal(RegistryError::ReadOrWriteLocked),
                        ) && final(registry).lock_of(q.filename) == st,
                        LockState::Poisoned => r@ == DispatchOutcomeV::Reject(
                            lock_refusal(RegistryError::Poisoned),
                        ) && final(registry).lock_of(q.filename) == st,
                    }
                })
            },
        }),
{
    let request = match Packet::from_bytes(datagram) {
        Err(e) => {
            return DispatchOutcome::Ignore(e);
        },
        Ok(p) => match p.into_request() {
            Err(e) => {
                return DispatchOutcome::Ignore(e);
            },
            Ok(q) => q,
        },
    };
    match request.access_type() {
        AccessType::Read => match registry.read_file(request.filename()) {
            Ok(h) => DispatchOutcome::StartRead(h),
            Err(e) => DispatchOutcome::Reject(lock_refusal_packet(e)),
        },
        AccessType::Write => match registry.write_file(request.filename()) {
            Ok(h) => DispatchOutcome::StartWrite(h),
            Err(e) => DispatchOutcome::Reject(lock_refusal_packet(e)),
        },
    }
}

} // verus!
