use tftp::dispatch::dispatch;
use tftp::dispatch::DispatchOutcome;
use tftp::FileRegistry;
use tftp::Packet;
use tftp::RegistryError;

#[test]
fn test_write_lock_exclusion() {
    let mut reg = FileRegistry::new();
    // First acquisition of a fresh name succeeds.
    let w = reg.write_file(&String::from("a.txt")).unwrap();
    // While the writer holds the lock, readers and writers are both
    // refused with the matching error.
    assert!(matches!(
        reg.read_file(&String::from("a.txt")),
        Err(RegistryError::WriteLocked)
    ));
    assert!(matches!(
        reg.write_file(&String::from("a.txt")),
        Err(RegistryError::ReadOrWriteLocked)
    ));
    // Another name is untouched.
    let other = reg.write_file(&String::from("b.txt")).unwrap();
    reg.release_write(other);
    // After release, a new acquisition succeeds.
    reg.release_write(w);
    assert!(reg.write_file(&String::from("a.txt")).is_ok());
}

#[test]
fn test_concurrent_readers() {
    let mut reg = FileRegistry::new();
    let r1 = reg.read_file(&String::from("shared")).unwrap();
    let r2 = reg.read_file(&String::from("shared")).unwrap();
    // A writer is refused while any reader holds the lock.
    assert!(matches!(
        reg.write_file(&String::from("shared")),
        Err(RegistryError::ReadOrWriteLocked)
    ));
    reg.release_read(r1);
    assert!(matches!(
        reg.write_file(&String::from("shared")),
        Err(RegistryError::ReadOrWriteLocked)
    ));
    reg.release_read(r2);
    assert!(reg.write_file(&String::from("shared")).is_ok());
}

#[test]
fn test_poisoned_lock_is_reported() {
    let mut reg = FileRegistry::new();
    let w = reg.write_file(&String::from("p.txt")).unwrap();
    // The writer ends abnormally; the name stays poisoned.
    reg.poison_write(w);
    assert!(matches!(
        reg.read_file(&String::from("p.txt")),
        Err(RegistryError::Poisoned)
    ));
    assert!(matches!(
        reg.write_file(&String::from("p.txt")),
        Err(RegistryError::Poisoned)
    ));
}

#[test]
fn test_dispatch_accepts_then_refuses() {
    let mut reg = FileRegistry::new();
    let wrq = Packet::WriteRequest {
        filename: String::from("Foo"),
        mode: String::from("octet"),
    }
    .to_bytes();
    // The first write request takes the lock.
    let outcome = dispatch(&mut reg, &wrq);
    let handle = match outcome {
        DispatchOutcome::StartWrite(h) => h,
        _ => panic!("expected a write session to start"),
    };
    assert_eq!(handle.filename(), "Foo");
    // A second request for the same file is refused with an error
    // packet for the peer.
    match dispatch(&mut reg, &wrq) {
        DispatchOutcome::Reject(Packet::ErrorPacket { code, message }) => {
            assert_eq!(code, 2);
            assert_eq!(message, String::from("file is already read or write locked"));
        }
        _ => panic!("expected the busy file to be refused"),
    }
    // A read request against the write-locked file names the write lock.
    let rrq = Packet::ReadRequest {
        filename: String::from("Foo"),
        mode: String::from("octet"),
    }
    .to_bytes();
    match dispatch(&mut reg, &rrq) {
        DispatchOutcome::Reject(Packet::ErrorPacket { code, message }) => {
            assert_eq!(code, 2);
            assert_eq!(message, String::from("file is already write locked"));
        }
        _ => panic!("expected the busy file to be refused"),
    }
    reg.release_write(handle);
    assert!(matches!(dispatch(&mut reg, &rrq), DispatchOutcome::StartRead(_)));
}

#[test]
fn test_dispatch_drops_what_is_no_request() {
    let mut reg = FileRegistry::new();
    // Too short to frame a packet.
    assert!(matches!(dispatch(&mut reg, &[0u8]), DispatchOutcome::Ignore(_)));
    // A well-formed packet of the wrong subtype.
    let ack = Packet::Ack { block_num: 0 }.to_bytes();
    assert!(matches!(dispatch(&mut reg, &ack), DispatchOutcome::Ignore(_)));
}
