use ppm::poller::{PollerFds, PollerFlags, PollerWord, POLL_ERR, POLL_IN};

#[test]
fn words() {
    assert_eq!(PollerWord::Wake, PollerWord::from_byte(b'x'));
    assert_eq!(PollerWord::Exit, PollerWord::from_byte(b'q'));
    assert_eq!(PollerWord::Custom(b'u'), PollerWord::from_byte(b'u'));
    assert_eq!(b'x', PollerWord::Wake.to_byte());
    assert_eq!(b'q', PollerWord::Exit.to_byte());
    assert_eq!(7, PollerWord::Custom(7).to_byte());
}

#[test]
fn flags() {
    let flags = PollerFlags(POLL_IN).union(PollerFlags(POLL_ERR));
    assert!(flags.contains(PollerFlags(POLL_IN)));
    assert!(flags.contains(PollerFlags(POLL_ERR)));
    assert!(!PollerFlags(POLL_IN).contains(PollerFlags(POLL_ERR)));
}

/// After one poll round, `ready` returns exactly the entries with
/// readiness flags, in order, capped at the reported count.
#[test]
fn ready_entries() {
    let mut pfds = PollerFds::with_capacity(3);
    pfds.push(10, PollerFlags(POLL_IN));
    pfds.push(11, PollerFlags(POLL_IN));
    pfds.push(12, PollerFlags(POLL_IN));

    // nothing reported yet
    assert_eq!(0, pfds.ready().len());

    pfds.set_results(&vec![POLL_IN, 0, POLL_ERR], 2);
    let ready = pfds.ready();
    assert_eq!(2, ready.len());
    assert_eq!((10, PollerFlags(POLL_IN)), ready[0]);
    assert_eq!((12, PollerFlags(POLL_ERR)), ready[1]);

    // the reported count caps the walk
    pfds.set_results(&vec![POLL_IN, POLL_IN, POLL_IN], 1);
    let ready = pfds.ready();
    assert_eq!(1, ready.len());
    assert_eq!((10, PollerFlags(POLL_IN)), ready[0]);

    pfds.clear();
    assert_eq!(0, pfds.ready().len());
}
