use ppm::signal::{
    Signal, SignalSet, SIGALRM_NUM, SIGCHLD_NUM, SIGKILL_NUM, SIGSTOP_NUM, SIGTERM_NUM,
};

#[test]
fn debug() {
    let sig = Signal(SIGTERM_NUM);
    let name = sig.name();
    let other = Signal(SIGCHLD_NUM).name();
    assert_eq!("SIGTERM", name.as_str());
    assert_eq!("SIGCHLD", other.as_str());
}

#[test]
fn signalset() {
    let sigset = SignalSet::default().add(Signal(SIGALRM_NUM)).add(Signal(SIGCHLD_NUM));

    let mut sigs: Vec<Signal> = Vec::new();
    let mut iter = sigset.iter();
    while let Some(sig) = iter.next() {
        sigs.push(sig);
    }
    assert_eq!(sigs.as_slice(), &[Signal(SIGALRM_NUM), Signal(SIGCHLD_NUM)]);

    let sigset = sigset.sub(Signal(SIGCHLD_NUM));
    let mut count = 0;
    let mut iter = sigset.iter();
    while iter.next().is_some() {
        count += 1;
    }
    assert_eq!(count, 1);
}

/// The full set holds the blockable signals: every classic number except
/// the stop and kill signals.
#[test]
fn full_blockable() {
    let full = SignalSet::full();
    assert!(full.contains(Signal(SIGALRM_NUM)));
    assert!(full.contains(Signal(SIGTERM_NUM)));
    assert!(full.contains(Signal(1)));
    assert!(full.contains(Signal(31)));
    assert!(!full.contains(Signal(SIGSTOP_NUM)));
    assert!(!full.contains(Signal(SIGKILL_NUM)));
    assert!(!full.contains(Signal(0)));
    assert!(!full.contains(Signal(32)));

    let mut set = SignalSet::default();
    set.fill();
    assert_eq!(set, full);
}

#[test]
fn names() {
    assert_eq!("SIGKILL", Signal(SIGKILL_NUM).name().as_str());
    assert_eq!("SIG(7)", Signal(7).name().as_str());
    assert_eq!("SIG(42)", Signal(42).name().as_str());
    assert_eq!("SIG(?)", Signal(-1).name().as_str());
}
