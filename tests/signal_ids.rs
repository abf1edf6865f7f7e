use signal_notify::Signal;

fn all_signals() -> Vec<(Signal, i32)> {
    vec![
        (Signal::HUP, libc::SIGHUP),
        (Signal::INT, libc::SIGINT),
        (Signal::QUIT, libc::SIGQUIT),
        (Signal::ILL, libc::SIGILL),
        (Signal::ABRT, libc::SIGABRT),
        (Signal::FPE, libc::SIGFPE),
        (Signal::KILL, libc::SIGKILL),
        (Signal::SEGV, libc::SIGSEGV),
        (Signal::PIPE, libc::SIGPIPE),
        (Signal::ALRM, libc::SIGALRM),
        (Signal::TERM, libc::SIGTERM),
        (Signal::USR1, libc::SIGUSR1),
        (Signal::USR2, libc::SIGUSR2),
        (Signal::CHLD, libc::SIGCHLD),
        (Signal::CONT, libc::SIGCONT),
        (Signal::STOP, libc::SIGSTOP),
        (Signal::TSTP, libc::SIGTSTP),
        (Signal::TTIN, libc::SIGTTIN),
        (Signal::TTOU, libc::SIGTTOU),
        (Signal::BUS, libc::SIGBUS),
        (Signal::PROF, libc::SIGPROF),
        (Signal::SYS, libc::SIGSYS),
        (Signal::TRAP, libc::SIGTRAP),
        (Signal::URG, libc::SIGURG),
        (Signal::VTALRM, libc::SIGVTALRM),
        (Signal::XCPU, libc::SIGXCPU),
        (Signal::XFSZ, libc::SIGXFSZ),
        (Signal::IO, libc::SIGIO),
        (Signal::WINCH, libc::SIGWINCH),
    ]
}

#[test]
fn raw_numbers_match_the_platform() {
    for (s, n) in all_signals() {
        assert_eq!(s.as_sig(), n, "{:?}", s);
    }
}

#[test]
fn new_inverts_as_sig_for_every_supported_number() {
    for (s, n) in all_signals() {
        assert_eq!(Signal::new(n), s);
        assert_eq!(Signal::new(n).as_sig(), n);
        assert_eq!(Signal::try_new(n), Some(s));
    }
}

#[test]
fn try_new_refuses_unsupported_numbers() {
    for n in [0, -1, 16, 30, 32, 64, i32::MIN, i32::MAX] {
        assert_eq!(Signal::try_new(n), None, "{}", n);
    }
}

#[test]
fn indices_are_distinct_and_dense() {
    let mut seen = vec![false; signal_notify::signal::SIGNAL_COUNT];
    for (s, _) in all_signals() {
        let i = s.index();
        assert!(!seen[i]);
        seen[i] = true;
    }
    assert!(seen.iter().all(|b| *b));
    assert_eq!(all_signals().len(), signal_notify::signal::SIGNAL_COUNT);
}

#[test]
fn common_numbers() {
    assert_eq!(Signal::INT.as_sig(), 2);
    assert_eq!(Signal::HUP.as_sig(), 1);
    assert_eq!(Signal::TERM.as_sig(), 15);
    assert_eq!(Signal::new(28), Signal::WINCH);
}
