//! Portable identities for the POSIX signals, and their raw numbers.
//!
//! The raw numbers are those of Linux. The table is written once, as the
//! spec function `raw_of`; both executable directions are proved against it.
//! `KILL` and `STOP` are listed so that every POSIX signal has a name, but
//! the operating system never lets a handler intercept them.

use vstd::prelude::*;

verus! {

/// Raw number of SIGHUP.
pub const SIGHUP: i32 = 1;

/// Raw number of SIGINT.
pub const SIGINT: i32 = 2;

/// Raw number of SIGQUIT.
pub const SIGQUIT: i32 = 3;

/// Raw number of SIGILL.
pub const SIGILL: i32 = 4;

/// Raw number of SIGABRT.
pub const SIGABRT: i32 = 6;

/// Raw number of SIGFPE.
pub const SIGFPE: i32 = 8;

/// Raw number of SIGKILL.
pub const SIGKILL: i32 = 9;

/// Raw number of SIGSEGV.
pub const SIGSEGV: i32 = 11;

/// Raw number of SIGPIPE.
pub const SIGPIPE: i32 = 13;

/// Raw number of SIGALRM.
pub const SIGALRM: i32 = 14;

/// Raw number of SIGTERM.
pub const SIGTERM: i32 = 15;

/// Raw number of SIGUSR1.
pub const SIGUSR1: i32 = 10;

/// Raw number of SIGUSR2.
pub const SIGUSR2: i32 = 12;

/// Raw number of SIGCHLD.
pub const SIGCHLD: i32 = 17;

/// Raw number of SIGCONT.
pub const SIGCONT: i32 = 18;

/// Raw number of SIGSTOP.
pub const SIGSTOP: i32 = 19;

/// Raw number of SIGTSTP.
pub const SIGTSTP: i32 = 20;

/// Raw number of SIGTTIN.
pub const SIGTTIN: i32 = 21;

/// Raw number of SIGTTOU.
pub const SIGTTOU: i32 = 22;

/// Raw number of SIGBUS.
pub const SIGBUS: i32 = 7;

/// Raw number of SIGPROF.
pub const SIGPROF: i32 = 27;

/// Raw number of SIGSYS.
pub const SIGSYS: i32 = 31;

/// Raw number of SIGTRAP.
pub const SIGTRAP: i32 = 5;

/// Raw number of SIGURG.
pub const SIGURG: i32 = 23;

/// Raw number of SIGVTALRM.
pub const SIGVTALRM: i32 = 26;

/// Raw number of SIGXCPU.
pub const SIGXCPU: i32 = 24;

/// Raw number of SIGXFSZ.
pub const SIGXFSZ: i32 = 25;

/// Raw number of SIGIO.
pub const SIGIO: i32 = 29;

/// Raw number of SIGWINCH.
pub const SIGWINCH: i32 = 28;

/// Number of supported signals.
pub const SIGNAL_COUNT: usize = 29;

/// One supported signal.
#[derive(Clone, Copy, Debug, PartialEq, Eq, Structural, PartialOrd, Ord, Hash)]
pub enum Signal {
    /// Hangup.
    HUP,
    /// Interrupt.
    INT,
    /// Quit.
    QUIT,
    /// Illegal instruction.
    ILL,
    /// Abort.
    ABRT,
    /// Floating-point exception.
    FPE,
    /// Kill (cannot be caught).
    KILL,
    /// Segmentation fault.
    SEGV,
    /// Broken pipe.
    PIPE,
    /// Alarm clock.
    ALRM,
    /// Termination request.
    TERM,
    /// User-defined signal 1.
    USR1,
    /// User-defined signal 2.
    USR2,
    /// Child stopped or terminated.
    CHLD,
    /// Continue if stopped.
    CONT,
    /// Stop (cannot be caught).
    STOP,
    /// Stop typed at the terminal.
    TSTP,
    /// Terminal input for a background process.
    TTIN,
    /// Terminal output for a background process.
    TTOU,
    /// Bus error.
    BUS,
    /// Profiling timer expired.
    PROF,
    /// Bad system call.
    SYS,
    /// Trace or breakpoint trap.
    TRAP,
    /// Urgent condition on a socket.
    URG,
    /// Virtual alarm clock.
    VTALRM,
    /// Cpu time limit exceeded.
    XCPU,
    /// File size limit exceeded.
    XFSZ,
    /// I/o now possible.
    IO,
    /// Window size change.
    WINCH,
}

/// The raw number of each signal: the one table that both directions follow.
pub open spec fn raw_of(s: Signal) -> i32 {
    match s {
        Signal::HUP => SIGHUP,
        Signal::INT => SIGINT,
        Signal::QUIT => SIGQUIT,
        Signal::ILL => SIGILL,
        Signal::ABRT => SIGABRT,
        Signal::FPE => SIGFPE,
        Signal::KILL => SIGKILL,
        Signal::SEGV => SIGSEGV,
        Signal::PIPE => SIGPIPE,
        Signal::ALRM => SIGALRM,
        Signal::TERM => SIGTERM,
        Signal::USR1 => SIGUSR1,
        Signal::USR2 => SIGUSR2,
        Signal::CHLD => SIGCHLD,
        Signal::CONT => SIGCONT,
        Signal::STOP => SIGSTOP,
        Signal::TSTP => SIGTSTP,
        Signal::TTIN => SIGTTIN,
        Signal::TTOU => SIGTTOU,
        Signal::BUS => SIGBUS,
        Signal::PROF => SIGPROF,
        Signal::SYS => SIGSYS,
        Signal::TRAP => SIGTRAP,
        Signal::URG => SIGURG,
        Signal::VTALRM => SIGVTALRM,
        Signal::XCPU => SIGXCPU,
        Signal::XFSZ => SIGXFSZ,
        Signal::IO => SIGIO,
        Signal::WINCH => SIGWINCH,
    }
}

/// The position of each signal in declaration order.
pub open spec fn index_of(s: Signal) -> nat {
    match s {
        Signal::HUP => 0,
        Signal::INT => 1,
        Signal::QUIT => 2,
        Signal::ILL => 3,
        Signal::ABRT => 4,
        Signal::FPE => 5,
        Signal::KILL => 6,
        Signal::SEGV => 7,
        Signal::PIPE => 8,
        Signal::ALRM => 9,
        Signal::TERM => 10,
        Signal::USR1 => 11,
        Signal::USR2 => 12,
        Signal::CHLD => 13,
        Signal::CONT => 14,
        Signal::STOP => 15,
        Signal::TSTP => 16,
        Signal::TTIN => 17,
        Signal::TTOU => 18,
        Signal::BUS => 19,
        Signal::PROF => 20,
        Signal::SYS => 21,
        Signal::TRAP => 22,
        Signal::URG => 23,
        Signal::VTALRM => 24,
        Signal::XCPU => 25,
        Signal::XFSZ => 26,
        Signal::IO => 27,
        Signal::WINCH => 28,
    }
}

/// A raw number is supported when some signal has it.
pub open spec fn is_supported(n: i32) -> bool {
    exists|s: Signal| raw_of(s) == n
}

/// The signal that a raw number stands for, if any.
pub open spec fn signal_of(n: i32) -> Option<Signal> {
    if is_supported(n) {
        Some(choose|s: Signal| raw_of(s) == n)
    } else {
        None
    }
}

/// No two signals share a raw number.
pub proof fn lemma_raw_injective(a: Signal, b: Signal)
    ensures
        raw_of(a) == raw_of(b) <==> a == b,
{
}

/// No two signals share an index, and every index is below `SIGNAL_COUNT`.
pub proof fn lemma_index_injective(a: Signal, b: Signal)
    ensures
        index_of(a) < SIGNAL_COUNT,
        index_of(a) == index_of(b) <==> a == b,
{
}

/// Decoding a supported raw number and encoding the result gives the number back.
pub proof fn lemma_raw_round_trip(n: i32)
    requires
        is_supported(n),
    ensures
        signal_of(n) is Some,
        raw_of(signal_of(n)->0) == n,
{
}

/// Encoding a signal and decoding the number gives the signal back.
pub proof fn lemma_signal_round_trip(s: Signal)
    ensures
        signal_of(raw_of(s)) == Some(s),
{
    lemma_raw_injective(s, choose|t: Signal| raw_of(t) == raw_of(s));
}

/// Decoding yields nothing exactly for the unsupported numbers, and no
/// signal carries an unsupported number, so `Signal::new` cannot produce one
/// for it.
pub proof fn lemma_unsupported_has_no_signal(n: i32)
    ensures
        signal_of(n) is None <==> !is_supported(n),
        !is_supported(n) ==> forall|s: Signal| #[trigger] raw_of(s) != n,
{
}

impl Signal {
    /// The signal with raw number `sig`.
    ///
    /// Only supported numbers may be passed: receiving any other number is a
    /// programming error, and `try_new` is the checked form.
    pub fn new(sig: i32) -> (r: Signal)
        requires
            is_supported(sig),
        ensures
            raw_of(r) == sig,
            signal_of(sig) == Some(r),
    {
        let r = match Self::try_new(sig) {
            Some(s) => s,
            None => Signal::HUP,
        };
        r
    }

    /// The signal with raw number `sig`, or `None` when no signal has it.
    pub fn try_new(sig: i32) -> (r: Option<Signal>)
        ensures
            r == signal_of(sig),
            r is Some <==> is_supported(sig),
            r matches Some(s) ==> raw_of(s) == sig,
    {
        let r = match sig {
            SIGHUP => Some(Signal::HUP),
            SIGINT => Some(Signal::INT),
            SIGQUIT => Some(Signal::QUIT),
            SIGILL => Some(Signal::ILL),
            SIGABRT => Some(Signal::ABRT),
            SIGFPE => Some(Signal::FPE),
            SIGKILL => Some(Signal::KILL),
            SIGSEGV => Some(Signal::SEGV),
            SIGPIPE => Some(Signal::PIPE),
            SIGALRM => Some(Signal::ALRM),
            SIGTERM => Some(Signal::TERM),
            SIGUSR1 => Some(Signal::USR1),
            SIGUSR2 => Some(Signal::USR2),
            SIGCHLD => Some(Signal::CHLD),
            SIGCONT => Some(Signal::CONT),
            SIGSTOP => Some(Signal::STOP),
            SIGTSTP => Some(Signal::TSTP),
            SIGTTIN => Some(Signal::TTIN),
            SIGTTOU => Some(Signal::TTOU),
            SIGBUS => Some(Signal::BUS),
            SIGPROF => Some(Signal::PROF),
            SIGSYS => Some(Signal::SYS),
            SIGTRAP => Some(Signal::TRAP),
            SIGURG => Some(Signal::URG),
            SIGVTALRM => Some(Signal::VTALRM),
            SIGXCPU => Some(Signal::XCPU),
            SIGXFSZ => Some(Signal::XFSZ),
            SIGIO => Some(Signal::IO),
            SIGWINCH => Some(Signal::WINCH),
            _ => None,
        };
        proof {
            match r {
                Some(s) => lemma_signal_round_trip(s),
                None => {
                    assert(!is_supported(sig));
                },
            }
        }
        r
    }

    /// The raw number of this signal.
    pub fn as_sig(self) -> (r: i32)
        ensures
            r == raw_of(self),
            r > 0,
    {
        match self {
            Signal::HUP => SIGHUP,
            Signal::INT => SIGINT,
            Signal::QUIT => SIGQUIT,
            Signal::ILL => SIGILL,
            Signal::ABRT => SIGABRT,
            Signal::FPE => SIGFPE,
            Signal::KILL => SIGKILL,
            Signal::SEGV => SIGSEGV,
            Signal::PIPE => SIGPIPE,
            Signal::ALRM => SIGALRM,
            Signal::TERM => SIGTERM,
            Signal::USR1 => SIGUSR1,
            Signal::USR2 => SIGUSR2,
            Signal::CHLD => SIGCHLD,
            Signal::CONT => SIGCONT,
            Signal::STOP => SIGSTOP,
            Signal::TSTP => SIGTSTP,
            Signal::TTIN => SIGTTIN,
            Signal::TTOU => SIGTTOU,
            Signal::BUS => SIGBUS,
            Signal::PROF => SIGPROF,
            Signal::SYS => SIGSYS,
            Signal::TRAP => SIGTRAP,
            Signal::URG => SIGURG,
            Signal::VTALRM => SIGVTALRM,
            Signal::XCPU => SIGXCPU,
            Signal::XFSZ => SIGXFSZ,
            Signal::IO => SIGIO,
            Signal::WINCH => SIGWINCH,
        }
    }

    /// The position of this signal in declaration order.
    pub fn index(self) -> (r: usize)
        ensures
            r == index_of(self),
            r < SIGNAL_COUNT,
    {
        match self {
            Signal::HUP => 0,
            Signal::INT => 1,
            Signal::QUIT => 2,
            Signal::ILL => 3,
            Signal::ABRT => 4,
            Signal::FPE => 5,
            Signal::KILL => 6,
            Signal::SEGV => 7,
            Signal::PIPE => 8,
            Signal::ALRM => 9,
            Signal::TERM => 10,
            Signal::USR1 => 11,
            Signal::USR2 => 12,
            Signal::CHLD => 13,
            Signal::CONT => 14,
            Signal::STOP => 15,
            Signal::TSTP => 16,
            Signal::TTIN => 17,
            Signal::TTOU => 18,
            Signal::BUS => 19,
            Signal::PROF => 20,
            Signal::SYS => 21,
            Signal::TRAP => 22,
            Signal::URG => 23,
            Signal::VTALRM => 24,
            Signal::XCPU => 25,
            Signal::XFSZ => 26,
            Signal::IO => 27,
            Signal::WINCH => 28,
        }
    }
}

} // verus!
