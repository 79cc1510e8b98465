//! Signal delivery to traced threads.
//!
//! GDB numbers signals by its own cross-platform table (`gdbstub::common::Signal`),
//! which differs from the host's numbering (`nix::sys::signal::Signal`): GDB's
//! SIGBUS is 10 and its SIGUSR1 is 30, for instance. This module holds the
//! translation table, the thread-id conversion, and the kill requests that the
//! server makes: the process id and host signal that `kill(2)` is handed.
use vstd::prelude::*;

use gdbstub::common::Signal;
use nix::sys::signal::Signal as HostSignal;

verus! {

/// GDB's signal type is a public one-field tuple struct over its wire number;
/// Verus reads that field.
#[verifier::external_type_specification]
pub struct ExGdbSignal(Signal);

/// The host's signal type is a field-less enum; Verus reads its variants.
#[verifier::external_type_specification]
pub struct ExHostSignal(HostSignal);

/// The host signal that a GDB wire number stands for, where the server supports it.
///
/// The table is GDB's numbering (gdbstub's `Signal` constants) paired with the
/// host signal of the same name; GDB's SIGPOLL is the host's SIGIO.
pub open spec fn host_signal_of(code: u8) -> Option<HostSignal> {
    match code {
        1u8 => Some(HostSignal::SIGHUP),
        2u8 => Some(HostSignal::SIGINT),
        3u8 => Some(HostSignal::SIGQUIT),
        4u8 => Some(HostSignal::SIGILL),
        5u8 => Some(HostSignal::SIGTRAP),
        6u8 => Some(HostSignal::SIGABRT),
        8u8 => Some(HostSignal::SIGFPE),
        9u8 => Some(HostSignal::SIGKILL),
        10u8 => Some(HostSignal::SIGBUS),
        11u8 => Some(HostSignal::SIGSEGV),
        12u8 => Some(HostSignal::SIGSYS),
        13u8 => Some(HostSignal::SIGPIPE),
        14u8 => Some(HostSignal::SIGALRM),
        15u8 => Some(HostSignal::SIGTERM),
        16u8 => Some(HostSignal::SIGURG),
        17u8 => Some(HostSignal::SIGSTOP),
        18u8 => Some(HostSignal::SIGTSTP),
        19u8 => Some(HostSignal::SIGCONT),
        20u8 => Some(HostSignal::SIGCHLD),
        21u8 => Some(HostSignal::SIGTTIN),
        22u8 => Some(HostSignal::SIGTTOU),
        23u8 => Some(HostSignal::SIGIO),
        24u8 => Some(HostSignal::SIGXCPU),
        25u8 => Some(HostSignal::SIGXFSZ),
        26u8 => Some(HostSignal::SIGVTALRM),
        27u8 => Some(HostSignal::SIGPROF),
        28u8 => Some(HostSignal::SIGWINCH),
        30u8 => Some(HostSignal::SIGUSR1),
        31u8 => Some(HostSignal::SIGUSR2),
        32u8 => Some(HostSignal::SIGPWR),
        33u8 => Some(HostSignal::SIGIO),
        _ => None,
    }
}

/// Whether the server can forward the GDB signal to a thread.
pub open spec fn is_supported(sig: Signal) -> bool {
    host_signal_of(sig.0) is Some
}

/// The kernel's process id for a thread id: the bits of the `u32`, read as an `i32`.
pub open spec fn raw_pid_of(tid: u32) -> int {
    if tid < 0x8000_0000 {
        tid as int
    } else {
        tid as int - 0x1_0000_0000
    }
}

/// Translates a GDB signal into the host signal of the same meaning,
/// or `None` for a GDB signal that the server does not forward.
pub fn host_signal(sig: &Signal) -> (r: Option<HostSignal>)
    ensures
        r == host_signal_of(sig.0),
{
    match sig.0 {
        1u8 => Some(HostSignal::SIGHUP),
        2u8 => Some(HostSignal::SIGINT),
        3u8 => Some(HostSignal::SIGQUIT),
        4u8 => Some(HostSignal::SIGILL),
        5u8 => Some(HostSignal::SIGTRAP),
        6u8 => Some(HostSignal::SIGABRT),
        8u8 => Some(HostSignal::SIGFPE),
        9u8 => Some(HostSignal::SIGKILL),
        10u8 => Some(HostSignal::SIGBUS),
        11u8 => Some(HostSignal::SIGSEGV),
        12u8 => Some(HostSignal::SIGSYS),
        13u8 => Some(HostSignal::SIGPIPE),
        14u8 => Some(HostSignal::SIGALRM),
        15u8 => Some(HostSignal::SIGTERM),
        16u8 => Some(HostSignal::SIGURG),
        17u8 => Some(HostSignal::SIGSTOP),
        18u8 => Some(HostSignal::SIGTSTP),
        19u8 => Some(HostSignal::SIGCONT),
        20u8 => Some(HostSignal::SIGCHLD),
        21u8 => Some(HostSignal::SIGTTIN),
        22u8 => Some(HostSignal::SIGTTOU),
        23u8 => Some(HostSignal::SIGIO),
        24u8 => Some(HostSignal::SIGXCPU),
        25u8 => Some(HostSignal::SIGXFSZ),
        26u8 => Some(HostSignal::SIGVTALRM),
        27u8 => Some(HostSignal::SIGPROF),
        28u8 => Some(HostSignal::SIGWINCH),
        30u8 => Some(HostSignal::SIGUSR1),
        31u8 => Some(HostSignal::SIGUSR2),
        32u8 => Some(HostSignal::SIGPWR),
        33u8 => Some(HostSignal::SIGIO),
        _ => None,
    }
}

/// The process id that the kernel is handed for a thread id.
pub fn raw_pid(tid: u32) -> (r: i32)
    ensures
        r as int == raw_pid_of(tid),
{
    let r = tid as i32;
    assert(tid < 0x8000_0000 ==> r == tid) by (bit_vector)
        requires
            r == tid as i32,
    ;
    assert(tid >= 0x8000_0000 ==> r == tid - 0x1_0000_0000) by (bit_vector)
        requires
            r == tid as i32,
    ;
    r
}

/// The kill request for a GDB signal: the process id of `tid` and the host signal
/// that `sig` stands for.
pub open spec fn sig_request_spec(tid: u32, sig: Signal) -> (int, Option<HostSignal>) {
    (raw_pid_of(tid), host_signal_of(sig.0))
}

/// The kill request that delivers the GDB signal `sig` to thread `tid`: the
/// thread's process id and the host signal of the same name. Only signals that
/// the server forwards can be requested.
pub fn sig_request(tid: u32, sig: &Signal) -> (r: (i32, HostSignal))
    requires
        is_supported(*sig),
    ensures
        r.0 as int == raw_pid_of(tid),
        Some(r.1) == host_signal_of(sig.0),
{
    let host = host_signal(sig).unwrap();
    (raw_pid(tid), host)
}

/// The kill request that resumes the stopped process `pid`: SIGCONT to its process id.
pub fn sigcont_request(pid: u32) -> (r: (i32, HostSignal))
    ensures
        r.0 as int == raw_pid_of(pid),
        r.1 == HostSignal::SIGCONT,
{
    (raw_pid(pid), HostSignal::SIGCONT)
}

/// The kill request that stops the process `pid`: SIGSTOP to its process id.
pub fn sigstop_request(pid: u32) -> (r: (i32, HostSignal))
    ensures
        r.0 as int == raw_pid_of(pid),
        r.1 == HostSignal::SIGSTOP,
{
    (raw_pid(pid), HostSignal::SIGSTOP)
}

/// A request for GDB's SIGCONT or SIGSTOP is the same request as resuming or
/// stopping the thread directly.
pub proof fn lemma_sig_request_cont_stop(tid: u32)
    ensures
        sig_request_spec(tid, Signal(19)) == (raw_pid_of(tid), Some(HostSignal::SIGCONT)),
        sig_request_spec(tid, Signal(17)) == (raw_pid_of(tid), Some(HostSignal::SIGSTOP)),
{
}

/// A thread id that fits in a positive `i32` is requested as exactly that process
/// id: never 0 (the caller's process group) nor a negative id (a process group,
/// or every process).
pub proof fn lemma_request_pid_is_tid(tid: u32)
    requires
        1 <= tid <= i32::MAX,
    ensures
        raw_pid_of(tid) == tid as int,
        raw_pid_of(tid) > 0,
{
}

/// Requests for two different GDB signals to one thread carry different host
/// signals, except GDB's SIGIO and SIGPOLL, whose requests are the same.
pub proof fn lemma_sig_requests_distinct(tid: u32, a: Signal, b: Signal)
    requires
        is_supported(a),
        is_supported(b),
        a.0 != b.0,
    ensures
        sig_request_spec(tid, a) == sig_request_spec(tid, b) <==> ((a.0 == 23 && b.0 == 33) || (
        a.0 == 33 && b.0 == 23)),
{
    if host_signal_of(a.0) == host_signal_of(b.0) {
        lemma_translation_injective(a.0, b.0);
    }
}

/// Each GDB signal is sent as the host signal of the same name. The pairs are
/// gdbstub's `Signal` constants (by their wire numbers) and nix's variants:
/// SIGHUP 1, SIGINT 2, SIGQUIT 3, SIGILL 4, SIGTRAP 5, SIGABRT 6, SIGFPE 8,
/// SIGKILL 9, SIGBUS 10, SIGSEGV 11, SIGSYS 12, SIGPIPE 13, SIGALRM 14,
/// SIGTERM 15, SIGURG 16, SIGSTOP 17, SIGTSTP 18, SIGCONT 19, SIGCHLD 20,
/// SIGTTIN 21, SIGTTOU 22, SIGIO 23, SIGXCPU 24, SIGXFSZ 25, SIGVTALRM 26,
/// SIGPROF 27, SIGWINCH 28, SIGUSR1 30, SIGUSR2 31, SIGPWR 32, and SIGPOLL 33,
/// which the host knows as SIGIO.
pub proof fn lemma_same_name(tid: u32)
    ensures
        sig_request_spec(tid, Signal(1)).1 == Some(HostSignal::SIGHUP),
        sig_request_spec(tid, Signal(2)).1 == Some(HostSignal::SIGINT),
        sig_request_spec(tid, Signal(3)).1 == Some(HostSignal::SIGQUIT),
        sig_request_spec(tid, Signal(4)).1 == Some(HostSignal::SIGILL),
        sig_request_spec(tid, Signal(5)).1 == Some(HostSignal::SIGTRAP),
        sig_request_spec(tid, Signal(6)).1 == Some(HostSignal::SIGABRT),
        sig_request_spec(tid, Signal(8)).1 == Some(HostSignal::SIGFPE),
        sig_request_spec(tid, Signal(9)).1 == Some(HostSignal::SIGKILL),
        sig_request_spec(tid, Signal(10)).1 == Some(HostSignal::SIGBUS),
        sig_request_spec(tid, Signal(11)).1 == Some(HostSignal::SIGSEGV),
        sig_request_spec(tid, Signal(12)).1 == Some(HostSignal::SIGSYS),
        sig_request_spec(tid, Signal(13)).1 == Some(HostSignal::SIGPIPE),
        sig_request_spec(tid, Signal(14)).1 == Some(HostSignal::SIGALRM),
        sig_request_spec(tid, Signal(15)).1 == Some(HostSignal::SIGTERM),
        sig_request_spec(tid, Signal(16)).1 == Some(HostSignal::SIGURG),
        sig_request_spec(tid, Signal(17)).1 == Some(HostSignal::SIGSTOP),
        sig_request_spec(tid, Signal(18)).1 == Some(HostSignal::SIGTSTP),
        sig_request_spec(tid, Signal(19)).1 == Some(HostSignal::SIGCONT),
        sig_request_spec(tid, Signal(20)).1 == Some(HostSignal::SIGCHLD),
        sig_request_spec(tid, Signal(21)).1 == Some(HostSignal::SIGTTIN),
        sig_request_spec(tid, Signal(22)).1 == Some(HostSignal::SIGTTOU),
        sig_request_spec(tid, Signal(23)).1 == Some(HostSignal::SIGIO),
        sig_request_spec(tid, Signal(24)).1 == Some(HostSignal::SIGXCPU),
        sig_request_spec(tid, Signal(25)).1 == Some(HostSignal::SIGXFSZ),
        sig_request_spec(tid, Signal(26)).1 == Some(HostSignal::SIGVTALRM),
        sig_request_spec(tid, Signal(27)).1 == Some(HostSignal::SIGPROF),
        sig_request_spec(tid, Signal(28)).1 == Some(HostSignal::SIGWINCH),
        sig_request_spec(tid, Signal(30)).1 == Some(HostSignal::SIGUSR1),
        sig_request_spec(tid, Signal(31)).1 == Some(HostSignal::SIGUSR2),
        sig_request_spec(tid, Signal(32)).1 == Some(HostSignal::SIGPWR),
        sig_request_spec(tid, Signal(33)).1 == Some(HostSignal::SIGIO),
{
}

/// The process id of a thread id is the one `i32` that agrees with it modulo 2^32.
pub proof fn lemma_raw_pid_wraps(tid: u32)
    ensures
        i32::MIN <= raw_pid_of(tid) <= i32::MAX,
        (raw_pid_of(tid) - tid) % 0x1_0000_0000 == 0,
{
}

/// The GDB signals that the server forwards are exactly the wire numbers 1 to 33,
/// except GDB's SIGEMT (7) and SIGLOST (29), which have no host counterpart.
pub proof fn lemma_supported_codes(code: u8)
    ensures
        host_signal_of(code) is Some <==> (1 <= code <= 33 && code != 7 && code != 29),
{
}

/// Two different GDB signals reach the host as the same signal only when they are
/// GDB's SIGIO (23) and SIGPOLL (33), which the host knows as one signal.
pub proof fn lemma_translation_injective(a: u8, b: u8)
    requires
        a != b,
        host_signal_of(a) is Some,
        host_signal_of(a) == host_signal_of(b),
    ensures
        (a == 23 && b == 33) || (a == 33 && b == 23),
{
}

/// Every host signal but SIGSTKFLT can be sent through a GDB signal.
pub proof fn lemma_translation_covers_host(s: HostSignal)
    requires
        s != HostSignal::SIGSTKFLT,
    ensures
        exists|code: u8| host_signal_of(code) == Some(s),
{
    let code: u8 = match s {
        HostSignal::SIGHUP => 1,
        HostSignal::SIGINT => 2,
        HostSignal::SIGQUIT => 3,
        HostSignal::SIGILL => 4,
        HostSignal::SIGTRAP => 5,
        HostSignal::SIGABRT => 6,
        HostSignal::SIGBUS => 10,
        HostSignal::SIGFPE => 8,
        HostSignal::SIGKILL => 9,
        HostSignal::SIGUSR1 => 30,
        HostSignal::SIGSEGV => 11,
        HostSignal::SIGUSR2 => 31,
        HostSignal::SIGPIPE => 13,
        HostSignal::SIGALRM => 14,
        HostSignal::SIGTERM => 15,
        HostSignal::SIGCHLD => 20,
        HostSignal::SIGCONT => 19,
        HostSignal::SIGSTOP => 17,
        HostSignal::SIGTSTP => 18,
        HostSignal::SIGTTIN => 21,
        HostSignal::SIGTTOU => 22,
        HostSignal::SIGURG => 16,
        HostSignal::SIGXCPU => 24,
        HostSignal::SIGXFSZ => 25,
        HostSignal::SIGVTALRM => 26,
        HostSignal::SIGPROF => 27,
        HostSignal::SIGWINCH => 28,
        HostSignal::SIGIO => 23,
        HostSignal::SIGPWR => 32,
        HostSignal::SIGSYS => 12,
        _ => 0,
    };
    assert(host_signal_of(code) == Some(s));
}

} // verus!
