use edbgserver::signal::{host_signal, raw_pid, sig_request, sigcont_request, sigstop_request};
use gdbstub::common::Signal;
use nix::sys::signal::Signal as HostSignal;

#[test]
fn gdb_signals_with_host_numbers_translate_by_name() {
    assert_eq!(host_signal(&Signal::SIGHUP), Some(HostSignal::SIGHUP));
    assert_eq!(host_signal(&Signal::SIGINT), Some(HostSignal::SIGINT));
    assert_eq!(host_signal(&Signal::SIGTRAP), Some(HostSignal::SIGTRAP));
    assert_eq!(host_signal(&Signal::SIGKILL), Some(HostSignal::SIGKILL));
    assert_eq!(host_signal(&Signal::SIGSEGV), Some(HostSignal::SIGSEGV));
}

#[test]
fn gdb_signals_with_other_host_numbers_translate_by_name() {
    assert_eq!(host_signal(&Signal::SIGBUS), Some(HostSignal::SIGBUS));
    assert_eq!(host_signal(&Signal::SIGUSR1), Some(HostSignal::SIGUSR1));
    assert_eq!(host_signal(&Signal::SIGUSR2), Some(HostSignal::SIGUSR2));
    assert_eq!(host_signal(&Signal::SIGSTOP), Some(HostSignal::SIGSTOP));
    assert_eq!(host_signal(&Signal::SIGCONT), Some(HostSignal::SIGCONT));
    assert_eq!(host_signal(&Signal::SIGCHLD), Some(HostSignal::SIGCHLD));
    assert_eq!(host_signal(&Signal::SIGSYS), Some(HostSignal::SIGSYS));
    assert_eq!(host_signal(&Signal::SIGPWR), Some(HostSignal::SIGPWR));
    assert_eq!(host_signal(&Signal(10)), Some(HostSignal::SIGBUS));
    assert_eq!(HostSignal::SIGBUS as i32, 7);
}

#[test]
fn gdb_sigpoll_and_sigio_reach_the_host_as_sigio() {
    assert_eq!(host_signal(&Signal::SIGPOLL), Some(HostSignal::SIGIO));
    assert_eq!(host_signal(&Signal::SIGIO), Some(HostSignal::SIGIO));
}

#[test]
fn gdb_signals_without_host_counterpart_are_not_forwarded() {
    assert_eq!(host_signal(&Signal::SIGZERO), None);
    assert_eq!(host_signal(&Signal::SIGEMT), None);
    assert_eq!(host_signal(&Signal::SIGLOST), None);
    assert_eq!(host_signal(&Signal::SIGWIND), None);
    assert_eq!(host_signal(&Signal(34)), None);
    assert_eq!(host_signal(&Signal(255)), None);
}

#[test]
fn every_supported_code_is_in_range() {
    for code in 0..=255u8 {
        let supported = host_signal(&Signal(code)).is_some();
        assert_eq!(supported, (1..=33).contains(&code) && code != 7 && code != 29, "code {}", code);
    }
}

#[test]
fn translation_is_injective_but_for_sigpoll() {
    for a in 0..=255u8 {
        for b in 0..=255u8 {
            let (sa, sb) = (host_signal(&Signal(a)), host_signal(&Signal(b)));
            if a != b && sa.is_some() && sa == sb {
                assert!((a == 23 && b == 33) || (a == 33 && b == 23));
            }
        }
    }
}

#[test]
fn raw_pid_keeps_the_bits() {
    assert_eq!(raw_pid(0), 0);
    assert_eq!(raw_pid(1234), 1234);
    assert_eq!(raw_pid(0x7fff_ffff), i32::MAX);
    assert_eq!(raw_pid(0x8000_0000), i32::MIN);
    assert_eq!(raw_pid(u32::MAX), -1);
}

#[test]
fn sig_request_sends_the_same_named_signal_to_the_thread() {
    assert_eq!(sig_request(1234, &Signal::SIGCONT), (1234, HostSignal::SIGCONT));
    assert_eq!(sig_request(1234, &Signal::SIGSTOP), (1234, HostSignal::SIGSTOP));
    assert_eq!(sig_request(77, &Signal::SIGUSR1), (77, HostSignal::SIGUSR1));
    assert_eq!(sig_request(5, &Signal::SIGPOLL), sig_request(5, &Signal::SIGIO));
    assert_eq!(sig_request(5, &Signal::SIGIO), (5, HostSignal::SIGIO));
}

#[test]
fn sigcont_and_sigstop_requests() {
    assert_eq!(sigcont_request(4242), (4242, HostSignal::SIGCONT));
    assert_eq!(sigstop_request(4242), (4242, HostSignal::SIGSTOP));
    assert_eq!(sig_request(4242, &Signal::SIGCONT), sigcont_request(4242));
    assert_eq!(sig_request(4242, &Signal::SIGSTOP), sigstop_request(4242));
}

#[test]
fn every_supported_signal_keeps_pid_and_name() {
    for code in 0..=255u8 {
        if let Some(host) = host_signal(&Signal(code)) {
            assert_eq!(sig_request(9, &Signal(code)), (9, host));
        }
    }
}

#[test]
fn every_host_signal_but_stkflt_is_reachable() {
    for host in HostSignal::iterator() {
        let reachable = (0..=255u8).any(|code| host_signal(&Signal(code)) == Some(host));
        assert_eq!(reachable, host != HostSignal::SIGSTKFLT, "{:?}", host);
    }
}
