use rust_lib::os::task::{make_c_str, MAX_C_STR_LEN};
use rust_lib::os::Semaphore;
use rust_lib::os::RecvTimeoutError;

#[test]
fn semaphore_new_is_full() {
    let mut s = Semaphore::new(2).unwrap();
    assert_eq!(s.available(), 2);
    assert!(s.release().is_err());
    assert_eq!(s.available(), 2);
}

#[test]
fn semaphore_empty_has_no_tokens() {
    let mut s = Semaphore::empty(3).unwrap();
    assert_eq!(s.available(), 0);
    assert!(s.release().is_ok());
    assert!(s.release().is_ok());
    assert!(s.release().is_ok());
    assert!(s.release().is_err());
    assert_eq!(s.available(), 3);
}

#[test]
fn semaphore_acquire_then_release_restores() {
    let mut s = Semaphore::new(1).unwrap();
    assert!(s.acquire().is_ok());
    assert_eq!(s.available(), 0);
    assert!(s.release().is_ok());
    assert_eq!(s.available(), 1);
}

#[test]
fn semaphore_with_no_tokens() {
    let mut s = Semaphore::empty(0).unwrap();
    assert_eq!(s.available(), 0);
    assert!(s.release().is_err());
}

#[test]
fn c_str_is_nul_terminated() {
    let c = make_c_str("timers_task").unwrap();
    assert_eq!(&c[..11], b"timers_task");
    assert!(c[11..].iter().all(|b| *b == 0));
    assert_eq!(c.len(), MAX_C_STR_LEN);
}

#[test]
fn c_str_length_limit() {
    let ok = "a".repeat(63);
    let c = make_c_str(&ok).unwrap();
    assert_eq!(c[62], b'a');
    assert_eq!(c[63], 0);
    let too_long = "a".repeat(64);
    assert!(make_c_str(&too_long).is_err());
    let empty = make_c_str("").unwrap();
    assert!(empty.iter().all(|b| *b == 0));
}

#[test]
fn recv_timeout_error_variants_differ() {
    assert_ne!(RecvTimeoutError::Timeout, RecvTimeoutError::Other);
}
