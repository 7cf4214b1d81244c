use wasinodot::bridge::{bridge_message, sanitize, PLACEHOLDER};
use wasinodot::error::{Error, NulError};
use wasinodot::memory::{block_size, OutputRegistry};
use wasinodot::report::{error_diagnostic, report};
use wasinodot::source::c_string_len;

#[test]
fn zero_bytes_become_the_placeholder_without_truncation() {
    let msg = b"syntax error\0 in line 1";
    let clean = sanitize(msg);
    assert_eq!(clean.len(), msg.len());
    assert_eq!(clean, b"syntax error? in line 1".to_vec());
    assert_eq!(bridge_message(msg), "syntax error? in line 1");
    assert_eq!(PLACEHOLDER, b'?');
}

#[test]
fn empty_message_stays_empty() {
    assert_eq!(sanitize(b""), Vec::<u8>::new());
    assert_eq!(bridge_message(b""), "");
}

#[test]
fn invalid_utf8_is_replaced() {
    assert_eq!(bridge_message(&[b'a', 0xff, 0, b'b']), "a\u{FFFD}?b");
    assert_eq!(bridge_message("héllo".as_bytes()), "héllo");
}

#[test]
fn error_texts() {
    assert_eq!(Error::Graph.message(), "failed to read graph.");
    assert_eq!(Error::Layout.message(), "failed to layout.");
    assert_eq!(Error::Render.message(), "failed to render.");
    assert_eq!(
        Error::FromBytesWithNul(NulError::NotNulTerminated).message(),
        "data provided is not nul terminated"
    );
    assert_eq!(
        Error::FromBytesWithNul(NulError::InteriorNul { position: 1024 }).message(),
        "data provided contains an interior nul byte at byte pos 1024"
    );
    assert_eq!(
        Error::FromBytesWithNul(NulError::InteriorNul { position: 0 }).message(),
        "data provided contains an interior nul byte at byte pos 0"
    );
    assert_eq!(error_diagnostic(&Error::Layout), "failed to layout.");
}

#[test]
fn report_of_each_error_is_minus_one() {
    for e in [Error::Graph, Error::Layout, Error::Render] {
        let r = report(&Err(e));
        assert_eq!(r.code, -1);
        assert_eq!(r.diagnostic, Some(e.message()));
    }
    assert_eq!(report(&Ok(0)).code, 0);
}

#[test]
fn c_string_checks() {
    assert_eq!(c_string_len(b"digraph G { A -> B; }\0"), Ok(21));
    assert_eq!(c_string_len(b"\0"), Ok(0));
    assert_eq!(c_string_len(b""), Err(NulError::NotNulTerminated));
    assert_eq!(c_string_len(b"abc"), Err(NulError::NotNulTerminated));
    assert_eq!(c_string_len(b"a\0b\0"), Err(NulError::InteriorNul { position: 1 }));
    assert_eq!(c_string_len(b"\0\0"), Err(NulError::InteriorNul { position: 0 }));
}

#[test]
fn block_sizes() {
    assert_eq!(block_size(1), Some(1));
    assert_eq!(block_size(4096), Some(4096));
    assert_eq!(block_size(i32::MAX), Some(i32::MAX as usize));
    assert_eq!(block_size(0), None);
    assert_eq!(block_size(-1), None);
}

#[test]
fn double_free_and_foreign_free_are_detected() {
    let mut reg = OutputRegistry::new();
    assert!(!reg.release(0x1000));
    assert!(reg.record(0x1000));
    assert!(reg.record(0x2000));
    assert!(!reg.record(0x1000));
    assert!(reg.is_live(0x1000));
    assert!(reg.release(0x1000));
    assert!(!reg.is_live(0x1000));
    assert!(!reg.release(0x1000));
    assert!(!reg.release(0x3000));
    assert!(reg.is_live(0x2000));
    assert!(reg.release(0x2000));
}
