use snarkos_node::address::IpAddr;
use snarkos_node::callback_handle::{CallbackError, CallbackHandle};
use snarkos_node::keyed_list::KeyedList;
use snarkos_node::rest::error::{in_context, single, RestError};
use snarkos_node::signals::{SignalHandler, Stoppable};
use snarkos_node::text::{
    contains, decimal_text, ends_with, equal, is_white_space, join_texts, parse_u32, split_text,
    starts_with, trim, trim_end,
};

#[test]
fn numerals_are_written_as_std_writes_them() {
    for number in [0u64, 7, 9, 10, 99, 100, 4_294_967_295, u64::MAX] {
        assert_eq!(decimal_text(number), number.to_string());
    }
}

#[test]
fn numerals_are_read_as_std_reads_them() {
    for text in [
        "", "+", "-", "0", "-0", "+7", "007", "++7", "12a", " 12", "4294967295", "4294967296",
        "00000000004294967295", "99999999999999999999", "\u{661}",
    ] {
        assert_eq!(parse_u32(text), text.parse::<u32>().ok(), "{text:?}");
    }
}

#[test]
fn white_space_is_what_std_takes_for_it() {
    for code in 0..0x11_0000u32 {
        if let Some(c) = char::from_u32(code) {
            assert_eq!(is_white_space(c), c.is_whitespace(), "{code:x}");
        }
    }
}

#[test]
fn texts_are_trimmed_as_std_trims_them() {
    for text in ["", " ", "a", " a", "a\n", "\t a b \u{3000}", "\u{200b}a"] {
        assert_eq!(trim(text), text.trim(), "{text:?}");
    }
    for text in ["", "/", "//", "a", "a/", "/a//", "a/b"] {
        assert_eq!(trim_end(text, '/'), text.trim_end_matches('/'), "{text:?}");
    }
}

#[test]
fn texts_are_split_and_joined_as_std_does_it() {
    for text in ["", ",", "a", "a,", ",a", "a,b", "a,,b"] {
        let parts = split_text(text, ',');
        assert_eq!(parts, text.split(',').collect::<Vec<_>>(), "{text:?}");
        assert_eq!(join_texts(&parts, ","), text);
    }
    assert_eq!(join_texts(&Vec::new(), ", "), "");
    assert_eq!(join_texts(&vec!["a".to_string(), "b".to_string()], ", "), "a, b");
}

#[test]
fn texts_are_searched_as_std_searches_them() {
    let texts = ["", "a", "b", "ab", "aab", "aba", "\u{e9}a"];
    for text in texts {
        for part in texts {
            assert_eq!(equal(text, part), text == part);
            assert_eq!(starts_with(text, part), text.starts_with(part));
            assert_eq!(ends_with(text, part), text.ends_with(part));
            assert_eq!(contains(text, part), text.contains(part));
        }
    }
}

#[test]
fn a_keyed_list_replaces_the_value_of_a_key() {
    let (first, second) = (IpAddr::V4(1), IpAddr::V6(1));
    let mut list: KeyedList<IpAddr, &str> = KeyedList::new();
    assert!(!list.contains_key(&first));
    assert_eq!(list.insert(first, "one"), None);
    assert_eq!(list.insert(second, "two"), None);
    assert_eq!(list.insert(first, "uno"), Some("one"));
    assert_eq!(list.len(), 2);
    assert!(list.contains_key(&first));
    assert_eq!(list.get(&first), Some(&"uno"));
    assert_eq!(list.remove(&first), Some("uno"));
    assert_eq!(list.remove(&first), None);
    assert_eq!(list.keys(), vec![second]);
}

#[test]
fn the_context_of_an_error_comes_first() {
    let chain = in_context("outer".to_string(), single("inner".to_string()));
    assert_eq!(chain, vec!["outer".to_string(), "inner".to_string()]);
    let error = RestError::with_context(422, "outermost".to_string(), chain);
    assert_eq!(error.status(), 422);
    assert_eq!(error.to_string(), "outermost");
    assert_eq!(error.chain.len(), 3);
}

#[test]
fn a_second_callback_is_refused_and_held() {
    let mut handle: CallbackHandle<u8> = CallbackHandle::default();
    assert_eq!(handle.set(1), Ok(()));
    assert_eq!(handle.set(2), Err(CallbackError::AlreadySet));
    assert_eq!(handle.get(), Some(2));
    handle.clear();
    handle.clear();
    assert_eq!(handle.set(3), Ok(()));
}

#[test]
fn the_waiting_task_is_told_once() {
    let mut handler = SignalHandler::new();
    assert!(handler.notify_stop());
    assert!(!handler.notify_stop());
    handler.stop();
    assert!(handler.is_stopped());
}
