use tui_prac::logfiles::{logger_paths, port_log_text};
use tui_prac::network::{
    accept_reply, announced_port, first_peer, is_multicast, is_peer_reply, multicast_group,
    port_announcement, registration, registration_reply, search_message, server_greeting,
    SearchError, PEER_PORT,
};

#[test]
fn messages_are_the_protocol_texts() {
    assert_eq!(search_message(), b"cat-choco".to_vec());
    assert_eq!(server_greeting(), b"checks".to_vec());
    assert_eq!(registration(), b"regeister".to_vec());
    assert_eq!(multicast_group(), [0b11101111, 255, 2, 134]);
    assert_eq!(PEER_PORT, 21340);
}

#[test]
fn multicast_range() {
    assert!(is_multicast([239u8, 255, 2, 134]));
    assert!(is_multicast([224u8, 0, 0, 1]));
    assert!(!is_multicast([223u8, 255, 255, 255]));
    assert!(!is_multicast([240u8, 0, 0, 0]));
    assert!(!is_multicast([127u8, 0, 0, 1]));
}

#[test]
fn replies_from_peers_are_kept() {
    assert!(is_peer_reply(9, b"cat-choco"));
    assert!(!is_peer_reply(8, b"cat-choco"));
    assert!(!is_peer_reply(9, b"cat-chocx"));
    assert_eq!(accept_reply(Some((9, "peer")), b"cat-choco"), Some("peer"));
    assert_eq!(accept_reply(Some((9, "peer")), b"dog-choco"), None);
    assert_eq!(accept_reply::<&str>(None, b"cat-choco"), None);
}

#[test]
fn first_reply_is_the_peer() {
    assert_eq!(first_peer(&vec![3, 4]), Ok(&3));
    assert_eq!(first_peer::<u8>(&vec![]), Err(SearchError::NoPeer));
}

#[test]
fn announcements_agree_with_std() {
    for p in [0u16, 1, 255, 256, 21340, u16::MAX] {
        assert_eq!(port_announcement(p), p.to_be_bytes());
        assert_eq!(announced_port(p.to_be_bytes()), p);
        assert_eq!(announced_port(port_announcement(p)), p);
    }
}

#[test]
fn greeting_decides_registration() {
    let mut buf = [0u8; 100];
    buf[..6].copy_from_slice(b"checks");
    assert_eq!(registration_reply(&buf), None);
    let mut other = [0u8; 100];
    other[..5].copy_from_slice(b"hello");
    assert_eq!(registration_reply(&other), Some(b"regeister".to_vec()));
}

#[test]
fn log_file_names() {
    assert_eq!(logger_paths(3), vec!["log/log0.log", "log/log1.log", "log/log2.log"]);
    assert!(logger_paths(0).is_empty());
    assert!(logger_paths(-4).is_empty());
    assert_eq!(logger_paths(12)[11], "log/log11.log");
    assert_eq!(port_log_text(21340), "21340");
    assert_eq!(port_log_text(0), "0");
}
