use libafl_core::{
    poll_action, AshmemClient, AshmemRegistry, AshmemReply, AshmemRequest, PollAction,
    ShMemDescription,
};

fn key(n: u8) -> [u8; 20] {
    let mut k = [0u8; 20];
    k[0] = b'0' + n;
    k
}

#[test]
fn registry_hands_out_known_maps() {
    let mut reg = AshmemRegistry::new();
    let made = AshmemReply { shm_slice: key(3), fd: 3 };
    let r = reg.handle_request(AshmemRequest::NewMap(4096), Some(made)).unwrap();
    assert_eq!((r.shm_slice, r.fd), (key(3), 3));
    let again = reg
        .handle_request(AshmemRequest::ExistingMap(ShMemDescription { size: 4096, str_bytes: key(3) }), None)
        .unwrap();
    assert_eq!((again.shm_slice, again.fd), (key(3), 3));
}

#[test]
fn registry_answers_empty_for_unknown_or_failed_maps() {
    let mut reg = AshmemRegistry::new();
    let r = reg
        .handle_request(AshmemRequest::ExistingMap(ShMemDescription { size: 1, str_bytes: key(4) }), None)
        .unwrap();
    assert_eq!((r.shm_slice, r.fd), ([0u8; 20], -1));
    let r = reg.handle_request(AshmemRequest::NewMap(1), None).unwrap();
    assert_eq!((r.shm_slice, r.fd), ([0u8; 20], -1));
    assert!(reg.handle_request(AshmemRequest::Deregister(1), None).is_none());
}

#[test]
fn poll_actions() {
    assert_eq!(poll_action(true, false, true), PollAction::Serve);
    assert_eq!(poll_action(true, true, false), PollAction::Accept);
    assert_eq!(poll_action(false, true, true), PollAction::Forget);
    assert_eq!(poll_action(false, false, true), PollAction::Report);
}

#[test]
fn client_keeps_its_socket_name() {
    let c = AshmemClient::new("@ashmem_server".to_string());
    assert_eq!(c.unix_socket_file(), "@ashmem_server");
}
