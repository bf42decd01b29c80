use bridge::clipboard::on_clipboard_update;
use bridge::clipboard::route_clipboard_update;
use bridge::clipboard::ClipDirection;
use bridge::clipboard::ClipboardMailbox;

#[test]
fn later_publish_supersedes_unconsumed_payload() {
    let mut mailbox = ClipboardMailbox::new();
    let payload_a = vec![1, 1, 1];
    let payload_b = vec![2, 2];
    mailbox.publish(ClipDirection::HostToClient, payload_a);
    mailbox.publish(ClipDirection::HostToClient, payload_b);
    // Only the later payload is delivered; the earlier one is lost by design.
    assert_eq!(mailbox.take(ClipDirection::HostToClient), Some(vec![2, 2]));
    assert_eq!(mailbox.take(ClipDirection::HostToClient), None);
}

#[test]
fn take_removes_payload_atomically() {
    let mut mailbox = ClipboardMailbox::new();
    mailbox.publish(ClipDirection::ClientToHost, vec![7]);
    assert_eq!(mailbox.take(ClipDirection::ClientToHost), Some(vec![7]));
    assert_eq!(mailbox.take(ClipDirection::ClientToHost), None);
}

#[test]
fn empty_mailbox_has_nothing_to_take() {
    let mut mailbox = ClipboardMailbox::new();
    assert_eq!(mailbox.take(ClipDirection::HostToClient), None);
    assert_eq!(mailbox.take(ClipDirection::ClientToHost), None);
}

#[test]
fn directions_are_independent() {
    let mut mailbox = ClipboardMailbox::new();
    mailbox.publish(ClipDirection::HostToClient, vec![1]);
    mailbox.publish(ClipDirection::ClientToHost, vec![2]);
    assert_eq!(mailbox.take(ClipDirection::ClientToHost), Some(vec![2]));
    // Taking one direction leaves the other untouched.
    assert_eq!(mailbox.take(ClipDirection::HostToClient), Some(vec![1]));
}

#[test]
fn clear_discards_both_directions() {
    let mut mailbox = ClipboardMailbox::new();
    mailbox.publish(ClipDirection::HostToClient, vec![1]);
    mailbox.publish(ClipDirection::ClientToHost, vec![2]);
    mailbox.clear();
    assert_eq!(mailbox.take(ClipDirection::HostToClient), None);
    assert_eq!(mailbox.take(ClipDirection::ClientToHost), None);
}

#[test]
fn routing_splits_tag_and_payload() {
    let client = route_clipboard_update(&vec![1, 10, 20]);
    assert_eq!(client, Some((ClipDirection::ClientToHost, vec![10, 20])));
    let host = route_clipboard_update(&vec![0, 30]);
    assert_eq!(host, Some((ClipDirection::HostToClient, vec![30])));
    // Any tag other than 1 selects host-to-client.
    let other = route_clipboard_update(&vec![9]);
    assert_eq!(other, Some((ClipDirection::HostToClient, vec![])));
}

#[test]
fn empty_notification_routes_nowhere() {
    assert_eq!(route_clipboard_update(&Vec::new()), None);
}

#[test]
fn routed_payload_round_trips_through_mailbox() {
    let mut mailbox = ClipboardMailbox::new();
    let (direction, payload) = route_clipboard_update(&vec![1, 3, 4, 5]).unwrap();
    mailbox.publish(direction, payload);
    assert_eq!(mailbox.take(ClipDirection::ClientToHost), Some(vec![3, 4, 5]));
}

#[test]
fn clipboard_notifications_publish_into_the_selected_mailbox() {
    let mut mailbox = ClipboardMailbox::new();
    on_clipboard_update(&mut mailbox, &vec![1, 7, 8]);
    on_clipboard_update(&mut mailbox, &vec![0, 9]);
    assert_eq!(mailbox.take(ClipDirection::ClientToHost), Some(vec![7, 8]));
    assert_eq!(mailbox.take(ClipDirection::HostToClient), Some(vec![9]));
    // An empty notification is dropped.
    on_clipboard_update(&mut mailbox, &Vec::new());
    assert_eq!(mailbox.take(ClipDirection::HostToClient), None);
    assert_eq!(mailbox.take(ClipDirection::ClientToHost), None);
}
