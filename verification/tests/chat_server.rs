use teamchat::chat_server::{idle_limit_exceeded, ChatAction, ConnectionState, ServerState};
use teamchat::chat_types::{ListChannelInfo, PacketC2S, PacketS2C};
use std::collections::HashSet;

/// The action with its recipients in increasing order.
fn sorted(action: ChatAction) -> ChatAction {
    match action {
        ChatAction::Broadcast { mut recipients, packet } => {
            recipients.sort();
            ChatAction::Broadcast { recipients, packet }
        }
        other => other,
    }
}

#[test]
fn connect_assigns_increasing_ids() {
    let mut state = ServerState::new();
    assert_eq!(state.connect(), 1);
    assert_eq!(state.connect(), 2);
    assert_eq!(state.clients, HashSet::from([1, 2]));
    assert_eq!(state.last_id, 2);
}

#[test]
fn join_then_message_reaches_channel_members() {
    let mut state = ServerState::new();
    let a = state.connect();
    let b = state.connect();
    let c = state.connect();
    let mut conn_a = ConnectionState::new();
    let mut conn_b = ConnectionState::new();
    let mut conn_c = ConnectionState::new();
    let join = |name: &str| PacketC2S::JoinChannel { name: name.to_owned() };
    assert_eq!(state.handle_packet(a, &mut conn_a, join("rust")), ChatAction::Nothing);
    assert_eq!(state.handle_packet(b, &mut conn_b, join("rust")), ChatAction::Nothing);
    assert_eq!(state.handle_packet(c, &mut conn_c, join("other")), ChatAction::Nothing);
    state.handle_packet(a, &mut conn_a, PacketC2S::SetNick { nick: "alice".to_owned() });
    let action = state.handle_packet(a, &mut conn_a, PacketC2S::NewMessage { text: "hi".to_owned() });
    assert_eq!(
        sorted(action),
        ChatAction::Broadcast {
            recipients: vec![a, b],
            packet: PacketS2C::NewMessage { nick: "alice".to_owned(), text: "hi".to_owned() },
        }
    );
}

#[test]
fn message_without_channel_is_not_sent() {
    let mut state = ServerState::new();
    let a = state.connect();
    let mut conn = ConnectionState::new();
    let action = state.handle_packet(a, &mut conn, PacketC2S::NewMessage { text: "hello".to_owned() });
    assert_eq!(action, ChatAction::NoChannel);
}

#[test]
fn default_nick_is_empty() {
    let mut state = ServerState::new();
    let a = state.connect();
    let mut conn = ConnectionState::new();
    state.handle_packet(a, &mut conn, PacketC2S::JoinChannel { name: "x".to_owned() });
    let action = state.handle_packet(a, &mut conn, PacketC2S::NewMessage { text: "t".to_owned() });
    assert_eq!(
        sorted(action),
        ChatAction::Broadcast {
            recipients: vec![a],
            packet: PacketS2C::NewMessage { nick: "".to_owned(), text: "t".to_owned() },
        }
    );
}

#[test]
fn list_channels_counts_members_and_keeps_empty_channels() {
    let mut state = ServerState::new();
    let a = state.connect();
    let b = state.connect();
    let mut conn_a = ConnectionState::new();
    let mut conn_b = ConnectionState::new();
    state.handle_packet(a, &mut conn_a, PacketC2S::JoinChannel { name: "one".to_owned() });
    state.handle_packet(b, &mut conn_b, PacketC2S::JoinChannel { name: "one".to_owned() });
    state.handle_packet(b, &mut conn_b, PacketC2S::JoinChannel { name: "two".to_owned() });
    state.handle_packet(b, &mut conn_b, PacketC2S::LeaveChannel);
    assert_eq!(conn_b.current_channel, None);
    let action = state.handle_packet(a, &mut conn_a, PacketC2S::ListChannels);
    assert_eq!(
        action,
        ChatAction::Reply(PacketS2C::ListChannelsResponse {
            channels: vec![
                ListChannelInfo { name: "one".to_owned(), member_count: 2 },
                ListChannelInfo { name: "two".to_owned(), member_count: 0 },
            ],
        })
    );
}

#[test]
fn joining_twice_counts_once() {
    let mut state = ServerState::new();
    let a = state.connect();
    let mut conn = ConnectionState::new();
    state.handle_packet(a, &mut conn, PacketC2S::JoinChannel { name: "one".to_owned() });
    state.handle_packet(a, &mut conn, PacketC2S::JoinChannel { name: "one".to_owned() });
    assert_eq!(state.list_channels(), vec![ListChannelInfo { name: "one".to_owned(), member_count: 1 }]);
}

#[test]
fn stats_report_client_count() {
    let mut state = ServerState::new();
    let a = state.connect();
    state.connect();
    state.connect();
    let mut conn = ConnectionState::new();
    assert_eq!(state.handle_packet(a, &mut conn, PacketC2S::ListStats), ChatAction::ReplyStats { client_num: 3 });
}

#[test]
fn disconnect_leaves_every_channel() {
    let mut state = ServerState::new();
    let a = state.connect();
    let b = state.connect();
    let mut conn_a = ConnectionState::new();
    let mut conn_b = ConnectionState::new();
    state.handle_packet(a, &mut conn_a, PacketC2S::JoinChannel { name: "one".to_owned() });
    state.handle_packet(a, &mut conn_a, PacketC2S::JoinChannel { name: "two".to_owned() });
    state.handle_packet(b, &mut conn_b, PacketC2S::JoinChannel { name: "two".to_owned() });
    state.disconnect(a);
    assert_eq!(state.clients, HashSet::from([b]));
    assert_eq!(
        state.list_channels(),
        vec![
            ListChannelInfo { name: "one".to_owned(), member_count: 0 },
            ListChannelInfo { name: "two".to_owned(), member_count: 1 },
        ]
    );
    let action = state.handle_packet(b, &mut conn_b, PacketC2S::NewMessage { text: "x".to_owned() });
    assert_eq!(
        sorted(action),
        ChatAction::Broadcast {
            recipients: vec![b],
            packet: PacketS2C::NewMessage { nick: "".to_owned(), text: "x".to_owned() },
        }
    );
}

#[test]
fn shutdown_notice_goes_to_all_clients() {
    let mut state = ServerState::new();
    state.connect();
    state.connect();
    let (mut recipients, packet) = state.shutdown_notice();
    recipients.sort();
    assert_eq!(recipients, vec![1, 2]);
    assert_eq!(
        packet,
        PacketS2C::NewMessage {
            nick: "Server".to_owned(),
            text: "Server is shutting down NOW!".to_owned(),
        }
    );
}

#[test]
fn idle_limit_is_five_minutes() {
    assert!(!idle_limit_exceeded(299, 999_999_999));
    assert!(!idle_limit_exceeded(300, 0));
    assert!(idle_limit_exceeded(300, 1));
    assert!(idle_limit_exceeded(301, 0));
}
