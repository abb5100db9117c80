//! Packets exchanged between the chat server and its clients.
use vstd::prelude::*;

verus! {

/// Packet sent from client to server.
#[derive(Debug, PartialEq)]
pub enum PacketC2S {
    /// Send a message to the current channel.
    NewMessage { text: String },
    /// Set your nick.
    SetNick { nick: String },
    /// Join a new channel (if not already joined) and set it as the current channel.
    JoinChannel { name: String },
    /// Leave the current channel.
    LeaveChannel,
    /// Request the channel list; the server answers with `PacketS2C::ListChannelsResponse`.
    ListChannels,
    /// Request server stats; the server answers with `PacketS2C::ListStatsResponse`.
    ListStats,
}

/// Channel info, part of `PacketS2C::ListChannelsResponse`.
#[derive(Debug, PartialEq)]
pub struct ListChannelInfo {
    /// Name of the channel.
    pub name: String,
    /// Number of members.
    pub member_count: u32,
}

/// Packet sent from server to client.
#[derive(Debug, PartialEq)]
pub enum PacketS2C {
    /// Notification of a new message.
    NewMessage { nick: String, text: String },
    /// Response to `PacketC2S::ListChannels`.
    ListChannelsResponse { channels: Vec<ListChannelInfo> },
    /// Response to `PacketC2S::ListStats`.
    ListStatsResponse {
        /// Number of clients currently connected.
        client_num: u32,
        /// Time since the server started.
        server_uptime: std::time::Duration,
    },
}


/// A client packet as plain values.
pub enum PacketC2SView {
    NewMessage { text: Seq<char> },
    SetNick { nick: Seq<char> },
    JoinChannel { name: Seq<char> },
    LeaveChannel,
    ListChannels,
    ListStats,
}

impl View for PacketC2S {
    type V = PacketC2SView;

    open spec fn view(&self) -> PacketC2SView {
        match self {
            PacketC2S::NewMessage { text } => PacketC2SView::NewMessage { text: text@ },
            PacketC2S::SetNick { nick } => PacketC2SView::SetNick { nick: nick@ },
            PacketC2S::JoinChannel { name } => PacketC2SView::JoinChannel { name: name@ },
            PacketC2S::LeaveChannel => PacketC2SView::LeaveChannel,
            PacketC2S::ListChannels => PacketC2SView::ListChannels,
            PacketC2S::ListStats => PacketC2SView::ListStats,
        }
    }
}

} // verus!
