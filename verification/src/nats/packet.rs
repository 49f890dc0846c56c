//! The packets of the NATS text protocol.
use crate::buffer::bytes_seq;
use bytes::Bytes;
use vstd::prelude::*;

verus! {

/// INFO is sent by the server immediately after a client connects.
#[derive(Debug, Clone, PartialEq)]
pub struct ServerInfo {
    pub server_id: String,
    pub server_name: String,
    pub version: String,
    pub proto: u8,
    pub host: String,
    pub port: u16,
    pub headers: bool,
    pub auth_required: bool,
    pub tls_required: bool,
    pub tls_verify: bool,
    pub tls_available: bool,
    pub max_payload: u64,
    pub jetstream: bool,
    pub client_id: Option<u64>,
    pub client_ip: Option<String>,
    pub nonce: Option<String>,
    pub cluster: Option<String>,
    pub cluster_dynamic: Option<bool>,
    pub connect_urls: Option<Vec<String>>,
    pub ws_connect_urls: Option<Vec<String>>,
    pub ldm: Option<bool>,
    pub git_commit: Option<String>,
    pub go: Option<String>,
    pub domain: Option<String>,
    pub xkey: Option<String>,
}

/// CONNECT is sent by the client after receiving INFO.
#[derive(Debug, Clone, PartialEq)]
pub struct ClientConnect {
    pub verbose: bool,
    pub pedantic: bool,
    pub tls_required: bool,
    pub auth_token: Option<String>,
    pub user: Option<String>,
    pub pass: Option<String>,
    pub name: String,
    pub lang: String,
    pub version: String,
    pub protocol: Option<u8>,
    pub echo: Option<bool>,
    pub sig: Option<String>,
    pub jwt: Option<String>,
    pub no_responders: Option<bool>,
    pub headers: Option<bool>,
    pub nkey: Option<String>,
}

#[derive(Debug, Clone, PartialEq)]
pub enum NatsPacket {
    // Server to client
    Info(ServerInfo),
    Msg { subject: String, sid: String, reply_to: Option<String>, payload: Bytes },
    /// HMSG: a message with headers. `headers` is the raw header block:
    /// `NATS/1.0[status]\r\n[Key: Value\r\n...]\r\n`.
    HMsg {
        subject: String,
        sid: String,
        reply_to: Option<String>,
        headers: Bytes,
        payload: Bytes,
    },
    Ping,
    Pong,
    /// `+OK`
    ServerOk,
    /// `-ERR '<message>'`
    ServerErr(String),
    // Client to server
    Connect(ClientConnect),
    Pub { subject: String, reply_to: Option<String>, payload: Bytes },
    /// HPUB: a publish with headers. `headers` is the raw header block:
    /// `NATS/1.0\r\n[Key: Value\r\n...]\r\n`.
    HPub { subject: String, reply_to: Option<String>, headers: Bytes, payload: Bytes },
    Sub { subject: String, queue_group: Option<String>, sid: String },
    Unsub { sid: String, max_msgs: Option<u32> },
}

/// A packet with its texts as characters and its payloads as bytes.
pub enum NatsPacketView {
    Info(ServerInfo),
    Msg { subject: Seq<char>, sid: Seq<char>, reply_to: Option<Seq<char>>, payload: Seq<u8> },
    HMsg {
        subject: Seq<char>,
        sid: Seq<char>,
        reply_to: Option<Seq<char>>,
        headers: Seq<u8>,
        payload: Seq<u8>,
    },
    Ping,
    Pong,
    ServerOk,
    ServerErr(Seq<char>),
    Connect(ClientConnect),
    Pub { subject: Seq<char>, reply_to: Option<Seq<char>>, payload: Seq<u8> },
    HPub { subject: Seq<char>, reply_to: Option<Seq<char>>, headers: Seq<u8>, payload: Seq<u8> },
    Sub { subject: Seq<char>, queue_group: Option<Seq<char>>, sid: Seq<char> },
    Unsub { sid: Seq<char>, max_msgs: Option<u32> },
}

/// The characters of an optional text.
pub open spec fn opt_text(o: Option<String>) -> Option<Seq<char>> {
    match o {
        Some(s) => Some(s@),
        None => None,
    }
}

impl View for NatsPacket {
    type V = NatsPacketView;

    open spec fn view(&self) -> NatsPacketView {
        match self {
            NatsPacket::Info(i) => NatsPacketView::Info(*i),
            NatsPacket::Msg { subject, sid, reply_to, payload } => NatsPacketView::Msg {
                subject: subject@,
                sid: sid@,
                reply_to: opt_text(*reply_to),
                payload: bytes_seq(*payload),
            },
            NatsPacket::HMsg { subject, sid, reply_to, headers, payload } => NatsPacketView::HMsg {
                subject: subject@,
                sid: sid@,
                reply_to: opt_text(*reply_to),
                headers: bytes_seq(*headers),
                payload: bytes_seq(*payload),
            },
            NatsPacket::Ping => NatsPacketView::Ping,
            NatsPacket::Pong => NatsPacketView::Pong,
            NatsPacket::ServerOk => NatsPacketView::ServerOk,
            NatsPacket::ServerErr(m) => NatsPacketView::ServerErr(m@),
            NatsPacket::Connect(c) => NatsPacketView::Connect(*c),
            NatsPacket::Pub { subject, reply_to, payload } => NatsPacketView::Pub {
                subject: subject@,
                reply_to: opt_text(*reply_to),
                payload: bytes_seq(*payload),
            },
            NatsPacket::HPub { subject, reply_to, headers, payload } => NatsPacketView::HPub {
                subject: subject@,
                reply_to: opt_text(*reply_to),
                headers: bytes_seq(*headers),
                payload: bytes_seq(*payload),
            },
            NatsPacket::Sub { subject, queue_group, sid } => NatsPacketView::Sub {
                subject: subject@,
                queue_group: opt_text(*queue_group),
                sid: sid@,
            },
            NatsPacket::Unsub { sid, max_msgs } => NatsPacketView::Unsub {
                sid: sid@,
                max_msgs: *max_msgs,
            },
        }
    }
}

} // verus!
