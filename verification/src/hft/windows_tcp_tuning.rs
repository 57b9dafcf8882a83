//! Socket options for low latency.

use vstd::prelude::*;

verus! {

/// Bytes in a send buffer.
pub const DEFAULT_SEND_BUFFER_SIZE: i32 = 262_144;

/// Bytes in a receive buffer.
pub const DEFAULT_RECV_BUFFER_SIZE: i32 = 262_144;

/// Milliseconds before the first probe of an idle connection.
pub const KEEPALIVE_IDLE_MS: u32 = 30_000;

/// Milliseconds between probes.
pub const KEEPALIVE_INTERVAL_MS: u32 = 5_000;

/// Probes before a connection is given up.
pub const KEEPALIVE_COUNT: u32 = 5;

/// Options of a socket.
#[derive(Debug, Clone, Copy, PartialEq, Eq, Structural)]
pub struct TcpTuningConfig {
    pub no_delay: bool,
    pub send_buffer_size: i32,
    pub recv_buffer_size: i32,
    pub keepalive_enabled: bool,
    pub keepalive_idle_ms: u32,
    pub keepalive_interval_ms: u32,
    pub keepalive_count: u32,
    pub reuse_addr: bool,
}

impl Default for TcpTuningConfig {
    fn default() -> (c: Self)
        ensures
            c == TcpTuningConfig::usual(),
    {
        TcpTuningConfig {
            no_delay: true,
            send_buffer_size: DEFAULT_SEND_BUFFER_SIZE,
            recv_buffer_size: DEFAULT_RECV_BUFFER_SIZE,
            keepalive_enabled: true,
            keepalive_idle_ms: KEEPALIVE_IDLE_MS,
            keepalive_interval_ms: KEEPALIVE_INTERVAL_MS,
            keepalive_count: KEEPALIVE_COUNT,
            reuse_addr: true,
        }
    }
}

/// An option that is set on a socket.
#[derive(Debug, Clone, Copy, PartialEq, Eq, Structural)]
pub enum SocketOption {
    NoDelay,
    SendBuffer { bytes: i32 },
    ReceiveBuffer { bytes: i32 },
    ReuseAddress,
}

impl SocketOption {
    /// What is said where the option could not be set, before the error code.
    pub open spec fn failure(self) -> Seq<char> {
        match self {
            SocketOption::NoDelay => "Failed to set TCP_NODELAY: "@,
            SocketOption::SendBuffer { bytes: _ } => "Failed to set SO_SNDBUF: "@,
            SocketOption::ReceiveBuffer { bytes: _ } => "Failed to set SO_RCVBUF: "@,
            SocketOption::ReuseAddress => "Failed to set SO_REUSEADDR: "@,
        }
    }

    /// What is said where the option could not be set, before the error code.
    pub fn failure_text(&self) -> (s: String)
        ensures
            s@ == self.failure(),
    {
        match self {
            SocketOption::NoDelay => "Failed to set TCP_NODELAY: ".to_string(),
            SocketOption::SendBuffer { bytes: _ } => "Failed to set SO_SNDBUF: ".to_string(),
            SocketOption::ReceiveBuffer { bytes: _ } => "Failed to set SO_RCVBUF: ".to_string(),
            SocketOption::ReuseAddress => "Failed to set SO_REUSEADDR: ".to_string(),
        }
    }
}

impl TcpTuningConfig {
    /// The usual options.
    pub open spec fn usual() -> Self {
        TcpTuningConfig {
            no_delay: true,
            send_buffer_size: 262_144,
            recv_buffer_size: 262_144,
            keepalive_enabled: true,
            keepalive_idle_ms: 30_000,
            keepalive_interval_ms: 5_000,
            keepalive_count: 5,
            reuse_addr: true,
        }
    }

    /// The options to set, in this order.
    pub open spec fn options(self) -> Seq<SocketOption> {
        (if self.no_delay {
            seq![SocketOption::NoDelay]
        } else {
            Seq::empty()
        }) + seq![
            SocketOption::SendBuffer { bytes: self.send_buffer_size },
            SocketOption::ReceiveBuffer { bytes: self.recv_buffer_size },
        ] + (if self.reuse_addr {
            seq![SocketOption::ReuseAddress]
        } else {
            Seq::empty()
        })
    }

    /// The options to set, in this order.
    pub fn socket_options(&self) -> (r: Vec<SocketOption>)
        ensures
            r@ == self.options(),
    {
        let mut r: Vec<SocketOption> = Vec::new();
        if self.no_delay {
            r.push(SocketOption::NoDelay);
        }
        r.push(SocketOption::SendBuffer { bytes: self.send_buffer_size });
        r.push(SocketOption::ReceiveBuffer { bytes: self.recv_buffer_size });
        if self.reuse_addr {
            r.push(SocketOption::ReuseAddress);
        }
        assert(r@ =~= self.options());
        r
    }

    /// The options of a socket of which three were read; the others are the
    /// usual ones.
    pub fn from_readings(no_delay: bool, send_buffer_size: i32, recv_buffer_size: i32) -> (c: Self)
        ensures
            c == (TcpTuningConfig {
                no_delay,
                send_buffer_size,
                recv_buffer_size,
                ..TcpTuningConfig::usual()
            }),
    {
        let mut c = TcpTuningConfig::default();
        c.no_delay = no_delay;
        c.send_buffer_size = send_buffer_size;
        c.recv_buffer_size = recv_buffer_size;
        c
    }
}

} // verus!
