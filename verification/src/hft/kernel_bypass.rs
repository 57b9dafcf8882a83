//! Rings and sockets that bypass the kernel's network stack.

use vstd::prelude::*;

verus! {

/// Settings of a ring.
#[derive(Debug, Clone, Copy, PartialEq, Eq, Structural)]
pub struct IoUringConfig {
    pub ring_size: u32,
    pub polling: bool,
    pub sqpoll: bool,
    pub sqpoll_idle: u32,
    pub io_workers: u32,
}

impl Default for IoUringConfig {
    fn default() -> (c: Self)
        ensures
            c == (IoUringConfig {
                ring_size: 4096,
                polling: true,
                sqpoll: true,
                sqpoll_idle: 1000,
                io_workers: 2,
            }),
    {
        IoUringConfig {
            ring_size: 4096,
            polling: true,
            sqpoll: true,
            sqpoll_idle: 1000,
            io_workers: 2,
        }
    }
}

/// Settings of a socket.
#[derive(Debug, Clone)]
pub struct XdpSocketConfig {
    pub interface: String,
    pub queue_id: u32,
    pub frame_size: u32,
    pub num_frames: u32,
    pub use_hugepages: bool,
}

impl XdpSocketConfig {
    /// A copy.
    pub fn duplicate(&self) -> (c: Self)
        ensures
            c.interface@ == self.interface@,
            c.queue_id == self.queue_id,
            c.frame_size == self.frame_size,
            c.num_frames == self.num_frames,
            c.use_hugepages == self.use_hugepages,
    {
        XdpSocketConfig {
            interface: self.interface.as_str().to_string(),
            queue_id: self.queue_id,
            frame_size: self.frame_size,
            num_frames: self.num_frames,
            use_hugepages: self.use_hugepages,
        }
    }
}

impl Default for XdpSocketConfig {
    fn default() -> (c: Self)
        ensures
            c.interface@ == "eth0"@,
            c.queue_id == 0,
            c.frame_size == 2048,
            c.num_frames == 4096,
            c.use_hugepages,
    {
        XdpSocketConfig {
            interface: "eth0".to_string(),
            queue_id: 0,
            frame_size: 2048,
            num_frames: 4096,
            use_hugepages: true,
        }
    }
}

/// Why an operation was refused.
#[derive(Debug, Clone, Copy, PartialEq, Eq, Structural)]
pub enum BypassError {
    InvalidFrameSize,
    RingNotInitialized,
    SocketNotInitialized,
}

impl BypassError {
    /// The error in words.
    pub open spec fn text(self) -> Seq<char> {
        match self {
            BypassError::InvalidFrameSize => "Invalid frame size"@,
            BypassError::RingNotInitialized => "io_uring not initialized"@,
            BypassError::SocketNotInitialized => "XDP socket not initialized"@,
        }
    }

    /// The error in words.
    pub fn to_string(&self) -> (s: String)
        ensures
            s@ == self.text(),
    {
        match self {
            BypassError::InvalidFrameSize => "Invalid frame size".to_string(),
            BypassError::RingNotInitialized => "io_uring not initialized".to_string(),
            BypassError::SocketNotInitialized => "XDP socket not initialized".to_string(),
        }
    }
}

/// What is set up, and what went through it.
#[derive(Debug, Clone)]
pub struct KernelBypassManager {
    pub uring_initialized: bool,
    pub xdp_initialized: bool,
    pub packets_processed: u64,
    pub zerocopy_ops: u64,
    pub config: Option<IoUringConfig>,
    pub xdp_config: Option<XdpSocketConfig>,
}

impl KernelBypassManager {
    /// A ring or socket is set up exactly where its settings are known.
    pub open spec fn wf(&self) -> bool {
        &&& self.uring_initialized == self.config is Some
        &&& self.xdp_initialized == self.xdp_config is Some
        &&& self.xdp_config is Some ==> 1024 <= self.xdp_config->0.frame_size <= 65536
    }

    /// Nothing is set up.
    pub fn new() -> (m: Self)
        ensures
            m.wf(),
            m == (KernelBypassManager {
                uring_initialized: false,
                xdp_initialized: false,
                packets_processed: 0,
                zerocopy_ops: 0,
                config: None,
                xdp_config: None,
            }),
    {
        KernelBypassManager {
            uring_initialized: false,
            xdp_initialized: false,
            packets_processed: 0,
            zerocopy_ops: 0,
            config: None,
            xdp_config: None,
        }
    }

    /// Sets up the ring.
    pub fn initialize_uring(&mut self, config: &IoUringConfig) -> (r: Result<(), BypassError>)
        requires
            old(self).wf(),
        ensures
            final(self).wf(),
            r is Ok,
            *final(self) == (KernelBypassManager {
                config: Some(*config),
                uring_initialized: true,
                ..*old(self)
            }),
    {
        self.config = Some(*config);
        self.uring_initialized = true;
        Ok(())
    }

    /// Sets up the socket, for frames of 1024 to 65536 bytes.
    pub fn initialize_xdp(&mut self, config: &XdpSocketConfig) -> (r: Result<(), BypassError>)
        requires
            old(self).wf(),
        ensures
            final(self).wf(),
            r is Ok <==> 1024 <= config.frame_size <= 65536,
            r is Err ==> r->Err_0 == BypassError::InvalidFrameSize && *final(self) == *old(self),
            r is Ok ==> final(self).xdp_initialized && final(self).xdp_config is Some && {
                let c = final(self).xdp_config->0;
                c.interface@ == config.interface@ && c.queue_id == config.queue_id && c.frame_size
                    == config.frame_size && c.num_frames == config.num_frames && c.use_hugepages
                    == config.use_hugepages
            },
            final(self).uring_initialized == old(self).uring_initialized,
            final(self).config == old(self).config,
            final(self).packets_processed == old(self).packets_processed,
            final(self).zerocopy_ops == old(self).zerocopy_ops,
    {
        if config.frame_size < 1024 || config.frame_size > 65536 {
            return Err(BypassError::InvalidFrameSize);
        }
        self.xdp_config = Some(config.duplicate());
        self.xdp_initialized = true;
        Ok(())
    }

    /// Submits an operation to the ring, and gives the number of packets
    /// processed.
    pub fn submit_io(&mut self, opcode: u8, fd: i32, offset: u64, len: u32) -> (r: Result<
        u64,
        BypassError,
    >)
        ensures
            r == (if old(self).uring_initialized {
                Ok::<u64, BypassError>(old(self).packets_processed.wrapping_add(1))
            } else {
                Err(BypassError::RingNotInitialized)
            }),
            *final(self) == (if old(self).uring_initialized {
                KernelBypassManager {
                    packets_processed: old(self).packets_processed.wrapping_add(1),
                    ..*old(self)
                }
            } else {
                *old(self)
            }),
    {
        if !self.uring_initialized {
            return Err(BypassError::RingNotInitialized);
        }
        self.packets_processed = self.packets_processed.wrapping_add(1);
        Ok(self.packets_processed)
    }

    /// Receives a packet into a buffer: its length is the buffer's, 1500 at
    /// most. The bytes stay as they are.
    pub fn receive_packet_zerocopy(&mut self, buffer: &mut [u8]) -> (r: Result<usize, BypassError>)
        ensures
            final(buffer)@ == old(buffer)@,
            r == (if !old(self).xdp_initialized {
                Err::<usize, BypassError>(BypassError::SocketNotInitialized)
            } else if old(buffer)@.len() < 1500 {
                Ok(old(buffer)@.len() as usize)
            } else {
                Ok(1500)
            }),
            *final(self) == (if old(self).xdp_initialized {
                KernelBypassManager {
                    packets_processed: old(self).packets_processed.wrapping_add(1),
                    zerocopy_ops: old(self).zerocopy_ops.wrapping_add(1),
                    ..*old(self)
                }
            } else {
                *old(self)
            }),
    {
        if !self.xdp_initialized {
            return Err(BypassError::SocketNotInitialized);
        }
        self.zerocopy_ops = self.zerocopy_ops.wrapping_add(1);
        self.packets_processed = self.packets_processed.wrapping_add(1);
        let len: usize = buffer.len();
        if len < 1500 {
            Ok(len)
        } else {
            Ok(1500)
        }
    }

    /// Sends a packet, and gives its length.
    pub fn send_packet_zerocopy(&mut self, buffer: &[u8]) -> (r: Result<usize, BypassError>)
        ensures
            r == (if old(self).xdp_initialized {
                Ok::<usize, BypassError>(buffer@.len() as usize)
            } else {
                Err(BypassError::SocketNotInitialized)
            }),
            *final(self) == (if old(self).xdp_initialized {
                KernelBypassManager {
                    zerocopy_ops: old(self).zerocopy_ops.wrapping_add(1),
                    ..*old(self)
                }
            } else {
                *old(self)
            }),
    {
        if !self.xdp_initialized {
            return Err(BypassError::SocketNotInitialized);
        }
        self.zerocopy_ops = self.zerocopy_ops.wrapping_add(1);
        Ok(buffer.len())
    }

    /// Whether ring and socket are set up, packets processed, and operations
    /// without copying.
    pub fn get_stats(&self) -> (r: (bool, bool, u64, u64))
        ensures
            r == (
                self.uring_initialized,
                self.xdp_initialized,
                self.packets_processed,
                self.zerocopy_ops,
            ),
    {
        (self.uring_initialized, self.xdp_initialized, self.packets_processed, self.zerocopy_ops)
    }

    /// Whether ring and socket are set up.
    pub fn is_operational(&self) -> (r: bool)
        ensures
            r == (self.uring_initialized && self.xdp_initialized),
    {
        self.uring_initialized && self.xdp_initialized
    }

    /// Takes down ring and socket; the counters stay.
    pub fn shutdown(&mut self)
        ensures
            final(self).wf(),
            *final(self) == (KernelBypassManager {
                uring_initialized: false,
                xdp_initialized: false,
                config: None,
                xdp_config: None,
                ..*old(self)
            }),
    {
        self.uring_initialized = false;
        self.xdp_initialized = false;
        self.config = None;
        self.xdp_config = None;
    }
}

impl Default for KernelBypassManager {
    fn default() -> (m: Self)
        ensures
            m.wf(),
            m == (KernelBypassManager {
                uring_initialized: false,
                xdp_initialized: false,
                packets_processed: 0,
                zerocopy_ops: 0,
                config: None,
                xdp_config: None,
            }),
    {
        KernelBypassManager::new()
    }
}

} // verus!
