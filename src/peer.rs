use vstd::prelude::*;
use vstd::string::StringExecFns;
use vstd::string::StrSliceExecFns;

use crate::codec::{basename, basename_start, lemma_last_separator};

verus! {

/// Operating system that a peer reports in the discovery exchange.
#[derive(Debug, Clone, Copy, Hash, PartialEq, Eq, Structural)]
pub enum OperatingSystem {
    Linux,
    Windows,
    Macos,
    Other,
    Unknown,
}

/// The byte that stands for each operating system on the wire.
pub open spec fn os_code(os: OperatingSystem) -> u8 {
    match os {
        OperatingSystem::Linux => 0,
        OperatingSystem::Windows => 1,
        OperatingSystem::Macos => 2,
        OperatingSystem::Other => 3,
        OperatingSystem::Unknown => 4,
    }
}

impl OperatingSystem {
    pub fn to_byte(&self) -> (r: u8)
        ensures
            r == os_code(*self),
    {
        match self {
            OperatingSystem::Linux => 0,
            OperatingSystem::Windows => 1,
            OperatingSystem::Macos => 2,
            OperatingSystem::Other => 3,
            OperatingSystem::Unknown => 4,
        }
    }

    /// The operating system whose code is `b`; `None` for a byte outside the enumeration.
    pub fn from_byte(b: u8) -> (r: Option<OperatingSystem>)
        ensures
            b <= 4 <==> r is Some,
            r matches Some(os) ==> os_code(os) == b,
    {
        match b {
            0 => Some(OperatingSystem::Linux),
            1 => Some(OperatingSystem::Windows),
            2 => Some(OperatingSystem::Macos),
            3 => Some(OperatingSystem::Other),
            4 => Some(OperatingSystem::Unknown),
            _ => None,
        }
    }
}

/// Whether this host is receiving or sending a payload.
#[derive(Debug, Clone, Copy, PartialEq, Eq, Structural)]
pub enum Direction {
    Incoming,
    Outgoing,
}

/// What a payload is: one regular file, or a directory archived to a zip.
#[derive(Debug, Clone, Copy, PartialEq, Eq, Structural)]
pub enum TransferType {
    File,
    Directory,
}

/// The byte that stands for each transfer type on the wire.
pub open spec fn transfer_type_code(t: TransferType) -> u8 {
    match t {
        TransferType::File => 0,
        TransferType::Directory => 1,
    }
}

impl TransferType {
    pub fn to_byte(&self) -> (r: u8)
        ensures
            r == transfer_type_code(*self),
    {
        match self {
            TransferType::File => 0,
            TransferType::Directory => 1,
        }
    }

    /// The transfer type whose code is `b`; `None` for a byte outside the enumeration.
    pub fn from_byte(b: u8) -> (r: Option<TransferType>)
        ensures
            b <= 1 <==> r is Some,
            r matches Some(t) ==> transfer_type_code(t) == b,
    {
        match b {
            0 => Some(TransferType::File),
            1 => Some(TransferType::Directory),
            _ => None,
        }
    }
}

/// Identifier of a peer: the bytes of the multihash of its public key.
#[derive(Debug, Clone, Hash, PartialEq, Eq)]
pub struct PeerId {
    pub bytes: Vec<u8>,
}

impl View for PeerId {
    type V = Seq<u8>;

    open spec fn view(&self) -> Seq<u8> {
        self.bytes@
    }
}

impl PeerId {
    pub fn new(bytes: Vec<u8>) -> (r: PeerId)
        ensures
            r@ == bytes@,
    {
        PeerId { bytes }
    }

    /// A copy of this identifier.
    pub fn duplicate(&self) -> (r: PeerId)
        ensures
            r@ == self@,
    {
        PeerId { bytes: vstd::slice::slice_to_vec(self.bytes.as_slice()) }
    }

    /// Whether two identifiers are the same; peers are compared by identifier alone.
    pub fn same(&self, other: &PeerId) -> (r: bool)
        ensures
            r == (self@ == other@),
    {
        if self.bytes.len() != other.bytes.len() {
            return false;
        }
        let mut i: usize = 0;
        while i < self.bytes.len()
            invariant
                self.bytes.len() == other.bytes.len(),
                i <= self.bytes.len(),
                forall|j: int| 0 <= j < i ==> self@[j] == other@[j],
            decreases self.bytes.len() - i,
        {
            if self.bytes[i] != other.bytes[i] {
                return false;
            }
            i = i + 1;
        }
        assert(self@ =~= other@);
        true
    }
}

/// What the library knows of a peer, as plain values.
pub struct PeerView {
    pub name: Seq<char>,
    pub address: Seq<char>,
    pub peer_id: Seq<u8>,
    pub hostname: Seq<char>,
    pub os: OperatingSystem,
}

/// A remote host on the LAN. Two peers are equal when their identifiers are.
#[derive(Debug, Clone)]
pub struct Peer {
    pub name: String,
    pub address: String,
    pub peer_id: PeerId,
    pub hostname: String,
    pub os: OperatingSystem,
}

impl View for Peer {
    type V = PeerView;

    open spec fn view(&self) -> PeerView {
        PeerView {
            name: self.name@,
            address: self.address@,
            peer_id: self.peer_id@,
            hostname: self.hostname@,
            os: self.os,
        }
    }
}

impl Peer {
    /// A copy of this peer record.
    pub fn duplicate(&self) -> (r: Peer)
        ensures
            r@ == self@,
    {
        Peer {
            name: self.name.clone(),
            address: self.address.clone(),
            peer_id: self.peer_id.duplicate(),
            hostname: self.hostname.clone(),
            os: self.os,
        }
    }
}

impl PartialEq for Peer {
    fn eq(&self, other: &Peer) -> (r: bool) {
        self.peer_id.same(&other.peer_id)
    }
}

impl vstd::std_specs::cmp::PartialEqSpecImpl for Peer {
    open spec fn obeys_eq_spec() -> bool {
        true
    }

    open spec fn eq_spec(&self, other: &Peer) -> bool {
        self.peer_id@ == other.peer_id@
    }
}

/// Where a payload lives on disk: a single file, or a zip archive of a directory.
#[derive(Debug, Clone, PartialEq, Eq)]
pub enum Payload {
    File(String),
    Archive(String),
}

impl Payload {
    pub open spec fn new_spec(transfer_type: TransferType, path: String) -> Payload {
        match transfer_type {
            TransferType::File => Payload::File(path),
            TransferType::Directory => Payload::Archive(path),
        }
    }

    /// The payload of the given kind at `path`.
    pub fn new(transfer_type: TransferType, path: String) -> (r: Payload)
        ensures
            r == Payload::new_spec(transfer_type, path),
    {
        match transfer_type {
            TransferType::File => Payload::File(path),
            TransferType::Directory => Payload::Archive(path),
        }
    }

    pub fn path(&self) -> (r: &String)
        ensures
            *self matches Payload::File(p) ==> r == p,
            *self matches Payload::Archive(p) ==> r == p,
    {
        match self {
            Payload::File(p) => p,
            Payload::Archive(p) => p,
        }
    }
}

/// The receiving user's decision on an incoming payload, naming its hash.
#[derive(Debug, Clone, PartialEq, Eq)]
pub enum TransferCommand {
    Accept(String),
    Deny(String),
}

impl TransferCommand {
    pub open spec fn hash_view(&self) -> Seq<char> {
        match self {
            TransferCommand::Accept(h) => h@,
            TransferCommand::Deny(h) => h@,
        }
    }

    /// The hash this command answers.
    pub fn hash(&self) -> (r: &String)
        ensures
            r@ == self.hash_view(),
    {
        match self {
            TransferCommand::Accept(h) => h,
            TransferCommand::Deny(h) => h,
        }
    }
}

/// A file or directory that the user dropped onto a peer, waiting to be sent.
#[derive(Debug, Clone)]
pub struct FileToSend {
    pub name: String,
    pub path: String,
    pub peer: PeerId,
    pub transfer_type: TransferType,
}

impl FileToSend {
    /// The last component of a resolved path.
    pub fn extract_name(path: &str) -> (r: Option<String>)
        ensures
            match r {
                Some(n) => basename(path@).len() > 0 && n@ == basename(path@),
                None => basename(path@).len() == 0,
            },
    {
        let start = basename_start(path);
        let n = path.unicode_len();
        proof {
            lemma_last_separator(path@);
        }
        if start < n {
            Some(String::from_str(path.substring_char(start, n)))
        } else {
            None
        }
    }

    /// A payload at the resolved `path` for `peer`, named by the last
    /// component of the path; a path that ends in a separator is invalid.
    pub fn new(path: &str, peer: &PeerId, transfer_type: TransferType) -> (r: Result<FileToSend, TransferError>)
        ensures
            match r {
                Ok(f) => basename(path@).len() > 0 && f.name@ == basename(path@) && f.path@ == path@
                    && f.peer@ == peer@ && f.transfer_type == transfer_type,
                Err(e) => basename(path@).len() == 0 && e == TransferError::PathInvalid,
            },
    {
        match Self::extract_name(path) {
            Some(name) => Ok(FileToSend { name, path: String::from_str(path), peer: peer.duplicate(), transfer_type }),
            None => Err(TransferError::PathInvalid),
        }
    }
}

/// The events that the network side hands to the user interface.
#[derive(Debug, Clone)]
pub enum PeerEvent {
    PeersUpdated(Vec<Peer>),
    FileIncoming(String, String, u64, TransferType),
    TransferProgress(u64, u64, Direction),
    WaitingForAnswer,
    TransferRejected,
    TransferCompleted,
    FileCorrect(String, Payload),
    FileIncorrect,
    Error(String),
}

/// The kinds of failure that end a transfer or an action of the user.
#[derive(Debug, Clone, Copy, PartialEq, Eq, Structural)]
pub enum TransferError {
    /// A dropped path does not exist or cannot be resolved.
    PathInvalid,
    /// A channel to the user interface is full.
    ChannelFull,
    /// The receiver accepted a hash other than the one announced.
    PermissionDenied,
    /// The receiver refused the payload.
    Rejected,
    /// The received payload does not hash to the announced value.
    Corrupted,
    /// A wait ran out.
    Timeout,
    /// The stream broke, or carried something other than the protocol.
    Transport,
    /// A local file could not be read or written.
    Io,
}

impl TransferError {
    /// A short description for the user.
    pub fn describe(&self) -> (r: String) {
        match self {
            TransferError::PathInvalid => String::from_str("path invalid"),
            TransferError::ChannelFull => String::from_str("channel full"),
            TransferError::PermissionDenied => String::from_str("permission denied"),
            TransferError::Rejected => String::from_str("rejected"),
            TransferError::Corrupted => String::from_str("corrupted"),
            TransferError::Timeout => String::from_str("timeout"),
            TransferError::Transport => String::from_str("transport"),
            TransferError::Io => String::from_str("io"),
        }
    }
}

/// What one side of the discovery exchange reports of itself.
#[derive(Debug, Clone)]
pub struct Discovery {
    pub hostname: String,
    pub os: OperatingSystem,
}

/// What the discovery handler hands to its behaviour: a record received from
/// the remote side, or the notice that ours was sent.
#[derive(Debug, Clone)]
pub enum InnerMessage {
    Received(Discovery),
    Sent,
}

impl InnerMessage {
    /// The message for a record received from the remote side.
    pub fn from_discovery(d: Discovery) -> (r: InnerMessage)
        ensures
            r == InnerMessage::Received(d),
    {
        InnerMessage::Received(d)
    }
}

} // verus!
