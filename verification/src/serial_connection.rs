//! The life cycle of the serial link.
//!
//! `SerialConnection` decides; it opens, reads and closes nothing itself. A
//! request that it grants tells the caller what to do with the port, and the
//! caller reports back how that went. Between the two the link is in flight,
//! and no other request is granted.

use vstd::prelude::*;
use crate::counter::{bump, plus};

verus! {

/// Where the link stands.
#[derive(Clone, Copy, Debug, PartialEq, Eq, Structural)]
pub enum Status {
    Disconnected,
    Connecting,
    Connected,
    Disconnecting,
    Failed,
}

/// What can happen to the link.
#[derive(Clone, Copy, Debug, PartialEq, Eq, Structural)]
pub enum LinkEvent {
    /// A connect request; `named` tells whether it names a port.
    ConnectRequested { named: bool },
    /// A disconnect request.
    DisconnectRequested,
    /// The operation that was in flight has ended.
    Finished { succeeded: bool },
}

/// A connect request is granted in this state.
pub open spec fn connection_allowed(status: Status) -> bool {
    status is Disconnected || status is Failed
}

/// A disconnect request is granted in this state.
pub open spec fn disconnection_allowed(status: Status) -> bool {
    status is Connected
}

/// An open or a close is under way in this state.
pub open spec fn in_flight(status: Status) -> bool {
    status is Connecting || status is Disconnecting
}

/// The state that follows `status` when `event` happens. A request that is
/// not granted, and a report that nothing waits for, leave the state alone.
pub open spec fn step(status: Status, event: LinkEvent) -> Status {
    match event {
        LinkEvent::ConnectRequested { named } => if connection_allowed(status) && named {
            Status::Connecting
        } else {
            status
        },
        LinkEvent::DisconnectRequested => if disconnection_allowed(status) {
            Status::Disconnecting
        } else {
            status
        },
        LinkEvent::Finished { succeeded } => match status {
            Status::Connecting => if succeeded {
                Status::Connected
            } else {
                Status::Failed
            },
            Status::Disconnecting => if succeeded {
                Status::Disconnected
            } else {
                Status::Failed
            },
            _ => status,
        },
    }
}

/// The words in which a status is shown.
pub open spec fn label_of(status: Status) -> Seq<char> {
    match status {
        Status::Disconnected => "Disconnected"@,
        Status::Connecting => "Connecting..."@,
        Status::Connected => "Connected"@,
        Status::Disconnecting => "Disconnecting..."@,
        Status::Failed => "Failed"@,
    }
}

/// The words in which `status` is shown.
pub fn status_label(status: Status) -> (label: &'static str)
    ensures
        label@ == label_of(status),
{
    match status {
        Status::Disconnected => "Disconnected",
        Status::Connecting => "Connecting...",
        Status::Connected => "Connected",
        Status::Disconnecting => "Disconnecting...",
        Status::Failed => "Failed",
    }
}

/// The baud rates that a port can be set to.
pub open spec fn is_standard_baud(rate: u32) -> bool {
    ||| rate == 50
    ||| rate == 75
    ||| rate == 110
    ||| rate == 134
    ||| rate == 150
    ||| rate == 200
    ||| rate == 300
    ||| rate == 600
    ||| rate == 1_200
    ||| rate == 1_800
    ||| rate == 2_400
    ||| rate == 4_800
    ||| rate == 9_600
    ||| rate == 19_200
    ||| rate == 28_800
    ||| rate == 38_400
    ||| rate == 57_600
    ||| rate == 76_800
    ||| rate == 115_200
    ||| rate == 230_400
    ||| rate == 460_800
    ||| rate == 576_000
    ||| rate == 921_600
}

/// The standard baud rates, in rising order.
pub open spec fn baud_rates() -> Seq<u32> {
    seq![
        50u32,
        75u32,
        110u32,
        134u32,
        150u32,
        200u32,
        300u32,
        600u32,
        1_200u32,
        1_800u32,
        2_400u32,
        4_800u32,
        9_600u32,
        19_200u32,
        28_800u32,
        38_400u32,
        57_600u32,
        76_800u32,
        115_200u32,
        230_400u32,
        460_800u32,
        576_000u32,
        921_600u32,
    ]
}

/// The baud rate of a new connection.
pub const DEFAULT_BAUD_RATE: u32 = 115_200;

/// Tells whether `rate` is one of the standard baud rates.
pub fn is_standard_baud_rate(rate: u32) -> (standard: bool)
    ensures
        standard == is_standard_baud(rate),
{
    rate == 50 || rate == 75 || rate == 110 || rate == 134 || rate == 150 || rate == 200 || rate
        == 300 || rate == 600 || rate == 1_200 || rate == 1_800 || rate == 2_400 || rate == 4_800
        || rate == 9_600 || rate == 19_200 || rate == 28_800 || rate == 38_400 || rate == 57_600
        || rate == 76_800 || rate == 115_200 || rate == 230_400 || rate == 460_800 || rate
        == 576_000 || rate == 921_600
}

/// The list holds every standard baud rate and nothing else.
pub proof fn lemma_baud_rates_are_the_standard_ones(rate: u32)
    ensures
        baud_rates().contains(rate) <==> is_standard_baud(rate),
        baud_rates().len() == 23,
{
    let list = baud_rates();
    if is_standard_baud(rate) {
        let i: int = if rate == 50 {
            0
        } else if rate == 75 {
            1
        } else if rate == 110 {
            2
        } else if rate == 134 {
            3
        } else if rate == 150 {
            4
        } else if rate == 200 {
            5
        } else if rate == 300 {
            6
        } else if rate == 600 {
            7
        } else if rate == 1_200 {
            8
        } else if rate == 1_800 {
            9
        } else if rate == 2_400 {
            10
        } else if rate == 4_800 {
            11
        } else if rate == 9_600 {
            12
        } else if rate == 19_200 {
            13
        } else if rate == 28_800 {
            14
        } else if rate == 38_400 {
            15
        } else if rate == 57_600 {
            16
        } else if rate == 76_800 {
            17
        } else if rate == 115_200 {
            18
        } else if rate == 230_400 {
            19
        } else if rate == 460_800 {
            20
        } else if rate == 576_000 {
            21
        } else {
            22
        };
        assert(list[i] == rate);
    }
    if list.contains(rate) {
        let i = choose|i: int| 0 <= i < list.len() && list[i] == rate;
        assert(0 <= i < 23);
        assert(list[i] == rate);
    }
}

/// The standard baud rates, in rising order, for a caller to offer.
pub fn standard_baud_rates() -> (rates: Vec<u32>)
    ensures
        rates@ == baud_rates(),
{
    let mut rates: Vec<u32> = Vec::new();
    rates.push(50);
    rates.push(75);
    rates.push(110);
    rates.push(134);
    rates.push(150);
    rates.push(200);
    rates.push(300);
    rates.push(600);
    rates.push(1_200);
    rates.push(1_800);
    rates.push(2_400);
    rates.push(4_800);
    rates.push(9_600);
    rates.push(19_200);
    rates.push(28_800);
    rates.push(38_400);
    rates.push(57_600);
    rates.push(76_800);
    rates.push(115_200);
    rates.push(230_400);
    rates.push(460_800);
    rates.push(576_000);
    rates.push(921_600);
    rates
}

/// What the caller is to open when a connect request is granted.
pub struct OpenRequest {
    pub port_name: String,
    pub baud_rate: u32,
}

/// Why a change of the configuration was turned down.
#[derive(Clone, Copy, Debug, PartialEq, Eq, Structural)]
pub enum ConfigError {
    /// The baud rate is not a standard one.
    UnsupportedBaudRate,
    /// An open or a close is under way.
    Busy,
}

/// Why no byte was read.
#[derive(Clone, Copy, Debug, PartialEq, Eq, Structural)]
pub enum ReadError {
    /// No port is open.
    NotConnected,
    /// The port is open and has nothing to give right now.
    NoDataAvailable,
}

/// The serial link: which ports there are, which one is wanted at what rate,
/// and where the link stands.
pub struct SerialConnection {
    known_ports: Vec<String>,
    selected_port: String,
    baud_rate: u32,
    status: Status,
    bytes_read: u64,
}

impl SerialConnection {
    #[verifier::type_invariant]
    spec fn baud_rate_is_standard(self) -> bool {
        is_standard_baud(self.baud_rate)
    }

    /// The names of the ports found by the last scan.
    pub closed spec fn spec_known_ports(&self) -> Seq<String> {
        self.known_ports@
    }

    /// The name of the port that is wanted; empty while none is.
    pub closed spec fn spec_selected_port(&self) -> Seq<char> {
        self.selected_port@
    }

    /// The baud rate that is wanted.
    pub closed spec fn spec_baud_rate(&self) -> u32 {
        self.baud_rate
    }

    /// Where the link stands.
    pub closed spec fn spec_status(&self) -> Status {
        self.status
    }

    /// How many bytes were read from the port.
    pub closed spec fn spec_bytes_read(&self) -> u64 {
        self.bytes_read
    }

    /// The configuration is what it is in `other`: ports, selection and rate.
    pub open spec fn configured_like(&self, other: &SerialConnection) -> bool {
        &&& self.spec_known_ports() == other.spec_known_ports()
        &&& self.spec_selected_port() == other.spec_selected_port()
        &&& self.spec_baud_rate() == other.spec_baud_rate()
    }

    /// A link that is down, with no port known or selected.
    pub fn new() -> (link: SerialConnection)
        ensures
            link.spec_status() == Status::Disconnected,
            link.spec_known_ports().len() == 0,
            link.spec_selected_port().len() == 0,
            link.spec_baud_rate() == DEFAULT_BAUD_RATE,
            link.spec_bytes_read() == 0,
    {
        SerialConnection {
            known_ports: Vec::new(),
            selected_port: String::new(),
            baud_rate: DEFAULT_BAUD_RATE,
            status: Status::Disconnected,
            bytes_read: 0,
        }
    }

    /// Where the link stands.
    pub fn connection_status(&self) -> (status: Status)
        ensures
            status == self.spec_status(),
    {
        self.status
    }

    /// Tells whether a connect request would be granted, as far as the state
    /// of the link goes.
    pub fn connection_allowed(&self) -> (allowed: bool)
        ensures
            allowed == connection_allowed(self.spec_status()),
    {
        match self.status {
            Status::Disconnected => true,
            Status::Failed => true,
            _ => false,
        }
    }

    /// Tells whether a disconnect request would be granted.
    pub fn disconnection_allowed(&self) -> (allowed: bool)
        ensures
            allowed == disconnection_allowed(self.spec_status()),
    {
        match self.status {
            Status::Connected => true,
            _ => false,
        }
    }

    /// How many bytes were read from the port.
    pub fn bytes_read(&self) -> (count: u64)
        ensures
            count == self.spec_bytes_read(),
    {
        self.bytes_read
    }

    /// The names of the ports found by the last scan.
    pub fn known_ports(&self) -> (ports: &Vec<String>)
        ensures
            ports@ == self.spec_known_ports(),
    {
        &self.known_ports
    }

    /// The name of the port that is wanted; empty while none is.
    pub fn selected_port(&self) -> (name: &String)
        ensures
            name@ == self.spec_selected_port(),
    {
        &self.selected_port
    }

    /// The baud rate that is wanted: always a standard one.
    pub fn baud_rate(&self) -> (rate: u32)
        ensures
            rate == self.spec_baud_rate(),
            is_standard_baud(rate),
    {
        proof {
            use_type_invariant(self);
        }
        self.baud_rate
    }

    /// Replaces the known ports by those that a new scan `found`. The link
    /// itself is not touched.
    pub fn refresh_known_ports(&mut self, found: Vec<String>)
        ensures
            final(self).spec_known_ports() == found@,
            final(self).spec_selected_port() == old(self).spec_selected_port(),
            final(self).spec_baud_rate() == old(self).spec_baud_rate(),
            final(self).spec_status() == old(self).spec_status(),
            final(self).spec_bytes_read() == old(self).spec_bytes_read(),
    {
        proof {
            use_type_invariant(&*self);
        }
        self.known_ports = found;
    }

    /// Selects the port to connect to; the empty name selects none. Turned
    /// down with `Busy`, and nothing changed, while an open or a close is
    /// under way.
    pub fn select_port(&mut self, name: String) -> (done: Result<(), ConfigError>)
        ensures
            done is Ok <==> !in_flight(old(self).spec_status()),
            done is Err ==> done == Err::<(), ConfigError>(ConfigError::Busy) && *final(self)
                == *old(self),
            done is Ok ==> final(self).spec_selected_port() == name@,
            final(self).spec_known_ports() == old(self).spec_known_ports(),
            final(self).spec_baud_rate() == old(self).spec_baud_rate(),
            final(self).spec_status() == old(self).spec_status(),
            final(self).spec_bytes_read() == old(self).spec_bytes_read(),
    {
        proof {
            use_type_invariant(&*self);
        }
        match self.status {
            Status::Connecting => Err(ConfigError::Busy),
            Status::Disconnecting => Err(ConfigError::Busy),
            _ => {
                self.selected_port = name;
                Ok(())
            },
        }
    }

    /// Sets the baud rate. Taken exactly when `rate` is a standard baud rate
    /// and no open or close is under way; turned down otherwise, with nothing
    /// changed.
    pub fn set_baud_rate(&mut self, rate: u32) -> (done: Result<(), ConfigError>)
        ensures
            done is Ok <==> is_standard_baud(rate) && !in_flight(old(self).spec_status()),
            done == Err::<(), ConfigError>(ConfigError::UnsupportedBaudRate) <==> !is_standard_baud(
                rate,
            ),
            done == Err::<(), ConfigError>(ConfigError::Busy) <==> is_standard_baud(rate)
                && in_flight(old(self).spec_status()),
            done is Err ==> *final(self) == *old(self),
            done is Ok ==> final(self).spec_baud_rate() == rate,
            final(self).spec_known_ports() == old(self).spec_known_ports(),
            final(self).spec_selected_port() == old(self).spec_selected_port(),
            final(self).spec_status() == old(self).spec_status(),
            final(self).spec_bytes_read() == old(self).spec_bytes_read(),
    {
        proof {
            use_type_invariant(&*self);
        }
        if !is_standard_baud_rate(rate) {
            return Err(ConfigError::UnsupportedBaudRate);
        }
        match self.status {
            Status::Connecting => Err(ConfigError::Busy),
            Status::Disconnecting => Err(ConfigError::Busy),
            _ => {
                self.baud_rate = rate;
                Ok(())
            },
        }
    }

    /// Asks to connect to `port_name`. Granted exactly when the link is down
    /// or has failed and the name is not empty: the link is then
    /// `Connecting`, and the caller is told what to open. Otherwise nothing
    /// changes and nothing is to be done.
    pub fn connect(&mut self, port_name: String) -> (request: Option<OpenRequest>)
        ensures
            final(self).spec_status() == step(
                old(self).spec_status(),
                LinkEvent::ConnectRequested { named: port_name@.len() > 0 },
            ),
            request is Some <==> connection_allowed(old(self).spec_status()) && port_name@.len()
                > 0,
            request is Some ==> request->0.port_name@ == port_name@ && request->0.baud_rate
                == old(self).spec_baud_rate() && is_standard_baud(request->0.baud_rate),
            request is None ==> *final(self) == *old(self),
            final(self).configured_like(old(self)),
            final(self).spec_bytes_read() == old(self).spec_bytes_read(),
    {
        proof {
            use_type_invariant(&*self);
        }
        if !self.connection_allowed() || port_name.as_str().is_empty() {
            return None;
        }
        self.status = Status::Connecting;
        Some(OpenRequest { port_name, baud_rate: self.baud_rate })
    }

    /// Asks to disconnect. Granted exactly when the link is up: the link is
    /// then `Disconnecting`, and the caller is to close the port. Otherwise
    /// nothing changes.
    pub fn disconnect(&mut self) -> (granted: bool)
        ensures
            final(self).spec_status() == step(
                old(self).spec_status(),
                LinkEvent::DisconnectRequested,
            ),
            granted == disconnection_allowed(old(self).spec_status()),
            !granted ==> *final(self) == *old(self),
            final(self).configured_like(old(self)),
            final(self).spec_bytes_read() == old(self).spec_bytes_read(),
    {
        proof {
            use_type_invariant(&*self);
        }
        if !self.disconnection_allowed() {
            return false;
        }
        self.status = Status::Disconnecting;
        true
    }

    /// Takes the report that the open or close under way has ended. An open
    /// that succeeded brings the link up, a close that succeeded brings it
    /// down, and either one that failed leaves it `Failed`. With nothing
    /// under way the report changes nothing.
    pub fn complete(&mut self, succeeded: bool)
        ensures
            final(self).spec_status() == step(
                old(self).spec_status(),
                LinkEvent::Finished { succeeded },
            ),
            !in_flight(old(self).spec_status()) ==> *final(self) == *old(self),
            final(self).configured_like(old(self)),
            final(self).spec_bytes_read() == old(self).spec_bytes_read(),
    {
        proof {
            use_type_invariant(&*self);
        }
        match self.status {
            Status::Connecting => {
                self.status = if succeeded {
                    Status::Connected
                } else {
                    Status::Failed
                };
            },
            Status::Disconnecting => {
                self.status = if succeeded {
                    Status::Disconnected
                } else {
                    Status::Failed
                };
            },
            _ => {},
        }
    }

    /// Takes what one read of the port gave, `polled`, without ever waiting:
    /// `None` stands for an open port with nothing to give. While the link is
    /// not up no byte is taken, whatever was polled.
    pub fn read_byte(&mut self, polled: Option<u8>) -> (byte: Result<u8, ReadError>)
        ensures
            byte == read_outcome(old(self).spec_status(), polled),
            final(self).spec_bytes_read() == if byte is Ok {
                plus(old(self).spec_bytes_read(), 1)
            } else {
                old(self).spec_bytes_read()
            },
            byte is Err ==> *final(self) == *old(self),
            final(self).spec_status() == old(self).spec_status(),
            final(self).configured_like(old(self)),
    {
        proof {
            use_type_invariant(&*self);
        }
        match self.status {
            Status::Connected => match polled {
                Some(b) => {
                    self.bytes_read = bump(self.bytes_read);
                    Ok(b)
                },
                None => Err(ReadError::NoDataAvailable),
            },
            _ => Err(ReadError::NotConnected),
        }
    }
}

/// What a read gives in state `status` when the port gave `polled`.
pub open spec fn read_outcome(status: Status, polled: Option<u8>) -> Result<u8, ReadError> {
    if !(status is Connected) {
        Err(ReadError::NotConnected)
    } else {
        match polled {
            Some(b) => Ok(b),
            None => Err(ReadError::NoDataAvailable),
        }
    }
}

/// A connect request changes nothing while the link is connecting, up or
/// disconnecting, whether or not it names a port.
pub proof fn lemma_connect_is_guarded(status: Status, named: bool)
    requires
        status is Connecting || status is Connected || status is Disconnecting,
    ensures
        step(status, LinkEvent::ConnectRequested { named }) == status,
{
}

/// A link that is down or has failed comes up in two steps: a connect request
/// that names a port makes it `Connecting`, and the report of success makes it
/// `Connected`. No single event takes it there: every state from which one
/// event leads to `Connected` is `Connecting`, or `Connected` already.
pub proof fn lemma_connect_passes_through_connecting(status: Status, event: LinkEvent)
    requires
        connection_allowed(status),
    ensures
        step(status, LinkEvent::ConnectRequested { named: true }) == Status::Connecting,
        step(Status::Connecting, LinkEvent::Finished { succeeded: true }) == Status::Connected,
        step(Status::Connecting, LinkEvent::Finished { succeeded: false }) == Status::Failed,
        !(step(status, event) is Connected),
        forall|from: Status, any: LinkEvent| #[trigger]
            step(from, any) is Connected ==> from is Connecting || from is Connected,
{
}

/// At most one operation is under way: while one is, every request is turned
/// down, and only the report that it ended moves the link on.
pub proof fn lemma_one_operation_at_a_time(status: Status, named: bool)
    requires
        in_flight(status),
    ensures
        step(status, LinkEvent::ConnectRequested { named }) == status,
        step(status, LinkEvent::DisconnectRequested) == status,
        forall|succeeded: bool| !in_flight(#[trigger] step(status, LinkEvent::Finished { succeeded })),
{
}

} // verus!
