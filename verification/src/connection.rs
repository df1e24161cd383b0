//! Connections: the contract that the session relies on, and the network
//! connection that meets it over any transport.

use vstd::prelude::*;
use vstd::string::*;

verus! {

/// Why an operation on a connection failed.
#[derive(Clone, Copy, Debug, PartialEq, Eq, Structural)]
pub enum ConnError {
    /// The peer closed the connection cleanly: a read gave no bytes at all.
    Eof,
    /// The retry ceiling was reached and the session is given up.
    NotConnected,
    /// Any other failure of the transport.
    Io,
}

/// A line-oriented connection that can be replaced by a fresh one.
///
/// `attempts` is the reconnect-attempt counter. `offered` is the history of
/// the messages that `send` was given to write, oldest first, whether or
/// not they went out. `sent` is the history of those whose `send` returned
/// `Ok`; a failed `send` adds nothing to it. `reconnects` is the history of
/// the calls of `reconnect`, oldest first: `true` for one that succeeded.
pub trait Connection {
    spec fn attempts(&self) -> nat;

    spec fn reconnects(&self) -> Seq<bool>;

    spec fn offered(&self) -> Seq<Seq<char>>;

    spec fn sent(&self) -> Seq<Seq<char>>;

    /// Gives the whole of `msg` to the writer and flushes. The message has
    /// gone out if and only if `Ok` is returned.
    fn send(&mut self, msg: &str) -> (r: Result<(), ConnError>)
        ensures
            final(self).attempts() == old(self).attempts(),
            final(self).offered() == old(self).offered().push(msg@),
            final(self).sent() == sent_after(old(self).sent(), msg@, r is Ok),
            final(self).reconnects() == old(self).reconnects(),
    ;

    /// Reads one line, terminator included. A read of zero bytes is the
    /// error `Eof`; a returned line is never empty.
    fn recv(&mut self) -> (r: Result<String, ConnError>)
        ensures
            final(self).attempts() == old(self).attempts(),
            final(self).offered() == old(self).offered(),
            final(self).sent() == old(self).sent(),
            final(self).reconnects() == old(self).reconnects(),
            r matches Ok(line) ==> line@.len() > 0,
    ;

    /// Opens a new transport to the same peer. Success resets the counter;
    /// failure leaves it as it was.
    fn reconnect(&mut self) -> (r: Result<(), ConnError>)
        ensures
            final(self).attempts() == (if r is Ok {
                0
            } else {
                old(self).attempts()
            }),
            final(self).reconnects() == old(self).reconnects().push(r is Ok),
            final(self).offered() == old(self).offered(),
            final(self).sent() == old(self).sent(),
    ;

    /// Adds one to the counter, and succeeds.
    fn add_reconnect_attempt(&mut self) -> (r: Result<(), ConnError>)
        requires
            old(self).attempts() < u8::MAX,
        ensures
            r is Ok,
            final(self).attempts() == old(self).attempts() + 1,
            final(self).reconnects() == old(self).reconnects(),
            final(self).offered() == old(self).offered(),
            final(self).sent() == old(self).sent(),
    ;

    fn get_reconnect_attempts(&self) -> (n: u8)
        ensures
            n == self.attempts(),
    ;
}

/// The history of sent messages after one more `send` of `msg`.
pub open spec fn sent_after(before: Seq<Seq<char>>, msg: Seq<char>, ok: bool) -> Seq<Seq<char>> {
    if ok {
        before.push(msg)
    } else {
        before
    }
}

/// The counter after one reconnect by the session: zero after a success,
/// one more after a failure.
pub open spec fn attempts_after(before: nat, ok: bool) -> nat {
    if ok {
        0
    } else {
        before + 1
    }
}

/// The counter after a run of reconnects by the session, `outcomes[i]`
/// telling whether the i-th succeeded.
pub open spec fn attempts_after_all(before: nat, outcomes: Seq<bool>) -> nat
    decreases outcomes.len(),
{
    if outcomes.len() == 0 {
        before
    } else {
        attempts_after(attempts_after_all(before, outcomes.drop_last()), outcomes.last())
    }
}

/// After a run of reconnects that all failed, the counter has grown by the
/// length of the run: from zero, `k` failures leave it at `k`.
pub proof fn lemma_failures_are_counted(before: nat, outcomes: Seq<bool>)
    requires
        forall|i: int| 0 <= i < outcomes.len() ==> !outcomes[i],
    ensures
        attempts_after_all(before, outcomes) == before + outcomes.len(),
    decreases outcomes.len(),
{
    if outcomes.len() > 0 {
        lemma_failures_are_counted(before, outcomes.drop_last());
    }
}

/// After a run of reconnects the counter is the number of failures since
/// the last success, whatever it was before the run and whatever came
/// before that success.
pub proof fn lemma_success_resets(before: nat, outcomes: Seq<bool>, at: int)
    requires
        0 <= at < outcomes.len(),
        outcomes[at],
        forall|i: int| at < i < outcomes.len() ==> !outcomes[i],
    ensures
        attempts_after_all(before, outcomes) == outcomes.len() - 1 - at,
    decreases outcomes.len(),
{
    if at < outcomes.len() - 1 {
        lemma_success_resets(before, outcomes.drop_last(), at);
    }
}

/// What `recv` returns for what the transport's read of one line gave:
/// `Eof` where it read nothing, the line as it is where it read one, and
/// the transport's own failure where it failed.
pub open spec fn line_or_eof_spec(read: Result<String, ConnError>) -> Result<String, ConnError> {
    match read {
        Ok(line) => if line@.len() == 0 {
            Err(ConnError::Eof)
        } else {
            Ok(line)
        },
        Err(e) => Err(e),
    }
}

/// Tells a clean close by the peer from a line: a read that gave nothing
/// is `Eof`, never another error. A line that was read is returned
/// unchanged, and so is a failure of the read.
pub fn line_or_eof(read: Result<String, ConnError>) -> (r: Result<String, ConnError>)
    ensures
        r == line_or_eof_spec(read),
{
    match read {
        Ok(line) => {
            if line.as_str().is_empty() {
                Err(ConnError::Eof)
            } else {
                Ok(line)
            }
        },
        Err(e) => Err(e),
    }
}

/// The terminator that ends every outgoing line.
pub open spec fn terminator() -> Seq<char> {
    seq!['\r', '\n']
}

/// An outgoing message with its terminator.
pub open spec fn framed(msg: Seq<char>) -> Seq<char> {
    msg + terminator()
}

/// Appends the terminator to an outgoing message.
pub fn frame(msg: &str) -> (line: String)
    ensures
        line@ == framed(msg@),
{
    let mut line = String::from_str(msg);
    line.append("\r\n");
    proof {
        reveal_strlit("\r\n");
        assert("\r\n"@ =~= terminator());
    }
    line
}

/// A framed message that is read back as it was written is received as a
/// line, never as `Eof`, and differs from the message by the terminator at
/// its end and by nothing else.
pub proof fn lemma_framed_line_is_received(msg: Seq<char>, line: String)
    requires
        line@ == framed(msg),
    ensures
        line_or_eof_spec(Ok(line)) == Ok::<String, ConnError>(line),
        line@.len() == msg.len() + 2,
        line@.subrange(0, msg.len() as int) == msg,
        line@.subrange(msg.len() as int, msg.len() as int + 2) == terminator(),
{
    assert(line@.subrange(0, msg.len() as int) =~= msg);
    assert(line@.subrange(msg.len() as int, msg.len() as int + 2) =~= terminator());
}

/// The character of a decimal digit.
pub open spec fn digit(d: nat) -> char {
    if d == 0 {
        '0'
    } else if d == 1 {
        '1'
    } else if d == 2 {
        '2'
    } else if d == 3 {
        '3'
    } else if d == 4 {
        '4'
    } else if d == 5 {
        '5'
    } else if d == 6 {
        '6'
    } else if d == 7 {
        '7'
    } else if d == 8 {
        '8'
    } else {
        '9'
    }
}

/// A number in decimal, without leading zeros.
pub open spec fn decimal_spec(n: nat) -> Seq<char>
    decreases n,
{
    if n < 10 {
        seq![digit(n)]
    } else {
        decimal_spec(n / 10).push(digit(n % 10))
    }
}

/// The address of a peer: host, a colon, and the port in decimal.
pub open spec fn address_spec(host: Seq<char>, port: u16) -> Seq<char> {
    host + seq![':'] + decimal_spec(port as nat)
}

fn digit_text(d: u16) -> (text: &'static str)
    requires
        d < 10,
    ensures
        text@ == seq![digit(d as nat)],
{
    proof {
        reveal_strlit("0");
        reveal_strlit("1");
        reveal_strlit("2");
        reveal_strlit("3");
        reveal_strlit("4");
        reveal_strlit("5");
        reveal_strlit("6");
        reveal_strlit("7");
        reveal_strlit("8");
        reveal_strlit("9");
    }
    let text = match d {
        0 => "0",
        1 => "1",
        2 => "2",
        3 => "3",
        4 => "4",
        5 => "5",
        6 => "6",
        7 => "7",
        8 => "8",
        _ => "9",
    };
    assert(text@ =~= seq![digit(d as nat)]);
    text
}

/// Writes a port number in decimal.
pub fn decimal(n: u16) -> (text: String)
    ensures
        text@ == decimal_spec(n as nat),
    decreases n,
{
    if n < 10 {
        String::from_str(digit_text(n))
    } else {
        let text = decimal(n / 10).concat(digit_text(n % 10));
        proof {
            let last = digit((n % 10) as nat);
            assert(decimal_spec((n / 10) as nat) + seq![last] =~= decimal_spec(
                (n / 10) as nat,
            ).push(last));
        }
        text
    }
}

/// Writes the address of a peer, as a transport is asked to open it.
pub fn address_of(host: &str, port: u16) -> (address: String)
    ensures
        address@ == address_spec(host@, port),
{
    let number = decimal(port);
    let address = String::from_str(host).concat(":").concat(number.as_str());
    proof {
        reveal_strlit(":");
        assert(":"@ =~= seq![':']);
    }
    address
}

/// What carries the bytes of a network connection: a socket with its
/// buffered reader and writer. Nothing is assumed of what its operations
/// return.
pub trait Transport: Sized {
    /// Opens a transport to `address`.
    fn open(address: &str) -> Result<Self, ConnError>;

    /// Opens a new transport to `address` in place of this one, which is
    /// left as it is.
    fn redial(&self, address: &str) -> Result<Self, ConnError>;

    /// Hands all of `text` to the writer.
    fn write_all(&mut self, text: &str) -> Result<(), ConnError>;

    /// Sends what the writer has buffered.
    fn flush(&mut self) -> Result<(), ConnError>;

    /// Reads up to and including the next line terminator, and gives what
    /// was read: nothing where the peer has closed.
    fn read_line(&mut self) -> Result<String, ConnError>;
}

/// A connection to `host:port` over a transport, with its count of failed
/// reconnects.
pub struct NetConnection<T: Transport> {
    host: String,
    port: u16,
    reconnect_attempts: u8,
    transport: T,
    offered: Ghost<Seq<Seq<char>>>,
    sent: Ghost<Seq<Seq<char>>>,
    dialed: Ghost<Seq<Seq<char>>>,
    reads: Ghost<Seq<Result<String, ConnError>>>,
    reconnects: Ghost<Seq<bool>>,
}

impl<T: Transport> NetConnection<T> {
    pub closed spec fn host(&self) -> Seq<char> {
        self.host@
    }

    pub closed spec fn port(&self) -> u16 {
        self.port
    }

    /// The addresses that the transport was asked to open for this
    /// connection, oldest first, whether or not it could.
    pub closed spec fn dialed(&self) -> Seq<Seq<char>> {
        self.dialed@
    }

    /// What the reads of the transport gave for this connection, oldest
    /// first: a line, nothing at all, or a failure.
    pub closed spec fn reads(&self) -> Seq<Result<String, ConnError>> {
        self.reads@
    }

    /// Whether `other` is a connection to the same peer.
    pub open spec fn same_peer(&self, other: &Self) -> bool {
        self.host() == other.host() && self.port() == other.port()
    }

    /// A connection to `host:port` over a transport that has been opened
    /// to that address; nothing was sent and no reconnect has failed.
    pub fn new(host: &str, port: u16, transport: T) -> (conn: Self)
        ensures
            conn.host() == host@,
            conn.port() == port,
            conn.attempts() == 0,
            conn.offered() == Seq::<Seq<char>>::empty(),
            conn.sent() == Seq::<Seq<char>>::empty(),
            conn.dialed() == Seq::<Seq<char>>::empty(),
            conn.reads() == Seq::<Result<String, ConnError>>::empty(),
            conn.reconnects() == Seq::<bool>::empty(),
            conn.transport_spec() == transport,
    {
        NetConnection {
            host: String::from_str(host),
            port,
            reconnect_attempts: 0,
            transport,
            offered: Ghost(Seq::empty()),
            sent: Ghost(Seq::empty()),
            dialed: Ghost(Seq::empty()),
            reads: Ghost(Seq::empty()),
            reconnects: Ghost(Seq::empty()),
        }
    }

    /// Opens a transport to `host:port` and, where that succeeds, gives the
    /// connection over it: nothing was sent and no reconnect has failed. A
    /// failure to open is returned as it came.
    pub fn connect(host: &str, port: u16) -> (r: Result<Self, ConnError>)
        ensures
            r matches Ok(conn) ==> conn.host() == host@ && conn.port() == port && conn.attempts()
                == 0 && conn.offered() == Seq::<Seq<char>>::empty() && conn.sent() == Seq::<
                Seq<char>,
            >::empty() && conn.reads() == Seq::<Result<String, ConnError>>::empty()
                && conn.reconnects() == Seq::<bool>::empty() && conn.dialed() == seq![
                address_spec(host@, port),
            ],
    {
        let address = address_of(host, port);
        match T::open(address.as_str()) {
            Ok(transport) => {
                let mut conn = NetConnection::new(host, port, transport);
                proof {
                    conn.dialed@ = conn.dialed@.push(address@);
                }
                Ok(conn)
            },
            Err(e) => Err(e),
        }
    }

    /// The address that a reconnect opens.
    pub fn address(&self) -> (address: String)
        ensures
            address@ == address_spec(self.host(), self.port()),
    {
        address_of(self.host.as_str(), self.port)
    }

    /// What a reconnect does with what the dial gave. A transport that was
    /// opened takes the place of the one in use, for reading and for
    /// writing at once, and the counter goes back to zero. After a failed
    /// dial the transport in use stays, the counter stays, and the failure
    /// of the dial is returned. Either way the outcome is recorded among
    /// the reconnects.
    pub fn install(&mut self, dialed: Result<T, ConnError>) -> (r: Result<(), ConnError>)
        ensures
            final(self).same_peer(old(self)),
            final(self).dialed() == old(self).dialed(),
            final(self).reads() == old(self).reads(),
            final(self).offered() == old(self).offered(),
            final(self).sent() == old(self).sent(),
            final(self).reconnects() == old(self).reconnects().push(dialed is Ok),
            match dialed {
                Ok(transport) => r is Ok && final(self).transport_spec() == transport && final(self).attempts() == 0,
                Err(e) => r == Err::<(), ConnError>(e) && final(self).transport_spec() == old(self).transport_spec() && final(self).attempts() == old(self).attempts(),
            },
    {
        proof {
            self.reconnects@ = self.reconnects@.push(dialed is Ok);
        }
        match dialed {
            Ok(transport) => {
                self.transport = transport;
                self.reconnect_attempts = 0;
                Ok(())
            },
            Err(e) => Err(e),
        }
    }

    /// The transport now in use.
    pub closed spec fn transport_spec(&self) -> T {
        self.transport
    }

    pub fn transport(&self) -> (transport: &T)
        ensures
            *transport == self.transport_spec(),
    {
        &self.transport
    }
}

impl<T: Transport> Connection for NetConnection<T> {
    closed spec fn attempts(&self) -> nat {
        self.reconnect_attempts as nat
    }

    closed spec fn reconnects(&self) -> Seq<bool> {
        self.reconnects@
    }

    closed spec fn offered(&self) -> Seq<Seq<char>> {
        self.offered@
    }

    closed spec fn sent(&self) -> Seq<Seq<char>> {
        self.sent@
    }

    fn send(&mut self, msg: &str) -> (r: Result<(), ConnError>)
        ensures
            final(self).same_peer(old(self)),
            final(self).dialed() == old(self).dialed(),
            final(self).reads() == old(self).reads(),
    {
        proof {
            self.offered@ = self.offered@.push(msg@);
        }
        match self.transport.write_all(msg) {
            Ok(_) => {},
            Err(e) => {
                return Err(e);
            },
        }
        match self.transport.flush() {
            Ok(_) => {},
            Err(e) => {
                return Err(e);
            },
        }
        proof {
            self.sent@ = self.sent@.push(msg@);
        }
        Ok(())
    }

    fn recv(&mut self) -> (r: Result<String, ConnError>)
        ensures
            final(self).same_peer(old(self)),
            final(self).dialed() == old(self).dialed(),
            final(self).reads().len() == old(self).reads().len() + 1,
            final(self).reads().drop_last() == old(self).reads(),
            r == line_or_eof_spec(final(self).reads().last()),
    {
        let read = self.transport.read_line();
        proof {
            self.reads@ = self.reads@.push(read);
            assert(self.reads@.drop_last() =~= old(self).reads@);
        }
        line_or_eof(read)
    }

    fn reconnect(&mut self) -> (r: Result<(), ConnError>)
        ensures
            final(self).same_peer(old(self)),
            final(self).dialed() == old(self).dialed().push(
                address_spec(old(self).host(), old(self).port()),
            ),
            final(self).reads() == old(self).reads(),
            r is Err ==> final(self).transport_spec() == old(self).transport_spec(),
    {
        let address = self.address();
        proof {
            self.dialed@ = self.dialed@.push(address@);
        }
        let dialed = self.transport.redial(address.as_str());
        self.install(dialed)
    }

    fn add_reconnect_attempt(&mut self) -> (r: Result<(), ConnError>)
        ensures
            final(self).same_peer(old(self)),
            final(self).dialed() == old(self).dialed(),
            final(self).reads() == old(self).reads(),
            final(self).transport_spec() == old(self).transport_spec(),
    {
        self.reconnect_attempts = self.reconnect_attempts + 1;
        Ok(())
    }

    fn get_reconnect_attempts(&self) -> (n: u8) {
        self.reconnect_attempts
    }
}

} // verus!
