//! The session over a connection: framing of outgoing lines, the handshake,
//! reconnecting with its attempt count, and the stream of received lines
//! with its bounded recovery.

use vstd::prelude::*;
use vstd::string::*;
use crate::connection::{
    address_spec, attempts_after, attempts_after_all, decimal, decimal_spec, frame, framed, sent_after,
    ConnError, Connection, NetConnection, Transport,
};

verus! {

/// A session: a connection and the credentials of the handshake.
pub struct Client<C: Connection> {
    pass: String,
    user_name: String,
    conn: C,
}

/// The handshake for the given identity and credential, in the order in
/// which it is sent, without terminators.
pub open spec fn handshake(user_name: Seq<char>, pass: Seq<char>) -> Seq<Seq<char>> {
    seq![
        "PASS :"@ + pass,
        "NICK :"@ + user_name,
        "USER "@ + user_name + " 8 * :"@ + user_name,
        "JOIN #c_midknight"@,
    ]
}

/// The first `count` lines of a handshake as they go over the wire, each
/// with its terminator.
pub open spec fn handshake_sent(user_name: Seq<char>, pass: Seq<char>, count: int) -> Seq<
    Seq<char>,
> {
    handshake(user_name, pass).take(count).map_values(|line: Seq<char>| framed(line))
}

impl<C: Connection> Client<C> {
    pub closed spec fn user_name(&self) -> Seq<char> {
        self.user_name@
    }

    pub closed spec fn pass(&self) -> Seq<char> {
        self.pass@
    }

    /// The connection as it now is.
    pub closed spec fn link(&self) -> C {
        self.conn
    }

    /// The reconnect-attempt counter of the connection.
    pub open spec fn attempts(&self) -> nat {
        self.link().attempts()
    }

    /// The outcomes of the reconnects of the connection, oldest first:
    /// `true` for one that succeeded.
    pub open spec fn reconnects(&self) -> Seq<bool> {
        self.link().reconnects()
    }

    /// The lines that the connection was given to write, oldest first,
    /// whether or not they went out.
    pub open spec fn offered(&self) -> Seq<Seq<char>> {
        self.link().offered()
    }

    /// The lines that were sent over the connection, oldest first.
    pub open spec fn sent(&self) -> Seq<Seq<char>> {
        self.link().sent()
    }

    /// Whether `other` is a session of the same identity and credential.
    pub open spec fn same_identity(&self, other: &Self) -> bool {
        self.user_name() == other.user_name() && self.pass() == other.pass()
    }

    /// Whether `other` has, besides the same identity, the same attempt
    /// count and the same histories of reconnects and of offered and sent
    /// lines.
    pub open spec fn agrees_with(&self, other: &Self) -> bool {
        self.same_identity(other) && self.attempts() == other.attempts() && self.reconnects()
            == other.reconnects() && self.offered() == other.offered() && self.sent()
            == other.sent()
    }

    /// How a recovery that began at `before` leaves the session, by the way
    /// it went: one reconnect was made, which failed where the recovery was
    /// refused and succeeded else; the handshake was offered after a
    /// reconnect that succeeded, up to its first line that did not go out.
    pub open spec fn recovered_from(&self, before: &Self, recovery: Recovery) -> bool {
        let user = before.user_name();
        let pass = before.pass();
        &&& self.same_identity(before)
        &&& self.reconnects() == before.reconnects().push(!(recovery is Refused))
        &&& match recovery {
            Recovery::Restored => self.attempts() == 0 && self.sent() == before.sent()
                + handshake_sent(user, pass, 4) && self.offered() == before.offered()
                + handshake_sent(user, pass, 4),
            Recovery::HandshakeFailed => self.attempts() == 0 && exists|count: int|
                0 <= count < 4 && self.sent() == before.sent() + #[trigger] handshake_sent(
                    user,
                    pass,
                    count,
                ) && self.offered() == before.offered() + handshake_sent(user, pass, count + 1),
            Recovery::Refused => self.attempts() == before.attempts() + 1 && self.sent()
                == before.sent() && self.offered() == before.offered(),
        }
    }

    /// A session over a connection that has been opened.
    pub fn with_connection(user_name: &str, pass: &str, conn: C) -> (client: Self)
        ensures
            client.user_name() == user_name@,
            client.pass() == pass@,
            client.link() == conn,
    {
        Client { pass: String::from_str(pass), user_name: String::from_str(user_name), conn }
    }

    /// The stream of the lines that this session receives.
    pub fn iter<'a>(&'a mut self) -> (stream: ConIter<'a, C>)
        ensures
            stream.state == StreamState::Ready,
            *stream.client == *old(self),
            *final(stream.client) == *final(self),
    {
        ConIter::new(self)
    }

    /// The connection of this session.
    pub fn conn(&self) -> (conn: &C)
        ensures
            *conn == self.link(),
    {
        &self.conn
    }

    /// Gives `msg` followed by the terminator to the connection, and
    /// returns what the connection answers: the line has gone out if and
    /// only if that is `Ok`.
    pub fn send(&mut self, msg: &str) -> (r: Result<(), ConnError>)
        ensures
            final(self).same_identity(old(self)),
            final(self).attempts() == old(self).attempts(),
            final(self).reconnects() == old(self).reconnects(),
            final(self).offered() == old(self).offered().push(framed(msg@)),
            final(self).sent() == sent_after(old(self).sent(), framed(msg@), r is Ok),
    {
        let line = frame(msg);
        self.conn.send(line.as_str())
    }

    /// What the session does with the outcome of the connection's
    /// reconnect: a failure is counted as one more attempt, a success
    /// touches nothing, and the outcome is returned as it came.
    pub fn count_reconnect(&mut self, reconnected: Result<(), ConnError>) -> (r: Result<
        (),
        ConnError,
    >)
        requires
            reconnected is Err ==> old(self).attempts() < u8::MAX,
        ensures
            r == reconnected,
            reconnected is Ok ==> *final(self) == *old(self),
            final(self).same_identity(old(self)),
            final(self).attempts() == old(self).attempts() + (if reconnected is Err {
                1nat
            } else {
                0nat
            }),
            final(self).reconnects() == old(self).reconnects(),
            final(self).offered() == old(self).offered(),
            final(self).sent() == old(self).sent(),
    {
        match reconnected {
            Ok(done) => Ok(done),
            Err(err) => {
                match self.conn.add_reconnect_attempt() {
                    Ok(_) => Err(err),
                    Err(e) => Err(e),
                }
            },
        }
    }

    /// Replaces the connection by a fresh one: one reconnect of the
    /// connection is made, and its outcome is returned. A failure is
    /// counted as one more attempt before it is returned; a success resets
    /// the count.
    pub fn reconnect(&mut self) -> (r: Result<(), ConnError>)
        requires
            old(self).attempts() < u8::MAX,
        ensures
            final(self).same_identity(old(self)),
            final(self).attempts() == attempts_after(old(self).attempts(), r is Ok),
            final(self).reconnects() == old(self).reconnects().push(r is Ok),
            final(self).offered() == old(self).offered(),
            final(self).sent() == old(self).sent(),
    {
        let reconnected = self.conn.reconnect();
        self.count_reconnect(reconnected)
    }

    /// Sends the handshake line by line and stops at the first line that
    /// cannot be sent.
    pub fn login(&mut self) -> (r: Result<(), ConnError>)
        ensures
            final(self).same_identity(old(self)),
            final(self).attempts() == old(self).attempts(),
            final(self).reconnects() == old(self).reconnects(),
            r is Ok ==> final(self).sent() == old(self).sent() + handshake_sent(
                old(self).user_name(),
                old(self).pass(),
                4,
            ) && final(self).offered() == old(self).offered() + handshake_sent(
                old(self).user_name(),
                old(self).pass(),
                4,
            ),
            r is Err ==> exists|count: int|
                0 <= count < 4 && final(self).sent() == old(self).sent() + #[trigger] handshake_sent(
                    old(self).user_name(),
                    old(self).pass(),
                    count,
                ) && final(self).offered() == old(self).offered() + handshake_sent(
                    old(self).user_name(),
                    old(self).pass(),
                    count + 1,
                ),
    {
        let ghost offered = self.offered();
        let ghost before = self.sent();
        let ghost user = self.user_name();
        let ghost pass = self.pass();
        proof {
            assert(before =~= before + handshake_sent(user, pass, 0));
            assert(offered =~= offered + handshake_sent(user, pass, 0));
        }

        let credential = String::from_str("PASS :").concat(self.pass.as_str());
        match self.send(credential.as_str()) {
            Ok(_) => {},
            Err(e) => {
                proof {
                    assert(self.offered() =~= offered + handshake_sent(user, pass, 1));
                }
                return Err(e);
            },
        }
        proof {
            assert(self.sent() =~= before + handshake_sent(user, pass, 1));
            assert(self.offered() =~= offered + handshake_sent(user, pass, 1));
        }

        let identity = String::from_str("NICK :").concat(self.user_name.as_str());
        match self.send(identity.as_str()) {
            Ok(_) => {},
            Err(e) => {
                proof {
                    assert(self.offered() =~= offered + handshake_sent(user, pass, 2));
                }
                return Err(e);
            },
        }
        proof {
            assert(self.sent() =~= before + handshake_sent(user, pass, 2));
            assert(self.offered() =~= offered + handshake_sent(user, pass, 2));
        }

        let registration = String::from_str("USER ").concat(self.user_name.as_str()).concat(
            " 8 * :",
        ).concat(self.user_name.as_str());
        match self.send(registration.as_str()) {
            Ok(_) => {},
            Err(e) => {
                proof {
                    assert(self.offered() =~= offered + handshake_sent(user, pass, 3));
                }
                return Err(e);
            },
        }
        proof {
            assert(self.sent() =~= before + handshake_sent(user, pass, 3));
            assert(self.offered() =~= offered + handshake_sent(user, pass, 3));
        }

        match self.send("JOIN #c_midknight") {
            Ok(_) => {},
            Err(e) => {
                proof {
                    assert(self.offered() =~= offered + handshake_sent(user, pass, 4));
                }
                return Err(e);
            },
        }
        proof {
            assert(self.sent() =~= before + handshake_sent(user, pass, 4));
            assert(self.offered() =~= offered + handshake_sent(user, pass, 4));
        }
        Ok(())
    }
}

impl<T: Transport> Client<NetConnection<T>> {
    /// Opens a connection to `host:port` and gives the session over it.
    /// Where the connection cannot be opened there is no session, and the
    /// failure is returned without another try.
    pub fn new(user_name: &str, pass: &str, host: &str, port: u16) -> (r: Result<
        Self,
        ConnError,
    >)
        ensures
            r matches Ok(client) ==> client.user_name() == user_name@ && client.pass() == pass@
                && client.attempts() == 0 && client.reconnects() == Seq::<bool>::empty()
                && client.offered() == Seq::<Seq<char>>::empty()
                && client.sent() == Seq::<Seq<char>>::empty()
                && client.link().reads() == Seq::<Result<String, ConnError>>::empty()
                && client.link().host() == host@ && client.link().port() == port
                && client.link().dialed() == seq![address_spec(host@, port)],
    {
        match NetConnection::connect(host, port) {
            Ok(conn) => Ok(Client::with_connection(user_name, pass, conn)),
            Err(e) => Err(e),
        }
    }
}

/// The history of sent lines after a run of sends that succeeded and of
/// receives, in any order: in `traffic`, `Some(msg)` is such a send of the
/// message `msg` by the session, and `None` is a receive.
pub open spec fn sent_after_all(before: Seq<Seq<char>>, traffic: Seq<Option<Seq<char>>>) -> Seq<
    Seq<char>,
>
    decreases traffic.len(),
{
    if traffic.len() == 0 {
        before
    } else {
        let earlier = sent_after_all(before, traffic.drop_last());
        match traffic.last() {
            Some(msg) => sent_after(earlier, framed(msg), true),
            None => earlier,
        }
    }
}

/// The messages of the sends in a run of sends and receives, in order.
pub open spec fn messages_of(traffic: Seq<Option<Seq<char>>>) -> Seq<Seq<char>>
    decreases traffic.len(),
{
    if traffic.len() == 0 {
        Seq::empty()
    } else {
        match traffic.last() {
            Some(msg) => messages_of(traffic.drop_last()).push(msg),
            None => messages_of(traffic.drop_last()),
        }
    }
}

/// However sends that succeed are mixed with receives, what has gone out is
/// what had gone out before, followed by the messages in the order of
/// their sends, each whole and with its terminator: a receive neither adds
/// to it nor changes it.
pub proof fn lemma_sends_keep_order(before: Seq<Seq<char>>, traffic: Seq<Option<Seq<char>>>)
    ensures
        sent_after_all(before, traffic) == before + messages_of(traffic).map_values(
            |msg: Seq<char>| framed(msg),
        ),
    decreases traffic.len(),
{
    let frame_it = |msg: Seq<char>| framed(msg);
    if traffic.len() == 0 {
        assert(before =~= before + messages_of(traffic).map_values(frame_it));
    } else {
        lemma_sends_keep_order(before, traffic.drop_last());
        let earlier = messages_of(traffic.drop_last());
        match traffic.last() {
            Some(msg) => {
                assert(earlier.push(msg).map_values(frame_it) =~= earlier.map_values(
                    frame_it,
                ).push(framed(msg)));
                assert((before + earlier.map_values(frame_it)).push(framed(msg)) =~= before
                    + earlier.map_values(frame_it).push(framed(msg)));
            },
            None => {},
        }
    }
}

/// The number of consecutive failed reconnects at which the stream gives up.
pub const RETRY_CEILING: u8 = 5;

/// Where the stream stands between two pulls.
#[derive(Clone, Copy, Debug, PartialEq, Eq, Structural)]
pub enum StreamState {
    /// About to receive.
    Ready,
    /// A receive failed and a recovery is due.
    Recovering,
    /// The retry ceiling was reached: nothing more is produced.
    Exhausted,
    /// The peer closed the connection: nothing more is produced.
    Ended,
}

/// How a recovery went.
#[derive(Clone, Copy, Debug, PartialEq, Eq, Structural)]
pub enum Recovery {
    /// The reconnect succeeded and the whole handshake was sent.
    Restored,
    /// The reconnect succeeded, but a line of the handshake could not be
    /// sent.
    HandshakeFailed,
    /// The reconnect failed and was counted.
    Refused,
}

/// What one transition of the stream produced.
#[derive(Debug, PartialEq, Eq)]
pub enum Step {
    /// A line was received: the stream's next item.
    Line(String),
    /// The receive failed; the recovery with this number, counted from one,
    /// comes next.
    Lost(u8),
    /// A recovery ran. The stream receives again however it went.
    Recovered(Recovery),
    /// The receive failed with the retry ceiling reached: the stream's last
    /// item, the "not connected" failure.
    Disconnected,
    /// The stream has ended: there is no item, now or later.
    Finished,
}

impl Step {
    /// What the consumer of the stream gets for this step: nothing yet for
    /// a step of a recovery, after which the stream is stepped again; else
    /// the answer to the pull, which is an item or the end of the stream.
    pub open spec fn answer_spec(self) -> Option<Option<Result<String, ConnError>>> {
        match self {
            Step::Line(line) => Some(Some(Ok(line))),
            Step::Disconnected => Some(Some(Err(ConnError::NotConnected))),
            Step::Finished => Some(None),
            Step::Lost(_) | Step::Recovered(_) => None,
        }
    }

    pub fn answer(self) -> (answer: Option<Option<Result<String, ConnError>>>)
        ensures
            answer == self.answer_spec(),
    {
        match self {
            Step::Line(line) => Some(Some(Ok(line))),
            Step::Disconnected => Some(Some(Err(ConnError::NotConnected))),
            Step::Finished => Some(None),
            Step::Lost(_) | Step::Recovered(_) => None,
        }
    }
}

/// The progress notice for the recovery with the given number: the number
/// and the ceiling, both in decimal.
pub open spec fn notice_spec(number: u8) -> Seq<char> {
    "Lost Connection to server, attempting to reconnect... Attempt: "@ + decimal_spec(
        number as nat,
    ) + " / "@ + decimal_spec(RETRY_CEILING as nat)
}

/// Writes the progress notice that announces a recovery.
pub fn notice(number: u8) -> (text: String)
    ensures
        text@ == notice_spec(number),
{
    let attempt = decimal(number as u16);
    let ceiling = decimal(RETRY_CEILING as u16);
    String::from_str("Lost Connection to server, attempting to reconnect... Attempt: ").concat(
        attempt.as_str(),
    ).concat(" / ").concat(ceiling.as_str())
}

/// The state in which a ready stream is left by the outcome of a receive,
/// with the attempt count as it stood.
pub open spec fn state_after(received: Result<String, ConnError>, attempts: nat) -> StreamState {
    match received {
        Ok(_) => StreamState::Ready,
        Err(ConnError::Eof) => StreamState::Ended,
        Err(_) => if attempts < RETRY_CEILING {
            StreamState::Recovering
        } else {
            StreamState::Exhausted
        },
    }
}

/// What a ready stream produces for the outcome of a receive, with the
/// attempt count as it stood.
pub open spec fn step_after(received: Result<String, ConnError>, attempts: nat) -> Step {
    match received {
        Ok(line) => Step::Line(line),
        Err(ConnError::Eof) => Step::Finished,
        Err(_) => if attempts < RETRY_CEILING {
            Step::Lost((attempts + 1) as u8)
        } else {
            Step::Disconnected
        },
    }
}

/// Whether a ready stream can produce `step` and then stand in `state`,
/// with the attempt count at `attempts`, for some outcome of the receive.
pub open spec fn received_step(step: Step, state: StreamState, attempts: nat) -> bool {
    match step {
        Step::Line(line) => state == StreamState::Ready && line@.len() > 0,
        Step::Finished => state == StreamState::Ended,
        Step::Lost(number) => state == StreamState::Recovering && attempts < RETRY_CEILING
            && number == attempts + 1,
        Step::Disconnected => state == StreamState::Exhausted && attempts >= RETRY_CEILING,
        Step::Recovered(_) => false,
    }
}

/// The terminal "not connected" item is produced exactly where a receive
/// fails, other than by a clean close, with the attempt count at the
/// ceiling or above; below the ceiling it is never produced.
pub proof fn lemma_disconnected_iff_ceiling(received: Result<String, ConnError>, attempts: nat)
    ensures
        step_after(received, attempts) is Disconnected <==> received is Err && received
            != Err::<String, ConnError>(ConnError::Eof) && attempts >= RETRY_CEILING,
        state_after(received, attempts) == StreamState::Exhausted <==> step_after(
            received,
            attempts,
        ) is Disconnected,
        attempts < RETRY_CEILING ==> !(step_after(received, attempts) is Disconnected),
{
}

/// When reconnects have failed one after another since the counter stood at
/// zero, a failing receive ends the stream with the terminal item if and
/// only if there were at least five of them; until then it asks for the
/// next recovery, numbered one above their count.
pub proof fn lemma_gives_up_after_ceiling_failures(failure: ConnError, outcomes: Seq<bool>)
    requires
        failure != ConnError::Eof,
        forall|i: int| 0 <= i < outcomes.len() ==> !outcomes[i],
    ensures
        step_after(Err(failure), attempts_after_all(0, outcomes)) is Disconnected
            <==> outcomes.len() >= RETRY_CEILING,
        outcomes.len() < RETRY_CEILING ==> step_after(
            Err(failure),
            attempts_after_all(0, outcomes),
        ) == Step::Lost((outcomes.len() + 1) as u8),
{
    crate::connection::lemma_failures_are_counted(0, outcomes);
}

/// The stream of received lines of one session.
pub struct ConIter<'a, C: Connection> {
    /// The session whose lines these are; the stream does not own it.
    pub client: &'a mut Client<C>,
    /// Where the stream stands. The stream's own transitions never leave
    /// `Exhausted` or `Ended`.
    pub state: StreamState,
}

impl<'a, C: Connection> ConIter<'a, C> {
    /// A stream over the session, ready to receive.
    pub fn new(client: &'a mut Client<C>) -> (stream: Self)
        ensures
            stream.state == StreamState::Ready,
            *stream.client == *old(client),
            *final(stream.client) == *final(client),
    {
        ConIter { client, state: StreamState::Ready }
    }

    /// Receives one line from the session's connection.
    pub fn get_next_line(&mut self) -> (r: Result<String, ConnError>)
        ensures
            final(self).state == old(self).state,
            final(self).client.agrees_with(old(self).client),
            *final(final(self).client) == *final(old(self).client),
            r matches Ok(line) ==> line@.len() > 0,
    {
        self.client.conn.recv()
    }

    /// What a ready stream does with the outcome of a receive: a line is
    /// passed on, a clean close ends the stream, and any other failure asks
    /// for a recovery while the attempt count is below the ceiling and is
    /// the terminal item from there on. The session is not touched.
    pub fn settle(&mut self, received: Result<String, ConnError>) -> (step: Step)
        requires
            old(self).state == StreamState::Ready,
        ensures
            step == step_after(received, old(self).client.attempts()),
            final(self).state == state_after(received, old(self).client.attempts()),
            *final(self).client == *old(self).client,
            *final(final(self).client) == *final(old(self).client),
    {
        match received {
            Ok(line) => Step::Line(line),
            Err(ConnError::Eof) => {
                self.state = StreamState::Ended;
                Step::Finished
            },
            Err(_) => {
                let attempts: u8 = self.client.conn.get_reconnect_attempts();
                if attempts < RETRY_CEILING {
                    self.state = StreamState::Recovering;
                    Step::Lost(attempts + 1)
                } else {
                    self.state = StreamState::Exhausted;
                    Step::Disconnected
                }
            },
        }
    }

    /// The recovery that a lost connection asked for: a reconnect and, where
    /// that succeeds, the handshake. The stream is ready again whether or
    /// not they succeeded. With the attempt count at the ceiling nothing is
    /// tried and the stream gives up.
    pub fn recover(&mut self) -> (step: Step)
        requires
            old(self).state == StreamState::Recovering,
        ensures
            *final(final(self).client) == *final(old(self).client),
            old(self).client.attempts() >= RETRY_CEILING ==> step == Step::Disconnected
                && final(self).state == StreamState::Exhausted && *final(self).client == *old(self).client,
            old(self).client.attempts() < RETRY_CEILING ==> final(self).state
                == StreamState::Ready && (exists|recovery: Recovery|
                step == Step::Recovered(recovery) && final(self).client.recovered_from(
                    old(self).client,
                    recovery,
                )),
    {
        let attempts: u8 = self.client.conn.get_reconnect_attempts();
        if attempts < RETRY_CEILING {
            let ghost before = *self.client;
            let recovery = match self.client.reconnect() {
                Ok(_) => match self.client.login() {
                    Ok(_) => Recovery::Restored,
                    Err(_) => Recovery::HandshakeFailed,
                },
                Err(_) => Recovery::Refused,
            };
            self.state = StreamState::Ready;
            proof {
                assert(self.client.recovered_from(&before, recovery));
            }
            Step::Recovered(recovery)
        } else {
            self.state = StreamState::Exhausted;
            Step::Disconnected
        }
    }

    /// One transition of the stream. A ready stream receives and settles
    /// what came; a stream that lost its connection runs the recovery; a
    /// stream that has ended or given up does nothing and stays as it is.
    pub fn step(&mut self) -> (step: Step)
        ensures
            *final(final(self).client) == *final(old(self).client),
            match old(self).state {
                StreamState::Ready => final(self).client.agrees_with(old(self).client)
                    && received_step(step, final(self).state, old(self).client.attempts()),
                StreamState::Recovering => if old(self).client.attempts() < RETRY_CEILING {
                    final(self).state == StreamState::Ready && (exists|recovery: Recovery|
                        step == Step::Recovered(recovery) && final(self).client.recovered_from(old(self).client, recovery))
                } else {
                    step == Step::Disconnected && final(self).state == StreamState::Exhausted
                        && *final(self).client == *old(self).client
                },
                StreamState::Exhausted | StreamState::Ended => step == Step::Finished && final(self).state == old(self).state && *final(self).client == *old(self).client,
            },
    {
        match self.state {
            StreamState::Ready => {
                let received = self.get_next_line();
                self.settle(received)
            },
            StreamState::Recovering => self.recover(),
            StreamState::Exhausted | StreamState::Ended => Step::Finished,
        }
    }
}

} // verus!
