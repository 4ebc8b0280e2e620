//! The listener's session state machine.
//!
//! The listener is the one place that talks to the monitoring client. It
//! keeps every log record in a backlog, with a mark behind the records that
//! the client has been sent, and it keeps the plot buffers. Neither is lost
//! when the client goes away and another comes.
//!
//! Nothing here touches a socket or a queue. Each function takes what
//! happened, changes the state, and says what is to be done about it. The
//! loop that owns the socket does it and reports back.

use crate::channel::{try_send, waiting, TrySendError};
use crate::mediator::drain;
use crate::packets::{ClientInfo, FromMain, Log, RobotInfo, ToClient, ToMain, ToRobot};
use crate::plot::{
    added, after_flush, batches, distinct_names, lemma_mismatched_sample_is_dropped, position,
    BufferView, PlotManager, Shape, SubPlotView,
};
use async_channel::{Receiver, Sender};
use std::collections::VecDeque;
use vstd::prelude::*;

verus! {

/// The port on which the listener waits for the client, on every address
/// of the machine.
pub const PORT: u16 = 8733;

/// Whether a client is there.
#[derive(Debug, Clone, Copy, PartialEq, Eq, Structural)]
pub enum Session {
    /// No client is connected. The listener begins here.
    Disconnected,
    /// A client is connected.
    Connected,
    /// A queue to the application is closed: the listener has given up for
    /// good.
    Terminated,
}

/// Something that the operator is to be told.
#[derive(Debug, PartialEq, Eq)]
pub enum Notice {
    /// A client has connected.
    ClientConnected,
    /// The client has gone since the last packet.
    ClientDisconnected,
    /// The client has said who it is.
    ClientIdentified(ClientInfo),
    /// A sample was dropped: its subplot holds samples of another shape.
    WrongShape { series: String, subseries: String, expected: Shape, found: Shape },
    /// A queue to the application is closed: no client can be served again.
    QueueClosed,
}

/// What is to be done after a step.
#[derive(Debug, PartialEq, Eq)]
pub enum Action {
    /// Nothing.
    Idle,
    /// Write this packet to the socket.
    Send(ToClient),
    /// Write to the socket the records of the backlog that were not sent,
    /// oldest first, and mark each one that was written.
    SendBacklog,
    /// Read what the socket holds, and hand in each packet that came.
    PollSocket,
    /// Put this message on the queue to the application.
    Forward(ToMain),
    /// Tell the operator.
    Report(Notice),
}

/// The listener's state: what the robot says of itself, the session, all
/// log records so far, how many of them the client has been sent, and the
/// plot buffers.
pub struct Listener {
    robot: RobotInfo,
    session: Session,
    backlog: Vec<Log>,
    last_sent_index: usize,
    plots: PlotManager,
}

/// What a [`Listener`] holds.
pub ghost struct ListenerView {
    pub robot: RobotInfo,
    pub session: Session,
    pub backlog: Seq<Log>,
    pub last_sent_index: int,
    pub plots: Seq<SubPlotView>,
}

impl ListenerView {
    /// Whether the mark is inside the backlog and no two subplots have the
    /// same names. Every listener is in such a state.
    pub open spec fn wf(self) -> bool {
        0 <= self.last_sent_index <= self.backlog.len() && distinct_names(self.plots)
    }

    /// The state in which the listener of `robot` begins.
    pub open spec fn initial(robot: RobotInfo) -> ListenerView {
        ListenerView {
            robot,
            session: Session::Disconnected,
            backlog: Seq::empty(),
            last_sent_index: 0,
            plots: Seq::empty(),
        }
    }

    /// The records that the client has not been sent, oldest first.
    pub open spec fn unsent(self) -> Seq<Log> {
        self.backlog.subrange(self.last_sent_index, self.backlog.len() as int)
    }

    /// The state after a client was accepted.
    pub open spec fn accepted(self) -> ListenerView {
        if self.session is Disconnected {
            ListenerView { session: Session::Connected, ..self }
        } else {
            self
        }
    }

    /// The state after reading or writing the socket failed.
    pub open spec fn failed(self) -> ListenerView {
        if self.session is Connected {
            ListenerView { session: Session::Disconnected, ..self }
        } else {
            self
        }
    }

    /// The state after a queue to the application was found closed.
    pub open spec fn closed(self) -> ListenerView {
        ListenerView { session: Session::Terminated, ..self }
    }

    /// The state after the queue to the application answered an offer
    /// with `answer`: a closed queue ends everything, and nothing else
    /// changes anything.
    pub open spec fn forwarded(self, answer: Result<(), TrySendError<ToMain>>) -> ListenerView {
        if answer matches Err(TrySendError::Closed(_)) {
            self.closed()
        } else {
            self
        }
    }

    /// The state after one more record was written to the socket.
    pub open spec fn marked_sent(self) -> ListenerView {
        if self.last_sent_index < self.backlog.len() {
            ListenerView { last_sent_index: self.last_sent_index + 1, ..self }
        } else {
            self
        }
    }

    /// The state after `n` more records were written to the socket.
    pub open spec fn marked_sent_times(self, n: nat) -> ListenerView
        decreases n,
    {
        if n == 0 {
            self
        } else {
            self.marked_sent_times((n - 1) as nat).marked_sent()
        }
    }

    /// The state after `msg` came from the application at `now`. A record
    /// joins the backlog and a sample goes to the plot buffers, with a
    /// client or without; nothing else leaves a trace.
    pub open spec fn after_message(self, msg: FromMain, now: u64) -> ListenerView {
        if self.session is Terminated {
            self
        } else {
            match msg {
                FromMain::Log(record) => ListenerView { backlog: self.backlog.push(record), ..self },
                FromMain::Point(series, subseries, point) => ListenerView {
                    plots: added(self.plots, series@, subseries@, point, now),
                    ..self
                },
                _ => self,
            }
        }
    }

    /// What is to be done when `msg` comes from the application.
    pub open spec fn action_for_message(self, msg: FromMain) -> Action {
        match msg {
            FromMain::Log(_) => if self.session is Connected {
                Action::SendBacklog
            } else {
                Action::Idle
            },
            FromMain::Pong => if self.session is Connected {
                Action::Send(ToClient::Pong)
            } else {
                Action::Idle
            },
            FromMain::Path(path) => if self.session is Connected {
                Action::Send(ToClient::Path(path))
            } else {
                Action::Idle
            },
            FromMain::Point(series, subseries, point) => {
                let i = position(self.plots, series@, subseries@);
                if !(self.session is Terminated) && i < self.plots.len()
                    && self.plots[i].buffer.shape() != point.shape() {
                    Action::Report(
                        Notice::WrongShape {
                            series,
                            subseries,
                            expected: self.plots[i].buffer.shape(),
                            found: point.shape(),
                        },
                    )
                } else {
                    Action::Idle
                }
            },
            FromMain::PollEvents => if self.session is Connected {
                Action::PollSocket
            } else {
                Action::Idle
            },
        }
    }

    /// What is to be done when `packet` comes from the client.
    pub open spec fn action_for_packet(self, packet: ToRobot) -> Action {
        if self.session is Connected {
            match packet {
                ToRobot::ClientInfo(info) => Action::Report(Notice::ClientIdentified(info)),
                ToRobot::Ping => Action::Forward(ToMain::Ping),
                ToRobot::Path(path) => Action::Forward(ToMain::Path(path)),
                ToRobot::RequestLogs => Action::SendBacklog,
            }
        } else {
            Action::Idle
        }
    }

    /// The state after the plot buffers that are due at `now` were handed
    /// out, which happens only while a client is there.
    pub open spec fn after_ready_buffers(self, now: u64) -> ListenerView {
        if self.session is Connected {
            ListenerView { plots: after_flush(self.plots, now), ..self }
        } else {
            self
        }
    }

    /// The batches that are handed out at `now`.
    pub open spec fn ready_batches(self, now: u64) -> Seq<(Seq<char>, Seq<char>, BufferView)> {
        if self.session is Connected {
            batches(self.plots, now)
        } else {
            Seq::empty()
        }
    }
}

/// Whether `packet` is the plot packet that carries `batch`.
pub open spec fn carries(packet: ToClient, batch: (Seq<char>, Seq<char>, BufferView)) -> bool {
    packet matches ToClient::PointBuffer(series, subseries, buffer) && series@ == batch.0
        && subseries@ == batch.1 && buffer@ == batch.2
}

impl View for Listener {
    type V = ListenerView;

    closed spec fn view(&self) -> ListenerView {
        ListenerView {
            robot: self.robot,
            session: self.session,
            backlog: self.backlog@,
            last_sent_index: self.last_sent_index as int,
            plots: self.plots@,
        }
    }
}

impl Listener {
    #[verifier::type_invariant]
    spec fn well_formed(self) -> bool {
        self.last_sent_index <= self.backlog@.len() && distinct_names(self.plots@)
    }

    /// The listener of `robot`, without a client, without records and
    /// without plots.
    pub fn new(robot: RobotInfo) -> (r: Listener)
        ensures
            r@ == ListenerView::initial(robot),
            r@.wf(),
    {
        Listener {
            robot,
            session: Session::Disconnected,
            backlog: Vec::new(),
            last_sent_index: 0,
            plots: PlotManager::new(),
        }
    }

    /// Whether a client is there.
    pub fn session(&self) -> (s: Session)
        ensures
            s == self@.session,
            self@.wf(),
    {
        proof {
            use_type_invariant(self);
        }
        self.session
    }

    /// The number of records in the backlog.
    pub fn backlog_len(&self) -> (n: usize)
        ensures
            n == self@.backlog.len(),
            self@.wf(),
    {
        proof {
            use_type_invariant(self);
        }
        self.backlog.len()
    }

    /// The number of records that the client has been sent.
    pub fn last_sent_index(&self) -> (n: usize)
        ensures
            n == self@.last_sent_index,
            self@.wf(),
    {
        proof {
            use_type_invariant(self);
        }
        self.last_sent_index
    }

    /// The packet with which every session begins: what the robot says of
    /// itself.
    pub fn greeting(&self) -> (r: ToClient)
        ensures
            r == ToClient::RobotInfo(self@.robot),
    {
        ToClient::RobotInfo(self.robot.clone())
    }

    /// The plot buffers.
    pub fn plots(&self) -> (p: &PlotManager)
        ensures
            p@ == self@.plots,
            self@.wf(),
    {
        proof {
            use_type_invariant(self);
        }
        &self.plots
    }

    /// A client was accepted. From `Disconnected` the session becomes
    /// `Connected`, and this is reported, once. Otherwise nothing changes.
    /// The backlog, its mark and the plot buffers stay as they are.
    pub fn on_accept(&mut self) -> (notice: Option<Notice>)
        ensures
            final(self)@ == old(self)@.accepted(),
            final(self)@.wf(),
            old(self)@.session is Disconnected ==> notice == Some(Notice::ClientConnected),
            !(old(self)@.session is Disconnected) ==> notice is None,
    {
        proof {
            use_type_invariant(&*self);
        }
        match self.session {
            Session::Disconnected => {
                self.session = Session::Connected;
                Some(Notice::ClientConnected)
            },
            _ => None,
        }
    }

    /// Reading or writing the socket failed, or what was read could not be
    /// understood. From `Connected` the session becomes `Disconnected`, and
    /// this is reported, once. The backlog, its mark and the plot buffers
    /// stay as they are.
    pub fn on_io_error(&mut self) -> (notice: Option<Notice>)
        ensures
            final(self)@ == old(self)@.failed(),
            final(self)@.wf(),
            old(self)@.session is Connected ==> notice == Some(Notice::ClientDisconnected),
            !(old(self)@.session is Connected) ==> notice is None,
    {
        proof {
            use_type_invariant(&*self);
        }
        match self.session {
            Session::Connected => {
                self.session = Session::Disconnected;
                Some(Notice::ClientDisconnected)
            },
            _ => None,
        }
    }

    /// A queue to the application was found closed. The listener gives up
    /// for good, and reports it.
    pub fn on_queue_closed(&mut self) -> (notice: Notice)
        ensures
            final(self)@ == old(self)@.closed(),
            final(self)@.wf(),
            notice == Notice::QueueClosed,
    {
        proof {
            use_type_invariant(&*self);
        }
        self.session = Session::Terminated;
        Notice::QueueClosed
    }

    /// The queue to the application answered an offer with `answer`. If
    /// it took the message, all is well. If it had no room, the message is
    /// lost to the application and nothing else happens: the listener waits
    /// for no one but the application's next message. If the queue is
    /// closed, the listener gives up for good, and reports it.
    pub fn on_forwarded(&mut self, answer: Result<(), TrySendError<ToMain>>) -> (notice: Option<
        Notice,
    >)
        ensures
            final(self)@ == old(self)@.forwarded(answer),
            final(self)@.wf(),
            answer matches Err(TrySendError::Closed(_)) ==> notice == Some(Notice::QueueClosed),
            !(answer matches Err(TrySendError::Closed(_))) ==> notice is None,
    {
        proof {
            use_type_invariant(&*self);
        }
        match answer {
            Err(TrySendError::Closed(_)) => Some(self.on_queue_closed()),
            _ => None,
        }
    }

    /// Offers `msg` to the queue to the application, without waiting, and
    /// takes the answer as `on_forwarded` does.
    pub fn forward(&mut self, to_main: &Sender<ToMain>, msg: ToMain) -> (notice: Option<Notice>)
        ensures
            final(self)@.wf(),
            notice is None ==> final(self)@ == old(self)@,
            notice is Some ==> notice == Some(Notice::QueueClosed)
                && final(self)@ == old(self)@.closed(),
    {
        self.on_forwarded(try_send(to_main, msg))
    }

    /// A message came from the application at `now`.
    ///
    /// A record joins the backlog; with a client there, the unsent part of
    /// the backlog is to be sent. `Pong` and a path are to be sent at once,
    /// and are dropped without a client. A sample goes to the plot buffers;
    /// one of the wrong shape is dropped and reported. `PollEvents` asks
    /// for the socket to be read.
    pub fn on_message(&mut self, msg: FromMain, now: u64) -> (action: Action)
        ensures
            final(self)@ == old(self)@.after_message(msg, now),
            final(self)@.wf(),
            action == old(self)@.action_for_message(msg),
    {
        let mut state = Listener::new(RobotInfo { name: String::new() });
        core::mem::swap(self, &mut state);
        proof {
            use_type_invariant(&state);
        }
        let Listener { robot, session, mut backlog, last_sent_index, mut plots } = state;
        let connected = session == Session::Connected;
        let terminated = session == Session::Terminated;
        let action = match msg {
            FromMain::Log(record) => {
                if !terminated {
                    backlog.push(record);
                }
                if connected {
                    Action::SendBacklog
                } else {
                    Action::Idle
                }
            },
            FromMain::Pong => {
                if connected {
                    Action::Send(ToClient::Pong)
                } else {
                    Action::Idle
                }
            },
            FromMain::Path(path) => {
                if connected {
                    Action::Send(ToClient::Path(path))
                } else {
                    Action::Idle
                }
            },
            FromMain::Point(series, subseries, point) => {
                if terminated {
                    Action::Idle
                } else {
                    match plots.shape_of(&series, &subseries) {
                        Some(expected) if expected != point.shape() => {
                            proof {
                                lemma_mismatched_sample_is_dropped(
                                    plots@,
                                    series@,
                                    subseries@,
                                    point,
                                    now,
                                );
                            }
                            Action::Report(
                                Notice::WrongShape {
                                    series,
                                    subseries,
                                    expected,
                                    found: point.shape(),
                                },
                            )
                        },
                        _ => {
                            plots.add_point(series, subseries, point, now);
                            Action::Idle
                        },
                    }
                }
            },
            FromMain::PollEvents => {
                if connected {
                    Action::PollSocket
                } else {
                    Action::Idle
                }
            },
        };
        *self = Listener { robot, session, backlog, last_sent_index, plots };
        action
    }

    /// A packet came from the client. `Ping` and a path go on to the
    /// application, `RequestLogs` asks for the unsent part of the backlog,
    /// and what the client says of itself is reported. Without a client
    /// there is nothing to do. The state does not change.
    pub fn on_packet(&self, packet: ToRobot) -> (action: Action)
        ensures
            action == self@.action_for_packet(packet),
    {
        match self.session {
            Session::Connected => match packet {
                ToRobot::ClientInfo(info) => Action::Report(Notice::ClientIdentified(info)),
                ToRobot::Ping => Action::Forward(ToMain::Ping),
                ToRobot::Path(path) => Action::Forward(ToMain::Path(path)),
                ToRobot::RequestLogs => Action::SendBacklog,
            },
            _ => Action::Idle,
        }
    }

    /// The oldest record that the client has not been sent, as the packet
    /// that carries it.
    pub fn next_unsent(&self) -> (r: Option<ToClient>)
        ensures
            self@.unsent().len() > 0 ==> r == Some(ToClient::Log(self@.unsent()[0])),
            self@.unsent().len() == 0 ==> r is None,
    {
        proof {
            use_type_invariant(self);
        }
        if self.last_sent_index < self.backlog.len() {
            Some(ToClient::Log(self.backlog[self.last_sent_index].clone()))
        } else {
            None
        }
    }

    /// The oldest unsent record was written to the socket: the mark moves
    /// behind it. With nothing unsent, nothing changes.
    pub fn mark_sent(&mut self)
        ensures
            final(self)@ == old(self)@.marked_sent(),
            final(self)@.wf(),
    {
        proof {
            use_type_invariant(&*self);
        }
        if self.last_sent_index < self.backlog.len() {
            self.last_sent_index = self.last_sent_index + 1;
        }
    }

    /// Hands out the plot buffers that are due at `now`, each as the packet
    /// to send, in the order in which their subplots were made. Without a
    /// client nothing is handed out and the buffers go on filling.
    pub fn ready_buffers(&mut self, now: u64) -> (r: Vec<ToClient>)
        ensures
            final(self)@ == old(self)@.after_ready_buffers(now),
            final(self)@.wf(),
            r@.len() == old(self)@.ready_batches(now).len(),
            forall|i: int|
                0 <= i < r@.len() ==> carries(#[trigger] r@[i], old(self)@.ready_batches(now)[i]),
    {
        let mut state = Listener::new(RobotInfo { name: String::new() });
        core::mem::swap(self, &mut state);
        proof {
            use_type_invariant(&state);
        }
        let Listener { robot, session, backlog, last_sent_index, mut plots } = state;
        let mut out: Vec<ToClient> = Vec::new();
        if session == Session::Connected {
            let ghost due = batches(plots@, now);
            let ready = plots.buffers_to_send(now);
            let ghost handed = ready@;
            for batch in it: ready
                invariant
                    it.seq() == handed,
                    handed.len() == due.len(),
                    forall|i: int|
                        0 <= i < due.len() ==> (#[trigger] handed[i]).0@ == due[i].0 && handed[i].1@
                            == due[i].1 && handed[i].2@ == due[i].2,
                    out@.len() == it.index(),
                    forall|i: int| 0 <= i < out@.len() ==> carries(#[trigger] out@[i], due[i]),
            {
                let (series, subseries, buffer) = batch;
                out.push(ToClient::PointBuffer(series, subseries, buffer));
            }
        }
        *self = Listener { robot, session, backlog, last_sent_index, plots };
        out
    }
}

impl ListenerView {
    /// The state after the records of `records` came from the application,
    /// one after another.
    pub open spec fn logged(self, records: Seq<Log>) -> ListenerView
        decreases records.len(),
    {
        if records.len() == 0 {
            self
        } else {
            self.logged(records.drop_last()).after_message(FromMain::Log(records.last()), 0)
        }
    }
}

/// Every step leaves the mark inside the backlog and the names of the
/// subplots distinct.
pub proof fn lemma_steps_keep_state_well_formed(v: ListenerView, msg: FromMain, now: u64)
    requires
        v.wf(),
    ensures
        v.accepted().wf(),
        v.failed().wf(),
        v.closed().wf(),
        v.marked_sent().wf(),
        v.after_message(msg, now).wf(),
        v.after_ready_buffers(now).wf(),
        forall|answer: Result<(), TrySendError<ToMain>>| (#[trigger] v.forwarded(answer)).wf(),
{
    match msg {
        FromMain::Point(series, subseries, point) => {
            crate::plot::lemma_added_keeps_names_distinct(v.plots, series@, subseries@, point, now);
        },
        _ => {},
    }
    crate::plot::lemma_flush_keeps_names_distinct(v.plots, now);
}

/// Writing `n` of the unsent records moves the mark behind them and
/// changes nothing else: what is left unsent is what was unsent, without
/// its first `n`.
pub proof fn lemma_marked_sent_times(v: ListenerView, n: nat)
    requires
        v.wf(),
        n <= v.unsent().len(),
    ensures
        v.marked_sent_times(n) == (ListenerView { last_sent_index: v.last_sent_index + n, ..v }),
        v.marked_sent_times(n).wf(),
        v.marked_sent_times(n).unsent() == v.unsent().skip(n as int),
    decreases n,
{
    if n > 0 {
        lemma_marked_sent_times(v, (n - 1) as nat);
    }
}

/// Records that come while no client is there wait in the backlog, in the
/// order in which they came, behind what was unsent before.
pub proof fn lemma_records_wait_for_a_client(v: ListenerView, records: Seq<Log>)
    requires
        v.wf(),
        !(v.session is Terminated),
    ensures
        v.logged(records) == (ListenerView { backlog: v.backlog + records, ..v }),
        v.logged(records).unsent() == v.unsent() + records,
        v.logged(records).accepted().unsent() == v.unsent() + records,
    decreases records.len(),
{
    if records.len() > 0 {
        lemma_records_wait_for_a_client(v, records.drop_last());
        assert((v.backlog + records.drop_last()).push(records.last()) =~= v.backlog + records);
    }
}

/// When the client asks for the logs, it is sent the records that it was
/// not sent before, each once and oldest first: the `k`-th record written
/// is the `k`-th that was unsent. After the last of them nothing is unsent,
/// so that a second request in the same session, with no new record, sends
/// nothing.
pub proof fn lemma_request_logs_sends_each_record_once(v: ListenerView, k: nat)
    requires
        v.wf(),
        v.session is Connected,
    ensures
        v.action_for_packet(ToRobot::RequestLogs) == Action::SendBacklog,
        k < v.unsent().len() ==> v.marked_sent_times(k).unsent().len() > 0 && v.marked_sent_times(
            k,
        ).unsent()[0] == v.unsent()[k as int],
        v.marked_sent_times(v.unsent().len()).unsent().len() == 0,
        v.marked_sent_times(v.unsent().len()).action_for_packet(ToRobot::RequestLogs)
            == Action::SendBacklog,
        v.marked_sent_times(v.unsent().len()).backlog == v.backlog,
{
    if k < v.unsent().len() {
        lemma_marked_sent_times(v, k);
    }
    lemma_marked_sent_times(v, v.unsent().len());
}

/// The mark outlives the session. If the client goes after `n` of the
/// unsent records were written and another client comes, that client is
/// owed the records from the mark on, and not the whole backlog again.
pub proof fn lemma_mark_survives_reconnect(v: ListenerView, n: nat)
    requires
        v.wf(),
        v.session is Connected,
        n <= v.unsent().len(),
    ensures
        v.marked_sent_times(n).failed().session is Disconnected,
        v.marked_sent_times(n).failed().accepted().session is Connected,
        v.marked_sent_times(n).failed().accepted().backlog == v.backlog,
        v.marked_sent_times(n).failed().accepted().last_sent_index == v.last_sent_index + n,
        v.marked_sent_times(n).failed().accepted().unsent() == v.unsent().skip(n as int),
        v.marked_sent_times(n).failed().accepted().plots == v.plots,
{
    lemma_marked_sent_times(v, n);
}

/// The handle of a monitoring client on its own connection to the robot:
/// the sending end of the queue of packets for the robot and the receiving
/// end of the queue of packets from it. The thread that owns the socket
/// holds the other ends.
pub struct ClientListener {
    send: Sender<ToRobot>,
    recv: Receiver<ToClient>,
}

impl ClientListener {
    /// The sending end of the queue of packets for the robot.
    pub closed spec fn sender(&self) -> Sender<ToRobot> {
        self.send
    }

    /// The receiving end of the queue of packets from the robot.
    pub closed spec fn receiver(&self) -> Receiver<ToClient> {
        self.recv
    }

    /// The handle on these two queue ends.
    pub fn from_channels(send: Sender<ToRobot>, recv: Receiver<ToClient>) -> (r: ClientListener)
        ensures
            r.sender() == send,
            r.receiver() == recv,
    {
        ClientListener { send, recv }
    }

    /// Takes the packets from the robot that wait on the queue, oldest
    /// first, without waiting for more.
    pub fn get_packets(&self) -> (r: Vec<ToClient>) {
        drain(&self.recv, waiting(&self.recv))
    }

    /// Offers the packets to the queue for the robot, from the front of
    /// `packets` on, and stops at the first that the queue does not take.
    /// That packet and those behind it stay in `packets`, in their order.
    pub fn send_packets(&self, packets: &mut VecDeque<ToRobot>)
        ensures
            exists|taken: int|
                0 <= taken <= old(packets)@.len() && final(packets)@ == old(packets)@.skip(taken),
    {
        let ghost all = packets@;
        let ghost mut taken: int = 0;
        loop
            invariant
                0 <= taken <= all.len(),
                packets@ == all.skip(taken),
                all == old(packets)@,
            decreases packets@.len(),
        {
            match packets.pop_front() {
                Some(packet) => {
                    match try_send(&self.send, packet) {
                        Ok(()) => {
                            proof {
                                taken = taken + 1;
                            }
                        },
                        Err(refusal) => {
                            packets.push_front(refusal.into_inner());
                            return ;
                        },
                    }
                },
                None => {
                    return ;
                },
            }
        }
    }
}

} // verus!
