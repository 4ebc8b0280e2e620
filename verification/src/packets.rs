//! The messages of the bridge: what travels on the wire between the robot
//! and the monitoring client, and what travels inside the process between
//! the application and the listener.
//!
//! On the wire each packet is a payload of one tag byte followed by the
//! body of its variant. A tag, once given to a variant, keeps its meaning.

use crate::packet::Error;
use crate::plot::{Buffer, Point};
use vstd::prelude::*;
use vstd::slice::slice_subrange;

verus! {

/// How serious a log record is.
#[derive(Debug, Clone, Copy, PartialEq, Eq, Structural)]
pub enum Level {
    Error,
    Warn,
    Info,
    Debug,
    Trace,
}

/// One log record. `timestamp` counts the nanoseconds since the Unix epoch.
#[derive(Debug, PartialEq, Eq)]
pub struct Log {
    pub source: String,
    pub level: Level,
    pub msg: String,
    pub timestamp: u64,
}

impl Clone for Log {
    fn clone(&self) -> (r: Log)
        ensures
            r == *self,
    {
        Log {
            source: self.source.clone(),
            level: self.level,
            msg: self.msg.clone(),
            timestamp: self.timestamp,
        }
    }
}

/// What the client says of itself when it connects.
#[derive(Debug, PartialEq, Eq)]
pub struct ClientInfo {
    pub name: String,
}

impl ClientInfo {
    /// The info of the client of this name, which is whatever `name`
    /// converts into.
    pub fn new<T: Into<String>>(name: T) -> (r: ClientInfo)
        ensures
            call_ensures(T::into, (name,), r.name),
    {
        ClientInfo { name: name.into() }
    }
}

impl Clone for ClientInfo {
    fn clone(&self) -> (r: ClientInfo)
        ensures
            r == *self,
    {
        ClientInfo { name: self.name.clone() }
    }
}

/// What the robot says of itself when a client connects.
#[derive(Debug, PartialEq, Eq)]
pub struct RobotInfo {
    pub name: String,
}

impl RobotInfo {
    /// The info of the robot of this name, which is whatever `name`
    /// converts into.
    pub fn new<T: Into<String>>(name: T) -> (r: RobotInfo)
        ensures
            call_ensures(T::into, (name,), r.name),
    {
        RobotInfo { name: name.into() }
    }
}

impl Clone for RobotInfo {
    fn clone(&self) -> (r: RobotInfo)
        ensures
            r == *self,
    {
        RobotInfo { name: self.name.clone() }
    }
}

/// A packet from the robot to the client. A path travels as the bytes that
/// the application made of it.
#[derive(Debug, PartialEq, Eq)]
pub enum ToClient {
    Log(Log),
    Pong,
    Path(Vec<u8>),
    PointBuffer(String, String, Buffer),
    RobotInfo(RobotInfo),
}

/// A packet from the client to the robot.
#[derive(Debug, PartialEq, Eq)]
pub enum ToRobot {
    ClientInfo(ClientInfo),
    Ping,
    Path(Vec<u8>),
    RequestLogs,
}

/// A message from the listener to the application.
#[derive(Debug, PartialEq, Eq)]
pub enum ToMain {
    Ping,
    Path(Vec<u8>),
}

/// A message from the application to the listener.
#[derive(Debug, PartialEq, Eq)]
pub enum FromMain {
    Log(Log),
    Pong,
    Path(Vec<u8>),
    /// The name of the plot, the name of the subplot, and the sample.
    Point(String, String, Point),
    /// Asks the listener to read what the client sent and to hand out the
    /// plot buffers that are due.
    PollEvents,
}

/// Which variant a packet to the client is.
#[derive(Debug, Clone, Copy, PartialEq, Eq, Structural)]
pub enum ToClientKind {
    Log,
    Pong,
    Path,
    PointBuffer,
    RobotInfo,
}

/// Which variant a packet to the robot is.
#[derive(Debug, Clone, Copy, PartialEq, Eq, Structural)]
pub enum ToRobotKind {
    ClientInfo,
    Ping,
    Path,
    RequestLogs,
}

impl ToClientKind {
    /// The tag of this variant on the wire.
    pub open spec fn spec_tag(self) -> u8 {
        match self {
            ToClientKind::Log => 0,
            ToClientKind::Pong => 1,
            ToClientKind::Path => 2,
            ToClientKind::PointBuffer => 3,
            ToClientKind::RobotInfo => 5,
        }
    }

    /// The variant that `tag` stands for, if it stands for one.
    pub open spec fn spec_from_tag(tag: u8) -> Option<ToClientKind> {
        if tag == 0 {
            Some(ToClientKind::Log)
        } else if tag == 1 {
            Some(ToClientKind::Pong)
        } else if tag == 2 {
            Some(ToClientKind::Path)
        } else if tag == 3 {
            Some(ToClientKind::PointBuffer)
        } else if tag == 5 {
            Some(ToClientKind::RobotInfo)
        } else {
            None
        }
    }

    /// The tag of this variant on the wire.
    #[verifier::when_used_as_spec(spec_tag)]
    pub fn tag(self) -> (t: u8)
        ensures
            t == self.spec_tag(),
    {
        match self {
            ToClientKind::Log => 0,
            ToClientKind::Pong => 1,
            ToClientKind::Path => 2,
            ToClientKind::PointBuffer => 3,
            ToClientKind::RobotInfo => 5,
        }
    }

    /// The variant that `tag` stands for, if it stands for one.
    pub fn from_tag(tag: u8) -> (r: Option<ToClientKind>)
        ensures
            r == ToClientKind::spec_from_tag(tag),
    {
        if tag == 0 {
            Some(ToClientKind::Log)
        } else if tag == 1 {
            Some(ToClientKind::Pong)
        } else if tag == 2 {
            Some(ToClientKind::Path)
        } else if tag == 3 {
            Some(ToClientKind::PointBuffer)
        } else if tag == 5 {
            Some(ToClientKind::RobotInfo)
        } else {
            None
        }
    }

    /// Takes a payload apart into the variant that its tag names and the
    /// body behind the tag. An empty payload and a tag that names no variant
    /// are refused.
    pub fn of_payload(payload: &[u8]) -> (r: Result<(ToClientKind, &[u8]), Error>)
        ensures
            payload@.len() == 0 ==> r == Err::<(ToClientKind, &[u8]), Error>(Error::EmptyPayload),
            payload@.len() > 0 ==> match ToClientKind::spec_from_tag(payload@[0]) {
                Some(kind) => r is Ok && r->Ok_0.0 == kind && r->Ok_0.1@ == payload@.skip(1),
                None => r == Err::<(ToClientKind, &[u8]), Error>(Error::UnknownTag(payload@[0])),
            },
    {
        if payload.len() == 0 {
            return Err(Error::EmptyPayload);
        }
        match ToClientKind::from_tag(payload[0]) {
            Some(kind) => Ok((kind, slice_subrange(payload, 1, payload.len()))),
            None => Err(Error::UnknownTag(payload[0])),
        }
    }
}

impl ToRobotKind {
    /// The tag of this variant on the wire.
    pub open spec fn spec_tag(self) -> u8 {
        match self {
            ToRobotKind::ClientInfo => 0,
            ToRobotKind::Ping => 1,
            ToRobotKind::Path => 2,
            ToRobotKind::RequestLogs => 3,
        }
    }

    /// The variant that `tag` stands for, if it stands for one.
    pub open spec fn spec_from_tag(tag: u8) -> Option<ToRobotKind> {
        if tag == 0 {
            Some(ToRobotKind::ClientInfo)
        } else if tag == 1 {
            Some(ToRobotKind::Ping)
        } else if tag == 2 {
            Some(ToRobotKind::Path)
        } else if tag == 3 {
            Some(ToRobotKind::RequestLogs)
        } else {
            None
        }
    }

    /// The tag of this variant on the wire.
    #[verifier::when_used_as_spec(spec_tag)]
    pub fn tag(self) -> (t: u8)
        ensures
            t == self.spec_tag(),
    {
        match self {
            ToRobotKind::ClientInfo => 0,
            ToRobotKind::Ping => 1,
            ToRobotKind::Path => 2,
            ToRobotKind::RequestLogs => 3,
        }
    }

    /// The variant that `tag` stands for, if it stands for one.
    pub fn from_tag(tag: u8) -> (r: Option<ToRobotKind>)
        ensures
            r == ToRobotKind::spec_from_tag(tag),
    {
        if tag == 0 {
            Some(ToRobotKind::ClientInfo)
        } else if tag == 1 {
            Some(ToRobotKind::Ping)
        } else if tag == 2 {
            Some(ToRobotKind::Path)
        } else if tag == 3 {
            Some(ToRobotKind::RequestLogs)
        } else {
            None
        }
    }

    /// Takes a payload apart into the variant that its tag names and the
    /// body behind the tag. An empty payload and a tag that names no variant
    /// are refused.
    pub fn of_payload(payload: &[u8]) -> (r: Result<(ToRobotKind, &[u8]), Error>)
        ensures
            payload@.len() == 0 ==> r == Err::<(ToRobotKind, &[u8]), Error>(Error::EmptyPayload),
            payload@.len() > 0 ==> match ToRobotKind::spec_from_tag(payload@[0]) {
                Some(kind) => r is Ok && r->Ok_0.0 == kind && r->Ok_0.1@ == payload@.skip(1),
                None => r == Err::<(ToRobotKind, &[u8]), Error>(Error::UnknownTag(payload@[0])),
            },
    {
        if payload.len() == 0 {
            return Err(Error::EmptyPayload);
        }
        match ToRobotKind::from_tag(payload[0]) {
            Some(kind) => Ok((kind, slice_subrange(payload, 1, payload.len()))),
            None => Err(Error::UnknownTag(payload[0])),
        }
    }
}

impl ToClient {
    /// Which variant this packet is.
    pub open spec fn spec_kind(&self) -> ToClientKind {
        match self {
            ToClient::Log(_) => ToClientKind::Log,
            ToClient::Pong => ToClientKind::Pong,
            ToClient::Path(_) => ToClientKind::Path,
            ToClient::PointBuffer(_, _, _) => ToClientKind::PointBuffer,
            ToClient::RobotInfo(_) => ToClientKind::RobotInfo,
        }
    }

    /// Which variant this packet is.
    #[verifier::when_used_as_spec(spec_kind)]
    pub fn kind(&self) -> (k: ToClientKind)
        ensures
            k == self.spec_kind(),
    {
        match self {
            ToClient::Log(_) => ToClientKind::Log,
            ToClient::Pong => ToClientKind::Pong,
            ToClient::Path(_) => ToClientKind::Path,
            ToClient::PointBuffer(_, _, _) => ToClientKind::PointBuffer,
            ToClient::RobotInfo(_) => ToClientKind::RobotInfo,
        }
    }

    /// The tag of this packet on the wire.
    pub fn tag(&self) -> (t: u8)
        ensures
            t == self.kind().tag(),
    {
        self.kind().tag()
    }
}

impl ToRobot {
    /// Which variant this packet is.
    pub open spec fn spec_kind(&self) -> ToRobotKind {
        match self {
            ToRobot::ClientInfo(_) => ToRobotKind::ClientInfo,
            ToRobot::Ping => ToRobotKind::Ping,
            ToRobot::Path(_) => ToRobotKind::Path,
            ToRobot::RequestLogs => ToRobotKind::RequestLogs,
        }
    }

    /// Which variant this packet is.
    #[verifier::when_used_as_spec(spec_kind)]
    pub fn kind(&self) -> (k: ToRobotKind)
        ensures
            k == self.spec_kind(),
    {
        match self {
            ToRobot::ClientInfo(_) => ToRobotKind::ClientInfo,
            ToRobot::Ping => ToRobotKind::Ping,
            ToRobot::Path(_) => ToRobotKind::Path,
            ToRobot::RequestLogs => ToRobotKind::RequestLogs,
        }
    }

    /// The tag of this packet on the wire.
    pub fn tag(&self) -> (t: u8)
        ensures
            t == self.kind().tag(),
    {
        self.kind().tag()
    }
}

/// Each variant of a packet to the client has a tag of its own, and the tag
/// names the variant again.
pub proof fn lemma_to_client_tags(kind: ToClientKind, tag: u8)
    ensures
        ToClientKind::spec_from_tag(kind.tag()) == Some(kind),
        ToClientKind::spec_from_tag(tag) == Some(kind) <==> kind.tag() == tag,
{
}

/// Each variant of a packet to the robot has a tag of its own, and the tag
/// names the variant again.
pub proof fn lemma_to_robot_tags(kind: ToRobotKind, tag: u8)
    ensures
        ToRobotKind::spec_from_tag(kind.tag()) == Some(kind),
        ToRobotKind::spec_from_tag(tag) == Some(kind) <==> kind.tag() == tag,
{
}

} // verus!
