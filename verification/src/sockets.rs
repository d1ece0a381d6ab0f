//! The state machines of TCP and UDP sockets: which operations a socket
//! accepts in which state, and the state each outcome leads to.

use vstd::prelude::*;

verus! {

/// The socket error codes that the state machines produce or pass on.
#[derive(Clone, Copy, Debug, PartialEq, Eq, Structural)]
pub enum ErrorCode {
    AccessDenied,
    InvalidState,
    InvalidArgument,
    AddressInUse,
    OutOfMemory,
    /// An error reported by the operating system, by its code.
    Os(i32),
}

/// The address family of a socket.
#[derive(Clone, Copy, Debug, PartialEq, Eq, Structural)]
pub enum SocketAddressFamily {
    Ipv4,
    Ipv6,
}

/// The state of a TCP socket. `S` is the unconnected socket, `L` the
/// listener and `C` the connected stream.
pub enum TcpState<S, L, C> {
    /// Created, neither bound nor connected.
    Default(S),
    /// A bind is in progress; the socket is with the bind.
    BindStarted,
    /// Bound to a local address.
    Bound(S),
    /// A connect is in progress; the socket is with the connect.
    Connecting,
    /// Connected to a peer.
    Connected(C),
    /// Listening for connections.
    Listening(L),
    /// Closed, after a failed connect or listen.
    Closed,
}

/// The state of a TCP socket without its payload.
#[derive(Clone, Copy, Debug, PartialEq, Eq, Structural)]
pub enum TcpPhase {
    Default,
    BindStarted,
    Bound,
    Connecting,
    Connected,
    Listening,
    Closed,
}

/// The phase of a TCP state.
pub open spec fn tcp_phase<S, L, C>(s: TcpState<S, L, C>) -> TcpPhase {
    match s {
        TcpState::Default(_) => TcpPhase::Default,
        TcpState::BindStarted => TcpPhase::BindStarted,
        TcpState::Bound(_) => TcpPhase::Bound,
        TcpState::Connecting => TcpPhase::Connecting,
        TcpState::Connected(_) => TcpPhase::Connected,
        TcpState::Listening(_) => TcpPhase::Listening,
        TcpState::Closed => TcpPhase::Closed,
    }
}

/// The socket held in the state, when it is not yet bound or connected.
pub open spec fn held_socket<S, L, C>(s: TcpState<S, L, C>) -> Option<S> {
    match s {
        TcpState::Default(sock) => Some(sock),
        TcpState::Bound(sock) => Some(sock),
        _ => None,
    }
}

/// A socket operation found the state it finishes in changed under it.
#[derive(Clone, Copy, Debug, PartialEq, Eq, Structural)]
pub struct CorruptedState;

/// What became of a bind or connect once it was decided whether the socket
/// may be used.
pub enum Attempt<S, T> {
    /// Refused before the socket was touched; the socket (if it was taken)
    /// goes back.
    Refused(Option<S>, ErrorCode),
    /// Carried out, with the operating system's result.
    Done(T),
}

impl<S, L, C> TcpState<S, L, C> {
    /// The phase of this state.
    pub fn phase(&self) -> (r: TcpPhase)
        ensures
            r == tcp_phase(*self),
    {
        match self {
            TcpState::Default(_) => TcpPhase::Default,
            TcpState::BindStarted => TcpPhase::BindStarted,
            TcpState::Bound(_) => TcpPhase::Bound,
            TcpState::Connecting => TcpPhase::Connecting,
            TcpState::Connected(_) => TcpPhase::Connected,
            TcpState::Listening(_) => TcpPhase::Listening,
            TcpState::Closed => TcpPhase::Closed,
        }
    }

    /// Whether the socket is listening.
    pub fn is_listening(&self) -> (r: bool)
        ensures
            r == (tcp_phase(*self) == TcpPhase::Listening),
    {
        matches!(self, TcpState::Listening(_))
    }

    /// Starts a bind: a fresh socket is taken out and the state becomes
    /// `BindStarted`; in any other state nothing changes and `None` comes
    /// back.
    pub fn begin_bind(&mut self) -> (r: Option<S>)
        ensures
            match *old(self) {
                TcpState::Default(sock) => r == Some(sock) && tcp_phase(*final(self))
                    == TcpPhase::BindStarted,
                _ => r is None && *final(self) == *old(self),
            },
    {
        let mut state = TcpState::BindStarted;
        std::mem::swap(self, &mut state);
        match state {
            TcpState::Default(sock) => Some(sock),
            other => {
                *self = other;
                None
            },
        }
    }

    /// Finishes a bind begun with `begin_bind`. A refused bind of a taken
    /// socket, or a failed one, returns the socket to `Default`; a
    /// successful one leaves it `Bound`. A refusal without a socket changes
    /// nothing. The state must still be `BindStarted` when a socket comes
    /// back.
    pub fn finish_bind(&mut self, attempt: Attempt<S, (S, Result<(), ErrorCode>)>) -> (r: Result<
        Result<(), ErrorCode>,
        CorruptedState,
    >)
        ensures
            match attempt {
                Attempt::Refused(None, e) => r == Ok::<Result<(), ErrorCode>, CorruptedState>(
                    Err(e),
                ) && *final(self) == *old(self),
                Attempt::Refused(Some(sock), e) => if tcp_phase(*old(self))
                    == TcpPhase::BindStarted {
                    r == Ok::<Result<(), ErrorCode>, CorruptedState>(Err(e)) && *final(self)
                        == TcpState::<S, L, C>::Default(sock)
                } else {
                    r is Err && *final(self) == *old(self)
                },
                Attempt::Done((sock, res)) => if tcp_phase(*old(self)) == TcpPhase::BindStarted {
                    r == Ok::<Result<(), ErrorCode>, CorruptedState>(res) && *final(self) == if res is Ok {
                        TcpState::<S, L, C>::Bound(sock)
                    } else {
                        TcpState::<S, L, C>::Default(sock)
                    }
                } else {
                    r is Err && *final(self) == *old(self)
                },
            },
    {
        match attempt {
            Attempt::Refused(None, e) => Ok(Err(e)),
            Attempt::Refused(Some(sock), e) => {
                if !matches!(self, TcpState::BindStarted) {
                    return Err(CorruptedState);
                }
                *self = TcpState::Default(sock);
                Ok(Err(e))
            },
            Attempt::Done((sock, res)) => {
                if !matches!(self, TcpState::BindStarted) {
                    return Err(CorruptedState);
                }
                if res.is_ok() {
                    *self = TcpState::Bound(sock);
                } else {
                    *self = TcpState::Default(sock);
                }
                Ok(res)
            },
        }
    }

    /// Starts a connect: a fresh or bound socket is taken out, with whether
    /// it was bound, and the state becomes `Connecting`; in any other state
    /// nothing changes and `None` comes back.
    pub fn begin_connect(&mut self) -> (r: Option<(S, bool)>)
        ensures
            match *old(self) {
                TcpState::Default(sock) => r == Some((sock, false)) && tcp_phase(*final(self))
                    == TcpPhase::Connecting,
                TcpState::Bound(sock) => r == Some((sock, true)) && tcp_phase(*final(self))
                    == TcpPhase::Connecting,
                _ => r is None && *final(self) == *old(self),
            },
    {
        let mut state = TcpState::Connecting;
        std::mem::swap(self, &mut state);
        match state {
            TcpState::Default(sock) => Some((sock, false)),
            TcpState::Bound(sock) => Some((sock, true)),
            other => {
                *self = other;
                None
            },
        }
    }

    /// Finishes a connect begun with `begin_connect`. A refused connect
    /// returns the socket to where it was (`Bound` or `Default`); a
    /// successful one leaves the socket `Connected`; a failed one leaves it
    /// `Closed`. A refusal without a socket changes nothing. The state must
    /// still be `Connecting` when a socket or stream comes back.
    pub fn finish_connect(&mut self, attempt: Attempt<(S, bool), Result<C, ErrorCode>>) -> (r:
        Result<Result<(), ErrorCode>, CorruptedState>)
        ensures
            match attempt {
                Attempt::Refused(None, e) => r == Ok::<Result<(), ErrorCode>, CorruptedState>(
                    Err(e),
                ) && *final(self) == *old(self),
                Attempt::Refused(Some((sock, bound)), e) => if tcp_phase(*old(self))
                    == TcpPhase::Connecting {
                    r == Ok::<Result<(), ErrorCode>, CorruptedState>(Err(e)) && *final(self) == if bound {
                        TcpState::<S, L, C>::Bound(sock)
                    } else {
                        TcpState::<S, L, C>::Default(sock)
                    }
                } else {
                    r is Err && *final(self) == *old(self)
                },
                Attempt::Done(res) => if tcp_phase(*old(self)) == TcpPhase::Connecting {
                    match res {
                        Ok(stream) => r == Ok::<Result<(), ErrorCode>, CorruptedState>(Ok(()))
                            && *final(self) == TcpState::<S, L, C>::Connected(stream),
                        Err(e) => r == Ok::<Result<(), ErrorCode>, CorruptedState>(Err(e))
                            && *final(self) == TcpState::<S, L, C>::Closed,
                    }
                } else {
                    r is Err && *final(self) == *old(self)
                },
            },
    {
        match attempt {
            Attempt::Refused(None, e) => Ok(Err(e)),
            Attempt::Refused(Some((sock, bound)), e) => {
                if !matches!(self, TcpState::Connecting) {
                    return Err(CorruptedState);
                }
                *self = if bound {
                    TcpState::Bound(sock)
                } else {
                    TcpState::Default(sock)
                };
                Ok(Err(e))
            },
            Attempt::Done(res) => {
                if !matches!(self, TcpState::Connecting) {
                    return Err(CorruptedState);
                }
                match res {
                    Ok(stream) => {
                        *self = TcpState::Connected(stream);
                        Ok(Ok(()))
                    },
                    Err(e) => {
                        *self = TcpState::Closed;
                        Ok(Err(e))
                    },
                }
            },
        }
    }

    /// Starts listening: a fresh or bound socket is taken out and the state
    /// becomes `Closed` until `finish_listen`; in any other state nothing
    /// changes and the error is `InvalidState`.
    pub fn begin_listen(&mut self) -> (r: Result<S, ErrorCode>)
        ensures
            match held_socket(*old(self)) {
                Some(sock) => r == Ok::<S, ErrorCode>(sock) && tcp_phase(*final(self))
                    == TcpPhase::Closed,
                None => r == Err::<S, ErrorCode>(ErrorCode::InvalidState) && *final(self)
                    == *old(self),
            },
    {
        let mut state = TcpState::Closed;
        std::mem::swap(self, &mut state);
        match state {
            TcpState::Default(sock) => Ok(sock),
            TcpState::Bound(sock) => Ok(sock),
            other => {
                *self = other;
                Err(ErrorCode::InvalidState)
            },
        }
    }

    /// Finishes listening: the listener makes the socket `Listening`; after
    /// a failure it stays `Closed`.
    pub fn finish_listen(&mut self, res: Result<L, ErrorCode>) -> (r: Result<(), ErrorCode>)
        ensures
            match res {
                Ok(l) => r is Ok && *final(self) == TcpState::<S, L, C>::Listening(l),
                Err(e) => r == Err::<(), ErrorCode>(e) && *final(self) == *old(self),
            },
    {
        match res {
            Ok(l) => {
                *self = TcpState::Listening(l);
                Ok(())
            },
            Err(e) => Err(e),
        }
    }
}

/// Decides whether a socket operation may go ahead: it must be permitted
/// (network use allowed and the address accepted) and the socket must have
/// been taken. Refusal for lack of permission comes first.
pub fn decide_attempt<S>(taken: Option<S>, permitted: bool) -> (r: Result<S, Attempt<S, ()>>)
    ensures
        if !permitted {
            r matches Err(Attempt::Refused(t, ErrorCode::AccessDenied)) && t == taken
        } else {
            match taken {
                Some(s) => r == Ok::<S, Attempt<S, ()>>(s),
                None => r matches Err(Attempt::Refused(None, ErrorCode::InvalidState)),
            }
        },
{
    if !permitted {
        return Err(Attempt::Refused(taken, ErrorCode::AccessDenied));
    }
    match taken {
        Some(s) => Ok(s),
        None => Err(Attempt::Refused(None, ErrorCode::InvalidState)),
    }
}

/// The state of a UDP socket.
#[derive(Clone, Copy, Debug, PartialEq, Eq, Structural)]
pub enum UdpState {
    /// Newly created.
    Default,
    /// Bound to a local address.
    Bound,
    /// Connected to a peer address.
    Connected,
}

/// The bind/connect state of a UDP socket and its address family.
#[derive(Clone, Copy, Debug, PartialEq, Eq, Structural)]
pub struct UdpSocketState {
    pub udp_state: UdpState,
    pub family: SocketAddressFamily,
}

/// The errors a UDP bind reports before the operating system is asked, in
/// order: permission, state, address family.
pub open spec fn udp_bind_check(
    s: UdpSocketState,
    permitted: bool,
    family_valid: bool,
) -> Result<(), ErrorCode> {
    if !permitted {
        Err(ErrorCode::AccessDenied)
    } else if s.udp_state != UdpState::Default {
        Err(ErrorCode::InvalidState)
    } else if !family_valid {
        Err(ErrorCode::InvalidArgument)
    } else {
        Ok(())
    }
}

impl UdpSocketState {
    /// A new socket of the given family.
    pub fn new(family: SocketAddressFamily) -> (r: Self)
        ensures
            r.udp_state == UdpState::Default,
            r.family == family,
    {
        UdpSocketState { udp_state: UdpState::Default, family }
    }

    /// Checks whether a bind may be attempted: network use must be permitted
    /// for the address, the socket must be fresh and the address must be of
    /// the socket's family.
    pub fn check_bind(&self, permitted: bool, family_valid: bool) -> (r: Result<(), ErrorCode>)
        ensures
            r == udp_bind_check(*self, permitted, family_valid),
    {
        if !permitted {
            Err(ErrorCode::AccessDenied)
        } else if !matches!(self.udp_state, UdpState::Default) {
            Err(ErrorCode::InvalidState)
        } else if !family_valid {
            Err(ErrorCode::InvalidArgument)
        } else {
            Ok(())
        }
    }

    /// Records the operating system's answer to a bind: success makes the
    /// socket bound; failure leaves it as it was.
    pub fn finish_bind(&mut self, os: Result<(), ErrorCode>) -> (r: Result<(), ErrorCode>)
        requires
            old(self).udp_state == UdpState::Default,
        ensures
            r == os,
            final(self).family == old(self).family,
            final(self).udp_state == if os is Ok {
                UdpState::Bound
            } else {
                UdpState::Default
            },
    {
        if os.is_ok() {
            self.udp_state = UdpState::Bound;
        }
        os
    }

    /// A local address exists once the socket is bound or connected.
    pub fn check_local_address(&self) -> (r: Result<(), ErrorCode>)
        ensures
            r == if self.udp_state == UdpState::Default {
                Err(ErrorCode::InvalidState)
            } else {
                Ok::<(), ErrorCode>(())
            },
    {
        if matches!(self.udp_state, UdpState::Default) {
            Err(ErrorCode::InvalidState)
        } else {
            Ok(())
        }
    }

    /// A remote address exists only once the socket is connected.
    pub fn check_remote_address(&self) -> (r: Result<(), ErrorCode>)
        ensures
            r == if self.udp_state != UdpState::Connected {
                Err(ErrorCode::InvalidState)
            } else {
                Ok::<(), ErrorCode>(())
            },
    {
        if !matches!(self.udp_state, UdpState::Connected) {
            Err(ErrorCode::InvalidState)
        } else {
            Ok(())
        }
    }

    /// The socket's address family.
    pub fn address_family(&self) -> (r: SocketAddressFamily)
        ensures
            r == self.family,
    {
        self.family
    }
}

/// Maps the operating system's error for a failed UDP bind: an unsupported
/// address family is an invalid argument; other errors pass through.
pub fn map_udp_bind_error(e: ErrorCode, afnosupport: i32) -> (r: ErrorCode)
    ensures
        r == if e == ErrorCode::Os(afnosupport) {
            ErrorCode::InvalidArgument
        } else {
            e
        },
{
    match e {
        ErrorCode::Os(code) => if code == afnosupport {
            ErrorCode::InvalidArgument
        } else {
            e
        },
        _ => e,
    }
}

/// A UDP socket can be bound once: after a successful bind every further
/// bind is refused as being in the wrong state.
pub proof fn lemma_udp_bind_once(s: UdpSocketState, permitted: bool, family_valid: bool)
    requires
        permitted,
        s.udp_state == UdpState::Bound,
    ensures
        udp_bind_check(s, permitted, family_valid) == Err::<(), ErrorCode>(
            ErrorCode::InvalidState,
        ),
{
}

} // verus!
