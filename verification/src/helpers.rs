//! Raw-channel send and the deferred-close wrappers.

use vstd::prelude::*;

use crate::at::AtSocket;
use crate::driver::{ChannelKind, DriverCall, DriverReply, SocketAddr};
use crate::error::{Error, NbError};
use crate::gnss::{gnss_close_rel, gnss_config_steps, gnss_up_state, GnssOptions, GnssSocket};
use crate::lte::{lte_close_rel, lte_up_state, LteSocket};
use crate::tcp::{tcp_close_rel, TcpSocket};
use crate::udp::{udp_close_rel, UdpSocket};
use crate::{
    power_steps, run_steps, script_head, script_tail, spec_registration_poll, step_outcome, Modem,
    ModemState, SocketState,
};

verus! {

/// The deferred-close wrappers propagate the first error encountered:
/// the user function's (or the connect's) failure wins over a failure of
/// the close that follows it.
pub open spec fn first_error<R>(fr: Result<R, Error>, cr: Result<(), Error>) -> Result<R, Error> {
    match fr {
        Err(e) => Err(e),
        Ok(v) => match cr {
            Err(e) => Err(e),
            Ok(_) => Ok(v),
        },
    }
}

/// What a non-blocking raw send returns for each driver reply: the number
/// of bytes accepted (never more than were offered), `None` when the
/// driver would block, and an error otherwise.
pub open spec fn send_outcome(head: Option<DriverReply>, len: nat) -> Result<Option<usize>, Error> {
    match head {
        None => Err(Error::NoAtResponse),
        Some(DriverReply::Accepted(n)) => if n <= len {
            Ok(Some(n))
        } else {
            Err(Error::UnexpectedAtResponse)
        },
        Some(DriverReply::WouldBlock) => Ok(None),
        Some(DriverReply::Failed(e)) => Err(Error::NrfModem(e)),
        Some(_) => Err(Error::UnexpectedAtResponse),
    }
}

/// Perform a non-blocking write on the raw channel: `Ok(Some(n))` when the
/// driver accepted `n` bytes, `Ok(None)` when it would block.
pub fn send(modem: &mut Modem, buffer: &[u8]) -> (r: Result<Option<usize>, Error>)
    ensures
        final(modem).state == old(modem).state,
        final(modem).driver.log@.len() == old(modem).driver.log@.len() + 1,
        final(modem).driver.log@.take(old(modem).driver.log@.len() as int) == old(
            modem,
        ).driver.log@,
        (final(modem).driver.log@.last() matches DriverCall::RawSend(v) && v@ == buffer@),
        final(modem).driver.script@ == script_tail(old(modem).driver.script@),
        r == send_outcome(script_head(old(modem).driver.script@), buffer@.len()),
{
    let reply = modem.driver.call(DriverCall::RawSend(vstd::slice::slice_to_vec(buffer)));
    proof {
        assert(modem.driver.log@.take(old(modem).driver.log@.len() as int) =~= old(
            modem,
        ).driver.log@);
    }
    match reply {
        None => Err(Error::NoAtResponse),
        Some(DriverReply::Accepted(n)) => {
            if n <= buffer.len() {
                Ok(Some(n))
            } else {
                Err(Error::UnexpectedAtResponse)
            }
        },
        Some(DriverReply::WouldBlock) => Ok(None),
        Some(DriverReply::Failed(e)) => Err(Error::NrfModem(e)),
        Some(_) => Err(Error::UnexpectedAtResponse),
    }
}

/// The outcome the registration polls determine once a channel is
/// pending: re-polled while the network is still registering; once ready,
/// the raw connect attempt decides for the kinds that perform one.
pub open spec fn poll_session(script: Seq<DriverReply>, raw: bool) -> Result<(), Error>
    decreases script.len(),
{
    match spec_registration_poll(script_head(script)) {
        Ok(_) => if raw {
            match step_outcome(script_head(script_tail(script))) {
                Ok(_) => Ok(()),
                Err(e) => Err(e),
            }
        } else {
            Ok(())
        },
        Err(NbError::WouldBlock) => if script.len() > 0 {
            poll_session(script_tail(script), raw)
        } else {
            Err(Error::NoAtResponse)
        },
        Err(NbError::Other(e)) => Err(e),
    }
}

/// What the whole connect phase of a deferred cellular session determines
/// for a freshly allocated channel: the power-up run from `state`, then
/// the registration polls.
pub open spec fn connect_session(state: ModemState, script: Seq<DriverReply>, raw: bool) -> Result<
    (),
    Error,
> {
    let run = run_steps(power_steps(state, lte_up_state(state)), script);
    match run.0 {
        Err(e) => Err(e),
        Ok(_) => poll_session(run.2, raw),
    }
}

/// The connect phase as the retry loop sees it mid-way: a channel still
/// closed has the whole phase ahead of it, a pending one only the polls.
pub open spec fn session_from(
    sock: SocketState,
    state: ModemState,
    script: Seq<DriverReply>,
    raw: bool,
) -> Result<(), Error> {
    if sock is Closed {
        connect_session(state, script, raw)
    } else {
        poll_session(script, raw)
    }
}

/// What the positioning connect phase determines: the power-up run, then
/// the configure-and-start run; the first failure wins.
pub open spec fn gnss_session(
    state: ModemState,
    options: GnssOptions,
    script: Seq<DriverReply>,
) -> Result<(), Error> {
    let run = run_steps(power_steps(state, gnss_up_state(state)), script);
    match run.0 {
        Err(e) => Err(e),
        Ok(_) => {
            let crun = run_steps(gnss_config_steps(options), run.2);
            match crun.0 {
                Err(e) => Err(e),
                Ok(_) => Ok(()),
            }
        },
    }
}

/// What one deferred tcp session guarantees: a failed channel allocation
/// is reported as such; otherwise the channel was closed again after the
/// session (`post` is the modem the close left behind), the reported
/// result is the first error the session encountered, and that error is
/// accounted for — either the user function ran and produced it, or the
/// connect phase failed with exactly the error the script determines and
/// the user function never ran.
pub open spec fn deferred_tcp_post<F, R>(
    function: F,
    pre: Modem,
    post: Modem,
    res: Result<R, Error>,
) -> bool where F: FnOnce(Modem, TcpSocket) -> (Modem, TcpSocket, Result<R, Error>) {
    let s0 = pre.driver.script@;
    let l0 = pre.driver.log@;
    match step_outcome(script_head(s0)) {
        Err(e) => {
            &&& res == Err::<R, Error>(e)
            &&& post.state == pre.state
            &&& post.driver.log@ == l0.push(DriverCall::OpenChannel(ChannelKind::Tcp))
            &&& post.driver.script@ == script_tail(s0)
        },
        Ok(_) => exists|m2: Modem, st2: SocketState, fr: Result<R, Error>, cr: Result<(), Error>|
            #![trigger tcp_close_rel(m2, st2, post, cr), first_error(fr, cr)]
            {
                &&& tcp_close_rel(m2, st2, post, cr)
                &&& res == first_error(fr, cr)
                &&& ({
                    ||| exists|mb: Modem, sb: TcpSocket, s2: TcpSocket|
                        sb.state is Connected && #[trigger] call_ensures(
                            function,
                            (mb, sb),
                            (m2, s2, fr),
                        ) && s2.state == st2
                    ||| ({
                        &&& (connect_session(pre.state, script_tail(s0), true) matches Err(e) && fr == Err::<R, Error>(e))
                        &&& !(st2 is Connected)
                    })
                })
            },
    }
}

/// What one deferred udp session guarantees: a failed channel allocation
/// is reported as such; otherwise the channel was closed again after the
/// session (`post` is the modem the close left behind), the reported
/// result is the first error the session encountered, and that error is
/// accounted for — either the user function ran and produced it, or the
/// connect phase failed with exactly the error the script determines and
/// the user function never ran.
pub open spec fn deferred_udp_post<F, R>(
    function: F,
    pre: Modem,
    post: Modem,
    res: Result<R, Error>,
) -> bool where F: FnOnce(Modem, UdpSocket) -> (Modem, UdpSocket, Result<R, Error>) {
    let s0 = pre.driver.script@;
    let l0 = pre.driver.log@;
    match step_outcome(script_head(s0)) {
        Err(e) => {
            &&& res == Err::<R, Error>(e)
            &&& post.state == pre.state
            &&& post.driver.log@ == l0.push(DriverCall::OpenChannel(ChannelKind::Udp))
            &&& post.driver.script@ == script_tail(s0)
        },
        Ok(_) => exists|m2: Modem, st2: SocketState, fr: Result<R, Error>, cr: Result<(), Error>|
            #![trigger udp_close_rel(m2, st2, post, cr), first_error(fr, cr)]
            {
                &&& udp_close_rel(m2, st2, post, cr)
                &&& res == first_error(fr, cr)
                &&& ({
                    ||| exists|mb: Modem, sb: UdpSocket, s2: UdpSocket|
                        sb.state is Connected && #[trigger] call_ensures(
                            function,
                            (mb, sb),
                            (m2, s2, fr),
                        ) && s2.state == st2
                    ||| ({
                        &&& (connect_session(pre.state, script_tail(s0), true) matches Err(e) && fr == Err::<R, Error>(e))
                        &&& !(st2 is Connected)
                    })
                })
            },
    }
}

/// What one deferred lte session guarantees: a failed channel allocation
/// is reported as such; otherwise the channel was closed again after the
/// session (`post` is the modem the close left behind), the reported
/// result is the first error the session encountered, and that error is
/// accounted for — either the user function ran and produced it, or the
/// connect phase failed with exactly the error the script determines and
/// the user function never ran.
pub open spec fn deferred_lte_post<F, R>(
    function: F,
    pre: Modem,
    post: Modem,
    res: Result<R, Error>,
) -> bool where F: FnOnce(Modem, LteSocket) -> (Modem, LteSocket, Result<R, Error>) {
    let s0 = pre.driver.script@;
    let l0 = pre.driver.log@;
    match step_outcome(script_head(s0)) {
        Err(e) => {
            &&& res == Err::<R, Error>(e)
            &&& post.state == pre.state
            &&& post.driver.log@ == l0.push(DriverCall::OpenChannel(ChannelKind::At))
            &&& post.driver.script@ == script_tail(s0)
        },
        Ok(_) => exists|m2: Modem, st2: SocketState, fr: Result<R, Error>, cr: Result<(), Error>|
            #![trigger lte_close_rel(m2, st2, post, cr), first_error(fr, cr)]
            {
                &&& lte_close_rel(m2, st2, post, cr)
                &&& res == first_error(fr, cr)
                &&& ({
                    ||| exists|mb: Modem, sb: LteSocket, s2: LteSocket|
                        sb.state is Connected && #[trigger] call_ensures(
                            function,
                            (mb, sb),
                            (m2, s2, fr),
                        ) && s2.state == st2
                    ||| ({
                        &&& (connect_session(pre.state, script_tail(s0), false) matches Err(e) && fr == Err::<R, Error>(e))
                        &&& !(st2 is Connected)
                    })
                })
            },
    }
}

/// What one deferred gnss session guarantees: a failed channel allocation
/// is reported as such; otherwise the channel was closed again after the
/// session (`post` is the modem the close left behind), the reported
/// result is the first error the session encountered, and that error is
/// accounted for — either the user function ran and produced it, or the
/// connect phase failed with exactly the error the script determines and
/// the user function never ran.
pub open spec fn deferred_gnss_post<F, R>(
    function: F,
    options: GnssOptions,
    pre: Modem,
    post: Modem,
    res: Result<R, Error>,
) -> bool where F: FnOnce(Modem, GnssSocket) -> (Modem, GnssSocket, Result<R, Error>) {
    let s0 = pre.driver.script@;
    let l0 = pre.driver.log@;
    match step_outcome(script_head(s0)) {
        Err(e) => {
            &&& res == Err::<R, Error>(e)
            &&& post.state == pre.state
            &&& post.driver.log@ == l0.push(DriverCall::OpenChannel(ChannelKind::Gnss))
            &&& post.driver.script@ == script_tail(s0)
        },
        Ok(_) => exists|m2: Modem, st2: SocketState, fr: Result<R, Error>, cr: Result<(), Error>|
            #![trigger gnss_close_rel(m2, st2, post, cr), first_error(fr, cr)]
            {
                &&& gnss_close_rel(m2, st2, post, cr)
                &&& res == first_error(fr, cr)
                &&& ({
                    ||| exists|mb: Modem, sb: GnssSocket, s2: GnssSocket|
                        sb.state is Connected && #[trigger] call_ensures(
                            function,
                            (mb, sb),
                            (m2, s2, fr),
                        ) && s2.state == st2
                    ||| ({
                        &&& (gnss_session(pre.state, options, script_tail(s0)) matches Err(e) && fr == Err::<R, Error>(e))
                        &&& !(st2 is Connected)
                    })
                })
            },
    }
}

/// Creates a new stream channel, lets it connect (re-polling while the
/// network registers), hands it over to the given function, closes the
/// channel and then returns the function result. This makes sure that
/// closing the channel is not forgotten: the close path runs whatever
/// the connect or the user function did, and the first error encountered
/// is the one reported.
#[verifier::loop_isolation(false)]
pub fn deferred_tcp_socket<F, R>(modem: Modem, remote: SocketAddr, function: F) -> (r: (
    Modem,
    Result<R, Error>,
)) where F: FnOnce(Modem, TcpSocket) -> (Modem, TcpSocket, Result<R, Error>)
    requires
        modem.state.active_lte_sockets < u32::MAX,
        forall|m: Modem, s: TcpSocket| s.state is Connected ==> call_requires(function, (m, s)),
        forall|m: Modem, s: TcpSocket, out: (Modem, TcpSocket, Result<R, Error>)|
            #[trigger] call_ensures(function, (m, s), out) ==> ((!(out.1.state is Closed))
                ==> out.0.state.active_lte_sockets > 0),
    ensures
        deferred_tcp_post(function, modem, r.0, r.1),
{
    let mut m = modem;
    let mut sock = match m.tcp_socket() {
        Ok(s) => s,
        Err(e) => {
            return (m, Err(e));
        },
    };
    let ghost st0 = m.state;
    let ghost s1 = m.driver.script@;
    let mut conn: Result<(), Error> = Ok(());
    let mut done = false;
    while !done
        invariant
            !(sock.state is Closed) ==> m.state.active_lte_sockets > 0,
            sock.state is Closed ==> m.state.active_lte_sockets < u32::MAX,
            !done ==> !(sock.state is Connected),
            done ==> ((conn matches Ok(_)) <==> sock.state is Connected),
            !done ==> connect_session(st0, s1, true) == session_from(
                sock.state,
                m.state,
                m.driver.script@,
                true,
            ),
            done ==> ((conn matches Ok(_)) <==> connect_session(st0, s1, true) matches Ok(_)),
            done ==> (conn matches Err(e) ==> connect_session(st0, s1, true) == Err::<(), Error>(e)),
        decreases (if done {
            0int
        } else {
            1int
        }), m.driver.script@.len(),
    {
        match m.tcp_connect(&mut sock, remote) {
            Ok(_) => {
                conn = Ok(());
                done = true;
            },
            Err(NbError::WouldBlock) => {},
            Err(NbError::Other(e)) => {
                conn = Err(e);
                done = true;
            },
        }
    }
    let ghost m_pre = m;
    let ghost sock_pre = sock;
    let ghost ran = conn is Ok;
    let (m2, s2, fr) = match conn {
        Ok(_) => function(m, sock),
        Err(e) => (m, sock, Err(e)),
    };
    let ghost gm2 = m2;
    let ghost gs2 = s2;
    let mut m3 = m2;
    let cr = m3.tcp_close(s2);
    let ghost gfr = fr;
    let result = match fr {
        Err(e) => Err(e),
        Ok(v) => match cr {
            Err(e) => Err(e),
            Ok(_) => Ok(v),
        },
    };
    proof {
        assert(tcp_close_rel(gm2, gs2.state, m3, cr));
        assert(result == first_error(gfr, cr));
        if ran {
            assert(sock_pre.state is Connected);
            assert(call_ensures(function, (m_pre, sock_pre), (gm2, gs2, gfr)));
        } else {
            assert(connect_session(st0, s1, true) matches Err(e) && gfr == Err::<R, Error>(e));
            assert(!(gs2.state is Connected));
        }
        assert(deferred_tcp_post(function, modem, m3, result));
    }
    (m3, result)
}

/// Creates a new datagram channel, lets it connect (re-polling while the
/// network registers), hands it over to the given function, closes the
/// channel and then returns the function result. This makes sure that
/// closing the channel is not forgotten: the close path runs whatever
/// the connect or the user function did, and the first error encountered
/// is the one reported.
#[verifier::loop_isolation(false)]
pub fn deferred_udp_socket<F, R>(modem: Modem, remote: SocketAddr, function: F) -> (r: (
    Modem,
    Result<R, Error>,
)) where F: FnOnce(Modem, UdpSocket) -> (Modem, UdpSocket, Result<R, Error>)
    requires
        modem.state.active_lte_sockets < u32::MAX,
        forall|m: Modem, s: UdpSocket| s.state is Connected ==> call_requires(function, (m, s)),
        forall|m: Modem, s: UdpSocket, out: (Modem, UdpSocket, Result<R, Error>)|
            #[trigger] call_ensures(function, (m, s), out) ==> ((!(out.1.state is Closed))
                ==> out.0.state.active_lte_sockets > 0),
    ensures
        deferred_udp_post(function, modem, r.0, r.1),
{
    let mut m = modem;
    let mut sock = match m.udp_socket() {
        Ok(s) => s,
        Err(e) => {
            return (m, Err(e));
        },
    };
    let ghost st0 = m.state;
    let ghost s1 = m.driver.script@;
    let mut conn: Result<(), Error> = Ok(());
    let mut done = false;
    while !done
        invariant
            !(sock.state is Closed) ==> m.state.active_lte_sockets > 0,
            sock.state is Closed ==> m.state.active_lte_sockets < u32::MAX,
            !done ==> !(sock.state is Connected),
            done ==> ((conn matches Ok(_)) <==> sock.state is Connected),
            !done ==> connect_session(st0, s1, true) == session_from(
                sock.state,
                m.state,
                m.driver.script@,
                true,
            ),
            done ==> ((conn matches Ok(_)) <==> connect_session(st0, s1, true) matches Ok(_)),
            done ==> (conn matches Err(e) ==> connect_session(st0, s1, true) == Err::<(), Error>(e)),
        decreases (if done {
            0int
        } else {
            1int
        }), m.driver.script@.len(),
    {
        match m.udp_connect(&mut sock, remote) {
            Ok(_) => {
                conn = Ok(());
                done = true;
            },
            Err(NbError::WouldBlock) => {},
            Err(NbError::Other(e)) => {
                conn = Err(e);
                done = true;
            },
        }
    }
    let ghost m_pre = m;
    let ghost sock_pre = sock;
    let ghost ran = conn is Ok;
    let (m2, s2, fr) = match conn {
        Ok(_) => function(m, sock),
        Err(e) => (m, sock, Err(e)),
    };
    let ghost gm2 = m2;
    let ghost gs2 = s2;
    let mut m3 = m2;
    let cr = m3.udp_close(s2);
    let ghost gfr = fr;
    let result = match fr {
        Err(e) => Err(e),
        Ok(v) => match cr {
            Err(e) => Err(e),
            Ok(_) => Ok(v),
        },
    };
    proof {
        assert(udp_close_rel(gm2, gs2.state, m3, cr));
        assert(result == first_error(gfr, cr));
        if ran {
            assert(sock_pre.state is Connected);
            assert(call_ensures(function, (m_pre, sock_pre), (gm2, gs2, gfr)));
        } else {
            assert(connect_session(st0, s1, true) matches Err(e) && gfr == Err::<R, Error>(e));
            assert(!(gs2.state is Connected));
        }
        assert(deferred_udp_post(function, modem, m3, result));
    }
    (m3, result)
}

/// Creates a new command channel, connects it, hands it over to the
/// given function, closes the channel and then returns the function
/// result. This makes sure that closing the channel is not forgotten.
pub fn deferred_at_socket<F, R>(modem: Modem, function: F) -> (r: (Modem, Result<R, Error>)) where
    F: FnOnce(Modem, AtSocket) -> (Modem, AtSocket, Result<R, Error>),

    requires
        forall|m: Modem, s: AtSocket| s.state is Connected ==> call_requires(function, (m, s)),
    ensures
        ({
            let s0 = modem.driver.script@;
            let l0 = modem.driver.log@;
            match step_outcome(script_head(s0)) {
                Err(e) => {
                    &&& r.1 == Err::<R, Error>(e)
                    &&& r.0.state == modem.state
                    &&& r.0.driver.log@ == l0.push(DriverCall::OpenChannel(ChannelKind::At))
                    &&& r.0.driver.script@ == script_tail(s0)
                },
                Ok(_) => exists|
                    mb: Modem,
                    sb: AtSocket,
                    m2: Modem,
                    s2: AtSocket,
                    fr: Result<R, Error>,
                |
                    {
                        &&& sb.state is Connected
                        &&& #[trigger] call_ensures(function, (mb, sb), (m2, s2, fr))
                        &&& r.0.state == m2.state
                        &&& r.0.driver.log@ == m2.driver.log@.push(
                            DriverCall::CloseChannel(ChannelKind::At),
                        )
                        &&& r.0.driver.script@ == m2.driver.script@
                        &&& r.1 == fr
                    },
            }
        }),
{
    let mut m = modem;
    let mut sock = match m.at_socket() {
        Ok(s) => s,
        Err(e) => {
            return (m, Err(e));
        },
    };
    match m.at_connect(&mut sock) {
        Ok(_) => {},
        Err(e) => {
            return (m, Err(e));
        },
    }
    let (m2, s2, fr) = function(m, sock);
    let mut m3 = m2;
    match m3.at_close(s2) {
        Ok(_) => {},
        Err(e) => {
            return (m3, Err(e));
        },
    }
    (m3, fr)
}

/// Creates a new session channel, lets it connect (re-polling while the
/// network registers), hands it over to the given function, closes the
/// channel and then returns the function result. This makes sure that
/// closing the channel is not forgotten: the close path runs whatever
/// the connect or the user function did, and the first error encountered
/// is the one reported.
#[verifier::loop_isolation(false)]
pub fn deferred_lte_socket<F, R>(modem: Modem, function: F) -> (r: (Modem, Result<R, Error>)) where
    F: FnOnce(Modem, LteSocket) -> (Modem, LteSocket, Result<R, Error>),

    requires
        modem.state.active_lte_sockets < u32::MAX,
        forall|m: Modem, s: LteSocket| s.state is Connected ==> call_requires(function, (m, s)),
        forall|m: Modem, s: LteSocket, out: (Modem, LteSocket, Result<R, Error>)|
            #[trigger] call_ensures(function, (m, s), out) ==> ((!(out.1.state is Closed))
                ==> out.0.state.active_lte_sockets > 0),
    ensures
        deferred_lte_post(function, modem, r.0, r.1),
{
    let mut m = modem;
    let mut sock = match m.lte_socket() {
        Ok(s) => s,
        Err(e) => {
            return (m, Err(e));
        },
    };
    let ghost st0 = m.state;
    let ghost s1 = m.driver.script@;
    let mut conn: Result<(), Error> = Ok(());
    let mut done = false;
    while !done
        invariant
            !(sock.state is Closed) ==> m.state.active_lte_sockets > 0,
            sock.state is Closed ==> m.state.active_lte_sockets < u32::MAX,
            !done ==> !(sock.state is Connected),
            done ==> ((conn matches Ok(_)) <==> sock.state is Connected),
            !done ==> connect_session(st0, s1, false) == session_from(
                sock.state,
                m.state,
                m.driver.script@,
                false,
            ),
            done ==> ((conn matches Ok(_)) <==> connect_session(st0, s1, false) matches Ok(_)),
            done ==> (conn matches Err(e) ==> connect_session(st0, s1, false) == Err::<(), Error>(e)),
        decreases (if done {
            0int
        } else {
            1int
        }), m.driver.script@.len(),
    {
        match m.lte_connect(&mut sock) {
            Ok(_) => {
                conn = Ok(());
                done = true;
            },
            Err(NbError::WouldBlock) => {},
            Err(NbError::Other(e)) => {
                conn = Err(e);
                done = true;
            },
        }
    }
    let ghost m_pre = m;
    let ghost sock_pre = sock;
    let ghost ran = conn is Ok;
    let (m2, s2, fr) = match conn {
        Ok(_) => function(m, sock),
        Err(e) => (m, sock, Err(e)),
    };
    let ghost gm2 = m2;
    let ghost gs2 = s2;
    let mut m3 = m2;
    let cr = m3.lte_close(s2);
    let ghost gfr = fr;
    let result = match fr {
        Err(e) => Err(e),
        Ok(v) => match cr {
            Err(e) => Err(e),
            Ok(_) => Ok(v),
        },
    };
    proof {
        assert(lte_close_rel(gm2, gs2.state, m3, cr));
        assert(result == first_error(gfr, cr));
        if ran {
            assert(sock_pre.state is Connected);
            assert(call_ensures(function, (m_pre, sock_pre), (gm2, gs2, gfr)));
        } else {
            assert(connect_session(st0, s1, false) matches Err(e) && gfr == Err::<R, Error>(e));
            assert(!(gs2.state is Connected));
        }
        assert(deferred_lte_post(function, modem, m3, result));
    }
    (m3, result)
}

/// Creates a new positioning channel, lets it connect, hands it over to
/// the given function, closes the channel and then returns the function
/// result. This makes sure that closing the channel is not forgotten:
/// the close path runs whatever the connect or the user function did,
/// and the first error encountered is the one reported.
pub fn deferred_gnss_socket<F, R>(modem: Modem, options: GnssOptions, function: F) -> (r: (
    Modem,
    Result<R, Error>,
)) where F: FnOnce(Modem, GnssSocket) -> (Modem, GnssSocket, Result<R, Error>)
    requires
        modem.state.active_gnss_sockets < u32::MAX,
        forall|m: Modem, s: GnssSocket| s.state is Connected ==> call_requires(function, (m, s)),
        forall|m: Modem, s: GnssSocket, out: (Modem, GnssSocket, Result<R, Error>)|
            #[trigger] call_ensures(function, (m, s), out) ==> ((!(out.1.state is Closed))
                ==> out.0.state.active_gnss_sockets > 0),
    ensures
        deferred_gnss_post(function, options, modem, r.0, r.1),
{
    let mut m = modem;
    let mut sock = match m.gnss_socket() {
        Ok(s) => s,
        Err(e) => {
            return (m, Err(e));
        },
    };
    let ghost st0 = m.state;
    let ghost s1 = m.driver.script@;
    let conn = m.gnss_connect(&mut sock, options);
    let ghost m_pre = m;
    let ghost sock_pre = sock;
    let ghost ran = conn is Ok;
    let (m2, s2, fr) = match conn {
        Ok(_) => function(m, sock),
        Err(e) => (m, sock, Err(e)),
    };
    let ghost gm2 = m2;
    let ghost gs2 = s2;
    let mut m3 = m2;
    let cr = m3.gnss_close(s2);
    let ghost gfr = fr;
    let result = match fr {
        Err(e) => Err(e),
        Ok(v) => match cr {
            Err(e) => Err(e),
            Ok(_) => Ok(v),
        },
    };
    proof {
        assert(gnss_close_rel(gm2, gs2.state, m3, cr));
        assert(result == first_error(gfr, cr));
        if ran {
            assert(sock_pre.state is Connected);
            assert(call_ensures(function, (m_pre, sock_pre), (gm2, gs2, gfr)));
        } else {
            assert(gnss_session(st0, options, s1) matches Err(e) && gfr == Err::<R, Error>(e));
            assert(!(gs2.state is Connected));
        }
        assert(deferred_gnss_post(function, options, modem, m3, result));
    }
    (m3, result)
}

} // verus!
