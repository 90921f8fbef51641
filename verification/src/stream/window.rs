//! Flow control of one stream.
//!
//! The send window counts the bytes that may still be written; a window update
//! of the peer raises it. The receive window counts the bytes that may still
//! come in. It counts down when data comes in, and again, down to zero, when
//! the reader takes the bytes; what is then left of it says whether the peer is
//! due a window update. Nothing raises the receive window.

use crate::error::Error;
use vstd::prelude::*;

verus! {

/// The size that both windows start with.
pub const DEFAULT_WINDOW_SIZE: usize = 65_535;

/// The largest send window, 2^30 - 1.
pub const MAX_WINDOW_SIZE: usize = 1_073_741_823;

/// The windows of one stream.
pub struct WindowControl {
    send_window: usize,
    recv_window: usize,
    max_window_size: usize,
}

/// The windows of one stream, as numbers.
pub struct WindowView {
    pub send: nat,
    pub recv: nat,
    pub max: nat,
}

impl View for WindowControl {
    type V = WindowView;

    closed spec fn view(&self) -> WindowView {
        WindowView {
            send: self.send_window as nat,
            recv: self.recv_window as nat,
            max: self.max_window_size as nat,
        }
    }
}

impl WindowView {
    /// The windows of a new stream.
    pub open spec fn initial() -> Self {
        WindowView {
            send: DEFAULT_WINDOW_SIZE as nat,
            recv: DEFAULT_WINDOW_SIZE as nat,
            max: MAX_WINDOW_SIZE as nat,
        }
    }

    /// Neither window is larger than it may be.
    pub open spec fn wf(self) -> bool {
        &&& self.max == MAX_WINDOW_SIZE
        &&& self.send <= self.max
        &&& self.recv <= DEFAULT_WINDOW_SIZE
    }

    /// The windows after the peer granted `increment` bytes.
    pub open spec fn granted(self, increment: nat) -> Result<Self, Error> {
        if self.send + increment > usize::MAX {
            Err(Error::WindowOverflow)
        } else if self.send + increment > self.max {
            Err(Error::WindowExceeded)
        } else {
            Ok(WindowView { send: self.send + increment, ..self })
        }
    }

    /// The windows after `size` bytes were written.
    pub open spec fn spent(self, size: nat) -> Result<Self, Error> {
        if size > self.send {
            Err(Error::WindowInsufficient)
        } else {
            Ok(WindowView { send: (self.send - size) as nat, ..self })
        }
    }

    /// The windows after `size` bytes that were written were taken back.
    pub open spec fn restored(self, size: nat) -> Self {
        WindowView { send: self.send + size, ..self }
    }

    /// The windows after `size` bytes came in from the peer.
    pub open spec fn arrived(self, size: nat) -> Result<Self, Error> {
        if size > self.recv {
            Err(Error::WindowInsufficient)
        } else {
            Ok(WindowView { recv: (self.recv - size) as nat, ..self })
        }
    }

    /// The windows after the reader took `consumed` bytes.
    pub open spec fn read(self, consumed: nat) -> Self {
        WindowView {
            recv: if consumed > self.recv {
                0
            } else {
                (self.recv - consumed) as nat
            },
            ..self
        }
    }

    /// What the peer is due once the reader has taken `consumed` bytes: with
    /// half of the receive window gone, all of it that is gone.
    pub open spec fn due(self, consumed: nat) -> Option<nat> {
        let left = self.read(consumed).recv;
        if left <= DEFAULT_WINDOW_SIZE / 2 {
            Some((DEFAULT_WINDOW_SIZE - left) as nat)
        } else {
            None
        }
    }
}

/// What a step that can fail leaves behind: the new windows, or the old ones.
pub open spec fn windows_after(before: WindowView, step: Result<WindowView, Error>) -> WindowView {
    match step {
        Ok(after) => after,
        Err(_) => before,
    }
}

/// Whether `r` reports the outcome of a step that can fail.
pub open spec fn reports(r: Result<(), Error>, step: Result<WindowView, Error>) -> bool {
    match step {
        Ok(_) => r is Ok,
        Err(e) => r == Err::<(), Error>(e),
    }
}

impl WindowControl {
    /// The windows of a new stream.
    pub fn new() -> (r: Self)
        ensures
            r@ == WindowView::initial(),
    {
        WindowControl {
            send_window: DEFAULT_WINDOW_SIZE,
            recv_window: DEFAULT_WINDOW_SIZE,
            max_window_size: MAX_WINDOW_SIZE,
        }
    }

    /// The number of bytes that may still be written.
    pub fn send_window(&self) -> (r: usize)
        ensures
            r == self@.send,
    {
        self.send_window
    }

    /// The number of bytes that may still come in.
    pub fn recv_window(&self) -> (r: usize)
        ensures
            r == self@.recv,
    {
        self.recv_window
    }

    /// Raises the send window by what the peer granted.
    pub fn update_send_window(&mut self, increment: usize) -> (r: Result<(), Error>)
        ensures
            reports(r, old(self)@.granted(increment as nat)),
            final(self)@ == windows_after(old(self)@, old(self)@.granted(increment as nat)),
    {
        let new_size: usize = match self.send_window.checked_add(increment) {
            Some(new_size) => new_size,
            None => return Err(Error::WindowOverflow),
        };
        if new_size > self.max_window_size {
            return Err(Error::WindowExceeded);
        }
        self.send_window = new_size;
        Ok(())
    }

    /// Lowers the send window by bytes that are written.
    pub fn consume_send_window(&mut self, size: usize) -> (r: Result<(), Error>)
        ensures
            reports(r, old(self)@.spent(size as nat)),
            final(self)@ == windows_after(old(self)@, old(self)@.spent(size as nat)),
    {
        if size > self.send_window {
            return Err(Error::WindowInsufficient);
        }
        self.send_window = self.send_window - size;
        Ok(())
    }

    /// Takes back bytes that were not written after all.
    pub fn restore_send_window(&mut self, size: usize)
        requires
            old(self)@.send + size <= usize::MAX,
        ensures
            final(self)@ == old(self)@.restored(size as nat),
    {
        self.send_window = self.send_window + size;
    }

    /// Lowers the receive window by bytes that come in from the peer.
    pub fn consume_recv_window(&mut self, size: usize) -> (r: Result<(), Error>)
        ensures
            reports(r, old(self)@.arrived(size as nat)),
            final(self)@ == windows_after(old(self)@, old(self)@.arrived(size as nat)),
    {
        if size > self.recv_window {
            return Err(Error::WindowInsufficient);
        }
        self.recv_window = self.recv_window - size;
        Ok(())
    }

    /// Counts the bytes that the reader took, and says what to grant the peer
    /// for them, if it is time.
    pub fn should_update_recv_window(&mut self, consumed: usize) -> (r: Option<usize>)
        ensures
            final(self)@ == old(self)@.read(consumed as nat),
            r is Some <==> old(self)@.due(consumed as nat) is Some,
            r matches Some(increment) ==> old(self)@.due(consumed as nat) == Some(increment as nat),
    {
        self.recv_window = if consumed > self.recv_window {
            0
        } else {
            self.recv_window - consumed
        };
        if self.recv_window <= DEFAULT_WINDOW_SIZE / 2 {
            Some(DEFAULT_WINDOW_SIZE - self.recv_window)
        } else {
            None
        }
    }
}

/// Something that happens to the windows.
pub enum WindowEvent {
    Granted(nat),
    Spent(nat),
    Arrived(nat),
    Read(nat),
}

/// The outcome of one event.
pub open spec fn window_step(w: WindowView, e: WindowEvent) -> Result<WindowView, Error> {
    match e {
        WindowEvent::Granted(n) => w.granted(n),
        WindowEvent::Spent(n) => w.spent(n),
        WindowEvent::Arrived(n) => w.arrived(n),
        WindowEvent::Read(n) => Ok(w.read(n)),
    }
}

/// The windows after a run of events.
pub open spec fn window_run(w: WindowView, es: Seq<WindowEvent>) -> WindowView
    decreases es.len(),
{
    if es.len() == 0 {
        w
    } else {
        window_run(windows_after(w, window_step(w, es[0])), es.drop_first())
    }
}

/// The number of bytes that a run of events grants, refusals left out.
pub open spec fn total_granted(w: WindowView, es: Seq<WindowEvent>) -> nat
    decreases es.len(),
{
    if es.len() == 0 {
        0
    } else {
        let this: nat = match (es[0], window_step(w, es[0])) {
            (WindowEvent::Granted(n), Ok(_)) => n,
            _ => 0,
        };
        this + total_granted(windows_after(w, window_step(w, es[0])), es.drop_first())
    }
}

/// The number of bytes that are written in a run of events, refusals left out.
pub open spec fn total_spent(w: WindowView, es: Seq<WindowEvent>) -> nat
    decreases es.len(),
{
    if es.len() == 0 {
        0
    } else {
        let this: nat = match (es[0], window_step(w, es[0])) {
            (WindowEvent::Spent(n), Ok(_)) => n,
            _ => 0,
        };
        this + total_spent(windows_after(w, window_step(w, es[0])), es.drop_first())
    }
}

/// The number of bytes that come in in a run of events, refusals left out.
pub open spec fn total_arrived(w: WindowView, es: Seq<WindowEvent>) -> nat
    decreases es.len(),
{
    if es.len() == 0 {
        0
    } else {
        let this: nat = match (es[0], window_step(w, es[0])) {
            (WindowEvent::Arrived(n), Ok(_)) => n,
            _ => 0,
        };
        this + total_arrived(windows_after(w, window_step(w, es[0])), es.drop_first())
    }
}

/// No more bytes are written than the send window started with and was
/// granted: through any run of events the window is what it was, with what was
/// granted added and what was written taken off, and it never passes its
/// maximum.
pub proof fn law_flow_control(w: WindowView, es: Seq<WindowEvent>)
    requires
        w.wf(),
    ensures
        window_run(w, es).wf(),
        window_run(w, es).send + total_spent(w, es) == w.send + total_granted(w, es),
        total_spent(w, es) <= w.send + total_granted(w, es),
    decreases es.len(),
{
    if es.len() > 0 {
        law_flow_control(windows_after(w, window_step(w, es[0])), es.drop_first());
    }
}

/// No more bytes come in than the receive window started with, whatever is
/// granted or read meanwhile. So a stream takes in at most 65,535 bytes in
/// all.
pub proof fn law_receive_window_only_shrinks(w: WindowView, es: Seq<WindowEvent>)
    requires
        w.wf(),
    ensures
        window_run(w, es).recv + total_arrived(w, es) <= w.recv,
        total_arrived(w, es) <= DEFAULT_WINDOW_SIZE,
    decreases es.len(),
{
    if es.len() > 0 {
        law_receive_window_only_shrinks(
            windows_after(w, window_step(w, es[0])),
            es.drop_first(),
        );
    }
}

/// The two windows count the two directions: what is written or granted does
/// not touch the receive window, and what comes in or is read does not touch
/// the send window.
pub proof fn law_directions_are_apart(w: WindowView, size: nat)
    ensures
        windows_after(w, w.spent(size)).recv == w.recv,
        windows_after(w, w.granted(size)).recv == w.recv,
        w.restored(size).recv == w.recv,
        windows_after(w, w.arrived(size)).send == w.send,
        w.read(size).send == w.send,
{
}

/// Bytes that were spent and are granted again, or taken back, leave the
/// window as it was.
pub proof fn law_spend_and_return(w: WindowView, size: nat)
    requires
        w.wf(),
        size <= w.send,
    ensures
        w.spent(size) matches Ok(less) && less.granted(size) == Ok::<WindowView, Error>(w)
            && less.restored(size) == w,
{
}

/// What the peer is granted is never zero, fits the payload of a window
/// update, and together with what is left of the receive window makes up its
/// full size. The receive window itself stays as low as it is.
pub proof fn law_grant_is_what_is_gone(w: WindowView, consumed: nat)
    requires
        w.wf(),
    ensures
        w.read(consumed).wf(),
        consumed <= w.recv ==> w.read(consumed).recv == w.recv - consumed,
        w.due(consumed) is Some <==> 2 * w.read(consumed).recv < DEFAULT_WINDOW_SIZE,
        w.due(consumed) matches Some(n) ==> 0 < n <= u32::MAX && w.read(consumed).recv + n
            == DEFAULT_WINDOW_SIZE,
{
}

/// A new stream may write and take in 65,535 bytes, and be granted up to 2^30 -
/// 1 of them.
pub proof fn law_initial_windows()
    ensures
        WindowView::initial().send == 65_535,
        WindowView::initial().recv == 65_535,
        WindowView::initial().max == 1_073_741_823,
        WindowView::initial().wf(),
{
}

/// Bytes can be written exactly if the send window has room for them, and then
/// take up that much of it and nothing else.
pub proof fn law_spending(w: WindowView, size: nat)
    ensures
        w.spent(size) is Ok <==> size <= w.send,
        w.spent(size) matches Ok(after) ==> after.send + size == w.send && after.recv == w.recv
            && after.max == w.max,
        w.spent(size) matches Err(e) ==> e == Error::WindowInsufficient,
{
}

/// Bytes can come in exactly if the receive window has room for them, and then
/// take up that much of it and nothing else.
pub proof fn law_arriving(w: WindowView, size: nat)
    ensures
        w.arrived(size) is Ok <==> size <= w.recv,
        w.arrived(size) matches Ok(after) ==> after.recv + size == w.recv && after.send == w.send
            && after.max == w.max,
        w.arrived(size) matches Err(e) ==> e == Error::WindowInsufficient,
{
}

/// A grant is taken exactly if the send window stays within its maximum, and
/// then adds that much to it and nothing else. One that a `usize` could not
/// count is told apart.
pub proof fn law_granting(w: WindowView, increment: nat)
    requires
        w.wf(),
    ensures
        w.granted(increment) is Ok <==> w.send + increment <= 1_073_741_823,
        w.granted(increment) matches Ok(after) ==> after.send == w.send + increment && after.recv
            == w.recv && after.max == w.max,
        w.granted(increment) matches Err(e) ==> e == Error::WindowOverflow || e
            == Error::WindowExceeded,
        w.granted(increment) == Err::<WindowView, Error>(Error::WindowOverflow) <==> w.send
            + increment > usize::MAX,
{
}

/// Taking bytes back adds them to the send window and to nothing else.
pub proof fn law_restoring(w: WindowView, size: nat)
    ensures
        w.restored(size).send == w.send + size,
        w.restored(size).recv == w.recv,
        w.restored(size).max == w.max,
{
}

/// What the reader takes is counted off the receive window as far as that goes,
/// and off nothing else.
pub proof fn law_reading(w: WindowView, consumed: nat)
    ensures
        consumed <= w.recv ==> w.read(consumed).recv + consumed == w.recv,
        consumed >= w.recv ==> w.read(consumed).recv == 0,
        w.read(consumed).send == w.send,
        w.read(consumed).max == w.max,
{
}

/// The peer is due a grant exactly if at most 32,767 bytes of the receive
/// window are left, and then what is missing from 65,535.
pub proof fn law_due(w: WindowView, consumed: nat)
    requires
        w.wf(),
    ensures
        w.due(consumed) is Some <==> w.read(consumed).recv <= 32_767,
        w.due(consumed) matches Some(n) ==> n + w.read(consumed).recv == 65_535,
{
}

/// A report says `Ok` exactly if the step succeeded and gives its failure
/// otherwise, and a failed step leaves the windows as they were.
pub proof fn law_reports(r: Result<(), Error>, before: WindowView, step: Result<WindowView, Error>)
    ensures
        reports(r, step) ==> (r is Ok <==> step is Ok),
        reports(r, step) ==> (r matches Err(e) ==> step == Err::<WindowView, Error>(e)),
        step matches Ok(after) ==> windows_after(before, step) == after,
        step is Err ==> windows_after(before, step) == before,
{
}

} // verus!
