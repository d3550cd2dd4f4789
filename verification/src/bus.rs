//! The bus model: the traits a caller implements to supply the serial bus,
//! the chip-select output and the timing source, and the transaction log over
//! which the driver's contracts speak.
//!
//! The driver keeps a ghost log of the bus transactions it has performed,
//! recorded from the very frames it hands to the [`Transport`]. Its contracts
//! pin, for each operation, exactly which transactions are appended to that
//! log and how their payloads relate to the values the operation takes and
//! returns.

use vstd::prelude::*;

verus! {

/// One completed bus transaction: either a full-duplex exchange (every byte
/// sent has a byte received in its place) or a write-only send.
pub enum BusTransaction {
    Exchange { sent: Seq<u8>, received: Seq<u8> },
    Send { sent: Seq<u8> },
}

/// The serial bus. An implementation performs one byte-oriented transfer per
/// call.
pub trait Transport: Sized {
    /// Full-duplex exchange: send the frame and replace it, byte for byte,
    /// with what came back.
    fn exchange(&mut self, frame: &mut Vec<u8>) -> (r: Result<(), ()>)
        ensures
            r is Ok ==> final(frame)@.len() == old(frame)@.len(),
    ;

    /// Write-only transfer: send the frame.
    fn send(&mut self, frame: &Vec<u8>) -> Result<(), ()>;
}

/// The chip-select output. The driver asserts it around each transaction and
/// treats failures as best-effort: a failed transition is ignored.
pub trait ChipSelect: Sized {
    /// Drive the line active.
    fn set_high(&mut self) -> Result<(), ()>;

    /// Drive the line inactive.
    fn set_low(&mut self) -> Result<(), ()>;
}

/// The timing source for the minimum inactive period the chip requires
/// between transactions.
pub trait Delay: Sized {
    /// Start a countdown of the given number of microseconds.
    fn start(&mut self, micros: u32) -> Result<(), ()>;

    /// Block until the countdown last started has expired; with none pending,
    /// return at once.
    fn wait(&mut self) -> Result<(), ()>;
}

/// Whether `post` carries `pre` unchanged as its prefix.
pub open spec fn log_extends(pre: Seq<BusTransaction>, post: Seq<BusTransaction>) -> bool {
    pre.len() <= post.len() && post.subrange(0, pre.len() as int) =~= pre
}

/// Whether a transaction is the single-register read of `addr`: a two-byte
/// exchange of the address byte with its read bit set, then a filler byte.
pub open spec fn is_reg_read(t: BusTransaction, addr: u8) -> bool {
    t matches BusTransaction::Exchange { sent, received } && sent =~= seq![(addr | 0x01) as u8, 0u8]
        && received.len() == 2
}

/// The data byte a single-register read returned: the byte received while the
/// filler byte went out.
pub open spec fn read_data(t: BusTransaction) -> u8 {
    match t {
        BusTransaction::Exchange { received, .. } => received[1],
        BusTransaction::Send { .. } => 0,
    }
}

/// Whether a transaction writes `value` to the register at `addr`: a two-byte
/// send of the address byte and the value.
pub open spec fn is_reg_write(t: BusTransaction, addr: u8, value: u8) -> bool {
    t matches BusTransaction::Send { sent } && sent =~= seq![addr, value]
}

/// Whether a transaction is the burst read of `len - 1` payload bytes at the
/// burst address `addr`: an exchange of the address byte with its read bit
/// set followed by filler bytes, one per payload byte.
pub open spec fn is_burst_read(t: BusTransaction, addr: u8, len: int) -> bool {
    t matches BusTransaction::Exchange { sent, received } && sent.len() == len && len >= 1
        && sent[0] == (addr | 0x01) as u8 && (forall|i: int| 1 <= i < len ==> sent[i] == 0)
        && received.len() == len
}

/// The payload a burst read returned: the received bytes, including the byte
/// that arrived while the address went out.
pub open spec fn burst_data(t: BusTransaction) -> Seq<u8> {
    match t {
        BusTransaction::Exchange { received, .. } => received,
        BusTransaction::Send { .. } => seq![],
    }
}

/// How many transactions a write-protected single-register write takes when
/// its write-protect read stands at index `n` of the log: one more to clear
/// the protect bit when that read came back with it set.
pub open spec fn write_txn_count(post: Seq<BusTransaction>, n: int) -> int {
    if read_data(post[n]) & 0x80 != 0 {
        3
    } else {
        2
    }
}

/// Whether the transactions of the log starting at index `n` perform the
/// write-protected single-register write of `value` to `addr`: a read of the
/// write-protect register, a write of zero to it when the read shows the
/// protect bit set, then the data write.
pub open spec fn writes_register_at(
    post: Seq<BusTransaction>,
    n: int,
    addr: u8,
    value: u8,
) -> bool {
    &&& 0 <= n
    &&& n + write_txn_count(post, n) <= post.len()
    &&& is_reg_read(post[n], 0x8E)
    &&& if read_data(post[n]) & 0x80 != 0 {
        is_reg_write(post[n + 1], 0x8E, 0) && is_reg_write(post[n + 2], addr, value)
    } else {
        is_reg_write(post[n + 1], addr, value)
    }
}

/// Whether the step from log `pre` to log `post` is exactly one
/// write-protected single-register write of `value` to `addr`.
pub open spec fn writes_register(
    pre: Seq<BusTransaction>,
    post: Seq<BusTransaction>,
    addr: u8,
    value: u8,
) -> bool {
    &&& log_extends(pre, post)
    &&& writes_register_at(post, pre.len() as int, addr, value)
    &&& post.len() == pre.len() + write_txn_count(post, pre.len() as int)
}

/// Whether the step from log `pre` to log `post` is exactly one
/// single-register read of `addr`; the byte it returned is
/// `read_data(post.last())`.
pub open spec fn reads_register(
    pre: Seq<BusTransaction>,
    post: Seq<BusTransaction>,
    addr: u8,
) -> bool {
    &&& log_extends(pre, post)
    &&& post.len() == pre.len() + 1
    &&& is_reg_read(post[pre.len() as int], addr)
}

/// An entry below the shared prefix is the same in both logs.
pub proof fn lemma_log_extends_index(
    pre: Seq<BusTransaction>,
    post: Seq<BusTransaction>,
    i: int,
)
    requires
        log_extends(pre, post),
        0 <= i < pre.len(),
    ensures
        post[i] == pre[i],
{
    assert(post.subrange(0, pre.len() as int)[i] == post[i]);
}

/// Extending a log twice extends it.
pub proof fn lemma_log_extends_trans(
    a: Seq<BusTransaction>,
    b: Seq<BusTransaction>,
    c: Seq<BusTransaction>,
)
    requires
        log_extends(a, b),
        log_extends(b, c),
    ensures
        log_extends(a, c),
{
    assert forall|i: int| 0 <= i < a.len() implies c.subrange(0, a.len() as int)[i] == a[i] by {
        lemma_log_extends_index(a, b, i);
        lemma_log_extends_index(b, c, i);
    }
    assert(c.subrange(0, a.len() as int) =~= a);
}

/// A write-protected register write found at an index of a log is still found
/// there in every log that extends it.
pub proof fn lemma_writes_at_stable(
    post1: Seq<BusTransaction>,
    post2: Seq<BusTransaction>,
    n: int,
    addr: u8,
    value: u8,
)
    requires
        log_extends(post1, post2),
        writes_register_at(post1, n, addr, value),
    ensures
        writes_register_at(post2, n, addr, value),
        write_txn_count(post2, n) == write_txn_count(post1, n),
{
    lemma_log_extends_index(post1, post2, n);
    lemma_log_extends_index(post1, post2, n + 1);
    if read_data(post1[n]) & 0x80 != 0 {
        lemma_log_extends_index(post1, post2, n + 2);
    }
}


} // verus!
