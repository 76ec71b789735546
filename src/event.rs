//! Readiness records and the translation between portable interests and the
//! `poll(2)` bit encoding.
use vstd::prelude::*;
use crate::interest::{Interest, Token};

verus! {

// The `poll(2)` event bits, with the values of Linux's generic ABI.
pub const POLLIN: i16 = 0x1;
pub const POLLPRI: i16 = 0x2;
pub const POLLOUT: i16 = 0x4;
pub const POLLERR: i16 = 0x8;
pub const POLLHUP: i16 = 0x10;
pub const POLLRDNORM: i16 = 0x40;
pub const POLLRDBAND: i16 = 0x80;
pub const POLLWRNORM: i16 = 0x100;
pub const POLLWRBAND: i16 = 0x200;

/// The bits that a read interest asks for, and that mark a record readable.
pub const READ_BITS: i16 = POLLIN | POLLRDNORM | POLLRDBAND | POLLPRI;
/// The bits that a write interest asks for, and that mark a record writable.
pub const WRITE_BITS: i16 = POLLOUT | POLLWRNORM | POLLWRBAND;
/// The bits that mark a record as failed: hangup or error.
pub const ERROR_BITS: i16 = POLLHUP | POLLERR;
/// The out-of-band and urgent bits.
pub const PRIORITY_BITS: i16 = POLLRDBAND | POLLWRBAND | POLLPRI;

/// One entry of a registration table, and one record of a batch of ready
/// events: the descriptor, the requested mask, the observed mask and the
/// token that the registration carries.
#[derive(Clone, Copy, Debug, PartialEq, Eq, Structural)]
pub struct Event {
    pub fd: i32,
    pub events: i16,
    pub revents: i16,
    pub token: Token,
}

/// The poll mask that an interest requests.
pub open spec fn interest_mask(interests: Interest) -> i16 {
    (if interests.writable { WRITE_BITS } else { 0i16 }) | (if interests.readable { READ_BITS } else { 0i16 })
}

pub open spec fn mask_readable(m: i16) -> bool {
    m & READ_BITS != 0
}

pub open spec fn mask_writable(m: i16) -> bool {
    m & WRITE_BITS != 0
}

pub open spec fn mask_error(m: i16) -> bool {
    m & ERROR_BITS != 0
}

pub open spec fn mask_read_closed(m: i16) -> bool {
    m & POLLHUP != 0
}

/// `poll` has no signal of its own for a closed write side: it is inferred
/// from hangup and error.
pub open spec fn mask_write_closed(m: i16) -> bool {
    m & POLLHUP != 0 || (m & POLLOUT != 0 && m & POLLERR != 0) || m & POLLERR != 0
}

pub open spec fn mask_priority(m: i16) -> bool {
    m & PRIORITY_BITS != 0
}

/// A record that a wait reports: readable, writable or failed.
pub open spec fn mask_reported(m: i16) -> bool {
    mask_readable(m) || mask_writable(m) || mask_error(m)
}

/// Translates an interest into the poll mask to wait on.
pub fn interests_to_poll(interests: Interest) -> (r: i16)
    ensures
        r == interest_mask(interests),
{
    (if interests.is_writable() { WRITE_BITS } else { 0i16 }) | (if interests.is_readable() { READ_BITS } else { 0i16 })
}

/// A read interest asks for no write bit, a write interest for no read bit,
/// and the mask of both interests is the union of the masks of each.
pub proof fn lemma_interest_masks_split(interests: Interest)
    ensures
        interest_mask(Interest { readable: true, writable: false }) & WRITE_BITS == 0,
        interest_mask(Interest { readable: false, writable: true }) & READ_BITS == 0,
        interest_mask(Interest { readable: true, writable: true })
            == interest_mask(Interest { readable: true, writable: false })
               | interest_mask(Interest { readable: false, writable: true }),
        interest_mask(interests)
            == interest_mask(Interest { readable: interests.readable, writable: false })
               | interest_mask(Interest { readable: false, writable: interests.writable }),
{
    lemma_bit_groups();
    assert(0i16 | 0xc3i16 == 0xc3i16 && 0x304i16 | 0i16 == 0x304i16 && 0i16 | 0i16 == 0i16) by (bit_vector);
    assert(0xc3i16 & 0x304i16 == 0i16 && 0x304i16 & 0xc3i16 == 0i16) by (bit_vector);
    let w: i16 = if interests.writable { WRITE_BITS } else { 0i16 };
    let r: i16 = if interests.readable { READ_BITS } else { 0i16 };
    assert(w | r == (0i16 | r) | (w | 0i16)) by (bit_vector);
    assert(0x304i16 | 0xc3i16 == (0i16 | 0xc3i16) | (0x304i16 | 0i16)) by (bit_vector);
}

/// The token that the record carries back to its owner.
pub fn token(event: &Event) -> (r: Token)
    ensures
        r == event.token,
{
    event.token
}

pub fn is_readable(event: &Event) -> (r: bool)
    ensures
        r == mask_readable(event.revents),
{
    event.revents & READ_BITS != 0
}

pub fn is_writable(event: &Event) -> (r: bool)
    ensures
        r == mask_writable(event.revents),
{
    event.revents & WRITE_BITS != 0
}

pub fn is_error(event: &Event) -> (r: bool)
    ensures
        r == mask_error(event.revents),
{
    event.revents & ERROR_BITS != 0
}

pub fn is_read_closed(event: &Event) -> (r: bool)
    ensures
        r == mask_read_closed(event.revents),
{
    event.revents & POLLHUP != 0
}

pub fn is_write_closed(event: &Event) -> (r: bool)
    ensures
        r == mask_write_closed(event.revents),
{
    let revents = event.revents;
    (revents & POLLHUP != 0) || (revents & POLLOUT != 0 && revents & POLLERR != 0) || (revents & POLLERR != 0)
}

pub fn is_priority(event: &Event) -> (r: bool)
    ensures
        r == mask_priority(event.revents),
{
    event.revents & PRIORITY_BITS != 0
}

/// Asynchronous I/O readiness is never reported by `poll`.
pub fn is_aio(event: &Event) -> (r: bool)
    ensures
        !r,
{
    false
}

/// List I/O readiness is never reported by `poll`.
pub fn is_lio(event: &Event) -> (r: bool)
    ensures
        !r,
{
    false
}

/// A closed write side is reported on hangup, on error, and on write
/// readiness together with error; a mask of read bits alone reports none.
pub proof fn lemma_write_closed_cases(m: i16)
    ensures
        m & POLLHUP != 0 ==> mask_write_closed(m),
        m & POLLERR != 0 ==> mask_write_closed(m),
        (m & POLLOUT != 0 && m & POLLERR != 0) ==> mask_write_closed(m),
        m & !READ_BITS == 0 ==> !mask_write_closed(m),
{
    lemma_bit_groups();
    assert(m & !0xc3i16 == 0 ==> m & 0x10i16 == 0 && m & 0x8i16 == 0) by (bit_vector);
}

/// The flags that a readable rendering of a mask names, in the order in
/// which it names them.
pub open spec fn detail_flags() -> Seq<i16> {
    seq![POLLOUT, POLLWRNORM, POLLWRBAND, POLLIN, POLLRDNORM, POLLRDBAND, POLLPRI, POLLHUP, POLLERR]
}

/// The flags of `flags` that share a bit with `m`, in order.
pub open spec fn flags_set(flags: Seq<i16>, m: i16) -> Seq<i16>
    decreases flags.len(),
{
    if flags.len() == 0 {
        Seq::empty()
    } else {
        let rest = flags_set(flags.drop_last(), m);
        if m & flags.last() != 0 {
            rest.push(flags.last())
        } else {
            rest
        }
    }
}

/// The flags of the observed mask of `event` that a rendering of it names,
/// in order.
pub fn debug_details(event: &Event) -> (r: Vec<i16>)
    ensures
        r@ == flags_set(detail_flags(), event.revents),
{
    let all: Vec<i16> = vec![POLLOUT, POLLWRNORM, POLLWRBAND, POLLIN, POLLRDNORM, POLLRDBAND, POLLPRI, POLLHUP, POLLERR];
    assert(all@ == detail_flags());
    let mut r: Vec<i16> = Vec::new();
    let mut i: usize = 0;
    while i < all.len()
        invariant
            i <= all@.len(),
            all@ == detail_flags(),
            r@ == flags_set(all@.subrange(0, i as int), event.revents),
        decreases all@.len() - i,
    {
        let flag = all[i];
        assert(all@.subrange(0, i as int + 1).drop_last() =~= all@.subrange(0, i as int));
        if event.revents & flag != 0 {
            r.push(flag);
        }
        i = i + 1;
    }
    assert(all@.subrange(0, all@.len() as int) =~= all@);
    r
}

/// The values of the grouped masks.
proof fn lemma_bit_groups()
    ensures
        READ_BITS == 0xc3i16,
        WRITE_BITS == 0x304i16,
        ERROR_BITS == 0x18i16,
        PRIORITY_BITS == 0x282i16,
{
    assert(0x1i16 | 0x40i16 | 0x80i16 | 0x2i16 == 0xc3i16) by (bit_vector);
    assert(0x4i16 | 0x100i16 | 0x200i16 == 0x304i16) by (bit_vector);
    assert(0x10i16 | 0x8i16 == 0x18i16) by (bit_vector);
    assert(0x80i16 | 0x200i16 | 0x2i16 == 0x282i16) by (bit_vector);
}

} // verus!
