//! The registration table and the harvesting of a wait's results.
use vstd::prelude::*;
use crate::event::{interest_mask, interests_to_poll, is_error, is_readable, is_writable, mask_reported, Event};
use crate::interest::{Interest, Token};

verus! {

/// A batch of ready records, refilled by each wait.
pub type Events = Vec<Event>;

/// Why a change to the registration table was refused. Each carries the
/// descriptor that was named.
#[derive(Clone, Copy, Debug, PartialEq, Eq, Structural)]
pub enum SelectorError {
    /// The descriptor already has an entry.
    AlreadyRegistered(i32),
    /// The descriptor has no entry.
    NotFound(i32),
}

/// Whether some entry of `s` is for `fd`.
pub open spec fn has_fd(s: Seq<Event>, fd: i32) -> bool {
    exists|i: int| 0 <= i < s.len() && s[i].fd == fd
}

/// At most one entry for each descriptor.
pub open spec fn unique_fds(s: Seq<Event>) -> bool {
    forall|i: int, j: int| 0 <= i < s.len() && 0 <= j < s.len() && i != j ==> s[i].fd != s[j].fd
}

/// The entry that `register` adds.
pub open spec fn new_entry(fd: i32, token: Token, interests: Interest) -> Event {
    Event { fd, events: interest_mask(interests), revents: 0, token }
}

/// The table after the entry for `fd` took a new interest and token; its
/// observed mask stays.
pub open spec fn reregistered(s: Seq<Event>, fd: i32, token: Token, interests: Interest) -> Seq<Event> {
    Seq::new(
        s.len(),
        |i: int|
            if s[i].fd == fd {
                Event { fd: s[i].fd, events: interest_mask(interests), revents: s[i].revents, token }
            } else {
                s[i]
            },
    )
}

/// The table with the observed masks of a wait, entry by entry.
pub open spec fn with_observed(s: Seq<Event>, revents: Seq<i16>) -> Seq<Event> {
    Seq::new(
        s.len(),
        |i: int| Event { fd: s[i].fd, events: s[i].events, revents: revents[i], token: s[i].token },
    )
}

/// The entries of `s` that a wait reports, in table order.
pub open spec fn ready_batch(s: Seq<Event>) -> Seq<Event>
    decreases s.len(),
{
    if s.len() == 0 {
        Seq::empty()
    } else {
        let rest = ready_batch(s.drop_last());
        if mask_reported(s.last().revents) {
            rest.push(s.last())
        } else {
            rest
        }
    }
}

/// The timeout that `poll` takes for a wait of `timeout_ms` milliseconds:
/// none blocks without end, and a count too large for the call waits as
/// long as it can.
pub open spec fn timeout_value(timeout_ms: Option<u128>) -> i32 {
    match timeout_ms {
        None => -1i32,
        Some(ms) => if ms <= i32::MAX as u128 { ms as i32 } else { i32::MAX },
    }
}

/// Converts a wait's timeout in whole milliseconds to the argument of `poll`:
/// `-1` for none, zero for a wait that must not block.
pub fn poll_timeout(timeout_ms: Option<u128>) -> (r: i32)
    ensures
        r == timeout_value(timeout_ms),
{
    match timeout_ms {
        None => -1i32,
        Some(ms) => if ms <= i32::MAX as u128 { ms as i32 } else { i32::MAX },
    }
}

/// A table of registered descriptors with the identity of its owner and a
/// one-shot flag that records whether a wake source was attached.
pub struct Selector {
    id: usize,
    has_waker: bool,
    fds: Vec<Event>,
}

impl Selector {
    /// The registered entries, in table order.
    pub closed spec fn entries(&self) -> Seq<Event> {
        self.fds@
    }

    pub closed spec fn identity(&self) -> usize {
        self.id
    }

    pub closed spec fn waker_attached(&self) -> bool {
        self.has_waker
    }

    pub open spec fn wf(&self) -> bool {
        unique_fds(self.entries())
    }

    /// An empty selector with the identity that its owner gave it.
    pub fn new(id: usize) -> (r: Selector)
        ensures
            r.wf(),
            r.entries() == Seq::<Event>::empty(),
            r.identity() == id,
            !r.waker_attached(),
    {
        Selector { id, has_waker: false, fds: Vec::new() }
    }

    /// A selector with the same identity and wake flag, and a table of its
    /// own that starts as a copy of this one.
    pub fn try_clone(&self) -> (r: Selector)
        requires
            self.wf(),
        ensures
            r.wf(),
            r.entries() == self.entries(),
            r.identity() == self.identity(),
            r.waker_attached() == self.waker_attached(),
    {
        let mut fds: Vec<Event> = Vec::new();
        let mut i: usize = 0;
        while i < self.fds.len()
            invariant
                i <= self.fds@.len(),
                fds@ == self.fds@.subrange(0, i as int),
            decreases self.fds@.len() - i,
        {
            fds.push(self.fds[i]);
            i = i + 1;
            assert(fds@ =~= self.fds@.subrange(0, i as int));
        }
        assert(self.fds@.subrange(0, self.fds@.len() as int) =~= self.fds@);
        Selector { id: self.id, has_waker: self.has_waker, fds }
    }

    pub fn id(&self) -> (r: usize)
        ensures
            r == self.identity(),
    {
        self.id
    }

    /// Whether a wake source was attached.
    pub fn has_waker(&self) -> (r: bool)
        ensures
            r == self.waker_attached(),
    {
        self.has_waker
    }

    /// The registered entries, in table order: what a wait hands to `poll`.
    pub fn registrations(&self) -> (r: &Vec<Event>)
        ensures
            r@ == self.entries(),
    {
        &self.fds
    }

    /// Attaches the wake source and returns whether one was attached before.
    pub fn register_waker(&mut self) -> (r: bool)
        ensures
            r == old(self).waker_attached(),
            final(self).waker_attached(),
            final(self).entries() == old(self).entries(),
            final(self).identity() == old(self).identity(),
    {
        let was = self.has_waker;
        self.has_waker = true;
        was
    }

    /// The position of the entry for `fd`.
    fn find(&self, fd: i32) -> (r: Option<usize>)
        ensures
            match r {
                Some(i) => i < self.entries().len() && self.entries()[i as int].fd == fd,
                None => !has_fd(self.entries(), fd),
            },
    {
        let mut i: usize = 0;
        while i < self.fds.len()
            invariant
                i <= self.fds@.len(),
                forall|k: int| 0 <= k < i ==> self.fds@[k].fd != fd,
            decreases self.fds@.len() - i,
        {
            if self.fds[i].fd == fd {
                return Some(i);
            }
            i = i + 1;
        }
        None
    }

    /// Adds an entry for `fd` that waits on `interests` and carries `token`.
    pub fn register(&mut self, fd: i32, token: Token, interests: Interest) -> (r: Result<(), SelectorError>)
        requires
            old(self).wf(),
        ensures
            final(self).wf(),
            final(self).identity() == old(self).identity(),
            final(self).waker_attached() == old(self).waker_attached(),
            has_fd(old(self).entries(), fd) ==> r == Err::<(), SelectorError>(SelectorError::AlreadyRegistered(fd))
                && final(self).entries() == old(self).entries(),
            !has_fd(old(self).entries(), fd) ==> r == Ok::<(), SelectorError>(())
                && final(self).entries() == old(self).entries().push(new_entry(fd, token, interests)),
    {
        match self.find(fd) {
            Some(_) => Err(SelectorError::AlreadyRegistered(fd)),
            None => {
                let events = interests_to_poll(interests);
                self.fds.push(Event { fd, events, revents: 0, token });
                Ok(())
            },
        }
    }

    /// Gives the entry for `fd` a new interest and token.
    pub fn reregister(&mut self, fd: i32, token: Token, interests: Interest) -> (r: Result<(), SelectorError>)
        requires
            old(self).wf(),
        ensures
            final(self).wf(),
            final(self).identity() == old(self).identity(),
            final(self).waker_attached() == old(self).waker_attached(),
            has_fd(old(self).entries(), fd) ==> r == Ok::<(), SelectorError>(())
                && final(self).entries() == reregistered(old(self).entries(), fd, token, interests),
            !has_fd(old(self).entries(), fd) ==> r == Err::<(), SelectorError>(SelectorError::NotFound(fd))
                && final(self).entries() == old(self).entries(),
    {
        match self.find(fd) {
            Some(i) => {
                let old_entry = self.fds[i];
                let events = interests_to_poll(interests);
                self.fds.set(i, Event { fd, events, revents: old_entry.revents, token });
                assert(self.fds@ =~= reregistered(old(self).fds@, fd, token, interests));
                Ok(())
            },
            None => Err(SelectorError::NotFound(fd)),
        }
    }

    /// Removes the entry for `fd`; the others keep their order.
    pub fn deregister(&mut self, fd: i32) -> (r: Result<(), SelectorError>)
        requires
            old(self).wf(),
        ensures
            final(self).wf(),
            final(self).identity() == old(self).identity(),
            final(self).waker_attached() == old(self).waker_attached(),
            !has_fd(final(self).entries(), fd),
            has_fd(old(self).entries(), fd) ==> r == Ok::<(), SelectorError>(()) && exists|i: int|
                0 <= i < old(self).entries().len() && old(self).entries()[i].fd == fd
                    && final(self).entries() == old(self).entries().remove(i),
            !has_fd(old(self).entries(), fd) ==> r == Err::<(), SelectorError>(SelectorError::NotFound(fd))
                && final(self).entries() == old(self).entries(),
    {
        match self.find(fd) {
            Some(i) => {
                let ghost before = self.fds@;
                self.fds.remove(i);
                assert(self.fds@ == before.remove(i as int));
                assert forall|k: int| 0 <= k < self.fds@.len() implies self.fds@[k].fd != fd by {
                    if k < i {
                        assert(self.fds@[k] == before[k]);
                    } else {
                        assert(self.fds@[k] == before[k + 1]);
                    }
                }
                Ok(())
            },
            None => Err(SelectorError::NotFound(fd)),
        }
    }
    /// Completes a wait: records in each entry the mask that `poll` observed
    /// for it, and refills `events` with the entries that came out readable,
    /// writable or failed, in table order. An entry that saw only other bits
    /// is not reported, so the batch may be shorter than the count `poll`
    /// returned.
    pub fn select(&mut self, events: &mut Events, observed: &Vec<i16>)
        requires
            old(self).wf(),
            observed@.len() == old(self).entries().len(),
        ensures
            final(self).wf(),
            final(self).identity() == old(self).identity(),
            final(self).waker_attached() == old(self).waker_attached(),
            final(self).entries() == with_observed(old(self).entries(), observed@),
            final(events)@ == ready_batch(final(self).entries()),
    {
        events.clear();
        let ghost target = with_observed(old(self).fds@, observed@);
        let mut i: usize = 0;
        while i < self.fds.len()
            invariant
                self.fds@.len() == observed@.len(),
                self.fds@.len() == old(self).fds@.len(),
                i <= self.fds@.len(),
                target == with_observed(old(self).fds@, observed@),
                forall|k: int| 0 <= k < i ==> self.fds@[k] == target[k],
                forall|k: int| i <= k < self.fds@.len() ==> self.fds@[k] == old(self).fds@[k],
                events@ == ready_batch(self.fds@.subrange(0, i as int)),
                self.id == old(self).id,
                self.has_waker == old(self).has_waker,
            decreases self.fds@.len() - i,
        {
            let entry = self.fds[i];
            let updated = Event { fd: entry.fd, events: entry.events, revents: observed[i], token: entry.token };
            let ghost prev = self.fds@;
            self.fds.set(i, updated);
            assert(self.fds@.subrange(0, i as int) =~= prev.subrange(0, i as int));
            assert(self.fds@.subrange(0, i as int + 1).drop_last() =~= self.fds@.subrange(0, i as int));
            assert(self.fds@.subrange(0, i as int + 1).last() == updated);
            if is_readable(&updated) || is_writable(&updated) || is_error(&updated) {
                events.push(updated);
            }
            i = i + 1;
        }
        assert(self.fds@ =~= target);
        assert(self.fds@.subrange(0, self.fds@.len() as int) =~= self.fds@);
    }
}

/// A batch taken from a table without an entry for `fd` holds no record for
/// `fd`.
proof fn lemma_ready_batch_lacks(s: Seq<Event>, fd: i32)
    requires
        !has_fd(s, fd),
    ensures
        !has_fd(ready_batch(s), fd),
    decreases s.len(),
{
    if s.len() > 0 {
        assert(!has_fd(s.drop_last(), fd)) by {
            if has_fd(s.drop_last(), fd) {
                let i = choose|i: int| 0 <= i < s.drop_last().len() && s.drop_last()[i].fd == fd;
                assert(s[i].fd == fd);
            }
        }
        lemma_ready_batch_lacks(s.drop_last(), fd);
        assert(s[s.len() - 1].fd != fd);
    }
}

/// Once a selector has no entry for `fd`, a wait on it reports nothing for
/// `fd`, whatever `poll` observed.
pub proof fn lemma_deregistered_never_reported(selector: Selector, fd: i32, observed: Seq<i16>)
    requires
        !has_fd(selector.entries(), fd),
        observed.len() == selector.entries().len(),
    ensures
        !has_fd(ready_batch(with_observed(selector.entries(), observed)), fd),
{
    let s = with_observed(selector.entries(), observed);
    assert(!has_fd(s, fd)) by {
        if has_fd(s, fd) {
            let i = choose|i: int| 0 <= i < s.len() && s[i].fd == fd;
            assert(selector.entries()[i].fd == fd);
        }
    }
    lemma_ready_batch_lacks(s, fd);
}

/// A descriptor registered into an empty selector and then observed
/// readable, writable or failed makes a batch of exactly one record, which
/// carries the descriptor and the token it was registered with.
pub proof fn lemma_single_registration_reported(fd: i32, token: Token, interests: Interest, revents: i16)
    requires
        mask_reported(revents),
    ensures
        ready_batch(with_observed(Seq::<Event>::empty().push(new_entry(fd, token, interests)), seq![revents]))
            == seq![Event { fd, events: interest_mask(interests), revents, token }],
{
    let s = with_observed(Seq::<Event>::empty().push(new_entry(fd, token, interests)), seq![revents]);
    assert(s.drop_last() =~= Seq::<Event>::empty());
    assert(ready_batch(s.drop_last()) == Seq::<Event>::empty());
    assert(ready_batch(s) =~= seq![Event { fd, events: interest_mask(interests), revents, token }]);
}

} // verus!
