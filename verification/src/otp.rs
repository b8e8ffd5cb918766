//! One-time passcodes: who was sent which code, and for how long it counts.

use crate::address::Address;
use crate::error::Error;
use crate::outside::{request_stop, send_signal, signal_channel};
use std::time::Duration;
use tokio::sync::oneshot;
use tokio::task::AbortHandle;
use vstd::prelude::*;

verus! {

/// A one-time passcode needs to store both the code and a handle to a timer
/// during which the code is valid
#[derive(Debug)]
pub struct OneTimePasscode {
    /// Stops the timer.
    pub handle: AbortHandle,
    /// Randomly generated to verify the user has access to the email
    pub code: u16,
}

impl OneTimePasscode {
    /// Starts the background timer which, when it expires, is to remove the
    /// passcode of `email`, thus invalidating it.
    pub fn new<F: FnOnce(Address, Duration) -> AbortHandle>(
        email: Address,
        code: u16,
        duration: Duration,
        start_timer: F,
    ) -> (passcode: Self)
        requires
            start_timer.requires((email, duration)),
        ensures
            passcode.code == code,
            start_timer.ensures((email, duration), passcode.handle),
    {
        OneTimePasscode { handle: start_timer(email, duration), code }
    }

    /// Prematurely ends the background timer and checks if the verification
    /// codes match.
    pub fn end(&mut self, code: u16) -> (matched: bool)
        ensures
            matched == (old(self).code == code),
            final(self).code == old(self).code,
            crate::outside::stop_request(old(self).handle, final(self).handle),
    {
        request_stop(&mut self.handle);
        self.code == code
    }
}

/// An address with the passcode that was last sent to it.
struct Entry {
    address: Address,
    passcode: OneTimePasscode,
}

/// What the passcode database holds.
#[verifier::ext_equal]
pub struct OtpState {
    /// The passcodes that can still be used, by address.
    pub pending: Map<Seq<char>, OneTimePasscode>,
    /// How long a passcode counts.
    pub duration: Duration,
    /// Whether a shutdown was requested.
    pub closing: bool,
    /// Where the end of the last passcode is announced, where a shutdown waits
    /// for it.
    pub signal: Option<oneshot::Sender<()>>,
}

impl OtpState {
    /// Only a requested shutdown waits, and only for passcodes that are still
    /// pending.
    pub open spec fn valid(self) -> bool {
        self.signal is Some ==> self.closing && self.pending != Map::<
            Seq<char>,
            OneTimePasscode,
        >::empty()
    }

    /// The passcode that is pending for `address`.
    pub open spec fn entry(self, address: Seq<char>) -> Option<OneTimePasscode> {
        if self.pending.contains_key(address) {
            Some(self.pending[address])
        } else {
            None
        }
    }

    /// The state after `passcode` was sent to `address`.
    pub open spec fn inserted(self, address: Seq<char>, passcode: OneTimePasscode) -> Self {
        OtpState { pending: self.pending.insert(address, passcode), ..self }
    }

    /// Whether a shutdown waits for the passcodes to be gone, and none is left
    /// without that of `address`.
    pub open spec fn announces(self, address: Seq<char>) -> bool {
        &&& self.signal is Some
        &&& self.pending.remove(address) == Map::<Seq<char>, OneTimePasscode>::empty()
    }

    /// The state after the passcode of `address` was used or timed out.
    pub open spec fn removed(self, address: Seq<char>) -> Self {
        OtpState {
            pending: self.pending.remove(address),
            signal: if self.announces(address) {
                None
            } else {
                self.signal
            },
            ..self
        }
    }
}

/// Database for managing the one-time passcodes
pub struct OtpDb {
    entries: Vec<Entry>,
    duration: Duration,
    closing: bool,
    shutdown_signal: Option<oneshot::Sender<()>>,
}

/// No two entries have the same address.
spec fn distinct(entries: Seq<Entry>) -> bool {
    forall|i: int, j: int|
        0 <= i < j < entries.len() ==> (#[trigger] entries[i]).address@ != (
        #[trigger] entries[j]).address@
}

/// Whether `address` has an entry at `i`.
spec fn found_at(entries: Seq<Entry>, address: Seq<char>, i: int) -> bool {
    0 <= i < entries.len() && entries[i].address@ == address
}

/// The passcodes of the entries, by address.
spec fn by_address(entries: Seq<Entry>) -> Map<Seq<char>, OneTimePasscode> {
    Map::new(
        |address: Seq<char>| exists|i: int| found_at(entries, address, i),
        |address: Seq<char>| entries[choose|i: int| found_at(entries, address, i)].passcode,
    )
}

/// The passcode of an entry is found under the entry's address.
proof fn lemma_found(entries: Seq<Entry>, i: int)
    requires
        distinct(entries),
        0 <= i < entries.len(),
    ensures
        by_address(entries).contains_key(entries[i].address@),
        by_address(entries)[entries[i].address@] == entries[i].passcode,
{
    let address = entries[i].address@;
    assert(found_at(entries, address, i));
    let k = choose|k: int| found_at(entries, address, k);
    assert(found_at(entries, address, k));
    if k < i {
        assert(entries[k].address@ != entries[i].address@);
    } else if i < k {
        assert(entries[i].address@ != entries[k].address@);
    }
}

/// There are passcodes exactly if there are entries.
proof fn lemma_empty(entries: Seq<Entry>)
    requires
        distinct(entries),
    ensures
        (by_address(entries) == Map::<Seq<char>, OneTimePasscode>::empty()) == (entries.len() == 0),
{
    if entries.len() == 0 {
        assert forall|address: Seq<char>| !by_address(entries).contains_key(address) by {
            assert(forall|i: int| !found_at(entries, address, i));
        }
        assert(by_address(entries) =~= Map::<Seq<char>, OneTimePasscode>::empty());
    } else {
        lemma_found(entries, 0);
    }
}

/// Adding an entry for a new address adds its passcode.
proof fn lemma_push(entries: Seq<Entry>, entry: Entry)
    requires
        distinct(entries),
        !by_address(entries).contains_key(entry.address@),
    ensures
        distinct(entries.push(entry)),
        by_address(entries.push(entry)) == by_address(entries).insert(
            entry.address@,
            entry.passcode,
        ),
{
    let more = entries.push(entry);
    assert forall|i: int, j: int| 0 <= i < j < more.len() implies (#[trigger] more[i]).address@ != (
    #[trigger] more[j]).address@ by {
        if j == entries.len() {
            lemma_found(entries, i);
        }
    }
    let expected = by_address(entries).insert(entry.address@, entry.passcode);
    assert forall|address: Seq<char>| #[trigger] by_address(more).contains_key(address)
        <==> expected.contains_key(address) by {
        if by_address(more).contains_key(address) {
            let i = choose|i: int| found_at(more, address, i);
            if i < entries.len() {
                lemma_found(entries, i);
            }
        }
        if by_address(entries).contains_key(address) {
            let i = choose|i: int| found_at(entries, address, i);
            lemma_found(more, i);
        }
        lemma_found(more, entries.len() as int);
    }
    assert forall|address: Seq<char>| #[trigger] by_address(more).contains_key(
        address,
    ) implies by_address(more)[address] == expected[address] by {
        let i = choose|i: int| found_at(more, address, i);
        lemma_found(more, i);
        if i < entries.len() {
            lemma_found(entries, i);
        }
    }
    assert(by_address(more) =~= expected);
}

/// Taking an entry out, and moving the last one to its place, takes out its
/// passcode.
proof fn lemma_swap_remove(entries: Seq<Entry>, k: int)
    requires
        distinct(entries),
        0 <= k < entries.len(),
    ensures
        distinct(entries.update(k, entries.last()).drop_last()),
        by_address(entries.update(k, entries.last()).drop_last()) == by_address(entries).remove(
            entries[k].address@,
        ),
{
    let fewer = entries.update(k, entries.last()).drop_last();
    let last = entries.len() - 1;
    let expected = by_address(entries).remove(entries[k].address@);
    assert(distinct(fewer));
    assert forall|address: Seq<char>| #[trigger] by_address(fewer).contains_key(address)
        <==> expected.contains_key(address) by {
        if by_address(fewer).contains_key(address) {
            let i = choose|i: int| found_at(fewer, address, i);
            lemma_found(entries, if i == k { last } else { i });
        }
        if expected.contains_key(address) {
            let i = choose|i: int| found_at(entries, address, i);
            lemma_found(fewer, if i == last { k } else { i });
        }
    }
    assert forall|address: Seq<char>| #[trigger] by_address(fewer).contains_key(
        address,
    ) implies by_address(fewer)[address] == expected[address] by {
        let i = choose|i: int| found_at(fewer, address, i);
        lemma_found(fewer, i);
        lemma_found(entries, if i == k { last } else { i });
    }
    assert(by_address(fewer) =~= expected);
}

impl View for OtpDb {
    type V = OtpState;

    closed spec fn view(&self) -> OtpState {
        OtpState {
            pending: by_address(self.entries@),
            duration: self.duration,
            closing: self.closing,
            signal: self.shutdown_signal,
        }
    }
}

/// Whether `announced` is what came of removing the passcode of `address`: the
/// shutdown that waits is told exactly if no passcode is left, and told through
/// its own signal.
pub open spec fn announcement(
    before: OtpState,
    address: Seq<char>,
    announced: Option<Result<(), ()>>,
) -> bool {
    &&& announced is Some <==> before.announces(address)
    &&& announced matches Some(outcome) ==> crate::outside::came_of(before.signal->Some_0, outcome)
}

/// What a removal comes to: the passcode that was pending, unless its end was
/// to be announced and nobody was there to hear it.
pub open spec fn removal(
    old_entry: Option<OneTimePasscode>,
    announced: Option<Result<(), ()>>,
) -> Result<Option<OneTimePasscode>, Error> {
    match announced {
        Some(Err(_)) => Err(Error::ServerShutdown),
        _ => Ok(old_entry),
    }
}

/// Answers a removal: `announced` is what came of announcing the end of the
/// last passcode, where it was announced.
pub fn removal_result(
    old_entry: Option<OneTimePasscode>,
    announced: Option<Result<(), ()>>,
) -> (result: Result<Option<OneTimePasscode>, Error>)
    ensures
        result == removal(old_entry, announced),
{
    match announced {
        Some(Err(_)) => Err(Error::ServerShutdown),
        _ => Ok(old_entry),
    }
}

impl OtpDb {
    /// One passcode for each address, and no shutdown without any.
    pub closed spec fn wf(self) -> bool {
        distinct(self.entries@) && self@.valid()
    }

    /// The duration gets stored here to set the timer for every new OTP
    pub fn new(duration: Duration) -> (db: Self)
        ensures
            db.wf(),
            db@ == (OtpState { pending: Map::empty(), duration, closing: false, signal: None }),
    {
        let db = OtpDb { entries: Vec::new(), duration, closing: false, shutdown_signal: None };
        proof {
            lemma_empty(db.entries@);
        }
        db
    }

    /// Where the entry of `address` is, if there is one.
    fn position(&self, address: &Address) -> (position: Option<usize>)
        requires
            distinct(self.entries@),
        ensures
            match position {
                Some(k) => found_at(self.entries@, address@, k as int),
                None => !by_address(self.entries@).contains_key(address@),
            },
    {
        let mut i: usize = 0;
        while i < self.entries.len()
            invariant
                i <= self.entries@.len(),
                forall|k: int| 0 <= k < i ==> !found_at(self.entries@, address@, k),
            decreases self.entries@.len() - i,
        {
            if self.entries[i].address.same(address) {
                return Some(i);
            }
            i += 1;
        }
        None
    }

    /// Takes the passcode of `address` out.
    fn take(&mut self, address: &Address) -> (old_entry: Option<OneTimePasscode>)
        requires
            distinct(old(self).entries@),
        ensures
            distinct(final(self).entries@),
            old_entry == old(self)@.entry(address@),
            by_address(final(self).entries@) == by_address(old(self).entries@).remove(address@),
            final(self).duration == old(self).duration,
            final(self).closing == old(self).closing,
            final(self).shutdown_signal == old(self).shutdown_signal,
    {
        match self.position(address) {
            Some(k) => {
                proof {
                    lemma_found(self.entries@, k as int);
                    lemma_swap_remove(self.entries@, k as int);
                }
                let entry = self.entries.swap_remove(k);
                Some(entry.passcode)
            },
            None => {
                assert(by_address(self.entries@) =~= by_address(self.entries@).remove(address@));
                None
            },
        }
    }

    /// Will only insert if a shutdown request has not been received, will
    /// return the old code if it exists
    pub fn insert<F: FnOnce(Address, Duration) -> AbortHandle>(
        &mut self,
        address: Address,
        code: u16,
        start_timer: F,
    ) -> (result: Result<Option<OneTimePasscode>, Error>)
        requires
            old(self).wf(),
            !old(self)@.closing ==> start_timer.requires((address, old(self)@.duration)),
        ensures
            final(self).wf(),
            old(self)@.closing ==> {
                &&& result == Err::<Option<OneTimePasscode>, Error>(Error::ServerShutdown)
                &&& final(self)@ == old(self)@
            },
            final(self)@.closing == old(self)@.closing,
            final(self)@.signal == old(self)@.signal,
            final(self)@.duration == old(self)@.duration,
            !old(self)@.closing ==> {
                &&& result == Ok::<Option<OneTimePasscode>, Error>(old(self)@.entry(address@))
                &&& exists|passcode: OneTimePasscode|
                    {
                        &&& passcode.code == code
                        &&& start_timer.ensures(
                            (address, old(self)@.duration),
                            passcode.handle,
                        )
                        &&& final(self)@ == #[trigger] old(self)@.inserted(address@, passcode)
                    }
            },
    {
        if !self.closing {
            let passcode = OneTimePasscode::new(address.clone(), code, self.duration, start_timer);
            let old_entry = self.take(&address);
            let ghost entries = self.entries@;
            let ghost key = address@;
            let ghost sent = passcode;
            let ghost entry = Entry { address, passcode };
            proof {
                lemma_push(entries, entry);
                assert(by_address(old(self).entries@).remove(key).insert(key, sent)
                    =~= by_address(old(self).entries@).insert(key, sent));
            }
            self.entries.push(Entry { address, passcode });
            assert(self@ =~= old(self)@.inserted(key, sent));
            Ok(old_entry)
        } else {
            Err(Error::ServerShutdown)
        }
    }

    /// If the shutdown request was received and the given address was the last
    /// one in the database, it will send the shutdown command
    pub fn remove(&mut self, address: &Address) -> (result: Result<
        Option<OneTimePasscode>,
        Error,
    >)
        requires
            old(self).wf(),
        ensures
            final(self).wf(),
            final(self)@ == old(self)@.removed(address@),
            final(self)@.pending == old(self)@.pending.remove(address@),
            final(self)@.closing == old(self)@.closing,
            final(self)@.duration == old(self)@.duration,
            exists|announced: Option<Result<(), ()>>|
                {
                    &&& announcement(old(self)@, address@, announced)
                    &&& result == #[trigger] removal(old(self)@.entry(address@), announced)
                },
    {
        let old_entry = self.take(address);
        proof {
            lemma_empty(self.entries@);
        }
        let mut announced: Option<Result<(), ()>> = None;
        if self.entries.is_empty() {
            if let Some(tx) = self.shutdown_signal.take() {
                announced = Some(send_signal(tx));
            }
        }
        assert(self@ =~= old(self)@.removed(address@));
        removal_result(old_entry, announced)
    }

    /// Requests a shutdown, wait on the returned oneshot receiver if needed
    /// for the shutdown signal
    pub fn shutdown(&mut self) -> (wait: Option<oneshot::Receiver<()>>)
        requires
            old(self).wf(),
        ensures
            final(self).wf(),
            shut(old(self)@, final(self)@, wait),
    {
        proof {
            lemma_empty(self.entries@);
        }
        self.closing = true;
        if self.entries.is_empty() {
            None
        } else {
            let (tx, rx) = signal_channel();
            self.shutdown_signal = Some(tx);
            Some(rx)
        }
    }
}

/// What a request for a shutdown comes to, given the passcodes before and after:
/// it is on record, and no passcode is lost. Where passcodes are pending, the
/// receiver that comes back is the one that the end of the last is announced
/// to.
pub open spec fn shut(
    before: OtpState,
    after: OtpState,
    wait: Option<oneshot::Receiver<()>>,
) -> bool {
    &&& after.closing
    &&& after.pending == before.pending
    &&& after.duration == before.duration
    &&& wait is None <==> before.pending == Map::<Seq<char>, OneTimePasscode>::empty()
    &&& match wait {
        None => after.signal == before.signal,
        Some(rx) => after.signal matches Some(tx) && crate::outside::paired(tx, rx),
    }
}

/// A well-formed database is in a valid state.
pub proof fn law_well_formed_is_valid(db: OtpDb)
    requires
        db.wf(),
    ensures
        db@.valid(),
{
}

/// A passcode that was sent is pending in place of any that was sent before, and
/// sending it leaves a valid state valid.
pub proof fn law_latest_passcode_replaces_earlier_ones(
    state: OtpState,
    address: Seq<char>,
    earlier: OneTimePasscode,
    latest: OneTimePasscode,
)
    ensures
        state.inserted(address, latest).entry(address) == Some(latest),
        state.inserted(address, earlier).inserted(address, latest) == state.inserted(
            address,
            latest,
        ),
        state.valid() ==> state.inserted(address, latest).valid(),
{
    assert(state.inserted(address, earlier).inserted(address, latest).pending =~= state.inserted(
        address,
        latest,
    ).pending);
    assert(state.inserted(address, latest).pending.contains_key(address));
}

/// A passcode that was used or timed out is gone, and taking it out leaves a
/// valid state valid.
pub proof fn law_removed_passcode_is_gone(state: OtpState, address: Seq<char>)
    ensures
        state.removed(address).entry(address) is None,
        state.valid() ==> state.removed(address).valid(),
        state.entry(address) is None && state.valid() ==> state.removed(address) == state,
{
    if state.entry(address) is None {
        assert(state.pending.remove(address) =~= state.pending);
    }
}

/// What happens to the passcode of one address is nothing to any other.
pub proof fn law_addresses_do_not_interfere(
    state: OtpState,
    address: Seq<char>,
    other: Seq<char>,
    passcode: OneTimePasscode,
)
    requires
        address != other,
    ensures
        state.inserted(address, passcode).entry(other) == state.entry(other),
        state.removed(address).entry(other) == state.entry(other),
{
}

/// The state after the passcodes of some addresses were used or timed out, one
/// after the other.
pub open spec fn drained(state: OtpState, addresses: Seq<Seq<char>>) -> OtpState
    decreases addresses.len(),
{
    if addresses.len() == 0 {
        state
    } else {
        drained(state, addresses.drop_last()).removed(addresses.last())
    }
}

/// A shutdown that was requested waits exactly as long as passcodes are
/// pending: whatever passcodes are used or time out, the announcement is made
/// when, and only when, none is left. That happens once each pending address
/// has had its turn.
pub proof fn law_shutdown_waits_for_the_last_passcode(state: OtpState, addresses: Seq<Seq<char>>)
    requires
        state.valid(),
        state.signal is Some,
    ensures
        drained(state, addresses).valid(),
        drained(state, addresses).signal is None <==> drained(state, addresses).pending == Map::<
            Seq<char>,
            OneTimePasscode,
        >::empty(),
        drained(state, addresses).signal is Some ==> drained(state, addresses).signal
            == state.signal,
        forall|address: Seq<char>| #[trigger]
            drained(state, addresses).pending.contains_key(address) <==> state.pending.contains_key(
                address,
            ) && !addresses.contains(address),
    decreases addresses.len(),
{
    if addresses.len() > 0 {
        let fewer = addresses.drop_last();
        law_shutdown_waits_for_the_last_passcode(state, fewer);
        let last = addresses.last();
        let before = drained(state, fewer);
        let after = drained(state, addresses);
        if before.signal is None {
            assert(after.pending =~= Map::<Seq<char>, OneTimePasscode>::empty());
        }
        assert forall|address: Seq<char>| #[trigger] after.pending.contains_key(address)
            <==> state.pending.contains_key(address) && !addresses.contains(address) by {
            assert(addresses =~= fewer.push(last));
            if addresses.contains(address) && address != last {
                let i = choose|i: int| 0 <= i < addresses.len() && addresses[i] == address;
                assert(fewer[i] == address);
            }
            if fewer.contains(address) {
                let i = choose|i: int| 0 <= i < fewer.len() && fewer[i] == address;
                assert(addresses[i] == address);
            }
            assert(addresses[addresses.len() - 1] == last);
            assert(before.pending.contains_key(address) <==> state.pending.contains_key(address)
                && !fewer.contains(address));
        }
    }
}

/// A signal that was used up does not come back by removing more passcodes, and
/// a request for a shutdown stays on record.
proof fn lemma_drained(state: OtpState, addresses: Seq<Seq<char>>)
    ensures
        state.signal is None ==> drained(state, addresses).signal is None,
        drained(state, addresses).closing == state.closing,
        drained(state, addresses).duration == state.duration,
    decreases addresses.len(),
{
    if addresses.len() > 0 {
        lemma_drained(state, addresses.drop_last());
    }
}

/// The receiver that a request for a shutdown handed out is told when, and only
/// when, the last passcode leaves, whatever passcodes left before; while any
/// passcode remains it stays the one to be told, and it is never told again.
pub proof fn law_receiver_is_told_when_the_last_passcode_leaves(
    before: OtpState,
    state: OtpState,
    rx: oneshot::Receiver<()>,
    addresses: Seq<Seq<char>>,
    address: Seq<char>,
    announced: Option<Result<(), ()>>,
)
    requires
        shut(before, state, Some(rx)),
        announcement(drained(state, addresses), address, announced),
    ensures
        ({
            let now = drained(state, addresses);
            let then = now.removed(address);
            let none = Map::<Seq<char>, OneTimePasscode>::empty();
            &&& announced is Some <==> now.pending != none && then.pending == none
            &&& announced == Some(Ok::<(), ()>(())) ==> crate::outside::told(rx)
            &&& announced is Some ==> forall|more: Seq<Seq<char>>| (#[trigger] drained(
                then,
                more,
            )).signal is None
            &&& then.pending != none ==> then.signal is Some && crate::outside::paired(
                then.signal->Some_0,
                rx,
            )
        }),
{
    law_shutdown_waits_for_the_last_passcode(state, addresses);
    let now = drained(state, addresses);
    let then = now.removed(address);
    if now.pending == Map::<Seq<char>, OneTimePasscode>::empty() {
        assert(then.pending =~= Map::<Seq<char>, OneTimePasscode>::empty());
    }
    if announced is Some {
        assert forall|more: Seq<Seq<char>>| (#[trigger] drained(then, more)).signal is None by {
            lemma_drained(then, more);
        }
    }
    if announced == Some(Ok::<(), ()>(())) {
        assert(crate::outside::paired(now.signal->Some_0, rx));
    }
}

/// A request for a shutdown stays on record: whether or not passcodes were
/// pending, and whatever passcodes are used or time out afterwards.
pub proof fn law_shutdown_request_stays_on_record(
    before: OtpState,
    state: OtpState,
    wait: Option<oneshot::Receiver<()>>,
    addresses: Seq<Seq<char>>,
)
    requires
        shut(before, state, wait),
    ensures
        drained(state, addresses).closing,
{
    lemma_drained(state, addresses);
}

/// Sending a passcode changes nothing but the pending passcode of its address.
pub proof fn law_insertion_changes_one_passcode(
    state: OtpState,
    address: Seq<char>,
    passcode: OneTimePasscode,
)
    ensures
        state.inserted(address, passcode).pending == state.pending.insert(address, passcode),
        state.inserted(address, passcode).duration == state.duration,
        state.inserted(address, passcode).closing == state.closing,
        state.inserted(address, passcode).signal == state.signal,
{
}

/// Taking a passcode out changes nothing but the pending passcode of its
/// address, except that a signal for the last passcode is used up by it.
pub proof fn law_removal_changes_one_passcode(state: OtpState, address: Seq<char>)
    ensures
        state.removed(address).pending == state.pending.remove(address),
        state.removed(address).duration == state.duration,
        state.removed(address).closing == state.closing,
        (forall|other: Seq<char>| #[trigger] state.pending.contains_key(other) ==> other == address)
            ==> state.removed(address).signal is None,
        (exists|other: Seq<char>| #[trigger] state.pending.contains_key(other) && other != address)
            ==> state.removed(address).signal == state.signal,
{
    if forall|other: Seq<char>| #[trigger] state.pending.contains_key(other) ==> other == address {
        assert(state.pending.remove(address) =~= Map::<Seq<char>, OneTimePasscode>::empty());
    }
    if exists|other: Seq<char>| #[trigger] state.pending.contains_key(other) && other != address {
        let other = choose|other: Seq<char>| #[trigger]
            state.pending.contains_key(other) && other != address;
        assert(state.pending.remove(address).contains_key(other));
    }
}

/// An address has an entry exactly if a passcode is pending for it: that one.
pub proof fn law_entry_is_the_pending_passcode(
    state: OtpState,
    address: Seq<char>,
    passcode: OneTimePasscode,
)
    ensures
        state.entry(address) == Some(passcode) <==> state.pending.contains_key(address)
            && state.pending[address] == passcode,
        state.entry(address) is None <==> !state.pending.contains_key(address),
{
}

/// Something is announced exactly if a shutdown waits and no passcode is left
/// but that of the address, and it is announced on the shutdown's own signal.
pub proof fn law_announcement_is_made_for_the_last_passcode(
    before: OtpState,
    address: Seq<char>,
    announced: Option<Result<(), ()>>,
)
    requires
        announcement(before, address, announced),
    ensures
        announced is Some <==> before.signal is Some && forall|other: Seq<char>| #[trigger]
            before.pending.contains_key(other) ==> other == address,
        announced is Some ==> crate::outside::came_of(before.signal->Some_0, announced->Some_0),
{
    let rest = before.pending.remove(address);
    if forall|other: Seq<char>| #[trigger] before.pending.contains_key(other) ==> other == address {
        assert(rest =~= Map::<Seq<char>, OneTimePasscode>::empty());
    } else {
        let other = choose|other: Seq<char>|
            !(#[trigger] before.pending.contains_key(other) ==> other == address);
        assert(rest.contains_key(other));
    }
}

/// A removal hands out what was pending, and fails only where an announcement
/// was made and nobody was there to hear it.
pub proof fn law_removal_fails_only_unheard(
    old_entry: Option<OneTimePasscode>,
    announced: Option<Result<(), ()>>,
)
    ensures
        announced is Some && announced->Some_0 is Err ==> removal(old_entry, announced) == Err::<
            Option<OneTimePasscode>,
            Error,
        >(Error::ServerShutdown),
        announced is None || announced->Some_0 is Ok ==> removal(old_entry, announced) == Ok::<
            Option<OneTimePasscode>,
            Error,
        >(old_entry),
{
}

/// A request for a shutdown is put on record, takes no passcode away, and hands
/// out a receiver exactly if a passcode is pending: the one that the stored
/// signal belongs to.
pub proof fn law_shutdown_request_takes_nothing_away(
    before: OtpState,
    after: OtpState,
    wait: Option<oneshot::Receiver<()>>,
)
    requires
        shut(before, after, wait),
    ensures
        after.closing,
        after.duration == before.duration,
        forall|address: Seq<char>| #[trigger]
            after.pending.contains_key(address) <==> before.pending.contains_key(address),
        forall|address: Seq<char>| #[trigger]
            after.pending.contains_key(address) ==> after.pending[address]
                == before.pending[address],
        wait is Some <==> exists|address: Seq<char>| #[trigger]
            before.pending.contains_key(address),
        wait is Some ==> after.signal is Some && crate::outside::paired(
            after.signal->Some_0,
            wait->Some_0,
        ),
        wait is None ==> after.signal == before.signal,
{
    if forall|address: Seq<char>| !#[trigger] before.pending.contains_key(address) {
        assert(before.pending =~= Map::<Seq<char>, OneTimePasscode>::empty());
    }
}

/// A stop counts as requested, and a receiver as told, only by a call that did
/// it.
pub proof fn law_effects_come_of_calls(handle: AbortHandle, receiver: oneshot::Receiver<()>)
    ensures
        crate::outside::stop_requested(handle) <==> exists|after: AbortHandle|
            crate::outside::stop_request(handle, after),
        crate::outside::told(receiver) <==> exists|sender: oneshot::Sender<()>| #[trigger]
            crate::outside::paired(sender, receiver) && crate::outside::came_of(
                sender,
                Ok::<(), ()>(()),
            ),
{
}

/// Something that happens to the passcodes without anybody requesting a
/// shutdown.
pub enum Event {
    /// A passcode is sent to an address.
    Sent(Seq<char>, OneTimePasscode),
    /// The passcode of an address is used or times out.
    Gone(Seq<char>),
}

/// The state after some events, one after the other.
pub open spec fn after_events(state: OtpState, events: Seq<Event>) -> OtpState
    decreases events.len(),
{
    if events.len() == 0 {
        state
    } else {
        let before = after_events(state, events.drop_last());
        match events.last() {
            Event::Sent(address, passcode) => before.inserted(address, passcode),
            Event::Gone(address) => before.removed(address),
        }
    }
}

/// Only a request puts a shutdown on record: whatever passcodes are sent, used
/// or time out, in whatever order, no shutdown is on record that was not before,
/// none is forgotten, and the duration stays.
pub proof fn law_only_a_request_starts_a_shutdown(state: OtpState, events: Seq<Event>)
    ensures
        after_events(state, events).closing == state.closing,
        after_events(state, events).duration == state.duration,
    decreases events.len(),
{
    if events.len() > 0 {
        law_only_a_request_starts_a_shutdown(state, events.drop_last());
    }
}

/// A passcode stays pending through whatever happens to other addresses.
pub proof fn law_passcode_stays_pending(
    state: OtpState,
    events: Seq<Event>,
    address: Seq<char>,
)
    requires
        forall|i: int|
            0 <= i < events.len() ==> match #[trigger] events[i] {
                Event::Sent(other, _) => other != address,
                Event::Gone(other) => other != address,
            },
    ensures
        after_events(state, events).pending.contains_key(address) <==> state.pending.contains_key(
            address,
        ),
        state.pending.contains_key(address) ==> after_events(state, events).pending[address]
            == state.pending[address],
    decreases events.len(),
{
    if events.len() > 0 {
        let fewer = events.drop_last();
        assert forall|i: int| 0 <= i < fewer.len() implies match #[trigger] fewer[i] {
            Event::Sent(other, _) => other != address,
            Event::Gone(other) => other != address,
        } by {
            assert(fewer[i] == events[i]);
        }
        law_passcode_stays_pending(state, fewer, address);
        assert(events.last() == events[events.len() - 1]);
    }
}

/// A new database has no passcode and no shutdown on record, and keeps the
/// duration that it is given.
pub proof fn law_new_database_is_open_and_empty(duration: Duration, db: OtpDb, address: Seq<char>)
    requires
        call_ensures(OtpDb::new, (duration,), db),
    ensures
        db.wf(),
        !db@.pending.contains_key(address),
        !db@.closing,
        db@.signal is None,
        db@.duration == duration,
{
}

/// A passcode has the code that it is made for and the timer that was started
/// for its address and duration; ending it stops that timer and tells whether
/// the code is the same.
pub proof fn law_passcode_is_made_and_ended<F: FnOnce(Address, Duration) -> AbortHandle>(
    email: Address,
    code: u16,
    duration: Duration,
    start_timer: F,
    passcode: OneTimePasscode,
    ended: &mut OneTimePasscode,
    guess: u16,
    matched: bool,
)
    requires
        call_ensures(OneTimePasscode::new::<F>, (email, code, duration, start_timer), passcode),
        *ended == passcode,
        call_ensures(OneTimePasscode::end, (ended, guess), matched),
    ensures
        start_timer.ensures((email, duration), passcode.handle),
        matched <==> guess == code,
        crate::outside::stop_request(passcode.handle, final(ended).handle),
{
}

/// An insertion succeeds exactly if no shutdown is on record. Then the address
/// has the new code, under a timer that was started for it, and what it had
/// before comes back. Nothing else changes, and a refused insertion changes
/// nothing at all.
pub proof fn law_insertion_is_refused_only_during_a_shutdown<
    F: FnOnce(Address, Duration) -> AbortHandle,
>(
    db: &mut OtpDb,
    address: Address,
    code: u16,
    start_timer: F,
    result: Result<Option<OneTimePasscode>, Error>,
    other: Seq<char>,
)
    requires
        call_ensures(OtpDb::insert::<F>, (db, address, code, start_timer), result),
    ensures
        result is Ok <==> !old(db)@.closing,
        result is Err ==> result == Err::<Option<OneTimePasscode>, Error>(Error::ServerShutdown)
            && final(db)@ == old(db)@,
        result is Ok ==> {
            &&& final(db)@.pending.contains_key(address@)
            &&& final(db)@.pending[address@].code == code
            &&& start_timer.ensures(
                (address, old(db)@.duration),
                final(db)@.pending[address@].handle,
            )
            &&& result->Ok_0 is Some <==> old(db)@.pending.contains_key(address@)
            &&& result->Ok_0 is Some ==> result->Ok_0->Some_0 == old(db)@.pending[address@]
            &&& other != address@ ==> (final(db)@.pending.contains_key(other)
                <==> old(db)@.pending.contains_key(other))
            &&& other != address@ && old(db)@.pending.contains_key(other)
                ==> final(db)@.pending[other] == old(db)@.pending[other]
        },
        final(db)@.closing == old(db)@.closing,
        final(db)@.signal == old(db)@.signal,
        final(db)@.duration == old(db)@.duration,
{
}

/// A removal takes out just the passcode of its address and hands it out. It
/// fails only where it took out the last one that a shutdown waited for and
/// nobody was there to hear it.
pub proof fn law_removal_hands_out_what_was_pending(
    db: &mut OtpDb,
    address: Address,
    result: Result<Option<OneTimePasscode>, Error>,
)
    requires
        call_ensures(OtpDb::remove, (db, &address), result),
    ensures
        final(db)@.pending == old(db)@.pending.remove(address@),
        final(db)@.closing == old(db)@.closing,
        final(db)@.duration == old(db)@.duration,
        result is Ok ==> (result->Ok_0 is Some <==> old(db)@.pending.contains_key(address@)),
        result is Ok && result->Ok_0 is Some ==> result->Ok_0->Some_0
            == old(db)@.pending[address@],
        result is Err ==> {
            &&& result == Err::<Option<OneTimePasscode>, Error>(Error::ServerShutdown)
            &&& old(db)@.signal is Some
            &&& forall|other: Seq<char>| #[trigger]
                old(db)@.pending.contains_key(other) ==> other == address@
            &&& exists|outcome: Result<(), ()>| #[trigger]
                crate::outside::came_of(old(db)@.signal->Some_0, outcome) && outcome is Err
        },
        old(db)@.signal is Some && final(db)@.signal is None ==> exists|outcome: Result<(), ()>|
            #[trigger]
            crate::outside::came_of(old(db)@.signal->Some_0, outcome) && (outcome is Ok <==> result
                is Ok),
        final(db)@.signal is Some ==> final(db)@.signal == old(db)@.signal,
{
    let announced = choose|announced: Option<Result<(), ()>>|
        {
            &&& announcement(old(db)@, address@, announced)
            &&& result == #[trigger] removal(old(db)@.entry(address@), announced)
        };
    law_announcement_is_made_for_the_last_passcode(old(db)@, address@, announced);
    law_removal_fails_only_unheard(old(db)@.entry(address@), announced);
    if announced is Some {
        assert(crate::outside::came_of(old(db)@.signal->Some_0, announced->Some_0));
    }
}

/// A request for a shutdown is on record afterwards, takes no passcode away, and
/// hands out the receiver of the stored signal exactly if a passcode is pending.
pub proof fn law_shutdown_call_waits_for_what_is_pending(
    db: &mut OtpDb,
    wait: Option<oneshot::Receiver<()>>,
)
    requires
        call_ensures(OtpDb::shutdown, (db,), wait),
    ensures
        final(db)@.closing,
        final(db)@.pending == old(db)@.pending,
        final(db)@.duration == old(db)@.duration,
        wait is Some <==> exists|address: Seq<char>| #[trigger]
            old(db)@.pending.contains_key(address),
        wait is Some ==> final(db)@.signal is Some && crate::outside::paired(
            final(db)@.signal->Some_0,
            wait->Some_0,
        ),
        wait is None ==> final(db)@.signal == old(db)@.signal,
{
    law_shutdown_request_takes_nothing_away(old(db)@, final(db)@, wait);
}

/// What was pending is handed out unless an announcement went unheard.
pub proof fn law_removal_result_hands_out_what_was_pending(
    old_entry: Option<OneTimePasscode>,
    announced: Option<Result<(), ()>>,
    result: Result<Option<OneTimePasscode>, Error>,
)
    requires
        call_ensures(removal_result, (old_entry, announced), result),
    ensures
        result is Err <==> announced is Some && announced->Some_0 is Err,
        result is Ok ==> result->Ok_0 == old_entry,
        result is Err ==> result->Err_0 == Error::ServerShutdown,
{
}

} // verus!
