//! The device, the sessions on it, and what they take from `std::sync`.

use crate::model::{DeviceView, Event};
use crate::state::DeviceState;
use std::sync::{Condvar, Mutex, MutexGuard};
use std::time::{Duration, Instant};
use vstd::prelude::*;

verus! {

/// `std::sync::Mutex`, opaque.
#[verifier::external_type_specification]
#[verifier::external_body]
#[verifier::reject_recursive_types(T)]
pub struct ExMutex<T: ?Sized>(Mutex<T>);

/// `std::sync::MutexGuard`, opaque.
#[verifier::external_type_specification]
#[verifier::external_body]
#[verifier::reject_recursive_types(T)]
pub struct ExMutexGuard<'a, T: ?Sized + 'a>(MutexGuard<'a, T>);

/// `std::sync::Condvar`, opaque.
#[verifier::external_type_specification]
#[verifier::external_body]
pub struct ExCondvar(Condvar);

/// `std::time::Instant`, opaque.
#[verifier::external_type_specification]
#[verifier::external_body]
pub struct ExInstant(Instant);

/// The value that a mutex guard gives access to.
pub uninterp spec fn held(guard: MutexGuard<'_, DeviceState>) -> DeviceState;

/// What became of a mutex guard: what it held when the mutex was locked, and what was asked of the
/// condition variable under it since.
pub uninterp spec fn asked(guard: MutexGuard<'_, DeviceState>) -> Seq<Event>;

/// The mutex that a guard has locked.
pub uninterp spec fn home(guard: MutexGuard<'_, DeviceState>) -> Mutex<DeviceState>;

/// The value that a mutex was made with. What threads have written to the mutex since does not
/// change it.
pub uninterp spec fn made_with(mutex: Mutex<DeviceState>) -> DeviceState;

/// `std::sync::Mutex::new`: the mutex is made with the value. What a thread finds in it later is
/// what the last thread left, so nothing is said of that.
#[verifier::external_body]
fn new_mutex(state: DeviceState) -> (mutex: Mutex<DeviceState>)
    ensures
        made_with(mutex) == state,
{
    Mutex::new(state)
}

/// `std::sync::Condvar::new`.
pub assume_specification[ Condvar::new ]() -> (wakeups: Condvar)
;

/// `std::time::Instant::now`. The result is the time: nothing is said of it.
pub assume_specification[ Instant::now ]() -> (now: Instant)
;

/// How many nanoseconds a duration spans, as `std::time::Duration::as_nanos` counts them.
pub uninterp spec fn nanos(duration: Duration) -> nat;

/// `std::time::Duration::saturating_sub`: the difference, or zero where it would be negative.
pub assume_specification[ Duration::saturating_sub ](limit: Duration, spent: Duration) -> (rest:
    Duration)
    ensures
        nanos(rest) == if nanos(spent) <= nanos(limit) {
            nanos(limit) - nanos(spent)
        } else {
            0
        },
;

/// `std::sync::Mutex::lock`. Blocks until no other thread has the mutex. What the guard holds
/// is what the last thread left: nothing is said of it, but that it is recorded. A mutex in which
/// a thread panicked is locked all the same. A thread that has the mutex already does not get it
/// a second time: the call then never returns, or panics, which no condition on the arguments can
/// rule out.
#[verifier::external_body]
fn lock<'a>(mutex: &'a Mutex<DeviceState>) -> (guard: MutexGuard<'a, DeviceState>)
    ensures
        home(guard) == *mutex,
        asked(guard) == seq![Event::Lock { left: held(guard)@ }],
{
    match mutex.lock() {
        Ok(guard) => guard,
        Err(poisoned) => poisoned.into_inner(),
    }
}

/// `std::sync::MutexGuard::deref`: the value that the guard holds.
#[verifier::external_body]
fn contents<'s, 'a>(slot: &'s Option<MutexGuard<'a, DeviceState>>) -> (state: &'s DeviceState)
    requires
        *slot is Some,
    ensures
        *state == held(slot->0),
{
    &**slot.as_ref().unwrap()
}

/// `std::sync::MutexGuard::deref_mut`: the value that the guard holds. What is written to it,
/// the guard holds from then on.
#[verifier::external_body]
fn contents_mut<'s, 'a>(slot: &'s mut Option<MutexGuard<'a, DeviceState>>) -> (state:
    &'s mut DeviceState)
    requires
        *old(slot) is Some,
    ensures
        *state == held(old(slot)->0),
        *final(slot) is Some,
        home(final(slot)->0) == home(old(slot)->0),
        held(final(slot)->0) == *final(state),
        asked(final(slot)->0) == asked(old(slot)->0),
    no_unwind
{
    &mut **slot.as_mut().unwrap()
}

/// `std::sync::Condvar::notify_all`, on the condition variable of a device: wakes every thread
/// that sleeps on it. It leaves what the mutex holds as it is. The guard, which has to be one on
/// the mutex of the device, is passed to say under which one the call was made.
#[verifier::external_body]
#[allow(unused_variables)]
fn wake_all<'a>(device: &Device, slot: &mut Option<MutexGuard<'a, DeviceState>>)
    requires
        *old(slot) is Some,
        home(old(slot)->0) == device.state,
    ensures
        *final(slot) is Some,
        home(final(slot)->0) == device.state,
        held(final(slot)->0) == held(old(slot)->0),
        asked(final(slot)->0) == asked(old(slot)->0).push(Event::Notify),
    no_unwind
{
    device.wakeups.notify_all();
}

/// `std::sync::Condvar::wait_while`, on the condition variable of a device: gives the mutex up
/// and sleeps until a state is found in which the fence is signaled. What other threads do
/// meanwhile is their affair: nothing more is said of that state, but that it is the one which
/// is recorded. The call may panic for a condition variable that is used with two mutexes, so the
/// guard has to be one on the mutex of the same device. Where a thread panicked in the mutex the
/// call returns early, and is made again.
#[verifier::external_body]
fn sleep<'a>(device: &Device, slot: &mut Option<MutexGuard<'a, DeviceState>>, id: u64)
    requires
        *old(slot) is Some,
        home(old(slot)->0) == device.state,
    ensures
        *final(slot) is Some,
        home(final(slot)->0) == device.state,
        held(final(slot)->0)@.is_signaled(id),
        asked(final(slot)->0) == asked(old(slot)->0).push(
            Event::Sleep { id, found: held(final(slot)->0)@ },
        ),
    no_unwind
{
    while let Some(guard) = slot.take() {
        match device.wakeups.wait_while(guard, |state| state.is_unsignaled(id)) {
            Ok(guard) => { *slot = Some(guard); return; },
            Err(poisoned) => *slot = Some(poisoned.into_inner()),
        }
    }
}

/// `std::sync::Condvar::wait_timeout`, on the condition variable of a device: gives the mutex up
/// and sleeps until something wakes the thread, for `limit` at most. The result says whether it
/// was the limit, and what `std::time::Instant::elapsed` then gives for `since`: the clock is read
/// once the thread has the mutex again, before anything else is done under the guard. What woke
/// the thread rests on time and on the other threads, and is not stated; nor is how long it took.
/// What is found then is recorded, with the reading. Whether a thread panicked in the mutex
/// meanwhile makes no difference. As for the guard, see [`sleep`].
#[verifier::external_body]
fn nap<'a>(
    device: &Device,
    slot: &mut Option<MutexGuard<'a, DeviceState>>,
    limit: Duration,
    since: &Instant,
) -> (woken: (bool, Duration))
    requires
        *old(slot) is Some,
        home(old(slot)->0) == device.state,
    ensures
        *final(slot) is Some,
        home(final(slot)->0) == device.state,
        asked(final(slot)->0) == asked(old(slot)->0).push(
            Event::Nap {
                limit,
                seen: held(final(slot)->0)@,
                over: woken.0,
                since: *since,
                spent: woken.1,
            },
        ),
    no_unwind
{
    let guard = slot.take().unwrap();
    let woken = match device.wakeups.wait_timeout(guard, limit) {
        Ok(woken) => woken,
        Err(poisoned) => poisoned.into_inner(),
    };
    *slot = Some(woken.0);
    (woken.1.timed_out(), since.elapsed())
}

/// Where fences live. Threads share a device by reference.
pub struct Device {
    state: Mutex<DeviceState>,
    wakeups: Condvar,
}

/// A thread's time on a device. No other thread has a session on the device meanwhile, but for
/// the time that this one spends asleep waiting for a fence.
pub struct Session<'a> {
    slot: Option<MutexGuard<'a, DeviceState>>,
    device: &'a Device,
}

impl Device {
    /// What the device held when it was made, before any thread had a session on it.
    pub closed spec fn initial(self) -> DeviceView {
        made_with(self.state)@
    }

    /// Create a device without anything on it.
    pub fn new() -> (device: Device)
        ensures
            device.initial() == DeviceView::empty(),
    {
        Device { state: new_mutex(DeviceState::new()), wakeups: Condvar::new() }
    }

    /// Open a session. Blocks while another thread has one open. A thread must close its session
    /// before it opens another one on the same device.
    pub fn open(&self) -> (session: Session<'_>)
        ensures
            session.log() == seq![Event::Open { device: *self }, Event::Lock { left: session@ }],
            session@.numbers_fences(),
    {
        let guard = lock(&self.state);
        let session = Session { slot: Some(guard), device: self };
        assert(session.log() =~= seq![
            Event::Open { device: *self },
            Event::Lock { left: session@ },
        ]);
        session.state().show_numbers();
        session
    }
}

impl<'a> View for Session<'a> {
    type V = DeviceView;

    closed spec fn view(&self) -> DeviceView {
        held(self.slot->0)@
    }
}

impl<'a> Session<'a> {
    #[verifier::type_invariant]
    spec fn has_device(self) -> bool {
        self.slot is Some && home(self.slot->0) == self.device.state
    }

    /// What the session has done so far that concerns other threads.
    pub closed spec fn log(self) -> Seq<Event> {
        seq![Event::Open { device: *self.device }] + asked(self.slot->0)
    }

    pub(crate) fn state(&self) -> (state: &DeviceState)
        ensures
            state@ == self@,
    {
        proof {
            use_type_invariant(self);
        }
        contents(&self.slot)
    }

    pub(crate) fn state_mut(&mut self) -> (state: &mut DeviceState)
        ensures
            state@ == old(self)@,
            old(self)@.numbers_fences(),
            final(self)@ == final(state)@,
            final(self).log() == old(self).log(),
    {
        self.state().show_numbers();
        proof {
            use_type_invariant(&*self);
        }
        contents_mut(&mut self.slot)
    }

    /// Marks a fence signaled and wakes every sleeping thread.
    pub(crate) fn signal(&mut self, id: u64, at: Instant)
        ensures
            final(self)@ == old(self)@.signal(id, at),
            final(self).log() == old(self).log().push(Event::Notify),
    {
        self.state_mut().signal(id, at);
        proof {
            use_type_invariant(&*self);
        }
        wake_all(self.device, &mut self.slot);
    }

    /// Sleeps until a fence is signaled, or until `limit` is over. Whenever something else wakes
    /// the thread, it sleeps again for the rest of the limit.
    fn wait_within(&mut self, id: u64, limit: Duration)
        requires
            !old(self)@.is_signaled(id),
        ensures
            exists|naps: Seq<Event>|
                {
                    &&& #[trigger] Event::are_one_wait(naps, id, limit)
                    &&& final(self)@ == naps.last()->seen
                    &&& final(self).log() == old(self).log() + naps
                },
    {
        let since = Instant::now();
        let mut rest = limit;
        let mut over = false;
        let mut count: u64 = 0;
        let ghost mut naps: Seq<Event> = Seq::empty();
        assert(old(self).log() + naps =~= old(self).log());
        while !over && count < u64::MAX && self.state().is_unsignaled(id)
            invariant
                call_ensures(Instant::now, (), since),
                !old(self)@.is_signaled(id),
                naps.len() == count,
                count == 0 ==> rest == limit && !over && self@ == old(self)@,
                count > 0 ==> {
                    &&& Event::are_early(naps.drop_last(), id)
                    &&& Event::is_rest(limit, naps.last()->spent, rest)
                    &&& Event::have_limit(naps, limit, since)
                    &&& self@ == naps.last()->seen
                    &&& over == naps.last()->over
                },
                self.log() == old(self).log() + naps,
            decreases u64::MAX - count,
        {
            proof {
                use_type_invariant(&*self);
            }
            let ghost before = naps;
            let ghost before_log = self.log();
            let (limit_over, spent) = nap(self.device, &mut self.slot, rest, &since);
            over = limit_over;
            proof {
                let last = Event::Nap { limit: rest, seen: self@, over, since, spent };
                naps = naps.push(last);
                assert(self.log() =~= before_log.push(last));
                assert(before_log.push(last) =~= old(self).log() + naps);
                assert(naps.drop_last() =~= before);
                assert forall|i: int| 0 <= i < before.len() implies {
                    &&& (#[trigger] before[i]) is Nap
                    &&& !before[i]->over
                    &&& !before[i]->seen.is_signaled(id)
                } by {
                    if i < before.len() - 1 {
                        assert(before.drop_last()[i] == before[i]);
                    }
                }
            }
            rest = limit.saturating_sub(spent);
            count = count + 1;
        }
        assert(Event::are_one_wait(naps, id, limit));
    }

    /// Waits until a fence is signaled, or until `limit` is over, and returns whether the fence
    /// is signaled.
    pub(crate) fn wait(&mut self, id: u64, limit: Option<Duration>) -> (reached: bool)
        ensures
            reached == final(self)@.is_signaled(id),
            old(self)@.waits(old(self).log(), id, limit, final(self)@, final(self).log()),
    {
        if self.state().is_unsignaled(id) {
            match limit {
                Some(limit) => self.wait_within(id, limit),
                None => {
                    proof {
                        use_type_invariant(&*self);
                    }
                    sleep(self.device, &mut self.slot, id);
                },
            }
        }
        self.state().show_numbers();
        self.state().is_signaled(id)
    }
}

} // verus!
