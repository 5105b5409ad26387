//! A single-threaded driver for components: it keeps every component's last
//! output, knows when each timed component is due next, and decides, one step
//! at a time, which component to update or when to publish the joined
//! outputs. Running a component and reading the clock are left to the caller,
//! which hands the results back.
use vstd::prelude::*;
use crate::schedule::{Schedule, max_nanos, next_delay};
use crate::status::spaced;
use crate::text::push_char;
use vstd::string::StringExecFns;

verus! {

/// A component that is updated periodically: the position of its item, its
/// interval, and the time of its next update in nanoseconds since the UNIX
/// epoch.
#[derive(Clone, Copy)]
struct Timed {
    index: usize,
    interval: Schedule,
    next_update: u128,
}

/// A component (absent for one that only produced its output once) and its
/// last output.
struct Item<C> {
    component: Option<C>,
    output: String,
}

/// Drives a list of components; see `poll` and `complete`.
pub struct Executer<C> {
    timed: Vec<Timed>,
    items: Vec<Item<C>>,
    changed: bool,
}

/// What the caller should do next.
pub enum Step<C> {
    /// Update this component, appending to its output, then hand both back
    /// with `complete(slot, ..)`.
    Update { slot: usize, index: usize, component: C, output: String },
    /// Show this text: every output followed by a space.
    Publish(String),
    /// Nothing is due; yield and poll again.
    Wait,
}

/// The slot of the entry that is due first: the smallest next-update time,
/// and among equal ones the first.
pub open spec fn is_earliest(s: Seq<(nat, nat, nat)>, k: int) -> bool {
    &&& 0 <= k < s.len()
    &&& forall|j: int| 0 <= j < s.len() ==> s[k].2 <= #[trigger] s[j].2
    &&& forall|j: int| 0 <= j < k ==> s[k].2 < #[trigger] s[j].2
}

/// Every timed entry refers to an item that holds its component.
pub open spec fn ready_views<C>(s: Seq<(nat, nat, nat)>, components: Seq<Option<C>>) -> bool {
    forall|k: int|
        0 <= k < s.len() ==> #[trigger] s[k].0 < components.len() && components[s[k].0 as int]
            is Some
}

/// Some entry is due at `now`.
pub open spec fn is_due(s: Seq<(nat, nat, nat)>, now: nat) -> bool {
    exists|j: int| 0 <= j < s.len() && #[trigger] s[j].2 <= now
}

/// The first multiple of `interval` strictly after `now`.
pub open spec fn next_multiple_after(now: nat, interval: nat) -> nat {
    now + 1 + next_delay(now + 1, interval)
}

/// The time of the next update of an entry rescheduled at `now`, in
/// nanoseconds since the UNIX epoch: the first multiple of the interval after
/// `now`, with its whole seconds kept modulo 2^64.
pub open spec fn next_update_after(now: nat, interval: nat) -> nat {
    let next = next_multiple_after(now, interval);
    ((next / 1_000_000_000) % 0x1_0000_0000_0000_0000) * 1_000_000_000 + next % 1_000_000_000
}

/// Rescheduling at `now` is possible: the interval is not zero, the next
/// multiple fits in a `u128`, and its seconds (kept modulo 2^64) fit in an
/// `i64`.
pub open spec fn can_reschedule(now: nat, interval: nat) -> bool {
    &&& interval > 0
    &&& next_multiple_after(now, interval) <= u128::MAX
    &&& (next_multiple_after(now, interval) / 1_000_000_000) % 0x1_0000_0000_0000_0000
        <= i64::MAX
}

impl<C> Executer<C> {
    /// The timed entries: position of the item, interval in nanoseconds,
    /// time of the next update in nanoseconds since the UNIX epoch.
    pub closed spec fn schedule(&self) -> Seq<(nat, nat, nat)> {
        self.timed@.map_values(|t: Timed| (t.index as nat, t.interval@, t.next_update as nat))
    }

    /// The last output of every item, in the order they were added.
    pub closed spec fn outputs(&self) -> Seq<Seq<char>> {
        self.items@.map_values(|it: Item<C>| it.output@)
    }

    /// The component held for every item.
    pub closed spec fn components(&self) -> Seq<Option<C>> {
        self.items@.map_values(|it: Item<C>| it.component)
    }

    /// Some output changed since the outputs were last published.
    pub closed spec fn changed(&self) -> bool {
        self.changed
    }

    /// Every timed entry refers to an item.
    #[verifier::type_invariant]
    closed spec fn wf(&self) -> bool {
        forall|k: int| 0 <= k < self.timed@.len() ==> #[trigger] self.timed@[k].index
            < self.items@.len()
    }

    /// Every timed entry's component is in place: no update is in progress.
    pub open spec fn ready(&self) -> bool {
        ready_views(self.schedule(), self.components())
    }

    /// An executer with no components.
    pub fn new() -> (r: Self)
        ensures
            r.schedule() == Seq::<(nat, nat, nat)>::empty(),
            r.outputs() == Seq::<Seq<char>>::empty(),
            r.components() == Seq::<Option<C>>::empty(),
            r.outputs().len() == r.components().len(),
            !r.changed(),
    {
        let r = Executer { timed: Vec::new(), items: Vec::new(), changed: false };
        assert(r.schedule() =~= Seq::<(nat, nat, nat)>::empty());
        assert(r.outputs() =~= Seq::<Seq<char>>::empty());
        assert(r.components() =~= Seq::<Option<C>>::empty());
        r
    }

    /// Appends an item and returns its position.
    fn insert(&mut self, component: Option<C>, output: String) -> (index: usize)
        ensures
            index == old(self).outputs().len(),
            final(self).outputs() == old(self).outputs().push(output@),
            final(self).components() == old(self).components().push(component),
            final(self).schedule() == old(self).schedule(),
            final(self).changed() == old(self).changed(),
    {
        proof {
            use_type_invariant(&*self);
        }
        // Both lists are moved out while the item is added, so that the
        // executer is consistent at every step.
        let mut timed: Vec<Timed> = Vec::new();
        std::mem::swap(&mut self.timed, &mut timed);
        let mut items: Vec<Item<C>> = Vec::new();
        std::mem::swap(&mut self.items, &mut items);
        let index = items.len();
        items.push(Item { component, output });
        self.items = items;
        self.timed = timed;
        assert(self.outputs() =~= old(self).outputs().push(output@));
        assert(self.components() =~= old(self).components().push(component));
        assert(self.schedule() =~= old(self).schedule());
        index
    }

    /// Adds a component to be updated every `interval`, first at `now`
    /// (nanoseconds since the UNIX epoch); its output starts empty.
    pub fn add_timed(&mut self, interval: Schedule, component: C, now: u128) -> (r: &mut Self)
        ensures
            r.schedule() == old(self).schedule().push(
                (old(self).outputs().len(), interval@, now as nat),
            ),
            r.outputs() == old(self).outputs().push(Seq::<char>::empty()),
            r.components() == old(self).components().push(Some(component)),
            r.changed() == old(self).changed(),
            old(self).ready() ==> r.ready(),
            r.outputs().len() == r.components().len(),
            *final(self) == *final(r),
    {
        let index = self.insert(Some(component), String::new());
        proof {
            use_type_invariant(&*self);
        }
        assert(self.outputs().len() == self.items@.len());
        assert(old(self).outputs().len() == old(self).items@.len());
        let ghost before = self.schedule();
        let ghost before_timed = self.timed@;
        let mut timed: Vec<Timed> = Vec::new();
        std::mem::swap(&mut self.timed, &mut timed);
        timed.push(Timed { index, interval, next_update: now });
        assert forall|k: int| 0 <= k < timed@.len() implies #[trigger] timed@[k].index
            < self.items@.len() by {
            if k < before_timed.len() {
                assert(timed@[k] == before_timed[k]);
            } else {
                assert(timed@[k].index == index);
            }
        }
        self.timed = timed;
        assert(self.schedule() =~= before.push((index as nat, interval@, now as nat)));
        self
    }

    /// Adds a component that only updates once, by the output it produced.
    pub fn add_static(&mut self, output: String) -> (r: &mut Self)
        ensures
            r.schedule() == old(self).schedule(),
            r.outputs() == old(self).outputs().push(output@),
            r.components() == old(self).components().push(None),
            r.changed() == old(self).changed(),
            old(self).ready() ==> r.ready(),
            r.outputs().len() == r.components().len(),
            *final(self) == *final(r),
    {
        self.insert(None, output);
        self
    }

    /// The slot of the timed entry that is due first.
    fn earliest_slot(&self) -> (k: usize)
        requires
            self.timed@.len() > 0,
        ensures
            is_earliest(self.schedule(), k as int),
    {
        let mut best: usize = 0;
        let mut i: usize = 1;
        while i < self.timed.len()
            invariant
                1 <= i <= self.timed@.len(),
                best < i,
                forall|j: int|
                    0 <= j < i ==> self.timed@[best as int].next_update
                        <= #[trigger] self.timed@[j].next_update,
                forall|j: int|
                    0 <= j < best ==> self.timed@[best as int].next_update
                        < #[trigger] self.timed@[j].next_update,
            decreases self.timed@.len() - i,
        {
            if self.timed[i].next_update < self.timed[best].next_update {
                best = i;
            }
            i = i + 1;
        }
        assert forall|j: int| 0 <= j < self.schedule().len() implies self.schedule()[best as int].2
            <= #[trigger] self.schedule()[j].2 by {
            assert(self.timed@[best as int].next_update <= self.timed@[j].next_update);
        }
        assert forall|j: int| 0 <= j < best implies self.schedule()[best as int].2
            < #[trigger] self.schedule()[j].2 by {
            assert(self.timed@[best as int].next_update < self.timed@[j].next_update);
        }
        best
    }

    /// Every output followed by one space.
    fn spaced_text(&self) -> (r: String)
        ensures
            r@ == spaced(self.outputs()),
    {
        let mut r = String::new();
        let mut i: usize = 0;
        while i < self.items.len()
            invariant
                i <= self.items@.len(),
                r@ == spaced(self.outputs().take(i as int)),
            decreases self.items@.len() - i,
        {
            r.append(self.items[i].output.as_str());
            push_char(&mut r, ' ');
            assert(self.outputs().take(i + 1).drop_last() == self.outputs().take(i as int));
            i = i + 1;
        }
        assert(self.outputs().take(i as int) == self.outputs());
        r
    }

    /// One step of running the components at time `now` (nanoseconds since
    /// the UNIX epoch).
    ///
    /// When a timed component is due, the one due first is handed out with
    /// its output, to be updated and handed back with `complete`. Otherwise,
    /// if some output changed since the last publication, every output
    /// followed by a space is handed out to be shown. Otherwise there is
    /// nothing to do.
    pub fn poll(&mut self, now: u128) -> (step: Step<C>)
        requires
            old(self).ready(),
        ensures
            final(self).schedule() == old(self).schedule(),
            final(self).outputs().len() == final(self).components().len(),
            (step is Update) <==> is_due(old(self).schedule(), now as nat),
            !(step is Update) ==> final(self).ready(),
            match step {
                Step::Update { slot, index, component, output } => {
                    &&& is_earliest(old(self).schedule(), slot as int)
                    &&& old(self).schedule()[slot as int].2 <= now
                    &&& index == old(self).schedule()[slot as int].0
                    &&& old(self).components()[index as int] == Some(component)
                    &&& output@ == old(self).outputs()[index as int]
                    &&& final(self).components() == old(self).components().update(
                        index as int,
                        None,
                    )
                    &&& final(self).outputs() == old(self).outputs().update(
                        index as int,
                        Seq::<char>::empty(),
                    )
                    &&& final(self).changed() == old(self).changed()
                },
                Step::Publish(text) => {
                    &&& old(self).changed()
                    &&& text@ == spaced(old(self).outputs())
                    &&& final(self).outputs() == old(self).outputs()
                    &&& final(self).components() == old(self).components()
                    &&& !final(self).changed()
                },
                Step::Wait => {
                    &&& !old(self).changed()
                    &&& final(self).outputs() == old(self).outputs()
                    &&& final(self).components() == old(self).components()
                    &&& !final(self).changed()
                },
            },
    {
        proof {
            use_type_invariant(&*self);
        }
        if self.timed.len() > 0 {
            let k = self.earliest_slot();
            if self.timed[k].next_update <= now {
                let index = self.timed[k].index;
                assert(self.schedule()[k as int].0 == index);
                assert(old(self).schedule()[k as int].2 <= now);
                let ghost before = *self;
                let mut output = String::new();
                let mut component: Option<C> = None;
                {
                    let item = &mut self.items[index];
                    std::mem::swap(&mut item.output, &mut output);
                    std::mem::swap(&mut item.component, &mut component);
                }
                assert(self.items@ == before.items@.update(
                    index as int,
                    Item { component: None, output: self.items@[index as int].output },
                ));
                assert(self.components() =~= before.components().update(index as int, None));
                assert(self.outputs() =~= before.outputs().update(
                    index as int,
                    Seq::<char>::empty(),
                ));
                assert(self.schedule() =~= before.schedule());
                match component {
                    Some(component) => {
                        return Step::Update { slot: k, index, component, output };
                    },
                    None => {
                        assert(false);
                        return Step::Wait;
                    },
                }
            } else {
                assert forall|j: int| 0 <= j < self.schedule().len() implies !(
                #[trigger] self.schedule()[j].2 <= now) by {}
            }
        }
        if self.changed {
            let text = self.spaced_text();
            self.changed = false;
            Step::Publish(text)
        } else {
            Step::Wait
        }
    }

    /// The entry in `slot` can be rescheduled at `now`: see `complete`.
    pub fn can_complete(&self, slot: usize, now: u128) -> (r: bool)
        requires
            slot < self.schedule().len(),
        ensures
            r == can_reschedule(now as nat, self.schedule()[slot as int].1),
    {
        let interval = self.timed[slot].interval.as_nanos();
        if interval == 0 || now == u128::MAX {
            return false;
        }
        let x = now + 1;
        let rem = x % interval;
        let next: u128 = if rem == 0 {
            x
        } else {
            if x > u128::MAX - (interval - rem) {
                return false;
            }
            x + (interval - rem)
        };
        (next / 1_000_000_000) % 0x1_0000_0000_0000_0000 <= 0x7fff_ffff_ffff_ffff
    }

    /// Hands back the component and output of the update that `poll`
    /// handed out for `slot`, updated at time `now` (nanoseconds since the
    /// UNIX epoch), and schedules the entry's next update at the first
    /// multiple of its interval after `now`. For every time that the system
    /// clock can hold, that is strictly after `now` and at most one interval
    /// later.
    pub fn complete(&mut self, slot: usize, component: C, output: String, now: u128)
        requires
            slot < old(self).schedule().len(),
            old(self).components()[old(self).schedule()[slot as int].0 as int] is None,
            can_reschedule(now as nat, old(self).schedule()[slot as int].1),
        ensures
            ({
                let (index, interval, _) = old(self).schedule()[slot as int];
                &&& final(self).components() == old(self).components().update(
                    index as int,
                    Some(component),
                )
                &&& final(self).outputs() == old(self).outputs().update(index as int, output@)
                &&& final(self).schedule() == old(self).schedule().update(
                    slot as int,
                    (index, interval, next_update_after(now as nat, interval)),
                )
            }),
            final(self).changed(),
            final(self).outputs().len() == final(self).components().len(),
            now < 0x8000_0000_0000_0000 * 1_000_000_000 ==> now < final(self).schedule()[slot as int].2
                <= now + old(self).schedule()[slot as int].1,
    {
        proof {
            use_type_invariant(&*self);
        }
        let index = self.timed[slot].index;
        let interval = self.timed[slot].interval;
        let ghost before = *self;
        assert(index < self.items@.len());
        {
            let item = &mut self.items[index];
            item.component = Some(component);
            item.output = output;
        }
        let mut entry = self.timed[slot];
        entry.calc_next(now);
        assert(entry.index == index && index < self.items@.len());
        let mut timed: Vec<Timed> = Vec::new();
        std::mem::swap(&mut self.timed, &mut timed);
        timed[slot] = entry;
        assert forall|k: int| 0 <= k < timed@.len() implies #[trigger] timed@[k].index
            < self.items@.len() by {
            if k != slot {
                assert(timed@[k] == before.timed@[k]);
            }
        }
        self.timed = timed;
        self.changed = true;
        assert(self.components() =~= before.components().update(index as int, Some(component)));
        assert(self.outputs() =~= before.outputs().update(index as int, output@));
        assert(self.schedule() =~= before.schedule().update(
            slot as int,
            (index as nat, interval@, next_update_after(now as nat, interval@)),
        ));
    }
}

impl<C> Default for Executer<C> {
    fn default() -> (r: Self)
        ensures
            r.schedule() == Seq::<(nat, nat, nat)>::empty(),
            r.outputs() == Seq::<Seq<char>>::empty(),
            r.components() == Seq::<Option<C>>::empty(),
            r.outputs().len() == r.components().len(),
            !r.changed(),
    {
        Executer::new()
    }
}

/// A rescheduled entry is next due at the first multiple of its interval
/// that lies strictly after the time of the update, no more than one interval
/// later, as long as the seconds of that time fit in 64 bits.
pub proof fn law_reschedule_next_multiple(now: nat, interval: nat)
    requires
        interval > 0,
        next_multiple_after(now, interval) / 1_000_000_000 < 0x1_0000_0000_0000_0000,
    ensures
        next_update_after(now, interval) == next_multiple_after(now, interval),
        now < next_update_after(now, interval) <= now + interval,
        next_update_after(now, interval) % interval == 0,
        forall|t: nat|
            now < t < next_update_after(now, interval) ==> #[trigger] (t % interval) != 0,
{
    let next = next_multiple_after(now, interval);
    crate::schedule::law_delay_reaches_next_multiple((now + 1) as nat, interval);
    vstd::arithmetic::div_mod::lemma_fundamental_div_mod(next as int, 1_000_000_000);
    vstd::arithmetic::div_mod::lemma_small_mod(
        (next / 1_000_000_000) as nat,
        0x1_0000_0000_0000_0000,
    );
    assert forall|t: nat| now < t < next_update_after(now, interval) implies #[trigger] (t
        % interval) != 0 by {
        let d = (t - (now + 1)) as nat;
        assert(t == now + 1 + d);
    }
}

/// For every clock reading that `SystemTime` can hold (whole seconds up to
/// `i64::MAX`) and every interval that a `Schedule` can hold, the rescheduled
/// time is the first multiple of the interval strictly after the reading,
/// no more than one interval later: its whole seconds always fit in 64 bits.
pub proof fn law_reschedule_in_clock_range(now: nat, interval: nat)
    requires
        interval > 0,
        interval <= max_nanos(),
        now < 0x8000_0000_0000_0000 * 1_000_000_000,
    ensures
        next_update_after(now, interval) == next_multiple_after(now, interval),
        now < next_update_after(now, interval) <= now + interval,
        next_update_after(now, interval) % interval == 0,
        forall|t: nat|
            now < t < next_update_after(now, interval) ==> #[trigger] (t % interval) != 0,
{
    crate::schedule::law_delay_reaches_next_multiple((now + 1) as nat, interval);
    let next = next_multiple_after(now, interval);
    if now < interval {
        // The interval itself is a multiple after `now`, so the first one is
        // no later than it.
        if next > interval {
            let d = (interval - (now + 1)) as nat;
            assert(((now + 1 + d) as nat) % interval == 0) by {
                vstd::arithmetic::div_mod::lemma_mod_self_0(interval as int);
            }
            assert(((now + 1) as nat + d) % interval != 0);
        }
        assert(next <= max_nanos());
    } else {
        assert(next <= now + interval);
    }
    assert(next < 0x1_0000_0000_0000_0000 * 1_000_000_000);
    vstd::arithmetic::div_mod::lemma_fundamental_div_mod(next as int, 1_000_000_000);
    assert(next / 1_000_000_000 < 0x1_0000_0000_0000_0000) by (nonlinear_arith)
        requires
            next == 1_000_000_000 * (next / 1_000_000_000) + next % 1_000_000_000,
            0 <= next % 1_000_000_000,
            next < 0x1_0000_0000_0000_0000 * 1_000_000_000,
    ;
    law_reschedule_next_multiple(now, interval);
}

/// Handing back the component of an update makes the executer ready again,
/// whatever time the entry is rescheduled to.
pub proof fn law_hand_back_ready<C>(
    s: Seq<(nat, nat, nat)>,
    components: Seq<Option<C>>,
    slot: int,
    component: C,
    next: nat,
)
    requires
        ready_views(s, components),
        0 <= slot < s.len(),
    ensures
        ready_views(
            s.update(slot, (s[slot].0, s[slot].1, next)),
            components.update(s[slot].0 as int, None).update(s[slot].0 as int, Some(component)),
        ),
{
    let s2 = s.update(slot, (s[slot].0, s[slot].1, next));
    let c2 = components.update(s[slot].0 as int, None).update(s[slot].0 as int, Some(component));
    assert forall|k: int| 0 <= k < s2.len() implies #[trigger] s2[k].0 < c2.len() && c2[s2[k].0 as int]
        is Some by {
        assert(s2[k].0 == s[k].0);
        assert(s[k].0 < components.len());
    }
}

/// Handing back an update unchanged undoes what handing it out did to the
/// items: the component and the output are where they were before.
pub proof fn law_hand_back_restores<C>(
    components: Seq<Option<C>>,
    outputs: Seq<Seq<char>>,
    index: int,
    component: C,
)
    requires
        0 <= index < components.len(),
        index < outputs.len(),
        components[index] == Some(component),
    ensures
        components.update(index, None).update(index, Some(component)) == components,
        outputs.update(index, Seq::<char>::empty()).update(index, outputs[index]) == outputs,
{
    assert(components.update(index, None).update(index, Some(component)) =~= components);
    assert(outputs.update(index, Seq::<char>::empty()).update(index, outputs[index]) =~= outputs);
}

impl Timed {
    /// Schedules the next update at the first multiple of the interval after
    /// `now` (nanoseconds since the UNIX epoch).
    fn calc_next(&mut self, now: u128)
        requires
            can_reschedule(now as nat, old(self).interval@),
        ensures
            final(self).index == old(self).index,
            final(self).interval == old(self).interval,
            final(self).next_update == next_update_after(now as nat, old(self).interval@),
            now < 0x8000_0000_0000_0000 * 1_000_000_000 ==> now < final(self).next_update <= now
                + old(self).interval@,
    {
        let interval = self.interval.as_nanos();
        proof {
            if now < 0x8000_0000_0000_0000 * 1_000_000_000 {
                law_reschedule_in_clock_range(now as nat, interval as nat);
            }
        }
        let elapsed: u128 = now;
        let x: u128 = elapsed + 1;
        let rem = x % interval;
        let next: u128 = if rem == 0 {
            x
        } else {
            x + (interval - rem)
        };
        let secs: u128 = (next / 1_000_000_000) % 0x1_0000_0000_0000_0000;
        let nanos: u128 = next % 1_000_000_000;
        self.next_update = secs * 1_000_000_000 + nanos;
    }
}

} // verus!
