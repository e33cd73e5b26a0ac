//! Animations that advance with the time that has passed, and their manager.
//!
//! Times are counts of milliseconds. A slide moves in whole pixels: its
//! position is computed exactly and rounded towards the start.

use vstd::prelude::*;

verus! {

/// Where an animation stands.
#[derive(Clone, Copy, Debug, PartialEq, Eq)]
pub enum AnimationState {
    Ready,
    Running,
    Completed,
}

/// Something that advances with time until it is complete.
pub trait Animation: Sized {
    /// Where the animation stands.
    spec fn state(&self) -> AnimationState;

    /// The animation after `delta_time` more milliseconds.
    spec fn after_update(&self, delta_time: u64) -> Self;

    /// The animation as it was before its first update.
    spec fn after_reset(&self) -> Self;

    /// Advances the animation by `delta_time` milliseconds and says whether
    /// it is complete.
    fn update(&mut self, delta_time: u64) -> (complete: bool)
        ensures
            *final(self) == old(self).after_update(delta_time),
            complete == (final(self).state() is Completed),
    ;

    /// Puts the animation back to where it was before its first update.
    fn reset(&mut self)
        ensures
            *final(self) == old(self).after_reset(),
            final(self).state() is Ready,
    ;

    /// Where the animation stands.
    fn get_state(&self) -> (state: AnimationState)
        ensures
            state == self.state(),
    ;
}

/// The sum of `elapsed` and `delta_time`, or the largest number where the
/// sum is larger.
pub open spec fn elapsed_after(elapsed: u64, delta_time: u64) -> u64 {
    if elapsed + delta_time > u64::MAX {
        u64::MAX
    } else {
        (elapsed + delta_time) as u64
    }
}

/// The coordinate between `start` and `end` that a slide of `duration`
/// milliseconds has reached after `elapsed` of them: the exact point on the
/// line, rounded towards `start`.
pub open spec fn slide_between(start: i32, end: i32, elapsed: u64, duration: u64) -> int
    recommends
        elapsed < duration,
{
    if end >= start {
        start + ((end - start) * elapsed) / (duration as int)
    } else {
        start - ((start - end) * elapsed) / (duration as int)
    }
}

/// `slide_between`, computed.
fn slide_coordinate(start: i32, end: i32, elapsed: u64, duration: u64) -> (at: i32)
    requires
        elapsed < duration,
    ensures
        at == slide_between(start, end, elapsed, duration),
        start <= end ==> start <= at <= end,
        end <= start ==> end <= at <= start,
{
    if end >= start {
        let span: u128 = (end as i64 - start as i64) as u128;
        assert(span * elapsed <= 0xffff_ffff * 0xffff_ffff_ffff_ffff && (span * elapsed) / (
        duration as int) <= span && (span * elapsed) / (duration as int) >= 0)
            by (nonlinear_arith)
            requires
                0 <= span <= 0xffff_ffff,
                0 <= elapsed < duration <= 0xffff_ffff_ffff_ffff,
        ;
        let moved: u128 = (span * elapsed as u128) / duration as u128;
        (start as i64 + moved as i64) as i32
    } else {
        let span: u128 = (start as i64 - end as i64) as u128;
        assert(span * elapsed <= 0xffff_ffff * 0xffff_ffff_ffff_ffff && (span * elapsed) / (
        duration as int) <= span && (span * elapsed) / (duration as int) >= 0)
            by (nonlinear_arith)
            requires
                0 <= span <= 0xffff_ffff,
                0 <= elapsed < duration <= 0xffff_ffff_ffff_ffff,
        ;
        let moved: u128 = (span * elapsed as u128) / duration as u128;
        (start as i64 - moved as i64) as i32
    }
}

/// A move from one position to another along a straight line, at an even
/// pace.
#[derive(Clone, Copy, Debug, PartialEq, Eq)]
pub struct SlideAnimation {
    start_pos: (i32, i32),
    end_pos: (i32, i32),
    current_pos: (i32, i32),
    duration: u64,
    elapsed: u64,
    state: AnimationState,
}

impl SlideAnimation {
    /// Where the slide begins.
    pub closed spec fn start_pos(&self) -> (i32, i32) {
        self.start_pos
    }

    /// Where the slide ends.
    pub closed spec fn end_pos(&self) -> (i32, i32) {
        self.end_pos
    }

    /// Where the slide is.
    pub closed spec fn current_pos(&self) -> (i32, i32) {
        self.current_pos
    }

    /// How long the slide takes, in milliseconds.
    pub closed spec fn duration(&self) -> u64 {
        self.duration
    }

    /// How long the slide has run, in milliseconds.
    pub closed spec fn elapsed(&self) -> u64 {
        self.elapsed
    }

    /// Where the animation stands.
    pub closed spec fn slide_state(&self) -> AnimationState {
        self.state
    }

    /// The slide with these values.
    pub closed spec fn with(
        &self,
        current_pos: (i32, i32),
        elapsed: u64,
        state: AnimationState,
    ) -> Self {
        SlideAnimation {
            start_pos: self.start_pos,
            end_pos: self.end_pos,
            current_pos,
            duration: self.duration,
            elapsed,
            state,
        }
    }

    /// Changing position, elapsed time and state changes nothing else.
    pub proof fn lemma_with(&self, current_pos: (i32, i32), elapsed: u64, state: AnimationState)
        ensures
            self.with(current_pos, elapsed, state).start_pos() == self.start_pos(),
            self.with(current_pos, elapsed, state).end_pos() == self.end_pos(),
            self.with(current_pos, elapsed, state).duration() == self.duration(),
            self.with(current_pos, elapsed, state).current_pos() == current_pos,
            self.with(current_pos, elapsed, state).elapsed() == elapsed,
            self.with(current_pos, elapsed, state).slide_state() == state,
    {
    }

    /// A slide from `start_pos` to `end_pos` in `duration` milliseconds,
    /// ready at its start.
    pub fn new(start_pos: (i32, i32), end_pos: (i32, i32), duration: u64) -> (slide: Self)
        ensures
            slide.start_pos() == start_pos,
            slide.end_pos() == end_pos,
            slide.current_pos() == start_pos,
            slide.duration() == duration,
            slide.elapsed() == 0,
            slide.slide_state() is Ready,
    {
        SlideAnimation {
            start_pos,
            end_pos,
            current_pos: start_pos,
            duration,
            elapsed: 0,
            state: AnimationState::Ready,
        }
    }

    /// Where the slide is.
    pub fn get_position(&self) -> (position: (i32, i32))
        ensures
            position == self.current_pos(),
    {
        self.current_pos
    }
}

impl Animation for SlideAnimation {
    open spec fn state(&self) -> AnimationState {
        self.slide_state()
    }

    open spec fn after_update(&self, delta_time: u64) -> Self {
        match self.slide_state() {
            AnimationState::Ready => self.with(self.start_pos(), 0, AnimationState::Running),
            AnimationState::Running => {
                let elapsed = elapsed_after(self.elapsed(), delta_time);
                if elapsed >= self.duration() {
                    self.with(self.end_pos(), elapsed, AnimationState::Completed)
                } else {
                    self.with(
                        (
                            slide_between(
                                self.start_pos().0,
                                self.end_pos().0,
                                elapsed,
                                self.duration(),
                            ) as i32,
                            slide_between(
                                self.start_pos().1,
                                self.end_pos().1,
                                elapsed,
                                self.duration(),
                            ) as i32,
                        ),
                        elapsed,
                        AnimationState::Running,
                    )
                }
            },
            AnimationState::Completed => *self,
        }
    }

    open spec fn after_reset(&self) -> Self {
        self.with(self.start_pos(), 0, AnimationState::Ready)
    }

    fn update(&mut self, delta_time: u64) -> (complete: bool) {
        match self.state {
            AnimationState::Ready => {
                self.state = AnimationState::Running;
                self.elapsed = 0;
                self.current_pos = self.start_pos;
                false
            },
            AnimationState::Running => {
                self.elapsed = if self.elapsed > u64::MAX - delta_time {
                    u64::MAX
                } else {
                    self.elapsed + delta_time
                };
                if self.elapsed >= self.duration {
                    self.current_pos = self.end_pos;
                    self.state = AnimationState::Completed;
                    true
                } else {
                    let x = slide_coordinate(
                        self.start_pos.0,
                        self.end_pos.0,
                        self.elapsed,
                        self.duration,
                    );
                    let y = slide_coordinate(
                        self.start_pos.1,
                        self.end_pos.1,
                        self.elapsed,
                        self.duration,
                    );
                    self.current_pos = (x, y);
                    false
                }
            },
            AnimationState::Completed => true,
        }
    }

    fn reset(&mut self) {
        self.state = AnimationState::Ready;
        self.elapsed = 0;
        self.current_pos = self.start_pos;
    }

    fn get_state(&self) -> (state: AnimationState) {
        self.state
    }
}

/// Whether every one of `animations` is complete after `delta_time` more
/// milliseconds.
pub open spec fn all_complete_after<A: Animation>(animations: Seq<A>, delta_time: u64) -> bool {
    forall|i: int|
        0 <= i < animations.len() ==> (#[trigger] animations[i]).after_update(
            delta_time,
        ).state() is Completed
}

/// Animations that advance together, by the time between two updates.
pub struct AnimationManager<A> {
    animations: Vec<A>,
    last_update: u64,
}

impl<A: Animation> AnimationManager<A> {
    /// The animations, in the order in which they were added.
    pub closed spec fn animations(&self) -> Seq<A> {
        self.animations@
    }

    /// The time of the last update, or of construction before the first.
    pub closed spec fn last_update(&self) -> u64 {
        self.last_update
    }

    /// A manager made at `now`, without animations.
    pub fn new(now: u64) -> (manager: Self)
        ensures
            manager.animations() == Seq::<A>::empty(),
            manager.last_update() == now,
    {
        AnimationManager { animations: Vec::new(), last_update: now }
    }

    /// Adds `animation` behind the animations that are there.
    pub fn add_animation(&mut self, animation: A)
        ensures
            final(self).animations() == old(self).animations().push(animation),
            final(self).last_update() == old(self).last_update(),
    {
        self.animations.push(animation);
    }

    /// Number of animations.
    pub fn animation_count(&self) -> (n: usize)
        ensures
            n == self.animations().len(),
    {
        self.animations.len()
    }

    /// Advances every animation by the time from the last update to `now`,
    /// nothing where `now` is the earlier one, and says whether all of them
    /// are complete.
    pub fn update(&mut self, now: u64) -> (all_complete: bool)
        ensures
            final(self).last_update() == now,
            final(self).animations().len() == old(self).animations().len(),
            forall|i: int|
                0 <= i < old(self).animations().len() ==> #[trigger] final(self).animations()[i]
                    == old(self).animations()[i].after_update(
                    crate::system::events::elapsed_ms(now, old(self).last_update()) as u64,
                ),
            all_complete == all_complete_after(
                old(self).animations(),
                crate::system::events::elapsed_ms(now, old(self).last_update()) as u64,
            ),
    {
        let delta: u64 = if now >= self.last_update {
            now - self.last_update
        } else {
            0
        };
        self.last_update = now;
        let mut all_complete = true;
        let mut index: usize = 0;
        while index < self.animations.len()
            invariant
                index <= self.animations.len(),
                self.animations.len() == old(self).animations.len(),
                self.last_update == now,
                forall|i: int|
                    0 <= i < index ==> #[trigger] self.animations@[i] == old(
                        self,
                    ).animations@[i].after_update(delta),
                forall|i: int|
                    index <= i < self.animations.len() ==> #[trigger] self.animations@[i] == old(
                        self,
                    ).animations@[i],
                all_complete == all_complete_after(
                    old(self).animations@.subrange(0, index as int),
                    delta,
                ),
            decreases self.animations.len() - index,
        {
            let ghost before = self.animations@;
            let complete = self.animations[index].update(delta);
            proof {
                let upto = old(self).animations@.subrange(0, index as int);
                let next = old(self).animations@.subrange(0, index + 1);
                assert(next[index as int] == old(self).animations@[index as int]);
                assert forall|i: int| 0 <= i < index implies next[i] == upto[i] by {}
                if all_complete_after(next, delta) {
                    assert forall|i: int| 0 <= i < upto.len() implies (
                    #[trigger] upto[i]).after_update(delta).state() is Completed by {
                        assert(next[i] == upto[i]);
                    }
                }
                if all_complete && complete {
                    assert forall|i: int| 0 <= i < next.len() implies (
                    #[trigger] next[i]).after_update(delta).state() is Completed by {
                        if i < index {
                            assert(next[i] == upto[i]);
                        }
                    }
                }
                assert forall|i: int| 0 <= i < index implies #[trigger] self.animations@[i] == old(
                    self,
                ).animations@[i].after_update(delta) by {
                    assert(self.animations@[i] == before[i]);
                }
                assert forall|i: int|
                    index < i < self.animations.len() implies #[trigger] self.animations@[i] == old(
                    self,
                ).animations@[i] by {
                    assert(self.animations@[i] == before[i]);
                }
            }
            if !complete {
                all_complete = false;
            }
            index += 1;
        }
        assert(old(self).animations@.subrange(0, index as int) == old(self).animations@);
        all_complete
    }

    /// Puts every animation back to where it was before its first update.
    pub fn reset_all(&mut self)
        ensures
            final(self).last_update() == old(self).last_update(),
            final(self).animations().len() == old(self).animations().len(),
            forall|i: int|
                0 <= i < old(self).animations().len() ==> #[trigger] final(self).animations()[i]
                    == old(self).animations()[i].after_reset(),
    {
        let mut index: usize = 0;
        while index < self.animations.len()
            invariant
                index <= self.animations.len(),
                self.animations.len() == old(self).animations.len(),
                self.last_update == old(self).last_update,
                forall|i: int|
                    0 <= i < index ==> #[trigger] self.animations@[i] == old(
                        self,
                    ).animations@[i].after_reset(),
                forall|i: int|
                    index <= i < self.animations.len() ==> #[trigger] self.animations@[i] == old(
                        self,
                    ).animations@[i],
            decreases self.animations.len() - index,
        {
            let ghost before = self.animations@;
            self.animations[index].reset();
            proof {
                assert forall|i: int| 0 <= i < index implies #[trigger] self.animations@[i] == old(
                    self,
                ).animations@[i].after_reset() by {
                    assert(self.animations@[i] == before[i]);
                }
                assert forall|i: int|
                    index < i < self.animations.len() implies #[trigger] self.animations@[i] == old(
                    self,
                ).animations@[i] by {
                    assert(self.animations@[i] == before[i]);
                }
            }
            index += 1;
        }
    }
}

} // verus!
