//! Buffered input: the core consumes a timestamped action stream through a
//! small buffer with a freshness window. A buffered action older than the
//! window is discarded unconsumed; attack and dash requests are consumed in
//! arrival order, first fresh match wins.

use vstd::prelude::*;
use crate::geom::Vec2;
use crate::attack::AttackType;
use crate::units::DURATION_LIMIT_MS;

verus! {

/// A discrete requested action, as the input collaborator reports it.
#[derive(Clone, Copy, Debug, PartialEq, Eq, Structural)]
pub enum InputAction {
    Move(Vec2),
    LightAttack,
    HeavyAttack,
    Dash,
    Interact,
    Pause,
}

#[derive(Clone, Copy, Debug, PartialEq, Eq, Structural)]
pub struct BufferedInput {
    pub action: InputAction,
    pub timestamp: u64,
}

/// The per-combatant input buffer with its freshness window.
#[derive(Clone, Debug)]
pub struct InputBuffer {
    pub buffer: Vec<BufferedInput>,
    pub max_buffer_time: u64,
}

/// Default freshness window: a tenth of a second.
pub const DEFAULT_BUFFER_WINDOW_MS: u64 = 100;

/// A buffered action is fresh at `now` while less than the window has passed
/// since its timestamp.
pub open spec fn spec_fresh(b: BufferedInput, now: u64, window: u64) -> bool {
    now < b.timestamp + window
}

/// The attack type requested by an action, if any.
pub open spec fn spec_attack_request(a: InputAction) -> Option<AttackType> {
    match a {
        InputAction::LightAttack => Some(AttackType::LightAttack),
        InputAction::HeavyAttack => Some(AttackType::HeavyAttack),
        _ => None,
    }
}

impl InputBuffer {
    pub open spec fn wf(self) -> bool {
        &&& self.max_buffer_time <= DURATION_LIMIT_MS
        &&& forall|i: int| 0 <= i < self.buffer@.len()
            ==> (#[trigger] self.buffer@[i]).timestamp <= DURATION_LIMIT_MS
    }

    pub fn new(max_buffer_time: u64) -> (b: Self)
        requires
            max_buffer_time <= DURATION_LIMIT_MS,
        ensures
            b.wf(),
            b.buffer@ == Seq::<BufferedInput>::empty(),
            b.max_buffer_time == max_buffer_time,
    {
        InputBuffer { buffer: Vec::new(), max_buffer_time }
    }

    /// Record an action at the time it arrived.
    pub fn push_action(&mut self, action: InputAction, timestamp: u64)
        requires
            old(self).wf(),
            timestamp <= DURATION_LIMIT_MS,
            old(self).buffer@.len() < usize::MAX,
        ensures
            final(self).wf(),
            final(self).buffer@ == old(self).buffer@.push(
                BufferedInput { action, timestamp }),
            final(self).max_buffer_time == old(self).max_buffer_time,
    {
        self.buffer.push(BufferedInput { action, timestamp });
    }

    /// Discard every buffered action that is no longer fresh at `now`,
    /// keeping the fresh ones in order.
    pub fn prune(&mut self, now: u64)
        requires
            old(self).wf(),
        ensures
            final(self).wf(),
            final(self).buffer@ == old(self).buffer@.filter(
                |b: BufferedInput| spec_fresh(b, now, old(self).max_buffer_time)),
            final(self).max_buffer_time == old(self).max_buffer_time,
    {
        let ghost pred = |b: BufferedInput| spec_fresh(b, now, self.max_buffer_time);
        let mut kept: Vec<BufferedInput> = Vec::new();
        let mut i: usize = 0;
        proof {
            assert(self.buffer@.take(0).filter(pred) == Seq::<BufferedInput>::empty());
        }
        while i < self.buffer.len()
            invariant
                *self == *old(self),
                self.wf(),
                i <= self.buffer@.len(),
                kept@ == self.buffer@.take(i as int).filter(pred),
                pred == (|b: BufferedInput| spec_fresh(b, now, self.max_buffer_time)),
                forall|k: int| 0 <= k < kept@.len()
                    ==> (#[trigger] kept@[k]).timestamp <= DURATION_LIMIT_MS,
            decreases self.buffer@.len() - i,
        {
            let entry = self.buffer[i];
            proof {
                self.buffer@.take(i as int).lemma_filter_push(entry, pred);
                assert(self.buffer@.take(i + 1) == self.buffer@.take(i as int).push(entry));
            }
            if entry.timestamp + self.max_buffer_time > now {
                kept.push(entry);
            }
            i = i + 1;
        }
        proof {
            assert(self.buffer@.take(self.buffer@.len() as int) == self.buffer@);
        }
        self.buffer = kept;
    }

    /// Consume the first fresh buffered attack request, removing it from the
    /// buffer; every other entry, fresh or stale, is left in place. Returns
    /// the requested attack type if one was found.
    pub fn take_attack(&mut self, now: u64) -> (taken: Option<AttackType>)
        requires
            old(self).wf(),
            now <= DURATION_LIMIT_MS,
        ensures
            final(self).wf(),
            final(self).max_buffer_time == old(self).max_buffer_time,
            taken is None ==> {
                &&& *final(self) == *old(self)
                &&& forall|i: int| 0 <= i < old(self).buffer@.len()
                    ==> !(spec_attack_request((#[trigger] old(self).buffer@[i]).action) is Some
                        && spec_fresh(old(self).buffer@[i], now, old(self).max_buffer_time))
            },
            taken matches Some(t) ==> exists|i: int| {
                &&& 0 <= i < old(self).buffer@.len()
                &&& spec_attack_request((#[trigger] old(self).buffer@[i]).action) == Some(t)
                &&& spec_fresh(old(self).buffer@[i], now, old(self).max_buffer_time)
                &&& final(self).buffer@ == old(self).buffer@.remove(i)
                &&& forall|j: int| 0 <= j < i
                    ==> !(spec_attack_request((#[trigger] old(self).buffer@[j]).action) is Some
                        && spec_fresh(old(self).buffer@[j], now, old(self).max_buffer_time))
            },
    {
        let mut i: usize = 0;
        while i < self.buffer.len()
            invariant
                *self == *old(self),
                self.wf(),
                now <= DURATION_LIMIT_MS,
                i <= self.buffer@.len(),
                forall|j: int| 0 <= j < i
                    ==> !(spec_attack_request((#[trigger] self.buffer@[j]).action) is Some
                        && spec_fresh(self.buffer@[j], now, self.max_buffer_time)),
            decreases self.buffer@.len() - i,
        {
            let entry = self.buffer[i];
            if entry.timestamp + self.max_buffer_time > now {
                match entry.action {
                    InputAction::LightAttack => {
                        self.buffer.remove(i);
                        return Some(AttackType::LightAttack);
                    },
                    InputAction::HeavyAttack => {
                        self.buffer.remove(i);
                        return Some(AttackType::HeavyAttack);
                    },
                    _ => {},
                }
            }
            i = i + 1;
        }
        None
    }

    /// Consume the first fresh buffered dash request, removing it from the
    /// buffer. Returns whether one was found.
    pub fn take_dash(&mut self, now: u64) -> (taken: bool)
        requires
            old(self).wf(),
            now <= DURATION_LIMIT_MS,
        ensures
            final(self).wf(),
            final(self).max_buffer_time == old(self).max_buffer_time,
            !taken ==> {
                &&& *final(self) == *old(self)
                &&& forall|i: int| 0 <= i < old(self).buffer@.len()
                    ==> !((#[trigger] old(self).buffer@[i]).action is Dash
                        && spec_fresh(old(self).buffer@[i], now, old(self).max_buffer_time))
            },
            taken ==> exists|i: int| {
                &&& 0 <= i < old(self).buffer@.len()
                &&& (#[trigger] old(self).buffer@[i]).action is Dash
                &&& spec_fresh(old(self).buffer@[i], now, old(self).max_buffer_time)
                &&& final(self).buffer@ == old(self).buffer@.remove(i)
                &&& forall|j: int| 0 <= j < i
                    ==> !((#[trigger] old(self).buffer@[j]).action is Dash
                        && spec_fresh(old(self).buffer@[j], now, old(self).max_buffer_time))
            },
    {
        let mut i: usize = 0;
        while i < self.buffer.len()
            invariant
                *self == *old(self),
                self.wf(),
                now <= DURATION_LIMIT_MS,
                i <= self.buffer@.len(),
                forall|j: int| 0 <= j < i
                    ==> !((#[trigger] self.buffer@[j]).action is Dash
                        && spec_fresh(self.buffer@[j], now, self.max_buffer_time)),
            decreases self.buffer@.len() - i,
        {
            let entry = self.buffer[i];
            if entry.timestamp + self.max_buffer_time > now {
                if matches!(entry.action, InputAction::Dash) {
                    self.buffer.remove(i);
                    return true;
                }
            }
            i = i + 1;
        }
        false
    }
}

/// Attack admission for the player: a fresh press wins over the buffer, and
/// a buffered request is consumed only when the attack is actually taken.
/// No attack starts while a dash is under way (unless the current attack is
/// a dash attack) or while a running attack's cancel window is closed; the
/// buffer then stays as it is for a later tick.
pub fn handle_attack_input(
    attack: &mut crate::attack::AttackState,
    buffer: &mut InputBuffer,
    stats: &crate::stats::CombatStats,
    is_dashing: bool,
    pressed: Option<AttackType>,
    now: u64,
) -> (started: Option<AttackType>)
    requires
        old(attack).wf(),
        old(buffer).wf(),
        stats.wf(),
        now <= DURATION_LIMIT_MS,
    ensures
        final(attack).wf(),
        final(buffer).wf(),
        final(buffer).max_buffer_time == old(buffer).max_buffer_time,
        !old(attack).spec_accepts(is_dashing) ==> *final(attack) == *old(attack)
            && *final(buffer) == *old(buffer) && started is None,
        pressed matches Some(t) ==> (old(attack).spec_accepts(is_dashing)
            ==> started == Some(t) && *final(attack) == old(attack).spec_started(t, *stats)
            && *final(buffer) == *old(buffer)),
        old(attack).spec_accepts(is_dashing) && pressed is None ==> {
            &&& (started is None ==> *final(attack) == *old(attack)
                && *final(buffer) == *old(buffer)
                && forall|i: int| 0 <= i < old(buffer).buffer@.len()
                    ==> !(spec_attack_request((#[trigger] old(buffer).buffer@[i]).action)
                        is Some && spec_fresh(old(buffer).buffer@[i], now,
                        old(buffer).max_buffer_time)))
            &&& (started matches Some(t) ==> {
                &&& *final(attack) == old(attack).spec_started(t, *stats)
                &&& exists|i: int| {
                    &&& 0 <= i < old(buffer).buffer@.len()
                    &&& spec_attack_request((#[trigger] old(buffer).buffer@[i]).action)
                        == Some(t)
                    &&& spec_fresh(old(buffer).buffer@[i], now, old(buffer).max_buffer_time)
                    &&& final(buffer).buffer@ == old(buffer).buffer@.remove(i)
                }
            })
        },
{
    if is_dashing && !matches!(attack.attack_type, AttackType::DashAttack) {
        return None;
    }
    if attack.is_attacking && !attack.can_cancel {
        return None;
    }
    let choice = match pressed {
        Some(t) => Some(t),
        None => buffer.take_attack(now),
    };
    match choice {
        Some(t) => {
            attack.start_attack(t, stats);
            Some(t)
        },
        None => None,
    }
}

impl Default for InputBuffer {
    /// An empty buffer with the default tenth-of-a-second window.
    fn default() -> (b: Self)
        ensures
            b.wf(),
            b.buffer@ == Seq::<BufferedInput>::empty(),
            b.max_buffer_time == DEFAULT_BUFFER_WINDOW_MS,
    {
        InputBuffer { buffer: Vec::new(), max_buffer_time: DEFAULT_BUFFER_WINDOW_MS }
    }
}

} // verus!
