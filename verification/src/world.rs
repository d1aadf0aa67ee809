//! The explicit entity registry and the per-tick combat pipeline: combatants
//! and hit volumes live in arenas indexed by stable identifiers, and the
//! systems run as plain functions in a fixed sequential order — attack-state
//! advance, hitbox spawn, hit detection, damage application, knockback,
//! death handling, cleanup — so a hit registered this tick is visible to the
//! damage pipeline in the same tick, and a death flagged this tick is acted
//! on only by the dedicated death pass.

use vstd::prelude::*;
use crate::geom::{Vec2, spec_aabb_overlap};
use crate::stats::{CombatStats, Health};
use crate::attack::AttackState;
use crate::hitbox::{Hitbox, Hurtbox};
use crate::ai::{Enemy, EnemyAI};
use crate::damage::{
    CombatLog, CombatantTag, DamageEvent, DamageType, resolve_hit_rolled, spec_crit_applies,
    spec_final_damage,
};
use crate::state::{GameState, RunStats, sat_add, spec_sat_add};
use crate::units::{AMOUNT_LIMIT, COORD_LIMIT, DURATION_LIMIT_MS, PERMILLE, VEL_LIMIT};
use crate::knockback::vel_bounded;

verus! {

/// A combatant in the arena: the player or an enemy, with its combat
/// components. Identities are stable and unique; a combatant leaves the
/// arena only through the death pass.
#[derive(Clone, Copy, Debug)]
pub struct Combatant {
    pub id: u64,
    pub pos: Vec2,
    pub velocity: Vec2,
    pub health: Health,
    pub stats: CombatStats,
    pub attack: AttackState,
    pub hurtbox: Hurtbox,
    pub is_player: bool,
    pub enemy: Option<Enemy>,
    pub ai: Option<EnemyAI>,
    pub pending_death: bool,
}

impl Combatant {
    /// The locally-controlled player combatant: 100 points of health,
    /// baseline combat statistics, an idle attack, a 32x32 hurtbox.
    pub fn new_player(id: u64, pos: Vec2) -> (c: Self)
        requires
            pos.bounded(),
        ensures
            c.wf(),
            c.id == id,
            c.pos == pos,
            c.velocity.spec_is_zero(),
            c.health.max == 100 * crate::units::MILLI,
            c.health.current == c.health.max,
            c.stats.wf(),
            c.attack.phase() is Idle,
            c.hurtbox == (Hurtbox { size: Vec2 { x: 32, y: 32 }, invulnerable: false }),
            c.is_player,
            c.enemy is None,
            c.ai is None,
            !c.pending_death,
    {
        Combatant {
            id,
            pos,
            velocity: Vec2 { x: 0, y: 0 },
            health: Health::new(100000),
            stats: CombatStats::default(),
            attack: AttackState::new_idle(),
            hurtbox: Hurtbox::new(Vec2 { x: 32, y: 32 }, false),
            is_player: true,
            enemy: None,
            ai: None,
            pending_death: false,
        }
    }

    /// An enemy combatant built from a spawned archetype.
    pub fn from_spawned(id: u64, s: crate::spawn::SpawnedEnemy) -> (c: Self)
        requires
            s.health.wf(),
            s.stats.wf(),
            s.hurtbox.wf(),
            s.ai.wf(),
            s.enemy.wf(),
            s.position.bounded(),
        ensures
            c.wf(),
            c.id == id,
            c.pos == s.position,
            c.velocity.spec_is_zero(),
            c.health == s.health,
            c.stats == s.stats,
            c.attack.phase() is Idle,
            c.hurtbox == s.hurtbox,
            !c.is_player,
            c.enemy == Some(s.enemy),
            c.ai == Some(s.ai),
            !c.pending_death,
    {
        Combatant {
            id,
            pos: s.position,
            velocity: Vec2 { x: 0, y: 0 },
            health: s.health,
            stats: s.stats,
            attack: AttackState::new_idle(),
            hurtbox: s.hurtbox,
            is_player: false,
            enemy: Some(s.enemy),
            ai: Some(s.ai),
            pending_death: false,
        }
    }

    pub open spec fn wf(self) -> bool {
        &&& self.pos.bounded()
        &&& vel_bounded(self.velocity)
        &&& self.health.wf()
        &&& self.stats.wf()
        &&& self.attack.wf()
        &&& self.hurtbox.wf()
        &&& (self.ai matches Some(ai) ==> ai.wf())
        &&& (self.enemy matches Some(e) ==> e.wf())
    }
}

/// Which lifecycle a live hit volume follows: one spawned from a combatant's
/// attack state lives while that attack stays in its active phase; one
/// requested by an enemy's AI lives while the AI stays in its attacking
/// state.
#[derive(Clone, Copy, Debug, PartialEq, Eq, Structural)]
pub enum HitboxKind {
    AttackHitbox,
    EnemyAttack,
}

/// A live hit volume in the world, tied to its owner by identity — a weak
/// reference: the owner may vanish, in which case the entry is garbage for
/// the cleanup pass and is never dereferenced.
#[derive(Clone, Debug)]
pub struct HitboxEntry {
    pub owner: u64,
    pub kind: HitboxKind,
    pub pos: Vec2,
    pub hitbox: Hitbox,
}

impl HitboxEntry {
    pub open spec fn wf(self) -> bool {
        &&& self.pos.bounded()
        &&& self.hitbox.wf()
    }
}

/// The combat world: the arenas, the global run state and the telemetry,
/// threaded explicitly through each tick.
#[derive(Debug)]
pub struct World {
    pub combatants: Vec<Combatant>,
    pub hitboxes: Vec<HitboxEntry>,
    pub game: GameState,
    pub stats: RunStats,
    pub log: CombatLog,
    pub time_ms: u64,
}

/// All combatant identities are distinct.
pub open spec fn spec_ids_unique(cs: Seq<Combatant>) -> bool {
    forall|i: int, j: int|
        0 <= i < cs.len() && 0 <= j < cs.len() && i != j
            ==> (#[trigger] cs[i]).id != (#[trigger] cs[j]).id
}

/// Some live hit volume is owned by `owner`.
pub open spec fn spec_has_hitbox(hs: Seq<HitboxEntry>, owner: u64) -> bool {
    exists|j: int| 0 <= j < hs.len() && (#[trigger] hs[j]).owner == owner
}

impl World {
    pub open spec fn wf(self) -> bool {
        &&& spec_ids_unique(self.combatants@)
        &&& forall|i: int| 0 <= i < self.combatants@.len()
            ==> (#[trigger] self.combatants@[i]).wf()
        &&& forall|h: int| 0 <= h < self.hitboxes@.len()
            ==> (#[trigger] self.hitboxes@[h]).wf()
        &&& self.time_ms <= DURATION_LIMIT_MS
    }

    /// An empty world at the start of a run.
    pub fn new(game: GameState) -> (w: Self)
        ensures
            w.wf(),
            w.combatants@ == Seq::<Combatant>::empty(),
            w.hitboxes@ == Seq::<HitboxEntry>::empty(),
            w.game == game,
            w.stats == (RunStats {
                enemies_killed: 0,
                damage_dealt: 0,
                damage_taken: 0,
                rooms_cleared: 0,
                gold_collected: 0,
                boons_collected: 0,
                run_time_ms: 0,
                deaths: 0,
            }),
            w.log.recent_damage@ == Seq::<crate::damage::DamageEvent>::empty(),
            w.time_ms == 0,
    {
        World {
            combatants: Vec::new(),
            hitboxes: Vec::new(),
            game,
            stats: RunStats::default(),
            log: CombatLog::new(),
            time_ms: 0,
        }
    }

    /// The arena index of the combatant with the given identity, if it is
    /// present.
    pub fn find_combatant(&self, id: u64) -> (found: Option<usize>)
        ensures
            found matches Some(i) ==> i < self.combatants@.len()
                && self.combatants@[i as int].id == id,
            found is None ==> forall|i: int| 0 <= i < self.combatants@.len()
                ==> (#[trigger] self.combatants@[i]).id != id,
    {
        let mut i: usize = 0;
        while i < self.combatants.len()
            invariant
                i <= self.combatants@.len(),
                forall|j: int| 0 <= j < i ==> (#[trigger] self.combatants@[j]).id != id,
            decreases self.combatants@.len() - i,
        {
            if self.combatants[i].id == id {
                return Some(i);
            }
            i = i + 1;
        }
        None
    }

    /// The arena index of the locally-controlled combatant, if one exists;
    /// a missing player makes the dependent systems a no-op for the tick.
    pub fn find_player(&self) -> (found: Option<usize>)
        ensures
            found matches Some(i) ==> i < self.combatants@.len()
                && self.combatants@[i as int].is_player,
            found is None ==> forall|i: int| 0 <= i < self.combatants@.len()
                ==> !(#[trigger] self.combatants@[i]).is_player,
    {
        let mut i: usize = 0;
        while i < self.combatants.len()
            invariant
                i <= self.combatants@.len(),
                forall|j: int| 0 <= j < i ==> !(#[trigger] self.combatants@[j]).is_player,
            decreases self.combatants@.len() - i,
        {
            if self.combatants[i].is_player {
                return Some(i);
            }
            i = i + 1;
        }
        None
    }

    /// Whether any live hit volume is owned by `owner`.
    pub fn has_hitbox_for(&self, owner: u64) -> (r: bool)
        ensures
            r == spec_has_hitbox(self.hitboxes@, owner),
    {
        let mut i: usize = 0;
        while i < self.hitboxes.len()
            invariant
                i <= self.hitboxes@.len(),
                forall|j: int| 0 <= j < i ==> (#[trigger] self.hitboxes@[j]).owner != owner,
            decreases self.hitboxes@.len() - i,
        {
            if self.hitboxes[i].owner == owner {
                proof {
                    assert(0 <= i < self.hitboxes@.len() && self.hitboxes@[i as int].owner
                        == owner);
                }
                return true;
            }
            i = i + 1;
        }
        false
    }

    /// Add a combatant with a fresh identity.
    pub fn add_combatant(&mut self, c: Combatant)
        requires
            old(self).wf(),
            c.wf(),
            forall|i: int| 0 <= i < old(self).combatants@.len()
                ==> (#[trigger] old(self).combatants@[i]).id != c.id,
        ensures
            final(self).wf(),
            final(self).combatants@ == old(self).combatants@.push(c),
            final(self).hitboxes@ == old(self).hitboxes@,
            final(self).game == old(self).game,
            final(self).stats == old(self).stats,
            final(self).log == old(self).log,
            final(self).time_ms == old(self).time_ms,
    {
        self.combatants.push(c);
    }

    /// Advance every combatant's attack state machine by one tick. Exactly
    /// one phase clock moves per combatant, per the machine's transition.
    pub fn update_attack_state(&mut self, delta_ms: u64)
        requires
            old(self).wf(),
            delta_ms <= DURATION_LIMIT_MS,
        ensures
            final(self).wf(),
            spec_attack_pass(*old(self), *final(self), delta_ms),
    {
        let mut i: usize = 0;
        while i < self.combatants.len()
            invariant
                self.wf(),
                delta_ms <= DURATION_LIMIT_MS,
                i <= self.combatants@.len(),
                self.combatants@.len() == old(self).combatants@.len(),
                forall|j: int| 0 <= j < i
                    ==> #[trigger] self.combatants@[j] == (Combatant {
                        attack: old(self).combatants@[j].attack.spec_advanced(delta_ms),
                        ..old(self).combatants@[j]
                    }),
                forall|j: int| i <= j < self.combatants@.len()
                    ==> #[trigger] self.combatants@[j] == old(self).combatants@[j],
                self.hitboxes@ == old(self).hitboxes@,
                self.game == old(self).game,
                self.stats == old(self).stats,
                self.log == old(self).log,
                self.time_ms == old(self).time_ms,
            decreases self.combatants@.len() - i,
        {
            let mut c = self.combatants[i];
            c.attack.advance(delta_ms);
            self.combatants[i] = c;
            i = i + 1;
        }
    }

    /// Spawn hit volumes: every combatant whose attack stands in its active
    /// phase and owns no live hit volume yet gets exactly one, sized, offset
    /// and scaled per its attack type (a light attack's damage scales with
    /// the combo counter). The volume persists while the attack stays
    /// active; the cleanup pass takes it down afterwards.
    pub fn spawn_hitboxes(&mut self)
        requires
            old(self).wf(),
        ensures
            final(self).wf(),
            spec_spawn_pass(*old(self), *final(self)),
    {
        let mut i: usize = 0;
        while i < self.combatants.len()
            invariant
                self.wf(),
                i <= self.combatants@.len(),
                self.combatants@ == old(self).combatants@,
                self.game == old(self).game,
                self.stats == old(self).stats,
                self.log == old(self).log,
                self.time_ms == old(self).time_ms,
                old(self).hitboxes@.is_prefix_of(self.hitboxes@),
                forall|k: int| old(self).hitboxes@.len() <= k < self.hitboxes@.len()
                    ==> spec_spawn_witnessed(#[trigger] self.hitboxes@[k],
                        old(self).combatants@, old(self).hitboxes@),
                forall|j: int| 0 <= j < i
                    && (#[trigger] old(self).combatants@[j]).attack.in_active_phase()
                    ==> spec_has_hitbox(self.hitboxes@, old(self).combatants@[j].id),
                forall|k1: int, k2: int|
                    old(self).hitboxes@.len() <= k1 < self.hitboxes@.len()
                        && old(self).hitboxes@.len() <= k2 < self.hitboxes@.len()
                        && (#[trigger] self.hitboxes@[k1]).owner
                            == (#[trigger] self.hitboxes@[k2]).owner ==> k1 == k2,
            decreases self.combatants@.len() - i,
        {
            let c = self.combatants[i];
            if c.attack.is_in_active_phase() && !self.has_hitbox_for(c.id) {
                let ghost pre = self.hitboxes@;
                let hitbox = Hitbox::for_attack(c.attack.attack_type, c.attack.combo_count,
                    &c.stats);
                let off = hitbox.offset;
                let entry = HitboxEntry {
                    owner: c.id,
                    kind: HitboxKind::AttackHitbox,
                    pos: Vec2 {
                        x: clamp_coord(c.pos.x + off.x),
                        y: clamp_coord(c.pos.y + off.y),
                    },
                    hitbox,
                };
                self.hitboxes.push(entry);
                proof {
                    let k = pre.len() as int;
                    assert(forall|m: int| 0 <= m < pre.len() ==> self.hitboxes@[m] == pre[m]);
                    assert(pre.is_prefix_of(self.hitboxes@)) by {
                        assert(pre =~= self.hitboxes@.subrange(0, pre.len() as int));
                    }
                    assert(old(self).hitboxes@.is_prefix_of(self.hitboxes@)) by {
                        assert(old(self).hitboxes@ =~= self.hitboxes@.subrange(0,
                            old(self).hitboxes@.len() as int));
                    }
                    assert(spec_is_attack_spawn(self.hitboxes@[k],
                        old(self).combatants@[i as int]));
                    assert(!spec_has_hitbox(old(self).hitboxes@, c.id)) by {
                        if spec_has_hitbox(old(self).hitboxes@, c.id) {
                            let j = choose|j: int| 0 <= j < old(self).hitboxes@.len()
                                && old(self).hitboxes@[j].owner == c.id;
                            assert(pre[j].owner == c.id);
                            assert(spec_has_hitbox(pre, c.id));
                        }
                    }
                    assert(forall|o: u64| spec_has_hitbox(pre, o)
                        ==> spec_has_hitbox(self.hitboxes@, o)) by {
                        assert forall|o: u64| spec_has_hitbox(pre, o)
                            implies spec_has_hitbox(self.hitboxes@, o) by {
                            let j = choose|j: int| 0 <= j < pre.len() && pre[j].owner == o;
                            assert(self.hitboxes@[j].owner == o);
                        }
                    }
                    assert(spec_has_hitbox(self.hitboxes@, c.id));
                    assert(forall|m: int| 0 <= m < pre.len()
                        ==> (#[trigger] pre[m]).owner != c.id);
                    assert(spec_spawn_witnessed(self.hitboxes@[k], old(self).combatants@,
                        old(self).hitboxes@)) by {
                        assert(0 <= i < old(self).combatants@.len()
                            && spec_is_attack_spawn(self.hitboxes@[k],
                                old(self).combatants@[i as int])
                            && old(self).combatants@[i as int].attack.in_active_phase()
                            && !spec_has_hitbox(old(self).hitboxes@,
                                old(self).combatants@[i as int].id));
                    }
                }
            }
            i = i + 1;
        }
    }

    /// Hit detection: every live, active hit volume is tested against every
    /// combatant in the world except its owner, invulnerable targets, and
    /// targets already in its hit ledger; strict box overlap appends the
    /// target to the ledger. No damage is computed here — ledger mutation is
    /// this system's only side effect.
    pub fn check_hit_detection(&mut self)
        requires
            old(self).wf(),
        ensures
            final(self).wf(),
            spec_detection_pass(*old(self), *final(self)),
    {
        let mut h: usize = 0;
        while h < self.hitboxes.len()
            invariant
                self.wf(),
                h <= self.hitboxes@.len(),
                self.hitboxes@.len() == old(self).hitboxes@.len(),
                self.combatants@ == old(self).combatants@,
                self.game == old(self).game,
                self.stats == old(self).stats,
                self.log == old(self).log,
                self.time_ms == old(self).time_ms,
                forall|k: int| 0 <= k < h
                    ==> spec_detected(#[trigger] self.hitboxes@[k], old(self).hitboxes@[k],
                        old(self).combatants@),
                forall|k: int| h <= k < self.hitboxes@.len()
                    ==> #[trigger] self.hitboxes@[k] == old(self).hitboxes@[k],
            decreases self.hitboxes@.len() - h,
        {
            let ghost pre = self.hitboxes@;
            let mut entry = self.hitboxes.remove(h);
            let ghost orig = entry;
            if entry.hitbox.active {
                let mut i: usize = 0;
                while i < self.combatants.len()
                    invariant
                        self.wf(),
                        i <= self.combatants@.len(),
                        self.combatants@ == old(self).combatants@,
                        entry.wf(),
                        entry.hitbox.active,
                        entry.owner == orig.owner,
                        entry.kind == orig.kind,
                        entry.pos == orig.pos,
                        entry.hitbox.size == orig.hitbox.size,
                        entry.hitbox.offset == orig.hitbox.offset,
                        entry.hitbox.damage == orig.hitbox.damage,
                        entry.hitbox.knockback == orig.hitbox.knockback,
                        entry.hitbox.resolved_hits == orig.hitbox.resolved_hits,
                        orig.hitbox.active,
                        orig.wf(),
                        orig.hitbox.hit_entities@.is_prefix_of(entry.hitbox.hit_entities@),
                        forall|j: int| 0 <= j < i
                            && spec_eligible(#[trigger] self.combatants@[j], orig)
                            ==> entry.hitbox.spec_struck(self.combatants@[j].id),
                        forall|t: u64| #[trigger] entry.hitbox.spec_struck(t)
                            && !orig.hitbox.spec_struck(t)
                            ==> spec_eligible_id(self.combatants@, orig, t),
                    decreases self.combatants@.len() - i,
                {
                    let c = self.combatants[i];
                    let ghost entry0 = entry;
                    let ghost before = entry.hitbox.hit_entities@;
                    let registered = entry.hitbox.try_register(entry.pos, entry.owner, c.id,
                        &c.hurtbox, c.pos);
                    proof {
                        if registered {
                            assert(entry.hitbox.hit_entities@[before.len() as int] == c.id);
                            assert(entry.hitbox.spec_struck(c.id));
                            assert(entry.hitbox.hit_entities@ == before.push(c.id));
                            assert(forall|m: int| 0 <= m < before.len()
                                ==> entry.hitbox.hit_entities@[m] == before[m]);
                            assert(orig.hitbox.hit_entities@.is_prefix_of(
                                entry.hitbox.hit_entities@));
                            assert(forall|t: u64| before.contains(t)
                                ==> entry.hitbox.spec_struck(t)) by {
                                assert forall|t: u64| before.contains(t)
                                    implies entry.hitbox.spec_struck(t) by {
                                    let m = choose|m: int| 0 <= m < before.len()
                                        && before[m] == t;
                                    assert(entry.hitbox.hit_entities@[m] == t);
                                }
                            }
                            assert forall|t: u64| entry.hitbox.spec_struck(t)
                                && !orig.hitbox.spec_struck(t)
                                implies spec_eligible_id(self.combatants@, orig, t) by {
                                if t == c.id {
                                    assert(spec_eligible(self.combatants@[i as int], orig));
                                    assert(spec_eligible_id(self.combatants@, orig, t));
                                } else {
                                    let m = choose|m: int| 0 <= m
                                        < entry.hitbox.hit_entities@.len()
                                        && entry.hitbox.hit_entities@[m] == t;
                                    assert(m < before.len());
                                    assert(before.contains(t));
                                    assert(entry0.hitbox.spec_struck(t));
                                }
                            }
                        } else {
                            assert(entry.hitbox.hit_entities@ == before);
                        }
                        if spec_eligible(self.combatants@[i as int], orig)
                            && !entry.hitbox.spec_struck(c.id) {
                            assert(false);
                        }
                    }
                    i = i + 1;
                }
            }
            self.hitboxes.insert(h, entry);
            proof {
                assert(self.hitboxes@ =~= pre.update(h as int, entry));
                assert(spec_detected(self.hitboxes@[h as int], old(self).hitboxes@[h as int],
                    old(self).combatants@));
            }
            h = h + 1;
        }
    }

    /// Resolve one hit volume's unconsumed ledger entries: each still-present
    /// target takes damage from the owner's statistics exactly once (the
    /// ledger holds it at most once), a telemetry event and an aligned
    /// knockback strike record the pair, the damage-dealt counter folds the
    /// amount in, and targets named by no unconsumed entry are untouched.
    /// Afterwards the whole ledger counts as consumed. An orphaned volume is
    /// skipped whole.
    fn resolve_entry_damage(&mut self, entry: &mut HitboxEntry, strikes: &mut Vec<Strike>)
        requires
            old(self).wf(),
            old(entry).wf(),
        ensures
            final(self).wf(),
            final(entry).wf(),
            final(self).hitboxes@ == old(self).hitboxes@,
            final(self).game == old(self).game,
            final(self).time_ms == old(self).time_ms,
            final(self).combatants@.len() == old(self).combatants@.len(),
            forall|i: int| 0 <= i < old(self).combatants@.len()
                ==> spec_damaged(#[trigger] final(self).combatants@[i],
                    old(self).combatants@[i]),
            spec_entry_resolved(*final(entry), *old(entry), old(self).combatants@),
            spec_id_present(old(self).combatants@, old(entry).owner)
                ==> final(self).log.recent_damage@.len()
                    == old(self).log.recent_damage@.len()
                    + spec_present_targets(old(self).combatants@,
                        old(entry).hitbox.hit_entities@,
                        old(entry).hitbox.hit_entities@.len() as int)
                    - spec_present_targets(old(self).combatants@,
                        old(entry).hitbox.hit_entities@,
                        old(entry).hitbox.resolved_hits as int)
                && final(strikes)@.len() - old(strikes)@.len()
                    == final(self).log.recent_damage@.len()
                    - old(self).log.recent_damage@.len(),
            !spec_id_present(old(self).combatants@, old(entry).owner)
                ==> final(self).log.recent_damage@ == old(self).log.recent_damage@
                    && final(strikes)@ == old(strikes)@,
            forall|i: int| 0 <= i < old(self).combatants@.len()
                && !spec_named_unconsumed(*old(entry),
                    (#[trigger] old(self).combatants@[i]).id)
                ==> final(self).combatants@[i] == old(self).combatants@[i],
            spec_volume_events_fired(old(self).combatants@, final(self).combatants@,
                final(self).log.recent_damage@, final(strikes)@,
                old(self).log.recent_damage@.len() as int, old(strikes)@.len() as int,
                *old(entry)),
            final(self).stats.damage_dealt == spec_dealt_fold(old(self).stats.damage_dealt,
                final(self).log.recent_damage@.subrange(
                    old(self).log.recent_damage@.len() as int,
                    final(self).log.recent_damage@.len() as int)),
            old(self).log.recent_damage@.is_prefix_of(final(self).log.recent_damage@),
            forall|e: int| old(self).log.recent_damage@.len() <= e
                < final(self).log.recent_damage@.len()
                ==> spec_fresh_event(#[trigger] final(self).log.recent_damage@[e],
                    old(self).time_ms),
            final(self).stats == (RunStats {
                damage_dealt: final(self).stats.damage_dealt,
                ..old(self).stats
            }),
            final(self).stats.damage_dealt >= old(self).stats.damage_dealt,
            old(strikes)@.is_prefix_of(final(strikes)@),
            forall|s: int| old(strikes)@.len() <= s < final(strikes)@.len()
                ==> (#[trigger] final(strikes)@[s]).wf(),
    {
        let owner_idx = match self.find_combatant(entry.owner) {
            Some(oi) => oi,
            None => {
                proof {
                    assert(!spec_id_present(self.combatants@, entry.owner));
                    assert(forall|i: int| 0 <= i < self.combatants@.len()
                        ==> spec_damaged(#[trigger] self.combatants@[i],
                            self.combatants@[i]));
                    assert(self.log.recent_damage@.subrange(
                        self.log.recent_damage@.len() as int,
                        self.log.recent_damage@.len() as int)
                        =~= Seq::<DamageEvent>::empty());
                    assert(spec_dealt_fold(self.stats.damage_dealt,
                        Seq::<DamageEvent>::empty()) == self.stats.damage_dealt);
                }
                return;
            },
        };
        proof {
            assert(spec_id_present(self.combatants@, entry.owner));
        }
        let attacker_stats = self.combatants[owner_idx].stats;
        proof {
            let oi = spec_index_of_id(self.combatants@, entry.owner);
            assert(0 <= oi < self.combatants@.len()
                && self.combatants@[oi].id == entry.owner);
            assert(oi == owner_idx as int);
            assert(attacker_stats
                == self.combatants@[spec_index_of_id(self.combatants@, entry.owner)].stats);
        }
        let mut k: usize = entry.hitbox.resolved_hits;
        let ghost ledger = entry.hitbox.hit_entities@;
        while k < entry.hitbox.hit_entities.len()
            invariant
                self.wf(),
                attacker_stats.wf(),
                entry.wf(),
                entry.hitbox.hit_entities@ == ledger,
                entry.owner == old(entry).owner,
                entry.kind == old(entry).kind,
                entry.pos == old(entry).pos,
                entry.hitbox.size == old(entry).hitbox.size,
                entry.hitbox.offset == old(entry).hitbox.offset,
                entry.hitbox.damage == old(entry).hitbox.damage,
                entry.hitbox.knockback == old(entry).hitbox.knockback,
                entry.hitbox.active == old(entry).hitbox.active,
                entry.hitbox.resolved_hits == old(entry).hitbox.resolved_hits,
                k <= ledger.len(),
                self.hitboxes@ == old(self).hitboxes@,
                self.game == old(self).game,
                self.time_ms == old(self).time_ms,
                self.combatants@.len() == old(self).combatants@.len(),
                forall|i: int| 0 <= i < old(self).combatants@.len()
                    ==> spec_damaged(#[trigger] self.combatants@[i],
                        old(self).combatants@[i]),
                old(self).log.recent_damage@.is_prefix_of(self.log.recent_damage@),
                forall|e: int| old(self).log.recent_damage@.len() <= e
                    < self.log.recent_damage@.len()
                    ==> spec_fresh_event(#[trigger] self.log.recent_damage@[e],
                        old(self).time_ms),
                self.stats == (RunStats {
                    damage_dealt: self.stats.damage_dealt,
                    ..old(self).stats
                }),
                self.stats.damage_dealt >= old(self).stats.damage_dealt,
                old(strikes)@.is_prefix_of(strikes@),
                forall|s: int| old(strikes)@.len() <= s < strikes@.len()
                    ==> (#[trigger] strikes@[s]).wf(),
                old(entry).hitbox.resolved_hits <= k,
                self.log.recent_damage@.len() == old(self).log.recent_damage@.len()
                    + spec_present_targets(old(self).combatants@, ledger, k as int)
                    - spec_present_targets(old(self).combatants@, ledger,
                        old(entry).hitbox.resolved_hits as int),
                strikes@.len() - old(strikes)@.len() == self.log.recent_damage@.len()
                    - old(self).log.recent_damage@.len(),
                attacker_stats == old(self).combatants@[spec_index_of_id(
                    old(self).combatants@, old(entry).owner)].stats,
                forall|i: int| 0 <= i < old(self).combatants@.len()
                    && !spec_named_in_range(ledger,
                        old(entry).hitbox.resolved_hits as int, k as int,
                        (#[trigger] old(self).combatants@[i]).id)
                    ==> self.combatants@[i] == old(self).combatants@[i],
                forall|e: int| old(self).log.recent_damage@.len() <= e
                    < self.log.recent_damage@.len()
                    ==> #[trigger] spec_pair_recorded(old(self).combatants@,
                        self.combatants@, self.log.recent_damage@, strikes@,
                        old(self).log.recent_damage@.len() as int,
                        old(strikes)@.len() as int, *old(entry), k as int, e),
                self.stats.damage_dealt == spec_dealt_fold(old(self).stats.damage_dealt,
                    self.log.recent_damage@.subrange(
                        old(self).log.recent_damage@.len() as int,
                        self.log.recent_damage@.len() as int)),
            decreases ledger.len() - k,
        {
            let target_id = entry.hitbox.hit_entities[k];
            proof {
                assert(spec_present_targets(old(self).combatants@, ledger, k + 1)
                    == spec_present_targets(old(self).combatants@, ledger, k as int)
                    + if spec_id_present(old(self).combatants@, ledger[k as int]) {
                        1int
                    } else {
                        0int
                    });
            }
            let found = self.find_combatant(target_id);
            proof {
                match found {
                    Some(ti) => {
                        assert(old(self).combatants@[ti as int].id == target_id);
                        assert(spec_id_present(old(self).combatants@, target_id));
                    },
                    None => {
                        if spec_id_present(old(self).combatants@, target_id) {
                            let w = choose|w: int| 0 <= w < old(self).combatants@.len()
                                && old(self).combatants@[w].id == target_id;
                            assert(self.combatants@[w].id == target_id);
                        }
                        assert(!spec_id_present(old(self).combatants@, target_id));
                    },
                }
            }
            proof {
                assert(ledger.no_duplicates());
                if found is Some {
                    assert(!spec_named_in_range(ledger,
                        old(entry).hitbox.resolved_hits as int, k as int, target_id)) by {
                        if spec_named_in_range(ledger,
                            old(entry).hitbox.resolved_hits as int, k as int, target_id) {
                            let k2 = choose|k2: int|
                                old(entry).hitbox.resolved_hits <= k2 < k
                                    && ledger[k2] == target_id;
                            assert(ledger[k2] == ledger[k as int]);
                        }
                    }
                }
            }
            if let Some(ti) = found {
                let ghost cs_before = self.combatants@;
                let ghost log_before = self.log.recent_damage@;
                let ghost strikes_before = strikes@;
                proof {
                    assert(cs_before[ti as int].id == target_id);
                    assert(old(self).combatants@[ti as int].id == target_id);
                    assert(cs_before[ti as int] == old(self).combatants@[ti as int]);
                    let j = spec_index_of_id(old(self).combatants@, target_id);
                    assert(0 <= j < old(self).combatants@.len()
                        && old(self).combatants@[j].id == target_id);
                    assert(j == ti as int);
                }
                let mut c = self.combatants[ti];
                let (amount, is_crit, _died) = strike_combatant(&mut c, entry.hitbox.damage,
                    &attacker_stats);
                self.combatants[ti] = c;
                let target_tag = match c.enemy {
                    Some(_) => CombatantTag::Enemy,
                    None => CombatantTag::Unknown,
                };
                let ghost log_pre = self.log.recent_damage@;
                self.log.recent_damage.push(DamageEvent {
                    source: CombatantTag::Player,
                    target: target_tag,
                    amount,
                    is_crit,
                    damage_type: DamageType::Physical,
                    timestamp: self.time_ms,
                });
                self.stats.damage_dealt = sat_add(self.stats.damage_dealt, amount);
                let ghost strikes_pre = strikes@;
                strikes.push(Strike {
                    hit_pos: entry.pos,
                    target: target_id,
                    knockback: entry.hitbox.knockback,
                });
                proof {
                    let ghost e0 = old(self).log.recent_damage@.len() as int;
                    let ghost s0 = old(strikes)@.len() as int;
                    let ghost r0 = old(entry).hitbox.resolved_hits as int;
                    let ghost cs0 = old(self).combatants@;
                    assert(old(self).log.recent_damage@.is_prefix_of(
                        self.log.recent_damage@)) by {
                        assert(old(self).log.recent_damage@ =~= self.log.recent_damage@
                            .subrange(0, old(self).log.recent_damage@.len() as int));
                    }
                    assert(old(strikes)@.is_prefix_of(strikes@)) by {
                        assert(old(strikes)@ =~= strikes@.subrange(0,
                            old(strikes)@.len() as int));
                    }
                    assert(forall|e: int| 0 <= e < log_pre.len()
                        ==> self.log.recent_damage@[e] == log_pre[e]);
                    assert(forall|s2: int| 0 <= s2 < strikes_pre.len()
                        ==> strikes@[s2] == strikes_pre[s2]);
                    // The new event at index `e_new` and its aligned strike form
                    // the pair's exact record.
                    let e_new = log_before.len() as int;
                    assert(s0 + e_new - e0 == strikes_before.len());
                    let ev = self.log.recent_damage@[e_new];
                    let st = strikes@[strikes_before.len() as int];
                    let roll = choose|r: u64| {
                        &&& r < PERMILLE
                        &&& is_crit == spec_crit_applies(r, attacker_stats.crit_chance)
                        &&& amount == spec_final_damage(r, old(entry).hitbox.damage,
                            attacker_stats, cs0[ti as int].stats)
                    };
                    assert(roll < PERMILLE
                        && ev.is_crit == spec_crit_applies(roll, attacker_stats.crit_chance)
                        && ev.amount == spec_final_damage(roll, old(entry).hitbox.damage,
                            attacker_stats, cs0[ti as int].stats));
                    assert(c.enemy == cs0[ti as int].enemy);
                    assert(spec_pair_fired(ev, st, *old(entry), attacker_stats,
                        cs0[ti as int], self.combatants@[ti as int]));
                    assert(st.target == target_id && ledger[k as int] == target_id);
                    assert(spec_named_in_range(ledger, r0, k + 1, st.target));
                    // The earlier pairs' records survive: their log and strike
                    // entries kept their values, and their targets differ from
                    // this one, so their combatants were not touched. Together
                    // with the new pair this re-establishes the whole record.
                    assert forall|e: int| e0 <= e < self.log.recent_damage@.len()
                        implies #[trigger] spec_pair_recorded(cs0, self.combatants@,
                            self.log.recent_damage@, strikes@, e0, s0, *old(entry),
                            k + 1, e) by {
                        if e < log_before.len() {
                            assert(spec_pair_recorded(cs0, cs_before, log_before,
                                strikes_before, e0, s0, *old(entry), k as int, e));
                            let st_old = strikes_before[s0 + e - e0];
                            assert(strikes@[s0 + e - e0] == st_old);
                            assert(self.log.recent_damage@[e] == log_before[e]);
                            assert(spec_named_in_range(ledger, r0, k as int,
                                st_old.target));
                            let k2 = choose|k2: int| r0 <= k2 < k
                                && ledger[k2] == st_old.target;
                            assert(spec_named_in_range(ledger, r0, k + 1, st_old.target));
                            assert(ledger[k2] != ledger[k as int]);
                            let tj = spec_index_of_id(cs0, st_old.target);
                            assert(cs0[tj].id == st_old.target
                                && cs0[ti as int].id == target_id);
                            assert(tj != ti as int);
                            assert(self.combatants@[tj] == cs_before[tj]);
                        } else {
                            assert(e == e_new);
                            assert(strikes@[s0 + e - e0] == st);
                            assert(spec_index_of_id(cs0, st.target) == ti as int);
                            assert(spec_named_in_range(ledger, r0, k + 1, st.target));
                        }
                    }
                    // Untouched combatants stay untouched: only the target named
                    // at this ledger position changed.
                    assert forall|i: int| 0 <= i < cs0.len()
                        && !spec_named_in_range(ledger, r0, k + 1, (#[trigger] cs0[i]).id)
                        implies self.combatants@[i] == cs0[i] by {
                        assert(!spec_named_in_range(ledger, r0, k as int, cs0[i].id)) by {
                            if spec_named_in_range(ledger, r0, k as int, cs0[i].id) {
                                let k2 = choose|k2: int| r0 <= k2 < k
                                    && ledger[k2] == cs0[i].id;
                                assert(spec_named_in_range(ledger, r0, k + 1, cs0[i].id));
                            }
                        }
                        assert(cs0[i].id != target_id) by {
                            if cs0[i].id == target_id {
                                assert(spec_named_in_range(ledger, r0, k + 1, cs0[i].id));
                            }
                        }
                        assert(i != ti as int);
                        assert(self.combatants@[i] == cs_before[i]);
                    }
                    // The damage-dealt counter folds the new event in.
                    assert(self.log.recent_damage@.subrange(e0,
                        self.log.recent_damage@.len() as int)
                        =~= log_before.subrange(e0, log_before.len() as int) + seq![ev]);
                    lemma_dealt_fold_concat(old(self).stats.damage_dealt,
                        log_before.subrange(e0, log_before.len() as int), seq![ev]);
                    assert(seq![ev].drop_last() =~= Seq::<DamageEvent>::empty());
                    assert(spec_dealt_fold(spec_dealt_fold(old(self).stats.damage_dealt,
                        log_before.subrange(e0, log_before.len() as int)),
                        Seq::<DamageEvent>::empty())
                        == spec_dealt_fold(old(self).stats.damage_dealt,
                            log_before.subrange(e0, log_before.len() as int)));
                }
            } else {
                proof {
                    let ghost e0 = old(self).log.recent_damage@.len() as int;
                    let ghost s0 = old(strikes)@.len() as int;
                    let ghost r0 = old(entry).hitbox.resolved_hits as int;
                    let ghost cs0 = old(self).combatants@;
                    assert forall|e: int| e0 <= e < self.log.recent_damage@.len()
                        implies #[trigger] spec_pair_recorded(cs0, self.combatants@,
                            self.log.recent_damage@, strikes@, e0, s0, *old(entry),
                            k + 1, e) by {
                        assert(spec_pair_recorded(cs0, self.combatants@,
                            self.log.recent_damage@, strikes@, e0, s0, *old(entry),
                            k as int, e));
                        let st_e = strikes@[s0 + e - e0];
                        assert(spec_named_in_range(ledger, r0, k as int, st_e.target));
                        let k2 = choose|k2: int| r0 <= k2 < k
                            && ledger[k2] == st_e.target;
                        assert(spec_named_in_range(ledger, r0, k + 1, st_e.target));
                    }
                    assert forall|i: int| 0 <= i < cs0.len()
                        && !spec_named_in_range(ledger, r0, k + 1, (#[trigger] cs0[i]).id)
                        implies self.combatants@[i] == cs0[i] by {
                        assert(!spec_named_in_range(ledger, r0, k as int, cs0[i].id)) by {
                            if spec_named_in_range(ledger, r0, k as int, cs0[i].id) {
                                let k2 = choose|k2: int| r0 <= k2 < k
                                    && ledger[k2] == cs0[i].id;
                                assert(spec_named_in_range(ledger, r0, k + 1, cs0[i].id));
                            }
                        }
                    }
                }
            }
            k = k + 1;
        }
        proof {
            let e0 = old(self).log.recent_damage@.len() as int;
            let s0 = old(strikes)@.len() as int;
            let r0 = old(entry).hitbox.resolved_hits as int;
            let cs0 = old(self).combatants@;
            assert(spec_volume_events_fired(cs0, self.combatants@, self.log.recent_damage@,
                strikes@, e0, s0, *old(entry))) by {
                assert(ledger == old(entry).hitbox.hit_entities@);
                assert forall|e: int| e0 <= e < self.log.recent_damage@.len()
                    implies #[trigger] spec_pair_recorded(cs0, self.combatants@,
                        self.log.recent_damage@, strikes@, e0, s0, *old(entry),
                        old(entry).hitbox.hit_entities@.len() as int, e) by {
                    assert(spec_pair_recorded(cs0, self.combatants@,
                        self.log.recent_damage@, strikes@, e0, s0, *old(entry),
                        k as int, e));
                    assert(k as int == old(entry).hitbox.hit_entities@.len() as int);
                }
            }
        }
        entry.hitbox.resolved_hits = entry.hitbox.hit_entities.len();
    }

    /// The damage pipeline: for every (hit volume, ledger entry) pair not
    /// yet consumed, draw one crit roll, apply the armor floor and the
    /// damage reduction, lower the target's health, log a telemetry event,
    /// flag deaths, and collect the knockback strikes owed to the same
    /// ledger entries.
    pub fn apply_damage(&mut self) -> (strikes: Vec<Strike>)
        requires
            old(self).wf(),
        ensures
            final(self).wf(),
            spec_damage_pass(*old(self), *final(self), strikes@),
    {
        let mut strikes: Vec<Strike> = Vec::new();
        let mut h: usize = 0;
        while h < self.hitboxes.len()
            invariant
                self.wf(),
                h <= self.hitboxes@.len(),
                self.hitboxes@.len() == old(self).hitboxes@.len(),
                self.game == old(self).game,
                self.time_ms == old(self).time_ms,
                self.combatants@.len() == old(self).combatants@.len(),
                spec_ids_unique(old(self).combatants@),
                forall|i: int| 0 <= i < old(self).combatants@.len()
                    ==> spec_damaged(#[trigger] self.combatants@[i],
                        old(self).combatants@[i]),
                forall|k: int| 0 <= k < h
                    ==> spec_entry_resolved(#[trigger] self.hitboxes@[k],
                        old(self).hitboxes@[k], old(self).combatants@),
                forall|k: int| h <= k < self.hitboxes@.len()
                    ==> #[trigger] self.hitboxes@[k] == old(self).hitboxes@[k],
                old(self).log.recent_damage@.is_prefix_of(self.log.recent_damage@),
                forall|e: int| old(self).log.recent_damage@.len() <= e
                    < self.log.recent_damage@.len()
                    ==> spec_fresh_event(#[trigger] self.log.recent_damage@[e],
                        old(self).time_ms),
                self.log.recent_damage@.len() == old(self).log.recent_damage@.len()
                    + spec_total_pairs_owed(old(self).combatants@, old(self).hitboxes@,
                        h as int),
                strikes@.len() == spec_total_pairs_owed(old(self).combatants@,
                    old(self).hitboxes@, h as int),
                self.stats == (RunStats {
                    damage_dealt: self.stats.damage_dealt,
                    ..old(self).stats
                }),
                self.stats.damage_dealt >= old(self).stats.damage_dealt,
                self.stats.damage_dealt == spec_dealt_fold(old(self).stats.damage_dealt,
                    self.log.recent_damage@.subrange(
                        old(self).log.recent_damage@.len() as int,
                        self.log.recent_damage@.len() as int)),
                forall|s: int| 0 <= s < strikes@.len() ==> (#[trigger] strikes@[s]).wf(),
                forall|i: int| 0 <= i < old(self).combatants@.len()
                    && !spec_named_in_any(old(self).hitboxes@,
                        (#[trigger] old(self).combatants@[i]).id)
                    ==> self.combatants@[i] == old(self).combatants@[i],
                forall|e: int| old(self).log.recent_damage@.len() <= e
                    < self.log.recent_damage@.len()
                    ==> #[trigger] spec_event_accounted(self.log.recent_damage@[e],
                        strikes@[e - old(self).log.recent_damage@.len()],
                        old(self).combatants@, old(self).hitboxes@),
            decreases self.hitboxes@.len() - h,
        {
            let ghost pre = self.hitboxes@;
            let ghost combatants_mid = self.combatants@;
            let ghost log_mid = self.log.recent_damage@;
            let ghost strikes_mid = strikes@;
            let mut entry = self.hitboxes.remove(h);
            let ghost orig = entry;
            self.resolve_entry_damage(&mut entry, &mut strikes);
            self.hitboxes.insert(h, entry);
            proof {
                assert(forall|e: int| 0 <= e < log_mid.len()
                    ==> self.log.recent_damage@[e] == log_mid[e]);
                assert(forall|s: int| 0 <= s < strikes_mid.len()
                    ==> strikes@[s] == strikes_mid[s]);
                assert(old(self).log.recent_damage@.is_prefix_of(self.log.recent_damage@))
                    by {
                    assert(old(self).log.recent_damage@ =~= self.log.recent_damage@
                        .subrange(0, old(self).log.recent_damage@.len() as int));
                }
                assert forall|e: int| old(self).log.recent_damage@.len() <= e
                    < self.log.recent_damage@.len()
                    implies spec_fresh_event(#[trigger] self.log.recent_damage@[e],
                        old(self).time_ms) by {
                    if e < log_mid.len() {
                        assert(self.log.recent_damage@[e] == log_mid[e]);
                        assert(spec_fresh_event(log_mid[e], old(self).time_ms));
                    }
                }
                assert forall|s: int| 0 <= s < strikes@.len()
                    implies (#[trigger] strikes@[s]).wf() by {
                    if s < strikes_mid.len() {
                        assert(strikes@[s] == strikes_mid[s]);
                        assert(strikes_mid[s].wf());
                    }
                }
                assert(spec_total_pairs_owed(old(self).combatants@, old(self).hitboxes@,
                    h + 1) == spec_total_pairs_owed(old(self).combatants@,
                    old(self).hitboxes@, h as int) + spec_pairs_owed(old(self).combatants@,
                    old(self).hitboxes@[h as int]));
                assert(orig == old(self).hitboxes@[h as int]);
                lemma_present_targets_by_ids(combatants_mid, old(self).combatants@,
                    orig.hitbox.hit_entities@, orig.hitbox.hit_entities@.len() as int);
                lemma_present_targets_by_ids(combatants_mid, old(self).combatants@,
                    orig.hitbox.hit_entities@, orig.hitbox.resolved_hits as int);
                assert(spec_id_present(combatants_mid, orig.owner)
                    == spec_id_present(old(self).combatants@, orig.owner)) by {
                    if spec_id_present(combatants_mid, orig.owner) {
                        let w = choose|w: int| 0 <= w < combatants_mid.len()
                            && combatants_mid[w].id == orig.owner;
                        assert(old(self).combatants@[w].id == orig.owner);
                    }
                    if spec_id_present(old(self).combatants@, orig.owner) {
                        let w = choose|w: int| 0 <= w < old(self).combatants@.len()
                            && old(self).combatants@[w].id == orig.owner;
                        assert(combatants_mid[w].id == orig.owner);
                    }
                }
                assert(spec_pairs_owed(combatants_mid, orig)
                    == spec_pairs_owed(old(self).combatants@, orig));
                assert(self.hitboxes@ =~= pre.update(h as int, entry));
                assert(spec_entry_resolved(entry, old(self).hitboxes@[h as int],
                    combatants_mid));
                assert(spec_entry_resolved(self.hitboxes@[h as int],
                    old(self).hitboxes@[h as int], old(self).combatants@));
                let e0p = old(self).log.recent_damage@.len() as int;
                let e0h = log_mid.len() as int;
                let s0h = strikes_mid.len() as int;
                let cs0 = old(self).combatants@;
                // Indices agree between the two arenas, so index lookups and
                // statistics transfer from the volume's view to the pre-pass
                // view.
                assert(forall|i: int| 0 <= i < cs0.len()
                    ==> (#[trigger] combatants_mid[i]).id == cs0[i].id
                        && combatants_mid[i].stats == cs0[i].stats);
                // Combatants named in no unconsumed ledger entry are untouched.
                assert forall|i: int| 0 <= i < cs0.len()
                    && !spec_named_in_any(old(self).hitboxes@, (#[trigger] cs0[i]).id)
                    implies self.combatants@[i] == cs0[i] by {
                    assert(combatants_mid[i] == cs0[i]);
                    assert(!spec_named_unconsumed(orig, combatants_mid[i].id)) by {
                        if spec_named_unconsumed(orig, combatants_mid[i].id) {
                            assert(spec_named_unconsumed(old(self).hitboxes@[h as int],
                                cs0[i].id));
                            assert(spec_named_in_any(old(self).hitboxes@, cs0[i].id));
                        }
                    }
                    assert(self.combatants@[i] == combatants_mid[i]);
                }
                // The damage-dealt counter folds the volume's events onto the
                // pass's running fold.
                assert(self.log.recent_damage@.subrange(e0p,
                    self.log.recent_damage@.len() as int)
                    =~= log_mid.subrange(e0p, e0h)
                        + self.log.recent_damage@.subrange(e0h,
                            self.log.recent_damage@.len() as int));
                assert(log_mid.subrange(e0p, e0h)
                    =~= self.log.recent_damage@.subrange(e0p, e0h));
                lemma_dealt_fold_concat(old(self).stats.damage_dealt,
                    log_mid.subrange(e0p, e0h),
                    self.log.recent_damage@.subrange(e0h,
                        self.log.recent_damage@.len() as int));
                // Each event this volume appended is accounted by the volume
                // itself and the crit roll behind its pair.
                assert forall|e: int| e0p <= e < self.log.recent_damage@.len()
                    implies #[trigger] spec_event_accounted(self.log.recent_damage@[e],
                        strikes@[e - e0p], cs0, old(self).hitboxes@) by {
                    if e < e0h {
                        assert(self.log.recent_damage@[e] == log_mid[e]);
                        assert(strikes@[e - e0p] == strikes_mid[e - e0p]);
                        assert(spec_event_accounted(log_mid[e], strikes_mid[e - e0p],
                            cs0, old(self).hitboxes@));
                    } else {
                        assert(s0h + e - e0h == e - e0p);
                        assert(spec_pair_recorded(combatants_mid, self.combatants@,
                            self.log.recent_damage@, strikes@, e0h, s0h, orig,
                            orig.hitbox.hit_entities@.len() as int, e));
                        let st = strikes@[s0h + e - e0h];
                        let ti_mid = spec_index_of_id(combatants_mid, st.target);
                        let oi_mid = spec_index_of_id(combatants_mid, orig.owner);
                        assert(spec_pair_fired(self.log.recent_damage@[e], st, orig,
                            combatants_mid[oi_mid].stats, combatants_mid[ti_mid],
                            self.combatants@[ti_mid]));
                        let roll = choose|r: u64| {
                            &&& r < PERMILLE
                            &&& self.log.recent_damage@[e].is_crit
                                == spec_crit_applies(r,
                                combatants_mid[oi_mid].stats.crit_chance)
                            &&& self.log.recent_damage@[e].amount
                                == spec_final_damage(r, orig.hitbox.damage,
                                combatants_mid[oi_mid].stats,
                                combatants_mid[ti_mid].stats)
                        };
                        assert(0 <= oi_mid < combatants_mid.len()
                            && combatants_mid[oi_mid].id == orig.owner);
                        assert(cs0[oi_mid].id == orig.owner);
                        let oi0 = spec_index_of_id(cs0, orig.owner);
                        assert(0 <= oi0 < cs0.len() && cs0[oi0].id == orig.owner);
                        assert(oi0 == oi_mid);
                        assert(0 <= ti_mid < combatants_mid.len()
                            && combatants_mid[ti_mid].id == st.target);
                        assert(cs0[ti_mid].id == st.target);
                        let ti0 = spec_index_of_id(cs0, st.target);
                        assert(0 <= ti0 < cs0.len() && cs0[ti0].id == st.target);
                        assert(ti0 == ti_mid);
                        assert(spec_id_present(cs0, orig.owner)
                            && spec_id_present(cs0, st.target));
                        assert(spec_named_unconsumed(old(self).hitboxes@[h as int],
                            st.target));
                        assert(0 <= h < old(self).hitboxes@.len());
                        assert(self.log.recent_damage@[e].amount
                            == spec_final_damage(roll,
                            old(self).hitboxes@[h as int].hitbox.damage,
                            cs0[spec_index_of_id(cs0,
                                old(self).hitboxes@[h as int].owner)].stats,
                            cs0[spec_index_of_id(cs0, st.target)].stats));
                        assert(spec_event_accounted(self.log.recent_damage@[e],
                            strikes@[e - e0p], cs0, old(self).hitboxes@));
                    }
                }
            }
            h = h + 1;
        }
        strikes
    }

    /// The knockback applicator: each strike owed by the damage pipeline
    /// adds an impulse along the direction from the hit position to its
    /// target, in order; impulses compound, strikes on vanished targets and
    /// exact coincidences are no-ops.
    pub fn apply_knockback(&mut self, strikes: &Vec<Strike>)
        requires
            old(self).wf(),
            forall|s: int| 0 <= s < strikes@.len() ==> (#[trigger] strikes@[s]).wf(),
        ensures
            final(self).wf(),
            spec_knockback_pass(*old(self), *final(self), strikes@),
    {
        let mut i: usize = 0;
        proof {
            assert(strikes@.take(0) =~= Seq::<Strike>::empty());
        }
        while i < strikes.len()
            invariant
                self.wf(),
                i <= strikes@.len(),
                forall|s: int| 0 <= s < strikes@.len() ==> (#[trigger] strikes@[s]).wf(),
                self.combatants@ == spec_strikes_applied(old(self).combatants@,
                    strikes@.take(i as int)),
                self.hitboxes@ == old(self).hitboxes@,
                self.game == old(self).game,
                self.stats == old(self).stats,
                self.log == old(self).log,
                self.time_ms == old(self).time_ms,
            decreases strikes@.len() - i,
        {
            let s = strikes[i];
            let ghost cs_mid = self.combatants@;
            if let Some(ti) = self.find_combatant(s.target) {
                let mut c = self.combatants[ti];
                crate::knockback::apply_knockback(&mut c.velocity, s.hit_pos, c.pos,
                    s.knockback);
                self.combatants[ti] = c;
                proof {
                    assert(spec_id_present(cs_mid, s.target));
                    let j = choose|j: int| 0 <= j < cs_mid.len()
                        && cs_mid[j].id == s.target;
                    assert(j == ti as int);
                    assert(c == spec_struck_velocity(cs_mid[ti as int], s));
                    assert(self.combatants@ =~= spec_strike_applied(cs_mid, s));
                }
            } else {
                proof {
                    assert(!spec_id_present(cs_mid, s.target));
                    assert(self.combatants@ == spec_strike_applied(cs_mid, s));
                }
            }
            proof {
                assert(strikes@.take(i + 1).drop_last() =~= strikes@.take(i as int));
                assert(strikes@.take(i + 1).last() == strikes@[i as int]);
            }
            i = i + 1;
        }
        proof {
            assert(strikes@.take(strikes@.len() as int) =~= strikes@);
        }
    }

    /// Death handling: flagged enemy-tagged combatants leave the world and
    /// count as kills, exactly once each; a flagged locally-controlled
    /// player stays in the world for the death-screen presentation, its
    /// flag consumed, the run state turns to the defeated terminal state and
    /// the death counter grows, exactly once.
    #[verifier::rlimit(60)]
    pub fn handle_death(&mut self)
        requires
            old(self).wf(),
        ensures
            final(self).wf(),
            spec_death_pass(*old(self), *final(self)),
    {
        let mut kept: Vec<Combatant> = Vec::new();
        let mut kills: u64 = 0;
        let mut deaths: u64 = 0;
        let mut i: usize = 0;
        proof {
            assert(self.combatants@.take(0) =~= Seq::<Combatant>::empty());
        }
        while i < self.combatants.len()
            invariant
                self.wf(),
                i <= self.combatants@.len(),
                kept@ == spec_deaths_handled(self.combatants@.take(i as int)).0,
                kills == spec_deaths_handled(self.combatants@.take(i as int)).1,
                deaths == spec_deaths_handled(self.combatants@.take(i as int)).2,
                kills <= i,
                deaths <= i,
                *self == *old(self),
            decreases self.combatants@.len() - i,
        {
            let c = self.combatants[i];
            proof {
                assert(self.combatants@.take(i + 1).drop_last()
                    =~= self.combatants@.take(i as int));
                assert(self.combatants@.take(i + 1).last() == self.combatants@[i as int]);
            }
            if c.pending_death {
                if c.enemy.is_some() {
                    kills = kills + 1;
                } else if c.is_player {
                    let mut cleared = c;
                    cleared.pending_death = false;
                    kept.push(cleared);
                    deaths = deaths + 1;
                } else {
                    kept.push(c);
                }
            } else {
                kept.push(c);
            }
            i = i + 1;
        }
        proof {
            assert(self.combatants@.take(self.combatants@.len() as int)
                =~= self.combatants@);
            lemma_deaths_handled_wf(self.combatants@);
        }
        self.combatants = kept;
        self.stats.enemies_killed = sat_add(self.stats.enemies_killed, kills);
        if deaths > 0 {
            self.game.current_state = crate::state::CurrentGameState::Death;
        }
        self.stats.deaths = sat_add(self.stats.deaths, deaths);
    }

    /// The cleanup pass: a hit volume whose owner is gone, or whose owning
    /// attack has left its damage window, is taken down; live volumes stay
    /// in order.
    pub fn cleanup_hitboxes(&mut self)
        requires
            old(self).wf(),
        ensures
            final(self).wf(),
            spec_cleanup_pass(*old(self), *final(self)),
    {
        let ghost pred = |e: HitboxEntry| spec_hitbox_live(old(self).combatants@, e);
        let ghost orig = self.hitboxes@;
        let mut kept: Vec<HitboxEntry> = Vec::new();
        let mut h: usize = 0;
        let total = self.hitboxes.len();
        proof {
            assert(orig.take(0).filter(pred) =~= Seq::<HitboxEntry>::empty());
            assert(orig.subrange(0, orig.len() as int) =~= orig);
        }
        while h < total
            invariant
                self.wf(),
                h <= total,
                total == orig.len(),
                self.combatants@ == old(self).combatants@,
                self.game == old(self).game,
                self.stats == old(self).stats,
                self.log == old(self).log,
                self.time_ms == old(self).time_ms,
                self.hitboxes@ == orig.subrange(h as int, orig.len() as int),
                kept@ == orig.take(h as int).filter(pred),
                pred == (|e: HitboxEntry| spec_hitbox_live(old(self).combatants@, e)),
                forall|k: int| 0 <= k < kept@.len() ==> (#[trigger] kept@[k]).wf(),
                forall|k: int| 0 <= k < orig.len() ==> (#[trigger] orig[k]).wf(),
            decreases total - h,
        {
            let entry = self.hitboxes.remove(0);
            proof {
                assert(entry == orig[h as int]);
                assert(self.hitboxes@ =~= orig.subrange(h + 1, orig.len() as int));
            }
            let keep = match self.find_combatant(entry.owner) {
                Some(oi) => {
                    let c = self.combatants[oi];
                    match entry.kind {
                        HitboxKind::AttackHitbox => c.attack.is_attacking
                            && !c.attack.active_timer.finished(),
                        HitboxKind::EnemyAttack => match c.ai {
                            Some(ai) => matches!(ai.state, crate::ai::AIState::Attacking),
                            None => false,
                        },
                    }
                },
                None => false,
            };
            proof {
                if keep {
                    assert(spec_hitbox_live(old(self).combatants@, entry));
                } else {
                    if spec_hitbox_live(old(self).combatants@, entry) {
                        let j = choose|j: int| 0 <= j < old(self).combatants@.len()
                            && old(self).combatants@[j].id == entry.owner
                            && match entry.kind {
                                HitboxKind::AttackHitbox => old(self).combatants@[j]
                                    .attack.is_attacking
                                    && !old(self).combatants@[j].attack.active_timer
                                    .spec_finished(),
                                HitboxKind::EnemyAttack => old(self).combatants@[j].ai
                                    matches Some(ai) && ai.state is Attacking,
                            };
                        assert(false);
                    }
                }
                orig.take(h as int).lemma_filter_push(entry, pred);
                assert(orig.take(h + 1) =~= orig.take(h as int).push(entry));
            }
            if keep {
                kept.push(entry);
            }
            h = h + 1;
        }
        proof {
            assert(orig.take(orig.len() as int) =~= orig);
        }
        self.hitboxes = kept;
    }

    /// The enemy tick: each enemy advances its behavior cycle against the
    /// tracked target, moves by the locomotion policy, and — at the moment
    /// it enters its attacking state — its attack intent is consumed: a
    /// melee enemy lands one hit volume, a ranged one one projectile, per
    /// telegraphed cycle. Returns the projectiles launched this tick.
    pub fn enemy_tick(&mut self, player_id: u64, player_pos: Vec2, delta_ms: u64) -> (shots:
        Vec<ProjectileEntry>)
        requires
            old(self).wf(),
            player_pos.bounded(),
            delta_ms <= crate::units::TICK_LIMIT_MS,
        ensures
            final(self).wf(),
            spec_enemy_tick_rel(*old(self), *final(self), shots@, player_id, player_pos,
                delta_ms),
    {
        let mut shots: Vec<ProjectileEntry> = Vec::new();
        let mut i: usize = 0;
        while i < self.combatants.len()
            invariant
                self.wf(),
                i <= self.combatants@.len(),
                player_pos.bounded(),
                delta_ms <= crate::units::TICK_LIMIT_MS,
                self.combatants@.len() == old(self).combatants@.len(),
                forall|j: int| 0 <= j < i
                    ==> spec_enemy_ticked(#[trigger] self.combatants@[j],
                        old(self).combatants@[j], player_id, player_pos, delta_ms),
                forall|j: int| i <= j < self.combatants@.len()
                    ==> #[trigger] self.combatants@[j] == old(self).combatants@[j],
                old(self).hitboxes@.is_prefix_of(self.hitboxes@),
                forall|k: int| old(self).hitboxes@.len() <= k < self.hitboxes@.len()
                    ==> spec_enemy_spawn_witnessed(#[trigger] self.hitboxes@[k],
                        old(self).combatants@, player_id, player_pos, delta_ms),
                forall|s: int| 0 <= s < shots@.len()
                    ==> spec_projectile_witnessed(#[trigger] shots@[s],
                        old(self).combatants@, player_id, player_pos, delta_ms)
                        && shots@[s].wf(),
                forall|j: int| 0 <= j < i
                    && spec_entered_attacking(#[trigger] old(self).combatants@[j], player_id,
                        player_pos, delta_ms)
                    && spec_melee_type(old(self).combatants@[j])
                    ==> spec_has_hitbox(self.hitboxes@, old(self).combatants@[j].id),
                forall|j: int| 0 <= j < i
                    && spec_entered_attacking(#[trigger] old(self).combatants@[j], player_id,
                        player_pos, delta_ms)
                    && spec_ranged_type(old(self).combatants@[j])
                    ==> spec_has_shot(shots@, old(self).combatants@[j].id),
                self.game == old(self).game,
                self.stats == old(self).stats,
                self.log == old(self).log,
                self.time_ms == old(self).time_ms,
            decreases self.combatants@.len() - i,
        {
            let c0 = self.combatants[i];
            if c0.is_player {
                i = i + 1;
                continue;
            }
            let (en, mut ai_v) = match (c0.enemy, c0.ai) {
                (Some(en), Some(a)) => (en, a),
                _ => {
                    i = i + 1;
                    continue;
                },
            };
            let ghost was_attacking = ai_v.state is Attacking;
            let mut c = c0;
            crate::ai::update_enemy_ai(&mut ai_v, &en, &c.health, c.pos, player_id,
                player_pos, delta_ms);
            let cmd = crate::ai::enemy_movement(ai_v.state, &en, c.pos, player_pos,
                c.velocity);
            match cmd {
                crate::ai::MoveCommand::Drive(v) => {
                    c.velocity = v;
                    crate::movement::apply_velocity(&mut c.pos, v, delta_ms);
                },
                crate::ai::MoveCommand::Wander => {},
            }
            c.ai = Some(ai_v);
            self.combatants[i] = c;
            proof {
                assert(spec_enemy_ticked(self.combatants@[i as int],
                    old(self).combatants@[i as int], player_id, player_pos, delta_ms));
            }
            if !was_attacking_now(&c0) && matches!(ai_v.state, crate::ai::AIState::Attacking) {
                let ghost pre = self.hitboxes@;
                let ghost shots_pre = shots@;
                match crate::ai::enemy_attack_system(ai_v.state, &en, &c.stats, c.id, c.pos,
                    player_pos) {
                    Some(crate::ai::AttackIntent::MeleeHitbox { hitbox, offset: _ }) => {
                        self.hitboxes.push(HitboxEntry {
                            owner: c.id,
                            kind: HitboxKind::EnemyAttack,
                            pos: c.pos,
                            hitbox,
                        });
                        proof {
                            assert(forall|m: int| 0 <= m < pre.len()
                                ==> self.hitboxes@[m] == pre[m]);
                            assert(old(self).hitboxes@.is_prefix_of(self.hitboxes@)) by {
                                assert(old(self).hitboxes@ =~= self.hitboxes@.subrange(0,
                                    old(self).hitboxes@.len() as int));
                            }
                            assert(c == spec_enemy_ticked_value(
                                old(self).combatants@[i as int], player_id, player_pos,
                                delta_ms));
                            assert(spec_is_enemy_melee_spawn(
                                self.hitboxes@[pre.len() as int], c, player_pos));
                            assert(spec_entered_attacking(old(self).combatants@[i as int],
                                player_id, player_pos, delta_ms));
                            assert(spec_enemy_spawn_witnessed(
                                self.hitboxes@[pre.len() as int], old(self).combatants@,
                                player_id, player_pos, delta_ms));
                        }
                    },
                    Some(crate::ai::AttackIntent::RangedProjectile { projectile, velocity,
                    }) => {
                        shots.push(ProjectileEntry { projectile, pos: c.pos, velocity });
                        proof {
                            assert(forall|m: int| 0 <= m < shots_pre.len()
                                ==> shots@[m] == shots_pre[m]);
                            assert(c == spec_enemy_ticked_value(
                                old(self).combatants@[i as int], player_id, player_pos,
                                delta_ms));
                            assert(spec_is_enemy_projectile(shots@[shots_pre.len() as int],
                                c, player_pos));
                            assert(spec_entered_attacking(old(self).combatants@[i as int],
                                player_id, player_pos, delta_ms));
                            assert(spec_projectile_witnessed(
                                shots@[shots_pre.len() as int], old(self).combatants@,
                                player_id, player_pos, delta_ms));
                        }
                    },
                    None => {},
                }
            }
            i = i + 1;
        }
        shots
    }

    /// The enemy phase of one tick: find the locally-controlled target and
    /// step every enemy against it. A missing target makes the whole phase
    /// a no-op for the tick, not an error.
    pub fn enemy_phase(&mut self, delta_ms: u64) -> (shots: Vec<ProjectileEntry>)
        requires
            old(self).wf(),
            delta_ms <= crate::units::TICK_LIMIT_MS,
        ensures
            final(self).wf(),
            (forall|i: int| 0 <= i < old(self).combatants@.len()
                ==> !(#[trigger] old(self).combatants@[i]).is_player)
                ==> *final(self) == *old(self)
                    && shots@ == Seq::<ProjectileEntry>::empty(),
            (exists|i: int| 0 <= i < old(self).combatants@.len()
                && (#[trigger] old(self).combatants@[i]).is_player)
                ==> exists|pi: int| {
                    &&& 0 <= pi < old(self).combatants@.len()
                    &&& (#[trigger] old(self).combatants@[pi]).is_player
                    &&& spec_enemy_tick_rel(*old(self), *final(self), shots@,
                        old(self).combatants@[pi].id, old(self).combatants@[pi].pos,
                        delta_ms)
                },
    {
        match self.find_player() {
            Some(pi) => {
                let player_id = self.combatants[pi].id;
                let player_pos = self.combatants[pi].pos;
                let shots = self.enemy_tick(player_id, player_pos, delta_ms);
                proof {
                    assert(0 <= pi < old(self).combatants@.len()
                        && old(self).combatants@[pi as int].is_player
                        && spec_enemy_tick_rel(*old(self), *self, shots@,
                            old(self).combatants@[pi as int].id,
                            old(self).combatants@[pi as int].pos, delta_ms));
                }
                shots
            },
            None => Vec::new(),
        }
    }

    /// One combat tick in the fixed pipeline order: the attack state
    /// machines advance, hit volumes spawn for attacks entering their
    /// active phase, hit detection records strikes, the damage pipeline
    /// consumes them, knockback follows the same ledger entries, deaths are
    /// handled, and stale hit volumes are cleaned up — the whole chain is
    /// promised by `spec_combat_pipeline`, which composes the seven pass
    /// relations through the tick's intermediate worlds. The tick is a
    /// no-op outside combat (between runs, or paused). The clock advances
    /// first, saturating at its bound.
    pub fn combat_tick(&mut self, delta_ms: u64)
        requires
            old(self).wf(),
            delta_ms <= crate::units::TICK_LIMIT_MS,
        ensures
            final(self).wf(),
            !crate::state::spec_in_combat(old(self).game) ==> *final(self) == *old(self),
            crate::state::spec_in_combat(old(self).game) ==> final(self).time_ms
                == spec_capped_time(old(self).time_ms, delta_ms)
                && spec_combat_pipeline(World {
                    time_ms: spec_capped_time(old(self).time_ms, delta_ms) as u64,
                    ..*old(self)
                }, *final(self), delta_ms),
    {
        if !crate::state::in_combat(&self.game) {
            return;
        }
        if self.time_ms + delta_ms <= DURATION_LIMIT_MS {
            self.time_ms = self.time_ms + delta_ms;
        } else {
            self.time_ms = DURATION_LIMIT_MS;
        }
        let ghost ticked = *self;
        self.update_attack_state(delta_ms);
        let ghost w1 = *self;
        self.spawn_hitboxes();
        let ghost w2 = *self;
        self.check_hit_detection();
        let ghost w3 = *self;
        let strikes = self.apply_damage();
        let ghost w4 = *self;
        self.apply_knockback(&strikes);
        let ghost w5 = *self;
        self.handle_death();
        let ghost w6 = *self;
        self.cleanup_hitboxes();
        proof {
            assert(ticked == (World {
                time_ms: spec_capped_time(old(self).time_ms, delta_ms) as u64,
                ..*old(self)
            }));
            assert(spec_attack_pass(ticked, w1, delta_ms) && spec_spawn_pass(w1, w2)
                && spec_detection_pass(w2, w3) && spec_damage_pass(w3, w4, strikes@)
                && spec_knockback_pass(w4, w5, strikes@) && spec_death_pass(w5, w6)
                && spec_cleanup_pass(w6, *self));
            assert(spec_combat_pipeline(ticked, *self, delta_ms));
        }
    }
}

/// What the attack-advance pass does: every combatant's attack state takes
/// exactly its one-step transition; nothing else changes.
pub open spec fn spec_attack_pass(pre: World, post: World, delta_ms: u64) -> bool {
    &&& post.combatants@.len() == pre.combatants@.len()
    &&& forall|i: int| 0 <= i < pre.combatants@.len()
        ==> #[trigger] post.combatants@[i] == (Combatant {
            attack: pre.combatants@[i].attack.spec_advanced(delta_ms),
            ..pre.combatants@[i]
        })
    &&& post.hitboxes@ == pre.hitboxes@
    &&& post.game == pre.game
    &&& post.stats == pre.stats
    &&& post.log == pre.log
    &&& post.time_ms == pre.time_ms
}

/// What the hitbox-spawn pass does: the old volumes survive untouched, each
/// appended volume is witnessed by a combatant in its active phase that
/// owned none, owners of appended volumes are distinct, and every
/// active-phase combatant owns a volume afterwards.
pub open spec fn spec_spawn_pass(pre: World, post: World) -> bool {
    &&& post.combatants@ == pre.combatants@
    &&& post.game == pre.game
    &&& post.stats == pre.stats
    &&& post.log == pre.log
    &&& post.time_ms == pre.time_ms
    &&& pre.hitboxes@.is_prefix_of(post.hitboxes@)
    &&& forall|k: int| pre.hitboxes@.len() <= k < post.hitboxes@.len()
        ==> spec_spawn_witnessed(#[trigger] post.hitboxes@[k], pre.combatants@,
            pre.hitboxes@)
    &&& forall|i: int| 0 <= i < pre.combatants@.len()
        && (#[trigger] pre.combatants@[i]).attack.in_active_phase()
        ==> spec_has_hitbox(post.hitboxes@, pre.combatants@[i].id)
    &&& forall|k1: int, k2: int|
        pre.hitboxes@.len() <= k1 < post.hitboxes@.len()
            && pre.hitboxes@.len() <= k2 < post.hitboxes@.len()
            && (#[trigger] post.hitboxes@[k1]).owner == (#[trigger] post.hitboxes@[k2]).owner
        ==> k1 == k2
}

/// What the hit-detection pass does: each volume relates to its old self by
/// the detection relation against the (unchanged) arena.
pub open spec fn spec_detection_pass(pre: World, post: World) -> bool {
    &&& post.combatants@ == pre.combatants@
    &&& post.game == pre.game
    &&& post.stats == pre.stats
    &&& post.log == pre.log
    &&& post.time_ms == pre.time_ms
    &&& post.hitboxes@.len() == pre.hitboxes@.len()
    &&& forall|h: int| 0 <= h < pre.hitboxes@.len()
        ==> spec_detected(#[trigger] post.hitboxes@[h], pre.hitboxes@[h], pre.combatants@)
}

/// What the damage pass does: every ledger is consumed whole (owners
/// permitting); combatants change only by falling health and raised death
/// flags, and those named in no unconsumed ledger entry are untouched;
/// exactly one fresh telemetry event and one aligned knockback strike is
/// owed per consumed pair with a present target, each event's amount and
/// crit flag explained by some volume and crit roll; and the damage-dealt
/// counter is exactly the old value with every logged amount added
/// saturating, in order.
pub open spec fn spec_damage_pass(pre: World, post: World, strikes: Seq<Strike>) -> bool {
    &&& post.game == pre.game
    &&& post.time_ms == pre.time_ms
    &&& post.combatants@.len() == pre.combatants@.len()
    &&& forall|i: int| 0 <= i < pre.combatants@.len()
        ==> spec_damaged(#[trigger] post.combatants@[i], pre.combatants@[i])
    &&& post.hitboxes@.len() == pre.hitboxes@.len()
    &&& forall|h: int| 0 <= h < pre.hitboxes@.len()
        ==> spec_entry_resolved(#[trigger] post.hitboxes@[h], pre.hitboxes@[h],
            pre.combatants@)
    &&& pre.log.recent_damage@.is_prefix_of(post.log.recent_damage@)
    &&& forall|e: int| pre.log.recent_damage@.len() <= e < post.log.recent_damage@.len()
        ==> spec_fresh_event(#[trigger] post.log.recent_damage@[e], pre.time_ms)
    &&& post.log.recent_damage@.len() == pre.log.recent_damage@.len()
        + spec_total_pairs_owed(pre.combatants@, pre.hitboxes@, pre.hitboxes@.len() as int)
    &&& strikes.len() == spec_total_pairs_owed(pre.combatants@, pre.hitboxes@,
        pre.hitboxes@.len() as int)
    &&& post.stats == (RunStats { damage_dealt: post.stats.damage_dealt, ..pre.stats })
    &&& post.stats.damage_dealt == spec_dealt_fold(pre.stats.damage_dealt,
        post.log.recent_damage@.subrange(pre.log.recent_damage@.len() as int,
            post.log.recent_damage@.len() as int))
    &&& post.stats.damage_dealt >= pre.stats.damage_dealt
    &&& forall|s: int| 0 <= s < strikes.len() ==> (#[trigger] strikes[s]).wf()
    &&& forall|i: int| 0 <= i < pre.combatants@.len()
        && !spec_named_in_any(pre.hitboxes@, (#[trigger] pre.combatants@[i]).id)
        ==> post.combatants@[i] == pre.combatants@[i]
    &&& forall|e: int| pre.log.recent_damage@.len() <= e < post.log.recent_damage@.len()
        ==> #[trigger] spec_event_accounted(post.log.recent_damage@[e],
            strikes[e - pre.log.recent_damage@.len()], pre.combatants@, pre.hitboxes@)
}

/// What the knockback pass does: the arena equals the fold of the strikes'
/// clamp-added impulses; nothing else changes.
pub open spec fn spec_knockback_pass(pre: World, post: World, strikes: Seq<Strike>) -> bool {
    &&& post.combatants@ == spec_strikes_applied(pre.combatants@, strikes)
    &&& post.hitboxes@ == pre.hitboxes@
    &&& post.game == pre.game
    &&& post.stats == pre.stats
    &&& post.log == pre.log
    &&& post.time_ms == pre.time_ms
}

/// What the death pass does: flagged enemies leave and are counted, a
/// flagged player stays with its flag consumed and turns the run state to
/// the defeated terminal state; nothing else changes.
pub open spec fn spec_death_pass(pre: World, post: World) -> bool {
    &&& post.combatants@ == spec_deaths_handled(pre.combatants@).0
    &&& post.stats == (RunStats {
        enemies_killed: spec_sat_add(pre.stats.enemies_killed,
            spec_deaths_handled(pre.combatants@).1 as u64),
        deaths: spec_sat_add(pre.stats.deaths, spec_deaths_handled(pre.combatants@).2 as u64),
        ..pre.stats
    })
    &&& post.game == (GameState {
        current_state: if spec_deaths_handled(pre.combatants@).2 > 0 {
            crate::state::CurrentGameState::Death
        } else {
            pre.game.current_state
        },
        ..pre.game
    })
    &&& post.hitboxes@ == pre.hitboxes@
    &&& post.log == pre.log
    &&& post.time_ms == pre.time_ms
}

/// What the cleanup pass does: exactly the live volumes survive, in order;
/// nothing else changes.
pub open spec fn spec_cleanup_pass(pre: World, post: World) -> bool {
    &&& post.hitboxes@ == pre.hitboxes@.filter(
        |e: HitboxEntry| spec_hitbox_live(pre.combatants@, e))
    &&& post.combatants@ == pre.combatants@
    &&& post.game == pre.game
    &&& post.stats == pre.stats
    &&& post.log == pre.log
    &&& post.time_ms == pre.time_ms
}

/// One full combat tick between two worlds: the seven passes of the fixed
/// pipeline order, with the intermediate worlds and the strikes handed from
/// the damage pipeline to the knockback applicator quantified away.
pub open spec fn spec_combat_pipeline(pre: World, post: World, delta_ms: u64) -> bool {
    exists|w1: World, w2: World, w3: World, w4: World, w5: World, w6: World,
        strikes: Seq<Strike>|
        #![trigger spec_attack_pass(pre, w1, delta_ms), spec_spawn_pass(w1, w2),
            spec_detection_pass(w2, w3), spec_damage_pass(w3, w4, strikes),
            spec_knockback_pass(w4, w5, strikes), spec_death_pass(w5, w6),
            spec_cleanup_pass(w6, post)]
        {
        &&& spec_attack_pass(pre, w1, delta_ms)
        &&& spec_spawn_pass(w1, w2)
        &&& spec_detection_pass(w2, w3)
        &&& spec_damage_pass(w3, w4, strikes)
        &&& spec_knockback_pass(w4, w5, strikes)
        &&& spec_death_pass(w5, w6)
        &&& spec_cleanup_pass(w6, post)
    }
}

/// The tick clock saturates at its bound.
pub open spec fn spec_capped_time(time_ms: u64, delta_ms: u64) -> int {
    if time_ms + delta_ms <= DURATION_LIMIT_MS {
        time_ms + delta_ms
    } else {
        DURATION_LIMIT_MS as int
    }
}

/// Whether a combatant's AI already stood in its attacking state.
fn was_attacking_now(c: &Combatant) -> (r: bool)
    ensures
        r == (c.ai matches Some(a) && a.state is Attacking),
{
    match c.ai {
        Some(a) => matches!(a.state, crate::ai::AIState::Attacking),
        None => false,
    }
}

/// What the enemy tick does between two worlds, against the tracked target:
/// each enemy steps its cycle and moves per the policy, appended hit
/// volumes and launched projectiles are exactly the intents of enemies
/// entering their attacking state, and nothing else changes.
pub open spec fn spec_enemy_tick_rel(
    pre: World,
    post: World,
    shots: Seq<ProjectileEntry>,
    player_id: u64,
    player_pos: Vec2,
    delta_ms: u64,
) -> bool {
    &&& post.combatants@.len() == pre.combatants@.len()
    &&& forall|i: int| 0 <= i < pre.combatants@.len()
        ==> spec_enemy_ticked(#[trigger] post.combatants@[i], pre.combatants@[i],
            player_id, player_pos, delta_ms)
    &&& pre.hitboxes@.is_prefix_of(post.hitboxes@)
    &&& forall|k: int| pre.hitboxes@.len() <= k < post.hitboxes@.len()
        ==> spec_enemy_spawn_witnessed(#[trigger] post.hitboxes@[k], pre.combatants@,
            player_id, player_pos, delta_ms)
    &&& forall|s: int| 0 <= s < shots.len()
        ==> spec_projectile_witnessed(#[trigger] shots[s], pre.combatants@, player_id,
            player_pos, delta_ms) && shots[s].wf()
    &&& forall|i: int| 0 <= i < pre.combatants@.len()
        && spec_entered_attacking(#[trigger] pre.combatants@[i], player_id, player_pos,
            delta_ms)
        && spec_melee_type(pre.combatants@[i])
        ==> spec_has_hitbox(post.hitboxes@, pre.combatants@[i].id)
    &&& forall|i: int| 0 <= i < pre.combatants@.len()
        && spec_entered_attacking(#[trigger] pre.combatants@[i], player_id, player_pos,
            delta_ms)
        && spec_ranged_type(pre.combatants@[i])
        ==> spec_has_shot(shots, pre.combatants@[i].id)
    &&& post.game == pre.game
    &&& post.stats == pre.stats
    &&& post.log == pre.log
    &&& post.time_ms == pre.time_ms
}

/// An enemy projectile in flight: its payload, position and velocity.
#[derive(Clone, Copy, Debug, PartialEq, Eq, Structural)]
pub struct ProjectileEntry {
    pub projectile: crate::ai::Projectile,
    pub pos: Vec2,
    pub velocity: Vec2,
}

impl ProjectileEntry {
    pub open spec fn wf(self) -> bool {
        &&& self.pos.bounded()
        &&& -VEL_LIMIT <= self.velocity.x <= VEL_LIMIT
        &&& -VEL_LIMIT <= self.velocity.y <= VEL_LIMIT
        &&& self.projectile.lifetime.wf()
    }
}

/// One projectile advanced one tick: it moves by its velocity and its
/// lifetime clock runs.
pub open spec fn spec_projectile_moved(p: ProjectileEntry, delta_ms: u64) -> ProjectileEntry {
    ProjectileEntry {
        pos: Vec2 {
            x: crate::movement::spec_integrated(p.pos.x as int, p.velocity.x as int,
                delta_ms) as i64,
            y: crate::movement::spec_integrated(p.pos.y as int, p.velocity.y as int,
                delta_ms) as i64,
        },
        projectile: crate::ai::Projectile {
            lifetime: p.projectile.lifetime.spec_ticked(delta_ms),
            ..p.projectile
        },
        ..p
    }
}

/// All projectiles advanced one tick, expired ones taken down, order kept.
pub open spec fn spec_projectiles_updated(ps: Seq<ProjectileEntry>, delta_ms: u64) -> Seq<
    ProjectileEntry>
    decreases ps.len(),
{
    if ps.len() == 0 {
        Seq::<ProjectileEntry>::empty()
    } else {
        let rest = spec_projectiles_updated(ps.drop_last(), delta_ms);
        let moved = spec_projectile_moved(ps.last(), delta_ms);
        if moved.projectile.lifetime.spec_finished() {
            rest
        } else {
            rest.push(moved)
        }
    }
}

/// Advance every projectile one tick: it flies on by its velocity, and one
/// whose lifetime has run out is taken down.
pub fn update_projectiles(projectiles: &mut Vec<ProjectileEntry>, delta_ms: u64)
    requires
        forall|i: int| 0 <= i < old(projectiles)@.len()
            ==> (#[trigger] old(projectiles)@[i]).wf(),
        delta_ms <= crate::units::TICK_LIMIT_MS,
    ensures
        final(projectiles)@ == spec_projectiles_updated(old(projectiles)@, delta_ms),
        forall|i: int| 0 <= i < final(projectiles)@.len()
            ==> (#[trigger] final(projectiles)@[i]).wf(),
{
    let mut kept: Vec<ProjectileEntry> = Vec::new();
    let mut i: usize = 0;
    proof {
        assert(projectiles@.take(0) =~= Seq::<ProjectileEntry>::empty());
    }
    while i < projectiles.len()
        invariant
            *projectiles == *old(projectiles),
            forall|k: int| 0 <= k < projectiles@.len()
                ==> (#[trigger] projectiles@[k]).wf(),
            delta_ms <= crate::units::TICK_LIMIT_MS,
            i <= projectiles@.len(),
            kept@ == spec_projectiles_updated(projectiles@.take(i as int), delta_ms),
            forall|k: int| 0 <= k < kept@.len() ==> (#[trigger] kept@[k]).wf(),
        decreases projectiles@.len() - i,
    {
        let mut p = projectiles[i];
        proof {
            assert(projectiles@.take(i + 1).drop_last() =~= projectiles@.take(i as int));
            assert(projectiles@.take(i + 1).last() == projectiles@[i as int]);
        }
        crate::movement::apply_velocity(&mut p.pos, p.velocity, delta_ms);
        p.projectile.lifetime.tick(delta_ms);
        proof {
            assert(p == spec_projectile_moved(projectiles@[i as int], delta_ms));
        }
        if !p.projectile.lifetime.finished() {
            kept.push(p);
        }
        i = i + 1;
    }
    proof {
        assert(projectiles@.take(projectiles@.len() as int) =~= projectiles@);
    }
    *projectiles = kept;
}

/// What the enemy tick does to one combatant: an enemy steps its behavior
/// cycle against the tracked target, takes the velocity the locomotion
/// policy assigns (a patroller keeps its own, to be shaped outside), and
/// moves by it; the player and anything without AI is untouched.
pub open spec fn spec_enemy_ticked_value(
    orig: Combatant,
    player_id: u64,
    player_pos: Vec2,
    delta_ms: u64,
) -> Combatant {
    if orig.enemy is Some && orig.ai is Some && !orig.is_player {
        let en = orig.enemy->0;
        let stepped = orig.ai->0.spec_stepped(en, orig.health, orig.pos, player_id,
            player_pos, delta_ms);
        let v = crate::ai::spec_moved_velocity(stepped.state, en, orig.pos, player_pos,
            orig.velocity);
        if stepped.state is Patrolling {
            Combatant { ai: Some(stepped), ..orig }
        } else {
            Combatant {
                ai: Some(stepped),
                velocity: v,
                pos: Vec2 {
                    x: crate::movement::spec_integrated(orig.pos.x as int, v.x as int,
                        delta_ms) as i64,
                    y: crate::movement::spec_integrated(orig.pos.y as int, v.y as int,
                        delta_ms) as i64,
                },
                ..orig
            }
        }
    } else {
        orig
    }
}

pub open spec fn spec_enemy_ticked(
    new: Combatant,
    orig: Combatant,
    player_id: u64,
    player_pos: Vec2,
    delta_ms: u64,
) -> bool {
    new == spec_enemy_ticked_value(orig, player_id, player_pos, delta_ms)
}

/// An enemy entered its attacking state this tick: the one moment its
/// attack intent is consumed, so each telegraphed cycle lands at most one
/// hit volume or projectile.
pub open spec fn spec_entered_attacking(c: Combatant, player_id: u64, player_pos: Vec2,
    delta_ms: u64) -> bool {
    &&& c.enemy is Some
    &&& c.ai is Some
    &&& !c.is_player
    &&& !(c.ai->0.state is Attacking)
    &&& c.ai->0.spec_stepped(c.enemy->0, c.health, c.pos, player_id, player_pos,
        delta_ms).state is Attacking
}

/// The hit volume a melee enemy's attack intent requests: at the enemy,
/// oriented toward the target at a fixed offset, with the enemy's base
/// damage and a light knockback.
pub open spec fn spec_is_enemy_melee_spawn(e: HitboxEntry, c: Combatant, player_pos: Vec2) -> bool {
    &&& c.enemy matches Some(en) && (en.enemy_type is CommonMelee
        || en.enemy_type is EliteMelee)
    &&& e.owner == c.id
    &&& e.kind is EnemyAttack
    &&& e.pos == c.pos
    &&& e.hitbox.size == (Vec2 { x: 40, y: 40 })
    &&& e.hitbox.offset.x == crate::direction::spec_dir_scaled_x(c.pos, player_pos, 30)
    &&& e.hitbox.offset.y == crate::direction::spec_dir_scaled_y(c.pos, player_pos, 30)
    &&& e.hitbox.damage == c.stats.damage
    &&& e.hitbox.knockback == 30
    &&& e.hitbox.active
    &&& e.hitbox.hit_entities@ == Seq::<u64>::empty()
    &&& e.hitbox.resolved_hits == 0
}

/// An enemy-tagged combatant of a melee archetype.
pub open spec fn spec_melee_type(c: Combatant) -> bool {
    c.enemy matches Some(en) && (en.enemy_type is CommonMelee || en.enemy_type is EliteMelee)
}

/// An enemy-tagged combatant of a ranged archetype.
pub open spec fn spec_ranged_type(c: Combatant) -> bool {
    c.enemy matches Some(en) && (en.enemy_type is CommonRanged
        || en.enemy_type is EliteRanged)
}

/// Some launched projectile is owned by `owner`.
pub open spec fn spec_has_shot(ps: Seq<ProjectileEntry>, owner: u64) -> bool {
    exists|s: int| 0 <= s < ps.len() && (#[trigger] ps[s]).projectile.owner == owner
}

/// A hit volume appended by the enemy tick is witnessed by a melee enemy
/// entering its attacking state.
pub open spec fn spec_enemy_spawn_witnessed(e: HitboxEntry, cs: Seq<Combatant>,
    player_id: u64, player_pos: Vec2, delta_ms: u64) -> bool {
    exists|i: int| {
        &&& 0 <= i < cs.len()
        &&& spec_is_enemy_melee_spawn(e, spec_enemy_ticked_value(#[trigger] cs[i],
            player_id, player_pos, delta_ms), player_pos)
        &&& spec_entered_attacking(cs[i], player_id, player_pos, delta_ms)
    }
}

/// The projectile a ranged enemy's attack intent requests: fixed speed and
/// lifetime, launched from the enemy toward the target, single-target.
pub open spec fn spec_is_enemy_projectile(p: ProjectileEntry, c: Combatant, player_pos: Vec2) -> bool {
    &&& c.enemy matches Some(en) && (en.enemy_type is CommonRanged
        || en.enemy_type is EliteRanged)
    &&& p.projectile.owner == c.id
    &&& p.projectile.damage == c.stats.damage
    &&& p.projectile.speed == crate::ai::PROJECTILE_SPEED
    &&& p.projectile.lifetime == (crate::timer::CountdownTimer {
        elapsed_ms: 0,
        duration_ms: crate::ai::PROJECTILE_LIFETIME_MS,
    })
    &&& p.projectile.piercing == 0
    &&& p.pos == c.pos
    &&& p.velocity.x == crate::direction::spec_dir_scaled_x(c.pos, player_pos,
        crate::ai::PROJECTILE_SPEED)
    &&& p.velocity.y == crate::direction::spec_dir_scaled_y(c.pos, player_pos,
        crate::ai::PROJECTILE_SPEED)
}

/// A projectile emitted by the enemy tick is witnessed by a ranged enemy
/// entering its attacking state.
pub open spec fn spec_projectile_witnessed(p: ProjectileEntry, cs: Seq<Combatant>,
    player_id: u64, player_pos: Vec2, delta_ms: u64) -> bool {
    exists|i: int| {
        &&& 0 <= i < cs.len()
        &&& spec_is_enemy_projectile(p, spec_enemy_ticked_value(#[trigger] cs[i],
            player_id, player_pos, delta_ms), player_pos)
        &&& spec_entered_attacking(cs[i], player_id, player_pos, delta_ms)
    }
}

/// The death pass keeps combatants well-formed and identities unique.
pub proof fn lemma_deaths_handled_wf(cs: Seq<Combatant>)
    requires
        spec_ids_unique(cs),
        forall|i: int| 0 <= i < cs.len() ==> (#[trigger] cs[i]).wf(),
    ensures
        forall|i: int| 0 <= i < spec_deaths_handled(cs).0.len()
            ==> (#[trigger] spec_deaths_handled(cs).0[i]).wf(),
        spec_ids_unique(spec_deaths_handled(cs).0),
        forall|i: int| 0 <= i < spec_deaths_handled(cs).0.len()
            ==> exists|j: int| 0 <= j < cs.len()
                && (#[trigger] spec_deaths_handled(cs).0[i]).id == cs[j].id
                && spec_deaths_handled(cs).0[i].wf(),
        spec_deaths_handled(cs).1 >= 0,
        0 <= spec_deaths_handled(cs).2 <= cs.len(),
        spec_deaths_handled(cs).1 + spec_deaths_handled(cs).0.len() == cs.len(),
    decreases cs.len(),
{
    if cs.len() > 0 {
        lemma_deaths_handled_wf(cs.drop_last());
        let (rest, kills, deaths) = spec_deaths_handled(cs.drop_last());
        let c = cs.last();
        assert(forall|i: int| 0 <= i < cs.drop_last().len()
            ==> cs.drop_last()[i] == cs[i]);
        assert(cs.drop_last().len() == cs.len() - 1);
        assert(kills + rest.len() == cs.drop_last().len());
        assert(rest.push(spec_death_cleared(c)).len() == rest.len() + 1);
        assert(rest.push(c).len() == rest.len() + 1);
        if c.pending_death && c.enemy is Some {
            assert(spec_deaths_handled(cs).0 == rest);
            assert(spec_deaths_handled(cs).1 == kills + 1);
            assert(spec_deaths_handled(cs).2 == deaths);
        } else if c.pending_death && c.is_player {
            assert(spec_deaths_handled(cs).0 == rest.push(spec_death_cleared(c)));
            assert(spec_deaths_handled(cs).1 == kills);
            assert(spec_deaths_handled(cs).2 == deaths + 1);
        } else {
            assert(spec_deaths_handled(cs).0 == rest.push(c));
            assert(spec_deaths_handled(cs).1 == kills);
            assert(spec_deaths_handled(cs).2 == deaths);
        }
        if !(c.pending_death && c.enemy is Some) {
            let out = spec_deaths_handled(cs).0;
            assert(out == rest.push(if c.pending_death && c.is_player {
                spec_death_cleared(c)
            } else {
                c
            }));
            assert forall|i: int, j: int|
                0 <= i < out.len() && 0 <= j < out.len() && i != j
                implies out[i].id != out[j].id by {
                if i < out.len() - 1 && j < out.len() - 1 {
                } else {
                    let m = if i < out.len() - 1 { i } else { j };
                    let w = choose|w: int| 0 <= w < cs.drop_last().len()
                        && rest[m].id == cs.drop_last()[w].id && rest[m].wf();
                    assert(cs[w].id != c.id);
                }
            }
        }
    }
}

/// A combatant with one knockback impulse added to its velocity: the
/// normalized direction from the hit position to the target, scaled to the
/// knockback magnitude, clamped to the velocity bound.
pub open spec fn spec_struck_velocity(c: Combatant, s: Strike) -> Combatant {
    Combatant {
        velocity: Vec2 {
            x: crate::knockback::spec_clamp_vel(
                c.velocity.x + crate::direction::spec_dir_scaled_x(s.hit_pos, c.pos,
                    s.knockback)) as i64,
            y: crate::knockback::spec_clamp_vel(
                c.velocity.y + crate::direction::spec_dir_scaled_y(s.hit_pos, c.pos,
                    s.knockback)) as i64,
        },
        ..c
    }
}

/// One strike applied to the arena: the target (unique by identity, if
/// present) takes the impulse; a strike on a vanished target is a no-op.
pub open spec fn spec_strike_applied(cs: Seq<Combatant>, s: Strike) -> Seq<Combatant> {
    if spec_id_present(cs, s.target) {
        let i = choose|i: int| 0 <= i < cs.len() && (#[trigger] cs[i]).id == s.target;
        cs.update(i, spec_struck_velocity(cs[i], s))
    } else {
        cs
    }
}

/// All strikes applied in order; impulses on the same target compound.
pub open spec fn spec_strikes_applied(cs: Seq<Combatant>, ss: Seq<Strike>) -> Seq<Combatant>
    decreases ss.len(),
{
    if ss.len() == 0 {
        cs
    } else {
        spec_strike_applied(spec_strikes_applied(cs, ss.drop_last()), ss.last())
    }
}

/// What one combatant looks like after the death pass: a flagged player's
/// flag is consumed, everything else of a surviving combatant is untouched.
pub open spec fn spec_death_cleared(c: Combatant) -> Combatant {
    if c.pending_death && !(c.enemy is Some) && c.is_player {
        Combatant { pending_death: false, ..c }
    } else {
        c
    }
}

/// The death pass over the arena, last combatant first: flagged enemy-tagged
/// combatants are removed and counted as kills; a flagged player stays, its
/// flag consumed, and counts as one player death. Returns the surviving
/// arena, the kill count and the player-death count.
pub open spec fn spec_deaths_handled(cs: Seq<Combatant>) -> (Seq<Combatant>, int, int)
    decreases cs.len(),
{
    if cs.len() == 0 {
        (Seq::<Combatant>::empty(), 0, 0)
    } else {
        let (rest, kills, deaths) = spec_deaths_handled(cs.drop_last());
        let c = cs.last();
        if c.pending_death && c.enemy is Some {
            (rest, kills + 1, deaths)
        } else if c.pending_death && c.is_player {
            (rest.push(spec_death_cleared(c)), kills, deaths + 1)
        } else {
            (rest.push(c), kills, deaths)
        }
    }
}

/// Whether a hit volume is kept by the cleanup pass: its owner must still
/// exist, and the owning attack must still be live — for a volume from the
/// attack state machine, an unfinished attack whose active window has not
/// closed; for an enemy's requested volume, an AI still in its attacking
/// state.
pub open spec fn spec_hitbox_live(cs: Seq<Combatant>, e: HitboxEntry) -> bool {
    exists|i: int| {
        &&& 0 <= i < cs.len()
        &&& (#[trigger] cs[i]).id == e.owner
        &&& match e.kind {
            HitboxKind::AttackHitbox => cs[i].attack.is_attacking
                && !cs[i].attack.active_timer.spec_finished(),
            HitboxKind::EnemyAttack => cs[i].ai matches Some(ai)
                && ai.state is Attacking,
        }
    }
}

/// A telemetry event appended this tick: stamped with the tick's clock,
/// sourced from the player's pipeline, physical damage.
pub open spec fn spec_fresh_event(e: DamageEvent, time_ms: u64) -> bool {
    &&& e.timestamp == time_ms
    &&& e.source is Player
    &&& e.damage_type is Physical
}

/// A knockback impulse owed to a target struck this tick: the damage
/// pipeline resolves the hit, and the knockback applicator consumes the same
/// ledger entries.
#[derive(Clone, Copy, Debug, PartialEq, Eq, Structural)]
pub struct Strike {
    pub hit_pos: Vec2,
    pub target: u64,
    pub knockback: u64,
}

impl Strike {
    pub open spec fn wf(self) -> bool {
        &&& self.hit_pos.bounded()
        &&& self.knockback <= COORD_LIMIT
    }
}

/// Resolve one hit against one combatant: a drawn crit roll, the armor floor
/// and the damage reduction decide the amount, health falls by it, and a
/// death is flagged for the death pass, never performed here. Returns the
/// amount applied, the crit flag and whether health reached zero.
pub fn strike_combatant(c: &mut Combatant, hit_damage: u64, attacker: &CombatStats) -> (out: (
    u64,
    bool,
    bool,
))
    requires
        old(c).wf(),
        attacker.wf(),
        hit_damage <= 3 * AMOUNT_LIMIT,
    ensures
        final(c).wf(),
        exists|roll_pm: u64| {
            &&& roll_pm < PERMILLE
            &&& out.1 == spec_crit_applies(roll_pm, attacker.crit_chance)
            &&& out.0 == spec_final_damage(roll_pm, hit_damage, *attacker, old(c).stats)
        },
        attacker.crit_chance == 0 ==> !out.1,
        attacker.crit_chance == PERMILLE ==> out.1,
        final(c).health.max == old(c).health.max,
        final(c).health.current == if out.0 <= old(c).health.current {
            old(c).health.current - out.0
        } else {
            0
        },
        out.2 == (final(c).health.current == 0),
        final(c).pending_death == (old(c).pending_death || out.2),
        *final(c) == (Combatant {
            health: final(c).health,
            pending_death: final(c).pending_death,
            ..*old(c)
        }),
{
    let (amount, is_crit) = resolve_hit_rolled(hit_damage, attacker, &c.stats);
    let died = c.health.take_damage(amount);
    if died {
        c.pending_death = true;
    }
    (amount, is_crit, died)
}

/// How the damage pass may change a combatant: health falls (its bound is
/// kept), a death may be flagged, everything else is untouched.
pub open spec fn spec_damaged(new: Combatant, orig: Combatant) -> bool {
    &&& new == (Combatant { health: new.health, pending_death: new.pending_death, ..orig })
    &&& new.health.max == orig.health.max
    &&& new.health.current <= orig.health.current
    &&& (new.pending_death == orig.pending_death || new.pending_death)
}

/// Some combatant carries the identity.
pub open spec fn spec_id_present(cs: Seq<Combatant>, id: u64) -> bool {
    exists|i: int| 0 <= i < cs.len() && (#[trigger] cs[i]).id == id
}

/// What the damage pass does to one hit volume: the ledger itself and every
/// other field are untouched, and when the owner is present in the world the
/// whole ledger is consumed — the resolved prefix becomes the full ledger.
/// An orphaned volume (owner gone) is never dereferenced and left for the
/// cleanup pass.
pub open spec fn spec_entry_resolved(new: HitboxEntry, orig: HitboxEntry, cs: Seq<Combatant>) -> bool {
    &&& new.owner == orig.owner
    &&& new.kind == orig.kind
    &&& new.pos == orig.pos
    &&& new.hitbox.size == orig.hitbox.size
    &&& new.hitbox.offset == orig.hitbox.offset
    &&& new.hitbox.damage == orig.hitbox.damage
    &&& new.hitbox.knockback == orig.hitbox.knockback
    &&& new.hitbox.active == orig.hitbox.active
    &&& new.hitbox.hit_entities@ == orig.hitbox.hit_entities@
    &&& new.hitbox.resolved_hits == if spec_id_present(cs, orig.owner) {
        orig.hitbox.hit_entities@.len() as int
    } else {
        orig.hitbox.resolved_hits as int
    }
}

/// The unique arena index of an identity; meaningful when the identity is
/// present, since identities are distinct.
pub open spec fn spec_index_of_id(cs: Seq<Combatant>, id: u64) -> int {
    choose|i: int| 0 <= i < cs.len() && (#[trigger] cs[i]).id == id
}

/// The identity is named by a ledger entry in `[from, to)`.
pub open spec fn spec_named_in_range(ledger: Seq<u64>, from: int, to: int, id: u64) -> bool {
    exists|k: int| from <= k < to && ledger[k] == id
}

/// The identity is named by an unconsumed ledger entry of this volume.
pub open spec fn spec_named_unconsumed(e: HitboxEntry, id: u64) -> bool {
    spec_named_in_range(e.hitbox.hit_entities@, e.hitbox.resolved_hits as int,
        e.hitbox.hit_entities@.len() as int, id)
}

/// The identity is named by an unconsumed ledger entry of some volume.
pub open spec fn spec_named_in_any(hs: Seq<HitboxEntry>, id: u64) -> bool {
    exists|h: int| 0 <= h < hs.len() && spec_named_unconsumed(#[trigger] hs[h], id)
}

/// One consumed (volume, target) pair's full record: the telemetry event
/// and the strike carry one crit roll's outcome against the attacker's
/// statistics and the target's mitigation, the target's health fell by
/// exactly the logged amount (saturating at zero), its death flag rose
/// exactly when health reached zero, and nothing else of the target
/// changed.
pub open spec fn spec_pair_fired(
    ev: DamageEvent,
    st: Strike,
    entry: HitboxEntry,
    attacker: CombatStats,
    target_pre: Combatant,
    target_post: Combatant,
) -> bool {
    &&& exists|roll_pm: u64| {
        &&& roll_pm < PERMILLE
        &&& ev.is_crit == spec_crit_applies(roll_pm, attacker.crit_chance)
        &&& ev.amount == #[trigger] spec_final_damage(roll_pm, entry.hitbox.damage,
            attacker, target_pre.stats)
    }
    &&& ev.target == (if target_pre.enemy is Some {
        CombatantTag::Enemy
    } else {
        CombatantTag::Unknown
    })
    &&& target_post.health.max == target_pre.health.max
    &&& target_post.health.current == if ev.amount <= target_pre.health.current {
        target_pre.health.current - ev.amount
    } else {
        0
    }
    &&& target_post.pending_death == (target_pre.pending_death
        || target_post.health.current == 0)
    &&& target_post == (Combatant {
        health: target_post.health,
        pending_death: target_post.pending_death,
        ..target_pre
    })
    &&& st == (Strike {
        hit_pos: entry.pos,
        target: target_pre.id,
        knockback: entry.hitbox.knockback,
    })
}

/// Everything one volume's resolution appended, pair by pair: events and
/// strikes are aligned one to one, each strike's target is an unconsumed
/// ledger entry of the volume and is present in the arena, and each
/// (event, strike, target) triple is the pair's exact record against the
/// owner's statistics — relative to the arena as the volume found it.
/// The record of the pair behind the `e`-th logged event of one volume's
/// resolution: the aligned strike names a target drawn from the volume's
/// unconsumed ledger entries below `upto`, present in the arena, and the
/// (event, strike, target) triple is the pair's exact record.
pub open spec fn spec_pair_recorded(
    cs0: Seq<Combatant>,
    cs1: Seq<Combatant>,
    log1: Seq<DamageEvent>,
    strikes1: Seq<Strike>,
    e0: int,
    s0: int,
    entry: HitboxEntry,
    upto: int,
    e: int,
) -> bool {
    let st = strikes1[s0 + e - e0];
    let ti = spec_index_of_id(cs0, st.target);
    &&& spec_named_in_range(entry.hitbox.hit_entities@,
        entry.hitbox.resolved_hits as int, upto, st.target)
    &&& spec_id_present(cs0, st.target)
    &&& 0 <= ti < cs0.len()
    &&& spec_pair_fired(log1[e], st, entry,
        cs0[spec_index_of_id(cs0, entry.owner)].stats, cs0[ti], cs1[ti])
}

pub open spec fn spec_volume_events_fired(
    cs0: Seq<Combatant>,
    cs1: Seq<Combatant>,
    log1: Seq<DamageEvent>,
    strikes1: Seq<Strike>,
    e0: int,
    s0: int,
    entry: HitboxEntry,
) -> bool {
    &&& log1.len() - e0 == strikes1.len() - s0
    &&& forall|e: int| e0 <= e < log1.len()
        ==> #[trigger] spec_pair_recorded(cs0, cs1, log1, strikes1, e0, s0, entry,
            entry.hitbox.hit_entities@.len() as int, e)
}

/// A telemetry event of the damage pass, with its aligned strike, accounted
/// against the pre-pass world: some volume and some crit roll explain the
/// logged amount and crit flag exactly, through the owner's statistics and
/// the target's mitigation (statistics never change during the pass, so the
/// pre-pass values are the ones in force).
pub open spec fn spec_event_accounted(
    ev: DamageEvent,
    st: Strike,
    cs: Seq<Combatant>,
    hs: Seq<HitboxEntry>,
) -> bool {
    exists|h: int, roll_pm: u64| {
        &&& 0 <= h < hs.len()
        &&& roll_pm < PERMILLE
        &&& spec_id_present(cs, hs[h].owner)
        &&& spec_id_present(cs, st.target)
        &&& spec_named_unconsumed(hs[h], st.target)
        &&& ev.is_crit == spec_crit_applies(roll_pm,
            cs[spec_index_of_id(cs, hs[h].owner)].stats.crit_chance)
        &&& ev.amount == #[trigger] spec_final_damage(roll_pm, hs[h].hitbox.damage,
            cs[spec_index_of_id(cs, hs[h].owner)].stats,
            cs[spec_index_of_id(cs, st.target)].stats)
        &&& st.hit_pos == hs[h].pos
        &&& st.knockback == hs[h].hitbox.knockback
    }
}

/// The damage-dealt counter folded over a run of logged events, each
/// amount added saturating, in log order.
pub open spec fn spec_dealt_fold(dd: u64, events: Seq<DamageEvent>) -> u64
    decreases events.len(),
{
    if events.len() == 0 {
        dd
    } else {
        spec_sat_add(spec_dealt_fold(dd, events.drop_last()), events.last().amount)
    }
}

/// The fold composes across concatenation.
pub proof fn lemma_dealt_fold_concat(dd: u64, a: Seq<DamageEvent>, b: Seq<DamageEvent>)
    ensures
        spec_dealt_fold(dd, a + b) == spec_dealt_fold(spec_dealt_fold(dd, a), b),
    decreases b.len(),
{
    if b.len() == 0 {
        assert(a + b =~= a);
    } else {
        lemma_dealt_fold_concat(dd, a, b.drop_last());
        assert((a + b).drop_last() =~= a + b.drop_last());
        assert((a + b).last() == b.last());
    }
}

/// The number of ledger entries below `upto` whose target identity is
/// present in the arena: exactly the pairs the damage pipeline fires for.
pub open spec fn spec_present_targets(cs: Seq<Combatant>, ledger: Seq<u64>, upto: int) -> int
    decreases upto,
{
    if upto <= 0 {
        0
    } else {
        spec_present_targets(cs, ledger, upto - 1) + if spec_id_present(cs,
            ledger[upto - 1]) {
            1int
        } else {
            0int
        }
    }
}

/// The pairs one hit volume still owes the pipeline: its unconsumed ledger
/// entries whose target is present, provided its owner is.
pub open spec fn spec_pairs_owed(cs: Seq<Combatant>, e: HitboxEntry) -> int {
    if spec_id_present(cs, e.owner) {
        spec_present_targets(cs, e.hitbox.hit_entities@, e.hitbox.hit_entities@.len() as int)
            - spec_present_targets(cs, e.hitbox.hit_entities@, e.hitbox.resolved_hits as int)
    } else {
        0
    }
}

/// The pairs owed by the first `upto` hit volumes together.
pub open spec fn spec_total_pairs_owed(cs: Seq<Combatant>, hs: Seq<HitboxEntry>, upto: int) -> int
    decreases upto,
{
    if upto <= 0 {
        0
    } else {
        spec_total_pairs_owed(cs, hs, upto - 1) + spec_pairs_owed(cs, hs[upto - 1])
    }
}

/// Presence, and so the owed-pair counts, depend only on identities: two
/// arenas whose combatants carry the same identities index for index agree
/// on them.
pub proof fn lemma_present_targets_by_ids(
    cs1: Seq<Combatant>,
    cs2: Seq<Combatant>,
    ledger: Seq<u64>,
    upto: int,
)
    requires
        cs1.len() == cs2.len(),
        forall|i: int| 0 <= i < cs1.len()
            ==> (#[trigger] cs1[i]).id == (#[trigger] cs2[i]).id,
    ensures
        spec_present_targets(cs1, ledger, upto) == spec_present_targets(cs2, ledger, upto),
    decreases upto,
{
    if upto > 0 {
        lemma_present_targets_by_ids(cs1, cs2, ledger, upto - 1);
        let t = ledger[upto - 1];
        if spec_id_present(cs1, t) {
            let w = choose|w: int| 0 <= w < cs1.len() && cs1[w].id == t;
            assert(cs2[w].id == t);
            assert(spec_id_present(cs2, t));
        }
        if spec_id_present(cs2, t) {
            let w = choose|w: int| 0 <= w < cs2.len() && cs2[w].id == t;
            assert(cs1[w].id == t);
            assert(spec_id_present(cs1, t));
        }
    }
}

/// One coordinate clamped into the world bound.
pub open spec fn spec_clamp_coord(v: int) -> int {
    if v < -COORD_LIMIT {
        -COORD_LIMIT as int
    } else if v > COORD_LIMIT {
        COORD_LIMIT as int
    } else {
        v
    }
}

fn clamp_coord(v: i64) -> (r: i64)
    requires
        -4 * COORD_LIMIT <= v <= 4 * COORD_LIMIT,
    ensures
        r == spec_clamp_coord(v as int),
        -COORD_LIMIT <= r <= COORD_LIMIT,
{
    if v < -COORD_LIMIT {
        -COORD_LIMIT
    } else if v > COORD_LIMIT {
        COORD_LIMIT
    } else {
        v
    }
}

/// A combatant is an eligible target for a hit volume: not its owner, not
/// invulnerable, and strictly overlapping it.
pub open spec fn spec_eligible(c: Combatant, e: HitboxEntry) -> bool {
    &&& c.id != e.owner
    &&& !c.hurtbox.invulnerable
    &&& spec_aabb_overlap(e.pos, e.hitbox.size, c.pos, c.hurtbox.size)
}

/// Some combatant with identity `t` is an eligible target for `e`.
pub open spec fn spec_eligible_id(cs: Seq<Combatant>, e: HitboxEntry, t: u64) -> bool {
    exists|i: int| 0 <= i < cs.len() && (#[trigger] cs[i]).id == t && spec_eligible(cs[i], e)
}

/// What one detection pass does to one hit volume, given the combatants it
/// was tested against: everything but the ledger is untouched; the old
/// ledger is a prefix of the new one; an inactive volume is untouched; an
/// active one has struck every eligible target afterwards, and every target
/// it newly struck was eligible.
pub open spec fn spec_detected(new: HitboxEntry, orig: HitboxEntry, cs: Seq<Combatant>) -> bool {
    &&& new.owner == orig.owner
    &&& new.kind == orig.kind
    &&& new.pos == orig.pos
    &&& new.hitbox.size == orig.hitbox.size
    &&& new.hitbox.offset == orig.hitbox.offset
    &&& new.hitbox.damage == orig.hitbox.damage
    &&& new.hitbox.knockback == orig.hitbox.knockback
    &&& new.hitbox.active == orig.hitbox.active
    &&& new.hitbox.resolved_hits == orig.hitbox.resolved_hits
    &&& orig.hitbox.hit_entities@.is_prefix_of(new.hitbox.hit_entities@)
    &&& !orig.hitbox.active ==> new.hitbox.hit_entities@ == orig.hitbox.hit_entities@
    &&& orig.hitbox.active ==> forall|i: int| 0 <= i < cs.len()
        && spec_eligible(#[trigger] cs[i], orig) ==> new.hitbox.spec_struck(cs[i].id)
    &&& forall|t: u64| #[trigger] new.hitbox.spec_struck(t) && !orig.hitbox.spec_struck(t)
        ==> spec_eligible_id(cs, orig, t)
}

/// A freshly spawned entry is witnessed by some combatant in its active
/// phase that owned no hit volume before the pass.
pub open spec fn spec_spawn_witnessed(e: HitboxEntry, cs: Seq<Combatant>, pre: Seq<
    HitboxEntry>) -> bool {
    exists|j: int| {
        &&& 0 <= j < cs.len()
        &&& spec_is_attack_spawn(e, #[trigger] cs[j])
        &&& cs[j].attack.in_active_phase()
        &&& !spec_has_hitbox(pre, cs[j].id)
    }
}

/// The hit volume that the resolver spawns for a combatant whose attack is
/// in its active phase: owned by the combatant, sized and offset by the
/// attack type, its damage the attacker's base damage under the type's
/// multiplier (combo-scaled for a light attack), with a fresh, empty hit
/// ledger, positioned at the owner offset by the volume's forward offset.
pub open spec fn spec_is_attack_spawn(e: HitboxEntry, c: Combatant) -> bool {
    let t = c.attack.attack_type;
    &&& e.owner == c.id
    &&& e.kind is AttackHitbox
    &&& e.pos.x == spec_clamp_coord(c.pos.x + crate::hitbox::spec_hitbox_offset(t).x)
    &&& e.pos.y == spec_clamp_coord(c.pos.y + crate::hitbox::spec_hitbox_offset(t).y)
    &&& e.hitbox.size == crate::hitbox::spec_hitbox_size(t)
    &&& e.hitbox.offset == crate::hitbox::spec_hitbox_offset(t)
    &&& e.hitbox.damage == c.stats.damage
        * crate::hitbox::spec_damage_mult_pm(t, c.attack.combo_count)
        / crate::units::PERMILLE as int
    &&& e.hitbox.knockback == crate::hitbox::spec_knockback_mag(t)
    &&& e.hitbox.active
    &&& e.hitbox.hit_entities@ == Seq::<u64>::empty()
    &&& e.hitbox.resolved_hits == 0
}

} // verus!
