//! The hit points, action points and derived stats of an actor in play.
use vstd::prelude::*;

verus! {

/// One class that an actor has levels in: the hit points the class grants per
/// level, and the actor's level in it.
#[derive(Clone, Copy, Debug, PartialEq, Eq, Structural)]
pub struct ClassLevel {
    pub hp_per_level: u32,
    pub level: u32,
}

/// The damage range of an attack.
#[derive(Clone, Copy, Debug, PartialEq, Eq, Structural)]
pub struct Damage {
    pub min: u32,
    pub max: u32,
}

/// The stats of an actor that follow from its levels, its equipment and the rules.
#[derive(Clone, Copy, Debug, PartialEq, Eq, Structural)]
pub struct StatList {
    pub max_hp: u32,
    pub initiative: i32,
    pub damage: Damage,
}

impl Default for StatList {
    fn default() -> (s: StatList)
        ensures
            s == (StatList { max_hp: 0, initiative: 0, damage: Damage { min: 0, max: 0 } }),
    {
        StatList { max_hp: 0, initiative: 0, damage: Damage { min: 0, max: 0 } }
    }
}

/// What the stats read of the item held in the main hand.
#[derive(Clone, Copy, Debug, PartialEq, Eq, Structural)]
pub struct Equippable {
    pub damage: Option<Damage>,
}

/// The rules of the module that actor state reads.
#[derive(Clone, Copy, Debug, PartialEq, Eq, Structural)]
pub struct Rules {
    pub base_ap: u32,
    pub base_initiative: i32,
}

/// An actor in play.
#[derive(Debug)]
pub struct ActorState {
    /// The actor's class levels.
    pub levels: Vec<ClassLevel>,
    pub stats: StatList,
    hp: u32,
    ap: u32,
}

/// The hit points that the class levels grant: the sum, over the levels, of
/// the class's hit points per level times the level.
pub open spec fn total_hp(levels: Seq<ClassLevel>) -> int
    decreases levels.len(),
{
    if levels.len() == 0 {
        0
    } else {
        total_hp(levels.drop_last()) + levels.last().hp_per_level * levels.last().level
    }
}

/// The stats after recomputing them: the damage of the item held in the main
/// hand where it has one (else the old damage), the maximum hit points that the
/// class levels grant, and the rules' base initiative.
pub open spec fn recomputed_stats(
    old_stats: StatList,
    levels: Seq<ClassLevel>,
    held_main: Option<&Equippable>,
    rules: Rules,
) -> StatList {
    StatList {
        max_hp: total_hp(levels) as u32,
        initiative: rules.base_initiative,
        damage: match held_main {
            Some(e) => match e.damage {
                Some(d) => d,
                None => old_stats.damage,
            },
            None => old_stats.damage,
        },
    }
}

/// The hit points left after taking `amount` damage with `hp` hit points:
/// never below zero.
pub open spec fn hp_after_damage(hp: u32, amount: u32) -> u32 {
    if amount > hp {
        0
    } else {
        (hp - amount) as u32
    }
}

/// The hit points granted by a prefix of the levels are at most those granted by all.
proof fn lemma_total_hp_prefix(levels: Seq<ClassLevel>, i: int)
    requires
        0 <= i <= levels.len(),
    ensures
        0 <= total_hp(levels.take(i)) <= total_hp(levels),
    decreases levels.len(),
{
    let l = levels.last();
    if levels.len() > 0 {
        assert(0 <= l.hp_per_level * l.level) by (nonlinear_arith);
    }
    if i == levels.len() {
        assert(levels.take(i) =~= levels);
        if levels.len() > 0 {
            lemma_total_hp_prefix(levels.drop_last(), i - 1);
            assert(levels.drop_last().take(i - 1) =~= levels.drop_last());
        }
    } else {
        assert(levels.drop_last().take(i) =~= levels.take(i));
        lemma_total_hp_prefix(levels.drop_last(), i);
    }
}

/// The hit points that the class levels grant, or `None` where they exceed
/// `u32::MAX`.
pub fn total_hp_of(levels: &Vec<ClassLevel>) -> (r: Option<u32>)
    ensures
        r is Some <==> total_hp(levels@) <= u32::MAX,
        r matches Some(v) ==> v == total_hp(levels@),
{
    let n = levels.len();
    let mut sum: u32 = 0;
    let mut i: usize = 0;
    while i < n
        invariant
            n == levels@.len(),
            i <= n,
            sum == total_hp(levels@.take(i as int)),
        decreases n - i,
    {
        let c = levels[i];
        proof {
            assert(levels@.take(i + 1).drop_last() =~= levels@.take(i as int));
            lemma_total_hp_prefix(levels@, i + 1);
            assert(0 <= c.hp_per_level * c.level) by (nonlinear_arith);
        }
        let grant = match c.hp_per_level.checked_mul(c.level) {
            Some(g) => g,
            None => {
                return None;
            },
        };
        sum = match sum.checked_add(grant) {
            Some(t) => t,
            None => {
                return None;
            },
        };
        i = i + 1;
    }
    assert(levels@.take(n as int) =~= levels@);
    Some(sum)
}

impl ActorState {
    /// The current hit points.
    pub closed spec fn current_hp(&self) -> u32 {
        self.hp
    }

    /// The current action points.
    pub closed spec fn current_ap(&self) -> u32 {
        self.ap
    }

    /// The class levels, in order.
    pub closed spec fn class_levels(&self) -> Seq<ClassLevel> {
        self.levels@
    }

    /// The stats.
    pub closed spec fn stat_list(&self) -> StatList {
        self.stats
    }

    /// A fresh actor state with the given class levels, default stats, and
    /// no hit points or action points.
    pub fn new(levels: Vec<ClassLevel>) -> (a: ActorState)
        ensures
            a.class_levels() == levels@,
            a.stat_list() == (StatList { max_hp: 0, initiative: 0, damage: Damage { min: 0, max: 0 } }),
            a.current_hp() == 0,
            a.current_ap() == 0,
    {
        ActorState { levels, stats: StatList::default(), hp: 0, ap: 0 }
    }

    /// The current hit points.
    pub fn hp(&self) -> (r: u32)
        ensures
            r == self.current_hp(),
    {
        self.hp
    }

    /// The current action points.
    pub fn ap(&self) -> (r: u32)
        ensures
            r == self.current_ap(),
    {
        self.ap
    }

    /// Takes `hp` damage; hit points do not go below zero.
    pub fn remove_hp(&mut self, hp: u32)
        ensures
            final(self).current_hp() == hp_after_damage(old(self).current_hp(), hp),
            hp <= old(self).current_hp() ==> final(self).current_hp() == old(self).current_hp() - hp,
            hp > old(self).current_hp() ==> final(self).current_hp() == 0,
            final(self).current_hp() <= old(self).current_hp(),
            final(self).current_ap() == old(self).current_ap(),
            final(self).class_levels() == old(self).class_levels(),
            final(self).stat_list() == old(self).stat_list(),
    {
        if hp > self.hp {
            self.hp = 0;
        } else {
            self.hp = self.hp - hp;
        }
    }

    /// Restores the hit points to the maximum and starts a turn.
    pub fn init(&mut self, rules: &Rules)
        ensures
            final(self).current_hp() == old(self).stat_list().max_hp,
            final(self).current_ap() == rules.base_ap,
            final(self).class_levels() == old(self).class_levels(),
            final(self).stat_list() == old(self).stat_list(),
    {
        self.hp = self.stats.max_hp;
        self.init_turn(rules);
    }

    /// Starts a turn: the action points are reset to the rules' base.
    pub fn init_turn(&mut self, rules: &Rules)
        ensures
            final(self).current_ap() == rules.base_ap,
            final(self).current_hp() == old(self).current_hp(),
            final(self).class_levels() == old(self).class_levels(),
            final(self).stat_list() == old(self).stat_list(),
    {
        self.ap = rules.base_ap;
    }

    /// Whether the hit points that the class levels grant fit a `u32`, as
    /// recomputing the stats requires.
    pub fn max_hp_fits(&self) -> (r: bool)
        ensures
            r == (total_hp(self.class_levels()) <= u32::MAX),
    {
        total_hp_of(&self.levels).is_some()
    }

    /// Equips an item: `equipped` is whether the inventory took it, and
    /// `held_main` is what the main hand holds afterwards. The stats are
    /// recomputed, and `equipped` is returned.
    pub fn equip(&mut self, equipped: bool, held_main: Option<&Equippable>, rules: &Rules) -> (r: bool)
        requires
            total_hp(old(self).class_levels()) <= u32::MAX,
        ensures
            r == equipped,
            final(self).stat_list() == recomputed_stats(old(self).stat_list(), old(self).class_levels(), held_main, *rules),
            final(self).stat_list().max_hp == total_hp(old(self).class_levels()),
            final(self).stat_list().initiative == rules.base_initiative,
            (held_main is Some && held_main->0.damage is Some) ==> final(self).stat_list().damage
                == held_main->0.damage->0,
            !(held_main is Some && held_main->0.damage is Some) ==> final(self).stat_list().damage
                == old(self).stat_list().damage,
            final(self).class_levels() == old(self).class_levels(),
            final(self).current_hp() == old(self).current_hp(),
            final(self).current_ap() == old(self).current_ap(),
    {
        self.compute_stats(held_main, rules);
        equipped
    }

    /// Unequips an item: `unequipped` is whether the inventory gave it up, and
    /// `held_main` is what the main hand holds afterwards. The stats are
    /// recomputed, and `unequipped` is returned.
    pub fn unequip(&mut self, unequipped: bool, held_main: Option<&Equippable>, rules: &Rules) -> (r: bool)
        requires
            total_hp(old(self).class_levels()) <= u32::MAX,
        ensures
            r == unequipped,
            final(self).stat_list() == recomputed_stats(old(self).stat_list(), old(self).class_levels(), held_main, *rules),
            final(self).stat_list().max_hp == total_hp(old(self).class_levels()),
            final(self).stat_list().initiative == rules.base_initiative,
            (held_main is Some && held_main->0.damage is Some) ==> final(self).stat_list().damage
                == held_main->0.damage->0,
            !(held_main is Some && held_main->0.damage is Some) ==> final(self).stat_list().damage
                == old(self).stat_list().damage,
            final(self).class_levels() == old(self).class_levels(),
            final(self).current_hp() == old(self).current_hp(),
            final(self).current_ap() == old(self).current_ap(),
    {
        self.compute_stats(held_main, rules);
        unequipped
    }

    /// Recomputes the stats: the damage of the item held in the main hand
    /// where it has one, the maximum hit points from the class levels, and the
    /// initiative from the rules.
    pub fn compute_stats(&mut self, held_main: Option<&Equippable>, rules: &Rules)
        requires
            total_hp(old(self).class_levels()) <= u32::MAX,
        ensures
            final(self).stat_list() == recomputed_stats(old(self).stat_list(), old(self).class_levels(), held_main, *rules),
            final(self).stat_list().max_hp == total_hp(old(self).class_levels()),
            final(self).stat_list().initiative == rules.base_initiative,
            (held_main is Some && held_main->0.damage is Some) ==> final(self).stat_list().damage
                == held_main->0.damage->0,
            !(held_main is Some && held_main->0.damage is Some) ==> final(self).stat_list().damage
                == old(self).stat_list().damage,
            final(self).class_levels() == old(self).class_levels(),
            final(self).current_hp() == old(self).current_hp(),
            final(self).current_ap() == old(self).current_ap(),
    {
        if let Some(equippable) = held_main {
            if let Some(damage) = equippable.damage {
                self.stats.damage = damage;
            }
        }
        let ghost levels = self.levels@;
        let n = self.levels.len();
        let mut max_hp: u32 = 0;
        let mut i: usize = 0;
        while i < n
            invariant
                n == levels.len(),
                levels == self.levels@,
                i <= n,
                total_hp(levels) <= u32::MAX,
                max_hp == total_hp(levels.take(i as int)),
            decreases n - i,
        {
            let c = self.levels[i];
            proof {
                assert(levels.take(i + 1).drop_last() =~= levels.take(i as int));
                lemma_total_hp_prefix(levels, i + 1);
                lemma_total_hp_prefix(levels, i as int);
                assert(0 <= c.hp_per_level * c.level) by (nonlinear_arith);
            }
            max_hp = max_hp + c.hp_per_level * c.level;
            i = i + 1;
        }
        assert(levels.take(n as int) =~= levels);
        self.stats.max_hp = max_hp;
        self.stats.initiative = rules.base_initiative;
    }
}

/// Taking `a` damage and then `b` damage leaves the same hit points as
/// taking `a + b` damage at once.
pub proof fn law_damage_accumulates(hp: u32, a: u32, b: u32)
    requires
        a + b <= u32::MAX,
    ensures
        hp_after_damage(hp_after_damage(hp, a), b) == hp_after_damage(hp, (a + b) as u32),
{
}

/// Damage takes exactly its amount off the hit points while they last, and
/// leaves none once it reaches them.
pub proof fn law_damage_subtracts(hp: u32, amount: u32)
    ensures
        amount <= hp ==> hp_after_damage(hp, amount) == hp - amount,
        amount > hp ==> hp_after_damage(hp, amount) == 0,
{
}

/// Recomputed stats take the damage of the weapon held in the main hand,
/// whatever the damage was before; without such a weapon the damage stays.
/// The maximum hit points are those of the levels, with one class level of
/// `l` granting `hp_per_level * level`, and the initiative is the rules' base.
pub proof fn law_recomputed_stats(
    old_stats: StatList,
    levels: Seq<ClassLevel>,
    held_main: Option<&Equippable>,
    rules: Rules,
)
    requires
        total_hp(levels) <= u32::MAX,
    ensures
        (held_main is Some && held_main->0.damage is Some) ==> recomputed_stats(old_stats, levels, held_main, rules).damage
            == held_main->0.damage->0,
        !(held_main is Some && held_main->0.damage is Some) ==> recomputed_stats(old_stats, levels, held_main, rules).damage
            == old_stats.damage,
        recomputed_stats(old_stats, levels, held_main, rules).initiative == rules.base_initiative,
        recomputed_stats(old_stats, levels, held_main, rules).max_hp == total_hp(levels),
        levels.len() == 0 ==> total_hp(levels) == 0,
        levels.len() > 0 ==> total_hp(levels) == total_hp(levels.drop_last()) + levels.last().hp_per_level
            * levels.last().level,
{
    lemma_total_hp_prefix(levels, levels.len() as int);
    assert(levels.take(levels.len() as int) =~= levels);
}

} // verus!
