//! Turn-based battle state.
//!
//! A battle pits the chosen character against a fixed enemy. An attack
//! deals `attacker − defender/2` damage plus a small random variance, never
//! less than 1; defending halves the next enemy hit. Hit points are clamped
//! at zero, every action appends to the battle log, and the battle ends in
//! victory or defeat when a side reaches zero.

use vstd::prelude::*;
use vstd::string::StringExecFns;

use crate::decimal::dec_chars;

verus! {

/// A playable character archetype.
#[derive(Clone, Debug)]
pub struct CharacterTemplate {
    pub name: String,
    pub hp: u32,
    pub atk: u32,
    pub def: u32,
    pub description: String,
}

/// Whose action comes next.
#[derive(Clone, Copy, Debug, PartialEq, Eq, Structural)]
pub enum Turn {
    Player,
    Enemy,
}

/// How a log line should be shown.
#[derive(Clone, Copy, Debug, PartialEq, Eq, Structural)]
pub enum LogKind {
    Damage,
    Heal,
    Info,
}

/// One line of the battle log.
#[derive(Clone, Debug)]
pub struct LogEntry {
    pub message: String,
    pub kind: LogKind,
}

/// How a finished battle ended.
#[derive(Clone, Copy, Debug, PartialEq, Eq, Structural)]
pub enum BattleResult {
    Victory,
    Defeat,
}

/// The full state of one battle.
#[derive(Clone, Debug)]
pub struct BattleState {
    pub player_hp: i32,
    pub player_max_hp: i32,
    pub enemy_hp: i32,
    pub enemy_max_hp: i32,
    pub player_atk: u32,
    pub player_def: u32,
    pub enemy_atk: u32,
    pub enemy_def: u32,
    pub turn: Turn,
    pub log: Vec<LogEntry>,
    pub result: Option<BattleResult>,
    pub score: u32,
}

impl CharacterTemplate {
    /// The six playable characters, with their exact stats.
    pub fn all() -> (r: Vec<CharacterTemplate>)
        ensures
            r@.len() == 6,
            r@[0].name@ == ("Freya")@ && r@[0].hp == 100 && r@[0].atk == 18 && r@[0].def == 12
                && r@[0].description@ == ("Norse warrior goddess")@,
            r@[1].name@ == ("Odin")@ && r@[1].hp == 120 && r@[1].atk == 15 && r@[1].def == 15
                && r@[1].description@ == ("Allfather of wisdom")@,
            r@[2].name@ == ("Thor")@ && r@[2].hp == 110 && r@[2].atk == 22 && r@[2].def == 8
                && r@[2].description@ == ("God of thunder")@,
            r@[3].name@ == ("Loki")@ && r@[3].hp == 80 && r@[3].atk == 25 && r@[3].def == 5
                && r@[3].description@ == ("Trickster shapeshifter")@,
            r@[4].name@ == ("Hel")@ && r@[4].hp == 90 && r@[4].atk == 20 && r@[4].def == 10
                && r@[4].description@ == ("Queen of the dead")@,
            r@[5].name@ == ("Tyr")@ && r@[5].hp == 130 && r@[5].atk == 14 && r@[5].def == 18
                && r@[5].description@ == ("God of war and law")@,
    {
        let mut out: Vec<CharacterTemplate> = Vec::new();
        out.push(CharacterTemplate {
            name: String::from_str("Freya"),
            hp: 100,
            atk: 18,
            def: 12,
            description: String::from_str("Norse warrior goddess"),
        });
        out.push(CharacterTemplate {
            name: String::from_str("Odin"),
            hp: 120,
            atk: 15,
            def: 15,
            description: String::from_str("Allfather of wisdom"),
        });
        out.push(CharacterTemplate {
            name: String::from_str("Thor"),
            hp: 110,
            atk: 22,
            def: 8,
            description: String::from_str("God of thunder"),
        });
        out.push(CharacterTemplate {
            name: String::from_str("Loki"),
            hp: 80,
            atk: 25,
            def: 5,
            description: String::from_str("Trickster shapeshifter"),
        });
        out.push(CharacterTemplate {
            name: String::from_str("Hel"),
            hp: 90,
            atk: 20,
            def: 10,
            description: String::from_str("Queen of the dead"),
        });
        out.push(CharacterTemplate {
            name: String::from_str("Tyr"),
            hp: 130,
            atk: 14,
            def: 18,
            description: String::from_str("God of war and law"),
        });
        out
    }
}

/// Hit points never fall below zero.
pub open spec fn battle_wf(s: BattleState) -> bool {
    &&& s.player_hp >= 0
    &&& s.enemy_hp >= 0
}

/// The damage of a hit: attacker minus half the defence, plus the variance,
/// never below 1.
pub open spec fn hit_damage(atk: int, def: int, variance: int) -> int {
    let base = atk - def / 2 + variance;
    if base < 1 {
        1
    } else {
        base
    }
}

/// The log line of a player hit.
pub open spec fn attack_message(damage: nat) -> Seq<char> {
    ("You deal ")@ + dec_chars(damage) + (" damage!")@
}

/// The log line of an unblocked enemy hit.
pub open spec fn enemy_attack_message(damage: nat) -> Seq<char> {
    ("Enemy strikes for ")@ + dec_chars(damage) + (" damage!")@
}

/// The log line of a blocked enemy hit.
pub open spec fn blocked_message(damage: nat) -> Seq<char> {
    ("Blocked! Enemy deals only ")@ + dec_chars(damage) + (" damage.")@
}

/// Everything a player attack with a given variance changes: the enemy
/// loses the damage (clamped at zero), the score gains it, a damage line is
/// logged, and either the battle ends in victory with its log line or the
/// turn passes to the enemy.
pub open spec fn player_attack_post(
    pre: BattleState,
    post: BattleState,
    damage: u32,
    variance: int,
) -> bool {
    let d = hit_damage(pre.player_atk as int, pre.enemy_def as int, variance);
    let new_hp = if pre.enemy_hp - d < 0 {
        0int
    } else {
        pre.enemy_hp - d
    };
    let victory = new_hp == 0;
    &&& damage == d
    &&& post.enemy_hp == new_hp
    &&& post.score == pre.score + d
    &&& post.player_hp == pre.player_hp
    &&& post.player_max_hp == pre.player_max_hp
    &&& post.enemy_max_hp == pre.enemy_max_hp
    &&& post.player_atk == pre.player_atk
    &&& post.player_def == pre.player_def
    &&& post.enemy_atk == pre.enemy_atk
    &&& post.enemy_def == pre.enemy_def
    &&& post.log@.len() == pre.log@.len() + (if victory {
        2int
    } else {
        1int
    })
    &&& forall|i: int| 0 <= i < pre.log@.len() ==> post.log@[i] == pre.log@[i]
    &&& post.log@[pre.log@.len() as int].message@ == attack_message(d as nat)
    &&& post.log@[pre.log@.len() as int].kind == LogKind::Damage
    &&& (if victory {
        &&& post.result == Some(BattleResult::Victory)
        &&& post.log@.last().message@ == ("VICTORY! Enemy defeated!")@
        &&& post.log@.last().kind == LogKind::Info
        &&& post.turn == pre.turn
    } else {
        &&& post.result == pre.result
        &&& post.turn == Turn::Enemy
    })
}

/// Everything an enemy attack with a given variance changes, including the
/// halving when the player is defending.
pub open spec fn enemy_attack_post(
    pre: BattleState,
    post: BattleState,
    damage: u32,
    variance: int,
    defending: bool,
) -> bool {
    let raw = hit_damage(pre.enemy_atk as int, pre.player_def as int, variance);
    let d = if defending {
        raw / 2
    } else {
        raw
    };
    let new_hp = if pre.player_hp - d < 0 {
        0int
    } else {
        pre.player_hp - d
    };
    let defeat = new_hp == 0;
    &&& damage == d
    &&& post.player_hp == new_hp
    &&& post.enemy_hp == pre.enemy_hp
    &&& post.player_max_hp == pre.player_max_hp
    &&& post.enemy_max_hp == pre.enemy_max_hp
    &&& post.player_atk == pre.player_atk
    &&& post.player_def == pre.player_def
    &&& post.enemy_atk == pre.enemy_atk
    &&& post.enemy_def == pre.enemy_def
    &&& post.score == pre.score
    &&& post.log@.len() == pre.log@.len() + (if defeat {
        2int
    } else {
        1int
    })
    &&& forall|i: int| 0 <= i < pre.log@.len() ==> post.log@[i] == pre.log@[i]
    &&& post.log@[pre.log@.len() as int].message@ == (if defending {
        blocked_message(d as nat)
    } else {
        enemy_attack_message(d as nat)
    })
    &&& post.log@[pre.log@.len() as int].kind == (if defending {
        LogKind::Heal
    } else {
        LogKind::Damage
    })
    &&& (if defeat {
        &&& post.result == Some(BattleResult::Defeat)
        &&& post.log@.last().message@ == ("DEFEAT! You have fallen...")@
        &&& post.log@.last().kind == LogKind::Info
        &&& post.turn == pre.turn
    } else {
        &&& post.result == pre.result
        &&& post.turn == Turn::Player
    })
}

/// Relies on `getrandom::fill` and `u32::from_le_bytes`: four random bytes
/// read as a little-endian word; zero when the random source fails. Nothing
/// is promised of the value.
#[verifier::external_body]
fn os_random_u32() -> (r: u32)
    ensures
        r <= u32::MAX,
{
    let mut buf = [0u8; 4];
    let _ = getrandom::fill(&mut buf);
    u32::from_le_bytes(buf)
}

/// A random value below `max`.
fn simple_random(max: u32) -> (r: u32)
    requires
        max > 0,
    ensures
        r < max,
{
    os_random_u32() % max
}

impl BattleState {
    /// Opens a battle against the fixed enemy: the enemy's hit points are
    /// 80 plus half the player's, the enemy hits for 12 against defence 8,
    /// and the log opens with its first line.
    pub fn new(player: &CharacterTemplate) -> (r: BattleState)
        requires
            player.hp <= i32::MAX,
        ensures
            r.player_hp == player.hp,
            r.player_max_hp == player.hp,
            r.enemy_hp == 80 + player.hp / 2,
            r.enemy_max_hp == 80 + player.hp / 2,
            r.player_atk == player.atk,
            r.player_def == player.def,
            r.enemy_atk == 12,
            r.enemy_def == 8,
            r.turn == Turn::Player,
            r.log@.len() == 1,
            r.log@[0].message@ == ("Battle begins!")@,
            r.log@[0].kind == LogKind::Info,
            r.result is None,
            r.score == 0,
            battle_wf(r),
    {
        let enemy_hp = 80 + (player.hp / 2);
        let mut log: Vec<LogEntry> = Vec::new();
        log.push(LogEntry { message: String::from_str("Battle begins!"), kind: LogKind::Info });
        BattleState {
            player_hp: player.hp as i32,
            player_max_hp: player.hp as i32,
            enemy_hp: enemy_hp as i32,
            enemy_max_hp: enemy_hp as i32,
            player_atk: player.atk,
            player_def: player.def,
            enemy_atk: 12,
            enemy_def: 8,
            turn: Turn::Player,
            log,
            result: None,
            score: 0,
        }
    }

    /// One player attack with the variance drawn for it: exactly
    /// `player_attack_post` between the old and new state.
    pub fn player_attack_with(&mut self, variance: u32) -> (damage: u32)
        requires
            variance < 5,
            battle_wf(*old(self)),
            old(self).player_atk <= i32::MAX - 4,
            old(self).enemy_def <= i32::MAX,
            old(self).score + old(self).player_atk + 4 <= u32::MAX,
        ensures
            player_attack_post(*old(self), *final(self), damage, variance as int),
            battle_wf(*final(self)),
    {
        let base = self.player_atk as i32 - (self.enemy_def as i32 / 2);
        let variance_i = variance as i32;
        let sum = base + variance_i;
        let damage: u32 = if sum < 1 {
            1
        } else {
            sum as u32
        };
        let hit = damage as i32;
        self.enemy_hp = if self.enemy_hp - hit < 0 {
            0
        } else {
            self.enemy_hp - hit
        };
        let mut msg = String::from_str("You deal ");
        let dec = crate::decimal::u64_dec_string(damage as u64);
        msg.append(dec.as_str());
        msg.append(" damage!");
        self.log.push(LogEntry { message: msg, kind: LogKind::Damage });
        self.score = self.score + damage;
        if self.enemy_hp <= 0 {
            self.result = Some(BattleResult::Victory);
            self.log.push(LogEntry {
                message: String::from_str("VICTORY! Enemy defeated!"),
                kind: LogKind::Info,
            });
        } else {
            self.turn = Turn::Enemy;
        }
        damage
    }

    /// One player attack with a fresh random variance below 5. Which
    /// variance was drawn is not fixed; what the attack does for each
    /// possible draw is, as `player_attack_post` states.
    pub fn player_attack(&mut self) -> (damage: u32)
        requires
            battle_wf(*old(self)),
            old(self).player_atk <= i32::MAX - 4,
            old(self).enemy_def <= i32::MAX,
            old(self).score + old(self).player_atk + 4 <= u32::MAX,
        ensures
            exists|v: int|
                0 <= v < 5 && #[trigger] player_attack_post(*old(self), *final(self), damage, v),
            battle_wf(*final(self)),
    {
        let variance = simple_random(5);
        let damage = self.player_attack_with(variance);
        proof {
            assert(player_attack_post(*old(self), *self, damage, variance as int));
        }
        damage
    }

    /// Raising the guard: one log line, and the turn passes to the enemy.
    /// Everything else stays.
    pub fn player_defend(&mut self)
        ensures
            final(self).log@.len() == old(self).log@.len() + 1,
            forall|i: int| 0 <= i < old(self).log@.len() ==> final(self).log@[i] == old(self).log@[i],
            final(self).log@.last().message@ == ("You raise your guard!")@,
            final(self).log@.last().kind == LogKind::Info,
            final(self).turn == Turn::Enemy,
            final(self).player_hp == old(self).player_hp,
            final(self).enemy_hp == old(self).enemy_hp,
            final(self).player_max_hp == old(self).player_max_hp,
            final(self).enemy_max_hp == old(self).enemy_max_hp,
            final(self).player_atk == old(self).player_atk,
            final(self).player_def == old(self).player_def,
            final(self).enemy_atk == old(self).enemy_atk,
            final(self).enemy_def == old(self).enemy_def,
            final(self).score == old(self).score,
            final(self).result == old(self).result,
    {
        self.log.push(LogEntry {
            message: String::from_str("You raise your guard!"),
            kind: LogKind::Info,
        });
        self.turn = Turn::Enemy;
    }

    /// One enemy attack with the variance drawn for it: exactly
    /// `enemy_attack_post` between the old and new state.
    pub fn enemy_attack_with(&mut self, variance: u32, player_defending: bool) -> (damage: u32)
        requires
            variance < 4,
            battle_wf(*old(self)),
            old(self).enemy_atk <= i32::MAX - 3,
            old(self).player_def <= i32::MAX,
        ensures
            enemy_attack_post(*old(self), *final(self), damage, variance as int, player_defending),
            battle_wf(*final(self)),
    {
        let base = self.enemy_atk as i32 - (self.player_def as i32 / 2);
        let variance_i = variance as i32;
        let sum = base + variance_i;
        let mut damage: u32 = if sum < 1 {
            1
        } else {
            sum as u32
        };
        if player_defending {
            damage = damage / 2;
            let mut msg = String::from_str("Blocked! Enemy deals only ");
            let dec = crate::decimal::u64_dec_string(damage as u64);
            msg.append(dec.as_str());
            msg.append(" damage.");
            self.log.push(LogEntry { message: msg, kind: LogKind::Heal });
        } else {
            let mut msg = String::from_str("Enemy strikes for ");
            let dec = crate::decimal::u64_dec_string(damage as u64);
            msg.append(dec.as_str());
            msg.append(" damage!");
            self.log.push(LogEntry { message: msg, kind: LogKind::Damage });
        }
        let hit = damage as i32;
        self.player_hp = if self.player_hp - hit < 0 {
            0
        } else {
            self.player_hp - hit
        };
        if self.player_hp <= 0 {
            self.result = Some(BattleResult::Defeat);
            self.log.push(LogEntry {
                message: String::from_str("DEFEAT! You have fallen..."),
                kind: LogKind::Info,
            });
        } else {
            self.turn = Turn::Player;
        }
        damage
    }

    /// One enemy attack with a fresh random variance below 4. Which
    /// variance was drawn is not fixed; what the attack does for each
    /// possible draw is, as `enemy_attack_post` states.
    pub fn enemy_attack(&mut self, player_defending: bool) -> (damage: u32)
        requires
            battle_wf(*old(self)),
            old(self).enemy_atk <= i32::MAX - 3,
            old(self).player_def <= i32::MAX,
        ensures
            exists|v: int|
                0 <= v < 4 && #[trigger] enemy_attack_post(*old(self), *final(self), damage, v,
                    player_defending),
            battle_wf(*final(self)),
    {
        let variance = simple_random(4);
        let damage = self.enemy_attack_with(variance, player_defending);
        proof {
            assert(enemy_attack_post(*old(self), *self, damage, variance as int,
                player_defending));
        }
        damage
    }
}

} // verus!
