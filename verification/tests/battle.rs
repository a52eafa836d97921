use mojo_arena::game::{BattleResult, BattleState, CharacterTemplate, LogKind, Turn};

fn freya() -> CharacterTemplate {
    CharacterTemplate::all().remove(0)
}

#[test]
fn six_characters_with_exact_stats() {
    let all = CharacterTemplate::all();
    assert_eq!(all.len(), 6);
    let expected = [
        ("Freya", 100, 18, 12, "Norse warrior goddess"),
        ("Odin", 120, 15, 15, "Allfather of wisdom"),
        ("Thor", 110, 22, 8, "God of thunder"),
        ("Loki", 80, 25, 5, "Trickster shapeshifter"),
        ("Hel", 90, 20, 10, "Queen of the dead"),
        ("Tyr", 130, 14, 18, "God of war and law"),
    ];
    for (ch, (name, hp, atk, def, description)) in all.iter().zip(expected.iter()) {
        assert_eq!(ch.name, *name);
        assert_eq!(ch.hp, *hp);
        assert_eq!(ch.atk, *atk);
        assert_eq!(ch.def, *def);
        assert_eq!(ch.description, *description);
    }
}

#[test]
fn new_battle_state() {
    let b = BattleState::new(&freya());
    assert_eq!(b.player_hp, 100);
    assert_eq!(b.player_max_hp, 100);
    assert_eq!(b.enemy_hp, 130);
    assert_eq!(b.enemy_max_hp, 130);
    assert_eq!(b.player_atk, 18);
    assert_eq!(b.player_def, 12);
    assert_eq!(b.enemy_atk, 12);
    assert_eq!(b.enemy_def, 8);
    assert_eq!(b.turn, Turn::Player);
    assert_eq!(b.log.len(), 1);
    assert_eq!(b.log[0].message, "Battle begins!");
    assert_eq!(b.log[0].kind, LogKind::Info);
    assert!(b.result.is_none());
    assert_eq!(b.score, 0);
}

#[test]
fn player_attack_with_fixed_variance() {
    let mut b = BattleState::new(&freya());
    // Freya: atk 18 against enemy def 8: base 14, variance 3: 17 damage.
    let damage = b.player_attack_with(3);
    assert_eq!(damage, 17);
    assert_eq!(b.enemy_hp, 113);
    assert_eq!(b.score, 17);
    assert_eq!(b.turn, Turn::Enemy);
    assert!(b.result.is_none());
    assert_eq!(b.log.len(), 2);
    assert_eq!(b.log[1].message, "You deal 17 damage!");
    assert_eq!(b.log[1].kind, LogKind::Damage);
}

#[test]
fn player_attack_damage_is_at_least_one() {
    let mut b = BattleState::new(&freya());
    b.player_atk = 1;
    b.enemy_def = 100;
    let damage = b.player_attack_with(0);
    assert_eq!(damage, 1);
}

#[test]
fn player_attack_stays_in_variance_range() {
    for _ in 0..20 {
        let mut b = BattleState::new(&freya());
        let damage = b.player_attack();
        // base 14, variance 0..5
        assert!((14..=18).contains(&damage));
        assert_eq!(b.enemy_hp, 130 - damage as i32);
        assert_eq!(b.score, damage);
    }
}

#[test]
fn victory_when_enemy_drops_to_zero() {
    let mut b = BattleState::new(&freya());
    b.enemy_hp = 5;
    let damage = b.player_attack_with(0);
    assert_eq!(damage, 14);
    assert_eq!(b.enemy_hp, 0);
    assert_eq!(b.result, Some(BattleResult::Victory));
    let last = b.log.last().unwrap();
    assert_eq!(last.message, "VICTORY! Enemy defeated!");
    assert_eq!(last.kind, LogKind::Info);
    assert_eq!(b.turn, Turn::Player);
}

#[test]
fn defend_logs_and_passes_the_turn() {
    let mut b = BattleState::new(&freya());
    b.player_defend();
    assert_eq!(b.turn, Turn::Enemy);
    assert_eq!(b.log.len(), 2);
    assert_eq!(b.log[1].message, "You raise your guard!");
    assert_eq!(b.log[1].kind, LogKind::Info);
    assert_eq!(b.player_hp, 100);
    assert_eq!(b.enemy_hp, 130);
}

#[test]
fn enemy_attack_with_fixed_variance() {
    let mut b = BattleState::new(&freya());
    // Enemy: atk 12 against player def 12: base 6, variance 2: 8 damage.
    let damage = b.enemy_attack_with(2, false);
    assert_eq!(damage, 8);
    assert_eq!(b.player_hp, 92);
    assert_eq!(b.turn, Turn::Player);
    assert_eq!(b.log[1].message, "Enemy strikes for 8 damage!");
    assert_eq!(b.log[1].kind, LogKind::Damage);
}

#[test]
fn defending_halves_enemy_damage() {
    let mut b = BattleState::new(&freya());
    let damage = b.enemy_attack_with(3, true);
    // base 6, variance 3: 9, halved: 4.
    assert_eq!(damage, 4);
    assert_eq!(b.player_hp, 96);
    assert_eq!(b.log[1].message, "Blocked! Enemy deals only 4 damage.");
    assert_eq!(b.log[1].kind, LogKind::Heal);
}

#[test]
fn defeat_when_player_drops_to_zero() {
    let mut b = BattleState::new(&freya());
    b.player_hp = 3;
    let damage = b.enemy_attack_with(0, false);
    assert_eq!(damage, 6);
    assert_eq!(b.player_hp, 0);
    assert_eq!(b.result, Some(BattleResult::Defeat));
    let last = b.log.last().unwrap();
    assert_eq!(last.message, "DEFEAT! You have fallen...");
    assert_eq!(last.kind, LogKind::Info);
}

#[test]
fn enemy_attack_stays_in_variance_range() {
    for _ in 0..20 {
        let mut b = BattleState::new(&freya());
        let damage = b.enemy_attack(false);
        // base 6, variance 0..4
        assert!((6..=9).contains(&damage));
        assert_eq!(b.player_hp, 100 - damage as i32);
    }
}
