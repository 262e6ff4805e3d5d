//! The sound effects and where their files lie.

use vstd::prelude::*;
use vstd::string::*;

verus! {

/// A sound effect.
#[derive(Debug, Clone, Copy, PartialEq, Eq, Structural, Hash)]
pub enum SfxType {
    /// 出牌音效
    CardPlay,
    /// 抽牌音效
    DrawCard,
    /// 洗牌音效
    ShuffleCard,
    /// 卡牌悬停
    CardHover,
    /// 卡牌选中
    CardSelect,
    /// 玩家攻击
    PlayerAttack,
    /// 玩家受击
    PlayerHit,
    /// 敌人受击
    EnemyHit,
    /// 格挡音效
    Block,
    /// 暴击音效
    CriticalHit,
    /// 闪避音效
    Dodge,
    /// 天雷落下
    LightningStrike,
    /// 火焰法术
    FireSpell,
    /// 冰霜法术
    IceSpell,
    /// 治疗音效
    Heal,
    /// 增益施加
    BuffApply,
    /// 减益施加
    DebuffApply,
    /// 护盾升起
    ShieldUp,
    /// 大招起手
    UltimateStart,
    /// 大招释放
    UltimateRelease,
    /// 剑气斩击
    SwordStrike,
    /// 万剑归宗
    ThousandSwords,
    /// UI点击
    UiClick,
    /// UI悬停
    UiHover,
    /// UI确认
    UiConfirm,
    /// UI取消
    UiCancel,
    /// UI错误
    UiError,
    /// 突破开始
    BreakthroughStart,
    /// 境界突破成功
    BreakthroughSuccess,
    /// 升级音效
    LevelUp,
    /// 获得金币
    GoldGain,
    /// 获得遗物
    RelicObtain,
    /// 战斗胜利
    Victory,
    /// 战斗失败
    Defeat,
    /// 敌人生成
    EnemySpawn,
    /// 敌人死亡
    EnemyDeath,
    /// Boss登场
    BossAppear,
    /// Boss死亡
    BossDeath,
}

/// The path of the file of a sound effect, under the assets directory: the file name in
/// `audio/sfx`, with the `.ogg` extension.
pub open spec fn sfx_path(t: SfxType) -> Seq<char> {
    "audio/sfx/"@ + sfx_file_name(t) + ".ogg"@
}

/// The file name of a sound effect, without its extension.
pub open spec fn sfx_file_name(t: SfxType) -> Seq<char> {
    match t {
        SfxType::CardPlay => "card_play"@,
        SfxType::DrawCard => "draw_card"@,
        SfxType::ShuffleCard => "shuffle_card"@,
        SfxType::CardHover => "card_hover"@,
        SfxType::CardSelect => "card_select"@,
        SfxType::PlayerAttack => "player_attack"@,
        SfxType::PlayerHit => "player_hit"@,
        SfxType::EnemyHit => "enemy_hit"@,
        SfxType::Block => "block"@,
        SfxType::CriticalHit => "critical_hit"@,
        SfxType::Dodge => "dodge"@,
        SfxType::LightningStrike => "lightning_strike"@,
        SfxType::FireSpell => "fire_spell"@,
        SfxType::IceSpell => "ice_spell"@,
        SfxType::Heal => "heal"@,
        SfxType::BuffApply => "buff_apply"@,
        SfxType::DebuffApply => "debuff_apply"@,
        SfxType::ShieldUp => "shield_up"@,
        SfxType::UltimateStart => "ultimate_start"@,
        SfxType::UltimateRelease => "ultimate_release"@,
        SfxType::SwordStrike => "sword_strike"@,
        SfxType::ThousandSwords => "thousand_swords"@,
        SfxType::UiClick => "ui_click"@,
        SfxType::UiHover => "ui_hover"@,
        SfxType::UiConfirm => "ui_confirm"@,
        SfxType::UiCancel => "ui_cancel"@,
        SfxType::UiError => "ui_error"@,
        SfxType::BreakthroughStart => "breakthrough_start"@,
        SfxType::BreakthroughSuccess => "breakthrough_success"@,
        SfxType::LevelUp => "level_up"@,
        SfxType::GoldGain => "gold_gain"@,
        SfxType::RelicObtain => "relic_obtain"@,
        SfxType::Victory => "victory"@,
        SfxType::Defeat => "defeat"@,
        SfxType::EnemySpawn => "enemy_spawn"@,
        SfxType::EnemyDeath => "enemy_death"@,
        SfxType::BossAppear => "boss_appear"@,
        SfxType::BossDeath => "boss_death"@,
    }
}

/// The length and the last two characters of the file name of a sound effect, which tell
/// the sounds apart.
spec fn sfx_name_key(t: SfxType) -> (nat, char, char) {
    match t {
        SfxType::CardPlay => (9, 'y', 'a'),
        SfxType::DrawCard => (9, 'd', 'r'),
        SfxType::ShuffleCard => (12, 'd', 'r'),
        SfxType::CardHover => (10, 'r', 'e'),
        SfxType::CardSelect => (11, 't', 'c'),
        SfxType::PlayerAttack => (13, 'k', 'c'),
        SfxType::PlayerHit => (10, 't', 'i'),
        SfxType::EnemyHit => (9, 't', 'i'),
        SfxType::Block => (5, 'k', 'c'),
        SfxType::CriticalHit => (12, 't', 'i'),
        SfxType::Dodge => (5, 'e', 'g'),
        SfxType::LightningStrike => (16, 'e', 'k'),
        SfxType::FireSpell => (10, 'l', 'l'),
        SfxType::IceSpell => (9, 'l', 'l'),
        SfxType::Heal => (4, 'l', 'a'),
        SfxType::BuffApply => (10, 'y', 'l'),
        SfxType::DebuffApply => (12, 'y', 'l'),
        SfxType::ShieldUp => (9, 'p', 'u'),
        SfxType::UltimateStart => (14, 't', 'r'),
        SfxType::UltimateRelease => (16, 'e', 's'),
        SfxType::SwordStrike => (12, 'e', 'k'),
        SfxType::ThousandSwords => (15, 's', 'd'),
        SfxType::UiClick => (8, 'k', 'c'),
        SfxType::UiHover => (8, 'r', 'e'),
        SfxType::UiConfirm => (10, 'm', 'r'),
        SfxType::UiCancel => (9, 'l', 'e'),
        SfxType::UiError => (8, 'r', 'o'),
        SfxType::BreakthroughStart => (18, 't', 'r'),
        SfxType::BreakthroughSuccess => (20, 's', 's'),
        SfxType::LevelUp => (8, 'p', 'u'),
        SfxType::GoldGain => (9, 'n', 'i'),
        SfxType::RelicObtain => (12, 'n', 'i'),
        SfxType::Victory => (7, 'y', 'r'),
        SfxType::Defeat => (6, 't', 'a'),
        SfxType::EnemySpawn => (11, 'n', 'w'),
        SfxType::EnemyDeath => (11, 'h', 't'),
        SfxType::BossAppear => (11, 'r', 'a'),
        SfxType::BossDeath => (10, 'h', 't'),
    }
}

proof fn lemma_sfx_name_key(t: SfxType)
    ensures
        sfx_file_name(t).len() == sfx_name_key(t).0,
        sfx_file_name(t)[sfx_file_name(t).len() - 1] == sfx_name_key(t).1,
        sfx_file_name(t)[sfx_file_name(t).len() - 2] == sfx_name_key(t).2,
{
    match t {
        SfxType::CardPlay => {
            reveal_strlit("card_play");
        },
        SfxType::DrawCard => {
            reveal_strlit("draw_card");
        },
        SfxType::ShuffleCard => {
            reveal_strlit("shuffle_card");
        },
        SfxType::CardHover => {
            reveal_strlit("card_hover");
        },
        SfxType::CardSelect => {
            reveal_strlit("card_select");
        },
        SfxType::PlayerAttack => {
            reveal_strlit("player_attack");
        },
        SfxType::PlayerHit => {
            reveal_strlit("player_hit");
        },
        SfxType::EnemyHit => {
            reveal_strlit("enemy_hit");
        },
        SfxType::Block => {
            reveal_strlit("block");
        },
        SfxType::CriticalHit => {
            reveal_strlit("critical_hit");
        },
        SfxType::Dodge => {
            reveal_strlit("dodge");
        },
        SfxType::LightningStrike => {
            reveal_strlit("lightning_strike");
        },
        SfxType::FireSpell => {
            reveal_strlit("fire_spell");
        },
        SfxType::IceSpell => {
            reveal_strlit("ice_spell");
        },
        SfxType::Heal => {
            reveal_strlit("heal");
        },
        SfxType::BuffApply => {
            reveal_strlit("buff_apply");
        },
        SfxType::DebuffApply => {
            reveal_strlit("debuff_apply");
        },
        SfxType::ShieldUp => {
            reveal_strlit("shield_up");
        },
        SfxType::UltimateStart => {
            reveal_strlit("ultimate_start");
        },
        SfxType::UltimateRelease => {
            reveal_strlit("ultimate_release");
        },
        SfxType::SwordStrike => {
            reveal_strlit("sword_strike");
        },
        SfxType::ThousandSwords => {
            reveal_strlit("thousand_swords");
        },
        SfxType::UiClick => {
            reveal_strlit("ui_click");
        },
        SfxType::UiHover => {
            reveal_strlit("ui_hover");
        },
        SfxType::UiConfirm => {
            reveal_strlit("ui_confirm");
        },
        SfxType::UiCancel => {
            reveal_strlit("ui_cancel");
        },
        SfxType::UiError => {
            reveal_strlit("ui_error");
        },
        SfxType::BreakthroughStart => {
            reveal_strlit("breakthrough_start");
        },
        SfxType::BreakthroughSuccess => {
            reveal_strlit("breakthrough_success");
        },
        SfxType::LevelUp => {
            reveal_strlit("level_up");
        },
        SfxType::GoldGain => {
            reveal_strlit("gold_gain");
        },
        SfxType::RelicObtain => {
            reveal_strlit("relic_obtain");
        },
        SfxType::Victory => {
            reveal_strlit("victory");
        },
        SfxType::Defeat => {
            reveal_strlit("defeat");
        },
        SfxType::EnemySpawn => {
            reveal_strlit("enemy_spawn");
        },
        SfxType::EnemyDeath => {
            reveal_strlit("enemy_death");
        },
        SfxType::BossAppear => {
            reveal_strlit("boss_appear");
        },
        SfxType::BossDeath => {
            reveal_strlit("boss_death");
        },
    }
}

/// Different sound effects have different file names, and so different paths: no two
/// sounds share a file.
pub proof fn law_sfx_files_distinct(a: SfxType, b: SfxType)
    requires
        a != b,
    ensures
        sfx_file_name(a) != sfx_file_name(b),
        sfx_path(a) != sfx_path(b),
{
    lemma_sfx_name_key(a);
    lemma_sfx_name_key(b);
    assert(sfx_name_key(a) != sfx_name_key(b));
    reveal_strlit("audio/sfx/");
    reveal_strlit(".ogg");
    let pa = sfx_path(a);
    let pb = sfx_path(b);
    assert(pa.subrange(10, pa.len() - 4) =~= sfx_file_name(a));
    assert(pb.subrange(10, pb.len() - 4) =~= sfx_file_name(b));
}

/// The display name of a sound effect.
pub open spec fn sfx_chinese_name(t: SfxType) -> Seq<char> {
    match t {
        SfxType::CardPlay => "出牌"@,
        SfxType::DrawCard => "抽牌"@,
        SfxType::ShuffleCard => "洗牌"@,
        SfxType::CardHover => "卡牌悬停"@,
        SfxType::CardSelect => "卡牌选中"@,
        SfxType::PlayerAttack => "玩家攻击"@,
        SfxType::PlayerHit => "玩家受击"@,
        SfxType::EnemyHit => "敌人受击"@,
        SfxType::Block => "格挡"@,
        SfxType::CriticalHit => "暴击"@,
        SfxType::Dodge => "闪避"@,
        SfxType::LightningStrike => "天雷落下"@,
        SfxType::FireSpell => "火焰法术"@,
        SfxType::IceSpell => "冰霜法术"@,
        SfxType::Heal => "治疗"@,
        SfxType::BuffApply => "增益施加"@,
        SfxType::DebuffApply => "减益施加"@,
        SfxType::ShieldUp => "护盾升起"@,
        SfxType::UltimateStart => "大招起手"@,
        SfxType::UltimateRelease => "大招释放"@,
        SfxType::SwordStrike => "剑气斩击"@,
        SfxType::ThousandSwords => "万剑归宗"@,
        SfxType::UiClick => "UI点击"@,
        SfxType::UiHover => "UI悬停"@,
        SfxType::UiConfirm => "UI确认"@,
        SfxType::UiCancel => "UI取消"@,
        SfxType::UiError => "UI错误"@,
        SfxType::BreakthroughStart => "突破开始"@,
        SfxType::BreakthroughSuccess => "突破成功"@,
        SfxType::LevelUp => "升级"@,
        SfxType::GoldGain => "获得金币"@,
        SfxType::RelicObtain => "获得遗物"@,
        SfxType::Victory => "战斗胜利"@,
        SfxType::Defeat => "战斗失败"@,
        SfxType::EnemySpawn => "敌人生成"@,
        SfxType::EnemyDeath => "敌人死亡"@,
        SfxType::BossAppear => "Boss登场"@,
        SfxType::BossDeath => "Boss死亡"@,
    }
}

/// The category of a sound effect.
pub open spec fn sfx_category(t: SfxType) -> Seq<char> {
    match t {
        SfxType::CardPlay => "卡牌相关"@,
        SfxType::DrawCard => "卡牌相关"@,
        SfxType::ShuffleCard => "卡牌相关"@,
        SfxType::CardHover => "卡牌相关"@,
        SfxType::CardSelect => "卡牌相关"@,
        SfxType::PlayerAttack => "战斗相关"@,
        SfxType::PlayerHit => "战斗相关"@,
        SfxType::EnemyHit => "战斗相关"@,
        SfxType::Block => "战斗相关"@,
        SfxType::CriticalHit => "战斗相关"@,
        SfxType::Dodge => "战斗相关"@,
        SfxType::LightningStrike => "法术技能"@,
        SfxType::FireSpell => "法术技能"@,
        SfxType::IceSpell => "法术技能"@,
        SfxType::Heal => "法术技能"@,
        SfxType::BuffApply => "法术技能"@,
        SfxType::DebuffApply => "法术技能"@,
        SfxType::ShieldUp => "法术技能"@,
        SfxType::UltimateStart => "大招技能"@,
        SfxType::UltimateRelease => "大招技能"@,
        SfxType::SwordStrike => "大招技能"@,
        SfxType::ThousandSwords => "大招技能"@,
        SfxType::UiClick => "UI交互"@,
        SfxType::UiHover => "UI交互"@,
        SfxType::UiConfirm => "UI交互"@,
        SfxType::UiCancel => "UI交互"@,
        SfxType::UiError => "UI交互"@,
        SfxType::BreakthroughStart => "系统事件"@,
        SfxType::BreakthroughSuccess => "系统事件"@,
        SfxType::LevelUp => "系统事件"@,
        SfxType::GoldGain => "系统事件"@,
        SfxType::RelicObtain => "系统事件"@,
        SfxType::Victory => "系统事件"@,
        SfxType::Defeat => "系统事件"@,
        SfxType::EnemySpawn => "敌人相关"@,
        SfxType::EnemyDeath => "敌人相关"@,
        SfxType::BossAppear => "敌人相关"@,
        SfxType::BossDeath => "敌人相关"@,
    }
}

impl SfxType {
    /// The path of the sound file, under the assets directory.
    pub fn file_path(&self) -> (r: &'static str)
        ensures
            r@ == sfx_path(*self),
    {
        proof {
            reveal_strlit("audio/sfx/");
            reveal_strlit(".ogg");
        }
        match self {
            SfxType::CardPlay => {
                proof {
                    reveal_strlit("audio/sfx/card_play.ogg");
                    reveal_strlit("card_play");
                }
                "audio/sfx/card_play.ogg"
            },
            SfxType::DrawCard => {
                proof {
                    reveal_strlit("audio/sfx/draw_card.ogg");
                    reveal_strlit("draw_card");
                }
                "audio/sfx/draw_card.ogg"
            },
            SfxType::ShuffleCard => {
                proof {
                    reveal_strlit("audio/sfx/shuffle_card.ogg");
                    reveal_strlit("shuffle_card");
                }
                "audio/sfx/shuffle_card.ogg"
            },
            SfxType::CardHover => {
                proof {
                    reveal_strlit("audio/sfx/card_hover.ogg");
                    reveal_strlit("card_hover");
                }
                "audio/sfx/card_hover.ogg"
            },
            SfxType::CardSelect => {
                proof {
                    reveal_strlit("audio/sfx/card_select.ogg");
                    reveal_strlit("card_select");
                }
                "audio/sfx/card_select.ogg"
            },
            SfxType::PlayerAttack => {
                proof {
                    reveal_strlit("audio/sfx/player_attack.ogg");
                    reveal_strlit("player_attack");
                }
                "audio/sfx/player_attack.ogg"
            },
            SfxType::PlayerHit => {
                proof {
                    reveal_strlit("audio/sfx/player_hit.ogg");
                    reveal_strlit("player_hit");
                }
                "audio/sfx/player_hit.ogg"
            },
            SfxType::EnemyHit => {
                proof {
                    reveal_strlit("audio/sfx/enemy_hit.ogg");
                    reveal_strlit("enemy_hit");
                }
                "audio/sfx/enemy_hit.ogg"
            },
            SfxType::Block => {
                proof {
                    reveal_strlit("audio/sfx/block.ogg");
                    reveal_strlit("block");
                }
                "audio/sfx/block.ogg"
            },
            SfxType::CriticalHit => {
                proof {
                    reveal_strlit("audio/sfx/critical_hit.ogg");
                    reveal_strlit("critical_hit");
                }
                "audio/sfx/critical_hit.ogg"
            },
            SfxType::Dodge => {
                proof {
                    reveal_strlit("audio/sfx/dodge.ogg");
                    reveal_strlit("dodge");
                }
                "audio/sfx/dodge.ogg"
            },
            SfxType::LightningStrike => {
                proof {
                    reveal_strlit("audio/sfx/lightning_strike.ogg");
                    reveal_strlit("lightning_strike");
                }
                "audio/sfx/lightning_strike.ogg"
            },
            SfxType::FireSpell => {
                proof {
                    reveal_strlit("audio/sfx/fire_spell.ogg");
                    reveal_strlit("fire_spell");
                }
                "audio/sfx/fire_spell.ogg"
            },
            SfxType::IceSpell => {
                proof {
                    reveal_strlit("audio/sfx/ice_spell.ogg");
                    reveal_strlit("ice_spell");
                }
                "audio/sfx/ice_spell.ogg"
            },
            SfxType::Heal => {
                proof {
                    reveal_strlit("audio/sfx/heal.ogg");
                    reveal_strlit("heal");
                }
                "audio/sfx/heal.ogg"
            },
            SfxType::BuffApply => {
                proof {
                    reveal_strlit("audio/sfx/buff_apply.ogg");
                    reveal_strlit("buff_apply");
                }
                "audio/sfx/buff_apply.ogg"
            },
            SfxType::DebuffApply => {
                proof {
                    reveal_strlit("audio/sfx/debuff_apply.ogg");
                    reveal_strlit("debuff_apply");
                }
                "audio/sfx/debuff_apply.ogg"
            },
            SfxType::ShieldUp => {
                proof {
                    reveal_strlit("audio/sfx/shield_up.ogg");
                    reveal_strlit("shield_up");
                }
                "audio/sfx/shield_up.ogg"
            },
            SfxType::UltimateStart => {
                proof {
                    reveal_strlit("audio/sfx/ultimate_start.ogg");
                    reveal_strlit("ultimate_start");
                }
                "audio/sfx/ultimate_start.ogg"
            },
            SfxType::UltimateRelease => {
                proof {
                    reveal_strlit("audio/sfx/ultimate_release.ogg");
                    reveal_strlit("ultimate_release");
                }
                "audio/sfx/ultimate_release.ogg"
            },
            SfxType::SwordStrike => {
                proof {
                    reveal_strlit("audio/sfx/sword_strike.ogg");
                    reveal_strlit("sword_strike");
                }
                "audio/sfx/sword_strike.ogg"
            },
            SfxType::ThousandSwords => {
                proof {
                    reveal_strlit("audio/sfx/thousand_swords.ogg");
                    reveal_strlit("thousand_swords");
                }
                "audio/sfx/thousand_swords.ogg"
            },
            SfxType::UiClick => {
                proof {
                    reveal_strlit("audio/sfx/ui_click.ogg");
                    reveal_strlit("ui_click");
                }
                "audio/sfx/ui_click.ogg"
            },
            SfxType::UiHover => {
                proof {
                    reveal_strlit("audio/sfx/ui_hover.ogg");
                    reveal_strlit("ui_hover");
                }
                "audio/sfx/ui_hover.ogg"
            },
            SfxType::UiConfirm => {
                proof {
                    reveal_strlit("audio/sfx/ui_confirm.ogg");
                    reveal_strlit("ui_confirm");
                }
                "audio/sfx/ui_confirm.ogg"
            },
            SfxType::UiCancel => {
                proof {
                    reveal_strlit("audio/sfx/ui_cancel.ogg");
                    reveal_strlit("ui_cancel");
                }
                "audio/sfx/ui_cancel.ogg"
            },
            SfxType::UiError => {
                proof {
                    reveal_strlit("audio/sfx/ui_error.ogg");
                    reveal_strlit("ui_error");
                }
                "audio/sfx/ui_error.ogg"
            },
            SfxType::BreakthroughStart => {
                proof {
                    reveal_strlit("audio/sfx/breakthrough_start.ogg");
                    reveal_strlit("breakthrough_start");
                }
                "audio/sfx/breakthrough_start.ogg"
            },
            SfxType::BreakthroughSuccess => {
                proof {
                    reveal_strlit("audio/sfx/breakthrough_success.ogg");
                    reveal_strlit("breakthrough_success");
                }
                "audio/sfx/breakthrough_success.ogg"
            },
            SfxType::LevelUp => {
                proof {
                    reveal_strlit("audio/sfx/level_up.ogg");
                    reveal_strlit("level_up");
                }
                "audio/sfx/level_up.ogg"
            },
            SfxType::GoldGain => {
                proof {
                    reveal_strlit("audio/sfx/gold_gain.ogg");
                    reveal_strlit("gold_gain");
                }
                "audio/sfx/gold_gain.ogg"
            },
            SfxType::RelicObtain => {
                proof {
                    reveal_strlit("audio/sfx/relic_obtain.ogg");
                    reveal_strlit("relic_obtain");
                }
                "audio/sfx/relic_obtain.ogg"
            },
            SfxType::Victory => {
                proof {
                    reveal_strlit("audio/sfx/victory.ogg");
                    reveal_strlit("victory");
                }
                "audio/sfx/victory.ogg"
            },
            SfxType::Defeat => {
                proof {
                    reveal_strlit("audio/sfx/defeat.ogg");
                    reveal_strlit("defeat");
                }
                "audio/sfx/defeat.ogg"
            },
            SfxType::EnemySpawn => {
                proof {
                    reveal_strlit("audio/sfx/enemy_spawn.ogg");
                    reveal_strlit("enemy_spawn");
                }
                "audio/sfx/enemy_spawn.ogg"
            },
            SfxType::EnemyDeath => {
                proof {
                    reveal_strlit("audio/sfx/enemy_death.ogg");
                    reveal_strlit("enemy_death");
                }
                "audio/sfx/enemy_death.ogg"
            },
            SfxType::BossAppear => {
                proof {
                    reveal_strlit("audio/sfx/boss_appear.ogg");
                    reveal_strlit("boss_appear");
                }
                "audio/sfx/boss_appear.ogg"
            },
            SfxType::BossDeath => {
                proof {
                    reveal_strlit("audio/sfx/boss_death.ogg");
                    reveal_strlit("boss_death");
                }
                "audio/sfx/boss_death.ogg"
            },
        }
    }

    /// The file name of the sound, without its extension.
    pub fn file_name(&self) -> (r: &'static str)
        ensures
            r@ == sfx_file_name(*self),
    {
        match self {
            SfxType::CardPlay => "card_play",
            SfxType::DrawCard => "draw_card",
            SfxType::ShuffleCard => "shuffle_card",
            SfxType::CardHover => "card_hover",
            SfxType::CardSelect => "card_select",
            SfxType::PlayerAttack => "player_attack",
            SfxType::PlayerHit => "player_hit",
            SfxType::EnemyHit => "enemy_hit",
            SfxType::Block => "block",
            SfxType::CriticalHit => "critical_hit",
            SfxType::Dodge => "dodge",
            SfxType::LightningStrike => "lightning_strike",
            SfxType::FireSpell => "fire_spell",
            SfxType::IceSpell => "ice_spell",
            SfxType::Heal => "heal",
            SfxType::BuffApply => "buff_apply",
            SfxType::DebuffApply => "debuff_apply",
            SfxType::ShieldUp => "shield_up",
            SfxType::UltimateStart => "ultimate_start",
            SfxType::UltimateRelease => "ultimate_release",
            SfxType::SwordStrike => "sword_strike",
            SfxType::ThousandSwords => "thousand_swords",
            SfxType::UiClick => "ui_click",
            SfxType::UiHover => "ui_hover",
            SfxType::UiConfirm => "ui_confirm",
            SfxType::UiCancel => "ui_cancel",
            SfxType::UiError => "ui_error",
            SfxType::BreakthroughStart => "breakthrough_start",
            SfxType::BreakthroughSuccess => "breakthrough_success",
            SfxType::LevelUp => "level_up",
            SfxType::GoldGain => "gold_gain",
            SfxType::RelicObtain => "relic_obtain",
            SfxType::Victory => "victory",
            SfxType::Defeat => "defeat",
            SfxType::EnemySpawn => "enemy_spawn",
            SfxType::EnemyDeath => "enemy_death",
            SfxType::BossAppear => "boss_appear",
            SfxType::BossDeath => "boss_death",
        }
    }

    /// The display name of the sound.
    pub fn chinese_name(&self) -> (r: &'static str)
        ensures
            r@ == sfx_chinese_name(*self),
    {
        match self {
            SfxType::CardPlay => "出牌",
            SfxType::DrawCard => "抽牌",
            SfxType::ShuffleCard => "洗牌",
            SfxType::CardHover => "卡牌悬停",
            SfxType::CardSelect => "卡牌选中",
            SfxType::PlayerAttack => "玩家攻击",
            SfxType::PlayerHit => "玩家受击",
            SfxType::EnemyHit => "敌人受击",
            SfxType::Block => "格挡",
            SfxType::CriticalHit => "暴击",
            SfxType::Dodge => "闪避",
            SfxType::LightningStrike => "天雷落下",
            SfxType::FireSpell => "火焰法术",
            SfxType::IceSpell => "冰霜法术",
            SfxType::Heal => "治疗",
            SfxType::BuffApply => "增益施加",
            SfxType::DebuffApply => "减益施加",
            SfxType::ShieldUp => "护盾升起",
            SfxType::UltimateStart => "大招起手",
            SfxType::UltimateRelease => "大招释放",
            SfxType::SwordStrike => "剑气斩击",
            SfxType::ThousandSwords => "万剑归宗",
            SfxType::UiClick => "UI点击",
            SfxType::UiHover => "UI悬停",
            SfxType::UiConfirm => "UI确认",
            SfxType::UiCancel => "UI取消",
            SfxType::UiError => "UI错误",
            SfxType::BreakthroughStart => "突破开始",
            SfxType::BreakthroughSuccess => "突破成功",
            SfxType::LevelUp => "升级",
            SfxType::GoldGain => "获得金币",
            SfxType::RelicObtain => "获得遗物",
            SfxType::Victory => "战斗胜利",
            SfxType::Defeat => "战斗失败",
            SfxType::EnemySpawn => "敌人生成",
            SfxType::EnemyDeath => "敌人死亡",
            SfxType::BossAppear => "Boss登场",
            SfxType::BossDeath => "Boss死亡",
        }
    }

    /// The category of the sound.
    pub fn category(&self) -> (r: &'static str)
        ensures
            r@ == sfx_category(*self),
    {
        match self {
            SfxType::CardPlay => "卡牌相关",
            SfxType::DrawCard => "卡牌相关",
            SfxType::ShuffleCard => "卡牌相关",
            SfxType::CardHover => "卡牌相关",
            SfxType::CardSelect => "卡牌相关",
            SfxType::PlayerAttack => "战斗相关",
            SfxType::PlayerHit => "战斗相关",
            SfxType::EnemyHit => "战斗相关",
            SfxType::Block => "战斗相关",
            SfxType::CriticalHit => "战斗相关",
            SfxType::Dodge => "战斗相关",
            SfxType::LightningStrike => "法术技能",
            SfxType::FireSpell => "法术技能",
            SfxType::IceSpell => "法术技能",
            SfxType::Heal => "法术技能",
            SfxType::BuffApply => "法术技能",
            SfxType::DebuffApply => "法术技能",
            SfxType::ShieldUp => "法术技能",
            SfxType::UltimateStart => "大招技能",
            SfxType::UltimateRelease => "大招技能",
            SfxType::SwordStrike => "大招技能",
            SfxType::ThousandSwords => "大招技能",
            SfxType::UiClick => "UI交互",
            SfxType::UiHover => "UI交互",
            SfxType::UiConfirm => "UI交互",
            SfxType::UiCancel => "UI交互",
            SfxType::UiError => "UI交互",
            SfxType::BreakthroughStart => "系统事件",
            SfxType::BreakthroughSuccess => "系统事件",
            SfxType::LevelUp => "系统事件",
            SfxType::GoldGain => "系统事件",
            SfxType::RelicObtain => "系统事件",
            SfxType::Victory => "系统事件",
            SfxType::Defeat => "系统事件",
            SfxType::EnemySpawn => "敌人相关",
            SfxType::EnemyDeath => "敌人相关",
            SfxType::BossAppear => "敌人相关",
            SfxType::BossDeath => "敌人相关",
        }
    }

}

} // verus!
