use study_sessions::interactions::{parse_custom_id, ComponentAction};

#[test]
fn delete_token_is_recognized() {
    assert_eq!(parse_custom_id("delete_guild_dm"), Some(ComponentAction::DeleteGuildDm));
    assert_eq!(parse_custom_id("delete_guild_dm2"), None);
    assert_eq!(parse_custom_id("delete_guild_d"), None);
}

#[test]
fn deduct_tokens_carry_the_session_id() {
    assert_eq!(parse_custom_id("deduct_session_123"), Some(ComponentAction::DeductSession(123)));
    assert_eq!(parse_custom_id("deduct_session_0"), Some(ComponentAction::DeductSession(0)));
    assert_eq!(parse_custom_id("deduct_session_"), None);
    assert_eq!(parse_custom_id("deduct_session_12x"), None);
    assert_eq!(parse_custom_id("deduct_session"), None);
}

#[test]
fn reveal_tokens_carry_the_reward_id() {
    assert_eq!(parse_custom_id("reveal_reward_7"), Some(ComponentAction::RevealReward(7)));
    assert_eq!(parse_custom_id("reveal_reward_x7"), None);
    assert_eq!(parse_custom_id("reveal_reward_"), None);
}

#[test]
fn ids_outside_the_id_type_are_refused() {
    assert_eq!(
        parse_custom_id("reveal_reward_18446744073709551615"),
        Some(ComponentAction::RevealReward(u64::MAX))
    );
    assert_eq!(parse_custom_id("reveal_reward_18446744073709551616"), None);
}

#[test]
fn unknown_tokens_mean_nothing() {
    assert_eq!(parse_custom_id(""), None);
    assert_eq!(parse_custom_id("starboard"), None);
    assert_eq!(parse_custom_id("_deduct_session_5"), None);
}
