use gpui_shell::effects::{queue_component_app_effect, AppEffects, InstalledAppEffect};
use gpui_shell::error::Fault;
use gpui_shell::textmap::TextMap;

#[test]
fn returning_to_the_installed_app_effect_cancels_a_pending_replacement() {
    let key = "menu".to_owned();
    let mut pending: TextMap<String> = TextMap::new();
    let mut installed: TextMap<InstalledAppEffect> = TextMap::new();
    installed.insert(key.clone(), InstalledAppEffect { revision: "a".into(), cleanup: None });

    assert!(queue_component_app_effect(&mut pending, &installed, &key, "b"));
    assert_eq!(pending.get(&key).map(String::as_str), Some("b"));
    assert!(!queue_component_app_effect(&mut pending, &installed, &key, "a"));
    assert!(!pending.contains_key(&key));

    installed.insert(key.clone(), InstalledAppEffect { revision: "b".into(), cleanup: None });
    assert!(queue_component_app_effect(&mut pending, &installed, &key, "a"));
}

#[test]
fn an_effect_is_installed_once_and_cleaned_up_when_replaced() {
    let mut effects = AppEffects::new();
    let plan = effects.schedule_component_app_effect(4, true, Some(9), "menu", "a").unwrap();
    assert!(plan.observe_release && plan.defer);
    let again = effects.schedule_component_app_effect(4, true, Some(9), "menu", "a").unwrap();
    assert!(!again.observe_release && !again.defer);
    assert_eq!(effects.apply_component_app_effect(4, true, "menu", "a"), Some(None));
    assert_eq!(effects.finish_component_app_effect(4, "menu", "a", 70), None);
    assert_eq!(effects.root_view(4), Some(9));

    effects.schedule_component_app_effect(4, true, Some(9), "menu", "b").unwrap();
    assert_eq!(effects.apply_component_app_effect(4, true, "menu", "b"), Some(Some(70)));
    assert_eq!(effects.finish_component_app_effect(4, "menu", "b", 71), None);
    assert_eq!(effects.retire_component_app_effects(4, true), vec![71]);
    assert_eq!(effects.root_view(4), None);
}

#[test]
fn an_effect_of_a_retired_application_is_neither_scheduled_nor_applied() {
    let mut effects = AppEffects::new();
    assert!(matches!(
        effects.schedule_component_app_effect(4, false, Some(9), "menu", "a"),
        Err(Fault::EffectRetired)
    ));
    assert!(matches!(
        effects.schedule_component_app_effect(4, true, None, "menu", "a"),
        Err(Fault::EffectNeedsView)
    ));
    effects.schedule_component_app_effect(4, true, Some(9), "menu", "a").unwrap();
    assert_eq!(effects.apply_component_app_effect(4, false, "menu", "a"), None);
}

#[test]
fn only_the_last_request_is_applied() {
    let mut effects = AppEffects::new();
    effects.schedule_component_app_effect(4, true, Some(9), "menu", "a").unwrap();
    effects.schedule_component_app_effect(4, true, Some(9), "menu", "b").unwrap();
    assert_eq!(effects.apply_component_app_effect(4, true, "menu", "a"), None);
    assert_eq!(effects.apply_component_app_effect(4, true, "menu", "b"), Some(None));
}

#[test]
fn what_is_installed_after_the_application_is_gone_is_cleaned_up_at_once() {
    let mut effects = AppEffects::new();
    effects.schedule_component_app_effect(4, true, Some(9), "menu", "a").unwrap();
    assert_eq!(effects.apply_component_app_effect(4, true, "menu", "a"), Some(None));
    assert!(effects.cleanup_component_app_effects(4).is_empty());
    assert_eq!(effects.finish_component_app_effect(4, "menu", "a", 70), Some(70));
}
