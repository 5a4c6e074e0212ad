use sulis::game::{loads_module, plan_step, step_after_view, GameAction, NextGameStep};
use sulis::resource_map::ResourceMap;

type Step = NextGameStep<&'static str, u32>;
type Action = GameAction<&'static str, u32>;

fn names(actions: &[Action]) -> Vec<&'static str> {
    actions
        .iter()
        .map(|a| match a {
            GameAction::SelectCampaign { .. } => "select",
            GameAction::LoadResources => "load",
            GameAction::RecreateIO => "recreate",
            GameAction::RunMainMenu => "menu",
            GameAction::NewCampaign { .. } => "new",
            GameAction::LoadCampaign { .. } => "load_campaign",
        })
        .collect()
}

#[test]
fn exit_ends_the_loop() {
    assert!(plan_step(Step::Exit).is_empty());
}

#[test]
fn menu_steps() {
    assert_eq!(names(&plan_step(Step::MainMenu)), vec!["menu"]);
    assert_eq!(names(&plan_step(Step::MainMenuReloadResources)), vec!["load", "menu"]);
    assert_eq!(names(&plan_step(Step::RecreateIO)), vec!["recreate", "menu"]);
}

#[test]
fn new_campaign_has_no_party_and_no_flags() {
    let actions = plan_step(Step::NewCampaign { pc_actor: "hero" });
    assert_eq!(actions.len(), 1);
    match &actions[0] {
        GameAction::NewCampaign { pc_actor, party_actors, flags } => {
            assert_eq!(*pc_actor, "hero");
            assert!(party_actors.is_empty());
            assert_eq!(flags.len(), 0);
        }
        _ => panic!("expected a new campaign"),
    }
}

#[test]
fn load_campaign_passes_the_save() {
    let actions = plan_step(Step::LoadCampaign { save_state: 9 });
    match &actions[..] {
        [GameAction::LoadCampaign { save_state }] => assert_eq!(*save_state, 9),
        _ => panic!("expected one load"),
    }
}

#[test]
fn module_campaign_selects_loads_then_starts() {
    let mut flags = ResourceMap::new();
    flags.insert_new("seen_intro".to_string(), "true".to_string());
    let actions = plan_step(Step::LoadModuleAndNewCampaign {
        pc_actor: "hero",
        party_actors: vec!["friend"],
        flags,
        module_dir: "modules/twin_expanse".to_string(),
    });
    assert_eq!(names(&actions), vec!["select", "load", "new"]);
    match (&actions[0], &actions[2]) {
        (GameAction::SelectCampaign { module_dir }, GameAction::NewCampaign { pc_actor, party_actors, flags }) => {
            assert_eq!(module_dir, "modules/twin_expanse");
            assert_eq!(*pc_actor, "hero");
            assert_eq!(party_actors, &vec!["friend"]);
            assert_eq!(flags.get(&"seen_intro".to_string()), Some(&"true".to_string()));
        }
        _ => panic!("unexpected actions"),
    }
}

#[test]
fn view_without_a_pick_exits() {
    assert!(matches!(step_after_view::<&str, u32>(None), NextGameStep::Exit));
    assert!(matches!(step_after_view::<&str, u32>(Some(Step::MainMenu)), NextGameStep::MainMenu));
}

#[test]
fn module_is_loaded_from_the_second_directory() {
    assert!(!loads_module(&vec!["data".to_string()]));
    assert!(loads_module(&vec!["data".to_string(), "modules/a".to_string()]));
    assert!(!loads_module(&vec![]));
}
