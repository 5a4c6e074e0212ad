//! The decisions of the game's main loop: what each step asks the program
//! to do, in order.

use vstd::prelude::*;

use crate::resource_map::ResourceMap;

verus! {

/// The step that the game takes next, as the views decide it.
pub enum NextGameStep<A, S> {
    Exit,
    NewCampaign { pc_actor: A },
    LoadCampaign { save_state: S },
    MainMenu,
    MainMenuReloadResources,
    LoadModuleAndNewCampaign {
        pc_actor: A,
        party_actors: Vec<A>,
        flags: ResourceMap<String>,
        module_dir: String,
    },
    RecreateIO,
}

/// One thing that the main loop does.
pub enum GameAction<A, S> {
    /// Make `module_dir` the active campaign and write the active resources.
    SelectCampaign { module_dir: String },
    /// Read the resources of the active directories.
    LoadResources,
    /// Set the display up anew.
    RecreateIO,
    /// Run the main menu until it picks the next step.
    RunMainMenu,
    /// Start a campaign and run it until it picks the next step.
    NewCampaign { pc_actor: A, party_actors: Vec<A>, flags: ResourceMap<String> },
    /// Load a saved campaign and run it until it picks the next step.
    LoadCampaign { save_state: S },
}

/// What the main loop does for `step`, in order; nothing for `Exit`, which
/// ends the loop.
pub fn plan_step<A, S>(step: NextGameStep<A, S>) -> (actions: Vec<GameAction<A, S>>)
    ensures
        match step {
            NextGameStep::Exit => actions@.len() == 0,
            NextGameStep::NewCampaign { pc_actor } => {
                &&& actions@.len() == 1
                &&& actions@[0] matches GameAction::NewCampaign { pc_actor: a, party_actors, flags }
                &&& a == pc_actor
                &&& party_actors@.len() == 0
                &&& flags.wf()
                &&& flags@.len() == 0
            },
            NextGameStep::LoadCampaign { save_state } => actions@ == seq![GameAction::<A, S>::LoadCampaign { save_state }],
            NextGameStep::MainMenu => actions@ == seq![GameAction::<A, S>::RunMainMenu],
            NextGameStep::MainMenuReloadResources => actions@ == seq![
                GameAction::<A, S>::LoadResources,
                GameAction::<A, S>::RunMainMenu,
            ],
            NextGameStep::LoadModuleAndNewCampaign { pc_actor, party_actors, flags, module_dir } => actions@ == seq![
                GameAction::<A, S>::SelectCampaign { module_dir },
                GameAction::<A, S>::LoadResources,
                GameAction::<A, S>::NewCampaign { pc_actor, party_actors, flags },
            ],
            NextGameStep::RecreateIO => actions@ == seq![
                GameAction::<A, S>::RecreateIO,
                GameAction::<A, S>::RunMainMenu,
            ],
        },
{
    let mut actions: Vec<GameAction<A, S>> = Vec::new();
    match step {
        NextGameStep::Exit => {},
        NextGameStep::NewCampaign { pc_actor } => {
            actions.push(
                GameAction::NewCampaign {
                    pc_actor,
                    party_actors: Vec::new(),
                    flags: ResourceMap::new(),
                },
            );
        },
        NextGameStep::LoadCampaign { save_state } => {
            actions.push(GameAction::LoadCampaign { save_state });
        },
        NextGameStep::MainMenu => {
            actions.push(GameAction::RunMainMenu);
        },
        NextGameStep::MainMenuReloadResources => {
            actions.push(GameAction::LoadResources);
            actions.push(GameAction::RunMainMenu);
        },
        NextGameStep::LoadModuleAndNewCampaign { pc_actor, party_actors, flags, module_dir } => {
            actions.push(GameAction::SelectCampaign { module_dir });
            actions.push(GameAction::LoadResources);
            actions.push(GameAction::NewCampaign { pc_actor, party_actors, flags });
        },
        NextGameStep::RecreateIO => {
            actions.push(GameAction::RecreateIO);
            actions.push(GameAction::RunMainMenu);
        },
    }
    proof {
        assert(actions@ =~= actions@);
    }
    actions
}

/// The step after a view closes: the one it picked, or `Exit` when it
/// picked none.
pub fn step_after_view<A, S>(picked: Option<NextGameStep<A, S>>) -> (step: NextGameStep<A, S>)
    ensures
        step == match picked {
            Some(s) => s,
            None => NextGameStep::Exit,
        },
{
    match picked {
        None => NextGameStep::Exit,
        Some(step) => step,
    }
}

/// Whether loading the resources of `dirs` loads a module too: the first
/// directory holds the core resources, the second a module's.
pub fn loads_module(dirs: &Vec<String>) -> (b: bool)
    ensures
        b == (dirs@.len() > 1),
{
    dirs.len() > 1
}

} // verus!
