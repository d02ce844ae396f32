//! What the skills extension keeps per thread and per turn.
use crate::skills::catalog::{SkillCatalog, SkillCatalogEntry};
use vstd::prelude::*;

verus! {

/// The state of one thread: a configuration that can be replaced, and the roots
/// that were selected when the thread began.
#[derive(Debug)]
pub struct SkillsThreadState<Config, Root> {
    config: Config,
    selected_roots: Vec<Root>,
}

impl<Config: Clone, Root> SkillsThreadState<Config, Root> {
    /// The configuration in force.
    pub closed spec fn current(&self) -> Config {
        self.config
    }

    /// The selected roots.
    pub closed spec fn roots(&self) -> Seq<Root> {
        self.selected_roots@
    }

    pub fn new(config: Config, selected_roots: Vec<Root>) -> (state: Self)
        ensures
            state.current() == config,
            state.roots() == selected_roots@,
    {
        SkillsThreadState { config, selected_roots }
    }

    /// A clone of the configuration in force.
    pub fn config(&self) -> (res: Config)
        ensures
            cloned(self.current(), res),
    {
        self.config.clone()
    }

    /// Replaces the configuration and leaves the roots as they are.
    pub fn set_config(&mut self, config: Config)
        ensures
            final(self).current() == config,
            final(self).roots() == old(self).roots(),
    {
        self.config = config;
    }

    pub fn selected_roots(&self) -> (res: &[Root])
        ensures
            res@ == self.roots(),
    {
        self.selected_roots.as_slice()
    }
}

/// The state of one turn.
#[derive(Clone, Debug, PartialEq, Eq)]
pub struct SkillsTurnState {
    pub catalog: SkillCatalog,
    pub selected_entries: Vec<SkillCatalogEntry>,
    pub warnings: Vec<String>,
    pub main_prompts_injected: bool,
}

impl Default for SkillsTurnState {
    /// A turn that has not looked at any skill yet.
    fn default() -> (state: SkillsTurnState)
        ensures
            state.catalog.entries@.len() == 0,
            state.catalog.warnings@.len() == 0,
            state.selected_entries@.len() == 0,
            state.warnings@.len() == 0,
            !state.main_prompts_injected,
    {
        SkillsTurnState {
            catalog: SkillCatalog { entries: Vec::new(), warnings: Vec::new() },
            selected_entries: Vec::new(),
            warnings: Vec::new(),
            main_prompts_injected: false,
        }
    }
}

} // verus!
