//! The commands' logic: strategies and presets, probing, sessions, updates,
//! settings files and the hosts file.

use crate::text::{chars_of, same, strs};
use vstd::prelude::*;



pub mod apex;
pub mod archive;
pub mod autostart_connect;
pub mod engine_process;
pub mod hosts;
pub mod preset_loader;
pub mod probe;
pub mod strategy;
pub mod strategy_loader;
pub mod strategy_runner;
pub mod updater;
pub mod zapret2_runner;
pub mod zapret2_updater;
pub mod zapret_backend;
pub mod zapret_config;

verus! {

/// A strategy (zapret 1 `.bat`) or preset (zapret 2 `.txt`) the user can start.
#[derive(Clone, Debug)]
pub struct Strategy {
    pub id: String,
    pub name: String,
    pub description: String,
    pub tags: Vec<String>,
    pub source_bat: String,
    pub args: String,
}

/// The contents of a [`Strategy`].
pub struct StrategyView {
    pub id: Seq<char>,
    pub name: Seq<char>,
    pub description: Seq<char>,
    pub tags: Seq<Seq<char>>,
    pub source_bat: Seq<char>,
    pub args: Seq<char>,
}

impl View for Strategy {
    type V = StrategyView;

    open spec fn view(&self) -> StrategyView {
        StrategyView {
            id: self.id@,
            name: self.name@,
            description: self.description@,
            tags: strs(self.tags@),
            source_bat: self.source_bat@,
            args: self.args@,
        }
    }
}

/// The contents of each strategy of a list.
pub open spec fn strategy_views(v: Seq<Strategy>) -> Seq<StrategyView> {
    v.map_values(|s: Strategy| s@)
}

/// `tags` holds `tag`.
pub open spec fn has_tag(tags: Seq<Seq<char>>, tag: Seq<char>) -> bool {
    exists|i: int| 0 <= i < tags.len() && tags[i] == tag
}

/// Whether one of `tags` equals `tag`.
pub fn any_tag(tags: &Vec<String>, tag: &str) -> (res: bool)
    ensures
        res == has_tag(strs(tags@), tag@),
{
    let t = chars_of(tag);
    let mut i: usize = 0;
    while i < tags.len()
        invariant
            i <= tags.len(),
            t@ == tag@,
            forall|j: int| 0 <= j < i ==> strs(tags@)[j] != tag@,
        decreases tags.len() - i,
    {
        let c = chars_of(tags[i].as_str());
        if same(&c, &t) {
            assert(strs(tags@)[i as int] == tag@);
            return true;
        }
        i += 1;
    }
    false
}

} // verus!
