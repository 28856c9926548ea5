//! The configuration data: which apps can be supervised, and which hooks
//! belong to each. Loading and deserializing the file is the caller's
//! business; the engine works on the plain values.
use vstd::prelude::*;
use crate::text::str_eq;

verus! {

/// The whole configuration: the supervisable apps.
#[derive(Debug, PartialEq)]
pub struct Config {
    pub apps: Vec<App>,
}

/// One supervisable app: its id, the command that runs it, and its hooks.
#[derive(Debug, PartialEq)]
pub struct App {
    pub id: String,
    pub cmd: String,
    pub args: Vec<String>,
    pub startup_hooks: Vec<StartupHook>,
    pub time_hooks: Vec<TimeHook>,
}

/// A command run before the app starts; a failing one aborts the run.
#[derive(Debug, PartialEq)]
pub struct StartupHook {
    pub cmd: String,
    pub args: Vec<String>,
}

/// A command run while the app runs, guarded by a condition command.
#[derive(Debug, PartialEq)]
pub struct TimeHook {
    pub cmd: String,
    pub args: Vec<String>,
    pub condition_cmd: String,
    pub condition_args: Vec<String>,
}

impl Config {
    /// The first configured app whose id is `app_id`, if any.
    pub fn get_app<'a>(&'a self, app_id: &str) -> (r: Option<&'a App>)
        ensures
            r matches Some(app) ==> exists|k: int|
                0 <= k < self.apps@.len() && *app == self.apps@[k] && self.apps@[k].id@ == app_id@
                    && (forall|j: int| 0 <= j < k ==> self.apps@[j].id@ != app_id@),
            r is None ==> forall|k: int| 0 <= k < self.apps@.len() ==> self.apps@[k].id@ != app_id@,
    {
        let n = self.apps.len();
        let mut k: usize = 0;
        while k < n
            invariant
                n == self.apps@.len(),
                0 <= k <= n,
                forall|j: int| 0 <= j < k ==> self.apps@[j].id@ != app_id@,
            decreases n - k,
        {
            if str_eq(self.apps[k].id.as_str(), app_id) {
                return Some(&self.apps[k]);
            }
            k += 1;
        }
        None
    }
}

} // verus!
