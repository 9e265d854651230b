//! What ComfyBox has installed, and the server that it runs.
use crate::ids::{IdMap, IdSet};
use crate::text::{same_text, Text};
use vstd::prelude::*;

verus! {

/// What one package or workflow brought in.
pub struct ManagedInstall {
    pub artifact_ids: IdSet,
    pub custom_node_ids: IdSet,
}

/// What ComfyBox has installed, and the server that it runs.
pub struct ManagedState {
    pub packages: IdMap<ManagedInstall>,
    pub workflows: IdMap<ManagedInstall>,
    pub comfy_pid: Option<u32>,
    pub comfy_log: Option<String>,
}

impl Default for ManagedInstall {
    fn default() -> (r: ManagedInstall)
        ensures
            r.artifact_ids@ == Set::<Text>::empty(),
            r.custom_node_ids@ == Set::<Text>::empty(),
    {
        ManagedInstall { artifact_ids: IdSet::new(), custom_node_ids: IdSet::new() }
    }
}

impl Default for ManagedState {
    fn default() -> (r: ManagedState)
        ensures
            r.packages@ == Map::<Text, ManagedInstall>::empty(),
            r.workflows@ == Map::<Text, ManagedInstall>::empty(),
            r.comfy_pid is None,
            r.comfy_log is None,
    {
        ManagedState {
            packages: IdMap::new(),
            workflows: IdMap::new(),
            comfy_pid: None,
            comfy_log: None,
        }
    }
}

/// Some entry of `m` other than `except` holds the artifact.
pub open spec fn artifact_held(m: Map<Text, ManagedInstall>, artifact: Text, except: Option<Text>) -> bool {
    exists|id: Text|
        #[trigger] m.contains_key(id) && Some(id) != except && m[id].artifact_ids@.contains(artifact)
}

/// Some entry of `m` other than `except` holds the custom node.
pub open spec fn node_held(m: Map<Text, ManagedInstall>, node: Text, except: Option<Text>) -> bool {
    exists|id: Text|
        #[trigger] m.contains_key(id) && Some(id) != except && m[id].custom_node_ids@.contains(node)
}

/// The text of an optional string slice.
pub open spec fn opt_text(s: Option<&str>) -> Option<Text> {
    match s {
        Some(s) => Some(s@),
        None => None,
    }
}

fn is_except(id: &String, except: Option<&str>) -> (r: bool)
    ensures
        r == (Some(id@) == opt_text(except)),
{
    match except {
        Some(e) => same_text(id.as_str(), e),
        None => false,
    }
}

fn any_holds_artifact(m: &IdMap<ManagedInstall>, artifact: &str, except: Option<&str>) -> (r: bool)
    ensures
        r == artifact_held(m@, artifact@, opt_text(except)),
{
    let n = m.len();
    let ghost keys = crate::ids::ascending(m@.dom());
    let mut i: usize = 0;
    while i < n
        invariant
            i <= n,
            n == keys.len(),
            keys == crate::ids::ascending(m@.dom()),
            keys.to_set() == m@.dom(),
            forall|k: int|
                0 <= k < i ==> !(Some(#[trigger] keys[k]) != opt_text(except)
                    && m@[keys[k]].artifact_ids@.contains(artifact@)),
        decreases n - i,
    {
        if let Some((id, install)) = m.entry(i) {
            if !is_except(id, except) && install.artifact_ids.contains(artifact) {
                return true;
            }
        }
        i += 1;
    }
    proof {
        assert forall|id: Text| #[trigger] m@.contains_key(id) implies !(Some(id) != opt_text(except)
            && m@[id].artifact_ids@.contains(artifact@)) by {
            assert(keys.to_set().contains(id));
            let k = choose|k: int| 0 <= k < keys.len() && keys[k] == id;
        }
    }
    false
}

fn any_holds_node(m: &IdMap<ManagedInstall>, node: &str, except: Option<&str>) -> (r: bool)
    ensures
        r == node_held(m@, node@, opt_text(except)),
{
    let n = m.len();
    let ghost keys = crate::ids::ascending(m@.dom());
    let mut i: usize = 0;
    while i < n
        invariant
            i <= n,
            n == keys.len(),
            keys == crate::ids::ascending(m@.dom()),
            keys.to_set() == m@.dom(),
            forall|k: int|
                0 <= k < i ==> !(Some(#[trigger] keys[k]) != opt_text(except)
                    && m@[keys[k]].custom_node_ids@.contains(node@)),
        decreases n - i,
    {
        if let Some((id, install)) = m.entry(i) {
            if !is_except(id, except) && install.custom_node_ids.contains(node) {
                return true;
            }
        }
        i += 1;
    }
    proof {
        assert forall|id: Text| #[trigger] m@.contains_key(id) implies !(Some(id) != opt_text(except)
            && m@[id].custom_node_ids@.contains(node@)) by {
            assert(keys.to_set().contains(id));
            let k = choose|k: int| 0 <= k < keys.len() && keys[k] == id;
        }
    }
    false
}

impl ManagedState {
    /// Whether an installed package or workflow, other than those excepted, holds the artifact.
    pub fn artifact_referenced_elsewhere(
        &self,
        artifact_id: &str,
        except_package: Option<&str>,
        except_workflow: Option<&str>,
    ) -> (r: bool)
        ensures
            r == (artifact_held(self.packages@, artifact_id@, opt_text(except_package))
                || artifact_held(self.workflows@, artifact_id@, opt_text(except_workflow))),
    {
        any_holds_artifact(&self.packages, artifact_id, except_package) || any_holds_artifact(
            &self.workflows,
            artifact_id,
            except_workflow,
        )
    }

    /// Whether an installed package or workflow, other than those excepted, holds the custom node.
    pub fn custom_node_referenced_elsewhere(
        &self,
        node_id: &str,
        except_package: Option<&str>,
        except_workflow: Option<&str>,
    ) -> (r: bool)
        ensures
            r == (node_held(self.packages@, node_id@, opt_text(except_package)) || node_held(
                self.workflows@,
                node_id@,
                opt_text(except_workflow),
            )),
    {
        any_holds_node(&self.packages, node_id, except_package) || any_holds_node(
            &self.workflows,
            node_id,
            except_workflow,
        )
    }
}

}
