use vstd::prelude::*;
use vstd::string::StringExecFns;
use crate::dom::{Dom, DomId, NodeId, ParentDom};
use crate::ids::IdCounter;
use crate::ui_state::{UiState, ui_state_from_dom};

verus! {

/// Identifies a window of the application.
#[derive(Debug, Clone, Copy, PartialEq, Eq, Structural, PartialOrd, Ord, Hash)]
pub struct WindowId {
    pub id: usize,
}

/// Error of a frame that had to be skipped.
#[derive(Debug, Clone, Copy, PartialEq, Eq, Structural)]
pub enum RuntimeError {
    /// A window that was asked for does not exist (any more)
    WindowIndexError,
}

impl RuntimeError {
    /// A description of the error for people.
    pub fn message(&self) -> (r: String)
        ensures
            *self == RuntimeError::WindowIndexError ==> r@ == "Invalid window index"@,
    {
        match self {
            RuntimeError::WindowIndexError => String::from_str("Invalid window index"),
        }
    }
}

/// Runs the layout step of one window: calls the layout function with the
/// application data and the window, and assigns the tags of the tree it returns.
///
/// `window` is the window that was looked up; `None` means it does not
/// exist, which skips the frame with `WindowIndexError`.
pub fn ui_state_from_app_state<T, W, C: Copy, F: FnOnce(&T, &W) -> Dom<C>>(
    data: &T,
    window: Option<&W>,
    parent_dom: Option<(DomId, NodeId)>,
    dom_ids: &mut IdCounter,
    layout_callback: F,
) -> (r: Result<UiState<C>, RuntimeError>)
    requires
        old(dom_ids).next < usize::MAX,
        forall|w: &W| layout_callback.requires((data, w)),
        forall|w: &W, d: Dom<C>| layout_callback.ensures((data, w), d) ==> d.wf(),
    ensures
        window is None <==> r == Err::<UiState<C>, RuntimeError>(RuntimeError::WindowIndexError),
        window is None ==> *final(dom_ids) == *old(dom_ids),
        window is Some ==> r is Ok,
        r matches Ok(s) ==> window is Some && layout_callback.ensures((data, window->0), s.dom)
            && s.assigned_from(s.dom.arena.node_data@) && s.dom_id.id == old(dom_ids).next
            && s.dom_id.parent == (match parent_dom {
                Some((d, n)) => Some(ParentDom { dom_id: d.id, node_id: n }),
                None => None,
            })
            && final(dom_ids).next == old(dom_ids).next + 1,
{
    match window {
        None => Err(RuntimeError::WindowIndexError),
        Some(w) => {
            let dom = layout_callback(data, w);
            Ok(ui_state_from_dom(dom, parent_dom, dom_ids))
        },
    }
}

} // verus!
