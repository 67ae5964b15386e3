//! Dragging a tab along the tab strip: when a press becomes a drag, which tab it moves onto,
//! and when it ends.

use vstd::prelude::*;

verus! {

/// A drag of a tab: the project and the tab pressed, whether the pointer has moved far enough
/// to drag, and the tab it last moved onto.
#[derive(Clone, Copy, Debug, PartialEq, Eq, Structural)]
pub struct TabDrag {
    pub project: u64,
    pub tab: u64,
    pub active: bool,
    pub last_target: Option<u64>,
}

/// The press of a tab, which may become a drag.
#[derive(Clone, Copy, Debug, PartialEq, Eq, Structural)]
pub struct TabDragState {
    pub gesture: Option<TabDrag>,
}

/// Whether a drag can go on in the current project: nothing blocks the strip, and the drag
/// belongs to the project, which is not missing and still has the dragged tab.
pub open spec fn drag_available(d: TabDrag, project: u64, missing: bool, has_tab: bool, blocked: bool) -> bool {
    !blocked && d.project == project && !missing && has_tab
}

/// The gesture after the pointer moved: a press becomes a drag once the pointer moved far
/// enough; a drag that reaches another tab than the last one moves the dragged tab onto it.
pub open spec fn pointer_step(g: Option<TabDrag>, far_enough: bool, target: Option<u64>) -> (Option<TabDrag>, Option<(u64, u64)>) {
    match g {
        None => (g, None),
        Some(d) => if !d.active && !far_enough {
            (g, None)
        } else {
            let t = match target {
                Some(t) if t != d.tab => Some(t),
                _ => None,
            };
            if t == d.last_target {
                (Some(TabDrag { active: true, ..d }), None)
            } else {
                (Some(TabDrag { active: true, last_target: t, ..d }), match t {
                    Some(x) => Some((d.tab, x)),
                    None => None,
                })
            }
        },
    }
}

impl TabDragState {
    /// No press under way.
    pub fn new() -> (r: Self)
        ensures
            r.gesture is None,
    {
        TabDragState { gesture: None }
    }

    /// A tab of a project is pressed.
    pub fn begin(&mut self, project: u64, tab: u64)
        ensures
            final(self).gesture == Some(TabDrag { project, tab, active: false, last_target: None }),
    {
        self.gesture = Some(TabDrag { project, tab, active: false, last_target: None });
    }

    /// Ends the press; whether it was a drag.
    pub fn end(&mut self) -> (r: bool)
        ensures
            final(self).gesture is None,
            r == (old(self).gesture matches Some(d) && d.active),
    {
        let r = match self.gesture {
            Some(d) => d.active,
            None => false,
        };
        self.gesture = None;
        r
    }

    /// Whether a drag is under way.
    pub fn is_active(&self) -> (r: bool)
        ensures
            r == (self.gesture matches Some(d) && d.active),
    {
        match self.gesture {
            Some(d) => d.active,
            None => false,
        }
    }

    /// Ends the press where it cannot go on in the current project, as `drag_available` says;
    /// `has_tab` tells whether the project still has the pressed tab.
    pub fn cancel_unavailable(&mut self, project: u64, missing: bool, has_tab: bool, blocked: bool)
        ensures
            final(self).gesture == (match old(self).gesture {
                Some(d) if drag_available(d, project, missing, has_tab, blocked) => Some(d),
                _ => None,
            }),
    {
        if blocked {
            self.gesture = None;
            return;
        }
        if let Some(d) = self.gesture {
            if d.project != project || missing || !has_tab {
                self.gesture = None;
            }
        }
    }

    /// The pointer moved, `far_enough` from where the press began, over the tab `target`, if
    /// any: as `pointer_step` says; returns the tab to move and the tab to move it onto.
    pub fn pointer_moved(&mut self, far_enough: bool, target: Option<u64>) -> (r: Option<(u64, u64)>)
        ensures
            (final(self).gesture, r) == pointer_step(old(self).gesture, far_enough, target),
    {
        let mut d = match self.gesture {
            Some(d) => d,
            None => {
                return None;
            },
        };
        if !d.active && !far_enough {
            return None;
        }
        d.active = true;
        let t = match target {
            Some(t) => if t != d.tab {
                Some(t)
            } else {
                None
            },
            None => None,
        };
        if t == d.last_target {
            self.gesture = Some(d);
            return None;
        }
        d.last_target = t;
        self.gesture = Some(d);
        match t {
            Some(x) => Some((d.tab, x)),
            None => None,
        }
    }
}

/// A drag moves the pressed tab, never onto itself, and onto a tab only when the pointer
/// reaches it anew; and a press that has not moved far enough moves nothing.
pub proof fn lemma_drags_move_the_pressed_tab_onto_new_targets(
    g: Option<TabDrag>,
    far_enough: bool,
    target: Option<u64>,
)
    ensures
        ({
            let (next, moved) = pointer_step(g, far_enough, target);
            &&& moved matches Some((tab, onto)) ==> {
                &&& g matches Some(d)
                &&& tab == d.tab
                &&& onto != tab
                &&& target == Some(onto)
                &&& d.last_target != Some(onto)
                &&& next matches Some(n) && n.active && n.last_target == Some(onto)
            }
            &&& (g matches Some(d) && !d.active && !far_enough) ==> moved is None && next == g
        }),
{
}

} // verus!
