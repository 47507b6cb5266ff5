//! The camera-matrix dialog: the X, Y and Z expressions of a world point whose projection
//! locates the game's view matrix, and the viewport it is projected onto.
use vstd::prelude::*;
use crate::panel::CrosshairApp;
use crate::entity::entity_expressions;
use crate::entity_list::{pad_inputs, texts};
use crate::saved::set_elements;
use crate::pointer::format_pointer_expression;
use crate::address::format_prefixed_memory_address;
use crate::text::owned;

verus! {

/// The inputs of the camera-matrix dialog that its logic reads.
pub struct CameraMatrixDialog {
    pub x: String,
    pub y: String,
    pub z: String,
    pub viewport_width: String,
    pub viewport_height: String,
    pub status: String,
    pub selected: Option<usize>,
    pub projection_variant: usize,
    /// Whether a matrix scan is running.
    pub scanning: bool,
}

/// The first three of `s`, or all of them when fewer.
pub open spec fn first_three(s: Seq<Seq<char>>) -> Seq<Seq<char>> {
    if s.len() >= 3 { s.subrange(0, 3) } else { s }
}

/// The X, Y and Z inputs the dialog opens with: the expressions of the first three selected
/// saved rows, blank where fewer are selected, or the last inputs used when none is.
pub open spec fn camera_inputs(exprs: Seq<Seq<char>>, last: Seq<Seq<char>>) -> Seq<Seq<char>> {
    let picked = pad_inputs(first_three(exprs));
    if forall|i: int| 0 <= i < 3 ==> (#[trigger] picked[i]).len() == 0 { last } else { picked }
}

impl CrosshairApp {
    /// The camera-matrix dialog as opened on the current selection, its selected saved rows
    /// taken in the order their set yields them.
    pub fn open_camera_matrix_dialog(&self) -> (d: CameraMatrixDialog)
        ensures
            exists|order: Seq<usize>| {
                &&& order.to_set() == self.memory_panel.selected_saved@
                &&& order.no_duplicates()
                &&& seq![d.x@, d.y@, d.z@] == camera_inputs(
                    entity_expressions(self.memory_panel, order, Seq::empty()),
                    seq![self.state.memory_camera_x@, self.state.memory_camera_y@, self.state.memory_camera_z@],
                )
            },
            d.viewport_width@ == self.state.memory_camera_viewport_width@,
            d.viewport_height@ == self.state.memory_camera_viewport_height@,
            d.status@ == "Enter X, Y and Z pointer expressions, then start the scan."@,
            d.selected is None,
            d.projection_variant == 0,
            !d.scanning,
    {
        let order = set_elements(&self.memory_panel.selected_saved);
        let ghost p = self.memory_panel;
        let mut exprs: Vec<String> = Vec::new();
        let mut i: usize = 0;
        assert(order@.subrange(0, 0) =~= Seq::<usize>::empty());
        while i < order.len()
            invariant
                i <= order@.len(),
                p == self.memory_panel,
                texts(exprs@) == entity_expressions(p, order@.subrange(0, i as int), Seq::empty()),
            decreases order@.len() - i,
        {
            let k = order[i];
            proof {
                let pre = order@.subrange(0, i + 1);
                assert(pre.drop_last() == order@.subrange(0, i as int));
                assert(pre.last() == k);
            }
            if k < self.memory_panel.saved.len() {
                let e = match &self.memory_panel.saved[k].pointer {
                    Some(ptr) => format_pointer_expression(ptr),
                    None => format_prefixed_memory_address(self.memory_panel.saved[k].address),
                };
                let ghost before = exprs@;
                let ghost ev = e@;
                exprs.push(e);
                assert(texts(exprs@) =~= texts(before).push(ev));
            }
            i = i + 1;
        }
        assert(order@.subrange(0, order@.len() as int) == order@);
        let ghost all = texts(exprs@);
        let ghost picked = pad_inputs(first_three(all));
        let x = if exprs.len() > 0 { exprs[0].clone() } else { String::new() };
        let y = if exprs.len() > 1 { exprs[1].clone() } else { String::new() };
        let z = if exprs.len() > 2 { exprs[2].clone() } else { String::new() };
        assert(seq![x@, y@, z@] =~= picked);
        let blank = crate::text::chars_of(x.as_str()).len() == 0 && crate::text::chars_of(y.as_str()).len() == 0
            && crate::text::chars_of(z.as_str()).len() == 0;
        let (x, y, z) = if blank {
            (self.state.memory_camera_x.clone(), self.state.memory_camera_y.clone(), self.state.memory_camera_z.clone())
        } else {
            (x, y, z)
        };
        CameraMatrixDialog {
            x,
            y,
            z,
            viewport_width: self.state.memory_camera_viewport_width.clone(),
            viewport_height: self.state.memory_camera_viewport_height.clone(),
            status: owned("Enter X, Y and Z pointer expressions, then start the scan."),
            selected: None,
            projection_variant: 0,
            scanning: false,
        }
    }
}

} // verus!
