//! Detection adapter: normalizes a detector's raw output into a
//! scale-corrected detection list.
//!
//! The external detector reports boxes in its own input coordinate space;
//! this stage rescales them to frame space by the ratio of frame to network
//! dimensions, drops detections whose class id is out of range or whose class
//! is not in the target allow-list, and rejects inconsistent output (length
//! mismatch between boxes, class ids and confidences) by returning an empty
//! detection list. Coordinates are integer pixels; the rescaling divides with
//! floor semantics.

use vstd::prelude::*;

use crate::events::EventBBox;

verus! {

/// One detection after rescaling to frame space, ready for the external
/// matcher. The center is the scaled box center.
#[derive(Clone, Copy, Debug, PartialEq, Eq, Structural)]
pub struct DetectionBlob {
    pub center_x: i64,
    pub center_y: i64,
    pub bbox_x: i64,
    pub bbox_y: i64,
    pub bbox_width: i64,
    pub bbox_height: i64,
}

/// The detection list handed to the track lifecycle manager. Blobs, class
/// names and confidences are aligned index by index: entry `j` of each
/// belongs to the same surviving detection.
#[derive(Debug)]
pub struct Detections {
    pub blobs: Vec<DetectionBlob>,
    pub class_names: Vec<String>,
    pub confidences: Vec<u32>,
}

/// A sequence of strings contains one with the given character content.
pub open spec fn seq_contains_str(s: Seq<String>, t: Seq<char>) -> bool {
    exists|i: int| 0 <= i < s.len() && s[i]@ == t
}

/// Detection `i` survives filtering: its class id indexes the network class
/// list, and the class is in the allow-list (an empty allow-list keeps all).
pub open spec fn detection_kept(
    class_ids: Seq<usize>,
    net_classes: Seq<String>,
    target_classes: Seq<String>,
    i: int,
) -> bool {
    &&& class_ids[i] < net_classes.len()
    &&& (target_classes.len() == 0 || seq_contains_str(
        target_classes,
        net_classes[class_ids[i] as int]@,
    ))
}

/// A detector-space box rescaled to frame space by frame/net, floor division.
pub open spec fn scaled_blob(b: EventBBox, fw: int, fh: int, nw: int, nh: int) -> DetectionBlob {
    DetectionBlob {
        center_x: (((2 * b.x + b.width) * fw) / (2 * nw)) as i64,
        center_y: (((2 * b.y + b.height) * fh) / (2 * nh)) as i64,
        bbox_x: ((b.x * fw) / nw) as i64,
        bbox_y: ((b.y * fh) / nh) as i64,
        bbox_width: ((b.width * fw) / nw) as i64,
        bbox_height: ((b.height * fh) / nh) as i64,
    }
}

/// The rescaled blobs of the first `n` detections that survive filtering, in
/// input order.
pub open spec fn spec_blobs(
    bboxes: Seq<EventBBox>,
    class_ids: Seq<usize>,
    net_classes: Seq<String>,
    target_classes: Seq<String>,
    fw: int,
    fh: int,
    nw: int,
    nh: int,
    n: int,
) -> Seq<DetectionBlob>
    decreases n,
{
    if n <= 0 {
        Seq::empty()
    } else {
        spec_blobs(bboxes, class_ids, net_classes, target_classes, fw, fh, nw, nh, n - 1)
            + if detection_kept(class_ids, net_classes, target_classes, n - 1) {
                seq![scaled_blob(bboxes[n - 1], fw, fh, nw, nh)]
            } else {
                Seq::empty()
            }
    }
}

/// The class names of the first `n` detections that survive filtering, in
/// input order, as character sequences.
pub open spec fn spec_class_names(
    class_ids: Seq<usize>,
    net_classes: Seq<String>,
    target_classes: Seq<String>,
    n: int,
) -> Seq<Seq<char>>
    decreases n,
{
    if n <= 0 {
        Seq::empty()
    } else {
        spec_class_names(class_ids, net_classes, target_classes, n - 1)
            + if detection_kept(class_ids, net_classes, target_classes, n - 1) {
                seq![net_classes[class_ids[n - 1] as int]@]
            } else {
                Seq::empty()
            }
    }
}

/// The confidences of the first `n` detections that survive filtering, in
/// input order.
pub open spec fn spec_confidences(
    class_ids: Seq<usize>,
    confidences: Seq<u32>,
    net_classes: Seq<String>,
    target_classes: Seq<String>,
    n: int,
) -> Seq<u32>
    decreases n,
{
    if n <= 0 {
        Seq::empty()
    } else {
        spec_confidences(class_ids, confidences, net_classes, target_classes, n - 1)
            + if detection_kept(class_ids, net_classes, target_classes, n - 1) {
                seq![confidences[n - 1]]
            } else {
                Seq::empty()
            }
    }
}

/// Product of a box coordinate term (below 3 * 2^31 in magnitude) and a frame
/// dimension, bounded within 3 * 2^62.
fn mul_scale(x: i128, y: i128) -> (r: i128)
    requires
        -0x1_8000_0000 <= x <= 0x1_8000_0000,
        -0x8000_0000 <= y <= 0x8000_0000,
    ensures
        r == x * y,
        -0xC000_0000_0000_0000 <= r <= 0xC000_0000_0000_0000,
{
    proof {
        assert(-0xC000_0000_0000_0000 <= x * y <= 0xC000_0000_0000_0000) by (nonlinear_arith)
            requires
                -0x1_8000_0000 <= x <= 0x1_8000_0000,
                -0x8000_0000 <= y <= 0x8000_0000,
        ;
    }
    x * y
}

/// Floor division of a bounded numerator by a positive divisor, with the
/// bounds needed to bring the quotient back into 64 bits.
fn scale_div(num: i128, den: i128) -> (r: i128)
    requires
        1 <= den,
        -0xC000_0000_0000_0000 <= num <= 0xC000_0000_0000_0000,
    ensures
        r == num as int / den as int,
        den >= 2 ==> -0x6000_0000_0000_0000 <= r <= 0x6000_0000_0000_0000,
        -0x4000_0000_0000_0000 <= num <= 0x4000_0000_0000_0000 ==> -0x4000_0000_0000_0000 <= r
            <= 0x4000_0000_0000_0000,
{
    proof {
        assert({
            &&& i128::MIN <= num as int / den as int <= i128::MAX
            &&& den >= 2 ==> -0x6000_0000_0000_0000 <= num as int / den as int
                <= 0x6000_0000_0000_0000
            &&& (-0x4000_0000_0000_0000 <= num <= 0x4000_0000_0000_0000)
                ==> -0x4000_0000_0000_0000 <= num as int / den as int <= 0x4000_0000_0000_0000
        }) by (nonlinear_arith)
            requires
                1 <= den,
                -0xC000_0000_0000_0000 <= num <= 0xC000_0000_0000_0000,
        ;
    }
    num.checked_div_euclid(den).unwrap()
}

/// Rescales one detector-space box to frame space.
fn rescale_box(b: &EventBBox, fw: i32, fh: i32, nw: i32, nh: i32) -> (r: DetectionBlob)
    requires
        1 <= nw,
        1 <= nh,
        0 <= fw,
        0 <= fh,
    ensures
        r == scaled_blob(*b, fw as int, fh as int, nw as int, nh as int),
{
    let cx = scale_div(
        mul_scale(2 * (b.x as i128) + (b.width as i128), fw as i128),
        2 * (nw as i128),
    );
    let cy = scale_div(
        mul_scale(2 * (b.y as i128) + (b.height as i128), fh as i128),
        2 * (nh as i128),
    );
    let bx = scale_div(mul_scale(b.x as i128, fw as i128), nw as i128);
    let by = scale_div(mul_scale(b.y as i128, fh as i128), nh as i128);
    let bw = scale_div(mul_scale(b.width as i128, fw as i128), nw as i128);
    let bh = scale_div(mul_scale(b.height as i128, fh as i128), nh as i128);
    DetectionBlob {
        center_x: cx as i64,
        center_y: cy as i64,
        bbox_x: bx as i64,
        bbox_y: by as i64,
        bbox_width: bw as i64,
        bbox_height: bh as i64,
    }
}

/// Whether the allow-list keeps the given class name.
fn class_allowed(target_classes: &Vec<String>, name: &String) -> (r: bool)
    ensures
        r == (target_classes@.len() == 0 || seq_contains_str(target_classes@, name@)),
{
    if target_classes.len() == 0 {
        return true;
    }
    let mut i: usize = 0;
    while i < target_classes.len()
        invariant
            i <= target_classes@.len(),
            forall|j: int| 0 <= j < i ==> target_classes@[j]@ != name@,
        decreases target_classes@.len() - i,
    {
        if target_classes[i] == *name {
            return true;
        }
        i = i + 1;
    }
    false
}

/// Normalizes one frame's raw detector output.
///
/// Inconsistent output (the three lists disagree in length) yields an empty
/// detection list rather than an error. Otherwise each detection whose class
/// id is valid and whose class is allowed is rescaled to frame space, and its
/// class name and confidence are kept alongside it, so the three output lists
/// stay aligned.
pub fn process_yolo_detections(
    nms_bboxes: &Vec<EventBBox>,
    nms_classes_ids: Vec<usize>,
    nms_confidences: Vec<u32>,
    net_classes: &Vec<String>,
    target_classes: &Vec<String>,
    frame_width: i32,
    frame_height: i32,
    net_width: i32,
    net_height: i32,
) -> (r: Detections)
    requires
        1 <= net_width,
        1 <= net_height,
        0 <= frame_width,
        0 <= frame_height,
    ensures
        (nms_bboxes@.len() != nms_classes_ids@.len() || nms_bboxes@.len()
            != nms_confidences@.len()) ==> {
            &&& r.blobs@.len() == 0
            &&& r.class_names@.len() == 0
            &&& r.confidences@.len() == 0
        },
        (nms_bboxes@.len() == nms_classes_ids@.len() && nms_bboxes@.len()
            == nms_confidences@.len()) ==> {
            &&& r.blobs@ == spec_blobs(
                nms_bboxes@,
                nms_classes_ids@,
                net_classes@,
                target_classes@,
                frame_width as int,
                frame_height as int,
                net_width as int,
                net_height as int,
                nms_bboxes@.len() as int,
            )
            &&& r.class_names@.map_values(|s: String| s@) == spec_class_names(
                nms_classes_ids@,
                net_classes@,
                target_classes@,
                nms_bboxes@.len() as int,
            )
            &&& r.confidences@ == spec_confidences(
                nms_classes_ids@,
                nms_confidences@,
                net_classes@,
                target_classes@,
                nms_bboxes@.len() as int,
            )
            &&& r.blobs@.len() == r.class_names@.len()
            &&& r.blobs@.len() == r.confidences@.len()
        },
{
    if nms_bboxes.len() != nms_classes_ids.len() || nms_bboxes.len() != nms_confidences.len() {
        return Detections { blobs: Vec::new(), class_names: Vec::new(), confidences: Vec::new() };
    }
    let mut blobs: Vec<DetectionBlob> = Vec::new();
    let mut class_names: Vec<String> = Vec::new();
    let mut confidences: Vec<u32> = Vec::new();
    let ghost fw = frame_width as int;
    let ghost fh = frame_height as int;
    let ghost nw = net_width as int;
    let ghost nh = net_height as int;
    let mut i: usize = 0;
    while i < nms_bboxes.len()
        invariant
            i <= nms_bboxes@.len(),
            1 <= net_width,
            1 <= net_height,
            0 <= frame_width,
            0 <= frame_height,
            fw == frame_width as int,
            fh == frame_height as int,
            nw == net_width as int,
            nh == net_height as int,
            nms_bboxes@.len() == nms_classes_ids@.len(),
            nms_bboxes@.len() == nms_confidences@.len(),
            blobs@.len() == class_names@.len(),
            blobs@.len() == confidences@.len(),
            confidences@ == spec_confidences(
                nms_classes_ids@,
                nms_confidences@,
                net_classes@,
                target_classes@,
                i as int,
            ),
            blobs@ == spec_blobs(
                nms_bboxes@,
                nms_classes_ids@,
                net_classes@,
                target_classes@,
                fw,
                fh,
                nw,
                nh,
                i as int,
            ),
            class_names@.map_values(|s: String| s@) == spec_class_names(
                nms_classes_ids@,
                net_classes@,
                target_classes@,
                i as int,
            ),
        decreases nms_bboxes@.len() - i,
    {
        let class_id = nms_classes_ids[i];
        if class_id < net_classes.len() {
            let classname = &net_classes[class_id];
            if class_allowed(target_classes, classname) {
                class_names.push(classname.clone());
                blobs.push(rescale_box(&nms_bboxes[i], frame_width, frame_height, net_width,
                    net_height));
                confidences.push(nms_confidences[i]);
                proof {
                    assert(detection_kept(nms_classes_ids@, net_classes@, target_classes@,
                        i as int));
                }
            } else {
                proof {
                    assert(!detection_kept(nms_classes_ids@, net_classes@, target_classes@,
                        i as int));
                }
            }
        }
        proof {
            assert(blobs@ =~= spec_blobs(nms_bboxes@, nms_classes_ids@, net_classes@,
                target_classes@, fw, fh, nw, nh, i + 1 as int));
            assert(class_names@.map_values(|s: String| s@) =~= spec_class_names(nms_classes_ids@,
                net_classes@, target_classes@, i + 1 as int));
            assert(confidences@ =~= spec_confidences(nms_classes_ids@, nms_confidences@,
                net_classes@, target_classes@, i + 1 as int));
        }
        i = i + 1;
    }
    Detections { blobs, class_names, confidences }
}

} // verus!
