//! Editing polylines and polygon meshes: the interactive command.
use crate::command::{
    answer, phrase_model, phrase_with, plain_phrase, CmdOption, CmdResult, Phrase, PhraseModel,
    ResultModel,
};
use crate::entity::{copy_of, views, Entity, Handle, NO_HANDLE, Shape, Smoothing};
use crate::handle_map::{map_get, map_insert, map_new, map_remove};
use crate::text::{
    after_prefix, begins, decimal, decimal_text, either, is_either, join3, keyword, keyword_of,
    number, owned, points_for_commas, same, trim, trimmed,
};
use crate::value::{zero, Point3, Real};
use rustc_hash::FxHashMap;
use vstd::prelude::*;

verus! {

/// An edit of a polyline or a mesh.
#[derive(Debug)]
pub enum PeditOp {
    /// The same edit on several entities.
    Multiple(Vec<Handle>, Box<PeditOp>),
    SetClosed(bool),
    SetWidth(Real),
    SetVertexWidth { index: usize, start: Real, end: Real },
    /// Break the polyline at a range of vertices, or straighten the range.
    VertexRange { first: usize, last: usize, split: bool },
    SetLinetypeGeneration(bool),
    /// Move a vertex, or insert one after it.
    EditVertex { index: usize, point: Point3, insert: bool },
    Reverse,
    /// Replace a line or an arc by an equivalent polyline.
    ConvertToPolyline,
    Fit,
    Spline,
    Decurve,
    SetMeshClosedM(bool),
    SetMeshClosedN(bool),
    SetMeshSmooth { smooth: Smoothing, m_density: i16, n_density: i16 },
    MoveMeshVertex { index: usize, point: Point3 },
}

/// The contents of a [`PeditOp`].
pub enum OpModel {
    Multiple(Seq<Handle>, Box<OpModel>),
    SetClosed(bool),
    SetWidth(Real),
    SetVertexWidth { index: usize, start: Real, end: Real },
    VertexRange { first: usize, last: usize, split: bool },
    SetLinetypeGeneration(bool),
    EditVertex { index: usize, point: Point3, insert: bool },
    Reverse,
    ConvertToPolyline,
    Fit,
    Spline,
    Decurve,
    SetMeshClosedM(bool),
    SetMeshClosedN(bool),
    SetMeshSmooth { smooth: Smoothing, m_density: i16, n_density: i16 },
    MoveMeshVertex { index: usize, point: Point3 },
}

impl View for PeditOp {
    type V = OpModel;

    open spec fn view(&self) -> OpModel {
        self.model()
    }
}

impl PeditOp {
    /// The contents of the edit.
    pub open spec fn model(&self) -> OpModel
        decreases self,
    {
        match self {
            PeditOp::Multiple(list, op) => OpModel::Multiple(list@, Box::new(op.model())),
            PeditOp::SetClosed(b) => OpModel::SetClosed(*b),
            PeditOp::SetWidth(w) => OpModel::SetWidth(*w),
            PeditOp::SetVertexWidth { index, start, end } => OpModel::SetVertexWidth {
                index: *index,
                start: *start,
                end: *end,
            },
            PeditOp::VertexRange { first, last, split } => OpModel::VertexRange {
                first: *first,
                last: *last,
                split: *split,
            },
            PeditOp::SetLinetypeGeneration(b) => OpModel::SetLinetypeGeneration(*b),
            PeditOp::EditVertex { index, point, insert } => OpModel::EditVertex {
                index: *index,
                point: *point,
                insert: *insert,
            },
            PeditOp::Reverse => OpModel::Reverse,
            PeditOp::ConvertToPolyline => OpModel::ConvertToPolyline,
            PeditOp::Fit => OpModel::Fit,
            PeditOp::Spline => OpModel::Spline,
            PeditOp::Decurve => OpModel::Decurve,
            PeditOp::SetMeshClosedM(b) => OpModel::SetMeshClosedM(*b),
            PeditOp::SetMeshClosedN(b) => OpModel::SetMeshClosedN(*b),
            PeditOp::SetMeshSmooth { smooth, m_density, n_density } => OpModel::SetMeshSmooth {
                smooth: *smooth,
                m_density: *m_density,
                n_density: *n_density,
            },
            PeditOp::MoveMeshVertex { index, point } => OpModel::MoveMeshVertex {
                index: *index,
                point: *point,
            },
        }
    }
}

/// What is known about an entity that can be picked.
#[derive(Clone, Copy, Debug, PartialEq, Eq)]
pub struct PeditTarget {
    /// A polyline or a mesh, which can be edited as it is.
    pub is_poly: bool,
    /// A line or an arc, which is offered for conversion.
    pub convertible: bool,
    /// The M and N sizes of a polygon mesh.
    pub mesh_size: Option<(usize, usize)>,
    /// Whether a polygon mesh is closed in the M and the N direction.
    pub mesh_closed: Option<(bool, bool)>,
}

/// What the command is waiting for.
#[derive(Clone, Copy, Debug, PartialEq, Eq, Structural)]
pub enum Mode {
    PickTarget,
    MultipleGather,
    MultipleConvert,
    Options,
    /// Whether to turn a line or an arc into a polyline.
    ConvertPrompt(Handle),
    AwaitWidth,
    AwaitLinetype,
    PolyVertex(usize),
    PolyRange { start: usize, end: usize, split: bool },
    PolyMove(usize),
    PolyInsert(usize),
    PolyWidthStart(usize, Real),
    PolyWidthEnd(usize, Real),
    /// Entities to join; the Enter key merges them.
    JoinGather,
    /// A walk over the vertices of a mesh, row after row.
    MeshVertex(usize),
    MeshVertexMove(usize),
}

/// The command that edits polylines and polygon meshes.
pub struct PeditCommand {
    pub target: Option<Handle>,
    pub entities: FxHashMap<Handle, Entity>,
    pub multiple: Vec<Handle>,
    pub multiple_history: Vec<Vec<Handle>>,
    pub pending_multiple: Option<Vec<Handle>>,
    pub info: FxHashMap<Handle, PeditTarget>,
    pub mode: Mode,
    pub joining: Vec<Handle>,
    pub undo_count: usize,
    pub mesh_smooth_type: Smoothing,
    pub mesh_smooth_density: (i16, i16),
    pub mesh_vertex_default: isize,
    pub pending_mesh_closed: Option<(bool, bool)>,
    pub mesh_closed_history: Vec<Option<(bool, bool)>>,
}

/// The contents of a [`PeditCommand`].
#[verifier::ext_equal]
pub struct PeditState {
    pub target: Option<Handle>,
    pub entities: Map<Handle, Entity>,
    pub multiple: Seq<Handle>,
    pub multiple_history: Seq<Seq<Handle>>,
    pub pending_multiple: Option<Seq<Handle>>,
    pub info: Map<Handle, PeditTarget>,
    pub mode: Mode,
    pub joining: Seq<Handle>,
    pub undo_count: usize,
    pub mesh_smooth_type: Smoothing,
    pub mesh_smooth_density: (i16, i16),
    pub mesh_vertex_default: isize,
    pub pending_mesh_closed: Option<(bool, bool)>,
    pub mesh_closed_history: Seq<Option<(bool, bool)>>,
}

/// The handles of a list, where there is one.
pub open spec fn list_of(v: Option<Vec<Handle>>) -> Option<Seq<Handle>> {
    match v {
        Some(v) => Some(v@),
        None => None,
    }
}

impl View for PeditCommand {
    type V = PeditState;

    open spec fn view(&self) -> PeditState {
        PeditState {
            target: self.target,
            entities: self.entities@,
            multiple: self.multiple@,
            multiple_history: views(self.multiple_history@),
            pending_multiple: list_of(self.pending_multiple),
            info: self.info@,
            mode: self.mode,
            joining: self.joining@,
            undo_count: self.undo_count,
            mesh_smooth_type: self.mesh_smooth_type,
            mesh_smooth_density: self.mesh_smooth_density,
            mesh_vertex_default: self.mesh_vertex_default,
            pending_mesh_closed: self.pending_mesh_closed,
            mesh_closed_history: self.mesh_closed_history@,
        }
    }
}

/// Whether the vertices of every mesh can be counted.
pub open spec fn meshes_fit(info: Map<Handle, PeditTarget>) -> bool {
    forall|h: Handle|
        #![trigger info[h]]
        info.contains_key(h) && info[h].mesh_size is Some ==> (info[h].mesh_size->0).0
            * (info[h].mesh_size->0).1 <= usize::MAX
}

/// Whether a vertex lies in a mesh, as the first vertex is taken to.
pub open spec fn in_mesh(size: Option<(usize, usize)>, index: usize) -> bool {
    match size {
        Some((m, n)) => index == 0 || index < m * n,
        None => true,
    }
}

/// Whether a vertex number can be shown, counting from one.
pub open spec fn mode_fits(mode: Mode) -> bool {
    match mode {
        Mode::PolyVertex(i) => i < usize::MAX,
        Mode::PolyRange { start, end, split } => start < usize::MAX && end < usize::MAX,
        Mode::PolyMove(i) => i < usize::MAX,
        Mode::PolyInsert(i) => i < usize::MAX,
        Mode::PolyWidthStart(i, w) => i < usize::MAX,
        Mode::PolyWidthEnd(i, w) => i < usize::MAX,
        Mode::MeshVertex(i) => i < usize::MAX,
        Mode::MeshVertexMove(i) => i < usize::MAX,
        _ => true,
    }
}

impl PeditState {
    /// The vertices of every known mesh can be counted, and so can the vertex
    /// that is being edited. A walk over the vertices of a mesh stays inside
    /// the mesh.
    pub open spec fn wf(self) -> bool {
        &&& meshes_fit(self.info)
        &&& mode_fits(self.mode)
        &&& match self.mode {
            Mode::MeshVertex(i) => in_mesh(self.mesh_size(), i),
            Mode::MeshVertexMove(i) => in_mesh(self.mesh_size(), i),
            _ => true,
        }
    }

    /// What is known about the target.
    pub open spec fn target_info(self) -> Option<PeditTarget> {
        match self.target {
            Some(h) => if self.info.contains_key(h) {
                Some(self.info[h])
            } else {
                None
            },
            None => None,
        }
    }

    /// The size of the target, where it is a mesh.
    pub open spec fn mesh_size(self) -> Option<(usize, usize)> {
        match self.target_info() {
            Some(t) => t.mesh_size,
            None => None,
        }
    }

    /// Whether the target is closed in either direction, where it is a mesh.
    pub open spec fn mesh_closed(self) -> Option<(bool, bool)> {
        match self.target_info() {
            Some(t) => t.mesh_closed,
            None => None,
        }
    }

    /// The number of vertices of the target.
    pub open spec fn vertex_count(self) -> nat {
        match self.target {
            Some(h) => if self.entities.contains_key(h) {
                vertices_in(self.entities[h].shape)
            } else {
                0
            },
            None => 0,
        }
    }

    /// The width that the segment after a vertex of the target starts with.
    pub open spec fn vertex_width(self, index: int) -> Real {
        match self.target {
            Some(h) => if self.entities.contains_key(h) {
                width_at(self.entities[h].shape, index)
            } else {
                zero()
            },
            None => zero(),
        }
    }

    /// The state with the target's closure recorded as `closed`.
    pub open spec fn with_closed(self, closed: (bool, bool)) -> PeditState {
        match self.target {
            Some(h) => if self.info.contains_key(h) {
                PeditState {
                    info: self.info.insert(
                        h,
                        PeditTarget { mesh_closed: Some(closed), ..self.info[h] },
                    ),
                    ..self
                }
            } else {
                self
            },
            None => self,
        }
    }

    /// The state with the target's closure in one direction recorded, where
    /// its closure is known.
    pub open spec fn with_direction(self, m_direction: bool, closed: bool) -> PeditState {
        match self.mesh_closed() {
            Some((m, n)) => self.with_closed(
                if m_direction {
                    (closed, n)
                } else {
                    (m, closed)
                },
            ),
            None => self,
        }
    }

    /// The state in another mode.
    pub open spec fn in_mode(self, mode: Mode) -> PeditState {
        PeditState { mode, ..self }
    }
}

/// The number of vertices that can be edited one by one.
pub open spec fn vertices_in(shape: Shape) -> nat {
    match shape {
        Shape::LwPolyline(p) => p.vertices@.len(),
        Shape::Polyline2D(p) => p.vertices@.len(),
        _ => 0,
    }
}

/// The width that the segment after a vertex starts with: the width of the
/// whole polyline where it has one, else the vertex's own.
pub open spec fn width_at(shape: Shape, index: int) -> Real {
    match shape {
        Shape::LwPolyline(p) => if !p.form.constant_width.equals(zero()) {
            p.form.constant_width
        } else if 0 <= index < p.vertices@.len() {
            p.vertices@[index].start_width
        } else {
            zero()
        },
        Shape::Polyline2D(p) => if 0 <= index < p.vertices@.len()
            && !p.vertices@[index].start_width.equals(zero()) {
            p.vertices@[index].start_width
        } else {
            p.form.start_width
        },
        _ => zero(),
    }
}

/// Whether a handle is known and names no mesh.
pub open spec fn known_plain(info: Map<Handle, PeditTarget>, h: Handle) -> bool {
    info.contains_key(h) && info[h].mesh_size is None
}

/// Whether a handle is known and names a polyline.
pub open spec fn known_poly(info: Map<Handle, PeditTarget>, h: Handle) -> bool {
    info.contains_key(h) && info[h].is_poly
}

/// Whether a handle is known and names a line or an arc.
pub open spec fn known_convertible(info: Map<Handle, PeditTarget>, h: Handle) -> bool {
    info.contains_key(h) && info[h].convertible
}

/// Whether a list names a line or an arc.
pub open spec fn any_convertible(info: Map<Handle, PeditTarget>, list: Seq<Handle>) -> bool {
    exists|i: int| 0 <= i < list.len() && known_convertible(info, #[trigger] list[i])
}

/// The first handle of a list.
pub open spec fn first_of(list: Seq<Handle>) -> Option<Handle> {
    if list.len() > 0 {
        Some(list[0])
    } else {
        None
    }
}

/// An edit of one entity, made an edit of all of `multiple` where that names
/// any.
pub open spec fn for_all(multiple: Seq<Handle>, handle: Handle, op: OpModel) -> ResultModel {
    if multiple.len() > 0 {
        ResultModel::PeditOp { handle, op: OpModel::Multiple(multiple, Box::new(op)) }
    } else {
        ResultModel::PeditOp { handle, op }
    }
}

/// Whether a word says yes, as no word does.
pub open spec fn says_yes(up: Seq<char>) -> bool {
    up == "Y"@ || up == "YES"@ || up == ""@
}

/// A typed word while the target is being picked.
pub open spec fn typed_pick(s: PeditState, up: Seq<char>) -> (PeditState, Option<ResultModel>) {
    if either(up, "M"@, "MULTIPLE"@) {
        (s.in_mode(Mode::MultipleGather), Some(ResultModel::NeedPoint))
    } else {
        (s, None)
    }
}

/// A typed word at the question whether to convert all lines and arcs.
pub open spec fn typed_convert_all(s: PeditState, up: Seq<char>) -> (
    PeditState,
    Option<ResultModel>,
) {
    if says_yes(up) {
        let t = PeditState {
            pending_multiple: Some(s.multiple),
            mode: Mode::Options,
            ..s
        };
        match first_of(s.multiple) {
            Some(h) => (t, Some(for_all(s.multiple, h, OpModel::ConvertToPolyline))),
            None => (t, None),
        }
    } else if either(up, "N"@, "NO"@) {
        let kept = s.multiple.filter(|h: Handle| known_poly(s.info, h));
        let t = PeditState {
            multiple: kept,
            target: first_of(kept),
            mode: Mode::Options,
            ..s
        };
        (
            t,
            Some(
                if kept.len() > 0 {
                    ResultModel::NeedPoint
                } else {
                    ResultModel::Cancel
                },
            ),
        )
    } else {
        (s, Some(ResultModel::NeedPoint))
    }
}

/// A typed word at the question whether to convert a line or an arc.
pub open spec fn typed_convert(s: PeditState, handle: Handle, up: Seq<char>) -> (
    PeditState,
    Option<ResultModel>,
) {
    if says_yes(up) {
        (s, Some(for_all(s.multiple, handle, OpModel::ConvertToPolyline)))
    } else if either(up, "N"@, "NO"@) {
        (s.in_mode(Mode::PickTarget), Some(ResultModel::NeedPoint))
    } else {
        (s, Some(ResultModel::NeedPoint))
    }
}

/// A typed width for the whole polyline.
pub open spec fn typed_width(s: PeditState, number: Option<Real>) -> (
    PeditState,
    Option<ResultModel>,
) {
    match (s.target, number) {
        (Some(h), Some(w)) => if w.width_like() {
            (s.in_mode(Mode::Options), Some(for_all(s.multiple, h, OpModel::SetWidth(w))))
        } else {
            (s, None)
        },
        _ => (s, None),
    }
}

/// A typed word at the question for the line type generation.
pub open spec fn typed_linetype(s: PeditState, up: Seq<char>) -> (
    PeditState,
    Option<ResultModel>,
) {
    if up == "ON"@ || up == "OFF"@ {
        let t = s.in_mode(Mode::Options);
        match s.target {
            Some(h) => (
                t,
                Some(for_all(s.multiple, h, OpModel::SetLinetypeGeneration(up == "ON"@))),
            ),
            None => (t, None),
        }
    } else {
        (s, Some(ResultModel::NeedPoint))
    }
}

/// A typed starting width of a segment.
pub open spec fn typed_width_start(s: PeditState, index: usize, number: Option<Real>) -> (
    PeditState,
    Option<ResultModel>,
) {
    match number {
        Some(w) => if w.width_like() {
            (s.in_mode(Mode::PolyWidthEnd(index, w)), Some(ResultModel::NeedPoint))
        } else {
            (s, Some(ResultModel::NeedPoint))
        },
        None => (s, None),
    }
}

/// A typed ending width of a segment.
pub open spec fn typed_width_end(
    s: PeditState,
    index: usize,
    start: Real,
    number: Option<Real>,
) -> (PeditState, Option<ResultModel>) {
    match number {
        Some(end) => if end.width_like() {
            let t = s.in_mode(Mode::PolyVertex(index));
            match s.target {
                Some(h) => (
                    t,
                    Some(for_all(s.multiple, h, OpModel::SetVertexWidth { index, start, end })),
                ),
                None => (t, None),
            }
        } else {
            (s, Some(ResultModel::NeedPoint))
        },
        None => (s, None),
    }
}

/// The vertex after one, or the one itself where it is the last.
pub open spec fn next_vertex(index: usize, count: nat) -> usize {
    if index + 1 < count {
        (index + 1) as usize
    } else {
        index
    }
}

/// The vertex before one, or the one itself where it is the first.
pub open spec fn previous_vertex(index: usize) -> usize {
    if index > 0 {
        (index - 1) as usize
    } else {
        index
    }
}

/// A typed word while the second end of a range is being walked to.
pub open spec fn typed_range(
    s: PeditState,
    start: usize,
    end: usize,
    split: bool,
    up: Seq<char>,
) -> (PeditState, Option<ResultModel>) {
    if either(up, "N"@, "NEXT"@) {
        let end = next_vertex(end, s.vertex_count());
        (s.in_mode(Mode::PolyRange { start, end, split }), Some(ResultModel::NeedPoint))
    } else if either(up, "P"@, "PREVIOUS"@) {
        let end = previous_vertex(end);
        (s.in_mode(Mode::PolyRange { start, end, split }), Some(ResultModel::NeedPoint))
    } else if either(up, "X"@, "EXIT"@) {
        (s.in_mode(Mode::PolyVertex(start)), Some(ResultModel::NeedPoint))
    } else if either(up, "G"@, "GO"@) {
        let first = if start <= end {
            start
        } else {
            end
        };
        let last = if start <= end {
            end
        } else {
            start
        };
        let t = s.in_mode(Mode::PolyVertex(first));
        match s.target {
            Some(handle) => (
                t,
                Some(
                    ResultModel::PeditOp {
                        handle,
                        op: OpModel::VertexRange { first, last, split },
                    },
                ),
            ),
            None => (t, None),
        }
    } else {
        (s, Some(ResultModel::NeedPoint))
    }
}

/// The mode that a typed word leads to from a vertex of a polyline.
pub open spec fn vertex_mode(s: PeditState, index: usize, up: Seq<char>) -> Mode {
    if either(up, "N"@, "NEXT"@) {
        Mode::PolyVertex(next_vertex(index, s.vertex_count()))
    } else if either(up, "P"@, "PREVIOUS"@) {
        Mode::PolyVertex(previous_vertex(index))
    } else if either(up, "B"@, "BREAK"@) {
        Mode::PolyRange { start: index, end: index, split: true }
    } else if either(up, "S"@, "STRAIGHTEN"@) {
        Mode::PolyRange { start: index, end: index, split: false }
    } else if either(up, "I"@, "INSERT"@) {
        Mode::PolyInsert(index)
    } else if either(up, "M"@, "MOVE"@) {
        Mode::PolyMove(index)
    } else if either(up, "W"@, "WIDTH"@) {
        Mode::PolyWidthStart(index, s.vertex_width(index as int))
    } else if either(up, "X"@, "EXIT"@) {
        Mode::Options
    } else {
        Mode::PolyVertex(index)
    }
}

/// A typed word at a vertex of a mesh of M by N vertices.
pub open spec fn typed_mesh_vertex(s: PeditState, index: usize, up: Seq<char>) -> (
    PeditState,
    Option<ResultModel>,
) {
    match s.mesh_size() {
        Some((m, n)) => if m * n == 0 {
            (s.in_mode(Mode::Options), Some(ResultModel::NeedPoint))
        } else {
            let row = index as int / n as int;
            let column = index as int % n as int;
            if either(up, "N"@, "NEXT"@) {
                (
                    PeditState {
                        mesh_vertex_default: 1,
                        mode: Mode::MeshVertex(next_vertex(index, (m * n) as nat)),
                        ..s
                    },
                    Some(ResultModel::NeedPoint),
                )
            } else if either(up, "P"@, "PREVIOUS"@) {
                (
                    PeditState {
                        mesh_vertex_default: (-1int) as isize,
                        mode: Mode::MeshVertex(previous_vertex(index)),
                        ..s
                    },
                    Some(ResultModel::NeedPoint),
                )
            } else if either(up, "L"@, "LEFT"@) {
                let to = if column > 0 {
                    (index - 1) as usize
                } else {
                    index
                };
                (s.in_mode(Mode::MeshVertex(to)), Some(ResultModel::NeedPoint))
            } else if either(up, "R"@, "RIGHT"@) {
                let to = if column + 1 < n {
                    (index + 1) as usize
                } else {
                    index
                };
                (s.in_mode(Mode::MeshVertex(to)), Some(ResultModel::NeedPoint))
            } else if either(up, "U"@, "UP"@) {
                let to = if row + 1 < m {
                    (index + n) as usize
                } else {
                    index
                };
                (s.in_mode(Mode::MeshVertex(to)), Some(ResultModel::NeedPoint))
            } else if either(up, "D"@, "DOWN"@) {
                let to = if row > 0 {
                    (index - n) as usize
                } else {
                    index
                };
                (s.in_mode(Mode::MeshVertex(to)), Some(ResultModel::NeedPoint))
            } else if either(up, "M"@, "MOVE"@) {
                (s.in_mode(Mode::MeshVertexMove(index)), Some(ResultModel::NeedPoint))
            } else if either(up, "G"@, "REGEN"@) {
                (s, Some(ResultModel::NeedPoint))
            } else if either(up, "X"@, "EXIT"@) {
                (s.in_mode(Mode::Options), Some(ResultModel::NeedPoint))
            } else {
                (s, None)
            }
        },
        None => (s, None),
    }
}

/// Whether `up` is one of three words.
pub open spec fn any3(up: Seq<char>, a: Seq<char>, b: Seq<char>, c: Seq<char>) -> bool {
    up == a || up == b || up == c
}

/// `list` without its last item.
pub open spec fn shortened<T>(list: Seq<T>) -> Seq<T> {
    if list.len() > 0 {
        list.drop_last()
    } else {
        list
    }
}

/// A request to open or close the mesh in one direction.
pub open spec fn asks_closed(s: PeditState, handle: Handle, m_direction: bool, closed: bool) -> (
    PeditState,
    Option<ResultModel>,
) {
    (
        PeditState { pending_mesh_closed: Some((m_direction, closed)), ..s },
        Some(
            ResultModel::PeditOp {
                handle,
                op: if m_direction {
                    OpModel::SetMeshClosedM(closed)
                } else {
                    OpModel::SetMeshClosedN(closed)
                },
            },
        ),
    )
}

/// A typed option for a mesh.
pub open spec fn typed_mesh_option(s: PeditState, handle: Handle, up: Seq<char>) -> (
    PeditState,
    Option<ResultModel>,
) {
    let (m_density, n_density) = s.mesh_smooth_density;
    if any3(up, "E"@, "EDIT"@, "EDIT VERTEX"@) {
        (s.in_mode(Mode::MeshVertex(0)), Some(ResultModel::NeedPoint))
    } else if any3(up, "S"@, "SMOOTH"@, "SMOOTH SURFACE"@) {
        let op = OpModel::SetMeshSmooth { smooth: s.mesh_smooth_type, m_density, n_density };
        (s, Some(ResultModel::PeditOp { handle, op }))
    } else if either(up, "D"@, "DESMOOTH"@) {
        let op = OpModel::SetMeshSmooth { smooth: Smoothing::Plain, m_density, n_density };
        (s, Some(ResultModel::PeditOp { handle, op }))
    } else if any3(up, "MC"@, "MCLOSE"@, "M CLOSE"@) {
        asks_closed(s, handle, true, true)
    } else if any3(up, "MO"@, "MOPEN"@, "M OPEN"@) {
        asks_closed(s, handle, true, false)
    } else if any3(up, "NC"@, "NCLOSE"@, "N CLOSE"@) {
        asks_closed(s, handle, false, true)
    } else if any3(up, "NO"@, "NOPEN"@, "N OPEN"@) {
        asks_closed(s, handle, false, false)
    } else if either(up, "U"@, "UNDO"@) {
        if s.undo_count > 0 {
            (undone_mesh(s), Some(ResultModel::UndoDocument))
        } else {
            (s, Some(ResultModel::NeedPoint))
        }
    } else if either(up, "X"@, "EXIT"@) {
        (s, Some(ResultModel::Cancel))
    } else {
        (s, None)
    }
}

/// The state after the last edit of a mesh was taken back.
pub open spec fn undone_mesh(s: PeditState) -> PeditState {
    let t = PeditState {
        undo_count: (s.undo_count - 1) as usize,
        mesh_closed_history: shortened(s.mesh_closed_history),
        ..s
    };
    if s.mesh_closed_history.len() > 0 {
        match s.mesh_closed_history.last() {
            Some(closed) => t.with_closed(closed),
            None => t,
        }
    } else {
        t
    }
}

/// The state after the last edit of polylines was taken back.
pub open spec fn undone_poly(s: PeditState) -> PeditState {
    let t = PeditState {
        undo_count: (s.undo_count - 1) as usize,
        mesh_closed_history: shortened(s.mesh_closed_history),
        multiple_history: shortened(s.multiple_history),
        ..s
    };
    if s.multiple_history.len() > 0 {
        let previous = s.multiple_history.last();
        PeditState {
            multiple: previous,
            target: if previous.len() > 0 {
                Some(previous[0])
            } else {
                s.target
            },
            ..t
        }
    } else {
        t
    }
}

/// A typed option for polylines.
pub open spec fn typed_poly_option(
    s: PeditState,
    handle: Handle,
    up: Seq<char>,
    number: Option<Real>,
) -> (PeditState, Option<ResultModel>) {
    if either(up, "E"@, "EDIT"@) && s.multiple.len() == 0 {
        (s.in_mode(Mode::PolyVertex(0)), Some(ResultModel::NeedPoint))
    } else if either(up, "R"@, "REVERSE"@) {
        (s, Some(for_all(s.multiple, handle, OpModel::Reverse)))
    } else if any3(up, "L"@, "LTYPE"@, "LTYPEGEN"@) {
        (s.in_mode(Mode::AwaitLinetype), Some(ResultModel::NeedPoint))
    } else if either(up, "U"@, "UNDO"@) {
        if s.undo_count > 0 {
            (undone_poly(s), Some(ResultModel::UndoDocument))
        } else {
            (s, Some(ResultModel::NeedPoint))
        }
    } else if either(up, "X"@, "EXIT"@) {
        (s, Some(ResultModel::Cancel))
    } else if either(up, "C"@, "CLOSE"@) {
        (s, Some(for_all(s.multiple, handle, OpModel::SetClosed(true))))
    } else if either(up, "O"@, "OPEN"@) {
        (s, Some(for_all(s.multiple, handle, OpModel::SetClosed(false))))
    } else if either(up, "W"@, "WIDTH"@) {
        (s.in_mode(Mode::AwaitWidth), Some(ResultModel::NeedPoint))
    } else if either(up, "J"@, "JOIN"@) {
        (
            PeditState { mode: Mode::JoinGather, joining: seq![handle], ..s },
            Some(ResultModel::NeedPoint),
        )
    } else if either(up, "F"@, "FIT"@) {
        (s, Some(for_all(s.multiple, handle, OpModel::Fit)))
    } else if either(up, "S"@, "SPLINE"@) {
        (s, Some(for_all(s.multiple, handle, OpModel::Spline)))
    } else if either(up, "D"@, "DECURVE"@) {
        (s, Some(for_all(s.multiple, handle, OpModel::Decurve)))
    } else if begins(up, "W "@) {
        match number {
            Some(w) => if w.width_like() {
                (s, Some(for_all(s.multiple, handle, OpModel::SetWidth(w))))
            } else {
                (s, None)
            },
            None => (s, None),
        }
    } else {
        (s, None)
    }
}

/// What a typed text does, given the keyword that it reads as and the number
/// that it holds.
pub open spec fn typed(s: PeditState, up: Seq<char>, number: Option<Real>) -> (
    PeditState,
    Option<ResultModel>,
) {
    let s = PeditState { pending_mesh_closed: None, ..s };
    match s.mode {
        Mode::PickTarget => typed_pick(s, up),
        Mode::MultipleConvert => typed_convert_all(s, up),
        Mode::ConvertPrompt(h) => typed_convert(s, h, up),
        Mode::AwaitWidth => typed_width(s, number),
        Mode::AwaitLinetype => typed_linetype(s, up),
        Mode::PolyWidthStart(i, w) => typed_width_start(s, i, number),
        Mode::PolyWidthEnd(i, w) => typed_width_end(s, i, w, number),
        Mode::PolyRange { start, end, split } => typed_range(s, start, end, split, up),
        Mode::PolyVertex(i) => (s.in_mode(vertex_mode(s, i, up)), Some(ResultModel::NeedPoint)),
        Mode::MeshVertex(i) => typed_mesh_vertex(s, i, up),
        Mode::Options => match s.target {
            Some(h) => if s.mesh_size() is Some {
                typed_mesh_option(s, h, up)
            } else {
                typed_poly_option(s, h, up, number)
            },
            None => (s, None),
        },
        _ => (s, None),
    }
}

/// The text that holds the number of a typed text, where one is looked for.
pub open spec fn number_of(s: PeditState, text: Seq<char>) -> Option<Seq<char>> {
    match s.mode {
        Mode::AwaitWidth => Some(points_for_commas(keyword_of(text))),
        Mode::PolyWidthStart(i, w) => Some(trimmed(text)),
        Mode::PolyWidthEnd(i, w) => Some(trimmed(text)),
        Mode::Options => if begins(keyword_of(text), "W "@) {
            Some(points_for_commas(trimmed(keyword_of(text).skip(2))))
        } else {
            None
        },
        _ => None,
    }
}

/// What an answer asks for, where it is understood.
pub open spec fn or_need_point(r: Option<ResultModel>) -> ResultModel {
    match r {
        Some(r) => r,
        None => ResultModel::NeedPoint,
    }
}

/// What the Enter key does.
pub open spec fn entered(s: PeditState) -> (PeditState, ResultModel) {
    match s.mode {
        Mode::MultipleGather => {
            let t = PeditState { target: first_of(s.multiple), ..s };
            if s.multiple.len() == 0 {
                (t, ResultModel::Cancel)
            } else if any_convertible(s.info, s.multiple) {
                (t.in_mode(Mode::MultipleConvert), ResultModel::NeedPoint)
            } else {
                (t.in_mode(Mode::Options), ResultModel::NeedPoint)
            }
        },
        Mode::MultipleConvert => {
            let (t, r) = typed(s, "Y"@, None);
            (t, or_need_point(r))
        },
        Mode::PolyWidthStart(i, w) => {
            let (t, r) = typed(s, ""@, Some(w));
            (t, or_need_point(r))
        },
        Mode::PolyWidthEnd(i, w) => {
            let (t, r) = typed(s, ""@, Some(w));
            (t, or_need_point(r))
        },
        Mode::PolyVertex(i) => {
            let (t, r) = typed(s, "N"@, None);
            (t, or_need_point(r))
        },
        Mode::PolyRange { start, end, split } => {
            let (t, r) = typed(s, "N"@, None);
            (t, or_need_point(r))
        },
        Mode::PolyMove(i) => (s.in_mode(Mode::Options), ResultModel::NeedPoint),
        Mode::PolyInsert(i) => (s.in_mode(Mode::Options), ResultModel::NeedPoint),
        Mode::AwaitLinetype => (s.in_mode(Mode::Options), ResultModel::NeedPoint),
        Mode::JoinGather => if s.joining.len() >= 2 {
            (s, ResultModel::JoinEntities(s.joining))
        } else {
            (s.in_mode(Mode::Options), ResultModel::NeedPoint)
        },
        Mode::ConvertPrompt(handle) => (
            s,
            ResultModel::PeditOp { handle, op: OpModel::ConvertToPolyline },
        ),
        Mode::MeshVertex(i) => match s.mesh_size() {
            Some((m, n)) => (
                s.in_mode(
                    Mode::MeshVertex(
                        if s.mesh_vertex_default >= 0 {
                            next_vertex(i, (m * n) as nat)
                        } else {
                            previous_vertex(i)
                        },
                    ),
                ),
                ResultModel::NeedPoint,
            ),
            None => (s, ResultModel::NeedPoint),
        },
        _ => (s, ResultModel::Cancel),
    }
}

/// What a given point does.
pub open spec fn pointed(s: PeditState, point: Point3) -> (PeditState, ResultModel) {
    match s.mode {
        Mode::PolyMove(index) => placed(s, index, point, false),
        Mode::PolyInsert(index) => placed(s, index, point, true),
        Mode::MeshVertexMove(index) => match s.target {
            Some(handle) => (
                s.in_mode(Mode::MeshVertex(index)),
                ResultModel::PeditOp { handle, op: OpModel::MoveMeshVertex { index, point } },
            ),
            None => (s, ResultModel::Cancel),
        },
        _ => (s, ResultModel::NeedPoint),
    }
}

/// A point given for a vertex of a polyline.
pub open spec fn placed(s: PeditState, index: usize, point: Point3, insert: bool) -> (
    PeditState,
    ResultModel,
) {
    if !point.finite() {
        (s, ResultModel::NeedPoint)
    } else {
        match s.target {
            Some(handle) => (
                s.in_mode(Mode::PolyVertex(index)),
                ResultModel::PeditOp { handle, op: OpModel::EditVertex { index, point, insert } },
            ),
            None => (s, ResultModel::Cancel),
        }
    }
}

/// What picking an entity does.
pub open spec fn picked(s: PeditState, handle: Handle) -> PeditState {
    if handle != NO_HANDLE && s.mode == Mode::PickTarget && s.info.contains_key(handle) {
        if s.info[handle].is_poly {
            PeditState { target: Some(handle), mode: Mode::Options, ..s }
        } else if s.info[handle].convertible {
            s.in_mode(Mode::ConvertPrompt(handle))
        } else {
            s
        }
    } else {
        s
    }
}

/// `list` with `new` in place of `old`.
pub open spec fn renamed(list: Seq<Handle>, old: Handle, new: Handle) -> Seq<Handle> {
    Seq::new(
        list.len(),
        |i: int|
            if list[i] == old {
                new
            } else {
                list[i]
            },
    )
}

/// What is known about a polyline that the command itself made.
#[verifier::allow_in_spec]
pub fn made_polyline() -> PeditTarget
    returns
        (PeditTarget { is_poly: true, convertible: false, mesh_size: None, mesh_closed: None }),
{
    PeditTarget { is_poly: true, convertible: false, mesh_size: None, mesh_closed: None }
}

/// The state after an entity was replaced by others: the first of them is
/// edited from now on.
pub open spec fn replaced(s: PeditState, old: Handle, new: Seq<Handle>) -> PeditState {
    if new.len() == 0 {
        s
    } else {
        let info = if s.multiple.len() == 0 {
            s.info.remove(old)
        } else {
            s.info
        };
        PeditState {
            info: info.insert(new[0], made_polyline()),
            multiple: renamed(s.multiple, old, new[0]),
            target: Some(new[0]),
            mode: Mode::Options,
            ..s
        }
    }
}

/// The entities to join: the target first, then what else of the selection is
/// known, each once.
pub open spec fn joined(target: Handle, info: Map<Handle, PeditTarget>, list: Seq<Handle>) -> Seq<
    Handle,
>
    decreases list.len(),
{
    if list.len() == 0 {
        seq![target]
    } else {
        let before = joined(target, info, list.drop_last());
        let h = list.last();
        if h != target && info.contains_key(h) && !before.contains(h) {
            before.push(h)
        } else {
            before
        }
    }
}

/// The state after a selection was made.
pub open spec fn gathered(s: PeditState, handles: Seq<Handle>) -> PeditState {
    match s.mode {
        Mode::MultipleGather => PeditState {
            multiple: handles.filter(|h: Handle| known_plain(s.info, h)),
            ..s
        },
        Mode::JoinGather => match s.target {
            Some(t) => PeditState { joining: joined(t, s.info, handles), ..s },
            None => s,
        },
        _ => s,
    }
}

/// The state after an edit was carried out.
pub open spec fn applied(s: PeditState) -> PeditState {
    let previous = match s.pending_multiple {
        Some(list) => list,
        None => s.multiple,
    };
    let t = PeditState {
        undo_count: if s.undo_count < usize::MAX {
            (s.undo_count + 1) as usize
        } else {
            s.undo_count
        },
        multiple_history: s.multiple_history.push(previous),
        pending_multiple: None,
        pending_mesh_closed: None,
        mesh_closed_history: s.mesh_closed_history.push(
            if s.pending_mesh_closed is Some {
                s.mesh_closed()
            } else {
                None
            },
        ),
        ..s
    };
    match s.pending_mesh_closed {
        Some((m_direction, closed)) => t.with_direction(m_direction, closed),
        None => t,
    }
}

/// The state with an entity taken in, so that its vertices can be counted.
pub open spec fn injected(s: PeditState, entity: Entity) -> PeditState {
    let t = PeditState { entities: s.entities.insert(entity.common.handle, entity), ..s };
    match s.mode {
        Mode::PolyVertex(i) => if i + 1 <= t.vertex_count() {
            t
        } else {
            t.in_mode(
                Mode::PolyVertex(
                    if t.vertex_count() > 0 {
                        (t.vertex_count() - 1) as usize
                    } else {
                        0
                    },
                ),
            )
        },
        _ => t,
    }
}

/// The first entity of a selection that can be edited or converted.
pub open spec fn first_usable(info: Map<Handle, PeditTarget>, handles: Seq<Handle>) -> int
    decreases handles.len(),
{
    if handles.len() == 0 || known_poly(info, handles[0]) || known_convertible(info, handles[0]) {
        0
    } else {
        1 + first_usable(info, handles.drop_first())
    }
}

/// The state of a command that starts with a selection.
pub open spec fn preselected(s: PeditState, handles: Seq<Handle>) -> PeditState {
    let plain = handles.filter(|h: Handle| known_plain(s.info, h));
    if plain.len() > 1 {
        PeditState {
            target: Some(plain[0]),
            mode: if any_convertible(s.info, plain) {
                Mode::MultipleConvert
            } else {
                Mode::Options
            },
            multiple: plain,
            ..s
        }
    } else {
        let i = first_usable(s.info, handles);
        if i >= handles.len() {
            s
        } else if s.info[handles[i]].is_poly {
            PeditState { target: Some(handles[i]), mode: Mode::Options, ..s }
        } else {
            s.in_mode(Mode::ConvertPrompt(handles[i]))
        }
    }
}

/// A mesh density brought into the range that the program draws.
pub open spec fn density(n: i16) -> i16 {
    if n < 2 {
        2
    } else if n > 200 {
        200
    } else {
        n
    }
}

/// Brings a mesh density into the range that the program draws.
pub fn clamp_density(n: i16) -> (r: i16)
    ensures
        r == density(n),
{
    if n < 2 {
        2
    } else if n > 200 {
        200
    } else {
        n
    }
}

/// The smoothing that a surface type of the drawing stands for.
pub open spec fn surface_smoothing(surface_type: i16) -> Smoothing {
    if surface_type == 5 {
        Smoothing::Quadratic
    } else if surface_type == 8 {
        Smoothing::Bezier
    } else {
        Smoothing::Cubic
    }
}

/// The entities of a list under their handles, a later one in place of an
/// earlier one.
pub open spec fn by_handle(list: Seq<Entity>) -> Map<Handle, Entity>
    decreases list.len(),
{
    if list.len() == 0 {
        Map::empty()
    } else {
        by_handle(list.drop_last()).insert(list.last().common.handle, list.last())
    }
}

/// The state of a command that was just started.
pub open spec fn started(
    info: Map<Handle, PeditTarget>,
    surface_type: i16,
    u_density: i16,
    v_density: i16,
) -> PeditState {
    PeditState {
        target: None,
        entities: Map::empty(),
        multiple: Seq::empty(),
        multiple_history: Seq::empty(),
        pending_multiple: None,
        info,
        mode: Mode::PickTarget,
        joining: Seq::empty(),
        undo_count: 0,
        mesh_smooth_type: surface_smoothing(surface_type),
        mesh_smooth_density: (density(u_density), density(v_density)),
        mesh_vertex_default: 1,
        pending_mesh_closed: None,
        mesh_closed_history: Seq::empty(),
    }
}

/// The options that are offered.
pub open spec fn offered(s: PeditState) -> Seq<CmdOption> {
    match s.mode {
        Mode::PickTarget => seq![CmdOption::new("Multiple", "M")],
        Mode::MultipleConvert => seq![CmdOption::new("Yes", "Y"), CmdOption::new("No", "N")],
        Mode::ConvertPrompt(h) => seq![CmdOption::said("Yes", "Y"), CmdOption::said("No", "N")],
        Mode::Options => if s.mesh_size() is Some {
            let (closed_m, closed_n) = match s.mesh_closed() {
                Some(closed) => closed,
                None => (false, false),
            };
            seq![
                CmdOption::said("Edit vertex", "E"),
                CmdOption::said("Smooth surface", "S"),
                CmdOption::said("Desmooth", "D"),
                if closed_m {
                    CmdOption::said("M open", "MO")
                } else {
                    CmdOption::said("M close", "MC")
                },
                if closed_n {
                    CmdOption::said("N open", "NO")
                } else {
                    CmdOption::said("N close", "NC")
                },
                CmdOption::said("Undo", "U"),
                CmdOption::said("eXit", "X"),
            ]
        } else {
            seq![
                CmdOption::said("Close", "C"),
                CmdOption::said("Open", "O"),
                CmdOption::said("Join", "J"),
                CmdOption::said("Width", "W"),
                CmdOption::said("Fit", "F"),
                CmdOption::said("Spline", "S"),
                CmdOption::said("Decurve", "D"),
            ] + (if s.multiple.len() == 0 {
                seq![CmdOption::said("Edit vertex", "E")]
            } else {
                Seq::empty()
            }) + seq![
                CmdOption::said("Ltype gen", "L"),
                CmdOption::said("Reverse", "R"),
                CmdOption::said("Undo", "U"),
                CmdOption::said("eXit", "X"),
            ]
        },
        Mode::MeshVertex(i) => seq![
            CmdOption::said("Next", "N"),
            CmdOption::said("Previous", "P"),
            CmdOption::said("Left", "L"),
            CmdOption::said("Right", "R"),
            CmdOption::said("Up", "U"),
            CmdOption::said("Down", "D"),
            CmdOption::said("Move", "M"),
            CmdOption::said("Regen", "G"),
            CmdOption::said("eXit", "X"),
        ],
        Mode::JoinGather => seq![CmdOption::said_enter("Join")],
        Mode::PolyVertex(i) => seq![
            CmdOption::new("Next", "N"),
            CmdOption::new("Previous", "P"),
            CmdOption::new("Break", "B"),
            CmdOption::new("Straighten", "S"),
            CmdOption::new("Insert", "I"),
            CmdOption::new("Move", "M"),
            CmdOption::new("Width", "W"),
            CmdOption::new("Exit", "X"),
        ],
        Mode::PolyRange { start, end, split } => seq![
            CmdOption::new("Next", "N"),
            CmdOption::new("Previous", "P"),
            CmdOption::new("Go", "G"),
            CmdOption::new("Exit", "X"),
        ],
        Mode::AwaitLinetype => seq![CmdOption::new("On", "ON"), CmdOption::new("Off", "OFF")],
        _ => Seq::empty(),
    }
}

/// The number of objects that were picked to be joined with the target.
pub open spec fn joined_count(s: PeditState) -> nat {
    if s.joining.len() > 0 {
        (s.joining.len() - 1) as nat
    } else {
        0
    }
}

/// What is asked, where that is asked in the language of the user.
pub open spec fn phrased(s: PeditState) -> Option<PhraseModel> {
    match s.mode {
        Mode::PickTarget => Some(
            plain_phrase("PEDIT  Select polyline (or a line/arc to convert) or [Multiple]:"@),
        ),
        Mode::MultipleConvert => Some(
            plain_phrase("PEDIT  Convert lines and arcs to polylines [Yes/No] <Yes>:"@),
        ),
        Mode::ConvertPrompt(h) => Some(
            plain_phrase("PEDIT  Object is not a polyline. Turn it into one?  [Yes/No] <Y>:"@),
        ),
        Mode::AwaitWidth => Some(plain_phrase("PEDIT  Specify new width:"@)),
        Mode::AwaitLinetype => Some(
            plain_phrase("PEDIT  Enter polyline linetype generation option [ON/OFF]:"@),
        ),
        Mode::JoinGather => Some(
            phrase_with(
                "PEDIT Join  Select objects to join (%{count} picked), Enter to merge:"@,
                "count"@,
                decimal(joined_count(s)),
            ),
        ),
        Mode::MeshVertex(i) => Some(
            phrase_with(
                "PEDIT  Edit mesh vertex %{vertex}  Enter option:"@,
                "vertex"@,
                decimal((i + 1) as nat),
            ),
        ),
        Mode::MeshVertexMove(i) => Some(
            phrase_with(
                "PEDIT  Specify new location for mesh vertex %{vertex}:"@,
                "vertex"@,
                decimal((i + 1) as nat),
            ),
        ),
        Mode::Options => Some(plain_phrase("PEDIT  Enter option:"@)),
        _ => None,
    }
}

/// What is asked, `width` being the text of a width that is shown, and `said`
/// the phrase of the prompt in the language of the user.
pub open spec fn prompted(s: PeditState, width: Seq<char>, said: Seq<char>) -> Seq<char> {
    match s.mode {
        Mode::MultipleGather => "PEDIT  Select objects ("@ + decimal(s.multiple.len())
            + " selected, Enter when done):"@,
        Mode::PolyVertex(i) => "PEDIT  Vertex "@ + decimal((i + 1) as nat)
            + " [Next/Previous/Break/Insert/Move/Straighten/Width/eXit] <Next>:"@,
        Mode::PolyRange { start, end, split } => "PEDIT  Vertex "@ + decimal((end + 1) as nat)
            + " [Next/Previous/Go/eXit] <Next>:"@,
        Mode::PolyMove(i) => "PEDIT  Specify new location for vertex "@ + decimal((i + 1) as nat)
            + ":"@,
        Mode::PolyWidthStart(i, w) => "PEDIT  Specify starting width for next segment <"@ + width
            + ">:"@,
        Mode::PolyWidthEnd(i, w) => "PEDIT  Specify ending width for next segment <"@ + width
            + ">:"@,
        Mode::PolyInsert(i) => "PEDIT  Specify location after vertex "@ + decimal((i + 1) as nat)
            + ":"@,
        _ => said,
    }
}

/// Taking back a change of a mesh's closure restores what was known of the
/// mesh, whichever direction it opened or closed.
pub proof fn undo_restores_closure(
    s: PeditState,
    handle: Handle,
    m_direction: bool,
    closed: bool,
)
    requires
        s.wf(),
        s.target == Some(handle),
        s.mesh_closed() is Some,
        s.undo_count < usize::MAX,
        s.pending_multiple is None,
    ensures
        ({
            let asked = asks_closed(s, handle, m_direction, closed).0;
            let undone = undone_mesh(applied(asked));
            &&& undone.info == s.info
            &&& undone.undo_count == s.undo_count
            &&& undone.mesh_closed_history == s.mesh_closed_history
            &&& undone.mode == s.mode
        }),
{
    let asked = asks_closed(s, handle, m_direction, closed).0;
    let done = applied(asked);
    assert(done.mesh_closed_history.drop_last() =~= s.mesh_closed_history);
    assert(undone_mesh(done).info =~= s.info);
}

/// Taking back an edit of several polylines restores the list that the edit
/// was made on.
pub proof fn undo_restores_list(s: PeditState)
    requires
        s.wf(),
        s.undo_count < usize::MAX,
        s.pending_multiple is None,
        s.pending_mesh_closed is None,
    ensures
        ({
            let undone = undone_poly(applied(s));
            &&& undone.multiple == s.multiple
            &&& undone.multiple_history == s.multiple_history
            &&& undone.mesh_closed_history == s.mesh_closed_history
            &&& undone.undo_count == s.undo_count
            &&& s.multiple.len() > 0 ==> undone.target == Some(s.multiple[0])
            &&& s.multiple.len() == 0 ==> undone.target == s.target
        }),
{
    let done = applied(s);
    assert(done.multiple_history.drop_last() =~= s.multiple_history);
    assert(done.mesh_closed_history.drop_last() =~= s.mesh_closed_history);
}

/// A step to the next vertex is undone by a step back, unless there was no
/// next vertex.
pub proof fn next_and_back(index: usize, count: nat)
    requires
        index + 1 < count,
        count <= usize::MAX,
    ensures
        previous_vertex(next_vertex(index, count)) == index,
{
}

/// On a mesh a step up is undone by a step down.
pub proof fn up_and_down(s: PeditState, index: usize, m: usize, n: usize)
    requires
        s.wf(),
        s.mode == Mode::MeshVertex(index),
        s.mesh_size() == Some((m, n)),
        n > 0,
        index + n < m * n,
    ensures
        ({
            let up = typed_mesh_vertex(s, index, "UP"@).0;
            let to = (index + n) as usize;
            &&& up.mode == Mode::MeshVertex(to)
            &&& typed_mesh_vertex(up, to, "DOWN"@).0 == s
        }),
{
    reveal_strlit("UP");
    reveal_strlit("DOWN");
    reveal_strlit("N");
    reveal_strlit("NEXT");
    reveal_strlit("P");
    reveal_strlit("PREVIOUS");
    reveal_strlit("L");
    reveal_strlit("LEFT");
    reveal_strlit("R");
    reveal_strlit("RIGHT");
    reveal_strlit("U");
    assert("UP"@[0] == 'U' && "UP"@.len() == 2);
    assert("DOWN"@[0] == 'D' && "DOWN"@.len() == 4);
    assert("NEXT"@[0] == 'N' && "LEFT"@[0] == 'L');
    let row = index as int / n as int;
    let i = index as int;
    let k = n as int;
    assert(i == k * (i / k) + i % k && 0 <= i % k < k) by (nonlinear_arith)
        requires
            k > 0,
    ;
    assert(row + 1 < m) by (nonlinear_arith)
        requires
            k > 0,
            i == k * row + i % k,
            0 <= i % k,
            i + k < m * k,
    ;
    assert(m * n != 0);
    assert((i + k) / k > 0) by (nonlinear_arith)
        requires
            k > 0,
            i >= 0,
    ;
}

/// A text that is not understood changes nothing, while there is a target.
#[verifier::rlimit(60)]
#[verifier::spinoff_prover]
pub proof fn not_understood_keeps(s: PeditState, up: Seq<char>, number: Option<Real>)
    requires
        s.target is Some,
        s.mode != Mode::MultipleConvert,
        typed(s, up, number).1 is None,
    ensures
        typed(s, up, number).0 == (PeditState { pending_mesh_closed: None, ..s }),
{
}

/// The entities to join begin with the target and name nothing twice.
pub proof fn joined_once(target: Handle, info: Map<Handle, PeditTarget>, list: Seq<Handle>)
    ensures
        joined(target, info, list).len() > 0,
        joined(target, info, list)[0] == target,
        joined(target, info, list).no_duplicates(),
    decreases list.len(),
{
    if list.len() > 0 {
        joined_once(target, info, list.drop_last());
    }
}

/// Which handles of a list to keep.
#[derive(Clone, Copy, PartialEq, Eq, Structural)]
enum Keep {
    Plain,
    Poly,
}

spec fn kept(info: Map<Handle, PeditTarget>, keep: Keep, h: Handle) -> bool {
    match keep {
        Keep::Plain => known_plain(info, h),
        Keep::Poly => known_poly(info, h),
    }
}

fn keep_known(info: &FxHashMap<Handle, PeditTarget>, list: &Vec<Handle>, keep: Keep) -> (r: Vec<
    Handle,
>)
    ensures
        keep == Keep::Plain ==> r@ == list@.filter(|h: Handle| known_plain(info@, h)),
        keep == Keep::Poly ==> r@ == list@.filter(|h: Handle| known_poly(info@, h)),
{
    let mut out: Vec<Handle> = Vec::new();
    let n: usize = list.len();
    let mut i: usize = 0;
    let ghost p = |h: Handle| kept(info@, keep, h);
    proof {
        reveal(Seq::filter);
    }
    while i < n
        invariant
            i <= n == list@.len(),
            p == (|h: Handle| kept(info@, keep, h)),
            out@ == list@.take(i as int).filter(p),
        decreases n - i,
    {
        proof {
            reveal(Seq::filter);
            assert(list@.take(i + 1).drop_last() =~= list@.take(i as int));
        }
        let h: Handle = list[i];
        let take = match map_get(info, h) {
            Some(t) => match keep {
                Keep::Plain => t.mesh_size.is_none(),
                Keep::Poly => t.is_poly,
            },
            None => false,
        };
        if take {
            out.push(h);
        }
        i += 1;
    }
    proof {
        assert(list@.take(n as int) =~= list@);
        if keep == Keep::Plain {
            assert(p =~= (|h: Handle| known_plain(info@, h)));
        } else {
            assert(p =~= (|h: Handle| known_poly(info@, h)));
        }
    }
    out
}

fn has_convertible(info: &FxHashMap<Handle, PeditTarget>, list: &Vec<Handle>) -> (r: bool)
    ensures
        r == any_convertible(info@, list@),
{
    let n: usize = list.len();
    let mut i: usize = 0;
    while i < n
        invariant
            i <= n == list@.len(),
            forall|k: int| 0 <= k < i ==> !known_convertible(info@, #[trigger] list@[k]),
        decreases n - i,
    {
        if let Some(t) = map_get(info, list[i]) {
            if t.convertible {
                return true;
            }
        }
        i += 1;
    }
    false
}

fn contains(list: &Vec<Handle>, h: Handle) -> (r: bool)
    ensures
        r == list@.contains(h),
{
    let n: usize = list.len();
    let mut i: usize = 0;
    while i < n
        invariant
            i <= n == list@.len(),
            forall|k: int| 0 <= k < i ==> list@[k] != h,
        decreases n - i,
    {
        if list[i] == h {
            return true;
        }
        i += 1;
    }
    false
}

fn is_any3(up: &str, a: &str, b: &str, c: &str) -> (r: bool)
    ensures
        r == any3(up@, a@, b@, c@),
{
    same(up, a) || same(up, b) || same(up, c)
}

fn first(list: &Vec<Handle>) -> (r: Option<Handle>)
    ensures
        r == first_of(list@),
{
    if list.len() > 0 {
        Some(list[0])
    } else {
        None
    }
}

impl PeditCommand {
    /// Starts the command. `surface_type` and the densities are the settings
    /// that smoothed meshes are made with.
    pub fn new(
        info: FxHashMap<Handle, PeditTarget>,
        surface_type: i16,
        surface_u_density: i16,
        surface_v_density: i16,
    ) -> (r: PeditCommand)
        requires
            meshes_fit(info@),
        ensures
            r@ == started(info@, surface_type, surface_u_density, surface_v_density),
            r@.wf(),
    {
        let mesh_smooth_type = if surface_type == 5 {
            Smoothing::Quadratic
        } else if surface_type == 8 {
            Smoothing::Bezier
        } else {
            Smoothing::Cubic
        };
        let r = PeditCommand {
            target: None,
            entities: map_new(),
            multiple: Vec::new(),
            multiple_history: Vec::new(),
            pending_multiple: None,
            info,
            mode: Mode::PickTarget,
            joining: Vec::new(),
            undo_count: 0,
            mesh_smooth_type,
            mesh_smooth_density: (
                clamp_density(surface_u_density),
                clamp_density(surface_v_density),
            ),
            mesh_vertex_default: 1,
            pending_mesh_closed: None,
            mesh_closed_history: Vec::new(),
        };
        proof {
            assert(views(r.multiple_history@) =~= Seq::<Seq<Handle>>::empty());
        }
        r
    }

    /// Adopts a selection made beforehand: one polyline skips the pick, one
    /// line or arc goes on to the question for its conversion, and several
    /// entities are edited together.
    pub fn with_preselection(self, handles: &Vec<Handle>) -> (r: PeditCommand)
        requires
            self@.wf(),
        ensures
            r@ == preselected(self@, handles@),
            r@.wf(),
    {
        let mut this = self;
        let multiple = keep_known(&this.info, handles, Keep::Plain);
        if multiple.len() > 1 {
            this.target = Some(multiple[0]);
            this.mode = if has_convertible(&this.info, &multiple) {
                Mode::MultipleConvert
            } else {
                Mode::Options
            };
            this.multiple = multiple;
            return this;
        }
        let n: usize = handles.len();
        let mut i: usize = 0;
        proof {
            assert(handles@.skip(0) =~= handles@);
        }
        while i < n
            invariant
                i <= n == handles@.len(),
                this@ == self@,
                first_usable(self@.info, handles@) == i + first_usable(
                    self@.info,
                    handles@.skip(i as int),
                ),
                handles@.filter(|h: Handle| known_plain(self@.info, h)).len() <= 1,
                self@.wf(),
            decreases n - i,
        {
            let h: Handle = handles[i];
            proof {
                assert(handles@.skip(i as int).drop_first() =~= handles@.skip(i + 1));
            }
            if let Some(t) = map_get(&this.info, h) {
                if t.is_poly {
                    this.target = Some(h);
                    this.mode = Mode::Options;
                    return this;
                }
                if t.convertible {
                    this.mode = Mode::ConvertPrompt(h);
                    return this;
                }
            }
            i += 1;
        }
        this
    }

    /// Takes in the entities that can be edited.
    pub fn with_entities(self, entities: Vec<Entity>) -> (r: PeditCommand)
        requires
            self@.wf(),
        ensures
            r@ == (PeditState { entities: by_handle(entities@), ..self@ }),
            r@.wf(),
    {
        let mut this = self;
        let mut rest = entities;
        let mut map: FxHashMap<Handle, Entity> = map_new();
        proof {
            assert(by_handle(rest@).union_prefer_right(map@) =~= by_handle(entities@));
        }
        while rest.len() > 0
            invariant
                by_handle(rest@).union_prefer_right(map@) == by_handle(entities@),
            decreases rest@.len(),
        {
            let ghost before = rest@;
            let ghost seen = map@;
            if let Some(e) = rest.pop() {
                let h: Handle = e.common.handle;
                if map_get(&map, h).is_none() {
                    map_insert(&mut map, h, e);
                }
                proof {
                    assert(by_handle(before).union_prefer_right(seen) =~= by_handle(
                        rest@,
                    ).union_prefer_right(map@));
                }
            }
        }
        proof {
            assert(by_handle(rest@).union_prefer_right(map@) =~= map@);
        }
        this.entities = map;
        this
    }

    fn operation(&self, handle: Handle, op: PeditOp) -> (r: CmdResult)
        ensures
            r@ == for_all(self@.multiple, handle, op@),
    {
        if self.multiple.len() > 0 {
            CmdResult::PeditOp {
                handle,
                op: PeditOp::Multiple(copy_of(&self.multiple), Box::new(op)),
            }
        } else {
            CmdResult::PeditOp { handle, op }
        }
    }

    fn vertex_width(&self, index: usize) -> (r: Real)
        ensures
            r == self@.vertex_width(index as int),
    {
        let handle: Handle = match self.target {
            Some(h) => h,
            None => {
                return zero();
            },
        };
        match map_get(&self.entities, handle) {
            Some(e) => match &e.shape {
                Shape::LwPolyline(p) => if !p.form.constant_width.is_zero() {
                    p.form.constant_width
                } else if index < p.vertices.len() {
                    p.vertices[index].start_width
                } else {
                    zero()
                },
                Shape::Polyline2D(p) => if index < p.vertices.len()
                    && !p.vertices[index].start_width.is_zero() {
                    p.vertices[index].start_width
                } else {
                    p.form.start_width
                },
                _ => zero(),
            },
            None => zero(),
        }
    }

    fn vertex_count(&self) -> (r: usize)
        ensures
            r == self@.vertex_count(),
    {
        let handle: Handle = match self.target {
            Some(h) => h,
            None => {
                return 0;
            },
        };
        match map_get(&self.entities, handle) {
            Some(e) => match &e.shape {
                Shape::LwPolyline(p) => p.vertices.len(),
                Shape::Polyline2D(p) => p.vertices.len(),
                _ => 0,
            },
            None => 0,
        }
    }

    fn target_info(&self) -> (r: Option<PeditTarget>)
        ensures
            r == self@.target_info(),
    {
        match self.target {
            Some(h) => match map_get(&self.info, h) {
                Some(t) => Some(*t),
                None => None,
            },
            None => None,
        }
    }

    fn mesh_size(&self) -> (r: Option<(usize, usize)>)
        ensures
            r == self@.mesh_size(),
    {
        match self.target_info() {
            Some(t) => t.mesh_size,
            None => None,
        }
    }

    fn mesh_closed(&self) -> (r: Option<(bool, bool)>)
        ensures
            r == self@.mesh_closed(),
    {
        match self.target_info() {
            Some(t) => t.mesh_closed,
            None => None,
        }
    }

    fn set_mesh_closed(&mut self, m_direction: bool, closed: bool)
        ensures
            final(self)@ == old(self)@.with_direction(m_direction, closed),
    {
        if let Some((m, n)) = self.mesh_closed() {
            if m_direction {
                self.replace_mesh_closed((closed, n));
            } else {
                self.replace_mesh_closed((m, closed));
            }
        }
    }

    fn replace_mesh_closed(&mut self, closed: (bool, bool))
        ensures
            final(self)@ == old(self)@.with_closed(closed),
    {
        if let Some(h) = self.target {
            if let Some(t) = self.target_info() {
                map_insert(&mut self.info, h, PeditTarget { mesh_closed: Some(closed), ..t });
            }
        }
    }

    fn text_convert_all(&mut self, up: &str) -> (r: Option<CmdResult>)
        requires
            old(self)@.wf(),
        ensures
            (final(self)@, answer(r)) == typed_convert_all(old(self)@, up@),
            final(self)@.wf(),
    {
        if is_any3(up, "Y", "YES", "") {
            self.pending_multiple = Some(copy_of(&self.multiple));
            self.mode = Mode::Options;
            match first(&self.multiple) {
                Some(h) => Some(self.operation(h, PeditOp::ConvertToPolyline)),
                None => None,
            }
        } else if is_either(up, "N", "NO") {
            let kept = keep_known(&self.info, &self.multiple, Keep::Poly);
            self.target = first(&kept);
            let some = kept.len() > 0;
            self.multiple = kept;
            self.mode = Mode::Options;
            Some(
                if some {
                    CmdResult::NeedPoint
                } else {
                    CmdResult::Cancel
                },
            )
        } else {
            Some(CmdResult::NeedPoint)
        }
    }

    fn text_convert(&mut self, handle: Handle, up: &str) -> (r: Option<CmdResult>)
        requires
            old(self)@.wf(),
        ensures
            (final(self)@, answer(r)) == typed_convert(old(self)@, handle, up@),
            final(self)@.wf(),
    {
        if is_any3(up, "Y", "YES", "") {
            Some(self.operation(handle, PeditOp::ConvertToPolyline))
        } else if is_either(up, "N", "NO") {
            self.mode = Mode::PickTarget;
            Some(CmdResult::NeedPoint)
        } else {
            Some(CmdResult::NeedPoint)
        }
    }

    fn text_width(&mut self, number: Option<Real>) -> (r: Option<CmdResult>)
        requires
            old(self)@.wf(),
        ensures
            (final(self)@, answer(r)) == typed_width(old(self)@, number),
            final(self)@.wf(),
    {
        match (self.target, number) {
            (Some(h), Some(w)) => {
                if w.is_width() {
                    self.mode = Mode::Options;
                    Some(self.operation(h, PeditOp::SetWidth(w)))
                } else {
                    None
                }
            },
            _ => None,
        }
    }

    fn text_linetype(&mut self, up: &str) -> (r: Option<CmdResult>)
        requires
            old(self)@.wf(),
        ensures
            (final(self)@, answer(r)) == typed_linetype(old(self)@, up@),
            final(self)@.wf(),
    {
        let on = same(up, "ON");
        if on || same(up, "OFF") {
            self.mode = Mode::Options;
            match self.target {
                Some(h) => Some(self.operation(h, PeditOp::SetLinetypeGeneration(on))),
                None => None,
            }
        } else {
            Some(CmdResult::NeedPoint)
        }
    }

    fn text_width_start(&mut self, index: usize, number: Option<Real>) -> (r: Option<CmdResult>)
        requires
            old(self)@.wf(),
            index < usize::MAX,
        ensures
            (final(self)@, answer(r)) == typed_width_start(old(self)@, index, number),
            final(self)@.wf(),
    {
        match number {
            Some(w) => {
                if w.is_width() {
                    self.mode = Mode::PolyWidthEnd(index, w);
                }
                Some(CmdResult::NeedPoint)
            },
            None => None,
        }
    }

    fn text_width_end(&mut self, index: usize, start: Real, number: Option<Real>) -> (r: Option<
        CmdResult,
    >)
        requires
            old(self)@.wf(),
            index < usize::MAX,
        ensures
            (final(self)@, answer(r)) == typed_width_end(old(self)@, index, start, number),
            final(self)@.wf(),
    {
        match number {
            Some(end) => {
                if !end.is_width() {
                    return Some(CmdResult::NeedPoint);
                }
                self.mode = Mode::PolyVertex(index);
                match self.target {
                    Some(h) => Some(
                        self.operation(h, PeditOp::SetVertexWidth { index, start, end }),
                    ),
                    None => None,
                }
            },
            None => None,
        }
    }

    fn text_range(&mut self, start: usize, end: usize, split: bool, up: &str) -> (r: Option<
        CmdResult,
    >)
        requires
            old(self)@.wf(),
            start < usize::MAX,
            end < usize::MAX,
            old(self)@.mode == (Mode::PolyRange { start, end, split }),
        ensures
            (final(self)@, answer(r)) == typed_range(old(self)@, start, end, split, up@),
            final(self)@.wf(),
    {
        if is_either(up, "N", "NEXT") {
            if end + 1 < self.vertex_count() {
                self.mode = Mode::PolyRange { start, end: end + 1, split };
            }
        } else if is_either(up, "P", "PREVIOUS") {
            if end > 0 {
                self.mode = Mode::PolyRange { start, end: end - 1, split };
            }
        } else if is_either(up, "X", "EXIT") {
            self.mode = Mode::PolyVertex(start);
        } else if is_either(up, "G", "GO") {
            let first: usize = if start <= end {
                start
            } else {
                end
            };
            let last: usize = if start <= end {
                end
            } else {
                start
            };
            self.mode = Mode::PolyVertex(first);
            return match self.target {
                Some(handle) => Some(
                    CmdResult::PeditOp { handle, op: PeditOp::VertexRange { first, last, split } },
                ),
                None => None,
            };
        }
        Some(CmdResult::NeedPoint)
    }

    fn text_vertex(&mut self, index: usize, up: &str) -> (r: Option<CmdResult>)
        requires
            old(self)@.wf(),
            index < usize::MAX,
            old(self)@.mode == Mode::PolyVertex(index),
        ensures
            final(self)@ == old(self)@.in_mode(vertex_mode(old(self)@, index, up@)),
            answer(r) == Some(ResultModel::NeedPoint),
            final(self)@.wf(),
    {
        if is_either(up, "N", "NEXT") {
            if index + 1 < self.vertex_count() {
                self.mode = Mode::PolyVertex(index + 1);
            }
        } else if is_either(up, "P", "PREVIOUS") {
            if index > 0 {
                self.mode = Mode::PolyVertex(index - 1);
            }
        } else if is_either(up, "B", "BREAK") {
            self.mode = Mode::PolyRange { start: index, end: index, split: true };
        } else if is_either(up, "S", "STRAIGHTEN") {
            self.mode = Mode::PolyRange { start: index, end: index, split: false };
        } else if is_either(up, "I", "INSERT") {
            self.mode = Mode::PolyInsert(index);
        } else if is_either(up, "M", "MOVE") {
            self.mode = Mode::PolyMove(index);
        } else if is_either(up, "W", "WIDTH") {
            self.mode = Mode::PolyWidthStart(index, self.vertex_width(index));
        } else if is_either(up, "X", "EXIT") {
            self.mode = Mode::Options;
        }
        Some(CmdResult::NeedPoint)
    }

    fn text_mesh_vertex(&mut self, index: usize, up: &str) -> (r: Option<CmdResult>)
        requires
            old(self)@.wf(),
            index < usize::MAX,
            old(self)@.mode == Mode::MeshVertex(index),
        ensures
            (final(self)@, answer(r)) == typed_mesh_vertex(old(self)@, index, up@),
            final(self)@.wf(),
    {
        let (m, n) = match self.mesh_size() {
            Some(size) => size,
            None => {
                return None;
            },
        };
        proof {
            assert(m * n >= 0) by (nonlinear_arith)
                requires
                    m >= 0,
                    n >= 0,
            ;
        }
        let count: usize = m * n;
        if count == 0 {
            self.mode = Mode::Options;
            return Some(CmdResult::NeedPoint);
        }
        proof {
            assert(n > 0) by (nonlinear_arith)
                requires
                    m * n != 0,
                    n >= 0,
            ;
        }
        let row: usize = index / n;
        let column: usize = index % n;
        proof {
            assert(index as int == n as int * (index as int / n as int) + index as int % n as int)
                by (nonlinear_arith)
                requires
                    n > 0,
            ;
            assert(row + 1 < m ==> n * row + n + n <= m * n) by (nonlinear_arith)
                requires
                    n > 0,
                    row >= 0,
            ;
            assert(row < m && n * row + n <= m * n) by (nonlinear_arith)
                requires
                    n > 0,
                    row >= 0,
                    n * row < m * n,
            ;
            assert(row > 0 ==> n * row >= n) by (nonlinear_arith)
                requires
                    n > 0,
                    row >= 0,
            ;
        }
        if is_either(up, "N", "NEXT") {
            self.mesh_vertex_default = 1;
            if index + 1 < count {
                self.mode = Mode::MeshVertex(index + 1);
            }
        } else if is_either(up, "P", "PREVIOUS") {
            self.mesh_vertex_default = -1;
            if index > 0 {
                self.mode = Mode::MeshVertex(index - 1);
            }
        } else if is_either(up, "L", "LEFT") {
            if column > 0 {
                self.mode = Mode::MeshVertex(index - 1);
            }
        } else if is_either(up, "R", "RIGHT") {
            if column + 1 < n {
                self.mode = Mode::MeshVertex(index + 1);
            }
        } else if is_either(up, "U", "UP") {
            if row + 1 < m {
                self.mode = Mode::MeshVertex(index + n);
            }
        } else if is_either(up, "D", "DOWN") {
            if row > 0 {
                self.mode = Mode::MeshVertex(index - n);
            }
        } else if is_either(up, "M", "MOVE") {
            self.mode = Mode::MeshVertexMove(index);
        } else if is_either(up, "G", "REGEN") {
            return Some(CmdResult::NeedPoint);
        } else if is_either(up, "X", "EXIT") {
            self.mode = Mode::Options;
        } else {
            return None;
        }
        Some(CmdResult::NeedPoint)
    }

    fn ask_closed(&mut self, handle: Handle, m_direction: bool, closed: bool) -> (r: Option<
        CmdResult,
    >)
        requires
            old(self)@.wf(),
        ensures
            (final(self)@, answer(r)) == asks_closed(old(self)@, handle, m_direction, closed),
            final(self)@.wf(),
    {
        self.pending_mesh_closed = Some((m_direction, closed));
        let op = if m_direction {
            PeditOp::SetMeshClosedM(closed)
        } else {
            PeditOp::SetMeshClosedN(closed)
        };
        Some(CmdResult::PeditOp { handle, op })
    }

    fn undo_mesh(&mut self)
        requires
            old(self)@.wf(),
            old(self)@.undo_count > 0,
        ensures
            final(self)@ == undone_mesh(old(self)@),
            final(self)@.wf(),
    {
        self.undo_count = self.undo_count - 1;
        if let Some(Some(closed)) = self.mesh_closed_history.pop() {
            self.replace_mesh_closed(closed);
        }
    }

    fn text_mesh_option(&mut self, handle: Handle, up: &str) -> (r: Option<CmdResult>)
        requires
            old(self)@.wf(),
        ensures
            (final(self)@, answer(r)) == typed_mesh_option(old(self)@, handle, up@),
            final(self)@.wf(),
    {
        let (m_density, n_density) = self.mesh_smooth_density;
        if is_any3(up, "E", "EDIT", "EDIT VERTEX") {
            self.mode = Mode::MeshVertex(0);
            Some(CmdResult::NeedPoint)
        } else if is_any3(up, "S", "SMOOTH", "SMOOTH SURFACE") {
            let op = PeditOp::SetMeshSmooth {
                smooth: self.mesh_smooth_type,
                m_density,
                n_density,
            };
            Some(CmdResult::PeditOp { handle, op })
        } else if is_either(up, "D", "DESMOOTH") {
            let op = PeditOp::SetMeshSmooth { smooth: Smoothing::Plain, m_density, n_density };
            Some(CmdResult::PeditOp { handle, op })
        } else if is_any3(up, "MC", "MCLOSE", "M CLOSE") {
            self.ask_closed(handle, true, true)
        } else if is_any3(up, "MO", "MOPEN", "M OPEN") {
            self.ask_closed(handle, true, false)
        } else if is_any3(up, "NC", "NCLOSE", "N CLOSE") {
            self.ask_closed(handle, false, true)
        } else if is_any3(up, "NO", "NOPEN", "N OPEN") {
            self.ask_closed(handle, false, false)
        } else if is_either(up, "U", "UNDO") {
            if self.undo_count > 0 {
                self.undo_mesh();
                Some(CmdResult::UndoDocument)
            } else {
                Some(CmdResult::NeedPoint)
            }
        } else if is_either(up, "X", "EXIT") {
            Some(CmdResult::Cancel)
        } else {
            None
        }
    }

    fn undo_poly(&mut self)
        requires
            old(self)@.wf(),
            old(self)@.undo_count > 0,
            old(self)@.mode == Mode::Options,
        ensures
            final(self)@ == undone_poly(old(self)@),
            final(self)@.wf(),
    {
        self.undo_count = self.undo_count - 1;
        let _ = self.mesh_closed_history.pop();
        let ghost before = self.multiple_history@;
        if let Some(previous) = self.multiple_history.pop() {
            proof {
                assert(views(self.multiple_history@) =~= views(before).drop_last());
            }
            if previous.len() > 0 {
                self.target = Some(previous[0]);
            }
            self.multiple = previous;
        }
    }

    fn text_poly_option(&mut self, handle: Handle, up: &str, number: Option<Real>) -> (r: Option<
        CmdResult,
    >)
        requires
            old(self)@.wf(),
            old(self)@.mode == Mode::Options,
        ensures
            (final(self)@, answer(r)) == typed_poly_option(old(self)@, handle, up@, number),
            final(self)@.wf(),
    {
        if is_either(up, "E", "EDIT") && self.multiple.len() == 0 {
            self.mode = Mode::PolyVertex(0);
            Some(CmdResult::NeedPoint)
        } else if is_either(up, "R", "REVERSE") {
            Some(self.operation(handle, PeditOp::Reverse))
        } else if is_any3(up, "L", "LTYPE", "LTYPEGEN") {
            self.mode = Mode::AwaitLinetype;
            Some(CmdResult::NeedPoint)
        } else if is_either(up, "U", "UNDO") {
            if self.undo_count > 0 {
                self.undo_poly();
                Some(CmdResult::UndoDocument)
            } else {
                Some(CmdResult::NeedPoint)
            }
        } else if is_either(up, "X", "EXIT") {
            Some(CmdResult::Cancel)
        } else if is_either(up, "C", "CLOSE") {
            Some(self.operation(handle, PeditOp::SetClosed(true)))
        } else if is_either(up, "O", "OPEN") {
            Some(self.operation(handle, PeditOp::SetClosed(false)))
        } else if is_either(up, "W", "WIDTH") {
            self.mode = Mode::AwaitWidth;
            Some(CmdResult::NeedPoint)
        } else if is_either(up, "J", "JOIN") {
            self.mode = Mode::JoinGather;
            let mut list: Vec<Handle> = Vec::new();
            list.push(handle);
            self.joining = list;
            proof {
                assert(self.joining@ =~= seq![handle]);
            }
            Some(CmdResult::NeedPoint)
        } else if is_either(up, "F", "FIT") {
            Some(self.operation(handle, PeditOp::Fit))
        } else if is_either(up, "S", "SPLINE") {
            Some(self.operation(handle, PeditOp::Spline))
        } else if is_either(up, "D", "DECURVE") {
            Some(self.operation(handle, PeditOp::Decurve))
        } else if after_prefix(up, "W ").is_some() {
            match number {
                Some(w) => {
                    if w.is_width() {
                        Some(self.operation(handle, PeditOp::SetWidth(w)))
                    } else {
                        None
                    }
                },
                None => None,
            }
        } else {
            None
        }
    }

    /// Reads a keyword, in upper case and without white space around it, and
    /// the number that the typed text holds.
    pub fn on_keyword(&mut self, up: &str, number: Option<Real>) -> (r: Option<CmdResult>)
        requires
            old(self)@.wf(),
        ensures
            (final(self)@, answer(r)) == typed(old(self)@, up@, number),
            final(self)@.wf(),
    {
        self.pending_mesh_closed = None;
        match self.mode {
            Mode::PickTarget => {
                if is_either(up, "M", "MULTIPLE") {
                    self.mode = Mode::MultipleGather;
                    Some(CmdResult::NeedPoint)
                } else {
                    None
                }
            },
            Mode::MultipleConvert => self.text_convert_all(up),
            Mode::ConvertPrompt(handle) => self.text_convert(handle, up),
            Mode::AwaitWidth => self.text_width(number),
            Mode::AwaitLinetype => self.text_linetype(up),
            Mode::PolyWidthStart(index, _) => self.text_width_start(index, number),
            Mode::PolyWidthEnd(index, start) => self.text_width_end(index, start, number),
            Mode::PolyRange { start, end, split } => self.text_range(start, end, split, up),
            Mode::PolyVertex(index) => self.text_vertex(index, up),
            Mode::MeshVertex(index) => self.text_mesh_vertex(index, up),
            Mode::Options => match self.target {
                Some(handle) => {
                    if self.mesh_size().is_some() {
                        self.text_mesh_option(handle, up)
                    } else {
                        self.text_poly_option(handle, up, number)
                    }
                },
                None => None,
            },
            Mode::MultipleGather | Mode::JoinGather | Mode::PolyMove(_) | Mode::PolyInsert(_)
            | Mode::MeshVertexMove(_) => None,
        }
    }

    /// The part of a typed text to read a number from, where one is looked
    /// for.
    pub fn number_text(&self, text: &str) -> (r: Option<String>)
        ensures
            match r {
                Some(t) => number_of(self@, text@) == Some(t@),
                None => number_of(self@, text@) is None,
            },
    {
        match self.mode {
            Mode::AwaitWidth => {
                let up = keyword(text);
                Some(decimal_text(up.as_str()))
            },
            Mode::PolyWidthStart(_, _) | Mode::PolyWidthEnd(_, _) => Some(trim(text)),
            Mode::Options => {
                let up = keyword(text);
                proof {
                    reveal_strlit("W ");
                }
                match after_prefix(up.as_str(), "W ") {
                    Some(rest) => {
                        let t = trim(rest.as_str());
                        Some(decimal_text(t.as_str()))
                    },
                    None => None,
                }
            },
            _ => None,
        }
    }

    /// Reads a typed text. `number` is the number that [`Self::number_text`]
    /// of the text holds.
    pub fn on_text_input(&mut self, text: &str, number: Option<Real>) -> (r: Option<CmdResult>)
        requires
            old(self)@.wf(),
        ensures
            (final(self)@, answer(r)) == typed(old(self)@, keyword_of(text@), number),
            final(self)@.wf(),
    {
        let up = keyword(text);
        self.on_keyword(up.as_str(), number)
    }

    fn enter_as(&mut self, up: &str, number: Option<Real>) -> (r: CmdResult)
        requires
            old(self)@.wf(),
        ensures
            (final(self)@, r@) == (
                typed(old(self)@, up@, number).0,
                or_need_point(typed(old(self)@, up@, number).1),
            ),
            final(self)@.wf(),
    {
        match self.on_keyword(up, number) {
            Some(r) => r,
            None => CmdResult::NeedPoint,
        }
    }

    /// Reads the Enter key.
    pub fn on_enter(&mut self) -> (r: CmdResult)
        requires
            old(self)@.wf(),
        ensures
            (final(self)@, r@) == entered(old(self)@),
            final(self)@.wf(),
    {
        match self.mode {
            Mode::MultipleGather => {
                self.target = first(&self.multiple);
                if self.multiple.len() == 0 {
                    return CmdResult::Cancel;
                }
                self.mode = if has_convertible(&self.info, &self.multiple) {
                    Mode::MultipleConvert
                } else {
                    Mode::Options
                };
                CmdResult::NeedPoint
            },
            Mode::MultipleConvert => self.enter_as("Y", None),
            Mode::PolyWidthStart(_, width) => self.enter_as("", Some(width)),
            Mode::PolyWidthEnd(_, width) => self.enter_as("", Some(width)),
            Mode::PolyVertex(_) => self.enter_as("N", None),
            Mode::PolyRange { .. } => self.enter_as("N", None),
            Mode::PolyMove(_) | Mode::PolyInsert(_) | Mode::AwaitLinetype => {
                self.mode = Mode::Options;
                CmdResult::NeedPoint
            },
            Mode::JoinGather => {
                if self.joining.len() >= 2 {
                    CmdResult::JoinEntities(copy_of(&self.joining))
                } else {
                    self.mode = Mode::Options;
                    CmdResult::NeedPoint
                }
            },
            Mode::ConvertPrompt(handle) => CmdResult::PeditOp {
                handle,
                op: PeditOp::ConvertToPolyline,
            },
            Mode::MeshVertex(index) => {
                if let Some((m, n)) = self.mesh_size() {
                    proof {
                        assert(m * n >= 0) by (nonlinear_arith)
                            requires
                                m >= 0,
                                n >= 0,
                        ;
                    }
                    let count: usize = m * n;
                    if self.mesh_vertex_default >= 0 {
                        if index + 1 < count {
                            self.mode = Mode::MeshVertex(index + 1);
                        }
                    } else if index > 0 {
                        self.mode = Mode::MeshVertex(index - 1);
                    }
                }
                CmdResult::NeedPoint
            },
            Mode::PickTarget | Mode::Options | Mode::AwaitWidth | Mode::MeshVertexMove(_) => {
                CmdResult::Cancel
            },
        }
    }

    fn place(&mut self, index: usize, point: Point3, insert: bool) -> (r: CmdResult)
        requires
            old(self)@.wf(),
            index < usize::MAX,
        ensures
            (final(self)@, r@) == placed(old(self)@, index, point, insert),
            final(self)@.wf(),
    {
        if !point.is_finite() {
            return CmdResult::NeedPoint;
        }
        match self.target {
            Some(handle) => {
                self.mode = Mode::PolyVertex(index);
                CmdResult::PeditOp { handle, op: PeditOp::EditVertex { index, point, insert } }
            },
            None => CmdResult::Cancel,
        }
    }

    /// Reads a point.
    pub fn on_point(&mut self, point: Point3) -> (r: CmdResult)
        requires
            old(self)@.wf(),
        ensures
            (final(self)@, r@) == pointed(old(self)@, point),
            final(self)@.wf(),
    {
        match self.mode {
            Mode::PolyMove(index) => self.place(index, point, false),
            Mode::PolyInsert(index) => self.place(index, point, true),
            Mode::MeshVertexMove(index) => match self.target {
                Some(handle) => {
                    self.mode = Mode::MeshVertex(index);
                    CmdResult::PeditOp { handle, op: PeditOp::MoveMeshVertex { index, point } }
                },
                None => CmdResult::Cancel,
            },
            _ => CmdResult::NeedPoint,
        }
    }

    /// Reads a picked entity.
    pub fn on_entity_pick(&mut self, handle: Handle) -> (r: CmdResult)
        requires
            old(self)@.wf(),
        ensures
            final(self)@ == picked(old(self)@, handle),
            r@ == ResultModel::NeedPoint,
            final(self)@.wf(),
    {
        if handle != NO_HANDLE && self.mode == Mode::PickTarget {
            if let Some(t) = map_get(&self.info, handle) {
                if t.is_poly {
                    self.target = Some(handle);
                    self.mode = Mode::Options;
                } else if t.convertible {
                    self.mode = Mode::ConvertPrompt(handle);
                }
            }
        }
        CmdResult::NeedPoint
    }

    /// Reads a selection.
    pub fn on_selection_complete(&mut self, handles: &Vec<Handle>) -> (r: CmdResult)
        requires
            old(self)@.wf(),
        ensures
            final(self)@ == gathered(old(self)@, handles@),
            r@ == ResultModel::NeedPoint,
            final(self)@.wf(),
    {
        match self.mode {
            Mode::MultipleGather => {
                self.multiple = keep_known(&self.info, handles, Keep::Plain);
            },
            Mode::JoinGather => {
                if let Some(target) = self.target {
                    let mut list: Vec<Handle> = Vec::new();
                    list.push(target);
                    let n: usize = handles.len();
                    let mut i: usize = 0;
                    proof {
                        assert(handles@.take(0) =~= Seq::<Handle>::empty());
                        assert(list@ =~= seq![target]);
                    }
                    while i < n
                        invariant
                            i <= n == handles@.len(),
                            list@ == joined(target, self.info@, handles@.take(i as int)),
                        decreases n - i,
                    {
                        let h: Handle = handles[i];
                        proof {
                            assert(handles@.take(i + 1).drop_last() =~= handles@.take(i as int));
                        }
                        if h != target && map_get(&self.info, h).is_some() && !contains(&list, h) {
                            list.push(h);
                        }
                        i += 1;
                    }
                    proof {
                        assert(handles@.take(n as int) =~= handles@);
                    }
                    self.joining = list;
                }
            },
            _ => {},
        }
        CmdResult::NeedPoint
    }

    /// Learns that an entity was replaced by others.
    pub fn on_entity_replaced(&mut self, old_handle: Handle, new_handles: &Vec<Handle>)
        requires
            old(self)@.wf(),
        ensures
            final(self)@ == replaced(old(self)@, old_handle, new_handles@),
            final(self)@.wf(),
    {
        if new_handles.len() > 0 {
            let nh: Handle = new_handles[0];
            if self.multiple.len() == 0 {
                map_remove(&mut self.info, old_handle);
            }
            let n: usize = self.multiple.len();
            let mut i: usize = 0;
            let mut list: Vec<Handle> = Vec::new();
            while i < n
                invariant
                    i <= n == self.multiple@.len(),
                    list@ == renamed(self.multiple@, old_handle, nh).take(i as int),
                decreases n - i,
            {
                let h: Handle = self.multiple[i];
                list.push(
                    if h == old_handle {
                        nh
                    } else {
                        h
                    },
                );
                proof {
                    let all = renamed(self.multiple@, old_handle, nh);
                    assert(all.take(i + 1) =~= all.take(i as int).push(all[i as int]));
                }
                i += 1;
            }
            proof {
                let all = renamed(self.multiple@, old_handle, nh);
                assert(all.take(n as int) =~= all);
            }
            self.multiple = list;
            map_insert(&mut self.info, nh, made_polyline());
            self.target = Some(nh);
            self.mode = Mode::Options;
        }
    }

    /// Takes in an entity, so that its vertices can be walked.
    pub fn inject_picked_entity(&mut self, entity: Entity)
        requires
            old(self)@.wf(),
        ensures
            final(self)@ == injected(old(self)@, entity),
            final(self)@.wf(),
    {
        let handle: Handle = entity.common.handle;
        map_insert(&mut self.entities, handle, entity);
        let count: usize = self.vertex_count();
        if let Mode::PolyVertex(index) = self.mode {
            if index >= count {
                self.mode = Mode::PolyVertex(
                    if count > 0 {
                        count - 1
                    } else {
                        0
                    },
                );
            }
        }
    }

    /// Learns that the edit it asked for was carried out.
    pub fn on_pedit_applied(&mut self)
        requires
            old(self)@.wf(),
        ensures
            final(self)@ == applied(old(self)@),
            final(self)@.wf(),
    {
        if self.undo_count < usize::MAX {
            self.undo_count = self.undo_count + 1;
        }
        let ghost before = self.multiple_history@;
        let previous = match self.pending_multiple.take() {
            Some(list) => list,
            None => copy_of(&self.multiple),
        };
        let ghost pushed = previous@;
        self.multiple_history.push(previous);
        proof {
            assert(views(self.multiple_history@) =~= views(before).push(pushed));
        }
        match self.pending_mesh_closed {
            Some((m_direction, closed)) => {
                self.pending_mesh_closed = None;
                let was = self.mesh_closed();
                self.mesh_closed_history.push(was);
                self.set_mesh_closed(m_direction, closed);
            },
            None => {
                self.mesh_closed_history.push(None);
            },
        }
    }

    /// The command's name.
    pub fn name(&self) -> (r: &'static str)
        ensures
            r@ == "PEDIT"@,
    {
        "PEDIT"
    }

    /// Whether an entity is to be picked.
    pub fn needs_entity_pick(&self) -> (r: bool)
        ensures
            r == (self@.mode == Mode::PickTarget),
    {
        self.mode == Mode::PickTarget
    }

    /// Whether a selection is being gathered.
    pub fn is_selection_gathering(&self) -> (r: bool)
        ensures
            r == (self@.mode == Mode::JoinGather || self@.mode == Mode::MultipleGather),
    {
        self.mode == Mode::JoinGather || self.mode == Mode::MultipleGather
    }

    /// Whether the command reads typed text rather than points or picks.
    pub fn wants_text_input(&self) -> (r: bool)
        ensures
            r == !(self@.mode is PickTarget || self@.mode is MeshVertexMove
                || self@.mode is PolyMove || self@.mode is PolyInsert),
    {
        match self.mode {
            Mode::PickTarget | Mode::MeshVertexMove(_) | Mode::PolyMove(_) | Mode::PolyInsert(
                _,
            ) => false,
            _ => true,
        }
    }

    /// The options to offer.
    pub fn options(&self) -> (r: Vec<CmdOption>)
        ensures
            r@ == offered(self@),
    {
        match self.mode {
            Mode::PickTarget => vec![CmdOption::new("Multiple", "M")],
            Mode::MultipleConvert => vec![CmdOption::new("Yes", "Y"), CmdOption::new("No", "N")],
            Mode::ConvertPrompt(_) => vec![CmdOption::said("Yes", "Y"), CmdOption::said("No", "N")],
            Mode::Options => {
                if self.mesh_size().is_some() {
                    let (closed_m, closed_n) = match self.mesh_closed() {
                        Some(closed) => closed,
                        None => (false, false),
                    };
                    vec![
                        CmdOption::said("Edit vertex", "E"),
                        CmdOption::said("Smooth surface", "S"),
                        CmdOption::said("Desmooth", "D"),
                        if closed_m {
                            CmdOption::said("M open", "MO")
                        } else {
                            CmdOption::said("M close", "MC")
                        },
                        if closed_n {
                            CmdOption::said("N open", "NO")
                        } else {
                            CmdOption::said("N close", "NC")
                        },
                        CmdOption::said("Undo", "U"),
                        CmdOption::said("eXit", "X"),
                    ]
                } else {
                    let mut list = vec![
                        CmdOption::said("Close", "C"),
                        CmdOption::said("Open", "O"),
                        CmdOption::said("Join", "J"),
                        CmdOption::said("Width", "W"),
                        CmdOption::said("Fit", "F"),
                        CmdOption::said("Spline", "S"),
                        CmdOption::said("Decurve", "D"),
                    ];
                    if self.multiple.len() == 0 {
                        list.push(CmdOption::said("Edit vertex", "E"));
                    }
                    list.push(CmdOption::said("Ltype gen", "L"));
                    list.push(CmdOption::said("Reverse", "R"));
                    list.push(CmdOption::said("Undo", "U"));
                    list.push(CmdOption::said("eXit", "X"));
                    list
                }
            },
            Mode::MeshVertex(_) => vec![
                CmdOption::said("Next", "N"),
                CmdOption::said("Previous", "P"),
                CmdOption::said("Left", "L"),
                CmdOption::said("Right", "R"),
                CmdOption::said("Up", "U"),
                CmdOption::said("Down", "D"),
                CmdOption::said("Move", "M"),
                CmdOption::said("Regen", "G"),
                CmdOption::said("eXit", "X"),
            ],
            Mode::JoinGather => vec![CmdOption::said_enter("Join")],
            Mode::PolyVertex(_) => vec![
                CmdOption::new("Next", "N"),
                CmdOption::new("Previous", "P"),
                CmdOption::new("Break", "B"),
                CmdOption::new("Straighten", "S"),
                CmdOption::new("Insert", "I"),
                CmdOption::new("Move", "M"),
                CmdOption::new("Width", "W"),
                CmdOption::new("Exit", "X"),
            ],
            Mode::PolyRange { .. } => vec![
                CmdOption::new("Next", "N"),
                CmdOption::new("Previous", "P"),
                CmdOption::new("Go", "G"),
                CmdOption::new("Exit", "X"),
            ],
            Mode::AwaitLinetype => vec![CmdOption::new("On", "ON"), CmdOption::new("Off", "OFF")],
            Mode::MultipleGather | Mode::AwaitWidth | Mode::PolyMove(_) | Mode::PolyInsert(_)
            | Mode::PolyWidthStart(_, _) | Mode::PolyWidthEnd(_, _) | Mode::MeshVertexMove(_) => {
                Vec::new()
            },
        }
    }

    /// The width that the prompt shows, where it shows one.
    pub fn shown_width(&self) -> (r: Option<Real>)
        ensures
            r == (match self@.mode {
                Mode::PolyWidthStart(_, w) => Some(w),
                Mode::PolyWidthEnd(_, w) => Some(w),
                _ => None,
            }),
    {
        match self.mode {
            Mode::PolyWidthStart(_, w) => Some(w),
            Mode::PolyWidthEnd(_, w) => Some(w),
            _ => None,
        }
    }

    /// What the command asks, where it asks in the language of the user.
    pub fn phrase(&self) -> (r: Option<Phrase>)
        requires
            self@.wf(),
        ensures
            phrase_model(r) == phrased(self@),
    {
        match self.mode {
            Mode::PickTarget => Some(
                Phrase::plain("PEDIT  Select polyline (or a line/arc to convert) or [Multiple]:"),
            ),
            Mode::MultipleConvert => Some(
                Phrase::plain("PEDIT  Convert lines and arcs to polylines [Yes/No] <Yes>:"),
            ),
            Mode::ConvertPrompt(_) => Some(
                Phrase::plain("PEDIT  Object is not a polyline. Turn it into one?  [Yes/No] <Y>:"),
            ),
            Mode::AwaitWidth => Some(Phrase::plain("PEDIT  Specify new width:")),
            Mode::AwaitLinetype => Some(
                Phrase::plain("PEDIT  Enter polyline linetype generation option [ON/OFF]:"),
            ),
            Mode::JoinGather => {
                let count: usize = self.joining.len();
                let n = number(
                    if count > 0 {
                        (count - 1) as u64
                    } else {
                        0
                    },
                );
                Some(
                    Phrase::with(
                        "PEDIT Join  Select objects to join (%{count} picked), Enter to merge:",
                        "count",
                        n,
                    ),
                )
            },
            Mode::MeshVertex(index) => {
                let n = number((index + 1) as u64);
                Some(Phrase::with("PEDIT  Edit mesh vertex %{vertex}  Enter option:", "vertex", n))
            },
            Mode::MeshVertexMove(index) => {
                let n = number((index + 1) as u64);
                Some(
                    Phrase::with(
                        "PEDIT  Specify new location for mesh vertex %{vertex}:",
                        "vertex",
                        n,
                    ),
                )
            },
            Mode::Options => Some(Phrase::plain("PEDIT  Enter option:")),
            Mode::MultipleGather | Mode::PolyVertex(_) | Mode::PolyRange { .. }
            | Mode::PolyMove(_) | Mode::PolyWidthStart(_, _) | Mode::PolyWidthEnd(_, _)
            | Mode::PolyInsert(_) => None,
        }
    }

    /// What the command asks. `width` is the text of [`Self::shown_width`], and
    /// `said` is [`Self::phrase`] in the language of the user.
    pub fn prompt(&self, width: &str, said: &str) -> (r: String)
        requires
            self@.wf(),
        ensures
            r@ == prompted(self@, width@, said@),
    {
        match self.mode {
            Mode::MultipleGather => {
                let n = number(self.multiple.len() as u64);
                join3(
                    "PEDIT  Select objects (",
                    n.as_str(),
                    " selected, Enter when done):",
                )
            },
            Mode::PolyVertex(index) => {
                let n = number((index + 1) as u64);
                join3(
                    "PEDIT  Vertex ",
                    n.as_str(),
                    " [Next/Previous/Break/Insert/Move/Straighten/Width/eXit] <Next>:",
                )
            },
            Mode::PolyRange { end, .. } => {
                let n = number((end + 1) as u64);
                join3("PEDIT  Vertex ", n.as_str(), " [Next/Previous/Go/eXit] <Next>:")
            },
            Mode::PolyMove(index) => {
                let n = number((index + 1) as u64);
                join3("PEDIT  Specify new location for vertex ", n.as_str(), ":")
            },
            Mode::PolyWidthStart(_, _) => join3(
                "PEDIT  Specify starting width for next segment <",
                width,
                ">:",
            ),
            Mode::PolyWidthEnd(_, _) => join3(
                "PEDIT  Specify ending width for next segment <",
                width,
                ">:",
            ),
            Mode::PolyInsert(index) => {
                let n = number((index + 1) as u64);
                join3("PEDIT  Specify location after vertex ", n.as_str(), ":")
            },
            _ => owned(said),
        }
    }
}

} // verus!
