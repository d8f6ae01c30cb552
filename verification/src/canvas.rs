//! Small shared pieces of the canvas editors: the scene editor's gizmo
//! modes and pie-menu actions, the UI editor's widget kinds, and where the
//! scene and animation files of a project live.

use vstd::prelude::*;

use crate::graph::{find_hit, first_hit, lemma_first_hit_bounds};
use crate::panel::PanelContext;
use crate::selection::SelectList;
use crate::paths::{join, path_join};
use crate::text::{decimal, push_decimal};

verus! {

/// The transform gizmo of the scene editor.
#[derive(Debug, Clone, Copy, PartialEq, Eq, Structural)]
pub enum GizmoMode {
    Translate,
    Rotate,
    Scale,
}

impl Default for GizmoMode {
    fn default() -> (m: Self)
        ensures
            m == GizmoMode::Translate,
    {
        GizmoMode::Translate
    }
}

/// What a slice of the scene editor's pie menu does.
#[derive(Debug, Clone, Copy, PartialEq, Eq, Structural)]
pub enum PieAction {
    /// Switch the gizmo mode.
    SetGizmo(GizmoMode),
    /// Add a new entity.
    AddEntity,
    /// Duplicate the selected entity.
    Duplicate,
    /// Delete the selected entity.
    Delete,
    /// No slice: nothing happens.
    Nothing,
}

/// The action of pie slice `idx`, clockwise from the top.
pub open spec fn pie_action_spec(idx: usize) -> PieAction {
    if idx == 0 {
        PieAction::SetGizmo(GizmoMode::Translate)
    } else if idx == 1 {
        PieAction::SetGizmo(GizmoMode::Rotate)
    } else if idx == 2 {
        PieAction::SetGizmo(GizmoMode::Scale)
    } else if idx == 3 {
        PieAction::AddEntity
    } else if idx == 4 {
        PieAction::Duplicate
    } else if idx == 5 {
        PieAction::Delete
    } else {
        PieAction::Nothing
    }
}

/// The action of pie slice `idx`.
pub fn pie_action(idx: usize) -> (a: PieAction)
    ensures
        a == pie_action_spec(idx),
{
    match idx {
        0 => PieAction::SetGizmo(GizmoMode::Translate),
        1 => PieAction::SetGizmo(GizmoMode::Rotate),
        2 => PieAction::SetGizmo(GizmoMode::Scale),
        3 => PieAction::AddEntity,
        4 => PieAction::Duplicate,
        5 => PieAction::Delete,
        _ => PieAction::Nothing,
    }
}

/// The base colour (red, green, blue) of pie slice `i`; Duplicate and
/// Delete are dimmed when nothing is selected.
pub fn pie_slice_color(i: usize, has_selection: bool) -> (rgb: (u8, u8, u8))
    ensures
        i == 0 ==> rgb == (45u8, 85u8, 165u8),
        i == 1 ==> rgb == (40u8, 140u8, 80u8),
        i == 2 ==> rgb == (100u8, 55u8, 160u8),
        i == 3 ==> rgb == (35u8, 130u8, 145u8),
        i == 4 ==> rgb == if has_selection { (160u8, 100u8, 35u8) } else { (70u8, 60u8, 45u8) },
        i == 5 ==> rgb == if has_selection { (165u8, 45u8, 45u8) } else { (70u8, 42u8, 42u8) },
        i > 5 ==> rgb == (60u8, 60u8, 70u8),
{
    match i {
        0 => (45, 85, 165),
        1 => (40, 140, 80),
        2 => (100, 55, 160),
        3 => (35, 130, 145),
        4 => if has_selection { (160, 100, 35) } else { (70, 60, 45) },
        5 => if has_selection { (165, 45, 45) } else { (70, 42, 42) },
        _ => (60, 60, 70),
    }
}

/// A colour brightened for a hovered slice: each channel raised by 70,
/// capped at 255.
pub fn brightened(rgb: (u8, u8, u8)) -> (b: (u8, u8, u8))
    ensures
        b.0 == if rgb.0 + 70 > 255 { 255 } else { rgb.0 + 70 },
        b.1 == if rgb.1 + 70 > 255 { 255 } else { rgb.1 + 70 },
        b.2 == if rgb.2 + 70 > 255 { 255 } else { rgb.2 + 70 },
{
    (rgb.0.saturating_add(70), rgb.1.saturating_add(70), rgb.2.saturating_add(70))
}

/// The name of the entity added as number `n`: `Entity <n>`.
pub fn entity_name(n: u32) -> (name: String)
    ensures
        name@ == "Entity "@ + decimal(n as nat),
{
    let mut name = crate::text::owned("Entity ");
    push_decimal(&mut name, n as u64);
    name
}

/// The name of a duplicate of the entity named `name`: `Copy of <name>`.
pub fn copy_name(name: &str) -> (copy: String)
    ensures
        copy@ == "Copy of "@ + name@,
{
    let mut copy = crate::text::owned("Copy of ");
    copy.append(name);
    copy
}

/// Kind of a widget on the UI editor canvas.
#[derive(Clone, Copy, PartialEq, Eq, Debug, Structural)]
pub enum WidgetKind {
    Panel,
    Label,
    Button,
}

/// The name of a widget kind.
pub open spec fn widget_label(kind: WidgetKind) -> Seq<char> {
    match kind {
        WidgetKind::Panel => "Panel"@,
        WidgetKind::Label => "Label"@,
        WidgetKind::Button => "Button"@,
    }
}

impl Default for WidgetKind {
    fn default() -> (k: Self)
        ensures
            k == WidgetKind::Panel,
    {
        WidgetKind::Panel
    }
}

impl WidgetKind {
    /// The name of the kind, shown in the inspector.
    pub fn label(self) -> (label: &'static str)
        ensures
            label@ == widget_label(self),
    {
        match self {
            WidgetKind::Panel => "Panel",
            WidgetKind::Label => "Label",
            WidgetKind::Button => "Button",
        }
    }

    /// The size (width, height, in points) a new widget of this kind gets.
    pub fn default_size(self) -> (size: (u16, u16))
        ensures
            self == WidgetKind::Panel ==> size == (120u16, 60u16),
            self == WidgetKind::Label ==> size == (100u16, 20u16),
            self == WidgetKind::Button ==> size == (90u16, 28u16),
    {
        match self {
            WidgetKind::Panel => (120, 60),
            WidgetKind::Label => (100, 20),
            WidgetKind::Button => (90, 28),
        }
    }

    /// The fill colour (red, green, blue) of a widget of this kind.
    pub fn fill_color(self) -> (rgb: (u8, u8, u8))
        ensures
            self == WidgetKind::Panel ==> rgb == (45u8, 55u8, 75u8),
            self == WidgetKind::Label ==> rgb == (40u8, 60u8, 50u8),
            self == WidgetKind::Button ==> rgb == (60u8, 50u8, 80u8),
    {
        match self {
            WidgetKind::Panel => (45, 55, 75),
            WidgetKind::Label => (40, 60, 50),
            WidgetKind::Button => (60, 50, 80),
        }
    }

    /// The label of a new widget of this kind on a canvas that holds
    /// `count` widgets: the kind and the widget's number, `count + 1`.
    pub fn new_widget_label(self, count: usize) -> (label: String)
        requires
            count < u64::MAX,
        ensures
            label@ == widget_label(self) + " "@ + decimal((count + 1) as nat),
    {
        let mut label = crate::text::owned(self.label());
        label.append(" ");
        push_decimal(&mut label, count as u64 + 1);
        label
    }
}

/// The widget count shown in the UI editor's toolbar: `<n> widgets`.
pub fn widget_count_text(n: usize) -> (text: String)
    requires
        n <= u64::MAX,
    ensures
        text@ == decimal(n as nat) + " widgets"@,
{
    let mut text = String::new();
    push_decimal(&mut text, n as u64);
    text.append(" widgets");
    text
}

/// The caption drawn on a widget of the UI editor: `[<kind>] <label>`.
pub fn widget_caption(kind: WidgetKind, label: &str) -> (caption: String)
    ensures
        caption@ == "["@ + widget_label(kind) + "] "@ + label@,
{
    let mut caption = crate::text::owned("[");
    caption.append(kind.label());
    caption.append("] ");
    caption.append(label);
    caption
}

/// A widget on the UI editor's canvas: its label, its kind and its
/// rectangle (of the caller's type).
pub struct UiWidget<R> {
    /// The label shown on the widget.
    pub label: String,
    /// What kind of widget it is.
    pub kind: WidgetKind,
    /// Where it stands on the canvas.
    pub rect: R,
}

/// The UI editor's widgets, the selected one and the one being dragged.
pub struct UiCanvas<R> {
    /// The widgets, with the selected one.
    pub widgets: SelectList<UiWidget<R>>,
    /// Index of the widget being dragged.
    pub dragging: Option<usize>,
}

impl<R> UiCanvas<R> {
    /// The selection and the dragged widget, when there are any, exist.
    pub open spec fn wf(&self) -> bool {
        &&& self.widgets.wf()
        &&& (self.dragging matches Some(i) ==> i < self.widgets.items@.len())
    }

    /// A canvas with `widgets`, none selected or dragged.
    pub fn new(widgets: Vec<UiWidget<R>>) -> (c: Self)
        ensures
            c.wf(),
            c.widgets.items == widgets,
            c.widgets.selected is None,
            c.dragging is None,
    {
        UiCanvas { widgets: SelectList::new(widgets), dragging: None }
    }

    /// "＋ Panel", "＋ Label", "＋ Button": append a widget of `kind` at
    /// `rect`, labelled with its kind and its number; the selection stays.
    pub fn add_widget(&mut self, kind: WidgetKind, rect: R)
        requires
            old(self).wf(),
            old(self).widgets.items@.len() < u64::MAX,
        ensures
            final(self).wf(),
            final(self).widgets.items@.len() == old(self).widgets.items@.len() + 1,
            final(self).widgets.items@.take(old(self).widgets.items@.len() as int) == old(self).widgets.items@,
            ({
                let w = final(self).widgets.items@.last();
                &&& w.label@ == widget_label(kind) + " "@ + decimal(old(self).widgets.items@.len() + 1)
                &&& w.kind == kind
                &&& w.rect == rect
            }),
            final(self).widgets.selected == old(self).widgets.selected,
            final(self).dragging == old(self).dragging,
    {
        let label = kind.new_widget_label(self.widgets.items.len());
        let ghost before = self.widgets.items@;
        self.widgets.push(UiWidget { label, kind, rect });
        assert(self.widgets.items@.take(before.len() as int) =~= before);
    }

    /// "🗑 Delete": remove the selected widget; nothing is selected or
    /// dragged afterwards.
    pub fn delete_selected(&mut self) -> (removed: Option<UiWidget<R>>)
        requires
            old(self).wf(),
        ensures
            final(self).wf(),
            final(self).widgets.selected is None,
            old(self).widgets.selected is None ==> removed is None && final(self).widgets.items == old(self).widgets.items
                && final(self).dragging == old(self).dragging,
            old(self).widgets.selected matches Some(i) ==> {
                &&& removed == Some(old(self).widgets.items@[i as int])
                &&& final(self).widgets.items@ == old(self).widgets.items@.remove(i as int)
                &&& final(self).dragging is None
            },
    {
        if self.widgets.selected.is_none() {
            return None;
        }
        let removed = self.widgets.remove_selected_and_deselect();
        self.dragging = None;
        removed
    }

    /// A drag begins on the canvas: the first widget under the pointer
    /// (`hits`, one flag per widget) is dragged and selected; with none,
    /// nothing is dragged and the selection stays.
    pub fn begin_drag(&mut self, hits: &Vec<bool>)
        requires
            old(self).wf(),
            hits@.len() == old(self).widgets.items@.len(),
        ensures
            final(self).wf(),
            final(self).widgets.items == old(self).widgets.items,
            match first_hit(hits@, -1) {
                Some(i) => final(self).dragging == Some(i as usize) && final(self).widgets.selected == Some(i as usize),
                None => final(self).dragging is None && final(self).widgets.selected == old(self).widgets.selected,
            },
    {
        proof {
            lemma_first_hit_bounds(hits@, -1, 0);
        }
        self.dragging = None;
        if let Some(i) = find_hit(hits, None) {
            self.dragging = Some(i);
            self.widgets.select(i);
        }
    }

    /// The drag ends: nothing is dragged.
    pub fn end_drag(&mut self)
        requires
            old(self).wf(),
        ensures
            final(self).wf(),
            final(self).dragging is None,
            final(self).widgets == old(self).widgets,
    {
        self.dragging = None;
    }

    /// A click on the canvas: a click that hits no widget (`hit`) clears the
    /// selection.
    pub fn click(&mut self, hit: bool)
        requires
            old(self).wf(),
        ensures
            final(self).wf(),
            final(self).widgets.items == old(self).widgets.items,
            final(self).dragging == old(self).dragging,
            !hit ==> final(self).widgets.selected is None,
            hit ==> final(self).widgets.selected == old(self).widgets.selected,
    {
        if !hit {
            self.widgets.deselect();
        }
    }
}

/// The scene file of a project: `<asset_root>/scenes/scene.toml`.
pub fn scene_path(ctx: &PanelContext) -> (p: Option<String>)
    ensures
        ctx.asset_root is None ==> p is None,
        ctx.asset_root matches Some(r) ==> (p matches Some(s) && s@ == path_join(path_join(r@, "scenes"@), "scene.toml"@)),
{
    match &ctx.asset_root {
        Some(r) => {
            let dir = join(r.as_str(), "scenes");
            Some(join(dir.as_str(), "scene.toml"))
        },
        None => None,
    }
}

/// The animation file of a project: `<asset_root>/animations/animation.toml`.
pub fn anim_path(ctx: &PanelContext) -> (p: Option<String>)
    ensures
        ctx.asset_root is None ==> p is None,
        ctx.asset_root matches Some(r) ==> (p matches Some(s) && s@ == path_join(path_join(r@, "animations"@), "animation.toml"@)),
{
    match &ctx.asset_root {
        Some(r) => {
            let dir = join(r.as_str(), "animations");
            Some(join(dir.as_str(), "animation.toml"))
        },
        None => None,
    }
}

/// The label of a new node of the logic graph: `<kind> <id>` (Event,
/// Action or Branch), or `Node <id>` in the material graph.
pub fn node_label(kind: &str, id: usize) -> (label: String)
    requires
        id <= u64::MAX,
    ensures
        label@ == kind@ + " "@ + decimal(id as nat),
{
    let mut label = crate::text::owned(kind);
    label.append(" ");
    push_decimal(&mut label, id as u64);
    label
}

} // verus!
