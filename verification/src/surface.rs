//! Frame planning for frontends: the split of the viewport into the main
//! area and the status line, and the data a frontend renders from.

use vstd::prelude::*;

verus! {

/// A rectangle of terminal cells.
#[derive(Debug, Clone, Copy, PartialEq, Eq, Structural)]
pub struct Rect {
    pub x: u16,
    pub y: u16,
    pub width: u16,
    pub height: u16,
}

/// Terminal size in cells and the last computed document area.
#[derive(Debug, Clone, Copy, PartialEq, Eq, Structural)]
pub struct Viewport {
    pub width: Option<u16>,
    pub height: Option<u16>,
    pub doc_area: Option<Rect>,
}

impl Rect {
    pub fn new(x: u16, y: u16, width: u16, height: u16) -> (r: Self)
        ensures
            r == (Rect { x, y, width, height }),
    {
        Rect { x, y, width, height }
    }
}

/// A panel to draw and where.
#[derive(Debug)]
pub struct PanelRenderTarget {
    pub panel_id: String,
    pub area: Rect,
    pub focused: bool,
}

/// Data-only frame plan for frontend compositors.
#[derive(Debug)]
pub struct FrontendFramePlan {
    main_area: Rect,
    status_area: Rect,
    doc_area: Rect,
    panel_render_plan: Vec<PanelRenderTarget>,
}

/// The status line's height: the rows it wants, at most the viewport's.
pub open spec fn status_rows(viewport: Rect, wanted: u16) -> u16 {
    if wanted < viewport.height { wanted } else { viewport.height }
}

/// The main area: the viewport above the status line.
pub open spec fn main_area_of(viewport: Rect, wanted: u16) -> Rect {
    Rect {
        x: viewport.x,
        y: viewport.y,
        width: viewport.width,
        height: (viewport.height - status_rows(viewport, wanted)) as u16,
    }
}

/// The status area: the rows below the main area (its top saturating).
pub open spec fn status_area_of(viewport: Rect, wanted: u16) -> Rect {
    let main = (viewport.height - status_rows(viewport, wanted)) as u16;
    Rect {
        x: viewport.x,
        y: if viewport.y + main <= u16::MAX { (viewport.y + main) as u16 } else { u16::MAX },
        width: viewport.width,
        height: status_rows(viewport, wanted),
    }
}

/// The status area takes the status line's rows, at most the viewport's
/// height, and the main area the rest: together they tile the viewport,
/// the main area on top and the status area right below it (when the
/// viewport's bottom fits in a row index).
pub proof fn law_frame_areas_tile_viewport(viewport: Rect, wanted: u16)
    ensures
        ({
            let h = if wanted < viewport.height { wanted } else { viewport.height };
            let main = main_area_of(viewport, wanted);
            let status = status_area_of(viewport, wanted);
            &&& status.height == h
            &&& main == Rect { x: viewport.x, y: viewport.y, width: viewport.width, height: (viewport.height - h) as u16 }
            &&& main.height + status.height == viewport.height
            &&& status.x == viewport.x && status.width == viewport.width
            &&& viewport.y + viewport.height <= u16::MAX ==> status.y == viewport.y + main.height
        }),
{
}

/// Splits the viewport into the main area and a status line of `wanted`
/// rows.
pub fn split_viewport(viewport: Rect, wanted: u16) -> (r: (Rect, Rect))
    ensures
        r.0 == main_area_of(viewport, wanted),
        r.1 == status_area_of(viewport, wanted),
        r.0.height + r.1.height == viewport.height,
{
    let status = if wanted < viewport.height { wanted } else { viewport.height };
    let main = viewport.height - status;
    let main_area = Rect::new(viewport.x, viewport.y, viewport.width, main);
    let top = viewport.y.saturating_add(main);
    let status_area = Rect::new(viewport.x, top, viewport.width, status);
    (main_area, status_area)
}

impl FrontendFramePlan {
    pub closed spec fn main_area_spec(&self) -> Rect {
        self.main_area
    }

    pub closed spec fn status_area_spec(&self) -> Rect {
        self.status_area
    }

    pub closed spec fn doc_area_spec(&self) -> Rect {
        self.doc_area
    }

    pub closed spec fn panels_spec(&self) -> Seq<PanelRenderTarget> {
        self.panel_render_plan@
    }

    /// A plan for `viewport` with a status line of `status_rows` rows, the
    /// document area laid out by the dock and the panels to draw.
    pub fn new(viewport: Rect, status_rows: u16, doc_area: Rect, panels: Vec<PanelRenderTarget>) -> (p: Self)
        ensures
            p.main_area_spec() == main_area_of(viewport, status_rows),
            p.status_area_spec() == status_area_of(viewport, status_rows),
            p.doc_area_spec() == doc_area,
            p.panels_spec() == panels@,
    {
        let (main_area, status_area) = split_viewport(viewport, status_rows);
        FrontendFramePlan { main_area, status_area, doc_area, panel_render_plan: panels }
    }

    pub fn main_area(&self) -> (r: Rect)
        ensures
            r == self.main_area_spec(),
    {
        self.main_area
    }

    pub fn status_area(&self) -> (r: Rect)
        ensures
            r == self.status_area_spec(),
    {
        self.status_area
    }

    pub fn doc_area(&self) -> (r: Rect)
        ensures
            r == self.doc_area_spec(),
    {
        self.doc_area
    }

    pub fn panel_render_plan(&self) -> (r: &[PanelRenderTarget])
        ensures
            r@ == self.panels_spec(),
    {
        self.panel_render_plan.as_slice()
    }
}

impl crate::editor::Editor {
    /// Starts a frame for `viewport`: clears the redraw request, records the
    /// terminal size and the document area the dock laid out, and plans
    /// the frame (a status line of `status_rows` rows at most).
    pub fn begin_frontend_frame(
        &mut self,
        viewport: Rect,
        status_rows: u16,
        doc_area: Rect,
        panels: Vec<PanelRenderTarget>,
    ) -> (p: FrontendFramePlan)
        ensures
            !final(self).frame.needs_redraw,
            final(self).viewport == (Viewport {
                width: Some(viewport.width),
                height: Some(viewport.height),
                doc_area: Some(doc_area),
            }),
            final(self).core == old(self).core,
            final(self).windows == old(self).windows,
            final(self).focus == old(self).focus,
            final(self).prompt == old(self).prompt,
            final(self).frame.sticky_views == old(self).frame.sticky_views,
            final(self).frame.pending_quit == old(self).frame.pending_quit,
            p.main_area_spec() == main_area_of(viewport, status_rows),
            p.status_area_spec() == status_area_of(viewport, status_rows),
            p.doc_area_spec() == doc_area,
            p.panels_spec() == panels@,
    {
        self.frame.needs_redraw = false;
        self.viewport.width = Some(viewport.width);
        self.viewport.height = Some(viewport.height);
        self.viewport.doc_area = Some(doc_area);
        FrontendFramePlan::new(viewport, status_rows, doc_area, panels)
    }
}

/// How the separator hover animation reacts when the hovered separator
/// changes.
#[derive(Debug, Clone, Copy, PartialEq, Eq, Structural)]
pub enum HoverAnimationStep {
    /// Start fading in over this separator.
    FadeIn(Rect),
    /// Turn the running animation (over the separator just left) to fading
    /// out from where it is.
    FadeOutRunning,
    /// Start fading out from full intensity over this separator.
    FadeOutFrom(Rect),
    /// Leave the animation as it is.
    Keep,
}

/// The animation step for a hover change from `old` to `new` separator
/// areas, with `animated` the area of the running animation, if any:
/// entering a separator fades in; leaving one fades the running animation
/// out when it is over that separator, else starts a fade-out there;
/// moving to another separator fades in there; anything else keeps it.
pub fn hover_animation_step(old: Option<Rect>, new: Option<Rect>, animated: Option<Rect>) -> (r: HoverAnimationStep)
    ensures
        r == match (old, new) {
            (None, Some(n)) => HoverAnimationStep::FadeIn(n),
            (Some(o), None) => if animated == Some(o) {
                HoverAnimationStep::FadeOutRunning
            } else {
                HoverAnimationStep::FadeOutFrom(o)
            },
            (Some(o), Some(n)) => if o != n {
                HoverAnimationStep::FadeIn(n)
            } else {
                HoverAnimationStep::Keep
            },
            (None, None) => HoverAnimationStep::Keep,
        },
{
    match (old, new) {
        (None, Some(n)) => HoverAnimationStep::FadeIn(n),
        (Some(o), None) => {
            let running = match animated {
                Some(a) => a == o,
                None => false,
            };
            if running {
                HoverAnimationStep::FadeOutRunning
            } else {
                HoverAnimationStep::FadeOutFrom(o)
            }
        },
        (Some(o), Some(n)) => if o != n {
            HoverAnimationStep::FadeIn(n)
        } else {
            HoverAnimationStep::Keep
        },
        (None, None) => HoverAnimationStep::Keep,
    }
}

/// The open modal overlay, as far as the utility panel's height depends on
/// it: a picker (command palette or file picker) showing `menu_rows`
/// completion rows, or another overlay with `panes` panes.
#[derive(Debug, Clone, Copy, PartialEq, Eq, Structural)]
pub enum UtilityOverlay {
    Picker { menu_rows: usize },
    Panes { panes: usize },
}

/// Rows a frontend gives the utility panel: none without an overlay; for a
/// picker its input row plus its menu rows, between 1 and 10; one row for
/// an overlay of at most one pane, else 10.
pub fn utility_overlay_height_hint(overlay: Option<UtilityOverlay>) -> (r: Option<u16>)
    ensures
        r == match overlay {
            None => None,
            Some(UtilityOverlay::Picker { menu_rows }) => Some(
                if menu_rows + 1 <= 10 { (menu_rows + 1) as u16 } else { 10u16 },
            ),
            Some(UtilityOverlay::Panes { panes }) => Some(if panes <= 1 { 1u16 } else { 10u16 }),
        },
{
    match overlay {
        None => None,
        Some(UtilityOverlay::Picker { menu_rows }) => {
            if menu_rows < 10 {
                Some((menu_rows + 1) as u16)
            } else {
                Some(10)
            }
        },
        Some(UtilityOverlay::Panes { panes }) => {
            if panes <= 1 {
                Some(1)
            } else {
                Some(10)
            }
        },
    }
}

/// A target for navigation: a file and a zero-based line and column.
#[derive(Debug, Clone, PartialEq, Eq)]
pub struct Location {
    pub path: String,
    pub line: usize,
    pub column: usize,
}

impl Location {
    pub fn new(path: String, line: usize, column: usize) -> (l: Self)
        ensures
            l.path == path,
            l.line == line,
            l.column == column,
    {
        Location { path, line, column }
    }
}

} // verus!
