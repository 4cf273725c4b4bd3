//! Drawing a lane: what to hand to the renderer, in order, for given options.

use crate::config::RenderConfig;
use crate::geom::line::Line;
use crate::geom::polygon::Quad;
use crate::geom::polyline::{segment, PolyLine};
use crate::geom::pt::Pt2D;
use crate::map_model::{Lane, LaneID, LaneType, StreetMap};
use crate::render::lane::{markings_view, DrawLane, DrawLaneView};
use crate::render::marking::{Colors, Marking, MarkingView};
use crate::text::{decimal, spec_decimal};
use vstd::prelude::*;

verus! {

/// A colour that the caller chose: red, green, blue and opacity.
#[derive(Clone, Copy, Debug, PartialEq, Eq, Structural)]
pub struct Color {
    pub r: u8,
    pub g: u8,
    pub b: u8,
    pub a: u8,
}

/// What to draw with: the palette's colour for a kind of thing, or a colour
/// that the caller chose.
#[derive(Clone, Copy, Debug, PartialEq, Eq, Structural)]
pub enum Paint {
    Palette(Colors),
    Custom(Color),
}

/// How to draw a lane.
#[derive(Clone, Copy, Debug)]
pub struct RenderOptions {
    /// A colour to fill the lane with in place of its own.
    pub color: Option<Color>,
    /// The zoom of the view, in thousandths.
    pub cam_zoom: u32,
    /// Whether to draw the debug overlay.
    pub debug_mode: bool,
}

/// One thing for the renderer to draw.
#[derive(Debug)]
pub enum DrawCommand {
    Polygon { paint: Paint, quads: Vec<Quad> },
    Line { paint: Paint, thickness: i64, line: Line },
    RoundedLine { paint: Paint, thickness: i64, line: Line },
    Circle { paint: Paint, center: Pt2D, radius: i64 },
    Text { text: String, at: Pt2D },
}

/// One thing for the renderer to draw, as a plain value.
pub enum DrawCommandView {
    Polygon { paint: Paint, quads: Seq<Quad> },
    Line { paint: Paint, thickness: i64, line: Line },
    RoundedLine { paint: Paint, thickness: i64, line: Line },
    Circle { paint: Paint, center: Pt2D, radius: i64 },
    Text { text: Seq<char>, at: Pt2D },
}

impl View for DrawCommand {
    type V = DrawCommandView;

    open spec fn view(&self) -> DrawCommandView {
        match self {
            DrawCommand::Polygon { paint, quads } => DrawCommandView::Polygon {
                paint: *paint,
                quads: quads@,
            },
            DrawCommand::Line { paint, thickness, line } => DrawCommandView::Line {
                paint: *paint,
                thickness: *thickness,
                line: *line,
            },
            DrawCommand::RoundedLine { paint, thickness, line } => DrawCommandView::RoundedLine {
                paint: *paint,
                thickness: *thickness,
                line: *line,
            },
            DrawCommand::Circle { paint, center, radius } => DrawCommandView::Circle {
                paint: *paint,
                center: *center,
                radius: *radius,
            },
            DrawCommand::Text { text, at } => DrawCommandView::Text { text: text@, at: *at },
        }
    }
}

/// The commands as plain values.
pub open spec fn commands_view(commands: Seq<DrawCommand>) -> Seq<DrawCommandView> {
    Seq::new(commands.len(), |i: int| commands[i]@)
}

/// The palette's colour for a lane of a kind.
pub open spec fn spec_lane_color(lane_type: LaneType) -> Colors {
    match lane_type {
        LaneType::Driving => Colors::Road,
        LaneType::Parking => Colors::Parking,
        LaneType::Sidewalk => Colors::Sidewalk,
        LaneType::Biking => Colors::Biking,
    }
}

/// What a lane is filled with: the caller's colour if there is one; else the
/// colour of broken lanes if the lane is marked as broken; else the colour
/// of the lane's kind.
pub open spec fn spec_fill(lane_type: LaneType, probably_broken: bool, chosen: Option<Color>)
    -> Paint {
    match chosen {
        Some(c) => Paint::Custom(c),
        None => if probably_broken {
            Paint::Palette(Colors::Broken)
        } else {
            Paint::Palette(spec_lane_color(lane_type))
        },
    }
}

/// What a lane is filled with.
pub fn fill(lane_type: LaneType, probably_broken: bool, chosen: Option<Color>) -> (p: Paint)
    ensures
        p == spec_fill(lane_type, probably_broken, chosen),
{
    match chosen {
        Some(c) => Paint::Custom(c),
        None => {
            if probably_broken {
                Paint::Palette(Colors::Broken)
            } else {
                Paint::Palette(
                    match lane_type {
                        LaneType::Driving => Colors::Road,
                        LaneType::Parking => Colors::Parking,
                        LaneType::Sidewalk => Colors::Sidewalk,
                        LaneType::Biking => Colors::Biking,
                    },
                )
            }
        },
    }
}

/// One segment of a marking, drawn in the marking's style.
pub open spec fn spec_marking_line(m: MarkingView, i: int) -> DrawCommandView {
    if m.round {
        DrawCommandView::RoundedLine {
            paint: Paint::Palette(m.color),
            thickness: m.thickness,
            line: m.lines[i],
        }
    } else {
        DrawCommandView::Line {
            paint: Paint::Palette(m.color),
            thickness: m.thickness,
            line: m.lines[i],
        }
    }
}

/// The segments of one marking, in order.
pub open spec fn spec_marking_commands(m: MarkingView) -> Seq<DrawCommandView> {
    Seq::new(m.lines.len(), |i: int| spec_marking_line(m, i))
}

/// The segments of all the markings, marking by marking.
pub open spec fn spec_markings_commands(markings: Seq<MarkingView>) -> Seq<DrawCommandView>
    decreases markings.len(),
{
    if markings.len() == 0 {
        Seq::empty()
    } else {
        spec_markings_commands(markings.drop_last()) + spec_marking_commands(markings.last())
    }
}

/// Whether markings show at a zoom.
pub open spec fn spec_shows_markings(opts: RenderOptions, cfg: RenderConfig) -> bool {
    opts.cam_zoom >= cfg.min_zoom_for_markings
}

/// One command of the debug overlay of the centre line: for each segment, the
/// segment itself, a circle at its first point and a larger one at its second.
pub open spec fn spec_debug_segment(pts: Seq<Pt2D>, cfg: RenderConfig, j: int)
    -> DrawCommandView {
    if j % 3 == 0 {
        DrawCommandView::Line {
            paint: Paint::Palette(Colors::Debug),
            thickness: cfg.debug_line_thickness,
            line: segment(pts, j / 3),
        }
    } else if j % 3 == 1 {
        DrawCommandView::Circle {
            paint: Paint::Palette(Colors::BrightDebug),
            center: pts[j / 3],
            radius: cfg.debug_first_radius,
        }
    } else {
        DrawCommandView::Circle {
            paint: Paint::Palette(Colors::BrightDebug),
            center: pts[j / 3 + 1],
            radius: cfg.debug_second_radius,
        }
    }
}

/// The debug overlay: every segment of the centre line with its two
/// circles, then the lane's number at each anchor of its label.
pub open spec fn spec_debug_commands(
    pts: Seq<Pt2D>,
    anchors: Seq<Pt2D>,
    id: LaneID,
    cfg: RenderConfig,
) -> Seq<DrawCommandView> {
    Seq::new((3 * (pts.len() - 1)) as nat, |j: int| spec_debug_segment(pts, cfg, j)) + Seq::new(
        anchors.len(),
        |i: int| DrawCommandView::Text { text: spec_decimal(id.0 as nat), at: anchors[i] },
    )
}

/// All that is drawn for a lane: the filled footprint; the markings, if the
/// zoom shows them; the debug overlay, if it is asked for, whatever the zoom.
pub open spec fn spec_draw(d: DrawLaneView, lane: &Lane, opts: RenderOptions, cfg: RenderConfig)
    -> Seq<DrawCommandView> {
    seq![
        DrawCommandView::Polygon {
            paint: spec_fill(lane.lane_type, lane.probably_broken, opts.color),
            quads: d.polygon,
        },
    ] + (if spec_shows_markings(opts, cfg) {
        spec_markings_commands(d.markings)
    } else {
        Seq::empty()
    }) + (if opts.debug_mode {
        spec_debug_commands(lane.lane_center_pts@, d.draw_id_at, d.id, cfg)
    } else {
        Seq::empty()
    })
}

/// A copy of the quadrilaterals.
pub fn copy_quads(quads: &Vec<Quad>) -> (r: Vec<Quad>)
    ensures
        r@ == quads@,
{
    let mut out: Vec<Quad> = Vec::new();
    let mut i: usize = 0;
    while i < quads.len()
        invariant
            i <= quads.len(),
            out@ == quads@.take(i as int),
        decreases quads.len() - i,
    {
        out.push(quads[i]);
        assert(out@ =~= quads@.take(i + 1));
        i += 1;
    }
    assert(quads@.take(quads@.len() as int) =~= quads@);
    out
}

/// Appends the segments of the markings to `out`, each in its marking's style.
pub fn draw_markings(out: &mut Vec<DrawCommand>, markings: &Vec<Marking>)
    ensures
        commands_view(final(out)@) == commands_view(old(out)@) + spec_markings_commands(
            markings_view(markings@),
        ),
{
    let ghost head = commands_view(out@);
    let ghost all = markings_view(markings@);
    let mut i: usize = 0;
    assert(commands_view(out@) =~= head + spec_markings_commands(all.take(0)));
    while i < markings.len()
        invariant
            i <= markings.len(),
            all == markings_view(markings@),
            commands_view(out@) == head + spec_markings_commands(all.take(i as int)),
        decreases markings.len() - i,
    {
        let m: &Marking = &markings[i];
        let ghost before = commands_view(out@);
        let mut j: usize = 0;
        assert(commands_view(out@) =~= before + spec_marking_commands(m@).take(0));
        while j < m.lines.len()
            invariant
                j <= m.lines.len(),
                commands_view(out@) == before + spec_marking_commands(m@).take(j as int),
            decreases m.lines.len() - j,
        {
            let ghost prev = commands_view(out@);
            if m.round {
                out.push(
                    DrawCommand::RoundedLine {
                        paint: Paint::Palette(m.color),
                        thickness: m.thickness,
                        line: m.lines[j],
                    },
                );
            } else {
                out.push(
                    DrawCommand::Line {
                        paint: Paint::Palette(m.color),
                        thickness: m.thickness,
                        line: m.lines[j],
                    },
                );
            }
            proof {
                assert(commands_view(out@) =~= prev.push(spec_marking_line(m@, j as int)));
                assert(spec_marking_commands(m@).take(j + 1) =~= spec_marking_commands(m@).take(
                    j as int,
                ).push(spec_marking_line(m@, j as int)));
                assert(commands_view(out@) =~= before + spec_marking_commands(m@).take(j + 1));
            }
            j += 1;
        }
        proof {
            assert(spec_marking_commands(m@).take(m.lines@.len() as int) =~= spec_marking_commands(
                m@,
            ));
            assert(all.take(i + 1).drop_last() =~= all.take(i as int));
            assert(all.take(i + 1).last() == m@);
            assert(commands_view(out@) =~= head + spec_markings_commands(all.take(i + 1)));
        }
        i += 1;
    }
    assert(all.take(markings@.len() as int) =~= all);
}

/// Appends the debug overlay of a lane to `out`.
pub fn draw_debug(
    out: &mut Vec<DrawCommand>,
    center: &PolyLine,
    anchors: &Vec<Pt2D>,
    id: LaneID,
    cfg: &RenderConfig,
)
    requires
        center.wf(),
    ensures
        commands_view(final(out)@) == commands_view(old(out)@) + spec_debug_commands(
            center@,
            anchors@,
            id,
            *cfg,
        ),
{
    let ghost head = commands_view(out@);
    let ghost pts = center@;
    let ghost segments = Seq::new(
        (3 * (pts.len() - 1)) as nat,
        |j: int| spec_debug_segment(pts, *cfg, j),
    );
    let lines: Vec<Line> = center.lines();
    let mut i: usize = 0;
    assert(commands_view(out@) =~= head + segments.take(0));
    while i < lines.len()
        invariant
            i <= lines.len(),
            lines@.len() == pts.len() - 1,
            forall|k: int| 0 <= k < lines@.len() ==> lines@[k] == segment(pts, k),
            segments == Seq::new(
                (3 * (pts.len() - 1)) as nat,
                |j: int| spec_debug_segment(pts, *cfg, j),
            ),
            commands_view(out@) == head + segments.take(3 * i),
        decreases lines.len() - i,
    {
        let l: Line = lines[i];
        let ghost prev = commands_view(out@);
        out.push(
            DrawCommand::Line {
                paint: Paint::Palette(Colors::Debug),
                thickness: cfg.debug_line_thickness,
                line: l,
            },
        );
        out.push(
            DrawCommand::Circle {
                paint: Paint::Palette(Colors::BrightDebug),
                center: l.pt1(),
                radius: cfg.debug_first_radius,
            },
        );
        out.push(
            DrawCommand::Circle {
                paint: Paint::Palette(Colors::BrightDebug),
                center: l.pt2(),
                radius: cfg.debug_second_radius,
            },
        );
        proof {
            assert(commands_view(out@) =~= prev.push(segments[3 * i]).push(
                segments[3 * i + 1],
            ).push(segments[3 * i + 2]));
            assert(segments.take(3 * (i + 1)) =~= segments.take(3 * i).push(segments[3 * i]).push(
                segments[3 * i + 1],
            ).push(segments[3 * i + 2]));
            assert(commands_view(out@) =~= head + segments.take(3 * (i + 1)));
        }
        i += 1;
    }
    assert(segments.take(3 * (lines@.len() as int)) =~= segments);
    let ghost middle = commands_view(out@);
    let ghost labels = Seq::new(
        anchors@.len(),
        |k: int| DrawCommandView::Text { text: spec_decimal(id.0 as nat), at: anchors@[k] },
    );
    let mut k: usize = 0;
    assert(commands_view(out@) =~= middle + labels.take(0));
    while k < anchors.len()
        invariant
            k <= anchors.len(),
            labels == Seq::new(
                anchors@.len(),
                |k: int| DrawCommandView::Text { text: spec_decimal(id.0 as nat), at: anchors@[k] },
            ),
            commands_view(out@) == middle + labels.take(k as int),
        decreases anchors.len() - k,
    {
        let ghost prev = commands_view(out@);
        out.push(DrawCommand::Text { text: decimal(id.0 as u64), at: anchors[k] });
        proof {
            assert(commands_view(out@) =~= prev.push(labels[k as int]));
            assert(labels.take(k + 1) =~= labels.take(k as int).push(labels[k as int]));
            assert(commands_view(out@) =~= middle + labels.take(k + 1));
        }
        k += 1;
    }
    assert(labels.take(anchors@.len() as int) =~= labels);
    assert(commands_view(out@) =~= head + spec_debug_commands(pts, anchors@, id, *cfg));
}

impl DrawLane {
    /// Lists what to draw for the lane, in order: the footprint, filled; the
    /// markings, if the zoom is at least the least zoom for markings; and
    /// the debug overlay, if the options ask for it.
    pub fn draw(&self, opts: &RenderOptions, map: &StreetMap, cfg: &RenderConfig) -> (r: Vec<
        DrawCommand,
    >)
        requires
            self.wf(),
            self@.id.0 < map.lanes@.len(),
            opts.debug_mode ==> map.lanes@[self@.id.0 as int].lane_center_pts.wf(),
        ensures
            commands_view(r@) == spec_draw(self@, &map.lanes@[self@.id.0 as int], *opts, *cfg),
    {
        let l: &Lane = map.get_l(self.get_id());
        let mut out: Vec<DrawCommand> = Vec::new();
        out.push(
            DrawCommand::Polygon {
                paint: fill(l.lane_type, l.probably_broken, opts.color),
                quads: copy_quads(self.polygon.quads()),
            },
        );
        let ghost first = commands_view(out@);
        assert(first =~= seq![
            DrawCommandView::Polygon {
                paint: spec_fill(l.lane_type, l.probably_broken, opts.color),
                quads: self@.polygon,
            },
        ]);
        if opts.cam_zoom >= cfg.min_zoom_for_markings {
            draw_markings(&mut out, self.markings());
        }
        let ghost second = commands_view(out@);
        assert(second =~= first + (if spec_shows_markings(*opts, *cfg) {
            spec_markings_commands(self@.markings)
        } else {
            Seq::empty()
        }));
        if opts.debug_mode {
            draw_debug(&mut out, &l.lane_center_pts, self.label_anchors(), self.get_id(), cfg);
        }
        out
    }
}

} // verus!
