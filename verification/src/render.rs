//! The renderer's side: what a frame shows, how the screen is divided, and
//! what an input event asks for.

use vstd::prelude::*;
use crate::chart::{
    chart_error,
    make_history_chart,
    prepare_chart_data,
    ChartData,
    HistoryChart,
    AXIS_LABELS,
};
use crate::model::{Accent, AdGuardFilteringStatus, TickResult, ValidationError};
use crate::panels::{
    make_filters_list,
    make_gauge,
    make_list,
    render_status_paragraph,
    FilterList,
    Gauge,
    RankedList,
    StatusPanel,
};
use crate::table::{all_readable, make_query_table, Instant, QueryTable};

verus! {

/// An input event, as far as the dashboard tells events apart.
#[derive(Clone, Copy, Debug, PartialEq, Eq, Structural)]
pub enum InputEvent {
    /// A character key. `control` says that the control key, and no other
    /// modifier, was held with it.
    Key { character: char, control: bool },
    /// The terminal changed its size.
    Resize,
    /// Anything else.
    Other,
}

/// What an input event asks for.
#[derive(Clone, Copy, Debug, PartialEq, Eq, Structural)]
pub enum InputKind {
    Quit,
    Resize,
    Ignored,
}

/// The kind of an input event: `q`, `Q` and control-c quit.
pub open spec fn input_kind_of(event: InputEvent) -> InputKind {
    match event {
        InputEvent::Key { character, control } => if character == 'q' || character == 'Q' || (
        character == 'c' && control) {
            InputKind::Quit
        } else {
            InputKind::Ignored
        },
        InputEvent::Resize => InputKind::Resize,
        InputEvent::Other => InputKind::Ignored,
    }
}

/// Tells what an input event asks for.
pub fn classify_input(event: InputEvent) -> (kind: InputKind)
    ensures
        kind == input_kind_of(event),
{
    match event {
        InputEvent::Key { character, control } => if character == 'q' || character == 'Q' || (
        character == 'c' && control) {
            InputKind::Quit
        } else {
            InputKind::Ignored
        },
        InputEvent::Resize => InputKind::Resize,
        InputEvent::Other => InputKind::Ignored,
    }
}

/// What the renderer does after it has drawn a frame and looked for input.
#[derive(Clone, Copy, Debug, PartialEq, Eq, Structural)]
pub enum RendererAction {
    /// Go on with the next frame.
    Continue,
    /// Raise the shutdown signal and leave the loop.
    RaiseShutdownAndLeave,
    /// Leave the loop; the signal is raised already.
    Leave,
}

/// The renderer's decision: it leaves when the shutdown signal is raised or
/// the input asks to quit, and in the second case it raises the signal
/// itself.
pub open spec fn renderer_action_of(shutdown_raised: bool, input: Option<InputEvent>)
    -> RendererAction {
    if shutdown_raised {
        RendererAction::Leave
    } else {
        match input {
            Some(event) => if input_kind_of(event) == InputKind::Quit {
                RendererAction::RaiseShutdownAndLeave
            } else {
                RendererAction::Continue
            },
            None => RendererAction::Continue,
        }
    }
}

/// Decides how the renderer goes on after a frame. `input` is the event that
/// arrived within the polling time, if one did.
pub fn renderer_step(shutdown_raised: bool, input: Option<InputEvent>) -> (action: RendererAction)
    ensures
        action == renderer_action_of(shutdown_raised, input),
{
    if shutdown_raised {
        return RendererAction::Leave;
    }
    match input {
        Some(event) => match classify_input(event) {
            InputKind::Quit => RendererAction::RaiseShutdownAndLeave,
            _ => RendererAction::Continue,
        },
        None => RendererAction::Continue,
    }
}

/// The result that the next frame shows: the one that just arrived, or the
/// last one known where none did.
pub fn latest_tick(known: Option<TickResult>, arrived: Option<TickResult>) -> (latest: Option<
    TickResult,
>)
    ensures
        latest == if arrived is Some {
            arrived
        } else {
            known
        },
{
    match arrived {
        Some(tick) => Some(tick),
        None => known,
    }
}

/// The height above which the screen has room for the lists at the bottom.
pub const TALL_SCREEN: u16 = 42;

/// The share of the top band that the status panel and the gauge take, in
/// percent; the chart takes the rest.
pub const SIDE_PERCENT: u16 = 30;

/// The rows of the gauge below the status panel.
pub const GAUGE_ROWS: u16 = 3;

/// The number of lists in the bottom band, which share it evenly.
pub const BOTTOM_LISTS: u16 = 4;

/// The time that the renderer waits for input after a frame, in
/// milliseconds.
pub const INPUT_POLL_MILLIS: u64 = 100;

/// How the screen is divided from top to bottom: the share of the top band
/// and of the bottom band in percent; the table takes what is left.
#[derive(Clone, Copy, Debug, PartialEq, Eq, Structural)]
pub struct ScreenLayout {
    pub top_percent: u16,
    pub bottom_percent: u16,
    /// Whether the lists at the bottom are shown.
    pub show_lists: bool,
}

/// The layout of a screen of `height` rows.
pub open spec fn layout_of(height: u16) -> ScreenLayout {
    if height > TALL_SCREEN {
        ScreenLayout { top_percent: 30, bottom_percent: 20, show_lists: true }
    } else {
        ScreenLayout { top_percent: 30, bottom_percent: 0, show_lists: false }
    }
}

/// Divides a screen of `height` rows.
pub fn screen_layout(height: u16) -> (layout: ScreenLayout)
    ensures
        layout == layout_of(height),
{
    if height > TALL_SCREEN {
        ScreenLayout { top_percent: 30, bottom_percent: 20, show_lists: true }
    } else {
        ScreenLayout { top_percent: 30, bottom_percent: 0, show_lists: false }
    }
}

/// All that one frame shows.
#[derive(Clone, Debug, PartialEq, Eq)]
pub struct Frame {
    pub layout: ScreenLayout,
    pub gauge: Gauge,
    pub table: QueryTable,
    pub series: ChartData,
    pub chart: HistoryChart,
    pub status: StatusPanel,
    pub filters: FilterList,
    pub top_queried_domains: RankedList,
    pub top_blocked_domains: RankedList,
    pub top_clients: RankedList,
}

/// Why a result gives no frame, if it gives none: its statistics give no
/// chart, or the elapsed time of a query cannot be read.
pub open spec fn frame_error(tick: TickResult) -> Option<ValidationError> {
    if chart_error(tick.stats) is Some {
        chart_error(tick.stats)
    } else if !all_readable(tick.queries@) {
        Some(ValidationError::BadElapsed)
    } else {
        None
    }
}

/// Builds the frame that shows `tick` and the filters on a screen of `width`
/// columns and `height` rows at the time `now`.
pub fn build_frame(
    tick: &TickResult,
    filters: &AdGuardFilteringStatus,
    width: u16,
    height: u16,
    now: Instant,
) -> (frame: Result<Frame, ValidationError>)
    ensures
        match frame {
            Ok(frame) => {
                &&& frame_error(*tick) is None
                &&& frame.layout == layout_of(height)
                &&& frame.gauge.shows(tick.stats)
                &&& frame.status.shows(tick.status, tick.stats)
                &&& frame.filters.shows(filters.filters@, width)
                &&& frame.top_queried_domains.shows(
                    "Top Queried Domains"@,
                    tick.stats.top_queried_domains@,
                    Accent::Green,
                    width,
                )
                &&& frame.top_blocked_domains.shows(
                    "Top Blocked Domains"@,
                    tick.stats.top_blocked_domains@,
                    Accent::Red,
                    width,
                )
                &&& frame.top_clients.shows(
                    "Top Clients"@,
                    tick.stats.top_clients@,
                    Accent::Cyan,
                    width,
                )
                &&& frame.table.shows(tick.queries@, width, now)
                &&& frame.series.shows(tick.stats)
                &&& frame.chart.frames(frame.series)
                &&& frame.chart.x_bound == tick.stats.dns_queries@.len()
                &&& frame.chart.x_labels@[AXIS_LABELS - 1]@ == "Today"@
            },
            Err(error) => frame_error(*tick) == Some(error),
        },
{
    let series = match prepare_chart_data(&tick.stats) {
        Ok(series) => series,
        Err(error) => {
            return Err(error);
        },
    };
    let table = match make_query_table(tick.queries.as_slice(), width, now) {
        Ok(table) => table,
        Err(error) => {
            return Err(error);
        },
    };
    let chart = make_history_chart(&series);
    Ok(
        Frame {
            layout: screen_layout(height),
            gauge: make_gauge(&tick.stats),
            table,
            series,
            chart,
            status: render_status_paragraph(&tick.status, &tick.stats),
            filters: make_filters_list(filters.filters.as_slice(), width),
            top_queried_domains: make_list(
                "Top Queried Domains",
                tick.stats.top_queried_domains.as_slice(),
                Accent::Green,
                width,
            ),
            top_blocked_domains: make_list(
                "Top Blocked Domains",
                tick.stats.top_blocked_domains.as_slice(),
                Accent::Red,
                width,
            ),
            top_clients: make_list(
                "Top Clients",
                tick.stats.top_clients.as_slice(),
                Accent::Cyan,
                width,
            ),
        },
    )
}

} // verus!
