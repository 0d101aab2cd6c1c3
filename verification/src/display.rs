//! Shared data model for the display modes: colors, markers, datasets,
//! axis descriptors and the graph configuration.

pub mod oscilloscope;
pub mod spectroscope;
pub mod vectorscope;

use vstd::prelude::*;

verus! {

/// Amplitudes are fixed-point integers in milli-units: 1000 is one.
pub const MILLI_ONE: i64 = 1000;

/// Largest magnitude, in milli-units, that a sample handed to the library
/// may have. Keeps coordinate arithmetic inside `i64`.
pub const MAX_SAMPLE_MILLI: i64 = 1_000_000_000_000;

/// Largest channel length the library accepts in one frame. Keeps the
/// x-coordinates, which are sample indices scaled to milli-units, inside
/// `i64`.
pub const MAX_FRAME_LEN: usize = 100_000_000;

/// Which chart axis a query is about.
pub enum Dimension {
    X,
    Y,
}

#[derive(Clone, Copy, PartialEq, Eq, Structural, Debug)]
pub enum Color {
    Red,
    Yellow,
    Green,
    Magenta,
    Cyan,
    DarkGray,
    White,
}

#[derive(Clone, Copy, PartialEq, Eq, Structural, Debug)]
pub enum Marker {
    Dot,
    Braille,
}

#[derive(Clone, Copy, PartialEq, Eq, Structural, Debug)]
pub enum GraphType {
    Line,
    Scatter,
}

/// Label attached to a dataset; the renderer turns it into text.
#[derive(Clone, Copy, PartialEq, Eq, Structural, Debug)]
pub enum DatasetLabel {
    Left,
    Right,
    Channel(usize),
    Trigger,
}

/// Title of an axis; the renderer turns it into text.
#[derive(Clone, Copy, PartialEq, Eq, Structural, Debug)]
pub enum AxisLabel {
    Time,
    Amplitude,
    LeftChannel,
    RightChannel,
    Frequency,
    Level,
}

/// Axis descriptor: an optional title and numeric bounds in milli-units
/// of the plotted coordinate space.
#[derive(Clone, Copy, PartialEq, Eq, Debug)]
pub struct AxisSpec {
    pub label: Option<AxisLabel>,
    pub bounds: (i64, i64),
}

/// One named, colored series of points, built fresh every frame.
/// Coordinates are milli-units of the axis coordinate space.
pub struct DataSet {
    pub name: Option<DatasetLabel>,
    pub data: Vec<(i64, i64)>,
    pub marker_type: Marker,
    pub graph_type: GraphType,
    pub color: Color,
}

/// Mathematical model of a `DataSet`.
#[verifier::ext_equal]
pub ghost struct DataSetView {
    pub name: Option<DatasetLabel>,
    pub data: Seq<(i64, i64)>,
    pub marker_type: Marker,
    pub graph_type: GraphType,
    pub color: Color,
}

impl View for DataSet {
    type V = DataSetView;

    open spec fn view(&self) -> DataSetView {
        DataSetView {
            name: self.name,
            data: self.data@,
            marker_type: self.marker_type,
            graph_type: self.graph_type,
            color: self.color,
        }
    }
}

/// The models of a list of datasets.
pub open spec fn views(s: Seq<DataSet>) -> Seq<DataSetView> {
    s.map_values(|d: DataSet| d@)
}

/// The mathematical model of a sample matrix: one sequence per channel.
pub open spec fn mat_view(m: Seq<Vec<i64>>) -> Seq<Seq<i64>> {
    m.map_values(|v: Vec<i64>| v@)
}

impl DataSet {
    pub fn new(
        name: Option<DatasetLabel>,
        data: Vec<(i64, i64)>,
        marker_type: Marker,
        graph_type: GraphType,
        color: Color,
    ) -> (r: Self)
        ensures
            r@ == (DataSetView { name, data: data@, marker_type, graph_type, color }),
    {
        DataSet { name, data, marker_type, graph_type, color }
    }
}

/// The label the oscilloscope and spectroscope give channel `n`: the
/// first two channels are the left and right stereo channels.
pub open spec fn channel_label(n: int) -> DatasetLabel {
    if n == 0 {
        DatasetLabel::Left
    } else if n == 1 {
        DatasetLabel::Right
    } else {
        DatasetLabel::Channel(n as usize)
    }
}

/// Labels channel `index` as left, right, or by its number.
pub fn lr_channel_name(index: usize) -> (r: DatasetLabel)
    ensures
        r == channel_label(index as int),
{
    if index == 0 {
        DatasetLabel::Left
    } else if index == 1 {
        DatasetLabel::Right
    } else {
        DatasetLabel::Channel(index)
    }
}

/// The mode status the header line shows; the renderer turns it into
/// text.
#[derive(Clone, Copy, PartialEq, Eq, Structural, Debug)]
pub enum HeaderInfo {
    Oscilloscope { triggering: bool, falling_edge: bool, threshold: i64, depth: u32 },
    Vectorscope,
    Spectroscope { average: u32, window: bool, sampling_rate: u32, buffer_size: u32 },
}

/// Mutable, shared, per-frame-read state of the graph.
pub struct GraphConfig {
    pub pause: bool,
    /// Visible window length, kept within `[0, 2 * width]`.
    pub samples: u32,
    pub sampling_rate: u32,
    /// Vertical amplitude scale in milli-units, kept within `[0, 10000]`.
    pub scale: i64,
    /// Native buffer width of the source.
    pub width: u32,
    pub scatter: bool,
    pub references: bool,
    pub show_ui: bool,
    pub marker_type: Marker,
    pub palette: Vec<Color>,
    pub labels_color: Color,
    pub axis_color: Color,
}

/// Color of channel `index`, cycling through the palette.
pub open spec fn spec_palette(palette: Seq<Color>, index: int) -> Color {
    if palette.len() == 0 {
        Color::White
    } else {
        palette[index % palette.len() as int]
    }
}

impl GraphConfig {
    /// The configuration invariant: the buffer width is positive and
    /// bounded, `samples` never leaves `[0, 2 * width]`, and the scale
    /// is a non-negative milli-value of at most ten.
    pub open spec fn wf(&self) -> bool {
        &&& 1 <= self.width <= 1_000_000_000
        &&& self.samples <= 2 * self.width
        &&& 0 <= self.scale <= 10_000
    }

    pub fn palette(&self, index: usize) -> (c: Color)
        ensures
            c == spec_palette(self.palette@, index as int),
    {
        if self.palette.len() == 0 {
            Color::White
        } else {
            self.palette[index % self.palette.len()]
        }
    }
}

} // verus!
