//! What the pipeline knows about one video, and when to sample it.
//!
//! The media engine probes the container outside the library; the probe
//! arrives here as plain numbers and strings.  Everything the pipeline then
//! decides — which stream to use, what duration to trust, how large the
//! thumbnails are, and at which timestamps to capture — is computed and
//! proved here.

use vstd::prelude::*;

use crate::error::Error;
use crate::files::img_file_name;
use crate::files::spec_filename;
use crate::settings::Settings;
use crate::util::Dimensions;
use crate::util::HasCodedDimensions;
use crate::util::HasDimensions;
use crate::util::HasWidthAndHeight;

verus! {

/// The largest duration, in container time units, that the scheduler
/// accepts; far beyond any real video, it keeps the arithmetic in bounds.
pub const MAX_SCHEDULABLE_DURATION: i64 = 0x00ff_ffff_ffff_ffff;

/// Where sampling starts: the skipped leading fraction of the video.
pub open spec fn spec_start_at(duration: int, skip: int) -> int {
    duration * skip / 100
}

/// The trailing trim: one percent of the video is never sampled.
pub open spec fn spec_back_trim(duration: int) -> int {
    duration / 100
}

/// The spacing between consecutive capture timestamps.
pub open spec fn spec_interval(duration: int, skip: int, n: int) -> int {
    (duration - spec_start_at(duration, skip) - spec_back_trim(duration)) / n
}

/// The `i`-th capture timestamp.
pub open spec fn spec_capture_time(duration: int, skip: int, n: int, i: int) -> int {
    spec_start_at(duration, skip) + i * spec_interval(duration, skip, n)
}

/// Computes the timestamps at which to sample a video: the leading
/// `skip_percent` of the duration and a trailing one percent are set aside,
/// and the remaining span is divided into `num_captures` equal intervals,
/// each contributing its starting point.  A video without a positive
/// duration yields no timestamps at all.
pub fn schedule_captures(duration: i64, num_captures: u32, skip_percent: u32) -> (r: Vec<i64>)
    requires
        skip_percent <= 99,
        duration <= MAX_SCHEDULABLE_DURATION,
    ensures
        r@.len() == (if duration <= 0 || num_captures == 0 {
            0int
        } else {
            num_captures as int
        }),
        forall|i: int|
            0 <= i < r@.len() ==> r@[i] == spec_capture_time(
                duration as int,
                skip_percent as int,
                num_captures as int,
                i,
            ),
        forall|i: int| 0 <= i < r@.len() ==> 0 <= #[trigger] r@[i] < duration,
        forall|i: int, j: int| 0 <= i <= j < r@.len() ==> #[trigger] r@[i] <= #[trigger] r@[j],
{
    if duration <= 0 || num_captures == 0 {
        return Vec::new();
    }
    let n = num_captures as i64;
    let skip = skip_percent as i64;
    proof {
        assert(duration as int * skip as int <= MAX_SCHEDULABLE_DURATION as int * 99)
            by (nonlinear_arith)
            requires
                0 < duration <= MAX_SCHEDULABLE_DURATION,
                0 <= skip <= 99,
        ;
    }
    let start_at = duration * skip / 100;
    let back_trim = duration / 100;
    proof {
        assert(0 <= start_at < duration && 0 <= back_trim && start_at + back_trim <= duration)
            by (nonlinear_arith)
            requires
                0 < duration,
                0 <= skip <= 99,
                start_at == duration * skip / 100,
                back_trim == duration / 100,
        ;
    }
    let span = duration - start_at - back_trim;
    let interval = span / n;
    proof {
        assert(0 <= interval && n * interval <= span) by (nonlinear_arith)
            requires
                0 <= span,
                0 < n,
                interval == span / n,
        ;
    }
    let ghost d = duration as int;
    let ghost sk = skip as int;
    let ghost nn = n as int;
    let mut r: Vec<i64> = Vec::new();
    let mut i: u32 = 0;
    while i < num_captures
        invariant
            0 <= i <= num_captures,
            n == num_captures as i64,
            skip == skip_percent as i64,
            start_at == spec_start_at(d, sk),
            back_trim == spec_back_trim(d),
            span == d - start_at - back_trim,
            interval == spec_interval(d, sk, nn),
            d == duration as int,
            sk == skip_percent as int,
            nn == num_captures as int,
            0 < d <= MAX_SCHEDULABLE_DURATION,
            0 <= start_at < d,
            start_at + back_trim <= d,
            0 <= interval,
            n * interval <= span,
            r@.len() == i,
            forall|k: int| 0 <= k < i ==> r@[k] == spec_capture_time(d, sk, nn, k),
        decreases num_captures - i,
    {
        proof {
            assert(0 <= (i as int) * interval && (i as int) * interval <= n * interval)
                by (nonlinear_arith)
                requires
                    0 <= i as int <= n,
                    0 <= interval,
            ;
        }
        let t = i as i64 * interval + start_at;
        r.push(t);
        i = i + 1;
    }
    proof {
        assert forall|k: int| 0 <= k < r@.len() implies 0 <= #[trigger] r@[k] < d by {
            assert(r@[k] == spec_start_at(d, sk) + k * spec_interval(d, sk, nn));
            let q = interval as int;
            assert(0 <= k * q && k * q <= (nn - 1) * q && (nn - 1) * q == nn * q - q)
                by (nonlinear_arith)
                requires
                    0 <= k <= nn - 1,
                    0 <= q,
            ;
            if q > 0 {
                assert(r@[k] <= start_at + span - q);
            } else {
                assert(k * q == 0) by (nonlinear_arith)
                    requires q == 0,
                ;
            }
        }
        assert forall|a: int, b: int| 0 <= a <= b < r@.len() implies #[trigger] r@[a]
            <= #[trigger] r@[b] by {
            assert(a * interval <= b * interval) by (nonlinear_arith)
                requires
                    0 <= a <= b,
                    0 <= interval,
            ;
        }
    }
    r
}

/// The first positive duration in a list of stream durations.
pub open spec fn spec_first_positive(s: Seq<i64>) -> Option<i64>
    decreases s.len(),
{
    if s.len() == 0 {
        None
    } else if s[0] > 0 {
        Some(s[0])
    } else {
        spec_first_positive(s.drop_first())
    }
}

/// Picks the duration to trust: the primary one when it is positive, else
/// the first positive duration among the other streams, else the primary
/// value unchanged (and the schedule will be empty).
pub fn resolve_duration(primary: i64, others: &Vec<i64>) -> (r: i64)
    ensures
        primary > 0 ==> r == primary,
        primary <= 0 ==> r == (match spec_first_positive(others@) {
            Some(d) => d,
            None => primary,
        }),
{
    if primary > 0 {
        return primary;
    }
    proof {
        assert(others@.skip(0) =~= others@);
    }
    let mut i: usize = 0;
    while i < others.len()
        invariant
            primary <= 0,
            0 <= i <= others@.len(),
            spec_first_positive(others@) == spec_first_positive(others@.skip(i as int)),
        decreases others@.len() - i,
    {
        proof {
            assert(others@.skip(i as int)[0] == others@[i as int]);
        }
        if others[i] > 0 {
            proof {
                assert(spec_first_positive(others@.skip(i as int)) == Some(others@[i as int]));
            }
            return others[i];
        }
        proof {
            assert(others@.skip(i as int).drop_first() =~= others@.skip(i + 1));
        }
        i = i + 1;
    }
    primary
}

/// The width of one thumbnail: the sheet width less a four-pixel margin per
/// column, divided among the columns — clamped down to the source width
/// unless scaling up was asked for.
pub open spec fn spec_capture_width(s: Settings, src: Dimensions) -> int {
    let w = (s.width as int - s.columns as int * 4) / s.columns as int;
    if !s.scale_up && w > src.0 as int {
        src.0 as int
    } else {
        w
    }
}

/// The height of one thumbnail: the capture width scaled by the source's
/// aspect ratio.
pub open spec fn spec_capture_height(s: Settings, src: Dimensions) -> int {
    spec_capture_width(s, src) * src.1 as int / src.0 as int
}

/// Computes the thumbnail size for a source video.  The height follows the
/// source's aspect ratio, saturating at the largest representable value.
pub fn capture_dims(settings: &Settings, src: Dimensions) -> (r: Dimensions)
    requires
        settings.wf(),
        src.0 > 0,
    ensures
        r.0 == spec_capture_width(*settings, src),
        r.1 == (if spec_capture_height(*settings, src) <= u32::MAX {
            spec_capture_height(*settings, src)
        } else {
            u32::MAX as int
        }),
        !settings.scale_up ==> r.0 <= src.0 || r.0 == (settings.width as int - settings.columns
            as int * 4) / settings.columns as int,
{
    let mut capture_width: u32 = (settings.width() - settings.columns() * 4) / settings.columns();
    if !settings.scale_up() && capture_width > src.width() {
        capture_width = src.width();
    }
    let cw64 = capture_width as u64;
    let h64 = src.height() as u64;
    let w64 = src.width() as u64;
    proof {
        assert(cw64 as int * h64 as int <= u64::MAX as int) by (nonlinear_arith)
            requires
                cw64 <= u32::MAX as u64,
                h64 <= u32::MAX as u64,
        ;
    }
    let ch: u64 = cw64 * h64 / w64;
    let capture_height: u32 = if ch <= u32::MAX as u64 {
        ch as u32
    } else {
        u32::MAX
    };
    Dimensions::new(capture_width, capture_height)
}

/// One stream of a probed container, as plain values.
#[derive(Debug)]
pub struct StreamMeta {
    /// The stream's index in the container.
    pub index: usize,
    /// Whether the stream carries video.
    pub is_video: bool,
    /// The stream's own duration, in container time units; zero or negative
    /// when the container does not report one.
    pub duration: i64,
    /// The number of frames the stream reports, possibly zero.
    pub frames: i64,
    /// Display width and height in pixels; video streams only.
    pub width: u32,
    pub height: u32,
    /// Coded width and height: what the decoder actually emits.
    pub coded_width: u32,
    pub coded_height: u32,
    /// The name of the pixel format, as the engine spells it.
    pub pixel_format: String,
    /// The stream's time base, as a rational.
    pub time_base_num: i32,
    pub time_base_den: i32,
    /// The sample aspect ratio, as a rational.
    pub sar_num: i32,
    pub sar_den: i32,
    /// The declared frame rate, if the engine reports one.
    pub frame_rate: Option<(i32, i32)>,
}

impl HasDimensions for StreamMeta {
    fn dimensions(&self) -> Dimensions {
        Dimensions::new(self.width, self.height)
    }
}

impl HasWidthAndHeight for StreamMeta {
    fn width(&self) -> u32 {
        self.width
    }

    fn height(&self) -> u32 {
        self.height
    }
}

impl HasCodedDimensions for StreamMeta {
    fn coded_width(&self) -> u32 {
        self.coded_width
    }

    fn coded_height(&self) -> u32 {
        self.coded_height
    }

    fn coded_dimensions(&self) -> Dimensions {
        Dimensions::new(self.coded_width, self.coded_height)
    }
}

/// A probed container: its own duration and its streams.
#[derive(Debug)]
pub struct ProbeInfo {
    /// The container-level duration, in container time units.
    pub container_duration: i64,
    pub streams: Vec<StreamMeta>,
}

/// Whether some stream before `i` carries video.
pub open spec fn spec_has_video_before(streams: Seq<StreamMeta>, i: int) -> bool {
    exists|j: int| 0 <= j < i && streams[j].is_video
}

/// The position of the first video stream; meaningful only when one exists.
pub open spec fn spec_first_video_index(streams: Seq<StreamMeta>) -> int
    decreases streams.len(),
{
    if streams.len() == 0 {
        0
    } else if streams[0].is_video {
        0
    } else {
        1 + spec_first_video_index(streams.drop_first())
    }
}

proof fn lemma_first_video_index_at(streams: Seq<StreamMeta>, i: int)
    requires
        0 <= i < streams.len(),
        streams[i].is_video,
        !spec_has_video_before(streams, i),
    ensures
        spec_first_video_index(streams) == i,
    decreases streams.len(),
{
    if i > 0 {
        assert(!streams[0].is_video);
        assert(!spec_has_video_before(streams.drop_first(), i - 1)) by {
            if spec_has_video_before(streams.drop_first(), i - 1) {
                let j = choose|j: int| 0 <= j < i - 1 && streams.drop_first()[j].is_video;
                assert(streams[j + 1].is_video);
                assert(spec_has_video_before(streams, i));
            }
        }
        lemma_first_video_index_at(streams.drop_first(), i - 1);
    }
}

/// Picks the stream the pipeline decodes: the first video stream.
pub fn find_best_stream(streams: &Vec<StreamMeta>, path: &str) -> (r: Result<usize, Error>)
    ensures
        match r {
            Ok(i) => i < streams@.len() && streams@[i as int].is_video && !spec_has_video_before(
                streams@,
                i as int,
            ),
            Err(e) => !spec_has_video_before(streams@, streams@.len() as int) && (e matches
                Error::NoVideoStream { path: p } && p@ == path@),
        },
{
    let mut i: usize = 0;
    while i < streams.len()
        invariant
            0 <= i <= streams@.len(),
            !spec_has_video_before(streams@, i as int),
        decreases streams@.len() - i,
    {
        if streams[i].is_video {
            return Ok(i);
        }
        i = i + 1;
    }
    Err(Error::NoVideoStream { path: path.to_owned() })
}

/// What the pipeline keeps of one opened video.
#[derive(Debug)]
pub struct VidInfo {
    /// The path of the video file.
    pub path: String,
    /// The duration to trust, in container time units.
    pub duration: i64,
    /// The name of the source's pixel format.
    pub pixel_format: String,
    /// The source's display size.
    pub dimensions: Dimensions,
    /// The size of one thumbnail.
    pub capture_dimensions: Dimensions,
    /// The frame spacing the stream itself suggests.
    pub interval: i64,
    /// The index of the selected video stream.
    pub video_stream_idx: usize,
}

impl VidInfo {
    /// Digests a probe into what the pipeline keeps: selects the first video
    /// stream, resolves the duration (falling back to any stream with a
    /// positive one), and fixes the thumbnail size.  The digest succeeds for
    /// every probe but the two it must refuse: a container without a video
    /// stream, or one whose first video stream reports a zero width.
    pub fn new(settings: &Settings, path: &str, probe: &ProbeInfo) -> (r: Result<Self, Error>)
        requires
            settings.wf(),
        ensures
            r is Err <==> (!spec_has_video_before(probe.streams@, probe.streams@.len() as int)
                || probe.streams@[spec_first_video_index(probe.streams@)].width == 0),
            match r {
                Ok(v) => {
                    &&& v.video_stream_idx == spec_first_video_index(probe.streams@)
                    &&& v.video_stream_idx < probe.streams@.len()
                    &&& probe.streams@[v.video_stream_idx as int].is_video
                    &&& !spec_has_video_before(probe.streams@, v.video_stream_idx as int)
                    &&& v.path@ == path@
                    &&& ({
                        let s = probe.streams@[v.video_stream_idx as int];
                        &&& s.width > 0
                        &&& v.dimensions == Dimensions(s.width, s.height)
                        &&& v.pixel_format@ == s.pixel_format@
                        &&& v.capture_dimensions.0 == spec_capture_width(*settings, v.dimensions)
                        &&& v.capture_dimensions.1 == (if spec_capture_height(
                            *settings,
                            v.dimensions,
                        ) <= u32::MAX {
                            spec_capture_height(*settings, v.dimensions)
                        } else {
                            u32::MAX as int
                        })
                        &&& s.frames >= 0 ==> v.interval == s.frames / ((settings.columns
                            * settings.rows + 1) as i64)
                        &&& s.frames < 0 ==> v.interval == -((-(s.frames as int)) / ((
                        settings.columns * settings.rows + 1) as int))
                        &&& v.duration == (if probe.container_duration > 0 {
                            probe.container_duration
                        } else {
                            match spec_first_positive(
                                probe.streams@.map_values(|m: StreamMeta| m.duration),
                            ) {
                                Some(d) => d,
                                None => probe.container_duration,
                            }
                        })
                    })
                },
                Err(e) => match e {
                    Error::NoVideoStream { path: p } => p@ == path@ && !spec_has_video_before(
                        probe.streams@,
                        probe.streams@.len() as int,
                    ),
                    Error::CorruptStream { path: p } => {
                        &&& p@ == path@
                        &&& spec_has_video_before(probe.streams@, probe.streams@.len() as int)
                        &&& probe.streams@[spec_first_video_index(probe.streams@)].width == 0
                    },
                    _ => false,
                },
            },
    {
        let stream_idx = match find_best_stream(&probe.streams, path) {
            Ok(i) => i,
            Err(e) => {
                return Err(e);
            },
        };
        proof {
            lemma_first_video_index_at(probe.streams@, stream_idx as int);
            assert(spec_has_video_before(probe.streams@, probe.streams@.len() as int));
        }
        let stream = &probe.streams[stream_idx];
        if stream.width == 0 {
            return Err(Error::CorruptStream { path: path.to_owned() });
        }
        let dimensions = Dimensions::new(stream.width, stream.height);
        let capture_dimensions = capture_dims(settings, dimensions);
        let mut durations: Vec<i64> = Vec::new();
        let mut k: usize = 0;
        while k < probe.streams.len()
            invariant
                0 <= k <= probe.streams@.len(),
                durations@ =~= probe.streams@.subrange(0, k as int).map_values(
                    |m: StreamMeta| m.duration,
                ),
            decreases probe.streams@.len() - k,
        {
            proof {
                assert(probe.streams@.subrange(0, k + 1).map_values(|m: StreamMeta| m.duration)
                    =~= probe.streams@.subrange(0, k as int).map_values(
                    |m: StreamMeta| m.duration,
                ).push(probe.streams@[k as int].duration));
            }
            durations.push(probe.streams[k].duration);
            k = k + 1;
        }
        proof {
            assert(probe.streams@.subrange(0, probe.streams@.len() as int) =~= probe.streams@);
        }
        let duration = resolve_duration(probe.container_duration, &durations);
        let num_captures = settings.num_captures();
        Ok(
            VidInfo {
                path: path.to_owned(),
                duration,
                pixel_format: stream.pixel_format.clone(),
                dimensions,
                capture_dimensions,
                interval: stream.frames / (num_captures as i64),
                video_stream_idx: stream_idx,
            },
        )
    }

    /// The timestamps at which this video is sampled.
    pub fn generate_capture_times(&self, settings: &Settings) -> (r: Vec<i64>)
        requires
            settings.wf(),
            self.duration <= MAX_SCHEDULABLE_DURATION,
        ensures
            r@.len() == (if self.duration <= 0 {
                0int
            } else {
                settings.columns * settings.rows + 1
            }),
            forall|i: int|
                0 <= i < r@.len() ==> r@[i] == spec_capture_time(
                    self.duration as int,
                    settings.skip as int,
                    settings.columns * settings.rows + 1,
                    i,
                ),
            forall|i: int| 0 <= i < r@.len() ==> 0 <= #[trigger] r@[i] < self.duration,
            forall|i: int, j: int| 0 <= i <= j < r@.len() ==> #[trigger] r@[i] <= #[trigger] r@[j],
    {
        schedule_captures(self.duration, settings.num_captures(), settings.skip())
    }

    /// The path to the original video file.
    pub fn path(&self) -> (r: &String)
        ensures
            r == &self.path,
    {
        &self.path
    }

    /// The name of the source's pixel format.
    pub fn pixel_format(&self) -> (r: &String)
        ensures
            r == &self.pixel_format,
    {
        &self.pixel_format
    }

    pub fn capture_dimensions(&self) -> (r: &Dimensions)
        ensures
            r == &self.capture_dimensions,
    {
        &self.capture_dimensions
    }

    pub fn width(&self) -> (r: u32)
        ensures
            r == self.dimensions.0,
    {
        self.dimensions.width()
    }

    pub fn height(&self) -> (r: u32)
        ensures
            r == self.dimensions.1,
    {
        self.dimensions.height()
    }

    /// The name of this video's contact sheet file.
    pub fn img_file_name(&self) -> (r: String)
        ensures
            r@ == spec_filename(self.path@) + ".jpg"@,
    {
        img_file_name(self.path.as_str())
    }

    /// Whether a demuxed packet belongs to the selected video stream; only
    /// those are fed to the decoder.
    pub fn packet_wanted(&self, stream_index: usize) -> (r: bool)
        ensures
            r == (stream_index == self.video_stream_idx),
    {
        stream_index == self.video_stream_idx
    }

    /// The seek window for a capture: from the wanted timestamp up to the end
    /// of the video.
    pub fn seek_window(&self, timestamp: i64) -> (r: (i64, i64))
        ensures
            r.0 == timestamp,
            r.1 == self.duration,
    {
        (timestamp, self.duration)
    }

    /// The true size of a delivered frame: the filter chain can pad its
    /// output, so the width is read back from the row stride — three bytes
    /// per pixel — rather than trusted from the request.
    pub fn get_actual_size(&self, stride: usize, height: u32) -> (r: Dimensions)
        requires
            stride / 3 <= u32::MAX,
        ensures
            r.0 == stride / 3,
            r.1 == height,
    {
        Dimensions::new((stride / 3) as u32, height)
    }
}

/// Whether the decode loop must go on after feeding one packet: it stops
/// only once a packet was both accepted and yielded a decoded frame.
pub fn keep_decoding(send_ok: bool, receive_ok: bool) -> (r: bool)
    ensures
        r == !(send_ok && receive_ok),
{
    !(send_ok && receive_ok)
}

} // verus!
