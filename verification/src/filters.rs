//! The plan of the frame-transformation chain.
//!
//! The media engine wires decoded frames through a chain of named filters:
//! a buffer source, a format conversion to RGB, a scale to the thumbnail
//! size, a timestamp overlay, and a sink.  The engine consumes the chain as
//! colon-joined `key=value` argument strings; those strings are a textual
//! protocol, so they are assembled here from typed fields, character for
//! character, and the engine itself only executes the finished plan.

use vstd::prelude::*;

use crate::util::Dimensions;
use crate::util::i32_to_string;
use crate::util::spec_decimal;
use crate::util::spec_decimal_signed;
use crate::util::u32_to_string;

verus! {

/// A rational as the engine's argument syntax wants it: `num/den`.
pub open spec fn spec_rational_pair(num: int, den: int) -> Seq<char> {
    spec_decimal_signed(num) + "/"@ + spec_decimal_signed(den)
}

/// A rational in compact form: a zero numerator collapses to `1`, standing
/// for an unknown or square ratio.
pub open spec fn spec_rational_compact(num: int, den: int) -> Seq<char> {
    if num == 0 {
        "1"@
    } else {
        spec_rational_pair(num, den)
    }
}

/// Renders a rational as `num/den`.
pub fn rational_pair_string(num: i32, den: i32) -> (r: String)
    ensures
        r@ == spec_rational_pair(num as int, den as int),
{
    let mut r = i32_to_string(num);
    r.append("/");
    r.append(i32_to_string(den).as_str());
    r
}

/// Renders a rational compactly: `1` when the numerator is zero, else
/// `num/den`.
pub fn format_rational(num: i32, den: i32) -> (r: String)
    ensures
        r@ == spec_rational_compact(num as int, den as int),
{
    if num == 0 {
        String::from_str("1")
    } else {
        rational_pair_string(num, den)
    }
}

/// One named filter of the chain, with its argument string.
#[derive(Debug)]
pub struct FilterNode {
    pub filter: String,
    pub name: String,
    pub args: String,
}

/// The whole planned chain: its nodes and the links between their names.
#[derive(Debug)]
pub struct FilterGraphPlan {
    pub nodes: Vec<FilterNode>,
    pub links: Vec<(String, String)>,
}

/// The links that join a chain of names pairwise, in order.
pub open spec fn spec_chain_pairs(names: Seq<Seq<char>>) -> Seq<(Seq<char>, Seq<char>)> {
    Seq::new(
        if names.len() == 0 {
            0nat
        } else {
            (names.len() - 1) as nat
        },
        |i: int| (names[i], names[i + 1]),
    )
}

/// Anything that can join named filters, output to input.
pub trait LinkableGraph {
    /// The nodes of the graph: filter, name, arguments.
    spec fn graph_nodes(&self) -> Seq<(Seq<char>, Seq<char>, Seq<char>)>;

    /// The links of the graph, as pairs of node names.
    spec fn graph_links(&self) -> Seq<(Seq<char>, Seq<char>)>;

    /// Joins two named filters.
    fn link(&mut self, from: &str, to: &str)
        ensures
            final(self).graph_nodes() == old(self).graph_nodes(),
            final(self).graph_links() == old(self).graph_links().push((from@, to@)),
    ;

    /// Joins a whole chain of named filters, each to the next.
    fn chain_link(&mut self, filters: &[&str])
        ensures
            final(self).graph_nodes() == old(self).graph_nodes(),
            final(self).graph_links() == old(self).graph_links() + spec_chain_pairs(
                filters@.map_values(|f: &str| f@),
            ),
    ;
}

impl FilterGraphPlan {
    /// An empty plan.
    pub fn new() -> (r: Self)
        ensures
            r.graph_nodes() == Seq::<(Seq<char>, Seq<char>, Seq<char>)>::empty(),
            r.graph_links() == Seq::<(Seq<char>, Seq<char>)>::empty(),
    {
        let r = FilterGraphPlan { nodes: Vec::new(), links: Vec::new() };
        proof {
            assert(r.graph_nodes() =~= Seq::<(Seq<char>, Seq<char>, Seq<char>)>::empty());
            assert(r.graph_links() =~= Seq::<(Seq<char>, Seq<char>)>::empty());
        }
        r
    }

    /// Plans one named filter with its argument string.
    pub fn add(&mut self, filter: &str, name: &str, args: String)
        ensures
            final(self).graph_nodes() == old(self).graph_nodes().push((filter@, name@, args@)),
            final(self).graph_links() == old(self).graph_links(),
    {
        self.nodes.push(FilterNode { filter: filter.to_owned(), name: name.to_owned(), args });
        proof {
            assert(self.graph_nodes() =~= old(self).graph_nodes().push((filter@, name@, args@)));
        }
    }
}

impl LinkableGraph for FilterGraphPlan {
    open spec fn graph_nodes(&self) -> Seq<(Seq<char>, Seq<char>, Seq<char>)> {
        self.nodes@.map_values(|n: FilterNode| (n.filter@, n.name@, n.args@))
    }

    open spec fn graph_links(&self) -> Seq<(Seq<char>, Seq<char>)> {
        self.links@.map_values(|l: (String, String)| (l.0@, l.1@))
    }

    fn link(&mut self, from: &str, to: &str) {
        self.links.push((from.to_owned(), to.to_owned()));
        proof {
            assert(self.graph_links() =~= old(self).graph_links().push((from@, to@)));
            assert(self.graph_nodes() =~= old(self).graph_nodes());
        }
    }

    fn chain_link(&mut self, filters: &[&str]) {
        let ghost all = filters@.map_values(|f: &str| f@);
        if filters.len() == 0 {
            proof {
                assert(self.graph_links() =~= old(self).graph_links() + spec_chain_pairs(all));
            }
            return;
        }
        proof {
            assert(self.graph_links() =~= old(self).graph_links() + spec_chain_pairs(
                all.subrange(0, 1),
            ));
        }
        let mut i: usize = 0;
        while i + 1 < filters.len()
            invariant
                0 <= i < filters@.len(),
                all == filters@.map_values(|f: &str| f@),
                self.graph_nodes() == old(self).graph_nodes(),
                self.graph_links() == old(self).graph_links() + spec_chain_pairs(
                    all.subrange(0, i + 1),
                ),
            decreases filters@.len() - i,
        {
            let from = filters[i];
            let to = filters[i + 1];
            self.link(from, to);
            proof {
                assert(self.graph_links() =~= old(self).graph_links() + spec_chain_pairs(
                    all.subrange(0, i + 2),
                ));
            }
            i = i + 1;
        }
        proof {
            assert(all.subrange(0, i + 1) =~= all);
        }
    }
}

/// The arguments of the buffer source: the decoded frames' size, the
/// stream's time base, the sample aspect ratio, and, where known, the frame
/// rate and the pixel format.
pub open spec fn spec_buffer_args(
    w: int,
    h: int,
    tb_num: int,
    tb_den: int,
    sar_num: int,
    sar_den: int,
    frame_rate: Option<(i32, i32)>,
    pix_fmt: Option<&str>,
) -> Seq<char> {
    "width="@ + spec_decimal(w) + ":height="@ + spec_decimal(h) + ":video_size="@ + spec_decimal(w)
        + "x"@ + spec_decimal(h) + ":time_base="@ + spec_rational_pair(tb_num, tb_den) + ":sar="@
        + spec_rational_compact(sar_num, sar_den) + (match frame_rate {
        Some(fr) => ":frame_rate="@ + spec_rational_compact(fr.0 as int, fr.1 as int),
        None => Seq::empty(),
    }) + (match pix_fmt {
        Some(p) => ":pix_fmt="@ + p@,
        None => Seq::empty(),
    })
}

/// The arguments of the timestamp overlay: a readable `HH:MM:SS` burnt into
/// the bottom-right corner, sized relative to the thumbnail height.
pub open spec fn spec_drawtext_args(out_h: int) -> Seq<char> {
    "x=(w-tw)/1.05:y=h-(2*lh):fontcolor=white:fontsize="@ + spec_decimal(out_h / 7)
        + ":box=1:boxcolor=black:boxborderw="@ + spec_decimal(out_h / 45) + ":text=%{pts\\:hms}"@
}

/// The arguments of the scale node: the thumbnail size, re-evaluated per
/// frame, with a fast bilinear filter.
pub open spec fn spec_scale_args(out_w: int, out_h: int) -> Seq<char> {
    "w="@ + spec_decimal(out_w) + ":h="@ + spec_decimal(out_h) + ":eval=frame:flags=fast_bilinear"@
}

fn build_buffer_args(
    width: u32,
    height: u32,
    time_base: (i32, i32),
    sar: (i32, i32),
    frame_rate: Option<(i32, i32)>,
    pix_fmt: Option<&str>,
) -> (r: String)
    ensures
        r@ == spec_buffer_args(
            width as int,
            height as int,
            time_base.0 as int,
            time_base.1 as int,
            sar.0 as int,
            sar.1 as int,
            frame_rate,
            pix_fmt,
        ),
{
    let mut r = String::from_str("width=");
    r.append(u32_to_string(width).as_str());
    r.append(":height=");
    r.append(u32_to_string(height).as_str());
    r.append(":video_size=");
    r.append(u32_to_string(width).as_str());
    r.append("x");
    r.append(u32_to_string(height).as_str());
    r.append(":time_base=");
    r.append(rational_pair_string(time_base.0, time_base.1).as_str());
    r.append(":sar=");
    r.append(format_rational(sar.0, sar.1).as_str());
    if let Some(fr) = frame_rate {
        r.append(":frame_rate=");
        r.append(format_rational(fr.0, fr.1).as_str());
    }
    if let Some(p) = pix_fmt {
        r.append(":pix_fmt=");
        r.append(p);
    }
    proof {
        assert(r@ =~= spec_buffer_args(
            width as int,
            height as int,
            time_base.0 as int,
            time_base.1 as int,
            sar.0 as int,
            sar.1 as int,
            frame_rate,
            pix_fmt,
        ));
    }
    r
}

fn build_drawtext_args(out_h: u32) -> (r: String)
    ensures
        r@ == spec_drawtext_args(out_h as int),
{
    let mut r = String::from_str("x=(w-tw)/1.05:y=h-(2*lh):fontcolor=white:fontsize=");
    r.append(u32_to_string(out_h / 7).as_str());
    r.append(":box=1:boxcolor=black:boxborderw=");
    r.append(u32_to_string(out_h / 45).as_str());
    r.append(":text=%{pts\\:hms}");
    proof {
        assert(r@ =~= spec_drawtext_args(out_h as int));
    }
    r
}

fn build_scale_args(out_w: u32, out_h: u32) -> (r: String)
    ensures
        r@ == spec_scale_args(out_w as int, out_h as int),
{
    let mut r = String::from_str("w=");
    r.append(u32_to_string(out_w).as_str());
    r.append(":h=");
    r.append(u32_to_string(out_h).as_str());
    r.append(":eval=frame:flags=fast_bilinear");
    proof {
        assert(r@ =~= spec_scale_args(out_w as int, out_h as int));
    }
    r
}

/// Plans the whole filter chain for one video: a buffer source fed with the
/// decoder's frame geometry, a conversion to the engine's `rgb24` format, a
/// scale to the thumbnail size, a timestamp overlay, and a sink, linked in
/// that order.
pub fn create_filter_graph(
    width: u32,
    height: u32,
    time_base: (i32, i32),
    sar: (i32, i32),
    frame_rate: Option<(i32, i32)>,
    pix_fmt: Option<&str>,
    out_dims: &Dimensions,
) -> (r: FilterGraphPlan)
    ensures
        r.graph_nodes().len() == 5,
        r.graph_nodes()[0] == (
            "buffer"@,
            "in"@,
            spec_buffer_args(
                width as int,
                height as int,
                time_base.0 as int,
                time_base.1 as int,
                sar.0 as int,
                sar.1 as int,
                frame_rate,
                pix_fmt,
            ),
        ),
        r.graph_nodes()[1] == ("buffersink"@, "out"@, Seq::<char>::empty()),
        r.graph_nodes()[2] == ("format"@, "pix_fmt"@, "rgb24"@),
        r.graph_nodes()[3] == ("drawtext"@, "btc"@, spec_drawtext_args(out_dims.1 as int)),
        r.graph_nodes()[4] == (
            "scale"@,
            "scale"@,
            spec_scale_args(out_dims.0 as int, out_dims.1 as int),
        ),
        r.graph_links() == seq![
            ("in"@, "pix_fmt"@),
            ("pix_fmt"@, "scale"@),
            ("scale"@, "btc"@),
            ("btc"@, "out"@),
        ],
{
    let mut plan = FilterGraphPlan::new();
    plan.add(
        "buffer",
        "in",
        build_buffer_args(width, height, time_base, sar, frame_rate, pix_fmt),
    );
    plan.add("buffersink", "out", String::new());
    plan.add("format", "pix_fmt", String::from_str("rgb24"));
    plan.add("drawtext", "btc", build_drawtext_args(out_dims.height()));
    plan.add("scale", "scale", build_scale_args(out_dims.width(), out_dims.height()));
    let names: [&str; 5] = ["in", "pix_fmt", "scale", "btc", "out"];
    plan.chain_link(names.as_slice());
    proof {
        assert(plan.graph_links() =~= seq![
            ("in"@, "pix_fmt"@),
            ("pix_fmt"@, "scale"@),
            ("scale"@, "btc"@),
            ("btc"@, "out"@),
        ]);
    }
    plan
}

} // verus!
