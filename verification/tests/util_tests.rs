use mk_screens::filters::create_filter_graph;
use mk_screens::filters::format_rational;
use mk_screens::filters::FilterGraphPlan;
use mk_screens::filters::LinkableGraph;
use mk_screens::screencaps::display_name;
use mk_screens::settings::Cli;
use mk_screens::settings::FileConfig;
use mk_screens::settings::Settings;
use mk_screens::util::envvar_to_bool;
use mk_screens::util::i32_to_string;
use mk_screens::util::safe_string_truncate;
use mk_screens::util::u32_to_string;
use mk_screens::util::Dimensions;

fn empty_file_config() -> FileConfig {
    FileConfig {
        keep_files: None,
        force: None,
        unwrap_errors: None,
        verbose: None,
        scale_up: None,
        synchronous: None,
        fix_times: None,
        allow_links: None,
        save_failures_to_ignore: None,
        width: None,
        columns: None,
        rows: None,
        skip: None,
        threads: None,
        out_dir: None,
    }
}

fn empty_cli() -> Cli {
    Cli {
        keep_files: false,
        force: false,
        unwrap_errors: false,
        verbose: false,
        scale_up: false,
        synchronous: false,
        fix_times: false,
        allow_links: false,
        save_failures_to_ignore: false,
        width: None,
        columns: None,
        rows: None,
        skip: None,
        threads: None,
        config: None,
        out_dir: None,
        input: vec![String::from(".")],
    }
}

#[test]
fn test_envvar_to_bool() {
    assert!(envvar_to_bool(&Some(String::from("1"))));
    assert!(envvar_to_bool(&Some(String::from("2"))));
    assert!(!envvar_to_bool(&Some(String::from("0"))));
    assert!(!envvar_to_bool(&Some(String::from(""))));
    assert!(!envvar_to_bool(&Some(String::from("bad-input"))));
    assert!(!envvar_to_bool(&None));
    assert!(envvar_to_bool(&Some(String::from("+1"))));
    assert!(!envvar_to_bool(&Some(String::from("+"))));
    assert!(!envvar_to_bool(&Some(String::from("-1"))));
}

#[test]
fn test_u32_to_string() {
    assert_eq!(u32_to_string(0), "0");
    assert_eq!(u32_to_string(42), "42");
    assert_eq!(u32_to_string(1234567890), "1234567890");
}

#[test]
fn test_i32_to_string() {
    assert_eq!(i32_to_string(-25), "-25");
    assert_eq!(i32_to_string(7), "7");
    assert_eq!(i32_to_string(i32::MIN), "-2147483648");
}

#[test]
fn test_format_rational() {
    assert_eq!(format_rational(0, 1), "1");
    assert_eq!(format_rational(25, 1), "25/1");
    assert_eq!(format_rational(-1, 30), "-1/30");
}

#[test]
fn test_dimensions() {
    let d = Dimensions::new(1920, 1080);
    assert_eq!(d.width(), 1920);
    assert_eq!(d.height(), 1080);
    assert_eq!(d.area(), 2_073_600);
    assert_eq!(d.as_tuple(), (1920, 1080));
    assert_eq!(d, Dimensions(1920, 1080));
}

#[test]
fn test_safe_string_truncate() {
    assert_eq!(safe_string_truncate("hello world", 5), "hello");
    assert_eq!(safe_string_truncate("hi", 5), "hi");
    assert_eq!(safe_string_truncate("abc", 0), "");
}

#[test]
fn test_display_name_short_stays() {
    assert_eq!(display_name("movie.mkv"), "movie.mkv");
}

#[test]
fn test_display_name_long_is_shortened() {
    let long: String = std::iter::repeat('a').take(100).collect();
    let shown = display_name(&long);
    assert_eq!(shown.len(), 83);
    assert!(shown.ends_with("..."));
}

#[test]
fn test_filter_graph_plan() {
    let plan = create_filter_graph(
        1920,
        1080,
        (1, 25),
        (0, 1),
        Some((25, 1)),
        Some("yuv420p"),
        &Dimensions(316, 178),
    );
    assert_eq!(plan.nodes.len(), 5);
    assert_eq!(plan.nodes[0].filter, "buffer");
    assert_eq!(plan.nodes[0].name, "in");
    assert_eq!(
        plan.nodes[0].args,
        "width=1920:height=1080:video_size=1920x1080:time_base=1/25:sar=1:frame_rate=25/1:pix_fmt=yuv420p"
    );
    assert_eq!(plan.nodes[1].filter, "buffersink");
    assert_eq!(plan.nodes[1].name, "out");
    assert_eq!(plan.nodes[1].args, "");
    assert_eq!(plan.nodes[2].filter, "format");
    assert_eq!(plan.nodes[2].args, "rgb24");
    assert_eq!(plan.nodes[3].filter, "drawtext");
    assert_eq!(
        plan.nodes[3].args,
        "x=(w-tw)/1.05:y=h-(2*lh):fontcolor=white:fontsize=25:box=1:boxcolor=black:boxborderw=3:text=%{pts\\:hms}"
    );
    assert_eq!(plan.nodes[4].filter, "scale");
    assert_eq!(plan.nodes[4].args, "w=316:h=178:eval=frame:flags=fast_bilinear");
    let links: Vec<(String, String)> = plan.links.clone();
    let expected = vec![
        (String::from("in"), String::from("pix_fmt")),
        (String::from("pix_fmt"), String::from("scale")),
        (String::from("scale"), String::from("btc")),
        (String::from("btc"), String::from("out")),
    ];
    assert_eq!(links, expected);
}

#[test]
fn test_filter_graph_without_frame_rate() {
    let plan = create_filter_graph(640, 480, (1, 1000), (4, 3), None, None, &Dimensions(160, 120));
    assert_eq!(
        plan.nodes[0].args,
        "width=640:height=480:video_size=640x480:time_base=1/1000:sar=4/3"
    );
}

#[test]
fn test_chain_link_pairs() {
    let mut plan = FilterGraphPlan::new();
    plan.add("buffer", "a", String::new());
    plan.chain_link(&["a", "b", "c"]);
    assert_eq!(plan.links.len(), 2);
    assert_eq!(plan.links[0], (String::from("a"), String::from("b")));
    assert_eq!(plan.links[1], (String::from("b"), String::from("c")));
}

#[test]
fn test_settings_layering() {
    let mut file1 = empty_file_config();
    file1.columns = Some(10);
    file1.skip = Some(8);
    file1.keep_files = Some(true);
    let mut file2 = empty_file_config();
    file2.columns = Some(6);
    file2.out_dir = Some(String::from("sheets"));
    let mut cli = empty_cli();
    cli.rows = Some(4);
    cli.force = true;
    let s = Settings::load(&cli, &vec![file1, file2]);
    // The later file wins, the command line wins over both, defaults fill the rest.
    assert_eq!(s.columns(), 6);
    assert_eq!(s.rows(), 4);
    assert_eq!(s.skip(), 8);
    assert_eq!(s.out_dir(), "sheets");
    assert_eq!(s.width(), 3840);
    assert!(s.keep_files());
    assert!(s.force());
    assert!(!s.verbose());
    assert_eq!(s.input(), &vec![String::from(".")]);
}
