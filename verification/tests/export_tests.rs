use termarium::app::ViewMode;
use termarium::export::{
    color_css, color_rgb, cube_color, default_output_name, escape_xml, ffmpeg_install_hint,
    expand_home, frame_file_name, indexed_color, max_recording_secs, output_file_name,
    resolve_output_path, slug, video_command_args, CellColor, ExportFormat, ExportJob,
    RecordingState,
    ExportSize, HostOs,
};

#[test]
fn sizes_cycle_in_both_directions() {
    assert_eq!(ExportSize::Standard.next(true), ExportSize::Wide);
    assert_eq!(ExportSize::Standard.next(false), ExportSize::LargeSquare);
    assert_eq!(ExportSize::LargeSquare.next(true), ExportSize::Standard);
    let mut size = ExportSize::Tall;
    for _ in 0..6 {
        size = size.next(true);
    }
    assert_eq!(size, ExportSize::Tall);
    for size in ExportSize::all() {
        assert_eq!(size.next(true).next(false), size);
    }
}

#[test]
fn size_pixels_follow_the_format() {
    assert_eq!(ExportSize::Standard.label(), "square");
    assert_eq!(ExportSize::UltraWide.label(), "cinema");
    assert_eq!(ExportSize::Standard.terminal_size(), (160, 80));
    assert_eq!(ExportSize::Wide.output_pixels(ExportFormat::Png), (2400, 1350));
    assert_eq!(ExportSize::Wide.output_pixels(ExportFormat::Gif), (1080, 608));
    assert_eq!(ExportSize::Wide.output_pixels(ExportFormat::Webm), (1280, 720));
    assert_eq!(ExportSize::LargeSquare.gif_pixels(), (1080, 1080));
    assert_eq!(ExportSize::Tall.animation_pixels(), (608, 1080));
    assert_eq!(ExportSize::Portrait.image_pixels(), (1350, 2400));
}

#[test]
fn formats_cycle_and_describe_themselves() {
    assert_eq!(ExportFormat::Png.next(true), ExportFormat::Svg);
    assert_eq!(ExportFormat::Png.next(false), ExportFormat::Webm);
    assert_eq!(ExportFormat::Webm.next(true), ExportFormat::Png);
    for format in ExportFormat::all() {
        assert_eq!(format.next(false).next(true), format);
    }
    assert_eq!(ExportFormat::Webm.extension(), "webm");
    assert_eq!(ExportFormat::Webm.label(), "WebM");
    assert!(ExportFormat::Svg.is_image());
    assert!(!ExportFormat::Gif.is_image());
    assert!(ExportFormat::Mp4.needs_ffmpeg());
    assert!(!ExportFormat::Gif.needs_ffmpeg());
}

#[test]
fn ffmpeg_hint_names_the_package_manager() {
    assert!(ffmpeg_install_hint(HostOs::MacOs).ends_with("brew install ffmpeg"));
    assert!(ffmpeg_install_hint(HostOs::Windows).ends_with("winget install Gyan.FFmpeg"));
    assert!(ffmpeg_install_hint(HostOs::Other).ends_with("sudo apt install ffmpeg"));
}

#[test]
fn slugs_are_lowercase_and_dash_separated() {
    assert_eq!(slug("Shanghai"), "shanghai");
    assert_eq!(slug("New York"), "new-york");
    assert_eq!(slug("  --Cape Town!-- "), "cape-town");
    assert_eq!(slug("北京 A/B"), "北京-a-b");
    assert_eq!(slug("***"), "termarium");
    assert_eq!(slug(""), "termarium");
    assert_eq!(slug("Globe +31.2 +121.5"), "globe-31-2-121-5");
}

#[test]
fn export_file_names_join_slugs_and_stamp() {
    assert_eq!(
        output_file_name(ExportFormat::Png, "Shanghai", None, ViewMode::Sky, "20260509-120000"),
        "termarium-shanghai-sky-20260509-120000.png"
    );
    assert_eq!(
        output_file_name(
            ExportFormat::Gif,
            "New York",
            Some("Vega"),
            ViewMode::Ground,
            "20260509-120000"
        ),
        "termarium-new-york-vega-20260509-120000.gif"
    );
    assert_eq!(
        default_output_name(ExportFormat::Svg, "Shanghai", None, ViewMode::Ground, 0),
        Some("termarium-shanghai-globe-19700101-000000.svg".to_string())
    );
    assert_eq!(
        default_output_name(ExportFormat::Mp4, "London", None, ViewMode::Sky, 1778328000),
        Some("termarium-london-sky-20260509-120000.mp4".to_string())
    );
    assert_eq!(
        default_output_name(ExportFormat::Png, "London", None, ViewMode::Sky, i64::MAX),
        None
    );
}

#[test]
fn palette_colors_match_xterm() {
    assert_eq!(indexed_color(0), (0, 0, 0));
    assert_eq!(indexed_color(9), (255, 0, 0));
    assert_eq!(indexed_color(16), (0, 0, 0));
    assert_eq!(indexed_color(21), (0, 0, 255));
    assert_eq!(indexed_color(196), (255, 0, 0));
    assert_eq!(indexed_color(231), (255, 255, 255));
    assert_eq!(indexed_color(232), (8, 8, 8));
    assert_eq!(indexed_color(255), (238, 238, 238));
    assert_eq!(cube_color(0), 0);
    assert_eq!(cube_color(1), 95);
    assert_eq!(cube_color(5), 255);
}

#[test]
fn css_colors_are_lowercase_hex() {
    assert_eq!(color_css(CellColor::Rgb(4, 5, 6)), "#040506");
    assert_eq!(color_css(CellColor::Rgb(1, 2, 3)), "#010203");
    assert_eq!(color_css(CellColor::Reset), "#000000");
    assert_eq!(color_css(CellColor::Red), "#cd3131");
    assert_eq!(color_css(CellColor::Indexed(255)), "#eeeeee");
    assert_eq!(color_rgb(CellColor::White), (229, 229, 229));
}

#[test]
fn xml_text_is_escaped() {
    assert_eq!(escape_xml("a<b>&\"c\""), "a&lt;b&gt;&amp;&quot;c&quot;");
    assert_eq!(escape_xml("北"), "北");
    assert_eq!(escape_xml("&amp;"), "&amp;amp;");
    let escaped = escape_xml("<<\">>");
    assert!(!escaped.contains('<') && !escaped.contains('>') && !escaped.contains('"'));
}

#[test]
fn output_path_uses_directory_or_file() {
    let default = "/tmp/Termarium/termarium-shanghai-sky-20260509.png";
    assert_eq!(resolve_output_path("", default, ExportFormat::Png, None, false), default);
    assert_eq!(
        resolve_output_path("/tmp/share", default, ExportFormat::Png, None, false),
        "/tmp/share/termarium-shanghai-sky-20260509.png"
    );
    assert_eq!(
        resolve_output_path("/tmp/share/custom.svg", default, ExportFormat::Svg, None, false),
        "/tmp/share/custom.svg"
    );
    assert_eq!(
        resolve_output_path("/tmp/share/custom.png", default, ExportFormat::Gif, None, false),
        "/tmp/share/custom.gif"
    );
}

#[test]
fn output_paths_expand_home_and_respect_directories() {
    let default = "/tmp/Termarium/shot.png";
    assert_eq!(
        resolve_output_path("  ~/pics/out.PNG ", default, ExportFormat::Png, Some("/home/ada"), false),
        "/home/ada/pics/out.PNG"
    );
    assert_eq!(
        resolve_output_path("~/pics.d", default, ExportFormat::Png, Some("/home/ada"), true),
        "/home/ada/pics.d/shot.png"
    );
    assert_eq!(
        resolve_output_path("out/", default, ExportFormat::Png, None, false),
        "out/shot.png"
    );
    assert_eq!(
        resolve_output_path("out/", "/", ExportFormat::Png, None, false),
        "out/termarium-export.png"
    );
    assert_eq!(expand_home("~", Some("/home/ada")), "/home/ada/");
    assert_eq!(expand_home("~/x", None), "~/x");
    assert_eq!(expand_home("a/~/x", Some("/home/ada")), "a/~/x");
}

#[test]
fn recordings_encode_with_ffmpeg_arguments() {
    assert_eq!(frame_file_name(7), "frame-0007.png");
    assert_eq!(frame_file_name(123), "frame-0123.png");
    assert_eq!(frame_file_name(12345), "frame-12345.png");
    assert_eq!(
        video_command_args(ExportFormat::Mp4, "/tmp/x/frame-%04d.png", "/tmp/out.mp4"),
        vec![
            "-y", "-framerate", "15", "-i", "/tmp/x/frame-%04d.png", "-c:v", "libx264", "-pix_fmt",
            "yuv420p", "-movflags", "+faststart", "/tmp/out.mp4",
        ]
    );
    assert_eq!(
        video_command_args(ExportFormat::Webm, "in", "out.webm"),
        vec![
            "-y", "-framerate", "15", "-i", "in", "-c:v", "libvpx-vp9", "-pix_fmt", "yuv420p",
            "-b:v", "0", "-crf", "32", "out.webm",
        ]
    );
    assert_eq!(
        video_command_args(ExportFormat::Gif, "in", "out.gif"),
        vec!["-y", "-framerate", "15", "-i", "in", "out.gif"]
    );
    assert_eq!(max_recording_secs(ExportFormat::Gif), 4);
    assert_eq!(max_recording_secs(ExportFormat::Mp4), 60);
}

#[test]
fn export_job_reports_the_worker_result() {
    let (sender, receiver) = std::sync::mpsc::channel();
    let job = ExportJob::new(ExportFormat::Gif, 12, receiver);
    assert_eq!(job.frame_count, 12);
    assert_eq!(job.try_finish(), None);
    sender.send(Ok("sky.gif".to_string())).unwrap();
    assert_eq!(job.try_finish(), Some(Ok("sky.gif".to_string())));
    drop(sender);
    assert_eq!(job.try_finish(), Some(Err("export worker stopped".to_string())));
}

#[test]
fn export_job_passes_on_the_worker_error() {
    let (sender, receiver) = std::sync::mpsc::channel();
    let job = ExportJob::new(ExportFormat::Mp4, 3, receiver);
    sender.send(Err("ffmpeg failed".to_string())).unwrap();
    assert_eq!(job.try_finish(), Some(Err("ffmpeg failed".to_string())));
}

#[test]
fn recordings_capture_fifteen_frames_a_second_up_to_their_limit() {
    let mut gif: RecordingState<u8> =
        RecordingState::new(ExportFormat::Gif, ExportSize::Standard, "sky.gif".to_string());
    assert_eq!(gif.max_duration_ms(), 4000);
    assert!(gif.should_capture(0));
    gif.mark_captured(7);
    assert_eq!(gif.captured_frames, 1);
    assert_eq!(gif.frames, vec![7]);
    assert!(!gif.should_capture(66));
    assert!(gif.should_capture(67));
    assert_eq!(gif.elapsed_ms(10_000), 4000);
    assert!(!gif.is_expired(3999));
    assert!(gif.is_expired(4000));
    for frame in 0..60u8 {
        gif.mark_captured(frame);
    }
    assert_eq!(gif.captured_frames, 61);
    assert!(!gif.should_capture(9_000));
    let video: RecordingState<u8> =
        RecordingState::new(ExportFormat::Mp4, ExportSize::Standard, "sky.mp4".to_string());
    assert_eq!(video.max_duration_ms(), 60_000);
    assert!(!video.is_expired(59_999));
}
