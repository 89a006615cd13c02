use std::path::Path;

use satty::configuration::{Action, Configuration, Keybinds};
use satty::femtovg_area::background::{
    background_pixels, rows_are_complete, transparency_tile, BackgroundPixels, Rgb,
};
use satty::femtovg_area::fonts::{
    default_font, face_index, font_stack, set_font_stack, FontLoader, FontStack, FontStage,
};
use satty::fixed::Fixed;
use satty::math::Scalar;
use satty::paths::{components_of, same_components};
use satty::sketch_board::events::SketchBoardInput;
use satty::sketch_board::image::{component_bytes, image_to_pixbuf, PixelBuffer, RenderedImage, Rgba};
use satty::sketch_board::output::{
    after_save_as, configured_dir, configured_output_path, copy_step, im_context_id,
    image_clipboard_copy_targets, last_dir_file_is_usable, needs_pixbuf, plan_copy_filepath,
    plan_render_steps, plan_save, plan_save_as, preedit_cursor, remembered_dir,
    resolve_output_filename, resolve_output_filename_at, resolved_filename, save_as_answer,
    save_as_initial_dir, save_as_last_dir_file, save_plan_for, suggested_filename, CopyStep,
    DirCandidate, FilepathCopy, ImageClipboardCopyTarget, LocalTime, RenderStep, SaveAsAnswer,
    SavePlan,
};
use satty::text::{ends_with, eq_ignore_ascii_case, same_text, starts_with};
use satty::tools::Tools;

fn config() -> Configuration<Fixed> {
    Configuration {
        initial_tool: Tools::Pointer,
        input_scale: None,
        zoom_factor: Fixed::from_int(2),
        pan_step_size: Fixed::from_int(50),
        auto_copy: false,
        early_exit: false,
        early_exit_save_as: false,
        save_after_copy: false,
        disable_notifications: false,
        copy_command: None,
        output_filename: None,
        actions_on_right_click: vec![],
        actions_on_escape: vec![],
        actions_on_enter: vec![],
        keybinds: Keybinds { shortcuts: vec![] },
    }
}

/// Short names of the steps, in order.
fn steps(has_pixbuf: bool, actions: &[Action], config: &Configuration<Fixed>) -> Vec<String> {
    plan_render_steps(has_pixbuf, actions, config)
        .iter()
        .map(|step| match step {
            RenderStep::CopyFilepath => "path".to_string(),
            RenderStep::CopyClipboard => "copy".to_string(),
            RenderStep::Save => "save".to_string(),
            RenderStep::SaveAs { is_modal, followup } => {
                format!("save as {is_modal} {}", followup.len())
            }
            RenderStep::EarlyExit => "early exit".to_string(),
            RenderStep::Exit => "exit".to_string(),
        })
        .collect()
}

fn file(plan: SavePlan) -> Option<String> {
    match plan {
        SavePlan::File(name) => Some(name),
        _ => None,
    }
}

fn dir(path: &str, is_dir: bool) -> Option<DirCandidate> {
    Some(DirCandidate { path: path.to_string(), is_dir })
}

#[test]
fn image_clipboard_copy_targets_prefers_configured_command() {
    let targets = image_clipboard_copy_targets(Some("wl-copy"));

    assert_eq!(targets, vec![ImageClipboardCopyTarget::ConfiguredCommand("wl-copy")]);
}

#[test]
fn image_clipboard_copy_targets_defaults_to_wl_copy_then_gtk() {
    let targets = image_clipboard_copy_targets(None);

    assert_eq!(
        targets,
        vec![ImageClipboardCopyTarget::WlCopyImage, ImageClipboardCopyTarget::GtkClipboard]
    );
}

#[test]
fn save_as_initial_dir_handles_missing_state_and_output_path() {
    let initial_dir = save_as_initial_dir(None, None);

    assert_eq!(initial_dir, None);
}

#[test]
fn remembered_directory_comes_before_the_configured_one() {
    let initial_dir = save_as_initial_dir(dir("/remembered", true), dir("/fallback", true));
    assert_eq!(initial_dir.as_deref(), Some("/remembered"));
    let initial_dir = save_as_initial_dir(dir("/missing", false), dir("/fallback", true));
    assert_eq!(initial_dir.as_deref(), Some("/fallback"));
    assert_eq!(save_as_initial_dir(None, dir("/missing", false)), None);
}

#[test]
fn only_small_files_remember_directories() {
    assert!(last_dir_file_is_usable(true, 10_000));
    assert!(!last_dir_file_is_usable(true, 10_001));
    assert!(!last_dir_file_is_usable(false, 1));
}

#[test]
fn copy_targets_are_tried_in_order() {
    assert_eq!(copy_step(None, 0, false, true), CopyStep::Try(ImageClipboardCopyTarget::WlCopyImage));
    assert_eq!(copy_step(None, 1, false, true), CopyStep::Try(ImageClipboardCopyTarget::GtkClipboard));
    assert_eq!(copy_step(None, 2, false, true), CopyStep::GiveUp);
    assert_eq!(copy_step(Some("c"), 1, false, true), CopyStep::GiveUp);
    assert_eq!(copy_step(Some("c"), 0, true, true), CopyStep::Done { save: true });
    assert_eq!(copy_step(None, 1, true, false), CopyStep::Done { save: false });
    assert_eq!(
        ImageClipboardCopyTarget::WlCopyImage.command(),
        Some("wl-copy --type image/png")
    );
    assert_eq!(ImageClipboardCopyTarget::ConfiguredCommand("c").command(), Some("c"));
    assert_eq!(ImageClipboardCopyTarget::GtkClipboard.command(), None);
}

#[test]
fn path_of_the_saved_file_is_copied() {
    assert_eq!(plan_copy_filepath(None, Some("c")), FilepathCopy::Nothing);
    assert_eq!(
        plan_copy_filepath(Some("/a.png"), Some("c")),
        FilepathCopy::Command { command: "c", filepath: "/a.png" }
    );
    assert_eq!(
        plan_copy_filepath(Some("/a.png"), None),
        FilepathCopy::Clipboard { filepath: "/a.png" }
    );
}

#[test]
fn pixels_are_needed_to_copy_or_save() {
    assert!(needs_pixbuf(&[Action::Exit, Action::SaveToFile]));
    assert!(needs_pixbuf(&[Action::SaveToFileAs]));
    assert!(needs_pixbuf(&[Action::SaveToClipboard]));
    assert!(!needs_pixbuf(&[Action::Exit, Action::CopyFilepathToClipboard]));
    assert!(!needs_pixbuf(&[]));
}

#[test]
fn actions_become_steps() {
    let config = config();
    let all = [
        Action::SaveToClipboard,
        Action::SaveToFile,
        Action::CopyFilepathToClipboard,
        Action::Exit,
        Action::SaveToFile,
    ];
    assert_eq!(steps(true, &all, &config), ["copy", "save", "path", "exit"]);
    assert_eq!(steps(false, &all, &config), ["path", "exit"]);
    assert!(steps(true, &[], &config).is_empty());
}

#[test]
fn early_exit_ends_the_steps() {
    let mut config = config();
    config.early_exit = true;
    let actions = [Action::SaveToClipboard, Action::SaveToFile, Action::Exit];
    assert_eq!(steps(true, &actions, &config), ["copy", "early exit"]);
    config.auto_copy = true;
    assert_eq!(steps(true, &actions, &config), ["copy", "save", "early exit"]);
    assert_eq!(steps(false, &actions, &config), ["exit"]);
}

#[test]
fn save_as_puts_the_rest_off() {
    let mut config = config();
    let actions = [Action::SaveToFileAs, Action::SaveToFile, Action::Exit];
    assert_eq!(steps(true, &actions, &config), ["save as true 2"]);
    assert_eq!(steps(true, &actions[..1], &config), ["save as false 0"]);
    config.early_exit_save_as = true;
    assert_eq!(steps(true, &actions[..1], &config), ["save as true 0"]);
    assert!(steps(false, &actions, &config).is_empty());
}

#[test]
fn file_name_without_specifiers_is_literal() {
    let name = resolve_output_filename("/tmp/a b.png", None);
    assert_eq!(name.as_deref(), Some("/tmp/a b.png"));
}

#[test]
fn file_name_is_filled_in_with_the_time() {
    let name = resolve_output_filename("/tmp/%Y%%.png", None).unwrap();
    assert_eq!(name.len(), "/tmp/2000%.png".len());
    assert!(name.starts_with("/tmp/2"));
    assert!(name.ends_with("%.png"));
}

/// 2026-11-16, seven seconds after 10:05 on a clock that is one hour ahead.
fn some_time(nanoseconds: u32) -> LocalTime {
    LocalTime { seconds: 1_794_819_907, nanoseconds, offset: 3600 }
}

#[test]
fn file_name_at_a_given_time() {
    let at = |name: &str, home| resolve_output_filename_at(some_time(250_000_000), name, home);
    assert_eq!(
        at("/tmp/%Y-%m-%d_%H:%M:%S.png", None).as_deref(),
        Some("/tmp/2026-11-16_10:05:07.png")
    );
    assert_eq!(at("%A%.f%z%%.png", None).as_deref(), Some("Monday.250+0100%.png"));
    assert_eq!(at("~/%j.png", Some("/h")).as_deref(), Some("/h/320.png"));
    assert_eq!(at("~/%j.png", None), None);
    assert_eq!(at("%.png", None).as_deref(), Some("%.png"));
    assert_eq!(at("%-.png", None).as_deref(), Some("%-.png"));
    assert_eq!(at("%3.png", None).as_deref(), Some("%3.png"));
    let early = LocalTime { seconds: -8_334_601_228_800, nanoseconds: 0, offset: -86_399 };
    assert!(resolve_output_filename_at(early, "%F %T.png", None).is_some());
    let late = LocalTime { seconds: 8_210_266_876_799, nanoseconds: 999_999_999, offset: 86_399 };
    assert!(resolve_output_filename_at(late, "%G %c.png", None).is_some());
}

#[test]
fn fraction_of_nothing_brings_characters_together() {
    let at = |nanoseconds, name: &str| {
        resolve_output_filename_at(some_time(nanoseconds), name, Some("/h"))
    };
    assert_eq!(at(0, "~%.f/a.%.fpng").as_deref(), Some("/h/a.png"));
    assert_eq!(at(5, "~%.f/a.%.fpng").as_deref(), Some("~.000000005/a..000000005png"));
    assert_eq!(at(0, "%.f-").as_deref(), Some("-"));
}

#[test]
fn plan_depends_on_the_name_and_not_on_the_time() {
    for name in ["%Y-%m-%d.png", "%F/%T.png", "%Q.png", "%.png", "%b%%.png", "x%.f.png"] {
        assert!(file(plan_save(Some(name), None)).is_some_and(|file| file.ends_with(".png")));
    }
    assert!(matches!(plan_save(Some("~/%Y.png"), None), SavePlan::NoHome));
    assert!(matches!(plan_save(Some("~/%Y.jpg"), None), SavePlan::NoHome));
    assert!(file(plan_save(Some("~%Y.png"), None)).is_some());
    for name in ["%Y", "%Y.jpg", "%bpng", ".p%n", "%-", "-%%"] {
        assert!(matches!(plan_save(Some(name), None), SavePlan::UnsupportedFormat));
    }
}

#[test]
fn invalid_format_is_taken_literally() {
    let name = resolve_output_filename("/tmp/%Q.png", None);
    assert_eq!(name.as_deref(), Some("/tmp/%Q.png"));
}

#[test]
fn tilde_means_the_home_directory() {
    let resolve = |name: &str, home| resolved_filename(None, name, home);
    assert_eq!(resolve("~/a.png", Some("/home/u")).as_deref(), Some("/home/u/a.png"));
    assert_eq!(resolve("~/a.png", Some("/home/u/")).as_deref(), Some("/home/u/a.png"));
    assert_eq!(resolve("~/", Some("/home/u")).as_deref(), Some("/home/u/"));
    assert_eq!(resolve("~//a.png", Some("/home/u")).as_deref(), Some("/a.png"));
    assert_eq!(resolve("~/a.png", None), None);
    assert_eq!(resolve("~a.png", None).as_deref(), Some("~a.png"));
    let formatted = Some("~/b.png".to_string());
    assert_eq!(
        resolved_filename(formatted, "x", Some("/h")).as_deref(),
        Some("/h/b.png")
    );
}

#[test]
fn configured_path_is_not_the_standard_output() {
    assert_eq!(configured_output_path(None, None), None);
    assert_eq!(configured_output_path(Some("-"), None), None);
    assert_eq!(
        configured_output_path(Some("~/x.jpg"), Some("/h")).as_deref(),
        Some("/h/x.jpg")
    );
}

#[test]
fn saves_go_to_png_files_or_the_standard_output() {
    assert!(matches!(plan_save(None, None), SavePlan::NoFilename));
    assert!(matches!(plan_save(Some("~/a.png"), None), SavePlan::NoHome));
    assert!(matches!(plan_save(Some("a.jpg"), None), SavePlan::UnsupportedFormat));
    assert!(matches!(plan_save(Some("-"), None), SavePlan::Stdout));
    assert_eq!(file(plan_save(Some("~/a.png"), Some("/h"))).as_deref(), Some("/h/a.png"));
    assert!(matches!(save_plan_for(None), SavePlan::NoHome));
    assert!(matches!(save_plan_for(Some("png".into())), SavePlan::UnsupportedFormat));
    assert_eq!(file(save_plan_for(Some(".png".into()))).as_deref(), Some(".png"));
}

#[test]
fn parts_of_the_configured_path() {
    assert_eq!(configured_dir(Some("/a/b/c.png")).as_deref(), Some("/a/b"));
    assert_eq!(configured_dir(None), None);
    assert_eq!(suggested_filename(Some("/a/b/c.png")).as_deref(), Some("c.png"));
    assert_eq!(suggested_filename(Some("/")), None);
    assert_eq!(remembered_dir("/a/b/c.png").as_deref(), Some("/a/b"));
    assert_eq!(remembered_dir("/"), None);
    let plan = plan_save_as(true, Some("/a/c.png"), None, dir("/a", true));
    assert!(plan.is_modal);
    assert_eq!(plan.initial_dir.as_deref(), Some("/a"));
    assert_eq!(plan.suggested_filename.as_deref(), Some("c.png"));
}

#[test]
fn state_is_kept_in_the_directory_of_the_program() {
    if let Some(path) = save_as_last_dir_file() {
        assert!(path.ends_with(b"/satty/save_as_last_dir"));
    }
}

#[test]
fn answers_of_the_save_dialog() {
    let path = || Some(Some("/a.png".to_string()));
    assert!(matches!(save_as_answer(true, path()), SaveAsAnswer::Write(p) if p == "/a.png"));
    assert!(matches!(save_as_answer(true, Some(None)), SaveAsAnswer::Forget));
    assert!(matches!(save_as_answer(true, None), SaveAsAnswer::NotSaved));
    assert!(matches!(save_as_answer(false, path()), SaveAsAnswer::NotSaved));
}

#[test]
fn what_follows_the_save_dialog() {
    let buffer = || PixelBuffer { bytes: vec![1, 2, 3, 4], width: 1, height: 1, rowstride: 4 };
    let saved = || Some("/a.png".to_string());
    let next = |saved, early, followup| after_save_as::<Fixed>(saved, early, buffer(), followup);
    assert!(matches!(next(saved(), true, vec![Action::Exit]), Some(SketchBoardInput::Exit)));
    assert!(matches!(
        next(saved(), false, vec![]),
        Some(SketchBoardInput::RenderResultFollowup(Some(b), f, Some(name)))
            if b.bytes == [1, 2, 3, 4] && f.is_empty() && name == "/a.png"
    ));
    assert!(matches!(
        next(None, true, vec![Action::Exit]),
        Some(SketchBoardInput::RenderResultFollowup(Some(_), f, None)) if f == [Action::Exit]
    ));
    assert!(next(None, true, vec![]).is_none());
}

#[test]
fn input_method_is_chosen_by_name() {
    assert_eq!(im_context_id(Some("fcitx")), Some("fcitx"));
    assert_eq!(im_context_id(Some("FcItX5")), Some("fcitx"));
    assert_eq!(im_context_id(Some("ibus")), None);
    assert_eq!(im_context_id(Some("fcitx55")), None);
    assert_eq!(im_context_id(None), None);
    assert_eq!(preedit_cursor(3), Some(3));
    assert_eq!(preedit_cursor(0), Some(0));
    assert_eq!(preedit_cursor(-1), None);
}

#[test]
fn texts_are_compared_by_character() {
    assert!(starts_with("äb", "ä") && !starts_with("a", "ab"));
    assert!(ends_with("bä", "ä") && !ends_with("ab", "a"));
    assert!(same_text("ä", "ä") && !same_text("ä", "a"));
    assert!(eq_ignore_ascii_case("aZ@[", "Az@["));
    assert!(!eq_ignore_ascii_case("@", "`"));
    assert!(!eq_ignore_ascii_case("Ä", "ä"));
}

#[test]
fn padding_between_rows_is_dropped() {
    let bytes: Vec<u8> = (0..18).collect();
    let BackgroundPixels::Rgb(pixels) = background_pixels(&bytes, 2, 2, 8, false) else {
        panic!("three channels");
    };
    assert_eq!(
        pixels,
        [(0, 1, 2), (3, 4, 5), (8, 9, 10), (11, 12, 13)].map(|(r, g, b)| Rgb { r, g, b })
    );
    let BackgroundPixels::Rgba(pixels) = background_pixels(&bytes, 1, 2, 8, true) else {
        panic!("four channels");
    };
    assert_eq!(
        pixels,
        [(0, 1, 2, 3), (8, 9, 10, 11)].map(|(r, g, b, a)| Rgba { r, g, b, a })
    );
}

#[test]
fn incomplete_images_are_recognized() {
    assert!(rows_are_complete(14, 2, 2, 8, false));
    assert!(!rows_are_complete(13, 2, 2, 8, false));
    assert!(rows_are_complete(0, 2, 0, 8, false));
    assert!(!rows_are_complete(100, 0, 1, 8, true));
    assert!(!rows_are_complete(100, usize::MAX, 2, 8, true));
    assert!(!rows_are_complete(100, 1, 2, usize::MAX, true));
    let image = |width, height, stride, len| RenderedImage {
        pixels: vec![Rgba { r: 0, g: 0, b: 0, a: 0 }; len],
        width,
        height,
        stride,
    };
    assert!(image(2, 2, 3, 5).is_well_formed());
    assert!(!image(2, 2, 3, 4).is_well_formed());
    assert!(!image(2, 2, 1, 9).is_well_formed());
    assert!(image(0, 1, 1, 0).is_well_formed());
    assert!(!image(0, 2, 1, 9).is_well_formed());
    assert!(!image(1, 2, usize::MAX, 9).is_well_formed());
    assert!(image_to_pixbuf(image(0, 1, 1, 0)).bytes.is_empty());
    assert!(image_to_pixbuf(image(2, 0, 3, 4)).bytes.is_empty());
}

#[test]
fn squares_of_the_transparency_pattern_alternate() {
    let tile = transparency_tile();
    assert_eq!((tile.width, tile.height, tile.stride), (128, 128, 128));
    assert_eq!(tile.pixels.len(), 128 * 128);
    let grey = |x: usize, y: usize| tile.pixels[y * 128 + x];
    let light = Rgba { r: 204, g: 204, b: 204, a: 255 };
    let dark = Rgba { r: 153, g: 153, b: 153, a: 255 };
    assert_eq!([grey(0, 0), grey(63, 63), grey(64, 64), grey(127, 127)], [light; 4]);
    assert_eq!([grey(64, 0), grey(127, 63), grey(0, 64), grey(63, 127)], [dark; 4]);
}

#[test]
fn rows_of_a_rendering_are_joined() {
    let pixel = |i: u8| Rgba { r: i, g: i + 1, b: i + 2, a: i + 3 };
    let image = RenderedImage {
        pixels: vec![pixel(0), pixel(100), pixel(10), pixel(101), pixel(20)],
        width: 1,
        height: 3,
        stride: 2,
    };
    let buffer = image_to_pixbuf(image);
    assert_eq!(buffer.bytes, vec![0, 1, 2, 3, 10, 11, 12, 13, 20, 21, 22, 23]);
    assert_eq!((buffer.width, buffer.height, buffer.rowstride), (1, 3, 4));
    assert_eq!(component_bytes(&[pixel(7)]), vec![7, 8, 9, 10]);
}

#[test]
fn font_stack_is_set_once() {
    let mut stack = FontStack::new();
    assert!(font_stack(&stack).is_empty());
    assert_eq!(default_font(None, &stack), None);
    set_font_stack(&mut stack, vec![3, 4]);
    set_font_stack(&mut stack, vec![5]);
    assert_eq!(font_stack(&stack), [3, 4]);
    assert_eq!(default_font(None, &stack), Some(3));
    assert_eq!(default_font(Some(9), &stack), Some(9));
}

#[test]
fn each_face_is_loaded_once() {
    let mut loader = FontLoader::new();
    assert_eq!(loader.next_stage(2), Some(FontStage::Primary));
    assert_eq!(loader.found("/a.ttc".to_string(), Some(-1)), Some(0));
    loader.finished(Some("a"));
    assert_eq!(loader.next_stage(2), Some(FontStage::Fallback(0)));
    assert_eq!(loader.found("/a.ttc".to_string(), None), None);
    assert_eq!(loader.found("/a.ttc".to_string(), Some(2)), Some(2));
    loader.finished(None);
    assert_eq!(loader.next_stage(2), Some(FontStage::Fallback(1)));
    assert_eq!(loader.found("/a.ttc".to_string(), Some(2)), None);
    assert_eq!(loader.found("/b.ttf".to_string(), Some(2)), Some(2));
    loader.finished(Some("b"));
    assert_eq!(loader.next_stage(2), None);
    assert_eq!(loader.fonts, ["a", "b"]);
    assert_eq!([face_index(None), face_index(Some(-3)), face_index(Some(4))], [0, 0, 4]);
}

#[test]
fn face_is_known_however_its_path_is_written() {
    let mut loader: FontLoader<&str> = FontLoader::new();
    assert_eq!(loader.found("/a/b.ttf".to_string(), None), Some(0));
    for path in ["/a//b.ttf", "//a/b.ttf", "/a/./b.ttf", "/./a/b.ttf", "/a/b.ttf/", "/a/b.ttf/."] {
        assert_eq!(loader.found(path.to_string(), None), None);
    }
    for path in ["a/b.ttf", "./a/b.ttf", "/a/x/../b.ttf", "/a/b.tt", "/a.b.ttf", "/a/.b.ttf"] {
        assert_eq!(loader.found(path.to_string(), None), Some(0));
    }
    assert_eq!(loader.found("./a/./b.ttf".to_string(), None), None);
}

#[test]
fn paths_are_told_apart_as_the_system_does() {
    let paths = [
        "", ".", "./", "/", "//", "/.", "..", "../", "a", "a/", "a/.", "./a", ".//a", "././a", "/a",
        "/a/", "//a", "/./a", "a/b", "a//b", "a/./b", "a/../b", "a/b/", ".a", "a.", "...", "/..",
    ];
    for a in paths {
        for b in paths {
            let same = same_components(&components_of(a), &components_of(b));
            assert_eq!(same, Path::new(a) == Path::new(b), "{a} {b}");
        }
    }
    assert_eq!(components_of("/usr//share/./a.ttf"), ["/", "usr", "share", "a.ttf"]);
    assert_eq!(components_of("././a/."), [".", "a"]);
}

#[test]
fn bundled_font_replaces_a_missing_one() {
    let mut loader = FontLoader::new();
    loader.finished(None);
    assert_eq!(loader.next_stage(0), Some(FontStage::Bundled));
    loader.finished(Some("bundled"));
    assert_eq!(loader.next_stage(0), None);
    assert_eq!(loader.fonts, ["bundled"]);
}
