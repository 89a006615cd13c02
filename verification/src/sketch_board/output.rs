//! Where a finished rendering goes: files, the clipboard, and what follows.
use std::fmt::Write;

use vstd::prelude::*;
use vstd::string::StringSliceAdditionalSpecFns;

use crate::configuration::{Action, Configuration};
use crate::sketch_board::events::SketchBoardInput;
use crate::sketch_board::image::PixelBuffer;
use crate::text::{
    ends_with, eq_ignore_ascii_case, same_ignoring_case, same_text, starts_with, str_text_of,
    text_of,
};

verus! {

/// Tells whether any of the actions uses the pixels of the rendering.
pub open spec fn spec_needs_pixbuf(actions: Seq<Action>) -> bool {
    exists|i: int|
        0 <= i < actions.len() && (#[trigger] actions[i] is SaveToClipboard
            || actions[i] is SaveToFile || actions[i] is SaveToFileAs)
}

pub fn needs_pixbuf(actions: &[Action]) -> (r: bool)
    ensures
        r == spec_needs_pixbuf(actions@),
{
    let mut k: usize = 0;
    while k < actions.len()
        invariant
            k <= actions@.len(),
            forall|i: int|
                0 <= i < k ==> !(#[trigger] actions@[i] is SaveToClipboard
                    || actions@[i] is SaveToFile || actions@[i] is SaveToFileAs),
        decreases actions@.len() - k,
    {
        match actions[k] {
            Action::SaveToClipboard | Action::SaveToFile | Action::SaveToFileAs => {
                return true;
            },
            _ => {},
        }
        k = k + 1;
    }
    false
}

/// One thing that is done with a rendering.
#[derive(Debug)]
pub enum RenderStep {
    CopyFilepath,
    CopyClipboard,
    Save,
    /// Ask for a file name. The other actions wait for the answer.
    SaveAs { is_modal: bool, followup: Vec<Action> },
    /// Leave the program because an action is configured to end it.
    EarlyExit,
    Exit,
}

/// A step, with the actions that wait for it as a sequence.
#[verifier::ext_equal]
pub enum RenderStepView {
    CopyFilepath,
    CopyClipboard,
    Save,
    SaveAs { is_modal: bool, followup: Seq<Action> },
    EarlyExit,
    Exit,
}

impl View for RenderStep {
    type V = RenderStepView;

    open spec fn view(&self) -> RenderStepView {
        match *self {
            RenderStep::CopyFilepath => RenderStepView::CopyFilepath,
            RenderStep::CopyClipboard => RenderStepView::CopyClipboard,
            RenderStep::Save => RenderStepView::Save,
            RenderStep::SaveAs { is_modal, followup } => RenderStepView::SaveAs {
                is_modal,
                followup: followup@,
            },
            RenderStep::EarlyExit => RenderStepView::EarlyExit,
            RenderStep::Exit => RenderStepView::Exit,
        }
    }
}

pub open spec fn step_views(steps: Seq<RenderStep>) -> Seq<RenderStepView> {
    steps.map_values(|step: RenderStep| step@)
}

/// What is done with a rendering, action by action. A copy or a save may end the
/// program, an exit does; a save under a new name puts the rest off; and without
/// pixels there is nothing to copy or save.
pub open spec fn render_steps<S>(
    has_pixbuf: bool,
    actions: Seq<Action>,
    config: Configuration<S>,
) -> Seq<RenderStepView>
    decreases actions.len(),
{
    if actions.len() == 0 {
        Seq::empty()
    } else {
        let rest = render_steps(has_pixbuf, actions.skip(1), config);
        match actions[0] {
            Action::CopyFilepathToClipboard => seq![RenderStepView::CopyFilepath] + rest,
            Action::SaveToClipboard => if !has_pixbuf {
                rest
            } else if config.early_exit && !config.auto_copy {
                seq![RenderStepView::CopyClipboard, RenderStepView::EarlyExit]
            } else {
                seq![RenderStepView::CopyClipboard] + rest
            },
            Action::SaveToFile => if !has_pixbuf {
                rest
            } else if config.early_exit {
                seq![RenderStepView::Save, RenderStepView::EarlyExit]
            } else {
                seq![RenderStepView::Save] + rest
            },
            Action::SaveToFileAs => if has_pixbuf {
                seq![
                    RenderStepView::SaveAs {
                        is_modal: config.early_exit_save_as || actions.len() > 1,
                        followup: actions.skip(1),
                    },
                ]
            } else {
                Seq::empty()
            },
            Action::Exit => seq![RenderStepView::Exit],
        }
    }
}

/// What is done with a rendering.
pub fn plan_render_steps<S>(
    has_pixbuf: bool,
    actions: &[Action],
    config: &Configuration<S>,
) -> (r: Vec<RenderStep>)
    ensures
        step_views(r@) == render_steps(has_pixbuf, actions@, *config),
{
    let mut steps: Vec<RenderStep> = Vec::new();
    let ghost whole = render_steps(has_pixbuf, actions@, *config);
    let mut k: usize = 0;
    assert(actions@.skip(0) =~= actions@);
    assert(step_views(steps@) + whole =~= whole);
    while k < actions.len()
        invariant
            k <= actions@.len(),
            whole == render_steps(has_pixbuf, actions@, *config),
            step_views(steps@) + render_steps(has_pixbuf, actions@.skip(k as int), *config)
                == whole,
        decreases actions@.len() - k,
    {
        let ghost before = steps@;
        let ghost rest = render_steps(has_pixbuf, actions@.skip(k as int + 1), *config);
        assert(actions@.skip(k as int)[0] == actions@[k as int]);
        assert(actions@.skip(k as int).skip(1) =~= actions@.skip(k as int + 1));
        match actions[k] {
            Action::CopyFilepathToClipboard => {
                steps.push(RenderStep::CopyFilepath);
                assert(step_views(steps@) + rest =~= whole);
            },
            Action::SaveToClipboard => {
                if has_pixbuf {
                    steps.push(RenderStep::CopyClipboard);
                    if config.early_exit && !config.auto_copy {
                        steps.push(RenderStep::EarlyExit);
                        assert(step_views(steps@) =~= whole);
                        return steps;
                    }
                    assert(step_views(steps@) + rest =~= whole);
                }
            },
            Action::SaveToFile => {
                if has_pixbuf {
                    steps.push(RenderStep::Save);
                    if config.early_exit {
                        steps.push(RenderStep::EarlyExit);
                        assert(step_views(steps@) =~= whole);
                        return steps;
                    }
                    assert(step_views(steps@) + rest =~= whole);
                }
            },
            Action::SaveToFileAs => {
                if has_pixbuf {
                    let followup = actions_from(actions, k + 1);
                    let is_modal = config.early_exit_save_as || followup.len() > 0;
                    steps.push(RenderStep::SaveAs { is_modal, followup });
                }
                assert(step_views(steps@) =~= whole);
                return steps;
            },
            Action::Exit => {
                steps.push(RenderStep::Exit);
                assert(step_views(steps@) =~= whole);
                return steps;
            },
        }
        k = k + 1;
    }
    assert(step_views(steps@) =~= whole);
    steps
}

/// The actions from number `start` on.
fn actions_from(actions: &[Action], start: usize) -> (r: Vec<Action>)
    requires
        start <= actions@.len(),
    ensures
        r@ == actions@.skip(start as int),
{
    let mut rest: Vec<Action> = Vec::new();
    let mut k: usize = start;
    while k < actions.len()
        invariant
            start <= k <= actions@.len(),
            rest@ =~= actions@.subrange(start as int, k as int),
        decreases actions@.len() - k,
    {
        rest.push(actions[k]);
        k = k + 1;
    }
    assert(rest@ =~= actions@.skip(start as int));
    rest
}

/// A way to put an image on the clipboard.
#[derive(Debug, PartialEq, Eq)]
pub enum ImageClipboardCopyTarget<'a> {
    ConfiguredCommand(&'a str),
    WlCopyImage,
    GtkClipboard,
}

pub const WL_COPY_IMAGE_COMMAND: &'static str = "wl-copy --type image/png";

/// The ways to put an image on the clipboard, in the order in which they are
/// tried until one succeeds.
pub fn image_clipboard_copy_targets<'a>(configured_command: Option<&'a str>) -> (r: Vec<
    ImageClipboardCopyTarget<'a>,
>)
    ensures
        r@ == match configured_command {
            Some(command) => seq![ImageClipboardCopyTarget::ConfiguredCommand(command)],
            None => seq![
                ImageClipboardCopyTarget::WlCopyImage,
                ImageClipboardCopyTarget::GtkClipboard,
            ],
        },
{
    let mut targets: Vec<ImageClipboardCopyTarget<'a>> = Vec::new();
    match configured_command {
        Some(command) => {
            targets.push(ImageClipboardCopyTarget::ConfiguredCommand(command));
        },
        None => {
            targets.push(ImageClipboardCopyTarget::WlCopyImage);
            targets.push(ImageClipboardCopyTarget::GtkClipboard);
        },
    }
    targets
}

impl<'a> ImageClipboardCopyTarget<'a> {
    /// The shell command that takes the image on its standard input; none if the
    /// clipboard of the toolkit is used.
    pub fn command(&self) -> (r: Option<&'a str>)
        ensures
            r == match *self {
                ImageClipboardCopyTarget::ConfiguredCommand(command) => Some(command),
                ImageClipboardCopyTarget::WlCopyImage => Some(WL_COPY_IMAGE_COMMAND),
                ImageClipboardCopyTarget::GtkClipboard => None,
            },
    {
        match *self {
            ImageClipboardCopyTarget::ConfiguredCommand(command) => Some(command),
            ImageClipboardCopyTarget::WlCopyImage => Some(WL_COPY_IMAGE_COMMAND),
            ImageClipboardCopyTarget::GtkClipboard => None,
        }
    }
}

/// What is done next to put an image on the clipboard.
#[derive(Debug, PartialEq, Eq)]
pub enum CopyStep<'a> {
    Try(ImageClipboardCopyTarget<'a>),
    /// The image is on the clipboard; it is saved as well if `save`.
    Done { save: bool },
    GiveUp,
}

/// What is done next, after `failures` ways failed and one succeeded or none did.
pub fn copy_step<'a>(
    configured_command: Option<&'a str>,
    failures: usize,
    copied: bool,
    save_after_copy: bool,
) -> (r: CopyStep<'a>)
    ensures
        r == (if copied {
            (CopyStep::Done { save: save_after_copy })
        } else {
            match configured_command {
                Some(command) if failures == 0 => CopyStep::Try(
                    ImageClipboardCopyTarget::ConfiguredCommand(command),
                ),
                None if failures == 0 => CopyStep::Try(ImageClipboardCopyTarget::WlCopyImage),
                None if failures == 1 => CopyStep::Try(ImageClipboardCopyTarget::GtkClipboard),
                _ => CopyStep::GiveUp,
            }
        }),
        copied <==> r is Done,
        r matches CopyStep::Done { save } ==> save == save_after_copy,
        !copied && configured_command is Some ==> (r is Try <==> failures == 0),
        !copied && configured_command is None ==> (r is Try <==> failures < 2),
        r matches CopyStep::Try(target) ==> match target {
            ImageClipboardCopyTarget::ConfiguredCommand(command) => configured_command == Some(
                command,
            ),
            ImageClipboardCopyTarget::WlCopyImage => configured_command is None && failures == 0,
            ImageClipboardCopyTarget::GtkClipboard => configured_command is None && failures == 1,
        },
{
    if copied {
        return CopyStep::Done { save: save_after_copy };
    }
    let mut targets = image_clipboard_copy_targets(configured_command);
    if failures < targets.len() {
        CopyStep::Try(targets.remove(failures))
    } else {
        CopyStep::GiveUp
    }
}

/// How the path of the saved file is copied.
#[derive(Debug, PartialEq, Eq)]
pub enum FilepathCopy<'a> {
    /// Nothing was saved yet.
    Nothing,
    /// Hand the path to a shell command.
    Command { command: &'a str, filepath: &'a str },
    /// Put the path on the clipboard of the toolkit.
    Clipboard { filepath: &'a str },
}

pub fn plan_copy_filepath<'a>(
    last_saved_filepath: Option<&'a str>,
    copy_command: Option<&'a str>,
) -> (r: FilepathCopy<'a>)
    ensures
        r == match (last_saved_filepath, copy_command) {
            (None, _) => FilepathCopy::Nothing,
            (Some(filepath), Some(command)) => (FilepathCopy::Command { command, filepath }),
            (Some(filepath), None) => (FilepathCopy::Clipboard { filepath }),
        },
{
    match (last_saved_filepath, copy_command) {
        (None, _) => FilepathCopy::Nothing,
        (Some(filepath), Some(command)) => FilepathCopy::Command { command, filepath },
        (Some(filepath), None) => FilepathCopy::Clipboard { filepath },
    }
}

/// The characters before the first percent sign.
pub open spec fn literal_prefix(format: Seq<char>) -> Seq<char>
    decreases format.len(),
{
    if format.len() == 0 || format[0] == '%' {
        Seq::empty()
    } else {
        seq![format[0]] + literal_prefix(format.skip(1))
    }
}

/// The specifier for the fraction of the second stands at `i`.
pub open spec fn fraction_at(format: Seq<char>, i: int) -> bool {
    &&& 0 <= i
    &&& i + 3 <= format.len()
    &&& format[i] == '%'
    &&& format[i + 1] == '.'
    &&& format[i + 2] == 'f'
}

/// The format asks for the fraction of the second, which at a whole second is
/// nothing at all. Every other specifier becomes at least one character.
pub open spec fn has_fraction(format: Seq<char>) -> bool {
    exists|i: int| fraction_at(format, i)
}

/// What may come of a format at some time: a text that begins as the format does
/// up to the first percent sign, keeps a final `.png`, and is the format if it has
/// no percent sign; or none, if the format is not valid. A text is the standard
/// output, begins with a tilde or ends in `.png` only if the format does, unless a
/// fraction of nothing may have brought the characters together.
pub open spec fn may_format_to(format: Seq<char>, formatted: Option<Seq<char>>) -> bool {
    &&& !format.contains('%') ==> formatted == Some(format)
    &&& formatted matches Some(text) ==> {
        &&& literal_prefix(format).is_prefix_of(text)
        &&& ".png"@.is_suffix_of(format) ==> ".png"@.is_suffix_of(text)
        &&& !has_fraction(format) ==> {
            &&& text == "-"@ ==> format == "-"@
            &&& "~/"@.is_prefix_of(text) ==> "~/"@.is_prefix_of(format)
            &&& ".png"@.is_suffix_of(text) ==> ".png"@.is_suffix_of(format)
        }
    }
}

/// A time as a clock on the wall shows it.
#[derive(Debug, Clone, Copy)]
pub struct LocalTime {
    /// The seconds since the beginning of 1970 in universal time.
    pub seconds: i64,
    /// What has gone by of the present second.
    pub nanoseconds: u32,
    /// By how many seconds the clock is ahead of universal time.
    pub offset: i32,
}

impl LocalTime {
    /// The time lies in the years from -262143 to 262142, and the clock differs from
    /// universal time by less than a day.
    pub open spec fn wf(self) -> bool {
        &&& -8_334_601_228_800 <= self.seconds <= 8_210_266_876_799
        &&& self.nanoseconds < 1_000_000_000
        &&& -86_400 < self.offset < 86_400
    }

    /// What becomes of a format at this time.
    pub open spec fn text(self, format: Seq<char>) -> Option<Seq<char>> {
        text_at_time(self.seconds, self.nanoseconds, self.offset, format)
    }
}

/// `Local::now` of the crate `chrono`: the present time and the time zone. Both are
/// left unsaid, but for the ranges that they lie in.
#[verifier::external_body]
fn local_time() -> (r: LocalTime)
    ensures
        r.wf(),
{
    let now = chrono::Local::now();
    LocalTime {
        seconds: now.timestamp(),
        nanoseconds: now.timestamp_subsec_nanos(),
        offset: now.offset().local_minus_utc(),
    }
}

/// What becomes of a format at a time. None if the format is not valid.
pub uninterp spec fn text_at_time(
    seconds: i64,
    nanoseconds: u32,
    offset: i32,
    format: Seq<char>,
) -> Option<Seq<char>>;

/// `DateTime::format` of the crate `chrono`: replaces each specifier that begins
/// with a percent sign by a part of the time, and leaves everything else as it is.
/// None if the format is not valid. What a specifier becomes is determined by the
/// time and the format alone. It is never empty, but for a fraction `%.f` of zero. It
/// has no tilde, no slash at its beginning and no dot but before a digit, and is
/// neither a lone hyphen nor a piece of `.png`. No valid specifier takes in the dot
/// of a final `.png`.
#[verifier::external_body]
fn format_time(time: LocalTime, format: &str) -> (r: Option<String>)
    requires
        time.wf(),
    ensures
        text_of(r) == text_at_time(time.seconds, time.nanoseconds, time.offset, format@),
        may_format_to(format@, text_of(r)),
{
    let offset = chrono::FixedOffset::east_opt(time.offset).unwrap();
    let utc = chrono::DateTime::from_timestamp(time.seconds, time.nanoseconds).unwrap();
    let mut text = String::new();
    match write!(text, "{}", utc.with_timezone(&offset).format(format)) {
        Ok(()) => Some(text),
        Err(_) => None,
    }
}

/// `rest` as a path below `base`. An absolute path replaces the base.
pub open spec fn joined_path(base: Seq<char>, rest: Seq<char>) -> Seq<char> {
    if rest.len() > 0 && rest[0] == '/' {
        rest
    } else if base.len() == 0 || base.last() == '/' {
        base + rest
    } else {
        base.push('/') + rest
    }
}

fn join_path(base: &str, rest: &str) -> (r: String)
    ensures
        r@ == joined_path(base@, rest@),
{
    if rest.unicode_len() > 0 && rest.get_char(0) == '/' {
        return String::from_str(rest);
    }
    let mut path = String::from_str(base);
    let len: usize = base.unicode_len();
    if len > 0 && base.get_char(len - 1) != '/' {
        path.append("/");
        proof {
            reveal_strlit("/");
        }
        assert(path@ =~= base@.push('/'));
    }
    path.append(rest);
    path
}

/// The file name behind a configured one: the formatted text, or the configured
/// one where that is not a valid format, with the home directory in the place of
/// a leading tilde. None if there is a tilde and no home directory.
pub open spec fn spec_resolved_filename(
    formatted: Option<Seq<char>>,
    literal: Seq<char>,
    home: Option<Seq<char>>,
) -> Option<Seq<char>> {
    let name = match formatted {
        Some(text) => text,
        None => literal,
    };
    if "~/"@.is_prefix_of(name) {
        match home {
            Some(home) => Some(joined_path(home, name.skip(2))),
            None => None,
        }
    } else {
        Some(name)
    }
}

pub fn resolved_filename(formatted: Option<String>, literal: &str, home: Option<&str>) -> (r:
    Option<String>)
    ensures
        text_of(r) == spec_resolved_filename(text_of(formatted), literal@, str_text_of(home)),
{
    let name = match formatted {
        Some(text) => text,
        None => String::from_str(literal),
    };
    if !starts_with(name.as_str(), "~/") {
        return Some(name);
    }
    proof {
        reveal_strlit("~/");
    }
    let Some(home) = home else {
        return None;
    };
    let len: usize = name.as_str().unicode_len();
    let rest = name.as_str().substring_char(2, len);
    assert(rest@ =~= name@.skip(2));
    Some(join_path(home, rest))
}

/// The file name behind a configured one, at some time.
pub open spec fn may_resolve_to(
    output_filename: Seq<char>,
    home: Option<Seq<char>>,
    resolved: Option<Seq<char>>,
) -> bool {
    exists|time: LocalTime| #[trigger]
        time.wf() && resolves_at(time, output_filename, home, resolved)
}

/// The file name behind a configured one, at a time.
pub open spec fn resolves_at(
    time: LocalTime,
    output_filename: Seq<char>,
    home: Option<Seq<char>>,
    resolved: Option<Seq<char>>,
) -> bool {
    let formatted = time.text(output_filename);
    &&& may_format_to(output_filename, formatted)
    &&& resolved == spec_resolved_filename(formatted, output_filename, home)
}

/// The file name behind a configured one, at a time.
pub fn resolve_output_filename_at(time: LocalTime, output_filename: &str, home: Option<&str>) -> (r:
    Option<String>)
    requires
        time.wf(),
    ensures
        resolves_at(time, output_filename@, str_text_of(home), text_of(r)),
{
    let formatted = format_time(time, output_filename);
    resolved_filename(formatted, output_filename, home)
}

/// The file name behind a configured one, at the present time. There is none if
/// and only if the home directory is asked for and unknown.
pub fn resolve_output_filename(output_filename: &str, home: Option<&str>) -> (r: Option<String>)
    ensures
        may_resolve_to(output_filename@, str_text_of(home), text_of(r)),
        "~/"@.is_prefix_of(output_filename@) && home is None ==> r is None,
        r is None ==> home is None && ("~/"@.is_prefix_of(output_filename@) || has_fraction(
            output_filename@,
        )),
{
    let time = local_time();
    let r = resolve_output_filename_at(time, output_filename, home);
    proof {
        lemma_resolves_unless_homeless(output_filename@, str_text_of(home), text_of(r));
    }
    r
}

/// A configured file name has none behind it exactly if it begins with a tilde and
/// there is no home directory. A fraction of nothing can bring a tilde to the
/// beginning.
pub proof fn lemma_resolves_unless_homeless(
    output_filename: Seq<char>,
    home: Option<Seq<char>>,
    resolved: Option<Seq<char>>,
)
    requires
        may_resolve_to(output_filename, home, resolved),
    ensures
        home is Some ==> resolved is Some,
        home is None && "~/"@.is_prefix_of(output_filename) ==> resolved is None,
        resolved is None ==> "~/"@.is_prefix_of(output_filename) || has_fraction(output_filename),
{
    reveal_strlit("~/");
    if "~/"@.is_prefix_of(output_filename) {
        lemma_tilde_is_literal(output_filename);
    }
}

/// A leading tilde belongs to the part before the first percent sign.
proof fn lemma_tilde_is_literal(format: Seq<char>)
    requires
        "~/"@.is_prefix_of(format),
    ensures
        "~/"@.is_prefix_of(literal_prefix(format)),
        forall|text: Seq<char>| #[trigger]
            literal_prefix(format).is_prefix_of(text) ==> "~/"@.is_prefix_of(text),
{
    reveal_strlit("~/");
    let after = format.skip(1);
    assert(format[0] == "~/"@[0]);
    assert(format[1] == "~/"@[1]);
    assert(after[0] == '/');
    assert(literal_prefix(after) == seq![after[0]] + literal_prefix(after.skip(1)));
    assert(literal_prefix(format) == seq![format[0]] + literal_prefix(after));
    assert("~/"@ =~= literal_prefix(format).subrange(0, 2));
    assert forall|text: Seq<char>| #[trigger]
        literal_prefix(format).is_prefix_of(text) implies "~/"@.is_prefix_of(text) by {
        assert(literal_prefix(format)[0] == text[0]);
        assert(literal_prefix(format)[1] == text[1]);
        assert("~/"@ =~= text.subrange(0, 2));
    }
}

/// A file name without a percent sign does not depend on the time.
pub proof fn lemma_literal_name_resolves(
    output_filename: Seq<char>,
    home: Option<Seq<char>>,
    resolved: Option<Seq<char>>,
)
    requires
        !output_filename.contains('%'),
        may_resolve_to(output_filename, home, resolved),
    ensures
        resolved == spec_resolved_filename(Some(output_filename), output_filename, home),
{
}

/// The path of the configured file. None if nothing is configured, if the
/// rendering goes to the standard output, or if there is no home directory to put
/// in the place of a tilde.
pub fn configured_output_path(output_filename: Option<&str>, home: Option<&str>) -> (r: Option<
    String,
>)
    ensures
        output_filename is None ==> r is None,
        output_filename matches Some(name) ==> {
            &&& name@ == "-"@ ==> r is None
            &&& name@ != "-"@ ==> may_resolve_to(name@, str_text_of(home), text_of(r))
            &&& "~/"@.is_prefix_of(name@) && home is None ==> r is None
            &&& r is None ==> name@ == "-"@ || (home is None && ("~/"@.is_prefix_of(name@)
                || has_fraction(name@)))
        },
{
    let Some(name) = output_filename else {
        return None;
    };
    if same_text(name, "-") {
        return None;
    }
    resolve_output_filename(name, home)
}

/// Where a rendering is saved.
#[derive(Debug)]
pub enum SavePlan {
    /// No file name is configured.
    NoFilename,
    /// The file name begins with a tilde, and the home directory is unknown.
    NoHome,
    /// The file name does not end in `.png`, the only format there is.
    UnsupportedFormat,
    Stdout,
    File(String),
}

/// Where a rendering is saved, once the file name is known.
pub fn save_plan_for(resolved: Option<String>) -> (r: SavePlan)
    ensures
        match r {
            SavePlan::NoFilename => false,
            SavePlan::NoHome => resolved is None,
            SavePlan::Stdout => text_of(resolved) == Some("-"@),
            SavePlan::UnsupportedFormat => resolved is Some && resolved->0@ != "-"@
                && !".png"@.is_suffix_of(resolved->0@),
            SavePlan::File(name) => resolved == Some(name) && name@ != "-"@
                && ".png"@.is_suffix_of(name@),
        },
        saves_to(r, text_of(resolved)),
{
    match resolved {
        None => SavePlan::NoHome,
        Some(name) => if same_text(name.as_str(), "-") {
            SavePlan::Stdout
        } else if ends_with(name.as_str(), ".png") {
            SavePlan::File(name)
        } else {
            SavePlan::UnsupportedFormat
        },
    }
}

/// The plan for a file name.
pub open spec fn saves_to(plan: SavePlan, resolved: Option<Seq<char>>) -> bool {
    match resolved {
        None => plan is NoHome,
        Some(name) => if name == "-"@ {
            plan is Stdout
        } else if ".png"@.is_suffix_of(name) {
            plan matches SavePlan::File(file) && file@ == name
        } else {
            plan is UnsupportedFormat
        },
    }
}

/// The plan is of the kind that a file name has, whatever the file.
pub open spec fn saves_like(plan: SavePlan, resolved: Option<Seq<char>>) -> bool {
    match resolved {
        None => plan is NoHome,
        Some(name) => if name == "-"@ {
            plan is Stdout
        } else if ".png"@.is_suffix_of(name) {
            plan is File
        } else {
            plan is UnsupportedFormat
        },
    }
}

/// Where a rendering is saved at the present time. A name that ends in `.png` means
/// a file at any time; and unless it asks for the fraction of the second, every
/// name is saved like the name itself, before anything in it is replaced by the
/// time.
pub fn plan_save(output_filename: Option<&str>, home: Option<&str>) -> (r: SavePlan)
    ensures
        r is NoFilename <==> output_filename is None,
        output_filename matches Some(name) ==> {
            &&& exists|resolved: Option<Seq<char>>|
                {
                    &&& #[trigger] may_resolve_to(name@, str_text_of(home), resolved)
                    &&& saves_to(r, resolved)
                }
            &&& ".png"@.is_suffix_of(name@) ==> r is File || r is NoHome
            &&& "~/"@.is_prefix_of(name@) && home is None ==> r is NoHome
            &&& r is NoHome ==> home is None && ("~/"@.is_prefix_of(name@) || has_fraction(name@))
            &&& !has_fraction(name@) && str_text_of(home) != Some(Seq::<char>::empty())
                ==> saves_like(r, spec_resolved_filename(None, name@, str_text_of(home)))
        },
{
    match output_filename {
        None => SavePlan::NoFilename,
        Some(name) => {
            let resolved = resolve_output_filename(name, home);
            let ghost text = text_of(resolved);
            let plan = save_plan_for(resolved);
            proof {
                let home = str_text_of(home);
                assert(saves_to(plan, text));
                if ".png"@.is_suffix_of(name@) {
                    lemma_png_stays(name@, home, text);
                }
                if !has_fraction(name@) && home != Some(Seq::<char>::empty()) {
                    lemma_saved_like_its_name(name@, home, text);
                }
            }
            plan
        },
    }
}

/// The ending `.png`, character by character.
proof fn lemma_png_ending(name: Seq<char>)
    ensures
        ".png"@.is_suffix_of(name) <==> {
            &&& name.len() >= 4
            &&& name[name.len() - 4] == '.'
            &&& name[name.len() - 3] == 'p'
            &&& name[name.len() - 2] == 'n'
            &&& name[name.len() - 1] == 'g'
        },
{
    reveal_strlit(".png");
    if name.len() >= 4 {
        let ending = name.subrange(name.len() - 4, name.len() as int);
        assert(ending[0] == name[name.len() - 4]);
        assert(ending[1] == name[name.len() - 3]);
        assert(ending[2] == name[name.len() - 2]);
        assert(ending[3] == name[name.len() - 1]);
        assert(ending == ".png"@ <==> ending =~= ".png"@);
    }
}

/// What follows a slash ends in `.png` if and only if the whole path does.
proof fn lemma_png_after_slash(front: Seq<char>, rest: Seq<char>)
    requires
        front.len() > 0,
        front.last() == '/',
    ensures
        ".png"@.is_suffix_of(front + rest) <==> ".png"@.is_suffix_of(rest),
        front + rest != "-"@,
{
    let path = front + rest;
    let f = front.len() as int;
    let m = rest.len() as int;
    lemma_png_ending(path);
    lemma_png_ending(rest);
    reveal_strlit("-");
    assert(path[f - 1] == '/');
    if m >= 4 {
        assert(path[f + m - 4] == rest[m - 4]);
        assert(path[f + m - 3] == rest[m - 3]);
        assert(path[f + m - 2] == rest[m - 2]);
        assert(path[f + m - 1] == rest[m - 1]);
    }
}

/// A path below another ends in `.png` if and only if its own part does.
proof fn lemma_joined_png(base: Seq<char>, rest: Seq<char>)
    ensures
        ".png"@.is_suffix_of(joined_path(base, rest)) <==> ".png"@.is_suffix_of(rest),
        joined_path(base, rest) == "-"@ ==> base.len() == 0,
{
    if rest.len() > 0 && rest[0] == '/' {
        reveal_strlit("-");
        assert(rest != "-"@) by {
            assert("-"@[0] == '-');
        }
    } else if base.len() == 0 {
        assert(base + rest =~= rest);
    } else if base.last() == '/' {
        lemma_png_after_slash(base, rest);
    } else {
        lemma_png_after_slash(base.push('/'), rest);
    }
}

/// What follows a leading tilde ends in `.png` if and only if the whole name does.
proof fn lemma_tilde_png(name: Seq<char>)
    requires
        "~/"@.is_prefix_of(name),
    ensures
        ".png"@.is_suffix_of(name.skip(2)) <==> ".png"@.is_suffix_of(name),
        name != "-"@,
{
    reveal_strlit("~/");
    assert(name[1] == "~/"@[1]);
    assert(name.take(2) + name.skip(2) =~= name);
    lemma_png_after_slash(name.take(2), name.skip(2));
}

/// At any time, the file behind a name that ends in `.png` is such a file too.
pub proof fn lemma_png_stays(
    output_filename: Seq<char>,
    home: Option<Seq<char>>,
    resolved: Option<Seq<char>>,
)
    requires
        ".png"@.is_suffix_of(output_filename),
        may_resolve_to(output_filename, home, resolved),
    ensures
        resolved matches Some(name) ==> ".png"@.is_suffix_of(name) && name != "-"@,
{
    reveal_strlit(".png");
    reveal_strlit("-");
    let time = choose|time: LocalTime| #[trigger]
        time.wf() && resolves_at(time, output_filename, home, resolved);
    let name = match time.text(output_filename) {
        Some(text) => text,
        None => output_filename,
    };
    if "~/"@.is_prefix_of(name) && home is Some {
        lemma_tilde_png(name);
        lemma_joined_png(home->0, name.skip(2));
    }
}

/// The time has no part in how a name is saved: as the standard output, as a file,
/// or not at all, for want of a home directory or of the right ending. Left out are
/// names that ask for the fraction of the second, and a home directory without a
/// name.
pub proof fn lemma_saved_like_its_name(
    output_filename: Seq<char>,
    home: Option<Seq<char>>,
    resolved: Option<Seq<char>>,
)
    requires
        !has_fraction(output_filename),
        home != Some(Seq::<char>::empty()),
        may_resolve_to(output_filename, home, resolved),
    ensures
        forall|plan: SavePlan| #[trigger]
            saves_to(plan, resolved) ==> saves_like(
                plan,
                spec_resolved_filename(None, output_filename, home),
            ),
{
    let time = choose|time: LocalTime| #[trigger]
        time.wf() && resolves_at(time, output_filename, home, resolved);
    if let Some(text) = time.text(output_filename) {
        if "~/"@.is_prefix_of(output_filename) {
            lemma_tilde_is_literal(output_filename);
            assert("~/"@.is_prefix_of(text));
        }
        if "~/"@.is_prefix_of(text) {
            lemma_tilde_png(text);
            lemma_tilde_png(output_filename);
            if let Some(home) = home {
                assert(home.len() > 0) by {
                    if home.len() == 0 {
                        assert(home =~= Seq::<char>::empty());
                    }
                }
                lemma_joined_png(home, text.skip(2));
                lemma_joined_png(home, output_filename.skip(2));
            }
        } else if output_filename == "-"@ {
            reveal_strlit("-");
            assert(!output_filename.contains('%'));
        }
    }
}

/// The largest file that is taken for a remembered directory.
pub const SAVE_AS_LAST_DIR_MAX_BYTES: u64 = 10_000;

/// Tells whether a remembered directory is read at all: it has to be in a regular
/// file of moderate size.
pub fn last_dir_file_is_usable(is_file: bool, len: u64) -> (r: bool)
    ensures
        r == (is_file && len <= SAVE_AS_LAST_DIR_MAX_BYTES),
{
    is_file && len <= SAVE_AS_LAST_DIR_MAX_BYTES
}

/// A directory by its path, and whether there is such a directory.
#[derive(Debug, Clone)]
pub struct DirCandidate {
    pub path: String,
    pub is_dir: bool,
}

/// The directory in which a file is chosen first: the remembered one, or else
/// that of the configured file, as far as they exist.
pub open spec fn spec_save_as_initial_dir(
    last_dir: Option<DirCandidate>,
    configured_dir: Option<DirCandidate>,
) -> Option<String> {
    if last_dir is Some && last_dir->0.is_dir {
        Some(last_dir->0.path)
    } else if configured_dir is Some && configured_dir->0.is_dir {
        Some(configured_dir->0.path)
    } else {
        None
    }
}

pub fn save_as_initial_dir(
    last_dir: Option<DirCandidate>,
    configured_dir: Option<DirCandidate>,
) -> (r: Option<String>)
    ensures
        r == spec_save_as_initial_dir(last_dir, configured_dir),
{
    if let Some(dir) = last_dir {
        if dir.is_dir {
            return Some(dir.path);
        }
    }
    match configured_dir {
        Some(dir) => if dir.is_dir {
            Some(dir.path)
        } else {
            None
        },
        None => None,
    }
}

/// The directory part of a path.
pub uninterp spec fn path_parent_of(path: Seq<char>) -> Option<Seq<char>>;

/// The last part of a path.
pub uninterp spec fn path_file_name_of(path: Seq<char>) -> Option<Seq<char>>;

/// `Path::parent` of the standard library: the path without its final component,
/// which is determined by the path alone.
#[verifier::external_body]
fn path_parent(path: &str) -> (r: Option<String>)
    ensures
        text_of(r) == path_parent_of(path@),
{
    std::path::Path::new(path).parent().map(|parent| parent.to_string_lossy().into_owned())
}

/// `Path::file_name` of the standard library: the final component of the path, if
/// that is a name, which is determined by the path alone.
#[verifier::external_body]
fn path_file_name(path: &str) -> (r: Option<String>)
    ensures
        text_of(r) == path_file_name_of(path@),
{
    std::path::Path::new(path).file_name().map(|name| name.to_string_lossy().into_owned())
}

/// The directory of the configured file.
pub fn configured_dir(output_path: Option<&str>) -> (r: Option<String>)
    ensures
        text_of(r) == match output_path {
            Some(path) => path_parent_of(path@),
            None => None,
        },
{
    match output_path {
        Some(path) => path_parent(path),
        None => None,
    }
}

/// The name that is suggested for the file: that of the configured one.
pub fn suggested_filename(output_path: Option<&str>) -> (r: Option<String>)
    ensures
        text_of(r) == match output_path {
            Some(path) => path_file_name_of(path@),
            None => None,
        },
{
    match output_path {
        Some(path) => path_file_name(path),
        None => None,
    }
}

/// How a file is chosen: whether the dialog is modal, the directory that it
/// shows first, and the name that it suggests.
#[derive(Debug)]
pub struct SaveAsPlan {
    pub is_modal: bool,
    pub initial_dir: Option<String>,
    pub suggested_filename: Option<String>,
}

/// How a file is chosen. `output_path` is the path of the configured file, and
/// `last_dir` and `output_dir` are the directories that come into question.
pub fn plan_save_as(
    is_modal: bool,
    output_path: Option<&str>,
    last_dir: Option<DirCandidate>,
    output_dir: Option<DirCandidate>,
) -> (r: SaveAsPlan)
    ensures
        r.is_modal == is_modal,
        r.initial_dir == spec_save_as_initial_dir(last_dir, output_dir),
        text_of(r.suggested_filename) == match output_path {
            Some(path) => path_file_name_of(path@),
            None => None,
        },
{
    SaveAsPlan {
        is_modal,
        initial_dir: save_as_initial_dir(last_dir, output_dir),
        suggested_filename: suggested_filename(output_path),
    }
}

/// What is written down after a file was saved: the directory that it is in. None
/// if nothing is written.
pub fn remembered_dir(output_filename: &str) -> (r: Option<String>)
    ensures
        text_of(r) == path_parent_of(output_filename@),
{
    path_parent(output_filename)
}

pub const APP_NAME: &'static str = "satty";

pub const SAVE_AS_LAST_DIR_FILE: &'static str = "save_as_last_dir";

/// A relative path of one component.
pub open spec fn plain_name(name: Seq<char>) -> bool {
    name.len() > 0 && !name.contains('/')
}

/// `BaseDirectories::get_state_file` of the crate `xdg`, for the program `prefix`:
/// the path of the file `name` in the directory of that program, below the one
/// that the environment names for the state of programs. It is given by its bytes,
/// in which texts are UTF-8, but which need not be a text as a whole. Which
/// directory that is, and whether there is one, depends on the environment and is
/// left unsaid.
#[verifier::external_body]
fn state_file(prefix: &str, name: &str) -> (r: Option<Vec<u8>>)
    requires
        plain_name(prefix@),
        plain_name(name@),
    ensures
        r matches Some(path) ==> (seq![47u8] + prefix.spec_bytes() + seq![47u8]
            + name.spec_bytes()).is_suffix_of(path@),
{
    let dirs = xdg::BaseDirectories::with_prefix(prefix);
    dirs.get_state_file(name).map(|path| path.into_os_string().into_encoded_bytes())
}

/// The path of the file that remembers where a rendering was saved last, byte by
/// byte.
pub fn save_as_last_dir_file() -> (r: Option<Vec<u8>>)
    ensures
        r matches Some(path) ==> "/satty/save_as_last_dir".spec_bytes().is_suffix_of(path@),
{
    proof {
        reveal_strlit("satty");
        reveal_strlit("save_as_last_dir");
        reveal_strlit("/satty/save_as_last_dir");
        assert("/satty/save_as_last_dir".is_ascii());
        assert("satty".is_ascii());
        assert("save_as_last_dir".is_ascii());
        assert("/satty/save_as_last_dir".spec_bytes() =~= seq![47u8] + APP_NAME.spec_bytes()
            + seq![47u8] + SAVE_AS_LAST_DIR_FILE.spec_bytes());
    }
    state_file(APP_NAME, SAVE_AS_LAST_DIR_FILE)
}

/// What is done once a dialog for saving is closed.
#[derive(Debug)]
pub enum SaveAsAnswer {
    /// The chosen file has no path: forget about it.
    Forget,
    /// Nothing was chosen: go on without a file.
    NotSaved,
    /// Write the rendering to this file.
    Write(String),
}

/// The answer of a dialog: whether it was accepted, and the chosen file, if any,
/// with its path, if it has one.
pub fn save_as_answer(accepted: bool, file: Option<Option<String>>) -> (r: SaveAsAnswer)
    ensures
        r == match file {
            Some(Some(path)) if accepted => SaveAsAnswer::Write(path),
            Some(None) if accepted => SaveAsAnswer::Forget,
            _ => SaveAsAnswer::NotSaved,
        },
{
    if !accepted {
        return SaveAsAnswer::NotSaved;
    }
    match file {
        Some(Some(path)) => SaveAsAnswer::Write(path),
        Some(None) => SaveAsAnswer::Forget,
        None => SaveAsAnswer::NotSaved,
    }
}

/// What follows a dialog for saving: `saved` is the file that was written, if one
/// was. The program ends after a save if it is configured so; otherwise the
/// actions that waited are done, unless nothing was saved and nothing waits.
pub fn after_save_as<S>(
    saved: Option<String>,
    early_exit_save_as: bool,
    pix_buf: PixelBuffer,
    followup: Vec<Action>,
) -> (r: Option<SketchBoardInput<S>>)
    ensures
        r == (if saved is Some && early_exit_save_as {
            Some(SketchBoardInput::<S>::Exit)
        } else if saved is Some || followup@.len() > 0 {
            Some(SketchBoardInput::<S>::RenderResultFollowup(Some(pix_buf), followup, saved))
        } else {
            None
        }),
        r is None <==> saved is None && followup@.len() == 0,
        r matches Some(SketchBoardInput::RenderResultFollowup(pixels, waiting, file)) ==> {
            &&& pixels == Some(pix_buf)
            &&& waiting == followup
            &&& file == saved
            &&& !(saved is Some && early_exit_save_as)
        },
        saved is Some && early_exit_save_as <==> r matches Some(SketchBoardInput::Exit),
{
    if saved.is_some() && early_exit_save_as {
        Some(SketchBoardInput::Exit)
    } else if saved.is_some() || followup.len() > 0 {
        Some(SketchBoardInput::RenderResultFollowup(Some(pix_buf), followup, saved))
    } else {
        None
    }
}

/// The input method that is asked for by name: both names of fcitx mean the same
/// one, and no other is asked for.
pub fn im_context_id(module: Option<&str>) -> (r: Option<&'static str>)
    ensures
        r == (if module is Some && (same_ignoring_case(module->0@, "fcitx"@)
            || same_ignoring_case(module->0@, "fcitx5"@)) {
            Some("fcitx")
        } else {
            None
        }),
{
    match module {
        Some(module) => if eq_ignore_ascii_case(module, "fcitx") || eq_ignore_ascii_case(
            module,
            "fcitx5",
        ) {
            Some("fcitx")
        } else {
            None
        },
        None => None,
    }
}

/// The place of the cursor in a text that is being composed. A negative one means
/// that there is no cursor.
pub fn preedit_cursor(cursor: i32) -> (r: Option<usize>)
    ensures
        r == (if cursor >= 0 {
            Some(cursor as usize)
        } else {
            None
        }),
{
    if cursor >= 0 {
        Some(cursor as usize)
    } else {
        None
    }
}

/// A path below another begins with that and ends with its own part, with one slash
/// between them at most; an absolute one stands for itself.
pub proof fn lemma_joined_path_has_both_parts(base: Seq<char>, rest: Seq<char>)
    ensures
        ({
            let joined = joined_path(base, rest);
            &&& rest.is_suffix_of(joined)
            &&& rest.len() > 0 && rest[0] == '/' ==> joined == rest
            &&& !(rest.len() > 0 && rest[0] == '/') ==> {
                &&& base.is_prefix_of(joined)
                &&& joined.len() <= base.len() + rest.len() + 1
                &&& base.len() > 0 ==> joined[joined.len() - rest.len() - 1] == '/'
                &&& base.len() > 0 && base.last() == '/' ==> joined.len() == base.len()
                    + rest.len()
            }
        }),
{
    let joined = joined_path(base, rest);
    assert(rest =~= joined.subrange(joined.len() - rest.len(), joined.len() as int));
    if !(rest.len() > 0 && rest[0] == '/') {
        assert(base =~= joined.subrange(0, base.len() as int));
    }
}

/// A name that begins with a tilde stands for a file below the home directory; any
/// other name stands for itself.
pub proof fn lemma_tilde_stands_for_home(name: Seq<char>, rest: Seq<char>, home: Seq<char>)
    ensures
        ({
            let tilde = seq!['~', '/'] + rest;
            let file = spec_resolved_filename(Some(tilde), name, Some(home));
            &&& file is Some
            &&& rest.is_suffix_of(file->0)
            &&& !(rest.len() > 0 && rest[0] == '/') ==> home.is_prefix_of(file->0)
            &&& spec_resolved_filename(None, tilde, Some(home)) == file
            &&& spec_resolved_filename(Some(tilde), name, None) is None
        }),
        !(name.len() >= 2 && name[0] == '~' && name[1] == '/') ==> spec_resolved_filename(
            Some(name),
            rest,
            Some(home),
        ) == Some(name) && spec_resolved_filename(None, name, None) == Some(name),
{
    reveal_strlit("~/");
    let tilde = seq!['~', '/'] + rest;
    assert("~/"@ =~= tilde.subrange(0, 2));
    assert(tilde.skip(2) =~= rest);
    lemma_joined_path_has_both_parts(home, rest);
    if "~/"@.is_prefix_of(name) {
        assert(name[0] == "~/"@[0] && name[1] == "~/"@[1]);
    }
}

/// The action ends what is done with a rendering: the program ends, or a file name is
/// asked for.
pub open spec fn is_last<S>(has_pixbuf: bool, action: Action, config: Configuration<S>) -> bool {
    match action {
        Action::Exit | Action::SaveToFileAs => true,
        Action::SaveToFile => has_pixbuf && config.early_exit,
        Action::SaveToClipboard => has_pixbuf && config.early_exit && !config.auto_copy,
        Action::CopyFilepathToClipboard => false,
    }
}

/// Actions are done in their order: what comes first is done first, as long as nothing
/// ends it.
pub proof fn lemma_actions_are_done_in_order<S>(
    has_pixbuf: bool,
    first: Seq<Action>,
    then_: Seq<Action>,
    config: Configuration<S>,
)
    requires
        forall|i: int|
            0 <= i < first.len() ==> !is_last(has_pixbuf, #[trigger] first[i], config),
    ensures
        render_steps(has_pixbuf, first + then_, config) == render_steps(has_pixbuf, first, config)
            + render_steps(has_pixbuf, then_, config),
    decreases first.len(),
{
    let all = first + then_;
    let rest = render_steps(has_pixbuf, then_, config);
    if first.len() == 0 {
        assert(all =~= then_);
        assert(render_steps(has_pixbuf, first, config) + rest =~= rest);
    } else {
        let tail = first.skip(1);
        assert forall|i: int| 0 <= i < tail.len() implies !is_last(
            has_pixbuf,
            #[trigger] tail[i],
            config,
        ) by {
            assert(tail[i] == first[i + 1]);
        }
        lemma_actions_are_done_in_order(has_pixbuf, tail, then_, config);
        assert(all[0] == first[0]);
        assert(all.skip(1) =~= tail + then_);
        assert(!is_last(has_pixbuf, first[0], config));
        assert(render_steps(has_pixbuf, all, config) =~= render_steps(has_pixbuf, first, config)
            + rest);
    }
}

/// What one action does, and that nothing is done after an action that ends it, except
/// that a save under a new name is told what waits for it.
pub proof fn lemma_what_one_action_does<S>(
    has_pixbuf: bool,
    rest: Seq<Action>,
    config: Configuration<S>,
)
    ensures
        ({
            let done = |action: Action, has: bool|
                render_steps(has, seq![action] + rest, config);
            let alone = |action: Action, has: bool| render_steps(has, seq![action], config);
            &&& alone(Action::CopyFilepathToClipboard, has_pixbuf) == seq![
                RenderStepView::CopyFilepath,
            ]
            &&& alone(Action::SaveToClipboard, false) == Seq::<RenderStepView>::empty()
            &&& alone(Action::SaveToFile, false) == Seq::<RenderStepView>::empty()
            &&& alone(Action::SaveToClipboard, true)[0] is CopyClipboard
            &&& alone(Action::SaveToFile, true)[0] is Save
            &&& done(Action::Exit, has_pixbuf) == seq![RenderStepView::Exit]
            &&& done(Action::SaveToFileAs, false) == Seq::<RenderStepView>::empty()
            &&& done(Action::SaveToFileAs, true) == seq![
                RenderStepView::SaveAs {
                    is_modal: config.early_exit_save_as || rest.len() > 0,
                    followup: rest,
                },
            ]
            &&& config.early_exit ==> done(Action::SaveToFile, true) == seq![
                RenderStepView::Save,
                RenderStepView::EarlyExit,
            ]
            &&& config.early_exit && !config.auto_copy ==> done(Action::SaveToClipboard, true)
                == seq![RenderStepView::CopyClipboard, RenderStepView::EarlyExit]
        }),
{
    let none = Seq::<Action>::empty();
    let nothing = Seq::<RenderStepView>::empty();
    lemma_first_action(Action::CopyFilepathToClipboard, none);
    lemma_first_action(Action::SaveToClipboard, none);
    lemma_first_action(Action::SaveToFile, none);
    lemma_first_action(Action::Exit, rest);
    lemma_first_action(Action::SaveToFileAs, rest);
    lemma_first_action(Action::SaveToFile, rest);
    lemma_first_action(Action::SaveToClipboard, rest);
    assert(seq![Action::CopyFilepathToClipboard] + none =~= seq![
        Action::CopyFilepathToClipboard,
    ]);
    assert(seq![Action::SaveToClipboard] + none =~= seq![Action::SaveToClipboard]);
    assert(seq![Action::SaveToFile] + none =~= seq![Action::SaveToFile]);
    assert(render_steps(has_pixbuf, none, config) =~= nothing);
    assert(render_steps(true, none, config) =~= nothing);
    assert(render_steps(false, none, config) =~= nothing);
    assert(seq![RenderStepView::CopyFilepath] + nothing =~= seq![RenderStepView::CopyFilepath]);
}

proof fn lemma_first_action(action: Action, rest: Seq<Action>)
    ensures
        (seq![action] + rest).len() == rest.len() + 1,
        (seq![action] + rest)[0] == action,
        (seq![action] + rest).skip(1) == rest,
{
    assert((seq![action] + rest).skip(1) =~= rest);
}

} // verus!
