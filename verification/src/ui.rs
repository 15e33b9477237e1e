//! How Beacon gives feedback: the feedback mode, colors, and how statuses are shown.
use crate::reports::{status_name, ToolStatus};
use crate::text::{chars_of, string_from_chars};
use vstd::prelude::*;

verus! {

/// How progress is shown.
#[derive(Debug, Clone, Copy, PartialEq, Eq, Structural)]
pub enum FeedbackMode {
    /// An animated spinner on an interactive terminal.
    Spinner,
    /// Plain stage lines on redirected output.
    Plain,
    /// Nothing, so that machine output stays clean.
    Silent,
    /// Child output streamed, after redaction.
    Verbose,
}

/// The feedback mode: verbose where asked (its lines go to standard error, beside any JSON),
/// silent for JSON output, a spinner on a terminal, plain lines otherwise.
pub open spec fn feedback_mode(is_tty: bool, json: bool, verbose: bool) -> FeedbackMode {
    if verbose {
        FeedbackMode::Verbose
    } else if json {
        FeedbackMode::Silent
    } else if is_tty {
        FeedbackMode::Spinner
    } else {
        FeedbackMode::Plain
    }
}

impl FeedbackMode {
    /// The feedback mode for the terminal and the flags given.
    pub fn select(is_tty: bool, json: bool, verbose: bool) -> (r: FeedbackMode)
        ensures
            r == feedback_mode(is_tty, json, verbose),
    {
        if verbose {
            FeedbackMode::Verbose
        } else if json {
            FeedbackMode::Silent
        } else if is_tty {
            FeedbackMode::Spinner
        } else {
            FeedbackMode::Plain
        }
    }
}

/// The spinner template: with colored spinner and dimmed elapsed time where colors are on.
pub fn spinner_template(colors: bool) -> (r: &'static str)
    ensures
        colors ==> r@ == "{spinner:.cyan} {msg} {elapsed:.dim}"@,
        !colors ==> r@ == "{spinner} {msg} {elapsed}"@,
{
    if colors {
        "{spinner:.cyan} {msg} {elapsed:.dim}"
    } else {
        "{spinner} {msg} {elapsed}"
    }
}

/// The colors statuses are shown in.
#[derive(Debug, Clone, Copy, PartialEq, Eq, Structural)]
pub enum StatusColor {
    Green,
    Yellow,
    Red,
}

/// The color of each status: green for current, yellow for outdated, missing and unmanaged,
/// red for failed.
pub open spec fn color_of(status: ToolStatus) -> StatusColor {
    match status {
        ToolStatus::Current => StatusColor::Green,
        ToolStatus::Outdated | ToolStatus::Missing | ToolStatus::Unmanaged => StatusColor::Yellow,
        ToolStatus::Failed => StatusColor::Red,
    }
}

/// The ANSI foreground color code of each color.
pub open spec fn color_code(c: StatusColor) -> Seq<char> {
    match c {
        StatusColor::Green => "32"@,
        StatusColor::Yellow => "33"@,
        StatusColor::Red => "31"@,
    }
}

/// Text in a foreground color, as the terminal escape sequences write it.
pub open spec fn colored(c: StatusColor, text: Seq<char>) -> Seq<char> {
    seq!['\x1b', '['] + color_code(c) + seq!['m'] + text + seq!['\x1b', '[', '0', 'm']
}

/// `console::Style` with the color as foreground, styling forced on, applied to the text and
/// displayed. It claims what console's source shows for such a style: the foreground escape
/// (`ESC[3<n>m`), the text, then the reset (`ESC[0m`).
#[verifier::external_body]
fn paint(c: StatusColor, text: &str) -> (r: String)
    ensures
        r@ == colored(c, text@),
{
    let color = match c {
        StatusColor::Green => console::Color::Green,
        StatusColor::Yellow => console::Color::Yellow,
        StatusColor::Red => console::Color::Red,
    };
    console::Style::new().fg(color).force_styling(true).apply_to(text).to_string()
}

/// `s` padded with spaces on the right to `width` characters.
pub open spec fn padded(s: Seq<char>, width: int) -> Seq<char> {
    if s.len() >= width {
        s
    } else {
        s + Seq::new((width - s.len()) as nat, |i: int| ' ')
    }
}

/// The status name, padded to `width`, in the status color where colors are on.
pub fn status_text(status: ToolStatus, colors: bool, width: usize) -> (r: String)
    ensures
        !colors ==> r@ == padded(status_name(status), width as int),
        colors ==> r@ == colored(color_of(status), padded(status_name(status), width as int)),
{
    let mut text = chars_of(status.as_str());
    let ghost name = text@;
    while text.len() < width
        invariant
            name == status_name(status),
            name.len() <= text@.len(),
            text@.subrange(0, name.len() as int) == name,
            forall|i: int| name.len() <= i < text@.len() ==> text@[i] == ' ',
            text@.len() <= width || text@.len() == name.len(),
        decreases width - text.len(),
    {
        text.push(' ');
    }
    proof {
        let p = padded(name, width as int);
        if name.len() >= width {
            assert(text@ =~= name);
        } else {
            assert(text@ =~= p);
        }
    }
    let shown = string_from_chars(&text);
    if colors {
        let c = match status {
            ToolStatus::Current => StatusColor::Green,
            ToolStatus::Outdated | ToolStatus::Missing | ToolStatus::Unmanaged => StatusColor::Yellow,
            ToolStatus::Failed => StatusColor::Red,
        };
        paint(c, shown.as_str())
    } else {
        shown
    }
}

/// The feedback settings of one run: its mode and whether colors are on.
#[derive(Debug, Clone, Copy, PartialEq, Eq, Structural)]
pub struct Ui {
    mode: FeedbackMode,
    colors: bool,
}

impl Ui {
    /// The settings for the flags given, whether standard error is a terminal and whether the
    /// `NO_COLOR` environment variable is set: colors only on a terminal, and only where
    /// neither `--no-color` nor `NO_COLOR` turns them off.
    pub fn new(json: bool, verbose: bool, no_color: bool, is_tty: bool, no_color_env: bool) -> (r:
        Ui)
        ensures
            r.mode_view() == feedback_mode(is_tty, json, verbose),
            r.colors_view() == (is_tty && !no_color && !no_color_env),
    {
        Ui { mode: FeedbackMode::select(is_tty, json, verbose), colors: is_tty && !no_color && !no_color_env }
    }

    /// The feedback mode.
    pub closed spec fn mode_view(&self) -> FeedbackMode {
        self.mode
    }

    /// Whether colors are on.
    pub closed spec fn colors_view(&self) -> bool {
        self.colors
    }

    /// The feedback mode.
    pub fn mode(&self) -> (r: FeedbackMode)
        ensures
            r == self.mode_view(),
    {
        self.mode
    }

    /// Whether colors are on.
    pub fn colors(&self) -> (r: bool)
        ensures
            r == self.colors_view(),
    {
        self.colors
    }
}

/// What a started stage shows.
#[derive(Debug, Clone, Copy, PartialEq, Eq, Structural)]
pub enum StageDisplay {
    /// Create the spinner with the stage's label.
    NewSpinner,
    /// Show the stage's label on the spinner already running.
    Relabel,
    /// Print the stage's label on a line of its own.
    Line,
    /// Show nothing.
    Nothing,
}

/// The stages under way, and whether a spinner is shown for them.
#[derive(Debug)]
pub struct ProgressState {
    active: usize,
    spinning: bool,
}

impl ProgressState {
    /// The number of stages under way.
    pub closed spec fn active_view(&self) -> nat {
        self.active as nat
    }

    /// Whether a spinner is shown.
    pub closed spec fn spinning_view(&self) -> bool {
        self.spinning
    }

    /// No stage under way and no spinner.
    pub fn new() -> (r: ProgressState)
        ensures
            r.active_view() == 0,
            !r.spinning_view(),
    {
        ProgressState { active: 0, spinning: false }
    }

    /// Starts a stage: in spinner mode it is counted and shown on the one spinner, created for
    /// the first stage; other modes print the stage's label or nothing and count nothing.
    pub fn start(&mut self, mode: FeedbackMode) -> (r: StageDisplay)
        ensures
            mode == FeedbackMode::Spinner ==> final(self).active_view() == (if old(self).active_view()
                < usize::MAX {
                old(self).active_view() + 1
            } else {
                old(self).active_view()
            }) && final(self).spinning_view() && r == (if old(self).spinning_view() {
                StageDisplay::Relabel
            } else {
                StageDisplay::NewSpinner
            }),
            mode != FeedbackMode::Spinner ==> *final(self) == *old(self),
            (mode == FeedbackMode::Plain || mode == FeedbackMode::Verbose) ==> r == StageDisplay::Line,
            mode == FeedbackMode::Silent ==> r == StageDisplay::Nothing,
    {
        match mode {
            FeedbackMode::Spinner => {
                if self.active < usize::MAX {
                    self.active = self.active + 1;
                }
                if self.spinning {
                    StageDisplay::Relabel
                } else {
                    self.spinning = true;
                    StageDisplay::NewSpinner
                }
            },
            FeedbackMode::Plain | FeedbackMode::Verbose => StageDisplay::Line,
            FeedbackMode::Silent => StageDisplay::Nothing,
        }
    }

    /// Finishes a stage; returns whether the spinner is to be cleared, which it is when no
    /// stage remains under way.
    pub fn finish(&mut self) -> (clear: bool)
        ensures
            final(self).active_view() == (if old(self).active_view() > 0 {
                old(self).active_view() - 1
            } else {
                0
            }),
            clear == (final(self).active_view() == 0 && old(self).spinning_view()),
            final(self).spinning_view() == (old(self).spinning_view() && final(self).active_view() > 0),
    {
        if self.active > 0 {
            self.active = self.active - 1;
        }
        if self.active == 0 && self.spinning {
            self.spinning = false;
            true
        } else {
            false
        }
    }
}

} // verus!
