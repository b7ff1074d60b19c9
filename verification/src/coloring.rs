//! Colors, shell dialects, and the text of a prompt segment.

use vstd::prelude::*;
use crate::git::{glyphs, Directory, PathAndInfo, Status, Statuses};

verus! {

/// One of the eight colors that every terminal names.
#[derive(Debug, Clone, Copy, PartialEq, Eq, Structural, PartialOrd, Ord)]
pub enum Color {
    Black,
    Red,
    Green,
    Yellow,
    Blue,
    Magenta,
    Cyan,
    White,
}

/// The shell that will read the prompt. It decides how a color is written,
/// how the shell is asked for its current directory, and what stands around
/// the segment in a full prompt.
#[derive(Debug, Clone, Copy, PartialEq, Eq, Structural)]
pub enum ShellDialect {
    Zsh,
    Bash,
}

/// How much to write: the whole prompt, or the path and status alone.
#[derive(Debug, Clone, Copy, PartialEq, Eq, Structural)]
pub enum RenderMode {
    Full,
    PathAndStatusOnly,
}

/// The color of the directory and the color of the status glyphs.
#[derive(Debug, Clone, Copy, PartialEq, Eq, Structural)]
pub struct OutputColoring {
    pub work_dir: Color,
    pub git_status: Color,
}

impl Color {
    /// The lower-case English name of the color.
    pub open spec fn spec_name(self) -> Seq<char> {
        match self {
            Color::Black => "black"@,
            Color::Red => "red"@,
            Color::Green => "green"@,
            Color::Yellow => "yellow"@,
            Color::Blue => "blue"@,
            Color::Magenta => "magenta"@,
            Color::Cyan => "cyan"@,
            Color::White => "white"@,
        }
    }

    /// The number of the color as a foreground color in an ANSI escape
    /// sequence.
    pub open spec fn spec_ansi_code(self) -> Seq<char> {
        match self {
            Color::Black => "30"@,
            Color::Red => "31"@,
            Color::Green => "32"@,
            Color::Yellow => "33"@,
            Color::Blue => "34"@,
            Color::Magenta => "35"@,
            Color::Cyan => "36"@,
            Color::White => "37"@,
        }
    }

    /// What switches the shell's output to this color.
    pub open spec fn spec_escape(self, dialect: ShellDialect) -> Seq<char> {
        match dialect {
            ShellDialect::Zsh => "%F{"@ + self.spec_name() + "}"@,
            ShellDialect::Bash => "\\[\\033["@ + self.spec_ansi_code() + "m\\]"@,
        }
    }

    /// The lower-case English name of the color.
    pub fn name(&self) -> (name: String)
        ensures
            name@ == self.spec_name(),
    {
        String::from_str(
            match self {
                Color::Black => "black",
                Color::Red => "red",
                Color::Green => "green",
                Color::Yellow => "yellow",
                Color::Blue => "blue",
                Color::Magenta => "magenta",
                Color::Cyan => "cyan",
                Color::White => "white",
            },
        )
    }

    /// The number of the color as a foreground color in an ANSI escape
    /// sequence.
    pub fn ansi_code(&self) -> (code: &'static str)
        ensures
            code@ == self.spec_ansi_code(),
    {
        match self {
            Color::Black => "30",
            Color::Red => "31",
            Color::Green => "32",
            Color::Yellow => "33",
            Color::Blue => "34",
            Color::Magenta => "35",
            Color::Cyan => "36",
            Color::White => "37",
        }
    }

    /// What switches the output of a shell of the given dialect to this
    /// color.
    pub fn escape(&self, dialect: ShellDialect) -> (text: String)
        ensures
            text@ == self.spec_escape(dialect),
    {
        match dialect {
            ShellDialect::Zsh => {
                let mut text = String::from_str("%F{");
                let name = self.name();
                text.append(name.as_str());
                text.append("}");
                text
            },
            ShellDialect::Bash => {
                let mut text = String::from_str("\\[\\033[");
                text.append(self.ansi_code());
                text.append("m\\]");
                text
            },
        }
    }

    /// What switches the output of zsh to this color.
    pub fn to_string(&self) -> (text: String)
        ensures
            text@ == self.spec_escape(ShellDialect::Zsh),
    {
        self.escape(ShellDialect::Zsh)
    }
}

impl ShellDialect {
    /// What switches bold type on.
    pub open spec fn spec_bold_on(self) -> Seq<char> {
        match self {
            ShellDialect::Zsh => "%B"@,
            ShellDialect::Bash => "\\[\\033[1m\\]"@,
        }
    }

    /// What switches bold type off.
    pub open spec fn spec_bold_off(self) -> Seq<char> {
        match self {
            ShellDialect::Zsh => "%b"@,
            ShellDialect::Bash => "\\[\\033[22m\\]"@,
        }
    }

    /// What the shell replaces by its current directory.
    pub open spec fn spec_cwd_token(self) -> Seq<char> {
        match self {
            ShellDialect::Zsh => "%~"@,
            ShellDialect::Bash => "\\w"@,
        }
    }

    /// What a full prompt holds before the segment: the assignment, where
    /// the dialect has one, a reset of the colors, and the user's name.
    pub open spec fn spec_prompt_head(self) -> Seq<char> {
        match self {
            ShellDialect::Zsh => "PROMPT='%f%n:"@,
            ShellDialect::Bash => "\\[\\033[m\\]\\u:"@,
        }
    }

    /// What a full prompt holds after the segment: a reset of the colors and
    /// the prompt sign. In zsh the sign is bold and red after a command that
    /// failed.
    pub open spec fn spec_prompt_tail(self) -> Seq<char> {
        match self {
            ShellDialect::Zsh => "%f%(?.$.%B%F{red}$%f%b) '"@,
            ShellDialect::Bash => "\\[\\033[m\\]\\$ "@,
        }
    }

    /// What switches bold type on.
    pub fn bold_on(&self) -> (text: &'static str)
        ensures
            text@ == self.spec_bold_on(),
    {
        match self {
            ShellDialect::Zsh => "%B",
            ShellDialect::Bash => "\\[\\033[1m\\]",
        }
    }

    /// What switches bold type off.
    pub fn bold_off(&self) -> (text: &'static str)
        ensures
            text@ == self.spec_bold_off(),
    {
        match self {
            ShellDialect::Zsh => "%b",
            ShellDialect::Bash => "\\[\\033[22m\\]",
        }
    }

    /// What the shell replaces by its current directory.
    pub fn cwd_token(&self) -> (text: &'static str)
        ensures
            text@ == self.spec_cwd_token(),
    {
        match self {
            ShellDialect::Zsh => "%~",
            ShellDialect::Bash => "\\w",
        }
    }

    /// What a full prompt holds before the segment.
    pub fn prompt_head(&self) -> (text: &'static str)
        ensures
            text@ == self.spec_prompt_head(),
    {
        match self {
            ShellDialect::Zsh => "PROMPT='%f%n:",
            ShellDialect::Bash => "\\[\\033[m\\]\\u:",
        }
    }

    /// What a full prompt holds after the segment.
    pub fn prompt_tail(&self) -> (text: &'static str)
        ensures
            text@ == self.spec_prompt_tail(),
    {
        match self {
            ShellDialect::Zsh => "%f%(?.$.%B%F{red}$%f%b) '",
            ShellDialect::Bash => "\\[\\033[m\\]\\$ ",
        }
    }
}

/// A directory in its color: the escape, then the path.
pub open spec fn colored_directory(dir: Seq<char>, color: Color, dialect: ShellDialect) -> Seq<
    char,
> {
    color.spec_escape(dialect) + dir
}

/// Status kinds in their color: the escape, then the glyphs in display
/// order.
pub open spec fn colored_statuses(kinds: Set<Status>, color: Color, dialect: ShellDialect) -> Seq<
    char,
> {
    color.spec_escape(dialect) + glyphs(kinds)
}

/// The segment that shows where the prompt is. Inside a repository: the
/// directory, bold and in its color, a space, and the status glyphs in
/// theirs. Outside: the shell's own current directory, bold and in the
/// directory color, and a space; the status color does not appear.
pub open spec fn segment(
    state: Option<(Seq<char>, Set<Status>)>,
    colors: OutputColoring,
    dialect: ShellDialect,
) -> Seq<char> {
    match state {
        Some((dir, kinds)) => dialect.spec_bold_on() + colored_directory(
            dir,
            colors.work_dir,
            dialect,
        ) + dialect.spec_bold_off() + " "@ + colored_statuses(kinds, colors.git_status, dialect),
        None => dialect.spec_bold_on() + colors.work_dir.spec_escape(dialect)
            + dialect.spec_cwd_token() + dialect.spec_bold_off() + " "@,
    }
}

/// The text handed to the shell: the segment alone, or the segment inside
/// the dialect's prompt.
pub open spec fn rendered(
    state: Option<(Seq<char>, Set<Status>)>,
    colors: OutputColoring,
    dialect: ShellDialect,
    mode: RenderMode,
) -> Seq<char> {
    match mode {
        RenderMode::PathAndStatusOnly => segment(state, colors, dialect),
        RenderMode::Full => dialect.spec_prompt_head() + segment(state, colors, dialect)
            + dialect.spec_prompt_tail(),
    }
}

/// A directory together with the color to show it in.
#[derive(Debug)]
pub struct ColoredDirectory(pub Directory, pub Color);

/// Status kinds together with the color to show them in.
#[derive(Debug)]
pub struct ColoredStatuses(pub Statuses, pub Color);

/// Where the prompt is, together with the colors to show it in.
#[derive(Debug)]
pub struct ColoredPathAndInfo(pub PathAndInfo, pub OutputColoring);

impl ColoredDirectory {
    /// The escape of the color, then the path.
    pub fn render(&self, dialect: ShellDialect) -> (text: String)
        ensures
            text@ == colored_directory(self.0@, self.1, dialect),
    {
        let mut text = self.1.escape(dialect);
        text.append(self.0.as_str());
        text
    }

    /// The directory as zsh shows it.
    pub fn to_string(&self) -> (text: String)
        ensures
            text@ == colored_directory(self.0@, self.1, ShellDialect::Zsh),
    {
        self.render(ShellDialect::Zsh)
    }
}

impl ColoredStatuses {
    /// The escape of the color, then the glyphs in display order.
    pub fn render(&self, dialect: ShellDialect) -> (text: String)
        ensures
            text@ == colored_statuses(self.0@, self.1, dialect),
    {
        let mut text = self.1.escape(dialect);
        let shown = self.0.to_string();
        text.append(shown.as_str());
        text
    }

    /// The status kinds as zsh shows them.
    pub fn to_string(&self) -> (text: String)
        ensures
            text@ == colored_statuses(self.0@, self.1, ShellDialect::Zsh),
    {
        self.render(ShellDialect::Zsh)
    }
}

/// The segment that shows where the prompt is.
pub fn render_segment(state: &PathAndInfo, colors: &OutputColoring, dialect: ShellDialect) -> (text:
    String)
    ensures
        text@ == segment(state@, *colors, dialect),
{
    let mut text = String::from_str(dialect.bold_on());
    let work_dir = colors.work_dir.escape(dialect);
    text.append(work_dir.as_str());
    match state {
        PathAndInfo::Git(dir, statuses) => {
            text.append(dir.as_str());
            text.append(dialect.bold_off());
            text.append(" ");
            let git_status = colors.git_status.escape(dialect);
            text.append(git_status.as_str());
            let shown = statuses.to_string();
            text.append(shown.as_str());
        },
        PathAndInfo::Fallback => {
            text.append(dialect.cwd_token());
            text.append(dialect.bold_off());
            text.append(" ");
        },
    }
    assert(text@ =~= segment(state@, *colors, dialect));
    text
}

/// The text handed to the shell.
pub fn render(
    state: &PathAndInfo,
    colors: &OutputColoring,
    dialect: ShellDialect,
    mode: RenderMode,
) -> (text: String)
    ensures
        text@ == rendered(state@, *colors, dialect, mode),
{
    match mode {
        RenderMode::PathAndStatusOnly => render_segment(state, colors, dialect),
        RenderMode::Full => {
            let mut text = String::from_str(dialect.prompt_head());
            let inner = render_segment(state, colors, dialect);
            text.append(inner.as_str());
            text.append(dialect.prompt_tail());
            text
        },
    }
}

impl PathAndInfo {
    /// Pairs the state with the colors to show it in.
    pub fn into_colored(self, colors: OutputColoring) -> (colored: ColoredPathAndInfo)
        ensures
            colored.0 == self,
            colored.1 == colors,
    {
        ColoredPathAndInfo(self, colors)
    }
}

impl ColoredPathAndInfo {
    /// The text for a shell of the given dialect.
    pub fn render(&self, dialect: ShellDialect, mode: RenderMode) -> (text: String)
        ensures
            text@ == rendered(self.0@, self.1, dialect, mode),
    {
        render(&self.0, &self.1, dialect, mode)
    }

    /// The segment as zsh shows it, without a prompt around it.
    pub fn to_string(&self) -> (text: String)
        ensures
            text@ == rendered(self.0@, self.1, ShellDialect::Zsh, RenderMode::PathAndStatusOnly),
    {
        self.render(ShellDialect::Zsh, RenderMode::PathAndStatusOnly)
    }
}

/// Whether `needle` stands in `text` at position `at`.
pub open spec fn occurs_at(needle: Seq<char>, text: Seq<char>, at: int) -> bool {
    0 <= at && at + needle.len() <= text.len() && text.subrange(at, at + needle.len()) == needle
}

/// Whether `needle` stands somewhere in `text`.
pub open spec fn occurs_in(needle: Seq<char>, text: Seq<char>) -> bool {
    exists|at: int| occurs_at(needle, text, at)
}

/// Outside a repository the status color plays no part: the text is the
/// same whatever that color is.
pub proof fn lemma_fallback_ignores_status_color(
    work_dir: Color,
    one: Color,
    other: Color,
    dialect: ShellDialect,
    mode: RenderMode,
)
    ensures
        rendered(None, OutputColoring { work_dir, git_status: one }, dialect, mode) == rendered(
            None,
            OutputColoring { work_dir, git_status: other },
            dialect,
            mode,
        ),
{
}

/// Outside a repository the text holds no escape of the status color.
///
/// Two cases are left out, because there the escape is in the text for
/// another reason: the directory has the same color, or the color is red and
/// the text is a full zsh prompt, whose prompt sign can turn red.
pub proof fn lemma_fallback_has_no_status_color(
    colors: OutputColoring,
    dialect: ShellDialect,
    mode: RenderMode,
)
    requires
        colors.work_dir != colors.git_status,
        !(dialect == ShellDialect::Zsh && mode == RenderMode::Full && colors.git_status
            == Color::Red),
    ensures
        !occurs_in(colors.git_status.spec_escape(dialect), rendered(None, colors, dialect, mode)),
{
    let needle = colors.git_status.spec_escape(dialect);
    let text = rendered(None, colors, dialect, mode);
    assert forall|at: int| !occurs_at(needle, text, at) by {
        if occurs_at(needle, text, at) {
            match dialect {
                ShellDialect::Zsh => lemma_no_zsh_escape(colors, mode, at),
                ShellDialect::Bash => lemma_no_bash_escape(colors, mode, at),
            }
        }
    }
}

/// The two cases that `lemma_fallback_has_no_status_color` leaves out are
/// the only ones: there the escape of the status color does stand in the
/// text, as the color of the directory or of the prompt sign.
pub proof fn lemma_fallback_shares_status_color(
    colors: OutputColoring,
    dialect: ShellDialect,
    mode: RenderMode,
)
    requires
        colors.work_dir == colors.git_status || (dialect == ShellDialect::Zsh && mode
            == RenderMode::Full && colors.git_status == Color::Red),
    ensures
        occurs_in(colors.git_status.spec_escape(dialect), rendered(None, colors, dialect, mode)),
{
    let needle = colors.git_status.spec_escape(dialect);
    let text = rendered(None, colors, dialect, mode);
    let head = match mode {
        RenderMode::PathAndStatusOnly => Seq::<char>::empty(),
        RenderMode::Full => dialect.spec_prompt_head(),
    };
    if colors.work_dir == colors.git_status {
        let at = (head.len() + dialect.spec_bold_on().len()) as int;
        assert(text.subrange(at, at + needle.len()) =~= needle);
        assert(occurs_at(needle, text, at));
    } else {
        reveal_strlit("%F{");
        reveal_strlit("}");
        reveal_strlit("red");
        reveal_strlit("%f%(?.$.%B%F{red}$%f%b) '");
        let tail = dialect.spec_prompt_tail();
        let at = text.len() - tail.len() + 10;
        assert(text.subrange(at, at + needle.len()) =~= needle);
        assert(occurs_at(needle, text, at));
    }
}

/// A name is made of lower-case letters, three at least, and no two colors
/// share one.
proof fn lemma_names(one: Color, other: Color)
    ensures
        one.spec_name().len() >= 3,
        forall|k: int|
            0 <= k < one.spec_name().len() ==> 'a' <= #[trigger] one.spec_name()[k] <= 'z',
        one.spec_name() == other.spec_name() ==> one == other,
        Color::Red.spec_name() == seq!['r', 'e', 'd'],
{
    reveal_strlit("black");
    reveal_strlit("red");
    reveal_strlit("green");
    reveal_strlit("yellow");
    reveal_strlit("blue");
    reveal_strlit("magenta");
    reveal_strlit("cyan");
    reveal_strlit("white");
    assert("red"@ =~= seq!['r', 'e', 'd']);
    if one.spec_name() == other.spec_name() {
        assert(one.spec_name().len() == other.spec_name().len());
        assert(one.spec_name()[0] == other.spec_name()[0]);
    }
}

/// In zsh, an escape of the status color cannot stand at `at` in the text
/// for a prompt outside a repository.
proof fn lemma_no_zsh_escape(colors: OutputColoring, mode: RenderMode, at: int)
    requires
        colors.work_dir != colors.git_status,
        !(mode == RenderMode::Full && colors.git_status == Color::Red),
    ensures
        !occurs_at(
            colors.git_status.spec_escape(ShellDialect::Zsh),
            rendered(None, colors, ShellDialect::Zsh, mode),
            at,
        ),
{
    let needle = colors.git_status.spec_escape(ShellDialect::Zsh);
    let text = rendered(None, colors, ShellDialect::Zsh, mode);
    if occurs_at(needle, text, at) {
        reveal_strlit("%F{");
        reveal_strlit("}");
        reveal_strlit("%B");
        reveal_strlit("%~");
        reveal_strlit("%b");
        reveal_strlit(" ");
        reveal_strlit("PROMPT='%f%n:");
        reveal_strlit("%f%(?.$.%B%F{red}$%f%b) '");
        lemma_names(colors.git_status, colors.work_dir);
        lemma_names(colors.work_dir, colors.git_status);
        lemma_names(colors.git_status, Color::Red);
        let window = text.subrange(at, at + needle.len());
        let wanted = colors.git_status.spec_name();
        let there = colors.work_dir.spec_name();
        let n = wanted.len() as int;
        let m = there.len() as int;
        let start: int = match mode {
            RenderMode::PathAndStatusOnly => 0,
            RenderMode::Full => 13,
        };
        assert(forall|k: int| 0 <= k < needle.len() ==> text[at + k] == window[k]);
        assert(forall|k: int| 0 <= k < n ==> needle[3 + k] == wanted[k]);
        assert(needle[0] == '%' && needle[1] == 'F' && needle[3 + n] == '}');
        assert(forall|k: int| 0 <= k < m ==> text[start + 5 + k] == there[k]);
        assert(text[start + 5 + m] == '}');
        assert(text[at] == '%' && text[at + 1] == 'F');
        if at == start + 2 {
            if n < m {
                assert(text[at + 3 + n] == there[n]);
            } else if n > m {
                assert(text[at + 3 + m] == wanted[m]);
            } else {
                assert forall|k: int| 0 <= k < n implies wanted[k] == there[k] by {
                    assert(text[at + 3 + k] == wanted[k]);
                }
                assert(wanted =~= there);
            }
            assert(false);
        } else {
            assert(mode == RenderMode::Full);
            assert(at == start + 2 + 3 + m + 1 + 5 + 10);
            let red = Color::Red.spec_name();
            assert(forall|k: int| 0 <= k < 3 ==> text[at + 3 + k] == red[k]);
            assert(text[at + 3 + 3] == '}');
            if n > 3 {
                assert(text[at + 3 + 3] == wanted[3]);
            } else {
                assert forall|k: int| 0 <= k < n implies wanted[k] == red[k] by {
                    assert(text[at + 3 + k] == wanted[k]);
                }
                assert(wanted =~= red);
            }
            assert(false);
        }
    }
}

/// In bash, an escape of the status color cannot stand at `at` in the text
/// for a prompt outside a repository.
proof fn lemma_no_bash_escape(colors: OutputColoring, mode: RenderMode, at: int)
    requires
        colors.work_dir != colors.git_status,
    ensures
        !occurs_at(
            colors.git_status.spec_escape(ShellDialect::Bash),
            rendered(None, colors, ShellDialect::Bash, mode),
            at,
        ),
{
    let needle = colors.git_status.spec_escape(ShellDialect::Bash);
    let text = rendered(None, colors, ShellDialect::Bash, mode);
    if occurs_at(needle, text, at) {
        reveal_strlit("30");
        reveal_strlit("31");
        reveal_strlit("32");
        reveal_strlit("33");
        reveal_strlit("34");
        reveal_strlit("35");
        reveal_strlit("36");
        reveal_strlit("37");
        reveal_strlit("\\[\\033[");
        reveal_strlit("m\\]");
        reveal_strlit("\\[\\033[1m\\]");
        reveal_strlit("\\[\\033[22m\\]");
        reveal_strlit("\\w");
        reveal_strlit(" ");
        reveal_strlit("\\[\\033[m\\]\\u:");
        reveal_strlit("\\[\\033[m\\]\\$ ");
        let window = text.subrange(at, at + needle.len());
        let wanted = colors.git_status.spec_ansi_code();
        let there = colors.work_dir.spec_ansi_code();
        let start: int = match mode {
            RenderMode::PathAndStatusOnly => 0,
            RenderMode::Full => 13,
        };
        assert(needle.len() == 12);
        assert(forall|k: int| 0 <= k < 12 ==> text[at + k] == window[k]);
        assert(needle[0] == '\\' && needle[1] == '[' && needle[2] == '\\' && needle[7] == '3'
            && needle[8] == wanted[1]);
        assert(text[at] == '\\' && text[at + 1] == '[' && text[at + 2] == '\\' && text[at + 7]
            == '3');
        assert(at == start + 11);
        assert(text[at + 8] == there[1]);
        assert(false);
    }
}

} // verus!
