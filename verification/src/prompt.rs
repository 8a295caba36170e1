//! The chat-style prompt: a framed header line with the active agent,
//! directory, branch, usage and model, an input cursor, and a right-hand
//! note about a running background job.
use vstd::prelude::*;
use crate::text::{
    opt_text, push_decimal, decimal_text, to_chars, trim, trim_chars, string_from_chars,
};

verus! {

/// The colors the prompt uses.
#[derive(Debug, Clone, Copy, PartialEq, Eq, Structural)]
pub enum PromptColor {
    Green,
    Yellow,
    Cyan,
    White,
    DarkGray,
    LightGreen,
    LightYellow,
    LightMagenta,
    LightGray,
}

/// A foreground color, optionally bold.
#[derive(Debug, Clone, Copy, PartialEq, Eq, Structural)]
pub struct PromptStyle {
    pub color: PromptColor,
    pub bold: bool,
}

/// The SGR parameter of a foreground color.
pub open spec fn color_code(c: PromptColor) -> Seq<char> {
    match c {
        PromptColor::Green => "32"@,
        PromptColor::Yellow => "33"@,
        PromptColor::Cyan => "36"@,
        PromptColor::White => "37"@,
        PromptColor::DarkGray => "90"@,
        PromptColor::LightGreen => "92"@,
        PromptColor::LightYellow => "93"@,
        PromptColor::LightMagenta => "95"@,
        PromptColor::LightGray => "97"@,
    }
}

/// The SGR parameters of a style: bold (`1`) first, then the color.
pub open spec fn style_code(s: PromptStyle) -> Seq<char> {
    if s.bold {
        "1;"@ + color_code(s.color)
    } else {
        color_code(s.color)
    }
}

/// `text` wrapped in the escape codes of `style`.
pub open spec fn painted(style: PromptStyle, text: Seq<char>) -> Seq<char> {
    "\x1b["@ + style_code(style) + "m"@ + text + "\x1b[0m"@
}

/// Paints `text` with `style` (`nu_ansi_term::Style::paint`, then
/// `to_string`): the crate writes `ESC [`, the bold code and the
/// foreground code joined by `;`, `m`, the text, and the reset `ESC [0m`.
#[verifier::external_body]
fn paint(style: PromptStyle, text: &str) -> (r: String)
    ensures
        r@ == painted(style, text@),
{
    let fg = match style.color {
        PromptColor::Green => nu_ansi_term::Color::Green,
        PromptColor::Yellow => nu_ansi_term::Color::Yellow,
        PromptColor::Cyan => nu_ansi_term::Color::Cyan,
        PromptColor::White => nu_ansi_term::Color::White,
        PromptColor::DarkGray => nu_ansi_term::Color::DarkGray,
        PromptColor::LightGreen => nu_ansi_term::Color::LightGreen,
        PromptColor::LightYellow => nu_ansi_term::Color::LightYellow,
        PromptColor::LightMagenta => nu_ansi_term::Color::LightMagenta,
        PromptColor::LightGray => nu_ansi_term::Color::LightGray,
    };
    let s = nu_ansi_term::Style { is_bold: style.bold, foreground: Some(fg), ..nu_ansi_term::Style::new() };
    s.paint(text).to_string()
}

/// A text in upper snake case, as `convert_case` writes it.
pub uninterp spec fn upper_snake(s: Seq<char>) -> Seq<char>;

/// `s` in upper snake case (`convert_case::Casing::to_case` with
/// `Case::UpperSnake`); the result is named by `upper_snake`.
#[verifier::external_body]
fn to_upper_snake(s: &str) -> (r: String)
    ensures
        r@ == upper_snake(s@),
{
    convert_case::Casing::to_case(&s, convert_case::Case::UpperSnake)
}

/// The last component of a path, when it is a plain name, as
/// `Path::file_name` finds it.
pub uninterp spec fn file_name_of(path: Seq<char>) -> Option<Seq<char>>;

/// The last component of `path` (`Path::file_name`, then `to_str`); the
/// result is named by `file_name_of`. As `Path::file_name` documents, the
/// root `/` and a path that ends in the component `..` have none.
#[verifier::external_body]
fn file_name(path: &str) -> (r: Option<String>)
    ensures
        match r {
            Some(n) => file_name_of(path@) == Some(n@),
            None => file_name_of(path@) is None,
        },
        path@ == "/"@ ==> r is None,
        (path@ == ".."@ || path@.len() >= 3 && path@.skip(path@.len() - 3) == "/.."@) ==> r is None,
{
    Some(std::path::Path::new(path).file_name()?.to_str()?.to_owned())
}

/// Top-left corner of the frame.
pub const CORNER_TL: &'static str = "\u{256d}";

/// Top-right corner of the frame.
pub const CORNER_TR: &'static str = "\u{256e}";

/// Horizontal frame line.
pub const HORIZONTAL: &'static str = "\u{2500}";

/// Vertical frame line.
pub const VERTICAL: &'static str = "\u{2502}";

/// The input cursor.
pub const INPUT_CURSOR: &'static str = "\u{276f}";

/// Separator between header segments.
pub const SEPARATOR: &'static str = " \u{b7} ";

/// What the header shows for a directory without a name.
pub const EMPTY_MARKER: &'static str = "-";

/// Shell job status rendered in the interactive prompt.
#[derive(Debug, Clone, PartialEq, Eq)]
pub struct ActiveShellJob {
    pub job_id: u64,
    pub command: String,
    pub running: bool,
    pub preview: Option<String>,
}

impl Default for ActiveShellJob {
    fn default() -> (r: Self)
        ensures
            r.job_id == 0,
            r.command@ == Seq::<char>::empty(),
            !r.running,
            r.preview is None,
    {
        ActiveShellJob { job_id: 0, command: String::new(), running: false, preview: None }
    }
}

impl ActiveShellJob {
    /// This job with id `job_id`.
    pub fn job_id(self, job_id: u64) -> (r: Self)
        ensures
            r == (ActiveShellJob { job_id, ..self }),
    {
        ActiveShellJob { job_id, ..self }
    }

    /// This job with command `command`.
    pub fn command(self, command: &str) -> (r: Self)
        ensures
            r.command@ == command@,
            r.job_id == self.job_id,
            r.running == self.running,
            r.preview == self.preview,
    {
        ActiveShellJob { command: command.to_owned(), ..self }
    }

    /// This job, running or not.
    pub fn running(self, running: bool) -> (r: Self)
        ensures
            r == (ActiveShellJob { running, ..self }),
    {
        ActiveShellJob { running, ..self }
    }

    /// This job with output preview `preview`.
    pub fn preview(self, preview: &str) -> (r: Self)
        ensures
            r.preview matches Some(p) && p@ == preview@,
            r.job_id == self.job_id,
            r.command == self.command,
            r.running == self.running,
    {
        ActiveShellJob { preview: Some(preview.to_owned()), ..self }
    }
}

/// Token usage as the header shows it.
#[derive(Debug, Clone)]
pub struct PromptUsage {
    /// Tokens used so far.
    pub total_tokens: u64,
    /// The count is an estimate.
    pub approx: bool,
    /// The count as it is written for people (e.g. `1.5k`).
    pub tokens_label: String,
    /// The cost so far, written with two decimals, if known.
    pub cost_label: Option<String>,
}

/// Chat-style prompt for the agent interface.
#[derive(Debug, Clone)]
pub struct ForgePrompt {
    pub cwd: String,
    pub usage: Option<PromptUsage>,
    pub agent_id: String,
    pub model: Option<String>,
    pub git_branch: Option<String>,
    pub active_shell_job: Option<ActiveShellJob>,
}

/// The segments joined by `sep`.
pub open spec fn join_segments(segs: Seq<Seq<char>>, sep: Seq<char>) -> Seq<char>
    decreases segs.len(),
{
    if segs.len() == 0 {
        seq![]
    } else if segs.len() == 1 {
        segs[0]
    } else {
        join_segments(segs.drop_last(), sep) + sep + segs.last()
    }
}

/// The part of `s` after its last `/` (all of `s` when it has none).
pub open spec fn last_segment(s: Seq<char>) -> Seq<char>
    decreases s.len(),
{
    if s.len() == 0 {
        s
    } else if s.last() == '/' {
        seq![]
    } else {
        last_segment(s.drop_last()).push(s.last())
    }
}

/// `value` trimmed, and cut to `max_chars - 3` characters followed by
/// `...` when it is longer than `max_chars`.
pub open spec fn truncated(value: Seq<char>, max_chars: nat) -> Seq<char> {
    let t = trim(value);
    if t.len() <= max_chars {
        t
    } else {
        let keep: int = if max_chars >= 3 {
            max_chars - 3
        } else {
            0
        };
        t.take(keep) + "..."@
    }
}

/// The styles the prompt uses.
pub open spec fn fg(c: PromptColor) -> PromptStyle {
    PromptStyle { color: c, bold: false }
}

/// The styles the prompt uses, in bold.
pub open spec fn bold_fg(c: PromptColor) -> PromptStyle {
    PromptStyle { color: c, bold: true }
}

/// The painted separator between segments.
pub open spec fn separator() -> Seq<char> {
    painted(fg(PromptColor::DarkGray), SEPARATOR@)
}

impl ForgePrompt {
    /// The usage is shown only when some tokens were used.
    pub open spec fn usage_active(self) -> bool {
        self.usage matches Some(u) && u.total_tokens > 0
    }

    /// The header's segments, in order: agent, directory, branch (when it
    /// differs from the directory's name), token count and cost (when
    /// tokens were used), model name without its provider prefix.
    pub open spec fn header_segments(self) -> Seq<Seq<char>> {
        self.agent_segments() + self.dir_segments() + self.branch_segments()
            + self.token_segments() + self.cost_segments() + self.model_segments()
    }

    /// The agent's name in upper snake case, bold cyan.
    pub open spec fn agent_segments(self) -> Seq<Seq<char>> {
        seq![painted(bold_fg(PromptColor::Cyan), upper_snake(self.agent_id@))]
    }

    /// The directory's name (or the empty marker).
    pub open spec fn dir_segments(self) -> Seq<Seq<char>> {
        seq![
            painted(fg(PromptColor::LightGray), match file_name_of(self.cwd@) {
                Some(n) => n,
                None => EMPTY_MARKER@,
            }),
        ]
    }

    /// The branch, unless it is the directory's name.
    pub open spec fn branch_segments(self) -> Seq<Seq<char>> {
        match self.git_branch {
            Some(b) => if b@ != (match file_name_of(self.cwd@) {
                Some(n) => n,
                None => Seq::<char>::empty(),
            }) {
                seq![painted(fg(PromptColor::LightGreen), b@)]
            } else {
                Seq::<Seq<char>>::empty()
            },
            None => Seq::<Seq<char>>::empty(),
        }
    }

    /// The token count, when tokens were used (`~` marks an estimate).
    pub open spec fn token_segments(self) -> Seq<Seq<char>> {
        match self.usage {
            Some(u) => if u.total_tokens > 0 {
                seq![
                    painted(
                        fg(PromptColor::LightGray),
                        (if u.approx {
                            "~"@
                        } else {
                            Seq::<char>::empty()
                        }) + u.tokens_label@ + " tok"@,
                    ),
                ]
            } else {
                Seq::<Seq<char>>::empty()
            },
            None => Seq::<Seq<char>>::empty(),
        }
    }

    /// The cost, when known and tokens were used.
    pub open spec fn cost_segments(self) -> Seq<Seq<char>> {
        match self.usage {
            Some(u) => match u.cost_label {
                Some(c) => if u.total_tokens > 0 {
                    seq![painted(fg(PromptColor::Green), "$"@ + c@)]
                } else {
                    Seq::<Seq<char>>::empty()
                },
                None => Seq::<Seq<char>>::empty(),
            },
            None => Seq::<Seq<char>>::empty(),
        }
    }

    /// The model's name without its provider prefix.
    pub open spec fn model_segments(self) -> Seq<Seq<char>> {
        match self.model {
            Some(m) => seq![painted(fg(PromptColor::LightMagenta), last_segment(m@))],
            None => Seq::<Seq<char>>::empty(),
        }
    }

    /// The header line's content.
    pub open spec fn header(self) -> Seq<char> {
        join_segments(self.header_segments(), separator())
    }

    /// The left prompt: the framed header line, then the input cursor.
    pub open spec fn left(self) -> Seq<char> {
        let dg = fg(PromptColor::DarkGray);
        painted(dg, CORNER_TL@) + painted(dg, HORIZONTAL@) + " "@ + self.header() + " "@
            + painted(dg, HORIZONTAL@ + HORIZONTAL@ + HORIZONTAL@) + painted(dg, CORNER_TR@)
            + "\n"@ + painted(bold_fg(PromptColor::Green), INPUT_CURSOR@) + " "@
    }

    /// The right prompt: empty unless a background job runs; then its id,
    /// its command and a non-blank output preview, each cut to 28
    /// characters.
    pub open spec fn right(self) -> Seq<char> {
        match self.active_shell_job {
            Some(job) => if job.running {
                join_segments(job_segments(job), separator())
            } else {
                Seq::<char>::empty()
            },
            None => Seq::<char>::empty(),
        }
    }
}

/// The right prompt's segments for a running job.
pub open spec fn job_segments(job: ActiveShellJob) -> Seq<Seq<char>> {
    let first = seq![
        painted(fg(PromptColor::Yellow), "job #"@ + decimal_text(job.job_id as nat) + " running"@),
        painted(fg(PromptColor::LightYellow), truncated(job.command@, 28)),
    ];
    let rest = match job.preview {
        Some(p) => if trim(p@).len() > 0 {
            seq![painted(fg(PromptColor::DarkGray), truncated(trim(p@), 28))]
        } else {
            Seq::<Seq<char>>::empty()
        },
        None => Seq::<Seq<char>>::empty(),
    };
    first + rest
}

/// The continuation line shown for multi-line input: padding as wide as
/// the cursor's UTF-8 encoding, then a vertical bar.
pub open spec fn multiline_indicator() -> Seq<char> {
    "   "@ + painted(fg(PromptColor::DarkGray), VERTICAL@) + " "@
}

/// The reverse-search indicator.
pub open spec fn history_search_indicator(failing: bool, term: Seq<char>) -> Seq<char> {
    let prefix = if failing {
        "failing "@
    } else {
        Seq::<char>::empty()
    };
    let text = if term.len() == 0 {
        "("@ + prefix + "reverse-search) "@
    } else {
        "("@ + prefix + "reverse-search: "@ + term + ") "@
    };
    painted(fg(PromptColor::White), text)
}

fn style(color: PromptColor) -> (s: PromptStyle)
    ensures
        s == fg(color),
{
    PromptStyle { color, bold: false }
}

/// The segments joined by `sep`.
pub fn join_strings(segs: &Vec<String>, sep: &str) -> (r: String)
    ensures
        r@ == join_segments(segs@.map_values(|s: String| s@), sep@),
{
    let ghost views = segs@.map_values(|s: String| s@);
    let mut r = String::new();
    let mut i: usize = 0;
    while i < segs.len()
        invariant
            i <= segs@.len(),
            views == segs@.map_values(|s: String| s@),
            r@ == join_segments(views.take(i as int), sep@),
        decreases segs@.len() - i,
    {
        assert(views.take(i + 1).drop_last() =~= views.take(i as int));
        if i > 0 {
            r.append(sep);
        } else {
            assert(views.take(1) =~= seq![views[0]]);
        }
        r.append(segs[i].as_str());
        i = i + 1;
    }
    assert(views.take(segs@.len() as int) =~= views);
    r
}

/// The part of `s` after its last `/` (`s.split('/').next_back()`).
pub fn model_short_name(s: &str) -> (r: String)
    ensures
        r@ == last_segment(s@),
{
    let chars = to_chars(s);
    let mut start: usize = chars.len();
    assert(chars@.take(chars@.len() as int) =~= chars@);
    assert(chars@.subrange(chars@.len() as int, chars@.len() as int) =~= Seq::<char>::empty());
    while start > 0 && chars[start - 1] != '/'
        invariant
            start <= chars@.len(),
            chars@ == s@,
            last_segment(chars@) == last_segment(chars@.take(start as int)) + chars@.subrange(
                start as int,
                chars@.len() as int,
            ),
        decreases start,
    {
        let ghost t = chars@.take(start as int);
        assert(t.drop_last() =~= chars@.take(start - 1));
        assert(chars@.subrange(start - 1, chars@.len() as int) =~= seq![t.last()]
            + chars@.subrange(start as int, chars@.len() as int));
        start = start - 1;
    }
    proof {
        let t = chars@.take(start as int);
        if start == 0 {
            assert(t =~= Seq::<char>::empty());
        }
        assert(last_segment(t) =~= Seq::<char>::empty());
        assert(chars@.take(chars@.len() as int) =~= chars@);
        assert(chars@.subrange(chars@.len() as int, chars@.len() as int) =~= Seq::<char>::empty());
    }
    let mut out = String::new();
    crate::text::push_chars(&mut out, chars.as_slice(), start, chars.len());
    out
}

/// `value` trimmed, and cut to `max_chars - 3` characters followed by
/// `...` when it is longer than `max_chars` characters.
pub fn truncate_for_prompt(value: &str, max_chars: usize) -> (r: String)
    ensures
        r@ == truncated(value@, max_chars as nat),
{
    let chars = to_chars(value);
    let t = trim_chars(&chars);
    if t.len() <= max_chars {
        return string_from_chars(&t);
    }
    let keep = max_chars.saturating_sub(3);
    let mut out = String::new();
    crate::text::push_chars(&mut out, t.as_slice(), 0, keep);
    assert(t@.subrange(0, keep as int) =~= t@.take(keep as int));
    out.append("...");
    out
}

impl ForgePrompt {
    /// A prompt for `agent_id` in `cwd`, with the git branch found there.
    pub fn new(cwd: String, agent_id: String, git_branch: Option<String>) -> (r: Self)
        ensures
            r.cwd == cwd,
            r.agent_id == agent_id,
            r.git_branch == git_branch,
            r.usage is None,
            r.model is None,
            r.active_shell_job is None,
    {
        ForgePrompt { cwd, usage: None, agent_id, model: None, git_branch, active_shell_job: None }
    }

    /// Replaces the git branch with the one found now.
    pub fn refresh(&mut self, git_branch: Option<String>)
        ensures
            *final(self) == (ForgePrompt { git_branch, ..*old(self) }),
    {
        self.git_branch = git_branch;
    }

    /// Sets the usage shown in the header.
    pub fn usage(&mut self, usage: PromptUsage)
        ensures
            *final(self) == (ForgePrompt { usage: Some(usage), ..*old(self) }),
    {
        self.usage = Some(usage);
    }

    /// Sets the model shown in the header.
    pub fn model(&mut self, model: String)
        ensures
            *final(self) == (ForgePrompt { model: Some(model), ..*old(self) }),
    {
        self.model = Some(model);
    }

    /// Sets the git branch shown in the header.
    pub fn git_branch(&mut self, git_branch: String)
        ensures
            *final(self) == (ForgePrompt { git_branch: Some(git_branch), ..*old(self) }),
    {
        self.git_branch = Some(git_branch);
    }

    /// Sets the background job shown on the right.
    pub fn active_shell_job(&mut self, job: ActiveShellJob)
        ensures
            *final(self) == (ForgePrompt { active_shell_job: Some(job), ..*old(self) }),
    {
        self.active_shell_job = Some(job);
    }

    /// Builds the header line content (what goes inside the top border).
    pub fn header_content(&self) -> (r: String)
        ensures
            r@ == self.header(),
    {
        let mut segs: Vec<String> = Vec::new();
        let agent = to_upper_snake(self.agent_id.as_str());
        segs.push(paint(PromptStyle { color: PromptColor::Cyan, bold: true }, agent.as_str()));
        let name = file_name(self.cwd.as_str());
        let dir = match &name {
            Some(n) => n.clone(),
            None => EMPTY_MARKER.to_owned(),
        };
        segs.push(paint(style(PromptColor::LightGray), dir.as_str()));
        let ghost mut expected: Seq<Seq<char>> = seq![
            painted(bold_fg(PromptColor::Cyan), upper_snake(self.agent_id@)),
            painted(fg(PromptColor::LightGray), dir@),
        ];
        assert(segs@.map_values(|s: String| s@) =~= expected);
        assert(expected =~= self.agent_segments() + self.dir_segments());
        let ghost stage1 = expected;
        if let Some(branch) = &self.git_branch {
            let differs = match &name {
                Some(n) => *branch != *n,
                None => branch.as_str().unicode_len() != 0,
            };
            assert(branch@.len() == 0 ==> branch@ =~= Seq::<char>::empty());
            assert(differs == (branch@ != (match file_name_of(self.cwd@) {
                Some(n) => n,
                None => Seq::<char>::empty(),
            })));
            if differs {
                segs.push(paint(style(PromptColor::LightGreen), branch.as_str()));
                proof {
                    expected = expected.push(painted(fg(PromptColor::LightGreen), branch@));
                }
            }
        }
        assert(segs@.map_values(|s: String| s@) =~= expected);
        assert(expected =~= stage1 + self.branch_segments());
        let ghost stage2 = expected;
        if let Some(u) = &self.usage {
            if u.total_tokens > 0 {
                let mut text = if u.approx {
                    String::from_str("~")
                } else {
                    String::new()
                };
                text.append(u.tokens_label.as_str());
                text.append(" tok");
                segs.push(paint(style(PromptColor::LightGray), text.as_str()));
                proof {
                    expected = expected.push(painted(fg(PromptColor::LightGray), text@));
                }
            }
        }
        assert(segs@.map_values(|s: String| s@) =~= expected);
        assert(expected =~= stage2 + self.token_segments());
        let ghost stage3 = expected;
        if let Some(u) = &self.usage {
            if let Some(c) = &u.cost_label {
                if u.total_tokens > 0 {
                    let mut text = String::from_str("$");
                    text.append(c.as_str());
                    segs.push(paint(style(PromptColor::Green), text.as_str()));
                    proof {
                        expected = expected.push(painted(fg(PromptColor::Green), text@));
                    }
                }
            }
        }
        assert(segs@.map_values(|s: String| s@) =~= expected);
        assert(expected =~= stage3 + self.cost_segments());
        let ghost stage4 = expected;
        if let Some(m) = &self.model {
            let short = model_short_name(m.as_str());
            segs.push(paint(style(PromptColor::LightMagenta), short.as_str()));
            proof {
                expected = expected.push(painted(fg(PromptColor::LightMagenta), short@));
            }
        }
        assert(segs@.map_values(|s: String| s@) =~= expected);
        assert(expected =~= stage4 + self.model_segments());
        assert(expected =~= self.header_segments());
        let sep = paint(style(PromptColor::DarkGray), SEPARATOR);
        join_strings(&segs, sep.as_str())
    }

    /// The left prompt: the framed header line, then the input cursor.
    pub fn render_prompt_left(&self) -> (r: String)
        ensures
            r@ == self.left(),
    {
        let header = self.header_content();
        let dg = style(PromptColor::DarkGray);
        let mut result = paint(dg, CORNER_TL);
        result.append(paint(dg, HORIZONTAL).as_str());
        result.append(" ");
        result.append(header.as_str());
        result.append(" ");
        let mut line = String::from_str(HORIZONTAL);
        line.append(HORIZONTAL);
        line.append(HORIZONTAL);
        result.append(paint(dg, line.as_str()).as_str());
        result.append(paint(dg, CORNER_TR).as_str());
        result.append("\n");
        result.append(paint(PromptStyle { color: PromptColor::Green, bold: true }, INPUT_CURSOR).as_str());
        result.append(" ");
        result
    }

    /// The right prompt: a note on the running background job, if any.
    pub fn render_prompt_right(&self) -> (r: String)
        ensures
            r@ == self.right(),
    {
        let job = match &self.active_shell_job {
            Some(job) => job,
            None => {
                return String::new();
            },
        };
        if !job.running {
            return String::new();
        }
        let mut status = String::from_str("job #");
        push_decimal(&mut status, job.job_id);
        status.append(" running");
        let mut segs: Vec<String> = Vec::new();
        segs.push(paint(style(PromptColor::Yellow), status.as_str()));
        let cmd = truncate_for_prompt(job.command.as_str(), 28);
        segs.push(paint(style(PromptColor::LightYellow), cmd.as_str()));
        let ghost mut expected: Seq<Seq<char>> = seq![
            painted(fg(PromptColor::Yellow), status@),
            painted(fg(PromptColor::LightYellow), cmd@),
        ];
        assert(segs@.map_values(|s: String| s@) =~= expected);
        if let Some(p) = &job.preview {
            let pc = to_chars(p.as_str());
            let trimmed = trim_chars(&pc);
            if trimmed.len() > 0 {
                let ts = string_from_chars(&trimmed);
                let shown = truncate_for_prompt(ts.as_str(), 28);
                segs.push(paint(style(PromptColor::DarkGray), shown.as_str()));
                proof {
                    expected = expected.push(painted(fg(PromptColor::DarkGray), shown@));
                }
            }
        }
        assert(segs@.map_values(|s: String| s@) =~= expected);
        assert(expected =~= job_segments(*job));
        let sep = paint(style(PromptColor::DarkGray), SEPARATOR);
        join_strings(&segs, sep.as_str())
    }

    /// The mode indicator, which this prompt leaves empty.
    pub fn render_prompt_indicator(&self) -> (r: String)
        ensures
            r@ == Seq::<char>::empty(),
    {
        String::new()
    }

    /// The continuation line shown for multi-line input.
    pub fn render_prompt_multiline_indicator(&self) -> (r: String)
        ensures
            r@ == multiline_indicator(),
    {
        let mut r = String::from_str("   ");
        r.append(paint(style(PromptColor::DarkGray), VERTICAL).as_str());
        r.append(" ");
        r
    }

    /// The reverse-search indicator, for a passing or failing search.
    pub fn render_prompt_history_search_indicator(&self, failing: bool, term: &str) -> (r: String)
        ensures
            r@ == history_search_indicator(failing, term@),
    {
        let mut text = String::from_str("(");
        if failing {
            text.append("failing ");
        }
        if term.unicode_len() == 0 {
            text.append("reverse-search) ");
        } else {
            text.append("reverse-search: ");
            text.append(term);
            text.append(") ");
        }
        paint(style(PromptColor::White), text.as_str())
    }
}

/// Cut text fits its budget: with room for the ellipsis, the result has
/// at most `max_chars` characters, and text that already fits (once
/// trimmed) is kept whole.
pub proof fn lemma_truncated_fits(value: Seq<char>, max_chars: nat)
    requires
        max_chars >= 3,
    ensures
        truncated(value, max_chars).len() <= max_chars,
        trim(value).len() <= max_chars ==> truncated(value, max_chars) == trim(value),
{
    reveal_strlit("...");
}

/// The model's short name is the part after the provider prefix: it holds
/// no `/` and ends the full name.
pub proof fn lemma_short_model_name(s: Seq<char>)
    ensures
        forall|i: int| 0 <= i < last_segment(s).len() ==> #[trigger] last_segment(s)[i] != '/',
        last_segment(s).len() <= s.len(),
        last_segment(s) == s.skip(s.len() - last_segment(s).len()),
    decreases s.len(),
{
    if s.len() > 0 {
        lemma_short_model_name(s.drop_last());
        let r = last_segment(s);
        if s.last() == '/' {
            assert(s.skip(s.len() as int) =~= Seq::<char>::empty());
        } else {
            let p = last_segment(s.drop_last());
            assert(r == p.push(s.last()));
            assert(s.skip(s.len() - r.len()) =~= s.drop_last().skip(s.len() - 1 - p.len()).push(
                s.last(),
            ));
        }
    } else {
        assert(s.skip(0) =~= s);
    }
}

} // verus!
