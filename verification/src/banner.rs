//! The start-up banner: its label lines, and the framed tip box.
use vstd::prelude::*;
use crate::text::push_char;

verus! {

broadcast use vstd::string::group_string_axioms;

/// The number of terminal columns `s` takes, as `console` measures it.
pub uninterp spec fn display_width(s: Seq<char>) -> usize;

/// A printable ASCII character.
pub open spec fn is_printable_ascii(c: char) -> bool {
    0x20 <= c as u32 <= 0x7e
}

/// The columns `s` takes on a terminal (`console::measure_text_width`);
/// the result is named by `display_width`. A text of printable ASCII
/// characters only takes one column per character: the function returns
/// its length for such text.
#[verifier::external_body]
fn measure_text_width(s: &str) -> (w: usize)
    ensures
        w == display_width(s@),
        (forall|i: int| 0 <= i < s@.len() ==> is_printable_ascii(#[trigger] s@[i])) ==> w
            == s@.len(),
{
    console::measure_text_width(s)
}

/// `n` copies of `c`.
pub open spec fn repeat_char(c: char, n: nat) -> Seq<char> {
    Seq::new(n, |i: int| c)
}

/// The widest of `widths` (0 when there are none).
pub open spec fn max_width(widths: Seq<usize>) -> nat
    decreases widths.len(),
{
    if widths.len() == 0 {
        0
    } else {
        let m = max_width(widths.drop_last());
        if widths.last() > m {
            widths.last() as nat
        } else {
            m
        }
    }
}

/// One message line inside a box whose inner width is `inner`.
pub open spec fn box_line(msg: Seq<char>, width: nat, inner: nat) -> Seq<char> {
    "\u{2502} "@ + msg + repeat_char(' ', (inner - width) as nat) + " \u{2502}"@
}

/// The message lines, each followed by a line break.
pub open spec fn box_lines(msgs: Seq<Seq<char>>, widths: Seq<usize>, inner: nat) -> Seq<char>
    decreases msgs.len(),
{
    if msgs.len() == 0 || widths.len() == 0 {
        seq![]
    } else {
        box_lines(msgs.drop_last(), widths.drop_last(), inner) + box_line(
            msgs.last(),
            widths.last() as nat,
            inner,
        ) + "\n"@
    }
}

/// The framed box: a top border as wide as the widest message plus four,
/// one padded line per message, and a bottom border.
pub open spec fn box_text(msgs: Seq<Seq<char>>, widths: Seq<usize>) -> Seq<char> {
    let inner = max_width(widths);
    let dashes = repeat_char('\u{2500}', inner + 2);
    "\u{250c}"@ + dashes + "\u{2510}"@ + "\n"@ + box_lines(msgs, widths, inner) + "\u{2514}"@
        + dashes + "\u{2518}"@
}

/// Renders messages into a styled box with border characters.
pub struct DisplayBox {
    messages: Vec<String>,
}

fn push_repeat(out: &mut String, c: char, n: usize)
    ensures
        final(out)@ == old(out)@ + repeat_char(c, n as nat),
{
    let mut i: usize = 0;
    while i < n
        invariant
            i <= n,
            out@ == old(out)@ + repeat_char(c, i as nat),
        decreases n - i,
    {
        push_char(out, c);
        assert(repeat_char(c, (i + 1) as nat) =~= repeat_char(c, i as nat).push(c));
        i = i + 1;
    }
}

fn max_of(widths: &Vec<usize>) -> (m: usize)
    ensures
        m == max_width(widths@),
{
    let mut m: usize = 0;
    let mut i: usize = 0;
    while i < widths.len()
        invariant
            i <= widths@.len(),
            m == max_width(widths@.take(i as int)),
        decreases widths@.len() - i,
    {
        assert(widths@.take(i + 1).drop_last() =~= widths@.take(i as int));
        if widths[i] > m {
            m = widths[i];
        }
        i = i + 1;
    }
    assert(widths@.take(widths@.len() as int) =~= widths@);
    m
}

proof fn lemma_max_width_bounds(widths: Seq<usize>, i: int)
    requires
        0 <= i < widths.len(),
    ensures
        widths[i] <= max_width(widths),
    decreases widths.len(),
{
    if i < widths.len() - 1 {
        lemma_max_width_bounds(widths.drop_last(), i);
    }
}

/// Draws the box around `messages`, given how wide each one is.
pub fn render_box(messages: &Vec<String>, widths: &Vec<usize>) -> (r: String)
    requires
        messages@.len() == widths@.len(),
        forall|i: int| 0 <= i < widths@.len() ==> #[trigger] widths@[i] <= usize::MAX - 4,
    ensures
        r@ == box_text(messages@.map_values(|m: String| m@), widths@),
{
    let ghost msgs = messages@.map_values(|m: String| m@);
    let inner = max_of(widths);
    proof {
        if widths@.len() > 0 {
            assert(max_width(widths@) == widths@[widths@.len() - 1] || max_width(widths@)
                == max_width(widths@.drop_last()));
        }
        lemma_max_width_le(widths@);
    }
    let mut out = String::from_str("\u{250c}");
    push_repeat(&mut out, '\u{2500}', inner + 2);
    out.append("\u{2510}");
    out.append("\n");
    let ghost head = out@;
    let mut i: usize = 0;
    while i < messages.len()
        invariant
            i <= messages@.len() == widths@.len(),
            msgs == messages@.map_values(|m: String| m@),
            inner == max_width(widths@),
            out@ == head + box_lines(msgs.take(i as int), widths@.take(i as int), inner as nat),
            forall|k: int| 0 <= k < widths@.len() ==> #[trigger] widths@[k] <= usize::MAX - 4,
        decreases messages@.len() - i,
    {
        assert(msgs.take(i + 1).drop_last() =~= msgs.take(i as int));
        assert(widths@.take(i + 1).drop_last() =~= widths@.take(i as int));
        proof {
            lemma_max_width_bounds(widths@, i as int);
        }
        out.append("\u{2502} ");
        out.append(messages[i].as_str());
        push_repeat(&mut out, ' ', inner - widths[i]);
        out.append(" \u{2502}");
        out.append("\n");
        i = i + 1;
    }
    assert(msgs.take(msgs.len() as int) =~= msgs);
    assert(widths@.take(widths@.len() as int) =~= widths@);
    out.append("\u{2514}");
    push_repeat(&mut out, '\u{2500}', inner + 2);
    out.append("\u{2518}");
    out
}

proof fn lemma_max_width_le(widths: Seq<usize>)
    requires
        forall|i: int| 0 <= i < widths.len() ==> #[trigger] widths[i] <= usize::MAX - 4,
    ensures
        max_width(widths) <= usize::MAX - 4,
    decreases widths.len(),
{
    if widths.len() > 0 {
        lemma_max_width_le(widths.drop_last());
    }
}

/// The columns each message takes.
pub open spec fn message_widths(msgs: Seq<String>) -> Seq<usize> {
    msgs.map_values(|m: String| display_width(m@))
}

impl DisplayBox {
    /// A box around `messages`.
    pub fn new(messages: Vec<String>) -> (r: Self)
        ensures
            r.spec_messages() == messages@,
    {
        Self { messages }
    }

    /// The messages in the box.
    pub closed spec fn spec_messages(&self) -> Seq<String> {
        self.messages@
    }

    /// The box as text, or `None` when a message is too wide for its width
    /// plus the frame to be counted in a `usize`.
    pub fn render(&self) -> (r: Option<String>)
        ensures
            r is Some <==> forall|i: int|
                0 <= i < self.spec_messages().len() ==> #[trigger] message_widths(
                    self.spec_messages(),
                )[i] <= usize::MAX - 4,
            r matches Some(s) ==> s@ == box_text(
                self.spec_messages().map_values(|m: String| m@),
                message_widths(self.spec_messages()),
            ),
    {
        let mut widths: Vec<usize> = Vec::new();
        let mut i: usize = 0;
        while i < self.messages.len()
            invariant
                i <= self.messages@.len(),
                widths@ == message_widths(self.messages@).take(i as int),
                forall|k: int| 0 <= k < i ==> #[trigger] widths@[k] <= usize::MAX - 4,
            decreases self.messages@.len() - i,
        {
            let w = measure_text_width(self.messages[i].as_str());
            if w > usize::MAX - 4 {
                assert(message_widths(self.messages@)[i as int] == w);
                assert(!(message_widths(self.spec_messages())[i as int] <= usize::MAX - 4));
                return None;
            }
            widths.push(w);
            assert(widths@ =~= message_widths(self.messages@).take(i + 1));
            i = i + 1;
        }
        assert(widths@ =~= message_widths(self.messages@));
        Some(render_box(&self.messages, &widths))
    }
}

/// The version line and the command tips shown under the banner: the
/// shorter list in CLI mode, the full one in interactive mode.
pub open spec fn banner_labels(cli_mode: bool, version: Seq<char>) -> Seq<(Seq<char>, Seq<char>)> {
    seq![("Version:"@, version)] + if cli_mode {
        seq![
            ("Start chatting:"@, "type your message and press Enter"@),
            ("New conversation:"@, ":new"@),
            ("Switch model:"@, ":model"@),
            ("Switch provider:"@, ":provider"@),
            ("Switch agent:"@, ":<agent_name> e.g. :artemis or :muse"@),
        ]
    } else {
        seq![
            ("Start chatting:"@, "type your message and press Enter"@),
            ("New conversation:"@, ":new"@),
            ("Get started:"@, ":info, :usage, :help, :conversation"@),
            ("Switch model:"@, ":model"@),
            ("Switch agent:"@, ":artemis or :muse or :agent"@),
            ("Multiline:"@, "Alt+Enter for new line"@),
            ("Quit:"@, ":exit or <CTRL+D>"@),
        ]
    }
}

/// A label pair by its text.
pub open spec fn pair_view(p: (String, String)) -> (Seq<char>, Seq<char>) {
    (p.0@, p.1@)
}

fn push_pair(v: &mut Vec<(String, String)>, k: &str, val: &str)
    ensures
        final(v)@.map_values(|p: (String, String)| pair_view(p)) == old(v)@.map_values(
            |p: (String, String)| pair_view(p),
        ).push((k@, val@)),
{
    let ghost before = v@;
    v.push((k.to_owned(), val.to_owned()));
    assert(v@.map_values(|p: (String, String)| pair_view(p)) =~= before.map_values(
        |p: (String, String)| pair_view(p),
    ).push((k@, val@)));
}

/// The labels shown under the banner.
pub fn banner_labels_for(cli_mode: bool, version: &str) -> (r: Vec<(String, String)>)
    ensures
        r@.map_values(|p: (String, String)| pair_view(p)) == banner_labels(cli_mode, version@),
{
    let mut v: Vec<(String, String)> = Vec::new();
    push_pair(&mut v, "Version:", version);
    if cli_mode {
        push_pair(&mut v, "Start chatting:", "type your message and press Enter");
        push_pair(&mut v, "New conversation:", ":new");
        push_pair(&mut v, "Switch model:", ":model");
        push_pair(&mut v, "Switch provider:", ":provider");
        push_pair(&mut v, "Switch agent:", ":<agent_name> e.g. :artemis or :muse");
    } else {
        push_pair(&mut v, "Start chatting:", "type your message and press Enter");
        push_pair(&mut v, "New conversation:", ":new");
        push_pair(&mut v, "Get started:", ":info, :usage, :help, :conversation");
        push_pair(&mut v, "Switch model:", ":model");
        push_pair(&mut v, "Switch agent:", ":artemis or :muse or :agent");
        push_pair(&mut v, "Multiline:", "Alt+Enter for new line");
        push_pair(&mut v, "Quit:", ":exit or <CTRL+D>");
    }
    assert(v@.map_values(|p: (String, String)| pair_view(p)) =~= banner_labels(
        cli_mode,
        version@,
    ));
    v
}

/// The longest key, in bytes (0 when there are none).
pub open spec fn key_width(labels: Seq<(Seq<char>, Seq<char>)>) -> nat
    decreases labels.len(),
{
    if labels.len() == 0 {
        0
    } else {
        let m = key_width(labels.drop_last());
        let w = crate::tool_executor::byte_len(labels.last().0);
        if w > m {
            w as nat
        } else {
            m
        }
    }
}

/// The width the keys are right-aligned to: the longest key in bytes.
pub fn label_key_width(labels: &Vec<(String, String)>) -> (w: usize)
    ensures
        w as nat == key_width(labels@.map_values(|p: (String, String)| pair_view(p))),
{
    let ghost views = labels@.map_values(|p: (String, String)| pair_view(p));
    let mut m: usize = 0;
    let mut i: usize = 0;
    while i < labels.len()
        invariant
            i <= labels@.len(),
            views == labels@.map_values(|p: (String, String)| pair_view(p)),
            m as nat == key_width(views.take(i as int)),
        decreases labels@.len() - i,
    {
        assert(views.take(i + 1).drop_last() =~= views.take(i as int));
        let n = labels[i].0.as_str().len();
        assert(views[i as int].0 == labels@[i as int].0@);
        if n > m {
            m = n;
        }
        i = i + 1;
    }
    assert(views.take(labels@.len() as int) =~= views);
    m
}

/// `key` right-aligned to `width` characters, then a space (`{key:>width$} `).
pub open spec fn aligned_key(key: Seq<char>, width: nat) -> Seq<char> {
    repeat_char(' ', if width > key.len() {
        (width - key.len()) as nat
    } else {
        0
    }) + key + " "@
}

/// `key` right-aligned to `width` characters, then a space.
pub fn align_key(key: &str, width: usize) -> (r: String)
    ensures
        r@ == aligned_key(key@, width as nat),
{
    let n = key.unicode_len();
    let mut out = String::new();
    if width > n {
        push_repeat(&mut out, ' ', width - n);
    } else {
        push_repeat(&mut out, ' ', 0);
    }
    out.append(key);
    out.append(" ");
    out
}

/// The banner text: a custom one from the environment when it is set and
/// not empty, else the built-in one. The primary variable is consulted
/// first; the legacy one only when the primary is unset.
pub open spec fn chosen_banner(
    primary: Option<Seq<char>>,
    legacy: Option<Seq<char>>,
    default: Seq<char>,
) -> Seq<char> {
    let found = match primary {
        Some(p) => Some(p),
        None => legacy,
    };
    match found {
        Some(b) => if b.len() > 0 {
            b
        } else {
            default
        },
        None => default,
    }
}

/// The banner text to show.
pub fn choose_banner(primary: Option<String>, legacy: Option<String>, default: &str) -> (r: String)
    ensures
        r@ == chosen_banner(
            match primary {
                Some(p) => Some(p@),
                None => None,
            },
            match legacy {
                Some(l) => Some(l@),
                None => None,
            },
            default@,
        ),
{
    let found = match primary {
        Some(p) => Some(p),
        None => legacy,
    };
    match found {
        Some(b) => if b.as_str().unicode_len() > 0 {
            b
        } else {
            default.to_owned()
        },
        None => default.to_owned(),
    }
}

} // verus!
