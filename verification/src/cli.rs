//! The decisions of the command-line front end: input, colours, layout.

use vstd::prelude::*;

use crate::color::{colored_text, colorize, Color};
use crate::rdict::Format;
use crate::text::{join, join_strs, lines, lines_str, push_str, trim, trim_str, views};

verus! {

/// Whether ANSI output is used: not when `NO_COLOR` is set, and only when
/// `TERM` is set to something other than `dumb`.
pub open spec fn ansi_supported(no_color_set: bool, term: Option<Seq<char>>) -> bool {
    !no_color_set && match term {
        Some(t) => t != "dumb"@,
        None => false,
    }
}

/// Decides whether ANSI output is used, from whether `NO_COLOR` is set and
/// the value of `TERM` (if set and valid Unicode).
pub fn supports_ansi_with(no_color_set: bool, term: Option<&str>) -> (b: bool)
    ensures
        b == ansi_supported(
            no_color_set,
            match term {
                Some(t) => Some(t@),
                None => None,
            },
        ),
{
    if no_color_set {
        return false;
    }
    match term {
        Some(t) => !crate::text::same_str(t, "dumb"),
        None => false,
    }
}

/// The query made of the words given on the command line, space-separated.
pub fn query_of(words: &Vec<String>) -> (q: String)
    ensures
        q@ == join(views(words@), " "@),
{
    join_strs(words, " ")
}

/// The output format: JSON when asked for, Markdown otherwise (coloured when
/// the terminal takes colours).
pub fn output_format(json: bool, colors_enabled: bool) -> (f: Format)
    ensures
        json ==> f is Json,
        !json ==> f == (Format::Markdown { colored: colors_enabled }),
{
    if json {
        Format::Json
    } else {
        Format::Markdown { colored: colors_enabled }
    }
}

/// Where the text to look up comes from.
pub enum InputMode {
    /// The command-line words.
    Arguments,
    /// Standard input, which is piped.
    Pipe,
    /// A prompt, line by line.
    Interactive,
}

/// The arguments win; otherwise piped input; otherwise the prompt.
pub fn input_mode(query: &str, stdin_piped: bool) -> (m: InputMode)
    ensures
        query@.len() > 0 ==> m is Arguments,
        query@.len() == 0 && stdin_piped ==> m is Pipe,
        query@.len() == 0 && !stdin_piped ==> m is Interactive,
{
    if !query.is_empty() {
        InputMode::Arguments
    } else if stdin_piped {
        InputMode::Pipe
    } else {
        InputMode::Interactive
    }
}

/// The text read from a pipe, trimmed; `None` when nothing but whitespace
/// was read.
pub fn piped_query(buffer: &str) -> (q: Option<String>)
    ensures
        trim(buffer@).len() == 0 ==> q is None,
        trim(buffer@).len() > 0 ==> (q matches Some(s) && s@ == trim(buffer@)),
{
    let t = trim_str(buffer);
    if t.as_str().is_empty() {
        None
    } else {
        Some(t)
    }
}

/// The text to look up for a line typed at the prompt: the line trimmed;
/// `None` for an empty line.
pub fn prompt_query(line: &str) -> (q: Option<String>)
    ensures
        line@.len() == 0 ==> q is None,
        line@.len() > 0 ==> (q matches Some(s) && s@ == trim(line@)),
{
    if line.is_empty() {
        None
    } else {
        Some(trim_str(line))
    }
}

/// The prompt: `[rdict]# `, with `[rdict]` green when `colored`.
pub open spec fn prompt_text(colored: bool) -> Seq<char> {
    if colored {
        colored_text(Color::Green, "[rdict]"@) + "# "@
    } else {
        "[rdict]# "@
    }
}

/// The prompt of the interactive mode.
pub fn prompt(colored: bool) -> (p: String)
    ensures
        p@ == prompt_text(colored),
{
    if colored {
        let mut p = colorize(Color::Green, "[rdict]");
        push_str(&mut p, "# ");
        p
    } else {
        "[rdict]# ".to_owned()
    }
}

/// Each line indented by two spaces.
pub open spec fn indented_lines(ls: Seq<Seq<char>>) -> Seq<Seq<char>> {
    ls.map_values(|l: Seq<char>| "  "@ + l)
}

/// The note under a cached result.
pub open spec fn cache_note(input_text: Seq<char>) -> Seq<char> {
    "\n\n  "@ + colored_text(Color::BrightBlack, "[ "@ + input_text + " ] From cache"@)
}

/// How a rendered result is shown: each line indented by two spaces, joined
/// by newlines, the cache note appended for cached results, and the whole
/// framed by newlines.
pub open spec fn framed_output(output: Seq<char>, is_cached: bool, input_text: Seq<char>) -> Seq<
    char,
> {
    let body = join(indented_lines(lines(output)), "\n"@);
    "\n"@ + (if is_cached {
        body + cache_note(input_text)
    } else {
        body
    }) + "\n"@
}

/// Lays out a rendered result for the terminal.
pub fn frame_output(output: &str, is_cached: bool, input_text: &str) -> (s: String)
    ensures
        s@ == framed_output(output@, is_cached, input_text@),
{
    let ls = lines_str(output);
    let mut indented: Vec<String> = Vec::new();
    let mut i: usize = 0;
    while i < ls.len()
        invariant
            i <= ls@.len(),
            indented@.len() == i,
            forall|j: int| 0 <= j < i ==> (#[trigger] indented@[j])@ == "  "@ + ls@[j]@,
        decreases ls.len() - i,
    {
        let mut l = "  ".to_owned();
        push_str(&mut l, ls[i].as_str());
        indented.push(l);
        i = i + 1;
    }
    assert(views(indented@) =~= indented_lines(views(ls@)));
    let body = join_strs(&indented, "\n");
    let mut s = "\n".to_owned();
    push_str(&mut s, body.as_str());
    if is_cached {
        let mut note_text = "[ ".to_owned();
        push_str(&mut note_text, input_text);
        push_str(&mut note_text, " ] From cache");
        let note = colorize(Color::BrightBlack, note_text.as_str());
        push_str(&mut s, "\n\n  ");
        push_str(&mut s, note.as_str());
    }
    push_str(&mut s, "\n");
    s
}

/// A pager is used when the terminal is taller than 4 rows and the text has
/// more lines than the terminal has rows beyond 4 (the line count taken
/// modulo 2^16, as a `u16`).
pub open spec fn pager_needed(height: u16, text: Seq<char>) -> bool {
    height > 4 && height - 4 < (lines(text).len() as u16)
}

/// Decides whether `text` is shown in a pager on a terminal `height` rows tall.
pub fn needs_pager(height: u16, text: &str) -> (b: bool)
    ensures
        b == pager_needed(height, text@),
{
    let n = lines_str(text).len();
    height > 4 && height - 4 < (n as u16)
}

} // verus!
