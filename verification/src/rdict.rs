//! Lookup results and their Markdown rendering.

use vstd::prelude::*;

use crate::color::{paint, push_painted, Color};
use crate::german::GermanEntry;
use crate::parse::{example_views, meaning_views, ExampleModel, MeaningModel, TranslationData, ToChinese, ToEnglish, Example, Meaning};
use crate::source::DictionarySource;
use crate::parse::TranslationModel;
use crate::text::{push_str, trim_end, trim_end_str, views};
use crate::{Error, ErrorModel};

verus! {

/// How results are printed.
#[derive(Debug)]
pub enum Format {
    Markdown { colored: bool },
    Json,
}

/// The data of a lookup and whether it came from the cache.
pub struct FetchedResult {
    pub data: TranslationData,
    pub is_cached: bool,
}

// ---------------------------------------------------------------------------
// What the rendering writes
// ---------------------------------------------------------------------------

/// One bullet line per item: `* <item>`, the item green when `colored`.
pub open spec fn bullet_lines(items: Seq<Seq<char>>, colored: bool) -> Seq<char>
    decreases items.len(),
{
    if items.len() == 0 {
        seq![]
    } else {
        bullet_lines(items.drop_last(), colored) + "* "@ + paint(colored, Color::Green, items.last())
            + "\n"@
    }
}

/// Two lines per pair: `* <first>` (green when `colored`) and `  <second>`
/// (magenta when `colored`).
pub open spec fn pair_lines(pairs: Seq<(Seq<char>, Seq<char>)>, colored: bool) -> Seq<char>
    decreases pairs.len(),
{
    if pairs.len() == 0 {
        seq![]
    } else {
        pair_lines(pairs.drop_last(), colored) + "* "@ + paint(colored, Color::Green, pairs.last().0)
            + "\n"@ + "  "@ + paint(colored, Color::Magenta, pairs.last().1) + "\n"@
    }
}

/// Each example as its (sentence, translation) pair.
pub open spec fn example_pairs(exs: Seq<ExampleModel>) -> Seq<(Seq<char>, Seq<char>)> {
    exs.map_values(|e: ExampleModel| (e.en, e.zh))
}

/// `[<part of speech>]` on a line of its own, when there is one.
pub open spec fn part_of_speech_line(p: Option<Seq<char>>) -> Seq<char> {
    match p {
        Some(pa) => "["@ + pa + "]\n"@,
        None => seq![],
    }
}

/// Each meaning: its part of speech, its definitions as bullets, a blank line.
pub open spec fn meaning_lines(ms: Seq<MeaningModel>, colored: bool) -> Seq<char>
    decreases ms.len(),
{
    if ms.len() == 0 {
        seq![]
    } else {
        meaning_lines(ms.drop_last(), colored) + part_of_speech_line(ms.last().part_of_speech)
            + bullet_lines(ms.last().definitions, colored) + "\n"@
    }
}

/// `<label>：[<transcription>]`, the transcription green when `colored`.
pub open spec fn pronunciation_line(label: Seq<char>, p: Option<Seq<char>>, colored: bool) -> Seq<
    char,
> {
    match p {
        Some(x) => label + "：["@ + paint(colored, Color::Green, x) + "]\n"@,
        None => seq![],
    }
}

/// The pronunciation section of an English→Chinese entry.
pub open spec fn pronunciation_section(p: crate::parse::PronunciationModel, colored: bool) -> Seq<char> {
    if p.uk is Some || p.us is Some {
        "# Pronunciation\n"@ + pronunciation_line("英"@, p.uk, colored) + pronunciation_line(
            "美"@,
            p.us,
            colored,
        ) + "\n"@
    } else {
        seq![]
    }
}

/// The meanings section of an English→Chinese entry.
pub open spec fn meanings_section(ms: Seq<MeaningModel>, colored: bool) -> Seq<char> {
    if ms.len() > 0 {
        "# Meanings\n"@ + meaning_lines(ms, colored)
    } else {
        seq![]
    }
}

/// The meanings section of a Chinese→English entry.
pub open spec fn bullet_section(items: Seq<Seq<char>>, colored: bool) -> Seq<char> {
    if items.len() > 0 {
        "# Meanings\n"@ + bullet_lines(items, colored) + "\n"@
    } else {
        seq![]
    }
}

/// The examples section of a Youdao entry.
pub open spec fn examples_section(exs: Seq<ExampleModel>, colored: bool) -> Seq<char> {
    if exs.len() > 0 {
        "# Examples\n"@ + pair_lines(example_pairs(exs), colored) + "\n"@
    } else {
        seq![]
    }
}

/// The Markdown of an English→Chinese entry.
pub open spec fn chinese_markdown(r: crate::parse::ToChineseModel, colored: bool) -> Seq<char> {
    trim_end(
        pronunciation_section(r.pronunciation, colored) + meanings_section(r.meanings, colored)
            + examples_section(r.examples, colored),
    )
}

/// The Markdown of a Chinese→English entry.
pub open spec fn english_markdown(r: crate::parse::ToEnglishModel, colored: bool) -> Seq<char> {
    trim_end(bullet_section(r.meanings, colored) + examples_section(r.examples, colored))
}

// ---------------------------------------------------------------------------
// Writing it
// ---------------------------------------------------------------------------

/// Appends the bullet lines of `items`.
fn push_bullets(out: &mut String, items: &Vec<String>, colored: bool)
    ensures
        final(out)@ == old(out)@ + bullet_lines(views(items@), colored),
{
    let ghost start = out@;
    let ghost iv = views(items@);
    let mut i: usize = 0;
    assert(iv.take(0) =~= Seq::<Seq<char>>::empty());
    assert(start + bullet_lines(iv.take(0), colored) =~= start);
    while i < items.len()
        invariant
            i <= items@.len(),
            iv == views(items@),
            out@ == start + bullet_lines(iv.take(i as int), colored),
        decreases items.len() - i,
    {
        let ghost before = out@;
        push_str(out, "* ");
        push_painted(out, colored, Color::Green, items[i].as_str());
        push_str(out, "\n");
        assert(iv.take(i + 1).drop_last() == iv.take(i as int));
        assert(iv.take(i + 1).last() == items@[i as int]@);
        assert(out@ =~= start + bullet_lines(iv.take(i + 1), colored));
        i = i + 1;
    }
    assert(iv.take(items@.len() as int) == iv);
}

/// Appends the two lines of each pair.
fn push_pairs(out: &mut String, pairs: &Vec<(&str, &str)>, colored: bool)
    ensures
        final(out)@ == old(out)@ + pair_lines(
            pairs@.map_values(|p: (&str, &str)| (p.0@, p.1@)),
            colored,
        ),
{
    let ghost start = out@;
    let ghost pv = pairs@.map_values(|p: (&str, &str)| (p.0@, p.1@));
    let mut i: usize = 0;
    assert(pv.take(0) =~= Seq::<(Seq<char>, Seq<char>)>::empty());
    assert(start + pair_lines(pv.take(0), colored) =~= start);
    while i < pairs.len()
        invariant
            i <= pairs@.len(),
            pv == pairs@.map_values(|p: (&str, &str)| (p.0@, p.1@)),
            out@ == start + pair_lines(pv.take(i as int), colored),
        decreases pairs.len() - i,
    {
        let (a, b) = pairs[i];
        push_str(out, "* ");
        push_painted(out, colored, Color::Green, a);
        push_str(out, "\n");
        push_str(out, "  ");
        push_painted(out, colored, Color::Magenta, b);
        push_str(out, "\n");
        assert(pv.take(i + 1).drop_last() == pv.take(i as int));
        assert(pv.take(i + 1).last() == (a@, b@));
        assert(out@ =~= start + pair_lines(pv.take(i + 1), colored));
        i = i + 1;
    }
    assert(pv.take(pairs@.len() as int) == pv);
}

/// The sentence and translation of each example, borrowed.
fn example_refs(exs: &Vec<Example>) -> (r: Vec<(&str, &str)>)
    ensures
        r@.map_values(|p: (&str, &str)| (p.0@, p.1@)) == example_pairs(example_views(exs@)),
{
    let mut r: Vec<(&str, &str)> = Vec::new();
    let mut i: usize = 0;
    while i < exs.len()
        invariant
            i <= exs@.len(),
            r@.len() == i,
            forall|j: int| 0 <= j < i ==> (#[trigger] r@[j]).0@ == exs@[j].en@ && r@[j].1@ == exs@[j].zh@,
        decreases exs.len() - i,
    {
        r.push((exs[i].en.as_str(), exs[i].zh.as_str()));
        i = i + 1;
    }
    assert(r@.map_values(|p: (&str, &str)| (p.0@, p.1@)) =~= example_pairs(example_views(exs@)));
    r
}

/// Appends the lines of each meaning.
fn push_meanings(out: &mut String, ms: &Vec<Meaning>, colored: bool)
    ensures
        final(out)@ == old(out)@ + meaning_lines(meaning_views(ms@), colored),
{
    let ghost start = out@;
    let ghost mv = meaning_views(ms@);
    let mut i: usize = 0;
    assert(mv.take(0) =~= Seq::<MeaningModel>::empty());
    assert(start + meaning_lines(mv.take(0), colored) =~= start);
    while i < ms.len()
        invariant
            i <= ms@.len(),
            mv == meaning_views(ms@),
            out@ == start + meaning_lines(mv.take(i as int), colored),
        decreases ms.len() - i,
    {
        let ghost before = out@;
        match &ms[i].part_of_speech {
            Some(pa) => {
                push_str(out, "[");
                push_str(out, pa.as_str());
                push_str(out, "]\n");
            },
            None => {},
        }
        assert(out@ =~= before + part_of_speech_line(ms@[i as int]@.part_of_speech));
        push_bullets(out, &ms[i].definitions, colored);
        push_str(out, "\n");
        assert(mv.take(i + 1).drop_last() == mv.take(i as int));
        assert(mv.take(i + 1).last() == ms@[i as int]@);
        assert(out@ =~= start + meaning_lines(mv.take(i + 1), colored));
        i = i + 1;
    }
    assert(mv.take(ms@.len() as int) == mv);
}

/// Appends a pronunciation line when there is a transcription.
fn push_pronunciation(out: &mut String, label: &str, p: &Option<String>, colored: bool)
    ensures
        final(out)@ == old(out)@ + pronunciation_line(label@, crate::parse::opt_view(*p), colored),
{
    match p {
        Some(x) => {
            push_str(out, label);
            push_str(out, "：[");
            push_painted(out, colored, Color::Green, x.as_str());
            push_str(out, "]\n");
        },
        None => {
            assert(old(out)@ + pronunciation_line(label@, None, colored) =~= old(out)@);
        },
    }
}

/// Appends the pronunciation section.
fn push_pronunciation_section(out: &mut String, p: &crate::parse::Pronunciation, colored: bool)
    ensures
        final(out)@ == old(out)@ + pronunciation_section(p@, colored),
{
    if p.uk.is_some() || p.us.is_some() {
        let ghost start = out@;
        push_str(out, "# Pronunciation\n");
        let ghost s1 = out@;
        push_pronunciation(out, "英", &p.uk, colored);
        let ghost s2 = out@;
        push_pronunciation(out, "美", &p.us, colored);
        let ghost s3 = out@;
        push_str(out, "\n");
        assert(out@ =~= start + pronunciation_section(p@, colored));
    } else {
        assert(old(out)@ + pronunciation_section(p@, colored) =~= old(out)@);
    }
}

/// Appends the meanings section of an English→Chinese entry.
fn push_meanings_section(out: &mut String, ms: &Vec<Meaning>, colored: bool)
    ensures
        final(out)@ == old(out)@ + meanings_section(meaning_views(ms@), colored),
{
    if ms.len() > 0 {
        let ghost start = out@;
        push_str(out, "# Meanings\n");
        push_meanings(out, ms, colored);
        assert(out@ =~= start + meanings_section(meaning_views(ms@), colored));
    } else {
        assert(old(out)@ + meanings_section(meaning_views(ms@), colored) =~= old(out)@);
    }
}

/// Appends the meanings section of a Chinese→English entry.
fn push_bullet_section(out: &mut String, items: &Vec<String>, colored: bool)
    ensures
        final(out)@ == old(out)@ + bullet_section(views(items@), colored),
{
    if items.len() > 0 {
        let ghost start = out@;
        push_str(out, "# Meanings\n");
        push_bullets(out, items, colored);
        push_str(out, "\n");
        assert(out@ =~= start + bullet_section(views(items@), colored));
    } else {
        assert(old(out)@ + bullet_section(views(items@), colored) =~= old(out)@);
    }
}

/// Appends the examples section of a Youdao entry.
fn push_examples_section(out: &mut String, exs: &Vec<Example>, colored: bool)
    ensures
        final(out)@ == old(out)@ + examples_section(example_views(exs@), colored),
{
    if exs.len() > 0 {
        let ghost start = out@;
        push_str(out, "# Examples\n");
        let refs = example_refs(exs);
        push_pairs(out, &refs, colored);
        push_str(out, "\n");
        assert(out@ =~= start + examples_section(example_views(exs@), colored));
    } else {
        assert(old(out)@ + examples_section(example_views(exs@), colored) =~= old(out)@);
    }
}

/// Renders an English→Chinese entry as Markdown; the transcriptions,
/// definitions and example sentences green and the translations magenta
/// when `colored`.
pub fn render_chinese(result: &ToChinese, colored: bool) -> (s: String)
    ensures
        s@ == chinese_markdown(result@, colored),
{
    let mut output = String::new();
    push_pronunciation_section(&mut output, &result.pronunciation, colored);
    push_meanings_section(&mut output, &result.meanings, colored);
    push_examples_section(&mut output, &result.examples, colored);
    assert(output@ =~= pronunciation_section(result@.pronunciation, colored) + meanings_section(
        result@.meanings,
        colored,
    ) + examples_section(result@.examples, colored));
    trim_end_str(output.as_str())
}

/// Renders a Chinese→English entry as Markdown; the meanings and example
/// sentences green and the translations magenta when `colored`.
pub fn render_english(result: &ToEnglish, colored: bool) -> (s: String)
    ensures
        s@ == english_markdown(result@, colored),
{
    let mut output = String::new();
    push_bullet_section(&mut output, &result.meanings, colored);
    push_examples_section(&mut output, &result.examples, colored);
    assert(output@ =~= bullet_section(result@.meanings, colored) + examples_section(
        result@.examples,
        colored,
    ));
    trim_end_str(output.as_str())
}

} // verus!

verus! {

/// The title of a German entry, followed by a blank line.
pub open spec fn german_title(colored: bool) -> Seq<char> {
    paint(colored, Color::BrightBlack, "# German Dictionary"@) + "\n"@ + "\n"@
}

/// The head line of a German entry: article (cyan) and word (green), and the
/// CEFR level in brackets (yellow); colours only when `colored`.
pub open spec fn german_head(e: crate::german::GermanEntryModel, colored: bool) -> Seq<char> {
    let article = match e.article {
        Some(a) => a,
        None => seq![],
    };
    (if article.len() > 0 {
        paint(colored, Color::Cyan, article) + " "@ + paint(colored, Color::Green, e.word)
    } else {
        paint(colored, Color::Green, e.word)
    }) + (match e.cefr_level {
        Some(l) => "  ["@ + paint(colored, Color::Yellow, l) + "]"@,
        None => seq![],
    }) + "\n"@
}

/// The word type line of a German entry, with the gender when there is one.
pub open spec fn german_type_line(e: crate::german::GermanEntryModel, colored: bool) -> Seq<char> {
    match e.word_type {
        Some(wt) => match e.gender {
            Some(g) => if colored {
                crate::color::colored_text(Color::BrightBlack, "# Type"@) + " "@
                    + crate::color::colored_text(Color::Cyan, wt) + " | "@
                    + crate::color::colored_text(Color::Yellow, g) + "\n"@
            } else {
                "* "@ + wt + " ("@ + g + ")\n"@
            },
            None => if colored {
                crate::color::colored_text(Color::BrightBlack, "# Type"@) + " "@
                    + crate::color::colored_text(Color::Cyan, wt) + "\n"@
            } else {
                "* "@ + wt + "\n"@
            },
        },
        None => seq![],
    }
}

/// The transcription line of a German entry.
pub open spec fn german_ipa_line(e: crate::german::GermanEntryModel, colored: bool) -> Seq<char> {
    match e.phonetic {
        Some(ph) => if colored {
            crate::color::colored_text(Color::BrightBlack, "# IPA"@) + "  /"@
                + crate::color::colored_text(Color::Green, ph) + "/\n"@
        } else {
            "* IPA /"@ + ph + "/\n"@
        },
        None => seq![],
    }
}

/// The definitions section of a German entry.
pub open spec fn german_definitions(defs: Seq<Seq<char>>, colored: bool) -> Seq<char> {
    if defs.len() > 0 {
        "# Definitions\n"@ + bullet_lines(defs, colored)
    } else {
        seq![]
    }
}

/// The examples section of a German entry.
pub open spec fn german_examples(exs: Seq<(Seq<char>, Seq<char>)>, colored: bool) -> Seq<char> {
    if exs.len() > 0 {
        "# Examples\n"@ + pair_lines(exs, colored)
    } else {
        seq![]
    }
}

/// The Markdown of a German entry.
pub open spec fn german_markdown(e: crate::german::GermanEntryModel, colored: bool) -> Seq<char> {
    trim_end(
        german_title(colored) + german_head(e, colored) + german_type_line(e, colored)
            + german_ipa_line(e, colored) + german_definitions(e.definitions, colored)
            + german_examples(e.examples, colored),
    )
}

/// The two texts of each example pair, borrowed.
fn pair_refs(v: &Vec<(String, String)>) -> (r: Vec<(&str, &str)>)
    ensures
        r@.map_values(|p: (&str, &str)| (p.0@, p.1@)) == crate::german::pair_views(v@),
{
    let mut r: Vec<(&str, &str)> = Vec::new();
    let mut i: usize = 0;
    while i < v.len()
        invariant
            i <= v@.len(),
            r@.len() == i,
            forall|j: int| 0 <= j < i ==> (#[trigger] r@[j]).0@ == v@[j].0@ && r@[j].1@ == v@[j].1@,
        decreases v.len() - i,
    {
        r.push((v[i].0.as_str(), v[i].1.as_str()));
        i = i + 1;
    }
    assert(r@.map_values(|p: (&str, &str)| (p.0@, p.1@)) =~= crate::german::pair_views(v@));
    r
}

/// Appends the head line of a German entry.
fn push_german_head(out: &mut String, entry: &GermanEntry, colored: bool)
    ensures
        final(out)@ == old(out)@ + german_head(entry@, colored),
{
    let ghost start = out@;
    let article_str: &str = match &entry.article {
        Some(a) => a.as_str(),
        None => "",
    };
    proof {
        reveal_strlit("");
    }
    if !article_str.is_empty() {
        push_painted(out, colored, Color::Cyan, article_str);
        push_str(out, " ");
        push_painted(out, colored, Color::Green, entry.word.as_str());
    } else {
        push_painted(out, colored, Color::Green, entry.word.as_str());
    }
    let ghost mid = out@;
    match &entry.cefr_level {
        Some(level) => {
            push_str(out, "  [");
            push_painted(out, colored, Color::Yellow, level.as_str());
            push_str(out, "]");
        },
        None => {},
    }
    push_str(out, "\n");
    assert(out@ =~= start + german_head(entry@, colored));
}

/// Appends the word type line of a German entry.
fn push_german_type(out: &mut String, entry: &GermanEntry, colored: bool)
    ensures
        final(out)@ == old(out)@ + german_type_line(entry@, colored),
{
    let ghost start = out@;
    match &entry.word_type {
        Some(wt) => match &entry.gender {
            Some(g) => {
                if colored {
                    push_painted(out, true, Color::BrightBlack, "# Type");
                    push_str(out, " ");
                    push_painted(out, true, Color::Cyan, wt.as_str());
                    push_str(out, " | ");
                    push_painted(out, true, Color::Yellow, g.as_str());
                    push_str(out, "\n");
                } else {
                    push_str(out, "* ");
                    push_str(out, wt.as_str());
                    push_str(out, " (");
                    push_str(out, g.as_str());
                    push_str(out, ")\n");
                }
            },
            None => {
                if colored {
                    push_painted(out, true, Color::BrightBlack, "# Type");
                    push_str(out, " ");
                    push_painted(out, true, Color::Cyan, wt.as_str());
                    push_str(out, "\n");
                } else {
                    push_str(out, "* ");
                    push_str(out, wt.as_str());
                    push_str(out, "\n");
                }
            },
        },
        None => {},
    }
    assert(out@ =~= start + german_type_line(entry@, colored));
}

/// Appends the transcription line of a German entry.
fn push_german_ipa(out: &mut String, entry: &GermanEntry, colored: bool)
    ensures
        final(out)@ == old(out)@ + german_ipa_line(entry@, colored),
{
    let ghost start = out@;
    match &entry.phonetic {
        Some(ph) => {
            if colored {
                push_painted(out, true, Color::BrightBlack, "# IPA");
                push_str(out, "  /");
                push_painted(out, true, Color::Green, ph.as_str());
                push_str(out, "/\n");
            } else {
                push_str(out, "* IPA /");
                push_str(out, ph.as_str());
                push_str(out, "/\n");
            }
        },
        None => {},
    }
    assert(out@ =~= start + german_ipa_line(entry@, colored));
}

/// Appends the definitions and examples sections of a German entry.
fn push_german_lists(out: &mut String, entry: &GermanEntry, colored: bool)
    ensures
        final(out)@ == old(out)@ + german_definitions(entry@.definitions, colored)
            + german_examples(entry@.examples, colored),
{
    let ghost start = out@;
    if entry.definitions.len() > 0 {
        push_str(out, "# Definitions\n");
        push_bullets(out, &entry.definitions, colored);
    }
    let ghost mid = out@;
    assert(mid =~= start + german_definitions(entry@.definitions, colored));
    if entry.examples.len() > 0 {
        push_str(out, "# Examples\n");
        let refs = pair_refs(&entry.examples);
        push_pairs(out, &refs, colored);
    }
    assert(out@ =~= mid + german_examples(entry@.examples, colored));
}

/// Renders a German entry as Markdown; with colours when `colored`.
pub fn render_german_entry(entry: &GermanEntry, colored: bool) -> (s: String)
    ensures
        s@ == german_markdown(entry@, colored),
{
    let mut output = String::new();
    push_painted(&mut output, colored, Color::BrightBlack, "# German Dictionary");
    push_str(&mut output, "\n");
    push_str(&mut output, "\n");
    assert(output@ =~= german_title(colored));
    push_german_head(&mut output, entry, colored);
    push_german_type(&mut output, entry, colored);
    push_german_ipa(&mut output, entry, colored);
    push_german_lists(&mut output, entry, colored);
    assert(output@ =~= german_title(colored) + german_head(entry@, colored) + german_type_line(
        entry@,
        colored,
    ) + german_ipa_line(entry@, colored) + german_definitions(entry@.definitions, colored)
        + german_examples(entry@.examples, colored));
    trim_end_str(output.as_str())
}

} // verus!

verus! {

/// The Markdown of any lookup result.
pub open spec fn markdown_of(d: crate::parse::TranslationModel, colored: bool) -> Seq<char> {
    match d {
        crate::parse::TranslationModel::ToChinese(t) => chinese_markdown(t, colored),
        crate::parse::TranslationModel::ToEnglish(t) => english_markdown(t, colored),
        crate::parse::TranslationModel::German(g) => german_markdown(g, colored),
    }
}

/// Renders any lookup result as Markdown, with the renderer of its kind.
pub fn render_markdown(data: &TranslationData, colored: bool) -> (s: String)
    ensures
        s@ == markdown_of(data@, colored),
{
    match data {
        TranslationData::ToChinese(tc) => render_chinese(tc, colored),
        TranslationData::ToEnglish(te) => render_english(te, colored),
        TranslationData::German(ge) => render_german_entry(ge, colored),
    }
}

// ---------------------------------------------------------------------------
// Lookups: cache and HTTP decisions
// ---------------------------------------------------------------------------

/// What reading the cache for a text gave.
pub enum CacheRead {
    /// No entry for the text.
    Missing,
    /// The query failed.
    Failed,
    /// The entry has no readable `data` column.
    NoData,
    /// The entry's data could not be decoded (a stale format).
    Undecodable,
    /// The entry's data, decoded.
    Decoded(TranslationData),
}

/// What to do after reading the cache.
pub enum CacheOutcome {
    /// Answer with the cached data.
    Hit(FetchedResult),
    /// Fetch the page.
    Miss,
    /// Delete the stale entry, then fetch the page.
    Stale,
}

/// Decides what a cache read leads to: decoded data answers the lookup (as
/// cached data), undecodable data is deleted and fetched again, anything
/// else is fetched again.
pub fn cache_outcome(read: CacheRead) -> (o: CacheOutcome)
    ensures
        match read {
            CacheRead::Decoded(d) => o matches CacheOutcome::Hit(r) && r.data == d && r.is_cached,
            CacheRead::Undecodable => o is Stale,
            _ => o is Miss,
        },
{
    match read {
        CacheRead::Decoded(data) => CacheOutcome::Hit(FetchedResult { data, is_cached: true }),
        CacheRead::Undecodable => CacheOutcome::Stale,
        _ => CacheOutcome::Miss,
    }
}

/// Whether an HTTP status code reports success (2xx).
pub open spec fn is_success(status: u16) -> bool {
    200 <= status <= 299
}

/// The message for an unsuccessful response.
pub open spec fn http_failure_message(status: Seq<char>, source: Seq<char>, text: Seq<char>) -> Seq<
    char,
> {
    "HTTP "@ + status + " from "@ + source + " while fetching \""@ + text + "\""@
}

/// Checks the status of a dictionary response: a successful status lets the
/// page be parsed; any other is an error naming the status (as displayed),
/// the source and the text looked up.
pub fn check_response_status(status: u16, status_display: &str, source: &str, text: &str) -> (r:
    Result<(), Error>)
    ensures
        is_success(status) ==> r is Ok,
        !is_success(status) ==> (r matches Err(e) && e@ == ErrorModel::Parse(
            http_failure_message(status_display@, source@, text@),
        )),
{
    if 200 <= status && status <= 299 {
        Ok(())
    } else {
        let mut msg = "HTTP ".to_owned();
        push_str(&mut msg, status_display);
        push_str(&mut msg, " from ");
        push_str(&mut msg, source);
        push_str(&mut msg, " while fetching \"");
        push_str(&mut msg, text);
        push_str(&mut msg, "\"");
        Err(Error::Parse(msg))
    }
}

/// The result of a fresh lookup: the source's reading of the fetched page,
/// marked as not cached.
pub fn fetched_from_page<S: DictionarySource + ?Sized>(source: &S, text: &str, html: &str) -> (r: Result<
    FetchedResult,
    Error,
>)
    ensures
        match r {
            Ok(f) => !f.is_cached && source.parse_result(text@, html@) == Ok::<
                TranslationModel,
                ErrorModel,
            >(f.data@),
            Err(e) => source.parse_result(text@, html@) == Err::<TranslationModel, ErrorModel>(e@),
        },
{
    match source.parse(text, html) {
        Ok(data) => Ok(FetchedResult { data, is_cached: false }),
        Err(e) => Err(e),
    }
}

} // verus!
