//! Properties that hold of every lookup, parse and rendering.

use vstd::prelude::*;

use crate::parse::{
    chinese_page_model, english_page_model, examples_of_blocks, keeps_example, keeps_meaning,
    meaning_of_block, meanings_of_blocks, nonempty_trimmed, to_chinese_result, to_english_result,
    ExampleBlockModel, ExampleModel, MeaningBlockModel, MeaningModel, TranslationModel,
};
use crate::german::{
    article_phrase, articles, cefr_level_keys, cefr_levels, collect_definitions, collect_examples,
    definition_candidate, faq_facts, first_article_in, first_level_in, gender_phrase,
    german_fetch_url, german_page_model, german_page_path, german_result, guessed_word_type,
    keeps_pair, ExampleItemModel, word_type_from_lowercase, verb_suffixes, adjective_suffixes,
    ends_with_any,
};
use crate::rdict::{
    bullet_lines, bullet_section, chinese_markdown, english_markdown, example_pairs, examples_section,
    markdown_of, meaning_lines, meanings_section, pair_lines, part_of_speech_line,
    pronunciation_section,
};
use crate::color::{paint, Color};
use crate::text::{
    contains, ends_with, is_trimmed, is_ws, occurs_at, trim_end, lemma_trim_end_no_trailing_ws, lemma_trim_is_trimmed,
    lemma_trim_of_trimmed, lowercase, split_char, starts_with, trim, trim_char,
};
use crate::youdao::youdao_result;
use crate::has_cjk;

verus! {

/// A meaning as an entry holds it: it has a part of speech or a definition,
/// and its texts carry no surrounding whitespace.
pub open spec fn clean_meaning(m: MeaningModel) -> bool {
    &&& keeps_meaning(m)
    &&& (m.part_of_speech matches Some(p) ==> is_trimmed(p))
    &&& forall|j: int| 0 <= j < m.definitions.len() ==> is_trimmed(#[trigger] m.definitions[j])
}

/// An example as an entry holds it: not both texts empty, both trimmed.
pub open spec fn clean_example(e: ExampleModel) -> bool {
    &&& keeps_example(e)
    &&& is_trimmed(e.en)
    &&& is_trimmed(e.zh)
}

/// A transcription as an entry holds it: not empty, trimmed.
pub open spec fn clean_transcription(p: Option<Seq<char>>) -> bool {
    p matches Some(u) ==> u.len() > 0 && is_trimmed(u)
}

proof fn lemma_meanings_clean(bs: Seq<MeaningBlockModel>)
    ensures
        forall|i: int|
            0 <= i < meanings_of_blocks(bs).len() ==> clean_meaning(
                #[trigger] meanings_of_blocks(bs)[i],
            ),
    decreases bs.len(),
{
    if bs.len() > 0 {
        lemma_meanings_clean(bs.drop_last());
        let m = meaning_of_block(bs.last());
        if let Some(p) = bs.last().part_of_speech {
            lemma_trim_is_trimmed(p);
        }
        assert forall|j: int| 0 <= j < m.definitions.len() implies is_trimmed(
            #[trigger] m.definitions[j],
        ) by {
            let t = bs.last().definitions.unwrap();
            lemma_trim_is_trimmed(split_char(trim(t), '；')[j]);
        }
        let rest = meanings_of_blocks(bs.drop_last());
        let r = meanings_of_blocks(bs);
        assert forall|i: int| 0 <= i < r.len() implies clean_meaning(#[trigger] r[i]) by {
            if i < rest.len() {
                assert(r[i] == rest[i]);
            }
        }
    }
}

proof fn lemma_examples_clean(bs: Seq<ExampleBlockModel>)
    ensures
        forall|i: int|
            0 <= i < examples_of_blocks(bs).len() ==> clean_example(
                #[trigger] examples_of_blocks(bs)[i],
            ),
    decreases bs.len(),
{
    if bs.len() > 0 {
        lemma_examples_clean(bs.drop_last());
        if let Some(t) = bs.last().en {
            lemma_trim_is_trimmed(t);
        }
        if let Some(t) = bs.last().zh {
            lemma_trim_is_trimmed(t);
        }
        let rest = examples_of_blocks(bs.drop_last());
        let r = examples_of_blocks(bs);
        assert(is_trimmed(seq![]));
        assert forall|i: int| 0 <= i < r.len() implies clean_example(#[trigger] r[i]) by {
            if i < rest.len() {
                assert(r[i] == rest[i]);
            }
        }
    }
}

proof fn lemma_translations_clean(v: Seq<Seq<char>>)
    ensures
        forall|i: int|
            0 <= i < nonempty_trimmed(v).len() ==> (#[trigger] nonempty_trimmed(v)[i]).len() > 0
                && is_trimmed(nonempty_trimmed(v)[i]),
    decreases v.len(),
{
    if v.len() > 0 {
        lemma_translations_clean(v.drop_last());
        lemma_trim_is_trimmed(v.last());
        let rest = nonempty_trimmed(v.drop_last());
        let r = nonempty_trimmed(v);
        assert forall|i: int| 0 <= i < r.len() implies (#[trigger] r[i]).len() > 0 && is_trimmed(
            r[i],
        ) by {
            if i < rest.len() {
                assert(r[i] == rest[i]);
            }
        }
    }
}

/// An English→Chinese entry is never empty: a successful parse of any page
/// gives the word looked up and at least a pronunciation, a meaning or an
/// example; every transcription is non-empty, every meaning has a part of
/// speech or a definition, every example a sentence or a translation, and
/// none of their texts has surrounding whitespace.
pub proof fn chinese_entries_are_clean(input: Seq<char>, html: Seq<char>)
    ensures
        to_chinese_result(input, html) matches Ok(t) ==> {
            &&& t.input_text == input
            &&& t.pronunciation.uk is Some || t.pronunciation.us is Some || t.meanings.len() > 0
                || t.examples.len() > 0
            &&& clean_transcription(t.pronunciation.uk)
            &&& clean_transcription(t.pronunciation.us)
            &&& forall|i: int| 0 <= i < t.meanings.len() ==> clean_meaning(#[trigger] t.meanings[i])
            &&& forall|i: int| 0 <= i < t.examples.len() ==> clean_example(#[trigger] t.examples[i])
        },
{
    if let Some(p) = chinese_page_model(html) {
        lemma_meanings_clean(p.meanings);
        lemma_examples_clean(p.examples);
        if p.pronunciations.len() > 0 {
            lemma_trim_is_trimmed(trim_char(p.pronunciations[0], '/'));
        }
        if p.pronunciations.len() > 1 {
            lemma_trim_is_trimmed(trim_char(p.pronunciations[1], '/'));
        }
    }
}

/// A Chinese→English entry is never empty: a successful parse of any page
/// gives the word looked up and at least a meaning or an example; every
/// meaning is a non-empty trimmed text, every example has a sentence or a
/// translation, both trimmed.
pub proof fn english_entries_are_clean(input: Seq<char>, html: Seq<char>)
    ensures
        to_english_result(input, html) matches Ok(t) ==> {
            &&& t.input_text == input
            &&& t.meanings.len() > 0 || t.examples.len() > 0
            &&& forall|i: int|
                0 <= i < t.meanings.len() ==> (#[trigger] t.meanings[i]).len() > 0 && is_trimmed(
                    t.meanings[i],
                )
            &&& forall|i: int| 0 <= i < t.examples.len() ==> clean_example(#[trigger] t.examples[i])
        },
{
    if let Some(p) = english_page_model(html) {
        lemma_translations_clean(p.translations);
        lemma_examples_clean(p.examples);
    }
}

/// Youdao routes by script: a successful parse is Chinese→English exactly
/// when the word has a CJK character, English→Chinese otherwise, and never
/// a German entry.
pub proof fn youdao_routes_by_script(word: Seq<char>, html: Seq<char>)
    ensures
        youdao_result(word, html) matches Ok(d) ==> match d {
            TranslationModel::ToEnglish(_) => has_cjk(word),
            TranslationModel::ToChinese(_) => !has_cjk(word),
            TranslationModel::German(_) => false,
        },
{
}

} // verus!

verus! {

proof fn lemma_definitions_clean(s: Seq<Seq<char>>)
    ensures
        collect_definitions(s).len() <= 8,
        forall|i: int|
            0 <= i < collect_definitions(s).len() ==> definition_candidate(
                #[trigger] collect_definitions(s)[i],
            ) && is_trimmed(collect_definitions(s)[i]),
        forall|i: int, j: int|
            0 <= i < j < collect_definitions(s).len() ==> #[trigger] collect_definitions(s)[i]
                != #[trigger] collect_definitions(s)[j],
    decreases s.len(),
{
    if s.len() > 0 {
        lemma_definitions_clean(s.drop_last());
        let d = collect_definitions(s.drop_last());
        let t = trim(s.last());
        lemma_trim_is_trimmed(s.last());
        lemma_trim_of_trimmed(t);
        let r = collect_definitions(s);
        assert forall|i: int| 0 <= i < r.len() implies definition_candidate(#[trigger] r[i])
            && is_trimmed(r[i]) by {
            if i < d.len() {
                assert(r[i] == d[i]);
            }
        }
        assert forall|i: int, j: int| 0 <= i < j < r.len() implies #[trigger] r[i] != #[trigger] r[j] by {
            if j < d.len() {
                assert(r[i] == d[i] && r[j] == d[j]);
            } else if r.len() > d.len() {
                assert(r[i] == d[i]);
                assert(d.contains(d[i]));
            }
        }
    }
}

proof fn lemma_examples_kept(items: Seq<ExampleItemModel>)
    ensures
        collect_examples(items).len() <= items.len(),
        forall|i: int|
            0 <= i < collect_examples(items).len() ==> keeps_pair(
                #[trigger] collect_examples(items)[i],
            ),
    decreases items.len(),
{
    if items.len() > 0 {
        lemma_examples_kept(items.drop_last());
        let e = collect_examples(items.drop_last());
        let r = collect_examples(items);
        assert forall|i: int| 0 <= i < r.len() implies keeps_pair(#[trigger] r[i]) by {
            if i < e.len() {
                assert(r[i] == e[i]);
            }
        }
    }
}

proof fn lemma_first_level_in(answer: Seq<char>, levels: Seq<(Seq<char>, Seq<char>)>)
    ensures
        first_level_in(answer, levels) matches Some(l) ==> exists|k: int|
            0 <= k < levels.len() && (#[trigger] levels[k]).0 == l,
    decreases levels.len(),
{
    if levels.len() > 0 && !contains(answer, levels[0].1) {
        lemma_first_level_in(answer, levels.drop_first());
        if let Some(l) = first_level_in(answer, levels.drop_first()) {
            let k = choose|k: int|
                0 <= k < levels.drop_first().len() && (#[trigger] levels.drop_first()[k]).0 == l;
            assert(levels[k + 1].0 == l);
        }
    } else if levels.len() > 0 {
        assert(levels[0].0 == levels[0].0);
    }
}

proof fn lemma_first_article_in(
    word: Seq<char>,
    answer: Seq<char>,
    pairs: Seq<(Seq<char>, Seq<char>)>,
)
    ensures
        first_article_in(word, answer, pairs) matches Some(p) ==> pairs.contains(p),
    decreases pairs.len(),
{
    if pairs.len() > 0 && !(contains(answer, article_phrase(pairs[0].0)) || contains(
        answer,
        gender_phrase(word, pairs[0].1),
    )) {
        lemma_first_article_in(word, answer, pairs.drop_first());
        if let Some(p) = first_article_in(word, answer, pairs.drop_first()) {
            let k = choose|k: int| 0 <= k < pairs.drop_first().len() && pairs.drop_first()[k] == p;
            assert(pairs[k + 1] == p);
        }
    } else if pairs.len() > 0 {
        assert(pairs[0] == pairs[0]);
    }
}

proof fn lemma_faq_facts(word: Seq<char>, answers: Seq<Option<Seq<char>>>)
    ensures
        faq_facts(word, answers).cefr_level matches Some(l) ==> cefr_levels().contains(l),
        faq_facts(word, answers).article matches Some(p) ==> articles().contains(p),
    decreases answers.len(),
{
    if answers.len() > 0 {
        lemma_faq_facts(word, answers.drop_last());
        let a = match answers.last() {
            Some(t) => t,
            None => seq![],
        };
        lemma_first_level_in(lowercase(a), cefr_level_keys());
        if let Some(l) = first_level_in(lowercase(a), cefr_level_keys()) {
            let k = choose|k: int| 0 <= k < cefr_level_keys().len() && (#[trigger] cefr_level_keys()[k]).0 == l;
            assert(cefr_levels()[k] == l);
        }
        lemma_first_article_in(word, lowercase(a), articles());
    }
}

/// A German entry is never empty: a successful parse of any page gives the
/// word looked up and at least a word type, a CEFR level, a transcription, a
/// definition or an example. The word type is "verb", "adjective" or "noun";
/// the CEFR level is one of A1..C2; article and gender come together, as one
/// of das/neuter, der/masculine, die/feminine; there are at most 8
/// definitions, pairwise distinct, trimmed, each 11 to 299 bytes long and
/// starting with neither "http" nor "@"; there are at most 3 examples, each
/// with both texts longer than 5 bytes.
pub proof fn german_entries_are_clean(word: Seq<char>, html: Seq<char>)
    ensures
        german_result(word, html) matches Ok(e) ==> {
            &&& e.word == word
            &&& e.word_type is Some || e.cefr_level is Some || e.phonetic is Some
                || e.definitions.len() > 0 || e.examples.len() > 0
            &&& (e.word_type matches Some(t) ==> t == "verb"@ || t == "adjective"@ || t
                == "noun"@)
            &&& (e.cefr_level matches Some(l) ==> cefr_levels().contains(l))
            &&& (e.article is Some <==> e.gender is Some)
            &&& (e.article matches Some(a) ==> articles().contains((a, e.gender.unwrap())))
            &&& e.definitions.len() <= 8
            &&& forall|i: int|
                0 <= i < e.definitions.len() ==> definition_candidate(#[trigger] e.definitions[i])
                    && is_trimmed(e.definitions[i])
            &&& forall|i: int, j: int|
                0 <= i < j < e.definitions.len() ==> #[trigger] e.definitions[i]
                    != #[trigger] e.definitions[j]
            &&& e.examples.len() <= 3
            &&& forall|i: int| 0 <= i < e.examples.len() ==> keeps_pair(#[trigger] e.examples[i])
        },
{
    let page = german_page_model(html);
    lemma_definitions_clean(page.italics);
    lemma_examples_kept(page.items);
    lemma_faq_facts(word, page.answers);
}

/// The word type guessed for a URL is always "verb", "adjective" or "noun".
pub proof fn guessed_word_types(word: Seq<char>)
    ensures
        guessed_word_type(word) == "verb"@ || guessed_word_type(word) == "adjective"@
            || guessed_word_type(word) == "noun"@,
{
}

/// A Netzverb URL is the base URL, a slash, a conjugation or declension
/// path, the word and ".htm".
pub proof fn german_urls_name_the_word(base_url: Seq<char>, word: Seq<char>)
    ensures
        starts_with(german_fetch_url(base_url, word), base_url + "/"@),
        ends_with(german_fetch_url(base_url, word), word + ".htm"@),
{
    let url = german_fetch_url(base_url, word);
    let prefix = base_url + "/"@;
    let tail = word + ".htm"@;
    let path = german_page_path(word);
    let mid = if guessed_word_type(word) == "verb"@ {
        "conjugation/"@
    } else if guessed_word_type(word) == "adjective"@ {
        "declension/adjectives/"@
    } else {
        "declension/nouns/"@
    };
    assert(path =~= mid + tail);
    assert(url =~= prefix + (mid + tail));
    assert(url.subrange(0, prefix.len() as int) =~= prefix);
    assert(url.subrange(url.len() - tail.len(), url.len() as int) =~= tail);
}

/// Rendered Markdown never ends with whitespace.
pub proof fn markdown_has_no_trailing_whitespace(d: TranslationModel, colored: bool)
    ensures
        markdown_of(d, colored).len() == 0 || !is_ws(markdown_of(d, colored).last()),
{
    match d {
        TranslationModel::ToChinese(t) => {
            let x = crate::rdict::pronunciation_section(t.pronunciation, colored)
                + crate::rdict::meanings_section(t.meanings, colored)
                + crate::rdict::examples_section(t.examples, colored);
            lemma_trim_end_no_trailing_ws(x);
        },
        TranslationModel::ToEnglish(t) => {
            let x = crate::rdict::bullet_section(t.meanings, colored)
                + crate::rdict::examples_section(t.examples, colored);
            lemma_trim_end_no_trailing_ws(x);
        },
        TranslationModel::German(g) => {
            let x = crate::rdict::german_title(colored) + crate::rdict::german_head(g, colored)
                + crate::rdict::german_type_line(g, colored) + crate::rdict::german_ipa_line(
                g,
                colored,
            ) + crate::rdict::german_definitions(g.definitions, colored)
                + crate::rdict::german_examples(g.examples, colored);
            lemma_trim_end_no_trailing_ws(x);
        },
    }
}

} // verus!

verus! {

/// The CEFR level read from a lowercased FAQ answer is the level that the
/// answer names, in upper case: the first of "a1", "a2", "b1", "b2", "c1",
/// "c2" (in that order) that occurs in it; none when it names none.
pub proof fn cefr_level_is_the_level_named(a: Seq<char>)
    ensures
        contains(a, "a1"@) ==> first_level_in(a, cefr_level_keys()) == Some("A1"@),
        !contains(a, "a1"@) && contains(a, "a2"@) ==> first_level_in(a, cefr_level_keys())
            == Some("A2"@),
        !contains(a, "a1"@) && !contains(a, "a2"@) && contains(a, "b1"@) ==> first_level_in(
            a,
            cefr_level_keys(),
        ) == Some("B1"@),
        !contains(a, "a1"@) && !contains(a, "a2"@) && !contains(a, "b1"@) && contains(a, "b2"@)
            ==> first_level_in(a, cefr_level_keys()) == Some("B2"@),
        !contains(a, "a1"@) && !contains(a, "a2"@) && !contains(a, "b1"@) && !contains(a, "b2"@)
            && contains(a, "c1"@) ==> first_level_in(a, cefr_level_keys()) == Some("C1"@),
        !contains(a, "a1"@) && !contains(a, "a2"@) && !contains(a, "b1"@) && !contains(a, "b2"@)
            && !contains(a, "c1"@) && contains(a, "c2"@) ==> first_level_in(a, cefr_level_keys())
            == Some("C2"@),
        !contains(a, "a1"@) && !contains(a, "a2"@) && !contains(a, "b1"@) && !contains(a, "b2"@)
            && !contains(a, "c1"@) && !contains(a, "c2"@) ==> first_level_in(a, cefr_level_keys())
            is None,
{
    let k = cefr_level_keys();
    assert(k.drop_first() =~= seq![("A2"@, "a2"@), ("B1"@, "b1"@), ("B2"@, "b2"@), ("C1"@, "c1"@), ("C2"@, "c2"@)]);
    let k1 = k.drop_first();
    assert(k1.drop_first() =~= seq![("B1"@, "b1"@), ("B2"@, "b2"@), ("C1"@, "c1"@), ("C2"@, "c2"@)]);
    let k2 = k1.drop_first();
    assert(k2.drop_first() =~= seq![("B2"@, "b2"@), ("C1"@, "c1"@), ("C2"@, "c2"@)]);
    let k3 = k2.drop_first();
    assert(k3.drop_first() =~= seq![("C1"@, "c1"@), ("C2"@, "c2"@)]);
    let k4 = k3.drop_first();
    assert(k4.drop_first() =~= seq![("C2"@, "c2"@)]);
    let k5 = k4.drop_first();
    assert(k5.drop_first() =~= Seq::<(Seq<char>, Seq<char>)>::empty());
    assert(first_level_in(a, k5.drop_first()) is None);
    assert(k5[0] == ("C2"@, "c2"@));
    assert(k4[0] == ("C1"@, "c1"@));
    assert(k3[0] == ("B2"@, "b2"@));
    assert(k2[0] == ("B1"@, "b1"@));
    assert(k1[0] == ("A2"@, "a2"@));
    assert(k[0] == ("A1"@, "a1"@));
    assert(first_level_in(a, k5) == if contains(a, "c2"@) { Some("C2"@) } else { None::<Seq<char>> });
    assert(first_level_in(a, k4) == if contains(a, "c1"@) { Some("C1"@) } else { first_level_in(a, k5) });
    assert(first_level_in(a, k3) == if contains(a, "b2"@) { Some("B2"@) } else { first_level_in(a, k4) });
    assert(first_level_in(a, k2) == if contains(a, "b1"@) { Some("B1"@) } else { first_level_in(a, k3) });
    assert(first_level_in(a, k1) == if contains(a, "a2"@) { Some("A2"@) } else { first_level_in(a, k2) });
    assert(first_level_in(a, k) == if contains(a, "a1"@) { Some("A1"@) } else { first_level_in(a, k1) });
}

/// With a single non-empty FAQ answer, the entry's CEFR level is the level
/// that the lowercased answer names.
pub proof fn single_answer_gives_its_level(word: Seq<char>, t: Seq<char>)
    requires
        t.len() > 0,
    ensures
        faq_facts(word, seq![Some(t)]).cefr_level == first_level_in(lowercase(t), cefr_level_keys()),
{
    let answers = seq![Some(t)];
    assert(answers.drop_last() =~= Seq::<Option<Seq<char>>>::empty());
    assert(answers.last() == Some(t));
    assert(faq_facts(word, answers.drop_last()).cefr_level is None);
}

/// A text holds a CJK character exactly when one of its parts does: the
/// empty text holds none, a single character is one exactly when it lies in
/// U+4E00..=U+9FFF, and a concatenation holds one exactly when either part
/// does (so appending anything to a CJK text keeps it CJK).
pub proof fn cjk_means_any_character_in_block(s: Seq<char>, t: Seq<char>, c: char)
    ensures
        !has_cjk(Seq::<char>::empty()),
        has_cjk(seq![c]) <==> ('\u{4E00}' <= c && c <= '\u{9FFF}'),
        has_cjk(s + t) <==> has_cjk(s) || has_cjk(t),
{
    if has_cjk(seq![c]) {
        let i = choose|i: int| 0 <= i < seq![c].len() && crate::is_cjk_char(#[trigger] seq![c][i]);
        assert(seq![c][i] == c);
    }
    if '\u{4E00}' <= c && c <= '\u{9FFF}' {
        assert(crate::is_cjk_char(seq![c][0]));
    }
    let u = s + t;
    if has_cjk(u) {
        let i = choose|i: int| 0 <= i < u.len() && crate::is_cjk_char(#[trigger] u[i]);
        if i < s.len() {
            assert(u[i] == s[i]);
        } else {
            assert(u[i] == t[i - s.len()]);
        }
    }
    if has_cjk(s) {
        let i = choose|i: int| 0 <= i < s.len() && crate::is_cjk_char(#[trigger] s[i]);
        assert(u[i] == s[i]);
    }
    if has_cjk(t) {
        let i = choose|i: int| 0 <= i < t.len() && crate::is_cjk_char(#[trigger] t[i]);
        assert(u[s.len() + i] == t[i]);
    }
}

/// The lowercased word ends like a verb: -ieren, -eln, -ern or -en.
pub open spec fn verb_ending(l: Seq<char>) -> bool {
    ||| ends_with(l, "ieren"@)
    ||| ends_with(l, "eln"@)
    ||| ends_with(l, "ern"@)
    ||| ends_with(l, "en"@)
}

/// The lowercased word ends like an adjective: -lich, -isch, -ig, -bar,
/// -sam, -los, -haft, -arm, -frei or -reich.
pub open spec fn adjective_ending(l: Seq<char>) -> bool {
    ||| ends_with(l, "lich"@)
    ||| ends_with(l, "isch"@)
    ||| ends_with(l, "ig"@)
    ||| ends_with(l, "bar"@)
    ||| ends_with(l, "sam"@)
    ||| ends_with(l, "los"@)
    ||| ends_with(l, "haft"@)
    ||| ends_with(l, "arm"@)
    ||| ends_with(l, "frei"@)
    ||| ends_with(l, "reich"@)
}

/// The word type of a lowercased word follows its ending: "verb" for a verb
/// ending, otherwise "adjective" for an adjective ending, otherwise "noun".
pub proof fn word_type_follows_the_ending(l: Seq<char>)
    ensures
        verb_ending(l) ==> word_type_from_lowercase(l) == "verb"@,
        !verb_ending(l) && adjective_ending(l) ==> word_type_from_lowercase(l) == "adjective"@,
        !verb_ending(l) && !adjective_ending(l) ==> word_type_from_lowercase(l) == "noun"@,
{
    let v = verb_suffixes();
    let a = adjective_suffixes();
    if ends_with(l, "ieren"@) { assert(ends_with(l, v[0])); }
    if ends_with(l, "eln"@) { assert(ends_with(l, v[1])); }
    if ends_with(l, "ern"@) { assert(ends_with(l, v[2])); }
    if ends_with(l, "en"@) { assert(ends_with(l, v[3])); }
    if ends_with(l, "lich"@) { assert(ends_with(l, a[0])); }
    if ends_with(l, "isch"@) { assert(ends_with(l, a[1])); }
    if ends_with(l, "ig"@) { assert(ends_with(l, a[2])); }
    if ends_with(l, "bar"@) { assert(ends_with(l, a[3])); }
    if ends_with(l, "sam"@) { assert(ends_with(l, a[4])); }
    if ends_with(l, "los"@) { assert(ends_with(l, a[5])); }
    if ends_with(l, "haft"@) { assert(ends_with(l, a[6])); }
    if ends_with(l, "arm"@) { assert(ends_with(l, a[7])); }
    if ends_with(l, "frei"@) { assert(ends_with(l, a[8])); }
    if ends_with(l, "reich"@) { assert(ends_with(l, a[9])); }
    if ends_with_any(l, v) {
        let i = choose|i: int| 0 <= i < v.len() && ends_with(l, #[trigger] v[i]);
        assert(i == 0 || i == 1 || i == 2 || i == 3);
    }
    if ends_with_any(l, a) {
        let i = choose|i: int| 0 <= i < a.len() && ends_with(l, #[trigger] a[i]);
        assert(0 <= i < 10);
    }
}

/// The Netzverb URL of a word follows the ending of the lowercased word:
/// the conjugation page for a verb ending, otherwise the adjective
/// declension page for an adjective ending, otherwise the noun declension
/// page.
pub proof fn german_url_follows_the_ending(base_url: Seq<char>, word: Seq<char>)
    ensures
        verb_ending(lowercase(word)) ==> german_fetch_url(base_url, word) == base_url
            + "/conjugation/"@ + word + ".htm"@,
        !verb_ending(lowercase(word)) && adjective_ending(lowercase(word)) ==> german_fetch_url(
            base_url,
            word,
        ) == base_url + "/declension/adjectives/"@ + word + ".htm"@,
        !verb_ending(lowercase(word)) && !adjective_ending(lowercase(word)) ==> german_fetch_url(
            base_url,
            word,
        ) == base_url + "/declension/nouns/"@ + word + ".htm"@,
{
    word_type_follows_the_ending(lowercase(word));
    reveal_strlit("verb");
    reveal_strlit("adjective");
    reveal_strlit("noun");
    reveal_strlit("/");
    reveal_strlit("conjugation/");
    reveal_strlit("/conjugation/");
    reveal_strlit("declension/adjectives/");
    reveal_strlit("/declension/adjectives/");
    reveal_strlit("declension/nouns/");
    reveal_strlit("/declension/nouns/");
    assert("verb"@.len() == 4);
    assert("adjective"@.len() == 9);
    assert("noun"@.len() == 4);
    assert("verb"@[0] == 'v' && "noun"@[0] == 'n');
    assert("verb"@.len() != "adjective"@.len());
    assert("verb"@ != "noun"@);
    assert("adjective"@.len() != "noun"@.len());
    assert("/conjugation/"@ =~= "/"@ + "conjugation/"@);
    assert("/declension/adjectives/"@ =~= "/"@ + "declension/adjectives/"@);
    assert("/declension/nouns/"@ =~= "/"@ + "declension/nouns/"@);
    let t = guessed_word_type(word);
    let tail = word + ".htm"@;
    if t == "verb"@ {
        assert(german_fetch_url(base_url, word) =~= base_url + "/conjugation/"@ + word + ".htm"@);
    } else if t == "adjective"@ {
        assert(german_fetch_url(base_url, word) =~= base_url + "/declension/adjectives/"@ + word
            + ".htm"@);
    } else {
        assert(german_fetch_url(base_url, word) =~= base_url + "/declension/nouns/"@ + word
            + ".htm"@);
    }
}

} // verus!

verus! {

/// Whether a meaning block holds any text: a part of speech or a
/// definitions text.
pub open spec fn block_has_text(b: MeaningBlockModel) -> bool {
    b.part_of_speech is Some || b.definitions is Some
}

/// How many of the blocks hold text.
pub open spec fn blocks_with_text(bs: Seq<MeaningBlockModel>) -> nat
    decreases bs.len(),
{
    if bs.len() == 0 {
        0
    } else {
        blocks_with_text(bs.drop_last()) + if block_has_text(bs.last()) { 1nat } else { 0nat }
    }
}

/// A meaning read from a block keeps the block's part of speech (trimmed),
/// and has at least one definition exactly when the block has a
/// definitions text.
pub proof fn meaning_keeps_the_block(b: MeaningBlockModel)
    ensures
        b.part_of_speech matches Some(p) ==> meaning_of_block(b).part_of_speech == Some(trim(p)),
        b.part_of_speech is None ==> meaning_of_block(b).part_of_speech is None,
        b.definitions is Some ==> meaning_of_block(b).definitions.len() >= 1,
        b.definitions is None ==> meaning_of_block(b).definitions.len() == 0,
{
    if let Some(t) = b.definitions {
        let s = trim(t);
        crate::text::lemma_find_char(s, '；');
    }
}

/// Every meaning block that holds text — a part of speech, a definitions
/// text, or both — gives a meaning, in page order; blocks without text give
/// none. So the entry has as many meanings as the page has blocks with
/// text, and when every block holds text, the meanings are the blocks' own.
pub proof fn every_block_with_text_is_a_meaning(bs: Seq<MeaningBlockModel>)
    ensures
        meanings_of_blocks(bs).len() == blocks_with_text(bs),
        (forall|i: int| 0 <= i < bs.len() ==> block_has_text(#[trigger] bs[i])) ==> meanings_of_blocks(
            bs,
        ) == bs.map_values(|b: MeaningBlockModel| meaning_of_block(b)),
    decreases bs.len(),
{
    if bs.len() > 0 {
        every_block_with_text_is_a_meaning(bs.drop_last());
        meaning_keeps_the_block(bs.last());
        if forall|i: int| 0 <= i < bs.len() ==> block_has_text(#[trigger] bs[i]) {
            assert(block_has_text(bs[bs.len() - 1]));
            assert forall|i: int| 0 <= i < bs.drop_last().len() implies block_has_text(
                #[trigger] bs.drop_last()[i],
            ) by {
                assert(bs.drop_last()[i] == bs[i]);
            }
            assert(meanings_of_blocks(bs) =~= bs.map_values(
                |b: MeaningBlockModel| meaning_of_block(b),
            ));
        }
    }
}

/// An English→Chinese page whose result body has a meaning block with a
/// definitions text is never an error: its entry is built.
pub proof fn a_definition_makes_an_entry(input: Seq<char>, p: crate::parse::ChinesePageModel, k: int)
    requires
        0 <= k < p.meanings.len(),
        p.meanings[k].definitions is Some,
    ensures
        crate::parse::chinese_entry(input, Some(p)) is Ok,
{
    lemma_blocks_with_text_positive(p.meanings, k);
    every_block_with_text_is_a_meaning(p.meanings);
}

proof fn lemma_blocks_with_text_positive(bs: Seq<MeaningBlockModel>, k: int)
    requires
        0 <= k < bs.len(),
        block_has_text(bs[k]),
    ensures
        blocks_with_text(bs) > 0,
    decreases bs.len(),
{
    if k < bs.len() - 1 {
        assert(bs.drop_last()[k] == bs[k]);
        lemma_blocks_with_text_positive(bs.drop_last(), k);
    }
}

/// The pronunciation line of a transcription `t`: `<label>：[t]`, `t` green
/// when `colored`.
pub open spec fn transcription_shown(label: Seq<char>, t: Seq<char>, colored: bool) -> Seq<char> {
    label + "："@ + "["@ + paint(colored, Color::Green, t) + "]"@
}

/// The Markdown of an English→Chinese entry with a transcription opens with
/// the pronunciation section, which shows every transcription: the British
/// one on the 英 line, then the American one on the 美 line.
pub proof fn chinese_markdown_shows_every_transcription(
    r: crate::parse::ToChineseModel,
    colored: bool,
)
    ensures
        ({
            let md = crate::rdict::chinese_markdown(r, colored);
            let head = "# Pronunciation\n"@;
            match (r.pronunciation.uk, r.pronunciation.us) {
                (Some(u), None) => starts_with(md, head + transcription_shown("英"@, u, colored)),
                (None, Some(v)) => starts_with(md, head + transcription_shown("美"@, v, colored)),
                (Some(u), Some(v)) => starts_with(
                    md,
                    head + transcription_shown("英"@, u, colored) + "\n"@ + transcription_shown(
                        "美"@,
                        v,
                        colored,
                    ),
                ),
                (None, None) => true,
            }
        }),
{
    let head = "# Pronunciation\n"@;
    let x = crate::rdict::pronunciation_section(r.pronunciation, colored)
        + crate::rdict::meanings_section(r.meanings, colored)
        + crate::rdict::examples_section(r.examples, colored);
    reveal_strlit("]");
    reveal_strlit("]\n");
    reveal_strlit("："); 
    reveal_strlit("：[");
    reveal_strlit("[");
    reveal_strlit("\n");
    assert("：["@ =~= "："@ + "["@);
    assert("]\n"@ =~= "]"@ + "\n"@);
    match (r.pronunciation.uk, r.pronunciation.us) {
        (Some(u), None) => {
            let p = head + transcription_shown("英"@, u, colored);
            assert(x.subrange(0, p.len() as int) =~= p);
            crate::text::lemma_trim_end_keeps_prefix(x, p);
        },
        (None, Some(v)) => {
            let p = head + transcription_shown("美"@, v, colored);
            assert(x.subrange(0, p.len() as int) =~= p);
            crate::text::lemma_trim_end_keeps_prefix(x, p);
        },
        (Some(u), Some(v)) => {
            let p = head + transcription_shown("英"@, u, colored) + "\n"@ + transcription_shown(
                "美"@,
                v,
                colored,
            );
            assert(x.subrange(0, p.len() as int) =~= p);
            crate::text::lemma_trim_end_keeps_prefix(x, p);
        },
        (None, None) => {},
    }
}

/// The article read from a lowercased FAQ answer about `word` is the one
/// the answer names, with its own gender: das/neuter when it says
/// `article is "das"` or `"<word>" is neuter`, otherwise der/masculine for
/// "der" or masculine, otherwise die/feminine for "die" or feminine, and
/// none when it names none.
pub proof fn article_is_the_article_named(word: Seq<char>, a: Seq<char>)
    ensures
        ({
            let das = contains(a, "article is \"das\""@) || contains(a, "\""@ + word + "\" is neuter"@);
            let der = contains(a, "article is \"der\""@) || contains(
                a,
                "\""@ + word + "\" is masculine"@,
            );
            let die = contains(a, "article is \"die\""@) || contains(
                a,
                "\""@ + word + "\" is feminine"@,
            );
            &&& das ==> first_article_in(word, a, articles()) == Some(("das"@, "neuter"@))
            &&& !das && der ==> first_article_in(word, a, articles()) == Some(
                ("der"@, "masculine"@),
            )
            &&& !das && !der && die ==> first_article_in(word, a, articles()) == Some(
                ("die"@, "feminine"@),
            )
            &&& !das && !der && !die ==> first_article_in(word, a, articles()) is None
        }),
{
    reveal_strlit("article is \"");
    reveal_strlit("\"");
    reveal_strlit("\" is ");
    reveal_strlit("das");
    reveal_strlit("der");
    reveal_strlit("die");
    reveal_strlit("neuter");
    reveal_strlit("masculine");
    reveal_strlit("feminine");
    reveal_strlit("article is \"das\"");
    reveal_strlit("article is \"der\"");
    reveal_strlit("article is \"die\"");
    reveal_strlit("\" is neuter");
    reveal_strlit("\" is masculine");
    reveal_strlit("\" is feminine");
    assert(article_phrase("das"@) =~= "article is \"das\""@);
    assert(article_phrase("der"@) =~= "article is \"der\""@);
    assert(article_phrase("die"@) =~= "article is \"die\""@);
    assert(gender_phrase(word, "neuter"@) =~= "\""@ + word + "\" is neuter"@);
    assert(gender_phrase(word, "masculine"@) =~= "\""@ + word + "\" is masculine"@);
    assert(gender_phrase(word, "feminine"@) =~= "\""@ + word + "\" is feminine"@);
    let p = articles();
    let p1 = p.drop_first();
    let p2 = p1.drop_first();
    assert(p1 =~= seq![("der"@, "masculine"@), ("die"@, "feminine"@)]);
    assert(p2 =~= seq![("die"@, "feminine"@)]);
    assert(p2.drop_first() =~= Seq::<(Seq<char>, Seq<char>)>::empty());
    assert(first_article_in(word, a, p2.drop_first()) is None);
    assert(p[0] == ("das"@, "neuter"@));
    assert(p1[0] == ("der"@, "masculine"@));
    assert(p2[0] == ("die"@, "feminine"@));
    assert(first_article_in(word, a, p2) == if contains(a, article_phrase("die"@)) || contains(
        a,
        gender_phrase(word, "feminine"@),
    ) {
        Some(("die"@, "feminine"@))
    } else {
        None::<(Seq<char>, Seq<char>)>
    });
    assert(first_article_in(word, a, p1) == if contains(a, article_phrase("der"@)) || contains(
        a,
        gender_phrase(word, "masculine"@),
    ) {
        Some(("der"@, "masculine"@))
    } else {
        first_article_in(word, a, p2)
    });
    assert(first_article_in(word, a, p) == if contains(a, article_phrase("das"@)) || contains(
        a,
        gender_phrase(word, "neuter"@),
    ) {
        Some(("das"@, "neuter"@))
    } else {
        first_article_in(word, a, p1)
    });
}

} // verus!

verus! {

/// A text that the rendering leaves visible at the very end of a document:
/// painted, or ending in a character other than whitespace.
pub open spec fn ends_visibly(colored: bool, t: Seq<char>) -> bool {
    colored || (t.len() > 0 && !is_ws(t.last()))
}

/// The bullet line of a definition or a meaning: `* <text>`, green when
/// `colored`.
pub open spec fn bullet_shown(t: Seq<char>, colored: bool) -> Seq<char> {
    "* "@ + paint(colored, Color::Green, t)
}

/// The two lines of an example: `* <sentence>` (green when `colored`) and
/// `  <translation>` (magenta when `colored`).
pub open spec fn example_shown(sentence: Seq<char>, translation: Seq<char>, colored: bool) -> Seq<
    char,
> {
    "* "@ + paint(colored, Color::Green, sentence) + "\n  "@ + paint(
        colored,
        Color::Magenta,
        translation,
    )
}

proof fn lemma_occurs_within(a: Seq<char>, s: Seq<char>, b: Seq<char>, w: Seq<char>, i: int)
    requires
        occurs_at(s, w, i),
    ensures
        occurs_at(a + s + b, w, a.len() + i),
{
    assert((a + s + b).subrange(a.len() + i, a.len() + i + w.len()) =~= s.subrange(i, i + w.len()));
}

proof fn lemma_occurs_in_trim_end(x: Seq<char>, w: Seq<char>, i: int)
    requires
        occurs_at(x, w, i),
        w.len() > 0,
        !is_ws(w.last()),
    ensures
        contains(trim_end(x), w),
{
    let p = x.subrange(0, i + w.len());
    assert(p.last() == w.last());
    crate::text::lemma_trim_end_keeps_prefix(x, p);
    let r = trim_end(x);
    assert(p.subrange(i, i + w.len()) =~= w);
    assert(r.subrange(0, p.len() as int) == p);
    assert(r.subrange(i, i + w.len()) =~= p.subrange(i, i + w.len()));
    assert(occurs_at(r, w, i));
}

proof fn lemma_visible_end(t: Seq<char>, colored: bool, c: Color)
    requires
        ends_visibly(colored, t),
    ensures
        paint(colored, c, t).len() > 0,
        !is_ws(paint(colored, c, t).last()),
{
    reveal_strlit("\x1b[39m");
    if colored {
        let q = paint(colored, c, t);
        assert(q.last() == 'm');
    }
}

proof fn lemma_bullet_at(items: Seq<Seq<char>>, colored: bool, j: int) -> (i: int)
    requires
        0 <= j < items.len(),
    ensures
        occurs_at(bullet_lines(items, colored), bullet_shown(items[j], colored), i),
    decreases items.len(),
{
    let rest = bullet_lines(items.drop_last(), colored);
    let w = bullet_shown(items[j], colored);
    if j == items.len() - 1 {
        assert(bullet_lines(items, colored) =~= rest + w + "\n"@);
        assert(w.subrange(0, w.len() as int) =~= w);
        lemma_occurs_within(rest, w, "\n"@, w, 0);
        rest.len() as int
    } else {
        assert(items.drop_last()[j] == items[j]);
        let k = lemma_bullet_at(items.drop_last(), colored, j);
        assert(bullet_lines(items, colored) =~= rest + (bullet_shown(items.last(), colored) + "\n"@));
        lemma_occurs_within(seq![], rest, bullet_shown(items.last(), colored) + "\n"@, w, k);
        assert(seq![] + rest + (bullet_shown(items.last(), colored) + "\n"@) =~= bullet_lines(items, colored));
        k
    }
}

proof fn lemma_pair_at(ps: Seq<(Seq<char>, Seq<char>)>, colored: bool, k: int) -> (i: int)
    requires
        0 <= k < ps.len(),
    ensures
        occurs_at(pair_lines(ps, colored), example_shown(ps[k].0, ps[k].1, colored), i),
    decreases ps.len(),
{
    let w = example_shown(ps[k].0, ps[k].1, colored);
    let rest = pair_lines(ps.drop_last(), colored);
    let last = "* "@ + paint(colored, Color::Green, ps.last().0) + "\n"@ + "  "@ + paint(
        colored,
        Color::Magenta,
        ps.last().1,
    ) + "\n"@;
    assert(pair_lines(ps, colored) =~= rest + last);
    if k == ps.len() - 1 {
        reveal_strlit("\n  ");
        reveal_strlit("\n");
        reveal_strlit("  ");
        assert(last =~= w + "\n"@);
        assert(w.subrange(0, w.len() as int) =~= w);
        lemma_occurs_within(rest, w, "\n"@, w, 0);
        assert(rest + w + "\n"@ =~= pair_lines(ps, colored));
        rest.len() as int
    } else {
        assert(ps.drop_last()[k] == ps[k]);
        let i = lemma_pair_at(ps.drop_last(), colored, k);
        lemma_occurs_within(seq![], rest, last, w, i);
        assert(seq![] + rest + last =~= pair_lines(ps, colored));
        i
    }
}

proof fn lemma_definition_at(ms: Seq<MeaningModel>, colored: bool, m: int, j: int) -> (i: int)
    requires
        0 <= m < ms.len(),
        0 <= j < ms[m].definitions.len(),
    ensures
        occurs_at(meaning_lines(ms, colored), bullet_shown(ms[m].definitions[j], colored), i),
    decreases ms.len(),
{
    let rest = meaning_lines(ms.drop_last(), colored);
    let w = bullet_shown(ms[m].definitions[j], colored);
    let pl = part_of_speech_line(ms.last().part_of_speech);
    let bl = bullet_lines(ms.last().definitions, colored);
    assert(meaning_lines(ms, colored) =~= (rest + pl) + bl + "\n"@);
    if m == ms.len() - 1 {
        let k = lemma_bullet_at(ms.last().definitions, colored, j);
        lemma_occurs_within(rest + pl, bl, "\n"@, w, k);
        (rest + pl).len() + k
    } else {
        assert(ms.drop_last()[m] == ms[m]);
        let k = lemma_definition_at(ms.drop_last(), colored, m, j);
        lemma_occurs_within(seq![], rest, pl + bl + "\n"@, w, k);
        assert(seq![] + rest + (pl + bl + "\n"@) =~= meaning_lines(ms, colored));
        k
    }
}

proof fn lemma_part_of_speech_at(ms: Seq<MeaningModel>, colored: bool, m: int, pa: Seq<char>) -> (i: int)
    requires
        0 <= m < ms.len(),
        ms[m].part_of_speech == Some(pa),
    ensures
        occurs_at(meaning_lines(ms, colored), "["@ + pa + "]"@, i),
    decreases ms.len(),
{
    let rest = meaning_lines(ms.drop_last(), colored);
    let w = "["@ + pa + "]"@;
    let pl = part_of_speech_line(ms.last().part_of_speech);
    let bl = bullet_lines(ms.last().definitions, colored);
    if m == ms.len() - 1 {
        reveal_strlit("]\n");
        reveal_strlit("]");
        reveal_strlit("\n");
        assert(pl =~= w + "\n"@);
        assert(meaning_lines(ms, colored) =~= rest + w + ("\n"@ + bl + "\n"@));
        assert(w.subrange(0, w.len() as int) =~= w);
        lemma_occurs_within(rest, w, "\n"@ + bl + "\n"@, w, 0);
        rest.len() as int
    } else {
        assert(ms.drop_last()[m] == ms[m]);
        let k = lemma_part_of_speech_at(ms.drop_last(), colored, m, pa);
        lemma_occurs_within(seq![], rest, pl + bl + "\n"@, w, k);
        assert(seq![] + rest + (pl + bl + "\n"@) =~= meaning_lines(ms, colored));
        k
    }
}

/// Every definition of an English→Chinese entry stands in its Markdown as
/// a bullet line `* <definition>` (green when `colored`); one that the
/// document ends on is shown as long as it ends visibly.
pub proof fn chinese_markdown_shows_each_definition(
    r: crate::parse::ToChineseModel,
    colored: bool,
    m: int,
    j: int,
)
    requires
        0 <= m < r.meanings.len(),
        0 <= j < r.meanings[m].definitions.len(),
        ends_visibly(colored, r.meanings[m].definitions[j]),
    ensures
        contains(chinese_markdown(r, colored), bullet_shown(r.meanings[m].definitions[j], colored)),
{
    let d = r.meanings[m].definitions[j];
    let w = bullet_shown(d, colored);
    let ps = pronunciation_section(r.pronunciation, colored);
    let es = examples_section(r.examples, colored);
    let k = lemma_definition_at(r.meanings, colored, m, j);
    reveal_strlit("# Meanings\n");
    assert(meanings_section(r.meanings, colored) =~= "# Meanings\n"@ + meaning_lines(r.meanings, colored));
    lemma_occurs_within("# Meanings\n"@, meaning_lines(r.meanings, colored), seq![], w, k);
    assert("# Meanings\n"@ + meaning_lines(r.meanings, colored) + seq![] =~= meanings_section(r.meanings, colored));
    let k2 = "# Meanings\n"@.len() + k;
    lemma_occurs_within(ps, meanings_section(r.meanings, colored), es, w, k2);
    lemma_visible_end(d, colored, Color::Green);
    assert(w.last() == paint(colored, Color::Green, d).last());
    lemma_occurs_in_trim_end(ps + meanings_section(r.meanings, colored) + es, w, ps.len() + k2);
}

/// Every part of speech of an English→Chinese entry stands in its Markdown
/// as `[<part of speech>]`.
pub proof fn chinese_markdown_shows_each_part_of_speech(
    r: crate::parse::ToChineseModel,
    colored: bool,
    m: int,
    pa: Seq<char>,
)
    requires
        0 <= m < r.meanings.len(),
        r.meanings[m].part_of_speech == Some(pa),
    ensures
        contains(chinese_markdown(r, colored), "["@ + pa + "]"@),
{
    let w = "["@ + pa + "]"@;
    let ps = pronunciation_section(r.pronunciation, colored);
    let es = examples_section(r.examples, colored);
    let k = lemma_part_of_speech_at(r.meanings, colored, m, pa);
    reveal_strlit("# Meanings\n");
    reveal_strlit("]");
    assert("# Meanings\n"@ + meaning_lines(r.meanings, colored) + seq![] =~= meanings_section(r.meanings, colored));
    lemma_occurs_within("# Meanings\n"@, meaning_lines(r.meanings, colored), seq![], w, k);
    let k2 = "# Meanings\n"@.len() + k;
    lemma_occurs_within(ps, meanings_section(r.meanings, colored), es, w, k2);
    lemma_occurs_in_trim_end(ps + meanings_section(r.meanings, colored) + es, w, ps.len() + k2);
}

proof fn lemma_example_in_section(exs: Seq<ExampleModel>, colored: bool, k: int) -> (i: int)
    requires
        0 <= k < exs.len(),
    ensures
        occurs_at(examples_section(exs, colored), example_shown(exs[k].en, exs[k].zh, colored), i),
{
    let w = example_shown(exs[k].en, exs[k].zh, colored);
    assert(example_pairs(exs)[k] == (exs[k].en, exs[k].zh));
    let i = lemma_pair_at(example_pairs(exs), colored, k);
    reveal_strlit("# Examples\n");
    reveal_strlit("\n");
    let pl = pair_lines(example_pairs(exs), colored);
    assert("# Examples\n"@ + pl + "\n"@ =~= examples_section(exs, colored));
    lemma_occurs_within("# Examples\n"@, pl, "\n"@, w, i);
    "# Examples\n"@.len() + i
}

/// Every example of an English→Chinese entry stands in its Markdown as the
/// line `* <sentence>` followed by the line `  <translation>`; one that the
/// document ends on is shown as long as its translation ends visibly.
pub proof fn chinese_markdown_shows_each_example(r: crate::parse::ToChineseModel, colored: bool, k: int)
    requires
        0 <= k < r.examples.len(),
        ends_visibly(colored, r.examples[k].zh),
    ensures
        contains(chinese_markdown(r, colored), example_shown(r.examples[k].en, r.examples[k].zh, colored)),
{
    let w = example_shown(r.examples[k].en, r.examples[k].zh, colored);
    let ps = pronunciation_section(r.pronunciation, colored);
    let ms = meanings_section(r.meanings, colored);
    let i = lemma_example_in_section(r.examples, colored, k);
    lemma_occurs_within(ps + ms, examples_section(r.examples, colored), seq![], w, i);
    assert(ps + ms + examples_section(r.examples, colored) + seq![] =~= ps + ms + examples_section(r.examples, colored));
    lemma_visible_end(r.examples[k].zh, colored, Color::Magenta);
    assert(w.last() == paint(colored, Color::Magenta, r.examples[k].zh).last());
    lemma_occurs_in_trim_end(ps + ms + examples_section(r.examples, colored), w, (ps + ms).len() + i);
}

/// Every meaning of a Chinese→English entry stands in its Markdown as a
/// bullet line `* <meaning>` (green when `colored`); one that the document
/// ends on is shown as long as it ends visibly.
pub proof fn english_markdown_shows_each_meaning(r: crate::parse::ToEnglishModel, colored: bool, j: int)
    requires
        0 <= j < r.meanings.len(),
        ends_visibly(colored, r.meanings[j]),
    ensures
        contains(english_markdown(r, colored), bullet_shown(r.meanings[j], colored)),
{
    let w = bullet_shown(r.meanings[j], colored);
    let es = examples_section(r.examples, colored);
    let k = lemma_bullet_at(r.meanings, colored, j);
    reveal_strlit("# Meanings\n");
    reveal_strlit("\n");
    let bl = bullet_lines(r.meanings, colored);
    assert("# Meanings\n"@ + bl + "\n"@ =~= bullet_section(r.meanings, colored));
    lemma_occurs_within("# Meanings\n"@, bl, "\n"@, w, k);
    let k2 = "# Meanings\n"@.len() + k;
    lemma_occurs_within(seq![], bullet_section(r.meanings, colored), es, w, k2);
    assert(seq![] + bullet_section(r.meanings, colored) + es =~= bullet_section(r.meanings, colored) + es);
    lemma_visible_end(r.meanings[j], colored, Color::Green);
    assert(w.last() == paint(colored, Color::Green, r.meanings[j]).last());
    lemma_occurs_in_trim_end(bullet_section(r.meanings, colored) + es, w, k2);
}

/// Every example of a Chinese→English entry stands in its Markdown as the
/// line `* <sentence>` followed by the line `  <translation>`; one that the
/// document ends on is shown as long as its translation ends visibly.
pub proof fn english_markdown_shows_each_example(r: crate::parse::ToEnglishModel, colored: bool, k: int)
    requires
        0 <= k < r.examples.len(),
        ends_visibly(colored, r.examples[k].zh),
    ensures
        contains(english_markdown(r, colored), example_shown(r.examples[k].en, r.examples[k].zh, colored)),
{
    let w = example_shown(r.examples[k].en, r.examples[k].zh, colored);
    let bs = bullet_section(r.meanings, colored);
    let i = lemma_example_in_section(r.examples, colored, k);
    lemma_occurs_within(bs, examples_section(r.examples, colored), seq![], w, i);
    assert(bs + examples_section(r.examples, colored) + seq![] =~= bs + examples_section(r.examples, colored));
    lemma_visible_end(r.examples[k].zh, colored, Color::Magenta);
    assert(w.last() == paint(colored, Color::Magenta, r.examples[k].zh).last());
    lemma_occurs_in_trim_end(bs + examples_section(r.examples, colored), w, bs.len() + i);
}

/// Every definition of a German entry stands in its Markdown as a bullet
/// line `* <definition>` (green when `colored`); one that the document ends
/// on is shown as long as it ends visibly.
pub proof fn german_markdown_shows_each_definition(
    e: crate::german::GermanEntryModel,
    colored: bool,
    j: int,
)
    requires
        0 <= j < e.definitions.len(),
        ends_visibly(colored, e.definitions[j]),
    ensures
        contains(crate::rdict::german_markdown(e, colored), bullet_shown(e.definitions[j], colored)),
{
    let w = bullet_shown(e.definitions[j], colored);
    let front = crate::rdict::german_title(colored) + crate::rdict::german_head(e, colored)
        + crate::rdict::german_type_line(e, colored) + crate::rdict::german_ipa_line(e, colored);
    let ds = crate::rdict::german_definitions(e.definitions, colored);
    let xs = crate::rdict::german_examples(e.examples, colored);
    let k = lemma_bullet_at(e.definitions, colored, j);
    reveal_strlit("# Definitions\n");
    let bl = bullet_lines(e.definitions, colored);
    assert("# Definitions\n"@ + bl + seq![] =~= ds);
    lemma_occurs_within("# Definitions\n"@, bl, seq![], w, k);
    let k2 = "# Definitions\n"@.len() + k;
    lemma_occurs_within(front, ds, xs, w, k2);
    lemma_visible_end(e.definitions[j], colored, Color::Green);
    assert(w.last() == paint(colored, Color::Green, e.definitions[j]).last());
    assert(front + ds + xs =~= crate::rdict::german_title(colored) + crate::rdict::german_head(e, colored)
        + crate::rdict::german_type_line(e, colored) + crate::rdict::german_ipa_line(e, colored)
        + ds + xs);
    lemma_occurs_in_trim_end(front + ds + xs, w, front.len() + k2);
}

/// Every example of a German entry stands in its Markdown as the line
/// `* <German sentence>` followed by the line `  <English sentence>`; one
/// that the document ends on is shown as long as its English sentence ends
/// visibly.
pub proof fn german_markdown_shows_each_example(
    e: crate::german::GermanEntryModel,
    colored: bool,
    k: int,
)
    requires
        0 <= k < e.examples.len(),
        ends_visibly(colored, e.examples[k].1),
    ensures
        contains(
            crate::rdict::german_markdown(e, colored),
            example_shown(e.examples[k].0, e.examples[k].1, colored),
        ),
{
    let w = example_shown(e.examples[k].0, e.examples[k].1, colored);
    let front = crate::rdict::german_title(colored) + crate::rdict::german_head(e, colored)
        + crate::rdict::german_type_line(e, colored) + crate::rdict::german_ipa_line(e, colored)
        + crate::rdict::german_definitions(e.definitions, colored);
    let xs = crate::rdict::german_examples(e.examples, colored);
    let i = lemma_pair_at(e.examples, colored, k);
    reveal_strlit("# Examples\n");
    let pl = pair_lines(e.examples, colored);
    assert("# Examples\n"@ + pl + seq![] =~= xs);
    lemma_occurs_within("# Examples\n"@, pl, seq![], w, i);
    let i2 = "# Examples\n"@.len() + i;
    lemma_occurs_within(front, xs, seq![], w, i2);
    assert(front + xs + seq![] =~= front + xs);
    lemma_visible_end(e.examples[k].1, colored, Color::Magenta);
    assert(w.last() == paint(colored, Color::Magenta, e.examples[k].1).last());
    lemma_occurs_in_trim_end(front + xs, w, front.len() + i2);
}

/// The head line of a German entry shows its CEFR level as `  [<level>]`
/// (yellow when `colored`), right after the word.
pub proof fn german_markdown_shows_the_level(
    e: crate::german::GermanEntryModel,
    colored: bool,
    l: Seq<char>,
)
    requires
        e.cefr_level == Some(l),
    ensures
        contains(
            crate::rdict::german_markdown(e, colored),
            paint(colored, Color::Green, e.word) + "  ["@ + paint(colored, Color::Yellow, l) + "]"@,
        ),
{
    reveal_strlit("  [");
    reveal_strlit("]");
    reveal_strlit(" ");
    reveal_strlit("\n");
    let w = paint(colored, Color::Green, e.word) + "  ["@ + paint(colored, Color::Yellow, l) + "]"@;
    let article = match e.article {
        Some(a) => a,
        None => seq![],
    };
    let pre = if article.len() > 0 {
        paint(colored, Color::Cyan, article) + " "@
    } else {
        seq![]
    };
    let h = crate::rdict::german_head(e, colored);
    assert(h =~= pre + w + "\n"@);
    assert(w.subrange(0, w.len() as int) =~= w);
    lemma_occurs_within(pre, w, "\n"@, w, 0);
    let t = crate::rdict::german_title(colored);
    let rest = crate::rdict::german_type_line(e, colored) + crate::rdict::german_ipa_line(e, colored)
        + crate::rdict::german_definitions(e.definitions, colored)
        + crate::rdict::german_examples(e.examples, colored);
    lemma_occurs_within(t, h, rest, w, pre.len() as int);
    assert(t + h + rest =~= crate::rdict::german_title(colored) + crate::rdict::german_head(e, colored)
        + crate::rdict::german_type_line(e, colored) + crate::rdict::german_ipa_line(e, colored)
        + crate::rdict::german_definitions(e.definitions, colored)
        + crate::rdict::german_examples(e.examples, colored));
    lemma_occurs_in_trim_end(t + h + rest, w, t.len() + pre.len() as int);
}

} // verus!
