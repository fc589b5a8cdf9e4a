//! What every prompt holds, whatever the transcript, the dictionary and the settings.

use vstd::prelude::*;
use crate::prompt::{
    app_context_addon, dictionary_entries, dictionary_section, section,
    selected_text_instructions, selected_text_mode_prompt, selected_text_prompt,
    transcribe_instructions, SELECTED_TEXT_MODE_HEADING, SELECTED_TEXT_MODE_RULE,
    transcribe_prompt, translation_clause, language_name_of, AppType, BASE_SELECTED_TEXT_PROMPT,
    BASE_TRANSCRIBE_PROMPT, BLANK_LINE, DICTIONARY_HEADER, DICTIONARY_ITEM_CLOSE,
    DICTIONARY_ITEM_OPEN, EDITED_ONLY, INSTRUCTIONS_CLOSE, INSTRUCTIONS_OPEN, INSTRUCTION_CLOSE,
    INSTRUCTION_OPEN, NEWLINE, OUTPUT_CLOSE, OUTPUT_OPEN, POLISHED_ONLY, SELECTED_TEXT_CLOSE,
    SELECTED_TEXT_OPEN, SELECTED_TRANSLATE_LEAD, TRANSCRIBE_TRANSLATE_LEAD, TRANSCRIPT_CLOSE,
    TRANSCRIPT_OPEN, TRANSCRIPT_RULE, TRANSLATE_TAIL,
};
use crate::text::{
    contains, lemma_contains_parts3, lemma_contains_parts4, lemma_contains_parts5, lemma_contains_prefix, lemma_contains_suffix,
    lemma_contains_trans, lemma_trim_idempotent, trim,
};

verus! {

/// Everything of the transcription prompt before the transcript.
pub open spec fn transcript_head(
    app_type: AppType,
    words: Seq<Seq<char>>,
    translate_enabled: bool,
    target_lang: Seq<char>,
) -> Seq<char> {
    section(
        INSTRUCTIONS_OPEN@,
        transcribe_instructions(app_type, words, translate_enabled, target_lang) + BLANK_LINE@
            + TRANSCRIPT_RULE@,
        INSTRUCTIONS_CLOSE@,
    ) + BLANK_LINE@ + TRANSCRIPT_OPEN@ + NEWLINE@
}

/// Everything of the transcription prompt after the transcript.
pub open spec fn transcript_tail() -> Seq<char> {
    NEWLINE@ + TRANSCRIPT_CLOSE@ + BLANK_LINE@ + section(OUTPUT_OPEN@, POLISHED_ONLY@, OUTPUT_CLOSE@)
}

/// A section holds its tags and its body.
proof fn lemma_section_parts(open: Seq<char>, body: Seq<char>, close: Seq<char>)
    ensures
        contains(section(open, body, close), open),
        contains(section(open, body, close), body),
        contains(section(open, body, close), close),
{
    lemma_contains_parts5(open, NEWLINE@, body, NEWLINE@, close);
}

/// The instructions hold each of their parts.
proof fn lemma_instruction_parts(
    base: Seq<char>,
    app_type: AppType,
    words: Seq<Seq<char>>,
    translation: Seq<char>,
)
    ensures
        contains(base + app_context_addon(app_type) + dictionary_section(words) + translation, base),
        contains(
            base + app_context_addon(app_type) + dictionary_section(words) + translation,
            app_context_addon(app_type),
        ),
        contains(
            base + app_context_addon(app_type) + dictionary_section(words) + translation,
            dictionary_section(words),
        ),
        contains(
            base + app_context_addon(app_type) + dictionary_section(words) + translation,
            translation,
        ),
{
    lemma_contains_parts4(base, app_context_addon(app_type), dictionary_section(words), translation);
}

/// Each custom term stands, quoted, in the custom-terms section.
pub proof fn lemma_dictionary_item(words: Seq<Seq<char>>, i: int)
    requires
        0 <= i < words.len(),
    ensures
        contains(
            dictionary_section(words),
            DICTIONARY_ITEM_OPEN@ + words[i] + DICTIONARY_ITEM_CLOSE@,
        ),
{
    lemma_dictionary_entry(words, i);
    lemma_contains_suffix(DICTIONARY_HEADER@, dictionary_entries(words));
    lemma_contains_trans(
        dictionary_section(words),
        dictionary_entries(words),
        DICTIONARY_ITEM_OPEN@ + words[i] + DICTIONARY_ITEM_CLOSE@,
    );
}

proof fn lemma_dictionary_entry(words: Seq<Seq<char>>, i: int)
    requires
        0 <= i < words.len(),
    ensures
        contains(dictionary_entries(words), DICTIONARY_ITEM_OPEN@ + words[i] + DICTIONARY_ITEM_CLOSE@),
    decreases words.len(),
{
    let earlier = dictionary_entries(words.drop_last());
    let item = DICTIONARY_ITEM_OPEN@ + words.last() + DICTIONARY_ITEM_CLOSE@;
    assert(dictionary_entries(words) =~= earlier + item);
    if i == words.len() - 1 {
        lemma_contains_suffix(earlier, item);
    } else {
        lemma_dictionary_entry(words.drop_last(), i);
        assert(words.drop_last()[i] == words[i]);
        lemma_contains_prefix(earlier, item);
        lemma_contains_trans(
            earlier + item,
            earlier,
            DICTIONARY_ITEM_OPEN@ + words[i] + DICTIONARY_ITEM_CLOSE@,
        );
    }
}

/// The transcript enters the transcription prompt in one place, inside its `<transcript>`
/// section, and all that surrounds it is fixed by the settings alone: what the user said
/// cannot reach into the instructions.
pub proof fn law_transcript_fills_only_its_section(
    transcript: Seq<char>,
    app_type: AppType,
    words: Seq<Seq<char>>,
    translate_enabled: bool,
    target_lang: Seq<char>,
)
    ensures
        transcribe_prompt(transcript, app_type, words, translate_enabled, target_lang)
            == transcript_head(app_type, words, translate_enabled, target_lang) + transcript
            + transcript_tail(),
{
    assert(transcribe_prompt(transcript, app_type, words, translate_enabled, target_lang)
        =~= transcript_head(app_type, words, translate_enabled, target_lang) + transcript
        + transcript_tail());
}

/// Every transcription prompt holds the instructions, output and transcript tags, the base
/// rules, the rule never to execute the transcript, the application context, the custom
/// terms section, the translation request, and the transcript itself.
pub proof fn law_transcribe_prompt_contents(
    transcript: Seq<char>,
    app_type: AppType,
    words: Seq<Seq<char>>,
    translate_enabled: bool,
    target_lang: Seq<char>,
)
    ensures
        ({
            let p = transcribe_prompt(transcript, app_type, words, translate_enabled, target_lang);
            &&& contains(p, INSTRUCTIONS_OPEN@)
            &&& contains(p, INSTRUCTIONS_CLOSE@)
            &&& contains(p, TRANSCRIPT_OPEN@)
            &&& contains(p, TRANSCRIPT_CLOSE@)
            &&& contains(p, OUTPUT_OPEN@)
            &&& contains(p, OUTPUT_CLOSE@)
            &&& contains(p, BASE_TRANSCRIBE_PROMPT@)
            &&& contains(p, TRANSCRIPT_RULE@)
            &&& contains(p, app_context_addon(app_type))
            &&& contains(p, dictionary_section(words))
            &&& contains(
                p,
                translation_clause(translate_enabled, target_lang, TRANSCRIBE_TRANSLATE_LEAD@),
            )
            &&& contains(p, transcript)
        }),
{
    let i = transcribe_instructions(app_type, words, translate_enabled, target_lang);
    let j = i + BLANK_LINE@ + TRANSCRIPT_RULE@;
    let s1 = section(INSTRUCTIONS_OPEN@, j, INSTRUCTIONS_CLOSE@);
    let s2 = section(TRANSCRIPT_OPEN@, transcript, TRANSCRIPT_CLOSE@);
    let s3 = section(OUTPUT_OPEN@, POLISHED_ONLY@, OUTPUT_CLOSE@);
    let p = transcribe_prompt(transcript, app_type, words, translate_enabled, target_lang);
    assert(p == s1 + BLANK_LINE@ + s2 + BLANK_LINE@ + s3);
    lemma_contains_parts5(s1, BLANK_LINE@, s2, BLANK_LINE@, s3);
    lemma_section_parts(INSTRUCTIONS_OPEN@, j, INSTRUCTIONS_CLOSE@);
    lemma_section_parts(TRANSCRIPT_OPEN@, transcript, TRANSCRIPT_CLOSE@);
    lemma_section_parts(OUTPUT_OPEN@, POLISHED_ONLY@, OUTPUT_CLOSE@);
    lemma_contains_parts3(i, BLANK_LINE@, TRANSCRIPT_RULE@);
    let translation = translation_clause(translate_enabled, target_lang, TRANSCRIBE_TRANSLATE_LEAD@);
    lemma_instruction_parts(BASE_TRANSCRIBE_PROMPT@, app_type, words, translation);
    lemma_contains_trans(p, s1, INSTRUCTIONS_OPEN@);
    lemma_contains_trans(p, s1, INSTRUCTIONS_CLOSE@);
    lemma_contains_trans(p, s1, j);
    lemma_contains_trans(p, j, i);
    lemma_contains_trans(p, j, TRANSCRIPT_RULE@);
    lemma_contains_trans(p, i, BASE_TRANSCRIBE_PROMPT@);
    lemma_contains_trans(p, i, app_context_addon(app_type));
    lemma_contains_trans(p, i, dictionary_section(words));
    lemma_contains_trans(p, i, translation);
    lemma_contains_trans(p, s2, TRANSCRIPT_OPEN@);
    lemma_contains_trans(p, s2, TRANSCRIPT_CLOSE@);
    lemma_contains_trans(p, s2, transcript);
    lemma_contains_trans(p, s3, OUTPUT_OPEN@);
    lemma_contains_trans(p, s3, OUTPUT_CLOSE@);
}

/// Every custom term stands in the transcription prompt, in double quotes on a bullet line.
pub proof fn law_transcribe_prompt_quotes_each_term(
    transcript: Seq<char>,
    app_type: AppType,
    words: Seq<Seq<char>>,
    translate_enabled: bool,
    target_lang: Seq<char>,
    k: int,
)
    requires
        0 <= k < words.len(),
    ensures
        contains(
            transcribe_prompt(transcript, app_type, words, translate_enabled, target_lang),
            DICTIONARY_ITEM_OPEN@ + words[k] + DICTIONARY_ITEM_CLOSE@,
        ),
{
    law_transcribe_prompt_contents(transcript, app_type, words, translate_enabled, target_lang);
    lemma_dictionary_item(words, k);
    lemma_contains_trans(
        transcribe_prompt(transcript, app_type, words, translate_enabled, target_lang),
        dictionary_section(words),
        DICTIONARY_ITEM_OPEN@ + words[k] + DICTIONARY_ITEM_CLOSE@,
    );
}

/// With translation enabled and a target language that names `name`, the transcription
/// prompt asks for the result in `name`.
pub proof fn law_transcribe_prompt_requests_translation(
    transcript: Seq<char>,
    app_type: AppType,
    words: Seq<Seq<char>>,
    target_lang: Seq<char>,
    name: Seq<char>,
)
    requires
        language_name_of(target_lang) == Some(name),
    ensures
        contains(
            transcribe_prompt(transcript, app_type, words, true, target_lang),
            TRANSCRIBE_TRANSLATE_LEAD@ + name + TRANSLATE_TAIL@,
        ),
{
    law_transcribe_prompt_contents(transcript, app_type, words, true, target_lang);
}

/// Without translation the target language plays no part in the transcription prompt.
pub proof fn law_transcribe_prompt_ignores_language_without_translation(
    transcript: Seq<char>,
    app_type: AppType,
    words: Seq<Seq<char>>,
    lang_a: Seq<char>,
    lang_b: Seq<char>,
)
    ensures
        transcribe_prompt(transcript, app_type, words, false, lang_a) == transcribe_prompt(
            transcript,
            app_type,
            words,
            false,
            lang_b,
        ),
{
}

/// Every selected-text prompt holds the instructions, selected-text, instruction and output
/// tags, the base rules, the application context, the custom terms section, the
/// translation request, the selected text and the instruction.
pub proof fn law_selected_text_prompt_contents(
    selected_text: Seq<char>,
    instruction: Seq<char>,
    app_type: AppType,
    words: Seq<Seq<char>>,
    translate_enabled: bool,
    target_lang: Seq<char>,
)
    ensures
        ({
            let p = selected_text_prompt(
                selected_text,
                instruction,
                app_type,
                words,
                translate_enabled,
                target_lang,
            );
            &&& contains(p, INSTRUCTIONS_OPEN@)
            &&& contains(p, INSTRUCTIONS_CLOSE@)
            &&& contains(p, SELECTED_TEXT_OPEN@)
            &&& contains(p, SELECTED_TEXT_CLOSE@)
            &&& contains(p, INSTRUCTION_OPEN@)
            &&& contains(p, INSTRUCTION_CLOSE@)
            &&& contains(p, OUTPUT_OPEN@)
            &&& contains(p, OUTPUT_CLOSE@)
            &&& contains(p, BASE_SELECTED_TEXT_PROMPT@)
            &&& contains(p, app_context_addon(app_type))
            &&& contains(p, dictionary_section(words))
            &&& contains(
                p,
                translation_clause(translate_enabled, target_lang, SELECTED_TRANSLATE_LEAD@),
            )
            &&& contains(p, selected_text)
            &&& contains(p, instruction)
        }),
{
    let i = selected_text_instructions(app_type, words, translate_enabled, target_lang);
    let s1 = section(INSTRUCTIONS_OPEN@, i, INSTRUCTIONS_CLOSE@);
    let s2 = section(SELECTED_TEXT_OPEN@, selected_text, SELECTED_TEXT_CLOSE@);
    let s3 = section(INSTRUCTION_OPEN@, instruction, INSTRUCTION_CLOSE@);
    let s4 = section(OUTPUT_OPEN@, EDITED_ONLY@, OUTPUT_CLOSE@);
    let head = s1 + BLANK_LINE@ + s2 + BLANK_LINE@ + s3;
    let p = selected_text_prompt(
        selected_text,
        instruction,
        app_type,
        words,
        translate_enabled,
        target_lang,
    );
    assert(p == head + BLANK_LINE@ + s4);
    lemma_contains_parts3(head, BLANK_LINE@, s4);
    lemma_contains_parts5(s1, BLANK_LINE@, s2, BLANK_LINE@, s3);
    lemma_contains_trans(p, head, s1);
    lemma_contains_trans(p, head, s2);
    lemma_contains_trans(p, head, s3);
    lemma_section_parts(INSTRUCTIONS_OPEN@, i, INSTRUCTIONS_CLOSE@);
    lemma_section_parts(SELECTED_TEXT_OPEN@, selected_text, SELECTED_TEXT_CLOSE@);
    lemma_section_parts(INSTRUCTION_OPEN@, instruction, INSTRUCTION_CLOSE@);
    lemma_section_parts(OUTPUT_OPEN@, EDITED_ONLY@, OUTPUT_CLOSE@);
    let translation = translation_clause(translate_enabled, target_lang, SELECTED_TRANSLATE_LEAD@);
    lemma_instruction_parts(BASE_SELECTED_TEXT_PROMPT@, app_type, words, translation);
    lemma_contains_trans(p, s1, INSTRUCTIONS_OPEN@);
    lemma_contains_trans(p, s1, INSTRUCTIONS_CLOSE@);
    lemma_contains_trans(p, s1, i);
    lemma_contains_trans(p, i, BASE_SELECTED_TEXT_PROMPT@);
    lemma_contains_trans(p, i, app_context_addon(app_type));
    lemma_contains_trans(p, i, dictionary_section(words));
    lemma_contains_trans(p, i, translation);
    lemma_contains_trans(p, s2, SELECTED_TEXT_OPEN@);
    lemma_contains_trans(p, s2, SELECTED_TEXT_CLOSE@);
    lemma_contains_trans(p, s2, selected_text);
    lemma_contains_trans(p, s3, INSTRUCTION_OPEN@);
    lemma_contains_trans(p, s3, INSTRUCTION_CLOSE@);
    lemma_contains_trans(p, s3, instruction);
    lemma_contains_trans(p, s4, OUTPUT_OPEN@);
    lemma_contains_trans(p, s4, OUTPUT_CLOSE@);
}

/// Every selected-text mode prompt holds the instructions, instruction and output tags, the
/// base rules, the selected-text mode rule, the application context, the custom terms
/// section, the translation request, and the instruction.
pub proof fn law_selected_text_mode_prompt_contents(
    instruction: Seq<char>,
    app_type: AppType,
    words: Seq<Seq<char>>,
    translate_enabled: bool,
    target_lang: Seq<char>,
)
    ensures
        ({
            let p = selected_text_mode_prompt(
                instruction,
                app_type,
                words,
                translate_enabled,
                target_lang,
            );
            &&& contains(p, INSTRUCTIONS_OPEN@)
            &&& contains(p, INSTRUCTIONS_CLOSE@)
            &&& contains(p, INSTRUCTION_OPEN@)
            &&& contains(p, INSTRUCTION_CLOSE@)
            &&& contains(p, OUTPUT_OPEN@)
            &&& contains(p, OUTPUT_CLOSE@)
            &&& contains(p, BASE_SELECTED_TEXT_PROMPT@)
            &&& contains(p, SELECTED_TEXT_MODE_HEADING@)
            &&& contains(p, SELECTED_TEXT_MODE_RULE@)
            &&& contains(p, app_context_addon(app_type))
            &&& contains(p, dictionary_section(words))
            &&& contains(
                p,
                translation_clause(translate_enabled, target_lang, SELECTED_TRANSLATE_LEAD@),
            )
            &&& contains(p, instruction)
        }),
{
    let i = selected_text_instructions(app_type, words, translate_enabled, target_lang);
    let body = i + BLANK_LINE@ + SELECTED_TEXT_MODE_HEADING@ + SELECTED_TEXT_MODE_RULE@;
    let s1 = section(INSTRUCTIONS_OPEN@, body, INSTRUCTIONS_CLOSE@);
    let s3 = section(INSTRUCTION_OPEN@, instruction, INSTRUCTION_CLOSE@);
    let s4 = section(OUTPUT_OPEN@, EDITED_ONLY@, OUTPUT_CLOSE@);
    let p = selected_text_mode_prompt(instruction, app_type, words, translate_enabled, target_lang);
    assert(p == s1 + BLANK_LINE@ + s3 + BLANK_LINE@ + s4);
    lemma_contains_parts5(s1, BLANK_LINE@, s3, BLANK_LINE@, s4);
    lemma_section_parts(INSTRUCTIONS_OPEN@, body, INSTRUCTIONS_CLOSE@);
    lemma_section_parts(INSTRUCTION_OPEN@, instruction, INSTRUCTION_CLOSE@);
    lemma_section_parts(OUTPUT_OPEN@, EDITED_ONLY@, OUTPUT_CLOSE@);
    lemma_contains_parts4(i, BLANK_LINE@, SELECTED_TEXT_MODE_HEADING@, SELECTED_TEXT_MODE_RULE@);
    let translation = translation_clause(translate_enabled, target_lang, SELECTED_TRANSLATE_LEAD@);
    lemma_instruction_parts(BASE_SELECTED_TEXT_PROMPT@, app_type, words, translation);
    lemma_contains_trans(p, s1, INSTRUCTIONS_OPEN@);
    lemma_contains_trans(p, s1, INSTRUCTIONS_CLOSE@);
    lemma_contains_trans(p, s1, body);
    lemma_contains_trans(p, body, i);
    lemma_contains_trans(p, body, SELECTED_TEXT_MODE_HEADING@);
    lemma_contains_trans(p, body, SELECTED_TEXT_MODE_RULE@);
    lemma_contains_trans(p, i, BASE_SELECTED_TEXT_PROMPT@);
    lemma_contains_trans(p, i, app_context_addon(app_type));
    lemma_contains_trans(p, i, dictionary_section(words));
    lemma_contains_trans(p, i, translation);
    lemma_contains_trans(p, s3, INSTRUCTION_OPEN@);
    lemma_contains_trans(p, s3, INSTRUCTION_CLOSE@);
    lemma_contains_trans(p, s3, instruction);
    lemma_contains_trans(p, s4, OUTPUT_OPEN@);
    lemma_contains_trans(p, s4, OUTPUT_CLOSE@);
}

/// Every custom term stands in the selected-text prompt, in double quotes on a bullet line.
pub proof fn law_selected_text_prompt_quotes_each_term(
    selected_text: Seq<char>,
    instruction: Seq<char>,
    app_type: AppType,
    words: Seq<Seq<char>>,
    translate_enabled: bool,
    target_lang: Seq<char>,
    k: int,
)
    requires
        0 <= k < words.len(),
    ensures
        contains(
            selected_text_prompt(
                selected_text,
                instruction,
                app_type,
                words,
                translate_enabled,
                target_lang,
            ),
            DICTIONARY_ITEM_OPEN@ + words[k] + DICTIONARY_ITEM_CLOSE@,
        ),
{
    law_selected_text_prompt_contents(
        selected_text,
        instruction,
        app_type,
        words,
        translate_enabled,
        target_lang,
    );
    lemma_dictionary_item(words, k);
    lemma_contains_trans(
        selected_text_prompt(
            selected_text,
            instruction,
            app_type,
            words,
            translate_enabled,
            target_lang,
        ),
        dictionary_section(words),
        DICTIONARY_ITEM_OPEN@ + words[k] + DICTIONARY_ITEM_CLOSE@,
    );
}

/// With translation enabled and a target language that names `name`, the selected-text
/// prompt asks for the edited result in `name`.
pub proof fn law_selected_text_prompt_requests_translation(
    selected_text: Seq<char>,
    instruction: Seq<char>,
    app_type: AppType,
    words: Seq<Seq<char>>,
    target_lang: Seq<char>,
    name: Seq<char>,
)
    requires
        language_name_of(target_lang) == Some(name),
    ensures
        contains(
            selected_text_prompt(selected_text, instruction, app_type, words, true, target_lang),
            SELECTED_TRANSLATE_LEAD@ + name + TRANSLATE_TAIL@,
        ),
{
    law_selected_text_prompt_contents(selected_text, instruction, app_type, words, true, target_lang);
}

/// White space around a language code does not change the language it names.
pub proof fn law_language_code_is_trimmed(target_lang: Seq<char>)
    ensures
        language_name_of(target_lang) == language_name_of(trim(target_lang)),
{
    lemma_trim_idempotent(target_lang);
}

} // verus!
