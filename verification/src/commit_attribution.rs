//! Instructions that govern commit messages and other publication text:
//! the `Co-authored-by:` trailer, and the public contribution mode that
//! replaces it.
use vstd::prelude::*;

use crate::text::{trim_text, trimmed, is_unicode_whitespace};

verus! {

/// The attribution used when the configuration names none.
pub open spec fn default_attribution() -> Seq<char> {
    "Codex <noreply@openai.com>"@
}

/// The instruction given instead of any attribution in public contribution mode.
pub open spec fn public_contribution_instruction() -> Seq<char> {
    "## PUBLIC CONTRIBUTION MODE\n\nYou are preparing changes for a public or open-source repository.\n\nCommit messages, branch names, PR titles, and PR bodies must describe only the\ncode change. Do not include AI attribution, internal tool names, private project\nnames, model names, generated-by text, Co-authored-by trailers, or references to\nagentic workflows.\n\nWrite publication text as a human developer would. If this conflicts with\ngeneral attribution guidance, this public contribution mode controls publication\nsurfaces."@
}

/// The text of the trailer instruction before the trailer itself.
pub open spec fn trailer_instruction_head() -> Seq<char> {
    "When you write or edit a git commit message, ensure the message ends with this trailer exactly once:\n"@
}

/// The text of the trailer instruction after the trailer itself.
pub open spec fn trailer_instruction_rules() -> Seq<char> {
    "\n\nRules:\n- Keep existing trailers and append this trailer at the end if missing.\n- Do not duplicate this trailer if it already exists.\n- Keep one blank line between the commit body and trailer block."@
}

/// The prefix of the trailer line.
pub open spec fn trailer_prefix() -> Seq<char> {
    "Co-authored-by: "@
}

/// The attribution that a configured value resolves to: the default when none is
/// configured, nothing when the configured value is blank, else the trimmed value.
pub open spec fn resolved_attribution(config: Option<Seq<char>>) -> Option<Seq<char>> {
    match config {
        Some(value) => if trimmed(value).len() == 0 {
            None
        } else {
            Some(trimmed(value))
        },
        None => Some(default_attribution()),
    }
}

/// The trailer line for a configured attribution, when there is one.
pub open spec fn trailer_for(config: Option<Seq<char>>) -> Option<Seq<char>> {
    match resolved_attribution(config) {
        Some(value) => Some(trailer_prefix() + value),
        None => None,
    }
}

/// The trailer instruction for a configured attribution, when there is one.
pub open spec fn trailer_instruction_for(config: Option<Seq<char>>) -> Option<Seq<char>> {
    match trailer_for(config) {
        Some(trailer) => Some(trailer_instruction_head() + trailer + trailer_instruction_rules()),
        None => None,
    }
}

/// The publication instructions for a configuration.
pub open spec fn publication_instructions_for(
    attribution: Option<Seq<char>>,
    public_contribution_mode: bool,
) -> Seq<Seq<char>> {
    if public_contribution_mode {
        seq![public_contribution_instruction()]
    } else {
        match trailer_instruction_for(attribution) {
            Some(instruction) => seq![instruction],
            None => Seq::empty(),
        }
    }
}

/// What decides the publication instructions.
pub struct CommitPublicationConfig<'a> {
    pub commit_attribution: Option<&'a str>,
    pub public_contribution_mode: bool,
}

/// The instructions for commit messages and other publication surfaces.
pub fn commit_publication_instructions(config: CommitPublicationConfig<'_>) -> (r: Vec<String>)
    ensures
        r.deep_view() == publication_instructions_for(
            config.commit_attribution.deep_view(),
            config.public_contribution_mode,
        ),
{
    let mut out: Vec<String> = Vec::new();
    if config.public_contribution_mode {
        out.push(
            String::from_str(
                "## PUBLIC CONTRIBUTION MODE\n\nYou are preparing changes for a public or open-source repository.\n\nCommit messages, branch names, PR titles, and PR bodies must describe only the\ncode change. Do not include AI attribution, internal tool names, private project\nnames, model names, generated-by text, Co-authored-by trailers, or references to\nagentic workflows.\n\nWrite publication text as a human developer would. If this conflicts with\ngeneral attribution guidance, this public contribution mode controls publication\nsurfaces.",
            ),
        );
        assert(out.deep_view() =~= seq![public_contribution_instruction()]);
    } else {
        match commit_message_trailer_instruction(config.commit_attribution) {
            Some(instruction) => {
                out.push(instruction);
                assert(out.deep_view() =~= seq![
                    trailer_instruction_for(config.commit_attribution.deep_view())->0,
                ]);
            },
            None => {
                assert(out.deep_view() =~= Seq::<Seq<char>>::empty());
            },
        }
    }
    out
}

/// The `Co-authored-by:` trailer for the configured attribution, if any.
pub fn build_commit_message_trailer(config_attribution: Option<&str>) -> (r: Option<String>)
    ensures
        r.deep_view() == trailer_for(config_attribution.deep_view()),
{
    let value = resolve_attribution_value(config_attribution)?;
    let mut trailer = String::from_str("Co-authored-by: ");
    trailer.append(value.as_str());
    Some(trailer)
}

/// The instruction that asks for the trailer exactly once, if there is a trailer.
pub fn commit_message_trailer_instruction(config_attribution: Option<&str>) -> (r: Option<String>)
    ensures
        r.deep_view() == trailer_instruction_for(config_attribution.deep_view()),
{
    let trailer = build_commit_message_trailer(config_attribution)?;
    let mut instruction = String::from_str(
        "When you write or edit a git commit message, ensure the message ends with this trailer exactly once:\n",
    );
    instruction.append(trailer.as_str());
    instruction.append(
        "\n\nRules:\n- Keep existing trailers and append this trailer at the end if missing.\n- Do not duplicate this trailer if it already exists.\n- Keep one blank line between the commit body and trailer block.",
    );
    Some(instruction)
}

/// The attribution to use: the default when none is configured, none when the
/// configured value is blank, else the configured value trimmed.
pub fn resolve_attribution_value(config_attribution: Option<&str>) -> (r: Option<String>)
    ensures
        r.deep_view() == resolved_attribution(config_attribution.deep_view()),
{
    match config_attribution {
        Some(value) => {
            let trimmed_value = trim_text(value);
            if trimmed_value.as_str().unicode_len() == 0 {
                None
            } else {
                Some(trimmed_value)
            }
        },
        None => Some(String::from_str("Codex <noreply@openai.com>")),
    }
}

/// In public contribution mode the instructions are the public contribution
/// instruction alone, whatever attribution is configured: no trailer is asked for.
pub proof fn lemma_public_mode_suppresses_trailer(attribution: Option<Seq<char>>)
    ensures
        publication_instructions_for(attribution, true) == seq![public_contribution_instruction()],
        publication_instructions_for(attribution, true).len() == 1,
{
}

/// Outside public contribution mode there is at most one instruction, and there is
/// one exactly when the attribution resolves to a value; it then holds the trailer.
pub proof fn lemma_private_mode_single_trailer(attribution: Option<Seq<char>>)
    ensures
        publication_instructions_for(attribution, false).len() <= 1,
        (publication_instructions_for(attribution, false).len() == 1) == (resolved_attribution(
            attribution,
        ) is Some),
        resolved_attribution(attribution) matches Some(value) ==> publication_instructions_for(
            attribution,
            false,
        )[0] == trailer_instruction_head() + trailer_prefix() + value
            + trailer_instruction_rules(),
{
}

/// A resolved attribution is never blank and never begins or ends with whitespace.
pub proof fn lemma_resolved_attribution_is_trimmed(config: Option<Seq<char>>)
    ensures
        resolved_attribution(config) matches Some(value) ==> {
            &&& value.len() > 0
            &&& !is_unicode_whitespace(value[0])
            &&& !is_unicode_whitespace(value.last())
        },
{
    if let Some(v) = config {
        crate::text::lemma_trimmed_edges(v);
    } else {
        reveal_strlit("Codex <noreply@openai.com>");
    }
}

} // verus!
