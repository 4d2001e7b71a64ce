//! Models named by the outside sources: Hugging Face ids and the listing of `ollama list`.

use vstd::prelude::*;
use crate::heuristics::{family_of, Model, ModelSource, ModelView, parse_model_string, parsed_model};
use crate::text::{
    chars_eq, chars_of, first_word, first_word_exec, last_piece, lemma_split_last_after_slash,
    lines, lines_seq, lowercase, split_last, string_of, views,
};

verus! {

/// The views of a sequence of models.
pub open spec fn model_views(v: Seq<Model>) -> Seq<ModelView> {
    v.map_values(|m: Model| m@)
}

/// A Hugging Face model id (`owner/name`): the part after the last slash is read as a
/// model name, and the whole id is kept as the name.
pub open spec fn hf_model(id: Seq<char>) -> ModelView {
    let m = parsed_model(split_last(id, seq!['/']), ModelSource::HuggingFace);
    ModelView {
        name: id,
        family: m.family,
        size_label: m.size_label,
        total_params: m.total_params,
        active_params: m.active_params,
        quant: m.quant,
        source: m.source,
    }
}

/// Reads a model from a Hugging Face id such as `TheBloke/Llama-2-7B-Chat-GGUF`.
pub fn parse_hf_model_id(model_id: &str) -> (r: Model)
    ensures
        r@ == hf_model(model_id@),
{
    let id = chars_of(model_id);
    let mut slash: Vec<char> = Vec::new();
    slash.push('/');
    assert(slash@ =~= seq!['/']);
    let name_part = string_of(&last_piece(&id, &slash));
    let mut model = parse_model_string(name_part.as_str(), ModelSource::HuggingFace);
    model.name = String::from_str(model_id);
    model
}

/// A Hugging Face id `owner/name` is read from its name alone: whatever the owner, the
/// family, size, parameter counts and quantisation are those of `name` read as a model
/// name, and the name kept is the whole id.
pub proof fn lemma_hf_reads_name_part(owner: Seq<char>, name: Seq<char>)
    requires
        !name.contains('/'),
    ensures
        ({
            let m = hf_model(owner + seq!['/'] + name);
            let p = parsed_model(name, ModelSource::HuggingFace);
            &&& m.name == owner + seq!['/'] + name
            &&& m.family == family_of(lowercase(name))
            &&& m.family == p.family
            &&& m.size_label == p.size_label
            &&& m.total_params == p.total_params
            &&& m.active_params == p.active_params
            &&& m.quant == p.quant
            &&& m.source == ModelSource::HuggingFace
        }),
{
    lemma_split_last_after_slash(owner, name);
}

/// The model named by one line of `ollama list`, if the line has one: its first word,
/// unless that is the header's `NAME`.
pub open spec fn ollama_entry(line: Seq<char>) -> Seq<ModelView> {
    match first_word(line) {
        Some(w) => if w == "NAME"@ {
            Seq::empty()
        } else {
            seq![parsed_model(w, ModelSource::Ollama)]
        },
        None => Seq::empty(),
    }
}

/// The models named by a sequence of lines.
pub open spec fn ollama_models(ls: Seq<Seq<char>>) -> Seq<ModelView>
    decreases ls.len(),
{
    if ls.len() == 0 {
        Seq::empty()
    } else {
        ollama_models(ls.drop_last()) + ollama_entry(ls.last())
    }
}

/// The models listed by `ollama list`: one per line after the header line, named by the
/// line's first word.
pub open spec fn ollama_list(out: Seq<char>) -> Seq<ModelView> {
    let ls = lines_seq(out);
    if ls.len() == 0 {
        Seq::empty()
    } else {
        ollama_models(ls.skip(1))
    }
}

/// Reads the models from the output of `ollama list`.
pub fn parse_ollama_list(output: &str) -> (r: Vec<Model>)
    ensures
        model_views(r@) == ollama_list(output@),
{
    let s = chars_of(output);
    let ls = lines(&s);
    let ghost rest = lines_seq(output@).skip(1);
    let header = chars_of("NAME");
    let mut out: Vec<Model> = Vec::new();
    if ls.len() == 0 {
        assert(model_views(out@) =~= Seq::<ModelView>::empty());
        return out;
    }
    let n = ls.len();
    let mut i: usize = 1;
    while i < n
        invariant
            1 <= i <= n,
            n == ls@.len(),
            views(ls@) == lines_seq(output@),
            header@ == "NAME"@,
            rest == lines_seq(output@).skip(1),
            model_views(out@) == ollama_models(rest.take(i - 1)),
        decreases n - i,
    {
        let ghost before = out@;
        let line = &ls[i];
        assert(line@ == rest[i - 1]);
        assert(rest.take(i as int).drop_last() =~= rest.take(i - 1));
        match first_word_exec(line) {
            Some(w) => {
                if !chars_eq(&w, &header) {
                    let name = string_of(&w);
                    out.push(parse_model_string(name.as_str(), ModelSource::Ollama));
                    assert(model_views(out@) =~= model_views(before) + ollama_entry(line@));
                } else {
                    assert(ollama_entry(line@) =~= Seq::<ModelView>::empty());
                    assert(model_views(out@) =~= model_views(before) + ollama_entry(line@));
                }
            },
            None => {
                assert(model_views(out@) =~= model_views(before) + ollama_entry(line@));
            },
        }
        i = i + 1;
    }
    assert(rest.take(n - 1) =~= rest);
    out
}

} // verus!
