//! The state of the interactive browser: the model list, the search over it, the selected
//! model and the settings it is estimated with, and what each key press does to them.

use vstd::prelude::*;
use crate::adapters::{hf_model, model_views, parse_hf_model_id};
use crate::heuristics::{copy_model, parse_model_string, parsed_model, Model, ModelSource, ModelView};
use crate::system::SystemInfo;
use crate::text::{
    chars_of, contains_str, find, find_seq, first_piece, has_substring, last_piece, push_char,
    opt_view, slice, split_first, split_last, string_of, trim, trim_seq,
};

verus! {

/// How well a model name matches a search query, as `fuzzy_matcher`'s default
/// `SkimMatcherV2` scores it; nothing when the query does not match.
pub uninterp spec fn fuzzy_score(choice: Seq<char>, pattern: Seq<char>) -> Option<i64>;

/// Scores `choice` against `pattern` with `FuzzyMatcher::fuzzy_match` of a matcher built by
/// `fuzzy_matcher::skim::SkimMatcherV2::default()`. Claimed of it: the result is
/// `fuzzy_score` of the two texts, a function of them alone; how the score is computed is
/// not stated.
#[verifier::external_body]
fn fuzzy_match(choice: &str, pattern: &str) -> (r: Option<i64>)
    ensures
        r == fuzzy_score(choice@, pattern@),
{
    let matcher = fuzzy_matcher::skim::SkimMatcherV2::default();
    fuzzy_matcher::FuzzyMatcher::fuzzy_match(&matcher, choice, pattern)
}

/// The scores of the models of `ms` for the query `q`.
pub open spec fn match_scores(ms: Seq<ModelView>, q: Seq<char>) -> Seq<Option<i64>> {
    Seq::new(ms.len(), |i: int| fuzzy_score(ms[i].name, q))
}

/// Entry `i` comes before entry `j` in the results: a higher score first, and on equal
/// scores the one earlier in the list.
pub open spec fn ranks_before(sc: Seq<Option<i64>>, i: int, j: int) -> bool {
    let a = sc[i]->0;
    let b = sc[j]->0;
    a > b || (a == b && i < j)
}

/// `order` lists, best first, exactly the positions whose score is present.
pub open spec fn is_ranking(sc: Seq<Option<i64>>, order: Seq<int>) -> bool {
    &&& forall|k: int|
        0 <= k < order.len() ==> 0 <= #[trigger] order[k] < sc.len() && sc[order[k]] is Some
    &&& forall|i: int| 0 <= i < sc.len() && (#[trigger] sc[i]) is Some ==> order.contains(i)
    &&& forall|a: int, b: int|
        0 <= a < b < order.len() ==> ranks_before(sc, #[trigger] order[a], #[trigger] order[b])
}

/// `r` holds the models of `ms` that have a score in `sc`, best score first, equal scores in
/// list order.
pub open spec fn is_ranked_result(ms: Seq<ModelView>, sc: Seq<Option<i64>>, r: Seq<ModelView>) -> bool {
    &&& sc.len() == ms.len()
    &&& exists|order: Seq<int>| is_ranking(sc, order) && r == order.map_values(|i: int| ms[i])
}

/// The search results for `q`: the models that match it, best score first, equal scores in
/// list order.
pub open spec fn is_search_result(ms: Seq<ModelView>, q: Seq<char>, r: Seq<ModelView>) -> bool {
    is_ranked_result(ms, match_scores(ms, q), r)
}

proof fn lemma_ranking_prefix(sc: Seq<Option<i64>>, o1: Seq<int>, o2: Seq<int>, k: int)
    requires
        is_ranking(sc, o1),
        is_ranking(sc, o2),
        0 <= k <= o1.len(),
        k <= o2.len(),
    ensures
        forall|j: int| 0 <= j < k ==> o1[j] == o2[j],
    decreases k,
{
    if k > 0 {
        lemma_ranking_prefix(sc, o1, o2, k - 1);
        let m = k - 1;
        let x = o1[m];
        let y = o2[m];
        if x != y {
            assert(0 <= x < sc.len() && sc[x] is Some);
            assert(0 <= y < sc.len() && sc[y] is Some);
            assert(o2.contains(x));
            assert(o1.contains(y));
            let j = choose|j: int| 0 <= j < o2.len() && o2[j] == x;
            let i = choose|i: int| 0 <= i < o1.len() && o1[i] == y;
            if j < m {
                assert(o1[j] == o2[j]);
                assert(ranks_before(sc, o1[j], o1[m]));
            }
            if i < m {
                assert(o1[i] == o2[i]);
                assert(ranks_before(sc, o2[i], o2[m]));
            }
            assert(j > m && i > m);
            assert(ranks_before(sc, o2[m], o2[j]));
            assert(ranks_before(sc, o1[m], o1[i]));
        }
    }
}

/// The search results are determined: there is one ranking of the matching models.
pub proof fn lemma_ranking_unique(sc: Seq<Option<i64>>, o1: Seq<int>, o2: Seq<int>)
    requires
        is_ranking(sc, o1),
        is_ranking(sc, o2),
    ensures
        o1 == o2,
{
    if o1.len() <= o2.len() {
        lemma_ranking_prefix(sc, o1, o2, o1.len() as int);
        if o1.len() < o2.len() {
            let n = o1.len() as int;
            let y = o2[n];
            assert(o1.contains(y));
            let i = choose|i: int| 0 <= i < o1.len() && o1[i] == y;
            assert(o2[i] == y);
            assert(ranks_before(sc, o2[i], o2[n]));
        }
    } else {
        lemma_ranking_prefix(sc, o1, o2, o2.len() as int);
        let n = o2.len() as int;
        let y = o1[n];
        assert(o2.contains(y));
        let i = choose|i: int| 0 <= i < o2.len() && o2[i] == y;
        assert(o1[i] == y);
        assert(ranks_before(sc, o1[i], o1[n]));
    }
    assert(o1 =~= o2);
}

/// Two results ranked by the same scores are the same; in particular two search results for
/// the same list and query are.
pub proof fn lemma_ranked_result_unique(
    ms: Seq<ModelView>,
    sc: Seq<Option<i64>>,
    r1: Seq<ModelView>,
    r2: Seq<ModelView>,
)
    requires
        is_ranked_result(ms, sc, r1),
        is_ranked_result(ms, sc, r2),
    ensures
        r1 == r2,
{
    let o1 = choose|order: Seq<int>| is_ranking(sc, order) && r1 == order.map_values(|i: int| ms[i]);
    let o2 = choose|order: Seq<int>| is_ranking(sc, order) && r2 == order.map_values(|i: int| ms[i]);
    lemma_ranking_unique(sc, o1, o2);
}

/// A copy of a list of models.
pub fn copy_models(v: &Vec<Model>) -> (r: Vec<Model>)
    ensures
        model_views(r@) == model_views(v@),
{
    let mut r: Vec<Model> = Vec::new();
    let n = v.len();
    for i in 0..n
        invariant
            n == v@.len(),
            model_views(r@) == model_views(v@).take(i as int),
    {
        let ghost old_r = r@;
        let c = copy_model(&v[i]);
        r.push(c);
        assert(model_views(r@) =~= model_views(old_r).push(c@));
        assert(model_views(r@) =~= model_views(v@).take(i + 1));
    }
    assert(model_views(v@).take(n as int) =~= model_views(v@));
    r
}

/// The models that have a score, best score first, equal scores in list order.
pub fn rank_by_scores(models: &Vec<Model>, scores: &Vec<Option<i64>>) -> (r: Vec<Model>)
    requires
        scores@.len() == models@.len(),
    ensures
        is_ranked_result(model_views(models@), scores@, model_views(r@)),
{
    let ghost ms = model_views(models@);
    let ghost sc = scores@;
    let n = models.len();
    // (score, position) pairs, kept in result order
    let mut ranked: Vec<(i64, usize)> = Vec::new();
    for i in 0..n
        invariant
            n == models@.len(),
            ms == model_views(models@),
            sc == scores@,
            sc.len() == n,
            forall|k: int|
                0 <= k < ranked@.len() ==> (#[trigger] ranked@[k]).1 < i && sc[ranked@[k].1 as int] == Some(ranked@[k].0),
            forall|j: int|
                0 <= j < i && (#[trigger] sc[j]) is Some ==> exists|k: int|
                    0 <= k < ranked@.len() && ranked@[k].1 == j,
            forall|a: int, b: int|
                0 <= a < b < ranked@.len() ==> ((#[trigger] ranked@[a]).0 > (
                #[trigger] ranked@[b]).0 || (ranked@[a].0 == ranked@[b].0 && ranked@[a].1
                < ranked@[b].1)),
    {
        let score = scores[i];
        if let Some(s) = score {
            let m = ranked.len();
            let mut p: usize = 0;
            while p < m && ranked[p].0 >= s
                invariant
                    m == ranked@.len(),
                    p <= m,
                    forall|k: int| 0 <= k < p ==> (#[trigger] ranked@[k]).0 >= s,
                decreases m - p,
            {
                p = p + 1;
            }
            let ghost old_ranked = ranked@;
            ranked.insert(p, (s, i));
            proof {
                assert(ranked@ == old_ranked.insert(p as int, (s, i)));
                assert forall|a: int, b: int|
                    0 <= a < b < ranked@.len() implies ((#[trigger] ranked@[a]).0 > (
                    #[trigger] ranked@[b]).0 || (ranked@[a].0 == ranked@[b].0 && ranked@[a].1
                    < ranked@[b].1)) by {
                    if b < p {
                        assert(ranked@[a] == old_ranked[a]);
                        assert(ranked@[b] == old_ranked[b]);
                    } else if b == p {
                        assert(ranked@[a] == old_ranked[a]);
                    } else if a == p {
                        assert(ranked@[b] == old_ranked[b - 1]);
                        if p < m {
                            assert(old_ranked[p as int].0 < s);
                            if b - 1 > p {
                                assert(old_ranked[p as int].0 > old_ranked[b - 1].0 || (
                                old_ranked[p as int].0 == old_ranked[b - 1].0));
                            }
                        }
                    } else if a < p {
                        assert(ranked@[a] == old_ranked[a]);
                        assert(ranked@[b] == old_ranked[b - 1]);
                    } else {
                        assert(ranked@[a] == old_ranked[a - 1]);
                        assert(ranked@[b] == old_ranked[b - 1]);
                    }
                }
                assert forall|j: int|
                    0 <= j < i + 1 && (#[trigger] sc[j]) is Some implies exists|
                        k: int,
                    |
                        0 <= k < ranked@.len() && ranked@[k].1 == j by {
                    if j == i {
                        assert(ranked@[p as int].1 == j);
                    } else {
                        let k = choose|k: int| 0 <= k < old_ranked.len() && old_ranked[k].1 == j;
                        if k < p {
                            assert(ranked@[k].1 == j);
                        } else {
                            assert(ranked@[k + 1].1 == j);
                        }
                    }
                }
                assert forall|k: int| 0 <= k < ranked@.len() implies (#[trigger] ranked@[k]).1
                    < i + 1 && sc[ranked@[k].1 as int] == Some(ranked@[k].0) by {
                    if k < p {
                        assert(ranked@[k] == old_ranked[k]);
                    } else if k > p {
                        assert(ranked@[k] == old_ranked[k - 1]);
                    }
                }
            }
        }
    }
    let mut r: Vec<Model> = Vec::new();
    let m = ranked.len();
    let ghost order = ranked@.map_values(|e: (i64, usize)| e.1 as int);
    for k in 0..m
        invariant
            m == ranked@.len(),
            n == models@.len(),
            ms == model_views(models@),
            order == ranked@.map_values(|e: (i64, usize)| e.1 as int),
            forall|k: int| 0 <= k < ranked@.len() ==> (#[trigger] ranked@[k]).1 < n,
            model_views(r@) == order.take(k as int).map_values(|i: int| ms[i]),
    {
        let idx = ranked[k].1;
        let ghost old_r = r@;
        let c = copy_model(&models[idx]);
        r.push(c);
        assert(model_views(r@) =~= model_views(old_r).push(c@));
        assert(c@ == ms[idx as int]);
        assert(order.take(k + 1) == order.take(k as int).push(idx as int));
        assert(model_views(r@) =~= order.take(k + 1).map_values(|i: int| ms[i]));
    }
    proof {
        assert(order.take(m as int) =~= order);
        assert forall|k: int| 0 <= k < order.len() implies 0 <= #[trigger] order[k] < sc.len()
            && sc[order[k]] is Some by {
            assert(order[k] == ranked@[k].1);
        }
        assert forall|j: int| 0 <= j < sc.len() && (#[trigger] sc[j]) is Some implies order.contains(
            j,
        ) by {
            let k = choose|k: int| 0 <= k < ranked@.len() && ranked@[k].1 == j;
            assert(order[k] == j);
        }
        assert forall|a: int, b: int| 0 <= a < b < order.len() implies ranks_before(
            sc,
            #[trigger] order[a],
            #[trigger] order[b],
        ) by {
            assert(order[a] == ranked@[a].1);
            assert(order[b] == ranked@[b].1);
            assert(sc[order[a]]->0 == ranked@[a].0);
            assert(sc[order[b]]->0 == ranked@[b].0);
        }
        assert(is_ranking(sc, order));
    }
    r
}

/// The models that match `query`, best score first, equal scores in list order.
pub fn rank_models(models: &Vec<Model>, query: &str) -> (r: Vec<Model>)
    ensures
        is_search_result(model_views(models@), query@, model_views(r@)),
{
    let ghost ms = model_views(models@);
    let n = models.len();
    let mut scores: Vec<Option<i64>> = Vec::new();
    for i in 0..n
        invariant
            n == models@.len(),
            ms == model_views(models@),
            scores@ == match_scores(ms, query@).take(i as int),
    {
        let s = fuzzy_match(models[i].name.as_str(), query);
        scores.push(s);
        assert(scores@ =~= match_scores(ms, query@).take(i + 1));
    }
    assert(scores@ =~= match_scores(ms, query@));
    rank_by_scores(models, &scores)
}


/// What is estimated: a model, with the context length and batch size to assume.
pub struct EstimateRequest {
    pub model: Model,
    pub context_length: usize,
    pub batch_size: usize,
}

/// The abstract value of an [`EstimateRequest`].
pub struct RequestView {
    pub model: ModelView,
    pub context_length: usize,
    pub batch_size: usize,
}

impl View for EstimateRequest {
    type V = RequestView;

    open spec fn view(&self) -> RequestView {
        RequestView {
            model: self.model@,
            context_length: self.context_length,
            batch_size: self.batch_size,
        }
    }
}

/// The view of an optional request.
pub open spec fn request_view(r: Option<EstimateRequest>) -> Option<RequestView> {
    match r {
        Some(x) => Some(x@),
        None => None,
    }
}

/// A model with its quantisation replaced by the override, unless the override is
/// "Original".
pub open spec fn with_quant(m: ModelView, quant_override: Seq<char>) -> ModelView {
    if quant_override == "Original"@ {
        m
    } else {
        ModelView {
            name: m.name,
            family: m.family,
            size_label: m.size_label,
            total_params: m.total_params,
            active_params: m.active_params,
            quant: quant_override,
            source: m.source,
        }
    }
}

/// The selection and the estimate request once the estimate is brought up to date: nothing
/// to estimate when the list is empty; otherwise the selection falls back to the first
/// model when it is past the end, and the selected model is estimated with the quantisation
/// override and the current settings.
pub open spec fn recalc(
    filtered: Seq<ModelView>,
    sel: usize,
    quant_override: Seq<char>,
    ctx: usize,
    batch: usize,
) -> (usize, Option<RequestView>) {
    if filtered.len() == 0 {
        (sel, None)
    } else {
        let s: usize = if sel >= filtered.len() {
            0
        } else {
            sel
        };
        (
            s,
            Some(
                RequestView {
                    model: with_quant(filtered[s as int], quant_override),
                    context_length: ctx,
                    batch_size: batch,
                },
            ),
        )
    }
}

/// The model list browser.
pub struct App {
    pub system: SystemInfo,
    pub models: Vec<Model>,
    pub filtered_models: Vec<Model>,
    pub search_query: String,
    pub selected_index: usize,
    pub batch_size: usize,
    pub context_length: usize,
    /// "Original", or a quantisation to assume for every model.
    pub quant_override: String,
    /// The model and settings that the shown estimate is for.
    pub estimate_request: Option<EstimateRequest>,
    pub is_searching: bool,
    pub show_input: bool,
    pub input_buffer: String,
    pub input_cursor_position: usize,
}

/// Same machine, model list, shown list and query.
pub open spec fn same_lists(a: App, b: App) -> bool {
    &&& a.system == b.system
    &&& a.models == b.models
    &&& a.filtered_models == b.filtered_models
    &&& a.search_query == b.search_query
}

/// Same batch size, context length and quantisation override.
pub open spec fn same_settings(a: App, b: App) -> bool {
    &&& a.batch_size == b.batch_size
    &&& a.context_length == b.context_length
    &&& a.quant_override == b.quant_override
}

/// Same search and input modes, and same input text.
pub open spec fn same_modes(a: App, b: App) -> bool {
    &&& a.is_searching == b.is_searching
    &&& a.show_input == b.show_input
    &&& a.input_buffer == b.input_buffer
    &&& a.input_cursor_position == b.input_cursor_position
}

/// Same selection and estimate request.
pub open spec fn same_selection(a: App, b: App) -> bool {
    &&& a.selected_index == b.selected_index
    &&& request_view(a.estimate_request) == request_view(b.estimate_request)
}

impl App {
    /// The selection and request are those that bringing the estimate up to date from the
    /// selection `sel` gives, with the current list and settings.
    pub open spec fn settled(self, sel: usize) -> bool {
        (self.selected_index, request_view(self.estimate_request)) == recalc(
            model_views(self.filtered_models@),
            sel,
            self.quant_override@,
            self.context_length,
            self.batch_size,
        )
    }

    /// The selection lies in the shown list (or is 0 when the list is empty) and the
    /// estimate request is for the selected model with the current settings.
    pub open spec fn well_formed(self) -> bool {
        self.settled(self.selected_index)
    }
}

/// The selection one down a list of `len` models, staying on the last one.
pub open spec fn next_index(sel: usize, len: nat) -> usize {
    if sel + 1 < len {
        (sel + 1) as usize
    } else {
        sel
    }
}

/// The selection one up the list, staying on the first one.
pub open spec fn prev_index(sel: usize) -> usize {
    if sel > 0 {
        (sel - 1) as usize
    } else {
        sel
    }
}

/// `b` is `a` with the input popup opened or closed: opening it leaves search mode and
/// empties the input.
pub open spec fn toggled(a: App, b: App) -> bool {
    &&& same_lists(a, b)
    &&& same_settings(a, b)
    &&& same_selection(a, b)
    &&& b.show_input == !a.show_input
    &&& if b.show_input {
        !b.is_searching && b.input_buffer@.len() == 0 && b.input_cursor_position == 0
    } else {
        b.is_searching == a.is_searching && b.input_buffer == a.input_buffer
            && b.input_cursor_position == a.input_cursor_position
    }
}

/// `b` is `a` after the selection moved to `sel` and the estimate was brought up to date.
pub open spec fn reselected(a: App, b: App, sel: usize) -> bool {
    &&& same_lists(a, b)
    &&& same_settings(a, b)
    &&& same_modes(a, b)
    &&& b.settled(sel)
}

/// `b` is `a` after moving down the list (nothing happens on an empty list).
pub open spec fn moved_next(a: App, b: App) -> bool {
    if a.filtered_models@.len() == 0 {
        b == a
    } else {
        reselected(a, b, next_index(a.selected_index, a.filtered_models@.len()))
    }
}

/// `b` is `a` after moving up the list (nothing happens on an empty list).
pub open spec fn moved_prev(a: App, b: App) -> bool {
    if a.filtered_models@.len() == 0 {
        b == a
    } else {
        reselected(a, b, prev_index(a.selected_index))
    }
}

/// `b` is `a` after searching for `q`: the shown list is the whole list for an empty query
/// and the search results otherwise, and the first one is selected.
pub open spec fn searched(a: App, b: App, q: Seq<char>) -> bool {
    &&& b.system == a.system
    &&& b.models == a.models
    &&& b.search_query@ == q
    &&& (q.len() == 0 ==> model_views(b.filtered_models@) == model_views(a.models@))
    &&& (q.len() > 0 ==> is_search_result(model_views(a.models@), q, model_views(b.filtered_models@)))
    &&& same_settings(a, b)
    &&& same_modes(a, b)
    &&& b.settled(0)
}

/// `b` is `a` with the search cleared and search mode left: the whole list is shown again
/// and the first model is selected.
pub open spec fn search_cleared(a: App, b: App) -> bool {
    &&& b.system == a.system
    &&& b.models == a.models
    &&& b.search_query@.len() == 0
    &&& model_views(b.filtered_models@) == model_views(a.models@)
    &&& same_settings(a, b)
    &&& !b.is_searching
    &&& b.show_input == a.show_input
    &&& b.input_buffer == a.input_buffer
    &&& b.input_cursor_position == a.input_cursor_position
    &&& b.settled(0)
}

/// The input with any URL scheme (up to the first `://`) removed.
pub open spec fn without_scheme(t: Seq<char>) -> Seq<char> {
    match find_seq(t, "://"@) {
        Some(p) => t.skip(p + 3),
        None => t,
    }
}

/// The model that typed input names.
///
/// An `ollama.com/library/` URL names an Ollama model by what follows it (up to a `?`); a
/// `huggingface.co/` URL names a Hugging Face id by what follows it (up to a `/tree/`);
/// other input with a slash is a Hugging Face id; anything else is a model name. The name
/// shown is marked `[O]`, `[HF]` or `[M]`.
pub open spec fn entered_model(input: Seq<char>) -> ModelView {
    if has_substring(input, "ollama.com/library/"@) {
        let clean = split_first(split_last(input, "ollama.com/library/"@), seq!['?']);
        let m = parsed_model(clean, ModelSource::Manual);
        ModelView {
            name: "[O] "@ + clean,
            family: m.family,
            size_label: m.size_label,
            total_params: m.total_params,
            active_params: m.active_params,
            quant: m.quant,
            source: ModelSource::Ollama,
        }
    } else {
        let m = if has_substring(input, "huggingface.co/"@) {
            hf_model(split_first(split_last(input, "huggingface.co/"@), "/tree/"@))
        } else if has_substring(input, seq!['/']) {
            hf_model(input)
        } else {
            parsed_model(input, ModelSource::Manual)
        };
        let tag = if has_substring(input, "huggingface.co/"@) || has_substring(input, seq!['/']) {
            "[HF] "@
        } else {
            "[M] "@
        };
        ModelView {
            name: tag + m.name,
            family: m.family,
            size_label: m.size_label,
            total_params: m.total_params,
            active_params: m.active_params,
            quant: m.quant,
            source: if tag == "[HF] "@ {
                ModelSource::HuggingFace
            } else {
                ModelSource::Manual
            },
        }
    }
}

/// `b` is `a` after the typed input was submitted: blank input just closes the popup;
/// otherwise the model it names goes to the top of the list, the search is cleared, the
/// first model is selected and the popup closes.
pub open spec fn submitted(a: App, b: App) -> bool {
    let t = trim_seq(a.input_buffer@);
    &&& b.system == a.system
    &&& same_settings(a, b)
    &&& b.is_searching == a.is_searching
    &&& b.input_buffer == a.input_buffer
    &&& b.input_cursor_position == a.input_cursor_position
    &&& !b.show_input
    &&& if t.len() == 0 {
        &&& same_lists(a, b)
        &&& same_selection(a, b)
    } else {
        &&& model_views(b.models@) == seq![entered_model(without_scheme(t))] + model_views(
            a.models@,
        )
        &&& model_views(b.filtered_models@) == model_views(b.models@)
        &&& b.search_query@.len() == 0
        &&& b.settled(0)
    }
}


/// The model that typed input names.
fn entered_model_exec(input: &Vec<char>) -> (r: Model)
    ensures
        r@ == entered_model(input@),
{
    if contains_str(input, "ollama.com/library/") {
        let marker = chars_of("ollama.com/library/");
        proof {
            reveal_strlit("ollama.com/library/");
        }
        let mut q: Vec<char> = Vec::new();
        q.push('?');
        assert(q@ =~= seq!['?']);
        let name = last_piece(input, &marker);
        let clean = string_of(&first_piece(&name, &q));
        let mut m = parse_model_string(clean.as_str(), ModelSource::Manual);
        m.name = String::from_str("[O] ").concat(clean.as_str());
        m.source = ModelSource::Ollama;
        m
    } else if contains_str(input, "huggingface.co/") {
        let marker = chars_of("huggingface.co/");
        let tree = chars_of("/tree/");
        proof {
            reveal_strlit("huggingface.co/");
            reveal_strlit("/tree/");
        }
        let name_part = last_piece(input, &marker);
        let clean = string_of(&first_piece(&name_part, &tree));
        let mut m = parse_hf_model_id(clean.as_str());
        m.source = ModelSource::HuggingFace;
        m.name = String::from_str("[HF] ").concat(m.name.as_str());
        m
    } else {
        let mut slash: Vec<char> = Vec::new();
        slash.push('/');
        assert(slash@ =~= seq!['/']);
        let text = string_of(input);
        if crate::text::contains(input, &slash) {
            let mut m = parse_hf_model_id(text.as_str());
            m.source = ModelSource::HuggingFace;
            m.name = String::from_str("[HF] ").concat(m.name.as_str());
            m
        } else {
            let mut m = parse_model_string(text.as_str(), ModelSource::Manual);
            m.name = String::from_str("[M] ").concat(m.name.as_str());
            proof {
                assert("[M] "@ != "[HF] "@) by {
                    reveal_strlit("[M] ");
                    reveal_strlit("[HF] ");
                }
            }
            m
        }
    }
}

/// `s` without its last character, if it has one.
fn without_last(s: &String) -> (r: String)
    ensures
        r@ == (if s@.len() > 0 {
            s@.drop_last()
        } else {
            s@
        }),
{
    let v = chars_of(s.as_str());
    if v.len() == 0 {
        return String::new();
    }
    let w = slice(&v, 0, v.len() - 1);
    assert(w@ =~= s@.drop_last());
    string_of(&w)
}

impl App {
    /// A browser over `models` on the machine `system`: nothing searched, the first model
    /// selected, a context of 4096 tokens, a batch of 1 and no quantisation override.
    pub fn new(system: SystemInfo, models: Vec<Model>) -> (app: App)
        ensures
            app.system == system,
            model_views(app.models@) == model_views(models@),
            model_views(app.filtered_models@) == model_views(models@),
            app.search_query@.len() == 0,
            app.batch_size == 1,
            app.context_length == 4096,
            app.quant_override@ == "Original"@,
            !app.is_searching,
            !app.show_input,
            app.input_buffer@.len() == 0,
            app.input_cursor_position == 0,
            app.settled(0),
            app.well_formed(),
    {
        let filtered = copy_models(&models);
        let mut app = App {
            system,
            models,
            filtered_models: filtered,
            search_query: String::new(),
            selected_index: 0,
            batch_size: 1,
            context_length: 4096,
            quant_override: String::from_str("Original"),
            estimate_request: None,
            is_searching: false,
            show_input: false,
            input_buffer: String::new(),
            input_cursor_position: 0,
        };
        app.recalculate();
        app
    }

    /// Brings the estimate request up to date with the selection, the shown list and the
    /// settings.
    pub fn recalculate(&mut self)
        ensures
            same_lists(*old(self), *final(self)),
            same_settings(*old(self), *final(self)),
            same_modes(*old(self), *final(self)),
            final(self).settled(old(self).selected_index),
            final(self).well_formed(),
    {
        if self.filtered_models.len() == 0 {
            self.estimate_request = None;
            return;
        }
        if self.selected_index >= self.filtered_models.len() {
            self.selected_index = 0;
        }
        let mut model = copy_model(&self.filtered_models[self.selected_index]);
        let original = chars_of("Original");
        let qo = chars_of(self.quant_override.as_str());
        if !crate::text::chars_eq(&qo, &original) {
            model.quant = self.quant_override.clone();
        }
        self.estimate_request = Some(
            EstimateRequest {
                model,
                context_length: self.context_length,
                batch_size: self.batch_size,
            },
        );
    }

    /// Opens or closes the input popup; opening it leaves search mode and clears the input.
    pub fn toggle_input(&mut self)
        ensures
            toggled(*old(self), *final(self)),
    {
        self.show_input = !self.show_input;
        if self.show_input {
            self.is_searching = false;
            self.input_buffer = String::new();
            self.input_cursor_position = 0;
        }
    }

    /// Moves the selection one model down, staying on the last one.
    pub fn next_model(&mut self)
        ensures
            moved_next(*old(self), *final(self)),
    {
        if self.filtered_models.len() == 0 {
            return;
        }
        if self.selected_index < self.filtered_models.len() - 1 {
            self.selected_index = self.selected_index + 1;
        }
        self.recalculate();
    }

    /// Moves the selection one model up, staying on the first one.
    pub fn prev_model(&mut self)
        ensures
            moved_prev(*old(self), *final(self)),
    {
        if self.filtered_models.len() == 0 {
            return;
        }
        if self.selected_index > 0 {
            self.selected_index = self.selected_index - 1;
        }
        self.recalculate();
    }

    /// Searches the model list for `query` and selects the first result.
    pub fn update_search(&mut self, query: String)
        ensures
            searched(*old(self), *final(self), query@),
    {
        self.search_query = query;
        if self.search_query.as_str().is_empty() {
            self.filtered_models = copy_models(&self.models);
        } else {
            self.filtered_models = rank_models(&self.models, self.search_query.as_str());
        }
        self.selected_index = 0;
        self.recalculate();
    }

    /// Adds the model that the typed input names to the top of the list.
    pub fn submit_input(&mut self)
        ensures
            submitted(*old(self), *final(self)),
    {
        let buf = chars_of(self.input_buffer.as_str());
        let t = trim(&buf);
        if t.len() == 0 {
            self.show_input = false;
            return;
        }
        let sep = chars_of("://");
        proof {
            reveal_strlit("://");
        }
        let input = match find(&t, &sep) {
            Some(p) => {
                proof {
                    crate::text::lemma_find_from(t@, sep@, 0);
                }
                assert(p + 3 <= t.len());
                let rest = slice(&t, p + 3, t.len());
                assert(rest@ =~= t@.skip(p + 3));
                rest
            },
            None => t,
        };
        let new_model = entered_model_exec(&input);
        let ghost old_models = self.models@;
        self.models.insert(0, new_model);
        assert(model_views(self.models@) =~= seq![new_model@] + model_views(old_models));
        self.search_query = String::new();
        self.filtered_models = copy_models(&self.models);
        self.selected_index = 0;
        self.recalculate();
        self.show_input = false;
    }
}


/// A key, as the browser tells keys apart.
#[derive(Debug, Clone, Copy, PartialEq, Eq, Structural)]
pub enum Key {
    Char(char),
    Enter,
    Esc,
    Backspace,
    Tab,
    Up,
    Down,
    Other,
}

/// A key press, and whether Control was held.
#[derive(Debug, Clone, Copy, PartialEq, Eq, Structural)]
pub struct KeyPress {
    pub code: Key,
    pub ctrl: bool,
}

/// What the caller is to do after a key press.
#[derive(Debug, Clone, Copy, PartialEq, Eq, Structural)]
pub enum KeyAction {
    Continue,
    Quit,
    Export,
}

/// The context length that Tab moves to: 4096, 8192, 32768, 2048, and round again; any
/// other length goes to 4096.
pub open spec fn cycled_context(ctx: usize) -> usize {
    if ctx == 4096 {
        8192
    } else if ctx == 8192 {
        32768
    } else if ctx == 32768 {
        2048
    } else {
        4096
    }
}

/// The context length 1024 tokens longer, saturating.
pub open spec fn raised_context(ctx: usize) -> usize {
    if ctx + 1024 > usize::MAX {
        usize::MAX
    } else {
        (ctx + 1024) as usize
    }
}

/// The context length 1024 tokens shorter, but never below 512.
pub open spec fn lowered_context(ctx: usize) -> usize {
    let d: usize = if ctx >= 1024 {
        (ctx - 1024) as usize
    } else {
        0
    };
    if d > 512 {
        d
    } else {
        512
    }
}

/// `b` is `a` with the context length set to `ctx` and the estimate brought up to date.
pub open spec fn context_changed(a: App, b: App, ctx: usize) -> bool {
    &&& same_lists(a, b)
    &&& same_modes(a, b)
    &&& b.batch_size == a.batch_size
    &&& b.quant_override == a.quant_override
    &&& b.context_length == ctx
    &&& b.settled(a.selected_index)
}

/// `b` is `a` with the input text replaced by `text`.
pub open spec fn typed(a: App, b: App, text: Seq<char>) -> bool {
    &&& same_lists(a, b)
    &&& same_settings(a, b)
    &&& same_selection(a, b)
    &&& b.is_searching == a.is_searching
    &&& b.show_input == a.show_input
    &&& b.input_cursor_position == a.input_cursor_position
    &&& b.input_buffer@ == text
}

/// `b` is `a` with search mode switched to `on`.
pub open spec fn search_mode(a: App, b: App, on: bool) -> bool {
    &&& same_lists(a, b)
    &&& same_settings(a, b)
    &&& same_selection(a, b)
    &&& b.is_searching == on
    &&& b.show_input == a.show_input
    &&& b.input_buffer == a.input_buffer
    &&& b.input_cursor_position == a.input_cursor_position
}

/// A text without its last character, if it has one.
pub open spec fn drop_last_char(t: Seq<char>) -> Seq<char> {
    if t.len() > 0 {
        t.drop_last()
    } else {
        t
    }
}

/// What a key press does, from state `a` to state `b` with the action `r`.
///
/// Control-C quits. With the input popup open, Enter submits the input, Esc closes the
/// popup, Backspace and characters edit the input. In search mode, Enter leaves it keeping
/// the results, Esc clears the search and leaves it, Backspace and characters edit the query
/// and search again. Otherwise `q` quits, `i`
/// opens the popup, `e` asks for an export, `/` starts a search, Down or `j` and Up or `k`
/// move the selection, Tab cycles the context length, `+` and `-` lengthen and shorten it.
/// Any other key changes nothing.
pub open spec fn key_effect(a: App, b: App, key: KeyPress, r: KeyAction) -> bool {
    if key.code == Key::Char('c') && key.ctrl {
        r == KeyAction::Quit && b == a
    } else if a.show_input {
        r == KeyAction::Continue && match key.code {
            Key::Enter => submitted(a, b),
            Key::Esc => toggled(a, b),
            Key::Backspace => typed(a, b, drop_last_char(a.input_buffer@)),
            Key::Char(c) => typed(a, b, a.input_buffer@.push(c)),
            _ => b == a,
        }
    } else if a.is_searching {
        r == KeyAction::Continue && match key.code {
            Key::Enter => search_mode(a, b, false),
            Key::Esc => search_cleared(a, b),
            Key::Backspace => searched(a, b, drop_last_char(a.search_query@)),
            Key::Char(c) => searched(a, b, a.search_query@.push(c)),
            _ => b == a,
        }
    } else {
        match key.code {
            Key::Char('q') => r == KeyAction::Quit && b == a,
            Key::Char('i') => r == KeyAction::Continue && toggled(a, b),
            Key::Char('e') => r == KeyAction::Export && b == a,
            Key::Char('/') => r == KeyAction::Continue && search_mode(a, b, true),
            Key::Down | Key::Char('j') => r == KeyAction::Continue && moved_next(a, b),
            Key::Up | Key::Char('k') => r == KeyAction::Continue && moved_prev(a, b),
            Key::Tab => r == KeyAction::Continue && context_changed(
                a,
                b,
                cycled_context(a.context_length),
            ),
            Key::Char('+') => r == KeyAction::Continue && context_changed(
                a,
                b,
                raised_context(a.context_length),
            ),
            Key::Char('-') => r == KeyAction::Continue && context_changed(
                a,
                b,
                lowered_context(a.context_length),
            ),
            _ => r == KeyAction::Continue && b == a,
        }
    }
}

/// Enter in search mode only leaves search mode: the query, the results shown, the
/// selection and its estimate all stay as they were.
pub proof fn lemma_enter_keeps_search(a: App, b: App, key: KeyPress, r: KeyAction)
    requires
        a.is_searching,
        !a.show_input,
        key.code == Key::Enter,
        key_effect(a, b, key, r),
    ensures
        r == KeyAction::Continue,
        !b.is_searching,
        b.search_query == a.search_query,
        b.filtered_models == a.filtered_models,
        b.models == a.models,
        b.selected_index == a.selected_index,
        request_view(b.estimate_request) == request_view(a.estimate_request),
{
}

/// Esc in search mode clears the query and leaves search mode, showing the whole list
/// again with the first model selected.
pub proof fn lemma_escape_clears_search(a: App, b: App, key: KeyPress, r: KeyAction)
    requires
        a.is_searching,
        !a.show_input,
        key.code == Key::Esc,
        key_effect(a, b, key, r),
    ensures
        r == KeyAction::Continue,
        !b.is_searching,
        b.search_query@.len() == 0,
        model_views(b.filtered_models@) == model_views(a.models@),
        b.selected_index == 0,
{
}

/// An estimate brought up to date is consistent with the selection it settled on.
pub proof fn lemma_settled_well_formed(app: App, sel: usize)
    requires
        app.settled(sel),
    ensures
        app.well_formed(),
{
}

impl App {
    /// Sets the context length and brings the estimate up to date.
    pub fn set_context_length(&mut self, ctx: usize)
        ensures
            context_changed(*old(self), *final(self), ctx),
    {
        self.context_length = ctx;
        self.recalculate();
    }

    /// Applies one key press; the caller quits or exports as the returned action says.
    pub fn handle_key(&mut self, key: KeyPress) -> (r: KeyAction)
        ensures
            key_effect(*old(self), *final(self), key, r),
            old(self).well_formed() ==> final(self).well_formed(),
    {
        if key.code == Key::Char('c') && key.ctrl {
            return KeyAction::Quit;
        }
        if self.show_input {
            match key.code {
                Key::Enter => {
                    self.submit_input();
                    proof {
                        if trim_seq(old(self).input_buffer@).len() != 0 {
                            lemma_settled_well_formed(*self, 0);
                        }
                    }
                },
                Key::Esc => self.toggle_input(),
                Key::Backspace => {
                    self.input_buffer = without_last(&self.input_buffer);
                },
                Key::Char(c) => {
                    push_char(&mut self.input_buffer, c);
                },
                _ => {},
            }
            return KeyAction::Continue;
        }
        if self.is_searching {
            match key.code {
                Key::Enter => {
                    self.is_searching = false;
                },
                Key::Esc => {
                    self.is_searching = false;
                    self.update_search(String::new());
                    proof {
                        lemma_settled_well_formed(*self, 0);
                    }
                },
                Key::Backspace => {
                    let q = without_last(&self.search_query);
                    self.update_search(q);
                },
                Key::Char(c) => {
                    let mut q = self.search_query.clone();
                    push_char(&mut q, c);
                    self.update_search(q);
                },
                _ => {},
            }
            return KeyAction::Continue;
        }
        match key.code {
            Key::Char('q') => KeyAction::Quit,
            Key::Char('i') => {
                self.toggle_input();
                KeyAction::Continue
            },
            Key::Char('e') => KeyAction::Export,
            Key::Char('/') => {
                self.is_searching = true;
                KeyAction::Continue
            },
            Key::Down | Key::Char('j') => {
                self.next_model();
                KeyAction::Continue
            },
            Key::Up | Key::Char('k') => {
                self.prev_model();
                KeyAction::Continue
            },
            Key::Tab => {
                let ctx = if self.context_length == 4096 {
                    8192
                } else if self.context_length == 8192 {
                    32768
                } else if self.context_length == 32768 {
                    2048
                } else {
                    4096
                };
                self.set_context_length(ctx);
                KeyAction::Continue
            },
            Key::Char('+') => {
                let ctx = self.context_length.saturating_add(1024);
                self.set_context_length(ctx);
                KeyAction::Continue
            },
            Key::Char('-') => {
                let d = self.context_length.saturating_sub(1024);
                let ctx = if d > 512 {
                    d
                } else {
                    512
                };
                self.set_context_length(ctx);
                KeyAction::Continue
            },
            _ => KeyAction::Continue,
        }
    }
}


/// Pressing Tab four times from one of the lengths it offers comes back to that length.
pub proof fn lemma_context_cycle(ctx: usize)
    requires
        ctx == 4096 || ctx == 8192 || ctx == 32768 || ctx == 2048,
    ensures
        cycled_context(cycled_context(cycled_context(cycled_context(ctx)))) == ctx,
{
}

/// Shortening the context never takes it below 512 tokens, and lengthening it then
/// shortening it again gives back any length of at least 512 tokens (short of the largest).
pub proof fn lemma_context_steps(ctx: usize)
    ensures
        lowered_context(ctx) >= 512,
        ctx >= 512 && ctx + 1024 <= usize::MAX ==> lowered_context(raised_context(ctx)) == ctx,
{
}

/// On a well-formed browser whose selection is not on the last model, moving down and then
/// up gives back the same selection and the same estimate request.
pub proof fn lemma_next_then_prev(a: App, b: App, c: App)
    requires
        a.well_formed(),
        a.selected_index + 1 < a.filtered_models@.len(),
        moved_next(a, b),
        moved_prev(b, c),
    ensures
        c.selected_index == a.selected_index,
        request_view(c.estimate_request) == request_view(a.estimate_request),
        same_lists(a, c),
        same_settings(a, c),
        same_modes(a, c),
{
    assert(b.filtered_models@.len() == a.filtered_models@.len());
    assert(a.filtered_models.len() == a.filtered_models@.len());
    assert(next_index(a.selected_index, a.filtered_models@.len()) == a.selected_index + 1);
    assert(b.selected_index == a.selected_index + 1);
    assert(prev_index(b.selected_index) == a.selected_index);
    assert(model_views(c.filtered_models@) == model_views(a.filtered_models@));
}

/// Searching for the empty query shows the whole list again, whatever was searched before.
pub proof fn lemma_empty_search_restores(a: App, b: App, q: Seq<char>)
    requires
        searched(a, b, q),
        q.len() == 0,
    ensures
        model_views(b.filtered_models@) == model_views(b.models@),
{
}

/// Submitting input that names a model puts it first in the list and selects it.
pub proof fn lemma_submitted_model_selected(a: App, b: App)
    requires
        submitted(a, b),
        trim_seq(a.input_buffer@).len() > 0,
    ensures
        b.selected_index == 0,
        model_views(b.filtered_models@)[0] == entered_model(without_scheme(trim_seq(a.input_buffer@))),
        request_view(b.estimate_request) matches Some(r) && r.model == with_quant(
            entered_model(without_scheme(trim_seq(a.input_buffer@))),
            b.quant_override@,
        ),
{
}

/// The model that the command line asks for: the given name (`llama3:8b` by default) read
/// as a manually entered model, with the given quantisation if there is one.
pub open spec fn cli_model_of(model: Option<Seq<char>>, quant: Option<Seq<char>>) -> ModelView {
    let m = parsed_model(
        match model {
            Some(n) => n,
            None => "llama3:8b"@,
        },
        ModelSource::Manual,
    );
    match quant {
        Some(q) => ModelView {
            name: m.name,
            family: m.family,
            size_label: m.size_label,
            total_params: m.total_params,
            active_params: m.active_params,
            quant: q,
            source: m.source,
        },
        None => m,
    }
}

/// The model that the command line asks for.
pub fn cli_model(model: Option<String>, quant: Option<String>) -> (r: Model)
    ensures
        r@ == cli_model_of(opt_view(model), opt_view(quant)),
{
    let name = match model {
        Some(n) => n,
        None => String::from_str("llama3:8b"),
    };
    let mut m = parse_model_string(name.as_str(), ModelSource::Manual);
    if let Some(q) = quant {
        m.quant = q;
    }
    m
}

} // verus!
